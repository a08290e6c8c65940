use batch_run::binary::{
    extend_probe_name, into_builder, next_probe_name, split_words, BinaryBuilder, Cleanup,
    PreBinary, PROBE_NAME, PROBE_SOURCE,
};
use batch_run::cargo_rustc::{build_entry, cargo_args, extract_build_command, trim_build_command};

const REPORT: &str = "   Compiling probe v0.1.0 (/p)\n     Running `rustc --crate-name old src/bin/old.rs`\n     Running `rustc --crate-name probe --edition=2018 src/bin/probe.rs --cfg 'feature=\"x\"' -C debuginfo=2 --out-dir /p/target/debug/deps -L dependency=/p/target/debug/deps --extern glob=/p/target/debug/deps/libglob.rlib --extern serde=/p/libserde.rlib`\n    Finished dev [unoptimized + debuginfo] target(s) in 0.35s\n";

#[test]
fn the_last_reported_invocation_is_found() {
    let line = extract_build_command(REPORT).unwrap();
    assert!(line.starts_with("     Running `rustc --crate-name probe "));
    assert!(line.ends_with("libserde.rlib`"));
    assert_eq!(extract_build_command("  Running `a`\n\tRunning `b`"), Some(String::from("\tRunning `b`")));
}

#[test]
fn a_report_without_invocation_has_none() {
    assert_eq!(extract_build_command(""), None);
    assert_eq!(extract_build_command("   Compiling x\n    Finished\n"), None);
    assert_eq!(extract_build_command("Running rustc\nnote: Running `x`\n"), None);
}

#[test]
fn the_reported_line_is_trimmed() {
    assert_eq!(trim_build_command(String::from("Running `rustc b`")), "rustc b");
    assert_eq!(trim_build_command(String::from("RunningRunning  ``rustc b``  ")), "rustc b");
    assert_eq!(trim_build_command(String::from("     Running `rustc b`")), "Running `rustc b");
    assert_eq!(trim_build_command(String::from("Running")), "");
    assert_eq!(trim_build_command(String::from("  ` `  ")), " ");
    assert_eq!(trim_build_command(String::from("")), "");
}

#[test]
fn the_template_keeps_search_paths_bindings_and_edition() {
    let command = trim_build_command(extract_build_command(REPORT).unwrap());
    let builder = into_builder(&command);
    assert_eq!(
        builder.args(),
        &vec![
            String::from("--edition=2018"),
            String::from("-L"),
            String::from("dependency=/p/target/debug/deps"),
            String::from("--extern"),
            String::from("glob=/p/target/debug/deps/libglob.rlib"),
            String::from("--extern"),
            String::from("serde=/p/libserde.rlib"),
        ]
    );
    assert_eq!(BinaryBuilder::new(&command), builder);
}

#[test]
fn the_template_follows_the_words() {
    assert_eq!(into_builder("").args(), &Vec::<String>::new());
    assert_eq!(into_builder("rustc main.rs -o out").args(), &Vec::<String>::new());
    assert_eq!(into_builder("-L").args(), &Vec::<String>::new());
    assert_eq!(
        into_builder("-L -L x").args(),
        &vec![String::from("-L"), String::from("-L"), String::from("-L"), String::from("x")]
    );
    assert_eq!(
        into_builder("--extern --edition=2021").args(),
        &vec![String::from("--extern"), String::from("--edition=2021")]
    );
    assert_eq!(
        into_builder(" \t--edition\n2018\r\n").args(),
        &vec![String::from("--edition")]
    );
    assert_eq!(into_builder("x--edition=2018 -Lnative=/p").args(), &Vec::<String>::new());
}

#[test]
fn words_are_parted_by_ascii_white_space() {
    let words: Vec<String> = split_words(&" a  b\tc\u{a0}d\n\u{c}e ".chars().collect())
        .into_iter()
        .map(|w| w.into_iter().collect())
        .collect();
    assert_eq!(words, vec!["a", "b", "c\u{a0}d", "e"]);
    for text in ["", "   ", "one", " x y ", "a\u{b}b", "tab\tsep\r\nline"] {
        let expected: Vec<String> = text.split_ascii_whitespace().map(String::from).collect();
        let got: Vec<String> = split_words(&text.chars().collect())
            .into_iter()
            .map(|w| w.into_iter().collect())
            .collect();
        assert_eq!(got, expected);
    }
}

#[test]
fn build_tool_arguments() {
    assert_eq!(cargo_args("probe", "release"), vec!["build", "--release", "--bin", "probe", "--verbose"]);
    assert_eq!(cargo_args("probe", "debug"), vec!["build", "--bin", "probe", "--verbose"]);
    assert_eq!(cargo_args("", "Release"), vec!["build", "--bin", "", "--verbose"]);
}

#[test]
fn compiler_arguments() {
    let builder = into_builder("rustc --edition=2018 -L dependency=/deps");
    assert_eq!(
        build_entry(&builder, "./target/batch", "tests/a.rs", true),
        vec!["-o", "./target/batch", "--edition=2018", "-L", "dependency=/deps", "tests/a.rs", "--emit=link"]
    );
    assert_eq!(
        build_entry(&builder, "./target/batch", "tests/a.rs", false),
        vec!["-o", "./target/batch", "--edition=2018", "-L", "dependency=/deps", "tests/a.rs", "--emit=dep-info"]
    );
    assert_eq!(
        build_entry(&into_builder(""), "out", "main.rs", false),
        vec!["-o", "out", "main.rs", "--emit=dep-info"]
    );
}

#[test]
fn probe_names_grow_by_hex_digits() {
    assert_eq!(extend_probe_name("batch_runner_check_", 0xab), "batch_runner_check_ab");
    assert_eq!(extend_probe_name("batch_runner_check_", 0x05), "batch_runner_check_5");
    assert_eq!(extend_probe_name("x", 0), "x0");
    assert_eq!(extend_probe_name("x", 0x10), "x10");
    assert_eq!(extend_probe_name("", 0xff), "ff");
    for salt in 0..=255u8 {
        assert_eq!(extend_probe_name("n", salt), format!("n{:x}", salt));
    }
}

#[test]
fn the_next_probe_name_adds_a_random_byte() {
    for _ in 0..64 {
        let next = next_probe_name(PROBE_NAME);
        let added = next.strip_prefix("batch_runner_check_").unwrap();
        assert!(added.len() == 1 || added.len() == 2);
        let salt = u8::from_str_radix(added, 16).unwrap();
        assert_eq!(next, extend_probe_name(PROBE_NAME, salt));
    }
    assert_eq!(PROBE_SOURCE, "fn main() {}");
}

#[test]
fn the_placeholder_program_is_tidied_up() {
    let made = PreBinary::new(String::from("batch_runner_check_"), true);
    assert_eq!(made.name(), "batch_runner_check_");
    assert_eq!(made.source_path("/p/src/bin"), "/p/src/bin/batch_runner_check_.rs");
    assert_eq!(
        made.cleanup("/p/src/bin"),
        vec![
            Cleanup::RemoveFile(String::from("/p/src/bin/batch_runner_check_.rs")),
            Cleanup::RemoveDir(String::from("/p/src/bin")),
        ]
    );
    let found = PreBinary::new(String::from("batch_runner_check_a1"), false);
    assert_eq!(
        found.cleanup("src/bin"),
        vec![Cleanup::RemoveFile(String::from("src/bin/batch_runner_check_a1.rs"))]
    );
}

#[test]
fn trimming_agrees_with_the_standard_library() {
    for line in [
        "Running `rustc x`",
        "     Running `rustc --edition=2018 a.rs`",
        "RunningRunning`x`",
        "Running\t`` a `b` ``\n",
        "Runnin `x`",
        "`only`",
        "```",
        "",
        "  \u{2003}Running\u{a0}",
    ] {
        let expected = line.trim_start_matches("Running").trim().trim_matches('`');
        assert_eq!(trim_build_command(String::from(line)), expected);
    }
}

#[test]
fn finding_the_invocation_agrees_with_the_standard_library() {
    for report in [
        REPORT,
        "",
        "Running `a`",
        " \u{a0}Running `a`\r\nRunning`b`\n\tRunning `c`\r\nlast",
        "warning: x\n  Running `one`\n",
    ] {
        let expected = report
            .lines()
            .filter(|line| line.trim_start().starts_with("Running `"))
            .last()
            .map(String::from);
        assert_eq!(extract_build_command(report), expected);
    }
}
