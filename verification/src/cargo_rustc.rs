//! The command lines of the build tool and of the compiler.
//!
//! The build tool, run once in verbose mode on a placeholder program,
//! reports the compiler invocation it used in a line that starts with
//! ``Running ` ``. That invocation is found here; what is kept of it is
//! decided by `BinaryBuilder`.

use crate::binary::BinaryBuilder;
use crate::text::{
    chars_of, has_prefix_at, lines, same_str, slice_of, split_lines, starts_with, string_of,
    string_texts, texts, trim, trim_bounds, trim_start,
};
use vstd::prelude::*;

verus! {

/// How the build tool starts the line that reports a compiler invocation.
pub const RUNNING_LINE: &'static str = "Running `";

/// The word that starts that line.
pub const RUNNING: &'static str = "Running";

/// The profile under which the build tool optimizes.
pub const RELEASE: &'static str = "release";

/// The line reports a compiler invocation.
pub open spec fn is_running_line(line: Seq<char>) -> bool {
    starts_with(trim_start(line), RUNNING_LINE@)
}

/// The last of `ls` that reports a compiler invocation.
pub open spec fn last_running_line(ls: Seq<Seq<char>>) -> Option<Seq<char>>
    decreases ls.len(),
{
    if ls.len() == 0 {
        None
    } else if is_running_line(ls.last()) {
        Some(ls.last())
    } else {
        last_running_line(ls.drop_last())
    }
}

/// `s` without `prefix` at its start, as often as it stands there.
pub open spec fn without_leading(s: Seq<char>, prefix: Seq<char>) -> Seq<char>
    decreases s.len(),
{
    if prefix.len() > 0 && starts_with(s, prefix) {
        without_leading(s.skip(prefix.len() as int), prefix)
    } else {
        s
    }
}

/// `s` without the characters `c` at its start.
pub open spec fn without_leading_char(s: Seq<char>, c: char) -> Seq<char>
    decreases s.len(),
{
    if s.len() > 0 && s[0] == c {
        without_leading_char(s.skip(1), c)
    } else {
        s
    }
}

/// `s` without the characters `c` at its end.
pub open spec fn without_trailing_char(s: Seq<char>, c: char) -> Seq<char>
    decreases s.len(),
{
    if s.len() > 0 && s.last() == c {
        without_trailing_char(s.drop_last(), c)
    } else {
        s
    }
}

/// The reported line without the word `Running` at its very start, without
/// surrounding white space, and without the backquotes around what is left.
pub open spec fn trimmed_command(line: Seq<char>) -> Seq<char> {
    without_trailing_char(
        without_leading_char(trim(without_leading(line, RUNNING@)), '`'),
        '`',
    )
}

/// The arguments for the build tool: build the program `bin_name`, say
/// what is done, and optimize where `opt_level` is the release profile.
pub open spec fn cargo_arguments(bin_name: Seq<char>, opt_level: Seq<char>) -> Seq<Seq<char>> {
    if opt_level == RELEASE@ {
        seq!["build"@, "--release"@, "--bin"@, bin_name, "--verbose"@]
    } else {
        seq!["build"@, "--bin"@, bin_name, "--verbose"@]
    }
}

/// What the compiler is asked to emit: a linked program where the entry is
/// to be run, else only what a check of the source needs.
pub open spec fn emit_flag(run: bool) -> Seq<char> {
    if run {
        "--emit=link"@
    } else {
        "--emit=dep-info"@
    }
}

/// The arguments for the compiler: the output path, the flags of the
/// template, the source file, and what to emit.
pub open spec fn rustc_arguments(
    template: Seq<Seq<char>>,
    target: Seq<char>,
    main: Seq<char>,
    run: bool,
) -> Seq<Seq<char>> {
    seq!["-o"@, target] + template + seq![main, emit_flag(run)]
}

/// Leading characters `c` do not change what `without_leading_char` gives.
proof fn lemma_without_leading_char(s: Seq<char>, c: char, k: int)
    requires
        0 <= k <= s.len(),
        forall|i: int| 0 <= i < k ==> s[i] == c,
    ensures
        without_leading_char(s, c) == without_leading_char(s.skip(k), c),
    decreases k,
{
    if k == 0 {
        assert(s.skip(0) =~= s);
    } else {
        let t = s.skip(1);
        assert(t.skip(k - 1) =~= s.skip(k));
        assert forall|i: int| 0 <= i < k - 1 implies t[i] == c by {
            assert(t[i] == s[i + 1]);
        }
        lemma_without_leading_char(t, c, k - 1);
    }
}

/// Trailing characters `c` do not change what `without_trailing_char`
/// gives.
proof fn lemma_without_trailing_char(s: Seq<char>, c: char, k: int)
    requires
        0 <= k <= s.len(),
        forall|i: int| k <= i < s.len() ==> s[i] == c,
    ensures
        without_trailing_char(s, c) == without_trailing_char(s.take(k), c),
    decreases s.len() - k,
{
    if k == s.len() {
        assert(s.take(k) =~= s);
    } else {
        let t = s.drop_last();
        assert(t.take(k) =~= s.take(k));
        lemma_without_trailing_char(t, c, k);
    }
}

/// Whether `line` reports a compiler invocation.
pub fn line_is_running(line: &Vec<char>) -> (r: bool)
    ensures
        r == is_running_line(line@),
{
    let (a, _) = trim_bounds(line);
    proof {
        assert(line@.subrange(a as int, line.len() as int) =~= line@.skip(a as int));
    }
    has_prefix_at(line, a, line.len(), &chars_of(RUNNING_LINE))
}

/// The line of the build tool's report `output` that gives the compiler
/// invocation: the last one that starts, after white space, with
/// ``Running ` ``. There is none where the build tool reported no
/// invocation.
pub fn extract_build_command(output: &str) -> (r: Option<String>)
    ensures
        r is Some <==> last_running_line(lines(output@)) is Some,
        r matches Some(line) ==> Some(line@) == last_running_line(lines(output@)),
{
    let ls = split_lines(&chars_of(output));
    let mut k: usize = ls.len();
    proof {
        assert(texts(ls@).take(k as int) =~= texts(ls@));
    }
    while k > 0
        invariant
            k <= ls.len(),
            texts(ls@) == lines(output@),
            last_running_line(texts(ls@)) == last_running_line(texts(ls@).take(k as int)),
        decreases k,
    {
        let ghost upto = texts(ls@).take(k as int);
        proof {
            assert(upto.last() == ls@[k - 1]@);
            assert(upto.drop_last() =~= texts(ls@).take(k - 1));
        }
        if line_is_running(&ls[k - 1]) {
            return Some(string_of(&ls[k - 1]));
        }
        k = k - 1;
    }
    None
}

/// The compiler invocation that the reported line `line` holds.
pub fn trim_build_command(line: String) -> (r: String)
    ensures
        r@ == trimmed_command(line@),
{
    let chars = chars_of(line.as_str());
    let word = chars_of(RUNNING);
    let n = chars.len();
    let mut from: usize = 0;
    proof {
        assert(chars@.skip(0) =~= chars@);
    }
    while word.len() > 0 && word.len() <= n - from && has_prefix_at(&chars, from, n, &word)
        invariant
            from <= n == chars.len(),
            word@ == RUNNING@,
            without_leading(chars@, RUNNING@) == without_leading(chars@.skip(from as int), RUNNING@),
        decreases n - from,
    {
        proof {
            assert(chars@.subrange(from as int, n as int) =~= chars@.skip(from as int));
            assert(chars@.skip(from as int).skip(word.len() as int) =~= chars@.skip(
                from + word.len(),
            ));
        }
        from = from + word.len();
    }
    proof {
        assert(chars@.subrange(from as int, n as int) =~= chars@.skip(from as int));
    }
    let rest = slice_of(&chars, from, n);
    proof {
        assert(rest@ == without_leading(chars@, RUNNING@));
    }
    let (a, b) = trim_bounds(&rest);
    let ghost core = rest@.subrange(a as int, b as int);
    let mut start: usize = a;
    while start < b && rest[start] == '`'
        invariant
            a <= start <= b <= rest.len(),
            forall|i: int| a <= i < start ==> rest@[i] == '`',
        decreases b - start,
    {
        start = start + 1;
    }
    let mut end: usize = b;
    while end > start && rest[end - 1] == '`'
        invariant
            start <= end <= b <= rest.len(),
            forall|i: int| end <= i < b ==> rest@[i] == '`',
        decreases end,
    {
        end = end - 1;
    }
    proof {
        assert forall|i: int| 0 <= i < start - a implies core[i] == '`' by {
            assert(core[i] == rest@[i + a]);
        }
        lemma_without_leading_char(core, '`', start - a);
        let tail = core.skip(start - a);
        assert(tail =~= rest@.subrange(start as int, b as int));
        if tail.len() > 0 {
            assert(tail[0] == rest@[start as int]);
        }
        assert(without_leading_char(tail, '`') == tail);
        assert forall|i: int| end - start <= i < tail.len() implies tail[i] == '`' by {
            assert(tail[i] == rest@[i + start]);
        }
        lemma_without_trailing_char(tail, '`', end - start);
        let kept = tail.take(end - start);
        assert(kept =~= rest@.subrange(start as int, end as int));
        if kept.len() > 0 {
            assert(kept.last() == rest@[end - 1]);
        }
        assert(without_trailing_char(kept, '`') == kept);
    }
    string_of(&slice_of(&rest, start, end))
}

/// The arguments with which the build tool builds the placeholder program
/// `bin_name`.
pub fn cargo_args(bin_name: &str, opt_level: &str) -> (r: Vec<String>)
    ensures
        string_texts(r@) == cargo_arguments(bin_name@, opt_level@),
{
    let mut args: Vec<String> = Vec::new();
    args.push("build".to_owned());
    if same_str(opt_level, RELEASE) {
        args.push("--release".to_owned());
    }
    args.push("--bin".to_owned());
    args.push(bin_name.to_owned());
    args.push("--verbose".to_owned());
    proof {
        assert(string_texts(args@) =~= cargo_arguments(bin_name@, opt_level@));
    }
    args
}

/// The arguments with which the compiler builds the entry `main` into
/// `target`: into a program where `run` is set, else as far as a check of
/// the source needs.
pub fn build_entry(builder: &BinaryBuilder, target: &str, main: &str, run: bool) -> (r: Vec<
    String,
>)
    ensures
        string_texts(r@) == rustc_arguments(builder@, target@, main@, run),
{
    let mut args: Vec<String> = Vec::new();
    args.push("-o".to_owned());
    args.push(target.to_owned());
    let template = builder.args();
    let mut i: usize = 0;
    proof {
        assert(string_texts(args@) =~= seq!["-o"@, target@] + builder@.take(0));
    }
    while i < template.len()
        invariant
            i <= template.len(),
            string_texts(template@) == builder@,
            string_texts(args@) == seq!["-o"@, target@] + builder@.take(i as int),
        decreases template.len() - i,
    {
        let ghost before = string_texts(args@);
        args.push(template[i].clone());
        proof {
            assert(builder@[i as int] == template@[i as int]@);
            assert(builder@.take(i + 1) =~= builder@.take(i as int).push(template@[i as int]@));
            assert(string_texts(args@) =~= before.push(template@[i as int]@));
            assert(string_texts(args@) =~= seq!["-o"@, target@] + builder@.take(i + 1));
        }
        i = i + 1;
    }
    args.push(main.to_owned());
    if run {
        args.push("--emit=link".to_owned());
    } else {
        args.push("--emit=dep-info".to_owned());
    }
    proof {
        assert(builder@.take(template.len() as int) =~= builder@);
        assert(string_texts(args@) =~= rustc_arguments(builder@, target@, main@, run));
    }
    args
}

} // verus!
