//! The invocation template: the compiler flags that every entry is built
//! with, taken from the compiler invocation that the build tool reported
//! for a placeholder program.

use crate::text::{
    char_is_ascii_whitespace, chars_of, has_prefix_at, is_ascii_whitespace, join_texts, slice_of,
    starts_with, string_of, string_texts, texts,
};
use crate::paths::{replace_extension, with_extension};
use vstd::prelude::*;

verus! {

/// The flag that is followed by a library search path.
pub const SEARCH_PATH: &'static str = "-L";

/// The flag that is followed by the binding of an external crate.
pub const EXTERN: &'static str = "--extern";

/// How the flag that selects the language edition starts.
pub const EDITION: &'static str = "--edition";

/// The name of the placeholder program, before anything is added to it.
pub const PROBE_NAME: &'static str = "batch_runner_check_";

/// The source of the placeholder program.
pub const PROBE_SOURCE: &'static str = "fn main() {}";

/// How many characters at the start of `s` are no ASCII white space.
pub open spec fn word_len(s: Seq<char>) -> int
    decreases s.len(),
{
    if s.len() == 0 || is_ascii_whitespace(s[0]) {
        0
    } else {
        1 + word_len(s.skip(1))
    }
}

/// The words of `s`: its longest parts without ASCII white space.
pub open spec fn words(s: Seq<char>) -> Seq<Seq<char>>
    decreases s.len(),
{
    let k = word_len(s);
    if s.len() == 0 {
        Seq::empty()
    } else if !(0 < k <= s.len()) {
        words(s.skip(1))
    } else {
        seq![s.take(k)] + words(s.skip(k))
    }
}

/// What is kept for the word `cur` that follows the word `prev`: a search
/// path or an external binding together with its flag, or the edition
/// flag.
pub open spec fn kept(prev: Seq<char>, cur: Seq<char>) -> Seq<Seq<char>> {
    if prev == SEARCH_PATH@ {
        seq![SEARCH_PATH@, cur]
    } else if prev == EXTERN@ {
        seq![EXTERN@, cur]
    } else if starts_with(cur, EDITION@) {
        seq![cur]
    } else {
        Seq::empty()
    }
}

/// The word before the last one, or the empty text.
pub open spec fn before_last(tokens: Seq<Seq<char>>) -> Seq<char> {
    if tokens.len() >= 2 {
        tokens[tokens.len() - 2]
    } else {
        Seq::empty()
    }
}

/// The flags that are kept of the words of a compiler invocation, in
/// their order. The paths of the source and of the output are not among
/// them.
pub open spec fn template_of(tokens: Seq<Seq<char>>) -> Seq<Seq<char>>
    decreases tokens.len(),
{
    if tokens.len() == 0 {
        Seq::empty()
    } else {
        template_of(tokens.drop_last()) + kept(before_last(tokens), tokens.last())
    }
}

/// The digit for `n` in base sixteen, in lower case.
pub open spec fn hex_digit(n: u8) -> char
    recommends
        n < 16,
{
    if n < 10 {
        (0x30 + n) as char
    } else {
        (0x61 + n - 10) as char
    }
}

/// `n` in base sixteen, in lower case and without leading zeros.
pub open spec fn hex(n: u8) -> Seq<char> {
    if n < 16 {
        seq![hex_digit(n)]
    } else {
        seq![hex_digit(n / 16), hex_digit(n % 16)]
    }
}

/// The first word of `s` ends at `k` when white space stands there and
/// nowhere before.
pub proof fn lemma_word_len_at(s: Seq<char>, k: int)
    requires
        0 <= k <= s.len(),
        forall|i: int| 0 <= i < k ==> !is_ascii_whitespace(s[i]),
        k < s.len() ==> is_ascii_whitespace(s[k]),
    ensures
        word_len(s) == k,
    decreases s.len(),
{
    if s.len() == 0 || is_ascii_whitespace(s[0]) {
    } else {
        let t = s.skip(1);
        assert forall|i: int| 0 <= i < k - 1 implies !is_ascii_whitespace(t[i]) by {
            assert(t[i] == s[i + 1]);
        }
        lemma_word_len_at(t, k - 1);
    }
}

/// The words of `s`.
pub fn split_words(s: &Vec<char>) -> (out: Vec<Vec<char>>)
    ensures
        texts(out@) == words(s@),
{
    let mut out: Vec<Vec<char>> = Vec::new();
    let mut i: usize = 0;
    proof {
        assert(s@.skip(0) =~= s@);
        assert(texts(out@) + words(s@) =~= words(s@));
    }
    while i < s.len()
        invariant
            i <= s.len(),
            words(s@) == texts(out@) + words(s@.skip(i as int)),
        decreases s.len() - i,
    {
        let ghost rest = s@.skip(i as int);
        let ghost before = texts(out@);
        proof {
            assert(rest[0] == s@[i as int]);
        }
        if char_is_ascii_whitespace(s[i]) {
            proof {
                assert(rest.skip(1) =~= s@.skip(i + 1));
            }
            i = i + 1;
        } else {
            let mut end: usize = i + 1;
            while end < s.len() && !char_is_ascii_whitespace(s[end])
                invariant
                    i < end <= s.len(),
                    forall|j: int| i <= j < end ==> !is_ascii_whitespace(s@[j]),
                decreases s.len() - end,
            {
                end = end + 1;
            }
            let word = slice_of(s, i, end);
            out.push(word);
            proof {
                assert forall|j: int| 0 <= j < end - i implies !is_ascii_whitespace(rest[j]) by {
                    assert(rest[j] == s@[j + i]);
                }
                if end < s.len() {
                    assert(rest[end - i] == s@[end as int]);
                }
                lemma_word_len_at(rest, end - i);
                assert(rest.take(end - i) =~= word@);
                assert(rest.skip(end - i) =~= s@.skip(end as int));
                assert(texts(out@) =~= before.push(word@));
                assert(texts(out@) + words(s@.skip(end as int)) =~= before + (
                seq![word@] + words(rest.skip(end - i))));
            }
            i = end;
        }
    }
    proof {
        assert(words(s@.skip(i as int)) =~= Seq::<Seq<char>>::empty());
        assert(texts(out@) + words(s@.skip(i as int)) =~= texts(out@));
    }
    out
}

/// The invocation template.
#[derive(Debug, Clone, PartialEq, Eq)]
pub struct BinaryBuilder {
    args: Vec<String>,
}

impl View for BinaryBuilder {
    type V = Seq<Seq<char>>;

    closed spec fn view(&self) -> Seq<Seq<char>> {
        string_texts(self.args@)
    }
}

impl BinaryBuilder {
    /// The template made of the flags that are kept of the compiler
    /// invocation `command`.
    pub fn new(command: &str) -> (r: BinaryBuilder)
        ensures
            r@ == template_of(words(command@)),
    {
        into_builder(command)
    }

    /// The flags of the template.
    pub fn args(&self) -> (r: &Vec<String>)
        ensures
            string_texts(r@) == self@,
    {
        &self.args
    }
}

/// Whether the two texts are the same.
fn same_chars(a: &Vec<char>, b: &Vec<char>) -> (r: bool)
    ensures
        r == (a@ == b@),
{
    proof {
        assert(a@.subrange(0, a.len() as int) =~= a@);
        assert(a@.take(a.len() as int) =~= a@);
    }
    a.len() == b.len() && has_prefix_at(a, 0, a.len(), b)
}

/// The template made of the flags that are kept of the compiler invocation
/// `command`: each search path and each binding of an external crate with
/// its flag, and the edition flag.
pub fn into_builder(command: &str) -> (r: BinaryBuilder)
    ensures
        r@ == template_of(words(command@)),
{
    let tokens = split_words(&chars_of(command));
    let search_path = chars_of(SEARCH_PATH);
    let external = chars_of(EXTERN);
    let edition = chars_of(EDITION);
    let ghost all = texts(tokens@);
    let mut args: Vec<String> = Vec::new();
    let mut i: usize = 0;
    proof {
        assert(string_texts(args@) =~= template_of(all.take(0)));
    }
    while i < tokens.len()
        invariant
            i <= tokens.len(),
            all == texts(tokens@),
            search_path@ == SEARCH_PATH@,
            external@ == EXTERN@,
            edition@ == EDITION@,
            string_texts(args@) == template_of(all.take(i as int)),
        decreases tokens.len() - i,
    {
        let ghost before = string_texts(args@);
        let ghost upto = all.take(i + 1);
        let cur = &tokens[i];
        proof {
            assert(upto.drop_last() =~= all.take(i as int));
            assert(upto.last() == cur@);
            if i > 0 {
                assert(before_last(upto) == tokens@[i - 1]@);
            } else {
                assert(before_last(upto) =~= Seq::<char>::empty());
            }
            assert(cur@.subrange(0, cur.len() as int) =~= cur@);
        }
        let after_search = i > 0 && same_chars(&tokens[i - 1], &search_path);
        let after_extern = i > 0 && same_chars(&tokens[i - 1], &external);
        proof {
            if i == 0 {
                assert(Seq::<char>::empty().len() == 0);
                assert(search_path@ != Seq::<char>::empty()) by {
                    reveal_strlit("-L");
                }
                assert(external@ != Seq::<char>::empty()) by {
                    reveal_strlit("--extern");
                }
            }
        }
        if after_search {
            args.push(SEARCH_PATH.to_owned());
            args.push(string_of(cur));
            proof {
                assert(string_texts(args@) =~= before + seq![SEARCH_PATH@, cur@]);
            }
        } else if after_extern {
            args.push(EXTERN.to_owned());
            args.push(string_of(cur));
            proof {
                assert(string_texts(args@) =~= before + seq![EXTERN@, cur@]);
            }
        } else if has_prefix_at(cur, 0, cur.len(), &edition) {
            args.push(string_of(cur));
            proof {
                assert(string_texts(args@) =~= before + seq![cur@]);
            }
        } else {
            proof {
                assert(string_texts(args@) =~= before + Seq::<Seq<char>>::empty());
            }
        }
        i = i + 1;
    }
    proof {
        assert(all.take(tokens.len() as int) =~= all);
    }
    BinaryBuilder { args }
}

/// The extension of the source of the placeholder program.
pub const PROBE_EXTENSION: &'static str = "rs";

/// Where the source of the placeholder program `name` lies in the
/// directory `bin_dir`.
pub open spec fn probe_path(bin_dir: Seq<char>, name: Seq<char>) -> Seq<char> {
    with_extension(bin_dir + seq!['/'] + name, PROBE_EXTENSION@)
}

/// One step of tidying up after the placeholder program.
#[derive(Debug, Clone, PartialEq, Eq)]
pub enum Cleanup {
    /// Remove the file at the given path.
    RemoveFile(String),
    /// Remove the directory at the given path.
    RemoveDir(String),
}

/// `Cleanup` over mathematical text.
pub enum CleanupView {
    RemoveFile(Seq<char>),
    RemoveDir(Seq<char>),
}

impl View for Cleanup {
    type V = CleanupView;

    open spec fn view(&self) -> CleanupView {
        match self {
            Cleanup::RemoveFile(path) => CleanupView::RemoveFile(path@),
            Cleanup::RemoveDir(path) => CleanupView::RemoveDir(path@),
        }
    }
}

/// The views of a list of steps.
pub open spec fn cleanup_views(steps: Seq<Cleanup>) -> Seq<CleanupView> {
    steps.map_values(|step: Cleanup| step@)
}

/// What is to be removed after the placeholder program `name` in
/// `bin_dir`: its source always, the directory only where it was made for
/// the placeholder program.
pub open spec fn cleanup_steps(bin_dir: Seq<char>, name: Seq<char>, bin_created: bool) -> Seq<
    CleanupView,
> {
    if bin_created {
        seq![CleanupView::RemoveFile(probe_path(bin_dir, name)), CleanupView::RemoveDir(bin_dir)]
    } else {
        seq![CleanupView::RemoveFile(probe_path(bin_dir, name))]
    }
}

/// The placeholder program of one derivation of the template: its name,
/// and whether its directory was made for it.
#[derive(Debug, Clone, PartialEq, Eq)]
pub struct PreBinary {
    name: String,
    bin_created: bool,
}

impl View for PreBinary {
    type V = (Seq<char>, bool);

    closed spec fn view(&self) -> (Seq<char>, bool) {
        (self.name@, self.bin_created)
    }
}

impl PreBinary {
    /// The placeholder program `name`; `bin_created` says whether its
    /// directory had to be made.
    pub fn new(name: String, bin_created: bool) -> (r: PreBinary)
        ensures
            r@ == (name@, bin_created),
    {
        PreBinary { name, bin_created }
    }

    /// The name of the program.
    pub fn name(&self) -> (r: &str)
        ensures
            r@ == self@.0,
    {
        self.name.as_str()
    }

    /// Where its source lies in the directory `bin_dir`.
    pub fn source_path(&self, bin_dir: &str) -> (r: String)
        ensures
            r@ == probe_path(bin_dir@, self@.0),
    {
        let mut joined = join_texts(bin_dir, "/");
        proof {
            reveal_strlit("/");
            assert("/"@ =~= seq!['/']);
        }
        joined.append(self.name.as_str());
        replace_extension(joined.as_str(), PROBE_EXTENSION)
    }

    /// What is to be removed once the template is derived, or deriving it
    /// has failed.
    pub fn cleanup(&self, bin_dir: &str) -> (r: Vec<Cleanup>)
        ensures
            cleanup_views(r@) == cleanup_steps(bin_dir@, self@.0, self@.1),
    {
        let mut steps: Vec<Cleanup> = Vec::new();
        steps.push(Cleanup::RemoveFile(self.source_path(bin_dir)));
        if self.bin_created {
            steps.push(Cleanup::RemoveDir(bin_dir.to_owned()));
        }
        proof {
            assert(cleanup_views(steps@) =~= cleanup_steps(bin_dir@, self@.0, self@.1));
        }
        steps
    }
}

/// The digit for `n` in base sixteen.
fn digit(n: u8) -> (c: char)
    requires
        n < 16,
    ensures
        c == hex_digit(n),
{
    if n < 10 {
        (0x30 + n) as char
    } else {
        (0x61 + n - 10) as char
    }
}

/// `name` with `salt` added in base sixteen: the next name to try for the
/// placeholder program when `name` is taken.
pub fn extend_probe_name(name: &str, salt: u8) -> (r: String)
    ensures
        r@ == name@ + hex(salt),
{
    let mut digits: Vec<char> = Vec::new();
    if salt >= 16 {
        digits.push(digit(salt / 16));
    }
    digits.push(digit(salt % 16));
    proof {
        assert(digits@ =~= hex(salt));
    }
    join_texts(name, string_of(&digits).as_str())
}

/// `rand::random::<u8>`: a byte drawn from the random number generator of
/// the thread. Nothing is claimed of its value.
#[verifier::external_body]
fn random_byte() -> (r: u8) {
    rand::random::<u8>()
}

/// A name to try for the placeholder program when `name` is taken: `name`
/// with a byte drawn at random added in base sixteen.
pub fn next_probe_name(name: &str) -> (r: String)
    ensures
        exists|salt: u8| r@ == name@ + #[trigger] hex(salt),
{
    extend_probe_name(name, random_byte())
}

} // verus!
