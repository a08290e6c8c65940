//! Text primitives.
//!
//! Compiler and program output is handled as sequences of characters. Every
//! operation has a mathematical definition over `Seq<char>` and an executable
//! counterpart over `Vec<char>` that is proved to compute it.

use vstd::prelude::*;

verus! {

/// Characters with the Unicode `White_Space` property.
pub open spec fn is_whitespace(c: char) -> bool {
    let n = c as u32;
    ||| 0x09 <= n <= 0x0D
    ||| n == 0x20
    ||| n == 0x85
    ||| n == 0xA0
    ||| n == 0x1680
    ||| 0x2000 <= n <= 0x200A
    ||| n == 0x2028
    ||| n == 0x2029
    ||| n == 0x202F
    ||| n == 0x205F
    ||| n == 0x3000
}

/// The five ASCII white space characters: space, tab, line feed, form feed
/// and carriage return.
pub open spec fn is_ascii_whitespace(c: char) -> bool {
    c == ' ' || c == '\t' || c == '\n' || c == '\x0C' || c == '\r'
}

/// `s` without its trailing white space.
pub open spec fn trim_end(s: Seq<char>) -> Seq<char>
    decreases s.len(),
{
    if s.len() > 0 && is_whitespace(s.last()) {
        trim_end(s.drop_last())
    } else {
        s
    }
}

/// `s` without its leading white space.
pub open spec fn trim_start(s: Seq<char>) -> Seq<char>
    decreases s.len(),
{
    if s.len() > 0 && is_whitespace(s[0]) {
        trim_start(s.skip(1))
    } else {
        s
    }
}

/// `s` without leading and trailing white space.
pub open spec fn trim(s: Seq<char>) -> Seq<char> {
    trim_end(trim_start(s))
}

/// `prefix` stands at the start of `s`.
pub open spec fn starts_with(s: Seq<char>, prefix: Seq<char>) -> bool {
    prefix.len() <= s.len() && s.take(prefix.len() as int) == prefix
}

/// `suffix` stands at the end of `s`.
pub open spec fn ends_with(s: Seq<char>, suffix: Seq<char>) -> bool {
    suffix.len() <= s.len() && s.skip(s.len() - suffix.len()) == suffix
}

/// `s` with every carriage return that is followed by a line feed removed,
/// scanning from the left.
pub open spec fn unify_newlines(s: Seq<char>) -> Seq<char>
    decreases s.len(),
{
    if s.len() == 0 {
        s
    } else if s.len() >= 2 && s[0] == '\r' && s[1] == '\n' {
        seq!['\n'] + unify_newlines(s.skip(2))
    } else {
        seq![s[0]] + unify_newlines(s.skip(1))
    }
}

/// Index of the first line feed in `s`, or `s.len()` when it has none.
pub open spec fn first_newline(s: Seq<char>) -> int
    decreases s.len(),
{
    if s.len() == 0 || s[0] == '\n' {
        0
    } else {
        1 + first_newline(s.skip(1))
    }
}

/// A line without the carriage return that ended it, if one did.
pub open spec fn strip_cr(line: Seq<char>) -> Seq<char> {
    if line.len() > 0 && line.last() == '\r' {
        line.drop_last()
    } else {
        line
    }
}

/// The lines of `s`. A line ends at a line feed; the line feed, and a
/// carriage return directly before it, do not belong to the line. Text after
/// the last line feed is a line of its own, kept as it is; the empty text has
/// no lines.
pub open spec fn lines(s: Seq<char>) -> Seq<Seq<char>>
    decreases s.len(),
{
    let k = first_newline(s);
    if s.len() == 0 {
        Seq::empty()
    } else if !(0 <= k < s.len()) {
        seq![s]
    } else {
        seq![strip_cr(s.take(k))] + lines(s.skip(k + 1))
    }
}

/// `a` comes before `b`, or equals it, in the lexicographic order given by
/// the characters' code points.
pub open spec fn lex_le(a: Seq<char>, b: Seq<char>) -> bool
    decreases a.len(),
{
    if a.len() == 0 {
        true
    } else if b.len() == 0 {
        false
    } else if a[0] != b[0] {
        (a[0] as u32) < (b[0] as u32)
    } else {
        lex_le(a.skip(1), b.skip(1))
    }
}

/// What `String::from_utf8_lossy` makes of `bytes`: the text that the bytes
/// encode in UTF-8, with U+FFFD in place of what is not valid UTF-8.
pub uninterp spec fn utf8_lossy(bytes: Seq<u8>) -> Seq<char>;

/// The texts that a vector of character vectors holds.
pub open spec fn texts(v: Seq<Vec<char>>) -> Seq<Seq<char>> {
    v.map_values(|l: Vec<char>| l@)
}

/// The texts that a vector of strings holds.
pub open spec fn string_texts(v: Seq<String>) -> Seq<Seq<char>> {
    v.map_values(|l: String| l@)
}

/// The first line feed lies within the text, and nothing before it is a
/// line feed.
pub proof fn lemma_first_newline_bounds(s: Seq<char>)
    ensures
        0 <= first_newline(s) <= s.len(),
        first_newline(s) < s.len() ==> s[first_newline(s)] == '\n',
        forall|i: int| 0 <= i < first_newline(s) ==> s[i] != '\n',
    decreases s.len(),
{
    if s.len() == 0 || s[0] == '\n' {
    } else {
        let t = s.skip(1);
        lemma_first_newline_bounds(t);
        assert forall|i: int| 0 <= i < first_newline(s) implies s[i] != '\n' by {
            if i > 0 {
                assert(s[i] == t[i - 1]);
            }
        }
    }
}

/// The first line feed of `s` is at `k` when `k` holds one and nothing
/// before it does.
pub proof fn lemma_first_newline_at(s: Seq<char>, k: int)
    requires
        0 <= k <= s.len(),
        forall|i: int| 0 <= i < k ==> s[i] != '\n',
        k < s.len() ==> s[k] == '\n',
    ensures
        first_newline(s) == k,
    decreases s.len(),
{
    if s.len() == 0 || s[0] == '\n' {
    } else {
        let t = s.skip(1);
        assert forall|i: int| 0 <= i < k - 1 implies t[i] != '\n' by {
            assert(t[i] == s[i + 1]);
        }
        lemma_first_newline_at(t, k - 1);
    }
}

/// What `trim_start` gives is the end of the text, after the white space
/// that it starts with.
pub proof fn lemma_trim_start_is_suffix(s: Seq<char>)
    ensures
        trim_start(s).len() <= s.len(),
        trim_start(s) == s.skip(s.len() - trim_start(s).len()),
        trim_start(s).len() > 0 ==> !is_whitespace(trim_start(s)[0]),
        forall|i: int| 0 <= i < s.len() - trim_start(s).len() ==> is_whitespace(s[i]),
    decreases s.len(),
{
    if s.len() > 0 && is_whitespace(s[0]) {
        let t = s.skip(1);
        lemma_trim_start_is_suffix(t);
        assert(t.skip(t.len() - trim_start(t).len()) =~= s.skip(s.len() - trim_start(t).len()));
        assert forall|i: int| 0 <= i < s.len() - trim_start(s).len() implies is_whitespace(
            s[i],
        ) by {
            if i > 0 {
                assert(s[i] == t[i - 1]);
            }
        }
    } else {
        assert(s.skip(0) =~= s);
    }
}

/// Trailing white space does not change what `trim_end` gives.
pub proof fn lemma_trim_end_of_prefix(s: Seq<char>, k: int)
    requires
        0 <= k <= s.len(),
        forall|i: int| k <= i < s.len() ==> is_whitespace(s[i]),
    ensures
        trim_end(s) == trim_end(s.take(k)),
    decreases s.len() - k,
{
    if k == s.len() {
        assert(s.take(k) =~= s);
    } else {
        let t = s.drop_last();
        assert(t.take(k) =~= s.take(k));
        lemma_trim_end_of_prefix(t, k);
    }
}

/// Leading white space does not change what `trim_start` gives.
pub proof fn lemma_trim_start_of_suffix(s: Seq<char>, k: int)
    requires
        0 <= k <= s.len(),
        forall|i: int| 0 <= i < k ==> is_whitespace(s[i]),
    ensures
        trim_start(s) == trim_start(s.skip(k)),
    decreases k,
{
    if k == 0 {
        assert(s.skip(0) =~= s);
    } else {
        let t = s.skip(1);
        assert(t.skip(k - 1) =~= s.skip(k));
        assert forall|i: int| 0 <= i < k - 1 implies is_whitespace(t[i]) by {
            assert(t[i] == s[i + 1]);
        }
        lemma_trim_start_of_suffix(t, k - 1);
    }
}

/// White space at the end of `s` does not change what `trim` gives.
pub proof fn lemma_trim_ignores_last_whitespace(s: Seq<char>)
    requires
        s.len() > 0,
        is_whitespace(s.last()),
    ensures
        trim(s.drop_last()) == trim(s),
{
    let t = s.drop_last();
    lemma_trim_start_is_suffix(s);
    let a = s.len() - trim_start(s).len();
    if a == s.len() {
        assert forall|i: int| 0 <= i < t.len() implies is_whitespace(t[i]) by {
            assert(t[i] == s[i]);
        }
        lemma_trim_start_of_suffix(t, t.len() as int);
        assert(t.skip(t.len() as int) =~= Seq::<char>::empty());
        assert(s.skip(s.len() as int) =~= Seq::<char>::empty());
    } else {
        assert(trim_start(s)[0] == s[a]);
        assert(a < t.len());
        assert forall|i: int| 0 <= i < a implies is_whitespace(t[i]) by {
            assert(t[i] == s[i]);
        }
        lemma_trim_start_of_suffix(t, a);
        assert(t.skip(a)[0] == s[a]);
        assert(trim_start(t.skip(a)) == t.skip(a));
        assert(s.skip(a).drop_last() =~= t.skip(a));
        assert(s.skip(a).last() == s.last());
    }
}

/// What `trim_end` gives is the start of the text, and it does not end
/// with white space.
pub proof fn lemma_trim_end_is_prefix(s: Seq<char>)
    ensures
        trim_end(s).len() <= s.len(),
        trim_end(s) == s.take(trim_end(s).len() as int),
        trim_end(s).len() > 0 ==> !is_whitespace(trim_end(s).last()),
    decreases s.len(),
{
    if s.len() > 0 && is_whitespace(s.last()) {
        let t = s.drop_last();
        lemma_trim_end_is_prefix(t);
        assert(t.take(trim_end(t).len() as int) =~= s.take(trim_end(t).len() as int));
    } else {
        assert(s.take(s.len() as int) =~= s);
    }
}

/// No line holds a line feed.
pub proof fn lemma_lines_hold_no_line_feed(s: Seq<char>)
    ensures
        forall|i: int| 0 <= i < lines(s).len() ==> !(#[trigger] lines(s)[i]).contains('\n'),
    decreases s.len(),
{
    lemma_first_newline_bounds(s);
    let k = first_newline(s);
    if s.len() == 0 {
    } else if k == s.len() {
        assert forall|j: int| 0 <= j < s.len() implies s[j] != '\n' by {}
        assert(!s.contains('\n'));
    } else {
        let first = strip_cr(s.take(k));
        let rest = lines(s.skip(k + 1));
        lemma_lines_hold_no_line_feed(s.skip(k + 1));
        assert forall|j: int| 0 <= j < first.len() implies first[j] != '\n' by {
            assert(first[j] == s[j]);
        }
        assert(!first.contains('\n'));
        assert forall|i: int| 0 <= i < lines(s).len() implies !(#[trigger] lines(s)[i]).contains(
            '\n',
        ) by {
            if i > 0 {
                assert(lines(s)[i] == rest[i - 1]);
            }
        }
    }
}

/// Adding a line and its line feed to a text that ends with a line feed,
/// or is empty, adds exactly that line to its lines.
pub proof fn lemma_lines_push(text: Seq<char>, line: Seq<char>)
    requires
        text.len() == 0 || text.last() == '\n',
        !line.contains('\n'),
    ensures
        lines(text + line.push('\n')) == lines(text).push(strip_cr(line)),
    decreases text.len(),
{
    let whole = text + line.push('\n');
    if text.len() == 0 {
        assert(whole =~= line.push('\n'));
        assert forall|i: int| 0 <= i < line.len() implies whole[i] != '\n' by {
            assert(line.contains(line[i]));
        }
        lemma_first_newline_at(whole, line.len() as int);
        assert(whole.take(line.len() as int) =~= line);
        let rest = whole.skip(line.len() as int + 1);
        assert(rest =~= Seq::<char>::empty());
        assert(lines(rest) =~= Seq::<Seq<char>>::empty());
        assert(lines(whole) == seq![strip_cr(whole.take(line.len() as int))] + lines(rest));
        assert(lines(whole) =~= seq![strip_cr(line)]);
        assert(lines(text) =~= Seq::<Seq<char>>::empty());
    } else {
        lemma_first_newline_bounds(text);
        let k = first_newline(text);
        assert(k < text.len()) by {
            if k == text.len() {
                assert(text[text.len() - 1] != '\n');
            }
        }
        assert forall|i: int| 0 <= i < k implies whole[i] != '\n' by {
            assert(whole[i] == text[i]);
        }
        assert(whole[k] == text[k]);
        lemma_first_newline_at(whole, k);
        let rest = text.skip(k + 1);
        assert(whole.skip(k + 1) =~= rest + line.push('\n'));
        assert(whole.take(k) =~= text.take(k));
        if rest.len() > 0 {
            assert(rest.last() == text.last());
        }
        lemma_lines_push(rest, line);
        assert(lines(whole) =~= seq![strip_cr(text.take(k))] + lines(rest).push(strip_cr(line)));
        assert(lines(text) =~= seq![strip_cr(text.take(k))] + lines(rest));
    }
}

/// Whether `c` is white space.
pub fn char_is_whitespace(c: char) -> (r: bool)
    ensures
        r == is_whitespace(c),
{
    let n: u32 = c as u32;
    (0x09 <= n && n <= 0x0D) || n == 0x20 || n == 0x85 || n == 0xA0 || n == 0x1680 || (0x2000 <= n
        && n <= 0x200A) || n == 0x2028 || n == 0x2029 || n == 0x202F || n == 0x205F || n
        == 0x3000
}

/// Whether `c` is ASCII white space.
pub fn char_is_ascii_whitespace(c: char) -> (r: bool)
    ensures
        r == is_ascii_whitespace(c),
{
    c == ' ' || c == '\t' || c == '\n' || c == '\x0C' || c == '\r'
}

/// Whether two texts are the same.
pub fn same_str(a: &str, b: &str) -> (r: bool)
    ensures
        r == (a@ == b@),
{
    let x = a.to_owned();
    let y = b.to_owned();
    x == y
}

/// The text `a` followed by the text `b`.
pub fn join_texts(a: &str, b: &str) -> (r: String)
    ensures
        r@ == a@ + b@,
{
    let mut r = a.to_owned();
    r.append(b);
    r
}

/// The characters of `s`.
pub fn chars_of(s: &str) -> (v: Vec<char>)
    ensures
        v@ == s@,
{
    let mut v: Vec<char> = Vec::new();
    for c in it: s.chars()
        invariant
            v@ == it.seq().take(it.index()),
            it.seq() == s@,
    {
        v.push(c);
    }
    v
}

/// `String::from_iter` over the characters of `chars`: the string that
/// consists of exactly these characters, in this order.
#[verifier::external_body]
pub(crate) fn string_of(chars: &Vec<char>) -> (s: String)
    ensures
        s@ == chars@,
{
    String::from_iter(chars.iter())
}

/// `String::from_utf8_lossy`: the bytes read as UTF-8, where U+FFFD stands
/// for each sequence that is not valid. Trusted to be the text that
/// `utf8_lossy` names.
#[verifier::external_body]
pub(crate) fn decode_lossy(bytes: &[u8]) -> (s: String)
    ensures
        s@ == utf8_lossy(bytes@),
{
    String::from_utf8_lossy(bytes).into_owned()
}

/// Whether `s` holds the character `c`.
pub fn has_char(s: &Vec<char>, c: char) -> (r: bool)
    ensures
        r == s@.contains(c),
{
    let mut i: usize = 0;
    while i < s.len()
        invariant
            i <= s.len(),
            forall|j: int| 0 <= j < i ==> s@[j] != c,
        decreases s.len() - i,
    {
        if s[i] == c {
            return true;
        }
        i = i + 1;
    }
    false
}

/// The characters of `s` from `from` up to, not including, `to`.
pub fn slice_of(s: &Vec<char>, from: usize, to: usize) -> (v: Vec<char>)
    requires
        from <= to <= s.len(),
    ensures
        v@ == s@.subrange(from as int, to as int),
{
    let mut v: Vec<char> = Vec::new();
    let mut i: usize = from;
    while i < to
        invariant
            from <= i <= to <= s.len(),
            v@ == s@.subrange(from as int, i as int),
        decreases to - i,
    {
        v.push(s[i]);
        i = i + 1;
    }
    v
}

/// Length of `s` without its trailing white space.
pub fn trim_end_len(s: &Vec<char>) -> (n: usize)
    ensures
        n <= s.len(),
        s@.take(n as int) == trim_end(s@),
{
    let mut n: usize = s.len();
    while n > 0 && char_is_whitespace(s[n - 1])
        invariant
            n <= s.len(),
            forall|i: int| n <= i < s.len() ==> is_whitespace(s@[i]),
        decreases n,
    {
        n = n - 1;
    }
    proof {
        lemma_trim_end_of_prefix(s@, n as int);
        let t = s@.take(n as int);
        assert(trim_end(t) == t);
    }
    n
}

/// Where `s` starts and ends once leading and trailing white space is left
/// out.
pub fn trim_bounds(s: &Vec<char>) -> (r: (usize, usize))
    ensures
        r.0 <= r.1 <= s.len(),
        s@.subrange(r.0 as int, r.1 as int) == trim(s@),
        s@.skip(r.0 as int) == trim_start(s@),
{
    let mut a: usize = 0;
    while a < s.len() && char_is_whitespace(s[a])
        invariant
            a <= s.len(),
            forall|i: int| 0 <= i < a ==> is_whitespace(s@[i]),
        decreases s.len() - a,
    {
        a = a + 1;
    }
    let mut b: usize = s.len();
    while b > a && char_is_whitespace(s[b - 1])
        invariant
            a <= b <= s.len(),
            forall|i: int| b <= i < s.len() ==> is_whitespace(s@[i]),
        decreases b,
    {
        b = b - 1;
    }
    proof {
        let rest = s@.skip(a as int);
        lemma_trim_start_of_suffix(s@, a as int);
        assert(trim_start(rest) == rest);
        assert forall|i: int| b - a <= i < rest.len() implies is_whitespace(rest[i]) by {
            assert(rest[i] == s@[i + a]);
        }
        lemma_trim_end_of_prefix(rest, b - a);
        let core = rest.take(b - a);
        assert(core =~= s@.subrange(a as int, b as int));
        if core.len() > 0 {
            assert(core.last() == s@[b - 1]);
        }
        assert(trim_end(core) == core);
    }
    (a, b)
}

/// Whether `prefix` stands in `s` at `from`, within the first `to`
/// characters.
pub fn has_prefix_at(s: &Vec<char>, from: usize, to: usize, prefix: &Vec<char>) -> (r: bool)
    requires
        from <= to <= s.len(),
    ensures
        r == starts_with(s@.subrange(from as int, to as int), prefix@),
{
    let ghost part = s@.subrange(from as int, to as int);
    if prefix.len() > to - from {
        return false;
    }
    let mut i: usize = 0;
    while i < prefix.len()
        invariant
            from <= to <= s.len(),
            i <= prefix.len() <= to - from,
            part == s@.subrange(from as int, to as int),
            part.take(i as int) == prefix@.take(i as int),
        decreases prefix.len() - i,
    {
        if s[from + i] != prefix[i] {
            proof {
                assert(part[i as int] == s@[from + i]);
                assert(part.take(prefix.len() as int)[i as int] != prefix@[i as int]);
            }
            return false;
        }
        proof {
            assert(part[i as int] == s@[from + i]);
            assert(part.take(i + 1) =~= part.take(i as int).push(part[i as int]));
            assert(prefix@.take(i + 1) =~= prefix@.take(i as int).push(prefix@[i as int]));
        }
        i = i + 1;
    }
    proof {
        assert(prefix@.take(prefix.len() as int) =~= prefix@);
    }
    true
}

/// `s` with every carriage return and line feed pair turned into a line
/// feed.
pub fn replace_crlf(s: &Vec<char>) -> (v: Vec<char>)
    ensures
        v@ == unify_newlines(s@),
{
    let mut v: Vec<char> = Vec::new();
    let mut i: usize = 0;
    proof {
        assert(s@.skip(0) =~= s@);
    }
    while i < s.len()
        invariant
            i <= s.len(),
            unify_newlines(s@) == v@ + unify_newlines(s@.skip(i as int)),
        decreases s.len() - i,
    {
        let ghost rest = s@.skip(i as int);
        let ghost before = v@;
        if s[i] == '\r' && i + 1 < s.len() && s[i + 1] == '\n' {
            v.push('\n');
            proof {
                assert(rest[0] == s@[i as int] && rest[1] == s@[i + 1]);
                assert(rest.skip(2) =~= s@.skip(i + 2));
                assert(v@ + unify_newlines(rest.skip(2)) =~= before + (seq!['\n']
                    + unify_newlines(rest.skip(2))));
            }
            i = i + 2;
        } else {
            v.push(s[i]);
            proof {
                assert(rest[0] == s@[i as int]);
                if rest.len() >= 2 {
                    assert(rest[1] == s@[i + 1]);
                }
                assert(rest.skip(1) =~= s@.skip(i + 1));
                assert(v@ + unify_newlines(rest.skip(1)) =~= before + (seq![rest[0]]
                    + unify_newlines(rest.skip(1))));
            }
            i = i + 1;
        }
    }
    proof {
        assert(v@ + unify_newlines(s@.skip(i as int)) =~= v@);
    }
    v
}

/// The lines of `s`.
pub fn split_lines(s: &Vec<char>) -> (out: Vec<Vec<char>>)
    ensures
        texts(out@) == lines(s@),
{
    let mut out: Vec<Vec<char>> = Vec::new();
    let mut start: usize = 0;
    proof {
        assert(s@.skip(0) =~= s@);
        assert(texts(out@) + lines(s@) =~= lines(s@));
    }
    while start < s.len()
        invariant
            start <= s.len(),
            lines(s@) == texts(out@) + lines(s@.skip(start as int)),
        decreases s.len() - start,
    {
        let ghost rest = s@.skip(start as int);
        let ghost before = texts(out@);
        let mut end: usize = start;
        while end < s.len() && s[end] != '\n'
            invariant
                start <= end <= s.len(),
                forall|i: int| start <= i < end ==> s@[i] != '\n',
            decreases s.len() - end,
        {
            end = end + 1;
        }
        proof {
            assert forall|i: int| 0 <= i < end - start implies rest[i] != '\n' by {
                assert(rest[i] == s@[i + start]);
            }
            if end < s.len() {
                assert(rest[end - start] == s@[end as int]);
            }
            lemma_first_newline_at(rest, end - start);
        }
        if end == s.len() {
            let line = slice_of(s, start, end);
            out.push(line);
            proof {
                assert(line@ =~= rest);
                assert(texts(out@) =~= before.push(rest));
                assert(lines(s@.skip(end as int)) =~= Seq::<Seq<char>>::empty());
                assert(texts(out@) + lines(s@.skip(end as int)) =~= before + seq![rest]);
            }
            start = end;
        } else {
            let stop: usize = if end > start && s[end - 1] == '\r' {
                end - 1
            } else {
                end
            };
            let line = slice_of(s, start, stop);
            out.push(line);
            proof {
                let whole = rest.take(end - start);
                assert(whole =~= s@.subrange(start as int, end as int));
                if whole.len() > 0 {
                    assert(whole.last() == s@[end - 1]);
                }
                assert(line@ =~= strip_cr(whole));
                assert(rest.skip(end - start + 1) =~= s@.skip(end + 1));
                assert(texts(out@) =~= before.push(strip_cr(whole)));
                assert(texts(out@) + lines(s@.skip(end + 1)) =~= before + (seq![strip_cr(whole)]
                    + lines(rest.skip(end - start + 1))));
            }
            start = end + 1;
        }
    }
    proof {
        assert(lines(s@.skip(start as int)) =~= Seq::<Seq<char>>::empty());
        assert(texts(out@) + lines(s@.skip(start as int)) =~= texts(out@));
    }
    out
}

} // verus!
