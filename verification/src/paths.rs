//! Paths as text.
//!
//! A path is a text whose parts are separated by `/`. Its file name is its
//! last part, where a `/` and a part `.` at the end of the path are left
//! aside; a path whose last part is `..`, or that has no such part, names no
//! file. Paths are ordered part by part, so that a directory comes before
//! every longer name that starts with its name.

use crate::text::{chars_of, lex_le, slice_of, string_of};
use vstd::prelude::*;

verus! {

/// The directory that takes expectations which wait for review.
pub const WIP_DIR: &'static str = "wip";

/// The file in the review directory that keeps it out of version control.
pub const IGNORE_FILE: &'static str = "wip/.gitignore";

/// What the ignore file holds: a pattern that matches everything.
pub const IGNORE_ALL: &'static str = "*\n";

/// The extension of the expectation of a compile-fail entry.
pub const STDERR: &'static str = "stderr";

/// The extension of the expectation of a run-match entry.
pub const SNAPSHOT: &'static str = "snapshot";

/// The last index at which `s` holds `c`, or -1 where it holds none.
pub open spec fn last_index_of(s: Seq<char>, c: char) -> int
    decreases s.len(),
{
    if s.len() == 0 {
        -1
    } else if s.last() == c {
        s.len() - 1
    } else {
        last_index_of(s.drop_last(), c)
    }
}

/// Where the file name of `path` ends: the length of the path once every
/// `/` at its end, and every part `.` that follows a `/` there, is left
/// aside.
pub open spec fn name_end(path: Seq<char>) -> int
    decreases path.len(),
{
    if path.len() > 0 && path.last() == '/' {
        name_end(path.drop_last())
    } else if path.len() >= 2 && path.last() == '.' && path[path.len() - 2] == '/' {
        name_end(path.drop_last())
    } else {
        path.len() as int
    }
}

/// Where the part of `path` starts that ends at `name_end`.
pub open spec fn name_start(path: Seq<char>) -> int {
    last_index_of(path.take(name_end(path)), '/') + 1
}

/// The file name of `path`, if it names a file.
pub open spec fn file_name(path: Seq<char>) -> Option<Seq<char>> {
    let name = path.subrange(name_start(path), name_end(path));
    if name.len() == 0 || name == seq!['.'] || name == seq!['.', '.'] {
        None
    } else {
        Some(name)
    }
}

/// A file name without its extension: what stands before its last dot,
/// unless that dot is its first character.
pub open spec fn stem(name: Seq<char>) -> Seq<char> {
    let dot = last_index_of(name, '.');
    if dot <= 0 {
        name
    } else {
        name.take(dot)
    }
}

/// What an extension adds to a file name: a dot and the extension, or
/// nothing where the extension is empty.
pub open spec fn dotted(extension: Seq<char>) -> Seq<char> {
    if extension.len() == 0 {
        extension
    } else {
        seq!['.'] + extension
    }
}

/// `path` with the extension of its file name replaced by `extension`, or
/// added where it has none; what follows the file name is lost. A path that
/// names no file stays as it is.
pub open spec fn with_extension(path: Seq<char>, extension: Seq<char>) -> Seq<char> {
    match file_name(path) {
        None => path,
        Some(name) => path.take(name_start(path)) + stem(name) + dotted(extension),
    }
}

/// The place in the review directory for the file that `path` names.
pub open spec fn staged_path(path: Seq<char>) -> Seq<char>
    recommends
        file_name(path) is Some,
{
    WIP_DIR@ + seq!['/'] + file_name(path)->0
}

/// What stands after the last `c` does not matter to where it is.
pub proof fn lemma_last_index_of_prefix(s: Seq<char>, c: char, k: int)
    requires
        0 <= k <= s.len(),
        forall|i: int| k <= i < s.len() ==> s[i] != c,
    ensures
        last_index_of(s, c) == last_index_of(s.take(k), c),
    decreases s.len() - k,
{
    if k == s.len() {
        assert(s.take(k) =~= s);
    } else {
        let t = s.drop_last();
        assert(t.take(k) =~= s.take(k));
        assert forall|i: int| k <= i < t.len() implies t[i] != c by {
            assert(t[i] == s[i]);
        }
        lemma_last_index_of_prefix(t, c, k);
    }
}

/// Index of the first `/` in `path`, or `path.len()` where it has none.
pub open spec fn first_separator(path: Seq<char>) -> int
    decreases path.len(),
{
    if path.len() == 0 || path[0] == '/' {
        0
    } else {
        1 + first_separator(path.skip(1))
    }
}

/// The parts of a path: what stands before its first `/`, between two
/// `/` that follow each other, and after its last `/`. A path without `/`
/// is its own single part.
pub open spec fn parts(path: Seq<char>) -> Seq<Seq<char>>
    decreases path.len(),
{
    let k = first_separator(path);
    if !(0 <= k < path.len()) {
        seq![path]
    } else {
        seq![path.take(k)] + parts(path.skip(k + 1))
    }
}

/// The list of parts `a` comes before the list `b`, or equals it: at the
/// first place where they differ, the part of `a` comes before that of `b`
/// in the lexicographic order of their characters, or `a` has ended.
pub open spec fn parts_le(a: Seq<Seq<char>>, b: Seq<Seq<char>>) -> bool
    decreases a.len(),
{
    if a.len() == 0 {
        true
    } else if b.len() == 0 {
        false
    } else if a[0] != b[0] {
        lex_le(a[0], b[0])
    } else {
        parts_le(a.skip(1), b.skip(1))
    }
}

/// The path `a` comes before the path `b`, or equals it: their lists of
/// parts are in lexicographic order, each part compared by its characters.
pub open spec fn path_le(a: Seq<char>, b: Seq<char>) -> bool {
    parts_le(parts(a), parts(b))
}

/// The order of paths as a relation.
pub open spec fn path_order() -> spec_fn(Seq<char>, Seq<char>) -> bool {
    |a: Seq<char>, b: Seq<char>| path_le(a, b)
}

/// The place of a character in the order of paths: the separator comes
/// before every other character.
pub open spec fn rank(c: char) -> int {
    if c == '/' {
        0
    } else {
        c as u32 + 1
    }
}

/// The first `/` lies within the path, and nothing before it is a `/`.
pub proof fn lemma_first_separator_bounds(path: Seq<char>)
    ensures
        0 <= first_separator(path) <= path.len(),
        first_separator(path) < path.len() ==> path[first_separator(path)] == '/',
        forall|i: int| 0 <= i < first_separator(path) ==> path[i] != '/',
    decreases path.len(),
{
    if path.len() == 0 || path[0] == '/' {
    } else {
        let t = path.skip(1);
        lemma_first_separator_bounds(t);
        assert forall|i: int| 0 <= i < first_separator(path) implies path[i] != '/' by {
            if i > 0 {
                assert(path[i] == t[i - 1]);
            }
        }
    }
}

/// How the parts of a path follow from the parts of what comes after its
/// first character: a `/` opens a new part, any other character goes to
/// the front of the first part.
pub proof fn lemma_parts_step(path: Seq<char>)
    ensures
        parts(path).len() >= 1,
        path.len() == 0 ==> parts(path)[0].len() == 0,
        path.len() > 0 && path[0] == '/' ==> parts(path)[0].len() == 0 && parts(path).skip(1)
            == parts(path.skip(1)),
        path.len() > 0 && path[0] != '/' ==> parts(path)[0] == seq![path[0]] + parts(
            path.skip(1),
        )[0] && parts(path).skip(1) == parts(path.skip(1)).skip(1),
    decreases path.len(),
{
    lemma_first_separator_bounds(path);
    let k = first_separator(path);
    if path.len() == 0 {
    } else if path[0] == '/' {
        assert(path.take(0).len() == 0);
        assert(parts(path).skip(1) =~= parts(path.skip(1)));
    } else {
        let t = path.skip(1);
        lemma_first_separator_bounds(t);
        lemma_parts_step(t);
        if k == path.len() {
            assert(parts(t) =~= seq![t]);
            assert(path =~= seq![path[0]] + t);
            assert(parts(path).skip(1) =~= parts(t).skip(1));
        } else {
            assert(t.take(k - 1) =~= path.subrange(1, k));
            assert(path.take(k) =~= seq![path[0]] + t.take(k - 1));
            assert(t.skip(k) =~= path.skip(k + 1));
            assert(parts(t) == seq![t.take(k - 1)] + parts(t.skip(k)));
            assert(parts(path).skip(1) =~= parts(path.skip(k + 1)));
            assert(parts(t).skip(1) =~= parts(t.skip(k)));
        }
    }
}

/// The order of two paths, read off their first characters: the empty
/// path comes first; paths that start alike are ordered as what follows;
/// paths that start differently are ordered as their first characters,
/// the separator before every other character.
pub proof fn lemma_path_le_heads(a: Seq<char>, b: Seq<char>)
    ensures
        a.len() == 0 ==> path_le(a, b),
        a.len() > 0 && b.len() == 0 ==> !path_le(a, b),
        a.len() > 0 && b.len() > 0 && a[0] == b[0] ==> path_le(a, b) == path_le(
            a.skip(1),
            b.skip(1),
        ),
        a.len() > 0 && b.len() > 0 && a[0] != b[0] ==> path_le(a, b) == (rank(a[0]) < rank(b[0])),
{
    lemma_parts_step(a);
    lemma_parts_step(b);
    let pa = parts(a);
    let pb = parts(b);
    if a.len() == 0 {
        assert(pa =~= seq![a]);
        assert(pa.skip(1).len() == 0);
        assert(parts_le(pa.skip(1), pb.skip(1)));
        assert(lex_le(pa[0], pb[0]));
    } else if b.len() == 0 {
        assert(pb =~= seq![b]);
        assert(pb.skip(1).len() == 0);
        if a[0] == '/' {
            assert(pa[0] =~= pb[0]);
            lemma_parts_step(a.skip(1));
            assert(pa.skip(1).len() > 0);
            assert(!parts_le(pa.skip(1), pb.skip(1)));
        } else {
            assert(pa[0].len() > 0);
            assert(!lex_le(pa[0], pb[0]));
        }
    } else if a[0] == b[0] {
        let ta = parts(a.skip(1));
        let tb = parts(b.skip(1));
        lemma_parts_step(a.skip(1));
        lemma_parts_step(b.skip(1));
        if a[0] == '/' {
            assert(pa[0] =~= pb[0]);
        } else {
            let c = seq![a[0]];
            assert((c + ta[0]).skip(1) =~= ta[0]);
            assert((c + tb[0]).skip(1) =~= tb[0]);
            if ta[0] == tb[0] {
                assert(ta.skip(1) == parts(a).skip(1));
            } else {
                assert(pa[0] != pb[0]) by {
                    if pa[0] == pb[0] {
                        assert(pa[0].skip(1) == pb[0].skip(1));
                    }
                }
                assert((c + ta[0])[0] == (c + tb[0])[0]);
            }
        }
    } else {
        if a[0] == '/' {
            assert(pb[0].len() > 0);
        } else if b[0] == '/' {
            assert(pa[0].len() > 0);
        } else {
            assert(pa[0][0] == a[0]);
            assert(pb[0][0] == b[0]);
        }
    }
}

/// Different characters have different places in the order.
pub proof fn lemma_rank_tells_apart(x: char, y: char)
    requires
        rank(x) == rank(y),
    ensures
        x == y,
{
    vstd::utf8::char_u32_cast(x, x as u32);
    vstd::utf8::char_u32_cast(y, y as u32);
}

/// Every path comes before or equals itself.
pub proof fn lemma_path_le_reflexive(a: Seq<char>)
    ensures
        path_le(a, a),
    decreases a.len(),
{
    lemma_path_le_heads(a, a);
    if a.len() > 0 {
        lemma_path_le_reflexive(a.skip(1));
    }
}

/// Two paths that come before each other are the same path.
pub proof fn lemma_path_le_antisymmetric(a: Seq<char>, b: Seq<char>)
    requires
        path_le(a, b),
        path_le(b, a),
    ensures
        a == b,
    decreases a.len(),
{
    lemma_path_le_heads(a, b);
    lemma_path_le_heads(b, a);
    if a.len() == 0 || b.len() == 0 {
        assert(a =~= b);
    } else {
        assert(a[0] == b[0]);
        lemma_path_le_antisymmetric(a.skip(1), b.skip(1));
        assert(a =~= seq![a[0]] + a.skip(1));
        assert(b =~= seq![b[0]] + b.skip(1));
    }
}

/// The order carries over a path in between.
pub proof fn lemma_path_le_transitive(a: Seq<char>, b: Seq<char>, c: Seq<char>)
    requires
        path_le(a, b),
        path_le(b, c),
    ensures
        path_le(a, c),
    decreases a.len(),
{
    lemma_path_le_heads(a, b);
    lemma_path_le_heads(b, c);
    lemma_path_le_heads(a, c);
    if a.len() > 0 {
        if a[0] == b[0] && b[0] == c[0] {
            lemma_path_le_transitive(a.skip(1), b.skip(1), c.skip(1));
        } else if a[0] == c[0] {
            if rank(a[0]) == rank(b[0]) {
                lemma_rank_tells_apart(a[0], b[0]);
            }
        }
    }
}

/// Of two paths, one comes before or equals the other.
pub proof fn lemma_path_le_total(a: Seq<char>, b: Seq<char>)
    ensures
        path_le(a, b) || path_le(b, a),
    decreases a.len(),
{
    lemma_path_le_heads(a, b);
    lemma_path_le_heads(b, a);
    if a.len() > 0 && b.len() > 0 {
        if a[0] == b[0] {
            lemma_path_le_total(a.skip(1), b.skip(1));
        } else if rank(a[0]) == rank(b[0]) {
            lemma_rank_tells_apart(a[0], b[0]);
        }
    }
}

/// The order of paths is a total order.
pub proof fn lemma_path_order_is_total()
    ensures
        vstd::relations::total_ordering(path_order()),
{
    let r = path_order();
    assert forall|x: Seq<char>| #[trigger] r(x, x) by {
        lemma_path_le_reflexive(x);
    }
    assert forall|x: Seq<char>, y: Seq<char>| #[trigger] r(x, y) && #[trigger] r(y, x) implies x
        == y by {
        lemma_path_le_antisymmetric(x, y);
    }
    assert forall|x: Seq<char>, y: Seq<char>, z: Seq<char>| #[trigger] r(x, y) && #[trigger] r(
        y,
        z,
    ) implies r(x, z) by {
        lemma_path_le_transitive(x, y, z);
    }
    assert forall|x: Seq<char>, y: Seq<char>| #[trigger] r(x, y) || #[trigger] r(y, x) by {
        lemma_path_le_total(x, y);
    }
}

/// A common start does not decide the order of two paths.
pub proof fn lemma_path_le_skips_common(a: Seq<char>, b: Seq<char>, k: int)
    requires
        0 <= k <= a.len(),
        k <= b.len(),
        forall|i: int| 0 <= i < k ==> a[i] == b[i],
    ensures
        path_le(a, b) == path_le(a.skip(k), b.skip(k)),
    decreases k,
{
    if k == 0 {
        assert(a.skip(0) =~= a);
        assert(b.skip(0) =~= b);
    } else {
        let x = a.skip(1);
        let y = b.skip(1);
        assert(a[0] == b[0]);
        lemma_path_le_heads(a, b);
        assert forall|i: int| 0 <= i < k - 1 implies x[i] == y[i] by {
            assert(x[i] == a[i + 1] && y[i] == b[i + 1]);
        }
        lemma_path_le_skips_common(x, y, k - 1);
        assert(x.skip(k - 1) =~= a.skip(k));
        assert(y.skip(k - 1) =~= b.skip(k));
    }
}

/// Whether the path `a` comes before the path `b`, or equals it.
pub fn path_text_le(a: &Vec<char>, b: &Vec<char>) -> (r: bool)
    ensures
        r == path_le(a@, b@),
{
    let mut i: usize = 0;
    while i < a.len() && i < b.len() && a[i] == b[i]
        invariant
            i <= a.len(),
            i <= b.len(),
            forall|j: int| 0 <= j < i ==> a@[j] == b@[j],
        decreases a.len() - i,
    {
        i = i + 1;
    }
    proof {
        lemma_path_le_skips_common(a@, b@, i as int);
        lemma_path_le_heads(a@.skip(i as int), b@.skip(i as int));
        if i < a.len() {
            assert(a@.skip(i as int)[0] == a@[i as int]);
        }
        if i < b.len() {
            assert(b@.skip(i as int)[0] == b@[i as int]);
        }
    }
    if i == a.len() {
        true
    } else if i == b.len() {
        false
    } else if a[i] == '/' {
        true
    } else if b[i] == '/' {
        false
    } else {
        (a[i] as u32) < (b[i] as u32)
    }
}

/// One more than the last index below `end` at which `s` holds `c`, or 0.
fn after_last(s: &Vec<char>, from: usize, end: usize, c: char) -> (r: usize)
    requires
        from <= end <= s.len(),
    ensures
        from <= r <= end,
        r == from + last_index_of(s@.subrange(from as int, end as int), c) + 1,
{
    let ghost part = s@.subrange(from as int, end as int);
    let mut k: usize = end;
    while k > from && s[k - 1] != c
        invariant
            from <= k <= end <= s.len(),
            part == s@.subrange(from as int, end as int),
            forall|i: int| k - from <= i < part.len() ==> part[i] != c,
        decreases k,
    {
        k = k - 1;
        proof {
            assert(part[k - from] == s@[k as int]);
        }
    }
    proof {
        lemma_last_index_of_prefix(part, c, k - from);
        let head = part.take(k - from);
        if k > from {
            assert(head.last() == s@[k - 1]);
        }
    }
    k
}

/// Where the file name of `path` ends.
fn end_of_name(path: &Vec<char>) -> (end: usize)
    ensures
        end <= path.len(),
        end == name_end(path@),
{
    let mut end: usize = path.len();
    proof {
        assert(path@.take(end as int) =~= path@);
    }
    while end > 0 && (path[end - 1] == '/' || (end >= 2 && path[end - 1] == '.' && path[end - 2]
        == '/'))
        invariant
            end <= path.len(),
            name_end(path@) == name_end(path@.take(end as int)),
        decreases end,
    {
        proof {
            let t = path@.take(end as int);
            assert(t.last() == path@[end - 1]);
            if end >= 2 {
                assert(t[t.len() - 2] == path@[end - 2]);
            }
            assert(t.drop_last() =~= path@.take(end - 1));
        }
        end = end - 1;
    }
    proof {
        let t = path@.take(end as int);
        if end > 0 {
            assert(t.last() == path@[end - 1]);
        }
        if end >= 2 {
            assert(t[t.len() - 2] == path@[end - 2]);
        }
    }
    end
}

/// Where the file name of `path` starts, where its stem ends and where it
/// ends itself, if the path names a file.
fn name_bounds(path: &Vec<char>) -> (r: Option<(usize, usize, usize)>)
    ensures
        r is Some <==> file_name(path@) is Some,
        r matches Some((start, stop, end)) ==> {
            &&& start == name_start(path@)
            &&& end == name_end(path@)
            &&& start <= stop <= end <= path.len()
            &&& path@.subrange(start as int, stop as int) == stem(file_name(path@)->0)
        },
{
    let n = end_of_name(path);
    let start = after_last(path, 0, n, '/');
    proof {
        assert(path@.subrange(0, n as int) =~= path@.take(n as int));
    }
    let ghost name = path@.subrange(start as int, n as int);
    let len = n - start;
    proof {
        if len >= 1 {
            assert(name[0] == path@[start as int]);
        }
        if len >= 2 {
            assert(name[1] == path@[start + 1]);
        }
        if len == 1 && path@[start as int] == '.' {
            assert(name =~= seq!['.']);
        }
        if len == 2 && path@[start as int] == '.' && path@[start + 1] == '.' {
            assert(name =~= seq!['.', '.']);
        }
        if name == seq!['.'] {
            assert(seq!['.'].len() == 1 && seq!['.'][0] == '.');
        }
        if name == seq!['.', '.'] {
            assert(seq!['.', '.'].len() == 2 && seq!['.', '.'][0] == '.' && seq!['.', '.'][1]
                == '.');
        }
    }
    if len == 0 || (len == 1 && path[start] == '.') || (len == 2 && path[start] == '.'
        && path[start + 1] == '.') {
        return None;
    }
    let after_dot = after_last(path, start, n, '.');
    let stop = if after_dot <= start + 1 {
        n
    } else {
        after_dot - 1
    };
    proof {
        let dot = last_index_of(name, '.');
        assert(after_dot == start + dot + 1);
        if dot > 0 {
            assert(name.take(dot) =~= path@.subrange(start as int, stop as int));
        }
    }
    Some((start, stop, n))
}

/// The file name of `path`, if it names a file.
pub fn file_name_of(path: &str) -> (r: Option<String>)
    ensures
        r is Some <==> file_name(path@) is Some,
        r matches Some(name) ==> name@ == file_name(path@)->0,
{
    let chars = chars_of(path);
    match name_bounds(&chars) {
        None => None,
        Some((start, _, end)) => {
            let name = slice_of(&chars, start, end);
            Some(string_of(&name))
        },
    }
}

/// `path` with the extension of its file name replaced by `extension`.
pub fn replace_extension(path: &str, extension: &str) -> (r: String)
    ensures
        r@ == with_extension(path@, extension@),
{
    let chars = chars_of(path);
    match name_bounds(&chars) {
        None => string_of(&chars),
        Some((start, stop, _)) => {
            let mut out = slice_of(&chars, 0, stop);
            proof {
                assert(out@ =~= path@.take(start as int) + path@.subrange(
                    start as int,
                    stop as int,
                ));
            }
            let ghost kept = out@;
            let added = chars_of(extension);
            if added.len() > 0 {
                out.push('.');
                let mut i: usize = 0;
                while i < added.len()
                    invariant
                        i <= added.len(),
                        out@ == kept + seq!['.'] + added@.take(i as int),
                    decreases added.len() - i,
                {
                    out.push(added[i]);
                    proof {
                        assert(added@.take(i + 1) =~= added@.take(i as int).push(added@[i as int]));
                    }
                    i = i + 1;
                }
                proof {
                    assert(added@.take(added.len() as int) =~= added@);
                    assert(out@ =~= kept + dotted(extension@));
                }
            } else {
                proof {
                    assert(out@ =~= kept + dotted(extension@));
                }
            }
            string_of(&out)
        },
    }
}

/// The place in the review directory for the file that `path` names.
pub fn stage(path: &str) -> (r: Option<String>)
    ensures
        r is Some <==> file_name(path@) is Some,
        r matches Some(staged) ==> staged@ == staged_path(path@),
{
    match file_name_of(path) {
        None => None,
        Some(name) => {
            let mut out = chars_of(WIP_DIR);
            out.push('/');
            let mut r = string_of(&out);
            r.append(name.as_str());
            Some(r)
        },
    }
}

} // verus!
