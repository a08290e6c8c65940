//! Normalization of compiler diagnostics.
//!
//! The compiler ends its output with lines that change from one version to
//! the next: how many errors were emitted, which explanations exist. They
//! are cut out, so that neither the recorded expectations nor the
//! comparison depend on them.

use crate::text::{
    chars_of, decode_lossy, ends_with, has_prefix_at, is_whitespace, lemma_lines_hold_no_line_feed,
    lemma_lines_push, lemma_trim_end_is_prefix, lemma_trim_end_of_prefix,
    lemma_trim_ignores_last_whitespace, lines, replace_crlf, slice_of, split_lines, starts_with,
    string_of, string_texts, strip_cr, texts, trim_bounds, trim_end, trim_end_len, unify_newlines,
    utf8_lossy,
};
use vstd::prelude::*;

verus! {

/// The line announces that the compiler gave up.
pub const ABORTING: &'static str = "error: aborting due to";

/// The line points to the explanation of the one error.
pub const EXPLAIN_THIS: &'static str = "For more information about this error, try `rustc --explain";

/// The line points to the explanation of one of several errors.
pub const EXPLAIN_AN: &'static str = "For more information about an error, try `rustc --explain";

/// The line lists the errors that have an explanation.
pub const EXPLANATIONS: &'static str = "Some errors have detailed explanations:";

/// A line that is cut out: once surrounding white space is left aside, it
/// starts with one of the four closing phrases of the compiler.
pub open spec fn is_boilerplate(line: Seq<char>) -> bool {
    let t = crate::text::trim(line);
    ||| starts_with(t, ABORTING@)
    ||| starts_with(t, EXPLAIN_THIS@)
    ||| starts_with(t, EXPLAIN_AN@)
    ||| starts_with(t, EXPLANATIONS@)
}

/// `acc` with `line` added and ended by a line feed, unless the text then
/// ends with two line feeds already: blank lines do not pile up.
pub open spec fn append_line(acc: Seq<char>, line: Seq<char>) -> Seq<char> {
    let joined = acc + line;
    if ends_with(joined, seq!['\n', '\n']) {
        joined
    } else {
        joined.push('\n')
    }
}

/// The text made of the lines that are not cut out.
pub open spec fn retained(ls: Seq<Seq<char>>) -> Seq<char>
    decreases ls.len(),
{
    if ls.len() == 0 {
        Seq::empty()
    } else if is_boilerplate(ls.last()) {
        retained(ls.drop_last())
    } else {
        append_line(retained(ls.drop_last()), ls.last())
    }
}

/// `s` without trailing white space and, unless that leaves nothing, ended
/// by one line feed.
pub open spec fn trimmed(s: Seq<char>) -> Seq<char> {
    let t = trim_end(s);
    if t.len() == 0 {
        t
    } else {
        t.push('\n')
    }
}

/// The normalized form of a diagnostic text.
pub open spec fn normalized(text: Seq<char>) -> Seq<char> {
    trimmed(retained(lines(text)))
}

/// The lines `ls`, each ended by a line feed, as one text.
pub open spec fn terminated(ls: Seq<Seq<char>>) -> Seq<char>
    decreases ls.len(),
{
    if ls.len() == 0 {
        Seq::empty()
    } else {
        terminated(ls.drop_last()) + ls.last().push('\n')
    }
}

/// The lines that are retained: a line that is cut out goes, and so does
/// an empty line where two or more lines are kept before it and the last
/// of them is empty.
pub open spec fn kept_lines(ls: Seq<Seq<char>>) -> Seq<Seq<char>>
    decreases ls.len(),
{
    if ls.len() == 0 {
        Seq::empty()
    } else {
        let kept = kept_lines(ls.drop_last());
        let line = ls.last();
        if is_boilerplate(line) {
            kept
        } else if line.len() == 0 && kept.len() >= 2 && kept.last().len() == 0 {
            kept
        } else {
            kept.push(line)
        }
    }
}

/// The line is not empty.
pub open spec fn is_filled(line: Seq<char>) -> bool {
    line.len() > 0
}

/// The line is not empty and is not cut out.
pub open spec fn is_content(line: Seq<char>) -> bool {
    line.len() > 0 && !is_boilerplate(line)
}

/// The line holds nothing but white space.
pub open spec fn is_blank(line: Seq<char>) -> bool {
    trim_end(line).len() == 0
}

/// The lines without the blank lines at their end, and with the last of
/// the others cut after its last character that is no white space.
pub open spec fn closed_lines(ls: Seq<Seq<char>>) -> Seq<Seq<char>>
    decreases ls.len(),
{
    if ls.len() == 0 {
        Seq::empty()
    } else if is_blank(ls.last()) {
        closed_lines(ls.drop_last())
    } else {
        ls.drop_last().push(trim_end(ls.last()))
    }
}

/// `f`, called on the text `text`, may give `answer`.
pub open spec fn may_answer<F: Fn(&str) -> bool>(f: F, text: Seq<char>, answer: bool) -> bool {
    exists|s: &str| s@ == text && #[trigger] call_ensures(f, (s,), answer)
}

/// The normalized texts of one compiler output, from the least to the most
/// thorough normalization. There is always at least one.
pub struct Variations {
    variations: Vec<String>,
}

impl View for Variations {
    type V = Seq<Seq<char>>;

    closed spec fn view(&self) -> Seq<Seq<char>> {
        string_texts(self.variations@)
    }
}

impl Variations {
    #[verifier::type_invariant]
    spec fn holds_one(&self) -> bool {
        self.variations@.len() > 0
    }

    /// The variation that is written to the expectation file: the last, most
    /// normalized one.
    pub fn preferred(&self) -> (r: &str)
        ensures
            self@.len() > 0,
            r@ == self@.last(),
    {
        proof {
            use_type_invariant(self);
        }
        self.variations[self.variations.len() - 1].as_str()
    }

    /// Whether `f` accepts one of the variations. They are tried from the
    /// first on, up to the first that is accepted.
    pub fn any<F: Fn(&str) -> bool>(&self, f: F) -> (r: bool)
        requires
            forall|s: &str| #[trigger] call_requires(f, (s,)),
        ensures
            r ==> exists|i: int| 0 <= i < self@.len() && may_answer(f, #[trigger] self@[i], true),
            !r ==> forall|i: int| 0 <= i < self@.len() ==> may_answer(f, #[trigger] self@[i], false),
    {
        let mut i: usize = 0;
        while i < self.variations.len()
            invariant
                i <= self.variations.len(),
                forall|s: &str| #[trigger] call_requires(f, (s,)),
                forall|j: int| 0 <= j < i ==> may_answer(f, #[trigger] self@[j], false),
            decreases self.variations.len() - i,
        {
            let s = self.variations[i].as_str();
            let accepted = f(s);
            proof {
                assert(s@ == self@[i as int]);
                assert(may_answer(f, self@[i as int], accepted));
            }
            if accepted {
                return true;
            }
            i = i + 1;
        }
        false
    }
}

/// A carriage return at the end of a line does not decide whether the
/// line is cut out.
pub proof fn lemma_boilerplate_ignores_cr(line: Seq<char>)
    ensures
        is_boilerplate(strip_cr(line)) == is_boilerplate(line),
{
    if line.len() > 0 && line.last() == '\r' {
        lemma_trim_ignores_last_whitespace(line);
    }
}

/// Lines that are cut out leave no trace at the end of the retained text.
pub proof fn lemma_retained_drops_trailing_boilerplate(body: Seq<Seq<char>>, tail: Seq<Seq<char>>)
    requires
        forall|i: int| 0 <= i < tail.len() ==> is_boilerplate(#[trigger] tail[i]),
    ensures
        retained(body + tail) == retained(body),
    decreases tail.len(),
{
    if tail.len() == 0 {
        assert(body + tail =~= body);
    } else {
        let all = body + tail;
        assert(all.last() == tail.last());
        assert(all.drop_last() =~= body + tail.drop_last());
        lemma_retained_drops_trailing_boilerplate(body, tail.drop_last());
    }
}

/// The lines of a text that ends with a line feed, or is empty, followed by
/// further lines with their line feeds.
pub proof fn lemma_lines_of_terminated(text: Seq<char>, tail: Seq<Seq<char>>)
    requires
        text.len() == 0 || text.last() == '\n',
        forall|i: int| 0 <= i < tail.len() ==> !(#[trigger] tail[i]).contains('\n'),
    ensures
        lines(text + terminated(tail)) == lines(text) + tail.map_values(
            |l: Seq<char>| strip_cr(l),
        ),
    decreases tail.len(),
{
    let stripped = tail.map_values(|l: Seq<char>| strip_cr(l));
    if tail.len() == 0 {
        assert(text + terminated(tail) =~= text);
        assert(lines(text) + stripped =~= lines(text));
    } else {
        let front = tail.drop_last();
        let before = text + terminated(front);
        lemma_lines_of_terminated(text, front);
        assert(text + terminated(tail) =~= before + tail.last().push('\n'));
        if before.len() > 0 {
            if front.len() == 0 {
                assert(before =~= text);
            } else {
                assert(before.last() == '\n');
            }
        }
        lemma_lines_push(before, tail.last());
        assert(lines(text) + stripped =~= (lines(text) + front.map_values(
            |l: Seq<char>| strip_cr(l),
        )).push(strip_cr(tail.last())));
    }
}

/// Closing lines of the compiler at the end of a diagnostic text are
/// removed by normalization, however many there are: with one or more
/// lines that are cut out added to a text, the normalized form is that of
/// the text alone.
pub proof fn lemma_trailing_boilerplate_removed(text: Seq<char>, tail: Seq<Seq<char>>)
    requires
        text.len() == 0 || text.last() == '\n',
        tail.len() >= 1,
        forall|i: int|
            0 <= i < tail.len() ==> is_boilerplate(#[trigger] tail[i]) && !tail[i].contains('\n'),
    ensures
        normalized(text + terminated(tail)) == normalized(text),
{
    let stripped = tail.map_values(|l: Seq<char>| strip_cr(l));
    lemma_lines_of_terminated(text, tail);
    assert forall|i: int| 0 <= i < stripped.len() implies is_boilerplate(
        #[trigger] stripped[i],
    ) by {
        lemma_boilerplate_ignores_cr(tail[i]);
    }
    lemma_retained_drops_trailing_boilerplate(lines(text), stripped);
}

/// A text of lines that hold no line feed ends with two line feeds exactly
/// when it has two or more lines and the last is empty.
pub proof fn lemma_terminated_end(ls: Seq<Seq<char>>)
    requires
        forall|i: int| 0 <= i < ls.len() ==> !(#[trigger] ls[i]).contains('\n'),
    ensures
        ls.len() > 0 ==> terminated(ls).len() > 0 && terminated(ls).last() == '\n',
        ls.len() == 0 ==> terminated(ls).len() == 0,
        ends_with(terminated(ls), seq!['\n', '\n']) <==> ls.len() >= 2 && ls.last().len() == 0,
{
    let two = seq!['\n', '\n'];
    let t = terminated(ls);
    assert(two.len() == 2 && two[0] == '\n' && two[1] == '\n');
    if ls.len() > 0 {
        let front = ls.drop_last();
        let before = terminated(front);
        let last = ls.last();
        assert(t == before + last.push('\n'));
        assert(t.last() == '\n');
        if t.len() >= 2 {
            let tail = t.skip(t.len() - 2);
            assert(tail.len() == 2 && tail[0] == t[t.len() - 2] && tail[1] == t[t.len() - 1]);
            if tail == two {
                assert(t[t.len() - 2] == '\n');
            }
            if t[t.len() - 2] == '\n' {
                assert(tail =~= two);
            }
        }
        if last.len() > 0 {
            assert(t[t.len() - 2] == last.last());
            assert(last.contains(last.last()));
        } else if front.len() == 0 {
            assert(t.len() == 1);
        } else {
            assert forall|i: int| 0 <= i < front.len() implies !(#[trigger] front[i]).contains(
                '\n',
            ) by {
                assert(front[i] == ls[i]);
            }
            assert(before == terminated(front.drop_last()) + front.last().push('\n'));
            assert(before.last() == '\n');
            assert(t[t.len() - 2] == before.last());
        }
    }
}

/// What is retained of lines that hold no line feed is the text of the
/// kept lines, each ended by a line feed. The kept lines hold no line
/// feed and are not cut out.
pub proof fn lemma_retained_is_kept_lines(ls: Seq<Seq<char>>)
    requires
        forall|i: int| 0 <= i < ls.len() ==> !(#[trigger] ls[i]).contains('\n'),
    ensures
        retained(ls) == terminated(kept_lines(ls)),
        forall|i: int|
            0 <= i < kept_lines(ls).len() ==> !(#[trigger] kept_lines(ls)[i]).contains('\n')
                && !is_boilerplate(kept_lines(ls)[i]),
    decreases ls.len(),
{
    if ls.len() > 0 {
        let front = ls.drop_last();
        let line = ls.last();
        let kept = kept_lines(front);
        assert forall|i: int| 0 <= i < front.len() implies !(#[trigger] front[i]).contains(
            '\n',
        ) by {
            assert(front[i] == ls[i]);
        }
        lemma_retained_is_kept_lines(front);
        lemma_terminated_end(kept);
        let acc = retained(front);
        let joined = acc + line;
        if !is_boilerplate(line) {
            let two = seq!['\n', '\n'];
            assert(two.len() == 2 && two[0] == '\n' && two[1] == '\n');
            if line.len() == 0 {
                assert(joined =~= acc);
            } else {
                assert(joined.last() == line.last());
                assert(line.contains(line.last()));
                if ends_with(joined, two) {
                    let tail = joined.skip(joined.len() - 2);
                    assert(tail[1] == joined[joined.len() - 1]);
                }
            }
            let next = kept.push(line);
            assert(next.drop_last() =~= kept);
            assert(next.last() == line);
            assert(terminated(next) =~= joined.push('\n'));
        }
    }
}

/// Of the lines, exactly those that are not empty and not cut out are
/// kept, in their order, together with some of the empty ones.
pub proof fn lemma_content_is_kept(ls: Seq<Seq<char>>)
    ensures
        kept_lines(ls).filter(|l: Seq<char>| is_filled(l)) == ls.filter(
            |l: Seq<char>| is_content(l),
        ),
    decreases ls.len(),
{
    let filled = |l: Seq<char>| is_filled(l);
    let content = |l: Seq<char>| is_content(l);
    if ls.len() == 0 {
        assert(kept_lines(ls).filter(filled) =~= ls.filter(content));
    } else {
        let front = ls.drop_last();
        let line = ls.last();
        let kept = kept_lines(front);
        lemma_content_is_kept(front);
        assert(ls =~= front + seq![line]);
        Seq::filter_distributes_over_add(front, seq![line], content);
        reveal(Seq::filter);
        let none = Seq::<Seq<char>>::empty();
        assert(seq![line].drop_last() =~= none);
        assert(seq![line].last() == line);
        assert(none.filter(content) =~= none);
        assert(none.filter(filled) =~= none);
        if is_boilerplate(line) || line.len() == 0 {
            assert(seq![line].filter(content) =~= Seq::<Seq<char>>::empty());
        } else {
            assert(seq![line].filter(content) =~= seq![line]);
        }
        if kept_lines(ls) != kept {
            assert(kept_lines(ls) =~= kept + seq![line]);
            Seq::filter_distributes_over_add(kept, seq![line], filled);
            if line.len() == 0 {
                assert(seq![line].filter(filled) =~= Seq::<Seq<char>>::empty());
            } else {
                assert(seq![line].filter(filled) =~= seq![line]);
            }
        }
        assert(kept_lines(ls).filter(filled) =~= ls.filter(content));
    }
}

/// A normalized text is empty, or it ends with one line feed that follows
/// a character which is no white space.
pub proof fn lemma_normalized_end(text: Seq<char>)
    ensures
        ({
            let r = normalized(text);
            r.len() == 0 || (r.len() >= 2 && r.last() == '\n' && !is_whitespace(r[r.len() - 2]))
        }),
{
    let s = retained(lines(text));
    lemma_trim_end_is_prefix(s);
    let t = trim_end(s);
    if t.len() > 0 {
        assert(t.push('\n')[t.len() as int - 1] == t.last());
    }
}

/// White space at the end of a line does not decide whether the line is
/// cut out.
pub proof fn lemma_boilerplate_ignores_trailing_whitespace(line: Seq<char>)
    ensures
        is_boilerplate(trim_end(line)) == is_boilerplate(line),
    decreases line.len(),
{
    if line.len() > 0 && is_whitespace(line.last()) {
        lemma_trim_ignores_last_whitespace(line);
        lemma_boilerplate_ignores_trailing_whitespace(line.drop_last());
    }
}

/// What `closed_lines` leaves: the lines up to the last that is not blank,
/// unchanged but for that last one, which loses the white space at its end.
/// Every line after it is blank.
pub proof fn lemma_closed_lines(ls: Seq<Seq<char>>)
    ensures
        closed_lines(ls).len() <= ls.len(),
        forall|i: int| 0 <= i < closed_lines(ls).len() - 1 ==> closed_lines(ls)[i] == ls[i],
        closed_lines(ls).len() > 0 ==> closed_lines(ls).last() == trim_end(
            ls[closed_lines(ls).len() - 1],
        ) && !is_blank(ls[closed_lines(ls).len() - 1]),
        forall|i: int| closed_lines(ls).len() <= i < ls.len() ==> is_blank(#[trigger] ls[i]),
    decreases ls.len(),
{
    if ls.len() > 0 && is_blank(ls.last()) {
        let front = ls.drop_last();
        lemma_closed_lines(front);
        assert forall|i: int| 0 <= i < closed_lines(ls).len() - 1 implies closed_lines(ls)[i]
            == ls[i] by {
            assert(front[i] == ls[i]);
        }
        assert forall|i: int| closed_lines(ls).len() <= i < ls.len() implies is_blank(
            #[trigger] ls[i],
        ) by {
            if i < front.len() {
                assert(front[i] == ls[i]);
            }
        }
        if closed_lines(ls).len() > 0 {
            assert(front[closed_lines(ls).len() - 1] == ls[closed_lines(ls).len() - 1]);
        }
    }
}

/// Cutting the white space at the end of a text of lines, and ending it
/// with a line feed unless nothing is left, gives the text of the closed
/// lines.
pub proof fn lemma_trimmed_is_closed_lines(ls: Seq<Seq<char>>)
    ensures
        trimmed(terminated(ls)) == terminated(closed_lines(ls)),
    decreases ls.len(),
{
    if ls.len() > 0 {
        let front = ls.drop_last();
        let last = ls.last();
        let before = terminated(front);
        let whole = terminated(ls);
        assert(whole == before + last.push('\n'));
        lemma_trim_end_is_prefix(last);
        let m = trim_end(last).len() as int;
        let cut = before.len() + m;
        assert forall|i: int| cut <= i < whole.len() implies is_whitespace(whole[i]) by {
            if i < before.len() + last.len() {
                assert(whole[i] == last[i - before.len()]);
                lemma_trim_end_covers(last, i - before.len());
            }
        }
        lemma_trim_end_of_prefix(whole, cut);
        assert(whole.take(cut) =~= before + trim_end(last));
        if m == 0 {
            assert(before + trim_end(last) =~= before);
            lemma_trimmed_is_closed_lines(front);
        } else {
            let kept = before + trim_end(last);
            assert(kept.last() == trim_end(last).last());
            assert(trim_end(kept) == kept);
            let closed = front.push(trim_end(last));
            assert(closed.drop_last() =~= front);
            assert(closed.last() == trim_end(last));
            assert(terminated(closed) =~= kept.push('\n'));
        }
    }
}

/// What `trim_end` cuts off is white space.
pub proof fn lemma_trim_end_covers(s: Seq<char>, i: int)
    requires
        trim_end(s).len() <= i < s.len(),
    ensures
        is_whitespace(s[i]),
    decreases s.len(),
{
    if s.len() > 0 && is_whitespace(s.last()) {
        if i < s.len() - 1 {
            lemma_trim_end_covers(s.drop_last(), i);
        }
    }
}

/// The lines of a normalized text are the closed kept lines of the text,
/// and none of them is cut out.
pub proof fn lemma_normalized_lines(text: Seq<char>)
    ensures
        normalized(text) == terminated(closed_lines(kept_lines(lines(text)))),
        lines(normalized(text)) == closed_lines(kept_lines(lines(text))).map_values(
            |l: Seq<char>| strip_cr(l),
        ),
        forall|i: int|
            0 <= i < lines(normalized(text)).len() ==> !is_boilerplate(
                #[trigger] lines(normalized(text))[i],
            ),
{
    let ls = lines(text);
    let kept = kept_lines(ls);
    let closed = closed_lines(kept);
    lemma_lines_hold_no_line_feed(text);
    lemma_retained_is_kept_lines(ls);
    lemma_trimmed_is_closed_lines(kept);
    lemma_closed_lines(kept);
    assert forall|i: int| 0 <= i < closed.len() implies !(#[trigger] closed[i]).contains('\n')
        && !is_boilerplate(closed[i]) by {
        if i < closed.len() - 1 {
            assert(closed[i] == kept[i]);
        } else {
            let line = kept[closed.len() - 1];
            lemma_trim_end_is_prefix(line);
            lemma_boilerplate_ignores_trailing_whitespace(line);
            if closed[i].contains('\n') {
                let j = choose|j: int| 0 <= j < closed[i].len() && closed[i][j] == '\n';
                assert(line[j] == '\n');
                assert(line.contains('\n'));
            }
        }
    }
    let none = Seq::<char>::empty();
    lemma_lines_of_terminated(none, closed);
    assert(none + terminated(closed) =~= terminated(closed));
    assert(lines(none) =~= Seq::<Seq<char>>::empty());
    let stripped = closed.map_values(|l: Seq<char>| strip_cr(l));
    assert(lines(none) + stripped =~= stripped);
    assert forall|i: int| 0 <= i < stripped.len() implies !is_boilerplate(
        #[trigger] stripped[i],
    ) by {
        lemma_boilerplate_ignores_cr(closed[i]);
    }
}

/// Whether `line` is cut out.
pub fn is_boilerplate_line(line: &Vec<char>) -> (r: bool)
    ensures
        r == is_boilerplate(line@),
{
    let (a, b) = trim_bounds(line);
    has_prefix_at(line, a, b, &chars_of(ABORTING)) || has_prefix_at(
        line,
        a,
        b,
        &chars_of(EXPLAIN_THIS),
    ) || has_prefix_at(line, a, b, &chars_of(EXPLAIN_AN)) || has_prefix_at(
        line,
        a,
        b,
        &chars_of(EXPLANATIONS),
    )
}

/// The line itself, or nothing where it is cut out.
pub fn filter_map(line: &str) -> (r: Option<String>)
    ensures
        r is None <==> is_boilerplate(line@),
        r matches Some(kept) ==> kept@ == line@,
{
    let chars = chars_of(line);
    if is_boilerplate_line(&chars) {
        None
    } else {
        Some(string_of(&chars))
    }
}

/// Adds `line` to `acc` as `append_line` says.
fn push_line(acc: &mut Vec<char>, line: &Vec<char>)
    ensures
        final(acc)@ == append_line(old(acc)@, line@),
{
    let mut i: usize = 0;
    while i < line.len()
        invariant
            i <= line.len(),
            acc@ == old(acc)@ + line@.take(i as int),
        decreases line.len() - i,
    {
        acc.push(line[i]);
        proof {
            assert(line@.take(i + 1) =~= line@.take(i as int).push(line@[i as int]));
        }
        i = i + 1;
    }
    proof {
        assert(line@.take(line.len() as int) =~= line@);
    }
    let n = acc.len();
    let doubled = n >= 2 && acc[n - 1] == '\n' && acc[n - 2] == '\n';
    proof {
        let joined = acc@;
        if n >= 2 {
            assert(joined.skip(n - 2) =~= seq![joined[n - 2], joined[n - 1]]);
            assert(seq!['\n', '\n'][0] == '\n' && seq!['\n', '\n'][1] == '\n');
        }
        assert(doubled == ends_with(joined, seq!['\n', '\n']));
    }
    if !doubled {
        acc.push('\n');
    }
}

/// `s` cut as `trimmed` says.
pub fn trim_chars(s: &Vec<char>) -> (v: Vec<char>)
    ensures
        v@ == trimmed(s@),
{
    let n = trim_end_len(s);
    let mut v = slice_of(s, 0, n);
    if n > 0 {
        v.push('\n');
    }
    v
}

/// The normalized form of the characters `text`.
pub fn process_chars(text: &Vec<char>) -> (v: Vec<char>)
    ensures
        v@ == normalized(text@),
{
    let ls = split_lines(text);
    let mut acc: Vec<char> = Vec::new();
    let mut i: usize = 0;
    while i < ls.len()
        invariant
            i <= ls.len(),
            acc@ == retained(texts(ls@).take(i as int)),
        decreases ls.len() - i,
    {
        proof {
            let upto = texts(ls@).take(i + 1);
            assert(upto.drop_last() =~= texts(ls@).take(i as int));
            assert(upto.last() == ls@[i as int]@);
        }
        if !is_boilerplate_line(&ls[i]) {
            push_line(&mut acc, &ls[i]);
        }
        i = i + 1;
    }
    proof {
        assert(texts(ls@).take(ls.len() as int) =~= texts(ls@));
    }
    trim_chars(&acc)
}

/// The normalized form of the diagnostic text `text`: the lines that
/// are not cut out, without blank lines piling up and without trailing
/// white space.
pub fn process(text: &str) -> (r: String)
    ensures
        r@ == normalized(text@),
{
    string_of(&process_chars(&chars_of(text)))
}

/// The text of `output`, without trailing white space and ended by one line
/// feed unless it is empty.
pub fn trim(output: &[u8]) -> (r: String)
    ensures
        r@ == trimmed(utf8_lossy(output@)),
{
    let text = decode_lossy(output);
    string_of(&trim_chars(&chars_of(text.as_str())))
}

/// The variations of the diagnostic text `text`, line ends unified first.
pub fn variations_of(text: &str) -> (r: Variations)
    ensures
        r@ == seq![normalized(unify_newlines(text@))],
{
    let unified = replace_crlf(&chars_of(text));
    let basic = string_of(&process_chars(&unified));
    let mut variations: Vec<String> = Vec::new();
    variations.push(basic);
    proof {
        assert(string_texts(variations@) =~= seq![normalized(unify_newlines(text@))]);
    }
    Variations { variations }
}

/// The variations of the raw diagnostic output of the compiler.
pub fn diagnostics(output: &[u8]) -> (r: Variations)
    ensures
        r@ == seq![normalized(unify_newlines(utf8_lossy(output@)))],
{
    let text = decode_lossy(output);
    variations_of(text.as_str())
}

} // verus!
