//! What holds of case folding, trimming and lines.

use crate::text;
use vstd::prelude::*;
use vstd::utf8::*;

verus! {

/// Folding the case twice is folding it once.
pub proof fn law_lower_twice(s: Seq<char>)
    ensures
        text::lower(text::lower(s)) == text::lower(s),
{
    assert(text::lower(text::lower(s)) =~= text::lower(s));
}

/// Encoding a text and decoding the bytes gives the text back.
pub proof fn law_decode_encode(s: Seq<char>)
    ensures
        text::decoded(encode_utf8(s)) == s,
{
    encode_utf8_valid_utf8(s);
    encode_utf8_decode_utf8(s);
}

/// A text without line feeds.
pub open spec fn one_line(s: Seq<char>) -> bool {
    forall|i: int| 0 <= i < s.len() ==> s[i] != '\n'
}

/// A text of one line, not empty, with no white space at either end.
pub open spec fn is_tidy(s: Seq<char>) -> bool {
    &&& s.len() > 0
    &&& !text::is_white_space(s[0])
    &&& !text::is_white_space(s.last())
    &&& one_line(s)
}

/// `part` is a stretch of `s`, from `a` to `b`.
pub open spec fn is_stretch(s: Seq<char>, part: Seq<char>, a: int, b: int) -> bool {
    0 <= a <= b <= s.len() && part == s.subrange(a, b)
}

proof fn lemma_trimmed_start(s: Seq<char>) -> (a: int)
    ensures
        is_stretch(s, text::trimmed_start(s), a, s.len() as int),
        text::trimmed_start(s).len() > 0 ==> !text::is_white_space(text::trimmed_start(s)[0]),
    decreases s.len(),
{
    if s.len() > 0 && text::is_white_space(s[0]) {
        let a = lemma_trimmed_start(s.skip(1));
        assert(s.skip(1).subrange(a, s.len() - 1) =~= s.subrange(a + 1, s.len() as int));
        a + 1
    } else {
        assert(s.subrange(0, s.len() as int) =~= s);
        0
    }
}

/// Trimming the end leaves a beginning of the text that does not end in white space.
pub proof fn lemma_trimmed_end(s: Seq<char>) -> (b: int)
    ensures
        is_stretch(s, text::trimmed_end(s), 0, b),
        text::trimmed_end(s).len() > 0 ==> !text::is_white_space(text::trimmed_end(s).last()),
    decreases s.len(),
{
    if s.len() > 0 && text::is_white_space(s.last()) {
        let b = lemma_trimmed_end(s.drop_last());
        assert(s.drop_last().subrange(0, b) =~= s.subrange(0, b));
        b
    } else {
        assert(s.subrange(0, s.len() as int) =~= s);
        s.len() as int
    }
}

/// Trimming leaves a stretch of the text that neither begins nor ends in white space.
pub proof fn law_trimmed(s: Seq<char>)
    ensures
        text::trimmed(s).len() <= s.len(),
        text::trimmed(s).len() > 0 ==> !text::is_white_space(text::trimmed(s)[0])
            && !text::is_white_space(text::trimmed(s).last()),
        exists|a: int, b: int|
            0 <= a <= b <= s.len() && text::trimmed(s) == #[trigger] s.subrange(a, b),
        one_line(s) ==> one_line(text::trimmed(s)),
{
    let start = text::trimmed_start(s);
    let a = lemma_trimmed_start(s);
    let b = lemma_trimmed_end(start);
    assert(text::trimmed(s) =~= s.subrange(a, a + b));
}

/// A text with no white space at either end is its own trimmed form.
pub proof fn law_trimmed_fixed(s: Seq<char>)
    requires
        s.len() > 0 ==> !text::is_white_space(s[0]) && !text::is_white_space(s.last()),
    ensures
        text::trimmed(s) == s,
{
}

/// White space at the end of a text makes no difference to its trimmed form.
pub proof fn lemma_trimmed_drop_last(s: Seq<char>)
    requires
        s.len() > 0,
        text::is_white_space(s.last()),
    ensures
        text::trimmed(s) == text::trimmed(s.drop_last()),
    decreases s.len(),
{
    if s.len() == 1 {
        assert(s.skip(1).len() == 0);
        assert(text::trimmed_start(s) =~= seq![]) by {
            reveal_with_fuel(text::trimmed_start, 2);
        }
        assert(text::trimmed_start(s.drop_last()) =~= seq![]);
    } else if text::is_white_space(s[0]) {
        assert(s.drop_last().skip(1) =~= s.skip(1).drop_last());
        lemma_trimmed_drop_last(s.skip(1));
    } else {
        assert(text::trimmed_start(s) == s);
        assert(text::trimmed_start(s.drop_last()) == s.drop_last());
    }
}

/// A carriage return at the end of a text makes no difference to its trimmed form.
pub proof fn lemma_trimmed_without_return(s: Seq<char>)
    ensures
        text::trimmed(text::without_return(s)) == text::trimmed(s),
{
    if s.len() > 0 && s.last() == '\r' {
        lemma_trimmed_drop_last(s);
    }
}

/// Dropping NULs leaves a beginning of the text that does not end in a NUL.
pub proof fn lemma_without_nuls(s: Seq<char>)
    ensures
        text::without_nuls(s).len() <= s.len(),
        text::without_nuls(s) == s.take(text::without_nuls(s).len() as int),
        text::without_nuls(s).len() > 0 ==> text::without_nuls(s).last() != '\0',
    decreases s.len(),
{
    if s.len() > 0 && s.last() == '\0' {
        lemma_without_nuls(s.drop_last());
        let n = text::without_nuls(s).len() as int;
        assert(s.drop_last().take(n) =~= s.take(n));
    } else {
        assert(s.take(s.len() as int) =~= s);
    }
}

/// No line of a text holds a line feed.
pub proof fn law_lines_hold_no_line_feed(s: Seq<char>)
    ensures
        forall|i: int| 0 <= i < text::lines(s).len() ==> one_line(#[trigger] text::lines(s)[i]),
    decreases s.len(),
{
    text::lemma_line_end(s);
    let end = text::line_end(s);
    if s.len() > 0 {
        if end < s.len() {
            let rest = s.skip(end + 1);
            law_lines_hold_no_line_feed(rest);
            assert forall|i: int| 0 <= i < text::lines(s).len() implies one_line(
                #[trigger] text::lines(s)[i],
            ) by {
                if i == 0 {
                    assert(text::lines(s)[0] == text::without_return(s.take(end)));
                } else {
                    assert(text::lines(s)[i] == text::lines(rest)[i - 1]);
                }
            }
        } else {
            assert(text::lines(s) =~= seq![s]);
        }
    }
}

/// A text that begins with a whole line.
pub proof fn lemma_lines_first(first: Seq<char>, rest: Seq<char>)
    requires
        one_line(first),
    ensures
        text::lines(first.push('\n') + rest) == seq![text::without_return(first)] + text::lines(
            rest,
        ),
{
    let s = first.push('\n') + rest;
    text::lemma_line_end_is(s, first.len() as int);
    assert(s.take(first.len() as int) =~= first);
    assert(s.skip(first.len() as int + 1) =~= rest);
}

/// The text that holds one line for each name.
pub open spec fn joined(names: Seq<Seq<char>>) -> Seq<char>
    decreases names.len(),
{
    if names.len() == 0 {
        seq![]
    } else {
        joined(names.drop_last()) + names.last().push('\n')
    }
}

proof fn lemma_joined_first(names: Seq<Seq<char>>)
    requires
        names.len() > 0,
    ensures
        joined(names) == names[0].push('\n') + joined(names.skip(1)),
    decreases names.len(),
{
    if names.len() == 1 {
        assert(joined(names.skip(1)) =~= seq![]);
        assert(joined(names.drop_last()) =~= seq![]);
        assert(joined(names) =~= names[0].push('\n') + joined(names.skip(1)));
    } else {
        lemma_joined_first(names.drop_last());
        assert(names.drop_last().skip(1) =~= names.skip(1).drop_last());
        assert(joined(names) =~= names[0].push('\n') + joined(names.skip(1)));
    }
}

/// The names with a carriage return at the end of each taken off.
pub open spec fn without_returns(names: Seq<Seq<char>>) -> Seq<Seq<char>> {
    Seq::new(names.len(), |i: int| text::without_return(names[i]))
}

/// The lines of a text that was joined from names are those names.
pub proof fn law_lines_joined(names: Seq<Seq<char>>)
    requires
        forall|i: int| 0 <= i < names.len() ==> one_line(#[trigger] names[i]),
    ensures
        text::lines(joined(names)) == without_returns(names),
    decreases names.len(),
{
    if names.len() == 0 {
        assert(text::lines(joined(names)) =~= without_returns(names));
    } else {
        let rest = names.skip(1);
        lemma_joined_first(names);
        lemma_lines_first(names[0], joined(rest));
        assert forall|i: int| 0 <= i < rest.len() implies one_line(#[trigger] rest[i]) by {
            assert(rest[i] == names[i + 1]);
        }
        law_lines_joined(rest);
        assert(seq![text::without_return(names[0])] + without_returns(rest) =~= without_returns(
            names,
        ));
    }
}

/// Folding the case moves the ASCII capital letters to the small ones and keeps every other
/// character in its place.
pub proof fn law_lower(s: Seq<char>)
    ensures
        text::lower(s).len() == s.len(),
        forall|i: int|
            0 <= i < s.len() && 'A' <= s[i] <= 'Z' ==> (#[trigger] text::lower(s)[i]) as u32
                == s[i] as u32 + 32,
        forall|i: int|
            0 <= i < s.len() && !('A' <= s[i] <= 'Z') ==> #[trigger] text::lower(s)[i] == s[i],
{
}

/// Two texts are the same up to case if they have the same length and at each place either
/// the same character or the two forms of one ASCII letter, and only then.
pub proof fn law_same_ignoring_case(a: Seq<char>, b: Seq<char>)
    ensures
        text::same_ignoring_case(a, b) <==> a.len() == b.len() && forall|i: int|
            0 <= i < a.len() ==> {
                ||| #[trigger] a[i] == b[i]
                ||| 'A' <= a[i] <= 'Z' && b[i] as u32 == a[i] as u32 + 32
                ||| 'A' <= b[i] <= 'Z' && a[i] as u32 == b[i] as u32 + 32
            },
{
    if text::same_ignoring_case(a, b) {
        assert(text::lower(a).len() == text::lower(b).len());
        assert forall|i: int| 0 <= i < a.len() implies {
            ||| #[trigger] a[i] == b[i]
            ||| 'A' <= a[i] <= 'Z' && b[i] as u32 == a[i] as u32 + 32
            ||| 'A' <= b[i] <= 'Z' && a[i] as u32 == b[i] as u32 + 32
        } by {
            assert(text::lower(a)[i] == text::lower(b)[i]);
        }
    } else if a.len() == b.len() {
        if forall|i: int|
            0 <= i < a.len() ==> {
                ||| #[trigger] a[i] == b[i]
                ||| 'A' <= a[i] <= 'Z' && b[i] as u32 == a[i] as u32 + 32
                ||| 'A' <= b[i] <= 'Z' && a[i] as u32 == b[i] as u32 + 32
            } {
            assert forall|i: int| 0 <= i < a.len() implies text::lower(a)[i] == text::lower(b)[i] by {
                assert(a[i] == a[i]);
            }
            assert(text::lower(a) =~= text::lower(b));
        }
    }
}

/// A part stands in a text if the text is something before it, the part, and something
/// behind it, and only then.
pub proof fn law_has_part(s: Seq<char>, part: Seq<char>)
    ensures
        text::has_part(s, part) <==> exists|before: Seq<char>, behind: Seq<char>|
            s == #[trigger] (before + part + behind),
{
    if text::has_part(s, part) {
        let i = choose|i: int| text::occurs_at(s, part, i);
        let before = s.take(i);
        let behind = s.skip(i + part.len());
        assert(s =~= before + part + behind) by {
            assert forall|j: int| 0 <= j < s.len() implies s[j] == (before + part + behind)[j] by {
                if i <= j < i + part.len() {
                    assert(s.subrange(i, i + part.len())[j - i] == part[j - i]);
                }
            }
        }
    }
    assert forall|before: Seq<char>, behind: Seq<char>|
        s == #[trigger] (before + part + behind) implies text::has_part(s, part) by {
        assert(s.subrange(before.len() as int, (before.len() + part.len()) as int) =~= part);
        assert(text::occurs_at(s, part, before.len() as int));
    }
}

proof fn lemma_trimmed_start_of(before: Seq<char>, rest: Seq<char>)
    requires
        forall|i: int| 0 <= i < before.len() ==> text::is_white_space(#[trigger] before[i]),
    ensures
        text::trimmed_start(before + rest) == text::trimmed_start(rest),
    decreases before.len(),
{
    if before.len() == 0 {
        assert(before + rest =~= rest);
    } else {
        let tail = before.skip(1);
        assert((before + rest)[0] == before[0]);
        assert((before + rest).skip(1) =~= tail + rest);
        assert forall|i: int| 0 <= i < tail.len() implies text::is_white_space(
            #[trigger] tail[i],
        ) by {
            assert(tail[i] == before[i + 1]);
        }
        lemma_trimmed_start_of(tail, rest);
    }
}

proof fn lemma_trimmed_end_of(front: Seq<char>, behind: Seq<char>)
    requires
        forall|i: int| 0 <= i < behind.len() ==> text::is_white_space(#[trigger] behind[i]),
    ensures
        text::trimmed_end(front + behind) == text::trimmed_end(front),
    decreases behind.len(),
{
    if behind.len() == 0 {
        assert(front + behind =~= front);
    } else {
        let head = behind.drop_last();
        assert((front + behind).last() == behind[behind.len() - 1]);
        assert((front + behind).drop_last() =~= front + head);
        assert forall|i: int| 0 <= i < head.len() implies text::is_white_space(
            #[trigger] head[i],
        ) by {
            assert(head[i] == behind[i]);
        }
        lemma_trimmed_end_of(front, head);
    }
}

/// Trimming takes off white space at either end, all of it, and nothing else.
pub proof fn law_trimmed_takes_white_space(before: Seq<char>, inner: Seq<char>, behind: Seq<char>)
    requires
        forall|i: int| 0 <= i < before.len() ==> text::is_white_space(#[trigger] before[i]),
        forall|i: int| 0 <= i < behind.len() ==> text::is_white_space(#[trigger] behind[i]),
        inner.len() > 0 ==> !text::is_white_space(inner[0]) && !text::is_white_space(inner.last()),
    ensures
        text::trimmed(before + inner + behind) == inner,
{
    assert(before + inner + behind =~= before + (inner + behind));
    lemma_trimmed_start_of(before, inner + behind);
    if inner.len() > 0 {
        assert((inner + behind)[0] == inner[0]);
        lemma_trimmed_end_of(inner, behind);
    } else {
        let empty = Seq::<char>::empty();
        assert(inner + behind =~= behind + empty);
        lemma_trimmed_start_of(behind, empty);
        assert(text::trimmed(before + inner + behind) =~= inner);
    }
}

/// Dropping NULs takes off those at the end, all of them, and nothing else.
pub proof fn law_without_nuls(inner: Seq<char>, nuls: Seq<char>)
    requires
        forall|i: int| 0 <= i < nuls.len() ==> #[trigger] nuls[i] == '\0',
        inner.len() > 0 ==> inner.last() != '\0',
    ensures
        text::without_nuls(inner + nuls) == inner,
    decreases nuls.len(),
{
    if nuls.len() == 0 {
        assert(inner + nuls =~= inner);
    } else {
        assert((inner + nuls).last() == nuls[nuls.len() - 1]);
        assert((inner + nuls).drop_last() =~= inner + nuls.drop_last());
        law_without_nuls(inner, nuls.drop_last());
    }
}

/// A text falls into lines from the front: up to a line feed, without it and without a
/// carriage return right before it. What has no line feed is one line, unless it is empty.
pub proof fn law_lines(first: Seq<char>, rest: Seq<char>)
    requires
        forall|i: int| 0 <= i < first.len() ==> #[trigger] first[i] != '\n',
    ensures
        first.len() == 0 || first.last() != '\r' ==> text::lines(first.push('\n') + rest)
            == seq![first] + text::lines(rest),
        text::lines(first + seq!['\r', '\n'] + rest) == seq![first] + text::lines(rest),
        first.len() > 0 ==> text::lines(first) == seq![first],
        text::lines(Seq::<char>::empty()) == Seq::<Seq<char>>::empty(),
{
    lemma_lines_first(first, rest);
    let returned = first.push('\r');
    lemma_lines_first(returned, rest);
    assert(returned.push('\n') + rest =~= first + seq!['\r', '\n'] + rest);
    assert(text::without_return(returned) =~= first);
    text::lemma_line_end_is(first, first.len() as int);
    assert(text::lines(Seq::<char>::empty()) =~= Seq::<Seq<char>>::empty());
}

/// Valid UTF-8 is decoded, and whatever else is what the standard library makes of it.
pub proof fn law_decoded(bytes: Seq<u8>)
    ensures
        valid_utf8(bytes) ==> text::decoded(bytes) == decode_utf8(bytes) && encode_utf8(
            text::decoded(bytes),
        ) == bytes,
        !valid_utf8(bytes) ==> text::decoded(bytes) == text::utf8_repaired(bytes),
{
    if valid_utf8(bytes) {
        decode_utf8_encode_utf8(bytes);
    }
}

/// The texts of a list of strings are those of its entries, in order.
pub proof fn law_texts(v: Seq<String>, rows: Seq<Vec<char>>)
    ensures
        text::texts(v).len() == v.len(),
        forall|i: int| 0 <= i < v.len() ==> #[trigger] text::texts(v)[i] == v[i]@,
        text::rows(rows).len() == rows.len(),
        forall|i: int| 0 <= i < rows.len() ==> #[trigger] text::rows(rows)[i] == rows[i]@,
{
}

} // verus!
