//! What holds of normalised lists of locations.

use crate::mime::DataMode;
use crate::text;
use crate::text_laws;
use crate::uri;
use vstd::prelude::*;
use vstd::utf8::*;

verus! {

/// The locations that a sequence of lines names.
pub open spec fn locations(ls: Seq<Seq<char>>) -> Seq<Seq<char>>
    decreases ls.len(),
{
    if ls.len() == 0 {
        seq![]
    } else {
        let item = uri::entry(ls.last());
        if uri::is_skipped(item) {
            locations(ls.drop_last())
        } else {
            locations(ls.drop_last()).push(uri::location(item))
        }
    }
}

/// A location as it stands in a normalised list.
pub open spec fn is_plain(name: Seq<char>) -> bool {
    &&& text_laws::one_line(name)
    &&& !uri::is_skipped(name)
    &&& !text::is_white_space(name[0])
    &&& name[0] != '/'
    &&& name.last() != '\0'
}

/// The line adds nothing that ends in white space.
pub open spec fn ends_well(line: Seq<char>) -> bool {
    uri::is_skipped(uri::entry(line)) || !text::is_white_space(uri::entry(line).last())
}

/// No line of the list has white space between what it names and a NUL behind it.
pub open spec fn is_settled(list: Seq<char>) -> bool {
    forall|i: int| 0 <= i < text::lines(list).len() ==> ends_well(#[trigger] text::lines(list)[i])
}

proof fn lemma_location(line: Seq<char>)
    requires
        text_laws::one_line(line),
        !uri::is_skipped(uri::entry(line)),
    ensures
        is_plain(uri::location(uri::entry(line))),
        uri::location(uri::entry(line)).last() == uri::entry(line).last(),
{
    let inner = text::trimmed(line);
    let item = uri::entry(line);
    text_laws::law_trimmed(line);
    text_laws::lemma_without_nuls(inner);
    assert(item[0] == inner[0]);
    assert(text_laws::one_line(item));
    if item[0] == '/' {
        let name = uri::location(item);
        reveal_strlit("file://");
        reveal_strlit("copy");
        reveal_strlit("cut");
        assert(text::lower(name).len() >= 8);
        assert(text::lower("copy"@).len() == 4);
        assert(text::lower("cut"@).len() == 3);
        assert forall|i: int| 0 <= i < name.len() implies name[i] != '\n' by {
            if i >= 7 {
                assert(name[i] == item[i - 7]);
            }
        }
    }
}

proof fn lemma_written_again(name: Seq<char>)
    requires
        is_plain(name),
    ensures
        !text::is_white_space(name.last()) ==> uri::written_line(text::without_return(name))
            == name.push('\n'),
        text::is_white_space(name.last()) ==> uri::written_line(text::without_return(name)).len()
            <= name.len(),
{
    text_laws::lemma_trimmed_without_return(name);
    let inner = text::trimmed(name);
    let item = uri::entry(name);
    assert(text::trimmed_start(name) == name);
    let b = text_laws::lemma_trimmed_end(name);
    text_laws::lemma_without_nuls(inner);
    if text::is_white_space(name.last()) {
        text_laws::lemma_trimmed_drop_last(name);
        text_laws::law_trimmed(name.drop_last());
        if item.len() > 0 {
            assert(item[0] == name[0]);
        }
    }
}

proof fn lemma_locations(ls: Seq<Seq<char>>)
    requires
        forall|i: int| 0 <= i < ls.len() ==> text_laws::one_line(#[trigger] ls[i]),
    ensures
        uri::written_lines(ls) == text_laws::joined(locations(ls)),
        forall|i: int| 0 <= i < locations(ls).len() ==> is_plain(#[trigger] locations(ls)[i]),
        (forall|i: int| 0 <= i < ls.len() ==> ends_well(#[trigger] ls[i])) <==> (forall|i: int|
            0 <= i < locations(ls).len() ==> !text::is_white_space(
                (#[trigger] locations(ls)[i]).last(),
            )),
    decreases ls.len(),
{
    if ls.len() > 0 {
        let n = ls.len() - 1;
        let front = ls.drop_last();
        assert forall|i: int| 0 <= i < front.len() implies text_laws::one_line(
            #[trigger] front[i],
        ) by {
            assert(front[i] == ls[i]);
        }
        lemma_locations(front);
        assert(forall|i: int| 0 <= i < front.len() ==> #[trigger] front[i] == ls[i]);
        assert(forall|i: int| 0 <= i < front.len() ==> front[i] == #[trigger] ls[i]);
        assert(ls[n] == ls.last());
        let before = locations(front);
        let all = locations(ls);
        if uri::is_skipped(uri::entry(ls.last())) {
            assert(uri::written_lines(ls) =~= uri::written_lines(front));
        } else {
            lemma_location(ls[n]);
            let name = uri::location(uri::entry(ls.last()));
            assert(all == before.push(name));
            assert(all.drop_last() =~= before);
            assert(all[before.len() as int] == name);
            assert(forall|i: int| 0 <= i < before.len() ==> #[trigger] all[i] == before[i]);
            assert(forall|i: int| 0 <= i < before.len() ==> all[i] == #[trigger] before[i]);
        }
    }
}

proof fn lemma_all_written_again(names: Seq<Seq<char>>)
    requires
        forall|i: int| 0 <= i < names.len() ==> is_plain(#[trigger] names[i]),
    ensures
        ({
            let again = uri::written_lines(text_laws::without_returns(names));
            let once = text_laws::joined(names);
            let settled = forall|i: int|
                0 <= i < names.len() ==> !text::is_white_space((#[trigger] names[i]).last());
            &&& settled ==> again == once
            &&& !settled ==> again.len() < once.len()
        }),
    decreases names.len(),
{
    let cut = text_laws::without_returns(names);
    if names.len() > 0 {
        let n = names.len() - 1;
        let front = names.drop_last();
        assert(forall|i: int| 0 <= i < front.len() ==> #[trigger] front[i] == names[i]);
        assert(forall|i: int| 0 <= i < front.len() ==> front[i] == #[trigger] names[i]);
        lemma_all_written_again(front);
        lemma_written_again(names[n]);
        assert(cut.drop_last() =~= text_laws::without_returns(front));
        assert(cut.last() == text::without_return(names[n]));
    }
}

proof fn lemma_written_first(first: Seq<char>, ls: Seq<Seq<char>>)
    ensures
        uri::written_lines(seq![first] + ls) == uri::written_line(first) + uri::written_lines(ls),
    decreases ls.len(),
{
    let all = seq![first] + ls;
    if ls.len() == 0 {
        assert(uri::written_lines(all.drop_last()) =~= seq![]);
        assert(uri::written_lines(all) =~= uri::written_line(first) + uri::written_lines(ls));
    } else {
        assert(all.drop_last() =~= seq![first] + ls.drop_last());
        lemma_written_first(first, ls.drop_last());
        assert(uri::written_lines(all) =~= uri::written_line(first) + uri::written_lines(ls));
    }
}

/// A list is treated line by line, in order: what the first line adds comes first, and then
/// what the rest comes to by itself.
pub proof fn law_normalized_line_by_line(first: Seq<char>, rest: Seq<char>)
    requires
        text_laws::one_line(first),
    ensures
        uri::normalized(first.push('\n') + rest) == uri::written_line(first) + uri::normalized(
            rest,
        ),
{
    text_laws::lemma_lines_first(first, rest);
    text_laws::lemma_trimmed_without_return(first);
    lemma_written_first(text::without_return(first), text::lines(rest));
}

/// A normalised list holds one location to a line: none is blank, none is a verb, none is
/// an absolute path.
pub proof fn law_normalized_lists_locations(list: Seq<char>)
    ensures
        uri::normalized(list) == text_laws::joined(locations(text::lines(list))),
        forall|i: int|
            0 <= i < locations(text::lines(list)).len() ==> is_plain(
                #[trigger] locations(text::lines(list))[i],
            ),
{
    text_laws::law_lines_hold_no_line_feed(list);
    lemma_locations(text::lines(list));
}

/// Normalising a list a second time changes nothing, but where white space stands between
/// what a line names and a NUL behind it: there the list gets shorter.
pub proof fn law_normalizing_twice(list: Seq<char>)
    ensures
        is_settled(list) ==> uri::normalized(uri::normalized(list)) == uri::normalized(list),
        !is_settled(list) ==> uri::normalized(uri::normalized(list)).len() < uri::normalized(
            list,
        ).len(),
{
    let ls = text::lines(list);
    let names = locations(ls);
    text_laws::law_lines_hold_no_line_feed(list);
    lemma_locations(ls);
    assert forall|i: int| 0 <= i < names.len() implies text_laws::one_line(#[trigger] names[i]) by {
        assert(is_plain(names[i]));
    }
    text_laws::law_lines_joined(names);
    lemma_all_written_again(names);
}

/// Data that were prepared once are prepared for good: plain data always, and a list of
/// locations where it is settled, and only there.
pub proof fn law_preparing_twice(data: Seq<u8>, mode: DataMode)
    ensures
        uri::prepared(uri::prepared(data, mode), mode) == uri::prepared(data, mode) <==> (mode
            == DataMode::Raw || is_settled(text::decoded(data))),
{
    if mode == DataMode::UriList {
        let list = text::decoded(data);
        let once = uri::normalized(list);
        let twice = uri::normalized(once);
        law_normalizing_twice(list);
        text_laws::law_decode_encode(once);
        text_laws::law_decode_encode(twice);
        if encode_utf8(twice) == encode_utf8(once) {
            assert(twice == once);
        }
    }
}

/// What a line adds to the list, spelled out: white space around what it names and NULs right
/// behind that go, a blank line and the two verbs add nothing, an absolute path gets the scheme
/// `file`, and everything else is kept as it is. The rest of the list is treated by itself.
pub proof fn law_line(
    before: Seq<char>,
    item: Seq<char>,
    nuls: Seq<char>,
    behind: Seq<char>,
    rest: Seq<char>,
)
    requires
        forall|i: int| 0 <= i < before.len() ==> text::is_white_space(#[trigger] before[i]),
        forall|i: int| 0 <= i < behind.len() ==> text::is_white_space(#[trigger] behind[i]),
        forall|i: int| 0 <= i < nuls.len() ==> #[trigger] nuls[i] == '\0',
        item.len() > 0 ==> !text::is_white_space(item[0]) && item.last() != '\0',
        item.len() > 0 && nuls.len() == 0 ==> !text::is_white_space(item.last()),
        forall|i: int|
            0 <= i < (before + (item + nuls) + behind).len() ==> #[trigger] (before + (item + nuls)
                + behind)[i] != '\n',
    ensures
        ({
            let line = before + (item + nuls) + behind;
            let added = if item.len() == 0 || text::lower(item) == seq!['c', 'o', 'p', 'y']
                || text::lower(item) == seq!['c', 'u', 't'] {
                seq![]
            } else if item[0] == '/' {
                seq!['f', 'i', 'l', 'e', ':', '/', '/'] + item + seq!['\n']
            } else {
                item + seq!['\n']
            };
            &&& uri::normalized(line.push('\n') + rest) == added + uri::normalized(rest)
            &&& uri::normalized(line) == added
        }),
{
    let line = before + (item + nuls) + behind;
    let inner = item + nuls;
    if inner.len() > 0 {
        assert(inner[0] == if item.len() > 0 {
            item[0]
        } else {
            nuls[0]
        });
        assert(inner.last() == if nuls.len() > 0 {
            nuls[nuls.len() - 1]
        } else {
            item.last()
        });
    }
    text_laws::law_trimmed_takes_white_space(before, inner, behind);
    text_laws::law_without_nuls(item, nuls);
    assert(uri::entry(line) == item);
    reveal_strlit("copy");
    reveal_strlit("cut");
    reveal_strlit("file://");
    assert(text::lower("copy"@) =~= seq!['c', 'o', 'p', 'y']);
    assert(text::lower("cut"@) =~= seq!['c', 'u', 't']);
    assert("file://"@ =~= seq!['f', 'i', 'l', 'e', ':', '/', '/']);
    let added = if item.len() == 0 || text::lower(item) == seq!['c', 'o', 'p', 'y'] || text::lower(
        item,
    ) == seq!['c', 'u', 't'] {
        seq![]
    } else if item[0] == '/' {
        seq!['f', 'i', 'l', 'e', ':', '/', '/'] + item + seq!['\n']
    } else {
        item + seq!['\n']
    };
    assert(uri::written_line(line) =~= added);
    law_normalized_line_by_line(line, rest);
    text_laws::law_lines(line, rest);
    let empty = Seq::<Seq<char>>::empty();
    assert(uri::written_lines(empty) =~= seq![]);
    if line.len() > 0 {
        lemma_written_first(line, empty);
        assert(seq![line] + empty =~= seq![line]);
        assert(uri::normalized(line) =~= added);
    } else {
        assert(line =~= Seq::<char>::empty());
        assert(inner.len() == 0);
        assert(uri::normalized(line) =~= added);
    }
}

/// No location is lost: one that stands on a line by itself is kept as it is, with the scheme
/// `file` before an absolute path.
pub proof fn law_no_location_is_lost(t: Seq<char>)
    requires
        t.len() > 0,
        !text::is_white_space(t[0]),
        !text::is_white_space(t.last()),
        t.last() != '\0',
        forall|i: int| 0 <= i < t.len() ==> #[trigger] t[i] != '\n',
        text::lower(t) != "copy"@,
        text::lower(t) != "cut"@,
    ensures
        t[0] != '/' ==> uri::normalized(t.push('\n')) == t.push('\n'),
        t[0] == '/' ==> uri::normalized(t.push('\n')) == "file://"@ + t.push('\n'),
{
    let empty = Seq::<char>::empty();
    reveal_strlit("copy");
    reveal_strlit("cut");
    reveal_strlit("file://");
    assert(empty + (t + empty) + empty =~= t);
    assert("copy"@ =~= seq!['c', 'o', 'p', 'y']);
    assert("cut"@ =~= seq!['c', 'u', 't']);
    assert("file://"@ =~= seq!['f', 'i', 'l', 'e', ':', '/', '/']);
    law_line(empty, t, empty, empty, empty);
    text_laws::law_lines(empty, empty);
    assert(t.push('\n') + empty =~= t.push('\n'));
    assert(uri::normalized(empty) =~= empty);
    if t[0] == '/' {
        assert(uri::normalized(t.push('\n')) =~= "file://"@ + t.push('\n'));
    } else {
        assert(uri::normalized(t.push('\n')) =~= t.push('\n'));
    }
}

/// Plain data are written as they were read, and lists of locations as the bytes of the
/// normalised text. Where the list is valid UTF-8, that text is the one that the bytes encode.
pub proof fn law_prepared(data: Seq<u8>, list: Seq<char>)
    ensures
        uri::prepared(data, DataMode::Raw) == data,
        uri::prepared(data, DataMode::UriList) == encode_utf8(
            uri::normalized(text::decoded(data)),
        ),
        uri::prepared(encode_utf8(list), DataMode::UriList) == encode_utf8(uri::normalized(list)),
{
    text_laws::law_decode_encode(list);
}

} // verus!
