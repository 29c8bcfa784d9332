//! What holds of the choice among the offered types.

use crate::mime;
use crate::mime::{Choice, DataMode, Direction, MimeChoice};
use crate::text;
use crate::text_laws;
use vstd::prelude::*;

verus! {

/// The way back.
pub open spec fn opposite(direction: Direction) -> Direction {
    match direction {
        Direction::XToWayland => Direction::WaylandToX,
        Direction::WaylandToX => Direction::XToWayland,
    }
}

/// A list of files, in either of its forms.
pub open spec fn is_files(name: Seq<char>) -> bool {
    ||| text::same_ignoring_case(name, "x-special/gnome-copied-files"@)
    ||| text::same_ignoring_case(name, "text/uri-list"@)
}

/// An image as Qt offers it.
pub open spec fn is_qt_image(name: Seq<char>) -> bool {
    text::same_ignoring_case(name, "application/x-qt-image"@)
}

/// Plain text, under one of its names or with parameters that say it is UTF-8.
pub open spec fn is_plain_text(name: Seq<char>) -> bool {
    ||| exists|k: int|
        0 <= k < mime::text_names().len() && text::same_ignoring_case(
            #[trigger] mime::text_names()[k],
            name,
        )
    ||| mime::is_utf8_text(name)
}

/// HTML.
pub open spec fn is_html(name: Seq<char>) -> bool {
    text::same_ignoring_case(name, "text/html"@)
}

/// Some type of the list has the property.
pub open spec fn offers(types: Seq<Seq<char>>, property: spec_fn(Seq<char>) -> bool) -> bool {
    exists|i: int| 0 <= i < types.len() && property(#[trigger] types[i])
}

proof fn lemma_position_folded(list: Seq<Seq<char>>, a: Seq<char>, b: Seq<char>)
    requires
        text::same_ignoring_case(a, b),
    ensures
        mime::position(list, a) == mime::position(list, b),
    decreases list.len(),
{
    if list.len() > 0 {
        lemma_position_folded(list.skip(1), a, b);
    }
}

proof fn lemma_rank_folded(a: Seq<char>, b: Seq<char>)
    requires
        text::same_ignoring_case(a, b),
    ensures
        mime::rank(a) == mime::rank(b),
{
    lemma_position_folded(mime::preferred_images(), a, b);
    lemma_position_folded(mime::text_names(), a, b);
}

/// Two texts differ, whatever their case, if their lengths do.
proof fn lemma_other_length(a: Seq<char>, b: Seq<char>)
    requires
        a.len() != b.len(),
    ensures
        !text::same_ignoring_case(a, b),
{
    assert(text::lower(a).len() != text::lower(b).len());
}

/// Two texts differ, whatever their case, if their first characters do.
proof fn lemma_other_first(a: Seq<char>, b: Seq<char>)
    requires
        a.len() > 0,
        b.len() > 0,
        text::lower_char(a[0]) != text::lower_char(b[0]),
    ensures
        !text::same_ignoring_case(a, b),
{
    assert(text::lower(a)[0] != text::lower(b)[0]);
}

/// The first letter and the length of the preferred images.
proof fn lemma_preferred_images()
    ensures
        mime::preferred_images().len() == 8,
        forall|k: int|
            0 <= k < 8 ==> (#[trigger] mime::preferred_images()[k]).len() > 0
                && mime::preferred_images()[k][0] == 'i' && mime::is_image(
                mime::preferred_images()[k],
            ),
{
    reveal_strlit("image/");
    reveal_strlit("image/png");
    reveal_strlit("image/jpeg");
    reveal_strlit("image/gif");
    reveal_strlit("image/webp");
    reveal_strlit("image/bmp");
    reveal_strlit("image/tiff");
    reveal_strlit("image/svg+xml");
    reveal_strlit("image/x-xpixmap");
    assert forall|k: int| 0 <= k < 8 implies (#[trigger] mime::preferred_images()[k]).len() > 0
        && mime::preferred_images()[k][0] == 'i' && mime::is_image(
        mime::preferred_images()[k],
    ) by {
        let name = mime::preferred_images()[k];
        assert(text::lower(name).subrange(0, 6) =~= "image/"@);
    }
}

/// A type that does not begin with the letter of `image` is no image.
proof fn lemma_no_image(name: Seq<char>)
    requires
        name.len() > 0,
        text::lower_char(name[0]) != 'i',
    ensures
        !mime::is_image(name),
        mime::position(mime::preferred_images(), name) == 8,
{
    lemma_preferred_images();
    reveal_strlit("image/");
    mime::lemma_position(mime::preferred_images(), name);
    let k = mime::position(mime::preferred_images(), name);
    if k < 8 {
        lemma_other_first(mime::preferred_images()[k], name);
    }
    if mime::is_image(name) {
        assert(text::lower(name).subrange(0, 6)[0] == "image/"@[0]);
        assert(text::lower(name)[0] == text::lower_char(name[0]));
    }
}

/// The ranks of the names under which contents are written, but for images.
proof fn lemma_ranks_of_targets()
    ensures
        mime::rank("text/uri-list"@) == 1,
        mime::rank("application/x-qt-image"@) == 11,
        mime::rank("text/plain;charset=utf-8"@) == 12,
        mime::rank("UTF8_STRING"@) == 14,
        mime::rank("text/html"@) == 19,
{
    reveal_strlit("x-special/gnome-copied-files");
    reveal_strlit("text/uri-list");
    reveal_strlit("application/x-qt-image");
    reveal_strlit("text/plain;charset=utf-8");
    reveal_strlit("text/plain");
    reveal_strlit("UTF8_STRING");
    reveal_strlit("COMPOUND_TEXT");
    reveal_strlit("TEXT");
    reveal_strlit("STRING");
    reveal_strlit("text/html");
    reveal_strlit("text/plain;");
    reveal_strlit("charset=utf-8");
    let gnome = "x-special/gnome-copied-files"@;
    let list = "text/uri-list"@;
    let qt = "application/x-qt-image"@;
    let utf8 = "text/plain;charset=utf-8"@;
    let string = "UTF8_STRING"@;
    let html = "text/html"@;
    let names = mime::text_names();

    lemma_other_length(list, gnome);

    lemma_other_length(qt, gnome);
    lemma_other_length(qt, list);
    lemma_no_image(qt);

    lemma_other_length(utf8, gnome);
    lemma_other_length(utf8, list);
    lemma_other_length(utf8, qt);
    lemma_no_image(utf8);
    mime::lemma_position(names, utf8);
    assert(names[0] == utf8);

    lemma_other_length(string, gnome);
    lemma_other_length(string, list);
    lemma_other_length(string, qt);
    lemma_no_image(string);
    mime::lemma_position(names, string);
    lemma_other_length(names[0], string);
    lemma_other_length(names[1], string);
    assert(names[2] == string);

    lemma_other_length(html, gnome);
    lemma_other_length(html, list);
    lemma_other_length(html, qt);
    lemma_no_image(html);
    mime::lemma_position(names, html);
    lemma_other_length(names[0], html);
    lemma_other_length(names[1], html);
    lemma_other_length(names[2], html);
    lemma_other_length(names[3], html);
    lemma_other_length(names[4], html);
    lemma_other_length(names[5], html);
    assert(!mime::is_utf8_text(html));
}

/// The choice is made among the types that are offered.
pub proof fn law_choice_is_offered(types: Seq<Seq<char>>, direction: Direction)
    ensures
        mime::chosen(types, direction) matches Some(choice) ==> types.contains(choice.read_mime),
{
    mime::lemma_best(types);
}

/// Files come first, then images, an image of Qt, plain text and HTML. Where none of them is
/// offered, nothing is chosen.
pub proof fn law_order_of_preference(types: Seq<Seq<char>>, direction: Direction)
    ensures
        ({
            let files = offers(types, |t: Seq<char>| is_files(t));
            let image = offers(types, |t: Seq<char>| mime::is_image(t));
            let qt = offers(types, |t: Seq<char>| is_qt_image(t));
            let plain = offers(types, |t: Seq<char>| is_plain_text(t));
            let html = offers(types, |t: Seq<char>| is_html(t));
            match mime::chosen(types, direction) {
                Some(choice) => {
                    if files {
                        is_files(choice.read_mime) && choice.kind == "files"@
                    } else if image {
                        mime::is_image(choice.read_mime) && choice.kind == text::lower(
                            choice.read_mime,
                        )
                    } else if qt {
                        is_qt_image(choice.read_mime) && choice.kind == "application/x-qt-image"@
                    } else if plain {
                        is_plain_text(choice.read_mime) && choice.kind == "text/plain"@
                    } else {
                        html && is_html(choice.read_mime) && choice.kind == "text/html"@
                    }
                },
                None => !files && !image && !qt && !plain && !html,
            }
        }),
{
    mime::lemma_best(types);
    lemma_preferred_images();
    assert forall|i: int| 0 <= i < types.len() implies ({
        let t = #[trigger] types[i];
        let r = mime::rank(t);
        &&& 0 <= r <= 20
        &&& is_files(t) <==> r < 2
        &&& 2 <= r ==> (mime::is_image(t) <==> r < 11)
        &&& 11 <= r ==> (is_qt_image(t) <==> r < 12)
        &&& 12 <= r ==> (is_plain_text(t) <==> r < 19)
        &&& 19 <= r ==> (is_html(t) <==> r < 20)
    }) by {
        lemma_rank_of_family(types[i]);
    }
    if let Some(b) = mime::best(types) {
        let t = types[b];
        let p1 = |t: Seq<char>| is_files(t);
        let p2 = |t: Seq<char>| mime::is_image(t);
        let p3 = |t: Seq<char>| is_qt_image(t);
        let p4 = |t: Seq<char>| is_plain_text(t);
        let p5 = |t: Seq<char>| is_html(t);
        assert(is_files(t) ==> p1(types[b]));
        assert(mime::is_image(t) ==> p2(types[b]));
        assert(is_qt_image(t) ==> p3(types[b]));
        assert(is_plain_text(t) ==> p4(types[b]));
        assert(is_html(t) ==> p5(types[b]));
    }
}

/// The ranks as families of types.
proof fn lemma_rank_of_family(t: Seq<char>)
    ensures
        0 <= mime::rank(t) <= 20,
        is_files(t) <==> mime::rank(t) < 2,
        2 <= mime::rank(t) ==> (mime::is_image(t) <==> mime::rank(t) < 11),
        11 <= mime::rank(t) ==> (is_qt_image(t) <==> mime::rank(t) < 12),
        12 <= mime::rank(t) ==> (is_plain_text(t) <==> mime::rank(t) < 19),
        19 <= mime::rank(t) ==> (is_html(t) <==> mime::rank(t) < 20),
{
    let images = mime::preferred_images();
    let names = mime::text_names();
    mime::lemma_position(images, t);
    mime::lemma_position(names, t);
    lemma_preferred_images();
    let k = mime::position(images, t);
    if k < 8 {
        assert(mime::is_image(images[k]));
    }
    let n = mime::position(names, t);
    if n < 6 {
        assert(text::same_ignoring_case(names[n], t));
    }
}

/// An image is chosen before an image of Qt, whatever the order of the offer.
pub proof fn law_standard_image_before_qt(types: Seq<Seq<char>>, direction: Direction, i: int)
    requires
        0 <= i < types.len(),
        mime::is_image(types[i]),
    ensures
        mime::chosen(types, direction) is Some,
        !is_qt_image(mime::chosen(types, direction)->0.read_mime),
{
    law_order_of_preference(types, direction);
    let image = |t: Seq<char>| mime::is_image(t);
    assert(image(types[i]));
    let read = mime::chosen(types, direction)->0.read_mime;
    reveal_strlit("application/x-qt-image");
    reveal_strlit("x-special/gnome-copied-files");
    reveal_strlit("text/uri-list");
    if is_qt_image(read) {
        assert(text::lower(read)[0] == text::lower("application/x-qt-image"@)[0]);
        assert(text::lower("application/x-qt-image"@).len() == text::lower(read).len());
        lemma_no_image(read);
        if text::same_ignoring_case(read, "text/uri-list"@) {
            lemma_other_length("application/x-qt-image"@, "text/uri-list"@);
        }
        if text::same_ignoring_case(read, "x-special/gnome-copied-files"@) {
            lemma_other_length("application/x-qt-image"@, "x-special/gnome-copied-files"@);
        }
    }
}

/// The direction makes no difference but for the name under which plain text is written,
/// which is that of the target.
pub proof fn law_direction(types: Seq<Seq<char>>)
    ensures
        match (
            mime::chosen(types, Direction::XToWayland),
            mime::chosen(types, Direction::WaylandToX),
        ) {
            (Some(there), Some(back)) => {
                &&& there.read_mime == back.read_mime
                &&& there.kind == back.kind
                &&& there.mode == back.mode
                &&& there.write_mime != back.write_mime ==> there.kind == "text/plain"@
                &&& there.kind == "text/plain"@ ==> there.write_mime
                    == "text/plain;charset=utf-8"@ && back.write_mime == "UTF8_STRING"@
            },
            (None, None) => true,
            _ => false,
        },
{
    mime::lemma_best(types);
    if let Some(i) = mime::best(types) {
        let name = types[i];
        lemma_rank_of_family(name);
        reveal_strlit("files");
        reveal_strlit("image/");
        reveal_strlit("application/x-qt-image");
        reveal_strlit("text/plain");
        reveal_strlit("text/html");
        assert("files"@.len() != "text/plain"@.len());
        assert("application/x-qt-image"@.len() != "text/plain"@.len());
        assert("text/html"@.len() != "text/plain"@.len());
        if mime::is_image(name) {
            assert(text::lower(name).subrange(0, 6)[0] == "image/"@[0]);
            assert(text::lower(name)[0] != "text/plain"@[0]);
        }
    }
}

proof fn lemma_best_folded(types: Seq<Seq<char>>, others: Seq<Seq<char>>)
    requires
        types.len() == others.len(),
        forall|i: int|
            0 <= i < types.len() ==> text::same_ignoring_case(#[trigger] types[i], others[i]),
    ensures
        mime::best(types) == mime::best(others),
    decreases types.len(),
{
    if types.len() > 0 {
        let front = types.drop_last();
        let other_front = others.drop_last();
        assert forall|i: int| 0 <= i < front.len() implies text::same_ignoring_case(
            #[trigger] front[i],
            other_front[i],
        ) by {
            assert(front[i] == types[i]);
        }
        lemma_best_folded(front, other_front);
        mime::lemma_best(front);
        let n = types.len() - 1;
        lemma_rank_folded(types[n], others[n]);
        if let Some(i) = mime::best(front) {
            lemma_rank_folded(types[i], others[i]);
        }
    }
}

/// The case in which types are spelled makes no difference but for the case of the name under
/// which the contents are read.
pub proof fn law_case(types: Seq<Seq<char>>, others: Seq<Seq<char>>, direction: Direction)
    requires
        types.len() == others.len(),
        forall|i: int|
            0 <= i < types.len() ==> text::same_ignoring_case(#[trigger] types[i], others[i]),
    ensures
        match (mime::chosen(types, direction), mime::chosen(others, direction)) {
            (Some(one), Some(other)) => {
                &&& other == (Choice { read_mime: other.read_mime, ..one })
                &&& text::same_ignoring_case(one.read_mime, other.read_mime)
            },
            (None, None) => true,
            _ => false,
        },
{
    lemma_best_folded(types, others);
    mime::lemma_best(types);
    if let Some(i) = mime::best(types) {
        lemma_rank_folded(types[i], others[i]);
    }
}

/// Where a choice is offered under the name that it is written under, and under no other, it
/// is chosen again, under that name, for the same kind of content and the same mode.
pub proof fn law_choice_is_chosen_again(
    types: Seq<Seq<char>>,
    direction: Direction,
    back: Direction,
)
    requires
        mime::chosen(types, direction) is Some,
    ensures
        ({
            let choice = mime::chosen(types, direction)->0;
            match mime::chosen(seq![choice.write_mime], back) {
                Some(again) => {
                    &&& again.read_mime == choice.write_mime
                    &&& again.kind == choice.kind
                    &&& again.mode == choice.mode
                },
                None => false,
            }
        }),
{
    mime::lemma_best(types);
    let i = mime::best(types)->0;
    let name = types[i];
    let choice = mime::choice_for(name, direction);
    let offer = seq![choice.write_mime];
    lemma_ranks_of_targets();
    text_laws::law_lower_twice(name);
    lemma_rank_folded(name, text::lower(name));
    assert(mime::supported(choice.write_mime));
    assert(mime::is_best(offer, 0));
    mime::lemma_best_is(offer, 0);
}

/// The types of a list that can be carried over, in order.
pub open spec fn carried(types: Seq<Seq<char>>) -> Seq<Seq<char>>
    decreases types.len(),
{
    if types.len() == 0 {
        seq![]
    } else if mime::supported(types.last()) {
        carried(types.drop_last()).push(types.last())
    } else {
        carried(types.drop_last())
    }
}

proof fn lemma_best_carried(types: Seq<Seq<char>>)
    ensures
        match (mime::best(types), mime::best(carried(types))) {
            (Some(i), Some(k)) => 0 <= i < types.len() && 0 <= k < carried(types).len()
                && carried(types)[k] == types[i],
            (None, None) => true,
            _ => false,
        },
    decreases types.len(),
{
    mime::lemma_best(types);
    mime::lemma_best(carried(types));
    if types.len() > 0 {
        let front = types.drop_last();
        lemma_best_carried(front);
        mime::lemma_best(front);
        if mime::supported(types.last()) {
            assert(carried(types).drop_last() =~= carried(front));
        }
    }
}

/// Only the types that can be carried over count for the choice.
pub proof fn law_unsupported_types_do_not_count(types: Seq<Seq<char>>, direction: Direction)
    ensures
        mime::chosen(types, direction) == mime::chosen(carried(types), direction),
{
    lemma_best_carried(types);
}

proof fn lemma_carried_add(a: Seq<Seq<char>>, b: Seq<Seq<char>>)
    ensures
        carried(a + b) == carried(a) + carried(b),
    decreases b.len(),
{
    if b.len() == 0 {
        assert(a + b =~= a);
        assert(carried(a) + carried(b) =~= carried(a));
    } else {
        assert((a + b).drop_last() =~= a + b.drop_last());
        assert((a + b).last() == b.last());
        lemma_carried_add(a, b.drop_last());
        assert(carried(a + b) =~= carried(a) + carried(b));
    }
}

proof fn lemma_carried_none(extra: Seq<Seq<char>>)
    requires
        forall|i: int| 0 <= i < extra.len() ==> !mime::supported(#[trigger] extra[i]),
    ensures
        carried(extra) == Seq::<Seq<char>>::empty(),
    decreases extra.len(),
{
    if extra.len() > 0 {
        let front = extra.drop_last();
        assert forall|i: int| 0 <= i < front.len() implies !mime::supported(#[trigger] front[i]) by {
            assert(front[i] == extra[i]);
        }
        assert(!mime::supported(extra[extra.len() - 1]));
        lemma_carried_none(front);
    }
}

/// Types that cannot be carried over may be added to a list at any place: the choice stays.
pub proof fn law_unsupported_types_added(
    before: Seq<Seq<char>>,
    extra: Seq<Seq<char>>,
    behind: Seq<Seq<char>>,
    direction: Direction,
)
    requires
        forall|i: int| 0 <= i < extra.len() ==> !mime::supported(#[trigger] extra[i]),
    ensures
        mime::chosen(before + extra + behind, direction) == mime::chosen(
            before + behind,
            direction,
        ),
{
    lemma_carried_none(extra);
    lemma_carried_add(before, extra);
    lemma_carried_add(before + extra, behind);
    lemma_carried_add(before, behind);
    assert(carried(before + extra) =~= carried(before));
    law_unsupported_types_do_not_count(before + extra + behind, direction);
    law_unsupported_types_do_not_count(before + behind, direction);
}

/// The kind of a type is chosen where every type that is ranked as well or better is of that
/// kind.
pub proof fn law_kind_of_the_best(types: Seq<Seq<char>>, i: int, direction: Direction)
    requires
        0 <= i < types.len(),
        mime::supported(types[i]),
        forall|j: int|
            0 <= j < types.len() && mime::rank(#[trigger] types[j]) <= mime::rank(types[i])
                ==> mime::choice_for(types[j], direction).kind == mime::choice_for(
                types[i],
                direction,
            ).kind,
    ensures
        mime::chosen(types, direction) matches Some(choice) && choice.kind == mime::choice_for(
            types[i],
            direction,
        ).kind,
{
    mime::lemma_best(types);
}

/// The kind says which mode the data are in.
pub proof fn law_kind_decides_mode(
    types: Seq<Seq<char>>,
    direction: Direction,
    others: Seq<Seq<char>>,
    other: Direction,
)
    requires
        mime::chosen(types, direction) is Some,
        mime::chosen(others, other) is Some,
        mime::chosen(types, direction)->0.kind == mime::chosen(others, other)->0.kind,
    ensures
        mime::chosen(types, direction)->0.mode == mime::chosen(others, other)->0.mode,
{
    law_kind_of_files(types, direction);
    law_kind_of_files(others, other);
}

/// Files are the one kind whose data are a list of locations.
pub proof fn law_kind_of_files(types: Seq<Seq<char>>, direction: Direction)
    requires
        mime::chosen(types, direction) is Some,
    ensures
        mime::chosen(types, direction)->0.kind == "files"@ <==> mime::chosen(
            types,
            direction,
        )->0.mode == DataMode::UriList,
{
    mime::lemma_best(types);
    let name = types[mime::best(types)->0];
    lemma_rank_of_family(name);
    reveal_strlit("files");
    reveal_strlit("image/");
    reveal_strlit("application/x-qt-image");
    reveal_strlit("text/plain");
    reveal_strlit("text/html");
    assert("files"@.len() == 5);
    if mime::is_image(name) {
        assert(text::lower(name).len() >= 6);
    }
}

proof fn lemma_types_in_tidy(ls: Seq<Seq<char>>)
    requires
        forall|i: int| 0 <= i < ls.len() ==> text_laws::one_line(#[trigger] ls[i]),
    ensures
        forall|i: int|
            0 <= i < mime::types_in(ls).len() ==> text_laws::is_tidy(
                #[trigger] mime::types_in(ls)[i],
            ),
    decreases ls.len(),
{
    if ls.len() > 0 {
        let front = ls.drop_last();
        assert forall|i: int| 0 <= i < front.len() implies text_laws::one_line(
            #[trigger] front[i],
        ) by {
            assert(front[i] == ls[i]);
        }
        lemma_types_in_tidy(front);
        assert(text_laws::one_line(ls[ls.len() - 1]));
        text_laws::law_trimmed(ls.last());
        assert forall|i: int| 0 <= i < mime::types_in(ls).len() implies text_laws::is_tidy(
            #[trigger] mime::types_in(ls)[i],
        ) by {
            if i < mime::types_in(front).len() {
                assert(mime::types_in(ls)[i] == mime::types_in(front)[i]);
            } else {
                assert(mime::types_in(ls)[i] == text::trimmed(ls.last()));
            }
        }
    }
}

/// Every listed type is a text of one line, not empty, with no white space at either end.
pub proof fn law_listed_types_are_tidy(listing: Seq<char>)
    ensures
        forall|i: int|
            0 <= i < mime::listed_types(listing).len() ==> text_laws::is_tidy(
                #[trigger] mime::listed_types(listing)[i],
            ),
{
    text_laws::law_lines_hold_no_line_feed(listing);
    lemma_types_in_tidy(text::lines(listing));
}

proof fn lemma_types_in_fixed(names: Seq<Seq<char>>)
    requires
        forall|i: int| 0 <= i < names.len() ==> text_laws::is_tidy(#[trigger] names[i]),
    ensures
        mime::types_in(names) == names,
    decreases names.len(),
{
    if names.len() == 0 {
        assert(mime::types_in(names) =~= names);
    } else {
        let front = names.drop_last();
        assert forall|i: int| 0 <= i < front.len() implies text_laws::is_tidy(
            #[trigger] front[i],
        ) by {
            assert(front[i] == names[i]);
        }
        lemma_types_in_fixed(front);
        assert(text_laws::is_tidy(names[names.len() - 1]));
        text_laws::law_trimmed_fixed(names.last());
        assert(front.push(names.last()) =~= names);
    }
}

/// Types that were listed one to a line are read back as they were.
pub proof fn law_listing_read_back(names: Seq<Seq<char>>)
    requires
        forall|i: int| 0 <= i < names.len() ==> text_laws::is_tidy(#[trigger] names[i]),
    ensures
        mime::listed_types(text_laws::joined(names)) == names,
{
    assert forall|i: int| 0 <= i < names.len() implies text_laws::one_line(#[trigger] names[i]) by {
        assert(text_laws::is_tidy(names[i]));
    }
    text_laws::law_lines_joined(names);
    assert forall|i: int| 0 <= i < names.len() implies text::without_return(#[trigger] names[i])
        == names[i] by {
        assert(text_laws::is_tidy(names[i]));
    }
    assert(text_laws::without_returns(names) =~= names);
    lemma_types_in_fixed(names);
}

/// The name under which contents are written can stand on a line of a listing.
pub proof fn law_written_name_is_tidy(listing: Seq<char>, direction: Direction)
    requires
        mime::chosen(mime::listed_types(listing), direction) is Some,
    ensures
        text_laws::is_tidy(
            mime::chosen(mime::listed_types(listing), direction)->0.write_mime,
        ),
{
    let types = mime::listed_types(listing);
    law_listed_types_are_tidy(listing);
    mime::lemma_best(types);
    let name = types[mime::best(types)->0];
    assert(text_laws::is_tidy(name));
    reveal_strlit("text/uri-list");
    reveal_strlit("application/x-qt-image");
    reveal_strlit("text/plain;charset=utf-8");
    reveal_strlit("UTF8_STRING");
    reveal_strlit("text/html");
    let folded = text::lower(name);
    assert(folded[0] == text::lower_char(name[0]));
    assert(folded.last() == text::lower_char(name.last()));
    assert(text_laws::is_tidy(folded));
}

/// No type of the list has that name, which is in lower case, whatever its own case.
pub open spec fn absent(types: Seq<Seq<char>>, name: Seq<char>) -> bool {
    forall|j: int| 0 <= j < types.len() ==> text::lower(#[trigger] types[j]) != name
}

/// The lower case form begins with the word for images and a slash.
pub open spec fn begins_image(t: Seq<char>) -> bool {
    t.len() >= 6 && text::lower(t).take(6) == seq!['i', 'm', 'a', 'g', 'e', '/']
}

/// The lower case form begins as plain text with parameters, and says somewhere that the
/// character set is UTF-8.
pub open spec fn says_utf8(t: Seq<char>) -> bool {
    &&& t.len() >= 11
    &&& text::lower(t).take(11) == "text/plain;"@
    &&& exists|before: Seq<char>, behind: Seq<char>|
        text::lower(t) == #[trigger] (before + "charset=utf-8"@ + behind)
}

/// No type of the list is an image.
pub open spec fn no_image(types: Seq<Seq<char>>) -> bool {
    forall|j: int| 0 <= j < types.len() ==> !begins_image(#[trigger] types[j])
}

/// The ranks by the names in lower case.
proof fn lemma_rank_by_name(t: Seq<char>)
    ensures
        0 <= mime::rank(t) <= 20,
        0 <= mime::rank(t) ==> (mime::rank(t) == 0 <==> text::lower(t) == "x-special/gnome-copied-files"@),
        1 <= mime::rank(t) ==> (mime::rank(t) == 1 <==> text::lower(t) == "text/uri-list"@),
        2 <= mime::rank(t) ==> (mime::rank(t) == 2 <==> text::lower(t) == "image/png"@),
        3 <= mime::rank(t) ==> (mime::rank(t) == 3 <==> text::lower(t) == "image/jpeg"@),
        4 <= mime::rank(t) ==> (mime::rank(t) == 4 <==> text::lower(t) == "image/gif"@),
        5 <= mime::rank(t) ==> (mime::rank(t) == 5 <==> text::lower(t) == "image/webp"@),
        6 <= mime::rank(t) ==> (mime::rank(t) == 6 <==> text::lower(t) == "image/bmp"@),
        7 <= mime::rank(t) ==> (mime::rank(t) == 7 <==> text::lower(t) == "image/tiff"@),
        8 <= mime::rank(t) ==> (mime::rank(t) == 8 <==> text::lower(t) == "image/svg+xml"@),
        9 <= mime::rank(t) ==> (mime::rank(t) == 9 <==> text::lower(t) == "image/x-xpixmap"@),
        10 <= mime::rank(t) ==> (mime::rank(t) == 10 <==> begins_image(t)),
        11 <= mime::rank(t) ==> (mime::rank(t) == 11 <==> text::lower(t) == "application/x-qt-image"@),
        12 <= mime::rank(t) ==> (mime::rank(t) == 12 <==> text::lower(t) == "text/plain;charset=utf-8"@),
        13 <= mime::rank(t) ==> (mime::rank(t) == 13 <==> text::lower(t) == "text/plain"@),
        14 <= mime::rank(t) ==> (mime::rank(t) == 14 <==> text::lower(t) == "utf8_string"@),
        15 <= mime::rank(t) ==> (mime::rank(t) == 15 <==> text::lower(t) == "compound_text"@),
        16 <= mime::rank(t) ==> (mime::rank(t) == 16 <==> text::lower(t) == "text"@),
        17 <= mime::rank(t) ==> (mime::rank(t) == 17 <==> text::lower(t) == "string"@),
        18 <= mime::rank(t) ==> (mime::rank(t) == 18 <==> says_utf8(t)),
        19 <= mime::rank(t) ==> (mime::rank(t) == 19 <==> text::lower(t) == "text/html"@),
{
    reveal_strlit("x-special/gnome-copied-files");
    reveal_strlit("text/uri-list");
    reveal_strlit("image/png");
    reveal_strlit("image/jpeg");
    reveal_strlit("image/gif");
    reveal_strlit("image/webp");
    reveal_strlit("image/bmp");
    reveal_strlit("image/tiff");
    reveal_strlit("image/svg+xml");
    reveal_strlit("image/x-xpixmap");
    reveal_strlit("application/x-qt-image");
    reveal_strlit("text/plain;charset=utf-8");
    reveal_strlit("text/plain");
    reveal_strlit("UTF8_STRING");
    reveal_strlit("COMPOUND_TEXT");
    reveal_strlit("TEXT");
    reveal_strlit("STRING");
    reveal_strlit("utf8_string");
    reveal_strlit("compound_text");
    reveal_strlit("text");
    reveal_strlit("string");
    reveal_strlit("text/html");
    reveal_strlit("image/");
    reveal_strlit("text/plain;");
    reveal_strlit("charset=utf-8");
    assert(text::lower("x-special/gnome-copied-files"@) =~= "x-special/gnome-copied-files"@);
    assert(text::lower("text/uri-list"@) =~= "text/uri-list"@);
    assert(text::lower("image/png"@) =~= "image/png"@);
    assert(text::lower("image/jpeg"@) =~= "image/jpeg"@);
    assert(text::lower("image/gif"@) =~= "image/gif"@);
    assert(text::lower("image/webp"@) =~= "image/webp"@);
    assert(text::lower("image/bmp"@) =~= "image/bmp"@);
    assert(text::lower("image/tiff"@) =~= "image/tiff"@);
    assert(text::lower("image/svg+xml"@) =~= "image/svg+xml"@);
    assert(text::lower("image/x-xpixmap"@) =~= "image/x-xpixmap"@);
    assert(text::lower("application/x-qt-image"@) =~= "application/x-qt-image"@);
    assert(text::lower("text/html"@) =~= "text/html"@);
    assert(text::lower("text/plain;charset=utf-8"@) =~= "text/plain;charset=utf-8"@);
    assert(text::lower("text/plain"@) =~= "text/plain"@);
    assert(text::lower("UTF8_STRING"@) =~= "utf8_string"@);
    assert(text::lower("COMPOUND_TEXT"@) =~= "compound_text"@);
    assert(text::lower("TEXT"@) =~= "text"@);
    assert(text::lower("STRING"@) =~= "string"@);
    assert(mime::preferred_images()[0] == "image/png"@);
    assert(mime::preferred_images()[1] == "image/jpeg"@);
    assert(mime::preferred_images()[2] == "image/gif"@);
    assert(mime::preferred_images()[3] == "image/webp"@);
    assert(mime::preferred_images()[4] == "image/bmp"@);
    assert(mime::preferred_images()[5] == "image/tiff"@);
    assert(mime::preferred_images()[6] == "image/svg+xml"@);
    assert(mime::preferred_images()[7] == "image/x-xpixmap"@);
    assert(mime::text_names()[0] == "text/plain;charset=utf-8"@);
    assert(mime::text_names()[1] == "text/plain"@);
    assert(mime::text_names()[2] == "UTF8_STRING"@);
    assert(mime::text_names()[3] == "COMPOUND_TEXT"@);
    assert(mime::text_names()[4] == "TEXT"@);
    assert(mime::text_names()[5] == "STRING"@);
    mime::lemma_rank(t);
    assert("image/"@ =~= seq!['i', 'm', 'a', 'g', 'e', '/']);
    if t.len() >= 6 {
        assert(text::lower(t).subrange(0, 6) =~= text::lower(t).take(6));
    }
    if t.len() >= 11 {
        assert(text::lower(t).subrange(0, 11) =~= text::lower(t).take(11));
    }
    text_laws::law_has_part(text::lower(t), "charset=utf-8"@);
    assert(mime::is_image(t) <==> begins_image(t));
    assert(mime::is_utf8_text(t) <==> says_utf8(t));
}

proof fn lemma_first_of_rank(types: Seq<Seq<char>>, i: int, r: int)
    requires
        0 <= i < types.len(),
        r < 20,
        mime::rank(types[i]) == r,
        forall|j: int| 0 <= j < types.len() ==> r <= mime::rank(#[trigger] types[j]),
        forall|j: int| 0 <= j < i ==> r != mime::rank(#[trigger] types[j]),
    ensures
        mime::best(types) == Some(i),
{
    assert(mime::is_best(types, i));
    mime::lemma_best_is(types, i);
}

/// Copied files are chosen before everything else, then a list of locations, then the images
/// in the order of these names. The first type of that name is read, under its own spelling.
/// Files are written as a list of locations, and an image under its name.
pub proof fn law_files_and_named_images(
    types: Seq<Seq<char>>,
    direction: Direction,
    k: int,
    i: int,
)
    requires
        0 <= k < 10,
        0 <= i < types.len(),
        ({
            let names = seq![
                "x-special/gnome-copied-files"@,
                "text/uri-list"@,
                "image/png"@,
                "image/jpeg"@,
                "image/gif"@,
                "image/webp"@,
                "image/bmp"@,
                "image/tiff"@,
                "image/svg+xml"@,
                "image/x-xpixmap"@,
            ];
            &&& text::lower(types[i]) == names[k]
            &&& forall|m: int| 0 <= m < k ==> absent(types, #[trigger] names[m])
            &&& absent(types.take(i), names[k])
        }),
    ensures
        ({
            let names = seq![
                "x-special/gnome-copied-files"@,
                "text/uri-list"@,
                "image/png"@,
                "image/jpeg"@,
                "image/gif"@,
                "image/webp"@,
                "image/bmp"@,
                "image/tiff"@,
                "image/svg+xml"@,
                "image/x-xpixmap"@,
            ];
            mime::chosen(types, direction) == Some(
                if k < 2 {
                    Choice {
                        read_mime: types[i],
                        write_mime: "text/uri-list"@,
                        kind: "files"@,
                        mode: DataMode::UriList,
                    }
                } else {
                    Choice {
                        read_mime: types[i],
                        write_mime: names[k],
                        kind: names[k],
                        mode: DataMode::Raw,
                    }
                },
            )
        }),
{
    let names = seq![
        "x-special/gnome-copied-files"@,
        "text/uri-list"@,
        "image/png"@,
        "image/jpeg"@,
        "image/gif"@,
        "image/webp"@,
        "image/bmp"@,
        "image/tiff"@,
        "image/svg+xml"@,
        "image/x-xpixmap"@,
    ];
    assert forall|j: int| 0 <= j < types.len() implies k <= mime::rank(#[trigger] types[j]) by {
        lemma_rank_by_name(types[j]);
        let m = mime::rank(types[j]);
        if m < k {
            assert(absent(types, names[m]));
        }
    }
    assert forall|j: int| 0 <= j < i implies k != mime::rank(#[trigger] types[j]) by {
        lemma_rank_by_name(types[j]);
        assert(types.take(i)[j] == types[j]);
    }
    lemma_rank_by_name(types[i]);
    lemma_first_of_rank(types, i, k);
}

/// Where no files and no image of a well known name are offered, the first image is chosen,
/// whatever its name, and written under that name in lower case.
pub proof fn law_other_image(types: Seq<Seq<char>>, direction: Direction, i: int)
    requires
        0 <= i < types.len(),
        begins_image(types[i]),
        no_image(types.take(i)),
        absent(types, "x-special/gnome-copied-files"@),
        absent(types, "text/uri-list"@),
        absent(types, "image/png"@),
        absent(types, "image/jpeg"@),
        absent(types, "image/gif"@),
        absent(types, "image/webp"@),
        absent(types, "image/bmp"@),
        absent(types, "image/tiff"@),
        absent(types, "image/svg+xml"@),
        absent(types, "image/x-xpixmap"@),
    ensures
        mime::chosen(types, direction) == Some(
            Choice {
                read_mime: types[i],
                write_mime: text::lower(types[i]),
                kind: text::lower(types[i]),
                mode: DataMode::Raw,
            },
        ),
{
    assert forall|j: int| 0 <= j < types.len() implies 10 <= mime::rank(#[trigger] types[j]) by {
        lemma_rank_by_name(types[j]);
    }
    assert forall|j: int| 0 <= j < i implies 10 != mime::rank(#[trigger] types[j]) by {
        lemma_rank_by_name(types[j]);
        assert(types.take(i)[j] == types[j]);
    }
    lemma_rank_by_name(types[i]);
    lemma_first_of_rank(types, i, 10);
}

/// No image is left behind: where no files are offered but some type that begins with `image/`
/// in lower case, such a type is chosen, and written under its name in lower case.
pub proof fn law_every_image_is_carried(types: Seq<Seq<char>>, direction: Direction, i: int)
    requires
        0 <= i < types.len(),
        types[i].len() >= 6,
        text::lower(types[i]).take(6) == "image/"@,
        absent(types, "x-special/gnome-copied-files"@),
        absent(types, "text/uri-list"@),
    ensures
        match mime::chosen(types, direction) {
            Some(choice) => {
                &&& types.contains(choice.read_mime)
                &&& choice.kind == text::lower(choice.read_mime)
                &&& choice.write_mime == choice.kind
                &&& choice.kind.len() >= 6
                &&& choice.kind.take(6) == "image/"@
                &&& choice.mode == DataMode::Raw
            },
            None => false,
        },
{
    reveal_strlit("image/");
    assert("image/"@ =~= seq!['i', 'm', 'a', 'g', 'e', '/']);
    mime::lemma_best(types);
    lemma_preferred_images();
    lemma_rank_by_name(types[i]);
    lemma_rank_of_family(types[i]);
    assert(begins_image(types[i]));
    assert(text::lower(types[i]).subrange(0, 6) =~= "image/"@);
    assert(mime::supported(types[i]));
    let b = mime::best(types)->0;
    lemma_rank_by_name(types[b]);
    lemma_rank_of_family(types[b]);
    assert(mime::is_image(types[b]));
    assert(text::lower(types[b]).subrange(0, 6) =~= text::lower(types[b]).take(6));
}

/// An image that is offered alone is chosen, and written under its name in lower case.
pub proof fn law_single_image(t: Seq<char>, direction: Direction)
    requires
        t.len() >= 6,
        text::lower(t).take(6) == "image/"@,
    ensures
        mime::chosen(seq![t], direction) == Some(
            Choice {
                read_mime: t,
                write_mime: text::lower(t),
                kind: text::lower(t),
                mode: DataMode::Raw,
            },
        ),
{
    let types = seq![t];
    reveal_strlit("image/");
    reveal_strlit("x-special/gnome-copied-files");
    reveal_strlit("text/uri-list");
    assert(text::lower(t).take(6)[0] == 'i');
    assert(text::lower(t)[0] == 'i');
    assert(types[0] == t);
    law_every_image_is_carried(types, direction, 0);
    let choice = mime::chosen(types, direction)->0;
    let k = choose|k: int| 0 <= k < types.len() && types[k] == choice.read_mime;
    assert(k == 0);
}

/// Where no files and no images are offered, an image of Qt is chosen.
pub proof fn law_qt_image(types: Seq<Seq<char>>, direction: Direction, i: int)
    requires
        0 <= i < types.len(),
        text::lower(types[i]) == "application/x-qt-image"@,
        absent(types.take(i), "application/x-qt-image"@),
        absent(types, "x-special/gnome-copied-files"@),
        absent(types, "text/uri-list"@),
        no_image(types),
    ensures
        mime::chosen(types, direction) == Some(
            Choice {
                read_mime: types[i],
                write_mime: "application/x-qt-image"@,
                kind: "application/x-qt-image"@,
                mode: DataMode::Raw,
            },
        ),
{
    assert forall|j: int| 0 <= j < types.len() implies 11 <= mime::rank(#[trigger] types[j]) by {
        lemma_no_image_rank(types[j]);
    }
    assert forall|j: int| 0 <= j < i implies 11 != mime::rank(#[trigger] types[j]) by {
        lemma_rank_by_name(types[j]);
        assert(types.take(i)[j] == types[j]);
    }
    lemma_rank_by_name(types[i]);
    lemma_first_of_rank(types, i, 11);
}

proof fn lemma_no_image_rank(t: Seq<char>)
    requires
        !begins_image(t),
        text::lower(t) != "x-special/gnome-copied-files"@,
        text::lower(t) != "text/uri-list"@,
    ensures
        11 <= mime::rank(t),
{
    lemma_rank_by_name(t);
    lemma_rank_of_family(t);
    reveal_strlit("image/");
    assert("image/"@ =~= seq!['i', 'm', 'a', 'g', 'e', '/']);
    if mime::is_image(t) {
        assert(text::lower(t).subrange(0, 6) =~= text::lower(t).take(6));
    }
}

/// Where no files and no images of any sort are offered, plain text is chosen, under the names
/// in this order, which are in lower case. It is written as UTF-8 text towards Wayland, and as
/// a UTF-8 string towards X11.
pub proof fn law_plain_text(types: Seq<Seq<char>>, direction: Direction, k: int, i: int)
    requires
        0 <= k < 6,
        0 <= i < types.len(),
        ({
            let names = seq![
                "text/plain;charset=utf-8"@,
                "text/plain"@,
                "utf8_string"@,
                "compound_text"@,
                "text"@,
                "string"@,
            ];
            &&& text::lower(types[i]) == names[k]
            &&& forall|m: int| 0 <= m < k ==> absent(types, #[trigger] names[m])
            &&& absent(types.take(i), names[k])
        }),
        absent(types, "x-special/gnome-copied-files"@),
        absent(types, "text/uri-list"@),
        no_image(types),
        absent(types, "application/x-qt-image"@),
    ensures
        mime::chosen(types, direction) == Some(
            Choice {
                read_mime: types[i],
                write_mime: match direction {
                    Direction::XToWayland => "text/plain;charset=utf-8"@,
                    Direction::WaylandToX => "UTF8_STRING"@,
                },
                kind: "text/plain"@,
                mode: DataMode::Raw,
            },
        ),
{
    let names = seq![
        "text/plain;charset=utf-8"@,
        "text/plain"@,
        "utf8_string"@,
        "compound_text"@,
        "text"@,
        "string"@,
    ];
    assert forall|j: int| 0 <= j < types.len() implies 12 + k <= mime::rank(
        #[trigger] types[j],
    ) by {
        lemma_no_image_rank(types[j]);
        lemma_rank_by_name(types[j]);
        let m = mime::rank(types[j]) - 12;
        if 0 <= m < k {
            assert(absent(types, names[m]));
        }
    }
    assert forall|j: int| 0 <= j < i implies 12 + k != mime::rank(#[trigger] types[j]) by {
        lemma_rank_by_name(types[j]);
        assert(types.take(i)[j] == types[j]);
    }
    lemma_rank_by_name(types[i]);
    lemma_first_of_rank(types, i, 12 + k);
}

/// Where nothing of the kind is offered under one of its names, plain text with parameters
/// that say it is UTF-8 is chosen.
pub proof fn law_parameterised_text(types: Seq<Seq<char>>, direction: Direction, i: int)
    requires
        0 <= i < types.len(),
        says_utf8(types[i]),
        forall|j: int| 0 <= j < i ==> !says_utf8(#[trigger] types[j]),
        absent(types, "x-special/gnome-copied-files"@),
        absent(types, "text/uri-list"@),
        no_image(types),
        absent(types, "application/x-qt-image"@),
        absent(types, "text/plain;charset=utf-8"@),
        absent(types, "text/plain"@),
        absent(types, "utf8_string"@),
        absent(types, "compound_text"@),
        absent(types, "text"@),
        absent(types, "string"@),
    ensures
        mime::chosen(types, direction) == Some(
            Choice {
                read_mime: types[i],
                write_mime: match direction {
                    Direction::XToWayland => "text/plain;charset=utf-8"@,
                    Direction::WaylandToX => "UTF8_STRING"@,
                },
                kind: "text/plain"@,
                mode: DataMode::Raw,
            },
        ),
{
    assert forall|j: int| 0 <= j < types.len() implies 18 <= mime::rank(#[trigger] types[j]) by {
        lemma_no_image_rank(types[j]);
        lemma_rank_by_name(types[j]);
    }
    assert forall|j: int| 0 <= j < i implies 18 != mime::rank(#[trigger] types[j]) by {
        lemma_rank_by_name(types[j]);
    }
    lemma_rank_by_name(types[i]);
    lemma_first_of_rank(types, i, 18);
}

/// HTML is chosen where nothing else is offered that can be carried over.
pub proof fn law_html(types: Seq<Seq<char>>, direction: Direction, i: int)
    requires
        0 <= i < types.len(),
        text::lower(types[i]) == "text/html"@,
        absent(types.take(i), "text/html"@),
        forall|j: int| 0 <= j < types.len() ==> !says_utf8(#[trigger] types[j]),
        absent(types, "x-special/gnome-copied-files"@),
        absent(types, "text/uri-list"@),
        no_image(types),
        absent(types, "application/x-qt-image"@),
        absent(types, "text/plain;charset=utf-8"@),
        absent(types, "text/plain"@),
        absent(types, "utf8_string"@),
        absent(types, "compound_text"@),
        absent(types, "text"@),
        absent(types, "string"@),
    ensures
        mime::chosen(types, direction) == Some(
            Choice {
                read_mime: types[i],
                write_mime: "text/html"@,
                kind: "text/html"@,
                mode: DataMode::Raw,
            },
        ),
{
    assert forall|j: int| 0 <= j < types.len() implies 19 <= mime::rank(#[trigger] types[j]) by {
        lemma_no_image_rank(types[j]);
        lemma_rank_by_name(types[j]);
    }
    assert forall|j: int| 0 <= j < i implies 19 != mime::rank(#[trigger] types[j]) by {
        lemma_rank_by_name(types[j]);
        assert(types.take(i)[j] == types[j]);
    }
    lemma_rank_by_name(types[i]);
    lemma_first_of_rank(types, i, 19);
}

/// Nothing is chosen if no files, no images, no plain text in UTF-8 and no HTML are offered,
/// and only then.
pub proof fn law_nothing_chosen(types: Seq<Seq<char>>, direction: Direction)
    ensures
        mime::chosen(types, direction) is None <==> {
            &&& absent(types, "x-special/gnome-copied-files"@)
            &&& absent(types, "text/uri-list"@)
            &&& no_image(types)
            &&& absent(types, "application/x-qt-image"@)
            &&& absent(types, "text/plain;charset=utf-8"@)
            &&& absent(types, "text/plain"@)
            &&& absent(types, "utf8_string"@)
            &&& absent(types, "compound_text"@)
            &&& absent(types, "text"@)
            &&& absent(types, "string"@)
            &&& forall|j: int| 0 <= j < types.len() ==> !says_utf8(#[trigger] types[j])
            &&& absent(types, "text/html"@)
        },
{
    mime::lemma_best(types);
    assert forall|j: int| 0 <= j < types.len() implies (mime::rank(#[trigger] types[j]) == 20 <==> {
        let t = types[j];
        &&& text::lower(t) != "x-special/gnome-copied-files"@
        &&& text::lower(t) != "text/uri-list"@
        &&& !begins_image(t)
        &&& text::lower(t) != "application/x-qt-image"@
        &&& text::lower(t) != "text/plain;charset=utf-8"@
        &&& text::lower(t) != "text/plain"@
        &&& text::lower(t) != "utf8_string"@
        &&& text::lower(t) != "compound_text"@
        &&& text::lower(t) != "text"@
        &&& text::lower(t) != "string"@
        &&& !says_utf8(t)
        &&& text::lower(t) != "text/html"@
    }) && mime::rank(types[j]) <= 20 by {
        let t = types[j];
        lemma_rank_by_name(t);
        if !begins_image(t) && text::lower(t) != "x-special/gnome-copied-files"@ && text::lower(t)
            != "text/uri-list"@ {
            lemma_no_image_rank(t);
        }
    }
}

proof fn lemma_types_in_first(first: Seq<char>, ls: Seq<Seq<char>>)
    ensures
        mime::types_in(seq![first] + ls) == mime::types_in(seq![first]) + mime::types_in(ls),
    decreases ls.len(),
{
    let all = seq![first] + ls;
    if ls.len() == 0 {
        assert(all =~= seq![first]);
        assert(mime::types_in(ls) =~= seq![]);
        assert(mime::types_in(all) =~= mime::types_in(seq![first]) + mime::types_in(ls));
    } else {
        assert(all.drop_last() =~= seq![first] + ls.drop_last());
        lemma_types_in_first(first, ls.drop_last());
        assert(mime::types_in(all) =~= mime::types_in(seq![first]) + mime::types_in(ls));
    }
}

/// A listing is read line by line, in order: each line names one type, whatever white space
/// stands around it, unless it is blank.
pub proof fn law_listing_line_by_line(
    before: Seq<char>,
    name: Seq<char>,
    behind: Seq<char>,
    rest: Seq<char>,
)
    requires
        forall|i: int| 0 <= i < before.len() ==> text::is_white_space(#[trigger] before[i]),
        forall|i: int| 0 <= i < behind.len() ==> text::is_white_space(#[trigger] behind[i]),
        name.len() > 0 ==> !text::is_white_space(name[0]) && !text::is_white_space(name.last()),
        forall|i: int|
            0 <= i < (before + name + behind).len() ==> #[trigger] (before + name + behind)[i]
                != '\n',
    ensures
        ({
            let line = before + name + behind;
            let here = if name.len() > 0 {
                seq![name]
            } else {
                seq![]
            };
            &&& mime::listed_types(line.push('\n') + rest) == here + mime::listed_types(rest)
            &&& mime::listed_types(line) == here
        }),
{
    let line = before + name + behind;
    text_laws::law_trimmed_takes_white_space(before, name, behind);
    text_laws::lemma_lines_first(line, rest);
    text_laws::lemma_trimmed_without_return(line);
    let cut = text::without_return(line);
    lemma_types_in_first(cut, text::lines(rest));
    assert(mime::types_in(seq![cut].drop_last()) =~= seq![]);
    assert(mime::types_in(seq![line].drop_last()) =~= seq![]);
    assert(seq![cut].last() == cut);
    assert(seq![line].last() == line);
    let here = if name.len() > 0 {
        seq![name]
    } else {
        seq![]
    };
    assert(mime::types_in(seq![cut]) =~= here);
    assert(mime::types_in(seq![line]) =~= here);
    text_laws::law_lines(line, rest);
    if line.len() == 0 {
        assert(line =~= Seq::<char>::empty());
        assert(mime::listed_types(line) =~= here);
    }
}

/// A choice is viewed as what its fields hold.
pub proof fn law_choice_view(choice: MimeChoice)
    ensures
        choice@.read_mime == choice.read_mime@,
        choice@.write_mime == choice.write_mime@,
        choice@.kind == choice.kind@,
        choice@.mode == choice.mode,
{
}

/// Files are written as a list of locations, plain text under the name that the target asks
/// for, and everything else under the name of its kind.
pub proof fn law_write_name_of_kind(types: Seq<Seq<char>>, direction: Direction)
    requires
        mime::chosen(types, direction) is Some,
    ensures
        ({
            let choice = mime::chosen(types, direction)->0;
            choice.write_mime == (if choice.kind == "files"@ {
                "text/uri-list"@
            } else if choice.kind == "text/plain"@ {
                match direction {
                    Direction::XToWayland => "text/plain;charset=utf-8"@,
                    Direction::WaylandToX => "UTF8_STRING"@,
                }
            } else {
                choice.kind
            })
        }),
{
    law_kind_of_files(types, direction);
    law_direction(types);
}

/// Plain text that is offered alone, with parameters one of which says that it is UTF-8, is
/// chosen, and written under the name that the target asks for.
pub proof fn law_single_utf8_text(
    t: Seq<char>,
    before: Seq<char>,
    behind: Seq<char>,
    direction: Direction,
)
    requires
        text::lower(t) == "text/plain;"@ + before + "charset=utf-8"@ + behind,
    ensures
        mime::chosen(seq![t], direction) == Some(
            Choice {
                read_mime: t,
                write_mime: match direction {
                    Direction::XToWayland => "text/plain;charset=utf-8"@,
                    Direction::WaylandToX => "UTF8_STRING"@,
                },
                kind: "text/plain"@,
                mode: DataMode::Raw,
            },
        ),
{
    let types = seq![t];
    let front = "text/plain;"@ + before;
    reveal_strlit("text/plain;");
    reveal_strlit("charset=utf-8");
    reveal_strlit("x-special/gnome-copied-files");
    reveal_strlit("text/uri-list");
    reveal_strlit("application/x-qt-image");
    assert(text::lower(t)[0] == 't');
    assert(text::lower(t)[4] == '/');
    assert(text::lower(t)[5] == 'p');
    assert("text/uri-list"@[5] == 'u');
    assert(text::lower(t).take(11) =~= "text/plain;"@);
    assert(text::lower(t) == front + "charset=utf-8"@ + behind);
    assert(says_utf8(t));
    assert(text::lower(t)[0] == text::lower_char(t[0]));
    lemma_no_image(t);
    if begins_image(t) {
        assert(text::lower(t).take(6)[0] == 'i');
    }
    lemma_no_image_rank(t);
    lemma_rank_by_name(t);
    assert(types[0] == t);
    lemma_first_of_rank(types, 0, mime::rank(t));
}

/// What is chosen is of a known name, an image, or plain text that says it is UTF-8.
pub proof fn law_chosen_is_known(types: Seq<Seq<char>>, direction: Direction)
    ensures
        match mime::chosen(types, direction) {
            Some(choice) => {
                let name = text::lower(choice.read_mime);
                {
                    ||| name == "x-special/gnome-copied-files"@
                    ||| name == "text/uri-list"@
                    ||| name == "application/x-qt-image"@
                    ||| name == "text/plain;charset=utf-8"@
                    ||| name == "text/plain"@
                    ||| name == "utf8_string"@
                    ||| name == "compound_text"@
                    ||| name == "text"@
                    ||| name == "string"@
                    ||| name == "text/html"@
                    ||| name.len() >= 6 && name.take(6) == "image/"@
                    ||| name.len() >= 11 && name.take(11) == "text/plain;"@ && exists|
                        before: Seq<char>,
                        behind: Seq<char>,
                    |
                        name == #[trigger] (before + "charset=utf-8"@ + behind)
                }
            },
            None => true,
        },
{
    law_choice_is_offered(types, direction);
    mime::lemma_best(types);
    if let Some(i) = mime::best(types) {
        let t = types[i];
        lemma_rank_by_name(t);
        lemma_rank_of_family(t);
        reveal_strlit("image/");
        assert("image/"@ =~= seq!['i', 'm', 'a', 'g', 'e', '/']);
        if mime::is_image(t) {
            assert(text::lower(t).subrange(0, 6) =~= text::lower(t).take(6));
        }
    }
}

} // verus!
