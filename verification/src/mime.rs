//! Which of the offered MIME types is carried over, and under which name.

use crate::text;
use crate::text::{chars_of, contains, decode_lossy, eq_ignore_ascii_case, split_lines, starts_with, string_of, to_lower, trim};
use vstd::prelude::*;

verus! {

/// Which clipboard is the source and which one is written.
#[derive(Clone, Copy, Debug, PartialEq, Eq, Structural)]
pub enum Direction {
    XToWayland,
    WaylandToX,
}

/// How the bytes that were read become the bytes that are written.
#[derive(Clone, Copy, Debug, PartialEq, Eq, Structural)]
pub enum DataMode {
    Raw,
    UriList,
}

/// The type to read, the type to write, and the kind of content that both stand for.
#[derive(Debug)]
pub struct MimeChoice {
    pub read_mime: String,
    pub write_mime: String,
    pub kind: String,
    pub mode: DataMode,
}

/// A `MimeChoice` with its strings as sequences of characters.
#[verifier::ext_equal]
pub struct Choice {
    pub read_mime: Seq<char>,
    pub write_mime: Seq<char>,
    pub kind: Seq<char>,
    pub mode: DataMode,
}

impl View for MimeChoice {
    type V = Choice;

    open spec fn view(&self) -> Choice {
        Choice {
            read_mime: self.read_mime@,
            write_mime: self.write_mime@,
            kind: self.kind@,
            mode: self.mode,
        }
    }
}

/// The list of types that a list of lines names: each line trimmed, the blank ones left out.
pub open spec fn types_in(ls: Seq<Seq<char>>) -> Seq<Seq<char>>
    decreases ls.len(),
{
    if ls.len() == 0 {
        seq![]
    } else {
        let name = text::trimmed(ls.last());
        if name.len() == 0 {
            types_in(ls.drop_last())
        } else {
            types_in(ls.drop_last()).push(name)
        }
    }
}

/// The types that a text lists, one to a line.
pub open spec fn listed_types(text: Seq<char>) -> Seq<Seq<char>> {
    types_in(text::lines(text))
}

/// The types that a text lists, one to a line.
pub fn parse_type_lines(text: &str) -> (types: Vec<String>)
    ensures
        text::texts(types@) == listed_types(text@),
{
    let chars: Vec<char> = chars_of(text);
    let all: Vec<Vec<char>> = split_lines(chars.as_slice());
    let mut types: Vec<String> = Vec::new();
    let mut i: usize = 0;
    assert(text::texts(types@) =~= types_in(text::rows(all@).take(0)));
    while i < all.len()
        invariant
            i <= all.len(),
            text::texts(types@) == types_in(text::rows(all@).take(i as int)),
        decreases all.len() - i,
    {
        let name: &[char] = trim(all[i].as_slice());
        let ghost before = text::texts(types@);
        proof {
            assert(text::rows(all@).take(i + 1).drop_last() =~= text::rows(all@).take(i as int));
            assert(text::rows(all@).take(i + 1).last() == all@[i as int]@);
        }
        if name.len() > 0 {
            types.push(string_of(name));
            assert(text::texts(types@) =~= before.push(name@));
        }
        i += 1;
    }
    assert(text::rows(all@).take(i as int) =~= text::rows(all@));
    types
}

/// The types that a clipboard tool lists, one to a line.
pub fn parse_types(data: &[u8]) -> (types: Vec<String>)
    ensures
        text::texts(types@) == listed_types(text::decoded(data@)),
{
    let text: String = decode_lossy(data);
    parse_type_lines(text.as_str())
}

/// The place of the first entry that equals `name` up to the case of ASCII letters, or the
/// length of the list.
pub open spec fn position(list: Seq<Seq<char>>, name: Seq<char>) -> int
    decreases list.len(),
{
    if list.len() == 0 || text::same_ignoring_case(list[0], name) {
        0
    } else {
        1 + position(list.skip(1), name)
    }
}

/// `position` finds the first entry of that name.
pub proof fn lemma_position(list: Seq<Seq<char>>, name: Seq<char>)
    ensures
        0 <= position(list, name) <= list.len(),
        position(list, name) < list.len() ==> text::same_ignoring_case(
            list[position(list, name)],
            name,
        ),
        forall|i: int|
            0 <= i < position(list, name) ==> !text::same_ignoring_case(#[trigger] list[i], name),
    decreases list.len(),
{
    if list.len() > 0 && !text::same_ignoring_case(list[0], name) {
        lemma_position(list.skip(1), name);
        assert forall|i: int| 0 <= i < position(list, name) implies !text::same_ignoring_case(
            #[trigger] list[i],
            name,
        ) by {
            if i > 0 {
                assert(list.skip(1)[i - 1] == list[i]);
            }
        }
    }
}

/// The place of the first offered type called `wanted`.
fn find_index(types: &[String], wanted: &str) -> (r: Option<usize>)
    ensures
        match r {
            Some(i) => i == position(text::texts(types@), wanted@) && i < types.len(),
            None => position(text::texts(types@), wanted@) == types.len(),
        },
{
    let name: Vec<char> = chars_of(wanted);
    let ghost all = text::texts(types@);
    let mut i: usize = 0;
    while i < types.len()
        invariant
            i <= types.len(),
            name@ == wanted@,
            all == text::texts(types@),
            forall|j: int| 0 <= j < i ==> !text::same_ignoring_case(#[trigger] all[j], wanted@),
        decreases types.len() - i,
    {
        let entry: Vec<char> = chars_of(types[i].as_str());
        if eq_ignore_ascii_case(entry.as_slice(), name.as_slice()) {
            proof {
                lemma_position(all, wanted@);
                assert(text::same_ignoring_case(all[i as int], wanted@));
            }
            return Some(i);
        }
        i += 1;
    }
    proof {
        lemma_position(all, wanted@);
    }
    None
}

/// The first offered type that equals `wanted` up to the case of ASCII letters, as it is
/// spelled in the offer.
pub fn find_type(types: &[String], wanted: &str) -> (r: Option<String>)
    ensures
        match r {
            Some(mime) => position(text::texts(types@), wanted@) < types.len() && mime@ == text::texts(
                types@,
            )[position(text::texts(types@), wanted@)],
            None => position(text::texts(types@), wanted@) == types.len(),
        },
        r is None <==> forall|i: int|
            0 <= i < types.len() ==> !text::same_ignoring_case((#[trigger] types@[i])@, wanted@),
        r matches Some(mime) ==> exists|i: int|
            0 <= i < types.len() && (#[trigger] types@[i])@ == mime@ && text::same_ignoring_case(
                mime@,
                wanted@,
            ) && forall|j: int|
                0 <= j < i ==> !text::same_ignoring_case((#[trigger] types@[j])@, wanted@),
{
    let ghost all = text::texts(types@);
    proof {
        lemma_position(all, wanted@);
        assert(forall|i: int| 0 <= i < types.len() ==> (#[trigger] types@[i])@ == all[i]);
        assert(forall|i: int| 0 <= i < types.len() ==> types@[i]@ == #[trigger] all[i]);
    }
    match find_index(types, wanted) {
        Some(i) => Some(types[i].clone()),
        None => None,
    }
}

/// The image types with a name of their own, the best one first.
pub open spec fn preferred_images() -> Seq<Seq<char>> {
    seq![
        "image/png"@,
        "image/jpeg"@,
        "image/gif"@,
        "image/webp"@,
        "image/bmp"@,
        "image/tiff"@,
        "image/svg+xml"@,
        "image/x-xpixmap"@,
    ]
}

/// The names under which plain text is offered, the best one first.
pub open spec fn text_names() -> Seq<Seq<char>> {
    seq![
        "text/plain;charset=utf-8"@,
        "text/plain"@,
        "UTF8_STRING"@,
        "COMPOUND_TEXT"@,
        "TEXT"@,
        "STRING"@,
    ]
}

/// Any image type, known by name or not.
pub open spec fn is_image(mime: Seq<char>) -> bool {
    "image/"@.is_prefix_of(text::lower(mime))
}

/// Plain text with parameters, one of which says that it is UTF-8.
pub open spec fn is_utf8_text(mime: Seq<char>) -> bool {
    "text/plain;"@.is_prefix_of(text::lower(mime)) && text::has_part(text::lower(mime), "charset=utf-8"@)
}

/// How far down the order of preference a type stands. The order is: copied files, a list
/// of locations, the images known by name, any other image, an image of Qt, plain text,
/// HTML. The last rank is that of the types that are not carried over.
pub open spec fn rank(mime: Seq<char>) -> int {
    if text::same_ignoring_case(mime, "x-special/gnome-copied-files"@) {
        0
    } else if text::same_ignoring_case(mime, "text/uri-list"@) {
        1
    } else if position(preferred_images(), mime) < 8 {
        2 + position(preferred_images(), mime)
    } else if is_image(mime) {
        10
    } else if text::same_ignoring_case(mime, "application/x-qt-image"@) {
        11
    } else if position(text_names(), mime) < 6 {
        12 + position(text_names(), mime)
    } else if is_utf8_text(mime) {
        18
    } else if text::same_ignoring_case(mime, "text/html"@) {
        19
    } else {
        20
    }
}

/// A type that can be carried over.
pub open spec fn supported(mime: Seq<char>) -> bool {
    rank(mime) < 20
}

/// The name under which plain text is written.
pub open spec fn text_target(direction: Direction) -> Seq<char> {
    match direction {
        Direction::XToWayland => "text/plain;charset=utf-8"@,
        Direction::WaylandToX => "UTF8_STRING"@,
    }
}

/// What is done with a type that was picked.
pub open spec fn choice_for(mime: Seq<char>, direction: Direction) -> Choice {
    let r = rank(mime);
    if r < 2 {
        Choice {
            read_mime: mime,
            write_mime: "text/uri-list"@,
            kind: "files"@,
            mode: DataMode::UriList,
        }
    } else if r < 11 {
        Choice {
            read_mime: mime,
            write_mime: text::lower(mime),
            kind: text::lower(mime),
            mode: DataMode::Raw,
        }
    } else if r == 11 {
        Choice {
            read_mime: mime,
            write_mime: "application/x-qt-image"@,
            kind: "application/x-qt-image"@,
            mode: DataMode::Raw,
        }
    } else if r < 19 {
        Choice {
            read_mime: mime,
            write_mime: text_target(direction),
            kind: "text/plain"@,
            mode: DataMode::Raw,
        }
    } else {
        Choice {
            read_mime: mime,
            write_mime: "text/html"@,
            kind: "text/html"@,
            mode: DataMode::Raw,
        }
    }
}

/// The place of the first of the best ranked types, if any type is supported.
pub open spec fn best(types: Seq<Seq<char>>) -> Option<int>
    decreases types.len(),
{
    if types.len() == 0 {
        None
    } else {
        match best(types.drop_last()) {
            Some(i) => if rank(types.last()) < rank(types[i]) {
                Some(types.len() - 1)
            } else {
                Some(i)
            },
            None => if supported(types.last()) {
                Some(types.len() - 1)
            } else {
                None
            },
        }
    }
}

/// What is done with a list of offered types.
pub open spec fn chosen(types: Seq<Seq<char>>, direction: Direction) -> Option<Choice> {
    match best(types) {
        Some(i) => Some(choice_for(types[i], direction)),
        None => None,
    }
}

/// The entry at `i` is supported, no entry is ranked better, and none before it as good.
pub open spec fn is_best(types: Seq<Seq<char>>, i: int) -> bool {
    &&& 0 <= i < types.len()
    &&& supported(types[i])
    &&& forall|j: int| 0 <= j < types.len() ==> rank(types[i]) <= rank(#[trigger] types[j])
    &&& forall|j: int| 0 <= j < i ==> rank(types[i]) < rank(#[trigger] types[j])
}

/// `best` is the first of the best ranked types, and is missing only where no type at all
/// is supported.
pub proof fn lemma_best(types: Seq<Seq<char>>)
    ensures
        match best(types) {
            Some(i) => is_best(types, i),
            None => forall|j: int| 0 <= j < types.len() ==> !supported(#[trigger] types[j]),
        },
    decreases types.len(),
{
    if types.len() > 0 {
        let front = types.drop_last();
        lemma_best(front);
        assert(forall|j: int| 0 <= j < front.len() ==> front[j] == #[trigger] types[j]);
    }
}

/// There is only one best type.
pub proof fn lemma_best_is(types: Seq<Seq<char>>, i: int)
    requires
        is_best(types, i),
    ensures
        best(types) == Some(i),
{
    lemma_best(types);
    let k = best(types)->0;
    if k < i {
        assert(rank(types[i]) < rank(types[k]));
    } else if i < k {
        assert(rank(types[k]) < rank(types[i]));
    }
}

/// The first entry ranked `r` is the best one, where all entries are ranked `r` or worse.
proof fn lemma_tier(types: Seq<Seq<char>>, i: int, r: int)
    requires
        0 <= i < types.len(),
        r < 20,
        rank(types[i]) == r,
        forall|j: int| 0 <= j < types.len() ==> r <= rank(#[trigger] types[j]),
        forall|j: int| 0 <= j < i ==> r != rank(#[trigger] types[j]),
    ensures
        best(types) == Some(i),
{
    assert(is_best(types, i));
    lemma_best_is(types, i);
}

/// Each rank is the one of a single name or family of names, as far as the type has no
/// better rank.
pub proof fn lemma_rank(mime: Seq<char>)
    ensures
        0 <= rank(mime) <= 20,
        rank(mime) == 0 <==> text::same_ignoring_case(mime, "x-special/gnome-copied-files"@),
        1 <= rank(mime) ==> (rank(mime) == 1 <==> text::same_ignoring_case(mime, "text/uri-list"@)),
        forall|k: int|
            0 <= k < 8 && 2 + k <= rank(mime) ==> (rank(mime) == 2 + k <==> text::same_ignoring_case(
                #[trigger] preferred_images()[k],
                mime,
            )),
        10 <= rank(mime) ==> (rank(mime) == 10 <==> is_image(mime)),
        11 <= rank(mime) ==> (rank(mime) == 11 <==> text::same_ignoring_case(
            mime,
            "application/x-qt-image"@,
        )),
        forall|k: int|
            0 <= k < 6 && 12 + k <= rank(mime) ==> (rank(mime) == 12 + k
                <==> text::same_ignoring_case(#[trigger] text_names()[k], mime)),
        18 <= rank(mime) ==> (rank(mime) == 18 <==> is_utf8_text(mime)),
        19 <= rank(mime) ==> (rank(mime) == 19 <==> text::same_ignoring_case(mime, "text/html"@)),
{
    lemma_position(preferred_images(), mime);
    lemma_position(text_names(), mime);
}

/// The image types with a name of their own; the name is its own lower case form.
fn preferred_image(k: usize) -> (name: &'static str)
    requires
        k < 8,
    ensures
        name@ == preferred_images()[k as int],
        text::lower(name@) == name@,
{
    proof {
        reveal_strlit("image/png");
        reveal_strlit("image/jpeg");
        reveal_strlit("image/gif");
        reveal_strlit("image/webp");
        reveal_strlit("image/bmp");
        reveal_strlit("image/tiff");
        reveal_strlit("image/svg+xml");
        reveal_strlit("image/x-xpixmap");
        assert(text::lower(preferred_images()[k as int]) =~= preferred_images()[k as int]);
    }
    match k {
        0 => "image/png",
        1 => "image/jpeg",
        2 => "image/gif",
        3 => "image/webp",
        4 => "image/bmp",
        5 => "image/tiff",
        6 => "image/svg+xml",
        _ => "image/x-xpixmap",
    }
}

/// The names under which plain text is offered.
fn text_name(k: usize) -> (name: &'static str)
    requires
        k < 6,
    ensures
        name@ == text_names()[k as int],
{
    match k {
        0 => "text/plain;charset=utf-8",
        1 => "text/plain",
        2 => "UTF8_STRING",
        3 => "COMPOUND_TEXT",
        4 => "TEXT",
        _ => "STRING",
    }
}

/// The place of the first offered image.
fn find_image(types: &[String]) -> (r: Option<usize>)
    ensures
        match r {
            Some(i) => i < types.len() && is_image(types@[i as int]@) && forall|j: int|
                0 <= j < i ==> !is_image((#[trigger] types@[j])@),
            None => forall|j: int| 0 <= j < types.len() ==> !is_image((#[trigger] types@[j])@),
        },
{
    let prefix: Vec<char> = chars_of("image/");
    let mut i: usize = 0;
    while i < types.len()
        invariant
            i <= types.len(),
            prefix@ == "image/"@,
            forall|j: int| 0 <= j < i ==> !is_image((#[trigger] types@[j])@),
        decreases types.len() - i,
    {
        let entry: Vec<char> = to_lower(chars_of(types[i].as_str()).as_slice());
        if starts_with(entry.as_slice(), prefix.as_slice()) {
            return Some(i);
        }
        i += 1;
    }
    None
}

/// The place of the first plain text that says it is UTF-8.
fn find_utf8_text(types: &[String]) -> (r: Option<usize>)
    ensures
        match r {
            Some(i) => i < types.len() && is_utf8_text(types@[i as int]@) && forall|j: int|
                0 <= j < i ==> !is_utf8_text((#[trigger] types@[j])@),
            None => forall|j: int| 0 <= j < types.len() ==> !is_utf8_text((#[trigger] types@[j])@),
        },
{
    let prefix: Vec<char> = chars_of("text/plain;");
    let part: Vec<char> = chars_of("charset=utf-8");
    let mut i: usize = 0;
    while i < types.len()
        invariant
            i <= types.len(),
            prefix@ == "text/plain;"@,
            part@ == "charset=utf-8"@,
            forall|j: int| 0 <= j < i ==> !is_utf8_text((#[trigger] types@[j])@),
        decreases types.len() - i,
    {
        let entry: Vec<char> = to_lower(chars_of(types[i].as_str()).as_slice());
        if starts_with(entry.as_slice(), prefix.as_slice()) && contains(
            entry.as_slice(),
            part.as_slice(),
        ) {
            return Some(i);
        }
        i += 1;
    }
    None
}

fn choice_of(read_mime: &String, write_mime: &str, kind: &str, mode: DataMode) -> (choice:
    MimeChoice)
    ensures
        choice@ == (Choice {
            read_mime: read_mime@,
            write_mime: write_mime@,
            kind: kind@,
            mode: mode,
        }),
{
    MimeChoice {
        read_mime: read_mime.clone(),
        write_mime: write_mime.to_owned(),
        kind: kind.to_owned(),
        mode,
    }
}

/// The place of the plain text to read, where nothing ranked better is offered.
fn find_text(types: &[String]) -> (r: Option<usize>)
    requires
        forall|j: int| 0 <= j < types.len() ==> 12 <= rank(#[trigger] text::texts(types@)[j]),
    ensures
        match r {
            Some(i) => best(text::texts(types@)) == Some(i as int) && i < types.len() && 12 <= rank(
                types@[i as int]@,
            ) < 19,
            None => forall|j: int|
                0 <= j < types.len() ==> 19 <= rank(#[trigger] text::texts(types@)[j]),
        },
{
    let ghost all = text::texts(types@);
    let mut k: usize = 0;
    while k < 6
        invariant
            k <= 6,
            all == text::texts(types@),
            forall|j: int| 0 <= j < types.len() ==> 12 + k <= rank(#[trigger] all[j]),
        decreases 6 - k,
    {
        let name: &'static str = text_name(k);
        let found: Option<usize> = find_index(types, name);
        proof {
            lemma_position(all, name@);
            assert forall|j: int| 0 <= j < types.len() implies (rank(#[trigger] all[j]) == 12 + k
                <==> text::same_ignoring_case(all[j], name@)) by {
                lemma_rank(all[j]);
                assert(name@ == text_names()[k as int]);
            }
        }
        if let Some(i) = found {
            proof {
                lemma_tier(all, i as int, 12 + k);
            }
            return Some(i);
        }
        k += 1;
    }
    proof {
        assert forall|j: int| 0 <= j < types.len() implies (rank(#[trigger] all[j]) == 18
            <==> is_utf8_text(types@[j]@)) by {
            assert(all[j] == types@[j]@);
            lemma_rank(all[j]);
        }
    }
    let found: Option<usize> = find_utf8_text(types);
    if let Some(i) = found {
        proof {
            assert(all[i as int] == types@[i as int]@);
            lemma_tier(all, i as int, 18);
        }
    }
    found
}

/// The place of the image to read, where nothing ranked better is offered, and the name
/// under which it is written.
fn find_picture(types: &[String]) -> (r: Option<(usize, String)>)
    requires
        forall|j: int| 0 <= j < types.len() ==> 2 <= rank(#[trigger] text::texts(types@)[j]),
    ensures
        match r {
            Some((i, name)) => best(text::texts(types@)) == Some(i as int) && i < types.len() && 2
                <= rank(types@[i as int]@) < 11 && name@ == text::lower(types@[i as int]@),
            None => forall|j: int|
                0 <= j < types.len() ==> 11 <= rank(#[trigger] text::texts(types@)[j]),
        },
{
    let ghost all = text::texts(types@);
    let mut k: usize = 0;
    while k < 8
        invariant
            k <= 8,
            all == text::texts(types@),
            forall|j: int| 0 <= j < types.len() ==> 2 + k <= rank(#[trigger] all[j]),
        decreases 8 - k,
    {
        let name: &'static str = preferred_image(k);
        let found: Option<usize> = find_index(types, name);
        proof {
            lemma_position(all, name@);
            assert forall|j: int| 0 <= j < types.len() implies (rank(#[trigger] all[j]) == 2 + k
                <==> text::same_ignoring_case(all[j], name@)) by {
                lemma_rank(all[j]);
                assert(name@ == preferred_images()[k as int]);
            }
        }
        if let Some(i) = found {
            proof {
                lemma_tier(all, i as int, 2 + k);
            }
            return Some((i, name.to_owned()));
        }
        k += 1;
    }
    proof {
        assert forall|j: int| 0 <= j < types.len() implies (rank(#[trigger] all[j]) == 10
            <==> is_image(types@[j]@)) by {
            assert(all[j] == types@[j]@);
            lemma_rank(all[j]);
        }
    }
    match find_image(types) {
        Some(i) => {
            proof {
                assert(all[i as int] == types@[i as int]@);
                lemma_tier(all, i as int, 10);
            }
            Some((i, string_of(to_lower(chars_of(types[i].as_str()).as_slice()).as_slice())))
        },
        None => None,
    }
}

/// Picks the first of the best ranked types, and says how it is read and written.
pub fn choose_mime(types: &[String], direction: Direction) -> (r: Option<MimeChoice>)
    ensures
        match r {
            Some(choice) => chosen(text::texts(types@), direction) == Some(choice@),
            None => chosen(text::texts(types@), direction) is None,
        },
{
    let ghost all = text::texts(types@);
    proof {
        lemma_best(all);
        assert forall|j: int| 0 <= j < types.len() implies 0 <= rank(#[trigger] all[j]) && (rank(
            all[j],
        ) == 0 <==> text::same_ignoring_case(all[j], "x-special/gnome-copied-files"@)) by {
            lemma_rank(all[j]);
        }
        lemma_position(all, "x-special/gnome-copied-files"@);
        lemma_position(all, "text/uri-list"@);
        lemma_position(all, "application/x-qt-image"@);
        lemma_position(all, "text/html"@);
    }

    if let Some(i) = find_index(types, "x-special/gnome-copied-files") {
        proof {
            lemma_tier(all, i as int, 0);
        }
        return Some(choice_of(&types[i], "text/uri-list", "files", DataMode::UriList));
    }
    assert forall|j: int| 0 <= j < types.len() implies (rank(#[trigger] all[j]) == 1
        <==> text::same_ignoring_case(all[j], "text/uri-list"@)) by {
        lemma_rank(all[j]);
    }
    if let Some(i) = find_index(types, "text/uri-list") {
        proof {
            lemma_tier(all, i as int, 1);
        }
        return Some(choice_of(&types[i], "text/uri-list", "files", DataMode::UriList));
    }
    if let Some((i, name)) = find_picture(types) {
        return Some(choice_of(&types[i], name.as_str(), name.as_str(), DataMode::Raw));
    }
    assert forall|j: int| 0 <= j < types.len() implies (rank(#[trigger] all[j]) == 11
        <==> text::same_ignoring_case(all[j], "application/x-qt-image"@)) by {
        lemma_rank(all[j]);
    }
    if let Some(i) = find_index(types, "application/x-qt-image") {
        proof {
            lemma_tier(all, i as int, 11);
        }
        return Some(
            choice_of(
                &types[i],
                "application/x-qt-image",
                "application/x-qt-image",
                DataMode::Raw,
            ),
        );
    }
    if let Some(i) = find_text(types) {
        let write_mime: &str = match direction {
            Direction::XToWayland => "text/plain;charset=utf-8",
            Direction::WaylandToX => "UTF8_STRING",
        };
        return Some(choice_of(&types[i], write_mime, "text/plain", DataMode::Raw));
    }
    assert forall|j: int| 0 <= j < types.len() implies (rank(#[trigger] all[j]) == 19
        <==> text::same_ignoring_case(all[j], "text/html"@)) by {
        lemma_rank(all[j]);
    }
    if let Some(i) = find_index(types, "text/html") {
        proof {
            lemma_tier(all, i as int, 19);
        }
        return Some(choice_of(&types[i], "text/html", "text/html", DataMode::Raw));
    }
    None
}

} // verus!
