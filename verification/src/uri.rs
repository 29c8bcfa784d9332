//! Lists of locations in the form in which they are written.

use crate::mime::DataMode;
use crate::text;
use crate::text::{chars_of, decode_lossy, eq_ignore_ascii_case, split_lines, string_of, trim, trim_end_nuls};
use vstd::prelude::*;
use vstd::utf8::*;

verus! {

/// What a line of a list names, without white space around it and NULs behind it.
pub open spec fn entry(line: Seq<char>) -> Seq<char> {
    text::without_nuls(text::trimmed(line))
}

/// An entry that names no location: a blank one, or the verb that some lists begin with.
pub open spec fn is_skipped(item: Seq<char>) -> bool {
    ||| item.len() == 0
    ||| text::same_ignoring_case(item, "copy"@)
    ||| text::same_ignoring_case(item, "cut"@)
}

/// An entry as a location: an absolute path becomes a location of the scheme `file`.
pub open spec fn location(item: Seq<char>) -> Seq<char> {
    if item.len() > 0 && item[0] == '/' {
        "file://"@ + item
    } else {
        item
    }
}

/// What a line adds to the list.
pub open spec fn written_line(line: Seq<char>) -> Seq<char> {
    if is_skipped(entry(line)) {
        seq![]
    } else {
        location(entry(line)).push('\n')
    }
}

/// What a sequence of lines adds to the list.
pub open spec fn written_lines(ls: Seq<Seq<char>>) -> Seq<char>
    decreases ls.len(),
{
    if ls.len() == 0 {
        seq![]
    } else {
        written_lines(ls.drop_last()) + written_line(ls.last())
    }
}

/// A list of locations in the form in which it is written: one location to a line.
pub open spec fn normalized(list: Seq<char>) -> Seq<char> {
    written_lines(text::lines(list))
}

/// The location of one line, with a line feed behind it, or nothing.
fn write_line(line: &[char], out: &mut String)
    ensures
        final(out)@ == old(out)@ + written_line(line@),
{
    let item: &[char] = trim_end_nuls(trim(line));
    let skipped: bool = item.len() == 0 || eq_ignore_ascii_case(item, chars_of("copy").as_slice())
        || eq_ignore_ascii_case(item, chars_of("cut").as_slice());
    let ghost before = out@;
    if skipped {
        assert(before + written_line(line@) =~= before);
        return ;
    }
    if item[0] == '/' {
        out.append("file://");
    }
    out.append(string_of(item).as_str());
    out.push('\n');
    assert(out@ =~= before + written_line(line@));
}

/// A list of locations in the form in which it is written.
pub fn normalize_uri_text(list: &str) -> (r: String)
    ensures
        r@ == normalized(list@),
{
    let chars: Vec<char> = chars_of(list);
    let all: Vec<Vec<char>> = split_lines(chars.as_slice());
    let mut out: String = String::new();
    let mut i: usize = 0;
    assert(out@ =~= written_lines(text::rows(all@).take(0)));
    while i < all.len()
        invariant
            i <= all.len(),
            out@ == written_lines(text::rows(all@).take(i as int)),
        decreases all.len() - i,
    {
        write_line(all[i].as_slice(), &mut out);
        proof {
            assert(text::rows(all@).take(i + 1).drop_last() =~= text::rows(all@).take(i as int));
            assert(text::rows(all@).take(i + 1).last() == all@[i as int]@);
        }
        i += 1;
    }
    assert(text::rows(all@).take(i as int) =~= text::rows(all@));
    out
}

/// The bytes of a list of locations in the form in which it is written.
pub open spec fn normalized_bytes(data: Seq<u8>) -> Seq<u8> {
    encode_utf8(normalized(text::decoded(data)))
}

/// Normalises a list of locations: the verb `copy` or `cut` and blank lines go, and
/// absolute paths become locations of the scheme `file`.
pub fn normalize_uri_list(data: &[u8]) -> (r: Vec<u8>)
    ensures
        r@ == normalized_bytes(data@),
        r@ == encode_utf8(normalized(text::decoded(data@))),
{
    let source: String = decode_lossy(data);
    let result: String = normalize_uri_text(source.as_str());
    vstd::slice::slice_to_vec(result.as_str().as_bytes())
}

/// The bytes that are written for the bytes that were read.
pub open spec fn prepared(data: Seq<u8>, mode: DataMode) -> Seq<u8> {
    match mode {
        DataMode::Raw => data,
        DataMode::UriList => normalized_bytes(data),
    }
}

/// The bytes that are written for the bytes that were read.
pub fn prepare_data(data: &[u8], mode: DataMode) -> (r: Vec<u8>)
    ensures
        r@ == prepared(data@, mode),
        mode == DataMode::Raw ==> r@ == data@,
        mode == DataMode::UriList ==> r@ == encode_utf8(normalized(text::decoded(data@))),
{
    match mode {
        DataMode::Raw => vstd::slice::slice_to_vec(data),
        DataMode::UriList => normalize_uri_list(data),
    }
}

} // verus!
