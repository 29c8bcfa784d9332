//! Fingerprints of clipboard contents.

use vstd::prelude::*;

verus! {

/// A kind of content together with a hash of its bytes.
#[derive(Debug, Eq)]
pub struct Fingerprint {
    pub kind: String,
    pub hash: u128,
}

/// A `Fingerprint` with its kind as a sequence of characters.
#[verifier::ext_equal]
pub struct Print {
    pub kind: Seq<char>,
    pub hash: u128,
}

impl View for Fingerprint {
    type V = Print;

    open spec fn view(&self) -> Print {
        Print { kind: self.kind@, hash: self.hash }
    }
}

impl Clone for Fingerprint {
    fn clone(&self) -> (r: Fingerprint)
        ensures
            r@ == self@,
            r.kind@ == self.kind@,
            r.hash == self.hash,
    {
        Fingerprint { kind: self.kind.clone(), hash: self.hash }
    }
}

impl PartialEq for Fingerprint {
    fn eq(&self, other: &Fingerprint) -> (r: bool) {
        self.kind == other.kind && self.hash == other.hash
    }
}

impl vstd::std_specs::cmp::PartialEqSpecImpl for Fingerprint {
    open spec fn obeys_eq_spec() -> bool {
        true
    }

    open spec fn eq_spec(&self, other: &Fingerprint) -> bool {
        self@.kind == other@.kind && self@.hash == other@.hash
    }
}

/// The 128-bit XXH3 hash of a sequence of bytes.
pub uninterp spec fn xxh3_128_of(bytes: Seq<u8>) -> u128;

/// `xxh3_128` returns the XXH3 hash of its input, without seed and with the default secret:
/// a function of the bytes alone. Nothing is claimed of how hashes relate to one another.
pub assume_specification[ xxhash_rust::xxh3::xxh3_128 ](input: &[u8]) -> (hash: u128)
    ensures
        hash == xxh3_128_of(input@),
;

/// The fingerprint of contents. Empty contents have none.
pub open spec fn print_of(kind: Seq<char>, data: Seq<u8>) -> Option<Print> {
    if data.len() == 0 {
        None
    } else {
        Some(Print { kind, hash: xxh3_128_of(data) })
    }
}

/// The view of an optional fingerprint.
pub open spec fn print_view(f: Option<Fingerprint>) -> Option<Print> {
    match f {
        Some(f) => Some(f@),
        None => None,
    }
}

/// The fingerprint of contents. Empty contents have none.
pub fn fingerprint(kind: &str, data: &[u8]) -> (r: Option<Fingerprint>)
    ensures
        print_view(r) == print_of(kind@, data@),
        r is None <==> data@.len() == 0,
        r matches Some(f) ==> f.kind@ == kind@ && f.hash == xxh3_128_of(data@),
{
    if data.len() == 0 {
        return None;
    }
    Some(Fingerprint { kind: kind.to_owned(), hash: xxhash_rust::xxh3::xxh3_128(data) })
}

impl Fingerprint {
    /// The leading 32 bits of the hash, as they are shown to the user.
    pub fn short_hash(&self) -> (r: u32)
        ensures
            r == self.hash / 0x1_0000_0000_0000_0000_0000_0000u128,
    {
        let hash: u128 = self.hash;
        assert(hash >> 96u128 == hash / 0x1_0000_0000_0000_0000_0000_0000u128) by (bit_vector);
        assert(hash >> 96u128 <= 0xffff_ffffu128) by (bit_vector);
        (hash >> 96u128) as u32
    }
}

/// Contents that are not empty have a fingerprint, of their kind and the hash of all their
/// bytes. Two contents share it if they are of one kind and their hashes agree, and only then.
pub proof fn law_print_of(
    kind: Seq<char>,
    data: Seq<u8>,
    other_kind: Seq<char>,
    other_data: Seq<u8>,
)
    ensures
        print_of(kind, data) is None <==> data.len() == 0,
        data.len() > 0 ==> print_of(kind, data)->0.kind == kind && print_of(kind, data)->0.hash
            == xxh3_128_of(data),
        data.len() > 0 && other_data.len() > 0 ==> (print_of(kind, data) == print_of(
            other_kind,
            other_data,
        ) <==> kind == other_kind && xxh3_128_of(data) == xxh3_128_of(other_data)),
{
}

/// Two fingerprints are equal if their kinds and their hashes are, and only then.
pub proof fn law_fingerprints_equal(a: Fingerprint, b: Fingerprint)
    ensures
        vstd::std_specs::cmp::PartialEqSpec::eq_spec(&a, &b) <==> a.kind@ == b.kind@ && a.hash
            == b.hash,
        a@ == b@ <==> a.kind@ == b.kind@ && a.hash == b.hash,
        a@.kind == a.kind@,
        a@.hash == a.hash,
        print_view(Some(a)) == Some(a@),
        print_view(None) is None,
{
}

} // verus!
