//! Collision-resistant storage names: a freshly drawn UUID plus the media
//! type's canonical extension.

use vstd::prelude::*;
use vstd::string::StringExecFns;
use crate::media::MediaType;

verus! {

/// A character that may occur in the hyphenated text form of a UUID.
pub open spec fn is_uuid_char(c: char) -> bool {
    ('0' <= c && c <= '9') || ('a' <= c && c <= 'f') || c == '-'
}

/// The hyphenated text form of a UUID: 36 characters, lowercase hexadecimal
/// digits with hyphens at the four standard positions.
pub open spec fn is_uuid_text(s: Seq<char>) -> bool {
    &&& s.len() == 36
    &&& forall|i: int| 0 <= i < 36 ==> is_uuid_char(#[trigger] s[i])
    &&& s[8] == '-'
    &&& s[13] == '-'
    &&& s[18] == '-'
    &&& s[23] == '-'
}

/// The storage name built from a UUID stem and a media type:
/// `<stem>.<extension>`.
pub open spec fn spec_stored_name(stem: Seq<char>, mt: MediaType) -> Seq<char> {
    stem + "."@ + mt.spec_extension()
}

/// Whether `name` is a storage name for the media type `mt`: some UUID stem
/// followed by a dot and the type's canonical extension.
pub open spec fn is_stored_name(name: Seq<char>, mt: MediaType) -> bool {
    exists|stem: Seq<char>| is_uuid_text(stem) && name == spec_stored_name(stem, mt)
}

/// Relies on uuid::Uuid::new_v4 and the Display of uuid::Uuid, which renders
/// the hyphenated lowercase form: 36 ASCII characters, hexadecimal digits
/// with hyphens at positions 8, 13, 18 and 23. The value drawn is random, so
/// nothing is stated beyond that shape.
#[verifier::external_body]
fn fresh_uuid_text() -> (r: String)
    ensures
        is_uuid_text(r@),
{
    uuid::Uuid::new_v4().to_string()
}

/// Draws a fresh UUID and appends the dot and canonical extension of `mt`,
/// yielding the name the upload is stored under.
pub fn generate_stored_name(mt: MediaType) -> (r: String)
    ensures
        exists|stem: Seq<char>| is_uuid_text(stem) && r@ == spec_stored_name(stem, mt),
        is_stored_name(r@, mt),
{
    let stem = fresh_uuid_text();
    let ghost stem_view: Seq<char> = stem@;
    let dotted = stem.concat(".");
    let name = dotted.concat(mt.extension());
    proof {
        assert(is_uuid_text(stem_view) && name@ == spec_stored_name(stem_view, mt));
    }
    name
}

} // verus!
