//! Builds a local resource record out of the descriptor document embedded in
//! an installed archive. The caller unpacks the archive and hands in the
//! descriptor text; finding the descriptor's path inside the archive and
//! interpreting the document are handled here, the JSON parsing itself by an
//! outside parser behind trusted declarations.

use vstd::prelude::*;

use crate::resource::parse_category;
use crate::resource::spec_category_of;
use crate::resource::Resource;
use crate::strutil::contains_sub_from;
use crate::strutil::find_sub;
use crate::strutil::has_sub_from;
use crate::strutil::matches_at;

verus! {

/// The unsigned-integer field under `key` of the JSON document `doc`'s top
/// object, if the document parses, the key is present and the value is one;
/// a function of the document text and the key alone.
pub uninterp spec fn spec_json_u64_field(doc: Seq<char>, key: Seq<char>) -> Option<u64>;

/// The string field under `key` of the JSON document `doc`'s top object, if
/// the document parses, the key is present and the value is a string; a
/// function of the document text and the key alone.
pub uninterp spec fn spec_json_str_field(doc: Seq<char>, key: Seq<char>) -> Option<Seq<char>>;

/// Relies on `serde_json::from_str::<Value>`, `Value::get` and
/// `Value::as_u64`: extracts the unsigned-integer field under `key` of the
/// document's top object; nothing if the document does not parse, the key is
/// absent, or the value is no unsigned integer. All three are total functions
/// of the text and the key.
#[verifier::external_body]
fn json_u64_field(descriptor: &str, key: &str) -> (r: Option<u64>)
    ensures
        r == spec_json_u64_field(descriptor@, key@),
{
    serde_json::from_str::<serde_json::Value>(descriptor)
        .ok()
        .and_then(|doc| doc.get(key).and_then(|field| field.as_u64()))
}

/// Relies on `serde_json::from_str::<Value>`, `Value::get` and
/// `Value::as_str`: extracts the string field under `key` of the document's
/// top object; nothing if the document does not parse, the key is absent, or
/// the value is no string. All three are total functions of the text and the
/// key.
#[verifier::external_body]
fn json_str_field(descriptor: &str, key: &str) -> (r: Option<String>)
    ensures
        match r {
            Option::Some(s) => spec_json_str_field(descriptor@, key@) == Option::Some(s@),
            Option::None => spec_json_str_field(descriptor@, key@) is None,
        },
{
    serde_json::from_str::<serde_json::Value>(descriptor)
        .ok()
        .and_then(|doc| doc.get(key).and_then(|field| field.as_str().map(|s| s.to_string())))
}

/// Builds a local resource record from the descriptor's fields. The category
/// is decided here, once, from the prefix label; a local record carries no
/// download address.
pub fn from_fields(
    resource_id: u64,
    tagid: String,
    title: String,
    current_version_id: u64,
    prefix_title: &str,
    filename: String,
) -> (r: Resource)
    ensures
        r.id == resource_id,
        r.tag_id == tagid,
        r.name == title,
        r.version == current_version_id,
        r.category == spec_category_of(prefix_title@),
        r.filename == filename,
        r.download_url@ == Seq::<char>::empty(),
{
    Resource {
        id: resource_id,
        tag_id: tagid,
        name: title,
        version: current_version_id,
        category: parse_category(prefix_title),
        filename,
        download_url: String::new(),
    }
}

/// Retrieves the metadata of an installed resource out of its descriptor
/// document: a record built from the six required fields, with the category
/// decided from the prefix label. A document that cannot be parsed, or one
/// that misses a required field or gives it the wrong type, yields nothing:
/// such an entry is skipped, never fatal.
pub fn read(descriptor: &str) -> (r: Option<Resource>)
    ensures
        match r {
            Option::Some(res) => {
                &&& spec_json_u64_field(descriptor@, "resource_id"@) == Option::Some(res.id)
                &&& spec_json_str_field(descriptor@, "tagid"@) == Option::Some(res.tag_id@)
                &&& spec_json_str_field(descriptor@, "title"@) == Option::Some(res.name@)
                &&& spec_json_u64_field(descriptor@, "current_version_id"@) == Option::Some(
                    res.version,
                )
                &&& (spec_json_str_field(descriptor@, "prefix_title"@) matches Option::Some(prefix)
                    && res.category == spec_category_of(prefix))
                &&& spec_json_str_field(descriptor@, "filename"@) == Option::Some(res.filename@)
                &&& res.download_url@ == Seq::<char>::empty()
            },
            Option::None => {
                ||| spec_json_u64_field(descriptor@, "resource_id"@) is None
                ||| spec_json_str_field(descriptor@, "tagid"@) is None
                ||| spec_json_str_field(descriptor@, "title"@) is None
                ||| spec_json_u64_field(descriptor@, "current_version_id"@) is None
                ||| spec_json_str_field(descriptor@, "prefix_title"@) is None
                ||| spec_json_str_field(descriptor@, "filename"@) is None
            },
        },
{
    let resource_id = match json_u64_field(descriptor, "resource_id") {
        Option::Some(v) => v,
        Option::None => {
            return Option::None;
        },
    };
    let tagid = match json_str_field(descriptor, "tagid") {
        Option::Some(v) => v,
        Option::None => {
            return Option::None;
        },
    };
    let title = match json_str_field(descriptor, "title") {
        Option::Some(v) => v,
        Option::None => {
            return Option::None;
        },
    };
    let current_version_id = match json_u64_field(descriptor, "current_version_id") {
        Option::Some(v) => v,
        Option::None => {
            return Option::None;
        },
    };
    let prefix_title = match json_str_field(descriptor, "prefix_title") {
        Option::Some(v) => v,
        Option::None => {
            return Option::None;
        },
    };
    let filename = match json_str_field(descriptor, "filename") {
        Option::Some(v) => v,
        Option::None => {
            return Option::None;
        },
    };
    Option::Some(
        from_fields(resource_id, tagid, title, current_version_id, prefix_title.as_str(), filename),
    )
}

/// A path inside an installed archive that holds the resource descriptor: a
/// `mod_info/` segment somewhere, an `/info.json` at or behind its end.
pub open spec fn spec_is_descriptor_path(p: Seq<char>) -> bool {
    exists|i: int, j: int|
        {
            &&& #[trigger] matches_at(p, "mod_info/"@, i)
            &&& i + "mod_info/"@.len() <= j
            &&& #[trigger] matches_at(p, "/info.json"@, j)
        }
}

/// Checks whether the archive entry path holds the resource descriptor.
pub fn is_descriptor_path(name: &str) -> (r: bool)
    ensures
        r == spec_is_descriptor_path(name@),
{
    let marker = "mod_info/";
    match find_sub(name, marker) {
        Option::None => {
            proof {
                assert(forall|i: int| !matches_at(name@, marker@, i));
            }
            false
        },
        Option::Some(i) => {
            let _name_len = name.unicode_len();
            let m = marker.unicode_len();
            let found = contains_sub_from(name, "/info.json", i + m);
            proof {
                if found {
                    let j = choose|j: int| i + m <= j && matches_at(name@, "/info.json"@, j);
                    assert(matches_at(name@, "mod_info/"@, i as int));
                    assert(matches_at(name@, "/info.json"@, j));
                    assert(spec_is_descriptor_path(name@));
                } else {
                    assert forall|a: int, b: int|
                        !(matches_at(name@, "mod_info/"@, a) && a + "mod_info/"@.len() <= b
                            && matches_at(name@, "/info.json"@, b)) by {
                        if matches_at(name@, "mod_info/"@, a) && a + "mod_info/"@.len() <= b
                            && matches_at(name@, "/info.json"@, b) {
                            assert(a >= i);
                            assert(b >= i + m);
                            assert(has_sub_from(name@, "/info.json"@, (i + m) as int));
                            assert(false);
                        }
                    }
                }
            }
            found
        },
    }
}

} // verus!
