//! Builds a remote resource record from the fields extracted out of a
//! resource page: the page title, the prefix badge text, the unique tag id,
//! and the download anchor's address. Fetching and HTML element selection
//! happen outside the library; the string interpretation is verified here.

use vstd::prelude::*;

use crate::resource::spec_category_of;
use crate::resource::parse_category;
use crate::resource::Resource;
use crate::strutil::digits_value;
use crate::strutil::find_char;
use crate::strutil::find_sub;
use crate::strutil::first_idx;
use crate::strutil::first_match_idx;
use crate::strutil::lemma_first_idx;
use crate::strutil::is_u64_digits;
use crate::strutil::lemma_first_match_idx;
use crate::strutil::matches_at;
use crate::strutil::parse_u64;
use crate::strutil::spec_dec;
use crate::strutil::spec_trim;
use crate::strutil::trim_str;
use crate::strutil::u64_to_string;

verus! {

/// The download address of a resource: the resource listing prefix, the id,
/// and the version as a query parameter.
pub open spec fn spec_download_url(id: int, version: int) -> Seq<char> {
    "https://www.beamng.com/resources/"@ + spec_dec(id) + "/download?version="@ + spec_dec(version)
}

/// Builds the download url based on `id` and `version` of the resource.
pub fn get_download_url(id: &u64, version: &u64) -> (r: String)
    ensures
        r@ == spec_download_url(*id as int, *version as int),
{
    let mut url = String::from_str("https://www.beamng.com/resources/");
    let id_str = u64_to_string(*id);
    url.append(id_str.as_str());
    url.append("/download?version=");
    let version_str = u64_to_string(*version);
    url.append(version_str.as_str());
    proof {
        assert(url@ =~= spec_download_url(*id as int, *version as int));
    }
    url
}

/// The display name embedded in a page title: the segment before the first
/// pipe, trimmed; if that segment holds a hyphen, only what follows the first
/// hyphen, trimmed again. A title without a pipe carries no name.
pub open spec fn spec_name_from_title(t: Seq<char>) -> Option<Seq<char>> {
    let p = first_idx(t, '|');
    if p == t.len() {
        Option::None
    } else {
        let w = spec_trim(t.subrange(0, p));
        let m = first_idx(w, '-');
        if m == w.len() {
            Option::Some(w)
        } else {
            Option::Some(spec_trim(w.subrange(m + 1, w.len() as int)))
        }
    }
}

/// Parses the resource name out of the passed page title.
pub fn name_from_title(title: &str) -> (r: Option<String>)
    ensures
        match r {
            Option::Some(name) => spec_name_from_title(title@) == Option::Some(name@),
            Option::None => spec_name_from_title(title@) is None,
        },
{
    match find_char(title, '|') {
        Option::None => {
            proof {
                lemma_first_idx(title@, '|', title@.len() as int);
            }
            Option::None
        },
        Option::Some(p) => {
            proof {
                lemma_first_idx(title@, '|', p as int);
            }
            let w = trim_str(title.substring_char(0, p));
            match find_char(w, '-') {
                Option::None => {
                    proof {
                        lemma_first_idx(w@, '-', w@.len() as int);
                    }
                    Option::Some(String::from_str(w))
                },
                Option::Some(m) => {
                    proof {
                        lemma_first_idx(w@, '-', m as int);
                    }
                    let w_len = w.unicode_len();
                    Option::Some(String::from_str(trim_str(w.substring_char(m + 1, w_len))))
                },
            }
        },
    }
}

/// The version number carried by a download address: the digits after the
/// first `version=` marker, which must run to the end of the address and fit
/// the version type.
pub open spec fn spec_version_from_href(h: Seq<char>) -> Option<int> {
    let i = first_match_idx(h, "version="@);
    if i == h.len() {
        Option::None
    } else {
        let tail = h.subrange(i + "version="@.len(), h.len() as int);
        if is_u64_digits(tail) {
            Option::Some(digits_value(tail))
        } else {
            Option::None
        }
    }
}

/// Parses the resource version out of the passed download address.
pub fn version_from_href(download_href: &str) -> (r: Option<u64>)
    ensures
        match r {
            Option::Some(v) => spec_version_from_href(download_href@) == Option::Some(v as int),
            Option::None => spec_version_from_href(download_href@) is None,
        },
{
    let pat = "version=";
    let n = download_href.unicode_len();
    let m = pat.unicode_len();
    match find_sub(download_href, pat) {
        Option::None => {
            proof {
                assert(forall|j: int| !matches_at(download_href@, pat@, j));
                lemma_first_match_idx(download_href@, pat@, download_href@.len() as int);
            }
            Option::None
        },
        Option::Some(i) => {
            proof {
                reveal_strlit("version=");
                lemma_first_match_idx(download_href@, pat@, i as int);
            }
            let tail = download_href.substring_char(i + m, n);
            parse_u64(tail)
        },
    }
}

/// Builds a remote resource record out of the fields extracted from one
/// resource page: the id the page was looked up under, the page title, the
/// prefix badge text, the unique tag id, and the download anchor's address.
/// A malformed id, title or address yields nothing; the local filename of a
/// remote record is empty until the resource is fetched.
pub fn read(mod_id: &str, title: &str, prefix: &str, tag_id: &str, download_href: &str) -> (r:
    Option<Resource>)
    ensures
        match r {
            Option::Some(res) => {
                &&& is_u64_digits(mod_id@)
                &&& res.id == digits_value(mod_id@)
                &&& Option::Some(res.name@) == spec_name_from_title(title@)
                &&& Option::Some(res.version as int) == spec_version_from_href(download_href@)
                &&& res.category == spec_category_of(prefix@)
                &&& res.tag_id@ == tag_id@
                &&& res.filename@ == Seq::<char>::empty()
                &&& res.download_url@ == spec_download_url(res.id as int, res.version as int)
            },
            Option::None => !is_u64_digits(mod_id@) || spec_name_from_title(title@) is None
                || spec_version_from_href(download_href@) is None,
        },
{
    let id = match parse_u64(mod_id) {
        Option::Some(id) => id,
        Option::None => {
            return Option::None;
        },
    };
    let name = match name_from_title(title) {
        Option::Some(name) => name,
        Option::None => {
            return Option::None;
        },
    };
    let version = match version_from_href(download_href) {
        Option::Some(version) => version,
        Option::None => {
            return Option::None;
        },
    };
    let download_url = get_download_url(&id, &version);
    let category = parse_category(prefix);
    Option::Some(
        Resource {
            id,
            tag_id: String::from_str(tag_id),
            name,
            version,
            category,
            filename: String::new(),
            download_url,
        },
    )
}

} // verus!
