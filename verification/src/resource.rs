//! The resource data model: one installable content archive, identified by a
//! remote-assigned integer id, together with its category classification.

use vstd::prelude::*;

verus! {

/// Classification of a resource, derived once from the free-text prefix label
/// of its catalog entry and treated as stable input afterwards.
#[derive(Clone, Copy, Debug, PartialEq, Eq, Structural)]
pub enum Category {
    Regular,
    Outdated,
    Unsupported,
}

/// One piece of installable content and its metadata.
///
/// The `id` is the sole identity field: two resources are the same resource
/// exactly when their ids are equal, whatever the other fields hold. The
/// `version` is meaningful only between two records with the same id.
#[derive(Debug)]
pub struct Resource {
    pub id: u64,
    pub tag_id: String,
    pub name: String,
    pub version: u64,
    pub category: Category,
    pub filename: String,
    pub download_url: String,
}

impl Clone for Resource {
    fn clone(&self) -> (r: Self)
        ensures
            r == *self,
    {
        Resource {
            id: self.id,
            tag_id: self.tag_id.clone(),
            name: self.name.clone(),
            version: self.version,
            category: self.category,
            filename: self.filename.clone(),
            download_url: self.download_url.clone(),
        }
    }
}

impl PartialEq for Resource {
    fn eq(&self, other: &Self) -> (r: bool) {
        self.id == other.id
    }
}

impl vstd::std_specs::cmp::PartialEqSpecImpl for Resource {
    open spec fn obeys_eq_spec() -> bool {
        true
    }

    open spec fn eq_spec(&self, other: &Self) -> bool {
        self.id == other.id
    }
}

/// The code point of `c` with an ASCII upper-case letter folded to lower case.
pub open spec fn lower_code(c: char) -> int {
    if 65 <= c as int && c as int <= 90 {
        c as int + 32
    } else {
        c as int
    }
}

/// Character sequences that agree up to ASCII case.
pub open spec fn eq_ignore_ascii_case_seq(a: Seq<char>, b: Seq<char>) -> bool {
    a.len() == b.len() && forall|i: int| 0 <= i < a.len() ==> lower_code(a[i]) == lower_code(b[i])
}

/// Compares two strings for equality up to ASCII case.
pub fn eq_ignore_ascii_case(a: &str, b: &str) -> (r: bool)
    ensures
        r == eq_ignore_ascii_case_seq(a@, b@),
{
    let a_len = a.unicode_len();
    let b_len = b.unicode_len();
    if a_len != b_len {
        return false;
    }
    for i in 0..a_len
        invariant
            a_len == a@.len(),
            b_len == b@.len(),
            a_len == b_len,
            forall|j: int| 0 <= j < i ==> lower_code(a@[j]) == lower_code(b@[j]),
    {
        let ca = a.get_char(i) as u32;
        let cb = b.get_char(i) as u32;
        let la = if 65 <= ca && ca <= 90 {
            ca + 32
        } else {
            ca
        };
        let lb = if 65 <= cb && cb <= 90 {
            cb + 32
        } else {
            cb
        };
        if la != lb {
            return false;
        }
    }
    true
}

/// The category that a free-text prefix label stands for, compared without
/// regard to ASCII case; any other label means no special classification.
pub open spec fn spec_category_of(s: Seq<char>) -> Category {
    if eq_ignore_ascii_case_seq(s, "Outdated"@) {
        Category::Outdated
    } else if eq_ignore_ascii_case_seq(s, "Unsupported"@) {
        Category::Unsupported
    } else {
        Category::Regular
    }
}

/// Interprets a free-text prefix label as a category, case-insensitively.
pub fn parse_category(prefix: &str) -> (c: Category)
    ensures
        c == spec_category_of(prefix@),
{
    if eq_ignore_ascii_case(prefix, "Outdated") {
        Category::Outdated
    } else if eq_ignore_ascii_case(prefix, "Unsupported") {
        Category::Unsupported
    } else {
        Category::Regular
    }
}

} // verus!
