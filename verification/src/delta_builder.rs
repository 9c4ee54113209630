//! The delta engine: pure decisions over two catalogs and a per-category
//! policy, producing the set of resources to download and the set to remove.
//!
//! A catalog is a map from resource id to resource record; `local` holds what
//! is installed, `remote` what is currently wanted. The policy says what to do
//! with resources whose remote entry is categorized `Outdated` or
//! `Unsupported`: `Ignore` gives no special treatment, `Skip` keeps them out
//! of the download set, `Delete` also removes an installed copy.

use std::collections::HashMap;

use vstd::prelude::*;

use crate::resource::Category;
use crate::resource::Resource;

verus! {

broadcast use vstd::std_specs::hash::group_hash_axioms;

/// A well-formed catalog maps every id to a record carrying that id.
pub open spec fn catalog_wf(catalog: Map<u64, Resource>) -> bool {
    forall|id: u64| #[trigger] catalog.contains_key(id) ==> catalog[id].id == id
}

/// Per-category policy value.
#[derive(Clone, Copy, Debug, PartialEq, Eq, Structural)]
pub enum DeltaAction {
    Ignore,
    Delete,
    Skip,
}

/// Builds the delta between the local and the remote catalog: which resources
/// to download and which to remove, under the configured category policy.
#[derive(Clone, Copy, Debug, PartialEq, Eq, Structural)]
pub struct DeltaBuilder {
    /// What to do with resources categorized `Unsupported`.
    pub unsupported: DeltaAction,
    /// What to do with resources categorized `Outdated`.
    pub outdated: DeltaAction,
}

impl DeltaBuilder {
    /// The policy keeps an `Outdated` resource out of the download set.
    pub open spec fn spec_should_skip_outdated(&self, val: Resource) -> bool {
        val.category == Category::Outdated && (self.outdated == DeltaAction::Delete
            || self.outdated == DeltaAction::Skip)
    }

    /// The policy keeps an `Unsupported` resource out of the download set.
    pub open spec fn spec_should_skip_unsupported(&self, val: Resource) -> bool {
        val.category == Category::Unsupported && (self.unsupported == DeltaAction::Delete
            || self.unsupported == DeltaAction::Skip)
    }

    /// The policy removes an installed copy of an `Outdated` resource.
    pub open spec fn spec_should_delete_outdated(&self, val: Resource) -> bool {
        self.outdated == DeltaAction::Delete && val.category == Category::Outdated
    }

    /// The policy removes an installed copy of an `Unsupported` resource.
    pub open spec fn spec_should_delete_unsupported(&self, val: Resource) -> bool {
        self.unsupported == DeltaAction::Delete && val.category == Category::Unsupported
    }

    /// The policy keeps this resource out of the download set.
    pub open spec fn suppresses(&self, val: Resource) -> bool {
        self.spec_should_skip_unsupported(val) || self.spec_should_skip_outdated(val)
    }

    /// A remote record belongs to the download set exactly when it is absent
    /// from the local catalog or strictly newer than the installed record, and
    /// the category policy does not suppress it.
    pub open spec fn wants_download(&self, local: Map<u64, Resource>, val: Resource) -> bool {
        &&& (!local.contains_key(val.id) || local[val.id].version < val.version)
        &&& !self.suppresses(val)
    }

    /// The remote record marks an installed copy for removal.
    pub open spec fn remote_marks_removed(&self, val: Resource) -> bool {
        self.spec_should_delete_outdated(val) || self.spec_should_delete_unsupported(val)
    }

    /// An installed resource belongs to the removal set exactly when it is no
    /// longer wanted at all, or its remote entry marks it for removal.
    pub open spec fn wants_removal(
        &self,
        local: Map<u64, Resource>,
        remote: Map<u64, Resource>,
        id: u64,
    ) -> bool {
        &&& local.contains_key(id)
        &&& (!remote.contains_key(id) || self.remote_marks_removed(remote[id]))
    }

    /// Checks if the passed resource should be skipped when downloading:
    /// `true` exactly when the policy for `Outdated` is `Delete` or `Skip` and
    /// the resource is categorized `Outdated`.
    pub fn should_skip_outdated(&self, val: &Resource) -> (r: bool)
        ensures
            r == self.spec_should_skip_outdated(*val),
    {
        let is_delete_or_skip = self.outdated == DeltaAction::Delete || self.outdated
            == DeltaAction::Skip;
        let has_outdated_category = val.category == Category::Outdated;
        has_outdated_category && is_delete_or_skip
    }

    /// Checks if the passed resource should be skipped when downloading:
    /// `true` exactly when the policy for `Unsupported` is `Delete` or `Skip`
    /// and the resource is categorized `Unsupported`.
    pub fn should_skip_unsupported(&self, val: &Resource) -> (r: bool)
        ensures
            r == self.spec_should_skip_unsupported(*val),
    {
        let is_delete_or_skip = self.unsupported == DeltaAction::Delete || self.unsupported
            == DeltaAction::Skip;
        let has_unsupported_category = val.category == Category::Unsupported;
        has_unsupported_category && is_delete_or_skip
    }

    /// Checks if the passed resource should be deleted: `true` exactly when
    /// the policy for `Outdated` is `Delete` and the resource is categorized
    /// `Outdated`.
    pub fn should_delete_outdated(&self, val: &Resource) -> (r: bool)
        ensures
            r == self.spec_should_delete_outdated(*val),
    {
        self.outdated == DeltaAction::Delete && val.category == Category::Outdated
    }

    /// Checks if the passed resource should be deleted: `true` exactly when
    /// the policy for `Unsupported` is `Delete` and the resource is
    /// categorized `Unsupported`.
    pub fn should_delete_unsupported(&self, val: &Resource) -> (r: bool)
        ensures
            r == self.spec_should_delete_unsupported(*val),
    {
        self.unsupported == DeltaAction::Delete && val.category == Category::Unsupported
    }

    /// Builds the list of resources to download, based on the locally
    /// installed and the wanted remote resources.
    ///
    /// The result holds exactly the remote records that the download
    /// predicate selects, each id at most once.
    pub fn get_to_download(
        &self,
        local_list: &HashMap<u64, Resource>,
        remote_list: &HashMap<u64, Resource>,
    ) -> (result: Vec<Resource>)
        requires
            catalog_wf(local_list@),
            catalog_wf(remote_list@),
        ensures
            forall|i: int|
                #![trigger result@[i]]
                0 <= i < result@.len() ==> {
                    &&& remote_list@.contains_key(result@[i].id)
                    &&& result@[i] == remote_list@[result@[i].id]
                    &&& self.wants_download(local_list@, result@[i])
                },
            forall|id: u64|
                #![trigger remote_list@.contains_key(id)]
                remote_list@.contains_key(id) && self.wants_download(local_list@, remote_list@[id])
                    ==> exists|i: int| 0 <= i < result@.len() && result@[i].id == id,
            forall|i: int, j: int| 0 <= i < j < result@.len() ==> result@[i].id != result@[j].id,
    {
        let mut result: Vec<Resource> = Vec::new();
        for pair in it: remote_list.iter()
            invariant
                catalog_wf(local_list@),
                catalog_wf(remote_list@),
                forall|i: int|
                    #![trigger result@[i]]
                    0 <= i < result@.len() ==> {
                        &&& remote_list@.contains_key(result@[i].id)
                        &&& result@[i] == remote_list@[result@[i].id]
                        &&& self.wants_download(local_list@, result@[i])
                    },
                forall|k: int|
                    #![trigger it.seq()[k]]
                    0 <= k < it.index() && remote_list@.contains_key(*it.seq()[k].0)
                        && self.wants_download(local_list@, remote_list@[*it.seq()[k].0])
                        ==> exists|i: int|
                        0 <= i < result@.len() && result@[i].id == *it.seq()[k].0,
                forall|i: int, j: int|
                    0 <= i < j < result@.len() ==> result@[i].id != result@[j].id,
        {
            proof {
                vstd::std_specs::hash::axiom_spec_hash_map_iter(remote_list);
                assert(pair == it.seq()[it.index()]);
                assert(remote_list@.contains_key(*pair.0) && remote_list@[*pair.0] == *pair.1);
                assert((*pair.1).id == *pair.0);
            }
            let (key, val) = pair;
            let wanted = match local_list.get(key) {
                Option::None => true,
                Option::Some(installed) => installed.version < val.version,
            };
            let skip = self.should_skip_unsupported(val) || self.should_skip_outdated(val);
            proof {
                assert((wanted && !skip) == self.wants_download(local_list@, *val));
            }
            if wanted && !skip {
                if !contains_id(&result, val.id) {
                    let ghost prev = result@;
                    result.push(val.clone());
                    proof {
                        assert(result@[prev.len() as int] == *val);
                        assert(forall|i: int| 0 <= i < prev.len() ==> result@[i] == prev[i]);
                    }
                }
            }
            proof {
                assert(forall|k: int|
                    #![trigger it.seq()[k]]
                    0 <= k < it.index() + 1 && remote_list@.contains_key(*it.seq()[k].0)
                        && self.wants_download(local_list@, remote_list@[*it.seq()[k].0])
                        ==> exists|i: int|
                        0 <= i < result@.len() && result@[i].id == *it.seq()[k].0);
            }
        }
        proof {
            vstd::std_specs::hash::axiom_spec_hash_map_iter(remote_list);
        }
        result
    }

    /// Builds the list of resources that should be deleted, based on the
    /// locally installed and the wanted remote resources.
    ///
    /// The result holds exactly the local records that the removal predicate
    /// selects, each id at most once; removal uses the local record, so that
    /// deletion knows the locally recorded filename.
    pub fn get_to_remove(
        &self,
        local_list: &HashMap<u64, Resource>,
        remote_list: &HashMap<u64, Resource>,
    ) -> (result: Vec<Resource>)
        requires
            catalog_wf(local_list@),
            catalog_wf(remote_list@),
        ensures
            forall|i: int|
                #![trigger result@[i]]
                0 <= i < result@.len() ==> {
                    &&& local_list@.contains_key(result@[i].id)
                    &&& result@[i] == local_list@[result@[i].id]
                    &&& self.wants_removal(local_list@, remote_list@, result@[i].id)
                },
            forall|id: u64|
                #![trigger local_list@.contains_key(id)]
                local_list@.contains_key(id) && self.wants_removal(local_list@, remote_list@, id)
                    ==> exists|i: int| 0 <= i < result@.len() && result@[i].id == id,
            forall|i: int, j: int| 0 <= i < j < result@.len() ==> result@[i].id != result@[j].id,
    {
        let mut result: Vec<Resource> = Vec::new();
        for pair in it: local_list.iter()
            invariant
                catalog_wf(local_list@),
                catalog_wf(remote_list@),
                forall|i: int|
                    #![trigger result@[i]]
                    0 <= i < result@.len() ==> {
                        &&& local_list@.contains_key(result@[i].id)
                        &&& result@[i] == local_list@[result@[i].id]
                        &&& self.wants_removal(local_list@, remote_list@, result@[i].id)
                    },
                forall|k: int|
                    #![trigger it.seq()[k]]
                    0 <= k < it.index() && local_list@.contains_key(*it.seq()[k].0)
                        && self.wants_removal(local_list@, remote_list@, *it.seq()[k].0)
                        ==> exists|i: int|
                        0 <= i < result@.len() && result@[i].id == *it.seq()[k].0,
                forall|i: int, j: int|
                    0 <= i < j < result@.len() ==> result@[i].id != result@[j].id,
        {
            proof {
                vstd::std_specs::hash::axiom_spec_hash_map_iter(local_list);
                assert(pair == it.seq()[it.index()]);
                assert(local_list@.contains_key(*pair.0) && local_list@[*pair.0] == *pair.1);
            }
            let (key, val) = pair;
            let marked = match remote_list.get(key) {
                Option::None => true,
                Option::Some(remote_val) => self.should_delete_outdated(remote_val)
                    || self.should_delete_unsupported(remote_val),
            };
            proof {
                assert(val.id == *pair.0);
                assert(marked == self.wants_removal(local_list@, remote_list@, *pair.0));
            }
            if marked {
                if !contains_id(&result, val.id) {
                    let ghost prev = result@;
                    result.push(val.clone());
                    proof {
                        assert(result@[prev.len() as int] == *val);
                        assert(forall|i: int| 0 <= i < prev.len() ==> result@[i] == prev[i]);
                    }
                }
            }
            proof {
                assert(forall|k: int|
                    #![trigger it.seq()[k]]
                    0 <= k < it.index() + 1 && local_list@.contains_key(*it.seq()[k].0)
                        && self.wants_removal(local_list@, remote_list@, *it.seq()[k].0)
                        ==> exists|i: int|
                        0 <= i < result@.len() && result@[i].id == *it.seq()[k].0);
            }
        }
        proof {
            vstd::std_specs::hash::axiom_spec_hash_map_iter(local_list);
        }
        result
    }
}

/// Whether some resource in the list carries the given id.
fn contains_id(list: &Vec<Resource>, id: u64) -> (r: bool)
    ensures
        r == exists|i: int| 0 <= i < list@.len() && list@[i].id == id,
{
    for i in 0..list.len()
        invariant
            forall|j: int| 0 <= j < i ==> list@[j].id != id,
    {
        if list[i].id == id {
            return true;
        }
    }
    false
}

/// Law: a resource already installed at an equal or newer local version is
/// never downloaded. Holds of any list with the download-set characterization
/// that `get_to_download` ensures.
pub proof fn lemma_no_redownload(
    builder: DeltaBuilder,
    local: Map<u64, Resource>,
    remote: Map<u64, Resource>,
    downloads: Seq<Resource>,
    id: u64,
)
    requires
        forall|i: int|
            #![trigger downloads[i]]
            0 <= i < downloads.len() ==> remote.contains_key(downloads[i].id) && downloads[i]
                == remote[downloads[i].id] && builder.wants_download(local, downloads[i]),
        local.contains_key(id),
        remote.contains_key(id),
        local[id].version >= remote[id].version,
    ensures
        forall|i: int| 0 <= i < downloads.len() ==> (#[trigger] downloads[i]).id != id,
{
}

/// The local catalog after every downloaded resource was fetched and merged
/// into it: each id selected for download now maps to the remote record, every
/// other installed id keeps its local record.
pub open spec fn merge_downloads(
    builder: DeltaBuilder,
    local: Map<u64, Resource>,
    remote: Map<u64, Resource>,
) -> Map<u64, Resource> {
    Map::new(
        |id: u64|
            local.contains_key(id) || (remote.contains_key(id) && builder.wants_download(
                local,
                remote[id],
            )),
        |id: u64|
            if remote.contains_key(id) && builder.wants_download(local, remote[id]) {
                remote[id]
            } else {
                local[id]
            },
    )
}

/// Law: synchronization is idempotent. Once every resource selected for
/// download is merged into the local catalog, no remote record is selected
/// again.
pub proof fn lemma_sync_idempotent(
    builder: DeltaBuilder,
    local: Map<u64, Resource>,
    remote: Map<u64, Resource>,
    id: u64,
)
    requires
        catalog_wf(remote),
        remote.contains_key(id),
    ensures
        !builder.wants_download(merge_downloads(builder, local, remote), remote[id]),
{
    let merged = merge_downloads(builder, local, remote);
    if builder.wants_download(local, remote[id]) {
        assert(merged.contains_key(id));
        assert(merged[id] == remote[id]);
    } else if !builder.suppresses(remote[id]) {
        assert(local.contains_key(id) && local[id].version >= remote[id].version);
        assert(merged.contains_key(id));
        assert(merged[id] == local[id]);
    }
}

/// Law: after a synchronization pass, a second delta computation downloads
/// nothing. Holds of any list with the download-set characterization that
/// `get_to_download` ensures against the merged local catalog.
pub proof fn lemma_second_pass_empty(
    builder: DeltaBuilder,
    local: Map<u64, Resource>,
    remote: Map<u64, Resource>,
    second_downloads: Seq<Resource>,
)
    requires
        catalog_wf(remote),
        forall|i: int|
            #![trigger second_downloads[i]]
            0 <= i < second_downloads.len() ==> remote.contains_key(second_downloads[i].id)
                && second_downloads[i] == remote[second_downloads[i].id]
                && builder.wants_download(
                merge_downloads(builder, local, remote),
                second_downloads[i],
            ),
    ensures
        second_downloads.len() == 0,
{
    if second_downloads.len() > 0 {
        let r = second_downloads[0];
        lemma_sync_idempotent(builder, local, remote, r.id);
    }
}

/// Law: an id whose remote entry the policy marks `Delete` never appears in
/// the download set and, if installed, always appears in the removal set.
/// Holds of any lists with the characterizations that `get_to_download` and
/// `get_to_remove` ensure.
pub proof fn lemma_delete_disjoint(
    builder: DeltaBuilder,
    local: Map<u64, Resource>,
    remote: Map<u64, Resource>,
    downloads: Seq<Resource>,
    removals: Seq<Resource>,
    id: u64,
)
    requires
        remote.contains_key(id),
        builder.remote_marks_removed(remote[id]),
        forall|i: int|
            #![trigger downloads[i]]
            0 <= i < downloads.len() ==> remote.contains_key(downloads[i].id) && downloads[i]
                == remote[downloads[i].id] && builder.wants_download(local, downloads[i]),
        forall|other: u64|
            #![trigger local.contains_key(other)]
            local.contains_key(other) && builder.wants_removal(local, remote, other) ==> exists|i: int|
                0 <= i < removals.len() && removals[i].id == other,
    ensures
        !builder.wants_download(local, remote[id]),
        forall|i: int| 0 <= i < downloads.len() ==> (#[trigger] downloads[i]).id != id,
        local.contains_key(id) ==> builder.wants_removal(local, remote, id) && exists|i: int|
            0 <= i < removals.len() && removals[i].id == id,
{
}

} // verus!
