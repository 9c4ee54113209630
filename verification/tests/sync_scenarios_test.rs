use std::collections::HashMap;

use beiwagen::delta_builder::DeltaAction;
use beiwagen::delta_builder::DeltaBuilder;
use beiwagen::resource::parse_category;
use beiwagen::resource::Resource;

fn resource(id: u64, version: u64, prefix: &str) -> Resource {
    Resource {
        id,
        tag_id: id.to_string(),
        name: id.to_string(),
        version,
        category: parse_category(prefix),
        filename: format!("{}.zip", id),
        download_url: "".to_string(),
    }
}

fn catalog(entries: Vec<Resource>) -> HashMap<u64, Resource> {
    let mut map = HashMap::new();
    for element in entries {
        map.insert(element.id, element);
    }
    map
}

fn ids(list: &Vec<Resource>) -> Vec<u64> {
    let mut ids: Vec<u64> = list.iter().map(|r| r.id).collect();
    ids.sort();
    ids
}

#[test]
fn fresh_install_downloads_everything_and_removes_nothing() {
    let builder = DeltaBuilder {
        unsupported: DeltaAction::Ignore,
        outdated: DeltaAction::Ignore,
    };
    let local = catalog(vec![]);
    let remote = catalog(vec![resource(1, 0, ""), resource(2, 0, "")]);

    assert_eq!(ids(&builder.get_to_download(&local, &remote)), vec![1, 2]);
    assert_eq!(ids(&builder.get_to_remove(&local, &remote)), Vec::<u64>::new());
}

#[test]
fn only_the_missing_resource_is_downloaded() {
    let builder = DeltaBuilder {
        unsupported: DeltaAction::Ignore,
        outdated: DeltaAction::Ignore,
    };
    let local = catalog(vec![resource(1, 0, "")]);
    let remote = catalog(vec![resource(1, 0, ""), resource(2, 0, "")]);

    assert_eq!(ids(&builder.get_to_download(&local, &remote)), vec![2]);
}

#[test]
fn version_ordering_decides_the_download() {
    let builder = DeltaBuilder {
        unsupported: DeltaAction::Ignore,
        outdated: DeltaAction::Ignore,
    };

    let newer_remote = builder.get_to_download(
        &catalog(vec![resource(1, 1, "")]),
        &catalog(vec![resource(1, 2, "")]),
    );
    assert_eq!(ids(&newer_remote), vec![1]);
    assert_eq!(newer_remote[0].version, 2);

    let older_remote = builder.get_to_download(
        &catalog(vec![resource(1, 2, "")]),
        &catalog(vec![resource(1, 1, "")]),
    );
    assert_eq!(ids(&older_remote), Vec::<u64>::new());

    let equal_versions = builder.get_to_download(
        &catalog(vec![resource(1, 1, "")]),
        &catalog(vec![resource(1, 1, "")]),
    );
    assert_eq!(ids(&equal_versions), Vec::<u64>::new());
}

#[test]
fn skipped_outdated_resource_is_never_downloaded() {
    let builder = DeltaBuilder {
        unsupported: DeltaAction::Ignore,
        outdated: DeltaAction::Skip,
    };
    let local = catalog(vec![]);
    let remote = catalog(vec![resource(1, 0, "Outdated")]);

    assert_eq!(ids(&builder.get_to_download(&local, &remote)), Vec::<u64>::new());
    assert_eq!(ids(&builder.get_to_remove(&local, &remote)), Vec::<u64>::new());
}

#[test]
fn deleted_outdated_resource_is_removed_not_downloaded() {
    let builder = DeltaBuilder {
        unsupported: DeltaAction::Ignore,
        outdated: DeltaAction::Delete,
    };
    let local = catalog(vec![resource(1, 0, "")]);
    let remote = catalog(vec![resource(1, 0, "Outdated")]);

    assert_eq!(ids(&builder.get_to_download(&local, &remote)), Vec::<u64>::new());
    assert_eq!(ids(&builder.get_to_remove(&local, &remote)), vec![1]);
}

#[test]
fn unwanted_resources_are_removed_whatever_the_policy() {
    let builder = DeltaBuilder {
        unsupported: DeltaAction::Skip,
        outdated: DeltaAction::Delete,
    };
    let local = catalog(vec![resource(1, 0, ""), resource(2, 0, "")]);
    let remote = catalog(vec![]);

    assert_eq!(ids(&builder.get_to_remove(&local, &remote)), vec![1, 2]);
}

#[test]
fn merging_the_downloads_makes_a_second_pass_empty() {
    let builder = DeltaBuilder {
        unsupported: DeltaAction::Skip,
        outdated: DeltaAction::Ignore,
    };
    let mut local = catalog(vec![resource(1, 1, ""), resource(3, 7, "")]);
    let remote = catalog(vec![
        resource(1, 2, ""),
        resource(2, 5, ""),
        resource(3, 7, ""),
        resource(4, 1, "Unsupported"),
    ]);

    let first_pass = builder.get_to_download(&local, &remote);
    assert_eq!(ids(&first_pass), vec![1, 2]);
    for fetched in first_pass {
        local.insert(fetched.id, fetched);
    }

    let second_pass = builder.get_to_download(&local, &remote);
    assert_eq!(ids(&second_pass), Vec::<u64>::new());
}
