use std::collections::HashMap;

use beiwagen::config::parse_delta_action;
use beiwagen::delta_builder::DeltaAction;
use beiwagen::delta_builder::DeltaBuilder;
use beiwagen::resource::parse_category;
use beiwagen::resource::Resource;

fn to_map(input_vec: &Vec<Resource>) -> HashMap<u64, Resource> {
    let mut map = HashMap::new();
    for element in input_vec {
        map.insert(element.id, element.clone());
    }
    map
}

fn generate_resource(id: u64) -> Resource {
    generate_resource_with_prefix(id, "")
}

fn generate_resource_with_prefix(id: u64, prefix: &str) -> Resource {
    Resource {
        id,
        tag_id: id.to_string(),
        name: id.to_string(),
        version: 0,
        category: parse_category(prefix),
        filename: format!("{}.zip", id),
        download_url: "".to_string(),
    }
}

fn generate_resource_with_version(id: u64, version: u64) -> Resource {
    Resource {
        id,
        tag_id: id.to_string(),
        name: id.to_string(),
        version,
        category: parse_category(""),
        filename: format!("{}.zip", id),
        download_url: "".to_string(),
    }
}

fn ignore_all() -> DeltaBuilder {
    DeltaBuilder {
        unsupported: DeltaAction::Ignore,
        outdated: DeltaAction::Ignore,
    }
}

fn with_outdated(action: &str) -> DeltaBuilder {
    DeltaBuilder {
        unsupported: DeltaAction::Ignore,
        outdated: parse_delta_action(&Some(action.to_string())),
    }
}

fn with_unsupported(action: &str) -> DeltaBuilder {
    DeltaBuilder {
        unsupported: parse_delta_action(&Some(action.to_string())),
        outdated: DeltaAction::Ignore,
    }
}

fn assert_contains_exactly(actual: Vec<Resource>, expected: Vec<Resource>) {
    assert_eq!(
        actual.len(),
        expected.len(),
        "expected {} resources, got {}",
        expected.len(),
        actual.len()
    );
    for wanted in &expected {
        assert!(
            actual.iter().any(|r| r == wanted),
            "missing resource with id {}",
            wanted.id
        );
    }
}

#[test]
fn to_download_all() {
    let local: Vec<Resource> = vec![];
    let remote: Vec<Resource> = vec![generate_resource(1), generate_resource(2)];

    let to_download = ignore_all().get_to_download(&to_map(&local), &to_map(&remote));

    assert_contains_exactly(to_download, remote);
}

#[test]
fn to_download_one() {
    let local: Vec<Resource> = vec![generate_resource(1)];
    let remote: Vec<Resource> = vec![generate_resource(1), generate_resource(2)];

    let to_download = ignore_all().get_to_download(&to_map(&local), &to_map(&remote));

    assert_contains_exactly(to_download, vec![generate_resource(2)]);
}

#[test]
fn to_download_empty() {
    let local: Vec<Resource> = vec![generate_resource(1), generate_resource(2)];
    let remote: Vec<Resource> = vec![generate_resource(1), generate_resource(2)];

    let to_download = ignore_all().get_to_download(&to_map(&local), &to_map(&remote));

    assert_contains_exactly(to_download, vec![]);
}

#[test]
fn to_download_no_remote() {
    let local: Vec<Resource> = vec![generate_resource(1), generate_resource(2)];
    let remote: Vec<Resource> = vec![];

    let to_download = ignore_all().get_to_download(&to_map(&local), &to_map(&remote));

    assert_contains_exactly(to_download, vec![]);
}

#[test]
fn to_download_remote_newer() {
    let local: Vec<Resource> = vec![generate_resource_with_version(1, 1)];
    let remote: Vec<Resource> = vec![generate_resource_with_version(1, 2)];

    let to_download = ignore_all().get_to_download(&to_map(&local), &to_map(&remote));

    assert_contains_exactly(to_download, vec![generate_resource_with_version(1, 2)]);
}

#[test]
fn to_download_local_newer() {
    let local: Vec<Resource> = vec![generate_resource_with_version(1, 2)];
    let remote: Vec<Resource> = vec![generate_resource_with_version(1, 1)];

    let to_download = ignore_all().get_to_download(&to_map(&local), &to_map(&remote));

    assert_contains_exactly(to_download, vec![]);
}

#[test]
fn to_download_version_equal() {
    let local: Vec<Resource> = vec![generate_resource_with_version(1, 1)];
    let remote: Vec<Resource> = vec![generate_resource_with_version(1, 1)];

    let to_download = ignore_all().get_to_download(&to_map(&local), &to_map(&remote));

    assert_contains_exactly(to_download, vec![]);
}

#[test]
fn to_download_skip_outdated_on_skip() {
    let local: Vec<Resource> = vec![];
    let remote: Vec<Resource> = vec![generate_resource_with_prefix(1, "OUTDATED")];

    let to_download = with_outdated("skip").get_to_download(&to_map(&local), &to_map(&remote));

    assert_contains_exactly(to_download, vec![]);
}

#[test]
fn to_download_skip_outdated_on_delete() {
    let local: Vec<Resource> = vec![];
    let remote: Vec<Resource> = vec![generate_resource_with_prefix(1, "OUTDATED")];

    let to_download = with_outdated("delete").get_to_download(&to_map(&local), &to_map(&remote));

    assert_contains_exactly(to_download, vec![]);
}

#[test]
fn to_download_download_regular_on_outdated_skip() {
    let local: Vec<Resource> = vec![];
    let remote: Vec<Resource> = vec![generate_resource_with_prefix(1, "")];

    let to_download = with_outdated("skip").get_to_download(&to_map(&local), &to_map(&remote));

    assert_contains_exactly(to_download, vec![generate_resource_with_prefix(1, "")]);
}

#[test]
fn to_download_download_regular_on_outdated_delete() {
    let local: Vec<Resource> = vec![];
    let remote: Vec<Resource> = vec![generate_resource_with_prefix(1, "")];

    let to_download = with_outdated("delete").get_to_download(&to_map(&local), &to_map(&remote));

    assert_contains_exactly(to_download, vec![generate_resource_with_prefix(1, "")]);
}

#[test]
fn to_download_skip_unsupported_on_skip() {
    let local: Vec<Resource> = vec![];
    let remote: Vec<Resource> = vec![generate_resource_with_prefix(1, "UNSUPPORTED")];

    let to_download = with_unsupported("skip").get_to_download(&to_map(&local), &to_map(&remote));

    assert_contains_exactly(to_download, vec![]);
}

#[test]
fn to_download_download_regular_on_unsupported_skip() {
    let local: Vec<Resource> = vec![];
    let remote: Vec<Resource> = vec![generate_resource_with_prefix(1, "")];

    let to_download = with_unsupported("skip").get_to_download(&to_map(&local), &to_map(&remote));

    assert_contains_exactly(to_download, vec![generate_resource_with_prefix(1, "")]);
}

#[test]
fn to_download_download_regular_on_unsupported_delete() {
    let local: Vec<Resource> = vec![];
    let remote: Vec<Resource> = vec![generate_resource_with_prefix(1, "")];

    let to_download = with_unsupported("delete").get_to_download(&to_map(&local), &to_map(&remote));

    assert_contains_exactly(to_download, vec![generate_resource_with_prefix(1, "")]);
}

#[test]
fn to_download_skip_unsupported_on_delete() {
    let local: Vec<Resource> = vec![];
    let remote: Vec<Resource> = vec![generate_resource_with_prefix(1, "UNSUPPORTED")];

    let to_download = with_unsupported("delete").get_to_download(&to_map(&local), &to_map(&remote));

    assert_contains_exactly(to_download, vec![]);
}

#[test]
fn to_remove_empty_remote() {
    let local: Vec<Resource> = vec![generate_resource(1)];
    let remote: Vec<Resource> = vec![];

    let to_remove = ignore_all().get_to_remove(&to_map(&local), &to_map(&remote));

    assert_contains_exactly(to_remove, vec![generate_resource(1)]);
}

#[test]
fn to_remove_empty_local() {
    let local: Vec<Resource> = vec![];
    let remote: Vec<Resource> = vec![generate_resource(1)];

    let to_remove = ignore_all().get_to_remove(&to_map(&local), &to_map(&remote));

    assert_contains_exactly(to_remove, vec![]);
}

#[test]
fn to_remove_different_ids() {
    let local: Vec<Resource> = vec![generate_resource(1), generate_resource(2)];
    let remote: Vec<Resource> = vec![generate_resource(3), generate_resource(4)];

    let to_remove = ignore_all().get_to_remove(&to_map(&local), &to_map(&remote));

    assert_contains_exactly(to_remove, vec![generate_resource(1), generate_resource(2)]);
}

#[test]
fn to_remove_empty_local_remote() {
    let local: Vec<Resource> = vec![];
    let remote: Vec<Resource> = vec![];

    let to_remove = ignore_all().get_to_remove(&to_map(&local), &to_map(&remote));

    assert_contains_exactly(to_remove, vec![]);
}

#[test]
fn to_remove_local_outdated_skip() {
    let local: Vec<Resource> = vec![generate_resource(1)];
    let remote: Vec<Resource> = vec![generate_resource_with_prefix(1, "OUTDATED")];

    let to_remove = with_outdated("skip").get_to_remove(&to_map(&local), &to_map(&remote));

    assert_contains_exactly(to_remove, vec![]);
}

#[test]
fn to_remove_local_outdated_delete() {
    let local: Vec<Resource> = vec![generate_resource(1)];
    let remote: Vec<Resource> = vec![generate_resource_with_prefix(1, "OUTDATED")];

    let to_remove = with_outdated("delete").get_to_remove(&to_map(&local), &to_map(&remote));

    assert_contains_exactly(to_remove, vec![generate_resource(1)]);
}

#[test]
fn to_remove_local_unsupported_skip() {
    let local: Vec<Resource> = vec![generate_resource(1)];
    let remote: Vec<Resource> = vec![generate_resource_with_prefix(1, "UNSUPPORTED")];

    let to_remove = with_unsupported("skip").get_to_remove(&to_map(&local), &to_map(&remote));

    assert_contains_exactly(to_remove, vec![]);
}

#[test]
fn to_remove_local_unsupported_delete() {
    let local: Vec<Resource> = vec![generate_resource(1)];
    let remote: Vec<Resource> = vec![generate_resource_with_prefix(1, "UNSUPPORTED")];

    let to_remove = with_unsupported("delete").get_to_remove(&to_map(&local), &to_map(&remote));

    assert_contains_exactly(to_remove, vec![generate_resource(1)]);
}
