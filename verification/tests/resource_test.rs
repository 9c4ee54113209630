use beiwagen::resource::eq_ignore_ascii_case;
use beiwagen::resource::parse_category;
use beiwagen::resource::Category;
use beiwagen::resource::Resource;

fn resource(id: u64, version: u64, name: &str) -> Resource {
    Resource {
        id,
        tag_id: "tag".to_string(),
        name: name.to_string(),
        version,
        category: Category::Regular,
        filename: "file.zip".to_string(),
        download_url: "".to_string(),
    }
}

#[test]
fn the_category_label_is_read_case_insensitively() {
    assert_eq!(parse_category("Outdated"), Category::Outdated);
    assert_eq!(parse_category("OUTDATED"), Category::Outdated);
    assert_eq!(parse_category("outdated"), Category::Outdated);
    assert_eq!(parse_category("Unsupported"), Category::Unsupported);
    assert_eq!(parse_category("uNsUpPoRtEd"), Category::Unsupported);
    assert_eq!(parse_category(""), Category::Regular);
    assert_eq!(parse_category("Released"), Category::Regular);
    assert_eq!(parse_category("Outdated!"), Category::Regular);
}

#[test]
fn case_insensitive_comparison_folds_ascii_letters_only() {
    assert!(eq_ignore_ascii_case("Skip", "sKIP"));
    assert!(eq_ignore_ascii_case("", ""));
    assert!(!eq_ignore_ascii_case("skip", "skipped"));
    assert!(!eq_ignore_ascii_case("a_b", "a-b"));
}

#[test]
fn the_id_is_the_sole_identity_of_a_resource() {
    assert_eq!(resource(1, 0, "one"), resource(1, 9, "another name"));
    assert_ne!(resource(1, 0, "same name"), resource(2, 0, "same name"));
}

#[test]
fn cloning_keeps_every_field() {
    let original_record = resource(7, 3, "seven");
    let cloned_record = original_record.clone();
    assert_eq!(cloned_record.id, 7);
    assert_eq!(cloned_record.version, 3);
    assert_eq!(cloned_record.name, "seven".to_string());
    assert_eq!(cloned_record.tag_id, original_record.tag_id);
    assert_eq!(cloned_record.filename, original_record.filename);
}
