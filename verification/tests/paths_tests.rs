use sendme::errors::ShareError;
use sendme::paths::{
    canonicalized_path_to_string, get_export_path, split_name, validate_path_component, PathPart,
};

fn normal(s: &str) -> PathPart {
    PathPart::Normal(s.to_string())
}

#[test]
fn single_name_is_its_own_canonical_form() {
    let parts = vec![normal("photo.jpg")];
    let r = canonicalized_path_to_string(&parts, true).unwrap();
    assert_eq!(r, "photo.jpg");
}

#[test]
fn nested_names_join_with_slash() {
    let parts = vec![normal("album"), normal("sub"), normal("b.txt")];
    let r = canonicalized_path_to_string(&parts, true).unwrap();
    assert_eq!(r, "album/sub/b.txt");
}

#[test]
fn parent_marker_fails_with_invalid_path() {
    let parts = vec![normal("a"), PathPart::ParentMarker, normal("b")];
    let r = canonicalized_path_to_string(&parts, true);
    assert_eq!(r, Err(ShareError::InvalidPath));
}

#[test]
fn dot_dot_spelled_as_name_fails_with_invalid_path() {
    let parts = vec![normal("a"), normal(".."), normal("b")];
    let r = canonicalized_path_to_string(&parts, true);
    assert_eq!(r, Err(ShareError::InvalidPath));
}

#[test]
fn current_marker_fails_with_invalid_path() {
    let parts = vec![PathPart::CurrentMarker, normal("a")];
    let r = canonicalized_path_to_string(&parts, true);
    assert_eq!(r, Err(ShareError::InvalidPath));
}

#[test]
fn non_unicode_segment_fails_with_invalid_path() {
    let parts = vec![PathPart::NonUnicode];
    let r = canonicalized_path_to_string(&parts, true);
    assert_eq!(r, Err(ShareError::InvalidPath));
}

#[test]
fn embedded_forward_slash_fails_with_invalid_path() {
    let parts = vec![normal("a/b")];
    let r = canonicalized_path_to_string(&parts, true);
    assert_eq!(r, Err(ShareError::InvalidPath));
}

#[test]
fn embedded_backslash_fails_with_invalid_path() {
    let parts = vec![normal("a\\b")];
    let r = canonicalized_path_to_string(&parts, false);
    assert_eq!(r, Err(ShareError::InvalidPath));
}

#[test]
fn root_marker_accepted_when_not_relative() {
    let parts = vec![PathPart::RootMarker, normal("etc"), normal("hosts")];
    let r = canonicalized_path_to_string(&parts, false).unwrap();
    assert_eq!(r, "/etc/hosts");
}

#[test]
fn root_marker_rejected_when_relative_required() {
    let parts = vec![PathPart::RootMarker, normal("etc"), normal("hosts")];
    let r = canonicalized_path_to_string(&parts, true);
    assert_eq!(r, Err(ShareError::InvalidPath));
}

#[test]
fn empty_sequence_gives_empty_name() {
    let parts: Vec<PathPart> = vec![];
    let r = canonicalized_path_to_string(&parts, true).unwrap();
    assert_eq!(r, "");
}

#[test]
fn canonicalization_is_a_fixed_point() {
    let parts = vec![normal("album"), normal("sub"), normal("b.txt")];
    let once = canonicalized_path_to_string(&parts, true).unwrap();
    let reparsed: Vec<PathPart> = split_name(&once)
        .into_iter()
        .map(PathPart::Normal)
        .collect();
    let twice = canonicalized_path_to_string(&reparsed, true).unwrap();
    assert_eq!(once, twice);
}

#[test]
fn split_name_cuts_at_every_slash() {
    assert_eq!(split_name("album/sub/b.txt"), vec!["album", "sub", "b.txt"]);
    assert_eq!(split_name("photo.jpg"), vec!["photo.jpg"]);
    assert_eq!(split_name(""), vec![""]);
    assert_eq!(split_name("a//b"), vec!["a", "", "b"]);
}

#[test]
fn validate_path_component_accepts_plain_segments() {
    assert_eq!(validate_path_component("a.txt"), Ok(()));
    assert_eq!(validate_path_component("with space"), Ok(()));
}

#[test]
fn validate_path_component_rejects_separators_and_markers() {
    assert_eq!(validate_path_component("a/b"), Err(ShareError::InvalidPath));
    assert_eq!(validate_path_component("a\\b"), Err(ShareError::InvalidPath));
    assert_eq!(validate_path_component("."), Err(ShareError::InvalidPath));
    assert_eq!(validate_path_component(".."), Err(ShareError::InvalidPath));
    assert_eq!(validate_path_component(""), Err(ShareError::InvalidPath));
}

#[test]
fn empty_segment_in_a_name_fails_with_invalid_path() {
    let parts = vec![normal("a"), normal(""), normal("b")];
    let r = canonicalized_path_to_string(&parts, true);
    assert_eq!(r, Err(ShareError::InvalidPath));
}

#[test]
fn export_path_rejects_doubled_separators() {
    // "a//b" and "a/b" would otherwise land on the same destination
    assert_eq!(get_export_path("/dest", "a//b"), Err(ShareError::InvalidPath));
    assert_eq!(get_export_path("/dest", "a/b/"), Err(ShareError::InvalidPath));
}

#[test]
fn export_path_joins_validated_name_onto_root() {
    let p = get_export_path("/dest", "album/a.txt").unwrap();
    assert_eq!(p, "/dest/album/a.txt");
}

#[test]
fn export_path_rejects_escaping_name() {
    let r = get_export_path("/dest", "../secret");
    assert_eq!(r, Err(ShareError::InvalidPath));
}
