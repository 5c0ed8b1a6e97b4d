use p2p_client::paths::{canonicalized_path_to_string, get_export_path, PathError};

// `canonicalized_path_to_string`
#[test]
fn test_canonicalized_valid_relative_path() {
    let path = "foo/bar/baz.txt";
    assert_eq!(
        canonicalized_path_to_string(path, true).unwrap(),
        "foo/bar/baz.txt"
    );
}

#[test]
fn test_canonicalized_rejects_absolute_path() {
    let path = "/foo/bar";
    assert!(canonicalized_path_to_string(path, true).is_err());
}

#[test]
fn test_canonicalized_rejects_path_traversal() {
    let path = "../foo/bar";
    assert!(canonicalized_path_to_string(path, true).is_err());
}

#[test]
fn test_canonicalized_rejects_invalid_chars() {
    let path = "foo\\bar";
    assert!(canonicalized_path_to_string(path, true).is_err());
}

// `get_export_path`
#[test]
fn test_get_export_path_valid() {
    let root = "/tmp";
    let name = "dir/file.txt";
    let expected = "/tmp/dir/file.txt";
    assert_eq!(get_export_path(root, name).unwrap(), expected);
}

#[test]
fn test_get_export_path_rejects_traversal() {
    let root = "/tmp";
    let name = "../../etc/passwd";
    assert!(get_export_path(root, name).is_err());
}

#[test]
fn test_get_export_path_rejects_dot() {
    let root = "/tmp";
    let name = "./file.txt";
    assert!(get_export_path(root, name).is_err());
}

#[test]
fn test_get_export_path_rejects_backslash() {
    let root = "/tmp";
    let name = "dir\\file.txt";
    assert!(get_export_path(root, name).is_err());
}

// Round trip: a canonical relative name encodes to itself and decodes to
// exactly root/name.
#[test]
fn test_round_trip_canonical_name() {
    let name = canonicalized_path_to_string("sub/y.txt", true).unwrap();
    assert_eq!(name, "sub/y.txt");
    assert_eq!(get_export_path("/out", &name).unwrap(), "/out/sub/y.txt");
}

#[test]
fn test_encode_collapses_empty_components() {
    assert_eq!(
        canonicalized_path_to_string("foo//bar/", true).unwrap(),
        "foo/bar"
    );
}

#[test]
fn test_encode_empty_path() {
    assert_eq!(canonicalized_path_to_string("", true).unwrap(), "");
}

#[test]
fn test_encode_absolute_allowed_when_not_relative() {
    assert_eq!(
        canonicalized_path_to_string("/foo/bar", false).unwrap(),
        "foo/bar"
    );
}

#[test]
fn test_encode_rejects_inner_dot_component() {
    assert!(canonicalized_path_to_string("foo/./bar", true).is_err());
}

#[test]
fn test_encode_rejects_inner_parent_component() {
    assert!(canonicalized_path_to_string("foo/../bar", true).is_err());
}

#[test]
fn test_encode_error_is_invalid_component() {
    assert_eq!(
        canonicalized_path_to_string("..", true).unwrap_err(),
        PathError::InvalidPathComponent
    );
}

#[test]
fn test_export_rejects_dotdot_whatever_the_root() {
    for root in ["/tmp", "/", "relative", ""] {
        assert!(get_export_path(root, "a/../b").is_err());
        assert!(get_export_path(root, "..").is_err());
    }
}

#[test]
fn test_export_allows_dotfile_names() {
    assert_eq!(get_export_path("/r", ".hidden").unwrap(), "/r/.hidden");
}
