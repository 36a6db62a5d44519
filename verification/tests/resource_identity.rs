use lattice::platform::host_path::HostPath;
use lattice::platform::model::{HostPlatform, PathError, StudioEnvironmentId};
use lattice::platform::wine_path::WinePath;
use lattice::resource::{ContentHash, LatticeId, ResourceKind, ResourceRef, ResourceRefError};

#[test]
fn paths_are_rejected_as_identity() {
    assert!(ResourceRef::parse("rbx://workspace/game.ReplicatedStorage/script/foo").is_err());
}

#[test]
fn hashes_are_prefixed_and_round_trip() {
    let hash = ContentHash::of(b"inventory");
    assert_eq!(ContentHash::from_hex(&hash.to_text()), Ok(hash));
    assert!(hash.to_text().starts_with("b3:"));
    assert_eq!(hash.to_text(), format!("b3:{}", hash.to_hex()));
}

#[test]
fn content_hash_is_the_blake3_digest() {
    let hash = ContentHash::of(b"abc");
    assert_eq!(
        hash.to_hex(),
        "6437b3ac38465133ffb63b75273a8db548c558465d79db03fd359c6cd5bd9d85"
    );
    assert_eq!(ContentHash::from_hex(&hash.to_hex()), Ok(hash));
}

#[test]
fn malformed_hashes_are_rejected() {
    assert!(matches!(ContentHash::from_hex("b3:zz"), Err(ResourceRefError::InvalidContentHash(_))));
    assert!(matches!(ContentHash::from_hex(""), Err(ResourceRefError::InvalidContentHash(_))));
}

#[test]
fn resource_wire_form_is_the_canonical_uri() {
    let reference = ResourceRef::workspace(LatticeId::new(), ResourceKind::Script, LatticeId::new());
    let wire = reference.to_text();
    assert!(wire.starts_with("rbx://workspace/"));
    assert_eq!(ResourceRef::parse(&wire), Ok(reference));
}

#[test]
fn studio_references_round_trip() {
    let session = LatticeId::from_bytes([7; 16]);
    let entity = LatticeId::from_bytes([9; 16]);
    let reference = ResourceRef::studio(session, ResourceKind::Script, entity);
    assert_eq!(ResourceRef::parse(&reference.to_text()), Ok(reference));
}

#[test]
fn lattice_ids_round_trip_through_text() {
    let id = LatticeId::from_bytes([0x12; 16]);
    assert_eq!(LatticeId::parse(&id.to_text()), Some(id));
    assert_eq!(LatticeId::parse("not-a-uuid"), None);
}

#[test]
fn resource_kinds_keep_unknown_names() {
    assert_eq!(ResourceKind::from_text("script"), ResourceKind::Script);
    assert_eq!(ResourceKind::from_text("script").as_str(), "script");
    let other = ResourceKind::from_text("custom-kind");
    assert_eq!(other.as_str(), "custom-kind");
}

#[test]
fn wine_path_rejects_traversal_and_unc() {
    assert_eq!(WinePath::parse(r"C:\safe\..\escape"), Err(PathError::Traversal));
    assert_eq!(WinePath::parse(r"\\server\share"), Err(PathError::UnsupportedUnc));
}

#[test]
fn comparison_is_namespace_and_platform_aware() {
    let upper = HostPath::new("C:/Users/Player/Roblox");
    let lower = HostPath::new("c:/users/player/roblox");
    assert!(upper.equivalent_on(&lower, HostPlatform::Windows));
    assert!(!upper.equivalent_on(&lower, HostPlatform::Linux));
    let guest_upper = WinePath::parse(r"C:\Users\Player\Roblox").expect("guest path");
    let guest_lower = WinePath::parse(r"c:\users\player\roblox").expect("guest path");
    assert!(guest_upper.equivalent_guest(&guest_lower));
}

#[test]
fn host_path_lexical_normalization_does_not_require_existence() {
    assert_eq!(HostPath::new("/not-created/./child/../result"), HostPath::new("/not-created/result"));
}

#[test]
fn identifiers_are_stable_and_serializable() {
    let first = StudioEnvironmentId::from_fingerprint(b"vinegar:/example");
    let second = StudioEnvironmentId::from_fingerprint(b"vinegar:/example");
    assert_eq!(first, second);
    let encoded = first.to_text();
    assert_eq!(StudioEnvironmentId::parse(&encoded), Some(first));
}

#[test]
fn wine_path_parse_display_round_trip() {
    let original = WinePath::from_parts('D', vec!["Games".to_owned(), "place_1".to_owned()]);
    assert_eq!(original.to_text(), r"D:\Games\place_1");
    assert_eq!(WinePath::parse(&original.to_text()), Ok(original));
}

#[test]
fn host_path_join_and_parent() {
    let root = HostPath::new("/a/b");
    assert_eq!(root.join("c/d").to_text(), "/a/b/c/d");
    assert_eq!(root.join("/x").to_text(), "/x");
    assert_eq!(root.join("../c").to_text(), "/a/c");
    assert_eq!(root.parent(), Some(HostPath::new("/a")));
    assert!(root.join("c").starts_with(&root));
    assert_eq!(root.join("c").strip_prefix(&root), Some(HostPath::new("c")));
}

#[test]
fn fresh_identifiers_are_version_seven_uuids() {
    let first = LatticeId::new();
    let second = LatticeId::new();
    let bytes = first.as_bytes();
    assert_eq!(bytes[6] >> 4, 7);
    assert_eq!(bytes[8] >> 6, 2);
    assert_eq!(first.to_text().chars().nth(14), Some('7'));
    assert!(!first.same(&second));
}
