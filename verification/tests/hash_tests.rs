use libra_core::hash::{
    calc_file_blob_hash, decimal_digits, hash_object, object_preimage, ContentHash, ObjectKind,
};

#[test]
fn blob_hash_matches_git() {
    let hash = hash_object(ObjectKind::Blob, b"hello world");
    assert_eq!(hash.to_hex(), "95d09f2b10159347eece71399a7e2e907ea3df4f");
    let hash = hash_object(ObjectKind::Blob, b"what is up, doc?");
    assert_eq!(hash.to_hex(), "bd9dbf5aae1a3862dd1526723246b20206e5fc37");
}

#[test]
fn empty_objects_hash_as_git_does() {
    assert_eq!(
        hash_object(ObjectKind::Blob, b"").to_hex(),
        "e69de29bb2d1d6434b8b29ae775ad8c2e48c5391"
    );
    assert_eq!(
        hash_object(ObjectKind::Tree, b"").to_hex(),
        "4b825dc642cb6eb9a060e54bf8d69288fbee4904"
    );
}

#[test]
fn hash_is_deterministic() {
    let data = vec![7u8; 300];
    assert_eq!(hash_object(ObjectKind::Commit, &data), hash_object(ObjectKind::Commit, &data));
}

#[test]
fn kinds_hash_apart() {
    let data = b"same bytes";
    let kinds = [ObjectKind::Blob, ObjectKind::Tree, ObjectKind::Commit, ObjectKind::Tag];
    for (i, a) in kinds.iter().enumerate() {
        for (j, b) in kinds.iter().enumerate() {
            if i != j {
                assert_ne!(hash_object(*a, data), hash_object(*b, data));
            }
        }
    }
}

#[test]
fn file_blob_hash_is_blob_hash() {
    assert_eq!(calc_file_blob_hash(b"hello world"), hash_object(ObjectKind::Blob, b"hello world"));
    assert_ne!(calc_file_blob_hash(b"hello world"), hash_object(ObjectKind::Tree, b"hello world"));
}

#[test]
fn preimage_frames_kind_length_and_bytes() {
    assert_eq!(object_preimage(ObjectKind::Blob, b"abc"), b"blob 3\0abc".to_vec());
    assert_eq!(object_preimage(ObjectKind::Tree, b""), b"tree 0\0".to_vec());
    assert_eq!(object_preimage(ObjectKind::Commit, b"0123456789"), b"commit 10\x000123456789".to_vec());
    assert_eq!(object_preimage(ObjectKind::Tag, b"x"), b"tag 1\0x".to_vec());
}

#[test]
fn decimal_digits_of_lengths() {
    assert_eq!(decimal_digits(0), b"0".to_vec());
    assert_eq!(decimal_digits(9), b"9".to_vec());
    assert_eq!(decimal_digits(10), b"10".to_vec());
    assert_eq!(decimal_digits(1234567890), b"1234567890".to_vec());
}

#[test]
fn kind_names() {
    assert_eq!(ObjectKind::Blob.name(), b"blob".to_vec());
    assert_eq!(ObjectKind::Tree.name(), b"tree".to_vec());
    assert_eq!(ObjectKind::Commit.name(), b"commit".to_vec());
    assert_eq!(ObjectKind::Tag.name(), b"tag".to_vec());
    assert_eq!(ObjectKind::Commit.label(), "commit");
    assert_eq!(ObjectKind::Tag.label(), "tag");
}

#[test]
fn hex_text_of_a_hash() {
    let mut bytes = [0u8; 20];
    bytes[0] = 0x0f;
    bytes[1] = 0xa5;
    bytes[19] = 0xff;
    let hash = ContentHash { bytes };
    assert_eq!(hash.to_hex(), "0fa50000000000000000000000000000000000ff");
    assert!(hash.same_as(&ContentHash { bytes }));
    assert!(!hash.same_as(&ContentHash { bytes: [0u8; 20] }));
    assert_eq!(ContentHash { bytes: [0u8; 20] }.to_hex(), "0000000000000000000000000000000000000000");
}
