use passcore::digests::{base64, bcrypt, md5, sha1, sha224, sha256, sha384, sha512};
use passcore::errors::PassError;

#[test]
fn md5_known_value() {
    assert_eq!(md5("password"), "5f4dcc3b5aa765d61d8327deb882cf99");
    assert_eq!(md5(""), "d41d8cd98f00b204e9800998ecf8427e");
}

#[test]
fn sha1_known_value() {
    assert_eq!(sha1("password"), "5baa61e4c9b93f3f0682250b6cf8331b7ee68fd8");
}

#[test]
fn sha224_known_value() {
    assert_eq!(
        sha224("password"),
        "d63dc919e201d7bc4c825630d2cf25fdc93d4b2f0d46706d29038d01"
    );
}

#[test]
fn sha256_known_value() {
    assert_eq!(
        sha256("password"),
        "5e884898da28047151d0e56f8dc6292773603d0d6aabbdd62a11ef721d1542d8"
    );
}

#[test]
fn sha384_known_value() {
    assert_eq!(
        sha384("password"),
        "a8b64babd0aca91a59bdbb7761b421d4f2bb38280d3a75ba0f21f2bebc45583d446c598660c94ce680c47d19c30783a7"
    );
}

#[test]
fn sha512_known_value() {
    assert_eq!(
        sha512("password"),
        "b109f3bbbc244eb82441917ed06d618b9008dd09b3befd1b5e07394c706a8bb980b1d7785e5976ec049b46df5f1326af5a2ea6d103fd07c95385ffab0cacbc86"
    );
}

#[test]
fn base64_known_values() {
    assert_eq!(base64("password"), "cGFzc3dvcmQ=");
    assert_eq!(base64(""), "");
    assert_eq!(base64("a"), "YQ==");
    assert_eq!(base64("ab"), "YWI=");
    assert_eq!(base64("abc"), "YWJj");
}

#[test]
fn bcrypt_hashes_and_verifies_shape() {
    let h = bcrypt("password", 4).unwrap();
    assert_eq!(h.len(), 60);
    assert!(h.starts_with("$2"));
}

#[test]
fn bcrypt_rejects_bad_cost() {
    assert_eq!(bcrypt("password", 3), Err(PassError::CostNotAllowed));
    assert_eq!(bcrypt("password", 32), Err(PassError::CostNotAllowed));
    assert!(bcrypt("password", 4).is_ok());
}
