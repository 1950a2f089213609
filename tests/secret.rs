use hmac::{Hmac, Mac};
use multihook::secret_validation::{
    GithubSecretValidator, HMacSecretValidator, Header, SecretFormat, SecretValidator,
};
use sha2::Sha256;

fn signature(secret: &[u8], body: &[u8]) -> String {
    let mut mac = <Hmac<Sha256> as Mac>::new_from_slice(secret).unwrap();
    mac.update(body);
    hex::encode(mac.finalize().into_bytes())
}

fn header(name: &str, value: &str) -> Header {
    (String::from(name), value.as_bytes().to_vec())
}

#[test]
fn tagged_signature_validates() {
    let body = br#"{"ref":"main"}"#;
    let sig = format!("sha256={}", signature(b"s3cret", body));
    let headers = vec![header("x-hub-signature-256", &sig)];
    assert!(HMacSecretValidator.validate(&headers, body, b"s3cret"));
}

#[test]
fn bare_signature_validates_in_any_vendor_header() {
    let body = b"payload";
    let sig = signature(b"k", body);
    for name in ["X-Gitea-Signature", "x-gogs-signature", "X-FORGEJO-SIGNATURE"] {
        let headers = vec![header("content-type", "text/plain"), header(name, &sig)];
        assert!(HMacSecretValidator.validate(&headers, body, b"k"), "{}", name);
    }
}

#[test]
fn uppercase_hex_validates() {
    let body = b"payload";
    let sig = signature(b"k", body).to_uppercase();
    let headers = vec![header("x-gitea-signature", &sig)];
    assert!(HMacSecretValidator.validate(&headers, body, b"k"));
}

#[test]
fn mutated_body_or_secret_fails() {
    let body = b"payload".to_vec();
    let sig = signature(b"k", &body);
    let headers = vec![header("x-hub-signature-256", &sig)];
    let mut flipped = body.clone();
    flipped[0] ^= 1;
    assert!(!HMacSecretValidator.validate(&headers, &flipped, b"k"));
    assert!(!HMacSecretValidator.validate(&headers, &body, b"j"));
    assert!(HMacSecretValidator.validate(&headers, &body, b"k"));
}

#[test]
fn missing_signature_header_fails() {
    let headers = vec![header("content-type", "application/json")];
    assert!(!HMacSecretValidator.validate(&headers, b"x", b"k"));
    assert!(!HMacSecretValidator.validate(&vec![], b"x", b"k"));
}

#[test]
fn undecodable_signature_fails() {
    let body = b"payload";
    let mut sig = signature(b"k", body);
    sig.pop();
    let headers = vec![header("x-hub-signature-256", &sig)];
    assert!(!HMacSecretValidator.validate(&headers, body, b"k"));
    let headers = vec![header("x-hub-signature-256", "zz")];
    assert!(!HMacSecretValidator.validate(&headers, body, b"k"));
}

#[test]
fn non_text_header_value_fails() {
    let body = b"payload";
    let mut value = signature(b"k", body).into_bytes();
    value.push(0x80);
    let headers = vec![(String::from("x-hub-signature-256"), value)];
    assert!(!HMacSecretValidator.validate(&headers, body, b"k"));
}

#[test]
fn first_signature_header_decides() {
    let body = b"payload";
    let good = signature(b"k", body);
    let headers = vec![header("x-gitea-signature", "00"), header("x-hub-signature-256", &good)];
    assert!(!HMacSecretValidator.validate(&headers, body, b"k"));
}

#[test]
fn github_validator_reads_its_own_header() {
    let body = b"payload";
    let sig = signature(b"k", body);
    let headers = vec![header("X-Hub-Signature-256", &sig)];
    assert!(GithubSecretValidator.validate(&headers, body, b"k"));
    let tagged = vec![header("x-hub-signature-256", &format!("sha256={}", sig))];
    assert!(GithubSecretValidator.validate(&tagged, body, b"k"));
    assert!(!GithubSecretValidator.validate(&tagged, b"other", b"k"));
    let other = vec![header("x-gitea-signature", &sig)];
    assert!(!GithubSecretValidator.validate(&other, body, b"k"));
}

#[test]
fn hmac_format_gives_hmac_validator() {
    let body = b"b";
    let sig = signature(b"k", body);
    let headers = vec![header("x-gogs-signature", &sig)];
    assert!(SecretFormat::HMac.validator().validate(&headers, body, b"k"));
}
