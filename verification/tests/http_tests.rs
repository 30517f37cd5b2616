//! Lifecycle tests: acceptor construction from real credentials, rotation
//! to a new credential, and rotation failure isolation.

use edgecache::http::{HttpServerLifecycle, TLSPayload, Error};

fn make_credential(cn: &str) -> TLSPayload {
    let rsa = openssl::rsa::Rsa::generate(2048).unwrap();
    let pkey = openssl::pkey::PKey::from_rsa(rsa).unwrap();
    let mut name = openssl::x509::X509NameBuilder::new().unwrap();
    name.append_entry_by_text("CN", cn).unwrap();
    let name = name.build();
    let mut builder = openssl::x509::X509::builder().unwrap();
    builder.set_version(2).unwrap();
    builder.set_subject_name(&name).unwrap();
    builder.set_issuer_name(&name).unwrap();
    builder.set_pubkey(&pkey).unwrap();
    builder
        .set_not_before(&openssl::asn1::Asn1Time::days_from_now(0).unwrap())
        .unwrap();
    builder
        .set_not_after(&openssl::asn1::Asn1Time::days_from_now(30).unwrap())
        .unwrap();
    builder
        .sign(&pkey, openssl::hash::MessageDigest::sha256())
        .unwrap();
    let cert = builder.build();
    TLSPayload {
        certificate: String::from_utf8(cert.to_pem().unwrap()).unwrap(),
        private_key: String::from_utf8(pkey.rsa().unwrap().private_key_to_pem().unwrap())
            .unwrap(),
    }
}

fn bad_credential() -> TLSPayload {
    TLSPayload {
        certificate: String::from("not a pem at all"),
        private_key: String::from("nor is this"),
    }
}

#[test]
fn acceptor_builds_from_valid_credential() {
    let cred = make_credential("localhost");
    assert!(HttpServerLifecycle::cert_payload_to_acceptor(&cred, true).is_ok());
    assert!(HttpServerLifecycle::cert_payload_to_acceptor(&cred, false).is_ok());
}

#[test]
fn acceptor_refuses_garbage_credential() {
    let cred = bad_credential();
    assert!(HttpServerLifecycle::cert_payload_to_acceptor(&cred, true).is_err());
}

#[test]
fn acceptor_refuses_garbage_private_key() {
    let mut cred = make_credential("localhost");
    cred.private_key = String::from("garbage key");
    assert!(HttpServerLifecycle::cert_payload_to_acceptor(&cred, true).is_err());
}

#[test]
fn acceptor_refuses_credential_without_certificate() {
    let mut cred = make_credential("localhost");
    // valid key, but no PEM block at all in the certificate text
    cred.certificate = String::from("nothing that looks like a certificate");
    assert!(HttpServerLifecycle::cert_payload_to_acceptor(&cred, true).is_err());
}

#[test]
fn acceptor_refuses_mismatched_key_and_chain() {
    let cert_of_one = make_credential("one.example");
    let key_of_other = make_credential("two.example");
    let mixed = TLSPayload {
        certificate: cert_of_one.certificate,
        private_key: key_of_other.private_key,
    };
    assert!(HttpServerLifecycle::cert_payload_to_acceptor(&mixed, true).is_err());
}

#[test]
fn rotation_to_mismatched_credential_leaves_no_listener() {
    let first = make_credential("first.example");
    let second = make_credential("second.example");
    let (mut server, _a) = HttpServerLifecycle::new(&first, true).expect("starts");
    let mixed = TLSPayload {
        certificate: first.certificate.clone(),
        private_key: second.private_key,
    };
    let rotated = server.respawn_with_new_cert(&mixed);
    assert!(matches!(rotated, Err(Error::Acceptor(_))));
    assert!(!server.is_running());
}

#[test]
fn new_server_runs_with_its_credential() {
    let cred = make_credential("localhost");
    let (server, _acceptor) = HttpServerLifecycle::new(&cred, true).expect("starts");
    assert!(server.is_running());
    assert_eq!(server.active_certificate(), Some(cred.certificate.as_str()));
}

#[test]
fn new_server_refuses_bad_credential() {
    let r = HttpServerLifecycle::new(&bad_credential(), true);
    assert!(matches!(r, Err(Error::Acceptor(_))));
}

#[test]
fn rotation_presents_the_new_credential_never_the_prior() {
    let first = make_credential("first.example");
    let second = make_credential("second.example");
    let (mut server, _a) = HttpServerLifecycle::new(&first, true).expect("starts");
    let rotated = server.respawn_with_new_cert(&second);
    assert!(rotated.is_ok());
    assert!(server.is_running());
    assert_eq!(server.active_certificate(), Some(second.certificate.as_str()));
    assert_ne!(server.active_certificate(), Some(first.certificate.as_str()));
}

#[test]
fn rotation_failure_leaves_no_listener() {
    let first = make_credential("first.example");
    let (mut server, _a) = HttpServerLifecycle::new(&first, true).expect("starts");
    let rotated = server.respawn_with_new_cert(&bad_credential());
    assert!(matches!(rotated, Err(Error::Acceptor(_))));
    assert!(!server.is_running());
    assert_eq!(server.active_certificate(), None);
}

#[test]
fn bind_failure_leaves_no_listener() {
    let cred = make_credential("localhost");
    let (mut server, _a) = HttpServerLifecycle::new(&cred, false).expect("starts");
    let e = server.bind_failed(String::from("address in use"));
    assert!(matches!(e, Error::Port(_)));
    assert!(!server.is_running());
}

#[test]
fn shutdown_stops_the_listener() {
    let cred = make_credential("localhost");
    let (mut server, _a) = HttpServerLifecycle::new(&cred, false).expect("starts");
    server.shutdown(true);
    assert!(!server.is_running());
    let (mut server2, _a) = HttpServerLifecycle::new(&cred, false).expect("starts");
    server2.shutdown(false);
    assert!(!server2.is_running());
}
