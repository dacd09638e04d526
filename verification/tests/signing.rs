use adminapi::api::{new_object_endpoint, request_api, signed_request, Request};
use adminapi::auth::{calculate_app_id, calculate_security_token, sign_body};
use adminapi::config::{Config, SigningMode};
use adminapi::error::Error;
use adminapi::ssh::{
    base64_capacity, encode_signature, key_material, probe_step, Identity, ProbeAction, ProbeEvent,
    ProbeState, SshSigner, PROBE_MESSAGE,
};
use signature::{Signer, Verifier};
use ssh_key::private::{Ed25519Keypair, KeypairData, OpaqueKeypair};
use ssh_key::public::OpaquePublicKey;
use ssh_key::{Algorithm, AlgorithmName, Certificate, PrivateKey, PublicKey, Signature};

fn header<'a>(request: &'a Request, name: &str) -> Option<&'a str> {
    request
        .headers
        .iter()
        .find(|(key, _)| key == name)
        .map(|(_, value)| value.as_str())
}

fn names(request: &Request) -> Vec<&str> {
    request.headers.iter().map(|(key, _)| key.as_str()).collect()
}

fn token_config(token: Option<&str>) -> Config {
    Config::build(
        "https://serveradmin.example.com/api/",
        None,
        token.map(|t| t.to_string()),
    )
}

fn test_key() -> PrivateKey {
    PrivateKey::from(Ed25519Keypair::from_seed(&[7u8; 32]))
}

fn decode_signature(encoded: &str) -> Signature {
    let mut reader = ssh_encoding::Base64Reader::new(encoded.as_bytes()).unwrap();
    ssh_encoding::Decode::decode(&mut reader).unwrap()
}

fn verifies(public: &PublicKey, message: &[u8], signature: &Signature) -> bool {
    Verifier::verify(public, message, signature).is_ok()
}

#[test]
fn signing_input_is_timestamp_colon_body() {
    assert_eq!(sign_body(1000, "{}"), "1000:{}");
    assert_eq!(sign_body(0, ""), "0:");
    assert_eq!(sign_body(u64::MAX, "x"), "18446744073709551615:x");
    assert_eq!(sign_body(10, "a:b"), "10:a:b");
}

#[test]
fn security_token_is_hex_of_hmac_sha1() {
    let token = "t".to_string();
    assert_eq!(
        calculate_security_token(&token, "1000:{}"),
        "11bc1f87012c503cf5f85c2977cc6fc6a34efca3"
    );
    assert_eq!(
        calculate_security_token(&"secret".to_string(), "1700000000:{\"a\":1}"),
        "49711ed8c176d591c01ecdda64c91aace042da86"
    );
    assert_eq!(
        calculate_security_token(&String::new(), "0:"),
        "38c50b90463c8b7935cb59798ea17a317135798b"
    );
    assert_eq!(
        calculate_security_token(&"schl\u{fc}ssel".to_string(), "1:\u{e4}"),
        "257bb8563d7149f1bfbdb3a6adf4f0ba17c774ef"
    );
    assert_eq!(
        calculate_security_token(&"k".repeat(100), "5:x"),
        "472e664a1fd417363fc5beb446d593bdb594ad86"
    );
}

#[test]
fn app_id_is_hex_of_sha1() {
    assert_eq!(
        calculate_app_id(&"t".to_string()),
        "8efd86fb78a56a5145ed7739dcb00c78581c5375"
    );
    assert_eq!(
        calculate_app_id(&"secret".to_string()),
        "e5e9fa1ba31ecd1ae84f75caaa474f3a663f05f4"
    );
    assert_eq!(
        calculate_app_id(&String::new()),
        "da39a3ee5e6b4b0d3255bfef95601890afd80709"
    );
    assert_eq!(
        calculate_app_id(&"schl\u{fc}ssel".to_string()),
        "36d2e84746c5c1e130f1738ef134710d34f11a82"
    );
}

#[test]
fn token_request_carries_the_hmac_headers() {
    let config = token_config(Some("t"));
    let request = request_api("/api/dataset/query", "{}".to_string(), &config, 1000, None).unwrap();
    assert_eq!(request.url, "https://serveradmin.example.com/api/dataset/query");
    assert_eq!(request.body, "{}");
    assert_eq!(
        request.headers,
        vec![
            ("Content-Type".to_string(), "application/json".to_string()),
            ("X-Timestamp".to_string(), "1000".to_string()),
            ("X-API-Version".to_string(), "4.9.0".to_string()),
            (
                "X-SecurityToken".to_string(),
                "11bc1f87012c503cf5f85c2977cc6fc6a34efca3".to_string()
            ),
            (
                "X-Application".to_string(),
                "8efd86fb78a56a5145ed7739dcb00c78581c5375".to_string()
            ),
        ]
    );
}

#[test]
fn app_id_header_does_not_depend_on_time_or_body() {
    let config = token_config(Some("t"));
    let first = request_api("/a", "{}".to_string(), &config, 1000, None).unwrap();
    let second = request_api("/b", "[1,2]".to_string(), &config, 2000, None).unwrap();
    assert_eq!(header(&first, "X-Application"), header(&second, "X-Application"));
    assert_ne!(header(&first, "X-SecurityToken"), header(&second, "X-SecurityToken"));
    assert_eq!(header(&second, "X-Timestamp"), Some("2000"));
}

#[test]
fn a_session_without_token_signs_with_the_empty_secret() {
    let config = token_config(None);
    let request = request_api("/x", "".to_string(), &config, 0, None).unwrap();
    assert_eq!(
        header(&request, "X-SecurityToken"),
        Some("38c50b90463c8b7935cb59798ea17a317135798b")
    );
    assert_eq!(
        header(&request, "X-Application"),
        Some("da39a3ee5e6b4b0d3255bfef95601890afd80709")
    );
}

#[test]
fn key_request_carries_key_and_signature() {
    let key = test_key();
    let public = key.public_key().clone();
    let config = Config::build(
        "https://serveradmin.example.com",
        Some(SshSigner::Key(key)),
        Some("t".to_string()),
    );
    assert_eq!(config.signing_mode(), SigningMode::Asymmetric);
    let request = request_api("/api/dataset/query", "{}".to_string(), &config, 1000, None).unwrap();
    assert_eq!(
        names(&request),
        vec![
            "Content-Type",
            "X-Timestamp",
            "X-API-Version",
            "X-PublicKeys",
            "X-Signatures"
        ]
    );
    let line = public.to_openssh().unwrap();
    let material = line.split(' ').nth(1).unwrap();
    assert_eq!(header(&request, "X-PublicKeys"), Some(material));
    let signature = decode_signature(header(&request, "X-Signatures").unwrap());
    assert!(verifies(&public, b"1000:{}", &signature));
    assert!(!verifies(&public, b"1001:{}", &signature));
}

#[test]
fn key_signer_signs_by_itself() {
    let key = test_key();
    let public = key.public_key().clone();
    let signer = SshSigner::Key(key);
    assert!(!signer.needs_agent());
    let encoded = signer.sign_message(b"hello", None).unwrap();
    assert_eq!(encoded.len() % 4, 0);
    assert!(verifies(&public, b"hello", &decode_signature(&encoded)));
}

#[test]
fn agent_identity_needs_the_signature_of_the_agent() {
    let key = test_key();
    let public = key.public_key().clone();
    let signer = SshSigner::Agent(Identity::PublicKey(public.clone()));
    assert!(signer.needs_agent());
    let error = signer.sign_message(b"hello", None).unwrap_err();
    assert!(matches!(error, Error::SshAgentError(_)));
    let from_agent = key.try_sign(b"hello").unwrap();
    let encoded = signer.sign_message(b"hello", Some(from_agent)).unwrap();
    assert!(verifies(&public, b"hello", &decode_signature(&encoded)));
}

#[test]
fn agent_request_uses_the_given_signature() {
    let key = test_key();
    let public = key.public_key().clone();
    let config = Config::build(
        "https://serveradmin.example.com",
        Some(SshSigner::Agent(Identity::PublicKey(public.clone()))),
        None,
    );
    let message = sign_body(5, "{}");
    let from_agent = key.try_sign(message.as_bytes()).unwrap();
    let request = request_api("/q", "{}".to_string(), &config, 5, Some(from_agent)).unwrap();
    let signature = decode_signature(header(&request, "X-Signatures").unwrap());
    assert!(verifies(&public, b"5:{}", &signature));
    let error = request_api("/q", "{}".to_string(), &config, 5, None).unwrap_err();
    assert!(matches!(error, Error::SshAgentError(_)));
}

#[test]
fn encoded_signature_is_the_wire_format_in_base64() {
    let key = test_key();
    let signature = key.try_sign(b"payload").unwrap();
    let encoded = encode_signature(&signature).unwrap();
    let decoded = decode_signature(&encoded);
    assert_eq!(decoded, signature);
    assert_eq!(encoded.len(), 112);
}

#[test]
fn public_key_of_a_signer_is_the_second_field() {
    let key = test_key();
    let line = key.public_key().to_openssh().unwrap();
    let expected = line.split(' ').nth(1).unwrap().to_string();
    assert!(expected.starts_with("AAAAC3NzaC1lZDI1NTE5"));
    assert_eq!(SshSigner::Key(key.clone()).get_public_key().unwrap(), expected);
    let identity = Identity::PublicKey(key.public_key().clone());
    assert_eq!(identity.get_public_key().unwrap(), line);
    assert_eq!(SshSigner::Agent(identity).get_public_key().unwrap(), expected);
    let parsed = PublicKey::from_openssh(&format!("ssh-ed25519 {expected}")).unwrap();
    assert_eq!(parsed.key_data(), key.public_key().key_data());
}

#[test]
fn key_material_is_the_second_field_of_the_line() {
    assert_eq!(
        key_material("ssh-ed25519 AAAA user@example.com".to_string()),
        Ok("AAAA".to_string())
    );
    assert_eq!(key_material("ssh-ed25519 AAAA".to_string()), Ok("AAAA".to_string()));
    assert_eq!(key_material("a  b".to_string()), Ok(String::new()));
    assert_eq!(key_material("a ".to_string()), Ok(String::new()));
    assert_eq!(
        key_material("nospace".to_string()),
        Err(Error::PublicKeyFormatError("nospace".to_string()))
    );
    assert_eq!(
        key_material(String::new()),
        Err(Error::PublicKeyFormatError(String::new()))
    );
}

#[test]
fn base64_capacity_is_a_multiple_of_four() {
    assert_eq!(base64_capacity(0), 0);
    assert_eq!(base64_capacity(1), 4);
    assert_eq!(base64_capacity(2), 4);
    assert_eq!(base64_capacity(3), 4);
    assert_eq!(base64_capacity(4), 8);
    assert_eq!(base64_capacity(87), 116);
    assert_eq!(base64_capacity(usize::MAX), (usize::MAX / 3 + 3) & !3);
    assert_eq!(base64_capacity(usize::MAX / 4 + 1), (usize::MAX / 3 + 3) & !3);
    assert_eq!(base64_capacity(usize::MAX / 4), ((usize::MAX / 4 * 4) / 3 + 3) & !3);
}

#[test]
fn probe_uses_a_configured_key() {
    let (state, action) = probe_step(ProbeState::Start, ProbeEvent::Begin { key_configured: true });
    assert_eq!((state, action), (ProbeState::LoadingKey, ProbeAction::LoadKey));
    assert_eq!(
        probe_step(state, ProbeEvent::KeyLoaded),
        (ProbeState::Done, ProbeAction::UseKey)
    );
    assert_eq!(
        probe_step(state, ProbeEvent::KeyFailed),
        (ProbeState::Done, ProbeAction::FailKey)
    );
}

#[test]
fn probe_takes_the_first_identity_that_signs() {
    let mut step = probe_step(ProbeState::Start, ProbeEvent::Begin { key_configured: false });
    assert_eq!(step, (ProbeState::Connecting, ProbeAction::Connect));
    step = probe_step(step.0, ProbeEvent::Connected);
    assert_eq!(step, (ProbeState::Listing, ProbeAction::List));
    step = probe_step(step.0, ProbeEvent::Listed { count: 3 });
    assert_eq!(
        step,
        (ProbeState::Testing { index: 0, count: 3 }, ProbeAction::TestSign(0))
    );
    step = probe_step(step.0, ProbeEvent::SignFailed);
    assert_eq!(
        step,
        (ProbeState::Testing { index: 1, count: 3 }, ProbeAction::TestSign(1))
    );
    step = probe_step(step.0, ProbeEvent::SignSucceeded);
    assert_eq!(step, (ProbeState::Done, ProbeAction::UseIdentity(1)));
}

#[test]
fn probe_falls_back_to_the_token() {
    assert_eq!(
        probe_step(ProbeState::Connecting, ProbeEvent::ConnectFailed),
        (ProbeState::Done, ProbeAction::UseToken)
    );
    assert_eq!(
        probe_step(ProbeState::Listing, ProbeEvent::ListFailed),
        (ProbeState::Done, ProbeAction::UseToken)
    );
    assert_eq!(
        probe_step(ProbeState::Listing, ProbeEvent::Listed { count: 0 }),
        (ProbeState::Done, ProbeAction::UseToken)
    );
    let mut step = probe_step(ProbeState::Listing, ProbeEvent::Listed { count: 2 });
    step = probe_step(step.0, ProbeEvent::SignFailed);
    step = probe_step(step.0, ProbeEvent::SignFailed);
    assert_eq!(step, (ProbeState::Done, ProbeAction::UseToken));
    assert_eq!(
        probe_step(
            ProbeState::Testing { index: usize::MAX, count: usize::MAX },
            ProbeEvent::SignFailed
        ),
        (ProbeState::Done, ProbeAction::UseToken)
    );
}

#[test]
fn probe_refuses_events_out_of_turn() {
    assert_eq!(
        probe_step(ProbeState::Start, ProbeEvent::Connected),
        (ProbeState::Done, ProbeAction::Unexpected)
    );
    assert_eq!(
        probe_step(ProbeState::Done, ProbeEvent::Begin { key_configured: true }),
        (ProbeState::Done, ProbeAction::Unexpected)
    );
    assert_eq!(
        probe_step(ProbeState::LoadingKey, ProbeEvent::SignSucceeded),
        (ProbeState::Done, ProbeAction::Unexpected)
    );
}

#[test]
fn probe_message_is_fixed() {
    assert_eq!(PROBE_MESSAGE, "mest message");
}

#[test]
fn new_object_endpoint_names_the_servertype() {
    assert_eq!(
        new_object_endpoint("vm"),
        "/api/dataset/new_object?servertype=vm"
    );
}

fn certificate() -> Certificate {
    Certificate::from_openssh(concat_lines(&[
        "ssh-ed25519-cert-v01@openssh.com AAAAIHNzaC1lZDI1NTE5LWNlcnQtdjAxQG9wZW5zc2guY29tAAAAIAYk",
        "JPGaYen7NK8MwZwWmNAyRaFNsc86AU9NObU2cM2uAAAAILM+rvN+ot98qgEN796jTiQfZfG1KaT0PtFDJ/XFSqtiAA",
        "AAAAAAAAAAAAACAAAAB2VkMjU1MTkAAAAUAAAAEGhvc3QuZXhhbXBsZS5jb20AAAAAYkx3NwAAAAB8DuY3AAAAAAAA",
        "AAAAAAAAAAAAMwAAAAtzc2gtZWQyNTUxOQAAACCzPq7zfqLffKoBDe/eo04kH2XxtSmk9D7RQyf1xUqrYgAAAFMAAA",
        "ALc3NoLWVkMjU1MTkAAABApVXBNiYPlPoa1BYH5G4NP9XtjTMZlm7HO5GdbLSvvAw5Vdob7Ka+23hB7isJKHYtzFGG",
        "SKXAqxp/Zi8REbCaAw== user@example.com",
    ]).as_str())
    .unwrap()
}

fn concat_lines(parts: &[&str]) -> String {
    parts.concat()
}

fn unsupported_key() -> PrivateKey {
    let algorithm = Algorithm::Other(AlgorithmName::new("custom@example.com").unwrap());
    let public = OpaquePublicKey::new(vec![1, 2, 3], algorithm);
    PrivateKey::new(KeypairData::Other(OpaqueKeypair::new(vec![4, 5, 6], public)), "").unwrap()
}

#[test]
fn certificate_identity_gives_the_certified_key() {
    let certificate = certificate();
    let certified = PublicKey::from(certificate.public_key().clone());
    let line = certified.to_openssh().unwrap();
    assert_eq!(
        line,
        "ssh-ed25519 AAAAC3NzaC1lZDI1NTE5AAAAILM+rvN+ot98qgEN796jTiQfZfG1KaT0PtFDJ/XFSqti"
    );
    let identity = Identity::Certificate(certificate.clone());
    assert_eq!(identity.get_public_key().unwrap(), line);
    assert_eq!(
        SshSigner::Agent(Identity::Certificate(certificate))
            .get_public_key()
            .unwrap(),
        "AAAAC3NzaC1lZDI1NTE5AAAAILM+rvN+ot98qgEN796jTiQfZfG1KaT0PtFDJ/XFSqti"
    );
}

#[test]
fn a_key_that_cannot_sign_fails_with_a_signature_error() {
    let signer = SshSigner::Key(unsupported_key());
    let error = signer.sign_message(b"hello", None).unwrap_err();
    assert!(matches!(error, Error::SignatureError(_)), "{error:?}");
    let config = Config::build("http://h", Some(SshSigner::Key(unsupported_key())), None);
    let error = request_api("/x", "{}".to_string(), &config, 1, None).unwrap_err();
    assert!(matches!(error, Error::SignatureError(_)), "{error:?}");
}

#[test]
fn hmac_headers_have_forty_hex_digits() {
    for (token, body) in [("", ""), ("t", "{}"), ("a long token with spaces", "[1,2,3]")] {
        let token = token.to_string();
        let hash = calculate_security_token(&token, body);
        assert_eq!(hash.len(), 40);
        assert!(hash.chars().all(|c| c.is_ascii_digit() || ('a'..='f').contains(&c)));
        assert_eq!(calculate_app_id(&token).len(), 40);
    }
}

#[test]
fn a_signer_wins_over_the_token() {
    let key = test_key();
    let with_token = Config::build("http://h", Some(SshSigner::Key(key.clone())), Some("t".to_string()));
    let without = Config::build("http://h", Some(SshSigner::Key(key)), None);
    let first = request_api("/q", "{}".to_string(), &with_token, 9, None).unwrap();
    let second = request_api("/q", "{}".to_string(), &without, 9, None).unwrap();
    assert_eq!(first, second);
    assert_eq!(header(&first, "X-SecurityToken"), None);
    assert_eq!(header(&first, "X-Application"), None);
}

#[test]
fn signing_with_an_ed25519_key_is_repeatable() {
    let signer = SshSigner::Key(test_key());
    let copy = signer.clone();
    assert_eq!(
        signer.sign_message(b"1000:{}", None).unwrap(),
        copy.sign_message(b"1000:{}", None).unwrap()
    );
    assert_eq!(signer.get_public_key().unwrap(), copy.get_public_key().unwrap());
    assert_ne!(
        signer.sign_message(b"1000:{}", None).unwrap(),
        signer.sign_message(b"1001:{}", None).unwrap()
    );
}

#[test]
fn clone_of_a_config_keeps_its_settings() {
    let config = Config::build("http://h/api", Some(SshSigner::Key(test_key())), Some("t".to_string()));
    let copy = config.clone();
    assert_eq!(copy.base_url, "http://h");
    assert_eq!(copy.api_version, config.api_version);
    assert_eq!(copy.auth_token, Some("t".to_string()));
    assert_eq!(copy.signing_mode(), SigningMode::Asymmetric);
    let empty = Config::default();
    assert_eq!(empty.base_url, "");
    assert!(empty.ssh_signer.is_none());
    assert_eq!(empty.auth_token, None);
    assert_eq!(empty.signing_mode(), SigningMode::SharedSecret);
}

#[test]
fn try_sign_gives_the_signature_of_the_key_or_of_the_agent() {
    let key = test_key();
    let public = key.public_key().clone();
    let signature = SshSigner::Key(key.clone()).try_sign(b"hello", None).unwrap();
    assert!(verifies(&public, b"hello", &signature));
    let agent = SshSigner::Agent(Identity::PublicKey(public));
    let given = key.try_sign(b"other").unwrap();
    assert_eq!(agent.try_sign(b"hello", Some(given.clone())).unwrap(), given);
    assert!(matches!(
        agent.try_sign(b"hello", None).unwrap_err(),
        Error::SshAgentError(_)
    ));
    assert!(matches!(
        SshSigner::Key(unsupported_key()).try_sign(b"hello", None).unwrap_err(),
        Error::SignatureError(_)
    ));
}

#[test]
fn signed_request_carries_key_material_and_the_given_signature() {
    let key = test_key();
    let signer = SshSigner::Key(key.clone());
    let config = Config::build("http://h/api/", Some(signer.clone()), None);
    let signature = key.try_sign(b"7:{}").unwrap();
    let request = signed_request("/q", "{}".to_string(), &config, 7, &signer, &signature).unwrap();
    assert_eq!(request.url, "http://h/q");
    assert_eq!(request.body, "{}");
    assert_eq!(
        request.headers,
        vec![
            ("Content-Type".to_string(), "application/json".to_string()),
            ("X-Timestamp".to_string(), "7".to_string()),
            ("X-API-Version".to_string(), "4.9.0".to_string()),
            ("X-PublicKeys".to_string(), signer.get_public_key().unwrap()),
            ("X-Signatures".to_string(), encode_signature(&signature).unwrap()),
        ]
    );
    assert_eq!(
        request,
        request_api("/q", "{}".to_string(), &config, 7, None).unwrap()
    );
}
