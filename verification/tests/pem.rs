use interjections::pem::{collect_certificates, first_key, load_certs, load_key, Key};

fn section(label: &str, body: &str) -> String {
    format!("-----BEGIN {}-----\n{}\n-----END {}-----\n", label, body, label)
}

#[test]
fn certificates_come_in_their_order() {
    let pem = [
        "a note\n".to_string(),
        section("CERTIFICATE", "AQID"),
        section("PRIVATE KEY", "BAUG"),
        section("SOMETHING ELSE", "***"),
        section("CERTIFICATE", "Bwg="),
    ]
    .concat();
    assert_eq!(load_certs(pem.as_bytes()), Ok(vec![vec![1, 2, 3], vec![7, 8]]));
    assert_eq!(load_certs(b""), Ok(vec![]));
}

#[test]
fn one_malformed_section_spoils_the_certificates() {
    let cut = [section("CERTIFICATE", "AQID"), "-----BEGIN CERTIFICATE-----\nAQID\n".to_string()];
    let message = load_certs(cut.concat().as_bytes()).unwrap_err();
    assert!(message.contains("missing"), "{}", message);
    let illegal = ["-----BEGIN CERTIFICATE--\n".to_string(), section("CERTIFICATE", "AQID")];
    let message = load_certs(illegal.concat().as_bytes()).unwrap_err();
    assert!(message.contains("illegal section start"), "{}", message);
    assert!(load_certs(section("CERTIFICATE", "*").as_bytes()).is_err());
}

#[test]
fn the_first_error_counts() {
    let sections = vec![
        Ok(vec![1]),
        Err("first".to_string()),
        Ok(vec![2]),
        Err("second".to_string()),
    ];
    assert_eq!(collect_certificates(sections), Err("first".to_string()));
    assert_eq!(collect_certificates(vec![Ok(vec![1]), Ok(vec![])]), Ok(vec![vec![1], vec![]]));
}

#[test]
fn the_first_key_is_taken() {
    let pem = [
        section("CERTIFICATE", "AQID"),
        section("EC PRIVATE KEY", "BAUG"),
        section("PRIVATE KEY", "Bwg="),
    ]
    .concat();
    assert_eq!(load_key(pem.as_bytes(), "k"), Ok(Key::Sec1(vec![4, 5, 6])));
    let rsa = section("RSA PRIVATE KEY", "AQID");
    assert_eq!(load_key(rsa.as_bytes(), "k"), Ok(Key::Pkcs1(vec![1, 2, 3])));
    let pkcs8 = section("PRIVATE KEY", "AQID");
    assert_eq!(load_key(pkcs8.as_bytes(), "k"), Ok(Key::Pkcs8(vec![1, 2, 3])));
}

#[test]
fn a_file_without_a_key_is_an_error() {
    let message = "No private key found in certs/key.pem".to_string();
    assert_eq!(load_key(b"", "certs/key.pem"), Err(message.clone()));
    let certificate = section("CERTIFICATE", "AQID");
    assert_eq!(load_key(certificate.as_bytes(), "certs/key.pem"), Err(message));
}

#[test]
fn a_malformed_section_after_the_key_is_an_error() {
    let pem = [section("PRIVATE KEY", "AQID"), "-----BEGIN CERTIFICATE-----\n".to_string()];
    let message = load_key(pem.concat().as_bytes(), "k").unwrap_err();
    assert!(message.contains("missing"), "{}", message);
}

#[test]
fn of_several_keys_the_first_is_served() {
    let keys = vec![Key::Pkcs8(vec![1]), Key::Sec1(vec![2])];
    assert_eq!(first_key(keys, "k"), Ok(Key::Pkcs8(vec![1])));
    assert_eq!(first_key(vec![], "k"), Err("No private key found in k".to_string()));
}
