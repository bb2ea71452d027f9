use std::sync::Arc;

use http_mtls_proxy::tls::{
    config_result, create_config, find_file, load_certs, load_credential, load_key, scan_key, CredentialError,
    KeySearchFailure, PemFile, PrivateKey,
};

const CERT_DER: [u8; 377] = [
    48, 130, 1, 117, 48, 130, 1, 27, 160, 3, 2, 1, 2, 2, 20, 117,
    18, 91, 45, 134, 193, 173, 223, 123, 229, 68, 104, 254, 52, 44, 114, 209,
    200, 34, 210, 48, 10, 6, 8, 42, 134, 72, 206, 61, 4, 3, 2, 48,
    15, 49, 13, 48, 11, 6, 3, 85, 4, 3, 12, 4, 116, 101, 115, 116,
    48, 32, 23, 13, 50, 54, 49, 48, 50, 56, 50, 49, 50, 51, 50, 55,
    90, 24, 15, 50, 49, 50, 54, 49, 48, 48, 52, 50, 49, 50, 51, 50,
    55, 90, 48, 15, 49, 13, 48, 11, 6, 3, 85, 4, 3, 12, 4, 116,
    101, 115, 116, 48, 89, 48, 19, 6, 7, 42, 134, 72, 206, 61, 2, 1,
    6, 8, 42, 134, 72, 206, 61, 3, 1, 7, 3, 66, 0, 4, 220, 242,
    53, 131, 251, 104, 59, 217, 106, 161, 39, 181, 199, 221, 38, 100, 248, 61,
    33, 229, 49, 8, 241, 18, 203, 248, 152, 13, 244, 83, 33, 4, 38, 81,
    81, 86, 86, 0, 8, 79, 161, 22, 189, 216, 43, 119, 196, 230, 237, 232,
    163, 219, 90, 125, 49, 48, 201, 208, 124, 34, 67, 223, 183, 243, 163, 83,
    48, 81, 48, 29, 6, 3, 85, 29, 14, 4, 22, 4, 20, 122, 173, 94,
    2, 203, 58, 189, 160, 44, 32, 218, 72, 225, 181, 81, 71, 105, 97, 227,
    177, 48, 31, 6, 3, 85, 29, 35, 4, 24, 48, 22, 128, 20, 122, 173,
    94, 2, 203, 58, 189, 160, 44, 32, 218, 72, 225, 181, 81, 71, 105, 97,
    227, 177, 48, 15, 6, 3, 85, 29, 19, 1, 1, 255, 4, 5, 48, 3,
    1, 1, 255, 48, 10, 6, 8, 42, 134, 72, 206, 61, 4, 3, 2, 3,
    72, 0, 48, 69, 2, 33, 0, 148, 236, 254, 193, 113, 73, 240, 6, 165,
    24, 95, 209, 148, 144, 85, 34, 85, 37, 118, 222, 138, 28, 185, 55, 164,
    134, 191, 212, 150, 28, 10, 221, 2, 32, 41, 28, 168, 154, 233, 66, 54,
    209, 134, 203, 58, 63, 201, 11, 91, 21, 124, 119, 14, 193, 131, 68, 195,
    98, 2, 41, 0, 162, 6, 67, 165, 205,
];

const PKCS8_DER: [u8; 138] = [
    48, 129, 135, 2, 1, 0, 48, 19, 6, 7, 42, 134, 72, 206, 61, 2,
    1, 6, 8, 42, 134, 72, 206, 61, 3, 1, 7, 4, 109, 48, 107, 2,
    1, 1, 4, 32, 53, 68, 235, 120, 0, 157, 170, 4, 24, 22, 18, 140,
    51, 158, 135, 78, 45, 244, 111, 19, 28, 25, 32, 226, 123, 174, 202, 237,
    218, 221, 129, 196, 161, 68, 3, 66, 0, 4, 220, 242, 53, 131, 251, 104,
    59, 217, 106, 161, 39, 181, 199, 221, 38, 100, 248, 61, 33, 229, 49, 8,
    241, 18, 203, 248, 152, 13, 244, 83, 33, 4, 38, 81, 81, 86, 86, 0,
    8, 79, 161, 22, 189, 216, 43, 119, 196, 230, 237, 232, 163, 219, 90, 125,
    49, 48, 201, 208, 124, 34, 67, 223, 183, 243,
];

const SEC1_DER: [u8; 121] = [
    48, 119, 2, 1, 1, 4, 32, 53, 68, 235, 120, 0, 157, 170, 4, 24,
    22, 18, 140, 51, 158, 135, 78, 45, 244, 111, 19, 28, 25, 32, 226, 123,
    174, 202, 237, 218, 221, 129, 196, 160, 10, 6, 8, 42, 134, 72, 206, 61,
    3, 1, 7, 161, 68, 3, 66, 0, 4, 220, 242, 53, 131, 251, 104, 59,
    217, 106, 161, 39, 181, 199, 221, 38, 100, 248, 61, 33, 229, 49, 8, 241,
    18, 203, 248, 152, 13, 244, 83, 33, 4, 38, 81, 81, 86, 86, 0, 8,
    79, 161, 22, 189, 216, 43, 119, 196, 230, 237, 232, 163, 219, 90, 125, 49,
    48, 201, 208, 124, 34, 67, 223, 183, 243,
];

const ED25519_DER: [u8; 48] = [
    48, 46, 2, 1, 0, 48, 5, 6, 3, 43, 101, 112, 4, 34, 4, 32,
    209, 197, 14, 183, 193, 125, 249, 242, 181, 239, 87, 16, 123, 228, 153, 95,
    226, 185, 236, 189, 42, 20, 83, 247, 103, 53, 148, 232, 191, 248, 83, 45,
];

const RSA_DER: [u8; 1192] = [
    48, 130, 4, 164, 2, 1, 0, 2, 130, 1, 1, 0, 166, 232, 26, 89,
    155, 39, 48, 171, 112, 234, 210, 132, 85, 90, 77, 29, 2, 3, 144, 152,
    250, 29, 131, 76, 167, 93, 21, 63, 18, 243, 137, 204, 247, 25, 159, 234,
    251, 103, 230, 241, 2, 94, 138, 95, 123, 22, 135, 246, 175, 190, 4, 130,
    203, 212, 125, 67, 65, 24, 233, 247, 15, 159, 202, 121, 108, 28, 160, 62,
    138, 168, 188, 168, 49, 117, 46, 37, 46, 161, 43, 78, 226, 107, 54, 241,
    8, 206, 204, 84, 168, 2, 5, 181, 89, 195, 230, 83, 222, 249, 150, 247,
    143, 144, 148, 62, 44, 92, 127, 200, 117, 52, 45, 95, 250, 49, 165, 133,
    183, 226, 163, 172, 190, 92, 222, 201, 220, 157, 121, 29, 142, 104, 21, 237,
    77, 120, 0, 34, 90, 73, 57, 21, 75, 98, 57, 77, 10, 233, 151, 117,
    23, 111, 127, 238, 30, 237, 43, 77, 39, 103, 170, 135, 197, 139, 203, 237,
    172, 19, 43, 233, 244, 49, 62, 19, 17, 153, 179, 175, 62, 108, 199, 213,
    205, 123, 88, 5, 98, 189, 126, 68, 109, 27, 113, 79, 170, 193, 105, 159,
    211, 53, 128, 109, 221, 140, 26, 136, 242, 43, 41, 174, 229, 93, 72, 224,
    40, 247, 201, 55, 53, 42, 239, 237, 180, 167, 157, 231, 201, 20, 110, 148,
    78, 82, 228, 217, 175, 184, 127, 96, 146, 123, 246, 146, 100, 192, 56, 160,
    235, 107, 237, 117, 50, 129, 252, 12, 87, 18, 80, 147, 2, 3, 1, 0,
    1, 2, 130, 1, 0, 26, 129, 11, 6, 37, 172, 48, 127, 88, 252, 1,
    24, 0, 145, 201, 99, 12, 217, 210, 17, 104, 206, 92, 246, 68, 49, 116,
    217, 66, 66, 40, 36, 195, 44, 111, 135, 154, 10, 162, 210, 172, 196, 164,
    134, 138, 254, 69, 242, 247, 111, 94, 58, 2, 242, 40, 62, 16, 205, 75,
    1, 239, 154, 57, 69, 212, 212, 42, 226, 35, 148, 173, 248, 171, 121, 231,
    45, 2, 93, 151, 137, 252, 76, 120, 58, 8, 99, 6, 113, 127, 8, 107,
    45, 164, 38, 134, 161, 212, 235, 159, 124, 138, 112, 180, 9, 183, 115, 172,
    219, 1, 57, 154, 230, 253, 204, 250, 114, 228, 131, 121, 232, 73, 134, 103,
    222, 120, 73, 13, 93, 81, 85, 159, 84, 113, 44, 6, 77, 4, 199, 28,
    96, 194, 103, 129, 78, 186, 75, 228, 50, 107, 90, 93, 134, 114, 106, 148,
    192, 91, 36, 246, 74, 105, 148, 46, 216, 28, 86, 154, 220, 243, 239, 200,
    97, 211, 19, 31, 232, 126, 185, 66, 135, 71, 227, 213, 20, 43, 38, 200,
    252, 60, 49, 45, 7, 82, 88, 211, 56, 171, 56, 246, 114, 186, 18, 128,
    65, 53, 185, 156, 186, 78, 103, 238, 223, 54, 177, 220, 43, 177, 132, 114,
    202, 203, 240, 52, 144, 175, 47, 181, 14, 114, 133, 37, 172, 201, 239, 53,
    130, 77, 245, 249, 54, 193, 17, 130, 185, 50, 95, 79, 110, 28, 251, 79,
    23, 56, 41, 134, 121, 2, 129, 129, 0, 222, 189, 106, 192, 102, 4, 144,
    212, 69, 240, 114, 127, 63, 53, 168, 33, 184, 65, 139, 162, 211, 108, 49,
    230, 60, 50, 20, 62, 18, 30, 14, 175, 216, 59, 230, 156, 109, 79, 56,
    13, 72, 183, 60, 129, 94, 191, 18, 248, 20, 67, 119, 193, 149, 169, 254,
    249, 135, 236, 47, 192, 9, 181, 201, 163, 241, 1, 181, 249, 46, 194, 50,
    49, 169, 110, 134, 133, 27, 158, 37, 9, 157, 77, 85, 205, 151, 144, 58,
    49, 156, 138, 73, 229, 245, 42, 1, 133, 224, 151, 66, 90, 167, 235, 199,
    222, 176, 75, 27, 98, 107, 5, 42, 161, 115, 231, 137, 56, 30, 240, 88,
    202, 157, 170, 107, 254, 29, 218, 237, 207, 2, 129, 129, 0, 191, 212, 95,
    54, 111, 164, 165, 57, 125, 2, 248, 159, 146, 153, 165, 54, 39, 246, 85,
    5, 18, 197, 119, 98, 212, 55, 129, 190, 222, 114, 236, 145, 78, 149, 247,
    169, 46, 118, 162, 46, 31, 24, 251, 2, 202, 246, 77, 73, 30, 92, 39,
    2, 158, 157, 13, 46, 249, 233, 98, 182, 88, 24, 155, 35, 68, 66, 223,
    146, 130, 118, 193, 238, 92, 46, 113, 231, 77, 207, 114, 205, 26, 140, 111,
    245, 9, 19, 117, 102, 159, 36, 138, 51, 245, 111, 147, 192, 64, 50, 224,
    217, 191, 229, 171, 92, 44, 56, 201, 146, 196, 202, 147, 113, 194, 7, 65,
    130, 78, 46, 12, 210, 57, 127, 7, 158, 18, 59, 197, 253, 2, 129, 129,
    0, 220, 129, 200, 221, 16, 34, 20, 255, 16, 254, 41, 91, 175, 199, 254,
    218, 226, 254, 128, 174, 129, 127, 235, 38, 115, 17, 96, 216, 210, 54, 207,
    115, 102, 46, 102, 239, 21, 136, 7, 133, 159, 39, 71, 207, 11, 109, 61,
    234, 58, 165, 80, 57, 101, 97, 21, 251, 18, 132, 208, 0, 221, 156, 10,
    51, 50, 180, 238, 225, 241, 88, 111, 56, 154, 243, 192, 88, 166, 46, 185,
    155, 251, 14, 68, 147, 116, 40, 100, 116, 24, 245, 14, 147, 137, 82, 60,
    143, 188, 248, 1, 200, 157, 212, 221, 217, 167, 205, 179, 30, 139, 180, 97,
    175, 212, 126, 179, 105, 203, 183, 69, 47, 209, 70, 150, 2, 204, 171, 160,
    33, 2, 129, 128, 24, 146, 144, 187, 189, 99, 94, 210, 213, 99, 171, 11,
    109, 209, 6, 171, 192, 68, 186, 177, 82, 173, 62, 212, 199, 16, 113, 43,
    76, 253, 117, 182, 75, 85, 196, 138, 196, 107, 231, 236, 118, 137, 81, 166,
    18, 239, 168, 8, 196, 189, 211, 53, 111, 177, 248, 125, 90, 255, 253, 104,
    20, 50, 218, 180, 146, 202, 234, 46, 175, 77, 157, 27, 246, 108, 240, 164,
    75, 128, 86, 89, 85, 156, 69, 191, 34, 177, 126, 105, 109, 219, 85, 100,
    192, 124, 209, 117, 96, 3, 228, 111, 160, 56, 64, 82, 39, 76, 2, 238,
    45, 13, 50, 3, 241, 113, 210, 127, 105, 154, 86, 132, 27, 95, 93, 79,
    111, 80, 126, 213, 2, 129, 129, 0, 188, 14, 108, 70, 74, 135, 44, 200,
    149, 245, 40, 61, 146, 74, 211, 84, 144, 201, 151, 118, 176, 177, 217, 225,
    41, 146, 84, 63, 20, 26, 10, 182, 152, 178, 219, 62, 128, 23, 121, 144,
    187, 91, 89, 191, 170, 209, 105, 103, 154, 141, 93, 54, 168, 34, 161, 138,
    152, 56, 26, 244, 78, 17, 85, 203, 67, 12, 62, 52, 237, 230, 167, 206,
    62, 88, 169, 120, 171, 250, 156, 129, 157, 70, 96, 254, 34, 178, 136, 64,
    157, 9, 37, 132, 129, 107, 188, 235, 223, 94, 219, 180, 192, 50, 134, 73,
    122, 136, 254, 12, 21, 82, 10, 208, 63, 3, 232, 14, 194, 188, 94, 109,
    8, 83, 62, 208, 191, 200, 53, 72,
];

fn base64(data: &[u8]) -> String {
    let alphabet: Vec<char> =
        "ABCDEFGHIJKLMNOPQRSTUVWXYZabcdefghijklmnopqrstuvwxyz0123456789+/".chars().collect();
    let mut out = String::new();
    for chunk in data.chunks(3) {
        let b0 = chunk[0] as u32;
        let b1 = if chunk.len() > 1 { chunk[1] as u32 } else { 0 };
        let b2 = if chunk.len() > 2 { chunk[2] as u32 } else { 0 };
        let n = (b0 << 16) | (b1 << 8) | b2;
        out.push(alphabet[((n >> 18) & 63) as usize]);
        out.push(alphabet[((n >> 12) & 63) as usize]);
        out.push(if chunk.len() > 1 { alphabet[((n >> 6) & 63) as usize] } else { '=' });
        out.push(if chunk.len() > 2 { alphabet[(n & 63) as usize] } else { '=' });
    }
    out
}

fn pem(label: &str, der: &[u8]) -> Vec<u8> {
    let dashes = "-".repeat(5);
    let body = base64(der);
    let mut text = format!("{dashes}BEGIN {label}{dashes}\n");
    let mut rest = body.as_str();
    while !rest.is_empty() {
        let cut = rest.len().min(64);
        text.push_str(&rest[..cut]);
        text.push('\n');
        rest = &rest[cut..];
    }
    text.push_str(&format!("{dashes}END {label}{dashes}\n"));
    text.into_bytes()
}

fn file(name: &str, contents: Vec<u8>) -> PemFile {
    PemFile { name: name.to_string(), contents }
}

fn cert_file(name: &str) -> PemFile {
    file(name, pem("CERTIFICATE", &CERT_DER))
}

fn key_file(name: &str) -> PemFile {
    file(name, pem("PRIVATE KEY", &PKCS8_DER))
}

#[test]
fn load_certs_collects_certificates_in_file_order() {
    let mut contents = pem("CERTIFICATE", &CERT_DER);
    contents.extend(pem("PRIVATE KEY", &PKCS8_DER));
    contents.extend(pem("CERTIFICATE", &[1, 2, 3]));
    let files = vec![file("chain.pem", contents)];
    let chain = load_certs("chain.pem", &files).unwrap();
    assert_eq!(chain.len(), 2);
    assert_eq!(chain[0], CERT_DER.to_vec());
    assert_eq!(chain[1], vec![1, 2, 3]);
}

#[test]
fn load_certs_of_a_file_without_certificates_is_empty() {
    let files = vec![key_file("only-key.pem")];
    assert_eq!(load_certs("only-key.pem", &files).unwrap(), Vec::<Vec<u8>>::new());
}

#[test]
fn load_certs_reports_a_file_that_was_not_read() {
    let files = vec![cert_file("a.pem")];
    match load_certs("b.pem", &files) {
        Err(CredentialError::Unreadable { filename }) => assert_eq!(filename, "b.pem"),
        other => panic!("unexpected {other:?}"),
    }
}

#[test]
fn load_certs_reports_broken_pem() {
    let dashes = "-".repeat(5);
    let broken = format!("{dashes}BEGIN CERTIFICATE{dashes}\nAAAA\n").into_bytes();
    let files = vec![file("broken.pem", broken)];
    match load_certs("broken.pem", &files) {
        Err(error @ CredentialError::CannotParseCertificates { .. }) => {
            assert_eq!(error.message(), "cannot parse certificate file broken.pem")
        }
        other => panic!("unexpected {other:?}"),
    }
}

#[test]
fn load_key_takes_the_first_key_and_skips_other_sections() {
    let mut contents = pem("CERTIFICATE", &CERT_DER);
    contents.extend(pem("X509 CRL", &[9, 9]));
    contents.extend(pem("EC PRIVATE KEY", &SEC1_DER));
    contents.extend(pem("PRIVATE KEY", &PKCS8_DER));
    let files = vec![file("mixed.pem", contents)];
    match load_key("mixed.pem", &files).unwrap() {
        PrivateKey::Sec1(der) => assert_eq!(der, SEC1_DER.to_vec()),
        other => panic!("unexpected {other:?}"),
    }
}

#[test]
fn load_key_accepts_each_encoding() {
    match scan_key(&pem("RSA PRIVATE KEY", &[1, 2])).ok().unwrap() {
        PrivateKey::Pkcs1(der) => assert_eq!(der, vec![1, 2]),
        other => panic!("unexpected {other:?}"),
    }
    match scan_key(&pem("PRIVATE KEY", &[3, 4])).ok().unwrap() {
        PrivateKey::Pkcs8(der) => assert_eq!(der, vec![3, 4]),
        other => panic!("unexpected {other:?}"),
    }
    match scan_key(&pem("EC PRIVATE KEY", &[5, 6])).ok().unwrap() {
        PrivateKey::Sec1(der) => assert_eq!(der, vec![5, 6]),
        other => panic!("unexpected {other:?}"),
    }
}

#[test]
fn load_key_without_a_key_names_the_file() {
    let files = vec![cert_file("cert.pem")];
    match load_key("cert.pem", &files) {
        Err(error @ CredentialError::NoKeys { .. }) => {
            assert_eq!(error.message(), "no keys found in cert.pem file")
        }
        other => panic!("unexpected {other:?}"),
    }
    assert!(matches!(scan_key(b""), Err(KeySearchFailure::NoKeys)));
}

#[test]
fn load_key_reports_broken_pem() {
    let dashes = "-".repeat(5);
    let mut contents = pem("CERTIFICATE", &CERT_DER);
    contents.extend(format!("{dashes}BEGIN PRIVATE KEY{dashes}\nAAAA\n").into_bytes());
    let files = vec![file("broken.pem", contents)];
    match load_key("broken.pem", &files) {
        Err(error @ CredentialError::CannotParseKey { .. }) => {
            assert_eq!(error.message(), "cannot parse private key file")
        }
        other => panic!("unexpected {other:?}"),
    }
    assert!(matches!(
        scan_key(format!("{dashes}BEGIN PRIVATE KEY{dashes}\nAAAA\n").as_bytes()),
        Err(KeySearchFailure::CannotParse)
    ));
}

#[test]
fn load_key_reports_a_file_that_was_not_read() {
    match load_key("missing.pem", &Vec::new()) {
        Err(error @ CredentialError::Unreadable { .. }) => {
            assert_eq!(error.message(), "cannot read file missing.pem")
        }
        other => panic!("unexpected {other:?}"),
    }
}

#[test]
fn find_file_returns_the_first_file_of_that_name() {
    let files = vec![file("a", vec![1]), file("b", vec![2]), file("a", vec![3])];
    assert_eq!(find_file(&files, "a").unwrap().contents, vec![1]);
    assert_eq!(find_file(&files, "b").unwrap().contents, vec![2]);
    assert!(find_file(&files, "c").is_none());
}

#[test]
fn load_credential_reads_chain_and_key() {
    let files = vec![cert_file("cert.pem"), key_file("key.pem")];
    let (chain, key) = load_credential("cert.pem", "key.pem", &files).unwrap();
    assert_eq!(chain, vec![CERT_DER.to_vec()]);
    match key {
        PrivateKey::Pkcs8(der) => assert_eq!(der, PKCS8_DER.to_vec()),
        other => panic!("unexpected {other:?}"),
    }
    assert!(matches!(
        load_credential("key.pem", "cert.pem", &files),
        Err(CredentialError::NoKeys { .. })
    ));
}

#[test]
fn create_config_builds_a_configuration() {
    let files = vec![cert_file("cert.pem"), key_file("key.pem")];
    let config = create_config("cert.pem", "key.pem", &files).unwrap();
    assert!(config.client_auth_cert_resolver.has_certs());
    assert_eq!(Arc::strong_count(&config), 1);
}

#[test]
fn create_config_accepts_an_rsa_key() {
    let files = vec![cert_file("cert.pem"), file("key.pem", pem("RSA PRIVATE KEY", &RSA_DER))];
    assert!(create_config("cert.pem", "key.pem", &files).is_ok());
}

#[test]
fn create_config_accepts_an_ed25519_key() {
    let files = vec![cert_file("cert.pem"), file("key.pem", pem("PRIVATE KEY", &ED25519_DER))];
    assert!(create_config("cert.pem", "key.pem", &files).is_ok());
}

#[test]
fn config_result_keeps_what_the_tls_library_returned() {
    let files = vec![cert_file("cert.pem"), key_file("key.pem")];
    let config = create_config("cert.pem", "key.pem", &files).unwrap();
    let kept = config_result(Ok(Arc::clone(&config)), "cert.pem", "key.pem").unwrap();
    assert!(Arc::ptr_eq(&kept, &config));
    match config_result(Err(rustls::Error::General("no".to_string())), "cert.pem", "key.pem") {
        Err(error @ CredentialError::Rejected { .. }) => {
            assert_eq!(error.message(), "cannot use certificate cert.pem with key key.pem")
        }
        other => panic!("unexpected {:?}", other.err()),
    }
}

#[test]
fn create_config_accepts_a_sec1_key() {
    let files = vec![cert_file("cert.pem"), file("key.pem", pem("EC PRIVATE KEY", &SEC1_DER))];
    assert!(create_config("cert.pem", "key.pem", &files).is_ok());
}

#[test]
fn create_config_reports_the_certificate_before_the_key() {
    let files: Vec<PemFile> = Vec::new();
    match create_config("cert.pem", "key.pem", &files) {
        Err(CredentialError::Unreadable { filename }) => assert_eq!(filename, "cert.pem"),
        other => panic!("unexpected {:?}", other.err()),
    }
    let files = vec![cert_file("cert.pem")];
    match create_config("cert.pem", "key.pem", &files) {
        Err(CredentialError::Unreadable { filename }) => assert_eq!(filename, "key.pem"),
        other => panic!("unexpected {:?}", other.err()),
    }
}

#[test]
fn create_config_reports_a_key_that_the_tls_library_refuses() {
    let files = vec![cert_file("cert.pem"), file("key.pem", pem("PRIVATE KEY", &[1, 2, 3]))];
    match create_config("cert.pem", "key.pem", &files) {
        Err(error @ CredentialError::Rejected { .. }) => {
            assert_eq!(error.message(), "cannot use certificate cert.pem with key key.pem")
        }
        other => panic!("unexpected {:?}", other.err()),
    }
}
