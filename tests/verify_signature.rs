use std::collections::HashMap;

use whimy::decimal::decimal_string;
use whimy::dn::parse_dn;
use whimy::text::trim_end_string;
use whimy::verify_signature::{
    allowed_extensions, classify, complete_with_signer, create_publisher_mapping,
    get_certificate_subject, match_publisher, reads_subject, validate_signed_file, SignatureError,
    SignerInfo, Signatures, TrustStatus, CERT_E_CHAINING, CRYPT_E_FILE_ERROR,
    CRYPT_E_SECURITY_SETTINGS, ERROR_SUCCESS, TRUST_E_EXPLICIT_DISTRUST, TRUST_E_NOSIGNATURE,
    TRUST_E_PROVIDER_UNKNOWN, TRUST_E_SUBJECT_FORM_UNKNOWN, TRUST_E_SUBJECT_NOT_TRUSTED,
};

const SIGNED_PATH: &str = "./test_signed_data/signed_exes";

/// The attribute values of a certificate, in the order of `create_publisher_mapping`.
fn attributes(pairs: &[(&str, &str)]) -> Vec<Option<String>> {
    create_publisher_mapping()
        .iter()
        .map(|(key, _)| {
            pairs
                .iter()
                .find(|(k, _)| k == key)
                .map(|(_, v)| v.to_string())
        })
        .collect()
}

/// What checking a file gives once the oracle has answered `code` and, where asked, `info`.
fn verify(code: i32, info: SignerInfo, publish_names: Vec<String>) -> TrustStatus {
    let status = classify(code);
    let from_path = if reads_subject(code) {
        complete_with_signer(status, info)
    } else {
        status
    };
    match_publisher(from_path, &publish_names)
}

fn subject_map(subject: &str) -> HashMap<String, String> {
    parse_dn(subject).pairs().into_iter().collect()
}

fn assert_trust_status_eq(trusted_status: &TrustStatus, expected: &TrustStatus) -> bool {
    if trusted_status.subject.len() != expected.subject.len() {
        return false;
    }
    if trusted_status.signed != expected.signed || trusted_status.message != expected.message {
        return false;
    }
    subject_map(&expected.subject) == subject_map(&trusted_status.subject)
}

fn microsoft_attributes() -> Vec<Option<String>> {
    attributes(&[
        ("S", "Washington"),
        ("L", "Redmond"),
        ("OU", "Microsoft Corporation"),
        ("C", "US"),
        ("CN", "Microsoft Corporation"),
        ("SERIALNUMBER", "230865+470561"),
        ("O", "Microsoft Corporation"),
    ])
}

#[test]
fn test_signature_for_exe() {
    let publisher_names = vec![String::from(
        r#"CN="Microsoft Corporation",L="Redmond",O="Microsoft Corporation",OU="Microsoft Corporation",C="US",S="Washington""#,
    )];
    let signature_status = verify(
        ERROR_SUCCESS,
        SignerInfo::Attributes(microsoft_attributes()),
        publisher_names,
    );
    let expected_subject = String::from(
        r#"S="Washington",L="Redmond",OU="Microsoft Corporation",C="US",CN="Microsoft Corporation",SERIALNUMBER="230865+470561",O="Microsoft Corporation","#,
    );
    let expected = TrustStatus {
        message: "Verification succeeded!".to_string(),
        subject: expected_subject,
        signed: true,
    };
    assert!(assert_trust_status_eq(&signature_status, &expected));
}

#[test]
fn test_signature_for_dll() {
    let publisher_names = vec![String::from(
        r#"CN="Valve",L="Bellevue",O="Valve",C="US",S="WA""#,
    )];
    let values = attributes(&[
        ("S", "WA"),
        ("L", "Bellevue"),
        ("C", "US"),
        ("CN", "Valve"),
        ("O", "Valve"),
    ]);
    let signature_status = verify(ERROR_SUCCESS, SignerInfo::Attributes(values), publisher_names);
    let expected_subject = String::from(r#"S="WA",L="Bellevue",C="US",CN="Valve",O="Valve","#);
    let expected = TrustStatus {
        message: "Verification succeeded!".to_string(),
        subject: expected_subject,
        signed: true,
    };
    assert!(assert_trust_status_eq(&signature_status, &expected));
}

#[test]
fn test_unsigned() {
    let publisher_names = vec![String::from(
        r#"CN="Microsoft Corporation",L="Redmond",O="Microsoft Corporation",OU="Microsoft Corporation",C="US",S="Washington""#,
    )];
    let signature_status = verify(
        TRUST_E_NOSIGNATURE,
        SignerInfo::Attributes(microsoft_attributes()),
        publisher_names,
    );

    let expected = TrustStatus {
        message: "The file is not signed.".to_string(),
        subject: "".to_string(),
        signed: false,
    };
    assert!(assert_trust_status_eq(&signature_status, &expected));
}

#[test]
fn test_incorrect_extension() {
    let file_path = format!("{SIGNED_PATH}/empty.txt");
    let signature_status = validate_signed_file(&file_path, true, Some("txt"));
    let expected_error_string = "Accepted file types are: exe,cab,dll,ocx,msi,msix,xpi";

    assert!(signature_status.is_err());
    assert_eq!(signature_status.unwrap_err().message(), expected_error_string);
}

#[test]
fn test_not_a_file() {
    let file_path = SIGNED_PATH;
    let signature_status = validate_signed_file(file_path, false, None);
    let expected_error_string = r#"Unable to locate target file "./test_signed_data/signed_exes""#;

    assert!(signature_status.is_err());
    assert_eq!(signature_status.unwrap_err().message(), expected_error_string);
}

#[test]
fn test_custom_signature() {
    let publisher_names = vec![String::from(
        r#"O="TotallyFakeTestDomain, Inc.",C=US,CN=TotallyFakeTestDomain.com"#,
    )];
    let values = attributes(&[
        ("O", "TotallyFakeTestDomain, Inc."),
        ("C", "US"),
        ("CN", "TotallyFakeTestDomain.com"),
    ]);
    let signature_status = verify(ERROR_SUCCESS, SignerInfo::Attributes(values), publisher_names);
    let expected_subject =
        String::from(r#"O="TotallyFakeTestDomain, Inc.",C="US",CN="TotallyFakeTestDomain.com","#);
    let expected = TrustStatus {
        message: "Verification succeeded!".to_string(),
        subject: expected_subject,
        signed: true,
    };
    assert!(assert_trust_status_eq(&signature_status, &expected));
}

#[test]
fn test_signature_does_not_match() {
    let correct_publisher_subject = r#"S="Washington",L="Redmond",OU="Microsoft Corporation",C="US",CN="Microsoft Corporation",SERIALNUMBER="230865+470561",O="Microsoft Corporation","#;
    let incorrect_publisher_subject = r#"CN="Microsoft Corporationn",L="Redmondd",O="Microsoft Corporationn",OU="Microsoft Corporationn",C="US",S="Washington""#;

    let publisher_names = vec![String::from(incorrect_publisher_subject)];
    let signature_status = verify(
        ERROR_SUCCESS,
        SignerInfo::Attributes(microsoft_attributes()),
        publisher_names,
    );
    let expected = TrustStatus {
        message: "Publisher name does not match.".to_string(),
        subject: correct_publisher_subject.to_string(),
        signed: false,
    };
    assert!(assert_trust_status_eq(&signature_status, &expected));
}

#[test]
fn subject_is_written_in_mapping_order() {
    let subject = get_certificate_subject(&microsoft_attributes());
    assert_eq!(
        subject,
        r#"CN="Microsoft Corporation",L="Redmond",O="Microsoft Corporation",OU="Microsoft Corporation",C="US",S="Washington",SERIALNUMBER="230865+470561","#
    );
}

#[test]
fn subject_ignores_values_beyond_the_mapping() {
    let mut values = attributes(&[("CN", "Acme")]);
    values.push(Some("extra".to_string()));
    assert_eq!(get_certificate_subject(&values), r#"CN="Acme","#);
    assert_eq!(get_certificate_subject(&vec![]), "");
}

#[test]
fn classify_success() {
    let s = classify(ERROR_SUCCESS);
    assert!(s.signed);
    assert_eq!(s.message, "Verification succeeded!");
    assert_eq!(s.subject, "");
    assert!(reads_subject(ERROR_SUCCESS));
}

#[test]
fn classify_unsigned_codes() {
    for code in [TRUST_E_NOSIGNATURE, TRUST_E_SUBJECT_FORM_UNKNOWN, TRUST_E_PROVIDER_UNKNOWN] {
        let s = classify(code);
        assert!(!s.signed);
        assert_eq!(s.message, "The file is not signed.");
        assert!(!reads_subject(code));
    }
}

#[test]
fn classify_trust_failures() {
    assert_eq!(
        classify(TRUST_E_EXPLICIT_DISTRUST).message,
        "Signature is present but is specifically disallowed by admin or user."
    );
    assert_eq!(
        classify(TRUST_E_SUBJECT_NOT_TRUSTED).message,
        "Signature is present but subject not trusted."
    );
    assert_eq!(
        classify(CRYPT_E_SECURITY_SETTINGS).message,
        "Signature was not explictly trusted by admin, and user trust has been disabled. No signature, publisher, or timestamp error."
    );
    for code in [
        TRUST_E_EXPLICIT_DISTRUST,
        TRUST_E_SUBJECT_NOT_TRUSTED,
        CRYPT_E_SECURITY_SETTINGS,
        CRYPT_E_FILE_ERROR,
        CERT_E_CHAINING,
    ] {
        assert!(!classify(code).signed);
        assert!(!reads_subject(code));
    }
}

#[test]
fn classify_quotes_the_code() {
    assert_eq!(
        classify(CRYPT_E_FILE_ERROR).message,
        "CRYPT_E_FILE_ERROR: Signature was not explictly trusted by admin, and user trust has been disabled. No signature, publisher, or timestamp error. Original Error Code: -2146885629"
    );
    assert_eq!(
        classify(CERT_E_CHAINING).message,
        "CERT_E_CHAINING: There was an error relating to the certificate chain for the signed file. Check if your certificate is in Root storage. Original Error Code: -2146762486"
    );
    assert_eq!(
        classify(1).message,
        "Unexpected error. Verification failed. Original Error Code: 1"
    );
    assert!(!classify(1).signed);
    assert!(reads_subject(1));
}

#[test]
fn decimal_matches_std_formatting() {
    for n in [0, 7, 10, 99, 100, 12345, -1, -10, i32::MAX, i32::MIN, -2146762496] {
        assert_eq!(decimal_string(n), n.to_string());
    }
}

#[test]
fn missing_provider_or_signer_makes_unsigned() {
    let s = complete_with_signer(classify(ERROR_SUCCESS), SignerInfo::NoProviderData);
    assert!(!s.signed);
    assert_eq!(s.message, "pProvData is null");
    assert_eq!(s.subject, "");
    let s = complete_with_signer(classify(ERROR_SUCCESS), SignerInfo::NoSigner);
    assert!(!s.signed);
    assert_eq!(s.message, "sign subject is empty");
}

#[test]
fn empty_subject_sets_message() {
    let s = complete_with_signer(classify(ERROR_SUCCESS), SignerInfo::Attributes(attributes(&[])));
    assert!(s.signed);
    assert_eq!(s.message, "Sign subject info is empty.");
    assert_eq!(s.subject, "");
}

#[test]
fn unexpected_code_keeps_message_with_subject() {
    let s = complete_with_signer(
        classify(5),
        SignerInfo::Attributes(attributes(&[("CN", "Acme")])),
    );
    assert!(!s.signed);
    assert_eq!(s.message, "Unexpected error. Verification failed. Original Error Code: 5");
    assert_eq!(s.subject, r#"CN="Acme","#);
}

#[test]
fn unsigned_file_ignores_publisher_names() {
    for names in [vec![], vec!["CN=\"Acme\"".to_string()], vec!["Acme".to_string()]] {
        let s = verify(
            TRUST_E_NOSIGNATURE,
            SignerInfo::Attributes(attributes(&[("CN", "Acme")])),
            names,
        );
        assert_eq!(
            s,
            TrustStatus {
                signed: false,
                message: "The file is not signed.".to_string(),
                subject: "".to_string(),
            }
        );
    }
}

#[test]
fn other_publisher_is_rejected() {
    let values = attributes(&[("CN", "Acme"), ("O", "Acme Inc")]);
    let s = verify(
        ERROR_SUCCESS,
        SignerInfo::Attributes(values),
        vec!["CN=\"Other\"".to_string()],
    );
    assert_eq!(
        s,
        TrustStatus {
            signed: false,
            message: "Publisher name does not match.".to_string(),
            subject: r#"CN="Acme",O="Acme Inc","#.to_string(),
        }
    );
}

#[test]
fn no_publisher_names_keeps_signed_result() {
    let values = attributes(&[("CN", "Acme")]);
    let s = verify(ERROR_SUCCESS, SignerInfo::Attributes(values), vec![]);
    assert!(s.signed);
    assert_eq!(s.message, "Verification succeeded!");
}

#[test]
fn any_matching_name_is_enough() {
    let values = attributes(&[("CN", "Acme")]);
    let s = verify(
        ERROR_SUCCESS,
        SignerInfo::Attributes(values),
        vec!["CN=\"Other\"".to_string(), "Acme".to_string()],
    );
    assert!(s.signed);
    assert_eq!(s.subject, r#"CN="Acme","#);
}

#[test]
fn validate_accepts_allowed_extensions() {
    for ext in ["exe", "cab", "dll", "ocx", "msi", "msix", "xpi"] {
        assert_eq!(validate_signed_file("a.file", true, Some(ext)), Ok(()));
    }
    assert_eq!(
        validate_signed_file("a.EXE", true, Some("EXE")),
        Err(SignatureError::DisallowedExtension)
    );
}

#[test]
fn validate_reports_missing_extension() {
    let r = validate_signed_file("noext", true, None);
    assert_eq!(r, Err(SignatureError::MissingExtension));
    assert_eq!(r.unwrap_err().message(), "Failed to get file extension");
}

#[test]
fn validate_checks_file_before_extension() {
    assert_eq!(
        validate_signed_file("dir.txt", false, Some("txt")),
        Err(SignatureError::NotAFile("dir.txt".to_string()))
    );
}

#[test]
fn allowed_extensions_list() {
    let expected: Vec<String> = ["exe", "cab", "dll", "ocx", "msi", "msix", "xpi"]
        .iter()
        .map(|s| s.to_string())
        .collect();
    assert_eq!(allowed_extensions(), expected);
    assert_eq!(Signatures::allowed_extensions(), expected);
    let _ = Signatures::new();
}

#[test]
fn publisher_mapping_pairs_keys_with_oids() {
    let m = create_publisher_mapping();
    assert_eq!(m.len(), 14);
    assert_eq!(m[0], ("CN".to_string(), "2.5.4.3".to_string()));
    assert_eq!(
        m[12],
        ("DC".to_string(), "0.9.2342.19200300.100.1.25".to_string())
    );
    assert_eq!(m[13], ("SERIALNUMBER".to_string(), "2.5.4.5".to_string()));
}

#[test]
fn new_status_is_empty() {
    let s = TrustStatus::new();
    assert!(!s.signed);
    assert_eq!(s.message, "");
    assert_eq!(s.subject, "");
    assert_eq!(TrustStatus::default(), s);
}

#[test]
fn trailing_white_space_is_trimmed_from_paths() {
    assert_eq!(trim_end_string("C:\\a b\\file.exe \t\n"), "C:\\a b\\file.exe");
    assert_eq!(trim_end_string("  x"), "  x");
    assert_eq!(trim_end_string("\u{3000}"), "");
}
