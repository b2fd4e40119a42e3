use vstd::prelude::*;
use vstd::string::StringExecFns;

use crate::decimal::{decimal_string, signed_decimal};
use crate::dn::{
    check_dn_match, common_name_key, dn_matches, entries_map, pairs_view, parse, parse_dn,
    render, render_pairs, Entry,
};
use crate::dn_laws::{
    is_plain_key, is_plain_key_char, is_quotable, lemma_quoted_pattern_matches, quoted_pair,
};
use crate::text::{push_char, push_str};

verus! {

/// Status returned by the trust oracle when the signature verified.
pub const ERROR_SUCCESS: i32 = 0;

/// No signature was found in the file.
pub const TRUST_E_NOSIGNATURE: i32 = -2146762496;

/// The file's format is not one the oracle can check.
pub const TRUST_E_SUBJECT_FORM_UNKNOWN: i32 = -2146762749;

/// No trust provider knows the file.
pub const TRUST_E_PROVIDER_UNKNOWN: i32 = -2146762751;

/// The signer's certificate is marked untrusted by the admin or the user.
pub const TRUST_E_EXPLICIT_DISTRUST: i32 = -2146762479;

/// The subject is not trusted for the requested action.
pub const TRUST_E_SUBJECT_NOT_TRUSTED: i32 = -2146762748;

/// The signer was not trusted by the admin, and user trust is disabled.
pub const CRYPT_E_SECURITY_SETTINGS: i32 = -2146885594;

/// The file could not be read or written.
pub const CRYPT_E_FILE_ERROR: i32 = -2146885629;

/// A certificate chain could not be built to a trusted root.
pub const CERT_E_CHAINING: i32 = -2146762486;

/// The state of a verification: signed or not, a message, and the signer's subject as
/// `(signed, message, subject)`.
pub type StatusView = (bool, Seq<char>, Seq<char>);

/// Result of checking a file's signature.
#[derive(Debug, Clone, PartialEq)]
pub struct TrustStatus {
    pub signed: bool,
    pub message: String,
    pub subject: String,
}

impl View for TrustStatus {
    type V = StatusView;

    open spec fn view(&self) -> StatusView {
        (self.signed, self.message@, self.subject@)
    }
}

impl TrustStatus {
    /// An unsigned status with an empty message and subject.
    pub fn new() -> (r: TrustStatus)
        ensures
            r@ == (false, Seq::<char>::empty(), Seq::<char>::empty()),
    {
        TrustStatus { signed: false, message: String::new(), subject: String::new() }
    }
}

impl Default for TrustStatus {
    fn default() -> (r: TrustStatus)
        ensures
            r@ == (false, Seq::<char>::empty(), Seq::<char>::empty()),
    {
        TrustStatus::new()
    }
}

/// Whether `code` says that no signature is there to check.
pub open spec fn is_unsigned_code(code: i32) -> bool {
    code == TRUST_E_NOSIGNATURE || code == TRUST_E_SUBJECT_FORM_UNKNOWN || code
        == TRUST_E_PROVIDER_UNKNOWN
}

/// Whether `code` is one of the failures that end a verification at once.
pub open spec fn is_named_failure(code: i32) -> bool {
    is_unsigned_code(code) || code == TRUST_E_EXPLICIT_DISTRUST || code
        == TRUST_E_SUBJECT_NOT_TRUSTED || code == CRYPT_E_SECURITY_SETTINGS || code
        == CRYPT_E_FILE_ERROR || code == CERT_E_CHAINING
}

/// The message that goes with the oracle's status `code`.
pub open spec fn outcome_message(code: i32) -> Seq<char> {
    if code == ERROR_SUCCESS {
        "Verification succeeded!"@
    } else if is_unsigned_code(code) {
        "The file is not signed."@
    } else if code == TRUST_E_EXPLICIT_DISTRUST {
        "Signature is present but is specifically disallowed by admin or user."@
    } else if code == TRUST_E_SUBJECT_NOT_TRUSTED {
        "Signature is present but subject not trusted."@
    } else if code == CRYPT_E_SECURITY_SETTINGS {
        "Signature was not explictly trusted by admin, and user trust has been disabled. No signature, publisher, or timestamp error."@
    } else if code == CRYPT_E_FILE_ERROR {
        "CRYPT_E_FILE_ERROR: Signature was not explictly trusted by admin, and user trust has been disabled. No signature, publisher, or timestamp error. Original Error Code: "@
            + signed_decimal(code as int)
    } else if code == CERT_E_CHAINING {
        "CERT_E_CHAINING: There was an error relating to the certificate chain for the signed file. Check if your certificate is in Root storage. Original Error Code: "@
            + signed_decimal(code as int)
    } else {
        "Unexpected error. Verification failed. Original Error Code: "@ + signed_decimal(
            code as int,
        )
    }
}

/// The status that the oracle's `code` gives, before the subject is known.
pub open spec fn classified(code: i32) -> StatusView {
    (code == ERROR_SUCCESS, outcome_message(code), Seq::empty())
}

/// The status for the oracle's status `code`: signed only on success, with a message for each
/// known failure and one that quotes the code for any other; the subject is left empty.
pub fn classify(code: i32) -> (r: TrustStatus)
    ensures
        r@ == classified(code),
{
    let message = if code == ERROR_SUCCESS {
        String::from_str("Verification succeeded!")
    } else if code == TRUST_E_NOSIGNATURE || code == TRUST_E_SUBJECT_FORM_UNKNOWN || code
        == TRUST_E_PROVIDER_UNKNOWN {
        String::from_str("The file is not signed.")
    } else if code == TRUST_E_EXPLICIT_DISTRUST {
        String::from_str("Signature is present but is specifically disallowed by admin or user.")
    } else if code == TRUST_E_SUBJECT_NOT_TRUSTED {
        String::from_str("Signature is present but subject not trusted.")
    } else if code == CRYPT_E_SECURITY_SETTINGS {
        String::from_str(
            "Signature was not explictly trusted by admin, and user trust has been disabled. No signature, publisher, or timestamp error.",
        )
    } else if code == CRYPT_E_FILE_ERROR {
        with_code(
            "CRYPT_E_FILE_ERROR: Signature was not explictly trusted by admin, and user trust has been disabled. No signature, publisher, or timestamp error. Original Error Code: ",
            code,
        )
    } else if code == CERT_E_CHAINING {
        with_code(
            "CERT_E_CHAINING: There was an error relating to the certificate chain for the signed file. Check if your certificate is in Root storage. Original Error Code: ",
            code,
        )
    } else {
        with_code("Unexpected error. Verification failed. Original Error Code: ", code)
    };
    TrustStatus { signed: code == ERROR_SUCCESS, message, subject: String::new() }
}

fn with_code(prefix: &str, code: i32) -> (r: String)
    ensures
        r@ == prefix@ + signed_decimal(code as int),
{
    let mut s = String::from_str(prefix);
    let digits = decimal_string(code);
    push_str(&mut s, digits.as_str());
    s
}

/// Whether a verification that got `code` goes on to read the signer's subject: on success
/// and on an unexpected code, but not after a named failure.
pub fn reads_subject(code: i32) -> (r: bool)
    ensures
        r == !is_named_failure(code),
{
    !(code == TRUST_E_NOSIGNATURE || code == TRUST_E_SUBJECT_FORM_UNKNOWN || code
        == TRUST_E_PROVIDER_UNKNOWN || code == TRUST_E_EXPLICIT_DISTRUST || code
        == TRUST_E_SUBJECT_NOT_TRUSTED || code == CRYPT_E_SECURITY_SETTINGS || code
        == CRYPT_E_FILE_ERROR || code == CERT_E_CHAINING)
}

/// The file extensions whose signature can be checked.
pub open spec fn allowed_extension_list() -> Seq<Seq<char>> {
    seq!["exe"@, "cab"@, "dll"@, "ocx"@, "msi"@, "msix"@, "xpi"@]
}

/// The character sequences of a list of strings.
pub open spec fn strings_view(v: Seq<String>) -> Seq<Seq<char>> {
    v.map_values(|s: String| s@)
}

/// The file extensions whose signature can be checked: exe, cab, dll, ocx, msi, msix, xpi.
pub fn allowed_extensions() -> (r: Vec<String>)
    ensures
        strings_view(r@) == allowed_extension_list(),
{
    let r = vec![
        String::from_str("exe"),
        String::from_str("cab"),
        String::from_str("dll"),
        String::from_str("ocx"),
        String::from_str("msi"),
        String::from_str("msix"),
        String::from_str("xpi"),
    ];
    assert(strings_view(r@) =~= allowed_extension_list());
    r
}

/// `items` with `sep` between each two.
pub open spec fn joined(items: Seq<Seq<char>>, sep: char) -> Seq<char>
    decreases items.len(),
{
    if items.len() == 0 {
        Seq::empty()
    } else if items.len() == 1 {
        items[0]
    } else {
        joined(items.drop_last(), sep).push(sep) + items.last()
    }
}

fn join(items: &Vec<String>, sep: char) -> (r: String)
    ensures
        r@ == joined(strings_view(items@), sep),
{
    let ghost all = strings_view(items@);
    let mut out = String::new();
    let mut j: usize = 0;
    while j < items.len()
        invariant
            j <= items@.len(),
            all == strings_view(items@),
            out@ == joined(all.subrange(0, j as int), sep),
        decreases items@.len() - j,
    {
        assert(all.subrange(0, j + 1).drop_last() =~= all.subrange(0, j as int));
        assert(all[j as int] == items@[j as int]@);
        if j > 0 {
            push_char(&mut out, sep);
        }
        push_str(&mut out, items[j].as_str());
        assert(out@ =~= joined(all.subrange(0, j + 1), sep));
        j = j + 1;
    }
    assert(all.subrange(0, j as int) =~= all);
    out
}

/// Why a file is not handed to the trust oracle.
#[derive(Debug, Clone, PartialEq)]
pub enum SignatureError {
    /// The path does not name a regular file.
    NotAFile(String),
    /// The path has no extension.
    MissingExtension,
    /// The extension is not among the allowed ones.
    DisallowedExtension,
}

/// The text of each error.
pub open spec fn error_message(e: SignatureError) -> Seq<char> {
    match e {
        SignatureError::NotAFile(path) => "Unable to locate target file \""@ + path@ + "\""@,
        SignatureError::MissingExtension => "Failed to get file extension"@,
        SignatureError::DisallowedExtension => "Accepted file types are: "@ + joined(
            allowed_extension_list(),
            ',',
        ),
    }
}

impl SignatureError {
    /// The text of the error.
    pub fn message(&self) -> (r: String)
        ensures
            r@ == error_message(*self),
    {
        match self {
            SignatureError::NotAFile(path) => {
                let mut s = String::from_str("Unable to locate target file \"");
                push_str(&mut s, path.as_str());
                push_str(&mut s, "\"");
                s
            },
            SignatureError::MissingExtension => String::from_str("Failed to get file extension"),
            SignatureError::DisallowedExtension => {
                let mut s = String::from_str("Accepted file types are: ");
                let list = join(&allowed_extensions(), ',');
                push_str(&mut s, list.as_str());
                s
            },
        }
    }
}

/// Checks that `path` may be handed to the trust oracle: it names a regular file (`is_file`)
/// whose `extension` is one of `allowed_extensions`.
pub fn validate_signed_file(path: &str, is_file: bool, extension: Option<&str>) -> (r: Result<
    (),
    SignatureError,
>)
    ensures
        !is_file ==> (r matches Err(SignatureError::NotAFile(p)) && p@ == path@),
        is_file && extension is None ==> r == Err::<(), SignatureError>(
            SignatureError::MissingExtension,
        ),
        is_file && extension is Some ==> {
            if allowed_extension_list().contains(extension.unwrap()@) {
                r is Ok
            } else {
                r == Err::<(), SignatureError>(SignatureError::DisallowedExtension)
            }
        },
{
    if !is_file {
        return Err(SignatureError::NotAFile(String::from_str(path)));
    }
    match extension {
        None => Err(SignatureError::MissingExtension),
        Some(ext) => {
            let allowed = allowed_extensions();
            let mut wanted = String::new();
            push_str(&mut wanted, ext);
            let mut j: usize = 0;
            while j < allowed.len()
                invariant
                    j <= allowed@.len(),
                    strings_view(allowed@) == allowed_extension_list(),
                    wanted@ == ext@,
                    is_file,
                    extension == Some(ext),
                    forall|m: int| 0 <= m < j ==> allowed_extension_list()[m] != ext@,
                decreases allowed@.len() - j,
            {
                assert(allowed_extension_list()[j as int] == allowed@[j as int]@);
                if allowed[j] == wanted {
                    return Ok(());
                }
                j = j + 1;
            }
            Err(SignatureError::DisallowedExtension)
        },
    }
}

/// The subject keys and the object identifiers under which the certificate holds them.
pub open spec fn publisher_mapping() -> Seq<Entry> {
    seq![
        ("CN"@, "2.5.4.3"@),
        ("L"@, "2.5.4.7"@),
        ("O"@, "2.5.4.10"@),
        ("OU"@, "2.5.4.11"@),
        ("E"@, "1.2.840.113549.1.9.1"@),
        ("C"@, "2.5.4.6"@),
        ("S"@, "2.5.4.8"@),
        ("STREET"@, "2.5.4.9"@),
        ("T"@, "2.5.4.12"@),
        ("G"@, "2.5.4.42"@),
        ("I"@, "2.5.4.43"@),
        ("SN"@, "2.5.4.4"@),
        ("DC"@, "0.9.2342.19200300.100.1.25"@),
        ("SERIALNUMBER"@, "2.5.4.5"@),
    ]
}

fn pair(k: &str, v: &str) -> (r: (String, String))
    ensures
        r.0@ == k@,
        r.1@ == v@,
{
    (String::from_str(k), String::from_str(v))
}

/// The subject keys paired with the object identifiers of the certificate attributes that
/// hold them, in the order in which the subject is written.
pub fn create_publisher_mapping() -> (r: Vec<(String, String)>)
    ensures
        pairs_view(r@) == publisher_mapping(),
{
    let r = vec![
        pair("CN", "2.5.4.3"),
        pair("L", "2.5.4.7"),
        pair("O", "2.5.4.10"),
        pair("OU", "2.5.4.11"),
        pair("E", "1.2.840.113549.1.9.1"),
        pair("C", "2.5.4.6"),
        pair("S", "2.5.4.8"),
        pair("STREET", "2.5.4.9"),
        pair("T", "2.5.4.12"),
        pair("G", "2.5.4.42"),
        pair("I", "2.5.4.43"),
        pair("SN", "2.5.4.4"),
        pair("DC", "0.9.2342.19200300.100.1.25"),
        pair("SERIALNUMBER", "2.5.4.5"),
    ];
    assert(pairs_view(r@) =~= publisher_mapping());
    r
}

/// The first `n` keys of `mapping` that have a value in `values`, with that value.
pub open spec fn present_attributes(
    mapping: Seq<Entry>,
    values: Seq<Option<String>>,
    n: int,
) -> Seq<Entry>
    decreases n,
{
    if n <= 0 {
        Seq::empty()
    } else {
        let prev = present_attributes(mapping, values, n - 1);
        match values[n - 1] {
            Some(v) => prev.push((mapping[n - 1].0, v@)),
            None => prev,
        }
    }
}

/// The subject written from the attribute values read for each key of `publisher_mapping`,
/// in its order (`None` where the certificate has no such attribute).
pub open spec fn subject_of(values: Seq<Option<String>>) -> Seq<char> {
    let n = if values.len() < publisher_mapping().len() {
        values.len() as int
    } else {
        publisher_mapping().len() as int
    };
    render(present_attributes(publisher_mapping(), values, n))
}

/// Writes the subject as `KEY="value",` for each key of `create_publisher_mapping`, in its
/// order, that has a value in `values` at the same position.
pub fn get_certificate_subject(values: &Vec<Option<String>>) -> (r: String)
    ensures
        r@ == subject_of(values@),
{
    let mapping = create_publisher_mapping();
    let n = if values.len() < mapping.len() {
        values.len()
    } else {
        mapping.len()
    };
    let mut present: Vec<(String, String)> = Vec::new();
    let mut j: usize = 0;
    while j < n
        invariant
            j <= n,
            n <= values@.len(),
            n <= mapping@.len(),
            pairs_view(mapping@) == publisher_mapping(),
            pairs_view(present@) == present_attributes(publisher_mapping(), values@, j as int),
        decreases n - j,
    {
        assert(publisher_mapping()[j as int].0 == mapping@[j as int].0@);
        match &values[j] {
            Some(v) => {
                let p = (mapping[j].0.clone(), v.clone());
                let ghost prev = present@;
                present.push(p);
                assert(pairs_view(present@) =~= pairs_view(prev).push((p.0@, p.1@)));
            },
            None => {},
        }
        j = j + 1;
    }
    render_pairs(&present)
}

/// What the oracle tells of the signer once the file's status is known.
pub enum SignerInfo {
    /// The oracle kept no provider data for the file.
    NoProviderData,
    /// The file has no first signer, or it has no certificate chain.
    NoSigner,
    /// The value of each attribute of `create_publisher_mapping`, in its order, or `None`
    /// where the certificate lacks it.
    Attributes(Vec<Option<String>>),
}

/// The status once the signer's subject has been looked for.
pub open spec fn with_signer(status: StatusView, info: SignerInfo) -> StatusView {
    match info {
        SignerInfo::NoProviderData => (false, "pProvData is null"@, status.2),
        SignerInfo::NoSigner => (false, "sign subject is empty"@, status.2),
        SignerInfo::Attributes(values) => {
            let subject = subject_of(values@);
            if subject.len() == 0 {
                (status.0, "Sign subject info is empty."@, subject)
            } else {
                (status.0, status.1, subject)
            }
        },
    }
}

/// The result of checking a file whose oracle status is `code`; `info` is read only when the
/// status leads on to the subject.
pub open spec fn verified_from_path(code: i32, info: SignerInfo) -> StatusView {
    if is_named_failure(code) {
        classified(code)
    } else {
        with_signer(classified(code), info)
    }
}

/// Completes `status` with what the oracle told of the signer: a missing provider or signer
/// makes the file unsigned; otherwise the subject is written from the attribute values.
pub fn complete_with_signer(status: TrustStatus, info: SignerInfo) -> (r: TrustStatus)
    ensures
        r@ == with_signer(status@, info),
{
    match info {
        SignerInfo::NoProviderData => TrustStatus {
            signed: false,
            message: String::from_str("pProvData is null"),
            subject: status.subject,
        },
        SignerInfo::NoSigner => TrustStatus {
            signed: false,
            message: String::from_str("sign subject is empty"),
            subject: status.subject,
        },
        SignerInfo::Attributes(values) => {
            let subject = get_certificate_subject(&values);
            if subject.as_str().unicode_len() == 0 {
                TrustStatus {
                    signed: status.signed,
                    message: String::from_str("Sign subject info is empty."),
                    subject,
                }
            } else {
                TrustStatus { signed: status.signed, message: status.message, subject }
            }
        },
    }
}

/// Whether one of `names` matches the subject written as `subject`.
pub open spec fn some_name_matches(subject: Seq<char>, names: Seq<Seq<char>>) -> bool {
    exists|j: int| 0 <= j < names.len() && dn_matches(entries_map(parse(subject)), #[trigger] names[j])
}

/// A verification result after the publisher check: a signed result stands when no names
/// are given or one of them matches its subject; otherwise it becomes unsigned.
pub open spec fn publisher_checked(result: StatusView, names: Seq<Seq<char>>) -> StatusView {
    if !result.0 || names.len() == 0 || some_name_matches(result.2, names) {
        result
    } else {
        (false, "Publisher name does not match."@, result.2)
    }
}

/// Holds a verification result against the allowed publisher names: an unsigned result is
/// returned as it is; a signed one stands when `publish_names` is empty or one of them
/// matches its subject, and is otherwise marked unsigned with the subject kept.
pub fn match_publisher(result: TrustStatus, publish_names: &Vec<String>) -> (r: TrustStatus)
    ensures
        r@ == publisher_checked(result@, strings_view(publish_names@)),
{
    if !result.signed || publish_names.len() == 0 {
        return result;
    }
    let ghost names = strings_view(publish_names@);
    let subject = parse_dn(result.subject.as_str());
    let mut j: usize = 0;
    while j < publish_names.len()
        invariant
            j <= publish_names@.len(),
            names == strings_view(publish_names@),
            subject@ == parse(result.subject@),
            forall|m: int| 0 <= m < j ==> !dn_matches(entries_map(parse(result.subject@)), #[trigger] names[m]),
        decreases publish_names@.len() - j,
    {
        assert(names[j as int] == publish_names@[j as int]@);
        if check_dn_match(&subject, publish_names[j].as_str()) {
            return result;
        }
        j = j + 1;
    }
    TrustStatus {
        signed: false,
        message: String::from_str("Publisher name does not match."),
        subject: result.subject,
    }
}

/// A file that the oracle reports as unsigned comes back unsigned, with the message "The file
/// is not signed." and no subject, whatever the signer lookup and the publisher names.
pub proof fn lemma_unsigned_file_result(code: i32, info: SignerInfo, names: Seq<Seq<char>>)
    requires
        is_unsigned_code(code),
    ensures
        is_named_failure(code),
        publisher_checked(verified_from_path(code, info), names) == (
            false,
            "The file is not signed."@,
            Seq::<char>::empty(),
        ),
{
}

/// A signed result whose subject has the `CN` "Acme", held against the single publisher name
/// `CN="Other"`, becomes unsigned with the message "Publisher name does not match." and keeps
/// its subject.
pub proof fn lemma_other_publisher_rejected(result: StatusView)
    requires
        result.0,
        entries_map(parse(result.2)).contains_key("CN"@),
        entries_map(parse(result.2))["CN"@] == "Acme"@,
    ensures
        publisher_checked(result, seq!["CN=\"Other\""@]) == (
            false,
            "Publisher name does not match."@,
            result.2,
        ),
{
    reveal_strlit("CN");
    reveal_strlit("Acme");
    reveal_strlit("Other");
    reveal_strlit("CN=\"Other\"");
    let k = common_name_key();
    let v = "Other"@;
    assert("CN"@ =~= k);
    assert("CN=\"Other\""@ =~= quoted_pair(k, v));
    assert(is_plain_key(k)) by {
        assert forall|m: int| 0 <= m < k.len() implies is_plain_key_char(#[trigger] k[m]) by {
            assert(m == 0 || m == 1);
        }
    }
    assert(is_quotable(v)) by {
        assert forall|m: int| 0 <= m < v.len() implies #[trigger] v[m] != '"' by {
            assert(0 <= m < 5);
        }
    }
    let subject = entries_map(parse(result.2));
    lemma_quoted_pattern_matches(subject, k, v);
    assert("Acme"@ != v) by {
        assert("Acme"@.len() != v.len());
    }
    let names = seq!["CN=\"Other\""@];
    assert(!some_name_matches(result.2, names)) by {
        assert forall|j: int| 0 <= j < names.len() implies !dn_matches(subject, #[trigger] names[j]) by {
            assert(j == 0);
        }
    }
}

/// Signature verification as a type, offering the list of allowed extensions.
pub struct Signatures {}

impl Signatures {
    pub fn new() -> (r: Signatures) {
        Signatures {  }
    }

    /// The file extensions whose signature can be checked.
    pub fn allowed_extensions() -> (r: Vec<String>)
        ensures
            strings_view(r@) == allowed_extension_list(),
    {
        allowed_extensions()
    }
}

} // verus!
