//! The self-signed development certificate: its subject, names and
//! expiry, generated with `rcgen`.

use vstd::prelude::*;

use crate::text::starts_with;

verus! {

#[verifier::external_type_specification]
#[verifier::external_body]
pub struct ExCertificateParams(rcgen::CertificateParams);

#[verifier::external_type_specification]
#[verifier::external_body]
pub struct ExDistinguishedName(rcgen::DistinguishedName);

#[verifier::external_type_specification]
#[verifier::external_body]
pub struct ExKeyPair(rcgen::KeyPair);

#[verifier::external_type_specification]
#[verifier::external_body]
pub struct ExCertificate(rcgen::Certificate);

#[verifier::external_type_specification]
#[verifier::external_body]
pub struct ExRcgenError(rcgen::Error);

/// A field of a certificate's subject name.
#[derive(Debug, Clone, Copy, PartialEq, Eq, Structural)]
pub enum NameField {
    CommonName,
    OrganizationName,
}

/// Every character of `s` is ASCII.
pub open spec fn all_ascii(s: Seq<char>) -> bool {
    forall|i: int| 0 <= i < s.len() ==> (#[trigger] s[i] as u32) < 128
}

/// The first line of a PEM block with label `label`.
pub open spec fn pem_begin(label: Seq<char>) -> Seq<char> {
    "-----BEGIN "@ + label + "-----"@
}

/// A subject name: its fields in the order first given, each with its
/// latest value.
pub type SubjectView = Seq<(NameField, Seq<char>)>;

/// `DistinguishedName::push`: the value of a field already present is
/// replaced where it stands; a new field goes last.
pub open spec fn dn_push(entries: SubjectView, field: NameField, value: Seq<char>) -> SubjectView
    decreases entries.len(),
{
    if entries.len() == 0 {
        seq![(field, value)]
    } else if entries[0].0 == field {
        seq![(field, value)] + entries.drop_first()
    } else {
        seq![entries[0]] + dn_push(entries.drop_first(), field, value)
    }
}

/// What certificate parameters hold of what the library sets: the subject
/// alternative names, the subject name and the last day of validity.
pub struct ParamsView {
    pub names: Seq<Seq<char>>,
    pub subject: SubjectView,
    pub not_after: (i32, u8, u8),
}

/// A subject name under construction (`rcgen::DistinguishedName`).
pub struct SubjectName {
    dn: rcgen::DistinguishedName,
    entries: Ghost<SubjectView>,
}

impl View for SubjectName {
    type V = SubjectView;

    closed spec fn view(&self) -> SubjectView {
        self.entries@
    }
}

/// Certificate parameters (`rcgen::CertificateParams`).
pub struct CertParams {
    params: rcgen::CertificateParams,
    set: Ghost<ParamsView>,
}

impl View for CertParams {
    type V = ParamsView;

    closed spec fn view(&self) -> ParamsView {
        self.set@
    }
}

/// A signed certificate (`rcgen::Certificate`), seen through the
/// parameters it was signed with, which it keeps.
pub struct SignedCert {
    cert: rcgen::Certificate,
    params: Ghost<ParamsView>,
}

impl View for SignedCert {
    type V = ParamsView;

    closed spec fn view(&self) -> ParamsView {
        self.params@
    }
}

/// The text of each name.
pub open spec fn names_view(names: Seq<String>) -> Seq<Seq<char>> {
    names.map_values(|s: String| s@)
}

/// `CertificateParams::new`: default parameters (subject
/// `CN=rcgen self signed cert`, valid until 1 January 4096) whose subject
/// alternative names are `names`, each an IP address when it parses as one,
/// else a DNS name, which must be ASCII; so it succeeds when every name is
/// ASCII.
#[verifier::external_body]
fn certificate_params(names: Vec<String>) -> (r: Result<CertParams, rcgen::Error>)
    ensures
        (forall|i: int| 0 <= i < names@.len() ==> all_ascii(#[trigger] names@[i]@)) ==> r is Ok,
        r matches Ok(p) ==> p@ == (ParamsView {
            names: names_view(names@),
            subject: seq![(NameField::CommonName, "rcgen self signed cert"@)],
            not_after: (4096i32, 1u8, 1u8),
        }),
{
    let set = Ghost(ParamsView {
        names: names_view(names@),
        subject: seq![(NameField::CommonName, "rcgen self signed cert"@)],
        not_after: (4096i32, 1u8, 1u8),
    });
    Ok(CertParams { params: rcgen::CertificateParams::new(names)?, set })
}

/// `DistinguishedName::new`: an empty subject name.
#[verifier::external_body]
fn distinguished_name_new() -> (dn: SubjectName)
    ensures
        dn@ == Seq::<(NameField, Seq<char>)>::empty(),
{
    SubjectName { dn: rcgen::DistinguishedName::new(), entries: Ghost(Seq::empty()) }
}

/// `DistinguishedName::push`: sets `field` to `value`, replacing its value
/// where the field is present, else adding it last.
#[verifier::external_body]
fn distinguished_name_push(dn: &mut SubjectName, field: NameField, value: &str)
    ensures
        final(dn)@ == dn_push(old(dn)@, field, value@),
{
    let ty = match field {
        NameField::CommonName => rcgen::DnType::CommonName,
        NameField::OrganizationName => rcgen::DnType::OrganizationName,
    };
    dn.dn.push(ty, value);
    dn.entries = Ghost(dn_push(dn.entries@, field, value@));
}

/// Sets the `distinguished_name` field of the parameters.
#[verifier::external_body]
fn set_distinguished_name(params: &mut CertParams, dn: SubjectName)
    ensures
        final(params)@ == (ParamsView { subject: dn@, ..old(params)@ }),
{
    params.params.distinguished_name = dn.dn;
    params.set = Ghost(ParamsView { subject: dn.entries@, ..params.set@ });
}

/// Whether `year` is a leap year of the proleptic Gregorian calendar.
pub open spec fn is_leap_year(year: int) -> bool {
    year % 4 == 0 && (year % 100 != 0 || year % 400 == 0)
}

/// The number of days in `month` (1 to 12) of `year`.
pub open spec fn days_in_month(year: int, month: int) -> int {
    if month == 2 {
        if is_leap_year(year) { 29 } else { 28 }
    } else if month == 4 || month == 6 || month == 9 || month == 11 {
        30
    } else {
        31
    }
}

/// `rcgen::date_time_ymd`, stored as the parameters' `not_after`. The
/// function panics on a date the `time` crate refuses
/// (`Date::from_calendar_date`); every day of a month of a year within
/// ±9999 is accepted.
#[verifier::external_body]
fn set_not_after(params: &mut CertParams, year: i32, month: u8, day: u8)
    requires
        -9999 <= year <= 9999,
        1 <= month <= 12,
        1 <= day <= days_in_month(year as int, month as int),
    ensures
        final(params)@ == (ParamsView { not_after: (year, month, day), ..old(params)@ }),
{
    params.params.not_after = rcgen::date_time_ymd(year, month, day);
    params.set = Ghost(ParamsView { not_after: (year, month, day), ..params.set@ });
}

/// `KeyPair::generate`: a fresh random key pair, or an error when the
/// random source fails. Nothing is stated of the key: it is random.
#[verifier::external_body]
fn generate_key_pair() -> (r: Result<rcgen::KeyPair, rcgen::Error>) {
    rcgen::KeyPair::generate()
}

/// `CertificateParams::self_signed`: the certificate for the parameters,
/// signed with `key`; it keeps the parameters. Whether signing succeeds is
/// not stated.
#[verifier::external_body]
fn self_sign(params: CertParams, key: &rcgen::KeyPair) -> (r: Result<SignedCert, rcgen::Error>)
    ensures
        r matches Ok(c) ==> c@ == params@,
{
    let set = Ghost(params.set@);
    Ok(SignedCert { cert: params.params.self_signed(key)?, params: set })
}

/// `Certificate::pem`: the certificate in PEM form, a block labelled
/// `CERTIFICATE` (`pem::encode_config` opens it with its `BEGIN` line).
#[verifier::external_body]
fn certificate_pem(cert: &SignedCert) -> (pem: String)
    ensures
        starts_with(pem@, pem_begin("CERTIFICATE"@)),
{
    cert.cert.pem()
}

/// `KeyPair::serialize_pem`: the private key in PEM form, a block labelled
/// `PRIVATE KEY` (`pem::encode_config` opens it with its `BEGIN` line).
#[verifier::external_body]
fn key_pair_pem(key: &rcgen::KeyPair) -> (pem: String)
    ensures
        starts_with(pem@, pem_begin("PRIVATE KEY"@)),
{
    key.serialize_pem()
}

/// Why no certificate could be made.
#[derive(Debug, Clone, Copy, PartialEq, Eq, Structural)]
pub enum CertGenError {
    /// The subject alternative names were refused.
    Names,
    /// No key pair could be generated.
    Key,
    /// Signing failed.
    Sign,
}

/// What a certificate is made for: its subject alternative names, the
/// common name and organization of its subject, and its last day of
/// validity as year, month and day.
pub struct CertRequest {
    pub names: Vec<String>,
    pub common_name: String,
    pub organization: String,
    pub not_after: (i32, u8, u8),
}

/// The parameters a request asks for.
pub open spec fn requested_params(names: Seq<Seq<char>>, common_name: Seq<char>, organization: Seq<char>, not_after: (i32, u8, u8)) -> ParamsView {
    ParamsView {
        names,
        subject: seq![(NameField::CommonName, common_name), (NameField::OrganizationName, organization)],
        not_after,
    }
}

/// The parameters `req` asks for.
pub open spec fn request_params(req: CertRequest) -> ParamsView {
    requested_params(names_view(req.names@), req.common_name@, req.organization@, req.not_after)
}

/// The development certificate's request: names `localhost` and
/// `127.0.0.1`, subject `CN=macrdp, O=macrdp`, valid until 24 March 2027.
pub open spec fn dev_cert_params() -> ParamsView {
    requested_params(seq!["localhost"@, "127.0.0.1"@], "macrdp"@, "macrdp"@, (2027i32, 3u8, 24u8))
}

/// The request of the development certificate.
pub fn cert_request() -> (r: CertRequest)
    ensures
        request_params(r) == dev_cert_params(),
        forall|i: int| 0 <= i < r.names@.len() ==> all_ascii(#[trigger] r.names@[i]@),
        -9999 <= r.not_after.0 <= 9999,
        1 <= r.not_after.1 <= 12,
        1 <= r.not_after.2 <= days_in_month(r.not_after.0 as int, r.not_after.1 as int),
{
    let mut names: Vec<String> = Vec::new();
    names.push(String::from_str("localhost"));
    names.push(String::from_str("127.0.0.1"));
    proof {
        reveal_strlit("localhost");
        reveal_strlit("127.0.0.1");
        assert(all_ascii(names@[0]@));
        assert(all_ascii(names@[1]@));
        assert(names_view(names@) =~= seq!["localhost"@, "127.0.0.1"@]);
    }
    CertRequest {
        names,
        common_name: String::from_str("macrdp"),
        organization: String::from_str("macrdp"),
        not_after: (2027, 3, 24),
    }
}

/// A certificate for `req`, self-signed with a new key pair, and the key
/// pair.  The certificate is signed with the parameters the request asks
/// for.  ASCII names are never refused; key generation and signing may
/// fail.
pub fn sign_request(req: CertRequest) -> (r: Result<(SignedCert, rcgen::KeyPair), CertGenError>)
    requires
        -9999 <= req.not_after.0 <= 9999,
        1 <= req.not_after.1 <= 12,
        1 <= req.not_after.2 <= days_in_month(req.not_after.0 as int, req.not_after.1 as int),
    ensures
        r matches Ok((cert, _)) ==> cert@ == request_params(req),
        (forall|i: int| 0 <= i < req.names@.len() ==> all_ascii(#[trigger] req.names@[i]@)) ==> !(r matches Err(
            CertGenError::Names,
        )),
{
    let ghost want = request_params(req);
    let CertRequest { names, common_name, organization, not_after } = req;
    let mut params = match certificate_params(names) {
        Ok(p) => p,
        Err(_) => {
            return Err(CertGenError::Names);
        },
    };
    let mut dn = distinguished_name_new();
    distinguished_name_push(&mut dn, NameField::CommonName, common_name.as_str());
    distinguished_name_push(&mut dn, NameField::OrganizationName, organization.as_str());
    assert(dn@ =~= seq![(NameField::CommonName, common_name@), (NameField::OrganizationName, organization@)])
        by {
        reveal_with_fuel(dn_push, 3);
    }
    set_distinguished_name(&mut params, dn);
    set_not_after(&mut params, not_after.0, not_after.1, not_after.2);
    let key = match generate_key_pair() {
        Ok(k) => k,
        Err(_) => {
            return Err(CertGenError::Key);
        },
    };
    let cert = match self_sign(params, &key) {
        Ok(c) => c,
        Err(_) => {
            return Err(CertGenError::Sign);
        },
    };
    assert(cert@ == want);
    Ok((cert, key))
}

/// A self-signed certificate for [`cert_request`] (names `localhost` and
/// 127.0.0.1, subject `CN=macrdp, O=macrdp`, valid until 24 March 2027)
/// and its new private key: the two as PEM text, certificate first, each
/// opening with the `BEGIN` line of its block. The names are ASCII, so
/// they are never refused; key generation and signing may fail. The key is
/// random, so nothing more can be said of the text.
pub fn generate_self_signed_cert_pem() -> (r: Result<(String, String), CertGenError>)
    ensures
        r != Err::<(String, String), CertGenError>(CertGenError::Names),
        r matches Ok((cert, key)) ==> starts_with(cert@, pem_begin("CERTIFICATE"@)) && starts_with(
            key@,
            pem_begin("PRIVATE KEY"@),
        ),
{
    let req = cert_request();
    match sign_request(req) {
        Ok((cert, key)) => Ok((certificate_pem(&cert), key_pair_pem(&key))),
        Err(e) => Err(e),
    }
}

} // verus!
