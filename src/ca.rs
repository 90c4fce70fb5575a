//! The certificate authority: a root CA, and a cache of leaf certificates
//! minted on demand for the hosts that clients ask for. Key generation,
//! encoding and signing are rcgen's; which certificate is made, for how long,
//! and which one is served, are decided here.
use vstd::prelude::*;
use crate::text::str_eq;

verus! {

#[verifier::external_type_specification]
#[verifier::external_body]
pub struct ExKeyPair(rcgen::KeyPair);

#[verifier::external_type_specification]
#[verifier::external_body]
pub struct ExCertificate(rcgen::Certificate);

#[verifier::external_type_specification]
#[verifier::external_body]
pub struct ExCertificateParams(rcgen::CertificateParams);

#[verifier::external_type_specification]
#[verifier::external_body]
pub struct ExRcgenError(rcgen::Error);

/// What rcgen's `Certificate::pem` returns for a certificate whose DER
/// encoding is `der`: a function of those bytes alone.
pub uninterp spec fn pem_of(der: Seq<u8>) -> Seq<char>;

/// Relies on rcgen's `KeyPair::generate`: a fresh random key pair, or an error.
#[verifier::external_body]
fn generate_key_pair() -> (r: Result<rcgen::KeyPair, rcgen::Error>) {
    rcgen::KeyPair::generate()
}

/// Relies on rcgen's `KeyPair::from_pem`: the key pair that a PKCS #8 PEM text holds, or an error.
#[verifier::external_body]
fn key_pair_from_pem(pem: &str) -> (r: Result<rcgen::KeyPair, rcgen::Error>) {
    rcgen::KeyPair::from_pem(pem)
}

/// What rcgen's `KeyPair::serialize_pem` returns for a key whose PKCS #8 DER
/// encoding is `der`: the PEM text of those bytes, a function of them alone.
pub uninterp spec fn key_pem_of(der: Seq<u8>) -> Seq<char>;

/// Relies on rcgen's `KeyPair::serialize_der` and `KeyPair::serialize_pem`:
/// the key in PKCS #8 DER form, and the PEM text that `serialize_pem`
/// computes from exactly those bytes. Both panic only for remote key pairs,
/// which this library never makes.
#[verifier::external_body]
fn encode_key(k: &rcgen::KeyPair) -> (r: (Vec<u8>, String))
    ensures
        r.1@ == key_pem_of(r.0@),
{
    (k.serialize_der(), k.serialize_pem())
}

/// Relies on rcgen's `CertificateParams::new`: parameters whose subject
/// alternative names are `names`, or an error for a name that is not a valid
/// DNS name or IP address.
#[verifier::external_body]
fn params_for_names(names: Vec<String>) -> (r: Result<rcgen::CertificateParams, rcgen::Error>) {
    rcgen::CertificateParams::new(names)
}

/// The parts of a distinguished name that this library sets.
#[derive(Clone, Copy, Debug, PartialEq, Eq, Structural)]
pub enum NamePart {
    CommonName,
    Organization,
}

/// Relies on rcgen's `DistinguishedName::push`: adds a part to the subject name.
#[verifier::external_body]
fn push_name(p: &mut rcgen::CertificateParams, part: NamePart, value: &str) {
    let ty = match part {
        NamePart::CommonName => rcgen::DnType::CommonName,
        NamePart::Organization => rcgen::DnType::OrganizationName,
    };
    p.distinguished_name.push(ty, value);
}

/// Whether a certificate may sign others.
#[derive(Clone, Copy, Debug, PartialEq, Eq, Structural)]
pub enum CaConstraint {
    /// A CA with no limit on the length of the chain below it.
    Unconstrained,
    /// A CA with at most this many intermediate CAs below it.
    PathLength(u8),
}

/// Relies on rcgen's `IsCa` and `BasicConstraints`: makes the parameters
/// those of a CA with the given constraint.
#[verifier::external_body]
fn set_is_ca(p: &mut rcgen::CertificateParams, c: CaConstraint) {
    p.is_ca = match c {
        CaConstraint::Unconstrained => rcgen::IsCa::Ca(rcgen::BasicConstraints::Unconstrained),
        CaConstraint::PathLength(n) => rcgen::IsCa::Ca(rcgen::BasicConstraints::Constrained(n)),
    };
}

/// Relies on rcgen's `SerialNumber::from` for `u64`: sets the serial number.
#[verifier::external_body]
fn set_serial(p: &mut rcgen::CertificateParams, serial: u64) {
    p.serial_number = Some(rcgen::SerialNumber::from(serial));
}

/// Relies on rcgen's `CertificateParams::default`: parameters with no names.
#[verifier::external_body]
fn empty_params() -> (r: rcgen::CertificateParams) {
    rcgen::CertificateParams::default()
}

/// The earliest instant a certificate can hold: 0000-01-01T00:00:00Z.
pub const MIN_CERT_TIME: i64 = -62167219200;

/// The latest instant a certificate can hold: 9999-12-31T23:59:59Z.
pub const MAX_CERT_TIME: i64 = 253402300799;

/// A validity window that rcgen can encode (years 0 to 9999).
pub open spec fn window_ok(not_before: i64, not_after: i64) -> bool {
    MIN_CERT_TIME <= not_before && not_before <= not_after && not_after <= MAX_CERT_TIME
}

/// Relies on time's `OffsetDateTime::from_unix_timestamp`, which accepts
/// every instant of years 0 to 9999, and rcgen's
/// `CertificateParams::self_signed`, which encodes such dates without
/// panicking: a certificate valid over the window, signed by its own key, or
/// `None` on an error.
#[verifier::external_body]
fn self_sign(p: rcgen::CertificateParams, not_before: i64, not_after: i64, key: &rcgen::KeyPair) -> (r:
    Option<rcgen::Certificate>)
    requires
        window_ok(not_before, not_after),
{
    let mut p = p;
    let (Ok(a), Ok(b)) = (
        time::OffsetDateTime::from_unix_timestamp(not_before),
        time::OffsetDateTime::from_unix_timestamp(not_after),
    ) else { return None };
    p.not_before = a;
    p.not_after = b;
    p.self_signed(key).ok()
}

/// Relies on time's `OffsetDateTime::from_unix_timestamp` (every instant of
/// years 0 to 9999) and rcgen's `CertificateParams::signed_by`: a
/// certificate for `key` valid over the window, issued by `issuer` and signed
/// with `issuer_key`, or `None` on an error.
#[verifier::external_body]
fn sign_with(
    p: rcgen::CertificateParams,
    not_before: i64,
    not_after: i64,
    key: &rcgen::KeyPair,
    issuer: &rcgen::Certificate,
    issuer_key: &rcgen::KeyPair,
) -> (r: Option<rcgen::Certificate>)
    requires
        window_ok(not_before, not_after),
{
    let mut p = p;
    let (Ok(a), Ok(b)) = (
        time::OffsetDateTime::from_unix_timestamp(not_before),
        time::OffsetDateTime::from_unix_timestamp(not_after),
    ) else { return None };
    p.not_before = a;
    p.not_after = b;
    p.signed_by(key, issuer, issuer_key).ok()
}

/// Relies on rcgen's `Certificate::der` and `Certificate::pem`: the DER
/// encoding, and the PEM text that `pem` computes from exactly those bytes.
#[verifier::external_body]
fn encode_cert(c: &rcgen::Certificate) -> (r: (Vec<u8>, String))
    ensures
        r.1@ == pem_of(r.0@),
{
    (c.der().to_vec(), c.pem())
}

pub const DAY_SECS: i64 = 86400;

/// Ten years of 365 days.
pub const TEN_YEARS_SECS: i64 = 315360000;

/// Why the authority could not make a certificate.
#[derive(Clone, Copy, Debug, PartialEq, Eq, Structural)]
pub enum CaError {
    KeyGeneration,
    KeyLoad,
    InvalidName,
    /// The validity window around the given time leaves years 0 to 9999.
    InvalidTime,
    Signing,
}

/// What the authority hands to rcgen for one certificate.
#[derive(Clone, Debug)]
pub struct CertRequest {
    /// The subject alternative names.
    pub names: Vec<String>,
    pub common_name: String,
    pub organization: Option<String>,
    /// `Some` for a CA certificate.
    pub ca: Option<CaConstraint>,
    pub serial: Option<u64>,
    pub not_before: i64,
    pub not_after: i64,
}

/// A certificate request as a mathematical value.
pub struct CertRequestView {
    pub names: Seq<Seq<char>>,
    pub common_name: Seq<char>,
    pub organization: Option<Seq<char>>,
    pub ca: Option<CaConstraint>,
    pub serial: Option<u64>,
    pub not_before: i64,
    pub not_after: i64,
}

impl View for CertRequest {
    type V = CertRequestView;

    open spec fn view(&self) -> CertRequestView {
        CertRequestView {
            names: self.names@.map_values(|n: String| n@),
            common_name: self.common_name@,
            organization: crate::model::opt_chars(self.organization),
            ca: self.ca,
            serial: self.serial,
            not_before: self.not_before,
            not_after: self.not_after,
        }
    }
}

impl CertRequest {
    /// A field-by-field copy.
    pub fn copy(&self) -> (r: CertRequest)
        ensures
            r@ == self@,
    {
        let names = copy_names(&self.names);
        let r = CertRequest {
            names,
            common_name: self.common_name.clone(),
            organization: crate::model::copy_opt(&self.organization),
            ca: self.ca,
            serial: self.serial,
            not_before: self.not_before,
            not_after: self.not_after,
        };
        assert(r@.names =~= self@.names);
        r
    }
}

/// The request for the root: named "Watchtower CA" of organization
/// "Watchtower", an unconstrained CA with serial 1, valid from a day before
/// `created` for ten years.
pub open spec fn is_root_request(r: CertRequestView, created: i64) -> bool {
    &&& r.names == Seq::<Seq<char>>::empty()
    &&& r.common_name == "Watchtower CA"@
    &&& r.organization == Some("Watchtower"@)
    &&& r.ca == Some(CaConstraint::Unconstrained)
    &&& r.serial == Some(1u64)
    &&& r.not_before == created - DAY_SECS
    &&& r.not_after == created + TEN_YEARS_SECS
}

/// The request for the certificate of `host`: `host` as its only subject
/// alternative name and as its common name, not a CA, valid from a day
/// before `now` for ten years.
pub open spec fn is_leaf_request(r: CertRequestView, host: Seq<char>, now: i64) -> bool {
    &&& r.names == seq![host]
    &&& r.common_name == host
    &&& r.organization is None
    &&& r.ca is None
    &&& r.serial is None
    &&& r.not_before == now - DAY_SECS
    &&& r.not_after == now + TEN_YEARS_SECS
}

/// The root's request, when its validity window fits around `created`.
pub fn root_request(created: i64) -> (r: Result<CertRequest, CaError>)
    ensures
        match r {
            Ok(q) => time_in_range(created) && is_root_request(q@, created),
            Err(e) => !time_in_range(created) && e == CaError::InvalidTime,
        },
{
    if created < MIN_CERT_TIME + DAY_SECS || created > MAX_CERT_TIME - TEN_YEARS_SECS {
        return Err(CaError::InvalidTime);
    }
    let names: Vec<String> = Vec::new();
    let q = CertRequest {
        names,
        common_name: String::from_str("Watchtower CA"),
        organization: Some(String::from_str("Watchtower")),
        ca: Some(CaConstraint::Unconstrained),
        serial: Some(1),
        not_before: created - DAY_SECS,
        not_after: created + TEN_YEARS_SECS,
    };
    assert(q@.names =~= Seq::<Seq<char>>::empty());
    Ok(q)
}

/// The request for `host`'s certificate, when its validity window fits around `now`.
pub fn leaf_request(host: &str, now: i64) -> (r: Result<CertRequest, CaError>)
    ensures
        match r {
            Ok(q) => time_in_range(now) && is_leaf_request(q@, host@, now),
            Err(e) => !time_in_range(now) && e == CaError::InvalidTime,
        },
{
    if now < MIN_CERT_TIME + DAY_SECS || now > MAX_CERT_TIME - TEN_YEARS_SECS {
        return Err(CaError::InvalidTime);
    }
    let mut names: Vec<String> = Vec::new();
    names.push(String::from_str(host));
    let q = CertRequest {
        names,
        common_name: String::from_str(host),
        organization: None,
        ca: None,
        serial: None,
        not_before: now - DAY_SECS,
        not_after: now + TEN_YEARS_SECS,
    };
    assert(q@.names =~= seq![host@]);
    Ok(q)
}

fn copy_names(v: &Vec<String>) -> (r: Vec<String>)
    ensures
        r@ == v@,
{
    let mut out: Vec<String> = Vec::new();
    let mut i: usize = 0;
    while i < v.len()
        invariant
            i <= v@.len(),
            out@ == v@.subrange(0, i as int),
        decreases v@.len() - i,
    {
        out.push(v[i].clone());
        assert(out@ =~= v@.subrange(0, i + 1));
        i = i + 1;
    }
    assert(v@.subrange(0, v@.len() as int) =~= v@);
    out
}

/// rcgen parameters carrying everything the request names; an error when
/// rcgen refuses a name or the validity window.
fn params_of(q: &CertRequest) -> (r: Result<rcgen::CertificateParams, CaError>)
    ensures
        r is Err ==> r->Err_0 == CaError::InvalidName,
{
    let mut p = if q.names.len() == 0 {
        empty_params()
    } else {
        match params_for_names(copy_names(&q.names)) {
            Ok(p) => p,
            Err(_) => return Err(CaError::InvalidName),
        }
    };
    push_name(&mut p, NamePart::CommonName, q.common_name.as_str());
    if let Some(o) = &q.organization {
        push_name(&mut p, NamePart::Organization, o.as_str());
    }
    if let Some(c) = q.ca {
        set_is_ca(&mut p, c);
    }
    if let Some(n) = q.serial {
        set_serial(&mut p, n);
    }
    Ok(p)
}

/// A leaf certificate with its key, as served both in the TLS handshake and
/// for download.
#[derive(Clone, Debug)]
pub struct HostCert {
    pub host: String,
    pub cert_der: Vec<u8>,
    pub key_der: Vec<u8>,
    pub pem: String,
    pub not_before: i64,
    pub not_after: i64,
    /// What was handed to rcgen to make it.
    pub request: CertRequest,
}

/// A host certificate as a mathematical value.
pub struct HostCertView {
    pub host: Seq<char>,
    pub cert_der: Seq<u8>,
    pub key_der: Seq<u8>,
    pub pem: Seq<char>,
    pub not_before: i64,
    pub not_after: i64,
    pub request: CertRequestView,
}

impl View for HostCert {
    type V = HostCertView;

    open spec fn view(&self) -> HostCertView {
        HostCertView {
            host: self.host@,
            cert_der: self.cert_der@,
            key_der: self.key_der@,
            pem: self.pem@,
            not_before: self.not_before,
            not_after: self.not_after,
            request: self.request@,
        }
    }
}

fn copy_bytes(v: &Vec<u8>) -> (r: Vec<u8>)
    ensures
        r@ == v@,
{
    let mut out: Vec<u8> = Vec::new();
    let mut i: usize = 0;
    while i < v.len()
        invariant
            i <= v@.len(),
            out@ == v@.subrange(0, i as int),
        decreases v@.len() - i,
    {
        out.push(v[i]);
        assert(out@ =~= v@.subrange(0, i + 1));
        i = i + 1;
    }
    assert(v@.subrange(0, v@.len() as int) =~= v@);
    out
}

impl HostCert {
    /// A field-by-field copy.
    pub fn copy(&self) -> (r: HostCert)
        ensures
            r@ == self@,
    {
        HostCert {
            host: self.host.clone(),
            cert_der: copy_bytes(&self.cert_der),
            key_der: copy_bytes(&self.key_der),
            pem: self.pem.clone(),
            not_before: self.not_before,
            not_after: self.not_after,
            request: self.request.copy(),
        }
    }
}

/// A certificate is well formed when its PEM text encodes its DER bytes.
pub open spec fn cert_wf(c: HostCertView) -> bool {
    c.pem == pem_of(c.cert_der)
}

/// The validity of a certificate made at `now`: from a day before to ten years after.
pub open spec fn valid_around(c: HostCertView, now: i64) -> bool {
    c.not_before == now - DAY_SECS && c.not_after == now + TEN_YEARS_SECS
}

/// The certificate that the cache holds for `host`, if any: the first entry for it.
pub open spec fn cached(entries: Seq<HostCertView>, host: Seq<char>) -> Option<HostCertView>
    decreases entries.len(),
{
    if entries.len() == 0 {
        None
    } else if entries[0].host == host {
        Some(entries[0])
    } else {
        cached(entries.drop_first(), host)
    }
}

/// The validity window around `now` lies within years 0 to 9999.
pub open spec fn time_in_range(now: i64) -> bool {
    MIN_CERT_TIME + DAY_SECS <= now && now <= MAX_CERT_TIME - TEN_YEARS_SECS
}

/// No two cached certificates are for the same host.
pub open spec fn hosts_distinct(entries: Seq<HostCertView>) -> bool {
    forall|i: int, j: int|
        0 <= i < j < entries.len() ==> (#[trigger] entries[i]).host != (#[trigger] entries[j]).host
}

/// A host that the cache has no certificate for appears in no entry.
proof fn lemma_not_cached(entries: Seq<HostCertView>, host: Seq<char>)
    requires
        cached(entries, host) is None,
    ensures
        forall|i: int| 0 <= i < entries.len() ==> (#[trigger] entries[i]).host != host,
    decreases entries.len(),
{
    if entries.len() > 0 {
        lemma_not_cached(entries.drop_first(), host);
        assert forall|i: int| 0 <= i < entries.len() implies (#[trigger] entries[i]).host != host by {
            if i > 0 {
                assert(entries[i] == entries.drop_first()[i - 1]);
            }
        }
    }
}

/// The authority's state as a mathematical value.
pub struct CaView {
    pub root_pem: Seq<char>,
    pub root_der: Seq<u8>,
    /// What was handed to rcgen to make the root.
    pub root_request: CertRequestView,
    pub root_key_der: Seq<u8>,
    pub root_key_pem: Seq<char>,
    pub entries: Seq<HostCertView>,
}

/// The root CA and the host certificates minted so far.
pub struct CaService {
    ca_cert: rcgen::Certificate,
    ca_key: rcgen::KeyPair,
    ca_pem: String,
    ca_der: Vec<u8>,
    ca_request: CertRequest,
    ca_key_der: Vec<u8>,
    ca_key_pem: String,
    entries: Vec<HostCert>,
}

pub open spec fn cert_views(v: Seq<HostCert>) -> Seq<HostCertView> {
    v.map_values(|c: HostCert| c@)
}

impl View for CaService {
    type V = CaView;

    closed spec fn view(&self) -> CaView {
        CaView {
            root_pem: self.ca_pem@,
            root_der: self.ca_der@,
            root_request: self.ca_request@,
            root_key_der: self.ca_key_der@,
            root_key_pem: self.ca_key_pem@,
            entries: cert_views(self.entries@),
        }
    }
}

impl CaService {
    /// Every certificate in the cache has PEM text that encodes its DER bytes,
    /// and so does the root; the root key's PEM text encodes its DER bytes;
    /// and the cache holds at most one certificate per host.
    pub open spec fn wf(&self) -> bool {
        &&& self@.root_pem == pem_of(self@.root_der)
        &&& self@.root_key_pem == key_pem_of(self@.root_key_der)
        &&& hosts_distinct(self@.entries)
        &&& forall|i: int| 0 <= i < self@.entries.len() ==> cert_wf(#[trigger] self@.entries[i])
    }

    /// The root CA: the key given in PEM form, or a new one, and a
    /// certificate made from `root_request(created)`: an unconstrained CA
    /// named "Watchtower CA" of organization "Watchtower", serial 1, valid
    /// from a day before `created` for ten years. The key is kept across runs;
    /// the certificate's signature is made anew each time.
    pub fn new(root_key_pem: Option<&str>, created: i64) -> (r: Result<CaService, CaError>)
        ensures
            match r {
                Ok(ca) => ca.wf() && ca@.entries.len() == 0 && is_root_request(
                    ca@.root_request,
                    created,
                ),
                Err(e) => (e == CaError::InvalidTime) == !time_in_range(created),
            },
    {
        let q = match root_request(created) {
            Ok(q) => q,
            Err(e) => return Err(e),
        };
        let key = match root_key_pem {
            Some(pem) => match key_pair_from_pem(pem) {
                Ok(k) => k,
                Err(_) => return Err(CaError::KeyLoad),
            },
            None => match generate_key_pair() {
                Ok(k) => k,
                Err(_) => return Err(CaError::KeyGeneration),
            },
        };
        let params = match params_of(&q) {
            Ok(p) => p,
            Err(e) => return Err(e),
        };
        let cert = match self_sign(params, q.not_before, q.not_after, &key) {
            Some(c) => c,
            None => return Err(CaError::Signing),
        };
        let (der, pem) = encode_cert(&cert);
        let (key_der, key_pem) = encode_key(&key);
        let ca = CaService {
            ca_cert: cert,
            ca_key: key,
            ca_pem: pem,
            ca_der: der,
            ca_request: q,
            ca_key_der: key_der,
            ca_key_pem: key_pem,
            entries: Vec::new(),
        };
        assert(ca@.entries =~= Seq::<HostCertView>::empty());
        Ok(ca)
    }

    /// The root certificate in PEM form, for installing as trusted.
    pub fn ca_cert_pem(&self) -> (r: String)
        ensures
            r@ == self@.root_pem,
    {
        self.ca_pem.clone()
    }

    /// The root key in PKCS #8 PEM form, for keeping across runs (while the
    /// authority is well formed, `key_pem_of(self@.root_key_der)`).
    pub fn ca_key_pem(&self) -> (r: String)
        ensures
            r@ == self@.root_key_pem,
    {
        self.ca_key_pem.clone()
    }

    /// Mints a certificate made from `leaf_request(host, now)`, signed by the
    /// root: `host` is its only subject alternative name and its common name,
    /// and it is valid from a day before `now` for ten years.
    pub fn sign_host_certificate(&self, host: &str, now: i64) -> (r: Result<HostCert, CaError>)
        ensures
            match r {
                Ok(c) => c@.host == host@ && cert_wf(c@) && valid_around(c@, now) && is_leaf_request(
                    c@.request,
                    host@,
                    now,
                ),
                Err(e) => (e == CaError::InvalidTime) == !time_in_range(now),
            },
    {
        let q = match leaf_request(host, now) {
            Ok(q) => q,
            Err(e) => return Err(e),
        };
        let key = match generate_key_pair() {
            Ok(k) => k,
            Err(_) => return Err(CaError::KeyGeneration),
        };
        let params = match params_of(&q) {
            Ok(p) => p,
            Err(e) => return Err(e),
        };
        let cert = match sign_with(params, q.not_before, q.not_after, &key, &self.ca_cert, &self.ca_key) {
            Some(c) => c,
            None => return Err(CaError::Signing),
        };
        let (der, pem) = encode_cert(&cert);
        let (key_der, _key_pem) = encode_key(&key);
        let not_before = q.not_before;
        let not_after = q.not_after;
        Ok(HostCert { host: String::from_str(host), cert_der: der, key_der, pem, not_before, not_after, request: q })
    }

    /// The certificate for `host`: the cached one when there is one, else a
    /// new one, which is cached. The TLS handshake and the download both come
    /// here, so both serve the same certificate.
    pub fn get_or_create(&mut self, host: &str, now: i64) -> (r: Result<HostCert, CaError>)
        requires
            old(self).wf(),
        ensures
            final(self).wf(),
            final(self)@.root_pem == old(self)@.root_pem,
            final(self)@.root_der == old(self)@.root_der,
            final(self)@.root_request == old(self)@.root_request,
            final(self)@.root_key_der == old(self)@.root_key_der,
            final(self)@.root_key_pem == old(self)@.root_key_pem,
            match cached(old(self)@.entries, host@) {
                Some(c) => r == Ok::<HostCert, CaError>(r->Ok_0) && r->Ok_0@ == c && final(self)@
                    == old(self)@,
                None => match r {
                    Ok(c) => c@.host == host@ && cert_wf(c@) && valid_around(c@, now)
                        && is_leaf_request(c@.request, host@, now) && final(self)@.entries == old(
                        self,
                    )@.entries.push(c@),
                    Err(e) => final(self)@ == old(self)@ && (e == CaError::InvalidTime)
                        == !time_in_range(now),
                },
            },
    {
        let ghost es = cert_views(self.entries@);
        let mut i: usize = 0;
        assert(es.subrange(0, es.len() as int) =~= es);
        while i < self.entries.len()
            invariant
                i <= self.entries@.len(),
                es == cert_views(self.entries@),
                self.entries@ == old(self).entries@,
                self@ == old(self)@,
                self.wf(),
                cached(es, host@) == cached(es.subrange(i as int, es.len() as int), host@),
            decreases self.entries@.len() - i,
        {
            proof {
                assert(es.subrange(i as int, es.len() as int).drop_first() =~= es.subrange(
                    i + 1,
                    es.len() as int,
                ));
            }
            if str_eq(self.entries[i].host.as_str(), host) {
                return Ok(self.entries[i].copy());
            }
            i = i + 1;
        }
        match self.sign_host_certificate(host, now) {
            Ok(c) => {
                let out = c.copy();
                self.entries.push(c);
                assert(cert_views(self.entries@) =~= es.push(out@));
                proof {
                    assert(es.subrange(es.len() as int, es.len() as int) =~= Seq::<HostCertView>::empty());
                    lemma_not_cached(es, host@);
                    let n = es.push(out@);
                    assert forall|a: int, b: int| 0 <= a < b < n.len() implies (#[trigger] n[a]).host
                        != (#[trigger] n[b]).host by {
                        if b == es.len() {
                            assert(n[a] == es[a]);
                        } else {
                            assert(n[a] == es[a] && n[b] == es[b]);
                        }
                    }
                }
                Ok(out)
            },
            Err(e) => Err(e),
        }
    }

    /// The certificates minted so far, for the TLS resolver's lookups.
    pub fn cached_for(&self, host: &str) -> (r: Option<HostCert>)
        ensures
            match r {
                Some(c) => cached(self@.entries, host@) == Some(c@),
                None => cached(self@.entries, host@) is None,
            },
    {
        let ghost es = cert_views(self.entries@);
        let mut i: usize = 0;
        assert(es.subrange(0, es.len() as int) =~= es);
        while i < self.entries.len()
            invariant
                i <= self.entries@.len(),
                es == cert_views(self.entries@),
                cached(es, host@) == cached(es.subrange(i as int, es.len() as int), host@),
            decreases self.entries@.len() - i,
        {
            proof {
                assert(es.subrange(i as int, es.len() as int).drop_first() =~= es.subrange(
                    i + 1,
                    es.len() as int,
                ));
            }
            if str_eq(self.entries[i].host.as_str(), host) {
                return Some(self.entries[i].copy());
            }
            i = i + 1;
        }
        None
    }
}

/// Once a certificate for `host` has been cached, the cache keeps giving that
/// same certificate: a first `get_or_create(host)` that minted `c` leaves `c`
/// as the cached certificate, so every later call for `host` returns `c` and
/// changes nothing.
pub proof fn lemma_get_or_create_idempotent(entries: Seq<HostCertView>, host: Seq<char>, c: HostCertView)
    requires
        cached(entries, host) is None,
        c.host == host,
    ensures
        cached(entries.push(c), host) == Some(c),
        forall|d: HostCertView| cached(entries.push(c).push(d), host) == Some(c),
    decreases entries.len(),
{
    if entries.len() > 0 {
        assert(entries.push(c).drop_first() =~= entries.drop_first().push(c));
        lemma_get_or_create_idempotent(entries.drop_first(), host, c);
        assert forall|d: HostCertView| cached(entries.push(c).push(d), host) == Some(c) by {
            assert(entries.push(c).push(d).drop_first() =~= entries.drop_first().push(c).push(d));
        }
    } else {
        assert forall|d: HostCertView| cached(entries.push(c).push(d), host) == Some(c) by {
            assert(entries.push(c).push(d)[0] == c);
        }
    }
}

/// The certificate cached for a host, which the TLS handshake and the
/// download both serve, has PEM text that encodes exactly its DER bytes.
pub proof fn lemma_served_pem_matches_der(entries: Seq<HostCertView>, host: Seq<char>)
    requires
        forall|i: int| 0 <= i < entries.len() ==> cert_wf(#[trigger] entries[i]),
    ensures
        cached(entries, host) matches Some(c) ==> c.pem == pem_of(c.cert_der),
    decreases entries.len(),
{
    if entries.len() > 0 && entries[0].host != host {
        let t = entries.drop_first();
        assert forall|i: int| 0 <= i < t.len() implies cert_wf(#[trigger] t[i]) by {
            assert(t[i] == entries[i + 1]);
        }
        lemma_served_pem_matches_der(t, host);
    }
}

/// A certificate minted at `now` is valid at `now`: it starts no later and
/// ends no earlier.
pub proof fn lemma_minted_valid_now(c: HostCertView, now: i64)
    requires
        valid_around(c, now),
        time_in_range(now),
    ensures
        c.not_before <= now <= c.not_after,
{
}

/// After the TLS handshake for `host` got `c` from `get_or_create` (the cache
/// going from `before` to `after` as its contract allows), the cache holds
/// `c` for `host`: a later download of `host`'s certificate, which
/// `reserved_reply` answers from the cache, serves `c`'s PEM, which encodes
/// the very DER bytes that TLS served.
pub proof fn lemma_download_matches_tls(
    before: Seq<HostCertView>,
    after: Seq<HostCertView>,
    host: Seq<char>,
    c: HostCertView,
)
    requires
        match cached(before, host) {
            Some(x) => c == x && after == before,
            None => c.host == host && cert_wf(c) && after == before.push(c),
        },
        forall|i: int| 0 <= i < before.len() ==> cert_wf(#[trigger] before[i]),
    ensures
        cached(after, host) == Some(c),
        c.pem == pem_of(c.cert_der),
{
    if cached(before, host) is None {
        lemma_get_or_create_idempotent(before, host, c);
    } else {
        lemma_served_pem_matches_der(before, host);
    }
}

} // verus!
