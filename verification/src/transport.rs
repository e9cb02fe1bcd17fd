//! Trust between a client and a remote supervisor.
//!
//! Trust is SSH-style, **not** CA/PKI:
//!  - Each side has a long-lived Ed25519 identity (`identity.key` in the config
//!    dir), presented at TLS time inside a throwaway self-signed cert. Only the
//!    public key matters — cert CN/SAN/validity are ignored.
//!  - A peer is identified by the **fingerprint** = `sha256(SubjectPublicKeyInfo)`,
//!    which is stable across cert regenerations (the cert is rebuilt every run,
//!    the key is not).
//!  - The client pins the supervisor's fingerprint **TOFU** in `known_hosts`.
//!  - The supervisor admits only client fingerprints listed in `authorized_keys`.

use crate::config::{self, fingerprints, known_fingerprint, trust_entries};
use crate::text;
use rcgen::{CertificateParams, KeyPair};
use sha2::{Digest, Sha256};
use vstd::prelude::*;

verus! {

// ---------------------------------------------------------------------------
// Fingerprints
// ---------------------------------------------------------------------------

/// The SubjectPublicKeyInfo of the certificate that `x509_parser` reads in a DER
/// encoding, or its complaint.
pub uninterp spec fn key_info_in(cert: Seq<u8>) -> Result<Seq<u8>, Seq<char>>;

/// What was read of a certificate, in the abstract.
pub open spec fn bytes_view(r: Result<Vec<u8>, String>) -> Result<Seq<u8>, Seq<char>> {
    match r {
        Ok(b) => Ok(b@),
        Err(e) => Err(e@),
    }
}

/// `x509_parser::parse_x509_certificate`, of which the raw SubjectPublicKeyInfo
/// is kept. The contract says that the result is a function of the encoding.
#[verifier::external_body]
fn key_info(cert: &[u8]) -> (r: Result<Vec<u8>, String>)
    ensures
        bytes_view(r) == key_info_in(cert@),
{
    match x509_parser::parse_x509_certificate(cert) {
        Ok((_, parsed)) => Ok(parsed.tbs_certificate.subject_pki.raw.to_vec()),
        Err(e) => Err(e.to_string()),
    }
}

/// The SHA-256 digest of a byte string.
pub uninterp spec fn sha256_of(bytes: Seq<u8>) -> Seq<u8>;

/// `sha2::Sha256`: the digest of `bytes`, which is 32 bytes long. The contract
/// says that it is a function of the bytes.
#[verifier::external_body]
fn sha256(bytes: &[u8]) -> (r: [u8; 32])
    ensures
        r@ == sha256_of(bytes@),
{
    Sha256::digest(bytes).into()
}

/// The hexadecimal digit for a number below 16, in lower case.
pub open spec fn hex_digit(n: int) -> char {
    if n < 10 {
        (48 + n) as char
    } else {
        (87 + n) as char
    }
}

/// A byte string in lower-case hexadecimal, two digits for each byte.
pub open spec fn hex(bytes: Seq<u8>) -> Seq<char> {
    Seq::new(
        2 * bytes.len(),
        |i: int|
            hex_digit(
                if i % 2 == 0 {
                    bytes[i / 2] as int / 16
                } else {
                    bytes[i / 2] as int % 16
                },
            ),
    )
}

fn hex_char(n: u8) -> (r: char)
    requires
        n < 16,
    ensures
        r == hex_digit(n as int),
{
    if n < 10 {
        (48 + n) as char
    } else {
        (87 + n) as char
    }
}

/// A byte string in lower-case hexadecimal.
pub fn hex_lower(bytes: &[u8]) -> (r: String)
    ensures
        r@ == hex(bytes@),
{
    let mut s: String = String::new();
    let mut i: usize = 0;
    while i < bytes.len()
        invariant
            i <= bytes.len(),
            s@ =~= hex(bytes@.take(i as int)),
        decreases bytes.len() - i,
    {
        let b: u8 = bytes[i];
        let ghost before = s@;
        s.push(hex_char(b / 16));
        s.push(hex_char(b % 16));
        proof {
            let next = bytes@.take(i + 1);
            assert(s@.len() == hex(next).len());
            assert forall|k: int| 0 <= k < s@.len() implies s@[k] == #[trigger] hex(next)[k] by {
                if k < before.len() {
                    assert(before[k] == hex(bytes@.take(i as int))[k]);
                    assert(next[k / 2] == bytes@.take(i as int)[k / 2]);
                } else {
                    assert(k / 2 == i);
                }
            }
        }
        i += 1;
    }
    assert(bytes@.take(bytes@.len() as int) =~= bytes@);
    s
}

/// Different byte strings have different hexadecimal forms.
pub proof fn law_hex_tells_bytes_apart(a: Seq<u8>, b: Seq<u8>)
    requires
        hex(a) == hex(b),
    ensures
        a == b,
{
    assert(hex(a).len() == 2 * a.len());
    assert(hex(b).len() == 2 * b.len());
    assert forall|i: int| 0 <= i < a.len() implies a[i] == b[i] by {
        assert(hex(a)[2 * i] == hex(b)[2 * i]);
        assert(hex(a)[2 * i + 1] == hex(b)[2 * i + 1]);
        assert((2 * i) / 2 == i && (2 * i + 1) / 2 == i);
        assert((2 * i) % 2 == 0 && (2 * i + 1) % 2 == 1);
        assert(hex(a)[2 * i] == hex_digit(a[i] as int / 16));
        assert(hex(b)[2 * i] == hex_digit(b[i] as int / 16));
        assert(hex(a)[2 * i + 1] == hex_digit(a[i] as int % 16));
        assert(hex(b)[2 * i + 1] == hex_digit(b[i] as int % 16));
        lemma_hex_digits(a[i] as int / 16, b[i] as int / 16);
        lemma_hex_digits(a[i] as int % 16, b[i] as int % 16);
    }
    assert(a =~= b);
}

proof fn lemma_hex_digits(m: int, n: int)
    requires
        0 <= m < 16,
        0 <= n < 16,
        hex_digit(m) == hex_digit(n),
    ensures
        m == n,
{
}

/// `sha256(SubjectPublicKeyInfo)` of a DER cert, lowercase hex.
pub open spec fn fingerprint(cert: Seq<u8>) -> Result<Seq<char>, Seq<char>> {
    match key_info_in(cert) {
        Ok(info) => Ok(hex(sha256_of(info))),
        Err(e) => Err("parsing peer certificate: "@ + e),
    }
}

/// A fingerprint, or why there is none, in the abstract.
pub open spec fn text_view(r: Result<String, String>) -> Result<Seq<char>, Seq<char>> {
    match r {
        Ok(s) => Ok(s@),
        Err(e) => Err(e@),
    }
}

/// `sha256(SubjectPublicKeyInfo)` of a DER cert, lowercase hex (SSH-style).
pub fn fingerprint_of_cert(cert_der: &[u8]) -> (r: Result<String, String>)
    ensures
        text_view(r) == fingerprint(cert_der@),
        r matches Ok(fp) ==> fp@.len() == 64,
{
    match key_info(cert_der) {
        Ok(info) => {
            let digest = sha256(info.as_slice());
            Ok(hex_lower(digest.as_slice()))
        },
        Err(e) => Err(text::concat2("parsing peer certificate: ", e.as_str())),
    }
}

/// Two certificates over one key have one fingerprint.
pub proof fn law_fingerprints_follow_the_key(a: Seq<u8>, b: Seq<u8>)
    requires
        key_info_in(a) == key_info_in(b),
    ensures
        fingerprint(a) == fingerprint(b),
{
}

// ---------------------------------------------------------------------------
// Identities
// ---------------------------------------------------------------------------

#[verifier::external_type_specification]
#[verifier::external_body]
pub struct ExKeyPair(rcgen::KeyPair);

#[verifier::external_type_specification]
#[verifier::external_body]
pub struct ExCertificateParams(rcgen::CertificateParams);

/// The private key of a pair in PKCS#8 DER.
pub uninterp spec fn private_der(key: KeyPair) -> Seq<u8>;

/// `rcgen::KeyPair::serialize_der`: the private key in PKCS#8 DER, which is a
/// function of the pair.
#[verifier::external_body]
fn key_der(key: &KeyPair) -> (r: Vec<u8>)
    ensures
        r@ == private_der(*key),
{
    key.serialize_der()
}

/// The SubjectPublicKeyInfo of a key pair.
pub uninterp spec fn public_info(key: KeyPair) -> Seq<u8>;

/// The private key in PKCS#8 DER and the SubjectPublicKeyInfo of the key pair that
/// rcgen reads in a PEM text, if it reads one there.
pub uninterp spec fn key_parts_in(pem: Seq<char>) -> Option<(Seq<u8>, Seq<u8>)>;

/// `rcgen::KeyPair::from_pem`: a key pair of the key that the text holds, or none.
/// The contract says that the private key and the SubjectPublicKeyInfo of the
/// pair are functions of the text. It does not say when a pair is read: for some
/// kinds of keys that takes randomness, which the machine may refuse.
#[verifier::external_body]
fn key_from_pem(pem: &str) -> (r: Option<KeyPair>)
    ensures
        r matches Some(k) ==> key_parts_in(pem@) == Some((private_der(k), public_info(k))),
{
    KeyPair::from_pem(pem).ok()
}

/// `rcgen::KeyPair::generate_for` with Ed25519: a new key pair, or none where the
/// machine gives no randomness. The pair rests on chance, so the contract claims
/// nothing of it.
#[verifier::external_body]
fn generate_key() -> (r: Option<KeyPair>) {
    KeyPair::generate_for(&rcgen::PKCS_ED25519).ok()
}

/// A key pair as a PEM text.
pub uninterp spec fn pem_of(key: KeyPair) -> Seq<char>;

/// `rcgen::KeyPair::serialize_pem`: the private key in PKCS#8 PEM, a function of
/// the pair. A pair that is read back from it has the same private key.
#[verifier::external_body]
fn key_pem(key: &KeyPair) -> (r: String)
    ensures
        r@ == pem_of(*key),
        key_parts_in(r@) matches Some(parts) ==> parts.0 == private_der(*key),
{
    key.serialize_pem()
}

/// A new key for `identity.key`, as the text that the file holds.
pub fn new_identity_key() -> (r: Result<String, String>)
    ensures
        match r {
            Ok(pem) => exists|key: KeyPair|
                pem@ == #[trigger] pem_of(key) && (key_parts_in(pem@) matches Some(parts)
                    ==> parts.0 == private_der(key)),
            Err(e) => e@ == "generating identity key"@,
        },
{
    match generate_key() {
        Some(key) => Ok(key_pem(&key)),
        None => Err(text::owned("generating identity key")),
    }
}

/// What rcgen signs for a certificate with that one alternative name.
pub uninterp spec fn params_for(name: Seq<char>) -> Option<CertificateParams>;

/// `rcgen::CertificateParams::new` with one alternative name: a function of the
/// name; none where it is no valid name.
#[verifier::external_body]
fn cert_params(name: String) -> (r: Option<CertificateParams>)
    ensures
        r == params_for(name@),
{
    CertificateParams::new(vec![name]).ok()
}

/// `rcgen::CertificateParams::self_signed`: a certificate in DER over the public
/// key of the pair. The contract claims only that the SubjectPublicKeyInfo that
/// is read back from it is that of the pair: the signature may hold chance.
#[verifier::external_body]
fn self_sign(params: &CertificateParams, key: &KeyPair) -> (r: Option<Vec<u8>>)
    ensures
        r matches Some(cert) ==> (key_info_in(cert@) matches Ok(info) ==> info == public_info(
            *key,
        )),
{
    params.self_signed(key).ok().map(|cert| cert.der().to_vec())
}

/// A long-lived TLS identity: a self-signed cert over a persisted Ed25519 key,
/// plus this peer's own fingerprint (for logging / out-of-band exchange).
#[derive(Debug)]
pub struct Identity {
    pub cert_der: Vec<u8>,
    pub key_pkcs8_der: Vec<u8>,
    pub fingerprint: String,
}

/// An identity from what the outside gave: the private key, if one was read,
/// whether there is something to sign, and the certificate, if it was signed.
pub fn identity_of(
    key_pkcs8_der: Option<Vec<u8>>,
    has_params: bool,
    signed: Option<Vec<u8>>,
) -> (r: Result<Identity, String>)
    ensures
        match (key_pkcs8_der, signed) {
            (None, _) => r matches Err(e) && e@ == "parsing identity.key"@,
            (Some(key), _) if !has_params => r matches Err(e) && e@ == "cert params"@,
            (Some(key), None) => r matches Err(e) && e@ == "self-signing cert"@,
            (Some(key), Some(cert)) => match fingerprint(cert@) {
                Ok(fp) => r matches Ok(id) && id.cert_der == cert && id.key_pkcs8_der == key
                    && id.fingerprint@ == fp && fp.len() == 64,
                Err(why) => r matches Err(e) && e@ == why,
            },
        },
{
    let key_pkcs8_der = match key_pkcs8_der {
        Some(k) => k,
        None => return Err(text::owned("parsing identity.key")),
    };
    if !has_params {
        return Err(text::owned("cert params"));
    }
    let cert_der = match signed {
        Some(c) => c,
        None => return Err(text::owned("self-signing cert")),
    };
    match fingerprint_of_cert(cert_der.as_slice()) {
        Ok(fingerprint) => Ok(Identity { cert_der, key_pkcs8_der, fingerprint }),
        Err(e) => Err(e),
    }
}

/// Whether `id` is an identity over the key that a PEM text holds.
pub open spec fn identity_over(pem: Seq<char>, id: Identity) -> bool {
    key_parts_in(pem) matches Some((der, info)) && {
        &&& id.key_pkcs8_der@ == der
        &&& id.fingerprint@ == hex(sha256_of(info))
        &&& id.fingerprint@.len() == 64
        &&& fingerprint(id.cert_der@) == Ok::<Seq<char>, Seq<char>>(id.fingerprint@)
    }
}

/// Two identities over one persisted key have one fingerprint, which is that of
/// both their certificates, however the certificates were signed.
pub proof fn law_a_key_keeps_its_fingerprint(pem: Seq<char>, a: Identity, b: Identity)
    requires
        identity_over(pem, a),
        identity_over(pem, b),
    ensures
        a.fingerprint@ == b.fingerprint@,
        fingerprint(a.cert_der@) == fingerprint(b.cert_der@),
{
}

/// The identity of the key that `identity.key` holds. The self-signed cert is
/// rebuilt every call — only the key is stable, and the fingerprint hashes the
/// key, not the cert. Whether the machine lets the key be read and the cert be
/// signed is not stated.
pub fn identity_from_pem(pem: &str) -> (r: Result<Identity, String>)
    ensures
        match r {
            Ok(id) => params_for("imbuia"@) is Some && identity_over(pem@, id),
            Err(e) => {
                ||| e@ == "parsing identity.key"@
                ||| params_for("imbuia"@) is None && e@ == "cert params"@
                ||| params_for("imbuia"@) is Some && (e@ == "self-signing cert"@
                    || text::has_prefix(e@, "parsing peer certificate: "@))
            },
        },
        key_parts_in(pem@) is None ==> (r matches Err(e) && e@ == "parsing identity.key"@),
{
    let read = key_from_pem(pem);
    let params = cert_params(text::owned("imbuia"));
    let has_params = params.is_some();
    let key = match read {
        Some(k) => k,
        None => return identity_of(None, has_params, None),
    };
    let signed = match &params {
        Some(p) => self_sign(p, &key),
        None => None,
    };
    proof {
        if signed is Some && fingerprint(signed->0@) is Err {
            let lead = "parsing peer certificate: "@;
            assert(fingerprint(signed->0@)->Err_0.take(lead.len() as int) =~= lead);
        }
    }
    identity_of(Some(key_der(&key)), has_params, signed)
}

// ---------------------------------------------------------------------------
// Addresses
// ---------------------------------------------------------------------------

/// Why a url is no `host:port`.
#[derive(Copy, Clone, Debug, PartialEq, Eq, Structural)]
pub enum HostPortError {
    /// A bracket that is opened is not closed.
    Malformed,
    /// No port behind the brackets.
    MissingPort,
    /// No colon.
    NoPort,
}

/// Where the last `:` of `s` stands, among the first `n` characters.
pub open spec fn last_colon(s: Seq<char>, n: int) -> Option<int>
    decreases n,
{
    if n <= 0 {
        None
    } else if s[n - 1] == ':' {
        Some(n - 1)
    } else {
        last_colon(s, n - 1)
    }
}

/// The host and the port of a url. An IPv6 host stands in brackets; else the
/// last colon comes before the port.
pub open spec fn host_port(url: Seq<char>) -> Result<(Seq<char>, Seq<char>), HostPortError> {
    if url.len() > 0 && url[0] == '[' {
        let rest = url.skip(1);
        let close = text::find_char(rest, ']');
        if close >= rest.len() {
            Err(HostPortError::Malformed)
        } else {
            let tail = rest.skip(close as int + 1);
            if tail.len() > 0 && tail[0] == ':' {
                Ok((rest.take(close as int), tail.skip(1)))
            } else {
                Err(HostPortError::MissingPort)
            }
        }
    } else {
        match last_colon(url, url.len() as int) {
            Some(i) => Ok((url.take(i), url.skip(i + 1))),
            None => Err(HostPortError::NoPort),
        }
    }
}

/// Split a `host:port` url into `(host, port_str)`. IPv6 literals must be
/// bracketed (`[::1]:7777`).
pub fn split_host_port(url: &str) -> (r: Result<(String, String), HostPortError>)
    ensures
        match (r, host_port(url@)) {
            (Ok((h, p)), Ok((a, b))) => h@ == a && p@ == b,
            (Err(e), Err(f)) => e == f,
            _ => false,
        },
{
    let v = text::chars_of(url);
    let n: usize = v.len();
    if n > 0 && v[0] == '[' {
        let ghost rest = url@.skip(1);
        let close: usize = text::position_from(&v, 1, ']');
        assert(rest =~= v@.skip(1));
        if close >= n {
            return Err(HostPortError::Malformed);
        }
        proof {
            text::lemma_find_char(rest, ']');
        }
        let ghost tail = rest.skip(close - 1 + 1);
        assert(tail =~= url@.skip(close + 1));
        if close + 1 >= n || v[close + 1] != ':' {
            return Err(HostPortError::MissingPort);
        }
        let host = text::string_of(&v, 1, close);
        let port = text::string_of(&v, close + 2, n);
        assert(host@ =~= rest.take(close - 1));
        assert(port@ =~= tail.skip(1));
        return Ok((host, port));
    }
    let mut i: usize = n;
    while i > 0
        invariant
            i <= n,
            n == v@.len(),
            v@ == url@,
            n == 0 || v@[0] != '[',
            last_colon(url@, n as int) == last_colon(url@, i as int),
        decreases i,
    {
        if v[i - 1] == ':' {
            let host = text::string_of(&v, 0, i - 1);
            let port = text::string_of(&v, i, n);
            assert(host@ =~= url@.take(i - 1));
            assert(port@ =~= url@.skip(i as int));
            assert(last_colon(url@, n as int) == Some(i - 1));
            assert(url@.len() > 0);
            return Ok((host, port));
        }
        i -= 1;
    }
    Err(HostPortError::NoPort)
}

proof fn lemma_last_colon(s: Seq<char>, at: int, n: int)
    requires
        0 <= at < n <= s.len(),
        s[at] == ':',
        forall|i: int| at < i < n ==> #[trigger] s[i] != ':',
    ensures
        last_colon(s, n) == Some(at),
    decreases n,
{
    if n - 1 > at {
        lemma_last_colon(s, at, n - 1);
    }
}

/// How a remote supervisor is dialled: the name that its certificate is asked for,
/// and the one that its key is pinned under.
#[derive(Debug)]
pub struct DialTarget {
    pub host: String,
    pub pin: String,
}

/// How the supervisor at `url` is dialled. Its key is pinned under `host:port` as
/// the config writes it, so that supervisors on one host keep keys of their own.
pub fn dial_target(url: &str) -> (r: Result<DialTarget, HostPortError>)
    ensures
        match (r, host_port(url@)) {
            (Ok(t), Ok((host, _))) => t.host@ == host && t.pin@ == url@,
            (Err(e), Err(f)) => e == f,
            _ => false,
        },
{
    match split_host_port(url) {
        Ok((host, _)) => Ok(DialTarget { host, pin: text::owned(url) }),
        Err(e) => Err(e),
    }
}

/// A host and a port that were written together come apart again, where the
/// port holds no colon and the host opens no bracket.
pub proof fn law_host_and_port_come_apart(host: Seq<char>, port: Seq<char>)
    requires
        host.len() == 0 || host[0] != '[',
        forall|i: int| 0 <= i < port.len() ==> #[trigger] port[i] != ':',
    ensures
        host_port(host + seq![':'] + port) == Ok::<(Seq<char>, Seq<char>), HostPortError>(
            (host, port),
        ),
{
    let url = host + seq![':'] + port;
    assert(url[host.len() as int] == ':');
    assert forall|i: int| host.len() < i < url.len() implies #[trigger] url[i] != ':' by {
        assert(url[i] == port[i - host.len() - 1]);
    }
    lemma_last_colon(url, host.len() as int, url.len() as int);
    assert(url.take(host.len() as int) =~= host);
    assert(url.skip(host.len() as int + 1) =~= port);
}

// ---------------------------------------------------------------------------
// Verdicts
// ---------------------------------------------------------------------------

/// What the client makes of a supervisor's key.
#[derive(Debug)]
pub enum Verdict {
    /// It is the key that is pinned.
    Known,
    /// No key is pinned: this one is to be, by that line in known_hosts.
    Pin(String),
    /// Another key is pinned: refused, for that reason.
    Refused(String),
}

/// Why a supervisor's key is refused that is not the pinned one.
pub open spec fn changed_key(host: Seq<char>, known: Seq<char>, fp: Seq<char>) -> Seq<char> {
    "supervisor key for "@ + host + " changed (known "@ + known + ", got "@ + fp
        + "); refusing — remove the line from known_hosts to re-trust"@
}

/// Client-side: TOFU pin of the supervisor's public key in `known_hosts`.
pub fn judge_supervisor(known_hosts: &str, host: &str, fp: &str) -> (r: Verdict)
    ensures
        match known_fingerprint(known_hosts@, host@) {
            Some(known) => if known == fp@ {
                r is Known
            } else {
                r matches Verdict::Refused(why) && why@ == changed_key(host@, known, fp@)
            },
            None => r matches Verdict::Pin(line) && line@ == config::pin_line(host@, fp@).push(
                '\n',
            ),
        },
{
    match config::known_host_fingerprint(known_hosts, host) {
        Some(known) => {
            if text::same(known.as_str(), fp) {
                return Verdict::Known;
            }
            let mut why = text::concat3("supervisor key for ", host, " changed (known ");
            why.push_str(known.as_str());
            why.push_str(", got ");
            why.push_str(fp);
            why.push_str("); refusing — remove the line from known_hosts to re-trust");
            Verdict::Refused(why)
        },
        None => Verdict::Pin(config::known_host_line(host, fp)),
    }
}

/// Supervisor-side: admit only client fingerprints in `authorized_keys`.
pub fn judge_client(authorized_keys: &str, fp: &str) -> (r: Result<(), String>)
    ensures
        match r {
            Ok(_) => fingerprints(trust_entries(text::lines(authorized_keys@))).contains(fp@),
            Err(e) => !fingerprints(trust_entries(text::lines(authorized_keys@))).contains(fp@)
                && e@ == "client key "@ + fp@ + " not in authorized_keys"@,
        },
{
    let list = config::load_authorized_fingerprints(authorized_keys);
    let ghost all = text::texts(list@);
    let mut i: usize = 0;
    while i < list.len()
        invariant
            i <= list.len(),
            all == text::texts(list@),
            all == fingerprints(trust_entries(text::lines(authorized_keys@))),
            forall|j: int| 0 <= j < i ==> #[trigger] all[j] != fp@,
        decreases list.len() - i,
    {
        if text::same(list[i].as_str(), fp) {
            assert(all[i as int] == fp@);
            return Ok(());
        }
        i += 1;
    }
    Err(text::concat3("client key ", fp, " not in authorized_keys"))
}

} // verus!
