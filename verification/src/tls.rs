//! TLS material for the HTTP transport: a PEM certificate chain and key,
//! where they came from (which decides whether a renewal can be picked up),
//! how the deployment's settings pair them, and when a renewal on disk has
//! settled enough to install.
use vstd::prelude::*;

use rustls::pki_types::pem::PemObject;

use crate::text::{chars_of, decimal, decimal_string, debug_quoted, debug_str, parse_u64, parse_u64_spec, push_str, string_of, trim_ws, trim_ws_exec};

verus! {

/// How often a file-sourced certificate is re-read, in seconds.
pub const DEFAULT_RELOAD_SECS: u64 = 60;

/// Where PEM material came from. Inline bytes are final; files are a source
/// a renewal rewrites under the running process.
#[derive(Clone, Debug, PartialEq, Eq)]
pub enum TlsSource {
    /// Handed over as bytes.
    Inline,
    /// Read from these two paths.
    Files { cert: String, key: String },
}

/// A source as plain values.
pub enum SourceView {
    Inline,
    Files { cert: Seq<char>, key: Seq<char> },
}

impl View for TlsSource {
    type V = SourceView;

    open spec fn view(&self) -> SourceView {
        match self {
            TlsSource::Inline => SourceView::Inline,
            TlsSource::Files { cert, key } => SourceView::Files { cert: cert@, key: key@ },
        }
    }
}

/// TLS material: a PEM certificate chain and private key.
#[derive(Clone)]
pub struct TlsConfig {
    cert: Vec<u8>,
    key: Vec<u8>,
    source: TlsSource,
    reload_secs: u64,
}

/// TLS material as plain values.
pub struct TlsView {
    pub cert: Seq<u8>,
    pub key: Seq<u8>,
    pub source: SourceView,
    pub reload_secs: u64,
}

impl View for TlsConfig {
    type V = TlsView;

    closed spec fn view(&self) -> TlsView {
        TlsView { cert: self.cert@, key: self.key@, source: self.source@, reload_secs: self.reload_secs }
    }
}

/// `Debug` of a source.
pub open spec fn source_text(s: SourceView) -> Seq<char> {
    match s {
        SourceView::Inline => "Inline"@,
        SourceView::Files { cert, key } => "Files { cert: "@ + debug_str(cert) + ", key: "@ + debug_str(key) + " }"@,
    }
}

/// What a configuration says of itself: sizes, never the bytes.
pub open spec fn describe_spec(t: TlsView) -> Seq<char> {
    "TlsConfig { cert: <"@ + decimal(t.cert.len()) + " bytes>, key: <"@ + decimal(t.key.len())
        + " bytes redacted>, source: "@ + source_text(t.source) + ", reload_secs: "@ + decimal(t.reload_secs as nat)
        + " }"@
}

impl TlsConfig {
    /// Material handed over as PEM bytes. It has no source to watch.
    pub fn new(cert: Vec<u8>, key: Vec<u8>) -> (r: Self)
        ensures
            r@ == (TlsView { cert: cert@, key: key@, source: SourceView::Inline, reload_secs: 0 }),
    {
        TlsConfig { cert, key, source: TlsSource::Inline, reload_secs: 0 }
    }

    /// Material read from the files at `cert_path` and `key_path`, watched so
    /// a renewal is picked up without a restart.
    pub fn from_files(cert_path: &str, key_path: &str, cert: Vec<u8>, key: Vec<u8>) -> (r: Self)
        ensures
            r@ == (TlsView {
                cert: cert@,
                key: key@,
                source: SourceView::Files { cert: cert_path@, key: key_path@ },
                reload_secs: DEFAULT_RELOAD_SECS,
            }),
    {
        TlsConfig {
            cert,
            key,
            source: TlsSource::Files { cert: cert_path.to_owned(), key: key_path.to_owned() },
            reload_secs: DEFAULT_RELOAD_SECS,
        }
    }

    /// How often a file-sourced pair is re-read; `0` disables watching.
    pub fn with_reload_secs(self, secs: u64) -> (r: Self)
        ensures
            r@ == (TlsView { reload_secs: secs, ..self@ }),
    {
        TlsConfig { reload_secs: secs, ..self }
    }

    /// The certificate chain's PEM bytes.
    pub fn cert(&self) -> (r: &[u8])
        ensures
            r@ == self@.cert,
    {
        self.cert.as_slice()
    }

    /// The private key's PEM bytes.
    pub fn key(&self) -> (r: &[u8])
        ensures
            r@ == self@.key,
    {
        self.key.as_slice()
    }

    /// Where the material came from.
    pub fn source(&self) -> (r: &TlsSource)
        ensures
            r@ == self@.source,
    {
        &self.source
    }

    /// The re-read interval, in seconds.
    pub fn reload_secs(&self) -> (r: u64)
        ensures
            r == self@.reload_secs,
    {
        self.reload_secs
    }

    /// Whether a renewal on disk is picked up: the material came from files
    /// and watching is on.
    pub fn is_watchable(&self) -> (r: bool)
        ensures
            r == (self@.source is Files && self@.reload_secs > 0),
    {
        match &self.source {
            TlsSource::Files { .. } => self.reload_secs > 0,
            TlsSource::Inline => false,
        }
    }

    /// What the configuration says of itself in a log line: the sizes of the
    /// certificate and the key, never their bytes.
    pub fn describe(&self) -> (r: String)
        ensures
            r@ == describe_spec(self@),
    {
        let mut s = "TlsConfig { cert: <".to_owned();
        let n = decimal_string(self.cert.len() as u64);
        push_str(&mut s, n.as_str());
        push_str(&mut s, " bytes>, key: <");
        let n = decimal_string(self.key.len() as u64);
        push_str(&mut s, n.as_str());
        push_str(&mut s, " bytes redacted>, source: ");
        match &self.source {
            TlsSource::Inline => push_str(&mut s, "Inline"),
            TlsSource::Files { cert, key } => {
                let mut t = "Files { cert: ".to_owned();
                let q = debug_quoted(cert.as_str());
                push_str(&mut t, q.as_str());
                push_str(&mut t, ", key: ");
                let q = debug_quoted(key.as_str());
                push_str(&mut t, q.as_str());
                push_str(&mut t, " }");
                push_str(&mut s, t.as_str());
            },
        }
        push_str(&mut s, ", reload_secs: ");
        let n = decimal_string(self.reload_secs);
        push_str(&mut s, n.as_str());
        push_str(&mut s, " }");
        s
    }
}

/// One half of a configured pair: its PEM bytes and, when they were read
/// from a file, the file's path.
#[derive(Clone, Debug)]
pub struct PemSetting {
    /// The PEM bytes.
    pub bytes: Vec<u8>,
    /// The path they were read from, if they were.
    pub path: Option<String>,
}

/// The variable a PEM certificate is set inline in.
pub const TLS_CERT_VAR: &'static str = "NESTRS_HTTP__TLS_CERT";
/// The variable a PEM key is set inline in.
pub const TLS_KEY_VAR: &'static str = "NESTRS_HTTP__TLS_KEY";
/// The variable of the re-read interval.
pub const TLS_RELOAD_VAR: &'static str = "NESTRS_HTTP__TLS_RELOAD_SECS";

/// A half as plain values.
pub open spec fn pem_view(p: Option<PemSetting>) -> Option<(Seq<u8>, Option<Seq<char>>)> {
    match p {
        Some(s) => Some((s.bytes@, match s.path {
            Some(path) => Some(path@),
            None => None,
        })),
        None => None,
    }
}

/// What the deployment's TLS settings resolve to: `Ok(None)` serves plain
/// HTTP. Both halves make a pair — watched only when both came from files;
/// neither keeps `base` (taking the interval if one is set); one alone is
/// refused, naming the missing half. An interval that is not a whole number
/// of seconds is refused first.
pub open spec fn tls_settings_spec(
    cert: Option<(Seq<u8>, Option<Seq<char>>)>,
    key: Option<(Seq<u8>, Option<Seq<char>>)>,
    reload: Option<Seq<char>>,
    base: Option<TlsView>,
) -> Result<Option<TlsView>, Seq<char>> {
    let secs: Option<u64> = match reload {
        Some(raw) => parse_u64_spec(trim_ws(raw)),
        None => None,
    };
    if reload is Some && secs is None {
        Err(TLS_RELOAD_VAR@ + " must be a whole number of seconds"@)
    } else {
        match (cert, key) {
            (Some(c), Some(k)) => match (c.1, k.1) {
                (Some(cp), Some(kp)) => Ok(Some(TlsView {
                    cert: c.0,
                    key: k.0,
                    source: SourceView::Files { cert: cp, key: kp },
                    reload_secs: match secs {
                        Some(s) => s,
                        None => DEFAULT_RELOAD_SECS,
                    },
                })),
                _ => Ok(Some(TlsView { cert: c.0, key: k.0, source: SourceView::Inline, reload_secs: 0 })),
            },
            (None, None) => match base {
                Some(b) => Ok(Some(match secs {
                    Some(s) => TlsView { reload_secs: s, ..b },
                    None => b,
                })),
                None => Ok(None),
            },
            (Some(_), None) => Err(TLS_CERT_VAR@ + " is set but no key ("@ + TLS_KEY_VAR@ + " / _FILE)"@),
            (None, Some(_)) => Err(TLS_KEY_VAR@ + " is set but no certificate ("@ + TLS_CERT_VAR@ + " / _FILE)"@),
        }
    }
}

/// The view of an optional configuration.
pub open spec fn opt_tls(c: Option<TlsConfig>) -> Option<TlsView> {
    match c {
        Some(t) => Some(t@),
        None => None,
    }
}

/// Resolve the deployment's TLS settings; see [`tls_settings_spec`]. The
/// halves arrive already read (the inline form winning over the file form).
pub fn tls_from_settings(
    cert: Option<PemSetting>,
    key: Option<PemSetting>,
    reload: Option<&str>,
    base: Option<TlsConfig>,
) -> (r: Result<Option<TlsConfig>, String>)
    ensures
        match r {
            Ok(c) => tls_settings_spec(pem_view(cert), pem_view(key), match reload {
                Some(s) => Some(s@),
                None => None,
            }, opt_tls(base)) == Ok::<Option<TlsView>, Seq<char>>(opt_tls(c)),
            Err(e) => tls_settings_spec(pem_view(cert), pem_view(key), match reload {
                Some(s) => Some(s@),
                None => None,
            }, opt_tls(base)) == Err::<Option<TlsView>, Seq<char>>(e@),
        },
{
    let secs: Option<u64> = match reload {
        Some(raw) => {
            let t = trim_ws_exec(&chars_of(raw));
            let t = string_of(&t);
            match parse_u64(t.as_str()) {
                Some(n) => Some(n),
                None => {
                    let mut m = TLS_RELOAD_VAR.to_owned();
                    push_str(&mut m, " must be a whole number of seconds");
                    return Err(m);
                },
            }
        },
        None => None,
    };
    match (cert, key) {
        (Some(c), Some(k)) => match (c.path, k.path) {
            (Some(cp), Some(kp)) => {
                let reload_secs = match secs {
                    Some(s) => s,
                    None => DEFAULT_RELOAD_SECS,
                };
                Ok(Some(TlsConfig { cert: c.bytes, key: k.bytes, source: TlsSource::Files { cert: cp, key: kp }, reload_secs }))
            },
            _ => Ok(Some(TlsConfig::new(c.bytes, k.bytes))),
        },
        (None, None) => match base {
            Some(b) => Ok(Some(match secs {
                Some(s) => b.with_reload_secs(s),
                None => b,
            })),
            None => Ok(None),
        },
        (Some(_), None) => {
            let mut m = TLS_CERT_VAR.to_owned();
            push_str(&mut m, " is set but no key (");
            push_str(&mut m, TLS_KEY_VAR);
            push_str(&mut m, " / _FILE)");
            Err(m)
        },
        (None, Some(_)) => {
            let mut m = TLS_KEY_VAR.to_owned();
            push_str(&mut m, " is set but no certificate (");
            push_str(&mut m, TLS_CERT_VAR);
            push_str(&mut m, " / _FILE)");
            Err(m)
        },
    }
}

/// Whether two byte strings are equal.
pub fn bytes_eq(a: &[u8], b: &[u8]) -> (r: bool)
    ensures
        r == (a@ == b@),
{
    if a.len() != b.len() {
        return false;
    }
    let mut i: usize = 0;
    while i < a.len()
        invariant
            i <= a.len(),
            a.len() == b.len(),
            forall|k: int| 0 <= k < i ==> a@[k] == b@[k],
        decreases a.len() - i,
    {
        if a[i] != b[i] {
            return false;
        }
        i = i + 1;
    }
    assert(a@ =~= b@);
    true
}

/// A PEM pair as plain values.
pub type PairView = (Seq<u8>, Seq<u8>);

/// The view of an optional pair.
pub open spec fn opt_pair(p: Option<(Vec<u8>, Vec<u8>)>) -> Option<PairView> {
    match p {
        Some(x) => Some((x.0@, x.1@)),
        None => None,
    }
}

/// One tick of the renewal watch, given the pair in hand, the pair seen at
/// the last tick (`pending`) and this tick's read (`None`: half the pair was
/// unreadable). Returns the new `pending` and, when a renewal has settled,
/// the pair to install: one that differs from the pair in hand and read
/// back identical on two ticks in a row.
pub open spec fn settle_spec(hand: PairView, pending: Option<PairView>, read: Option<PairView>) -> (Option<PairView>, Option<PairView>) {
    match read {
        None => (None, None),
        Some(p) => if p == hand {
            (None, None)
        } else if pending != Some(p) {
            (Some(p), None)
        } else {
            (None, Some(p))
        },
    }
}

/// See [`settle_spec`].
pub fn settle_step(
    hand_cert: &[u8],
    hand_key: &[u8],
    pending: Option<(Vec<u8>, Vec<u8>)>,
    read: Option<(Vec<u8>, Vec<u8>)>,
) -> (r: (Option<(Vec<u8>, Vec<u8>)>, Option<(Vec<u8>, Vec<u8>)>))
    ensures
        (opt_pair(r.0), opt_pair(r.1)) == settle_spec((hand_cert@, hand_key@), opt_pair(pending), opt_pair(read)),
{
    match read {
        None => (None, None),
        Some((cert, key)) => {
            if bytes_eq(&cert, hand_cert) && bytes_eq(&key, hand_key) {
                return (None, None);
            }
            let same = match &pending {
                Some((pc, pk)) => bytes_eq(pc, &cert) && bytes_eq(pk, &key),
                None => false,
            };
            if !same {
                (Some((cert, key)), None)
            } else {
                (None, Some((cert, key)))
            }
        },
    }
}

/// Whatever the watch installs differs from the pair in hand and was read
/// identical on two ticks in a row — a pair caught mid-write is never served.
pub proof fn law_installed_pair_was_read_twice(hand: PairView, pending: Option<PairView>, read: Option<PairView>)
    ensures
        settle_spec(hand, pending, read).1 is Some ==> {
            let p = settle_spec(hand, pending, read).1->0;
            &&& read == Some(p)
            &&& pending == Some(p)
            &&& p != hand
        },
{
}

/// How many `CERTIFICATE` blocks PEM bytes hold; `None` when they are not
/// valid PEM.
pub uninterp spec fn pem_chain_len(cert: Seq<u8>) -> Option<nat>;

/// Whether PEM bytes hold a private key.
pub uninterp spec fn pem_key_parses(key: Seq<u8>) -> bool;

/// `CertificateDer::pem_slice_iter` of `rustls-pki-types`, collected: the
/// number of certificates in the chain, or `None` when a block does not
/// parse. The count depends on the bytes alone.
#[verifier::external_body]
fn certificate_chain_len(cert: &[u8]) -> (r: Option<usize>)
    ensures
        match r {
            Some(n) => pem_chain_len(cert@) == Some(n as nat),
            None => pem_chain_len(cert@) is None,
        },
{
    rustls::pki_types::CertificateDer::pem_slice_iter(cert).collect::<Result<Vec<_>, _>>().ok().map(|c| c.len())
}

/// `PrivateKeyDer::from_pem_slice` of `rustls-pki-types`: whether the bytes
/// hold a private key. The answer depends on the bytes alone.
#[verifier::external_body]
fn private_key_parses(key: &[u8]) -> (r: bool)
    ensures
        r == pem_key_parses(key@),
{
    rustls::pki_types::PrivateKeyDer::from_pem_slice(key).is_ok()
}

/// rustls's `CertifiedKey::keys_match` on the pair, with the key loaded by
/// the process's installed crypto provider (aws-lc-rs when none is
/// installed): `None` when that provider cannot sign with the key, else
/// whether certificate and key correspond. Nothing is stated of the answer:
/// it depends on which provider the process installed.
#[verifier::external_body]
fn keys_correspond(cert: &[u8], key: &[u8]) -> (r: Option<bool>) {
    let chain: Vec<_> = rustls::pki_types::CertificateDer::pem_slice_iter(cert).collect::<Result<_, _>>().ok()?;
    let key = rustls::pki_types::PrivateKeyDer::from_pem_slice(key).ok()?;
    let signing = match rustls::crypto::CryptoProvider::get_default() {
        Some(provider) => provider.key_provider.load_private_key(key),
        None => rustls::crypto::aws_lc_rs::sign::any_supported_type(&key),
    }
    .ok()?;
    Some(rustls::sign::CertifiedKey::new(chain, signing).keys_match().is_ok())
}

/// The refusal of bytes that are not a certificate chain.
pub const CERT_NOT_PEM: &'static str = "the certificate is not valid PEM";
/// The refusal of a chain with nothing in it.
pub const CERT_EMPTY: &'static str = "the certificate holds no CERTIFICATE block — an empty or truncated file reads as a chain with nothing in it, which every handshake then fails to present";
/// The refusal of bytes that are not a private key.
pub const KEY_NOT_PEM: &'static str = "the private key is not valid PEM";
/// The refusal of a key no signer can use.
pub const KEY_UNSUPPORTED: &'static str = "the private key is not a type this build of rustls can sign with";
/// The refusal of a pair whose halves do not correspond.
pub const KEYS_MISMATCH: &'static str = "the certificate and the private key do not correspond — a renewal that writes the two as separate operations is observable half-done, and installing that pair fails every handshake";

/// The text of a refusal, if it is one.
pub open spec fn refusal(r: Result<(), String>) -> Option<Seq<char>> {
    match r {
        Ok(()) => None,
        Err(m) => Some(m@),
    }
}

/// What the provider's verdict on a parsed pair means: `None` (it cannot
/// sign with the key) and `Some(false)` (the halves do not correspond) are
/// refused naming which, `Some(true)` serves.
pub open spec fn pair_outcome_spec(o: Option<bool>) -> Option<Seq<char>> {
    match o {
        None => Some(KEY_UNSUPPORTED@),
        Some(false) => Some(KEYS_MISMATCH@),
        Some(true) => None,
    }
}

/// See [`pair_outcome_spec`].
pub fn pair_outcome(o: Option<bool>) -> (r: Result<(), String>)
    ensures
        refusal(r) == pair_outcome_spec(o),
{
    match o {
        None => Err(KEY_UNSUPPORTED.to_owned()),
        Some(false) => Err(KEYS_MISMATCH.to_owned()),
        Some(true) => Ok(()),
    }
}

/// Whether a PEM pair can serve: a parseable, non-empty chain, a parseable
/// key, a key the crypto provider can sign with, and the two corresponding.
/// Both the boot and every renewal go through here, so unusable material is
/// refused loudly instead of installed to fail every handshake. The first
/// three refusals follow from the bytes; the last two rest on the provider.
pub fn validate_pair(cert: &[u8], key: &[u8]) -> (r: Result<(), String>)
    ensures
        pem_chain_len(cert@) is None ==> refusal(r) == Some(CERT_NOT_PEM@),
        pem_chain_len(cert@) == Some(0nat) ==> refusal(r) == Some(CERT_EMPTY@),
        (pem_chain_len(cert@) matches Some(n) && n > 0 && !pem_key_parses(key@)) ==> refusal(r) == Some(KEY_NOT_PEM@),
        (pem_chain_len(cert@) matches Some(n) && n > 0 && pem_key_parses(key@)) ==> exists|o: Option<bool>|
            refusal(r) == #[trigger] pair_outcome_spec(o),
{
    match certificate_chain_len(cert) {
        None => {
            return Err(CERT_NOT_PEM.to_owned());
        },
        Some(0) => {
            return Err(CERT_EMPTY.to_owned());
        },
        Some(_) => {},
    }
    if !private_key_parses(key) {
        return Err(KEY_NOT_PEM.to_owned());
    }
    pair_outcome(keys_correspond(cert, key))
}

/// Only a pair read wholly from files is ever watched: a pair with one
/// half inline (or both) is inline material, because reloading half a pair
/// would swap in a certificate its key no longer matches.
pub proof fn law_a_mixed_pair_is_never_watched(
    cert: (Seq<u8>, Option<Seq<char>>),
    key: (Seq<u8>, Option<Seq<char>>),
    reload: Option<Seq<char>>,
    base: Option<TlsView>,
)
    requires
        cert.1 is None || key.1 is None,
        tls_settings_spec(Some(cert), Some(key), reload, base) is Ok,
    ensures
        tls_settings_spec(Some(cert), Some(key), reload, base)->Ok_0 matches Some(v) && v.source is Inline,
{
}

} // verus!
