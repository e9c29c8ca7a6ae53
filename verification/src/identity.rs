//! The receiver's identity: a self-signed certificate and its fingerprint.

use vstd::prelude::*;

use crate::secret;
use crate::secret::{hex_of, sha256};
use crate::text;
use crate::text::{joined, text_of, trimmed_chars};

verus! {

/// File name of the certificate.
pub const CERT_FILE: &'static str = "identity-cert.der";

/// File name of the private key.
pub const KEY_FILE: &'static str = "identity-key.pk8";

/// Characters of the short form of a fingerprint.
pub const SHORT_FINGERPRINT_LEN: usize = 12;

/// Long-lived identity of a receiver: a self-signed certificate whose SHA-256 fingerprint
/// is shown to users, who can compare it.
pub struct Identity {
    cert_der: Vec<u8>,
    key_der: Vec<u8>,
    fingerprint_hex: String,
    host_name: String,
}

/// The view of an `Identity`.
#[verifier::ext_equal]
pub struct IdentityModel {
    pub cert_der: Seq<u8>,
    pub key_der: Seq<u8>,
    pub host_name: Seq<char>,
}

impl View for Identity {
    type V = IdentityModel;

    closed spec fn view(&self) -> IdentityModel {
        IdentityModel {
            cert_der: self.cert_der@,
            key_der: self.key_der@,
            host_name: self.host_name@,
        }
    }
}

/// The fingerprint of a certificate: its SHA-256 hash in hexadecimal.
pub open spec fn fingerprint_of(cert_der: Seq<u8>) -> Seq<char> {
    secret::hex_text(secret::sha256_of(cert_der))
}

/// The subject of a receiver's certificate.
pub open spec fn subject_of(host: Seq<char>) -> Seq<char> {
    "wireless-display@"@ + host
}

/// The subject of a receiver's certificate.
pub fn subject(host: &str) -> (r: String)
    ensures
        r@ == subject_of(host@),
{
    joined("wireless-display@", host)
}

/// `rcgen::generate_simple_self_signed` makes a key pair and a certificate for one subject.
/// It refuses a subject that is neither an IP address nor ASCII, so every subject that is
/// not ASCII. The key, and with it the certificate, is up to chance, so nothing is said of
/// the bytes, nor of when an ASCII subject gets them.
#[verifier::external_body]
fn self_signed(subject: String) -> (r: Result<(Vec<u8>, Vec<u8>), String>)
    ensures
        r is Ok ==> vstd::utf8::is_ascii_chars(subject@),
{
    match rcgen::generate_simple_self_signed(vec![subject]) {
        Ok(made) => Ok((made.cert.der().to_vec(), made.signing_key.serialize_der())),
        Err(e) => Err(e.to_string()),
    }
}

/// The host's name as the system gives it: without white space around it, and never empty.
pub open spec fn host_text(raw: Option<Seq<char>>) -> Seq<char> {
    match raw {
        Some(s) => if text::trimmed(s).len() == 0 {
            "linux-desktop"@
        } else {
            text::trimmed(s)
        },
        None => "linux-desktop"@,
    }
}

/// The host's name, from what the system gave, if it gave anything.
pub fn host_name(raw: Option<String>) -> (r: String)
    ensures
        r@ == host_text(crate::wire::maybe_view(raw)),
        r@.len() > 0,
{
    proof {
        reveal_strlit("linux-desktop");
    }
    match raw {
        Some(s) => {
            let chars = trimmed_chars(s.as_str());
            if chars.len() == 0 {
                "linux-desktop".to_owned()
            } else {
                text_of(chars.as_slice())
            }
        },
        None => "linux-desktop".to_owned(),
    }
}

impl Identity {
    /// The fingerprint is that of the certificate.
    pub closed spec fn wf(self) -> bool {
        &&& self.fingerprint_hex@ == fingerprint_of(self.cert_der@)
        &&& self.fingerprint_hex@.len() == 64
    }

    /// The identity that a stored certificate and key make up.
    pub fn from_parts(cert_der: Vec<u8>, key_der: Vec<u8>, host_name: String) -> (r: Identity)
        ensures
            r.wf(),
            r@ == (IdentityModel {
                cert_der: cert_der@,
                key_der: key_der@,
                host_name: host_name@,
            }),
    {
        let hash = sha256(cert_der.as_slice());
        let fingerprint_hex = hex_of(hash.as_slice());
        proof {
            secret::lemma_hex_text(hash@);
        }
        Identity { cert_der, key_der, fingerprint_hex, host_name }
    }

    /// The identity that a certificate and key just made for a host make up, or why none
    /// were made.
    pub fn from_made(made: Result<(Vec<u8>, Vec<u8>), String>, host_name: String) -> (r: Result<
        Identity,
        String,
    >)
        ensures
            match made {
                Ok((cert_der, key_der)) => r matches Ok(id) && id.wf() && id@ == (IdentityModel {
                    cert_der: cert_der@,
                    key_der: key_der@,
                    host_name: host_name@,
                }),
                Err(why) => r == Err::<Identity, String>(why),
            },
    {
        match made {
            Ok((cert_der, key_der)) => Ok(Identity::from_parts(cert_der, key_der, host_name)),
            Err(why) => Err(why),
        }
    }

    /// A new identity for a host. There is none for a host whose name is not ASCII.
    pub fn generate(host_name: String) -> (r: Result<Identity, String>)
        ensures
            r matches Ok(id) ==> id.wf() && id@.host_name == host_name@,
            !vstd::utf8::is_ascii_chars(host_name@) ==> r is Err,
    {
        let made = self_signed(subject(host_name.as_str()));
        proof {
            vstd::utf8::is_ascii_chars_concat(
                subject_of(host_name@),
                "wireless-display@"@,
                host_name@,
            );
        }
        Identity::from_made(made, host_name)
    }

    /// The fingerprint in full.
    pub fn fingerprint_hex(&self) -> (r: &str)
        requires
            self.wf(),
        ensures
            r@ == fingerprint_of(self@.cert_der),
            r@.len() == 64,
    {
        self.fingerprint_hex.as_str()
    }

    /// The first twelve digits of the fingerprint.
    pub fn fingerprint_short(&self) -> (r: String)
        requires
            self.wf(),
        ensures
            r@ == fingerprint_of(self@.cert_der).take(SHORT_FINGERPRINT_LEN as int),
            r@.len() == SHORT_FINGERPRINT_LEN,
    {
        let short = self.fingerprint_hex.as_str().substring_char(0, SHORT_FINGERPRINT_LEN);
        proof {
            assert(short@ =~= fingerprint_of(self@.cert_der).take(SHORT_FINGERPRINT_LEN as int));
        }
        short.to_owned()
    }

    /// The host's name.
    pub fn host_name(&self) -> (r: &str)
        ensures
            r@ == self@.host_name,
    {
        self.host_name.as_str()
    }

    /// The certificate, in DER.
    pub fn cert_der(&self) -> (r: &[u8])
        ensures
            r@ == self@.cert_der,
    {
        self.cert_der.as_slice()
    }

    /// The private key, in DER.
    pub fn key_der(&self) -> (r: &[u8])
        ensures
            r@ == self@.key_der,
    {
        self.key_der.as_slice()
    }
}

/// A fingerprint is the hash of the certificate in hexadecimal, and nothing else goes into it;
/// the subject names the host.
pub proof fn law_fingerprints_are_hashes(cert_der: Seq<u8>, host: Seq<char>)
    ensures
        fingerprint_of(cert_der) == secret::hex_text(secret::sha256_of(cert_der)),
        subject_of(host) == "wireless-display@"@ + host,
{
}

/// A host goes by its name without white space around it; one without a name goes by
/// `linux-desktop`.
pub proof fn law_hosts_go_by_their_name(a: Seq<char>, name: Seq<char>, b: Seq<char>)
    requires
        forall|i: int| 0 <= i < a.len() ==> text::unicode_whitespace(#[trigger] a[i]),
        forall|i: int| 0 <= i < b.len() ==> text::unicode_whitespace(#[trigger] b[i]),
        name.len() > 0 ==> !text::unicode_whitespace(name[0]) && !text::unicode_whitespace(
            name.last(),
        ),
    ensures
        host_text(Some(a + name + b)) == (if name.len() > 0 {
            name
        } else {
            "linux-desktop"@
        }),
        host_text(None) == "linux-desktop"@,
{
    text::law_trimming_takes_white_space_around(a, name, b);
}

} // verus!
