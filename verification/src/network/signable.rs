//! Signed envelopes.
//!
//! A value is signed over its canonical byte encoding (see `codec`) with
//! the sender's ed25519 key, and travels together with the signature and
//! the signer's public key.  Verification re-encodes the embedded value
//! with the same canonical encoding and checks the signature against the
//! embedded key: the recovered signer, not any separately transmitted
//! field, is the authority for trust decisions.

use crate::codec::{canon_bytes, lemma_seq_split, put_bytes, take_bytes};
use vstd::bytes::{lemma_auto_spec_u64_to_from_le_bytes, spec_u64_from_le_bytes, spec_u64_to_le_bytes};
use vstd::prelude::*;
use vstd::slice::slice_subrange;

verus! {

/// The compressed ed25519 public key derived from 32 secret-key bytes.
pub uninterp spec fn pk_of(secret: Seq<u8>) -> Seq<u8>;

/// The ed25519 signature over `msg` by the key with the given secret
/// bytes.  RFC 8032 signing is deterministic, so this is a function of
/// the two arguments alone.
pub uninterp spec fn sig_of(secret: Seq<u8>, msg: Seq<u8>) -> Seq<u8>;

/// True when `pk` parses as a compressed ed25519 point and `sig` is a
/// valid signature over `msg` under it.
pub uninterp spec fn sig_ok(pk: Seq<u8>, msg: Seq<u8>, sig: Seq<u8>) -> bool;

/// Relies on libp2p's `identity::ed25519::Keypair::generate` and
/// `SecretKey`: a freshly generated keypair's secret is 32 random
/// bytes.
#[verifier::external_body]
fn ed25519_generate() -> (r: Vec<u8>)
    ensures
        r@.len() == 32,
{
    let kp = libp2p::identity::ed25519::Keypair::generate();
    let sk = kp.secret();
    let b: &[u8] = sk.as_ref();
    b.to_vec()
}

/// Relies on libp2p's `identity::ed25519::SecretKey::try_from_bytes`
/// (which accepts exactly 32 bytes), `Keypair::public` and
/// `PublicKey::to_bytes`: the compressed public key is a function of
/// the secret bytes alone, and is 32 bytes long.
#[verifier::external_body]
fn ed25519_public(secret: &Vec<u8>) -> (r: Vec<u8>)
    requires
        secret@.len() == 32,
    ensures
        r@ == pk_of(secret@),
        r@.len() == 32,
{
    let mut buf = secret.clone();
    let sk = libp2p::identity::ed25519::SecretKey::try_from_bytes(&mut buf).unwrap();
    let kp = libp2p::identity::ed25519::Keypair::from(sk);
    kp.public().to_bytes().to_vec()
}

/// Relies on libp2p's `identity::ed25519::Keypair::sign`: RFC 8032
/// signing, deterministic in the secret key and message, 64 bytes
/// long, and accepted by `PublicKey::verify` under the public key
/// derived from the same secret.
#[verifier::external_body]
fn ed25519_sign(secret: &Vec<u8>, msg: &[u8]) -> (r: Vec<u8>)
    requires
        secret@.len() == 32,
    ensures
        r@ == sig_of(secret@, msg@),
        r@.len() == 64,
        sig_ok(pk_of(secret@), msg@, r@),
{
    let mut buf = secret.clone();
    let sk = libp2p::identity::ed25519::SecretKey::try_from_bytes(&mut buf).unwrap();
    let kp = libp2p::identity::ed25519::Keypair::from(sk);
    kp.sign(msg)
}

/// Relies on libp2p's `identity::ed25519::PublicKey::try_from_bytes`
/// and `PublicKey::verify`: true exactly when the key parses (which
/// requires 32 bytes) and the signature is accepted for the message.
#[verifier::external_body]
fn ed25519_verify(pk: &Vec<u8>, msg: &[u8], sig: &Vec<u8>) -> (r: bool)
    ensures
        r == sig_ok(pk@, msg@, sig@),
        r ==> pk@.len() == 32,
{
    match libp2p::identity::ed25519::PublicKey::try_from_bytes(pk.as_slice()) {
        Ok(k) => k.verify(msg, sig.as_slice()),
        Err(_) => false,
    }
}

/// A local peer identity: an ed25519 keypair, held as its 32 secret
/// bytes.  The secret never leaves this type; its view is ghost only.
pub struct Keypair {
    secret: Vec<u8>,
}

impl View for Keypair {
    type V = Seq<u8>;

    closed spec fn view(&self) -> Seq<u8> {
        self.secret@
    }
}

impl Keypair {
    /// A keypair holds exactly 32 secret bytes.
    #[verifier::type_invariant]
    spec fn inv(self) -> bool {
        self@.len() == 32
    }

    pub fn generate() -> (r: Keypair) {
        Keypair { secret: ed25519_generate() }
    }

    /// A keypair from its 32 secret bytes; any other length is
    /// rejected.
    pub fn from_bytes(secret: Vec<u8>) -> (r: Option<Keypair>)
        ensures
            match r {
                Some(kp) => secret@.len() == 32 && kp@ == secret@,
                None => secret@.len() != 32,
            },
    {
        if secret.len() == 32 {
            Some(Keypair { secret })
        } else {
            None
        }
    }

    /// The public half of this identity.
    pub fn public(&self) -> (r: PublicKey)
        ensures
            r@ == pk_of(self@),
            r@.len() == 32,
    {
        proof {
            use_type_invariant(&*self);
        }
        PublicKey { bytes: ed25519_public(&self.secret) }
    }
}

impl Clone for Keypair {
    /// The clone is the same identity.
    fn clone(&self) -> (r: Self)
        ensures
            r@ == self@,
    {
        proof {
            use_type_invariant(&*self);
        }
        let secret = self.secret.clone();
        proof {
            assert(secret@ =~= self.secret@);
        }
        Keypair { secret }
    }
}

/// A peer's ed25519 public key in compressed form.
#[derive(Clone, Debug)]
pub struct PublicKey {
    pub bytes: Vec<u8>,
}

impl View for PublicKey {
    type V = Seq<u8>;

    open spec fn view(&self) -> Seq<u8> {
        self.bytes@
    }
}

/// A value with a canonical byte encoding, which makes it signable: the
/// signature is computed over exactly these bytes, so the encoding must
/// be deterministic and unambiguous.
pub trait Signable: Sized {
    /// The canonical byte encoding of this value.
    spec fn canon(&self) -> Seq<u8>;

    fn encode(&self) -> (r: Vec<u8>)
        ensures
            r@ == self.canon(),
    ;

    /// Parses a canonical encoding, and nothing else: on success the
    /// decoded value re-encodes to exactly the input, and on failure no
    /// value of the type has the input as its encoding.
    fn decode(bytes: &[u8]) -> (r: Option<Self>)
        ensures
            match r {
                Some(v) => v.canon() == bytes@,
                None => forall|v: Self| (#[trigger] v.canon()) != bytes@,
            },
    ;
}

/// A value bundled with an ed25519 signature over its canonical encoding
/// and the signer's public key, verifiable without any other trust
/// anchor.
#[derive(Clone, Debug)]
pub struct Signed<T> {
    pub sig: Vec<u8>,
    pub pub_key: Vec<u8>,
    pub content: T,
}

/// True when the envelope's signature is valid for its own content under
/// its own embedded key.
pub open spec fn envelope_ok<T: Signable>(e: Signed<T>) -> bool {
    sig_ok(e.pub_key@, e.content.canon(), e.sig@)
}

/// What verification of an envelope yields: the content and the signer's
/// key bytes on success, nothing on any mismatch.
pub open spec fn spec_verify<T: Signable>(e: Signed<T>) -> Option<(T, Seq<u8>)> {
    if envelope_ok(e) {
        Some((e.content, e.pub_key@))
    } else {
        None
    }
}

/// The envelope that `sign` builds for `value` under the keypair with
/// the given secret bytes.
pub open spec fn signed_with<T: Signable>(e: Signed<T>, value: T, keypair: Seq<u8>) -> bool {
    &&& e.content == value
    &&& e.pub_key@ == pk_of(keypair)
    &&& e.sig@ == sig_of(keypair, value.canon())
    &&& envelope_ok(e)
}

/// Canonically serializes `value`, signs the bytes, and embeds the
/// signer's public key.
pub fn sign<T: Signable>(value: T, keypair: &Keypair) -> (r: Signed<T>)
    ensures
        signed_with(r, value, keypair@),
{
    proof {
        use_type_invariant(keypair);
    }
    let bytes = value.encode();
    let sig = ed25519_sign(&keypair.secret, bytes.as_slice());
    let pub_key = ed25519_public(&keypair.secret);
    Signed { sig, pub_key, content: value }
}

impl<T: Signable> Signed<T> {
    /// Re-serializes the embedded content with the canonical encoding
    /// and checks the signature against the embedded key.  Any mismatch
    /// is a normal negative result, never a panic.
    pub fn verify(self) -> (r: Option<(T, PublicKey)>)
        ensures
            match r {
                Some((v, pk)) => {
                    &&& spec_verify(self) == Some((v, pk@))
                    &&& v == self.content
                    &&& pk@ == self.pub_key@
                    &&& pk@.len() == 32
                },
                None => spec_verify(self) is None,
            },
    {
        let bytes = self.content.encode();
        if ed25519_verify(&self.pub_key, bytes.as_slice(), &self.sig) {
            Some((self.content, PublicKey { bytes: self.pub_key }))
        } else {
            None
        }
    }
}

/// Canonical encoding of an envelope: the signature and the public key,
/// each length-prefixed, then the canonical bytes of the content.
pub open spec fn canon_signed<T: Signable>(e: Signed<T>) -> Seq<u8> {
    canon_bytes(e.sig@) + canon_bytes(e.pub_key@) + e.content.canon()
}

/// How a canonical envelope encoding splits back into its three fields.
pub proof fn lemma_canon_signed_split<T: Signable>(e: Signed<T>, bytes: Seq<u8>)
    requires
        canon_signed(e) == bytes,
        bytes.len() <= u64::MAX,
    ensures
        e.sig@.len() <= u64::MAX,
        e.pub_key@.len() <= u64::MAX,
        bytes.len() == 16 + e.sig@.len() + e.pub_key@.len() + e.content.canon().len(),
        bytes.subrange(0, 8) == spec_u64_to_le_bytes(e.sig@.len() as u64),
        spec_u64_from_le_bytes(bytes.subrange(0, 8)) == e.sig@.len(),
        bytes.subrange(8, 8 + e.sig@.len() as int) == e.sig@,
        bytes.subrange(
            8 + e.sig@.len() as int,
            16 + e.sig@.len() as int,
        ) == spec_u64_to_le_bytes(e.pub_key@.len() as u64),
        spec_u64_from_le_bytes(
            bytes.subrange(8 + e.sig@.len() as int, 16 + e.sig@.len() as int),
        ) == e.pub_key@.len(),
        bytes.subrange(
            16 + e.sig@.len() as int,
            16 + e.sig@.len() as int + e.pub_key@.len() as int,
        ) == e.pub_key@,
        bytes.subrange(
            16 + e.sig@.len() as int + e.pub_key@.len() as int,
            bytes.len() as int,
        ) == e.content.canon(),
{
    lemma_auto_spec_u64_to_from_le_bytes();
    let ns = e.sig@.len() as int;
    let np = e.pub_key@.len() as int;
    assert(bytes.len() == 16 + ns + np + e.content.canon().len());
    assert(bytes.subrange(0, 8) =~= spec_u64_to_le_bytes(e.sig@.len() as u64));
    assert(bytes.subrange(8, 8 + ns) =~= e.sig@);
    assert(bytes.subrange(8 + ns, 16 + ns) =~= spec_u64_to_le_bytes(e.pub_key@.len() as u64));
    assert(bytes.subrange(16 + ns, 16 + ns + np) =~= e.pub_key@);
    assert(bytes.subrange(16 + ns + np, bytes.len() as int) =~= e.content.canon());
}

impl<T: Signable> Signed<T> {
    /// Serializes the whole envelope with the canonical encoding.
    pub fn encode(&self) -> (r: Vec<u8>)
        ensures
            r@ == canon_signed(*self),
    {
        let mut out: Vec<u8> = Vec::new();
        put_bytes(&mut out, self.sig.as_slice());
        put_bytes(&mut out, self.pub_key.as_slice());
        let mut c = self.content.encode();
        out.append(&mut c);
        proof {
            assert(out@ =~= canon_signed(*self));
        }
        out
    }

    /// Parses a canonical envelope encoding, and nothing else.
    pub fn decode(bytes: &[u8]) -> (r: Option<Signed<T>>)
        ensures
            match r {
                Some(e) => canon_signed(e) == bytes@,
                None => forall|e: Signed<T>| (#[trigger] canon_signed(e)) != bytes@,
            },
    {
        let n = bytes.len();
        match take_bytes(bytes, 0) {
            None => {
                proof {
                    assert forall|e: Signed<T>| (#[trigger] canon_signed(e)) != bytes@ by {
                        if canon_signed(e) == bytes@ {
                            lemma_canon_signed_split(e, bytes@);
                        }
                    }
                }
                None
            },
            Some((sig, j1)) => {
                match take_bytes(bytes, j1) {
                    None => {
                        proof {
                            assert forall|e: Signed<T>| (#[trigger] canon_signed(e))
                                != bytes@ by {
                                if canon_signed(e) == bytes@ {
                                    lemma_canon_signed_split(e, bytes@);
                                }
                            }
                        }
                        None
                    },
                    Some((pub_key, j2)) => {
                        let rest = slice_subrange(bytes, j2, n);
                        match T::decode(rest) {
                            None => {
                                proof {
                                    assert forall|e: Signed<T>| (#[trigger] canon_signed(e))
                                        != bytes@ by {
                                        if canon_signed(e) == bytes@ {
                                            lemma_canon_signed_split(e, bytes@);
                                            assert(e.content.canon() == rest@);
                                        }
                                    }
                                }
                                None
                            },
                            Some(content) => {
                                let e = Signed { sig, pub_key, content };
                                proof {
                                    lemma_seq_split(bytes@, 0, j1 as int, j2 as int);
                                    lemma_seq_split(bytes@, 0, j2 as int, n as int);
                                    assert(canon_signed(e) =~= bytes@);
                                }
                                Some(e)
                            },
                        }
                    },
                }
            },
        }
    }
}

/// For every value and keypair, verifying an envelope freshly produced
/// by `sign` succeeds and recovers exactly the signed value and the
/// public key of the signing keypair.
pub proof fn lemma_sign_verify_roundtrip<T: Signable>(e: Signed<T>, value: T, keypair: Seq<u8>)
    requires
        signed_with(e, value, keypair),
    ensures
        spec_verify(e) == Some((value, pk_of(keypair))),
{
}

} // verus!
