use p2pchat::network::chat::Message;
use p2pchat::network::signable::{sign, Keypair, Signable, Signed};

fn sample_message() -> Message {
    Message { content: "attack at dawn".to_string(), id: 77 }
}

#[test]
fn sign_then_verify_recovers_value_and_signer() {
    let keypair = Keypair::generate();
    let expected_pk = keypair.public();
    let envelope = sign(sample_message(), &keypair);
    let (value, pk) = envelope.verify().expect("a fresh signature must verify");
    assert_eq!(value.id, 77);
    assert_eq!(value.content, "attack at dawn");
    assert_eq!(pk.bytes, expected_pk.bytes);
}

#[test]
fn verify_fails_under_another_key() {
    let alice = Keypair::generate();
    let bob = Keypair::generate();
    let mut envelope = sign(sample_message(), &alice);
    envelope.pub_key = bob.public().bytes;
    assert!(envelope.verify().is_none());
}

#[test]
fn verify_fails_after_tampering_content() {
    let keypair = Keypair::generate();
    let mut envelope = sign(sample_message(), &keypair);
    envelope.content.content = "attack at dusk".to_string();
    assert!(envelope.verify().is_none());
    let mut envelope = sign(sample_message(), &keypair);
    envelope.content.id += 1;
    assert!(envelope.verify().is_none());
}

#[test]
fn verify_fails_after_tampering_signature() {
    let keypair = Keypair::generate();
    let mut envelope = sign(sample_message(), &keypair);
    envelope.sig[0] ^= 0x01;
    assert!(envelope.verify().is_none());
}

#[test]
fn verify_fails_on_malformed_key_or_signature() {
    let keypair = Keypair::generate();
    let mut envelope = sign(sample_message(), &keypair);
    envelope.pub_key.pop();
    assert!(envelope.verify().is_none());
    let mut envelope = sign(sample_message(), &keypair);
    envelope.sig.clear();
    assert!(envelope.verify().is_none());
}

#[test]
fn signed_envelope_encode_decode_round_trip() {
    let keypair = Keypair::generate();
    let envelope = sign(sample_message(), &keypair);
    let bytes = envelope.encode();
    let back = Signed::<Message>::decode(bytes.as_slice()).expect("valid encoding");
    assert_eq!(back.sig, envelope.sig);
    assert_eq!(back.pub_key, envelope.pub_key);
    assert_eq!(back.content.id, 77);
    assert_eq!(back.content.content, "attack at dawn");
    let (value, pk) = back.verify().expect("decoded envelope still verifies");
    assert_eq!(value.id, 77);
    assert_eq!(pk.bytes, keypair.public().bytes);
}

#[test]
fn signed_envelope_decode_rejects_truncated_fields() {
    let keypair = Keypair::generate();
    let bytes = sign(sample_message(), &keypair).encode();
    // Cuts inside the length-prefixed signature and key fields cannot
    // be any envelope's encoding.
    for cut in [0, 7, 20, 75, 100] {
        assert!(Signed::<Message>::decode(&bytes[..cut]).is_none());
    }
    // A cut inside the trailing text still decodes, to a different
    // message, and that envelope no longer verifies.
    let truncated = Signed::<Message>::decode(&bytes[..bytes.len() - 1])
        .expect("the shortened text is still a canonical encoding");
    assert_eq!(truncated.content.content, "attack at daw");
    assert!(truncated.verify().is_none());
}

#[test]
fn from_bytes_accepts_exactly_32_bytes() {
    assert!(Keypair::from_bytes(vec![7u8; 32]).is_some());
    assert!(Keypair::from_bytes(vec![7u8; 31]).is_none());
    assert!(Keypair::from_bytes(vec![7u8; 33]).is_none());
    assert!(Keypair::from_bytes(Vec::new()).is_none());
}

#[test]
fn signing_is_deterministic_in_key_and_message() {
    let a = Keypair::from_bytes(vec![9u8; 32]).expect("32 bytes make a key");
    let b = Keypair::from_bytes(vec![9u8; 32]).expect("32 bytes make a key");
    let first = sign(sample_message(), &a);
    let second = sign(sample_message(), &b);
    assert_eq!(first.sig, second.sig);
    assert_eq!(first.pub_key, second.pub_key);
}

#[test]
fn two_generated_keypairs_differ() {
    let a = Keypair::generate();
    let b = Keypair::generate();
    assert_ne!(a.public().bytes, b.public().bytes);
}

#[test]
fn clone_preserves_identity() {
    let a = Keypair::generate();
    let b = a.clone();
    assert_eq!(a.public().bytes, b.public().bytes);
    let envelope = sign(sample_message(), &b);
    let (_, pk) = envelope.verify().expect("clone signs validly");
    assert_eq!(pk.bytes, a.public().bytes);
}
