use corelink::identity::{Identity, NodeId};

fn unhex(s: &str) -> Vec<u8> {
    (0..s.len()).step_by(2).map(|i| u8::from_str_radix(&s[i..i + 2], 16).unwrap()).collect()
}

#[test]
fn test_identity_generation() {
    let id1 = Identity::generate();
    let id2 = Identity::generate();

    assert_ne!(id1.node_id(), id2.node_id());
}

#[test]
fn test_signature_verification() {
    let identity = Identity::generate();
    let data = b"test data";

    let signature = identity.sign(data);

    assert_eq!(signature.len(), 64);
}

#[test]
fn ed25519_test_vector() {
    let secret: [u8; 32] =
        unhex("9d61b19deffd5a60ba844af492ec2cc44449c5697b326919703bac031cae7f60").try_into().unwrap();
    let identity = Identity::from_secret(secret);
    assert_eq!(
        identity.public_key().to_vec(),
        unhex("d75a980182b10ab7d54bfed3c964073a0ee172f3daa62325af021a68f707511a")
    );
    let signature = identity.sign(b"");
    assert_eq!(
        signature.to_vec(),
        unhex("e5564300c360ac729086e2cc806e828a84877f1eb8e5d974d873e065224901555fb8821590a33bacc61e39701cf9b46bd25bf5f0595bbe24655141438e7a100b")
    );
    let public = identity.public_key();
    assert!(identity.verify(b"", &signature, &public));
    assert!(!identity.verify(b"x", &signature, &public));
    assert_eq!(identity.node_id(), NodeId::from_pubkey(&public));
}

#[test]
fn node_id_hex_and_digest() {
    assert_eq!(NodeId([0xab; 32]).to_hex(), "ab".repeat(32));
    let id = NodeId::from_pubkey(&[0u8; 32]);
    assert_ne!(id, NodeId([0u8; 32]));
    assert_eq!(id, NodeId::from_pubkey(&[0u8; 32]));
    assert_ne!(id, NodeId::from_pubkey(&[1u8; 32]));
    assert_eq!(id.as_bytes().len(), 32);
    assert_eq!(id.to_hex().len(), 64);
}
