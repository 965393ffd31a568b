use group_encryption::{
    is_valid_element, is_valid_scalar, DecryptionError, EncryptionError, GroupEncryption,
    NodeType, PrivateKey, PublicKey,
};
use snarkvm::console::network::MainnetV0;
use snarkvm::console::prelude::{TestRng, ToBytes, Uniform};
use snarkvm::console::types::{Group, Scalar};

type TestGroup = Group<MainnetV0>;
type TestScalar = Scalar<MainnetV0>;

fn random_element(rng: &mut TestRng) -> Vec<u8> {
    TestGroup::rand(rng).to_bytes_le().unwrap()
}

fn random_scalar(rng: &mut TestRng) -> Vec<u8> {
    TestScalar::rand(rng).to_bytes_le().unwrap()
}

fn generate_input(input_size: usize, rng: &mut TestRng) -> Vec<Vec<u8>> {
    let mut input = vec![];
    for _ in 0..input_size {
        input.push(random_element(rng))
    }

    input
}

fn new_scheme(rng: &mut TestRng) -> GroupEncryption {
    loop {
        if let Some(scheme) = GroupEncryption::setup(random_element(rng)) {
            return scheme;
        }
    }
}

fn new_keypair(scheme: &GroupEncryption, rng: &mut TestRng) -> (PrivateKey, PublicKey) {
    loop {
        if let Some(pair) = scheme.keygen(random_scalar(rng)) {
            return pair;
        }
    }
}

#[test]
fn simple_encryption() {
    let rng = &mut TestRng::fixed(1231275789u64);

    let encryption_scheme = new_scheme(rng);

    let (private_key, public_key) = new_keypair(&encryption_scheme, rng);

    let message = generate_input(32, rng);

    let randomness = random_scalar(rng);
    let ciphertext = encryption_scheme.encrypt(&public_key, &message, &randomness).unwrap();

    let decrypted_message = encryption_scheme.decrypt(&private_key, &ciphertext).unwrap();

    assert_eq!(message, decrypted_message);
}

#[test]
fn round_trip_of_several_lengths() {
    let rng = &mut TestRng::fixed(7);
    let scheme = new_scheme(rng);
    let (sk, pk) = new_keypair(&scheme, rng);
    for n in [1usize, 2, 32, 100] {
        let message = generate_input(n, rng);
        let randomness = random_scalar(rng);
        let ciphertext = scheme.encrypt(&pk, &message, &randomness).unwrap();
        assert_eq!(ciphertext.len(), n + 1);
        assert_eq!(scheme.decrypt(&sk, &ciphertext).unwrap(), message);
    }
}

#[test]
fn ciphertext_slots_are_masked() {
    let rng = &mut TestRng::fixed(11);
    let scheme = new_scheme(rng);
    let (_sk, pk) = new_keypair(&scheme, rng);
    let message = generate_input(8, rng);
    let randomness = random_scalar(rng);
    let ciphertext = scheme.encrypt(&pk, &message, &randomness).unwrap();
    for i in 0..message.len() {
        assert_ne!(ciphertext[i + 1], message[i]);
        assert!(is_valid_element(&ciphertext[i + 1]));
    }
    assert!(is_valid_element(&ciphertext[0]));
}

#[test]
fn encryptions_with_fresh_randomness_differ_in_every_slot() {
    let rng = &mut TestRng::fixed(13);
    let scheme = new_scheme(rng);
    let (_sk, pk) = new_keypair(&scheme, rng);
    let message = generate_input(16, rng);
    for _ in 0..10 {
        let first = scheme.encrypt(&pk, &message, &random_scalar(rng)).unwrap();
        let second = scheme.encrypt(&pk, &message, &random_scalar(rng)).unwrap();
        for i in 0..first.len() {
            assert_ne!(first[i], second[i]);
        }
    }
}

#[test]
fn same_randomness_gives_same_ciphertext() {
    let rng = &mut TestRng::fixed(17);
    let scheme = new_scheme(rng);
    let (_sk, pk) = new_keypair(&scheme, rng);
    let message = generate_input(4, rng);
    let randomness = random_scalar(rng);
    let first = scheme.encrypt(&pk, &message, &randomness).unwrap();
    let second = scheme.encrypt(&pk, &message, &randomness).unwrap();
    assert_eq!(first, second);
}

#[test]
fn wrong_key_does_not_recover_plaintext() {
    let rng = &mut TestRng::fixed(19);
    let scheme = new_scheme(rng);
    for _ in 0..5 {
        let (_sk, pk) = new_keypair(&scheme, rng);
        let (other_sk, _other_pk) = new_keypair(&scheme, rng);
        let message = generate_input(3, rng);
        let ciphertext = scheme.encrypt(&pk, &message, &random_scalar(rng)).unwrap();
        let recovered = scheme.decrypt(&other_sk, &ciphertext).unwrap();
        assert_eq!(recovered.len(), message.len());
        assert_ne!(recovered, message);
    }
}

#[test]
fn empty_ciphertext_is_malformed() {
    let rng = &mut TestRng::fixed(23);
    let scheme = new_scheme(rng);
    let (sk, _pk) = new_keypair(&scheme, rng);
    let ciphertext: Vec<Vec<u8>> = vec![];
    assert_eq!(scheme.decrypt(&sk, &ciphertext), Err(DecryptionError::MalformedCiphertext));
}

#[test]
fn ciphertext_without_commitment_is_malformed() {
    let rng = &mut TestRng::fixed(29);
    let scheme = new_scheme(rng);
    let (sk, _pk) = new_keypair(&scheme, rng);
    let ciphertext = vec![random_element(rng)];
    let shortened: Vec<Vec<u8>> = ciphertext[1..].to_vec();
    assert_eq!(scheme.decrypt(&sk, &shortened), Err(DecryptionError::MalformedCiphertext));
}

#[test]
fn corrupted_component_is_malformed() {
    let rng = &mut TestRng::fixed(31);
    let scheme = new_scheme(rng);
    let (sk, pk) = new_keypair(&scheme, rng);
    let message = generate_input(4, rng);
    let ciphertext = scheme.encrypt(&pk, &message, &random_scalar(rng)).unwrap();
    for i in 0..ciphertext.len() {
        let mut corrupted = ciphertext.clone();
        corrupted[i] = vec![0xff; 32];
        assert_eq!(scheme.decrypt(&sk, &corrupted), Err(DecryptionError::MalformedCiphertext));
        let mut truncated = ciphertext.clone();
        truncated[i].pop();
        assert_eq!(scheme.decrypt(&sk, &truncated), Err(DecryptionError::MalformedCiphertext));
        let mut extended = ciphertext.clone();
        extended[i].push(0);
        assert_eq!(scheme.decrypt(&sk, &extended), Err(DecryptionError::MalformedCiphertext));
    }
}

#[test]
fn empty_plaintext_is_rejected() {
    let rng = &mut TestRng::fixed(37);
    let scheme = new_scheme(rng);
    let (_sk, pk) = new_keypair(&scheme, rng);
    let message: Vec<Vec<u8>> = vec![];
    assert_eq!(
        scheme.encrypt(&pk, &message, &random_scalar(rng)),
        Err(EncryptionError::EmptyMessage)
    );
}

#[test]
fn decrypt_is_deterministic() {
    let rng = &mut TestRng::fixed(41);
    let scheme = new_scheme(rng);
    let (sk, pk) = new_keypair(&scheme, rng);
    let message = generate_input(5, rng);
    let ciphertext = scheme.encrypt(&pk, &message, &random_scalar(rng)).unwrap();
    let first = scheme.decrypt(&sk, &ciphertext).unwrap();
    let second = scheme.decrypt(&sk, &ciphertext).unwrap();
    assert_eq!(first, second);
    assert_eq!(first, message);
}

#[test]
fn setup_rejects_identity_and_non_elements() {
    assert!(GroupEncryption::setup(vec![0u8; 32]).is_none());
    assert!(GroupEncryption::setup(vec![0xffu8; 32]).is_none());
    assert!(GroupEncryption::setup(vec![]).is_none());
    let rng = &mut TestRng::fixed(43);
    let generator = random_element(rng);
    let scheme = GroupEncryption::setup(generator.clone()).unwrap();
    assert_eq!(scheme.parameters.generator, generator);
}

#[test]
fn keygen_rejects_zero_and_non_scalars() {
    let rng = &mut TestRng::fixed(47);
    let scheme = new_scheme(rng);
    assert!(scheme.keygen(vec![0u8; 32]).is_none());
    assert!(scheme.keygen(vec![0xffu8; 32]).is_none());
    assert!(scheme.keygen(vec![1u8; 31]).is_none());
    let secret = random_scalar(rng);
    let (sk, pk) = scheme.keygen(secret.clone()).unwrap();
    assert_eq!(sk.scalar, secret);
    assert_ne!(pk.element, scheme.parameters.generator);
    assert!(is_valid_element(&pk.element));
}

#[test]
fn keygen_with_scalar_one_gives_generator() {
    let rng = &mut TestRng::fixed(53);
    let scheme = new_scheme(rng);
    let mut one = vec![0u8; 32];
    one[0] = 1;
    let (_sk, pk) = scheme.keygen(one).unwrap();
    assert_eq!(pk.element, scheme.parameters.generator);
}

#[test]
fn encodings_are_validated() {
    let rng = &mut TestRng::fixed(59);
    assert!(is_valid_element(&random_element(rng)));
    assert!(is_valid_scalar(&random_scalar(rng)));
    assert!(!is_valid_element(&[0xffu8; 32]));
    assert!(!is_valid_scalar(&[0xffu8; 32]));
    assert!(!is_valid_element(&[]));
    assert!(is_valid_element(&[0u8; 32]));
    assert!(is_valid_scalar(&[0u8; 32]));
}

#[test]
fn node_types_are_distinct() {
    let kinds = [NodeType::Client, NodeType::Miner, NodeType::Peer, NodeType::Sync];
    for (i, a) in kinds.iter().enumerate() {
        for (j, b) in kinds.iter().enumerate() {
            assert_eq!(i == j, a == b);
        }
    }
}
