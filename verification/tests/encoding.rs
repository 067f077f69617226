use elgamal::{
    encrypt, keygen, sample_randomness, Ciphertext, EGPublicKey, EGSecretKey, ElGamalError,
    G1Point, Message, Scalar,
};
use rand::SeedableRng;

const GENERATOR: &str =
    "97f1d3a73197d7942695638c4fa9ac0fc3688c4f9774b905a14e3a3f171bac586c55e83ff97a1aeffb3af00adb22c6bb";

const THREE_TIMES_GENERATOR: &str =
    "89ece308f9d1f0131765212deca99697b112d61f9be9a5f1f3780a51335b3ff981747a0b2ca2179b96d2c0c9024e5224";

/// The group order, least significant byte first.
const ORDER: [u8; 32] = [
    0x01, 0x00, 0x00, 0x00, 0xff, 0xff, 0xff, 0xff, 0xfe, 0x5b, 0xfe, 0xff, 0x02, 0xa4, 0xbd, 0x53,
    0x05, 0xd8, 0xa1, 0x09, 0x08, 0xd8, 0x39, 0x33, 0x48, 0x7d, 0x9d, 0x29, 0x53, 0xa7, 0xed, 0x73,
];

fn unhex(text: &str) -> Vec<u8> {
    (0..text.len() / 2)
        .map(|i| u8::from_str_radix(&text[2 * i..2 * i + 2], 16).unwrap())
        .collect()
}

fn key_pair(seed: u8) -> (EGPublicKey, EGSecretKey) {
    let mut rng = rand_chacha::ChaCha8Rng::from_seed([seed; 32]);
    keygen(&mut rng).unwrap()
}

#[test]
fn public_keys_survive_a_round_trip() {
    for seed in 0u8..4 {
        let (pk, _sk) = key_pair(seed);
        let bytes = pk.to_bytes();
        assert_eq!(EGPublicKey::from_bytes(&bytes).unwrap(), pk);
        assert_eq!(EGPublicKey::from_bytes(&bytes).unwrap().to_bytes(), bytes);
    }
}

#[test]
fn secret_keys_survive_a_round_trip() {
    for seed in 0u8..4 {
        let (_pk, sk) = key_pair(seed);
        let bytes = sk.to_bytes();
        assert_eq!(EGSecretKey::from_bytes(&bytes).unwrap(), sk);
        assert_eq!(EGSecretKey::from_bytes(&bytes).unwrap().to_bytes(), bytes);
    }
}

#[test]
fn ciphertexts_survive_a_round_trip() {
    let mut rng = rand_chacha::ChaCha8Rng::from_seed([11u8; 32]);
    let (pk, _sk) = keygen(&mut rng).unwrap();
    for _ in 0..3 {
        let m = sample_randomness(&mut rng).unwrap();
        let r = sample_randomness(&mut rng).unwrap();
        let c = encrypt(&pk, &m, &r);
        let bytes = c.to_bytes();
        assert_eq!(Ciphertext::from_bytes(&bytes).unwrap(), c);
        assert_eq!(Ciphertext::from_bytes(&bytes).unwrap().to_bytes(), bytes);
    }
}

#[test]
fn a_ciphertext_is_its_two_points_in_order() {
    let c1 = G1Point::from_bytes(&unhex(GENERATOR)).unwrap();
    let c2 = G1Point::from_bytes(&unhex(THREE_TIMES_GENERATOR)).unwrap();
    let bytes = Ciphertext(c1, c2).to_bytes();
    assert_eq!(bytes.len(), 96);
    assert_eq!(bytes[..48].to_vec(), unhex(GENERATOR));
    assert_eq!(bytes[48..].to_vec(), unhex(THREE_TIMES_GENERATOR));
    let back = Ciphertext::from_bytes(&bytes).unwrap();
    assert_eq!(back.0, c1);
    assert_eq!(back.1, c2);
    let swapped = Ciphertext(c2, c1).to_bytes();
    assert_ne!(swapped, bytes);
    assert_eq!(swapped[..48].to_vec(), unhex(THREE_TIMES_GENERATOR));
}

#[test]
fn a_known_public_key_is_read() {
    let pk = EGPublicKey::from_bytes(&unhex(GENERATOR)).unwrap();
    let mut one = [0u8; 32];
    one[0] = 1;
    let sk = EGSecretKey::from_bytes(&one).unwrap();
    assert_eq!(pk, EGPublicKey::from_secret(&sk));
    assert_eq!(sk.to_bytes(), one);
}

#[test]
fn public_keys_of_wrong_length_are_refused() {
    let good = unhex(GENERATOR);
    for len in [0usize, 1, 32, 47] {
        assert!(matches!(
            EGPublicKey::from_bytes(&good[..len]),
            Err(ElGamalError::InvalidEncoding)
        ));
    }
    let mut long = good.clone();
    long.push(0);
    assert!(matches!(
        EGPublicKey::from_bytes(&long),
        Err(ElGamalError::InvalidEncoding)
    ));
    let mut double = good.clone();
    double.extend_from_slice(&good);
    assert!(matches!(
        EGPublicKey::from_bytes(&double),
        Err(ElGamalError::InvalidEncoding)
    ));
}

#[test]
fn bytes_that_are_no_point_are_refused() {
    // No flag for the compressed form.
    let mut plain = unhex(GENERATOR);
    plain[0] &= 0x7f;
    assert!(matches!(
        EGPublicKey::from_bytes(&plain),
        Err(ElGamalError::InvalidEncoding)
    ));
    assert!(matches!(
        EGPublicKey::from_bytes(&[0u8; 48]),
        Err(ElGamalError::InvalidEncoding)
    ));
    // The flag for the point at infinity on a coordinate that is not zero.
    let mut infinite = unhex(GENERATOR);
    infinite[0] |= 0x40;
    assert!(matches!(
        EGPublicKey::from_bytes(&infinite),
        Err(ElGamalError::InvalidEncoding)
    ));
    // The point at infinity with the flag for the larger ordinate.
    let mut sorted = [0u8; 48];
    sorted[0] = 0xe0;
    assert!(matches!(
        EGPublicKey::from_bytes(&sorted),
        Err(ElGamalError::InvalidEncoding)
    ));
    // A coordinate that is no element of the base field.
    let mut large = [0xffu8; 48];
    large[0] = 0x9f;
    assert!(matches!(
        EGPublicKey::from_bytes(&large),
        Err(ElGamalError::InvalidEncoding)
    ));
    assert!(matches!(
        G1Point::from_bytes(&[0xffu8; 48]),
        Err(ElGamalError::InvalidEncoding)
    ));
}

#[test]
fn the_point_at_infinity_and_the_negative_generator_are_read() {
    let mut infinity = [0u8; 48];
    infinity[0] = 0xc0;
    let zero = EGPublicKey::from_bytes(&infinity).unwrap();
    assert_eq!(zero.to_bytes(), infinity);
    let mut minus = unhex(GENERATOR);
    minus[0] |= 0x20;
    let p = G1Point::from_bytes(&minus).unwrap();
    assert_eq!(p.to_bytes().to_vec(), minus);
    let g = G1Point::from_bytes(&unhex(GENERATOR)).unwrap();
    assert_eq!(p.plus(&g), zero.0);
}

#[test]
fn secret_keys_of_wrong_length_are_refused() {
    let bytes = [1u8; 33];
    for len in [0usize, 1, 31, 33] {
        assert!(matches!(
            EGSecretKey::from_bytes(&bytes[..len]),
            Err(ElGamalError::InvalidEncoding)
        ));
    }
    assert!(matches!(
        EGSecretKey::from_bytes(&[0u8; 48]),
        Err(ElGamalError::InvalidEncoding)
    ));
}

#[test]
fn scalars_from_the_group_order_on_are_refused() {
    assert!(matches!(
        EGSecretKey::from_bytes(&ORDER),
        Err(ElGamalError::InvalidEncoding)
    ));
    assert!(matches!(
        EGSecretKey::from_bytes(&[0xffu8; 32]),
        Err(ElGamalError::InvalidEncoding)
    ));
    let mut above = ORDER;
    above[0] = 2;
    assert!(matches!(
        Scalar::from_bytes(&above),
        Err(ElGamalError::InvalidEncoding)
    ));
    let mut below = ORDER;
    below[0] = 0;
    let last = EGSecretKey::from_bytes(&below).unwrap();
    assert_eq!(last.to_bytes(), below);
    let zero = EGSecretKey::from_bytes(&[0u8; 32]).unwrap();
    assert_eq!(zero.to_bytes(), [0u8; 32]);
}

#[test]
fn ciphertexts_of_wrong_length_or_content_are_refused() {
    let mut good = unhex(GENERATOR);
    good.extend_from_slice(&unhex(THREE_TIMES_GENERATOR));
    assert!(Ciphertext::from_bytes(&good).is_ok());
    for len in [0usize, 48, 95] {
        assert!(matches!(
            Ciphertext::from_bytes(&good[..len]),
            Err(ElGamalError::InvalidEncoding)
        ));
    }
    let mut long = good.clone();
    long.push(0);
    assert!(matches!(
        Ciphertext::from_bytes(&long),
        Err(ElGamalError::InvalidEncoding)
    ));
    let mut first_bad = good.clone();
    first_bad[0] &= 0x7f;
    assert!(matches!(
        Ciphertext::from_bytes(&first_bad),
        Err(ElGamalError::InvalidEncoding)
    ));
    let mut second_bad = good.clone();
    second_bad[48] &= 0x7f;
    assert!(matches!(
        Ciphertext::from_bytes(&second_bad),
        Err(ElGamalError::InvalidEncoding)
    ));
    assert!(matches!(
        Ciphertext::from_bytes(&[0u8; 96]),
        Err(ElGamalError::InvalidEncoding)
    ));
}

#[test]
fn a_message_is_its_scalar() {
    let mut four = [0u8; 32];
    four[0] = 4;
    let m = Message(Scalar::from_bytes(&four).unwrap());
    assert_eq!(m.0.to_bytes(), four);
    assert_eq!(m, Message(Scalar::from_bytes(&four).unwrap()));
}
