use rsa::{PublicKeyParts, RSAPrivateKey, RSAPublicKey};
use sha2::Sha512;
use sha3::Sha3_256;
use torut::onion::v2::key::TorSecretKeyV2;
use torut::onion::v2::onion::{OnionAddressV2, OnionAddressV2ParseError};
use torut::onion::v3::key::{TorPublicKeyV3, TorSecretKeyV3};
use torut::onion::v3::onion::{OnionAddressParseError, OnionAddressV3};

#[test]
fn test_can_parse_onion_address() {
    let oa = "p53lf57qovyuvwsc6xnrppyply3vtqm7l6pcobkmyqsiofyeznfu5uqd";
    assert_eq!(
        OnionAddressV3::from_str(oa).unwrap().to_string(),
        "p53lf57qovyuvwsc6xnrppyply3vtqm7l6pcobkmyqsiofyeznfu5uqd.onion"
    );
    let oa = "duskgytldkxiuqc6";
    assert_eq!(
        OnionAddressV2::from_str(oa).unwrap().to_string(),
        "duskgytldkxiuqc6.onion"
    );
}

#[test]
fn onion_test_can_parse_onion_address() {
    let oa = "duskgytldkxiuqc6";
    assert_eq!(
        OnionAddressV2::from_str(oa).unwrap().to_string(),
        "duskgytldkxiuqc6.onion"
    );
    let oa = "p53lf57qovyuvwsc6xnrppyply3vtqm7l6pcobkmyqsiofyeznfu5uqd";
    assert_eq!(
        OnionAddressV3::from_str(oa).unwrap().to_string(),
        "p53lf57qovyuvwsc6xnrppyply3vtqm7l6pcobkmyqsiofyeznfu5uqd.onion"
    );
}

#[test]
fn test_can_convert_to_public_key_and_vice_versa() {
    let oa =
        OnionAddressV3::from_str("p53lf57qovyuvwsc6xnrppyply3vtqm7l6pcobkmyqsiofyeznfu5uqd")
            .unwrap();
    let pk = oa.get_public_key();
    let oa2 = pk.get_onion_address();
    assert_eq!(oa, oa2);
}

#[test]
fn v3_address_round_trip_for_fresh_keys() {
    for _ in 0..8 {
        let sk = TorSecretKeyV3::generate();
        let pk = sk.public();
        let address = OnionAddressV3::from(&pk);
        let text = address.get_address_without_dot_onion();
        assert_eq!(text.len(), 56);
        assert_eq!(OnionAddressV3::from_str(&text).unwrap(), address);
        assert_eq!(&address.get_raw_bytes()[..32], &pk.to_bytes()[..]);
        assert_eq!(address.get_raw_bytes()[34], 3);
        assert_eq!(address.get_public_key(), pk);
        assert!(TorPublicKeyV3::from_bytes(pk.as_bytes()).is_ok());
    }
}

#[test]
fn v3_address_errors() {
    let good = "p53lf57qovyuvwsc6xnrppyply3vtqm7l6pcobkmyqsiofyeznfu5uqd";
    assert_eq!(
        OnionAddressV3::from_str(&good[..55]).unwrap_err(),
        OnionAddressParseError::InvalidLength
    );
    let mut bad_char = String::from(&good[..55]);
    bad_char.push('!');
    assert_eq!(
        OnionAddressV3::from_str(&bad_char).unwrap_err(),
        OnionAddressParseError::Base32Error
    );
    let mut padded = String::from(&good[..55]);
    padded.push('=');
    assert_eq!(
        OnionAddressV3::from_str(&padded).unwrap_err(),
        OnionAddressParseError::InvalidLength
    );
    // the last character holds the low bits of the version byte
    let mut bad_version = String::from(&good[..55]);
    bad_version.push('e');
    assert_eq!(
        OnionAddressV3::from_str(&bad_version).unwrap_err(),
        OnionAddressParseError::InvalidVersion
    );
    // the first character lies in the key, so the checksum no longer fits
    let mut bad_sum = String::from("q");
    bad_sum.push_str(&good[1..]);
    assert_eq!(
        OnionAddressV3::from_str(&bad_sum).unwrap_err(),
        OnionAddressParseError::InvalidChecksum
    );
    // upper case reads as lower case does
    assert_eq!(
        OnionAddressV3::from_str(&good.to_uppercase()).unwrap(),
        OnionAddressV3::from_str(good).unwrap()
    );
}

#[test]
fn v2_address_errors_and_round_trip() {
    assert_eq!(
        OnionAddressV2::from_str("duskgytldkxiuqc").unwrap_err(),
        OnionAddressV2ParseError::InvalidLength
    );
    assert_eq!(
        OnionAddressV2::from_str("duskgytldkxiuqc!").unwrap_err(),
        OnionAddressV2ParseError::Base32Error
    );
    assert_eq!(
        OnionAddressV2::from_str("duskgytldkxiuq==").unwrap_err(),
        OnionAddressV2ParseError::InvalidLength
    );
    let a = OnionAddressV2::from_str("duskgytldkxiuqc6").unwrap();
    assert_eq!(a.get_address_without_dot_onion(), "duskgytldkxiuqc6");
    assert_eq!(a.get_raw_bytes().len(), 10);
}

#[test]
fn secret_key_text_forms() {
    let sk = TorSecretKeyV3::generate();
    let text = sk.as_tor_proto_encoded();
    assert_eq!(text.len(), 88);
    assert!(TorSecretKeyV3::from_base64(&text).unwrap() == sk);
    assert!(TorSecretKeyV3::from(sk.as_bytes()) == sk);
    assert!(TorSecretKeyV3::from_base64("AAAA").is_none());
    let pk = sk.public();
    assert_eq!(TorPublicKeyV3::from_base64(&pk.to_base64()).unwrap(), pk);
    assert_eq!(sk.clone().into_bytes().len(), 64);
}

#[test]
fn public_key_from_bytes_checks_the_point() {
    let bytes: [u8; 32] = [
        215, 90, 152, 1, 130, 177, 10, 183, 213, 75, 254, 211, 201, 100, 7, 58, 14, 225, 114,
        243, 218, 166, 35, 37, 175, 2, 26, 104, 247, 7, 81, 26,
    ];
    assert_eq!(TorPublicKeyV3::from_bytes(&bytes).unwrap().to_bytes(), bytes);
    // y = 2 is the y-coordinate of no point of the curve
    let mut off = [0u8; 32];
    off[0] = 2;
    assert!(TorPublicKeyV3::from_bytes(&off).is_err());
    // and as text the same bytes are refused too
    assert!(TorPublicKeyV3::from_base64(&base64::encode(off)).is_none());
    assert_eq!(
        TorPublicKeyV3::from_base64(&base64::encode(bytes)).unwrap().to_bytes(),
        bytes
    );
    assert!(TorPublicKeyV3::from_base64(&base64::encode(&bytes[..31])).is_none());
    assert!(TorPublicKeyV3::from_base64("not base64").is_none());
}

#[test]
fn serde_test_can_serialize_and_deserialize_secret_key() {
    let sk = TorSecretKeyV3::generate();
    let data = sk.as_tor_proto_encoded();
    let rsk = TorSecretKeyV3::from_base64(&data).unwrap();

    assert!(sk == rsk);
}

#[test]
fn serde_test_can_serialize_and_deserialize_public_key() {
    let sk = TorSecretKeyV3::generate().public();
    let data = sk.to_base64();
    let rsk = TorPublicKeyV3::from_base64(&data).unwrap();

    assert_eq!(sk, rsk);
}

#[test]
fn serde_key_test_can_serialize_and_deserialize_secret_key() {
    let sk = TorSecretKeyV3::generate();
    let data = sk.as_tor_proto_encoded().into_bytes();
    let rsk = TorSecretKeyV3::from_base64(std::str::from_utf8(&data).unwrap()).unwrap();

    assert!(sk == rsk);
}

#[test]
fn serde_key_test_can_serialize_and_deserialize_public_key() {
    let pk = TorSecretKeyV3::generate().public();
    let data = pk.to_base64().into_bytes();
    let rpk = TorPublicKeyV3::from_base64(std::str::from_utf8(&data).unwrap()).unwrap();

    assert_eq!(pk, rpk);
}

#[test]
fn v2_secret_key_is_sent_as_base64_of_its_encoding() {
    let der = vec![0x30u8, 0x82, 0x02, 0x5c, 0x02, 0x01, 0x00];
    let key = TorSecretKeyV2::from_der(der.clone(), vec![1, 2]).unwrap();
    assert_eq!(key.as_der(), &der);
    assert_eq!(key.public().as_der(), &vec![1u8, 2]);
    assert_eq!(key.as_tor_proto_encoded(), "MIICXAIBAA==");
    assert_eq!(key.to_string(), "TorSecretKeyV2(****)");
    assert!(TorSecretKeyV2::from_der(vec![0u8; 0x10001], vec![]).is_none());
    assert!(TorSecretKeyV2::from_der(vec![0u8; 0x10000], vec![]).is_some());
}

#[test]
fn v2_keys_are_rsa_keys_of_1024_bits() {
    let key = TorSecretKeyV2::generate().unwrap();
    let secret = RSAPrivateKey::from_pkcs1(key.as_der()).unwrap();
    secret.validate().unwrap();
    assert_eq!(secret.n().bits(), 1024);
    let public = RSAPublicKey::from_pkcs1(key.public().as_der()).unwrap();
    assert_eq!(public.n(), secret.n());
    assert_eq!(public.e(), secret.e());
    assert_eq!(
        key.as_tor_proto_encoded(),
        base64::encode(&rsa::PrivateKeyEncoding::to_pkcs1(&secret).unwrap())
    );
    let other = TorSecretKeyV2::generate().unwrap();
    assert!(key != other);
    assert!(key.public() != other.public());
}

#[test]
fn public_key_of_a_known_secret_key() {
    // the first test vector of RFC 8032
    let seed = hex::decode("9d61b19deffd5a60ba844af492ec2cc44449c5697b326919703bac031cae7f60")
        .unwrap();
    let public = hex::decode("d75a980182b10ab7d54bfed3c964073a0ee172f3daa62325af021a68f707511a")
        .unwrap();
    let hash = <Sha512 as sha2::Digest>::digest(&seed);
    let mut expanded = [0u8; 64];
    expanded.copy_from_slice(hash.as_slice());
    expanded[0] &= 248;
    expanded[31] &= 63;
    expanded[31] |= 64;
    let sk = TorSecretKeyV3::from(expanded);
    assert_eq!(&sk.public().to_bytes()[..], &public[..]);
    assert_eq!(
        sk.public().to_string(),
        format!(
            "TorPublicKey({})",
            base32::encode(base32::Alphabet::RFC4648 { padding: false }, &public)
        )
    );
    assert_eq!(sk.to_string(), "TorSecretKey(****)");
}

#[test]
fn fresh_keys_are_clamped_and_differ() {
    let a = TorSecretKeyV3::generate();
    let b = TorSecretKeyV3::generate();
    assert!(a != b);
    for key in [a, b] {
        let bytes = key.as_bytes();
        assert_eq!(bytes[0] & 7, 0);
        assert_eq!(bytes[31] & 0xc0, 0x40);
    }
}

#[test]
fn checksum_is_the_head_of_the_sha3_digest() {
    let pk = TorSecretKeyV3::generate().public();
    let mut input = b".onion checksum".to_vec();
    input.extend_from_slice(pk.as_bytes());
    input.push(3);
    let digest = <Sha3_256 as sha3::Digest>::digest(&input);
    let raw = pk.get_onion_address().get_raw_bytes();
    assert_eq!(&raw[32..34], &digest[..2]);
}

#[test]
fn test_can_serialize_and_deserialize_secret_key_with_no_borrowing() {
    let sk = TorSecretKeyV3::generate();
    let data = sk.as_tor_proto_encoded();

    let owned = String::from(data.as_str());
    let rsk = TorSecretKeyV3::from_base64(&owned).unwrap();

    assert!(sk == rsk);
}

#[test]
fn test_can_serialize_and_deserialize_public_key_with_no_borrowing() {
    let pk = TorSecretKeyV3::generate().public();
    let data = pk.to_base64();

    let owned = String::from(data.as_str());
    let rpk = TorPublicKeyV3::from_base64(&owned).unwrap();

    assert_eq!(pk, rpk);
}
