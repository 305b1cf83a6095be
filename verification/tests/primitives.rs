use keri::derivation::basic::Basic;
use keri::derivation::self_addressing::SelfAddressing;
use keri::derivation::self_signing::SelfSigning;
use keri::derivation::sha3_512_digest;
use keri::error::Base64Failure;
use keri::error::CryptoFailure;
use keri::error::Error;
use keri::prefix::BasicPrefix;
use keri::prefix::DerivationCode;
use keri::prefix::SelfAddressingPrefix;
use keri::prefix::SelfSigningPrefix;
use keri::util::base64;
use keri::util::text::read_b64_number;
use keri::util::text::read_hex;
use keri::util::text::write_b64_number;
use keri::util::text::write_hex;
use keri::util::text::write_hex_padded;
use ursa::signatures::secp256k1::EcdsaSecp256k1Sha256;
use ursa::signatures::SignatureScheme;

fn unhex(text: &str) -> Vec<u8> {
    let digits: Vec<u8> = text
        .chars()
        .map(|c| c.to_digit(16).expect("a hexadecimal digit") as u8)
        .collect();
    digits.chunks(2).map(|pair| pair[0] * 16 + pair[1]).collect()
}

const MESSAGE: &[u8] = b"This is a dummy message for use with tests";
const SIGNATURE: &str = "451b5b8e8725321541954997781de51f4142e4a56bab68d24f6a6b92615de5eefb74134138315859a32c7cf5fe5a488bc545e2e08e5eedfd1fb10188d532d808";
const PUBLIC_KEY: &str = "27c96646f2d4632d4fc241f84cbc427fbc3ecaa95becba55088d6c7b81fc5bbf";

#[test]
fn sha3_256_of_nothing() {
    assert_eq!(
        SelfAddressing::SHA3_256.derive(b"").unwrap(),
        SelfAddressingPrefix::SHA3_256(unhex("a7ffc6f8bf1ed76651c14756a061d662f580ff4de43b49fa82d80a4b80f8434a"))
    );
}

#[test]
fn sha3_512_of_nothing() {
    assert_eq!(
        sha3_512_digest(b""),
        unhex("a69f73cca23a9ac5c8b567dc185a756e97c982164fe25859e0d1dcc1475c80a615b2123af1f5f94c11e3e9402c3ac558f500199d95b6d3e301758586281dcd26")
    );
}

#[test]
fn sha2_256_of_abc() {
    assert_eq!(
        SelfAddressing::SHA2_256.derive(b"abc").unwrap(),
        SelfAddressingPrefix::SHA2_256(unhex("ba7816bf8f01cfea414140de5dae2223b00361a396177a9cb410ff61f20015ad"))
    );
}

#[test]
fn sha2_512_of_nothing() {
    assert_eq!(
        SelfAddressing::SHA2_512.derive(b"").unwrap(),
        SelfAddressingPrefix::SHA2_512(unhex("cf83e1357eefb8bdf1542850d66d8007d620e4050b5715dc83f4a921d36ce9ce47d0d13c5d85f2b0ff8318d2877eec2f63b931bd47417a81a538327af927da3e"))
    );
}

#[test]
fn blake2b_512_of_nothing() {
    assert_eq!(
        SelfAddressing::Blake2B512.derive(b"").unwrap(),
        SelfAddressingPrefix::Blake2B512(unhex("786a02f742015903c6c6fd852552d272912f4740e15847618a86e217f71f5419d25e1031afee585313896444934eb04b903a685b1448b755d56f701afe9be2ce"))
    );
}

#[test]
fn blake2s_256_of_nothing() {
    assert_eq!(
        SelfAddressing::Blake2S256.derive(b"").unwrap(),
        SelfAddressingPrefix::Blake2S256(unhex("69217a3079908094e11121d042354a7c1f55b6482ca1a51e1b250dfd1ed0eef9"))
    );
}

#[test]
fn derive_takes_the_digest_of_the_algorithm() {
    let prefix = SelfAddressing::SHA2_256.derive(b"abc").unwrap();
    assert_eq!(
        prefix,
        SelfAddressingPrefix::SHA2_256(unhex(
            "ba7816bf8f01cfea414140de5dae2223b00361a396177a9cb410ff61f20015ad"
        ))
    );
    assert!(prefix.verify_binding(b"abc").unwrap());
    assert!(!prefix.verify_binding(b"abd").unwrap());
}

#[test]
fn derive_refuses_an_algorithm_it_cannot_compute() {
    assert!(matches!(
        SelfAddressing::Blake3_256.derive(b"abc"),
        Err(Error::ImproperPrefixType)
    ));
    assert!(matches!(
        SelfAddressingPrefix::Blake3_512(vec![1, 2, 3]).verify_binding(b"abc"),
        Err(Error::ImproperPrefixType)
    ));
}

#[test]
fn derive_wraps_keys_and_signatures() {
    assert_eq!(
        Basic::Ed25519.derive(vec![1, 2, 3]),
        BasicPrefix::Ed25519(vec![1, 2, 3])
    );
    assert_eq!(
        SelfSigning::Ed25519Sha512.derive(vec![4, 5]),
        SelfSigningPrefix::Ed25519Sha512(vec![4, 5])
    );
}

#[test]
fn base64_is_url_safe_and_padded() {
    assert_eq!(base64::to_text(&[0xfb, 0xff]), "-_8=");
    assert_eq!(base64::to_text(b"hello internet~\n"), "aGVsbG8gaW50ZXJuZXR-Cg==");
    assert_eq!(base64::to_text(&[]), "");
}

#[test]
fn base64_reads_back() {
    assert_eq!(base64::from_text("-_8=").unwrap(), vec![0xfb, 0xff]);
    assert_eq!(
        base64::from_text("aGVsbG8gaW50ZXJuZXR-Cg==").unwrap(),
        b"hello internet~\n".to_vec()
    );
}

#[test]
fn base64_refuses_other_text() {
    assert!(matches!(
        base64::from_text("+/8="),
        Err(Error::Base64DecodingError { .. })
    ));
    assert!(matches!(
        base64::from_text("A"),
        Err(Error::Base64DecodingError { .. })
    ));
}

#[test]
fn base64_says_why_it_refuses() {
    assert!(matches!(
        base64::from_text("AA*A"),
        Err(Error::Base64DecodingError { source: Base64Failure::InvalidByte(2, 42) })
    ));
    assert!(matches!(
        base64::from_text("A"),
        Err(Error::Base64DecodingError { source: Base64Failure::InvalidLength })
    ));
    assert!(matches!(
        base64::from_text("AB=="),
        Err(Error::Base64DecodingError { source: Base64Failure::InvalidLastSymbol(1, 66) })
    ));
}

#[test]
fn hex_is_compact_and_lower_case() {
    assert_eq!(write_hex(0), "0");
    assert_eq!(write_hex(10), "a");
    assert_eq!(write_hex(255), "ff");
    assert_eq!(write_hex(0x1234_abcd), "1234abcd");
    assert_eq!(write_hex(u64::MAX), "ffffffffffffffff");
}

#[test]
fn hex_is_padded_to_six_digits() {
    assert_eq!(write_hex_padded(0), "000000");
    assert_eq!(write_hex_padded(0xd3), "0000d3");
    assert_eq!(write_hex_padded(0xff_ffff), "ffffff");
    assert_eq!(write_hex_padded(0x100_0000), "1000000");
}

#[test]
fn hex_reads_back() {
    assert_eq!(read_hex("0"), Some(0));
    assert_eq!(read_hex("ff"), Some(255));
    assert_eq!(read_hex("00ff"), Some(255));
    assert_eq!(read_hex("ffffffffffffffff"), Some(u64::MAX));
    assert_eq!(read_hex(""), None);
    assert_eq!(read_hex("FF"), None);
    assert_eq!(read_hex("0x1"), None);
    assert_eq!(read_hex("10000000000000000"), None);
}

#[test]
fn base64_numbers_have_three_digits() {
    assert_eq!(write_b64_number(0), "AAA");
    assert_eq!(write_b64_number(1), "AAB");
    assert_eq!(write_b64_number(63), "AA_");
    assert_eq!(write_b64_number(64), "ABA");
    assert_eq!(write_b64_number(4095), "A__");
    assert_eq!(write_b64_number(65535), "P__");
}

#[test]
fn base64_numbers_read_back() {
    assert_eq!(read_b64_number(&['A', 'A', 'B']), Some(1));
    assert_eq!(read_b64_number(&['P', '_', '_']), Some(65535));
    assert_eq!(read_b64_number(&['Q', 'A', 'A']), None);
    assert_eq!(read_b64_number(&['A', 'A']), None);
    assert_eq!(read_b64_number(&['A', '=', 'A']), None);
}

#[test]
fn codes_of_the_three_families() {
    assert_eq!(Basic::Ed25519.to_str(), "D");
    assert_eq!(Basic::Ed25519NT.to_str(), "B");
    assert_eq!(Basic::ECDSAsecp256k1.to_str(), "1AAB");
    assert_eq!(SelfAddressing::SHA3_512.to_str(), "0E");
    assert_eq!(SelfAddressing::Blake3_256.to_str(), "E");
    assert_eq!(SelfSigning::Ed25519Sha512.to_str(), "0B");
    assert_eq!(SelfSigning::Ed448.to_str(), "1AAE");
    assert_eq!(Basic::from_code(&['1', 'A', 'A', 'D']), Some(Basic::Ed448));
    assert_eq!(Basic::from_code(&['E']), None);
    assert_eq!(
        SelfAddressing::from_code(&['0', 'G']),
        Some(SelfAddressing::SHA2_512)
    );
    assert_eq!(SelfSigning::from_code(&['0', 'D']), None);
}

#[test]
fn ed25519_signature_verifies() {
    let key = BasicPrefix::Ed25519(unhex(PUBLIC_KEY));
    let signature = SelfSigningPrefix::Ed25519Sha512(unhex(SIGNATURE));
    assert!(key.verify(MESSAGE, &signature).unwrap());
    let key = BasicPrefix::Ed25519NT(unhex(PUBLIC_KEY));
    assert!(key.verify(MESSAGE, &signature).unwrap());
}

#[test]
fn tampered_payload_is_false_and_no_error() {
    let key = BasicPrefix::Ed25519(unhex(PUBLIC_KEY));
    let signature = SelfSigningPrefix::Ed25519Sha512(unhex(SIGNATURE));
    let mut tampered = MESSAGE.to_vec();
    tampered[0] ^= 1;
    assert!(matches!(key.verify(&tampered, &signature), Ok(false)));
    let mut forged = unhex(SIGNATURE);
    forged[10] ^= 0x40;
    assert!(matches!(
        key.verify(MESSAGE, &SelfSigningPrefix::Ed25519Sha512(forged)),
        Ok(false)
    ));
}

#[test]
fn malformed_key_is_a_crypto_error() {
    let key = BasicPrefix::Ed25519(vec![1, 2, 3]);
    let signature = SelfSigningPrefix::Ed25519Sha512(unhex(SIGNATURE));
    assert!(matches!(
        key.verify(MESSAGE, &signature),
        Err(Error::CryptoError(CryptoFailure::ParseError(_)))
    ));
    let key = BasicPrefix::Ed25519(unhex(PUBLIC_KEY));
    assert!(matches!(
        key.verify(MESSAGE, &SelfSigningPrefix::Ed25519Sha512(vec![0; 10])),
        Err(Error::CryptoError(CryptoFailure::ParseError(_)))
    ));
}

#[test]
fn key_and_signature_of_different_schemes_do_not_pair() {
    let key = BasicPrefix::Ed25519(unhex(PUBLIC_KEY));
    assert!(matches!(
        key.verify(MESSAGE, &SelfSigningPrefix::ECDSAsecp256k1Sha256(unhex(SIGNATURE))),
        Err(Error::ImproperPrefixType)
    ));
    let key = BasicPrefix::X25519(unhex(PUBLIC_KEY));
    assert!(matches!(
        key.verify(MESSAGE, &SelfSigningPrefix::Ed25519Sha512(unhex(SIGNATURE))),
        Err(Error::ImproperPrefixType)
    ));
}

#[test]
fn interpret_turns_a_mismatch_into_false() {
    assert!(matches!(BasicPrefix::interpret(Ok(true)), Ok(true)));
    assert!(matches!(BasicPrefix::interpret(Ok(false)), Ok(false)));
    assert!(matches!(
        BasicPrefix::interpret(Err(CryptoFailure::SigningError("no".to_string()))),
        Ok(false)
    ));
    assert!(matches!(
        BasicPrefix::interpret(Err(CryptoFailure::ParseError("bad".to_string()))),
        Err(Error::CryptoError(CryptoFailure::ParseError(_)))
    ));
    assert!(matches!(
        BasicPrefix::interpret(Err(CryptoFailure::GeneralError("bad".to_string()))),
        Err(Error::CryptoError(CryptoFailure::GeneralError(_)))
    ));
}

#[test]
fn secp256k1_signature_verifies() {
    let scheme = EcdsaSecp256k1Sha256::new();
    let (public, private) = scheme.keypair(None).unwrap();
    let signature = scheme.sign(MESSAGE, &private).unwrap();
    let key = BasicPrefix::ECDSAsecp256k1(public.0.clone());
    let signature = SelfSigningPrefix::ECDSAsecp256k1Sha256(signature);
    assert!(key.verify(MESSAGE, &signature).unwrap());
    assert!(matches!(key.verify(b"another message", &signature), Ok(false)));
    let other = BasicPrefix::ECDSAsecp256k1NT(vec![2; 5]);
    assert!(matches!(
        other.verify(MESSAGE, &signature),
        Err(Error::CryptoError(_))
    ));
}

#[test]
fn errors_describe_themselves() {
    assert_eq!(
        Error::SerializationError("x".to_string()).to_string(),
        "Error during Serialization: x"
    );
    assert_eq!(Error::JSONSerializationError.to_string(), "JSON Serialization error");
    assert_eq!(Error::CBORSerializationError.to_string(), "CBOR Serialization error");
    assert_eq!(
        Error::MsgPackSerializationError.to_string(),
        "MessagePack Serialization error"
    );
    assert_eq!(Error::DFSSerializationError.to_string(), "DFS Serialization error");
    assert_eq!(Error::IntegerParseValue.to_string(), "Error parsing numerical value");
    assert_eq!(
        Error::semantic("bad event").to_string(),
        "Error while applying event: bad event"
    );
    assert_eq!(
        Error::CryptoError(CryptoFailure::GeneralError("x".to_string())).to_string(),
        "validation error"
    );
    assert_eq!(Error::DeserializationError.to_string(), "Deserialization error");
    assert_eq!(Error::ImproperPrefixType.to_string(), "Improper Prefix Type");
    let refused = base64::from_text("*").unwrap_err();
    assert_eq!(refused.to_string(), "Base64 Decoding error");
}
