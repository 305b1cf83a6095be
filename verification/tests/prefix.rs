use keri::error::Error;
use keri::prefix::attached_signature::get_sig_count;
use keri::prefix::attached_signature::parse_sig_count;
use keri::prefix::AttachedSignaturePrefix;
use keri::prefix::BasicPrefix;
use keri::prefix::IdentifierPrefix;
use keri::prefix::SelfAddressingPrefix;
use keri::prefix::SelfSigningPrefix;

fn letters(n: usize) -> String {
    "A".repeat(n)
}

#[test]
fn basic_prefix_is_code_and_base64() {
    let prefix = BasicPrefix::Ed25519(vec![0; 32]);
    assert_eq!(prefix.to_str(), format!("D{}=", letters(43)));
    let prefix = BasicPrefix::ECDSAsecp256k1NT(vec![0xff; 3]);
    assert_eq!(prefix.to_str(), "1AAA____");
}

#[test]
fn self_addressing_prefix_is_code_and_base64() {
    let prefix = SelfAddressingPrefix::SHA3_512(vec![0; 64]);
    assert_eq!(prefix.to_str(), format!("0E{}==", letters(86)));
    assert_eq!(SelfAddressingPrefix::default().to_str(), "0E");
    assert_eq!(
        SelfAddressingPrefix::default(),
        SelfAddressingPrefix::SHA3_512(vec![])
    );
}

#[test]
fn self_signing_prefix_is_code_and_base64() {
    let prefix = SelfSigningPrefix::Ed25519Sha512(vec![0; 64]);
    assert_eq!(prefix.to_str(), format!("0B{}==", letters(86)));
}

#[test]
fn prefixes_read_back_from_their_text() {
    let basic = BasicPrefix::Ed448(vec![1, 2, 3, 4, 5]);
    assert_eq!(BasicPrefix::from_str(&basic.to_str()).unwrap(), basic);
    let digest = SelfAddressingPrefix::Blake2B256(vec![9; 32]);
    assert_eq!(SelfAddressingPrefix::from_str(&digest.to_str()).unwrap(), digest);
    let signature = SelfSigningPrefix::ECDSAsecp256k1Sha256(vec![7; 64]);
    assert_eq!(SelfSigningPrefix::from_str(&signature.to_str()).unwrap(), signature);
}

#[test]
fn identifier_prefix_reads_the_family_from_the_code() {
    let basic = IdentifierPrefix::Basic(BasicPrefix::X25519(vec![3; 32]));
    assert_eq!(IdentifierPrefix::from_str(&basic.to_str()).unwrap(), basic);
    let digest = IdentifierPrefix::SelfAddressing(SelfAddressingPrefix::SHA2_512(vec![4; 64]));
    assert_eq!(IdentifierPrefix::from_str(&digest.to_str()).unwrap(), digest);
    let signature = IdentifierPrefix::SelfSigning(SelfSigningPrefix::Ed448(vec![5; 114]));
    assert_eq!(IdentifierPrefix::from_str(&signature.to_str()).unwrap(), signature);
    assert_eq!(
        IdentifierPrefix::default(),
        IdentifierPrefix::SelfAddressing(SelfAddressingPrefix::SHA3_512(vec![]))
    );
}

#[test]
fn text_without_a_code_is_an_improper_prefix() {
    assert!(matches!(BasicPrefix::from_str(""), Err(Error::ImproperPrefixType)));
    assert!(matches!(BasicPrefix::from_str("EAAA"), Err(Error::ImproperPrefixType)));
    assert!(matches!(BasicPrefix::from_str("1AA"), Err(Error::ImproperPrefixType)));
    assert!(matches!(
        SelfAddressingPrefix::from_str("DAAA"),
        Err(Error::ImproperPrefixType)
    ));
    assert!(matches!(
        SelfSigningPrefix::from_str("0EAAAA"),
        Err(Error::ImproperPrefixType)
    ));
    assert!(matches!(
        IdentifierPrefix::from_str("ZAAA"),
        Err(Error::ImproperPrefixType)
    ));
    assert!(matches!(
        IdentifierPrefix::from_str("0ZAA"),
        Err(Error::ImproperPrefixType)
    ));
}

#[test]
fn text_that_is_not_base64_cannot_be_decoded() {
    assert!(matches!(
        BasicPrefix::from_str("D***"),
        Err(Error::Base64DecodingError { .. })
    ));
    assert!(matches!(
        SelfAddressingPrefix::from_str("0EA"),
        Err(Error::Base64DecodingError { .. })
    ));
    assert!(matches!(
        IdentifierPrefix::from_str("0B+/+/"),
        Err(Error::Base64DecodingError { .. })
    ));
}

#[test]
fn attached_signature_is_code_index_and_base64() {
    let signature = AttachedSignaturePrefix {
        index: 1,
        sig: SelfSigningPrefix::Ed25519Sha512(vec![0; 64]),
    };
    assert_eq!(signature.to_str(), format!("AAAB{}==", letters(86)));
    let signature = AttachedSignaturePrefix {
        index: 65535,
        sig: SelfSigningPrefix::Ed448(vec![0xff; 3]),
    };
    assert_eq!(signature.to_str(), "0AP______");
    let signature = AttachedSignaturePrefix {
        index: 64,
        sig: SelfSigningPrefix::ECDSAsecp256k1Sha256(vec![]),
    };
    assert_eq!(signature.to_str(), "BABA");
}

#[test]
fn attached_signature_reads_back() {
    let signature = AttachedSignaturePrefix {
        index: 300,
        sig: SelfSigningPrefix::ECDSAsecp256k1Sha256(vec![8; 64]),
    };
    let read = AttachedSignaturePrefix::from_str(&signature.to_str()).unwrap();
    assert_eq!(read.index, 300);
    assert_eq!(read.sig, signature.sig);
    let read = AttachedSignaturePrefix::from_str("0AAAC").unwrap();
    assert_eq!(read.index, 2);
    assert_eq!(read.sig, SelfSigningPrefix::Ed448(vec![]));
}

#[test]
fn attached_signature_refuses_other_text() {
    assert!(matches!(
        AttachedSignaturePrefix::from_str(""),
        Err(Error::ImproperPrefixType)
    ));
    assert!(matches!(
        AttachedSignaturePrefix::from_str("AAA"),
        Err(Error::ImproperPrefixType)
    ));
    assert!(matches!(
        AttachedSignaturePrefix::from_str("CAAAAAAA"),
        Err(Error::ImproperPrefixType)
    ));
    assert!(matches!(
        AttachedSignaturePrefix::from_str("0BAAAAAAA"),
        Err(Error::ImproperPrefixType)
    ));
    assert!(matches!(
        AttachedSignaturePrefix::from_str("AA*AAAAA"),
        Err(Error::IntegerParseValue)
    ));
    assert!(matches!(
        AttachedSignaturePrefix::from_str("AQAAAAAA"),
        Err(Error::IntegerParseValue)
    ));
    assert!(matches!(
        AttachedSignaturePrefix::from_str("AAAB*"),
        Err(Error::Base64DecodingError { .. })
    ));
}

#[test]
fn signature_count_marker() {
    assert_eq!(get_sig_count(0), "-AAAA");
    assert_eq!(get_sig_count(1), "-AAAB");
    assert_eq!(get_sig_count(65535), "-AP__");
    assert_eq!(parse_sig_count("-AAAB").unwrap(), 1);
    assert_eq!(parse_sig_count("-AP__").unwrap(), 65535);
}

#[test]
fn signature_count_marker_refuses_other_text() {
    assert!(matches!(parse_sig_count("-AAB"), Err(Error::DeserializationError)));
    assert!(matches!(parse_sig_count("-BAAB"), Err(Error::DeserializationError)));
    assert!(matches!(parse_sig_count("AAAAB"), Err(Error::DeserializationError)));
    assert!(matches!(parse_sig_count("-AA*B"), Err(Error::IntegerParseValue)));
    assert!(matches!(parse_sig_count("-AQAA"), Err(Error::IntegerParseValue)));
}
