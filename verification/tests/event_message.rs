use keri::derivation::sha3_512_digest;
use keri::error::CryptoFailure;
use keri::error::Error;
use keri::event::event_data::inception::InceptionEvent;
use keri::event::event_data::EventData;
use keri::event::sections::InceptionWitnessConfig;
use keri::event::sections::KeyConfig;
use keri::event::Event;
use keri::prefix::AttachedSignaturePrefix;
use keri::prefix::BasicPrefix;
use keri::prefix::IdentifierPrefix;
use keri::prefix::SelfAddressingPrefix;
use keri::prefix::SelfSigningPrefix;
use keri::state::IdentifierState;
use keri::util::dfs_serializer;
use ursa::signatures::ed25519;
use ursa::signatures::SignatureScheme;

fn crypto(e: ursa::CryptoError) -> Error {
    Error::CryptoError(CryptoFailure::GeneralError(e.to_string()))
}

#[test]
fn create() -> Result<(), Error> {
    // hi Ed!
    let ed = ed25519::Ed25519Sha512::new();

    // get two ed25519 keypairs
    let (pub_key0, priv_key0) = ed.keypair(Option::None).map_err(crypto)?;
    let (pub_key1, _priv_key1) = ed.keypair(Option::None).map_err(crypto)?;

    // initial signing key prefix
    let pref0 = BasicPrefix::Ed25519(pub_key0.0.clone());

    // initial control key hash prefix
    let pref1 = SelfAddressingPrefix::SHA3_512(sha3_512_digest(&pub_key1.0));

    // create a simple inception event
    let icp = Event {
        prefix: IdentifierPrefix::Basic(pref0.clone()),
        sn: 0,
        event_data: EventData::Icp(InceptionEvent {
            key_config: KeyConfig {
                threshold: 1,
                public_keys: vec![pref0.clone()],
                threshold_key_digest: pref1.clone(),
            },
            witness_config: InceptionWitnessConfig::default(),
            inception_configuration: vec![],
        }),
    };

    let icp_message = icp.sign(vec![])?;

    // serialised extracted dataset
    let sed = dfs_serializer::to_string(&icp_message)?;

    // sign
    let sig = ed.sign(sed.as_bytes(), &priv_key0).map_err(crypto)?;
    let attached_sig = AttachedSignaturePrefix {
        index: 0,
        sig: SelfSigningPrefix::Ed25519Sha512(sig),
    };

    assert!(pref0.verify(sed.as_bytes(), &attached_sig.sig)?);

    let signed_event = icp.sign(vec![attached_sig])?;

    let s_ = IdentifierState::default();

    let s0 = s_.verify_and_apply(&signed_event)?;

    assert_eq!(s0.prefix, IdentifierPrefix::Basic(pref0.clone()));
    assert_eq!(s0.sn, 0);
    // the state holds the digest of the event applied last
    assert_eq!(s0.last, signed_event.digest());
    assert_eq!(s0.current.signers.len(), 1);
    assert_eq!(s0.current.signers[0], pref0);
    assert_eq!(s0.current.threshold, 1);
    assert_eq!(s0.next, pref1);
    assert_eq!(s0.witnesses, vec![]);
    assert_eq!(s0.tally, 0);
    assert_eq!(s0.delegated_keys, vec![]);

    Ok(())
}
