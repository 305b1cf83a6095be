use keri::derivation::self_addressing::SelfAddressing;
use keri::derivation::sha3_512_digest;
use keri::error::Error;
use keri::event::event_data::delegated::DelegatedInceptionEvent;
use keri::event::event_data::delegated::DelegatedRotationEvent;
use keri::event::event_data::inception::InceptionEvent;
use keri::event::event_data::interaction::InteractionEvent;
use keri::event::event_data::rotation::RotationEvent;
use keri::event::event_data::EventData;
use keri::event::sections::seal::DelegatingEventSeal;
use keri::event::sections::seal::DigestSeal;
use keri::event::sections::seal::EventSeal;
use keri::event::sections::seal::Seal;
use keri::event::sections::InceptionWitnessConfig;
use keri::event::sections::KeyConfig;
use keri::event::sections::WitnessConfig;
use keri::event::Event;
use keri::event_message::validate_events;
use keri::event_message::validate_events_at;
use keri::event_message::EventMessage;
use keri::prefix::AttachedSignaturePrefix;
use keri::prefix::BasicPrefix;
use keri::prefix::IdentifierPrefix;
use keri::prefix::SelfAddressingPrefix;
use keri::prefix::SelfSigningPrefix;
use keri::state::holds;
use keri::state::is_resolved;
use keri::state::IdentifierState;
use keri::state::Signatory;
use ursa::keys::KeyGenOption;
use ursa::keys::PrivateKey;
use ursa::signatures::ed25519::Ed25519Sha512;
use ursa::signatures::SignatureScheme;

struct Keys {
    public: BasicPrefix,
    private: PrivateKey,
}

fn keys(seed: u8) -> Keys {
    let (public, private) = Ed25519Sha512::new()
        .keypair(Some(KeyGenOption::UseSeed(vec![seed; 32])))
        .unwrap();
    Keys { public: BasicPrefix::Ed25519(public.0.clone()), private }
}

fn commitment(next: &[&Keys]) -> SelfAddressingPrefix {
    let mut material = Vec::new();
    for keys in next {
        material.extend_from_slice(keys.public.derivative());
    }
    SelfAddressingPrefix::SHA3_512(sha3_512_digest(&material))
}

fn signed(event: &Event, signers: &[(u16, &Keys)]) -> EventMessage {
    let payload = event.sign(vec![]).unwrap().extract_serialized_data_set().unwrap();
    let signatures = signers
        .iter()
        .map(|(index, keys)| AttachedSignaturePrefix {
            index: *index,
            sig: SelfSigningPrefix::Ed25519Sha512(
                Ed25519Sha512::new().sign(payload.as_bytes(), &keys.private).unwrap(),
            ),
        })
        .collect();
    event.sign(signatures).unwrap()
}

fn inception(founder: &Keys, next: &Keys) -> Event {
    Event {
        prefix: IdentifierPrefix::Basic(founder.public.clone()),
        sn: 0,
        event_data: EventData::Icp(InceptionEvent {
            key_config: KeyConfig {
                threshold: 1,
                public_keys: vec![founder.public.clone()],
                threshold_key_digest: commitment(&[next]),
            },
            witness_config: InceptionWitnessConfig::default(),
            inception_configuration: vec![],
        }),
    }
}

fn rotation(state: &IdentifierState, revealed: &Keys, next: &Keys) -> RotationEvent {
    RotationEvent {
        previous_event_hash: state.last.clone(),
        key_config: KeyConfig {
            threshold: 1,
            public_keys: vec![revealed.public.clone()],
            threshold_key_digest: commitment(&[next]),
        },
        witness_config: WitnessConfig::default(),
        data: vec![],
    }
}

fn founded() -> IdentifierState {
    let message = signed(&inception(&keys(0), &keys(1)), &[(0, &keys(0))]);
    IdentifierState::default().verify_and_apply(&message).unwrap()
}

fn event(state: &IdentifierState, sn: u64, event_data: EventData) -> Event {
    Event { prefix: state.prefix.clone(), sn, event_data }
}

fn witness(n: u8) -> IdentifierPrefix {
    IdentifierPrefix::Basic(BasicPrefix::Ed25519NT(vec![n; 32]))
}

fn same(first: &IdentifierState, second: &IdentifierState) -> bool {
    format!("{:?}", first) == format!("{:?}", second)
}

#[test]
fn zero_state() {
    let state = IdentifierState::default();
    assert_eq!(state.prefix, IdentifierPrefix::default());
    assert_eq!(state.sn, 0);
    assert_eq!(state.last, SelfAddressingPrefix::default());
    assert_eq!(state.current.threshold, 0);
    assert_eq!(state.current.signers.len(), 0);
    assert_eq!(state.next, SelfAddressingPrefix::default());
    assert_eq!(state.tally, 0);
    assert_eq!(state.witnesses.len(), 0);
    assert_eq!(state.delegated_keys.len(), 0);
    assert!(state.is_zero());
    assert!(!founded().is_zero());
}

#[test]
fn inception_founds_the_identifier() {
    let message = signed(&inception(&keys(0), &keys(1)), &[(0, &keys(0))]);
    let state = IdentifierState::default().verify_and_apply(&message).unwrap();
    assert_eq!(state.prefix, IdentifierPrefix::Basic(keys(0).public));
    assert_eq!(state.sn, 0);
    assert_eq!(state.current.threshold, 1);
    assert_eq!(state.current.signers, vec![keys(0).public]);
    assert_eq!(state.next, commitment(&[&keys(1)]));
    assert_eq!(state.last, message.digest());
    assert_eq!(
        state.last,
        SelfAddressing::SHA3_512
            .derive(message.extract_serialized_data_set().unwrap().as_bytes())
            .unwrap()
    );
}

#[test]
fn inception_must_be_signed_by_its_own_keys() {
    let event = inception(&keys(0), &keys(1));
    let unsigned = event.sign(vec![]).unwrap();
    assert!(matches!(
        IdentifierState::default().verify_and_apply(&unsigned),
        Err(Error::SemanticError(_))
    ));
    let by_another = signed(&event, &[(0, &keys(5))]);
    assert!(matches!(
        IdentifierState::default().verify_and_apply(&by_another),
        Err(Error::SemanticError(_))
    ));
}

#[test]
fn inception_is_refused_on_a_founded_state() {
    let state = founded();
    let message = signed(&inception(&keys(0), &keys(1)), &[(0, &keys(0))]);
    assert!(matches!(state.verify_and_apply(&message), Err(Error::SemanticError(_))));
}

#[test]
fn inception_must_stand_at_zero() {
    let mut event = inception(&keys(0), &keys(1));
    event.sn = 1;
    let message = signed(&event, &[(0, &keys(0))]);
    assert!(matches!(
        IdentifierState::default().verify_and_apply(&message),
        Err(Error::SemanticError(_))
    ));
}

#[test]
fn threshold_must_not_ask_for_more_than_the_keys() {
    let mut event = inception(&keys(0), &keys(1));
    if let EventData::Icp(icp) = &mut event.event_data {
        icp.key_config.threshold = 2;
    }
    let message = signed(&event, &[(0, &keys(0)), (0, &keys(0))]);
    assert!(matches!(
        IdentifierState::default().verify_and_apply(&message),
        Err(Error::SemanticError(_))
    ));
}

#[test]
fn gap_in_the_sequence_is_refused_and_the_state_stays() {
    let state = founded();
    let before = state.clone();
    let interaction = InteractionEvent { previous_event_hash: state.last.clone(), data: vec![] };
    let message = signed(&event(&state, 2, EventData::Ixn(interaction.clone())), &[(0, &keys(0))]);
    assert!(matches!(state.verify_and_apply(&message), Err(Error::SemanticError(_))));
    let replay = signed(&event(&state, 0, EventData::Ixn(interaction.clone())), &[(0, &keys(0))]);
    assert!(matches!(state.verify_and_apply(&replay), Err(Error::SemanticError(_))));
    assert!(same(&state, &before));
    let next = signed(&event(&state, 1, EventData::Ixn(interaction)), &[(0, &keys(0))]);
    assert_eq!(state.verify_and_apply(&next).unwrap().sn, 1);
    assert!(same(&state, &before));
}

#[test]
fn event_must_name_the_digest_of_the_last_event() {
    let state = founded();
    let interaction = InteractionEvent {
        previous_event_hash: SelfAddressingPrefix::SHA3_512(vec![0; 64]),
        data: vec![],
    };
    let message = signed(&event(&state, 1, EventData::Ixn(interaction)), &[(0, &keys(0))]);
    assert!(matches!(state.verify_and_apply(&message), Err(Error::SemanticError(_))));
}

#[test]
fn interaction_leaves_the_keys() {
    let state = founded();
    let interaction = InteractionEvent {
        previous_event_hash: state.last.clone(),
        data: vec![Seal::Digest(DigestSeal { dig: SelfAddressingPrefix::SHA3_256(vec![1; 32]) })],
    };
    let message = signed(&event(&state, 1, EventData::Ixn(interaction)), &[(0, &keys(0))]);
    let next = state.verify_and_apply(&message).unwrap();
    assert_eq!(next.sn, 1);
    assert_eq!(next.last, message.digest());
    assert_eq!(next.prefix, state.prefix);
    assert_eq!(next.current.signers, state.current.signers);
    assert_eq!(next.current.threshold, state.current.threshold);
    assert_eq!(next.next, state.next);
    assert_eq!(next.witnesses, state.witnesses);
    assert_eq!(next.tally, state.tally);
    assert_eq!(next.delegated_keys, state.delegated_keys);
}

#[test]
fn rotation_by_the_old_key_to_the_committed_key() {
    let state = founded();
    assert_eq!(state.current.threshold, 1);
    assert_eq!(state.sn, 0);
    let rotation = rotation(&state, &keys(1), &keys(2));
    let message = signed(&event(&state, 1, EventData::Rot(rotation)), &[(0, &keys(0))]);
    let next = state.verify_and_apply(&message).unwrap();
    assert_eq!(next.sn, 1);
    assert_eq!(next.current.signers, vec![keys(1).public]);
    assert_eq!(next.current.threshold, 1);
    assert_eq!(next.next, commitment(&[&keys(2)]));
    assert_eq!(next.last, message.digest());
    assert_eq!(next.prefix, state.prefix);
}

#[test]
fn rotation_to_other_keys_than_committed_is_refused() {
    let state = founded();
    let rotation = rotation(&state, &keys(7), &keys(2));
    let message = signed(&event(&state, 1, EventData::Rot(rotation)), &[(0, &keys(0))]);
    assert!(matches!(state.verify_and_apply(&message), Err(Error::SemanticError(_))));
}

#[test]
fn rotation_by_the_new_key_is_refused() {
    let state = founded();
    let rotation = rotation(&state, &keys(1), &keys(2));
    let message = signed(&event(&state, 1, EventData::Rot(rotation)), &[(0, &keys(1))]);
    assert!(matches!(state.verify_and_apply(&message), Err(Error::SemanticError(_))));
}

#[test]
fn rotation_with_a_commitment_that_cannot_be_computed() {
    let mut state = founded();
    state.next = SelfAddressingPrefix::Blake3_256(vec![1; 32]);
    let rotation = rotation(&state, &keys(1), &keys(2));
    let message = signed(&event(&state, 1, EventData::Rot(rotation)), &[(0, &keys(0))]);
    match state.verify_and_apply(&message) {
        Err(Error::SemanticError(text)) => {
            assert_eq!(text, "The commitment to the keys cannot be computed")
        }
        _ => panic!("no semantic error"),
    }
}

#[test]
fn rotation_changes_the_witnesses() {
    let mut state = founded();
    state.witnesses = vec![witness(1), witness(2), witness(3), witness(2)];
    let mut rotation = rotation(&state, &keys(1), &keys(2));
    rotation.witness_config = WitnessConfig {
        tally: 2,
        prune: vec![witness(2), witness(9)],
        graft: vec![witness(4), witness(1)],
    };
    let message = signed(&event(&state, 1, EventData::Rot(rotation)), &[(0, &keys(0))]);
    let next = state.verify_and_apply(&message).unwrap();
    assert_eq!(next.witnesses, vec![witness(1), witness(3), witness(4), witness(1)]);
    assert_eq!(next.tally, state.tally);
    assert_eq!(
        state.rotate_witnesses(&vec![], &vec![]),
        vec![witness(1), witness(2), witness(3), witness(2)]
    );
    assert!(holds(&state.witnesses, &witness(3)));
    assert!(!holds(&state.witnesses, &witness(4)));
}

#[test]
fn fewer_signatures_than_the_threshold_do_not_authorize() {
    let founders = [keys(0), keys(3)];
    let mut event = inception(&founders[0], &keys(1));
    if let EventData::Icp(icp) = &mut event.event_data {
        icp.key_config.threshold = 2;
        icp.key_config.public_keys = vec![founders[0].public.clone(), founders[1].public.clone()];
    }
    let one = signed(&event, &[(0, &founders[0])]);
    let current = Signatory {
        threshold: 2,
        signers: vec![founders[0].public.clone(), founders[1].public.clone()],
    };
    assert!(matches!(one.verify_with(&current), Ok(false)));
    assert!(matches!(
        IdentifierState::default().verify_and_apply(&one),
        Err(Error::SemanticError(_))
    ));
    let both = signed(&event, &[(0, &founders[0]), (1, &founders[1])]);
    assert!(matches!(both.verify_with(&current), Ok(true)));
    let state = IdentifierState::default().verify_and_apply(&both).unwrap();
    assert_eq!(state.current.threshold, 2);
    assert_eq!(state.current.signers.len(), 2);
}

#[test]
fn signatures_are_checked_against_the_state() {
    let state = founded();
    let interaction = InteractionEvent { previous_event_hash: state.last.clone(), data: vec![] };
    let event = event(&state, 1, EventData::Ixn(interaction));
    assert!(matches!(signed(&event, &[(0, &keys(0))]).verify_against(&state), Ok(true)));
    assert!(matches!(signed(&event, &[(0, &keys(4))]).verify_against(&state), Ok(false)));
    assert!(matches!(event.sign(vec![]).unwrap().verify_against(&state), Ok(false)));
    assert!(matches!(
        signed(&event, &[(0, &keys(4)), (7, &keys(0))]).verify_against(&state),
        Ok(false)
    ));
}

#[test]
fn signature_of_a_key_that_is_not_there_is_a_semantic_error() {
    let state = founded();
    let interaction = InteractionEvent { previous_event_hash: state.last.clone(), data: vec![] };
    let event = event(&state, 1, EventData::Ixn(interaction));
    let message = signed(&event, &[(0, &keys(0)), (1, &keys(0))]);
    match message.verify_against(&state) {
        Err(Error::SemanticError(text)) => assert_eq!(text, "Key not present in state"),
        _ => panic!("no semantic error"),
    }
    match state.verify_and_apply(&message) {
        Err(Error::SemanticError(text)) => assert_eq!(text, "Key not present in state"),
        _ => panic!("no semantic error"),
    }
    let only = signed(&event, &[(1, &keys(0))]);
    match only.verify_against(&state) {
        Err(Error::SemanticError(text)) => assert_eq!(text, "Key not present in state"),
        _ => panic!("no semantic error"),
    }
}

#[test]
fn signature_that_cannot_be_checked_is_a_crypto_error() {
    let state = founded();
    let interaction = InteractionEvent { previous_event_hash: state.last.clone(), data: vec![] };
    let event = event(&state, 1, EventData::Ixn(interaction));
    let broken = AttachedSignaturePrefix {
        index: 0,
        sig: SelfSigningPrefix::Ed25519Sha512(vec![1, 2, 3]),
    };
    let message = event.sign(vec![broken]).unwrap();
    assert!(matches!(message.verify_against(&state), Err(Error::CryptoError(_))));
    assert!(matches!(state.verify_and_apply(&message), Err(Error::CryptoError(_))));
}

#[test]
fn tampered_event_is_not_authorized() {
    let state = founded();
    let interaction = InteractionEvent { previous_event_hash: state.last.clone(), data: vec![] };
    let mut message = signed(&event(&state, 1, EventData::Ixn(interaction)), &[(0, &keys(0))]);
    assert!(matches!(message.verify_against(&state), Ok(true)));
    message.event.event_data = EventData::Ixn(InteractionEvent {
        previous_event_hash: state.last.clone(),
        data: vec![Seal::Digest(DigestSeal { dig: SelfAddressingPrefix::default() })],
    });
    assert!(matches!(message.verify_against(&state), Ok(false)));
    assert!(matches!(state.verify_and_apply(&message), Err(Error::SemanticError(_))));
}

#[test]
fn delegated_inception_needs_a_known_event() {
    let approval = EventSeal {
        prefix: IdentifierPrefix::Basic(keys(8).public),
        event_digest: SelfAddressingPrefix::SHA3_512(vec![3; 64]),
    };
    let icp = match inception(&keys(0), &keys(1)).event_data {
        EventData::Icp(icp) => icp,
        _ => unreachable!(),
    };
    let delegated = Event {
        prefix: IdentifierPrefix::Basic(keys(0).public),
        sn: 0,
        event_data: EventData::Dip(DelegatedInceptionEvent {
            inception_data: icp,
            seal: DelegatingEventSeal {
                prefix: approval.prefix.clone(),
                commitment: approval.event_digest.clone(),
            },
        }),
    };
    let message = signed(&delegated, &[(0, &keys(0))]);
    let zero = IdentifierState::default();
    assert!(matches!(message.verify_with(&Signatory {
        threshold: 1,
        signers: vec![keys(0).public],
    }), Ok(true)));
    assert!(matches!(zero.verify_and_apply(&message), Err(Error::SemanticError(_))));
    let other = EventSeal {
        prefix: approval.prefix.clone(),
        event_digest: SelfAddressingPrefix::SHA3_512(vec![4; 64]),
    };
    assert!(matches!(
        zero.verify_and_apply_with(&message, &vec![other.clone()]),
        Err(Error::SemanticError(_))
    ));
    let state = zero.verify_and_apply_with(&message, &vec![other, approval]).unwrap();
    assert_eq!(state.sn, 0);
    assert_eq!(state.current.signers, vec![keys(0).public]);
    assert_eq!(state.last, message.digest());
}

#[test]
fn delegated_rotation_needs_a_known_event() {
    let state = founded();
    let approval = EventSeal {
        prefix: IdentifierPrefix::Basic(keys(8).public),
        event_digest: SelfAddressingPrefix::SHA3_512(vec![3; 64]),
    };
    let seal = DelegatingEventSeal {
        prefix: approval.prefix.clone(),
        commitment: approval.event_digest.clone(),
    };
    assert!(is_resolved(&seal, &vec![approval.clone()]));
    assert!(!is_resolved(&seal, &vec![]));
    let delegated = event(
        &state,
        1,
        EventData::Drt(DelegatedRotationEvent {
            rotation_data: rotation(&state, &keys(1), &keys(2)),
            seal,
        }),
    );
    let message = signed(&delegated, &[(0, &keys(0))]);
    assert!(matches!(state.verify_and_apply(&message), Err(Error::SemanticError(_))));
    let next = state.verify_and_apply_with(&message, &vec![approval]).unwrap();
    assert_eq!(next.sn, 1);
    assert_eq!(next.current.signers, vec![keys(1).public]);
}

#[test]
fn apply_does_not_look_at_the_signatures() {
    let message = inception(&keys(0), &keys(1)).sign(vec![]).unwrap();
    let state = message.apply_to(IdentifierState::default()).unwrap();
    assert!(same(&state, &founded()));
    assert!(matches!(message.apply_to(state), Err(Error::SemanticError(_))));
}

#[test]
fn advance_takes_the_digests_as_they_are_given() {
    let state = founded();
    let digest = SelfAddressingPrefix::SHA3_512(vec![5; 64]);
    let rotation = rotation(&state, &keys(1), &keys(2));
    let event = event(&state, 1, EventData::Rot(rotation));
    let next = state.advance(&event, &vec![], &state.next, digest.clone()).unwrap();
    assert_eq!(next.last, digest);
    assert_eq!(next.sn, 1);
    assert_eq!(next.current.signers, vec![keys(1).public]);
    assert!(matches!(
        state.advance(&event, &vec![], &SelfAddressingPrefix::default(), digest),
        Err(Error::SemanticError(_))
    ));
}

#[test]
fn events_are_validated_in_order() {
    let zero = validate_events(&[]).unwrap();
    assert!(same(&zero, &IdentifierState::default()));
    let first = signed(&inception(&keys(0), &keys(1)), &[(0, &keys(0))]);
    let state = founded();
    let second = signed(
        &event(&state, 1, EventData::Rot(rotation(&state, &keys(1), &keys(2)))),
        &[(0, &keys(0))],
    );
    let state = state.verify_and_apply(&second).unwrap();
    let third = signed(
        &event(
            &state,
            2,
            EventData::Ixn(InteractionEvent { previous_event_hash: state.last.clone(), data: vec![] }),
        ),
        &[(0, &keys(1))],
    );
    let last = validate_events(&[first.clone(), second.clone(), third.clone()]).unwrap();
    assert_eq!(last.sn, 2);
    assert_eq!(last.current.signers, vec![keys(1).public]);
    assert_eq!(last.last, third.digest());
    assert!(matches!(
        validate_events(&[first.clone(), third.clone(), second.clone()]),
        Err(Error::SemanticError(_))
    ));
    assert!(matches!(
        validate_events(&[second.clone(), third.clone()]),
        Err(Error::SemanticError(_))
    ));
    assert!(matches!(
        validate_events_at(&[first.clone(), third.clone(), second.clone()]),
        Err((1, Error::SemanticError(_)))
    ));
    assert!(matches!(
        validate_events_at(&[first.clone(), second.clone(), second.clone()]),
        Err((2, Error::SemanticError(_)))
    ));
    assert!(matches!(validate_events_at(&[third.clone()]), Err((0, Error::SemanticError(_)))));
    let alone = validate_events(&[first.clone(), third.clone()]).unwrap_err();
    let followed = validate_events(&[first.clone(), third.clone(), second.clone()]).unwrap_err();
    assert_eq!(alone.to_string(), followed.to_string());
    assert_eq!(
        alone.to_string(),
        "Error while applying event: The event does not continue the log"
    );
    assert_eq!(validate_events_at(&[first.clone(), second, third]).unwrap().sn, 2);
    assert_eq!(validate_events(&[first]).unwrap().sn, 0);
}

#[test]
fn rotation_to_no_keys_ends_the_rotations() {
    let state = founded();
    let mut last = rotation(&state, &keys(1), &keys(2));
    last.key_config.threshold_key_digest = SelfAddressingPrefix::default();
    let message = signed(&event(&state, 1, EventData::Rot(last)), &[(0, &keys(0))]);
    let state = state.verify_and_apply(&message).unwrap();
    assert_eq!(state.next, SelfAddressingPrefix::default());
    let none = RotationEvent {
        previous_event_hash: state.last.clone(),
        key_config: KeyConfig {
            threshold: 0,
            public_keys: vec![],
            threshold_key_digest: SelfAddressingPrefix::default(),
        },
        witness_config: WitnessConfig::default(),
        data: vec![],
    };
    let message = signed(&event(&state, 2, EventData::Rot(none)), &[(0, &keys(1))]);
    assert!(matches!(state.verify_and_apply(&message), Err(Error::SemanticError(_))));
    let other = rotation(&state, &keys(3), &keys(4));
    let message = signed(&event(&state, 2, EventData::Rot(other)), &[(0, &keys(1))]);
    assert!(matches!(state.verify_and_apply(&message), Err(Error::SemanticError(_))));
}
