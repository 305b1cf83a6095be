use crate::derivation::self_addressing::SelfAddressing;
use crate::error::Failure;
use crate::event::event_data::EventDataView;
use crate::event::sections::seal::EventSealView;
use crate::event::sections::key_material;
use crate::event_message::EventMessageView;
use crate::prefix::IdentifierPrefixView;
use crate::prefix::Material;
use crate::state::refusal_place;
use crate::state::refusal_signatures;
use crate::state::resolves;
use crate::state::IdentifierStateView;
use crate::state::SignatoryView;
use vstd::prelude::*;

verus! {

/// An inception at sequence number zero, whose threshold its keys can meet
/// and which its own keys have signed, founds an identifier from the state
/// before any event: the new state has sequence number zero, the keys and the
/// threshold of the inception, its commitment to the next keys and its
/// witnesses, and holds the digest of the inception as the last event.
/// Nothing has been counted or delegated yet.
pub proof fn law_inception_founds(message: EventMessageView, known: Seq<EventSealView>)
    requires
        message.event.event_data is Icp,
        message.event.sn == 0,
        message.event.event_data->Icp_0.key_config.well_formed(),
        message.verification(SignatoryView::of(message.event.event_data->Icp_0.key_config)) == Ok::<
            bool,
            Failure,
        >(true),
    ensures
        message.transition(IdentifierStateView::zero(), known) matches Ok(state) && {
            let inception = message.event.event_data->Icp_0;
            &&& state.prefix == message.event.prefix
            &&& state.sn == 0
            &&& state.current.signers == inception.key_config.public_keys
            &&& state.current.threshold == inception.key_config.threshold
            &&& state.next == inception.key_config.threshold_key_digest
            &&& state.witnesses == inception.witness_config.initial_witnesses
            &&& state.tally == 0
            &&& state.delegated_keys == Seq::<IdentifierPrefixView>::empty()
            &&& state.last == message.digest()
        },
{
}

/// An event other than an inception whose sequence number is not the one
/// after that of the state is refused with a semantic error, whatever it
/// holds and whoever signed it.
pub proof fn law_gap_refused(
    state: IdentifierStateView,
    message: EventMessageView,
    known: Seq<EventSealView>,
)
    requires
        !message.event.event_data.is_inception(),
        message.event.sn != state.sn + 1,
    ensures
        message.transition(state, known) == Err::<IdentifierStateView, Failure>(
            Failure::Semantic(refusal_place()),
        ),
{
}

/// An inception is refused with a semantic error on a state in which an
/// identifier has been founded.
pub proof fn law_second_inception_refused(
    state: IdentifierStateView,
    message: EventMessageView,
    known: Seq<EventSealView>,
)
    requires
        message.event.event_data.is_inception(),
        !state.is_zero(),
    ensures
        message.transition(state, known) == Err::<IdentifierStateView, Failure>(
            Failure::Semantic(refusal_place()),
        ),
{
}

/// A message with fewer signatures than the threshold asks for is not
/// authorized, whatever the signatures are, and leads to no state.
pub proof fn law_threshold_enforced(
    state: IdentifierStateView,
    message: EventMessageView,
    known: Seq<EventSealView>,
)
    requires
        message.signatures.len() < state.authority(message.event).threshold,
    ensures
        message.verification(state.authority(message.event)) == Ok::<bool, Failure>(false),
        message.transition(state, known) == Err::<IdentifierStateView, Failure>(
            Failure::Semantic(
                if state.continues_with(message.event) {
                    refusal_signatures()
                } else {
                    refusal_place()
                },
            ),
        ),
{
}

/// What is signed depends on the version string and the event alone: two
/// messages that agree in them have the same payload and the same digest,
/// whatever signatures are attached to them.
pub proof fn law_payload_determined(first: EventMessageView, second: EventMessageView)
    requires
        first.version == second.version,
        first.event == second.event,
    ensures
        first.payload() == second.payload(),
        first.digest() == second.digest(),
        first.wire() == second.wire(),
{
}

/// An event that is accepted takes the place that it names: an inception
/// leaves the sequence number at zero, any other event raises it by one, and
/// the new state holds the digest of the event as the last one.
pub proof fn law_accepted_advances(
    state: IdentifierStateView,
    message: EventMessageView,
    known: Seq<EventSealView>,
)
    requires
        message.transition(state, known) is Ok,
    ensures
        ({
            let next = message.transition(state, known)->Ok_0;
            &&& next.sn == message.event.sn
            &&& next.last == message.digest()
            &&& next.delegated_keys == state.delegated_keys
            &&& next.tally == state.tally
            &&& message.event.event_data.is_inception() ==> next.sn == 0 && next.prefix
                == message.event.prefix
            &&& !message.event.event_data.is_inception() ==> next.sn == state.sn + 1 && next.prefix
                == state.prefix
            &&& message.event.event_data is Ixn ==> next.current == state.current && next.next
                == state.next && next.witnesses == state.witnesses
        }),
{
}

/// A rotation is accepted only if the keys that it reveals are those that
/// the state had committed to: their digest, taken under the algorithm of the
/// commitment, is the commitment.
pub proof fn law_rotation_reveals_commitment(
    state: IdentifierStateView,
    message: EventMessageView,
    known: Seq<EventSealView>,
)
    requires
        message.event.event_data is Rot,
        message.transition(state, known) is Ok,
    ensures
        state.next.kind.derived(
            key_material(message.event.event_data->Rot_0.key_config.public_keys),
        ) == Ok::<Material<SelfAddressing>, Failure>(state.next),
        message.transition(state, known)->Ok_0.current == SignatoryView::of(
            message.event.event_data->Rot_0.key_config,
        ),
{
}

/// A delegated event whose seal names none of the known events is refused,
/// whoever signed it.
pub proof fn law_unresolved_delegation_refused(
    state: IdentifierStateView,
    message: EventMessageView,
    known: Seq<EventSealView>,
)
    requires
        message.event.event_data matches EventDataView::Dip(e) && !resolves(e.seal, known),
    ensures
        message.transition(state, known) is Err,
{
}

} // verus!
