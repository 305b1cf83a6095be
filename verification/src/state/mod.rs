use crate::derivation::basic::Basic;
use crate::derivation::self_addressing::SelfAddressing;
use crate::error::outcome;
use crate::error::Error;
use crate::error::Failure;
use crate::event::event_data::inception::InceptionEvent;
use crate::event::event_data::inception::InceptionEventView;
use crate::event::event_data::rotation::RotationEvent;
use crate::event::event_data::rotation::RotationEventView;
use crate::event::event_data::EventData;
use crate::event::event_data::EventDataView;
use crate::event::sections::seal::DelegatingEventSeal;
use crate::event::sections::seal::DelegatingEventSealView;
use crate::event::sections::seal::EventSeal;
use crate::event::sections::seal::EventSealView;
use crate::event::sections::KeyConfigView;
use crate::event::Event;
use crate::event::EventView;
use crate::event_message::EventMessage;
use crate::prefix::BasicPrefix;
use crate::prefix::IdentifierPrefix;
use crate::prefix::IdentifierPrefixView;
use crate::prefix::Material;
use crate::prefix::SelfAddressingPrefix;
use crate::util::sequence::clone_items;
use crate::util::sequence::push_item;
use crate::util::sequence::views;
use vstd::prelude::*;

pub mod laws;

verus! {

/// The keys that may sign for an identifier, and how many of them must.
#[derive(Debug)]
pub struct Signatory {
    /// How many signatures an event needs.
    pub threshold: u64,
    /// The public keys that may sign, in the order that signature indices refer to.
    pub signers: Vec<BasicPrefix>,
}

/// A `Signatory` as contracts speak of it: its fields by their views.
pub struct SignatoryView {
    pub threshold: u64,
    pub signers: Seq<Material<Basic>>,
}

impl View for Signatory {
    type V = SignatoryView;

    open spec fn view(&self) -> SignatoryView {
        SignatoryView { threshold: self.threshold, signers: views(self.signers@) }
    }
}

impl Clone for Signatory {
    fn clone(&self) -> (res: Self)
        ensures
            res@ == self@,
    {
        Signatory { threshold: self.threshold, signers: clone_items(&self.signers) }
    }
}

impl SignatoryView {
    /// The signatory with no key and no signature asked for.
    pub open spec fn empty() -> SignatoryView {
        SignatoryView { threshold: 0, signers: Seq::empty() }
    }

    /// The signatory that a key configuration declares.
    pub open spec fn of(config: KeyConfigView) -> SignatoryView {
        SignatoryView { threshold: config.threshold, signers: config.public_keys }
    }
}

impl Default for Signatory {
    fn default() -> (signatory: Self)
        ensures
            signatory@ == SignatoryView::empty(),
    {
        let signatory = Signatory { threshold: 0, signers: Vec::new() };
        assert(signatory@.signers =~= Seq::empty());
        signatory
    }
}

/// The state of an identifier: what the events applied so far have made of it.
#[derive(Debug)]
pub struct IdentifierState {
    /// The identifier.
    pub prefix: IdentifierPrefix,
    /// The sequence number of the event applied last.
    pub sn: u64,
    /// The digest of the event applied last.
    pub last: SelfAddressingPrefix,
    /// The keys that sign for the identifier now.
    pub current: Signatory,
    /// The digest that commits to the keys of the next rotation.
    pub next: SelfAddressingPrefix,
    /// The identifiers that this one has delegated to; no event changes it.
    pub delegated_keys: Vec<IdentifierPrefix>,
    /// How many confirmations of witnesses have been counted; no event changes it.
    pub tally: u64,
    /// The witnesses of the identifier.
    pub witnesses: Vec<IdentifierPrefix>,
}

/// An `IdentifierState` as contracts speak of it: its fields by their views.
pub struct IdentifierStateView {
    pub prefix: IdentifierPrefixView,
    pub sn: u64,
    pub last: Material<SelfAddressing>,
    pub current: SignatoryView,
    pub next: Material<SelfAddressing>,
    pub delegated_keys: Seq<IdentifierPrefixView>,
    pub tally: u64,
    pub witnesses: Seq<IdentifierPrefixView>,
}

impl View for IdentifierState {
    type V = IdentifierStateView;

    open spec fn view(&self) -> IdentifierStateView {
        IdentifierStateView {
            prefix: self.prefix@,
            sn: self.sn,
            last: self.last@,
            current: self.current@,
            next: self.next@,
            delegated_keys: views(self.delegated_keys@),
            tally: self.tally,
            witnesses: views(self.witnesses@),
        }
    }
}

impl Clone for IdentifierState {
    fn clone(&self) -> (res: Self)
        ensures
            res@ == self@,
    {
        IdentifierState {
            prefix: self.prefix.clone(),
            sn: self.sn,
            last: self.last.clone(),
            current: self.current.clone(),
            next: self.next.clone(),
            delegated_keys: clone_items(&self.delegated_keys),
            tally: self.tally,
            witnesses: clone_items(&self.witnesses),
        }
    }
}

/// What an event that does not stand where the log continues is refused with.
pub open spec fn refusal_place() -> Seq<char> {
    "The event does not continue the log"@
}

/// What a key configuration whose threshold its keys cannot meet is refused with.
pub open spec fn refusal_threshold() -> Seq<char> {
    "The threshold asks for more signatures than there are keys"@
}

/// What a rotation that reveals other keys than were committed to is refused with.
pub open spec fn refusal_commitment() -> Seq<char> {
    "The keys are not those that the last event committed to"@
}

/// What a rotation is refused with where the digest of its keys cannot be
/// taken under the algorithm of the commitment.
pub open spec fn refusal_algorithm() -> Seq<char> {
    "The commitment to the keys cannot be computed"@
}

/// What a delegated event whose seal names no known event is refused with.
pub open spec fn refusal_seal() -> Seq<char> {
    "The delegating seal names no known event"@
}

/// What a message that its signatures do not authorize is refused with.
pub open spec fn refusal_signatures() -> Seq<char> {
    "The signatures do not authorize the event"@
}

/// What a signature whose index names no signer is refused with.
pub open spec fn refusal_signer() -> Seq<char> {
    "Key not present in state"@
}

/// The digest that stands where no event or key set has been digested yet:
/// a SHA3-512 prefix without bytes.
pub open spec fn empty_digest() -> Material<SelfAddressing> {
    Material { kind: SelfAddressing::SHA3_512, derivative: Seq::empty() }
}

/// The witnesses that stay when the pruned ones leave, in their order.
pub open spec fn without(
    witnesses: Seq<IdentifierPrefixView>,
    pruned: Seq<IdentifierPrefixView>,
) -> Seq<IdentifierPrefixView>
    decreases witnesses.len(),
{
    if witnesses.len() == 0 {
        Seq::empty()
    } else {
        let rest = without(witnesses.drop_last(), pruned);
        if pruned.contains(witnesses.last()) {
            rest
        } else {
            rest.push(witnesses.last())
        }
    }
}

/// Whether a delegating seal names one of the events that are known: the
/// same identifier and the same digest.
pub open spec fn resolves(seal: DelegatingEventSealView, known: Seq<EventSealView>) -> bool {
    exists|i: int|
        0 <= i < known.len() && (#[trigger] known[i]).prefix == seal.prefix
            && known[i].event_digest == seal.commitment
}

impl IdentifierStateView {
    /// The state before any event.
    pub open spec fn zero() -> IdentifierStateView {
        IdentifierStateView {
            prefix: IdentifierPrefixView::SelfAddressing(empty_digest()),
            sn: 0,
            last: empty_digest(),
            current: SignatoryView::empty(),
            next: empty_digest(),
            delegated_keys: Seq::empty(),
            tally: 0,
            witnesses: Seq::empty(),
        }
    }

    /// Whether no identifier has been founded in this state: the sequence
    /// number is zero and there are no current keys.
    pub open spec fn is_zero(self) -> bool {
        self.sn == 0 && self.current == SignatoryView::empty()
    }

    /// Whether an event stands where the log continues. An inception stands
    /// at sequence number zero on a state in which nothing has been founded.
    /// Any other event has the next sequence number and names the digest of
    /// the event applied last.
    pub open spec fn continues_with(self, event: EventView) -> bool {
        match event.event_data {
            EventDataView::Icp(_) | EventDataView::Dip(_) => self.is_zero() && event.sn == 0,
            EventDataView::Rot(e) => self.follows(event, e.previous_event_hash),
            EventDataView::Ixn(e) => self.follows(event, e.previous_event_hash),
            EventDataView::Drt(e) => self.follows(event, e.rotation_data.previous_event_hash),
        }
    }

    /// Whether an event that names `previous` as the digest before it comes
    /// next in the log of this state.
    pub open spec fn follows(self, event: EventView, previous: Material<SelfAddressing>) -> bool {
        &&& event.sn == self.sn + 1
        &&& previous == self.last
    }

    /// The keys that must sign an event: those that an inception declares for
    /// itself, and for any other event those of the state before it.
    pub open spec fn authority(self, event: EventView) -> SignatoryView {
        match event.event_data {
            EventDataView::Icp(e) => SignatoryView::of(e.key_config),
            EventDataView::Dip(e) => SignatoryView::of(e.inception_data.key_config),
            _ => self.current,
        }
    }

    /// The state that an inception founds.
    pub open spec fn founded(
        self,
        event: EventView,
        inception: InceptionEventView,
        digest: Material<SelfAddressing>,
    ) -> Result<IdentifierStateView, Failure> {
        if !inception.key_config.well_formed() {
            Err(Failure::Semantic(refusal_threshold()))
        } else {
            Ok(
                IdentifierStateView {
                    prefix: event.prefix,
                    sn: 0,
                    last: digest,
                    current: SignatoryView::of(inception.key_config),
                    next: inception.key_config.threshold_key_digest,
                    delegated_keys: self.delegated_keys,
                    tally: self.tally,
                    witnesses: inception.witness_config.initial_witnesses,
                },
            )
        }
    }

    /// The state that a rotation leads to, where `commitment` is the digest
    /// of the new keys under the algorithm of the commitment that the state
    /// holds: the two must be equal.
    pub open spec fn rotated(
        self,
        event: EventView,
        rotation: RotationEventView,
        commitment: Material<SelfAddressing>,
        digest: Material<SelfAddressing>,
    ) -> Result<IdentifierStateView, Failure> {
        if !rotation.key_config.well_formed() {
            Err(Failure::Semantic(refusal_threshold()))
        } else if commitment != self.next {
            Err(Failure::Semantic(refusal_commitment()))
        } else {
            Ok(
                IdentifierStateView {
                    prefix: self.prefix,
                    sn: event.sn,
                    last: digest,
                    current: SignatoryView::of(rotation.key_config),
                    next: rotation.key_config.threshold_key_digest,
                    delegated_keys: self.delegated_keys,
                    tally: self.tally,
                    witnesses: without(self.witnesses, rotation.witness_config.prune)
                        + rotation.witness_config.graft,
                },
            )
        }
    }

    /// The state that an event leads to once its place in the log and its
    /// signatures have been accepted. `known` are the events of other logs
    /// that a delegating seal may name, `commitment` is the digest of the keys
    /// that a rotation reveals, and `digest` is the digest of the event.
    pub open spec fn advanced(
        self,
        event: EventView,
        known: Seq<EventSealView>,
        commitment: Material<SelfAddressing>,
        digest: Material<SelfAddressing>,
    ) -> Result<IdentifierStateView, Failure> {
        if !self.continues_with(event) {
            Err(Failure::Semantic(refusal_place()))
        } else {
            match event.event_data {
                EventDataView::Icp(e) => self.founded(event, e, digest),
                EventDataView::Dip(e) => if resolves(e.seal, known) {
                    self.founded(event, e.inception_data, digest)
                } else {
                    Err(Failure::Semantic(refusal_seal()))
                },
                EventDataView::Rot(e) => self.rotated(event, e, commitment, digest),
                EventDataView::Drt(e) => if resolves(e.seal, known) {
                    self.rotated(event, e.rotation_data, commitment, digest)
                } else {
                    Err(Failure::Semantic(refusal_seal()))
                },
                EventDataView::Ixn(_) => Ok(
                    IdentifierStateView { sn: event.sn, last: digest, ..self },
                ),
            }
        }
    }
}

/// Whether a list of identifiers holds the given one.
pub fn holds(list: &Vec<IdentifierPrefix>, prefix: &IdentifierPrefix) -> (found: bool)
    ensures
        found == views(list@).contains(prefix@),
{
    let mut i: usize = 0;
    while i < list.len()
        invariant
            i <= list.len(),
            forall|j: int| 0 <= j < i ==> views(list@)[j] != prefix@,
        decreases list.len() - i,
    {
        if list[i] == *prefix {
            assert(views(list@)[i as int] == prefix@);
            return true;
        }
        i = i + 1;
    }
    false
}

/// Whether a delegating seal names one of the known events.
pub fn is_resolved(seal: &DelegatingEventSeal, known: &Vec<EventSeal>) -> (found: bool)
    ensures
        found == resolves(seal@, views(known@)),
{
    let mut i: usize = 0;
    while i < known.len()
        invariant
            i <= known.len(),
            forall|j: int|
                0 <= j < i ==> !((#[trigger] views(known@)[j]).prefix == seal@.prefix && views(
                    known@,
                )[j].event_digest == seal@.commitment),
        decreases known.len() - i,
    {
        if known[i].prefix == seal.prefix && known[i].event_digest == seal.commitment {
            assert(views(known@)[i as int].prefix == seal@.prefix);
            return true;
        }
        i = i + 1;
    }
    false
}

impl Default for IdentifierState {
    fn default() -> (state: Self)
        ensures
            state@ == IdentifierStateView::zero(),
    {
        let state = IdentifierState {
            prefix: IdentifierPrefix::default(),
            sn: 0,
            last: SelfAddressingPrefix::default(),
            current: Signatory::default(),
            next: SelfAddressingPrefix::default(),
            delegated_keys: Vec::new(),
            tally: 0,
            witnesses: Vec::new(),
        };
        assert(state@.delegated_keys =~= Seq::empty());
        assert(state@.witnesses =~= Seq::empty());
        state
    }
}

impl IdentifierState {
    /// Whether no identifier has been founded in this state.
    pub fn is_zero(&self) -> (zero: bool)
        ensures
            zero == self@.is_zero(),
    {
        let zero = self.sn == 0 && self.current.threshold == 0 && self.current.signers.len() == 0;
        proof {
            assert(self@.current.signers.len() == self.current.signers.len());
            if zero {
                assert(self@.current.signers =~= Seq::empty());
            }
        }
        zero
    }

    /// Whether an event stands where the log continues.
    pub fn continues_with(&self, event: &Event) -> (ok: bool)
        ensures
            ok == self@.continues_with(event@),
    {
        match &event.event_data {
            EventData::Icp(_) | EventData::Dip(_) => self.is_zero() && event.sn == 0,
            EventData::Rot(e) => self.follows(event, &e.previous_event_hash),
            EventData::Ixn(e) => self.follows(event, &e.previous_event_hash),
            EventData::Drt(e) => self.follows(event, &e.rotation_data.previous_event_hash),
        }
    }

    fn follows(&self, event: &Event, previous: &SelfAddressingPrefix) -> (ok: bool)
        ensures
            ok == self@.follows(event@, previous@),
    {
        self.sn < u64::MAX && event.sn == self.sn + 1 && *previous == self.last
    }

    /// The witnesses that stay when the pruned ones leave, with the grafted ones after them.
    pub fn rotate_witnesses(
        &self,
        pruned: &Vec<IdentifierPrefix>,
        grafted: &Vec<IdentifierPrefix>,
    ) -> (witnesses: Vec<IdentifierPrefix>)
        ensures
            views(witnesses@) == without(views(self.witnesses@), views(pruned@)) + views(grafted@),
    {
        let mut witnesses: Vec<IdentifierPrefix> = Vec::new();
        let ghost all = views(self.witnesses@);
        let mut i: usize = 0;
        while i < self.witnesses.len()
            invariant
                i <= self.witnesses.len(),
                all == views(self.witnesses@),
                views(witnesses@) == without(all.take(i as int), views(pruned@)),
            decreases self.witnesses.len() - i,
        {
            assert(all.take(i + 1).drop_last() =~= all.take(i as int));
            if !holds(pruned, &self.witnesses[i]) {
                push_item(&mut witnesses, self.witnesses[i].clone());
            }
            i = i + 1;
        }
        assert(all.take(all.len() as int) =~= all);
        let ghost kept = views(witnesses@);
        let mut j: usize = 0;
        while j < grafted.len()
            invariant
                j <= grafted.len(),
                views(witnesses@) == kept + views(grafted@).take(j as int),
            decreases grafted.len() - j,
        {
            push_item(&mut witnesses, grafted[j].clone());
            j = j + 1;
            assert(views(witnesses@) =~= kept + views(grafted@).take(j as int));
        }
        assert(views(grafted@).take(grafted@.len() as int) =~= views(grafted@));
        witnesses
    }

    fn founded(
        &self,
        event: &Event,
        inception: &InceptionEvent,
        digest: SelfAddressingPrefix,
    ) -> (res: Result<IdentifierState, Error>)
        ensures
            outcome(res) == self@.founded(event@, inception@, digest@),
    {
        if !inception.key_config.is_well_formed() {
            return Err(
                Error::semantic("The threshold asks for more signatures than there are keys"),
            );
        }
        Ok(
            IdentifierState {
                prefix: event.prefix.clone(),
                sn: 0,
                last: digest,
                current: Signatory {
                    threshold: inception.key_config.threshold,
                    signers: clone_items(&inception.key_config.public_keys),
                },
                next: inception.key_config.threshold_key_digest.clone(),
                delegated_keys: clone_items(&self.delegated_keys),
                tally: self.tally,
                witnesses: clone_items(&inception.witness_config.initial_witnesses),
            },
        )
    }

    fn rotated(
        &self,
        event: &Event,
        rotation: &RotationEvent,
        commitment: &SelfAddressingPrefix,
        digest: SelfAddressingPrefix,
    ) -> (res: Result<IdentifierState, Error>)
        ensures
            outcome(res) == self@.rotated(event@, rotation@, commitment@, digest@),
    {
        if !rotation.key_config.is_well_formed() {
            return Err(
                Error::semantic("The threshold asks for more signatures than there are keys"),
            );
        }
        if !(*commitment == self.next) {
            return Err(Error::semantic("The keys are not those that the last event committed to"));
        }
        Ok(
            IdentifierState {
                prefix: self.prefix.clone(),
                sn: event.sn,
                last: digest,
                current: Signatory {
                    threshold: rotation.key_config.threshold,
                    signers: clone_items(&rotation.key_config.public_keys),
                },
                next: rotation.key_config.threshold_key_digest.clone(),
                delegated_keys: clone_items(&self.delegated_keys),
                tally: self.tally,
                witnesses: self.rotate_witnesses(
                    &rotation.witness_config.prune,
                    &rotation.witness_config.graft,
                ),
            },
        )
    }

    /// Applies an event whose signatures have been accepted, and gives the
    /// state that it leads to; this state stays as it is.
    ///
    /// `known_events` are the events of other logs that a delegating seal may
    /// name, `commitment` is the digest of the keys that a rotation reveals,
    /// taken under the algorithm of the commitment that this state holds, and
    /// `digest` is the digest of the event. The event is refused with a
    /// `SemanticError` where it does not continue the log, where its
    /// threshold asks for more signatures than it has keys, where a rotation
    /// reveals other keys than were committed to, and where the seal of a
    /// delegated event names no known event.
    pub fn advance(
        &self,
        event: &Event,
        known_events: &Vec<EventSeal>,
        commitment: &SelfAddressingPrefix,
        digest: SelfAddressingPrefix,
    ) -> (res: Result<IdentifierState, Error>)
        ensures
            outcome(res) == self@.advanced(event@, views(known_events@), commitment@, digest@),
    {
        if !self.continues_with(event) {
            return Err(Error::semantic("The event does not continue the log"));
        }
        match &event.event_data {
            EventData::Icp(e) => self.founded(event, e, digest),
            EventData::Dip(e) => {
                if is_resolved(&e.seal, known_events) {
                    self.founded(event, &e.inception_data, digest)
                } else {
                    Err(Error::semantic("The delegating seal names no known event"))
                }
            },
            EventData::Rot(e) => self.rotated(event, e, commitment, digest),
            EventData::Drt(e) => {
                if is_resolved(&e.seal, known_events) {
                    self.rotated(event, &e.rotation_data, commitment, digest)
                } else {
                    Err(Error::semantic("The delegating seal names no known event"))
                }
            },
            EventData::Ixn(_) => {
                let mut next = self.clone();
                next.sn = event.sn;
                next.last = digest;
                Ok(next)
            },
        }
    }

    /// Verifies a message against this state and applies its event: gives
    /// the state that the event leads to, and leaves this state as it is. No
    /// event of another log is known, so that a delegated event is refused.
    ///
    /// The event must stand where the log continues, else the message is
    /// refused with a `SemanticError`. The signatures must authorize it under
    /// the keys that stand before it: those of this state, or for an
    /// inception, which has no state before it, those that it declares. A
    /// message that they do not authorize is refused with a `SemanticError`,
    /// and a failure to check them is handed on. Then the event is applied.
    pub fn verify_and_apply(&self, message: &EventMessage) -> (res: Result<IdentifierState, Error>)
        requires
            message@.encodable(),
        ensures
            outcome(res) == message@.transition(self@, Seq::empty()),
    {
        let known: Vec<EventSeal> = Vec::new();
        assert(views(known@) =~= Seq::empty());
        self.verify_and_apply_with(message, &known)
    }

    /// Verifies a message against this state and applies its event, as
    /// `verify_and_apply` does; `known_events` are the events of other logs
    /// that the seal of a delegated event may name.
    pub fn verify_and_apply_with(
        &self,
        message: &EventMessage,
        known_events: &Vec<EventSeal>,
    ) -> (res: Result<IdentifierState, Error>)
        requires
            message@.encodable(),
        ensures
            outcome(res) == message@.transition(self@, views(known_events@)),
    {
        if !self.continues_with(&message.event) {
            return Err(Error::semantic("The event does not continue the log"));
        }
        let authorized = match &message.event.event_data {
            EventData::Icp(e) => message.verify_with(
                &Signatory {
                    threshold: e.key_config.threshold,
                    signers: clone_items(&e.key_config.public_keys),
                },
            ),
            EventData::Dip(e) => message.verify_with(
                &Signatory {
                    threshold: e.inception_data.key_config.threshold,
                    signers: clone_items(&e.inception_data.key_config.public_keys),
                },
            ),
            _ => message.verify_against(self),
        };
        match authorized {
            Ok(true) => message.apply_with(self, known_events),
            Ok(false) => Err(Error::semantic("The signatures do not authorize the event")),
            Err(e) => Err(e),
        }
    }
}

} // verus!
