//! The runtime of one protocol party: its identity, its channels, its
//! entropy, and its way through the protocol phases.
use std::sync::mpsc::{Receiver, Sender};
use vstd::prelude::*;

use crate::entropy::Randomness;
use crate::error::Error;
use crate::messages::{recv_on, send_on, sub_channel, Message, MessagePayload, SubMessage};
use crate::ot::{ot_tag, OTReceiver, OTSender};
use crate::phase::{PhaseEvent, PhaseState, ProtocolPhase};
use crate::schedule::{lemma_round_exchanges, ot_round_schedule, round_steps, RoundStep};

verus! {

/// A party's communication channels: its inbox, the sending end towards the
/// evaluator, the sending ends towards every party ordered by id, and the
/// owning party's id.
pub struct ChannelConfig {
    pub listen: Receiver<Message>,
    pub evaluator: Sender<Message>,
    pub parties: Vec<Sender<Message>>,
    pub id: usize,
}

/// Reads the message that opens a pairwise exchange with party `id`: `None`
/// (the inbox is closed) is a channel error, and a message addressed to
/// another party is a protocol violation. Otherwise yields the sender's id,
/// the end on which to answer it and the end on which to hear from it.
pub fn accept_sub_channel(id: usize, m: Option<Message>) -> (r: Result<
    (usize, Sender<SubMessage>, Receiver<SubMessage>),
    Error,
>)
    ensures
        m is None ==> r is Err && r->Err_0 == Error::ChannelError,
        m matches Some(x) ==> (x.to != id ==> r is Err && r->Err_0 == Error::ProtocolViolation),
        m matches Some(x) ==> (x.to == id ==> r is Ok && r->Ok_0.0 == x.from),
{
    match m {
        None => Err(Error::ChannelError),
        Some(msg) => {
            let Message { from, to, payload } = msg;
            if to != id {
                return Err(Error::ProtocolViolation);
            }
            match payload {
                MessagePayload::SubChannel(answer, hear) => Ok((from, answer, hear)),
            }
        },
    }
}

/// The message from party `from` that hands party `to` the two ends of a
/// fresh sub-channel.
pub fn sub_channel_announcement(
    from: usize,
    to: usize,
    answer: Sender<SubMessage>,
    hear: Receiver<SubMessage>,
) -> (r: Message)
    ensures
        r.from == from,
        r.to == to,
{
    Message { from, to, payload: MessagePayload::SubChannel(answer, hear) }
}

/// One party's state during a protocol run, over a circuit description of
/// type `C` that the party keeps as it was handed over.
///
/// The pairwise oblivious transfers run the construction of `crate::ot`,
/// which fixes the message flow, tags and errors of the exchange and proves
/// that the selected input is recovered, but works in a group where secrets
/// can be recovered: it stands in for a hardened primitive.
pub struct Party<C> {
    id: usize,
    evaluator: bool,
    channels: ChannelConfig,
    circuit: C,
    state: PhaseState,
    entropy: Randomness,
}

impl<C> Party<C> {
    pub closed spec fn id_spec(&self) -> nat {
        self.id as nat
    }

    /// The number of parties of the run.
    pub closed spec fn num_parties(&self) -> nat {
        self.channels.parties@.len()
    }

    pub closed spec fn circuit_spec(&self) -> C {
        self.circuit
    }

    pub closed spec fn phase_spec(&self) -> ProtocolPhase {
        self.state.phase_spec()
    }

    /// The global key, once present.
    pub closed spec fn mac_key_spec(&self) -> Option<Seq<u8>> {
        self.state.mac_key_spec()
    }

    /// The entropy the party has not drawn yet.
    pub closed spec fn entropy_spec(&self) -> Seq<u8> {
        self.entropy.remaining()
    }

    pub closed spec fn wf(&self) -> bool {
        &&& self.id == self.channels.id
        &&& self.id < self.channels.parties@.len()
        &&& self.evaluator == (self.id == 0)
        &&& self.state.wf()
        &&& self.entropy.wf()
    }

    /// Everything but the entropy is as in `other`.
    pub open spec fn same_but_entropy(&self, other: &Party<C>) -> bool {
        &&& self.wf()
        &&& self.id_spec() == other.id_spec()
        &&& self.num_parties() == other.num_parties()
        &&& self.circuit_spec() == other.circuit_spec()
        &&& self.phase_spec() == other.phase_spec()
        &&& self.mac_key_spec() == other.mac_key_spec()
    }

    /// A party with the given channels, circuit and entropy, before the
    /// protocol begins and without the global key.
    pub fn new(channels: ChannelConfig, circuit: C, entropy: Randomness) -> (r: Party<C>)
        requires
            channels.id < channels.parties@.len(),
            entropy.wf(),
        ensures
            r.wf(),
            r.id_spec() == channels.id,
            r.num_parties() == channels.parties@.len(),
            r.circuit_spec() == circuit,
            r.phase_spec() == ProtocolPhase::PreInit,
            r.mac_key_spec() is None,
            r.entropy_spec() == entropy.remaining(),
    {
        let id = channels.id;
        Party { id, evaluator: id == 0, channels, circuit, state: PhaseState::new(), entropy }
    }

    /// Whether the party is the designated circuit evaluator.
    pub fn is_evaluator(&self) -> (r: bool)
        requires
            self.wf(),
        ensures
            r <==> self.id_spec() == 0,
    {
        self.evaluator
    }

    pub fn phase(&self) -> (r: ProtocolPhase)
        ensures
            r == self.phase_spec(),
    {
        self.state.phase()
    }

    /// The circuit the party was built with.
    pub fn circuit(&self) -> (r: &C)
        ensures
            *r == self.circuit_spec(),
    {
        &self.circuit
    }

    /// Sends `message` to the evaluator.
    pub fn send_to_evaluator(&self, message: Message) -> (r: Result<(), Error>)
        ensures
            r is Err ==> r->Err_0 == Error::ChannelError,
    {
        send_on(&self.channels.evaluator, message)
    }

    /// Sends `message` to party `i`.
    pub fn send_to_party(&self, i: usize, message: Message) -> (r: Result<(), Error>)
        requires
            self.wf(),
            i < self.num_parties(),
        ensures
            r is Err ==> r->Err_0 == Error::ChannelError,
    {
        send_on(&self.channels.parties[i], message)
    }

    /// Waits for the next message on the inbox.
    pub fn receive(&self) -> (r: Result<Message, Error>)
        ensures
            r is Err ==> r->Err_0 == Error::ChannelError,
    {
        match recv_on(&self.channels.listen) {
            Some(m) => Ok(m),
            None => Err(Error::ChannelError),
        }
    }

    /// Acts as sender towards party `i` with the inputs `left` and `right`:
    /// announces a fresh sub-channel to `i` (`sub_channel_announcement` from
    /// this party to `i`), commits under the tag `ot_tag(id, i)`
    /// (`OTSender::init_for`), and answers the receiver's selection with the
    /// masked inputs (`OTSender::on_select`).
    pub fn ot_send(&mut self, i: usize, left: &[u8], right: &[u8]) -> (r: Result<(), Error>)
        requires
            old(self).wf(),
            i < old(self).num_parties(),
            i != old(self).id_spec(),
        ensures
            final(self).same_but_entropy(old(self)),
            r is Ok ==> final(self).entropy_spec() == old(self).entropy_spec().skip(4),
            old(self).entropy_spec().len() < 4 ==> r is Err,
            r is Err ==> r->Err_0 != Error::NotImplemented,
    {
        let (own_tx, own_rx) = sub_channel();
        let (their_tx, their_rx) = sub_channel();
        let channel_msg = sub_channel_announcement(self.id, i, own_tx, their_rx);
        send_on(&self.channels.parties[i], channel_msg)?;
        let (sender, commitment) = OTSender::init_for(&mut self.entropy, self.id, i)?;
        send_on(&their_tx, SubMessage::OTCommit(commitment))?;
        let reply = recv_on(&own_rx);
        let transfer = sender.on_select(reply, left, right)?;
        send_on(&their_tx, transfer)
    }

    /// Acts as receiver for the next sub-channel on the inbox
    /// (`accept_sub_channel`), selecting the left input when `choose_left`
    /// holds, and returns the selected input (`OTReceiver::on_commit`, then
    /// `OTReceiver::on_transfer`, under the tag `ot_tag(from, id)`).
    pub fn ot_receive(&mut self, choose_left: bool) -> (r: Result<Vec<u8>, Error>)
        requires
            old(self).wf(),
        ensures
            final(self).same_but_entropy(old(self)),
            r is Ok ==> final(self).entropy_spec() == old(self).entropy_spec().skip(4),
            old(self).entropy_spec().len() < 4 ==> r is Err,
            r is Err ==> r->Err_0 != Error::NotImplemented,
    {
        let (from, their_tx, my_rx) = accept_sub_channel(self.id, recv_on(&self.channels.listen))?;
        let dst = ot_tag(from, self.id);
        let first = recv_on(&my_rx);
        let (receiver, answer) = OTReceiver::on_commit(first, &mut self.entropy, &dst, choose_left)?;
        send_on(&their_tx, answer)?;
        let second = recv_on(&my_rx);
        receiver.on_transfer(second)
    }

    /// Runs one oblivious transfer with every other party in each direction,
    /// in the order of `ot_round_schedule`, and returns what the party
    /// received, one entry per other party. Each selection bit is drawn from
    /// the entropy stream. The first failure ends the round with its kind,
    /// and what was received before it is dropped.
    pub fn ot_round(&mut self) -> (r: Result<Vec<Vec<u8>>, Error>)
        requires
            old(self).wf(),
        ensures
            final(self).same_but_entropy(old(self)),
            r is Ok ==> r->Ok_0@.len() + 1 == old(self).num_parties(),
            old(self).num_parties() == 1 ==> r is Ok && final(self).entropy_spec() == old(
                self,
            ).entropy_spec(),
            old(self).entropy_spec().len() < 4 && old(self).num_parties() > 1 ==> r is Err,
            old(self).entropy_spec().len() == 0 && old(self).num_parties() > 1 && old(
                self,
            ).id_spec() > 0 ==> r is Err && r->Err_0 == Error::EntropyExhausted,
            r is Err ==> r->Err_0 != Error::NotImplemented,
    {
        let n = self.channels.parties.len();
        let id = self.id;
        let steps = ot_round_schedule(id, n);
        proof {
            lemma_round_exchanges(id as nat, n as nat);
        }
        let left_input: [u8; 3] = [1u8, 1u8, 1u8];
        let right_input: [u8; 3] = [9u8, 9u8, 9u8];
        let mut results: Vec<Vec<u8>> = Vec::new();
        let mut k: usize = 0;
        while k < steps.len()
            invariant
                self.same_but_entropy(old(self)),
                self.channels.parties@.len() == n,
                self.id == id,
                id < n,
                steps@ == round_steps(id as nat, n as nat),
                steps@.len() == 2 * (n - 1),
                forall|j: int| 0 <= j < id ==> #[trigger] steps@[j] == RoundStep::Receive,
                forall|j: int| id <= j < id + n - 1 ==> #[trigger] steps@[j] is SendTo,
                forall|j: int|
                    id + n - 1 <= j < 2 * (n - 1) ==> #[trigger] steps@[j] == RoundStep::Receive,
                forall|j: int|
                    0 <= j < steps@.len() ==> (#[trigger] steps@[j] matches RoundStep::SendTo(q) ==> q
                        < n && q != id),
                k <= steps@.len(),
                k == 0 ==> self.entropy_spec() == old(self).entropy_spec(),
                k > 0 ==> old(self).entropy_spec().len() >= 4,
                results@.len() == if k <= id {
                    k as int
                } else if k <= id + n - 1 {
                    id as int
                } else {
                    k - (n - 1)
                },
            decreases steps@.len() - k,
        {
            match steps[k] {
                RoundStep::Receive => {
                    let choose_left = self.entropy.bit()?;
                    let out = self.ot_receive(choose_left)?;
                    results.push(out);
                },
                RoundStep::SendTo(i) => {
                    self.ot_send(i, &left_input, &right_input)?;
                },
            }
            k = k + 1;
        }
        Ok(results)
    }

    /// Function-independent pre-processing, which produces the global key.
    /// Its cryptographic content is not available yet.
    pub fn function_independent(&mut self) -> (r: Result<(), Error>)
        ensures
            r == Err::<(), Error>(Error::NotImplemented),
            *final(self) == *old(self),
    {
        Err(Error::NotImplemented)
    }

    /// Function-dependent pre-processing; not available yet.
    pub fn function_dependent(&mut self) -> (r: Result<(), Error>)
        ensures
            r == Err::<(), Error>(Error::NotImplemented),
            *final(self) == *old(self),
    {
        Err(Error::NotImplemented)
    }

    /// Input processing; not available yet.
    pub fn input_processing(&mut self) -> (r: Result<(), Error>)
        ensures
            r == Err::<(), Error>(Error::NotImplemented),
            *final(self) == *old(self),
    {
        Err(Error::NotImplemented)
    }

    /// Circuit evaluation; not available yet.
    pub fn evaluate_circuit(&mut self) -> (r: Result<(), Error>)
        ensures
            r == Err::<(), Error>(Error::NotImplemented),
            *final(self) == *old(self),
    {
        Err(Error::NotImplemented)
    }

    /// Output processing; not available yet.
    pub fn output_processing(&mut self) -> (r: Result<Option<Vec<bool>>, Error>)
        ensures
            r is Err && r->Err_0 == Error::NotImplemented,
            *final(self) == *old(self),
    {
        Err(Error::NotImplemented)
    }

    /// Runs the protocol phases in order and returns the party's output, if
    /// it is entitled to one. The first failure ends the run with its kind;
    /// the phase reached is kept and the results gathered so far are
    /// dropped. As function-independent pre-processing is not available, a
    /// run that gets past the oblivious transfer round ends there with
    /// `NotImplemented`; one that fails in the round stays in `Init`. The
    /// global key is never set by a run as it stands.
    pub fn run(&mut self) -> (r: Result<Option<Vec<bool>>, Error>)
        requires
            old(self).wf(),
            old(self).phase_spec() == ProtocolPhase::PreInit,
        ensures
            final(self).wf(),
            final(self).id_spec() == old(self).id_spec(),
            final(self).num_parties() == old(self).num_parties(),
            final(self).circuit_spec() == old(self).circuit_spec(),
            final(self).mac_key_spec() is None,
            r is Err,
            final(self).phase_spec() == ProtocolPhase::Init
                || final(self).phase_spec() == ProtocolPhase::FunctionIndependentPreprocessing,
            final(self).phase_spec() == ProtocolPhase::FunctionIndependentPreprocessing <==> r->Err_0
                == Error::NotImplemented,
            old(self).num_parties() == 1 ==> r->Err_0 == Error::NotImplemented,
            old(self).entropy_spec().len() < 4 && old(self).num_parties() > 1
                ==> final(self).phase_spec() == ProtocolPhase::Init,
            old(self).entropy_spec().len() == 0 && old(self).num_parties() > 1 && old(
                self,
            ).id_spec() > 0 ==> r->Err_0 == Error::EntropyExhausted,
    {
        let started = self.state.transition(PhaseEvent::Start);
        assert(started is Ok);
        self.ot_round()?;
        let done = self.state.transition(PhaseEvent::OtRoundComplete);
        assert(done is Ok);
        self.function_independent()?;
        self.function_dependent()?;
        self.input_processing()?;
        self.evaluate_circuit()?;
        self.output_processing()
    }
}

} // verus!
