use std::sync::mpsc;

use mpc_engine::entropy::Randomness;
use mpc_engine::error::Error;
use mpc_engine::messages::{Message, SubMessage};
use mpc_engine::ot::{decode_elem, encode_elem, OTSender};
use mpc_engine::party::{accept_sub_channel, sub_channel_announcement, ChannelConfig, Party};
use mpc_engine::phase::{MacKey, PhaseEvent, PhaseState, ProtocolPhase};
use mpc_engine::schedule::{ot_round_schedule, RoundStep};

#[test]
fn entropy_draws_in_order() {
    let mut e = Randomness::new(vec![1, 2, 3, 4, 5]);
    assert_eq!(e.bytes(2), Ok(vec![1, 2]));
    assert_eq!(e.bit(), Ok(true));
    assert_eq!(e.bit(), Ok(false));
    assert_eq!(e.available(), 1);
    assert_eq!(e.bytes(2), Err(Error::EntropyExhausted));
    assert_eq!(e.bytes(1), Ok(vec![5]));
    assert_eq!(e.bit(), Err(Error::EntropyExhausted));
    assert_eq!(e.bytes(0), Ok(vec![]));
}

#[test]
fn phases_follow_in_order() {
    let mut p = ProtocolPhase::PreInit;
    let mut n = 0;
    while let Some(q) = p.next() {
        p = q;
        n += 1;
    }
    assert_eq!(n, 7);
    assert_eq!(p, ProtocolPhase::Done);
    assert!(p.is_done());
    assert_eq!(ProtocolPhase::Init.next(), Some(ProtocolPhase::FunctionIndependentPreprocessing));
}

#[test]
fn mac_key_is_set_once_and_kept() {
    let mut s = PhaseState::new();
    assert!(s.mac_key_bytes().is_none());
    assert_eq!(s.transition(PhaseEvent::Start), Ok(()));
    assert!(s.mac_key_bytes().is_none());
    assert_eq!(s.transition(PhaseEvent::OtRoundComplete), Ok(()));
    assert!(s.mac_key_bytes().is_none());
    assert_eq!(s.phase(), ProtocolPhase::FunctionIndependentPreprocessing);
    assert_eq!(s.transition(PhaseEvent::MacKeyReady(MacKey { bytes: vec![7, 7] })), Ok(()));
    assert_eq!(s.mac_key_bytes(), Some(vec![7, 7]));
    for _ in 0..4 {
        assert_eq!(s.transition(PhaseEvent::PhaseComplete), Ok(()));
        assert_eq!(s.mac_key_bytes(), Some(vec![7, 7]));
    }
    assert_eq!(s.phase(), ProtocolPhase::Done);
    assert_eq!(s.transition(PhaseEvent::PhaseComplete), Err(Error::ProtocolViolation));
    assert_eq!(s.transition(PhaseEvent::MacKeyReady(MacKey { bytes: vec![1] })), Err(Error::ProtocolViolation));
    assert_eq!(s.mac_key_bytes(), Some(vec![7, 7]));
}

#[test]
fn out_of_order_events_are_protocol_violations() {
    let mut s = PhaseState::new();
    assert_eq!(s.transition(PhaseEvent::OtRoundComplete), Err(Error::ProtocolViolation));
    assert_eq!(s.transition(PhaseEvent::MacKeyReady(MacKey { bytes: vec![1] })), Err(Error::ProtocolViolation));
    assert_eq!(s.transition(PhaseEvent::PhaseComplete), Err(Error::ProtocolViolation));
    assert_eq!(s.phase(), ProtocolPhase::PreInit);
    assert!(s.mac_key_bytes().is_none());
    assert_eq!(s.transition(PhaseEvent::Start), Ok(()));
    assert_eq!(s.transition(PhaseEvent::Start), Err(Error::ProtocolViolation));
    assert_eq!(s.phase(), ProtocolPhase::Init);
}

#[test]
fn schedule_orders_receives_around_sends() {
    assert_eq!(ot_round_schedule(0, 3), vec![RoundStep::SendTo(1), RoundStep::SendTo(2), RoundStep::Receive, RoundStep::Receive]);
    assert_eq!(ot_round_schedule(1, 3), vec![RoundStep::Receive, RoundStep::SendTo(0), RoundStep::SendTo(2), RoundStep::Receive]);
    assert_eq!(ot_round_schedule(2, 3), vec![RoundStep::Receive, RoundStep::Receive, RoundStep::SendTo(0), RoundStep::SendTo(1)]);
    assert_eq!(ot_round_schedule(0, 1), vec![]);
}

#[test]
fn round_has_n_times_n_minus_one_exchanges() {
    for n in 2usize..8 {
        let mut sends = 0;
        let mut receives = 0;
        for id in 0..n {
            for s in ot_round_schedule(id, n) {
                match s {
                    RoundStep::SendTo(q) => {
                        assert!(q < n && q != id);
                        sends += 1;
                    }
                    RoundStep::Receive => receives += 1,
                }
            }
        }
        assert_eq!(sends, n * (n - 1));
        assert_eq!(receives, n * (n - 1));
    }
}

/// Plays the schedules of `n` parties against each other, where a send to
/// `q` and a receive by `q` complete together, and returns the number of
/// completed exchanges, or `None` if no party can move before all are done.
fn play_round(n: usize) -> Option<usize> {
    let schedules: Vec<Vec<RoundStep>> = (0..n).map(|id| ot_round_schedule(id, n)).collect();
    let mut pos = vec![0usize; n];
    let mut done = 0;
    loop {
        if (0..n).all(|p| pos[p] == schedules[p].len()) {
            return Some(done);
        }
        let mut moved = false;
        for p in 0..n {
            if pos[p] == schedules[p].len() {
                continue;
            }
            if let RoundStep::SendTo(q) = schedules[p][pos[p]] {
                if pos[q] < schedules[q].len() && schedules[q][pos[q]] == RoundStep::Receive {
                    pos[p] += 1;
                    pos[q] += 1;
                    done += 1;
                    moved = true;
                }
            }
        }
        if !moved {
            return None;
        }
    }
}

#[test]
fn three_parties_complete_six_exchanges() {
    assert_eq!(play_round(3), Some(6));
}

#[test]
fn rounds_of_many_parties_do_not_stall() {
    for n in 2usize..9 {
        assert_eq!(play_round(n), Some(n * (n - 1)));
    }
}

fn lone_party(entropy: Vec<u8>) -> Party<()> {
    let (tx, rx) = mpsc::channel::<Message>();
    let channels = ChannelConfig { listen: rx, evaluator: tx.clone(), parties: vec![tx], id: 0 };
    Party::new(channels, (), Randomness::new(entropy))
}

#[test]
fn new_party_starts_before_init() {
    let p = lone_party(vec![]);
    assert_eq!(p.phase(), ProtocolPhase::PreInit);
    assert!(p.is_evaluator());
}

#[test]
fn run_stops_at_unimplemented_preprocessing() {
    let mut p = lone_party(vec![]);
    assert_eq!(p.run(), Err(Error::NotImplemented));
    assert_eq!(p.phase(), ProtocolPhase::FunctionIndependentPreprocessing);
}

#[test]
fn phase_stubs_report_not_implemented() {
    let mut p = lone_party(vec![]);
    assert_eq!(p.function_independent(), Err(Error::NotImplemented));
    assert_eq!(p.function_dependent(), Err(Error::NotImplemented));
    assert_eq!(p.input_processing(), Err(Error::NotImplemented));
    assert_eq!(p.evaluate_circuit(), Err(Error::NotImplemented));
    assert_eq!(p.output_processing(), Err(Error::NotImplemented));
    assert_eq!(p.phase(), ProtocolPhase::PreInit);
}

#[test]
fn sending_to_a_closed_inbox_is_a_channel_error() {
    let (own_tx, own_rx) = mpsc::channel::<Message>();
    let (peer_tx, peer_rx) = mpsc::channel::<Message>();
    drop(peer_rx);
    let channels = ChannelConfig { listen: own_rx, evaluator: peer_tx.clone(), parties: vec![own_tx, peer_tx], id: 0 };
    let mut p = Party::new(channels, (), Randomness::new(vec![1, 2, 3, 4]));
    assert_eq!(p.ot_send(1, &[1, 1, 1], &[9, 9, 9]), Err(Error::ChannelError));
    assert_eq!(p.run(), Err(Error::ChannelError));
    assert_eq!(p.phase(), ProtocolPhase::Init);
}

#[test]
fn receiving_on_a_closed_inbox_is_a_channel_error() {
    let (tx, rx) = mpsc::channel::<Message>();
    let (other_tx, _other_rx) = mpsc::channel::<Message>();
    drop(tx);
    let channels = ChannelConfig { listen: rx, evaluator: other_tx.clone(), parties: vec![other_tx.clone(), other_tx], id: 1 };
    let mut p = Party::new(channels, (), Randomness::new(vec![1, 2, 3, 4, 5]));
    assert!(!p.is_evaluator());
    assert_eq!(p.ot_receive(true), Err(Error::ChannelError));
    assert!(matches!(p.receive(), Err(Error::ChannelError)));
}

#[test]
fn round_without_entropy_fails() {
    let (tx0, rx0) = mpsc::channel::<Message>();
    let (tx1, _rx1) = mpsc::channel::<Message>();
    let channels = ChannelConfig { listen: rx0, evaluator: tx0.clone(), parties: vec![tx0, tx1], id: 0 };
    let mut p = Party::new(channels, (), Randomness::new(vec![1, 2]));
    assert_eq!(p.run(), Err(Error::EntropyExhausted));
    assert_eq!(p.phase(), ProtocolPhase::Init);
}

#[test]
fn new_party_keeps_its_circuit() {
    let (tx, rx) = mpsc::channel::<Message>();
    let channels = ChannelConfig { listen: rx, evaluator: tx.clone(), parties: vec![tx], id: 0 };
    let p = Party::new(channels, vec![3usize, 4], Randomness::new(vec![]));
    assert_eq!(p.circuit(), &vec![3usize, 4]);
}

#[test]
fn lone_party_round_is_empty() {
    let mut p = lone_party(vec![9]);
    assert_eq!(p.ot_round(), Ok(vec![]));
}

/// A party with id 1 among two, whose inbox the caller feeds through the
/// returned sending end.
fn second_party(entropy: Vec<u8>) -> (Party<()>, mpsc::Sender<Message>, mpsc::Receiver<Message>) {
    let (tx1, rx1) = mpsc::channel::<Message>();
    let (tx0, rx0) = mpsc::channel::<Message>();
    let channels = ChannelConfig { listen: rx1, evaluator: tx0.clone(), parties: vec![tx0, tx1.clone()], id: 1 };
    (Party::new(channels, (), Randomness::new(entropy)), tx1, rx0)
}

#[test]
fn sender_closing_after_commitment_is_a_channel_error() {
    let (mut p, inbox, _rx0) = second_party(vec![0, 0, 0, 20]);
    let (answer_tx, answer_rx) = mpsc::channel::<SubMessage>();
    let (commit_tx, commit_rx) = mpsc::channel::<SubMessage>();
    inbox.send(sub_channel_announcement(0, 1, answer_tx, commit_rx)).unwrap();
    commit_tx.send(SubMessage::OTCommit(encode_elem(35))).unwrap();
    drop(commit_tx);
    assert_eq!(p.ot_receive(true), Err(Error::ChannelError));
    // The answer had gone out before the channel turned out closed.
    assert!(matches!(answer_rx.recv(), Ok(SubMessage::OTSelect(_))));
}

#[test]
fn receiver_closing_after_commitment_is_a_channel_error() {
    let (mut p, inbox, _rx0) = second_party(vec![0, 0, 0, 20]);
    let (answer_tx, answer_rx) = mpsc::channel::<SubMessage>();
    let (commit_tx, commit_rx) = mpsc::channel::<SubMessage>();
    inbox.send(sub_channel_announcement(0, 1, answer_tx, commit_rx)).unwrap();
    commit_tx.send(SubMessage::OTCommit(encode_elem(35))).unwrap();
    drop(answer_rx);
    assert_eq!(p.ot_receive(true), Err(Error::ChannelError));
}

#[test]
fn full_exchange_with_a_scripted_sender() {
    let (mut p, inbox, _rx0) = second_party(vec![0, 0, 0, 20]);
    let (answer_tx, answer_rx) = mpsc::channel::<SubMessage>();
    let (commit_tx, commit_rx) = mpsc::channel::<SubMessage>();
    inbox.send(sub_channel_announcement(0, 1, answer_tx, commit_rx)).unwrap();
    // Sender scalar 5 commits to 35; the party's scalar 20 selecting the
    // left input answers 140, so the transfer can be queued in advance.
    let mut e = Randomness::new(vec![0, 0, 0, 5]);
    let (sender, commitment) = OTSender::init_for(&mut e, 0, 1).unwrap();
    assert_eq!(commitment, encode_elem(35));
    commit_tx.send(SubMessage::OTCommit(commitment)).unwrap();
    let transfer = sender.on_select(Some(SubMessage::OTSelect(encode_elem(140))), &[1, 1, 1], &[9, 9, 9]).unwrap();
    commit_tx.send(transfer).unwrap();
    assert_eq!(p.ot_receive(true), Ok(vec![1, 1, 1]));
    assert!(matches!(answer_rx.recv(), Ok(SubMessage::OTSelect(a)) if decode_elem(&a) == Ok(140)));
}

#[test]
fn announcement_for_another_party_is_a_protocol_violation() {
    let (answer_tx, _answer_rx) = mpsc::channel::<SubMessage>();
    let (_commit_tx, commit_rx) = mpsc::channel::<SubMessage>();
    let m = sub_channel_announcement(0, 2, answer_tx, commit_rx);
    assert!(matches!(accept_sub_channel(1, Some(m)), Err(Error::ProtocolViolation)));
    assert!(matches!(accept_sub_channel(1, None), Err(Error::ChannelError)));
    let (answer_tx, _answer_rx) = mpsc::channel::<SubMessage>();
    let (_commit_tx, commit_rx) = mpsc::channel::<SubMessage>();
    let m = sub_channel_announcement(4, 1, answer_tx, commit_rx);
    assert!(matches!(accept_sub_channel(1, Some(m)), Ok((4, _, _))));
}

#[test]
fn misaddressed_announcement_fails_the_receive() {
    let (mut p, inbox, _rx0) = second_party(vec![0, 0, 0, 20]);
    let (answer_tx, _answer_rx) = mpsc::channel::<SubMessage>();
    let (_commit_tx, commit_rx) = mpsc::channel::<SubMessage>();
    inbox.send(sub_channel_announcement(0, 0, answer_tx, commit_rx)).unwrap();
    assert_eq!(p.ot_receive(true), Err(Error::ProtocolViolation));
}

#[test]
fn round_of_later_party_without_entropy_fails_on_the_first_bit() {
    let (mut p, _inbox, _rx0) = second_party(vec![]);
    assert_eq!(p.ot_round(), Err(Error::EntropyExhausted));
}
