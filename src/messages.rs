use std::sync::mpsc::{Receiver, Sender};
use vstd::prelude::*;

use crate::error::Error;

verus! {

/// A message exchanged inside a pairwise oblivious transfer sub-channel.
/// Within one sub-channel they come in this order: `OTCommit` from the sender,
/// `OTSelect` from the receiver, `OTSend` from the sender.
#[derive(Debug)]
pub enum SubMessage {
    /// The sender's commitment.
    OTCommit(Vec<u8>),
    /// The receiver's response, which hides its selection.
    OTSelect(Vec<u8>),
    /// The two masked inputs of the sender.
    OTSend(Vec<u8>, Vec<u8>),
}

#[verifier::external_type_specification]
#[verifier::external_body]
#[verifier::reject_recursive_types(T)]
pub struct ExSender<T>(Sender<T>);

#[verifier::external_type_specification]
#[verifier::external_body]
#[verifier::reject_recursive_types(T)]
pub struct ExReceiver<T>(Receiver<T>);

/// What a message on a party's inbox carries.
pub enum MessagePayload {
    /// The two ends of a fresh sub-channel for one pairwise exchange: the
    /// end on which the recipient answers the sender, and the end on which
    /// the recipient hears from the sender.
    SubChannel(Sender<SubMessage>, Receiver<SubMessage>),
}

/// A message between two parties.
pub struct Message {
    pub from: usize,
    pub to: usize,
    pub payload: MessagePayload,
}

/// Relies on std::sync::mpsc::channel: a fresh channel whose two ends are
/// connected to each other only.
#[verifier::external_body]
pub(crate) fn sub_channel() -> (Sender<SubMessage>, Receiver<SubMessage>) {
    std::sync::mpsc::channel::<SubMessage>()
}

/// Relies on std::sync::mpsc::Sender::send: it fails only when the receiving
/// end is gone, which is a channel error.
#[verifier::external_body]
pub(crate) fn send_on<T>(tx: &Sender<T>, m: T) -> (r: Result<(), Error>)
    ensures
        r is Err ==> r->Err_0 == Error::ChannelError,
{
    tx.send(m).map_err(|_| Error::ChannelError)
}

/// Relies on std::sync::mpsc::Receiver::recv: it waits for the next message,
/// and yields `None` when every sending end is gone and the queue is empty.
#[verifier::external_body]
pub(crate) fn recv_on<T>(rx: &Receiver<T>) -> Option<T> {
    rx.recv().ok()
}

} // verus!
