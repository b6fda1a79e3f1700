use vstd::prelude::*;

verus! {

/// The failures that end a party's run. None of them is retried.
#[derive(Debug, Clone, Copy, PartialEq, Eq, Structural)]
pub enum Error {
    /// A peer disconnected or a channel was closed.
    ChannelError,
    /// A message arrived out of the expected sequence, or of the wrong variant.
    ProtocolViolation,
    /// The oblivious transfer primitive was handed a malformed value.
    CryptoError,
    /// The party's random byte stream is used up.
    EntropyExhausted,
    /// The requested protocol phase has no implementation yet.
    NotImplemented,
}

} // verus!
