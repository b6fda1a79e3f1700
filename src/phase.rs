use vstd::prelude::*;

use crate::error::Error;

verus! {

/// The phases of a protocol run, in the order in which a party passes them.
#[derive(Debug, Clone, Copy, PartialEq, Eq, Structural)]
pub enum ProtocolPhase {
    /// Before the protocol has begun.
    PreInit,
    /// Pairwise oblivious transfers with every other party.
    Init,
    /// Pre-processing that does not depend on the circuit.
    FunctionIndependentPreprocessing,
    /// Pre-processing that depends on the circuit.
    FunctionDependentPreprocessing,
    /// Sharing of the parties' inputs.
    InputProcessing,
    /// Evaluation of the circuit.
    CircuitEvaluation,
    /// Reconstruction of the outputs.
    OutputProcessing,
    /// The run is over.
    Done,
}

impl ProtocolPhase {
    /// Position of the phase in the run.
    pub open spec fn rank(self) -> nat {
        match self {
            ProtocolPhase::PreInit => 0,
            ProtocolPhase::Init => 1,
            ProtocolPhase::FunctionIndependentPreprocessing => 2,
            ProtocolPhase::FunctionDependentPreprocessing => 3,
            ProtocolPhase::InputProcessing => 4,
            ProtocolPhase::CircuitEvaluation => 5,
            ProtocolPhase::OutputProcessing => 6,
            ProtocolPhase::Done => 7,
        }
    }

    /// The phase that follows this one, if any.
    pub open spec fn next_spec(self) -> Option<ProtocolPhase> {
        match self {
            ProtocolPhase::PreInit => Some(ProtocolPhase::Init),
            ProtocolPhase::Init => Some(ProtocolPhase::FunctionIndependentPreprocessing),
            ProtocolPhase::FunctionIndependentPreprocessing => Some(
                ProtocolPhase::FunctionDependentPreprocessing,
            ),
            ProtocolPhase::FunctionDependentPreprocessing => Some(ProtocolPhase::InputProcessing),
            ProtocolPhase::InputProcessing => Some(ProtocolPhase::CircuitEvaluation),
            ProtocolPhase::CircuitEvaluation => Some(ProtocolPhase::OutputProcessing),
            ProtocolPhase::OutputProcessing => Some(ProtocolPhase::Done),
            ProtocolPhase::Done => None,
        }
    }

    /// The phase that follows this one; `None` after `Done`.
    pub fn next(&self) -> (r: Option<ProtocolPhase>)
        ensures
            r == self.next_spec(),
            r matches Some(q) ==> q.rank() == self.rank() + 1,
            r is None <==> *self == ProtocolPhase::Done,
    {
        match self {
            ProtocolPhase::PreInit => Some(ProtocolPhase::Init),
            ProtocolPhase::Init => Some(ProtocolPhase::FunctionIndependentPreprocessing),
            ProtocolPhase::FunctionIndependentPreprocessing => Some(
                ProtocolPhase::FunctionDependentPreprocessing,
            ),
            ProtocolPhase::FunctionDependentPreprocessing => Some(ProtocolPhase::InputProcessing),
            ProtocolPhase::InputProcessing => Some(ProtocolPhase::CircuitEvaluation),
            ProtocolPhase::CircuitEvaluation => Some(ProtocolPhase::OutputProcessing),
            ProtocolPhase::OutputProcessing => Some(ProtocolPhase::Done),
            ProtocolPhase::Done => None,
        }
    }

    /// Whether the run has reached its last phase.
    pub fn is_done(&self) -> (r: bool)
        ensures
            r <==> self.rank() == 7,
    {
        match self {
            ProtocolPhase::Done => true,
            _ => false,
        }
    }
}

/// The global key that authenticates bit shares.
pub struct MacKey {
    pub bytes: Vec<u8>,
}

/// What moves a party from one phase to the next.
pub enum PhaseEvent {
    /// The run begins.
    Start,
    /// The oblivious transfers with every other party are done.
    OtRoundComplete,
    /// Function-independent pre-processing produced the global key.
    MacKeyReady(MacKey),
    /// The current phase after function-independent pre-processing finished.
    PhaseComplete,
}

/// A party's phase together with the global key, which is present exactly
/// from the end of function-independent pre-processing on. Only
/// `transition` changes it.
pub struct PhaseState {
    phase: ProtocolPhase,
    mac_key: Option<MacKey>,
}

impl PhaseState {
    pub closed spec fn phase_spec(&self) -> ProtocolPhase {
        self.phase
    }

    /// The bytes of the global key, once present.
    pub closed spec fn mac_key_spec(&self) -> Option<Seq<u8>> {
        match self.mac_key {
            Some(k) => Some(k.bytes@),
            None => None,
        }
    }

    pub open spec fn wf(&self) -> bool {
        self.mac_key_spec() is Some <==> self.phase_spec().rank() >= 3
    }

    /// The state of a party that has not begun.
    pub fn new() -> (r: PhaseState)
        ensures
            r.wf(),
            r.phase_spec() == ProtocolPhase::PreInit,
            r.mac_key_spec() is None,
    {
        PhaseState { phase: ProtocolPhase::PreInit, mac_key: None }
    }

    pub fn phase(&self) -> (r: ProtocolPhase)
        ensures
            r == self.phase_spec(),
    {
        self.phase
    }

    /// A copy of the bytes of the global key, once present.
    pub fn mac_key_bytes(&self) -> (r: Option<Vec<u8>>)
        ensures
            r is None <==> self.mac_key_spec() is None,
            r matches Some(b) ==> self.mac_key_spec() == Some(b@),
    {
        match &self.mac_key {
            Some(k) => Some(k.bytes.clone()),
            None => None,
        }
    }

    /// Applies `event`. `Start` is accepted in `PreInit`, `OtRoundComplete`
    /// in `Init`, `MacKeyReady` in function-independent pre-processing, and
    /// `PhaseComplete` in the later phases before `Done`; each moves to the
    /// next phase. Any other event is a protocol violation and leaves the
    /// state as it was. The key is set by `MacKeyReady` and by nothing else:
    /// once present it is never removed or replaced.
    pub fn transition(&mut self, event: PhaseEvent) -> (r: Result<(), Error>)
        requires
            old(self).wf(),
        ensures
            final(self).wf(),
            final(self).phase_spec().rank() >= old(self).phase_spec().rank(),
            old(self).mac_key_spec() is Some ==> final(self).mac_key_spec() == old(
                self,
            ).mac_key_spec(),
            r is Ok <==> match event {
                PhaseEvent::Start => old(self).phase_spec() == ProtocolPhase::PreInit,
                PhaseEvent::OtRoundComplete => old(self).phase_spec() == ProtocolPhase::Init,
                PhaseEvent::MacKeyReady(_) => old(self).phase_spec()
                    == ProtocolPhase::FunctionIndependentPreprocessing,
                PhaseEvent::PhaseComplete => 3 <= old(self).phase_spec().rank() < 7,
            },
            r is Ok ==> Some(final(self).phase_spec()) == old(self).phase_spec().next_spec(),
            r is Ok ==> (event matches PhaseEvent::MacKeyReady(k) ==> final(self).mac_key_spec()
                == Some(k.bytes@)),
            r is Ok && !(event is MacKeyReady) ==> final(self).mac_key_spec() == old(
                self,
            ).mac_key_spec(),
            r is Err ==> r->Err_0 == Error::ProtocolViolation && final(self).phase_spec() == old(
                self,
            ).phase_spec() && final(self).mac_key_spec() == old(self).mac_key_spec(),
    {
        let allowed = match (&event, &self.phase) {
            (PhaseEvent::Start, ProtocolPhase::PreInit) => true,
            (PhaseEvent::OtRoundComplete, ProtocolPhase::Init) => true,
            (PhaseEvent::MacKeyReady(_), ProtocolPhase::FunctionIndependentPreprocessing) => true,
            (PhaseEvent::PhaseComplete, ProtocolPhase::FunctionDependentPreprocessing) => true,
            (PhaseEvent::PhaseComplete, ProtocolPhase::InputProcessing) => true,
            (PhaseEvent::PhaseComplete, ProtocolPhase::CircuitEvaluation) => true,
            (PhaseEvent::PhaseComplete, ProtocolPhase::OutputProcessing) => true,
            _ => false,
        };
        if !allowed {
            return Err(Error::ProtocolViolation);
        }
        match self.phase.next() {
            Some(q) => {
                self.phase = q;
            },
            None => {
                return Err(Error::ProtocolViolation);
            },
        }
        if let PhaseEvent::MacKeyReady(k) = event {
            self.mac_key = Some(k);
        }
        Ok(())
    }
}

} // verus!
