//! The order in which a party runs its oblivious transfers in one round.
//! Party `p` first receives from each smaller id, then sends to every other
//! party, then receives from each larger id; every receive then faces a send
//! that was issued earlier or is being issued concurrently.
use vstd::prelude::*;

verus! {

/// One step of a party's round.
#[derive(Debug, Clone, Copy, PartialEq, Eq, Structural)]
pub enum RoundStep {
    /// Take the next sub-channel from the inbox and act as receiver.
    Receive,
    /// Open a sub-channel to this party and act as sender.
    SendTo(usize),
}

/// The peer that the `k`-th send of party `id` goes to: every id but `id`,
/// in increasing order.
pub open spec fn peer_at(id: nat, k: nat) -> nat {
    if k < id {
        k
    } else {
        k + 1
    }
}

/// The steps of party `id` in a round among `n` parties.
pub open spec fn round_steps(id: nat, n: nat) -> Seq<RoundStep> {
    Seq::new(id, |k: int| RoundStep::Receive) + Seq::new(
        (n - 1) as nat,
        |k: int| RoundStep::SendTo(peer_at(id, k as nat) as usize),
    ) + Seq::new((n - 1 - id) as nat, |k: int| RoundStep::Receive)
}

/// The steps of party `id` in a round among `n` parties.
pub fn ot_round_schedule(id: usize, n: usize) -> (r: Vec<RoundStep>)
    requires
        id < n,
    ensures
        r@ == round_steps(id as nat, n as nat),
{
    let mut r: Vec<RoundStep> = Vec::new();
    let mut k: usize = 0;
    while k < id
        invariant
            k <= id,
            r@ =~= Seq::new(k as nat, |j: int| RoundStep::Receive),
        decreases id - k,
    {
        r.push(RoundStep::Receive);
        k = k + 1;
    }
    let mut i: usize = 0;
    while i < n
        invariant
            id < n,
            i <= n,
            r@ =~= Seq::new(id as nat, |k: int| RoundStep::Receive) + Seq::new(
                if i <= id {
                    i as nat
                } else {
                    (i - 1) as nat
                },
                |k: int| RoundStep::SendTo(peer_at(id as nat, k as nat) as usize),
            ),
        decreases n - i,
    {
        if i != id {
            r.push(RoundStep::SendTo(i));
        }
        i = i + 1;
    }
    let mut k: usize = id + 1;
    while k < n
        invariant
            id < k <= n,
            r@ =~= Seq::new(id as nat, |k: int| RoundStep::Receive) + Seq::new(
                (n - 1) as nat,
                |k: int| RoundStep::SendTo(peer_at(id as nat, k as nat) as usize),
            ) + Seq::new((k - 1 - id) as nat, |j: int| RoundStep::Receive),
        decreases n - k,
    {
        r.push(RoundStep::Receive);
        k = k + 1;
    }
    r
}

/// `steps` sends to `q` at exactly one position.
pub open spec fn sends_to_once(steps: Seq<RoundStep>, q: nat) -> bool {
    exists|k: int|
        #![trigger steps[k]]
        0 <= k < steps.len() && steps[k] == RoundStep::SendTo(q as usize) && forall|j: int|
            0 <= j < steps.len() && steps[j] == RoundStep::SendTo(q as usize) ==> j == k
}

/// A round among `n` parties is made of `n·(n-1)` directed exchanges: each
/// party sends to each other party exactly once, sends to no one else, and
/// receives `n - 1` times, of which `id` times before its sends.
pub proof fn lemma_round_exchanges(id: nat, n: nat)
    requires
        id < n,
        n <= usize::MAX,
    ensures
        round_steps(id, n).len() == 2 * (n - 1),
        forall|q: nat| q < n && q != id ==> #[trigger] sends_to_once(round_steps(id, n), q),
        forall|k: int|
            0 <= k < round_steps(id, n).len() ==> (#[trigger] round_steps(id, n)[k] matches RoundStep::SendTo(
                q,
            ) ==> q < n && q != id),
        forall|k: int| 0 <= k < id ==> #[trigger] round_steps(id, n)[k] == RoundStep::Receive,
        forall|k: int|
            id <= k < id + n - 1 ==> #[trigger] round_steps(id, n)[k] is SendTo,
        forall|k: int|
            id + n - 1 <= k < 2 * (n - 1) ==> #[trigger] round_steps(id, n)[k] == RoundStep::Receive,
        n * (n - 1) == n * round_steps(id, n).len() / 2,
{
    let s = round_steps(id, n);
    let a = Seq::new(id, |k: int| RoundStep::Receive);
    let b = Seq::new((n - 1) as nat, |k: int| RoundStep::SendTo(peer_at(id, k as nat) as usize));
    let c = Seq::new((n - 1 - id) as nat, |k: int| RoundStep::Receive);
    assert(s == a + b + c);
    assert forall|k: int| 0 <= k < s.len() implies #[trigger] s[k] == if k < id {
        RoundStep::Receive
    } else if k < id + n - 1 {
        RoundStep::SendTo(peer_at(id, (k - id) as nat) as usize)
    } else {
        RoundStep::Receive
    } by {
        if k < id + n - 1 {
            assert(s[k] == (a + b)[k]);
        } else {
            assert(s[k] == c[k - (id + n - 1)]);
        }
    }
    assert forall|q: nat| q < n && q != id implies #[trigger] sends_to_once(s, q) by {
        let k: int = if q < id {
            (id + q) as int
        } else {
            id + q - 1
        };
        assert(s[k] == RoundStep::SendTo(q as usize));
        assert forall|j: int|
            0 <= j < s.len() && s[j] == RoundStep::SendTo(q as usize) implies j == k by {
            if j >= id && j < id + n - 1 {
                let pj = peer_at(id, (j - id) as nat);
                assert(pj as usize == q as usize);
            }
        }
    }
    assert(n * (n - 1) == n * (2 * (n - 1)) / 2) by (nonlinear_arith);
}

/// The exchange, as (sender, receiver), that step `k` of party `id` takes
/// part in, in a round among `n` parties.
pub open spec fn step_exchange(id: nat, n: nat, k: nat) -> (nat, nat) {
    if k < id {
        (k, id)
    } else if k < id + n - 1 {
        (id, peer_at(id, (k - id) as nat))
    } else {
        ((k - (n - 1) + 1) as nat, id)
    }
}

/// `x` comes before `y` when exchanges are ordered by sender, then receiver.
pub open spec fn exchange_before(x: (nat, nat), y: (nat, nat)) -> bool {
    x.0 < y.0 || (x.0 == y.0 && x.1 < y.1)
}

/// Every party's round follows one global order of the exchanges, by
/// sender, then receiver: step `k` of party `id` is its part in exchange
/// `step_exchange(id, n, k)`, a receive exactly when `id` is the receiver,
/// and the exchanges of its steps come in that order. Running the exchanges
/// one after the other in that order therefore meets every party at the
/// step it is waiting on, from the first exchange to the last, so a round
/// among parties that run concurrently over reliable channels ends.
pub proof fn lemma_round_follows_global_order(id: nat, n: nat)
    requires
        id < n,
        n <= usize::MAX,
    ensures
        forall|k: nat|
            k < round_steps(id, n).len() ==> {
                let x = #[trigger] step_exchange(id, n, k);
                &&& x.0 < n && x.1 < n && x.0 != x.1
                &&& round_steps(id, n)[k as int] == RoundStep::Receive <==> x.1 == id
                &&& round_steps(id, n)[k as int] != RoundStep::Receive ==> round_steps(id, n)[k as int]
                    == RoundStep::SendTo(x.1 as usize) && x.0 == id
            },
        forall|k1: nat, k2: nat|
            k1 < k2 < round_steps(id, n).len() ==> exchange_before(
                #[trigger] step_exchange(id, n, k1),
                #[trigger] step_exchange(id, n, k2),
            ),
{
    lemma_round_exchanges(id, n);
    let s = round_steps(id, n);
    let a = Seq::new(id, |k: int| RoundStep::Receive);
    let b = Seq::new((n - 1) as nat, |k: int| RoundStep::SendTo(peer_at(id, k as nat) as usize));
    let c = Seq::new((n - 1 - id) as nat, |k: int| RoundStep::Receive);
    assert(s == a + b + c);
    assert forall|k: nat| k < s.len() implies {
        let x = #[trigger] step_exchange(id, n, k);
        &&& x.0 < n && x.1 < n && x.0 != x.1
        &&& s[k as int] == RoundStep::Receive <==> x.1 == id
        &&& s[k as int] != RoundStep::Receive ==> s[k as int] == RoundStep::SendTo(x.1 as usize) && x.0
            == id
    } by {
        if k < id + n - 1 {
            assert(s[k as int] == (a + b)[k as int]);
        } else {
            assert(s[k as int] == c[k - (id + n - 1)]);
        }
    }
}

} // verus!
