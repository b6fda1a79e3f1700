//! A 1-out-of-2 oblivious transfer in the shape of Chou and Orlandi's
//! construction: the sender commits to a secret scalar `a` as `a·G`, the
//! receiver answers `b·G` to select the left input or `a·G + b·G` to select
//! the right one, and the sender masks each input with a key that only the
//! matching answer lets the receiver rebuild.
//!
//! The group here is the additive group of integers modulo `P`, where the
//! discrete logarithm is easy: the module fixes the message flow, the domain
//! separation and the error conditions, and proves that the selected input
//! is recovered; it does not by itself hide the unselected input.
use vstd::arithmetic::div_mod::*;
use vstd::prelude::*;

use crate::entropy::Randomness;
use crate::error::Error;
use crate::messages::SubMessage;

verus! {

/// The modulus of the group, the prime `2^31 - 1`.
pub const P: u64 = 2147483647;

/// The generator of the group.
pub const G: u64 = 7;

/// Number of bytes of an encoded group element and of a drawn scalar.
pub const ELEM_BYTES: usize = 4;

/// The big-endian value of four bytes.
pub open spec fn be4(s: Seq<u8>) -> nat {
    s[0] as nat * 16777216 + s[1] as nat * 65536 + s[2] as nat * 256 + s[3] as nat
}

/// The scalar drawn from four random bytes.
pub open spec fn scalar_of(s: Seq<u8>) -> nat {
    be4(s) % (P as nat)
}

/// The commitment `a·G` of the sender's scalar.
pub open spec fn commit_of(a: nat) -> nat {
    (a * G as nat) % (P as nat)
}

/// The receiver's answer for scalar `b` and commitment `c`.
pub open spec fn select_of(c: nat, b: nat, choose_left: bool) -> nat {
    if choose_left {
        (b * G as nat) % (P as nat)
    } else {
        (c + (b * G as nat) % (P as nat)) % (P as nat)
    }
}

/// The key the receiver derives from its scalar and the commitment.
pub open spec fn receiver_key(b: nat, c: nat) -> nat {
    (b * c) % (P as nat)
}

/// The key that masks the left input.
pub open spec fn left_key(a: nat, s: nat) -> nat {
    (a * s) % (P as nat)
}

/// The key that masks the right input.
pub open spec fn right_key(a: nat, s: nat) -> nat {
    (a * (((s + P as nat - commit_of(a)) as nat) % (P as nat))) % (P as nat)
}

/// The digest of a domain separation tag, folded byte by byte.
pub open spec fn tag_seed(t: Seq<u8>) -> nat
    decreases t.len(),
{
    if t.len() == 0 {
        0
    } else {
        (tag_seed(t.drop_last()) * 31 + t.last() as nat) % (P as nat)
    }
}

/// Byte `j` of the mask stream for a tag digest and a key.
pub open spec fn pad_byte(seed: nat, k: nat, j: nat) -> u8 {
    (((k * (j + 1) + seed) % (P as nat)) % 256) as u8
}

/// `m` masked byte by byte with the stream for a tag digest and a key.
pub open spec fn mask(m: Seq<u8>, seed: nat, k: nat) -> Seq<u8> {
    Seq::new(m.len(), |j: int| m[j] ^ pad_byte(seed, k, j as nat))
}

/// Encodes a group element as four big-endian bytes.
pub fn encode_elem(x: u64) -> (r: Vec<u8>)
    requires
        x < P,
    ensures
        r@.len() == 4,
        be4(r@) == x,
{
    let r = vec![(x / 16777216) as u8, ((x / 65536) % 256) as u8, ((x / 256) % 256) as u8, (x % 256) as u8];
    assert(((x / 16777216) % 256) * 16777216 + ((x / 65536) % 256) * 65536 + ((x / 256) % 256) * 256
        + x % 256 == x && x / 16777216 < 256) by (bit_vector)
        requires
            x < 2147483647u64,
    ;
    r
}

/// Decodes a group element. Fails unless `s` is four bytes whose value is
/// below `P`.
pub fn decode_elem(s: &[u8]) -> (r: Result<u64, Error>)
    ensures
        s@.len() == 4 && be4(s@) < P ==> r == Ok::<u64, Error>(be4(s@) as u64),
        !(s@.len() == 4 && be4(s@) < P) ==> r == Err::<u64, Error>(Error::CryptoError),
{
    if s.len() != 4 {
        return Err(Error::CryptoError);
    }
    let v: u64 = s[0] as u64 * 16777216 + s[1] as u64 * 65536 + s[2] as u64 * 256 + s[3] as u64;
    if v >= P {
        return Err(Error::CryptoError);
    }
    Ok(v)
}

/// Draws a scalar from the next four bytes of the entropy stream.
fn draw_scalar(entropy: &mut Randomness) -> (r: Result<u64, Error>)
    requires
        old(entropy).wf(),
    ensures
        final(entropy).wf(),
        old(entropy).remaining().len() >= 4 ==> r == Ok::<u64, Error>(
            scalar_of(old(entropy).remaining().take(4)) as u64,
        ) && final(entropy).remaining() == old(entropy).remaining().skip(4),
        old(entropy).remaining().len() < 4 ==> r == Err::<u64, Error>(Error::EntropyExhausted)
            && final(entropy).remaining() == old(entropy).remaining(),
{
    let bytes = entropy.bytes(ELEM_BYTES)?;
    let v: u64 = bytes[0] as u64 * 16777216 + bytes[1] as u64 * 65536 + bytes[2] as u64 * 256
        + bytes[3] as u64;
    Ok(v % P)
}

/// The digest of a domain separation tag.
pub fn tag_digest(t: &[u8]) -> (r: u64)
    ensures
        r == tag_seed(t@),
        r < P,
{
    let mut acc: u64 = 0;
    let mut i: usize = 0;
    while i < t.len()
        invariant
            i <= t@.len(),
            acc == tag_seed(t@.take(i as int)),
            acc < P,
        decreases t@.len() - i,
    {
        assert(t@.take(i + 1).drop_last() =~= t@.take(i as int));
        acc = (acc * 31 + t[i] as u64) % P;
        i = i + 1;
    }
    assert(t@.take(t@.len() as int) =~= t@);
    acc
}

/// Masks `m` with the stream for a tag digest and a key; masking twice
/// with the same stream gives `m` back.
pub fn apply_mask(m: &[u8], seed: u64, k: u64) -> (r: Vec<u8>)
    requires
        seed < P,
        k < P,
    ensures
        r@ == mask(m@, seed as nat, k as nat),
{
    let mut out: Vec<u8> = Vec::new();
    let mut j: usize = 0;
    while j < m.len()
        invariant
            j <= m@.len(),
            seed < P,
            k < P,
            out@ =~= mask(m@, seed as nat, k as nat).take(j as int),
        decreases m@.len() - j,
    {
        let jj = j as u128;
        assert(k as u128 * (jj + 1) <= (P as u128) * 18446744073709551616u128) by (nonlinear_arith)
            requires
                k < P,
                jj < 18446744073709551616u128,
        ;
        let pad = (((k as u128 * (jj + 1) + seed as u128) % (P as u128)) % 256) as u8;
        out.push(m[j] ^ pad);
        j = j + 1;
    }
    out
}

/// Masking twice with the same stream gives the input back.
pub proof fn lemma_mask_twice(m: Seq<u8>, seed: nat, k: nat)
    ensures
        mask(mask(m, seed, k), seed, k) == m,
{
    assert forall|j: int| 0 <= j < m.len() implies mask(mask(m, seed, k), seed, k)[j] == m[j] by {
        let x = m[j];
        let p = pad_byte(seed, k, j as nat);
        assert((x ^ p) ^ p == x) by (bit_vector);
    }
    assert(mask(mask(m, seed, k), seed, k) =~= m);
}

/// The sender's state during one exchange: its secret scalar and the digest
/// of the exchange's domain separation tag.
pub struct OTSender {
    secret: u64,
    seed: u64,
}

impl OTSender {
    pub closed spec fn secret_spec(&self) -> nat {
        self.secret as nat
    }

    pub closed spec fn seed_spec(&self) -> nat {
        self.seed as nat
    }

    pub closed spec fn wf(&self) -> bool {
        self.secret < P && self.seed < P
    }

    /// Starts an exchange under the tag `dst`: draws the secret scalar from
    /// the entropy stream and returns the session with its commitment.
    pub fn init(entropy: &mut Randomness, dst: &[u8]) -> (r: Result<(OTSender, Vec<u8>), Error>)
        requires
            old(entropy).wf(),
        ensures
            final(entropy).wf(),
            old(entropy).remaining().len() >= 4 ==> r is Ok && r->Ok_0.0.wf()
                && r->Ok_0.0.secret_spec() == scalar_of(old(entropy).remaining().take(4))
                && r->Ok_0.0.seed_spec() == tag_seed(dst@) && r->Ok_0.1@.len() == 4 && be4(
                r->Ok_0.1@,
            ) == commit_of(r->Ok_0.0.secret_spec()) && final(entropy).remaining() == old(
                entropy,
            ).remaining().skip(4),
            old(entropy).remaining().len() < 4 ==> r is Err && r->Err_0 == Error::EntropyExhausted
                && final(entropy).remaining() == old(entropy).remaining(),
    {
        let a = draw_scalar(entropy)?;
        let seed = tag_digest(dst);
        let c = encode_elem((a * G) % P);
        Ok((OTSender { secret: a, seed }, c))
    }

    /// Starts the exchange from party `sender` to party `receiver`, under
    /// the tag `ot_tag_spec(sender, receiver)`.
    pub fn init_for(entropy: &mut Randomness, sender: usize, receiver: usize) -> (r: Result<
        (OTSender, Vec<u8>),
        Error,
    >)
        requires
            old(entropy).wf(),
        ensures
            final(entropy).wf(),
            old(entropy).remaining().len() >= 4 ==> r is Ok && r->Ok_0.0.wf()
                && r->Ok_0.0.secret_spec() == scalar_of(old(entropy).remaining().take(4))
                && r->Ok_0.0.seed_spec() == tag_seed(ot_tag_spec(sender as nat, receiver as nat))
                && r->Ok_0.1@.len() == 4 && be4(r->Ok_0.1@) == commit_of(r->Ok_0.0.secret_spec())
                && final(entropy).remaining() == old(entropy).remaining().skip(4),
            old(entropy).remaining().len() < 4 ==> r is Err && r->Err_0 == Error::EntropyExhausted
                && final(entropy).remaining() == old(entropy).remaining(),
    {
        let dst = ot_tag(sender, receiver);
        OTSender::init(entropy, &dst)
    }

    /// Masks the two inputs with the keys that the receiver's answer
    /// `selection` determines. Fails if the answer is malformed.
    pub fn send(&self, left: &[u8], right: &[u8], selection: &[u8]) -> (r: Result<
        (Vec<u8>, Vec<u8>),
        Error,
    >)
        requires
            self.wf(),
        ensures
            selection@.len() == 4 && be4(selection@) < P ==> r is Ok && r->Ok_0.0@ == mask(
                left@,
                self.seed_spec(),
                left_key(self.secret_spec(), be4(selection@)),
            ) && r->Ok_0.1@ == mask(
                right@,
                self.seed_spec(),
                right_key(self.secret_spec(), be4(selection@)),
            ),
            !(selection@.len() == 4 && be4(selection@) < P) ==> r is Err && r->Err_0
                == Error::CryptoError,
    {
        let s = decode_elem(selection)?;
        let a = self.secret;
        let c = (a * G) % P;
        let d = (s + P - c) % P;
        assert(a * s < P * P && a * d < P * P) by (nonlinear_arith)
            requires
                a < P,
                s < P,
                d < P,
        ;
        let k0 = (a * s) % P;
        let k1 = (a * d) % P;
        Ok((apply_mask(left, self.seed, k0), apply_mask(right, self.seed, k1)))
    }

    /// Handles what arrived on the sub-channel after the commitment was sent
    /// (`None` when the channel was closed): an `OTSelect` is answered with
    /// `OTSend`; anything else ends the exchange.
    pub fn on_select(&self, msg: Option<SubMessage>, left: &[u8], right: &[u8]) -> (r: Result<
        SubMessage,
        Error,
    >)
        requires
            self.wf(),
        ensures
            msg is None ==> r is Err && r->Err_0 == Error::ChannelError,
            msg matches Some(SubMessage::OTSelect(s)) ==> {
                &&& (s@.len() == 4 && be4(s@) < P) ==> (r matches Ok(SubMessage::OTSend(x, y)) && x@
                    == mask(left@, self.seed_spec(), left_key(self.secret_spec(), be4(s@))) && y@
                    == mask(right@, self.seed_spec(), right_key(self.secret_spec(), be4(s@))))
                &&& !(s@.len() == 4 && be4(s@) < P) ==> r is Err && r->Err_0 == Error::CryptoError
            },
            msg matches Some(SubMessage::OTCommit(_)) ==> r is Err && r->Err_0
                == Error::ProtocolViolation,
            msg matches Some(SubMessage::OTSend(_, _)) ==> r is Err && r->Err_0
                == Error::ProtocolViolation,
    {
        match msg {
            None => Err(Error::ChannelError),
            Some(SubMessage::OTSelect(s)) => {
                let (x, y) = self.send(left, right, &s)?;
                Ok(SubMessage::OTSend(x, y))
            },
            Some(_) => Err(Error::ProtocolViolation),
        }
    }
}

/// The receiver's state during one exchange: the key it derived, the digest
/// of the domain separation tag and its selection.
pub struct OTReceiver {
    key: u64,
    seed: u64,
    choose_left: bool,
}

impl OTReceiver {
    pub closed spec fn key_spec(&self) -> nat {
        self.key as nat
    }

    pub closed spec fn seed_spec(&self) -> nat {
        self.seed as nat
    }

    pub closed spec fn choose_left_spec(&self) -> bool {
        self.choose_left
    }

    pub closed spec fn wf(&self) -> bool {
        self.key < P && self.seed < P
    }

    /// Answers the sender's commitment under the tag `dst`: draws a scalar
    /// from the entropy stream and returns the session with the answer that
    /// selects the left input when `choose_left` holds, else the right one.
    /// Fails if the commitment is malformed, drawing nothing.
    pub fn select(entropy: &mut Randomness, dst: &[u8], commitment: &[u8], choose_left: bool) -> (r:
        Result<(OTReceiver, Vec<u8>), Error>)
        requires
            old(entropy).wf(),
        ensures
            final(entropy).wf(),
            !(commitment@.len() == 4 && be4(commitment@) < P) ==> r is Err && r->Err_0
                == Error::CryptoError && final(entropy).remaining() == old(entropy).remaining(),
            (commitment@.len() == 4 && be4(commitment@) < P) && old(entropy).remaining().len() < 4
                ==> r is Err && r->Err_0 == Error::EntropyExhausted && final(entropy).remaining()
                == old(entropy).remaining(),
            (commitment@.len() == 4 && be4(commitment@) < P) && old(entropy).remaining().len() >= 4
                ==> r is Ok && r->Ok_0.0.wf() && r->Ok_0.0.key_spec() == receiver_key(
                scalar_of(old(entropy).remaining().take(4)),
                be4(commitment@),
            ) && r->Ok_0.0.seed_spec() == tag_seed(dst@) && r->Ok_0.0.choose_left_spec()
                == choose_left && r->Ok_0.1@.len() == 4 && be4(r->Ok_0.1@) == select_of(
                be4(commitment@),
                scalar_of(old(entropy).remaining().take(4)),
                choose_left,
            ) && final(entropy).remaining() == old(entropy).remaining().skip(4),
    {
        let c = decode_elem(commitment)?;
        let b = draw_scalar(entropy)?;
        let seed = tag_digest(dst);
        let bg = (b * G) % P;
        let resp = if choose_left {
            bg
        } else {
            (c + bg) % P
        };
        assert(b * c < P * P) by (nonlinear_arith)
            requires
                b < P,
                c < P,
        ;
        let key = (b * c) % P;
        Ok((OTReceiver { key, seed, choose_left }, encode_elem(resp)))
    }

    /// Unmasks the selected one of the two masked inputs.
    pub fn receive(&self, left: &[u8], right: &[u8]) -> (r: Vec<u8>)
        requires
            self.wf(),
        ensures
            r@ == mask(
                if self.choose_left_spec() {
                    left@
                } else {
                    right@
                },
                self.seed_spec(),
                self.key_spec(),
            ),
    {
        if self.choose_left {
            apply_mask(left, self.seed, self.key)
        } else {
            apply_mask(right, self.seed, self.key)
        }
    }

    /// Handles the first message of an exchange (`None` when the channel was
    /// closed): an `OTCommit` is answered with `OTSelect`; anything else ends
    /// the exchange.
    pub fn on_commit(
        msg: Option<SubMessage>,
        entropy: &mut Randomness,
        dst: &[u8],
        choose_left: bool,
    ) -> (r: Result<(OTReceiver, SubMessage), Error>)
        requires
            old(entropy).wf(),
        ensures
            final(entropy).wf(),
            msg is None ==> r is Err && r->Err_0 == Error::ChannelError,
            msg matches Some(SubMessage::OTSelect(_)) ==> r is Err && r->Err_0
                == Error::ProtocolViolation,
            msg matches Some(SubMessage::OTSend(_, _)) ==> r is Err && r->Err_0
                == Error::ProtocolViolation,
            !(msg matches Some(SubMessage::OTCommit(_))) ==> final(entropy).remaining() == old(
                entropy,
            ).remaining(),
            msg matches Some(SubMessage::OTCommit(c)) ==> {
                &&& !(c@.len() == 4 && be4(c@) < P) ==> r is Err && r->Err_0 == Error::CryptoError
                &&& (c@.len() == 4 && be4(c@) < P) && old(entropy).remaining().len() < 4 ==> r is Err
                    && r->Err_0 == Error::EntropyExhausted
                &&& (c@.len() == 4 && be4(c@) < P) && old(entropy).remaining().len() >= 4 ==> (r
                    matches Ok((rcv, SubMessage::OTSelect(s))) && rcv.wf() && rcv.key_spec()
                    == receiver_key(scalar_of(old(entropy).remaining().take(4)), be4(c@))
                    && rcv.seed_spec() == tag_seed(dst@) && rcv.choose_left_spec() == choose_left
                    && s@.len() == 4 && be4(s@) == select_of(
                    be4(c@),
                    scalar_of(old(entropy).remaining().take(4)),
                    choose_left,
                ) && final(entropy).remaining() == old(entropy).remaining().skip(4))
            },
    {
        match msg {
            None => Err(Error::ChannelError),
            Some(SubMessage::OTCommit(c)) => {
                let (rcv, s) = OTReceiver::select(entropy, dst, &c, choose_left)?;
                Ok((rcv, SubMessage::OTSelect(s)))
            },
            Some(_) => Err(Error::ProtocolViolation),
        }
    }

    /// Handles the second message of an exchange (`None` when the channel was
    /// closed): an `OTSend` yields the selected input; anything else ends the
    /// exchange.
    pub fn on_transfer(&self, msg: Option<SubMessage>) -> (r: Result<Vec<u8>, Error>)
        requires
            self.wf(),
        ensures
            msg is None ==> r is Err && r->Err_0 == Error::ChannelError,
            msg matches Some(SubMessage::OTCommit(_)) ==> r is Err && r->Err_0
                == Error::ProtocolViolation,
            msg matches Some(SubMessage::OTSelect(_)) ==> r is Err && r->Err_0
                == Error::ProtocolViolation,
            msg matches Some(SubMessage::OTSend(x, y)) ==> r is Ok && r->Ok_0@ == mask(
                if self.choose_left_spec() {
                    x@
                } else {
                    y@
                },
                self.seed_spec(),
                self.key_spec(),
            ),
    {
        match msg {
            Some(SubMessage::OTSend(x, y)) => Ok(self.receive(&x, &y)),
            None => Err(Error::ChannelError),
            Some(_) => Err(Error::ProtocolViolation),
        }
    }
}

/// The key that the receiver derives equals the sender's key for the input
/// that the receiver selected.
pub proof fn lemma_keys_agree(a: nat, b: nat, choose_left: bool)
    requires
        a < P,
        b < P,
    ensures
        choose_left ==> receiver_key(b, commit_of(a)) == left_key(
            a,
            select_of(commit_of(a), b, true),
        ),
        !choose_left ==> receiver_key(b, commit_of(a)) == right_key(
            a,
            select_of(commit_of(a), b, false),
        ),
{
    let p = P as int;
    let g = G as int;
    let ai = a as int;
    let bi = b as int;
    let c = commit_of(a) as int;
    let t = (bi * g) % p;
    lemma_mul_mod_noop_right(bi, ai * g, p);
    assert(bi * (ai * g) == ai * (bi * g)) by (nonlinear_arith);
    lemma_mul_mod_noop_right(ai, bi * g, p);
    if !choose_left {
        let s = (c + t) % p;
        lemma_add_mod_noop_right(p - c, c + t, p);
        assert((p - c + (c + t)) % p == t) by {
            lemma_mod_add_multiples_vanish(t, p);
            lemma_small_mod(t as nat, p as nat);
        }
        assert(((s + p - c) as nat) % (P as nat) == t);
    }
}

/// Oblivious transfer correctness: once the four messages of an exchange
/// have passed, the receiver holds exactly the input it selected.
pub proof fn lemma_transfer_recovers_selected(
    a: nat,
    b: nat,
    choose_left: bool,
    dst: Seq<u8>,
    left: Seq<u8>,
    right: Seq<u8>,
)
    requires
        a < P,
        b < P,
    ensures
        ({
            let c = commit_of(a);
            let s = select_of(c, b, choose_left);
            let masked = if choose_left {
                mask(left, tag_seed(dst), left_key(a, s))
            } else {
                mask(right, tag_seed(dst), right_key(a, s))
            };
            mask(masked, tag_seed(dst), receiver_key(b, c)) == if choose_left {
                left
            } else {
                right
            }
        }),
{
    lemma_keys_agree(a, b, choose_left);
    if choose_left {
        lemma_mask_twice(left, tag_seed(dst), receiver_key(b, commit_of(a)));
    } else {
        lemma_mask_twice(right, tag_seed(dst), receiver_key(b, commit_of(a)));
    }
}

/// The receiver scalar that gives, for the other selection, the same answer
/// as `b` gives for `choose_left`.
pub open spec fn other_scalar(a: nat, b: nat, choose_left: bool) -> nat {
    if choose_left {
        ((b + P as nat - a) as nat) % (P as nat)
    } else {
        (b + a) % (P as nat)
    }
}

/// The answer hides the selection: pairing each receiver scalar with
/// `other_scalar` is a one-to-one map of the scalars onto themselves under
/// which the answer for one selection equals the answer for the other. With a
/// uniform scalar the answer, and so every message that the sender computes
/// from it, has the same distribution whichever input is selected. (The
/// scalar drawn from four random bytes reduced modulo `P` is close to
/// uniform, not exactly so: 0 and 1 are slightly likelier than the rest.)
pub proof fn lemma_answer_hides_selection(a: nat, b: nat, choose_left: bool)
    requires
        a < P,
        b < P,
    ensures
        other_scalar(a, b, choose_left) < P,
        select_of(commit_of(a), other_scalar(a, b, choose_left), !choose_left) == select_of(
            commit_of(a),
            b,
            choose_left,
        ),
        other_scalar(a, other_scalar(a, b, choose_left), !choose_left) == b,
{
    let p = P as int;
    let g = G as int;
    let ai = a as int;
    let bi = b as int;
    let o = other_scalar(a, b, choose_left) as int;
    if choose_left {
        // a + o is b modulo p, so a·G + o·G is b·G modulo p.
        assert(o == (bi + p - ai) % p);
        lemma_add_mod_noop(ai * g, o * g, p);
        assert(ai * g + o * g == (ai + o) * g) by (nonlinear_arith);
        lemma_mul_mod_noop_left(ai + o, g, p);
        lemma_add_mod_noop_right(ai, bi + p - ai, p);
        lemma_mod_add_multiples_vanish(bi, p);
        lemma_small_mod(b, P as nat);
        assert((ai + o) % p == bi);
        lemma_small_mod(a, P as nat);
        lemma_mod_twice(ai * g, p);
        assert(select_of(commit_of(a), o as nat, false) == ((ai + o) * g) % p);
        lemma_add_mod_noop_right(o, ai, p);
        assert((o + ai) % p == bi);
    } else {
        assert(o == (bi + ai) % p);
        lemma_mul_mod_noop_left(bi + ai, g, p);
        lemma_add_mod_noop(ai * g, bi * g, p);
        assert(ai * g + bi * g == (bi + ai) * g) by (nonlinear_arith);
        lemma_mod_twice(ai * g, p);
        lemma_mod_twice(bi * g, p);
        // o + p - a is b modulo p.
        lemma_add_mod_noop_right(p - ai, bi + ai, p);
        lemma_mod_add_multiples_vanish(bi, p);
        lemma_small_mod(b, P as nat);
        assert((o + p - ai) % p == bi);
    }
}

/// Runs the four messages of one exchange between a sender drawing from
/// `sender_entropy` and a receiver drawing from `receiver_entropy`, and returns
/// what the receiver recovers: `left` when `choose_left` holds, else `right`.
/// Fails only when one side's entropy is exhausted.
pub fn ot_exchange(
    sender_entropy: &mut Randomness,
    receiver_entropy: &mut Randomness,
    dst: &[u8],
    left: &[u8],
    right: &[u8],
    choose_left: bool,
) -> (r: Result<Vec<u8>, Error>)
    requires
        old(sender_entropy).wf(),
        old(receiver_entropy).wf(),
    ensures
        final(sender_entropy).wf(),
        final(receiver_entropy).wf(),
        old(sender_entropy).remaining().len() >= 4 && old(receiver_entropy).remaining().len() >= 4
            ==> r is Ok && r->Ok_0@ == if choose_left {
            left@
        } else {
            right@
        },
        !(old(sender_entropy).remaining().len() >= 4 && old(receiver_entropy).remaining().len()
            >= 4) ==> r is Err && r->Err_0 == Error::EntropyExhausted,
{
    let (sender, commitment) = OTSender::init(sender_entropy, dst)?;
    let ghost a = sender.secret_spec();
    let (receiver, answer) = OTReceiver::on_commit(
        Some(SubMessage::OTCommit(commitment)),
        receiver_entropy,
        dst,
        choose_left,
    )?;
    let transfer = sender.on_select(Some(answer), left, right)?;
    let out = receiver.on_transfer(Some(transfer))?;
    proof {
        let b = scalar_of(old(receiver_entropy).remaining().take(4));
        lemma_transfer_recovers_selected(a, b, choose_left, dst@, left@, right@);
    }
    Ok(out)
}

/// The decimal digits of `n`, in ASCII, without padding.
pub open spec fn decimal(n: nat) -> Seq<u8>
    decreases n,
{
    if n < 10 {
        seq![(48 + n) as u8]
    } else {
        decimal(n / 10).push((48 + n % 10) as u8)
    }
}

/// The domain separation tag `OT-{sender}-{receiver}` of the exchange from
/// `sender` to `receiver`, in ASCII.
pub open spec fn ot_tag_spec(sender: nat, receiver: nat) -> Seq<u8> {
    seq![79u8, 84u8, 45u8] + decimal(sender) + seq![45u8] + decimal(receiver)
}

fn push_decimal(out: &mut Vec<u8>, n: usize)
    ensures
        final(out)@ == old(out)@ + decimal(n as nat),
    decreases n,
{
    if n >= 10 {
        push_decimal(out, n / 10);
    }
    out.push((48 + n % 10) as u8);
    assert(out@ =~= old(out)@ + decimal(n as nat));
}

/// The domain separation tag of the exchange from `sender` to `receiver`.
pub fn ot_tag(sender: usize, receiver: usize) -> (r: Vec<u8>)
    ensures
        r@ == ot_tag_spec(sender as nat, receiver as nat),
{
    let mut r: Vec<u8> = vec![79u8, 84u8, 45u8];
    push_decimal(&mut r, sender);
    r.push(45u8);
    push_decimal(&mut r, receiver);
    assert(r@ =~= ot_tag_spec(sender as nat, receiver as nat));
    r
}

} // verus!
