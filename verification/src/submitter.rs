//! The submission of one transaction as a state machine. The machine
//! decides; the caller talks to the node and reports what it saw.

use vstd::prelude::*;
use crate::error::ErrorKind;
use crate::primitives::Hash32;
use crate::signer::{SignedTransaction, Signer};
use crate::transaction::{Receipt, TransactionRequest};

verus! {

/// Where a submission stands.
#[derive(Clone, Debug, PartialEq, Eq)]
pub enum Submission {
    /// The request is assembled and its nonce is set.
    Built { request: TransactionRequest, max_attempts: u32 },
    /// The request is signed and not yet handed to the node.
    Signed { signed: SignedTransaction, max_attempts: u32 },
    /// The node took the transaction; `attempts_left` polls for its
    /// receipt remain.
    Broadcast { hash: Hash32, attempts_left: u32 },
    /// A block holds the transaction.
    Confirmed { receipt: Receipt },
    /// No receipt was seen before the polls ran out. The transaction may
    /// still be mined: `hash` is the one to look it up by.
    TimedOut { hash: Hash32 },
    /// The node refused the transaction when it was handed in.
    Reverted { hash: Hash32 },
}

/// What the caller saw of the node, or of the signer.
#[derive(Clone, Debug, PartialEq, Eq)]
pub enum Event {
    /// The signer signed the request.
    Signed { signed: SignedTransaction },
    /// The node took the signed bytes and answered with the hash.
    Accepted { hash: Hash32 },
    /// The node refused the signed bytes.
    Rejected,
    /// One poll for the receipt is over; `observed` is what it found.
    Polled { observed: Option<Receipt> },
}

/// What the caller is to do next.
#[derive(Clone, Copy, Debug, PartialEq, Eq)]
pub enum Action {
    /// Have the request signed.
    Sign,
    /// Hand the signed bytes to the node.
    Broadcast,
    /// Wait one interval, ask for the receipt, and report it.
    Poll { hash: Hash32 },
    /// No poll is left: report a poll that found nothing.
    Expire { hash: Hash32 },
    /// The submission is over.
    Done,
}

/// Whether a poll found the receipt that ends the wait: one for the
/// tracked transaction, with the number of its block.
pub open spec fn confirms(observed: Option<Receipt>, hash: Hash32) -> bool {
    observed.is_some() && observed.unwrap().block_number.is_some()
        && observed.unwrap().transaction_hash@ == hash@
}

/// The state after an event. An event that does not belong to the state
/// changes nothing, and nothing leaves `Confirmed`, `TimedOut` or
/// `Reverted`.
pub open spec fn next_state(state: Submission, event: Event) -> Submission {
    match (state, event) {
        (Submission::Built { max_attempts, .. }, Event::Signed { signed }) => Submission::Signed {
            signed,
            max_attempts,
        },
        (Submission::Signed { max_attempts, .. }, Event::Accepted { hash }) => Submission::Broadcast {
            hash,
            attempts_left: max_attempts,
        },
        (Submission::Signed { signed, .. }, Event::Rejected) => Submission::Reverted {
            hash: signed.hash_value(),
        },
        (Submission::Broadcast { hash, attempts_left }, Event::Polled { observed }) => {
            if attempts_left == 0 {
                Submission::TimedOut { hash }
            } else if confirms(observed, hash) {
                Submission::Confirmed { receipt: observed.unwrap() }
            } else {
                Submission::Broadcast { hash, attempts_left: (attempts_left - 1) as u32 }
            }
        },
        (state, _) => state,
    }
}

/// The state after a sequence of events, first event first.
pub open spec fn run(start: Submission, events: Seq<Event>) -> Submission
    decreases events.len(),
{
    if events.len() == 0 {
        start
    } else {
        next_state(run(start, events.drop_last()), events.last())
    }
}

impl Submission {
    /// A submission of a request, with the sender's next nonce for a
    /// request that names none, and the number of polls that the wait for
    /// the receipt may take.
    pub fn build(request: TransactionRequest, next_nonce: u64, max_attempts: u32) -> (r: Submission)
        ensures
            r == (Submission::Built {
                request: TransactionRequest {
                    nonce: Some(
                        match request.nonce {
                            Some(n) => n,
                            None => next_nonce,
                        },
                    ),
                    ..request
                },
                max_attempts,
            }),
    {
        Submission::Built { request: request.fill_nonce(next_nonce), max_attempts }
    }

    /// Whether the submission is over.
    pub open spec fn is_terminal(self) -> bool {
        self is Confirmed || self is TimedOut || self is Reverted
    }

    /// What the caller is to do in this state.
    pub open spec fn action(self) -> Action {
        match self {
            Submission::Built { .. } => Action::Sign,
            Submission::Signed { .. } => Action::Broadcast,
            Submission::Broadcast { hash, attempts_left } => if attempts_left == 0 {
                Action::Expire { hash }
            } else {
                Action::Poll { hash }
            },
            _ => Action::Done,
        }
    }

    /// What the caller is to do next.
    pub fn next_action(&self) -> (r: Action)
        ensures
            r == self.action(),
    {
        match self {
            Submission::Built { .. } => Action::Sign,
            Submission::Signed { .. } => Action::Broadcast,
            Submission::Broadcast { hash, attempts_left } => if *attempts_left == 0 {
                Action::Expire { hash: *hash }
            } else {
                Action::Poll { hash: *hash }
            },
            _ => Action::Done,
        }
    }

    /// The state after an event.
    pub fn step(self, event: Event) -> (r: Submission)
        ensures
            r == next_state(self, event),
    {
        match (self, event) {
            (Submission::Built { max_attempts, .. }, Event::Signed { signed }) => Submission::Signed {
                signed,
                max_attempts,
            },
            (Submission::Signed { max_attempts, .. }, Event::Accepted { hash }) => Submission::Broadcast {
                hash,
                attempts_left: max_attempts,
            },
            (Submission::Signed { signed, .. }, Event::Rejected) => Submission::Reverted {
                hash: signed.hash(),
            },
            (Submission::Broadcast { hash, attempts_left }, Event::Polled { observed }) => {
                if attempts_left == 0 {
                    Submission::TimedOut { hash }
                } else {
                    match observed {
                        Some(receipt) => {
                            if receipt.block_number.is_some() && receipt.transaction_hash.same_as(&hash) {
                                Submission::Confirmed { receipt }
                            } else {
                                Submission::Broadcast { hash, attempts_left: attempts_left - 1 }
                            }
                        },
                        None => Submission::Broadcast { hash, attempts_left: attempts_left - 1 },
                    }
                }
            },
            (state, _) => state,
        }
    }
    /// Has the request of a `Built` submission signed for the chain that
    /// it names. Where the signer signs, the submission is `Signed`; where
    /// it does not, the submission stays as it is and the failure is
    /// returned: nothing is broadcast. A submission that is past `Built`
    /// is never signed again: it stays as it is.
    pub fn sign_with(self, signer: &Signer) -> (r: (Submission, Result<(), ErrorKind>))
        ensures
            !(self is Built) ==> r.0 == self && r.1.is_ok(),
            self matches Submission::Built { request, max_attempts } ==> {
                &&& r.1.is_ok() == signer.signs(request, request.chain_id)
                &&& r.1.is_err() ==> r.0 == self && r.1 == Err::<(), ErrorKind>(
                    ErrorKind::SigningFailed,
                )
                &&& r.1.is_ok() ==> (r.0 matches Submission::Signed { signed, max_attempts: kept }
                    && kept == max_attempts && signed.signs_request(*signer, request))
            },
    {
        match self {
            Submission::Built { request, max_attempts } => {
                match signer.sign(&request, request.chain_id) {
                    Ok(signed) => (
                        Submission::Built { request, max_attempts }.step(Event::Signed { signed }),
                        Ok(()),
                    ),
                    Err(e) => (Submission::Built { request, max_attempts }, Err(e)),
                }
            },
            state => (state, Ok(())),
        }
    }

    /// The bytes to hand to the node: those of the signed transaction,
    /// in the state `Signed` and in no other.
    pub fn pending_payload(&self) -> (r: Option<&Vec<u8>>)
        ensures
            r.is_some() == (*self is Signed),
            *self matches Submission::Signed { signed, .. } ==> r.unwrap()@ == signed.payload_bytes(),
    {
        match self {
            Submission::Signed { signed, .. } => Some(signed.payload()),
            _ => None,
        }
    }

    /// The receipt: present once the submission is `Confirmed`, absent
    /// before that and after a timeout or a refusal.
    pub fn receipt(&self) -> (r: Option<Receipt>)
        ensures
            r.is_some() == (*self is Confirmed),
            *self matches Submission::Confirmed { receipt } ==> r == Some(receipt),
    {
        match self {
            Submission::Confirmed { receipt } => Some(*receipt),
            _ => None,
        }
    }

    /// The hash to look the transaction up by: that of the signed
    /// transaction before the node answered, the node's own after it
    /// took the transaction, and the receipt's once there is one.
    pub fn transaction_hash(&self) -> (r: Option<Hash32>)
        ensures
            r == (match *self {
                Submission::Built { .. } => None,
                Submission::Signed { signed, .. } => Some(signed.hash_value()),
                Submission::Broadcast { hash, .. } => Some(hash),
                Submission::Confirmed { receipt } => Some(receipt.transaction_hash),
                Submission::TimedOut { hash } => Some(hash),
                Submission::Reverted { hash } => Some(hash),
            }),
    {
        match self {
            Submission::Built { .. } => None,
            Submission::Signed { signed, .. } => Some(signed.hash()),
            Submission::Broadcast { hash, .. } => Some(*hash),
            Submission::Confirmed { receipt } => Some(receipt.transaction_hash),
            Submission::TimedOut { hash } => Some(*hash),
            Submission::Reverted { hash } => Some(*hash),
        }
    }

    /// How the submission ended: `Ok` with the receipt once confirmed,
    /// `TimedOut` or `BroadcastRejected` after those ends, and `None`
    /// while it is not over.
    pub fn outcome(&self) -> (r: Option<Result<Receipt, ErrorKind>>)
        ensures
            r == (match *self {
                Submission::Confirmed { receipt } => Some(Ok::<Receipt, ErrorKind>(receipt)),
                Submission::TimedOut { .. } => Some(Err::<Receipt, ErrorKind>(ErrorKind::TimedOut)),
                Submission::Reverted { .. } => Some(
                    Err::<Receipt, ErrorKind>(ErrorKind::BroadcastRejected),
                ),
                _ => None,
            }),
            r.is_some() == self.is_terminal(),
    {
        match self {
            Submission::Confirmed { receipt } => Some(Ok(*receipt)),
            Submission::TimedOut { .. } => Some(Err(ErrorKind::TimedOut)),
            Submission::Reverted { .. } => Some(Err(ErrorKind::BroadcastRejected)),
            _ => None,
        }
    }
}

/// A state that is over stays as it is, whatever is reported.
pub proof fn lemma_terminal_stays(state: Submission, event: Event)
    requires
        state.is_terminal(),
    ensures
        next_state(state, event) == state,
{
}

/// The first `k` events of a sequence are the first `k` of the sequence
/// without its last event, for every `k` below the length.
pub proof fn lemma_prefix_of_prefix(events: Seq<Event>, k: int)
    requires
        0 <= k < events.len(),
    ensures
        events.drop_last().take(k) == events.take(k),
{
    assert(events.drop_last().take(k) =~= events.take(k));
}

/// A submission is `Confirmed` only after it was `Broadcast`: where a run
/// from a state that is not yet `Confirmed` ends in `Confirmed`, it
/// was in `Broadcast` after some of its events.
pub proof fn lemma_confirmed_after_broadcast(start: Submission, events: Seq<Event>)
    requires
        !(start is Confirmed),
        run(start, events) is Confirmed,
    ensures
        exists|k: int| 0 <= k < events.len() && #[trigger] run(start, events.take(k)) is Broadcast,
    decreases events.len(),
{
    if events.len() > 0 {
        let before = run(start, events.drop_last());
        let last = events.len() - 1;
        if before is Confirmed {
            lemma_confirmed_after_broadcast(start, events.drop_last());
            let k = choose|k: int|
                0 <= k < events.drop_last().len() && #[trigger] run(
                    start,
                    events.drop_last().take(k),
                ) is Broadcast;
            lemma_prefix_of_prefix(events, k);
            assert(run(start, events.take(k)) is Broadcast);
        } else {
            assert(before is Broadcast);
            assert(events.take(last) =~= events.drop_last());
            assert(run(start, events.take(last)) is Broadcast);
        }
    }
}

/// A submission is `Broadcast` only after it was `Signed`: where a run
/// from a state that is not yet `Broadcast` ends in `Broadcast`, it was
/// in `Signed` after some of its events.
pub proof fn lemma_broadcast_after_signed(start: Submission, events: Seq<Event>)
    requires
        !(start is Broadcast),
        run(start, events) is Broadcast,
    ensures
        exists|k: int| 0 <= k < events.len() && #[trigger] run(start, events.take(k)) is Signed,
    decreases events.len(),
{
    if events.len() > 0 {
        let before = run(start, events.drop_last());
        let last = events.len() - 1;
        if before is Broadcast {
            lemma_broadcast_after_signed(start, events.drop_last());
            let k = choose|k: int|
                0 <= k < events.drop_last().len() && #[trigger] run(
                    start,
                    events.drop_last().take(k),
                ) is Signed;
            lemma_prefix_of_prefix(events, k);
            assert(run(start, events.take(k)) is Signed);
        } else {
            assert(before is Signed);
            assert(events.take(last) =~= events.drop_last());
            assert(run(start, events.take(last)) is Signed);
        }
    }
}

/// A submission is `Signed` only through a signature: where a run from
/// `Built` ends in `Signed`, the signed transaction is the one that some
/// `Signed` event of the run carried.
pub proof fn lemma_signed_by_event(start: Submission, events: Seq<Event>)
    requires
        start is Built,
        run(start, events) is Signed,
    ensures
        exists|k: int|
            0 <= k < events.len() && (#[trigger] events[k]) == (Event::Signed {
                signed: run(start, events)->Signed_signed,
            }),
    decreases events.len(),
{
    if events.len() > 0 {
        let before = run(start, events.drop_last());
        let last = events.len() - 1;
        if before is Signed {
            lemma_signed_by_event(start, events.drop_last());
            let k = choose|k: int|
                0 <= k < events.drop_last().len() && (#[trigger] events.drop_last()[k]) == (
                Event::Signed { signed: before->Signed_signed });
            assert(events[k] == events.drop_last()[k]);
        } else {
            assert(before is Built);
            assert(events[last] == events.last());
        }
    }
}

/// With no poll allowed, the wait ends in `TimedOut`, and with the hash
/// that the node answered the broadcast with: whatever a poll reports.
pub proof fn lemma_zero_attempts_time_out(signed: SignedTransaction, hash: Hash32, observed: Option<Receipt>)
    ensures
        run(
            Submission::Signed { signed, max_attempts: 0 },
            seq![Event::Accepted { hash }, Event::Polled { observed }],
        ) == (Submission::TimedOut { hash }),
{
    let start = Submission::Signed { signed, max_attempts: 0 };
    let events = seq![Event::Accepted { hash }, Event::Polled { observed }];
    assert(events.drop_last() =~= seq![Event::Accepted { hash }]);
    assert(events.drop_last().drop_last() =~= Seq::<Event>::empty());
    assert(run(start, events.drop_last().drop_last()) == start);
    assert(run(start, events.drop_last()) == (Submission::Broadcast { hash, attempts_left: 0 }));
}

} // verus!
