//! Bus steps, and the session that performs a plan of them.
//!
//! A plan is a `Vec<Step>`. A [`Session`] hands its steps out one at a time;
//! whoever owns the bus performs each and reports the outcome back. The first
//! failed write ends the session with that error, and nothing more is issued.
use vstd::prelude::*;

verus! {

/// What a step does on the bus, as a mathematical value.
pub enum BusOp {
    /// One addressed write transaction carrying these bytes.
    Write(u8, Seq<u8>),
    /// A blocking wait of this many milliseconds.
    Delay(u32),
}

/// One step of a plan.
#[derive(Debug, PartialEq, Eq)]
pub enum Step {
    /// Write `bytes` to the device at `address` in one transaction.
    Write { address: u8, bytes: Vec<u8> },
    /// Wait for `ms` milliseconds.
    DelayMs { ms: u32 },
}

impl View for Step {
    type V = BusOp;

    open spec fn view(&self) -> BusOp {
        match self {
            Step::Write { address, bytes } => BusOp::Write(*address, bytes@),
            Step::DelayMs { ms } => BusOp::Delay(*ms),
        }
    }
}

/// The bus traffic a plan describes.
pub open spec fn ops_of(plan: Seq<Step>) -> Seq<BusOp> {
    plan.map_values(|s: Step| s@)
}

/// Appending a step to a plan appends its operation to the traffic.
pub proof fn lemma_ops_of_push(plan: Seq<Step>, s: Step)
    ensures
        ops_of(plan.push(s)) == ops_of(plan).push(s@),
{
    assert(ops_of(plan.push(s)) =~= ops_of(plan).push(s@));
}

/// What a session asks for next, as a mathematical value.
pub enum Reply<E> {
    /// Perform this operation and report its outcome.
    Perform(BusOp),
    /// The operation is over, with this result.
    Finish(Result<(), E>),
}

/// What a session asks for next.
#[derive(Debug)]
pub enum Action<E> {
    /// Perform this step on the bus and pass its outcome to the next call.
    Perform(Step),
    /// The operation is over, with this result.
    Finish(Result<(), E>),
}

impl<E> View for Action<E> {
    type V = Reply<E>;

    open spec fn view(&self) -> Reply<E> {
        match self {
            Action::Perform(s) => Reply::Perform(s@),
            Action::Finish(r) => Reply::Finish(*r),
        }
    }
}

/// One move of a session: from the operations still pending and the outcome
/// of the step just performed (`Ok` at the start and after a wait), to the
/// operations left and the reply.
///
/// A failure ends the session with that error and drops what was pending.
pub open spec fn advance<E>(pending: Seq<BusOp>, outcome: Result<(), E>) -> (Seq<BusOp>, Reply<E>) {
    match outcome {
        Result::Err(e) => (Seq::empty(), Reply::Finish(Result::Err(e))),
        Result::Ok(()) => if pending.len() == 0 {
            (pending, Reply::Finish(Result::Ok(())))
        } else {
            (pending.drop_first(), Reply::Perform(pending[0]))
        },
    }
}

/// A plan being performed.
pub struct Session {
    pending: Vec<Step>,
}

impl View for Session {
    type V = Seq<BusOp>;

    /// The operations not yet handed out.
    closed spec fn view(&self) -> Seq<BusOp> {
        ops_of(self.pending@)
    }
}

impl Session {
    /// A session that will perform `plan` from its first step.
    pub fn new(plan: Vec<Step>) -> (r: Session)
        ensures
            r@ == ops_of(plan@),
    {
        Session { pending: plan }
    }

    /// Takes the outcome of the step last handed out (`Ok(())` before the
    /// first one and after a wait) and says what to do next.
    pub fn next<E>(&mut self, outcome: Result<(), E>) -> (r: Action<E>)
        ensures
            (final(self)@, r@) == advance(old(self)@, outcome),
    {
        match outcome {
            Result::Err(e) => {
                self.pending = Vec::new();
                assert(self@ =~= Seq::<BusOp>::empty());
                Action::Finish(Result::Err(e))
            },
            Result::Ok(()) => {
                if self.pending.len() == 0 {
                    Action::Finish(Result::Ok(()))
                } else {
                    let step = self.pending.remove(0);
                    assert(self@ =~= old(self)@.drop_first());
                    Action::Perform(step)
                }
            },
        }
    }
}

/// The replies a session starting with `pending` gives to the outcomes fed to
/// it, one reply per outcome.
pub open spec fn replies<E>(pending: Seq<BusOp>, outcomes: Seq<Result<(), E>>) -> Seq<Reply<E>>
    decreases outcomes.len(),
{
    if outcomes.len() == 0 {
        Seq::empty()
    } else {
        let (rest, r) = advance(pending, outcomes[0]);
        seq![r] + replies(rest, outcomes.drop_first())
    }
}

/// A session with nothing pending only ever finishes.
proof fn lemma_drained_only_finishes<E>(outcomes: Seq<Result<(), E>>)
    ensures
        replies(Seq::<BusOp>::empty(), outcomes).len() == outcomes.len(),
        forall|i: int|
            0 <= i < outcomes.len() ==> #[trigger] replies(Seq::<BusOp>::empty(), outcomes)[i] is Finish,
    decreases outcomes.len(),
{
    if outcomes.len() > 0 {
        lemma_drained_only_finishes(outcomes.drop_first());
        let r = replies(Seq::<BusOp>::empty(), outcomes);
        let tail = replies(Seq::<BusOp>::empty(), outcomes.drop_first());
        assert forall|i: int| 0 <= i < outcomes.len() implies #[trigger] r[i] is Finish by {
            if i > 0 {
                assert(r[i] == tail[i - 1]);
            }
        }
    }
}

/// When every step succeeds, a session hands out its pending operations in
/// order, one per call, and then finishes with `Ok(())`.
pub proof fn lemma_success_performs_plan<E>(pending: Seq<BusOp>)
    ensures
        replies(pending, Seq::new(pending.len() + 1, |_i: int| Result::<(), E>::Ok(())))
            == pending.map_values(|op: BusOp| Reply::<E>::Perform(op)).push(
            Reply::<E>::Finish(Result::Ok(())),
        ),
    decreases pending.len(),
{
    let oks = Seq::new(pending.len() + 1, |_i: int| Result::<(), E>::Ok(()));
    if pending.len() == 0 {
        assert(oks.drop_first() =~= Seq::<Result<(), E>>::empty());
        assert(replies(pending, oks.drop_first()) =~= Seq::<Reply<E>>::empty());
        assert(replies(pending, oks) =~= seq![Reply::<E>::Finish(Result::Ok(()))]);
        assert(pending.map_values(|op: BusOp| Reply::<E>::Perform(op)).push(
            Reply::<E>::Finish(Result::Ok(())),
        ) =~= seq![Reply::<E>::Finish(Result::Ok(()))]);
    } else {
        let rest = pending.drop_first();
        lemma_success_performs_plan::<E>(rest);
        assert(oks.drop_first() =~= Seq::new(rest.len() + 1, |_i: int| Result::<(), E>::Ok(())));
        assert(replies(pending, oks) =~= pending.map_values(|op: BusOp| Reply::<E>::Perform(op)).push(
            Reply::<E>::Finish(Result::Ok(())),
        ));
    }
}

/// A failed write ends the operation at once with that error, and the session
/// never hands out another step, whatever outcomes it is given afterwards.
pub proof fn lemma_failure_stops_session<E>(pending: Seq<BusOp>, e: E, later: Seq<Result<(), E>>)
    ensures
        ({
            let r = replies(pending, seq![Result::<(), E>::Err(e)] + later);
            &&& r.len() == later.len() + 1
            &&& r[0] == Reply::<E>::Finish(Result::Err(e))
            &&& forall|i: int| 1 <= i <= later.len() ==> #[trigger] r[i] is Finish
        }),
{
    let outcomes = seq![Result::<(), E>::Err(e)] + later;
    assert(outcomes.drop_first() =~= later);
    lemma_drained_only_finishes(later);
    let r = replies(pending, outcomes);
    let tail = replies(Seq::<BusOp>::empty(), later);
    assert forall|i: int| 1 <= i <= later.len() implies #[trigger] r[i] is Finish by {
        assert(r[i] == tail[i - 1]);
    }
}

} // verus!
