use vstd::prelude::*;

verus! {

// The work-stealing queue set: a worker's own LIFO deque, the stealer handle
// that taps it, and the shared FIFO injector.  All three handles sit behind
// one exclusively owned struct, so every operation goes through `&mut self`
// and the contents can be mirrored exactly in ghost state: `local` is the
// deque, oldest first; `global` is the injector, oldest first.  A third
// ghost field, `spin`, models the transient-contention budget of the
// lock-free structures: a steal is reissued only after another concurrent
// operation interfered, a bounded-spin condition, so consecutive retry
// outcomes cannot go on forever.

#[verifier::external_type_specification]
#[verifier::external_body]
#[verifier::reject_recursive_types(T)]
pub struct ExWorker<T>(crossbeam::deque::Worker<T>);

#[verifier::external_type_specification]
#[verifier::external_body]
#[verifier::reject_recursive_types(T)]
pub struct ExStealer<T>(crossbeam::deque::Stealer<T>);

#[verifier::external_type_specification]
#[verifier::external_body]
#[verifier::reject_recursive_types(T)]
pub struct ExInjector<T>(crossbeam::deque::Injector<T>);

/// The three outcomes of one steal attempt.
pub enum StealOutcome<T> {
    /// One item was taken from the source.
    Taken(T),
    /// The source held nothing; there is no point in retrying it.
    SawEmpty,
    /// A concurrent operation interfered; the attempt must be reissued.
    MustRetry,
}

#[verifier::reject_recursive_types(T)]
pub struct QueueSet<T> {
    pub worker: crossbeam::deque::Worker<T>,
    pub stealer: crossbeam::deque::Stealer<T>,
    pub injector: crossbeam::deque::Injector<T>,
    pub local: Ghost<Seq<T>>,
    pub global: Ghost<Seq<T>>,
    pub spin: Ghost<nat>,
}

impl<T> QueueSet<T> {
    /// Relies on crossbeam's `Worker::new_lifo`, `Worker::stealer` and
    /// `Injector::new`: a fresh deque and a fresh injector hold nothing, and
    /// the stealer taps this worker's deque.
    #[verifier::external_body]
    pub(crate) fn new() -> (r: QueueSet<T>)
        ensures
            r.local@ == Seq::<T>::empty(),
            r.global@ == Seq::<T>::empty(),
    {
        let worker = crossbeam::deque::Worker::new_lifo();
        let stealer = worker.stealer();
        QueueSet {
            worker,
            stealer,
            injector: crossbeam::deque::Injector::new(),
            local: Ghost(Seq::empty()),
            global: Ghost(Seq::empty()),
            spin: Ghost(0),
        }
    }

    /// Relies on `Worker::push`: the item joins the deque at its young end.
    #[verifier::external_body]
    pub(crate) fn push_local(&mut self, t: T)
        ensures
            final(self).local@ == old(self).local@.push(t),
            final(self).global@ == old(self).global@,
            final(self).spin@ == old(self).spin@,
    {
        self.worker.push(t)
    }

    /// Relies on `Worker::pop` on a LIFO deque: the youngest item comes back,
    /// or nothing when the deque is empty.  The struct owns every handle on
    /// the deque, so no other operation can run between the look and the
    /// take.
    #[verifier::external_body]
    pub(crate) fn pop_local(&mut self) -> (r: Option<T>)
        ensures
            old(self).local@.len() == 0 ==> r is None && final(self).local@ == old(self).local@,
            old(self).local@.len() > 0 ==> r == Some(old(self).local@.last()) && final(self).local@ == old(self).local@.drop_last(),
            final(self).global@ == old(self).global@,
            final(self).spin@ == old(self).spin@,
    {
        self.worker.pop()
    }

    /// Relies on `Injector::push`: the item joins the queue at its young end.
    #[verifier::external_body]
    pub(crate) fn push_global(&mut self, t: T)
        ensures
            final(self).global@ == old(self).global@.push(t),
            final(self).local@ == old(self).local@,
            final(self).spin@ == old(self).spin@,
    {
        self.injector.push(t)
    }

    /// Relies on `Stealer::steal`: a successful steal takes the oldest item
    /// of the deque, an empty outcome means the deque held nothing, and a
    /// retry changes nothing.  Exclusive ownership of the handles makes the
    /// empty outcome definite.
    #[verifier::external_body]
    pub(crate) fn steal_local(&mut self) -> (r: StealOutcome<T>)
        ensures
            final(self).global@ == old(self).global@,
            final(self).spin@ <= old(self).spin@,
            r is MustRetry ==> final(self).spin@ < old(self).spin@,
            match r {
                StealOutcome::Taken(t) => old(self).local@.len() > 0 && t == old(self).local@.first() && final(self).local@ == old(self).local@.drop_first(),
                StealOutcome::SawEmpty => old(self).local@.len() == 0 && final(self).local@ == old(self).local@,
                StealOutcome::MustRetry => final(self).local@ == old(self).local@,
            },
    {
        match self.stealer.steal() {
            crossbeam::deque::Steal::Success(t) => StealOutcome::Taken(t),
            crossbeam::deque::Steal::Empty => StealOutcome::SawEmpty,
            crossbeam::deque::Steal::Retry => StealOutcome::MustRetry,
        }
    }

    /// Relies on `Injector::steal`, as [`Self::steal_local`]: the oldest item
    /// of the injector, a definite empty outcome, or a retry.
    #[verifier::external_body]
    pub(crate) fn steal_global(&mut self) -> (r: StealOutcome<T>)
        ensures
            final(self).local@ == old(self).local@,
            final(self).spin@ <= old(self).spin@,
            r is MustRetry ==> final(self).spin@ < old(self).spin@,
            match r {
                StealOutcome::Taken(t) => old(self).global@.len() > 0 && t == old(self).global@.first() && final(self).global@ == old(self).global@.drop_first(),
                StealOutcome::SawEmpty => old(self).global@.len() == 0 && final(self).global@
                    == old(self).global@,
                StealOutcome::MustRetry => final(self).global@ == old(self).global@,
            },
    {
        match self.injector.steal() {
            crossbeam::deque::Steal::Success(t) => StealOutcome::Taken(t),
            crossbeam::deque::Steal::Empty => StealOutcome::SawEmpty,
            crossbeam::deque::Steal::Retry => StealOutcome::MustRetry,
        }
    }
}

/// Locate one task: pop locally first; only with an empty own deque run
/// whole steal passes — the worker's deque from its stolen end, then the
/// injector — until a pass takes an item or ends all-empty with no retry
/// outstanding.
pub fn find_task<T>(qs: &mut QueueSet<T>) -> (r: Option<T>)
    ensures
        match r {
            None => final(qs).local@ == old(qs).local@ && final(qs).global@ == old(qs).global@
                && final(qs).local@.len() == 0 && final(qs).global@.len() == 0,
            Some(t) => if old(qs).local@.len() > 0 {
                final(qs).global@ == old(qs).global@ && t == old(qs).local@.last() && final(qs).local@ == old(qs).local@.drop_last()
            } else {
                final(qs).local@ == old(qs).local@ && old(qs).global@.len() > 0 && t == old(qs).global@.first() && final(qs).global@ == old(qs).global@.drop_first()
            },
        },
{
    if let Some(t) = qs.pop_local() {
        return Some(t);
    }
    let ghost l0 = qs.local@;
    let ghost g0 = qs.global@;
    loop
        invariant
            qs.local@ == l0,
            qs.global@ == g0,
            l0 == old(qs).local@,
            g0 == old(qs).global@,
            l0.len() == 0,
        decreases qs.spin@,
    {
        let mut retry = false;
        match qs.steal_local() {
            StealOutcome::Taken(t) => {
                return Some(t);
            },
            StealOutcome::SawEmpty => {},
            StealOutcome::MustRetry => {
                retry = true;
            },
        }
        match qs.steal_global() {
            StealOutcome::Taken(t) => {
                return Some(t);
            },
            StealOutcome::SawEmpty => {
                if !retry {
                    return None;
                }
            },
            StealOutcome::MustRetry => {},
        }
    }
}

} // verus!
