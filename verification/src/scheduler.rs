use vstd::prelude::*;
use vstd::arithmetic::div_mod::{lemma_add_mod_noop, lemma_mod_self_0, lemma_small_mod};

use crate::aggregate::{Aggregator, inc64};
use crate::evaluate::eval_spec;
use crate::queues::{QueueSet, find_task};
use crate::task::{LazyTask, Task, TaskType, children_of, drawn_count, forest_of};

verus! {

// What a run owes: the order-independent merge of every task of the spec
// tree, stated as a ghost tally — the exact accumulator, and the exact
// per-kind counts as unbounded naturals.

pub ghost struct Tally {
    pub acc: u64,
    pub hash: nat,
    pub derive: nat,
    pub random: nat,
}

pub open spec fn tally_zero() -> Tally {
    Tally { acc: 0, hash: 0, derive: 0, random: 0 }
}

/// What one executed task contributes on its own.
pub open spec fn tally_one(kind: TaskType, output: u64) -> Tally {
    Tally {
        acc: output,
        hash: if kind == TaskType::Hash {
            1nat
        } else {
            0nat
        },
        derive: if kind == TaskType::Derive {
            1nat
        } else {
            0nat
        },
        random: if kind == TaskType::Random {
            1nat
        } else {
            0nat
        },
    }
}

pub open spec fn tally_join(a: Tally, b: Tally) -> Tally {
    Tally {
        acc: a.acc ^ b.acc,
        hash: a.hash + b.hash,
        derive: a.derive + b.derive,
        random: a.random + b.random,
    }
}

pub open spec fn task_tally_at(t: Task, fuel: nat) -> Tally
    decreases fuel, 0int,
{
    let own = tally_one(t.typ, eval_spec(t.typ, t.seed));
    if t.height == 0 || fuel == 0 {
        own
    } else {
        tally_join(own, level_tally(children_of(t), (fuel - 1) as nat))
    }
}

pub open spec fn level_tally(ts: Seq<Task>, fuel: nat) -> Tally
    decreases fuel, ts.len(),
{
    if ts.len() == 0 {
        tally_zero()
    } else {
        tally_join(task_tally_at(ts[0], fuel), level_tally(ts.drop_first(), fuel))
    }
}

/// What executing one task and everything it transitively spawns
/// contributes.
pub open spec fn task_tally(t: Task) -> Tally {
    task_tally_at(t, t.height as nat)
}

/// The joined contribution of a line of pending tasks and their subtrees.
pub open spec fn pending_tally(ts: Seq<Task>) -> Tally
    decreases ts.len(),
{
    if ts.len() == 0 {
        tally_zero()
    } else {
        tally_join(task_tally(ts[0]), pending_tally(ts.drop_first()))
    }
}

/// What a whole run from these parameters owes.
pub open spec fn forest_tally(seed: u64, starting_height: usize, max_children: usize) -> Tally {
    pending_tally(forest_of(seed, starting_height, max_children))
}

/// A count held in a 64-bit counter that wraps at its top.
pub open spec fn counted64(n: nat) -> u64 {
    (n % 0x1_0000_0000_0000_0000nat) as u64
}

proof fn lemma_counted64_inc(n: nat)
    ensures
        counted64(n + 1) == inc64(counted64(n)),
{
    let m = 0x1_0000_0000_0000_0000nat;
    lemma_add_mod_noop(n as int, 1int, m as int);
    if n % m == (m - 1) as nat {
        lemma_mod_self_0(m as int);
        lemma_small_mod((n % m) as nat, m);
    } else {
        lemma_small_mod((n % m) as nat, m);
        lemma_small_mod((n % m + 1) as nat, m);
    }
}

proof fn lemma_tally_join_zero(a: Tally)
    ensures
        tally_join(a, tally_zero()) == a,
        tally_join(tally_zero(), a) == a,
{
    let x = a.acc;
    assert(x ^ 0u64 == x) by (bit_vector);
    assert(0u64 ^ x == x) by (bit_vector);
}

proof fn lemma_tally_join_comm(a: Tally, b: Tally)
    ensures
        tally_join(a, b) == tally_join(b, a),
{
    let x = a.acc;
    let y = b.acc;
    assert(x ^ y == y ^ x) by (bit_vector);
}

proof fn lemma_tally_join_assoc(a: Tally, b: Tally, c: Tally)
    ensures
        tally_join(tally_join(a, b), c) == tally_join(a, tally_join(b, c)),
{
    let x = a.acc;
    let y = b.acc;
    let z = c.acc;
    assert((x ^ y) ^ z == x ^ (y ^ z)) by (bit_vector);
}

proof fn lemma_pending_tally_push(ts: Seq<Task>, t: Task)
    ensures
        pending_tally(ts.push(t)) == tally_join(pending_tally(ts), task_tally(t)),
    decreases ts.len(),
{
    if ts.len() == 0 {
        assert(ts.push(t)[0] == t);
        assert(ts.push(t).drop_first() =~= Seq::<Task>::empty());
        assert(pending_tally(Seq::<Task>::empty()) == tally_zero());
        assert(pending_tally(ts.push(t)) == tally_join(task_tally(t), tally_zero()));
        assert(pending_tally(ts) == tally_zero());
        lemma_tally_join_zero(task_tally(t));
        lemma_tally_join_comm(task_tally(t), tally_zero());
    } else {
        assert(ts.push(t)[0] == ts[0]);
        assert(ts.push(t).drop_first() =~= ts.drop_first().push(t));
        assert(pending_tally(ts.push(t)) == tally_join(
            task_tally(ts[0]),
            pending_tally(ts.drop_first().push(t)),
        ));
        assert(pending_tally(ts) == tally_join(task_tally(ts[0]), pending_tally(ts.drop_first())));
        lemma_pending_tally_push(ts.drop_first(), t);
        lemma_tally_join_assoc(
            task_tally(ts[0]),
            pending_tally(ts.drop_first()),
            task_tally(t),
        );
    }
}

proof fn lemma_pending_tally_last(ts: Seq<Task>)
    requires
        ts.len() > 0,
    ensures
        pending_tally(ts) == tally_join(pending_tally(ts.drop_last()), task_tally(ts.last())),
{
    assert(ts =~= ts.drop_last().push(ts.last()));
    lemma_pending_tally_push(ts.drop_last(), ts.last());
}

proof fn lemma_pending_tally_concat(a: Seq<Task>, b: Seq<Task>)
    ensures
        pending_tally(a + b) == tally_join(pending_tally(a), pending_tally(b)),
    decreases b.len(),
{
    if b.len() == 0 {
        assert(a + b =~= a);
        lemma_tally_join_zero(pending_tally(a));
    } else {
        assert(a + b =~= a.push(b.first()) + b.drop_first());
        lemma_pending_tally_concat(a.push(b.first()), b.drop_first());
        lemma_pending_tally_push(a, b.first());
        lemma_tally_join_assoc(
            pending_tally(a),
            task_tally(b.first()),
            pending_tally(b.drop_first()),
        );
        assert(b[0] == b.first());
    }
}

proof fn lemma_level_is_pending(ts: Seq<Task>, fuel: nat)
    requires
        forall|i: int| 0 <= i < ts.len() ==> (#[trigger] ts[i]).height as nat == fuel,
    ensures
        level_tally(ts, fuel) == pending_tally(ts),
    decreases ts.len(),
{
    if ts.len() > 0 {
        assert(ts[0].height as nat == fuel);
        lemma_level_is_pending(ts.drop_first(), fuel);
    }
}

/// Executing one task and keeping its children pending owes exactly what the
/// whole subtree owes.
pub proof fn lemma_task_tally_unfold(t: Task)
    ensures
        task_tally(t) == tally_join(
            tally_one(t.typ, eval_spec(t.typ, t.seed)),
            pending_tally(children_of(t)),
        ),
{
    let own = tally_one(t.typ, eval_spec(t.typ, t.seed));
    if t.height == 0 {
        lemma_tally_join_zero(own);
    } else {
        assert(forall|i: int|
            0 <= i < children_of(t).len() ==> (#[trigger] children_of(t)[i]).height as nat == (
            t.height - 1) as nat);
        lemma_level_is_pending(children_of(t), (t.height - 1) as nat);
    }
}

// A termination measure: a strict bound on how many tasks a subtree can still
// put through the queues.

pub open spec fn weight(height: nat, max: nat) -> nat
    decreases height,
{
    if height == 0 {
        1
    } else {
        1 + max * weight((height - 1) as nat, max)
    }
}

pub open spec fn task_weight(t: Task) -> nat {
    weight(t.height as nat, t.max_children as nat)
}

pub open spec fn pending_weight(ts: Seq<Task>) -> nat
    decreases ts.len(),
{
    if ts.len() == 0 {
        0
    } else {
        task_weight(ts[0]) + pending_weight(ts.drop_first())
    }
}

proof fn lemma_pending_weight_push(ts: Seq<Task>, t: Task)
    ensures
        pending_weight(ts.push(t)) == pending_weight(ts) + task_weight(t),
    decreases ts.len(),
{
    if ts.len() == 0 {
        assert(ts.push(t)[0] == t);
        assert(ts.push(t).drop_first() =~= Seq::<Task>::empty());
        assert(pending_weight(Seq::<Task>::empty()) == 0);
        assert(pending_weight(ts.push(t)) == task_weight(t) + 0);
        assert(pending_weight(ts) == 0);
    } else {
        assert(ts.push(t)[0] == ts[0]);
        assert(ts.push(t).drop_first() =~= ts.drop_first().push(t));
        assert(pending_weight(ts.push(t)) == task_weight(ts[0]) + pending_weight(
            ts.drop_first().push(t),
        ));
        assert(pending_weight(ts) == task_weight(ts[0]) + pending_weight(ts.drop_first()));
        lemma_pending_weight_push(ts.drop_first(), t);
    }
}

proof fn lemma_pending_weight_last(ts: Seq<Task>)
    requires
        ts.len() > 0,
    ensures
        pending_weight(ts) == pending_weight(ts.drop_last()) + task_weight(ts.last()),
{
    assert(ts =~= ts.drop_last().push(ts.last()));
    lemma_pending_weight_push(ts.drop_last(), ts.last());
}

proof fn lemma_pending_weight_concat(a: Seq<Task>, b: Seq<Task>)
    ensures
        pending_weight(a + b) == pending_weight(a) + pending_weight(b),
    decreases b.len(),
{
    if b.len() == 0 {
        assert(a + b =~= a);
    } else {
        assert(a + b =~= a.push(b.first()) + b.drop_first());
        lemma_pending_weight_concat(a.push(b.first()), b.drop_first());
        lemma_pending_weight_push(a, b.first());
        assert(b[0] == b.first());
    }
}

proof fn lemma_pending_weight_uniform(ts: Seq<Task>, w: nat)
    requires
        forall|i: int| 0 <= i < ts.len() ==> task_weight(#[trigger] ts[i]) == w,
    ensures
        pending_weight(ts) == ts.len() * w,
    decreases ts.len(),
{
    if ts.len() == 0 {
        assert(0int * w == 0) by (nonlinear_arith);
    } else {
        lemma_pending_weight_uniform(ts.drop_first(), w);
        assert(ts.len() * w == w + (ts.len() - 1) * w) by (nonlinear_arith);
    }
}

/// A task outweighs all the children it spawns, strictly: what the queues
/// gain by executing it is less than what they lose.
proof fn lemma_children_weight(t: Task)
    ensures
        pending_weight(children_of(t)) < task_weight(t),
{
    if t.height == 0 {
    } else {
        let cs = children_of(t);
        let w = weight((t.height - 1) as nat, t.max_children as nat);
        assert(forall|i: int| 0 <= i < cs.len() ==> task_weight(#[trigger] cs[i]) == w);
        lemma_pending_weight_uniform(cs, w);
        assert(cs.len() <= t.max_children);
        assert(cs.len() * w <= (t.max_children as nat) * w) by (nonlinear_arith)
            requires
                cs.len() <= t.max_children as nat,
        ;
    }
}

pub open spec fn opt_tally(o: Option<Task>) -> Tally {
    match o {
        Some(t) => task_tally(t),
        None => tally_zero(),
    }
}

pub open spec fn opt_weight(o: Option<Task>) -> nat {
    match o {
        Some(t) => task_weight(t),
        None => 0,
    }
}

/// Everything a part-way run still owes or has banked: what is merged, what
/// is in the worker's hand, and what waits in the queues.
pub open spec fn in_flight(done: Tally, next: Option<Task>, l: Seq<Task>, g: Seq<Task>) -> Tally {
    tally_join(done, tally_join(opt_tally(next), tally_join(pending_tally(l), pending_tally(g))))
}

proof fn lemma_find_transition(
    done: Tally,
    l0: Seq<Task>,
    g0: Seq<Task>,
    next: Option<Task>,
    l1: Seq<Task>,
    g1: Seq<Task>,
)
    requires
        match next {
            None => l1 == l0 && g1 == g0 && l1.len() == 0 && g1.len() == 0,
            Some(t) => g1 == g0 && l0.len() > 0 && t == l0.last() && l1 == l0.drop_last() || l1
                == l0 && g0.len() > 0 && t == g0.first() && g1 == g0.drop_first(),
        },
    ensures
        in_flight(done, next, l1, g1) == tally_join(
            done,
            tally_join(pending_tally(l0), pending_tally(g0)),
        ),
        opt_weight(next) + pending_weight(l1) + pending_weight(g1) == pending_weight(l0)
            + pending_weight(g0),
{
    match next {
        None => {
            lemma_tally_join_zero(tally_join(pending_tally(l0), pending_tally(g0)));
            lemma_tally_join_comm(
                opt_tally(next),
                tally_join(pending_tally(l0), pending_tally(g0)),
            );
        },
        Some(t) => {
            let s = task_tally(t);
            if g1 == g0 && l0.len() > 0 && t == l0.last() && l1 == l0.drop_last() {
                lemma_pending_tally_last(l0);
                lemma_pending_weight_last(l0);
                lemma_tally_join_assoc(s, pending_tally(l1), pending_tally(g1));
                lemma_tally_join_comm(s, pending_tally(l1));
            } else {
                assert(g0[0] == g0.first());
                assert(pending_tally(g0) == tally_join(s, pending_tally(g1)));
                assert(pending_weight(g0) == task_weight(t) + pending_weight(g1));
                lemma_tally_join_assoc(s, pending_tally(l1), pending_tally(g1));
                lemma_tally_join_comm(s, pending_tally(l1));
                lemma_tally_join_assoc(pending_tally(l1), s, pending_tally(g1));
            }
        },
    }
}

proof fn lemma_requeue_shuffle(d: Tally, u: Tally, a: Tally, c: Tally, g: Tally)
    ensures
        tally_join(tally_join(d, u), tally_join(tally_join(a, c), g)) == tally_join(
            d,
            tally_join(tally_join(u, c), tally_join(a, g)),
        ),
{
    let x0 = d.acc;
    let x1 = u.acc;
    let x2 = a.acc;
    let x3 = c.acc;
    let x4 = g.acc;
    assert((x0 ^ x1) ^ ((x2 ^ x3) ^ x4) == x0 ^ ((x1 ^ x3) ^ (x2 ^ x4))) by (bit_vector);
}

/// What a run's summary must be for given parameters: the forest's exact
/// accumulator, and its exact per-kind counts as the 64-bit counters hold
/// them.
pub open spec fn eager_result(
    r: Aggregator,
    seed: u64,
    starting_height: usize,
    max_children: usize,
) -> bool {
    &&& r.acc == forest_tally(seed, starting_height, max_children).acc
    &&& r.hash_count == counted64(forest_tally(seed, starting_height, max_children).hash)
    &&& r.derive_count == counted64(forest_tally(seed, starting_height, max_children).derive)
    &&& r.random_count == counted64(forest_tally(seed, starting_height, max_children).random)
}

/// Run the forest drawn from these parameters to exhaustion on one worker's
/// queue set under the eager strategy.  The result is the forest's tally, a
/// pure function of the parameters: the same tuple on every run, however the
/// steals and retries fall.
pub fn run_eager(seed: u64, starting_height: usize, max_children: usize) -> (r: Aggregator)
    ensures
        eager_result(r, seed, starting_height, max_children),
{
    let ghost total = forest_tally(seed, starting_height, max_children);
    let mut qs: QueueSet<Task> = QueueSet::new();
    let roots = Task::generate_initial_eager(seed, starting_height, max_children);
    let n = roots.len();
    proof {
        assert(roots@.take(0) =~= Seq::<Task>::empty());
    }
    let mut i: usize = 0;
    while i < n
        invariant
            i <= n,
            n == roots@.len(),
            roots@ == forest_of(seed, starting_height, max_children),
            qs.local@.len() == 0,
            qs.global@ == roots@.take(i as int),
        decreases n - i,
    {
        qs.push_global(roots[i]);
        proof {
            assert(roots@.take(i as int).push(roots@[i as int]) =~= roots@.take(i + 1));
        }
        i += 1;
    }
    proof {
        assert(roots@.take(n as int) =~= roots@);
    }
    let mut agg = Aggregator::new();
    let ghost mut done = tally_zero();
    let ghost lpre = qs.local@;
    let ghost gpre = qs.global@;
    let mut next = find_task(&mut qs);
    proof {
        lemma_small_mod(0nat, 0x1_0000_0000_0000_0000nat);
        lemma_find_transition(done, lpre, gpre, next, qs.local@, qs.global@);
        lemma_tally_join_zero(pending_tally(gpre));
        lemma_tally_join_zero(tally_join(pending_tally(lpre), pending_tally(gpre)));
        lemma_tally_join_zero(
            tally_join(
                opt_tally(next),
                tally_join(pending_tally(qs.local@), pending_tally(qs.global@)),
            ),
        );
    }
    while next.is_some()
        invariant
            agg.acc == done.acc,
            agg.hash_count == counted64(done.hash),
            agg.derive_count == counted64(done.derive),
            agg.random_count == counted64(done.random),
            in_flight(done, next, qs.local@, qs.global@) == total,
            next is None ==> qs.local@.len() == 0 && qs.global@.len() == 0,
        decreases opt_weight(next) + pending_weight(qs.local@) + pending_weight(qs.global@),
    {
        let task = next.unwrap();
        let (output, children) = task.execute_eager();
        let ghost done0 = done;
        agg.contribute(output, task.typ);
        proof {
            lemma_counted64_inc(done.hash);
            lemma_counted64_inc(done.derive);
            lemma_counted64_inc(done.random);
            done = tally_join(done, tally_one(task.typ, eval_spec(task.typ, task.seed)));
        }
        let ghost l1 = qs.local@;
        let ghost g1 = qs.global@;
        let m = children.len();
        let mut j: usize = 0;
        while j < m
            invariant
                j <= m,
                m == children@.len(),
                qs.local@ == l1 + children@.take(j as int),
                qs.global@ == g1,
            decreases m - j,
        {
            qs.push_local(children[j]);
            proof {
                assert((l1 + children@.take(j as int)).push(children@[j as int]) =~= l1
                    + children@.take(j + 1));
            }
            j += 1;
        }
        proof {
            assert(children@.take(m as int) =~= children@);
        }
        next = find_task(&mut qs);
        proof {
            lemma_task_tally_unfold(task);
            lemma_pending_tally_concat(l1, children@);
            lemma_pending_weight_concat(l1, children@);
            lemma_children_weight(task);
            lemma_find_transition(done, l1 + children@, g1, next, qs.local@, qs.global@);
            lemma_requeue_shuffle(
                done0,
                tally_one(task.typ, eval_spec(task.typ, task.seed)),
                pending_tally(l1),
                pending_tally(children@),
                pending_tally(g1),
            );
        }
    }
    proof {
        lemma_tally_join_zero(tally_zero());
        lemma_tally_join_zero(tally_join(tally_zero(), tally_zero()));
        lemma_tally_join_zero(done);
    }
    agg
}


/// Determinism of the eager strategy: any two summaries that runs with the
/// same seed, starting height and child bound may return are the same tuple,
/// whatever order the queues hand the tasks out in.
pub proof fn lemma_eager_deterministic(
    a: Aggregator,
    b: Aggregator,
    seed: u64,
    starting_height: usize,
    max_children: usize,
)
    requires
        eager_result(a, seed, starting_height, max_children),
        eager_result(b, seed, starting_height, max_children),
    ensures
        a.acc == b.acc,
        a.hash_count == b.hash_count,
        a.derive_count == b.derive_count,
        a.random_count == b.random_count,
{
}

/// How many tasks a tally has seen in all.
pub open spec fn tally_total(s: Tally) -> nat {
    s.hash + s.derive + s.random
}

proof fn lemma_leaf_task_tally(t: Task)
    requires
        t.height == 0 || t.max_children == 0,
    ensures
        tally_total(task_tally(t)) == 1,
{
    lemma_task_tally_unfold(t);
    assert(children_of(t) =~= Seq::<Task>::empty());
    assert(pending_tally(children_of(t)) == tally_zero());
}

proof fn lemma_flat_pending(ts: Seq<Task>)
    requires
        forall|i: int|
            0 <= i < ts.len() ==> (#[trigger] ts[i]).height == 0 || ts[i].max_children == 0,
    ensures
        tally_total(pending_tally(ts)) == ts.len(),
    decreases ts.len(),
{
    if ts.len() > 0 {
        lemma_leaf_task_tally(ts[0]);
        lemma_flat_pending(ts.drop_first());
    }
}

/// A flat run: from height zero every root is a leaf, and under a zero child
/// bound every task is one; either way a run executes exactly one task per
/// root, so the total count equals the forest's size.
pub proof fn lemma_flat_forest(seed: u64, starting_height: usize, max_children: usize)
    requires
        starting_height == 0 || max_children == 0,
    ensures
        tally_total(forest_tally(seed, starting_height, max_children)) == forest_of(
            seed,
            starting_height,
            max_children,
        ).len(),
{
    lemma_flat_pending(forest_of(seed, starting_height, max_children));
}


// The lazy strategy.  Sibling nodes share one generator, so which values a
// draw gets depends on the order the holders reach it: the summary is not in
// general a function of the parameters (the eager strategy is the verified
// deterministic one).  What every run guarantees besides termination is the
// flat case: from height zero, or under a zero child bound, every node is
// spent after one draw, and exactly the seed's drawn forest size of tasks is
// executed and counted.

/// A node past expansion: every task it yields is a leaf.
pub open spec fn lazy_flat(n: LazyTask) -> bool {
    n.height == 0 || n.max_children == 0
}

/// A strict bound on how many tasks a deferred node can still put through
/// the queues.
pub open spec fn lazy_weight(n: LazyTask) -> nat {
    (n.count as nat) * weight(n.height as nat, n.max_children as nat)
}

pub open spec fn lazy_pending_weight(ts: Seq<LazyTask>) -> nat
    decreases ts.len(),
{
    if ts.len() == 0 {
        0
    } else {
        lazy_weight(ts[0]) + lazy_pending_weight(ts.drop_first())
    }
}

pub open spec fn lazy_opt_weight(o: Option<LazyTask>) -> nat {
    match o {
        Some(n) => lazy_weight(n),
        None => 0,
    }
}

/// How many tasks a line of deferred nodes directly still holds.
pub open spec fn lazy_pending_count(ts: Seq<LazyTask>) -> nat
    decreases ts.len(),
{
    if ts.len() == 0 {
        0
    } else {
        (ts[0].count as nat) + lazy_pending_count(ts.drop_first())
    }
}

pub open spec fn lazy_opt_count(o: Option<LazyTask>) -> nat {
    match o {
        Some(n) => n.count as nat,
        None => 0,
    }
}

proof fn lemma_lazy_push(ts: Seq<LazyTask>, n: LazyTask)
    ensures
        lazy_pending_weight(ts.push(n)) == lazy_pending_weight(ts) + lazy_weight(n),
        lazy_pending_count(ts.push(n)) == lazy_pending_count(ts) + n.count as nat,
    decreases ts.len(),
{
    if ts.len() == 0 {
        assert(ts.push(n)[0] == n);
        assert(ts.push(n).drop_first() =~= Seq::<LazyTask>::empty());
        assert(lazy_pending_weight(Seq::<LazyTask>::empty()) == 0);
        assert(lazy_pending_count(Seq::<LazyTask>::empty()) == 0);
        assert(lazy_pending_weight(ts) == 0);
        assert(lazy_pending_count(ts) == 0);
    } else {
        assert(ts.push(n)[0] == ts[0]);
        assert(ts.push(n).drop_first() =~= ts.drop_first().push(n));
        assert(lazy_pending_weight(ts.push(n)) == lazy_weight(ts[0]) + lazy_pending_weight(
            ts.drop_first().push(n),
        ));
        assert(lazy_pending_count(ts.push(n)) == ts[0].count as nat + lazy_pending_count(
            ts.drop_first().push(n),
        ));
        assert(lazy_pending_weight(ts) == lazy_weight(ts[0]) + lazy_pending_weight(
            ts.drop_first(),
        ));
        assert(lazy_pending_count(ts) == ts[0].count as nat + lazy_pending_count(ts.drop_first()));
        lemma_lazy_push(ts.drop_first(), n);
    }
}

proof fn lemma_lazy_find_measures(
    l0: Seq<LazyTask>,
    g0: Seq<LazyTask>,
    next: Option<LazyTask>,
    l1: Seq<LazyTask>,
    g1: Seq<LazyTask>,
)
    requires
        match next {
            None => l1 == l0 && g1 == g0 && l1.len() == 0 && g1.len() == 0,
            Some(t) => g1 == g0 && l0.len() > 0 && t == l0.last() && l1 == l0.drop_last() || l1
                == l0 && g0.len() > 0 && t == g0.first() && g1 == g0.drop_first(),
        },
    ensures
        lazy_opt_weight(next) + lazy_pending_weight(l1) + lazy_pending_weight(g1)
            == lazy_pending_weight(l0) + lazy_pending_weight(g0),
        lazy_opt_count(next) + lazy_pending_count(l1) + lazy_pending_count(g1)
            == lazy_pending_count(l0) + lazy_pending_count(g0),
{
    match next {
        None => {},
        Some(t) => {
            if g1 == g0 && l0.len() > 0 && t == l0.last() && l1 == l0.drop_last() {
                assert(l0 =~= l0.drop_last().push(l0.last()));
                lemma_lazy_push(l0.drop_last(), l0.last());
            } else {
                assert(g0[0] == g0.first());
                assert(lazy_pending_weight(g0) == lazy_weight(t) + lazy_pending_weight(g1));
                assert(lazy_pending_count(g0) == t.count as nat + lazy_pending_count(g1));
            }
        },
    }
}

proof fn lemma_lazy_count_ones(ts: Seq<LazyTask>)
    requires
        forall|k: int| 0 <= k < ts.len() ==> (#[trigger] ts[k]).count == 1,
    ensures
        lazy_pending_count(ts) == ts.len(),
    decreases ts.len(),
{
    if ts.len() > 0 {
        lemma_lazy_count_ones(ts.drop_first());
    }
}

pub open spec fn lazy_live(o: Option<LazyTask>) -> bool {
    match o {
        Some(n) => n.count >= 1,
        None => true,
    }
}

pub open spec fn lazy_opt_flat(o: Option<LazyTask>) -> bool {
    match o {
        Some(n) => lazy_flat(n),
        None => true,
    }
}

/// Run a lazy forest to exhaustion on one worker's queue set: locate a
/// deferred node, draw one task from it, put the node back while it has more,
/// execute the task, defer its children, and merge the output.  Because the
/// roots share one generator, the accumulator depends on the order of the
/// draws; the counts of a flat run do not, and are pinned: from height zero,
/// or under a zero child bound, exactly the seed's drawn forest size of
/// tasks is executed.
pub fn run_lazy(seed: u64, starting_height: usize, max_children: usize) -> (r: Aggregator)
    ensures
        starting_height == 0 || max_children == 0 ==> r.hash_count as nat + r.derive_count as nat
            + r.random_count as nat == drawn_count(seed, 64),
{
    let mut qs: QueueSet<LazyTask> = QueueSet::new();
    Task::generate_initial(&mut qs, seed, starting_height, max_children);
    let mut agg = Aggregator::new();
    let ghost mut hc: nat = 0;
    let ghost mut dc: nat = 0;
    let ghost mut rc: nat = 0;
    proof {
        lemma_small_mod(0nat, 0x1_0000_0000_0000_0000nat);
        lemma_lazy_count_ones(qs.global@);
    }
    let ghost lpre = qs.local@;
    let ghost gpre = qs.global@;
    let mut next = find_task(&mut qs);
    proof {
        lemma_lazy_find_measures(lpre, gpre, next, qs.local@, qs.global@);
    }
    while next.is_some()
        invariant
            agg.hash_count == counted64(hc),
            agg.derive_count == counted64(dc),
            agg.random_count == counted64(rc),
            lazy_live(next),
            next is None ==> qs.local@.len() == 0 && qs.global@.len() == 0,
            forall|k: int| 0 <= k < qs.local@.len() ==> (#[trigger] qs.local@[k]).count >= 1,
            forall|k: int| 0 <= k < qs.global@.len() ==> (#[trigger] qs.global@[k]).count >= 1,
            starting_height == 0 || max_children == 0 ==> forall|k: int|
                0 <= k < qs.local@.len() ==> lazy_flat(#[trigger] qs.local@[k]),
            starting_height == 0 || max_children == 0 ==> forall|k: int|
                0 <= k < qs.global@.len() ==> lazy_flat(#[trigger] qs.global@[k]),
            starting_height == 0 || max_children == 0 ==> lazy_opt_flat(next),
            starting_height == 0 || max_children == 0 ==> hc + dc + rc + lazy_opt_count(next)
                + lazy_pending_count(qs.local@) + lazy_pending_count(qs.global@) == drawn_count(
                seed,
                64,
            ),
        decreases lazy_opt_weight(next) + lazy_pending_weight(qs.local@) + lazy_pending_weight(
            qs.global@,
        ),
    {
        let mut node = next.unwrap();
        let ghost w = weight(node.height as nat, node.max_children as nat);
        let ghost c0 = node.count as nat;
        let task = node.generate_task();
        if node.count > 0 {
            let ghost l1 = qs.local@;
            qs.push_local(node);
            proof {
                lemma_lazy_push(l1, qs.local@.last());
                assert((c0 - 1) * w <= c0 * w - w) by (nonlinear_arith)
                    requires
                        c0 >= 1,
                        w >= 0,
                ;
            }
        } else {
            proof {
                assert(c0 * w >= 1 * w) by (nonlinear_arith)
                    requires
                        c0 >= 1,
                        w >= 0,
                ;
            }
        }
        let (output, child_node) = task.execute();
        agg.contribute(output, task.typ);
        proof {
            lemma_counted64_inc(hc);
            lemma_counted64_inc(dc);
            lemma_counted64_inc(rc);
            match task.typ {
                TaskType::Hash => {
                    hc = hc + 1;
                },
                TaskType::Derive => {
                    dc = dc + 1;
                },
                TaskType::Random => {
                    rc = rc + 1;
                },
            }
        }
        if child_node.count > 0 {
            proof {
                assert(task.height > 0);
                if starting_height == 0 || max_children == 0 {
                    assert(task.max_children == 0);
                    assert(child_node.count == drawn_count(task.seed ^ output, 0));
                    assert(false);
                }
                assert((child_node.count as nat) * weight(
                    child_node.height as nat,
                    child_node.max_children as nat,
                ) <= (task.max_children as nat) * weight(
                    (task.height - 1) as nat,
                    task.max_children as nat,
                )) by (nonlinear_arith)
                    requires
                        child_node.count <= task.max_children,
                        child_node.height == task.height - 1,
                        child_node.max_children == task.max_children,
                        weight(child_node.height as nat, child_node.max_children as nat) >= 0,
                ;
            }
            let ghost l2 = qs.local@;
            qs.push_local(child_node);
            proof {
                lemma_lazy_push(l2, qs.local@.last());
            }
        }
        let ghost l3 = qs.local@;
        let ghost g3 = qs.global@;
        next = find_task(&mut qs);
        proof {
            lemma_lazy_find_measures(l3, g3, next, qs.local@, qs.global@);
        }
    }
    proof {
        if starting_height == 0 || max_children == 0 {
            assert(lazy_pending_count(qs.local@) == 0);
            assert(lazy_pending_count(qs.global@) == 0);
            assert(drawn_count(seed, 64) <= 64);
            lemma_small_mod(hc, 0x1_0000_0000_0000_0000nat);
            lemma_small_mod(dc, 0x1_0000_0000_0000_0000nat);
            lemma_small_mod(rc, 0x1_0000_0000_0000_0000nat);
        }
    }
    agg
}

} // verus!
