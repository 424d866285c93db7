use vstd::prelude::*;

use crate::evaluate::{eval_spec, evaluate};
use crate::queues::QueueSet;
use crate::rng::{
    DetRng, SharedRng, range_draw, req_range, req_range_incl, req_word, word_draw,
};

verus! {

pub type TaskResult = (u64, LazyTask);

#[derive(Copy, Clone, Debug, PartialEq, Eq, Hash, Structural)]
pub enum TaskType {
    Hash,
    Derive,
    Random,
}

/// One concrete, immediately executable unit of work.
#[derive(Copy, Clone, Debug, PartialEq, Eq, Structural)]
pub struct Task {
    pub typ: TaskType,
    pub seed: u64,
    pub height: usize,
    pub max_children: usize,
}

/// The kind drawn as an index into `[Hash, Derive, Random]`.
pub open spec fn kind_of(k: u64) -> TaskType {
    if k == 0 {
        TaskType::Hash
    } else if k == 1 {
        TaskType::Derive
    } else {
        TaskType::Random
    }
}

/// The requests a generation stream has served once the count and the first
/// `i` (kind, seed) pairs are drawn: one inclusive count draw from
/// `0..=bound`, then a kind draw from `0..3` and a seed draw per task.
pub open spec fn gen_hist(bound: int, i: nat) -> Seq<(int, int, int)>
    decreases i,
{
    if i == 0 {
        seq![req_range_incl(0, bound)]
    } else {
        gen_hist(bound, (i - 1) as nat) + seq![req_range(0, 3), req_word()]
    }
}

/// How many tasks a stream seeded with `cs` produces under the bound.  The
/// draw lies in `0..=bound`; the bound is kept on the model as well.
pub open spec fn drawn_count(cs: u64, bound: usize) -> nat {
    let raw = range_draw(cs, Seq::empty(), 0, bound as int, true);
    if raw <= bound {
        raw as nat
    } else {
        bound as nat
    }
}

pub open spec fn drawn_kind(cs: u64, bound: int, i: nat) -> TaskType {
    kind_of(range_draw(cs, gen_hist(bound, i), 0, 3, false))
}

pub open spec fn drawn_seed(cs: u64, bound: int, i: nat) -> u64 {
    word_draw(cs, gen_hist(bound, i).push(req_range(0, 3)))
}

/// The tasks a generation stream seeded with `cs` produces: a drawn count of
/// them, each with a drawn kind and seed, all at the given height and child
/// bound.
pub open spec fn brood(cs: u64, bound: usize, height: usize, max: usize) -> Seq<Task> {
    Seq::new(
        drawn_count(cs, bound),
        |i: int|
            Task {
                typ: drawn_kind(cs, bound as int, i as nat),
                seed: drawn_seed(cs, bound as int, i as nat),
                height: height,
                max_children: max,
            },
    )
}

/// The children a task's execution spawns: none for a leaf; otherwise a brood
/// reseeded from `seed XOR output`, one level down, under the task's own
/// child bound.
pub open spec fn children_of(t: Task) -> Seq<Task> {
    if t.height == 0 {
        Seq::empty()
    } else {
        brood(
            t.seed ^ eval_spec(t.typ, t.seed),
            t.max_children,
            (t.height - 1) as usize,
            t.max_children,
        )
    }
}

/// The initial forest: a brood drawn from the global seed, at most 64 roots,
/// each at the starting height.
pub open spec fn forest_of(seed: u64, starting_height: usize, max_children: usize) -> Seq<Task> {
    brood(seed, 64, starting_height, max_children)
}

/// Materialize the whole brood of one generation stream.
fn gen_brood(cs: u64, bound: usize, height: usize, max: usize) -> (r: Vec<Task>)
    ensures
        r@ == brood(cs, bound, height, max),
{
    let mut rng = DetRng::new(cs);
    let n = rng.range_incl(0, bound);
    let mut out: Vec<Task> = Vec::new();
    proof {
        assert(Seq::<(int, int, int)>::empty().push(req_range_incl(0, bound as int)) =~= gen_hist(
            bound as int,
            0,
        ));
    }
    let mut i: usize = 0;
    while i < n
        invariant
            i <= n,
            n as nat == drawn_count(cs, bound),
            rng.seed@ == cs,
            rng.hist@ == gen_hist(bound as int, i as nat),
            out@ =~= brood(cs, bound, height, max).take(i as int),
        decreases n - i,
    {
        let k = rng.range(0, 3);
        let s = rng.word();
        let typ = if k == 0 {
            TaskType::Hash
        } else if k == 1 {
            TaskType::Derive
        } else {
            TaskType::Random
        };
        out.push(Task { typ, seed: s, height, max_children: max });
        proof {
            assert(rng.hist@ =~= gen_hist(bound as int, (i + 1) as nat));
            assert(out@ =~= brood(cs, bound, height, max).take(i + 1));
        }
        i += 1;
    }
    proof {
        assert(out@ =~= brood(cs, bound, height, max));
    }
    out
}

impl Task {
    /// Execute the task under the eager strategy: its output, and all its
    /// children materialized at once.
    pub fn execute_eager(&self) -> (r: (u64, Vec<Task>))
        ensures
            r.0 == eval_spec(self.typ, self.seed),
            r.1@ == children_of(*self),
    {
        let output = evaluate(self.typ, self.seed);
        let children = if self.height == 0 {
            Vec::new()
        } else {
            gen_brood(self.seed ^ output, self.max_children, self.height - 1, self.max_children)
        };
        (output, children)
    }

    /// The whole initial forest, materialized at once.
    pub fn generate_initial_eager(
        seed: u64,
        starting_height: usize,
        max_children: usize,
    ) -> (r: Vec<Task>)
        ensures
            r@ == forest_of(seed, starting_height, max_children),
    {
        gen_brood(seed, 64, starting_height, max_children)
    }
}

/// A deferred subtree under the lazy strategy: up to `count` tasks still to be
/// drawn, one at a time, from a generator that siblings may share.
pub struct LazyTask {
    pub height: usize,
    pub count: usize,
    pub rng: SharedRng,
    pub max_children: usize,
}

impl LazyTask {
    /// Draw the next concrete task from this node.  The node's remaining
    /// count goes down by exactly one; the drawn task sits at the node's
    /// height and inherits its child bound.
    pub fn generate_task(&mut self) -> (t: Task)
        requires
            old(self).count >= 1,
        ensures
            final(self).count == old(self).count - 1,
            final(self).height == old(self).height,
            final(self).max_children == old(self).max_children,
            final(self).rng == old(self).rng,
            t.height == old(self).height,
            t.max_children == old(self).max_children,
    {
        self.count = self.count - 1;
        let (k, s) = self.rng.draw_pair(3);
        let typ = if k == 0 {
            TaskType::Hash
        } else if k == 1 {
            TaskType::Derive
        } else {
            TaskType::Random
        };
        Task { typ, seed: s, height: self.height, max_children: self.max_children }
    }
}

/// Defer a brood instead of materializing it: a fresh generator seeded with
/// `seed` draws the count now — the same count the eager strategy would
/// materialize — and each child later.
pub fn generate_lazy(seed: u64, height: usize, max_children: usize) -> (r: LazyTask)
    ensures
        r.height == height,
        r.max_children == max_children,
        r.count <= max_children,
        r.count == drawn_count(seed, max_children),
{
    let (rng, count) = SharedRng::new_counted(seed, max_children);
    LazyTask { height, count, rng, max_children }
}

impl Task {
    /// Execute the task under the lazy strategy: its output, and one
    /// deferred node in place of materialized children.  A leaf yields an
    /// exhausted node.
    pub fn execute(&self) -> (r: TaskResult)
        ensures
            r.0 == eval_spec(self.typ, self.seed),
            self.height == 0 ==> r.1.height == 0 && r.1.count == 0 && r.1.max_children == 0,
            self.height > 0 ==> r.1.height == self.height - 1 && r.1.max_children
                == self.max_children && r.1.count == drawn_count(
                self.seed ^ eval_spec(self.typ, self.seed),
                self.max_children,
            ),
    {
        let output = evaluate(self.typ, self.seed);
        let node = if self.height == 0 {
            LazyTask {
                height: 0,
                count: 0,
                rng: SharedRng::new_seeded(0),
                max_children: 0,
            }
        } else {
            generate_lazy(self.seed ^ output, self.height - 1, self.max_children)
        };
        (output, node)
    }
}


/// Bounds of one generation step: a task spawns at most its child bound,
/// every child sits one level below it and inherits the bound, and a leaf —
/// height zero — spawns nothing.
pub proof fn lemma_generation_bounds(t: Task)
    ensures
        children_of(t).len() <= t.max_children,
        forall|i: int|
            0 <= i < children_of(t).len() ==> (#[trigger] children_of(t)[i]).height + 1 == t.height
                && children_of(t)[i].max_children == t.max_children,
        t.height == 0 ==> children_of(t).len() == 0,
{
}

/// Bounds of the initial forest: at most 64 roots, each at the starting
/// height, each under the configured child bound.
pub proof fn lemma_forest_bounds(seed: u64, starting_height: usize, max_children: usize)
    ensures
        forest_of(seed, starting_height, max_children).len() <= 64,
        forall|i: int|
            0 <= i < forest_of(seed, starting_height, max_children).len() ==> (
            #[trigger] forest_of(seed, starting_height, max_children)[i]).height
                == starting_height && forest_of(seed, starting_height, max_children)[i].max_children
                == max_children,
{
}


impl Task {
    /// Seed the queue set for a lazy run: one root generator, shared by every
    /// root, draws how many roots there are — the seed's drawn forest size,
    /// at most 64 — and each root joins the injector as a deferred node for
    /// exactly one task at the starting height.
    pub fn generate_initial(
        queues: &mut QueueSet<LazyTask>,
        seed: u64,
        starting_height: usize,
        max_children: usize,
    )
        ensures
            final(queues).local@ == old(queues).local@,
            final(queues).global@.len() == old(queues).global@.len() + drawn_count(seed, 64),
            forall|k: int|
                0 <= k < old(queues).global@.len() ==> final(queues).global@[k] == old(queues).global@[k],
            forall|k: int|
                old(queues).global@.len() <= k < final(queues).global@.len() ==> (
                #[trigger] final(queues).global@[k]).height == starting_height && final(queues).global@[k].count == 1 && final(queues).global@[k].max_children == max_children,
            forall|j: int, k: int|
                old(queues).global@.len() <= j < final(queues).global@.len() && old(
                    queues,
                ).global@.len() <= k < final(queues).global@.len() ==> final(queues).global@[j].rng
                    == final(queues).global@[k].rng,
    {
        let (rng, num) = SharedRng::new_counted(seed, 64);
        let ghost g0 = queues.global@;
        let mut i: usize = 0;
        while i < num
            invariant
                i <= num,
                num as nat == drawn_count(seed, 64),
                queues.local@ == old(queues).local@,
                g0 == old(queues).global@,
                queues.global@.len() == g0.len() + i,
                forall|k: int| 0 <= k < g0.len() ==> queues.global@[k] == g0[k],
                forall|k: int|
                    g0.len() <= k < queues.global@.len() ==> (#[trigger] queues.global@[k]).height
                        == starting_height && queues.global@[k].count == 1
                        && queues.global@[k].max_children == max_children
                        && queues.global@[k].rng == rng,
            decreases num - i,
        {
            queues.push_global(
                LazyTask {
                    height: starting_height,
                    count: 1,
                    rng: rng.handle(),
                    max_children: max_children,
                },
            );
            i += 1;
        }
    }
}


// Transitive bounds: membership in the tree a task spawns, bounded by the
// same fuel that tracks heights.

pub open spec fn spawned_within(x: Task, t: Task, fuel: nat) -> bool
    decreases fuel, 0int,
{
    x == t || (t.height > 0 && fuel > 0 && level_spawned(x, children_of(t), (fuel - 1) as nat))
}

pub open spec fn level_spawned(x: Task, ts: Seq<Task>, fuel: nat) -> bool
    decreases fuel, ts.len(),
{
    if ts.len() == 0 {
        false
    } else {
        spawned_within(x, ts[0], fuel) || level_spawned(x, ts.drop_first(), fuel)
    }
}

/// `x` is `t` itself or a task that executing `t`'s subtree puts through the
/// queues.
pub open spec fn spawned_by(x: Task, t: Task) -> bool {
    spawned_within(x, t, t.height as nat)
}

proof fn lemma_within_bounds(x: Task, t: Task, fuel: nat)
    requires
        spawned_within(x, t, fuel),
        t.height as nat <= fuel,
    ensures
        x.height <= t.height,
        x.max_children == t.max_children,
    decreases fuel, 0int,
{
    if x != t {
        lemma_level_within_bounds(x, children_of(t), (fuel - 1) as nat, t);
    }
}

proof fn lemma_level_within_bounds(x: Task, ts: Seq<Task>, fuel: nat, parent: Task)
    requires
        level_spawned(x, ts, fuel),
        parent.height > 0,
        forall|i: int|
            0 <= i < ts.len() ==> (#[trigger] ts[i]).height + 1 == parent.height && ts[i].max_children
                == parent.max_children,
        parent.height as nat <= fuel + 1,
    ensures
        x.height < parent.height,
        x.max_children == parent.max_children,
    decreases fuel, ts.len(),
{
    if spawned_within(x, ts[0], fuel) {
        lemma_within_bounds(x, ts[0], fuel);
    } else {
        lemma_level_within_bounds(x, ts.drop_first(), fuel, parent);
    }
}

/// Every task a root transitively spawns sits at or below the root's height
/// and carries the root's child bound; so in a run from the initial forest no
/// task's height ever exceeds the starting height.
pub proof fn lemma_descendant_bounds(x: Task, t: Task)
    requires
        spawned_by(x, t),
    ensures
        x.height <= t.height,
        x.max_children == t.max_children,
{
    lemma_within_bounds(x, t, t.height as nat);
}

} // verus!
