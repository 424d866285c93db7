use vstd::prelude::*;
use rand::Rng;
use rand::RngCore;
use rand::SeedableRng;

verus! {

// A ChaCha20 generator is deterministic: once it is seeded, the value it
// hands back for a draw request is a pure function of the seed and of the
// ordered sequence of requests served before it.  That sequence is kept here
// as ghost state, one triple `(kind, a, b)` per request:
//
//   (0, lo, hi)   a uniform draw from `lo..hi`
//   (1, n, 0)     a fill of `n` bytes
//   (2, 0, 0)     a full 64-bit draw
//   (3, lo, hi)   a uniform draw from `lo..=hi`

#[verifier::external_type_specification]
#[verifier::external_body]
pub struct ExChaCha20Rng(rand_chacha::ChaCha20Rng);

pub open spec fn req_range(lo: int, hi: int) -> (int, int, int) {
    (0int, lo, hi)
}

pub open spec fn req_fill(n: int) -> (int, int, int) {
    (1int, n, 0int)
}

pub open spec fn req_word() -> (int, int, int) {
    (2int, 0int, 0int)
}

pub open spec fn req_range_incl(lo: int, hi: int) -> (int, int, int) {
    (3int, lo, hi)
}

pub uninterp spec fn range_draw(
    seed: u64,
    hist: Seq<(int, int, int)>,
    lo: int,
    hi: int,
    inclusive: bool,
) -> u64;

pub uninterp spec fn fill_draw(seed: u64, hist: Seq<(int, int, int)>, n: int) -> Seq<u8>;

pub uninterp spec fn word_draw(seed: u64, hist: Seq<(int, int, int)>) -> u64;

/// A ChaCha20 generator owned by one party, seeded once, with its request
/// history mirrored in ghost state.
pub struct DetRng {
    pub inner: rand_chacha::ChaCha20Rng,
    pub seed: Ghost<u64>,
    pub hist: Ghost<Seq<(int, int, int)>>,
}

impl DetRng {
    /// Relies on `rand_core::SeedableRng::seed_from_u64` for `ChaCha20Rng`:
    /// seeding is deterministic, and a fresh generator has served no request.
    #[verifier::external_body]
    pub(crate) fn new(seed: u64) -> (r: DetRng)
        ensures
            r.seed@ == seed,
            r.hist@ == Seq::<(int, int, int)>::empty(),
    {
        DetRng {
            inner: rand_chacha::ChaCha20Rng::seed_from_u64(seed),
            seed: Ghost(seed),
            hist: Ghost(Seq::empty()),
        }
    }

    /// Relies on `rand::Rng::gen_range` over `lo..hi`: the result lies in the
    /// range, and on this deterministic generator it is a function of the
    /// seed and of the request history alone.  An empty range panics there,
    /// so it is excluded here.
    #[verifier::external_body]
    pub(crate) fn range(&mut self, lo: usize, hi: usize) -> (r: usize)
        requires
            lo < hi,
        ensures
            lo <= r < hi,
            r as u64 == range_draw(old(self).seed@, old(self).hist@, lo as int, hi as int, false),
            final(self).seed@ == old(self).seed@,
            final(self).hist@ == old(self).hist@.push(req_range(lo as int, hi as int)),
    {
        self.inner.gen_range(lo..hi)
    }

    /// Relies on `rand::Rng::gen_range` over `lo..=hi`, as [`Self::range`].
    #[verifier::external_body]
    pub(crate) fn range_incl(&mut self, lo: usize, hi: usize) -> (r: usize)
        requires
            lo <= hi,
        ensures
            lo <= r <= hi,
            r as u64 == range_draw(old(self).seed@, old(self).hist@, lo as int, hi as int, true),
            final(self).seed@ == old(self).seed@,
            final(self).hist@ == old(self).hist@.push(req_range_incl(lo as int, hi as int)),
    {
        self.inner.gen_range(lo..=hi)
    }

    /// Relies on `rand_core::RngCore::fill_bytes`: it fills the whole buffer,
    /// and on this deterministic generator the bytes are a function of the
    /// seed and of the request history alone.
    #[verifier::external_body]
    pub(crate) fn fill(&mut self, n: usize) -> (r: Vec<u8>)
        ensures
            r@ == fill_draw(old(self).seed@, old(self).hist@, n as int),
            r@.len() == n,
            final(self).seed@ == old(self).seed@,
            final(self).hist@ == old(self).hist@.push(req_fill(n as int)),
    {
        let mut buf = vec![0u8; n];
        self.inner.fill_bytes(&mut buf);
        buf
    }

    /// Relies on `rand::Rng::gen::<u64>`, as [`Self::fill`].
    #[verifier::external_body]
    pub(crate) fn word(&mut self) -> (r: u64)
        ensures
            r == word_draw(old(self).seed@, old(self).hist@),
            final(self).seed@ == old(self).seed@,
            final(self).hist@ == old(self).hist@.push(req_word()),
    {
        self.inner.gen()
    }
}

/// A ChaCha20 generator behind a lock, shared by the generation nodes of one
/// subtree.  The order in which its holders draw from it depends on how they
/// are scheduled, so nothing is claimed of the values beyond their ranges.
#[verifier::external_body]
pub struct SharedRng {
    inner: std::sync::Arc<std::sync::Mutex<rand_chacha::ChaCha20Rng>>,
}

impl SharedRng {
    /// Relies on `rand_core::SeedableRng::seed_from_u64` for `ChaCha20Rng`.
    #[verifier::external_body]
    pub(crate) fn new_seeded(seed: u64) -> (r: SharedRng)
    {
        SharedRng {
            inner: std::sync::Arc::new(
                std::sync::Mutex::new(rand_chacha::ChaCha20Rng::seed_from_u64(seed)),
            ),
        }
    }

    /// Relies on `rand_core::SeedableRng::seed_from_u64` and
    /// `rand::Rng::gen_range` over `0..=max`: the count is the freshly seeded
    /// stream's first draw, taken while the generator is still exclusively
    /// owned, so it is a function of the seed and the bound alone.
    #[verifier::external_body]
    pub(crate) fn new_counted(seed: u64, max: usize) -> (r: (SharedRng, usize))
        ensures
            r.1 <= max,
            r.1 as u64 == range_draw(seed, Seq::empty(), 0, max as int, true),
    {
        let mut inner = rand_chacha::ChaCha20Rng::seed_from_u64(seed);
        let count = inner.gen_range(0..=max);
        (SharedRng { inner: std::sync::Arc::new(std::sync::Mutex::new(inner)) }, count)
    }

    /// Relies on `std::sync::Arc::clone`: the clone is another name for the
    /// same handle to the same generator, so as a value of this opaque type
    /// it is the handle itself.
    #[verifier::external_body]
    pub(crate) fn handle(&self) -> (r: SharedRng)
        ensures
            r == *self,
    {
        SharedRng { inner: std::sync::Arc::clone(&self.inner) }
    }

    /// Relies on `rand::Rng::gen_range` over `0..n` and `rand::Rng::gen`,
    /// both under one lock acquisition: the index and the value are one
    /// consecutive pair of the shared stream.  A draw after a holder failed
    /// mid-draw is an unrecoverable fault and stops the run, as
    /// `std::sync::Mutex` documents for a poisoned lock.
    #[verifier::external_body]
    pub(crate) fn draw_pair(&self, n: usize) -> (r: (usize, u64))
        requires
            n >= 1,
        ensures
            r.0 < n,
    {
        let mut lock = self.inner.lock().unwrap();
        let k = lock.gen_range(0..n);
        let s = lock.gen();
        (k, s)
    }
}

} // verus!
