use vstd::prelude::*;
use vstd::slice::slice_subrange;

use crate::rng::{
    DetRng, fill_draw, range_draw, req_fill, req_range, req_word, word_draw,
};
use crate::task::TaskType;

verus! {

// The workload evaluator: a pure function from a task's kind and seed to a
// 64-bit output.  Each kind reseeds its own generator from the seed, draws a
// round count from `0x10000..0x20000`, performs that many rounds of its
// payload, and extracts eight little-endian bytes.

pub uninterp spec fn sha256_digest(data: Seq<u8>) -> Seq<u8>;

pub uninterp spec fn pbkdf2_sha512(
    rounds: u64,
    salt: Seq<u8>,
    secret: Seq<u8>,
    out_len: int,
) -> Seq<u8>;

/// Relies on `ring::digest::digest` with SHA-256: a 32-byte digest that is a
/// function of the input bytes alone.
#[verifier::external_body]
fn sha256_once(data: &[u8]) -> (r: Vec<u8>)
    ensures
        r@ == sha256_digest(data@),
        r@.len() == 32,
{
    ring::digest::digest(&ring::digest::SHA256, data).as_ref().to_vec()
}

/// Relies on `ring::pbkdf2::derive` with PBKDF2-HMAC-SHA512: it fills the
/// output with a key that is a function of the iteration count, the salt and
/// the secret alone.
#[verifier::external_body]
fn pbkdf2_fill(rounds: u32, salt: &[u8], secret: &[u8], out_len: usize) -> (r: Vec<u8>)
    requires
        rounds >= 1,
    ensures
        r@ == pbkdf2_sha512(rounds as u64, salt@, secret@, out_len as int),
        r@.len() == out_len,
{
    let mut out = vec![0u8; out_len];
    ring::pbkdf2::derive(
        ring::pbkdf2::PBKDF2_HMAC_SHA512,
        core::num::NonZeroU32::new(rounds).unwrap(),
        salt,
        secret,
        &mut out,
    );
    out
}

/// The state after `n` successive SHA-256 rounds.
pub open spec fn rehash(state: Seq<u8>, n: nat) -> Seq<u8>
    decreases n,
{
    if n == 0 {
        state
    } else {
        sha256_digest(rehash(state, (n - 1) as nat))
    }
}

/// Eight bytes read as a little-endian 64-bit value.
pub open spec fn le_u64(b: Seq<u8>) -> u64 {
    (b[0] as int
        + b[1] as int * 0x100
        + b[2] as int * 0x1_0000
        + b[3] as int * 0x100_0000
        + b[4] as int * 0x1_0000_0000
        + b[5] as int * 0x100_0000_0000
        + b[6] as int * 0x1_0000_0000_0000
        + b[7] as int * 0x100_0000_0000_0000) as u64
}

pub fn read_le_u64(bytes: &Vec<u8>, off: usize) -> (r: u64)
    requires
        off + 8 <= bytes@.len(),
    ensures
        r == le_u64(bytes@.subrange(off as int, off as int + 8)),
{
    let _n = bytes.len();
    let r = bytes[off] as u64
        + bytes[off + 1] as u64 * 0x100
        + bytes[off + 2] as u64 * 0x1_0000
        + bytes[off + 3] as u64 * 0x100_0000
        + bytes[off + 4] as u64 * 0x1_0000_0000
        + bytes[off + 5] as u64 * 0x100_0000_0000
        + bytes[off + 6] as u64 * 0x1_0000_0000_0000
        + bytes[off + 7] as u64 * 0x100_0000_0000_0000;
    proof {
        let s = bytes@.subrange(off as int, off as int + 8);
        assert(forall|i: int| 0 <= i < 8 ==> s[i] == bytes@[off + i]);
    }
    r
}

/// What the hashing payload returns: reseed, draw a round count, draw a
/// 32-byte state, rehash it that many times, and read eight bytes at a drawn
/// offset.
pub open spec fn hash_payload(seed: u64) -> u64 {
    let h0 = Seq::<(int, int, int)>::empty();
    let rounds = range_draw(seed, h0, 0x10000, 0x20000, false);
    let h1 = h0.push(req_range(0x10000, 0x20000));
    let state0 = fill_draw(seed, h1, 32);
    let h2 = h1.push(req_fill(32));
    let fin = rehash(state0, rounds as nat);
    let off = range_draw(seed, h2, 0, 24, false);
    le_u64(fin.subrange(off as int, off as int + 8))
}

pub fn do_hash(seed: u64) -> (r: u64)
    ensures
        r == hash_payload(seed),
{
    let mut rng = DetRng::new(seed);
    let rounds = rng.range(0x10000, 0x20000);
    let mut state = rng.fill(32);
    let ghost state0 = state@;
    let mut i: usize = 0;
    while i < rounds
        invariant
            i <= rounds,
            state@ == rehash(state0, i as nat),
            state@.len() == 32,
        decreases rounds - i,
    {
        state = sha256_once(state.as_slice());
        i += 1;
    }
    let off = rng.range(0, 24);
    read_le_u64(&state, off)
}

/// What the key-derivation payload returns: reseed, draw 64 bytes of salt and
/// password material, draw a round count, derive 64 bytes over them, and read
/// eight bytes at a drawn offset.
pub open spec fn derive_payload(seed: u64) -> u64 {
    let h0 = Seq::<(int, int, int)>::empty();
    let state = fill_draw(seed, h0, 64);
    let h1 = h0.push(req_fill(64));
    let rounds = range_draw(seed, h1, 0x10000, 0x20000, false);
    let h2 = h1.push(req_range(0x10000, 0x20000));
    let out = pbkdf2_sha512(rounds, state.subrange(0, 32), state.subrange(32, 64), 64);
    let off = range_draw(seed, h2, 0, 56, false);
    le_u64(out.subrange(off as int, off as int + 8))
}

pub fn do_derive(seed: u64) -> (r: u64)
    ensures
        r == derive_payload(seed),
{
    let mut rng = DetRng::new(seed);
    let state = rng.fill(64);
    let rounds = rng.range(0x10000, 0x20000);
    let salt = slice_subrange(state.as_slice(), 0, 32);
    let secret = slice_subrange(state.as_slice(), 32, 64);
    let out = pbkdf2_fill(rounds as u32, salt, secret, 64);
    let off = rng.range(0, 56);
    read_le_u64(&out, off)
}

/// How many 64-bit draws the random payload consumes after its round count.
pub open spec fn word_reqs(n: nat) -> Seq<(int, int, int)> {
    Seq::new(n, |i: int| req_word())
}

/// What the random payload returns: reseed, draw a round count, discard that
/// many 64-bit draws, and return the next one.
pub open spec fn random_payload(seed: u64) -> u64 {
    let h0 = Seq::<(int, int, int)>::empty();
    let rounds = range_draw(seed, h0, 0x10000, 0x20000, false);
    let h1 = h0.push(req_range(0x10000, 0x20000));
    word_draw(seed, h1 + word_reqs(rounds as nat))
}

pub fn do_random(seed: u64) -> (r: u64)
    ensures
        r == random_payload(seed),
{
    let mut rng = DetRng::new(seed);
    let rounds = rng.range(0x10000, 0x20000);
    let ghost h1 = Seq::<(int, int, int)>::empty().push(req_range(0x10000, 0x20000));
    let mut i: usize = 0;
    while i < rounds
        invariant
            i <= rounds,
            rng.seed@ == seed,
            rng.hist@ == h1 + word_reqs(i as nat),
        decreases rounds - i,
    {
        proof {
            assert(word_reqs((i + 1) as nat) =~= word_reqs(i as nat).push(req_word()));
            assert(h1 + word_reqs(i as nat).push(req_word()) =~= (h1 + word_reqs(
                i as nat,
            )).push(req_word()));
        }
        let _ = rng.word();
        i += 1;
    }
    rng.word()
}

/// The evaluator as one pure function of a task's kind and seed.
pub open spec fn eval_spec(kind: TaskType, seed: u64) -> u64 {
    match kind {
        TaskType::Hash => hash_payload(seed),
        TaskType::Derive => derive_payload(seed),
        TaskType::Random => random_payload(seed),
    }
}

pub fn evaluate(kind: TaskType, seed: u64) -> (r: u64)
    ensures
        r == eval_spec(kind, seed),
{
    match kind {
        TaskType::Hash => do_hash(seed),
        TaskType::Derive => do_derive(seed),
        TaskType::Random => do_random(seed),
    }
}

} // verus!
