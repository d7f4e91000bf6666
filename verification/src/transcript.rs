//! The Fiat-Shamir transcript capability: absorbs protocol messages as byte
//! strings and deterministically derives challenge scalars from everything
//! absorbed so far. The verifier is generic over the transcript, so a
//! deterministic mock can stand in for a hash-based one in scenarios.

use vstd::prelude::*;

verus! {

/// Modulus of the rolling byte hash used by `HashTranscript`: the largest
/// prime below 2^32, so hash states stay small enough for `u64` products.
pub const HASH_MODULUS: u64 = 4294967291;

/// Initial state of the rolling hash.
pub const HASH_INIT: u64 = 5381;

/// Folds one byte into a rolling hash state.
pub open spec fn hash_byte(h: nat, b: u8) -> nat {
    (h * 131 + (b as nat)) % (HASH_MODULUS as nat)
}

/// Folds a whole byte string into a rolling hash state.
pub open spec fn hash_bytes(h: nat, s: Seq<u8>) -> nat
    decreases s.len(),
{
    if s.len() == 0 {
        h
    } else {
        hash_byte(hash_bytes(h, s.drop_last()), s.last())
    }
}

/// The hash of an absorbed transcript, folding each byte string in order.
pub open spec fn hash_absorbed(s: Seq<Seq<u8>>) -> nat
    decreases s.len(),
{
    if s.len() == 0 {
        HASH_INIT as nat
    } else {
        hash_bytes(hash_absorbed(s.drop_last()), s.last())
    }
}

/// The Fiat-Shamir oracle: a stateful, strictly sequential capability that
/// absorbs byte strings and derives challenge scalars from its state.
pub trait Transcript: Sized {
    /// The byte strings absorbed so far, oldest first.
    spec fn absorbed(&self) -> Seq<Seq<u8>>;

    /// How many challenges have been drawn so far.
    spec fn draws(&self) -> nat;

    /// The challenge this transcript kind derives from an absorbed state, a
    /// draw counter, and the group order: the function is of those alone, so
    /// equal transcript states always yield equal challenges.
    spec fn challenge_of(state: Seq<Seq<u8>>, draws: nat, order: nat) -> nat;

    /// Absorbs one protocol message.
    fn absorb(&mut self, data: &Vec<u8>)
        ensures
            final(self).absorbed() == old(self).absorbed().push(data@),
            final(self).draws() == old(self).draws(),
    ;

    /// Derives the next challenge scalar, reduced modulo `order`.
    fn derive_challenge(&mut self, order: u64) -> (c: u64)
        requires
            order >= 1,
            old(self).draws() < u64::MAX,
        ensures
            final(self).absorbed() == old(self).absorbed(),
            final(self).draws() == old(self).draws() + 1,
            c as nat == Self::challenge_of(old(self).absorbed(), old(self).draws(), order as nat),
            c < order,
    ;
}

/// Copies a byte string into owned storage.
fn clone_bytes(data: &Vec<u8>) -> (r: Vec<u8>)
    ensures
        r@ == data@,
{
    let mut out: Vec<u8> = Vec::new();
    let n = data.len();
    let mut i: usize = 0;
    while i < n
        invariant
            n == data.len(),
            i <= n,
            out@ == data@.take(i as int),
        decreases n - i,
    {
        out.push(data[i]);
        proof {
            assert(out@ =~= data@.take(i as int + 1));
        }
        i += 1;
    }
    proof {
        assert(data@.take(n as int) =~= data@);
    }
    out
}

/// Folds a byte string into a rolling hash state.
fn hash_vec(h0: u64, data: &Vec<u8>) -> (r: u64)
    requires
        h0 < HASH_MODULUS,
    ensures
        r as nat == hash_bytes(h0 as nat, data@),
        r < HASH_MODULUS,
{
    let mut h: u64 = h0;
    let n = data.len();
    let mut i: usize = 0;
    while i < n
        invariant
            n == data.len(),
            i <= n,
            h as nat == hash_bytes(h0 as nat, data@.take(i as int)),
            h < HASH_MODULUS,
        decreases n - i,
    {
        let ghost prefix = data@.take(i as int);
        h = (h * 131 + data[i] as u64) % HASH_MODULUS;
        proof {
            assert(data@.take(i as int + 1).drop_last() =~= prefix);
            assert(data@.take(i as int + 1).last() == data@[i as int]);
        }
        i += 1;
    }
    proof {
        assert(data@.take(n as int) =~= data@);
    }
    h
}

/// A concrete Fiat-Shamir transcript: a rolling modular hash over every
/// absorbed byte, mixed with the draw counter.
pub struct HashTranscript {
    entries: Vec<Vec<u8>>,
    count: u64,
}

impl HashTranscript {
    /// A fresh transcript with nothing absorbed and nothing drawn.
    pub fn new() -> (r: HashTranscript)
        ensures
            r.absorbed() == Seq::<Seq<u8>>::empty(),
            r.draws() == 0,
    {
        HashTranscript { entries: Vec::new(), count: 0 }
    }
}

impl Transcript for HashTranscript {
    closed spec fn absorbed(&self) -> Seq<Seq<u8>> {
        self.entries.deep_view()
    }

    closed spec fn draws(&self) -> nat {
        self.count as nat
    }

    open spec fn challenge_of(state: Seq<Seq<u8>>, draws: nat, order: nat) -> nat {
        ((hash_absorbed(state) + draws % (HASH_MODULUS as nat)) % (HASH_MODULUS as nat)) % order
    }

    fn absorb(&mut self, data: &Vec<u8>) {
        let copy = clone_bytes(data);
        proof {
            assert(copy.deep_view() =~= data@);
        }
        self.entries.push(copy);
        proof {
            assert(self.entries.deep_view() =~~= old(self).entries.deep_view().push(data@));
        }
    }

    fn derive_challenge(&mut self, order: u64) -> (c: u64) {
        let n = self.entries.len();
        let mut h: u64 = HASH_INIT;
        let mut i: usize = 0;
        while i < n
            invariant
                n == self.entries.len(),
                i <= n,
                h as nat == hash_absorbed(self.entries.deep_view().take(i as int)),
                h < HASH_MODULUS,
            decreases n - i,
        {
            let ghost prefix = self.entries.deep_view().take(i as int);
            h = hash_vec(h, &self.entries[i]);
            proof {
                assert(self.entries.deep_view().take(i as int + 1).drop_last() =~= prefix);
                assert(self.entries.deep_view().take(i as int + 1).last()
                    == self.entries.deep_view()[i as int]);
                assert(self.entries.deep_view()[i as int] == self.entries@[i as int]@);
            }
            i += 1;
        }
        proof {
            assert(self.entries.deep_view().take(n as int) =~= self.entries.deep_view());
        }
        let mixed = (h + self.count % HASH_MODULUS) % HASH_MODULUS;
        let c = mixed % order;
        self.count = self.count + 1;
        c
    }
}

/// A degenerate transcript whose every challenge is the constant `C`
/// reduced modulo the group order, whatever was absorbed: the deterministic
/// mock for fixed-challenge scenarios.
pub struct FixedTranscript<const C: u64> {
    log: Ghost<Seq<Seq<u8>>>,
    count: u64,
}

impl<const C: u64> FixedTranscript<C> {
    /// A fresh fixed-challenge transcript.
    pub fn new() -> (r: FixedTranscript<C>)
        ensures
            r.absorbed() == Seq::<Seq<u8>>::empty(),
            r.draws() == 0,
    {
        FixedTranscript { log: Ghost(Seq::empty()), count: 0 }
    }
}

impl<const C: u64> Transcript for FixedTranscript<C> {
    closed spec fn absorbed(&self) -> Seq<Seq<u8>> {
        self.log@
    }

    closed spec fn draws(&self) -> nat {
        self.count as nat
    }

    open spec fn challenge_of(state: Seq<Seq<u8>>, draws: nat, order: nat) -> nat {
        (C as nat) % order
    }

    fn absorb(&mut self, data: &Vec<u8>) {
        let ghost new_log = self.log@.push(data@);
        self.log = Ghost(new_log);
    }

    fn derive_challenge(&mut self, order: u64) -> (c: u64) {
        self.count = self.count + 1;
        C % order
    }
}

} // verus!
