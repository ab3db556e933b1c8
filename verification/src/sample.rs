//! The sampler, the model of its state, and the laws that hold of it.

use crate::encoding::{encode_message, lemma_message_injective, message};
use crate::host::{block_timestamp, hash_keccak256, keccak256};
use vstd::prelude::*;

verus! {

/// The bound that [`RandomSample::flip`] draws under.
pub const FLIP_MAX_VALUE: u8 = 99;

/// `byte` reduced into the inclusive range `0..=max_value`: the remainder of
/// `byte` by `max_value + 1`, taken in the integers, so that a bound of 255
/// leaves the byte as it is and a bound of 0 always gives 0.
pub open spec fn reduce(byte: u8, max_value: u8) -> u8 {
    (byte as int % (max_value as int + 1)) as u8
}

/// The value drawn at `timestamp` with the counter at `salt` under
/// `max_value`: the first byte of the digest of their message, reduced.
pub open spec fn sample(timestamp: u64, salt: u64, max_value: u8) -> u8 {
    reduce(keccak256(message(timestamp, salt))[0], max_value)
}

/// What a sampler holds, as mathematical values.
pub struct SampleState {
    /// The counter: 0 for a new sampler, one more after each draw.
    pub salt: nat,
    /// The value drawn last, or 0 before the first draw.
    pub random: u8,
}

impl SampleState {
    /// The state of a sampler that has drawn nothing yet.
    pub open spec fn initial() -> Self {
        SampleState { salt: 0, random: 0 }
    }

    /// The state after a draw whose digest starts with `first`.
    pub open spec fn absorb(self, first: u8, max_value: u8) -> Self {
        SampleState { salt: self.salt + 1, random: reduce(first, max_value) }
    }

    /// The state after one draw at `timestamp` under `max_value`.
    pub open spec fn step(self, timestamp: u64, max_value: u8) -> Self {
        self.absorb(keccak256(message(timestamp, self.salt as u64))[0], max_value)
    }

    /// The state after the draws `calls`, each a timestamp and a bound, made
    /// in order.
    pub open spec fn run(self, calls: Seq<(u64, u8)>) -> Self
        decreases calls.len(),
    {
        if calls.len() == 0 {
            self
        } else {
            self.run(calls.drop_last()).step(calls.last().0, calls.last().1)
        }
    }
}

/// A sampler: a counter of the draws made so far and the value drawn last.
pub struct RandomSample {
    salt: u64,
    random: u8,
}

impl View for RandomSample {
    type V = SampleState;

    closed spec fn view(&self) -> SampleState {
        SampleState { salt: self.salt as nat, random: self.random }
    }
}

/// Reduces `byte` into `0..=max_value`. The remainder is taken in 16 bits,
/// so that `max_value + 1` cannot overflow.
pub fn reduce_byte(byte: u8, max_value: u8) -> (value: u8)
    ensures
        value == reduce(byte, max_value),
        value <= max_value,
{
    let modulus: u16 = max_value as u16 + 1;
    let rest: u16 = byte as u16 % modulus;
    rest as u8
}

impl RandomSample {
    /// A sampler that has drawn nothing yet: salt 0, last value 0.
    pub fn new() -> (fresh: Self)
        ensures
            fresh@ == SampleState::initial(),
    {
        RandomSample { salt: 0, random: 0 }
    }

    /// The same as [`RandomSample::new`].
    pub fn default() -> (fresh: Self)
        ensures
            fresh@ == SampleState::initial(),
    {
        Self::new()
    }

    /// A sampler that continues from a stored salt and last value.
    pub fn from_parts(salt: u64, random: u8) -> (restored: Self)
        ensures
            restored@ == (SampleState { salt: salt as nat, random }),
    {
        RandomSample { salt, random }
    }

    /// The salt of a sampler fits in 64 bits.
    pub proof fn lemma_salt_fits(&self)
        ensures
            self@.salt <= u64::MAX,
    {
    }

    /// The counter: 0 for a new sampler, one more after each draw.
    pub fn salt(&self) -> (salt: u64)
        ensures
            salt == self@.salt,
    {
        self.salt
    }

    /// The value drawn last, or 0 if none was drawn yet.
    pub fn get(&self) -> (random: u8)
        ensures
            random == self@.random,
    {
        self.random
    }

    /// Completes a draw whose message has been hashed to `digest`: advances
    /// the salt, reduces the first digest byte under `max_value`, keeps the
    /// result as the last value and returns it.
    pub fn absorb(&mut self, digest: &[u8; 32], max_value: u8) -> (value: u8)
        requires
            old(self)@.salt < u64::MAX,
        ensures
            final(self)@ == old(self)@.absorb(digest@[0], max_value),
            value == reduce(digest@[0], max_value),
            value <= max_value,
    {
        self.salt = self.salt + 1;
        let value = reduce_byte(digest[0], max_value);
        self.random = value;
        value
    }

    /// Draws a value in `0..=max_value` for the block timestamp `timestamp`:
    /// hashes the timestamp and the salt, advances the salt, and keeps and
    /// returns the reduced first digest byte.
    ///
    /// The salt must not have reached `u64::MAX`.
    pub fn get_pseudo_random_at(&mut self, timestamp: u64, max_value: u8) -> (value: u8)
        requires
            old(self)@.salt < u64::MAX,
        ensures
            final(self)@ == old(self)@.step(timestamp, max_value),
            final(self)@.salt == old(self)@.salt + 1,
            value == sample(timestamp, old(self)@.salt as u64, max_value),
            value == final(self)@.random,
            value <= max_value,
    {
        let input = encode_message(timestamp, self.salt);
        let digest = hash_keccak256(input.as_slice());
        self.absorb(&digest, max_value)
    }

    /// Draws a value in `0..=max_value` for the current block timestamp, which
    /// it asks of the host: see [`RandomSample::get_pseudo_random_at`].
    ///
    /// The salt must not have reached `u64::MAX`.
    pub fn get_pseudo_random(&mut self, max_value: u8) -> (value: u8)
        requires
            old(self)@.salt < u64::MAX,
        ensures
            exists|timestamp: u64| final(self)@ == #[trigger] old(self)@.step(timestamp, max_value),
            final(self)@.salt == old(self)@.salt + 1,
            value == final(self)@.random,
            value <= max_value,
    {
        let timestamp = block_timestamp();
        self.get_pseudo_random_at(timestamp, max_value)
    }

    /// Draws a value in `0..=99` for the current block timestamp and keeps it
    /// as the last value, to be read with [`RandomSample::get`].
    ///
    /// The salt must not have reached `u64::MAX`.
    pub fn flip(&mut self)
        requires
            old(self)@.salt < u64::MAX,
        ensures
            exists|timestamp: u64| final(self)@ == #[trigger] old(self)@.step(timestamp, FLIP_MAX_VALUE),
            final(self)@.salt == old(self)@.salt + 1,
            final(self)@.random <= FLIP_MAX_VALUE,
    {
        self.random = self.get_pseudo_random(FLIP_MAX_VALUE);
    }
}

/// A reduced byte never exceeds its bound.
pub proof fn lemma_reduce_bounded(byte: u8, max_value: u8)
    ensures
        reduce(byte, max_value) <= max_value,
        max_value == 0 ==> reduce(byte, max_value) == 0,
        max_value == 255 ==> reduce(byte, max_value) == byte,
{
}

/// Every draw lies in `0..=max_value`, whatever the timestamp and the salt.
pub proof fn lemma_sample_bounded(timestamp: u64, salt: u64, max_value: u8)
    ensures
        sample(timestamp, salt, max_value) <= max_value,
{
    lemma_reduce_bounded(keccak256(message(timestamp, salt))[0], max_value);
}

/// A draw is a function of the timestamp, the salt and the bound: two
/// samplers whose salts agree draw the same value and end in the same state,
/// whatever each had drawn before.
pub proof fn lemma_step_deterministic(a: SampleState, b: SampleState, timestamp: u64, max_value: u8)
    requires
        a.salt == b.salt,
    ensures
        a.step(timestamp, max_value) == b.step(timestamp, max_value),
        a.step(timestamp, max_value).random == sample(timestamp, a.salt as u64, max_value),
{
}

/// After `calls.len()` draws the salt has grown by exactly that number,
/// whatever the timestamps, the bounds and the values drawn.
pub proof fn lemma_run_salt(start: SampleState, calls: Seq<(u64, u8)>)
    ensures
        start.run(calls).salt == start.salt + calls.len(),
    decreases calls.len(),
{
    if calls.len() > 0 {
        lemma_run_salt(start, calls.drop_last());
    }
}

/// After a sequence of draws the last value is the value of the last draw,
/// and lies within that draw's bound.
pub proof fn lemma_run_last_value(start: SampleState, calls: Seq<(u64, u8)>)
    requires
        calls.len() > 0,
    ensures
        start.run(calls).random == sample(
            calls.last().0,
            (start.salt + calls.len() - 1) as u64,
            calls.last().1,
        ),
        start.run(calls).random <= calls.last().1,
{
    lemma_run_salt(start, calls.drop_last());
    lemma_sample_bounded(
        calls.last().0,
        (start.salt + calls.len() - 1) as u64,
        calls.last().1,
    );
}

/// Two different draws of one sequence never hash the same message, even
/// where their timestamps are equal, as long as the salt stays within 64
/// bits.
pub proof fn lemma_run_messages_distinct(start: SampleState, calls: Seq<(u64, u8)>, i: int, j: int)
    requires
        0 <= i < j < calls.len(),
        start.salt + calls.len() <= u64::MAX,
    ensures
        message(calls[i].0, start.run(calls.take(i)).salt as u64) != message(
            calls[j].0,
            start.run(calls.take(j)).salt as u64,
        ),
{
    lemma_run_salt(start, calls.take(i));
    lemma_run_salt(start, calls.take(j));
    let si = start.run(calls.take(i)).salt as u64;
    let sj = start.run(calls.take(j)).salt as u64;
    assert(si != sj);
    if message(calls[i].0, si) == message(calls[j].0, sj) {
        lemma_message_injective(calls[i].0, si, calls[j].0, sj);
    }
}

} // verus!
