//! Account identities.

use vstd::prelude::*;
use vstd::std_specs::cmp::PartialEqSpecImpl;

verus! {

/// The fixed-size public identifier of an account or a program.
#[derive(Clone, Copy, Debug, Eq, Hash)]
pub struct Pubkey {
    pub bytes: [u8; 32],
}

impl Pubkey {
    /// The identity made of the given bytes.
    pub fn new(bytes: [u8; 32]) -> (key: Pubkey)
        ensures
            key.bytes == bytes,
    {
        Pubkey { bytes }
    }

    /// The bytes of the identity.
    pub fn to_bytes(&self) -> (bytes: [u8; 32])
        ensures
            bytes == self.bytes,
    {
        self.bytes
    }

    /// The number that the sixteen bytes from the one at `start` on spell.
    fn word(&self, start: usize) -> (w: u128)
        requires
            start <= 16,
        ensures
            w == number(self.bytes@.subrange(start as int, start + 16)),
    {
        let mut w: u128 = 0;
        let mut i: usize = 0;
        while i < 16
            invariant
                i <= 16,
                start <= 16,
                w == number(self.bytes@.subrange(start as int, start + i)),
            decreases 16 - i,
        {
            proof {
                let next = self.bytes@.subrange(start as int, start + i + 1);
                assert(next.drop_last() =~= self.bytes@.subrange(start as int, start + i));
                lemma_number_bound(next);
                lemma_power_grows((i + 1) as nat, 16);
                lemma_power_16();
            }
            w = w * 256 + self.bytes[start + i] as u128;
            i += 1;
        }
        w
    }

    /// The identity as two numbers of 128 bits, by which it can be ordered and found.
    pub fn words(&self) -> (w: (u128, u128))
        ensures
            w == words(*self),
    {
        proof {
            lemma_power_16();
            lemma_number_bound(self.bytes@.subrange(0, 16));
            lemma_number_bound(self.bytes@.subrange(16, 32));
        }
        (self.word(0), self.word(16))
    }
}

impl PartialEq for Pubkey {
    /// Whether two identities hold the same bytes.
    fn eq(&self, other: &Pubkey) -> (r: bool) {
        let mut i: usize = 0;
        while i < 32
            invariant
                i <= 32,
                forall|j: int| 0 <= j < i ==> self.bytes[j] == other.bytes[j],
            decreases 32 - i,
        {
            if self.bytes[i] != other.bytes[i] {
                return false;
            }
            i += 1;
        }
        assert(self.bytes =~= other.bytes);
        true
    }
}

impl PartialEqSpecImpl for Pubkey {
    open spec fn obeys_eq_spec() -> bool {
        true
    }

    open spec fn eq_spec(&self, other: &Pubkey) -> bool {
        *self == *other
    }
}

/// The number that the bytes of `s` spell in base 256, the first byte counting most.
pub open spec fn number(s: Seq<u8>) -> nat
    decreases s.len(),
{
    if s.len() == 0 {
        0
    } else {
        (number(s.drop_last()) * 256 + s.last()) as nat
    }
}

/// The power of 256 with the exponent `n`.
pub open spec fn power(n: nat) -> nat
    decreases n,
{
    if n == 0 {
        1
    } else {
        256 * power((n - 1) as nat)
    }
}

/// A number of `n` bytes is below the `n`-th power of 256.
pub proof fn lemma_number_bound(s: Seq<u8>)
    ensures
        number(s) < power(s.len()),
    decreases s.len(),
{
    if s.len() > 0 {
        lemma_number_bound(s.drop_last());
    }
}

/// A larger exponent gives no smaller power.
pub proof fn lemma_power_grows(m: nat, n: nat)
    requires
        m <= n,
    ensures
        power(m) <= power(n),
    decreases n,
{
    if m < n {
        lemma_power_grows(m, (n - 1) as nat);
    }
}

/// The sixteenth power of 256 is one more than the largest number of 128 bits.
pub proof fn lemma_power_16()
    ensures
        power(16) == u128::MAX + 1,
{
    reveal_with_fuel(power, 17);
}

/// Byte strings of one length that spell the same number are the same.
pub proof fn lemma_number_injective(s: Seq<u8>, t: Seq<u8>)
    requires
        s.len() == t.len(),
        number(s) == number(t),
    ensures
        s == t,
    decreases s.len(),
{
    if s.len() > 0 {
        lemma_number_injective(s.drop_last(), t.drop_last());
        assert(s =~= s.drop_last().push(s.last()));
        assert(t =~= t.drop_last().push(t.last()));
    } else {
        assert(s =~= t);
    }
}

/// The two numbers of 128 bits that the bytes of `key` spell, the first sixteen bytes and
/// the last sixteen.
pub open spec fn words(key: Pubkey) -> (u128, u128) {
    (
        number(key.bytes@.subrange(0, 16)) as u128,
        number(key.bytes@.subrange(16, 32)) as u128,
    )
}

/// Identities with the same words are the same.
pub proof fn lemma_words_injective(a: Pubkey, b: Pubkey)
    requires
        words(a) == words(b),
    ensures
        a == b,
{
    lemma_power_16();
    lemma_number_bound(a.bytes@.subrange(0, 16));
    lemma_number_bound(b.bytes@.subrange(0, 16));
    lemma_number_bound(a.bytes@.subrange(16, 32));
    lemma_number_bound(b.bytes@.subrange(16, 32));
    lemma_number_injective(a.bytes@.subrange(0, 16), b.bytes@.subrange(0, 16));
    lemma_number_injective(a.bytes@.subrange(16, 32), b.bytes@.subrange(16, 32));
    assert forall|i: int| 0 <= i < 32 implies a.bytes@[i] == b.bytes@[i] by {
        if i < 16 {
            assert(a.bytes@[i] == a.bytes@.subrange(0, 16)[i]);
            assert(b.bytes@[i] == b.bytes@.subrange(0, 16)[i]);
        } else {
            assert(a.bytes@[i] == a.bytes@.subrange(16, 32)[i - 16]);
            assert(b.bytes@[i] == b.bytes@.subrange(16, 32)[i - 16]);
        }
    }
    assert(a.bytes =~= b.bytes);
}

} // verus!
