//! Unsigned integers of any size.
//!
//! The variance of a run of samples is a ratio of integers that do not fit in
//! any machine type once the samples span centuries, so it is compared exactly
//! in this representation.

use vstd::prelude::*;

verus! {

/// The base in which the digits of a [`Natural`] are written.
pub const BASE: u64 = 0x1_0000_0000;

/// An unsigned integer, held as base 2^32 digits with the lowest digit first.
///
/// Its view is the number.
pub struct Natural {
    limbs: Vec<u32>,
}

/// The weight of digit `i`.
spec fn place(i: nat) -> nat
    decreases i,
{
    if i == 0 {
        1
    } else {
        BASE as nat * place((i - 1) as nat)
    }
}

/// Digit `i`; digits past the end are zero.
spec fn digit(limbs: Seq<u32>, i: int) -> nat {
    if 0 <= i < limbs.len() {
        limbs[i] as nat
    } else {
        0
    }
}

/// The number that the lowest `count` digits write.
spec fn prefix(limbs: Seq<u32>, count: nat) -> nat
    decreases count,
{
    if count == 0 {
        0
    } else {
        prefix(limbs, (count - 1) as nat) + digit(limbs, count - 1) * place((count - 1) as nat)
    }
}

impl View for Natural {
    type V = nat;

    closed spec fn view(&self) -> nat {
        prefix(self.limbs@, self.limbs@.len())
    }
}

proof fn lemma_prefix_agrees(a: Seq<u32>, b: Seq<u32>, count: nat)
    requires
        forall|k: int| 0 <= k < count ==> digit(a, k) == digit(b, k),
    ensures
        prefix(a, count) == prefix(b, count),
    decreases count,
{
    if count > 0 {
        lemma_prefix_agrees(a, b, (count - 1) as nat);
        assert(digit(a, count - 1) == digit(b, count - 1));
    }
}

proof fn lemma_prefix_past_end(a: Seq<u32>, count: nat)
    requires
        a.len() <= count,
    ensures
        prefix(a, count) == prefix(a, a.len()),
    decreases count,
{
    if a.len() < count {
        lemma_prefix_past_end(a, (count - 1) as nat);
        assert(0 * place((count - 1) as nat) == 0) by (nonlinear_arith);
    }
}

proof fn lemma_prefix_below_place(a: Seq<u32>, count: nat)
    ensures
        prefix(a, count) < place(count),
    decreases count,
{
    if count > 0 {
        let low: nat = (count - 1) as nat;
        lemma_prefix_below_place(a, low);
        let d: nat = digit(a, count - 1);
        let p: nat = place(low);
        assert(d * p + p <= BASE * p) by (nonlinear_arith)
            requires
                d + 1 <= BASE,
        ;
    }
}

/// Prefixing `shift` zero digits multiplies by the weight of digit `shift`.
proof fn lemma_prefix_shifted(a: Seq<u32>, b: Seq<u32>, shift: nat, count: nat)
    requires
        forall|k: int| 0 <= k < shift ==> digit(b, k) == 0,
        forall|k: int| 0 <= k < count ==> digit(b, shift + k) == digit(a, k),
    ensures
        prefix(b, shift + count) == place(shift) * prefix(a, count),
    decreases shift + count,
{
    if count > 0 {
        let low: nat = (count - 1) as nat;
        lemma_prefix_shifted(a, b, shift, low);
        lemma_place_sum(shift, low);
        assert(digit(b, shift + (low as int)) == digit(a, low as int));
        let d: nat = digit(a, low as int);
        let p: nat = place(shift);
        let q: nat = place(low);
        let v: nat = prefix(a, low);
        assert(p * (v + d * q) == p * v + d * (p * q)) by (nonlinear_arith);
    } else if shift > 0 {
        let low: nat = (shift - 1) as nat;
        lemma_prefix_shifted(a, b, low, 0);
        assert(digit(b, low as int) == 0);
        assert(place(low) * 0 == 0 && 0 * place(low) == 0) by (nonlinear_arith);
        assert(place(shift) * 0 == 0) by (nonlinear_arith);
    }
}

proof fn lemma_place_sum(i: nat, j: nat)
    ensures
        place(i + j) == place(i) * place(j),
    decreases j,
{
    if j > 0 {
        let low: nat = (j - 1) as nat;
        lemma_place_sum(i, low);
        let p: nat = place(i);
        let q: nat = place(low);
        assert(BASE * (p * q) == p * (BASE * q)) by (nonlinear_arith);
    } else {
        assert(place(i) * 1 == place(i)) by (nonlinear_arith);
    }
}

impl Natural {
    /// The number zero.
    pub fn zero() -> (r: Natural)
        ensures
            r@ == 0,
    {
        Natural { limbs: Vec::new() }
    }

    /// The number `value`.
    pub fn from_u128(value: u128) -> (r: Natural)
        ensures
            r@ == value,
    {
        let mut limbs: Vec<u32> = Vec::new();
        let mut rest: u128 = value;
        proof {
            assert(rest * place(0) == rest) by (nonlinear_arith)
                requires
                    place(0) == 1,
            ;
        }
        while rest > 0
            invariant
                prefix(limbs@, limbs@.len()) + rest * place(limbs@.len()) == value,
            decreases rest,
        {
            let low: u32 = (rest % 0x1_0000_0000) as u32;
            let high: u128 = rest / 0x1_0000_0000;
            let ghost before = limbs@;
            limbs.push(low);
            proof {
                lemma_prefix_agrees(limbs@, before, before.len());
                let p: nat = place(before.len());
                assert(low * p + high * (BASE * p) == rest * p) by (nonlinear_arith)
                    requires
                        rest == high * BASE + low,
                ;
            }
            rest = high;
        }
        proof {
            assert(0 * place(limbs@.len()) == 0) by (nonlinear_arith);
        }
        Natural { limbs }
    }

    fn digit_at(&self, i: usize) -> (d: u32)
        ensures
            d == digit(self.limbs@, i as int),
    {
        if i < self.limbs.len() {
            self.limbs[i]
        } else {
            0
        }
    }

    /// The number of digits of the longer of two numbers.
    fn common_length(&self, other: &Natural) -> (n: usize)
        ensures
            n >= self.limbs@.len(),
            n >= other.limbs@.len(),
    {
        if self.limbs.len() >= other.limbs.len() {
            self.limbs.len()
        } else {
            other.limbs.len()
        }
    }

    /// The sum of two numbers.
    pub fn plus(&self, other: &Natural) -> (r: Natural)
        ensures
            r@ == self@ + other@,
    {
        let n: usize = self.common_length(other);
        let mut limbs: Vec<u32> = Vec::new();
        let mut carry: u64 = 0;
        let mut i: usize = 0;
        proof {
            assert(0 * place(0) == 0) by (nonlinear_arith);
        }
        while i < n
            invariant
                i <= n,
                limbs@.len() == i,
                carry <= 1,
                prefix(limbs@, i as nat) + carry * place(i as nat) == prefix(
                    self.limbs@,
                    i as nat,
                ) + prefix(other.limbs@, i as nat),
            decreases n - i,
        {
            let x: u32 = self.digit_at(i);
            let y: u32 = other.digit_at(i);
            let total: u64 = x as u64 + y as u64 + carry;
            let low: u32 = (total % BASE) as u32;
            let high: u64 = total / BASE;
            let ghost before = limbs@;
            limbs.push(low);
            proof {
                lemma_prefix_agrees(limbs@, before, i as nat);
                let p: nat = place(i as nat);
                assert(low * p + high * (BASE * p) == x * p + y * p + carry * p)
                    by (nonlinear_arith)
                    requires
                        x + y + carry == high * BASE + low,
                ;
            }
            carry = high;
            i = i + 1;
        }
        proof {
            lemma_prefix_past_end(self.limbs@, n as nat);
            lemma_prefix_past_end(other.limbs@, n as nat);
        }
        if carry > 0 {
            let ghost body = limbs@;
            limbs.push(carry as u32);
            proof {
                lemma_prefix_agrees(limbs@, body, n as nat);
            }
        } else {
            proof {
                assert(0 * place(n as nat) == 0) by (nonlinear_arith);
            }
        }
        Natural { limbs }
    }

    /// The number times `factor`.
    fn scaled(&self, factor: u32) -> (r: Natural)
        ensures
            r@ == self@ * factor,
    {
        let n: usize = self.limbs.len();
        let mut limbs: Vec<u32> = Vec::new();
        let mut carry: u64 = 0;
        let mut i: usize = 0;
        proof {
            assert(0 * place(0) == 0 && 0 * factor == 0) by (nonlinear_arith);
        }
        while i < n
            invariant
                i <= n,
                n == self.limbs@.len(),
                limbs@.len() == i,
                carry < BASE,
                prefix(limbs@, i as nat) + carry * place(i as nat) == prefix(
                    self.limbs@,
                    i as nat,
                ) * factor,
            decreases n - i,
        {
            let x: u32 = self.digit_at(i);
            proof {
                assert(x * factor <= 0xffff_ffff * 0xffff_ffff) by (nonlinear_arith)
                    requires
                        x <= 0xffff_ffff,
                        factor <= 0xffff_ffff,
                ;
            }
            let total: u64 = x as u64 * factor as u64 + carry;
            let low: u32 = (total % BASE) as u32;
            let high: u64 = total / BASE;
            let ghost before = limbs@;
            limbs.push(low);
            proof {
                lemma_prefix_agrees(limbs@, before, i as nat);
                let p: nat = place(i as nat);
                let v: nat = prefix(self.limbs@, i as nat);
                assert(low * p + high * (BASE * p) == (x * factor) * p + carry * p)
                    by (nonlinear_arith)
                    requires
                        x * factor + carry == high * BASE + low,
                ;
                assert((v + x * p) * factor == v * factor + (x * factor) * p) by (nonlinear_arith);
            }
            carry = high;
            i = i + 1;
        }
        let ghost body = limbs@;
        limbs.push(carry as u32);
        proof {
            lemma_prefix_agrees(limbs@, body, n as nat);
        }
        Natural { limbs }
    }

    /// The number times 2^32 to the power `shift`.
    fn shifted(&self, shift: usize) -> (r: Natural)
        ensures
            r@ == place(shift as nat) * self@,
    {
        let mut limbs: Vec<u32> = Vec::new();
        let mut i: usize = 0;
        while i < shift
            invariant
                i <= shift,
                limbs@ == Seq::new(i as nat, |k: int| 0u32),
            decreases shift - i,
        {
            limbs.push(0);
            i = i + 1;
        }
        let mut j: usize = 0;
        while j < self.limbs.len()
            invariant
                j <= self.limbs@.len(),
                limbs@.len() == shift + j,
                forall|k: int| 0 <= k < shift ==> limbs@[k] == 0,
                forall|k: int| 0 <= k < j ==> #[trigger] self.limbs@[k] == limbs@[shift + k],
            decreases self.limbs@.len() - j,
        {
            limbs.push(self.limbs[j]);
            j = j + 1;
        }
        proof {
            assert forall|k: int| 0 <= k < self.limbs@.len() implies digit(limbs@, shift + k)
                == digit(self.limbs@, k) by {
                assert(self.limbs@[k] == limbs@[shift + k]);
            }
            lemma_prefix_shifted(self.limbs@, limbs@, shift as nat, self.limbs@.len());
        }
        Natural { limbs }
    }

    /// The product of two numbers.
    pub fn times(&self, other: &Natural) -> (r: Natural)
        ensures
            r@ == self@ * other@,
    {
        let mut product: Natural = Natural::zero();
        let mut i: usize = 0;
        proof {
            assert(self@ * 0 == 0) by (nonlinear_arith);
        }
        while i < other.limbs.len()
            invariant
                i <= other.limbs@.len(),
                product@ == self@ * prefix(other.limbs@, i as nat),
            decreases other.limbs@.len() - i,
        {
            let row: Natural = self.scaled(other.limbs[i]).shifted(i);
            product = product.plus(&row);
            proof {
                let a: nat = self@;
                let p: nat = place(i as nat);
                let d: nat = other.limbs@[i as int] as nat;
                let v: nat = prefix(other.limbs@, i as nat);
                assert(a * (v + d * p) == a * v + p * (a * d)) by (nonlinear_arith);
            }
            i = i + 1;
        }
        product
    }

    /// Whether the number is smaller than `other`.
    pub fn less_than(&self, other: &Natural) -> (r: bool)
        ensures
            r == (self@ < other@),
    {
        let n: usize = self.common_length(other);
        let mut less: bool = false;
        let mut i: usize = 0;
        while i < n
            invariant
                i <= n,
                less == (prefix(self.limbs@, i as nat) < prefix(other.limbs@, i as nat)),
            decreases n - i,
        {
            let x: u32 = self.digit_at(i);
            let y: u32 = other.digit_at(i);
            proof {
                let p: nat = place(i as nat);
                lemma_prefix_below_place(self.limbs@, i as nat);
                lemma_prefix_below_place(other.limbs@, i as nat);
                if x < y {
                    assert(x * p + p <= y * p) by (nonlinear_arith)
                        requires
                            x + 1 <= y,
                    ;
                } else if y < x {
                    assert(y * p + p <= x * p) by (nonlinear_arith)
                        requires
                            y + 1 <= x,
                    ;
                }
            }
            if x < y {
                less = true;
            } else if y < x {
                less = false;
            }
            i = i + 1;
        }
        proof {
            lemma_prefix_past_end(self.limbs@, n as nat);
            lemma_prefix_past_end(other.limbs@, n as nat);
        }
        less
    }
}

} // verus!
