//! Natural numbers of any size, as far as the admission test needs them:
//! times a machine word, plus, and less-or-equal.
use vstd::prelude::*;

verus! {

/// The radix: a limb is a digit in base 2^64.
pub open spec fn radix() -> nat {
    0x1_0000_0000_0000_0000
}

/// The radix to the power `n`.
pub open spec fn radix_pow(n: nat) -> nat
    decreases n,
{
    if n == 0 {
        1
    } else {
        radix() * radix_pow((n - 1) as nat)
    }
}

/// The number that `limbs` write, least significant limb first.
pub open spec fn limbs_value(limbs: Seq<u64>) -> nat
    decreases limbs.len(),
{
    if limbs.len() == 0 {
        0
    } else {
        limbs_value(limbs.drop_last()) + limbs.last() as nat * radix_pow(
            (limbs.len() - 1) as nat,
        )
    }
}

proof fn lemma_radix_pow_positive(n: nat)
    ensures
        radix_pow(n) > 0,
    decreases n,
{
    if n > 0 {
        lemma_radix_pow_positive((n - 1) as nat);
        assert(radix() * radix_pow((n - 1) as nat) > 0) by (nonlinear_arith)
            requires
                radix() > 0,
                radix_pow((n - 1) as nat) > 0,
        ;
    }
}

proof fn lemma_value_push(limbs: Seq<u64>, limb: u64)
    ensures
        limbs_value(limbs.push(limb)) == limbs_value(limbs) + limb as nat * radix_pow(limbs.len()),
{
    assert(limbs.push(limb).drop_last() =~= limbs);
}

/// `n` limbs write a number below the radix to the power `n`.
proof fn lemma_value_bound(limbs: Seq<u64>)
    ensures
        limbs_value(limbs) < radix_pow(limbs.len()),
    decreases limbs.len(),
{
    if limbs.len() > 0 {
        let high = limbs.drop_last();
        lemma_value_bound(high);
        let p = radix_pow(high.len());
        let top = limbs.last() as nat;
        assert(limbs_value(high) + top * p < radix() * p) by (nonlinear_arith)
            requires
                limbs_value(high) < p,
                top < radix(),
        ;
    }
}

/// A natural number.
pub struct BigNat {
    limbs: Vec<u64>,
}

impl View for BigNat {
    type V = nat;

    closed spec fn view(&self) -> nat {
        limbs_value(self.limbs@)
    }
}

impl BigNat {
    pub fn from_u64(value: u64) -> (n: BigNat)
        ensures
            n@ == value,
    {
        let mut limbs: Vec<u64> = Vec::new();
        limbs.push(value);
        proof {
            lemma_value_push(Seq::<u64>::empty(), value);
            assert(limbs@ =~= Seq::<u64>::empty().push(value));
            assert(limbs_value(Seq::<u64>::empty()) == 0);
            assert(radix_pow(0) == 1);
            assert(value as nat * radix_pow(0) == value) by (nonlinear_arith)
                requires
                    radix_pow(0) == 1,
            ;
        }
        BigNat { limbs }
    }

    /// The product of the number and `factor`.
    pub fn times(&self, factor: u64) -> (product: BigNat)
        ensures
            product@ == self@ * factor,
    {
        let mut out: Vec<u64> = Vec::new();
        let mut carry: u64 = 0;
        let mut i: usize = 0;
        assert(self.limbs@.take(0) =~= Seq::<u64>::empty());
        while i < self.limbs.len()
            invariant
                i <= self.limbs@.len(),
                out@.len() == i,
                limbs_value(out@) + carry as nat * radix_pow(i as nat) == limbs_value(
                    self.limbs@.take(i as int),
                ) * factor,
            decreases self.limbs@.len() - i,
        {
            let limb: u64 = self.limbs[i];
            assert(limb as u128 * factor as u128 + carry as u128 <= u128::MAX
                && (limb as u128 * factor as u128 + carry as u128) / 0x1_0000_0000_0000_0000
                <= u64::MAX) by (nonlinear_arith)
                requires
                    limb <= u64::MAX,
                    factor <= u64::MAX,
                    carry <= u64::MAX,
            ;
            let wide: u128 = limb as u128 * factor as u128 + carry as u128;
            let low: u64 = (wide % 0x1_0000_0000_0000_0000) as u64;
            let high: u64 = (wide / 0x1_0000_0000_0000_0000) as u64;
            proof {
                let p = radix_pow(i as nat);
                let done = limbs_value(self.limbs@.take(i as int));
                lemma_value_push(out@, low);
                assert(self.limbs@.take(i + 1) =~= self.limbs@.take(i as int).push(limb));
                lemma_value_push(self.limbs@.take(i as int), limb);
                assert(radix_pow((i + 1) as nat) == radix() * p);
                assert(limbs_value(out@) + low as nat * p + high as nat * (radix() * p) == (done
                    + limb as nat * p) * factor) by (nonlinear_arith)
                    requires
                        limbs_value(out@) + carry as nat * p == done * factor,
                        low as nat + high as nat * radix() == limb as nat * factor as nat
                            + carry as nat,
                ;
            }
            out.push(low);
            carry = high;
            i += 1;
        }
        proof {
            lemma_value_push(out@, carry);
            assert(self.limbs@.take(self.limbs@.len() as int) =~= self.limbs@);
        }
        out.push(carry);
        BigNat { limbs: out }
    }

    /// The sum of the number and `other`.
    pub fn plus(&self, other: &BigNat) -> (sum: BigNat)
        ensures
            sum@ == self@ + other@,
    {
        let n: usize = if self.limbs.len() >= other.limbs.len() {
            self.limbs.len()
        } else {
            other.limbs.len()
        };
        let a = padded(&self.limbs, n);
        let b = padded(&other.limbs, n);
        let mut out: Vec<u64> = Vec::new();
        let mut carry: u64 = 0;
        let mut i: usize = 0;
        assert(a@.take(0) =~= Seq::<u64>::empty());
        assert(b@.take(0) =~= Seq::<u64>::empty());
        while i < n
            invariant
                i <= n,
                a@.len() == n,
                b@.len() == n,
                out@.len() == i,
                carry <= 1,
                limbs_value(a@) == self@,
                limbs_value(b@) == other@,
                limbs_value(out@) + carry as nat * radix_pow(i as nat) == limbs_value(
                    a@.take(i as int),
                ) + limbs_value(b@.take(i as int)),
            decreases n - i,
        {
            let wide: u128 = a[i] as u128 + b[i] as u128 + carry as u128;
            let low: u64 = (wide % 0x1_0000_0000_0000_0000) as u64;
            let high: u64 = (wide / 0x1_0000_0000_0000_0000) as u64;
            proof {
                let p = radix_pow(i as nat);
                lemma_value_push(out@, low);
                assert(a@.take(i + 1) =~= a@.take(i as int).push(a@[i as int]));
                assert(b@.take(i + 1) =~= b@.take(i as int).push(b@[i as int]));
                lemma_value_push(a@.take(i as int), a@[i as int]);
                lemma_value_push(b@.take(i as int), b@[i as int]);
                assert(radix_pow((i + 1) as nat) == radix() * p);
                assert(limbs_value(out@) + low as nat * p + high as nat * (radix() * p)
                    == limbs_value(a@.take(i as int)) + a@[i as int] as nat * p + limbs_value(
                    b@.take(i as int),
                ) + b@[i as int] as nat * p) by (nonlinear_arith)
                    requires
                        limbs_value(out@) + carry as nat * p == limbs_value(a@.take(i as int))
                            + limbs_value(b@.take(i as int)),
                        low as nat + high as nat * radix() == a@[i as int] as nat + b@[i as int]
                            as nat + carry as nat,
                ;
            }
            out.push(low);
            carry = high;
            i += 1;
        }
        proof {
            lemma_value_push(out@, carry);
            assert(a@.take(n as int) =~= a@);
            assert(b@.take(n as int) =~= b@);
        }
        out.push(carry);
        BigNat { limbs: out }
    }

    /// Whether the number is at most `other`.
    pub fn at_most(&self, other: &BigNat) -> (le: bool)
        ensures
            le == (self@ <= other@),
    {
        let n: usize = if self.limbs.len() >= other.limbs.len() {
            self.limbs.len()
        } else {
            other.limbs.len()
        };
        let a = padded(&self.limbs, n);
        let b = padded(&other.limbs, n);
        let mut i: usize = n;
        assert(a@.skip(n as int) =~= b@.skip(n as int));
        while i > 0
            invariant
                i <= n,
                a@.len() == n,
                b@.len() == n,
                a@.skip(i as int) == b@.skip(i as int),
                limbs_value(a@) == self@,
                limbs_value(b@) == other@,
            decreases i,
        {
            i -= 1;
            if a[i] != b[i] {
                proof {
                    if a@[i as int] < b@[i as int] {
                        lemma_first_difference(a@, b@, i as int);
                    } else {
                        lemma_first_difference(b@, a@, i as int);
                    }
                }
                return a[i] < b[i];
            }
            assert(a@.skip(i as int) =~= seq![a@[i as int]] + a@.skip(i + 1));
            assert(b@.skip(i as int) =~= seq![b@[i as int]] + b@.skip(i + 1));
        }
        assert(a@.skip(0) =~= a@);
        assert(b@.skip(0) =~= b@);
        true
    }
}

/// `limbs` with zeros added at the significant end until there are `n`.
fn padded(limbs: &Vec<u64>, n: usize) -> (out: Vec<u64>)
    requires
        limbs@.len() <= n,
    ensures
        out@.len() == n,
        limbs_value(out@) == limbs_value(limbs@),
{
    let mut out: Vec<u64> = limbs.clone();
    assert(out@ =~= limbs@);
    while out.len() < n
        invariant
            out@.len() <= n,
            limbs_value(out@) == limbs_value(limbs@),
        decreases n - out@.len(),
    {
        proof {
            lemma_value_push(out@, 0);
        }
        out.push(0);
    }
    out
}

/// Of two numbers of as many limbs that agree above limb `i`, the one with
/// the smaller limb `i` is the smaller.
proof fn lemma_first_difference(a: Seq<u64>, b: Seq<u64>, i: int)
    requires
        a.len() == b.len(),
        0 <= i < a.len(),
        a.skip(i + 1) == b.skip(i + 1),
        a[i] < b[i],
    ensures
        limbs_value(a) < limbs_value(b),
    decreases a.len(),
{
    let n = a.len();
    let a0 = a.drop_last();
    let b0 = b.drop_last();
    if i == n - 1 {
        lemma_value_bound(a0);
        let p = radix_pow(a0.len());
        assert(limbs_value(a0) + a[i] as nat * p < limbs_value(b0) + b[i] as nat * p)
            by (nonlinear_arith)
            requires
                limbs_value(a0) < p,
                a[i] < b[i],
                limbs_value(b0) >= 0,
        ;
    } else {
        assert(a.last() == a.skip(i + 1)[n - 1 - (i + 1)]);
        assert(b.last() == b.skip(i + 1)[n - 1 - (i + 1)]);
        assert(a0.skip(i + 1) =~= b0.skip(i + 1)) by {
            assert forall|j: int| 0 <= j < a0.skip(i + 1).len() implies #[trigger] a0.skip(
                i + 1,
            )[j] == b0.skip(i + 1)[j] by {
                assert(a0.skip(i + 1)[j] == a.skip(i + 1)[j]);
                assert(b0.skip(i + 1)[j] == b.skip(i + 1)[j]);
            }
        }
        lemma_first_difference(a0, b0, i);
    }
}

} // verus!
