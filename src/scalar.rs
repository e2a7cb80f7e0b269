use vstd::prelude::*;

verus! {

/// The base of one digit: 2^32.
pub const DIGIT_BASE: u64 = 0x1_0000_0000;

/// The value of a little-endian sequence of base-2^32 digits.
pub open spec fn digits_value(d: Seq<u32>) -> nat
    decreases d.len(),
{
    if d.len() == 0 {
        0
    } else {
        d[0] as nat + 0x1_0000_0000 * digits_value(d.drop_first())
    }
}

/// A field element held as the little-endian base-2^32 digits of its
/// canonical (non-negative) representative.
#[derive(Debug)]
pub struct Scalar {
    pub digits: Vec<u32>,
}

impl View for Scalar {
    type V = Seq<u32>;

    open spec fn view(&self) -> Seq<u32> {
        self.digits@
    }
}

proof fn lemma_all_zero(d: Seq<u32>)
    requires
        forall|i: int| 0 <= i < d.len() ==> d[i] == 0,
    ensures
        digits_value(d) == 0,
    decreases d.len(),
{
    if d.len() > 0 {
        lemma_all_zero(d.drop_first());
    }
}

proof fn lemma_some_nonzero(d: Seq<u32>, k: int)
    requires
        0 <= k < d.len(),
        d[k] != 0,
    ensures
        digits_value(d) >= 1,
    decreases d.len(),
{
    if k > 0 {
        lemma_some_nonzero(d.drop_first(), k - 1);
    }
}

proof fn lemma_split_two(d: Seq<u32>)
    requires
        d.len() >= 2,
    ensures
        digits_value(d) == d[0] as nat + 0x1_0000_0000 * d[1] as nat
            + 0x1_0000_0000_0000_0000 * digits_value(d.subrange(2, d.len() as int)),
{
    let d1 = d.drop_first();
    assert(d1.drop_first() =~= d.subrange(2, d.len() as int));
    assert(digits_value(d) == d[0] as nat + 0x1_0000_0000 * digits_value(d1));
    assert(digits_value(d1) == d1[0] as nat + 0x1_0000_0000 * digits_value(d1.drop_first()));
    let r = digits_value(d.subrange(2, d.len() as int));
    assert(0x1_0000_0000 * (d[1] as nat + 0x1_0000_0000 * r) == 0x1_0000_0000 * d[1] as nat
        + 0x1_0000_0000_0000_0000 * r) by (nonlinear_arith);
}

impl Scalar {
    /// The number this scalar stands for.
    pub open spec fn value(&self) -> nat {
        digits_value(self.digits@)
    }

    /// A scalar from its little-endian base-2^32 digits.
    pub fn from_digits(digits: Vec<u32>) -> (r: Scalar)
        ensures
            r@ == digits@,
    {
        Scalar { digits }
    }

    /// The scalar holding `v`.
    pub fn from_u64(v: u64) -> (r: Scalar)
        ensures
            r.value() == v as nat,
    {
        let lo = (v % DIGIT_BASE) as u32;
        let hi = (v / DIGIT_BASE) as u32;
        let mut digits: Vec<u32> = Vec::new();
        digits.push(lo);
        digits.push(hi);
        proof {
            let d = digits@;
            reveal_with_fuel(digits_value, 3);
            assert(d.drop_first().drop_first().len() == 0);
            assert(digits_value(d.drop_first()) == hi as nat);
            assert(v == lo + DIGIT_BASE * hi);
        }
        Scalar { digits }
    }

    /// A copy of this scalar with the same digits.
    pub fn duplicate(&self) -> (r: Scalar)
        ensures
            r@ == self@,
    {
        let mut digits: Vec<u32> = Vec::new();
        let mut i: usize = 0;
        while i < self.digits.len()
            invariant
                i <= self.digits@.len(),
                digits@ == self.digits@.subrange(0, i as int),
            decreases self.digits@.len() - i,
        {
            digits.push(self.digits[i]);
            i = i + 1;
        }
        assert(digits@ =~= self.digits@);
        Scalar { digits }
    }

    /// The value as a native unsigned integer, or `None` where it does not fit.
    pub fn to_u64(&self) -> (r: Option<u64>)
        ensures
            r is Some <==> self.value() <= u64::MAX,
            r matches Some(v) ==> v as nat == self.value(),
    {
        let d = &self.digits;
        let n = d.len();
        let mut i: usize = 2;
        while i < n
            invariant
                n == d@.len(),
                d@ == self.digits@,
                2 <= i,
                forall|j: int| 2 <= j < i && j < n ==> d@[j] == 0,
            decreases n - i,
        {
            if d[i] != 0 {
                proof {
                    let rest = d@.subrange(2, n as int);
                    assert(rest[i - 2] != 0);
                    lemma_some_nonzero(rest, i - 2);
                    lemma_split_two(d@);
                    assert(0x1_0000_0000_0000_0000 * digits_value(rest) >= 0x1_0000_0000_0000_0000)
                        by (nonlinear_arith)
                        requires
                            digits_value(rest) >= 1,
                    ;
                    assert(self.value() >= 0x1_0000_0000_0000_0000);
                }
                return None;
            }
            i = i + 1;
        }
        if n == 0 {
            return Some(0);
        }
        if n == 1 {
            proof {
                reveal_with_fuel(digits_value, 2);
                assert(d@.drop_first().len() == 0);
            }
            return Some(d[0] as u64);
        }
        proof {
            let rest = d@.subrange(2, n as int);
            lemma_all_zero(rest);
            lemma_split_two(d@);
            assert(d[1] as u64 * DIGIT_BASE <= 0xFFFF_FFFF_0000_0000) by (nonlinear_arith)
                requires
                    d[1] <= 0xFFFF_FFFF,
            ;
        }
        Some(d[1] as u64 * DIGIT_BASE + d[0] as u64)
    }
}

} // verus!
