use vstd::prelude::*;

use crate::storage::Stored;

verus! {

/// `256` to the power `n`.
pub open spec fn pow256(n: nat) -> nat
    decreases n,
{
    if n == 0 {
        1
    } else {
        256 * pow256((n - 1) as nat)
    }
}

/// The `i`-th little-endian base-256 digit of `s`; zero past its end.
pub open spec fn digit(s: Seq<u8>, i: int) -> nat {
    if 0 <= i < s.len() {
        s[i] as nat
    } else {
        0
    }
}

/// The number written by the lowest `n` digits of `s`.
pub open spec fn prefix_value(s: Seq<u8>, n: nat) -> nat
    decreases n,
{
    if n == 0 {
        0
    } else {
        prefix_value(s, (n - 1) as nat) + digit(s, n - 1) * pow256((n - 1) as nat)
    }
}

/// The number written by little-endian base-256 digits.
pub open spec fn le_value(s: Seq<u8>) -> nat {
    prefix_value(s, s.len())
}

/// The number written by big-endian base-256 digits.
pub open spec fn be_value(s: Seq<u8>) -> nat {
    le_value(s.reverse())
}

pub proof fn lemma_pow256_positive(n: nat)
    ensures
        pow256(n) >= 1,
    decreases n,
{
    if n > 0 {
        lemma_pow256_positive((n - 1) as nat);
    }
}

proof fn lemma_mul_le(d: nat, p: nat)
    requires
        d <= 255,
    ensures
        d * p <= 255 * p,
{
    assert(d * p <= 255 * p) by (nonlinear_arith)
        requires
            d <= 255,
    ;
}

/// The lowest `n` digits write a number below `256^n`.
pub proof fn lemma_prefix_bound(s: Seq<u8>, n: nat)
    ensures
        prefix_value(s, n) < pow256(n),
    decreases n,
{
    if n > 0 {
        lemma_prefix_bound(s, (n - 1) as nat);
        lemma_mul_le(digit(s, n - 1), pow256((n - 1) as nat));
    }
}

/// Two digit sequences that agree below `n` write the same prefix.
pub proof fn lemma_prefix_agree(s1: Seq<u8>, s2: Seq<u8>, n: nat)
    requires
        forall|j: int| 0 <= j < n ==> digit(s1, j) == digit(s2, j),
    ensures
        prefix_value(s1, n) == prefix_value(s2, n),
    decreases n,
{
    if n > 0 {
        lemma_prefix_agree(s1, s2, (n - 1) as nat);
    }
}

/// Zero digits at and above `m` add nothing.
pub proof fn lemma_prefix_zero_top(s: Seq<u8>, m: nat, n: nat)
    requires
        m <= n,
        forall|j: int| m <= j < n ==> digit(s, j) == 0,
    ensures
        prefix_value(s, n) == prefix_value(s, m),
    decreases n,
{
    if n > m {
        lemma_prefix_zero_top(s, m, (n - 1) as nat);
        assert(digit(s, n - 1) == 0);
        assert(prefix_value(s, n) == prefix_value(s, (n - 1) as nat) + 0 * pow256((n - 1) as nat));
    }
}

/// The lowest digit is the remainder by 256.
pub proof fn lemma_low_digit(s: Seq<u8>, n: nat)
    requires
        n >= 1,
    ensures
        prefix_value(s, n) % 256 == digit(s, 0),
    decreases n,
{
    if n == 1 {
        assert(prefix_value(s, 0) == 0);
        assert(pow256(0) == 1);
        assert(prefix_value(s, 1) == digit(s, 0) * 1);
    } else {
        lemma_low_digit(s, (n - 1) as nat);
        let p = pow256((n - 2) as nat);
        let d = digit(s, n - 1);
        let a = prefix_value(s, (n - 1) as nat);
        assert(pow256((n - 1) as nat) == 256 * p);
        assert((a + d * (256 * p)) % 256 == a % 256) by (nonlinear_arith)
            requires
                a >= 0,
                d >= 0,
                p >= 0,
        {
            assert(a + d * (256 * p) == a + 256 * (d * p));
            vstd::arithmetic::div_mod::lemma_mod_multiples_vanish((d * p) as int, a as int, 256);
        }
    }
}

/// The shortest big-endian base-256 digits of `n`: empty for zero.
pub open spec fn minimal_be(n: nat) -> Seq<u8>
    decreases n,
{
    if n == 0 {
        Seq::empty()
    } else {
        minimal_be(n / 256).push((n % 256) as u8)
    }
}

/// Putting a digit below a number multiplies the number by 256 and adds it.
pub proof fn lemma_prefix_shift(d: u8, s: Seq<u8>, n: nat)
    requires
        n >= 1,
    ensures
        prefix_value(seq![d] + s, n) == d + 256 * prefix_value(s, (n - 1) as nat),
    decreases n,
{
    let x = seq![d] + s;
    if n == 1 {
        assert(prefix_value(x, 0) == 0);
        assert(digit(x, 0) == d);
        assert(pow256(0) == 1);
        assert(prefix_value(s, 0) == 0);
    } else {
        lemma_prefix_shift(d, s, (n - 1) as nat);
        let m = (n - 2) as nat;
        assert(digit(x, n - 1) == digit(s, n - 2));
        assert(pow256((n - 1) as nat) == 256 * pow256(m));
        let a = prefix_value(s, m);
        let e = digit(s, n - 2);
        let p = pow256(m);
        assert(prefix_value(s, (n - 1) as nat) == a + e * p);
        assert(d + 256 * a + e * (256 * p) == d + 256 * (a + e * p)) by (nonlinear_arith);
    }
}

/// Big-endian digits with a digit appended at the end.
pub proof fn lemma_be_push(r: Seq<u8>, d: u8)
    ensures
        be_value(r.push(d)) == d + 256 * be_value(r),
{
    assert(r.push(d).reverse() =~= seq![d] + r.reverse());
    lemma_prefix_shift(d, r.reverse(), r.len() + 1);
}

/// Big-endian digits without a leading zero are the shortest digits of their value.
pub proof fn lemma_minimal_be_unique(r: Seq<u8>)
    requires
        r.len() == 0 || r[0] != 0,
    ensures
        r == minimal_be(be_value(r)),
    decreases r.len(),
{
    if r.len() == 0 {
        assert(be_value(r) == 0) by {
            assert(r.reverse().len() == 0);
        }
    } else {
        let q = r.drop_last();
        let d = r.last();
        assert(r =~= q.push(d));
        lemma_be_push(q, d);
        if q.len() > 0 {
            assert(q[0] == r[0]);
        }
        lemma_minimal_be_unique(q);
        let n = be_value(r);
        let w = be_value(q);
        assert(n == d + 256 * w);
        assert(n % 256 == d && n / 256 == w) by {
            vstd::arithmetic::div_mod::lemma_fundamental_div_mod_converse(n as int, 256, w as int, d as int);
        }
        if n == 0 {
            assert(w == 0);
            assert(q == minimal_be(0));
            assert(r[0] == d);
        }
        assert(minimal_be(n) == minimal_be(w).push(d));
    }
}

proof fn lemma_digit_step(sum: int, d: int, c: int, p: int)
    requires
        sum == d + 256 * c,
    ensures
        d * p + c * (256 * p) == sum * p,
{
    assert(d * p + c * (256 * p) == sum * p) by (nonlinear_arith)
        requires
            sum == d + 256 * c,
    ;
}

/// A natural number of any size, written as little-endian base-256 digits.
pub struct Amount {
    digits: Vec<u8>,
}

impl View for Amount {
    type V = nat;

    closed spec fn view(&self) -> nat {
        le_value(self.digits@)
    }
}

impl Amount {
    pub fn zero() -> (r: Amount)
        ensures
            r@ == 0,
    {
        Amount { digits: Vec::new() }
    }

    pub fn from_u64(x: u64) -> (r: Amount)
        ensures
            r@ == x as nat,
    {
        let mut digits: Vec<u8> = Vec::new();
        let mut rest: u64 = x;
        assert(digits@.len() == 0 && pow256(0) == 1 && prefix_value(digits@, 0) == 0);
        while rest > 0
            invariant
                prefix_value(digits@, digits@.len()) + pow256(digits@.len()) * rest == x,
            decreases rest,
        {
            let d: u8 = (rest % 256) as u8;
            let q: u64 = rest / 256;
            let ghost i = digits@.len();
            let ghost before = digits@;
            digits.push(d);
            proof {
                lemma_prefix_agree(before, digits@, i);
                assert(digit(digits@, i as int) == d as nat);
                let p = pow256(i);
                assert(pow256(i + 1) == 256 * p);
                assert(rest == d + 256 * q);
                lemma_digit_step(rest as int, d as int, q as int, p as int);
                assert(p * rest == rest * p) by (nonlinear_arith);
                assert(pow256(i + 1) * q == q * (256 * p)) by (nonlinear_arith)
                    requires
                        pow256(i + 1) == 256 * p,
                ;
            }
            rest = q;
        }
        Amount { digits }
    }

    /// The number written by big-endian bytes.
    pub fn from_be_bytes(bytes: &Vec<u8>) -> (r: Amount)
        ensures
            r@ == be_value(bytes@),
    {
        let mut digits: Vec<u8> = Vec::new();
        let mut i: usize = bytes.len();
        while i > 0
            invariant
                i <= bytes.len(),
                digits@ == bytes@.subrange(i as int, bytes@.len() as int).reverse(),
            decreases i,
        {
            i = i - 1;
            digits.push(bytes[i]);
            assert(digits@ =~= bytes@.subrange(i as int, bytes@.len() as int).reverse());
        }
        assert(bytes@.subrange(0, bytes@.len() as int) =~= bytes@);
        Amount { digits }
    }

    /// Shortest big-endian bytes of the number: empty for zero, and
    /// otherwise starting with a non-zero byte.
    pub fn to_be_bytes(&self) -> (r: Vec<u8>)
        ensures
            r@ == minimal_be(self@),
            be_value(r@) == self@,
            r@.len() == 0 || r@[0] != 0,
            r@.len() == 0 <==> self@ == 0,
    {
        let n = self.digits.len();
        let mut top: usize = n;
        while top > 0 && self.digits[top - 1] == 0
            invariant
                top <= n,
                n == self.digits@.len(),
                forall|j: int| top <= j < n ==> self.digits@[j] == 0,
            decreases top,
        {
            top = top - 1;
        }
        proof {
            lemma_prefix_zero_top(self.digits@, top as nat, n as nat);
        }
        let mut r: Vec<u8> = Vec::new();
        let mut i: usize = top;
        while i > 0
            invariant
                i <= top <= n,
                n == self.digits@.len(),
                r@ == self.digits@.subrange(i as int, top as int).reverse(),
            decreases i,
        {
            i = i - 1;
            r.push(self.digits[i]);
            assert(r@ =~= self.digits@.subrange(i as int, top as int).reverse());
        }
        proof {
            let low = self.digits@.subrange(0, top as int);
            assert(r@.reverse() =~= low);
            lemma_prefix_agree(low, self.digits@, top as nat);
            if top > 0 {
                assert(r@[0] == self.digits@[top - 1]);
                lemma_pow256_positive((top - 1) as nat);
                assert(digit(self.digits@, top - 1) >= 1);
                assert(digit(self.digits@, top - 1) * pow256((top - 1) as nat) >= 1) by (nonlinear_arith)
                    requires
                        digit(self.digits@, top - 1) >= 1,
                        pow256((top - 1) as nat) >= 1,
                ;
            } else {
                assert(r@.len() == 0);
            }
            lemma_minimal_be_unique(r@);
        }
        r
    }

    pub fn add(&self, other: &Amount) -> (r: Amount)
        ensures
            r@ == self@ + other@,
    {
        let la = self.digits.len();
        let lb = other.digits.len();
        let n = if la < lb {
            lb
        } else {
            la
        };
        let mut r: Vec<u8> = Vec::new();
        let mut carry: u16 = 0;
        let mut i: usize = 0;
        while i < n
            invariant
                i <= n,
                la == self.digits@.len(),
                lb == other.digits@.len(),
                r@.len() == i,
                carry <= 1,
                prefix_value(r@, i as nat) + carry * pow256(i as nat) == prefix_value(self.digits@, i as nat)
                    + prefix_value(other.digits@, i as nat),
            decreases n - i,
        {
            let da: u16 = if i < la {
                self.digits[i] as u16
            } else {
                0
            };
            let db: u16 = if i < lb {
                other.digits[i] as u16
            } else {
                0
            };
            let sum: u16 = da + db + carry;
            let d: u8 = (sum % 256) as u8;
            let ghost before = r@;
            r.push(d);
            proof {
                lemma_prefix_agree(before, r@, i as nat);
                assert(digit(r@, i as int) == d as nat);
                assert(digit(self.digits@, i as int) == da as nat);
                assert(digit(other.digits@, i as int) == db as nat);
                let p = pow256(i as nat);
                assert(pow256((i + 1) as nat) == 256 * p);
                lemma_digit_step(sum as int, d as int, (sum / 256) as int, p as int);
                assert((da + db) * p == da * p + db * p) by (nonlinear_arith);
                assert(sum * p == (da + db) * p + carry * p) by (nonlinear_arith)
                    requires
                        sum == da + db + carry,
                ;
            }
            carry = sum / 256;
            i = i + 1;
        }
        proof {
            lemma_prefix_zero_top(self.digits@, la as nat, n as nat);
            lemma_prefix_zero_top(other.digits@, lb as nat, n as nat);
        }
        if carry == 1 {
            let ghost before = r@;
            r.push(1);
            proof {
                lemma_prefix_agree(before, r@, n as nat);
            }
        }
        Amount { digits: r }
    }

    /// Subtracts `other` digit by digit; the flag tells whether the
    /// subtraction borrowed past the top, that is, whether `self < other`.
    fn sub_with_borrow(&self, other: &Amount) -> (r: (Amount, bool))
        ensures
            r.1 == (self@ < other@),
            !r.1 ==> r.0@ == self@ - other@,
    {
        let la = self.digits.len();
        let lb = other.digits.len();
        let n = if la < lb {
            lb
        } else {
            la
        };
        let mut r: Vec<u8> = Vec::new();
        let mut borrow: u16 = 0;
        let mut i: usize = 0;
        while i < n
            invariant
                i <= n,
                la == self.digits@.len(),
                lb == other.digits@.len(),
                r@.len() == i,
                borrow <= 1,
                prefix_value(r@, i as nat) - borrow * pow256(i as nat) == prefix_value(self.digits@, i as nat)
                    - prefix_value(other.digits@, i as nat),
            decreases n - i,
        {
            let da: u16 = if i < la {
                self.digits[i] as u16
            } else {
                0
            };
            let db: u16 = if i < lb {
                other.digits[i] as u16
            } else {
                0
            };
            let t: u16 = da + 256 - db - borrow;
            let d: u8;
            let next: u16;
            if t >= 256 {
                d = (t - 256) as u8;
                next = 0;
            } else {
                d = t as u8;
                next = 1;
            }
            let ghost before = r@;
            r.push(d);
            proof {
                lemma_prefix_agree(before, r@, i as nat);
                assert(digit(r@, i as int) == d as nat);
                assert(digit(self.digits@, i as int) == da as nat);
                assert(digit(other.digits@, i as int) == db as nat);
                let p = pow256(i as nat);
                assert(pow256((i + 1) as nat) == 256 * p);
                let e: int = da - db - borrow;
                lemma_digit_step(e, d as int, -(next as int), p as int);
                assert(e * p == da * p - db * p - borrow * p) by (nonlinear_arith)
                    requires
                        e == da - db - borrow,
                ;
            }
            borrow = next;
            i = i + 1;
        }
        proof {
            lemma_prefix_zero_top(self.digits@, la as nat, n as nat);
            lemma_prefix_zero_top(other.digits@, lb as nat, n as nat);
            lemma_prefix_bound(r@, n as nat);
        }
        (Amount { digits: r }, borrow == 1)
    }

    /// Whether `self >= other`.
    pub fn ge(&self, other: &Amount) -> (b: bool)
        ensures
            b == (self@ >= other@),
    {
        !self.sub_with_borrow(other).1
    }

    pub fn is_zero(&self) -> (b: bool)
        ensures
            b == (self@ == 0),
    {
        Amount::zero().ge(self)
    }

    /// `self - other` when `self >= other`.
    pub fn checked_sub(&self, other: &Amount) -> (r: Option<Amount>)
        ensures
            r is Some <==> self@ >= other@,
            r matches Some(d) ==> d@ == self@ - other@,
    {
        let (d, borrowed) = self.sub_with_borrow(other);
        if borrowed {
            None
        } else {
            Some(d)
        }
    }

    /// Whether the number fits in a `u64`.
    pub fn fits_u64(&self) -> (b: bool)
        ensures
            b == (self@ <= u64::MAX),
    {
        Amount::from_u64(u64::MAX).ge(self)
    }

    /// The number modulo 256.
    pub fn low_byte(&self) -> (b: u8)
        ensures
            b as nat == self@ % 256,
    {
        if self.digits.len() == 0 {
            0
        } else {
            proof {
                lemma_low_digit(self.digits@, self.digits@.len());
            }
            self.digits[0]
        }
    }

    pub fn copy(&self) -> (r: Amount)
        ensures
            r@ == self@,
    {
        let digits = self.digits.clone();
        assert(digits@ =~= self.digits@);
        Amount { digits }
    }
}

impl Stored for Amount {
    open spec fn blank_view() -> nat {
        0
    }

    fn blank() -> (r: Amount) {
        Amount::zero()
    }

    fn copy_value(&self) -> (r: Amount) {
        self.copy()
    }
}

} // verus!
