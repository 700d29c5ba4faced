use vstd::prelude::*;

verus! {

// Fixed-width unsigned integers of six 64-bit limbs (values below 2^384),
// just wide enough to evaluate the level curve's 10th powers exactly.

/// Base of one limb, 2^64, as a mathematical integer.
pub open spec fn limb_base() -> int {
    0x10000000000000000
}

/// 2^128.
pub open spec fn limb_base2() -> int {
    0x100000000000000000000000000000000int
}

/// 2^192.
pub open spec fn limb_base3() -> int {
    0x1000000000000000000000000000000000000000000000000int
}

/// 2^256.
pub open spec fn limb_base4() -> int {
    0x10000000000000000000000000000000000000000000000000000000000000000int
}

/// 2^320.
pub open spec fn limb_base5() -> int {
    0x100000000000000000000000000000000000000000000000000000000000000000000000000000000int
}

/// Value of six little-endian limbs.
pub open spec fn wide_val(s: Seq<u64>) -> int {
    s[0] + limb_base() * s[1] + limb_base2() * s[2] + limb_base3() * s[3] + limb_base4() * s[4]
        + limb_base5() * s[5]
}

/// One more than the largest representable value: 2^384.
pub open spec fn wide_cap() -> int {
    0x1000000000000000000000000000000000000000000000000000000000000000000000000000000000000000000000000int
}

pub struct Wide {
    pub limbs: Vec<u64>,
}

impl Wide {
    pub open spec fn wf(&self) -> bool {
        self.limbs@.len() == 6
    }

    pub open spec fn val(&self) -> int {
        wide_val(self.limbs@)
    }

    pub fn from_u64(x: u64) -> (r: Wide)
        ensures
            r.wf(),
            r.val() == x,
    {
        let mut limbs: Vec<u64> = Vec::new();
        limbs.push(x);
        limbs.push(0);
        limbs.push(0);
        limbs.push(0);
        limbs.push(0);
        limbs.push(0);
        Wide { limbs }
    }
}

proof fn lemma_wide_val_nonneg(s: Seq<u64>)
    requires
        s.len() == 6,
    ensures
        0 <= wide_val(s) < wide_cap(),
{
    assert(0 <= s[0] <= 0xffffffffffffffffu64);
    assert(0 <= s[1] <= 0xffffffffffffffffu64);
    assert(0 <= s[2] <= 0xffffffffffffffffu64);
    assert(0 <= s[3] <= 0xffffffffffffffffu64);
    assert(0 <= s[4] <= 0xffffffffffffffffu64);
    assert(0 <= s[5] <= 0xffffffffffffffffu64);
}

/// Multiply one limb by a scalar, absorbing an incoming carry; the pair
/// (low, high) satisfies limb * c + carry == low + 2^64 * high.
fn mul_limb(l: u64, c: u64, carry: u64) -> (r: (u64, u64))
    ensures
        l * c + carry == r.0 + limb_base() * r.1,
{
    proof {
        assert((l as int) * (c as int) <= 0xffffffffffffffff * 0xffffffffffffffff) by (nonlinear_arith)
            requires
                0 <= l <= 0xffffffffffffffffu64,
                0 <= c <= 0xffffffffffffffffu64,
        ;
    }
    let p: u128 = (l as u128) * (c as u128) + (carry as u128);
    let low: u64 = (p % 0x10000000000000000u128) as u64;
    let high: u64 = (p / 0x10000000000000000u128) as u64;
    proof {
        assert(p == low + limb_base() * high) by {
            assert(p % 0x10000000000000000u128 + 0x10000000000000000u128 * (p
                / 0x10000000000000000u128) == p) by (nonlinear_arith);
        };
    }
    (low, high)
}

impl Wide {
    /// Multiply by a small scalar; the product must stay below 2^384.
    pub fn mul_u64(&self, c: u64) -> (r: Wide)
        requires
            self.wf(),
            self.val() * c < wide_cap(),
        ensures
            r.wf(),
            r.val() == self.val() * c,
    {
        let (o0, c1) = mul_limb(self.limbs[0], c, 0);
        let (o1, c2) = mul_limb(self.limbs[1], c, c1);
        let (o2, c3) = mul_limb(self.limbs[2], c, c2);
        let (o3, c4) = mul_limb(self.limbs[3], c, c3);
        let (o4, c5) = mul_limb(self.limbs[4], c, c4);
        let (o5, c6) = mul_limb(self.limbs[5], c, c5);
        let mut limbs: Vec<u64> = Vec::new();
        limbs.push(o0);
        limbs.push(o1);
        limbs.push(o2);
        limbs.push(o3);
        limbs.push(o4);
        limbs.push(o5);
        let r = Wide { limbs };
        proof {
            let s = self.limbs@;
            assert(wide_val(s) * c == s[0] * c + limb_base() * (s[1] * c) + limb_base2() * (s[2]
                * c) + limb_base3() * (s[3] * c) + limb_base4() * (s[4] * c) + limb_base5() * (s[5]
                * c)) by (nonlinear_arith)
                requires
                    s.len() == 6,
                    wide_val(s) == s[0] + limb_base() * s[1] + limb_base2() * s[2] + limb_base3()
                        * s[3] + limb_base4() * s[4] + limb_base5() * s[5],
            ;
            assert(r.val() + wide_cap() * c6 == self.val() * c);
            lemma_wide_val_nonneg(r.limbs@);
            assert(c6 == 0);
        }
        r
    }

    /// Compare two wide values.
    pub fn le(&self, other: &Wide) -> (r: bool)
        requires
            self.wf(),
            other.wf(),
        ensures
            r == (self.val() <= other.val()),
    {
        let a = &self.limbs;
        let b = &other.limbs;
        proof {
            lemma_wide_prefix_bound(self.limbs@, other.limbs@);
        }
        if a[5] != b[5] {
            a[5] < b[5]
        } else if a[4] != b[4] {
            a[4] < b[4]
        } else if a[3] != b[3] {
            a[3] < b[3]
        } else if a[2] != b[2] {
            a[2] < b[2]
        } else if a[1] != b[1] {
            a[1] < b[1]
        } else {
            a[0] <= b[0]
        }
    }
}

/// Lexicographic comparison from the most significant limb decides the order
/// of the values: the lower limbs together stay below one unit of the next limb.
proof fn lemma_wide_prefix_bound(a: Seq<u64>, b: Seq<u64>)
    requires
        a.len() == 6,
        b.len() == 6,
    ensures
        a[5] < b[5] ==> wide_val(a) < wide_val(b),
        b[5] < a[5] ==> wide_val(b) < wide_val(a),
        a[5] == b[5] && a[4] < b[4] ==> wide_val(a) < wide_val(b),
        a[5] == b[5] && b[4] < a[4] ==> wide_val(b) < wide_val(a),
        a[5] == b[5] && a[4] == b[4] && a[3] < b[3] ==> wide_val(a) < wide_val(b),
        a[5] == b[5] && a[4] == b[4] && b[3] < a[3] ==> wide_val(b) < wide_val(a),
        a[5] == b[5] && a[4] == b[4] && a[3] == b[3] && a[2] < b[2] ==> wide_val(a) < wide_val(b),
        a[5] == b[5] && a[4] == b[4] && a[3] == b[3] && b[2] < a[2] ==> wide_val(b) < wide_val(a),
        a[5] == b[5] && a[4] == b[4] && a[3] == b[3] && a[2] == b[2] && a[1] < b[1] ==> wide_val(a)
            < wide_val(b),
        a[5] == b[5] && a[4] == b[4] && a[3] == b[3] && a[2] == b[2] && b[1] < a[1] ==> wide_val(b)
            < wide_val(a),
        a[5] == b[5] && a[4] == b[4] && a[3] == b[3] && a[2] == b[2] && a[1] == b[1] ==> (wide_val(
            a,
        ) <= wide_val(b) <==> a[0] <= b[0]),
{
    assert(0 <= a[0] <= 0xffffffffffffffffu64 && 0 <= b[0] <= 0xffffffffffffffffu64);
    assert(0 <= a[1] <= 0xffffffffffffffffu64 && 0 <= b[1] <= 0xffffffffffffffffu64);
    assert(0 <= a[2] <= 0xffffffffffffffffu64 && 0 <= b[2] <= 0xffffffffffffffffu64);
    assert(0 <= a[3] <= 0xffffffffffffffffu64 && 0 <= b[3] <= 0xffffffffffffffffu64);
    assert(0 <= a[4] <= 0xffffffffffffffffu64 && 0 <= b[4] <= 0xffffffffffffffffu64);
    assert(0 <= a[5] <= 0xffffffffffffffffu64 && 0 <= b[5] <= 0xffffffffffffffffu64);
}

} // verus!
