use crate::bindings::{decimal_add, decimal_checked_add, decimal_checked_mul, decimal_mul};
use vstd::prelude::*;

verus! {

/// Largest number of fractional digits an amount may carry.
pub const MAX_SCALE: u32 = 28;

/// The bound that a mantissa stays strictly below in magnitude, `2^96`.
pub const MANTISSA_BOUND: i128 = 79228162514264337593543950336;

/// Ten to the power `n`.
pub open spec fn pow10(n: nat) -> int
    decreases n,
{
    if n == 0 {
        1
    } else {
        10 * pow10((n - 1) as nat)
    }
}

pub open spec fn in_range(x: int) -> bool {
    -MANTISSA_BOUND < x < MANTISSA_BOUND
}

/// A decimal amount, `mantissa / 10^scale`.
#[derive(Clone, Copy, Debug, PartialEq, Eq, Structural)]
pub struct Money {
    pub mantissa: i128,
    pub scale: u32,
}

/// The amount with these parts.
pub open spec fn money_of(p: (i128, u32)) -> Money {
    Money { mantissa: p.0, scale: p.1 }
}

impl Money {
    /// Within the range of a decimal: at most 28 fractional digits, mantissa below `2^96`.
    pub open spec fn wf(self) -> bool {
        self.scale <= MAX_SCALE && in_range(self.mantissa as int)
    }

    /// The amount counted in units of `10^-MAX_SCALE`.
    pub open spec fn value(self) -> int {
        self.mantissa * pow10((MAX_SCALE - self.scale) as nat)
    }

    pub open spec fn parts(self) -> (i128, u32) {
        (self.mantissa, self.scale)
    }

    pub fn zero() -> (r: Money)
        ensures
            r.wf(),
            r.value() == 0,
            r == (Money { mantissa: 0, scale: 0 }),
    {
        Money { mantissa: 0, scale: 0 }
    }

    /// Whether the amount is within the range of a decimal.
    pub fn is_valid(&self) -> (r: bool)
        ensures
            r == self.wf(),
    {
        self.scale <= MAX_SCALE && -MANTISSA_BOUND < self.mantissa && self.mantissa
            < MANTISSA_BOUND
    }

    /// An amount from its parts; `None` when they are out of range.
    pub fn from_parts(mantissa: i128, scale: u32) -> (r: Option<Money>)
        ensures
            (Money { mantissa, scale }).wf() ==> r == Some(Money { mantissa, scale }),
            !(Money { mantissa, scale }).wf() ==> r is None,
    {
        let m = Money { mantissa, scale };
        if m.is_valid() {
            Some(m)
        } else {
            None
        }
    }
}

/// One step of the running total: add `price × quantity` to `t`, with decimal arithmetic.
pub open spec fn step(t: Money, line: (Money, i32)) -> Option<Money> {
    match decimal_mul(line.0.parts(), line.1) {
        None => None,
        Some(l) => match decimal_add(t.parts(), l) {
            None => None,
            Some(r) => Some(money_of(r)),
        },
    }
}

/// Every amount of the lines is well formed.
pub open spec fn lines_wf(lines: Seq<(Money, i32)>) -> bool {
    forall|k: int| 0 <= k < lines.len() ==> (#[trigger] lines[k]).0.wf()
}

/// The exact value of `Σ price × quantity`.
pub open spec fn line_sum(lines: Seq<(Money, i32)>) -> int
    decreases lines.len(),
{
    if lines.len() == 0 {
        0
    } else {
        line_sum(lines.drop_last()) + lines.last().0.value() * lines.last().1
    }
}

/// `Σ mantissa × quantity`.
pub open spec fn mantissa_sum(lines: Seq<(Money, i32)>) -> int
    decreases lines.len(),
{
    if lines.len() == 0 {
        0
    } else {
        mantissa_sum(lines.drop_last()) + lines.last().0.mantissa * lines.last().1
    }
}

/// `Σ price × quantity` accumulated line by line from zero with decimal arithmetic; `None`
/// once a step overflows.
pub open spec fn total_of(lines: Seq<(Money, i32)>) -> Option<Money>
    decreases lines.len(),
{
    if lines.len() == 0 {
        Some(Money { mantissa: 0, scale: 0 })
    } else {
        match total_of(lines.drop_last()) {
            None => None,
            Some(t) => step(t, lines.last()),
        }
    }
}

/// Every price has scale `s`, and every line and every partial sum stays in range: decimal
/// arithmetic then computes the total exactly.
pub open spec fn exact_at(lines: Seq<(Money, i32)>, s: u32) -> bool {
    &&& forall|k: int| 0 <= k < lines.len() ==> (#[trigger] lines[k]).0.scale == s
    &&& forall|k: int|
        0 <= k < lines.len() ==> in_range((#[trigger] lines[k]).0.mantissa * lines[k].1)
    &&& forall|k: int| 0 <= k <= lines.len() ==> in_range(mantissa_sum(#[trigger] lines.subrange(0, k)))
}

/// The lines are empty, or priced at one scale with every sum in range.
pub open spec fn exact_lines(lines: Seq<(Money, i32)>) -> bool {
    lines.len() == 0 || exact_at(lines, lines[0].0.scale)
}

/// Once a prefix of the lines overflows, the whole sum does.
pub proof fn lemma_total_prefix_none(lines: Seq<(Money, i32)>, i: int)
    requires
        0 <= i <= lines.len(),
        total_of(lines.subrange(0, i)) is None,
    ensures
        total_of(lines) is None,
    decreases lines.len() - i,
{
    if i < lines.len() {
        let next = lines.subrange(0, i + 1);
        assert(next.drop_last() =~= lines.subrange(0, i));
        lemma_total_prefix_none(lines, i + 1);
    } else {
        assert(lines.subrange(0, i) =~= lines);
    }
}

pub proof fn lemma_uniform_value(lines: Seq<(Money, i32)>, s: u32)
    requires
        s <= MAX_SCALE,
        forall|k: int| 0 <= k < lines.len() ==> (#[trigger] lines[k]).0.scale == s,
    ensures
        line_sum(lines) == mantissa_sum(lines) * pow10((MAX_SCALE - s) as nat),
    decreases lines.len(),
{
    if lines.len() > 0 {
        let pre = lines.drop_last();
        assert forall|k: int| 0 <= k < pre.len() implies (#[trigger] pre[k]).0.scale == s by {
            assert(pre[k] == lines[k]);
        }
        lemma_uniform_value(pre, s);
        assert(lines.last() == lines[lines.len() - 1]);
        let p = pow10((MAX_SCALE - s) as nat);
        let a = mantissa_sum(pre);
        let m = lines.last().0.mantissa as int;
        let q = lines.last().1 as int;
        assert((a + m * q) * p == a * p + (m * p) * q) by (nonlinear_arith);
    }
}

/// `Σ price × quantity` over the lines, accumulated from zero in order with decimal
/// arithmetic; exact when the lines share one scale and every sum stays in range.
pub fn sum_lines(lines: &Vec<(Money, i32)>) -> (r: Option<Money>)
    requires
        lines_wf(lines@),
    ensures
        r == total_of(lines@),
        r matches Some(t) ==> t.wf(),
        exact_lines(lines@) ==> (r matches Some(t) && t.value() == line_sum(lines@)),
{
    let ghost s: u32 = if lines@.len() > 0 {
        lines@[0].0.scale
    } else {
        0
    };
    let ghost exact = lines@.len() > 0 && exact_at(lines@, s);
    let mut total = Money::zero();
    let mut i: usize = 0;
    while i < lines.len()
        invariant
            i <= lines.len(),
            lines_wf(lines@),
            total.wf(),
            total_of(lines@.subrange(0, i as int)) == Some(total),
            lines@.len() > 0 ==> s == lines@[0].0.scale,
            exact == (lines@.len() > 0 && exact_at(lines@, s)),
            exact ==> total.mantissa == mantissa_sum(lines@.subrange(0, i as int)) && (total.scale
                == s || total.mantissa == 0),
        decreases lines.len() - i,
    {
        let (price, quantity) = lines[i];
        let ghost pre = lines@.subrange(0, i as int);
        let ghost next = lines@.subrange(0, i + 1);
        assert(lines@[i as int] == (price, quantity));
        assert(next.drop_last() =~= pre);
        assert(next.last() == (price, quantity));
        assert(price.wf());
        assert(mantissa_sum(next) == mantissa_sum(pre) + price.mantissa * quantity);
        match decimal_checked_mul(price, quantity) {
            None => {
                assert(exact ==> in_range(lines@[i as int].0.mantissa * lines@[i as int].1));
                proof {
                    lemma_total_prefix_none(lines@, i + 1);
                }
                return None;
            },
            Some(line) => match decimal_checked_add(total, line) {
                None => {
                    proof {
                        if exact {
                            assert(in_range(mantissa_sum(lines@.subrange(0, i + 1))));
                            assert(in_range(lines@[i as int].0.mantissa * lines@[i as int].1));
                            assert(price.scale == s);
                            if price.mantissa * quantity != 0 {
                                assert(line.scale == s);
                                assert(line.mantissa == price.mantissa * quantity);
                                if total.mantissa != 0 {
                                    assert(total.scale == s);
                                    assert(in_range(total.mantissa + line.mantissa));
                                }
                            } else {
                                assert(line.mantissa == 0);
                            }
                            assert(false);
                        }
                        lemma_total_prefix_none(lines@, i + 1);
                    }
                    return None;
                },
                Some(t) => {
                    proof {
                        if exact {
                            assert(in_range(mantissa_sum(lines@.subrange(0, i + 1))));
                            assert(in_range(lines@[i as int].0.mantissa * lines@[i as int].1));
                            assert(lines@[i as int].0.scale == s);
                        }
                    }
                    total = t;
                },
            },
        }
        i = i + 1;
    }
    assert(lines@.subrange(0, i as int) =~= lines@);
    proof {
        if lines@.len() == 0 {
            assert(total == Money { mantissa: 0, scale: 0 });
        } else if exact {
            lemma_uniform_value(lines@, s);
            let p = pow10((MAX_SCALE - s) as nat);
            if total.mantissa == 0 {
                assert(total.value() == 0);
            }
        }
    }
    Some(total)
}

} // verus!
