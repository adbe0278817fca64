//! Ledger vocabulary shared by every part of the contract: accounts, token
//! movements and the integer arithmetic of the host.

use vstd::prelude::*;

use crate::table::TableKey;

verus! {

/// An account or a contract on the ledger, known by its number.
#[derive(Clone, Copy, PartialEq, Eq, Structural, Debug)]
pub struct Address(pub u64);

impl TableKey for Address {
    fn same_key(&self, other: &Self) -> (r: bool) {
        self.0 == other.0
    }
}

impl TableKey for (Address, Address) {
    fn same_key(&self, other: &Self) -> (r: bool) {
        self.0.0 == other.0.0 && self.1.0 == other.1.0
    }
}

impl TableKey for (u64, Address) {
    fn same_key(&self, other: &Self) -> (r: bool) {
        self.0 == other.0 && self.1.0 == other.1.0
    }
}

impl TableKey for (u64, u64) {
    fn same_key(&self, other: &Self) -> (r: bool) {
        self.0 == other.0 && self.1 == other.1
    }
}

impl TableKey for (u64, Address, Address) {
    fn same_key(&self, other: &Self) -> (r: bool) {
        self.0 == other.0 && self.1.0 == other.1.0 && self.2.0 == other.2.0
    }
}

/// A movement of tokens that an operation asks the host to carry out.
/// The operation's effect on the contract's records stands only if every
/// movement it returns succeeds.
#[derive(Clone, Copy, PartialEq, Eq, Structural, Debug)]
pub enum Transfer {
    /// `amount` of `token` moves from `from` into the contract's own account.
    Deposit { token: Address, from: Address, amount: i128 },
    /// `amount` of `token` moves from the contract's own account to `to`.
    Payout { token: Address, to: Address, amount: i128 },
}

/// Integer division rounding toward zero, as the machine divides.
pub open spec fn tdiv(a: int, b: int) -> int {
    if a >= 0 {
        a / b
    } else {
        -((-a) / b)
    }
}

/// `x` is a value of `i128`.
pub open spec fn fits(x: int) -> bool {
    i128::MIN <= x <= i128::MAX
}

/// `a / b` on `i128`, rounding toward zero.
pub fn div_i128(a: i128, b: i128) -> (r: i128)
    requires
        b != 0,
        !(a == i128::MIN && b == -1),
    ensures
        r == tdiv(a as int, b as int),
{
    if b > 0 {
        a / b
    } else if b == i128::MIN {
        if a == i128::MIN {
            1
        } else {
            assert(tdiv(a as int, b as int) == 0) by (nonlinear_arith)
                requires
                    b == i128::MIN,
                    a > i128::MIN,
                    a <= i128::MAX,
            ;
            0
        }
    } else {
        let q = a / (-b);
        proof {
            let x: int = if a >= 0 { a as int } else { -(a as int) };
            lemma_div_by_negative(x, b as int);
        }
        assert(tdiv(a as int, b as int) == -tdiv(a as int, -b as int));
        assert(q != i128::MIN) by (nonlinear_arith)
            requires
                q == tdiv(a as int, -b as int),
                -b > 0,
                !(a == i128::MIN && b == -1),
                i128::MIN <= a <= i128::MAX,
        ;
        -q
    }
}

proof fn lemma_div_by_negative(x: int, b: int)
    requires
        x >= 0,
        b < 0,
    ensures
        x / b == -(x / (-b)),
{
    let q = x / (-b);
    let r = x % (-b);
    assert(x == q * (-b) + r && 0 <= r < -b) by (nonlinear_arith)
        requires
            q == x / (-b),
            r == x % (-b),
            -b > 0,
    ;
    assert((-q) * b == q * (-b)) by (nonlinear_arith);
    assert(x / b == -q) by (nonlinear_arith)
        requires
            x == (-q) * b + r,
            0 <= r < -b,
            b < 0,
    ;
}

/// Rounding toward zero agrees with the floor on non-negative operands.
pub proof fn lemma_tdiv_nonneg(a: int, b: int)
    requires
        a >= 0,
        b > 0,
    ensures
        tdiv(a, b) == a / b,
        0 <= tdiv(a, b) <= a,
{
    assert(a / b <= a) by (nonlinear_arith)
        requires
            a >= 0,
            b > 0,
    ;
}


/// A copy of a list of plain values.
pub fn copy_list<T: Copy>(v: &Vec<T>) -> (r: Vec<T>)
    ensures
        r@ == v@,
{
    let mut out: Vec<T> = Vec::new();
    let mut i: usize = 0;
    while i < v.len()
        invariant
            0 <= i <= v@.len(),
            out@ == v@.take(i as int),
        decreases v@.len() - i,
    {
        out.push(v[i]);
        proof {
            assert(v@.take(i + 1) =~= v@.take(i as int).push(v@[i as int]));
        }
        i = i + 1;
    }
    proof {
        assert(v@.take(i as int) =~= v@);
    }
    out
}

} // verus!
