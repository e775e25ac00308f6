use vstd::prelude::*;
use crate::pull::{TrialState, TrialView};

verus! {

/// A scalar counter of a trial.
#[derive(Clone, Copy, Debug, PartialEq, Eq, Structural)]
pub enum Field {
    Pity6,
    Pity5,
    OnBanner6,
    OffBanner6,
    OnBanner5,
    OffBanner5,
}

/// The tier of a per-item counter.
#[derive(Clone, Copy, Debug, PartialEq, Eq, Structural)]
pub enum Tier {
    Top,
    Second,
}

#[derive(Clone, Copy, Debug, PartialEq, Eq, Structural)]
pub enum BinOp {
    Or,
    And,
    Eq,
    Ne,
    Lt,
    Le,
    Gt,
    Ge,
    Add,
    Sub,
    Mul,
}

/// An expression over a trial's counters. Values are 64-bit signed integers;
/// comparisons and connectives give 1 for true and 0 for false.
#[derive(Debug)]
pub enum Expr {
    Num(i64),
    Get(Field),
    /// The per-item counter of a tier at an index; zero outside the pool.
    Item(Tier, i64),
    Not(Box<Expr>),
    Neg(Box<Expr>),
    Bin(BinOp, Box<Expr>, Box<Expr>),
}

pub open spec fn field_value(f: Field, s: TrialView) -> int {
    match f {
        Field::Pity6 => s.pity6 as int,
        Field::Pity5 => s.pity5 as int,
        Field::OnBanner6 => s.on_banner6 as int,
        Field::OffBanner6 => s.off_banner6 as int,
        Field::OnBanner5 => s.on_banner5 as int,
        Field::OffBanner5 => s.off_banner5 as int,
    }
}

/// Slot `i` of `a`, or zero where there is no such slot.
pub open spec fn slot(a: Seq<u64>, i: int) -> int {
    if 0 <= i < a.len() { a[i] as int } else { 0 }
}

pub open spec fn item_value(t: Tier, i: int, s: TrialView) -> int {
    match t {
        Tier::Top => slot(s.on_item6, i),
        Tier::Second => slot(s.on_item5, i),
    }
}

/// `v` where it is a 64-bit signed value; nothing otherwise.
pub open spec fn in_range(v: int) -> Option<i64> {
    if i64::MIN <= v <= i64::MAX { Some(v as i64) } else { None }
}

pub open spec fn flag(b: bool) -> i64 {
    if b { 1 } else { 0 }
}

/// The result of an operator that evaluates both operands.
pub open spec fn apply(op: BinOp, x: int, y: int) -> Option<i64> {
    match op {
        BinOp::Eq => Some(flag(x == y)),
        BinOp::Ne => Some(flag(x != y)),
        BinOp::Lt => Some(flag(x < y)),
        BinOp::Le => Some(flag(x <= y)),
        BinOp::Gt => Some(flag(x > y)),
        BinOp::Ge => Some(flag(x >= y)),
        BinOp::Add => in_range(x + y),
        BinOp::Sub => in_range(x - y),
        BinOp::Mul => in_range(x * y),
        BinOp::Or => Some(flag(x != 0 || y != 0)),
        BinOp::And => Some(flag(x != 0 && y != 0)),
    }
}

/// The value of `e` on state `s`; nothing where a value leaves the 64-bit signed range.
/// `&&` and `||` do not evaluate their right operand when the left one decides.
pub open spec fn eval(e: Expr, s: TrialView) -> Option<i64>
    decreases e,
{
    match e {
        Expr::Num(n) => Some(n),
        Expr::Get(f) => in_range(field_value(f, s)),
        Expr::Item(t, i) => in_range(item_value(t, i as int, s)),
        Expr::Not(a) => match eval(*a, s) {
            Some(x) => Some(flag(x == 0)),
            None => None,
        },
        Expr::Neg(a) => match eval(*a, s) {
            Some(x) => in_range(-x),
            None => None,
        },
        Expr::Bin(op, a, b) => match eval(*a, s) {
            None => None,
            Some(x) => if op == BinOp::And && x == 0 {
                Some(0)
            } else if op == BinOp::Or && x != 0 {
                Some(1)
            } else {
                match eval(*b, s) {
                    Some(y) => apply(op, x as int, y as int),
                    None => None,
                }
            },
        },
    }
}

/// Whether `e` holds on `s`: it evaluates to a nonzero value.
pub open spec fn holds(e: Expr, s: TrialView) -> bool {
    match eval(e, s) {
        Some(v) => v != 0,
        None => false,
    }
}

fn to_i64(v: u64) -> (r: Option<i64>)
    ensures
        r == in_range(v as int),
{
    if v <= i64::MAX as u64 { Some(v as i64) } else { None }
}

fn flag_of(b: bool) -> (r: i64)
    ensures
        r == flag(b),
{
    if b { 1 } else { 0 }
}

fn apply_op(op: BinOp, x: i64, y: i64) -> (r: Option<i64>)
    ensures
        r == apply(op, x as int, y as int),
{
    match op {
        BinOp::Eq => Some(flag_of(x == y)),
        BinOp::Ne => Some(flag_of(x != y)),
        BinOp::Lt => Some(flag_of(x < y)),
        BinOp::Le => Some(flag_of(x <= y)),
        BinOp::Gt => Some(flag_of(x > y)),
        BinOp::Ge => Some(flag_of(x >= y)),
        BinOp::Add => x.checked_add(y),
        BinOp::Sub => x.checked_sub(y),
        BinOp::Mul => x.checked_mul(y),
        BinOp::Or => Some(flag_of(x != 0 || y != 0)),
        BinOp::And => Some(flag_of(x != 0 && y != 0)),
    }
}

impl Expr {
    /// Evaluates the expression on a trial's state.
    pub fn evaluate(&self, s: &TrialState) -> (r: Option<i64>)
        ensures
            r == eval(*self, s@),
        decreases self,
    {
        match self {
            Expr::Num(n) => Some(*n),
            Expr::Get(f) => {
                let v = match f {
                    Field::Pity6 => s.pity6,
                    Field::Pity5 => s.pity5,
                    Field::OnBanner6 => s.on_banner6,
                    Field::OffBanner6 => s.off_banner6,
                    Field::OnBanner5 => s.on_banner5,
                    Field::OffBanner5 => s.off_banner5,
                };
                to_i64(v)
            },
            Expr::Item(t, i) => {
                let a = match t {
                    Tier::Top => &s.on_item6,
                    Tier::Second => &s.on_item5,
                };
                if 0 <= *i && (*i as u64) < (a.len() as u64) {
                    to_i64(a[*i as usize])
                } else {
                    Some(0)
                }
            },
            Expr::Not(a) => match a.evaluate(s) {
                Some(x) => Some(flag_of(x == 0)),
                None => None,
            },
            Expr::Neg(a) => match a.evaluate(s) {
                Some(x) => if x == i64::MIN { None } else { Some(-x) },
                None => None,
            },
            Expr::Bin(op, a, b) => match a.evaluate(s) {
                None => None,
                Some(x) => if *op == BinOp::And && x == 0 {
                    Some(0)
                } else if *op == BinOp::Or && x != 0 {
                    Some(1)
                } else {
                    match b.evaluate(s) {
                        Some(y) => apply_op(*op, x, y),
                        None => None,
                    }
                },
            },
        }
    }

    /// Whether the expression holds on a trial's state.
    pub fn holds_on(&self, s: &TrialState) -> (r: bool)
        ensures
            r == holds(*self, s@),
    {
        match self.evaluate(s) {
            Some(v) => v != 0,
            None => false,
        }
    }
}

} // verus!
