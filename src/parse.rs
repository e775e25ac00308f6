use vstd::prelude::*;
use crate::expr::{BinOp, Expr, Field, Tier};

verus! {

/// Character `p` of `t`, or NUL past either end.
pub open spec fn at(t: Seq<char>, p: int) -> char {
    if 0 <= p < t.len() { t[p] } else { '\0' }
}

pub open spec fn is_space(c: char) -> bool {
    c == ' ' || c == '\t' || c == '\n' || c == '\r'
}

pub open spec fn is_digit(c: char) -> bool {
    '0' <= c && c <= '9'
}

pub open spec fn is_word_start(c: char) -> bool {
    ('a' <= c && c <= 'z') || ('A' <= c && c <= 'Z') || c == '_'
}

pub open spec fn is_word_char(c: char) -> bool {
    is_word_start(c) || is_digit(c)
}

/// The first position at or after `p` that holds no white space.
pub open spec fn skip_spaces(t: Seq<char>, p: int) -> int
    decreases t.len() - p,
{
    if 0 <= p < t.len() && is_space(t[p]) { skip_spaces(t, p + 1) } else { p }
}

/// The end of the run of word characters that starts at `p`.
pub open spec fn word_end(t: Seq<char>, p: int) -> int
    decreases t.len() - p,
{
    if 0 <= p < t.len() && is_word_char(t[p]) { word_end(t, p + 1) } else { p }
}

/// The decimal number whose digits start at `p`, `acc` being the value of the digits before
/// them, and the position after it; nothing if it exceeds the 64-bit signed range.
pub open spec fn number(t: Seq<char>, p: int, acc: int) -> Option<(i64, int)>
    decreases t.len() - p,
{
    if 0 <= p < t.len() && is_digit(t[p]) {
        let v = acc * 10 + (t[p] as int - '0' as int);
        if v > i64::MAX { None } else { number(t, p + 1, v) }
    } else {
        Some((acc as i64, p))
    }
}

/// The scalar counter a name stands for.
pub open spec fn scalar_named(w: Seq<char>) -> Option<Field> {
    if w == "pity6"@ {
        Some(Field::Pity6)
    } else if w == "pity5"@ {
        Some(Field::Pity5)
    } else if w == "onBanner6"@ || w == "banner6"@ {
        Some(Field::OnBanner6)
    } else if w == "offBanner6"@ || w == "off6"@ {
        Some(Field::OffBanner6)
    } else if w == "onBanner5"@ || w == "banner5"@ {
        Some(Field::OnBanner5)
    } else if w == "offBanner5"@ || w == "off5"@ {
        Some(Field::OffBanner5)
    } else {
        None
    }
}

/// The tier whose per-item counters a name stands for.
pub open spec fn items_named(w: Seq<char>) -> Option<Tier> {
    if w == "onItem6"@ || w == "banner6s"@ {
        Some(Tier::Top)
    } else if w == "onItem5"@ || w == "banner5s"@ {
        Some(Tier::Second)
    } else {
        None
    }
}

/// The binary operator of precedence level `k` (0 binds loosest) at `p`, and the position
/// after it.
pub open spec fn op_at(t: Seq<char>, p: int, k: int) -> Option<(BinOp, int)> {
    let a = at(t, p);
    let b = at(t, p + 1);
    if k == 0 {
        if a == '|' && b == '|' { Some((BinOp::Or, p + 2)) } else { None }
    } else if k == 1 {
        if a == '&' && b == '&' { Some((BinOp::And, p + 2)) } else { None }
    } else if k == 2 {
        if a == '=' && b == '=' {
            Some((BinOp::Eq, p + 2))
        } else if a == '!' && b == '=' {
            Some((BinOp::Ne, p + 2))
        } else {
            None
        }
    } else if k == 3 {
        if a == '<' {
            if b == '=' { Some((BinOp::Le, p + 2)) } else { Some((BinOp::Lt, p + 1)) }
        } else if a == '>' {
            if b == '=' { Some((BinOp::Ge, p + 2)) } else { Some((BinOp::Gt, p + 1)) }
        } else {
            None
        }
    } else if k == 4 {
        if a == '+' {
            Some((BinOp::Add, p + 1))
        } else if a == '-' {
            Some((BinOp::Sub, p + 1))
        } else {
            None
        }
    } else if k == 5 {
        if a == '*' { Some((BinOp::Mul, p + 1)) } else { None }
    } else {
        None
    }
}

/// `[ digits ]` after a per-item name at `q`: the index and the position after `]`.
pub open spec fn index_suffix(t: Seq<char>, q: int) -> Option<(i64, int)> {
    let pa = skip_spaces(t, q);
    let pb = skip_spaces(t, pa + 1);
    if at(t, pa) != '[' || !is_digit(at(t, pb)) {
        None
    } else {
        match number(t, pb, 0) {
            None => None,
            Some((i, pc)) => {
                let pd = skip_spaces(t, pc);
                if at(t, pd) == ']' { Some((i, pd + 1)) } else { None }
            },
        }
    }
}

/// An expression of precedence level `k` or tighter at `p`, and the position after it.
pub open spec fn p_level(t: Seq<char>, k: int, p: int) -> Option<(Expr, int)>
    decreases t.len() - p, 7 - k, 1int,
{
    if p < 0 || p > t.len() || k < 0 || k > 6 {
        None
    } else if k == 6 {
        p_unary(t, p)
    } else {
        match p_level(t, k + 1, p) {
            None => None,
            Some((l, q)) => if p < q && q <= t.len() { p_rest(t, k, l, q) } else { None },
        }
    }
}

/// Further operands of level `k` after the left operand `l`, which ends at `p`.
pub open spec fn p_rest(t: Seq<char>, k: int, l: Expr, p: int) -> Option<(Expr, int)>
    decreases t.len() - p, 7 - k, 0int,
{
    if p < 0 || p > t.len() || k < 0 || k > 5 {
        None
    } else {
        match op_at(t, skip_spaces(t, p), k) {
            None => Some((l, p)),
            Some((op, pb)) => if pb <= p || pb > t.len() {
                None
            } else {
                match p_level(t, k + 1, pb) {
                    None => None,
                    Some((r, q)) => if p < q && q <= t.len() {
                        p_rest(t, k, Expr::Bin(op, Box::new(l), Box::new(r)), q)
                    } else {
                        None
                    },
                }
            },
        }
    }
}

/// A unary expression at `p`: `!` or `-` before a unary expression, or a primary one.
pub open spec fn p_unary(t: Seq<char>, p: int) -> Option<(Expr, int)>
    decreases t.len() - p, 0int, 1int,
{
    let pa = skip_spaces(t, p);
    if p < 0 || pa < p || pa > t.len() {
        None
    } else if at(t, pa) == '!' {
        match p_unary(t, pa + 1) {
            Some((e, q)) => Some((Expr::Not(Box::new(e)), q)),
            None => None,
        }
    } else if at(t, pa) == '-' {
        match p_unary(t, pa + 1) {
            Some((e, q)) => Some((Expr::Neg(Box::new(e)), q)),
            None => None,
        }
    } else {
        p_primary(t, pa)
    }
}

/// A number, a counter, or an expression in parentheses, at `p`.
pub open spec fn p_primary(t: Seq<char>, p: int) -> Option<(Expr, int)>
    decreases t.len() - p, 0int, 0int,
{
    let c = at(t, p);
    if p < 0 || p > t.len() {
        None
    } else if is_digit(c) {
        match number(t, p, 0) {
            Some((v, q)) => Some((Expr::Num(v), q)),
            None => None,
        }
    } else if is_word_start(c) {
        let q = word_end(t, p + 1);
        if q < p + 1 || q > t.len() {
            None
        } else {
            let w = t.subrange(p, q);
            match items_named(w) {
                Some(tier) => match index_suffix(t, q) {
                    Some((i, q2)) => Some((Expr::Item(tier, i), q2)),
                    None => None,
                },
                None => match scalar_named(w) {
                    Some(f) => Some((Expr::Get(f), q)),
                    None => None,
                },
            }
        }
    } else if c == '(' {
        match p_level(t, 0, p + 1) {
            None => None,
            Some((e, q)) => if q < p + 1 || q > t.len() {
                None
            } else {
                let q1 = skip_spaces(t, q);
                if at(t, q1) == ')' { Some((e, q1 + 1)) } else { None }
            },
        }
    } else {
        None
    }
}

/// The expression that the whole of `t` spells, if it spells one.
pub open spec fn parse_spec(t: Seq<char>) -> Option<Expr> {
    match p_level(t, 0, 0) {
        Some((e, q)) => if skip_spaces(t, q) == t.len() { Some(e) } else { None },
        None => None,
    }
}

/// Whether an executable parse result is the one that the grammar gives.
pub open spec fn agrees(r: Option<(Expr, usize)>, s: Option<(Expr, int)>, n: int) -> bool {
    match r {
        Some((e, q)) => s == Some((e, q as int)) && q <= n,
        None => s is None,
    }
}

fn char_at(t: &Vec<char>, p: usize) -> (c: char)
    ensures
        c == at(t@, p as int),
{
    if p < t.len() { t[p] } else { '\0' }
}

fn space(c: char) -> (r: bool)
    ensures
        r == is_space(c),
{
    c == ' ' || c == '\t' || c == '\n' || c == '\r'
}

fn digit(c: char) -> (r: bool)
    ensures
        r == is_digit(c),
{
    '0' <= c && c <= '9'
}

fn word_start(c: char) -> (r: bool)
    ensures
        r == is_word_start(c),
{
    ('a' <= c && c <= 'z') || ('A' <= c && c <= 'Z') || c == '_'
}

fn skip(t: &Vec<char>, p: usize) -> (r: usize)
    requires
        p <= t@.len(),
    ensures
        r == skip_spaces(t@, p as int),
        p <= r <= t@.len(),
    decreases t@.len() - p,
{
    if p < t.len() && space(t[p]) { skip(t, p + 1) } else { p }
}

fn end_of_word(t: &Vec<char>, p: usize) -> (r: usize)
    requires
        p <= t@.len(),
    ensures
        r == word_end(t@, p as int),
        p <= r <= t@.len(),
    decreases t@.len() - p,
{
    if p < t.len() && (word_start(t[p]) || digit(t[p])) { end_of_word(t, p + 1) } else { p }
}

fn read_number(t: &Vec<char>, p: usize, acc: i64) -> (r: Option<(i64, usize)>)
    requires
        p <= t@.len(),
        acc >= 0,
    ensures
        match r {
            Some((v, q)) => number(t@, p as int, acc as int) == Some((v, q as int)) && p <= q <= t@.len(),
            None => number(t@, p as int, acc as int) is None,
        },
    decreases t@.len() - p,
{
    if p < t.len() && digit(t[p]) {
        let d = (t[p] as u32 - '0' as u32) as i128;
        let v = acc as i128 * 10 + d;
        if v > i64::MAX as i128 { None } else { read_number(t, p + 1, v as i64) }
    } else {
        Some((acc, p))
    }
}

/// Whether `t[p..q]` spells `w`.
fn word_is(t: &Vec<char>, p: usize, q: usize, w: &str) -> (r: bool)
    requires
        p <= q <= t@.len(),
    ensures
        r == (t@.subrange(p as int, q as int) == w@),
{
    let n = w.unicode_len();
    if q - p != n {
        return false;
    }
    let mut i: usize = 0;
    while i < n
        invariant
            p <= q <= t@.len(),
            q - p == n,
            n == w@.len(),
            i <= n,
            forall|j: int| 0 <= j < i ==> t@[p + j] == w@[j],
        decreases n - i,
    {
        if t[p + i] != w.get_char(i) {
            assert(t@.subrange(p as int, q as int)[i as int] != w@[i as int]);
            return false;
        }
        i = i + 1;
    }
    assert(t@.subrange(p as int, q as int) =~= w@);
    true
}

fn scalar(t: &Vec<char>, p: usize, q: usize) -> (r: Option<Field>)
    requires
        p <= q <= t@.len(),
    ensures
        r == scalar_named(t@.subrange(p as int, q as int)),
{
    if word_is(t, p, q, "pity6") {
        Some(Field::Pity6)
    } else if word_is(t, p, q, "pity5") {
        Some(Field::Pity5)
    } else if word_is(t, p, q, "onBanner6") || word_is(t, p, q, "banner6") {
        Some(Field::OnBanner6)
    } else if word_is(t, p, q, "offBanner6") || word_is(t, p, q, "off6") {
        Some(Field::OffBanner6)
    } else if word_is(t, p, q, "onBanner5") || word_is(t, p, q, "banner5") {
        Some(Field::OnBanner5)
    } else if word_is(t, p, q, "offBanner5") || word_is(t, p, q, "off5") {
        Some(Field::OffBanner5)
    } else {
        None
    }
}

fn items(t: &Vec<char>, p: usize, q: usize) -> (r: Option<Tier>)
    requires
        p <= q <= t@.len(),
    ensures
        r == items_named(t@.subrange(p as int, q as int)),
{
    if word_is(t, p, q, "onItem6") || word_is(t, p, q, "banner6s") {
        Some(Tier::Top)
    } else if word_is(t, p, q, "onItem5") || word_is(t, p, q, "banner5s") {
        Some(Tier::Second)
    } else {
        None
    }
}

fn operator(t: &Vec<char>, p: usize, k: usize) -> (r: Option<(BinOp, usize)>)
    requires
        p <= t@.len(),
    ensures
        match r {
            Some((op, q)) => op_at(t@, p as int, k as int) == Some((op, q as int)) && p < q <= t@.len(),
            None => op_at(t@, p as int, k as int) is None,
        },
{
    let a = char_at(t, p);
    let b = if p < t.len() { char_at(t, p + 1) } else { '\0' };
    if k == 0 {
        if a == '|' && b == '|' { Some((BinOp::Or, p + 2)) } else { None }
    } else if k == 1 {
        if a == '&' && b == '&' { Some((BinOp::And, p + 2)) } else { None }
    } else if k == 2 {
        if a == '=' && b == '=' {
            Some((BinOp::Eq, p + 2))
        } else if a == '!' && b == '=' {
            Some((BinOp::Ne, p + 2))
        } else {
            None
        }
    } else if k == 3 {
        if a == '<' {
            if b == '=' { Some((BinOp::Le, p + 2)) } else { Some((BinOp::Lt, p + 1)) }
        } else if a == '>' {
            if b == '=' { Some((BinOp::Ge, p + 2)) } else { Some((BinOp::Gt, p + 1)) }
        } else {
            None
        }
    } else if k == 4 {
        if a == '+' {
            Some((BinOp::Add, p + 1))
        } else if a == '-' {
            Some((BinOp::Sub, p + 1))
        } else {
            None
        }
    } else if k == 5 {
        if a == '*' { Some((BinOp::Mul, p + 1)) } else { None }
    } else {
        None
    }
}

fn index_after(t: &Vec<char>, q: usize) -> (r: Option<(i64, usize)>)
    requires
        t@.len() <= usize::MAX,
        q <= t@.len(),
    ensures
        match r {
            Some((i, q2)) => index_suffix(t@, q as int) == Some((i, q2 as int)) && q2 <= t@.len(),
            None => index_suffix(t@, q as int) is None,
        },
{
    let pa = skip(t, q);
    if char_at(t, pa) != '[' {
        return None;
    }
    let pb = skip(t, pa + 1);
    if !digit(char_at(t, pb)) {
        return None;
    }
    match read_number(t, pb, 0) {
        None => None,
        Some((i, pc)) => {
            let pd = skip(t, pc);
            if char_at(t, pd) == ']' { Some((i, pd + 1)) } else { None }
        },
    }
}

fn level(t: &Vec<char>, k: usize, p: usize) -> (r: Option<(Expr, usize)>)
    requires
        t@.len() <= usize::MAX,
        p <= t@.len(),
        k <= 6,
    ensures
        agrees(r, p_level(t@, k as int, p as int), t@.len() as int),
    decreases t@.len() - p, 7 - k, 1int,
{
    if k == 6 {
        unary(t, p)
    } else {
        match level(t, k + 1, p) {
            None => None,
            Some((l, q)) => if p < q && q <= t.len() { rest(t, k, l, q) } else { None },
        }
    }
}

fn rest(t: &Vec<char>, k: usize, l: Expr, p: usize) -> (r: Option<(Expr, usize)>)
    requires
        t@.len() <= usize::MAX,
        p <= t@.len(),
        k <= 5,
    ensures
        agrees(r, p_rest(t@, k as int, l, p as int), t@.len() as int),
    decreases t@.len() - p, 7 - k, 0int,
{
    let pa = skip(t, p);
    match operator(t, pa, k) {
        None => Some((l, p)),
        Some((op, pb)) => match level(t, k + 1, pb) {
            None => None,
            Some((r, q)) => if p < q && q <= t.len() {
                rest(t, k, Expr::Bin(op, Box::new(l), Box::new(r)), q)
            } else {
                None
            },
        },
    }
}

fn unary(t: &Vec<char>, p: usize) -> (r: Option<(Expr, usize)>)
    requires
        t@.len() <= usize::MAX,
        p <= t@.len(),
    ensures
        agrees(r, p_unary(t@, p as int), t@.len() as int),
    decreases t@.len() - p, 0int, 1int,
{
    let pa = skip(t, p);
    let c = char_at(t, pa);
    if c == '!' {
        match unary(t, pa + 1) {
            Some((e, q)) => Some((Expr::Not(Box::new(e)), q)),
            None => None,
        }
    } else if c == '-' {
        match unary(t, pa + 1) {
            Some((e, q)) => Some((Expr::Neg(Box::new(e)), q)),
            None => None,
        }
    } else {
        primary(t, pa)
    }
}

fn primary(t: &Vec<char>, p: usize) -> (r: Option<(Expr, usize)>)
    requires
        t@.len() <= usize::MAX,
        p <= t@.len(),
    ensures
        agrees(r, p_primary(t@, p as int), t@.len() as int),
    decreases t@.len() - p, 0int, 0int,
{
    let c = char_at(t, p);
    if digit(c) {
        match read_number(t, p, 0) {
            Some((v, q)) => Some((Expr::Num(v), q)),
            None => None,
        }
    } else if word_start(c) {
        let q = end_of_word(t, p + 1);
        match items(t, p, q) {
            Some(tier) => match index_after(t, q) {
                Some((i, q2)) => Some((Expr::Item(tier, i), q2)),
                None => None,
            },
            None => match scalar(t, p, q) {
                Some(f) => Some((Expr::Get(f), q)),
                None => None,
            },
        }
    } else if c == '(' {
        match level(t, 0, p + 1) {
            None => None,
            Some((e, q)) => if q < p + 1 {
                None
            } else {
                let q1 = skip(t, q);
                if char_at(t, q1) == ')' { Some((e, q1 + 1)) } else { None }
            },
        }
    } else {
        None
    }
}

/// Parses a predicate: integers, the counters of a trial by name (per-item ones with a
/// literal index in brackets), parentheses, unary `!` and `-`, and the binary operators
/// `* + - < <= > >= == != && ||`, from tightest to loosest, all left-associative.
pub fn parse_expr(src: &str) -> (r: Option<Expr>)
    ensures
        r == parse_spec(src@),
{
    let n = src.unicode_len();
    let mut t: Vec<char> = Vec::new();
    let mut i: usize = 0;
    while i < n
        invariant
            n == src@.len(),
            i <= n,
            t@ == src@.subrange(0, i as int),
        decreases n - i,
    {
        t.push(src.get_char(i));
        i = i + 1;
    }
    assert(t@ =~= src@);
    match level(&t, 0, 0) {
        Some((e, q)) => if skip(&t, q) == t.len() { Some(e) } else { None },
        None => None,
    }
}

} // verus!
