use vstd::prelude::*;
use vstd::string::{StrSliceExecFns, StringExecFns};
use crate::pull::{BannerConfig, ConfigError, PITY5_RESET};
use crate::parse::{parse_expr, parse_spec};
use crate::trial::{Query, simulate, hits, pulls_fit, prefix, lemma_prefix_mono};

verus! {

/// Why a run is refused before any trial starts.
#[derive(Clone, Copy, Debug, PartialEq, Eq, Structural)]
pub enum RunError {
    Config(ConfigError),
    /// The checkpoint sequence is empty.
    NoCheckpoints,
    /// The segments together hold more pulls than a trial's counters can take.
    TooManyPulls,
    /// The result matrix would not fit in memory.
    TooManyResults,
    /// The query at this index does not parse or names an unknown counter.
    BadQuery(usize),
}

/// The first position at or after `i` that holds `;`.
pub open spec fn semicolon_from(s: Seq<char>, i: int) -> Option<int>
    decreases s.len() - i,
{
    if i < 0 || i >= s.len() {
        None
    } else if s[i] == ';' {
        Some(i)
    } else {
        semicolon_from(s, i + 1)
    }
}

/// Splits `label;expression` at the first `;`; nothing where there is none.
pub fn split_query(arg: &str) -> (r: Option<(String, String)>)
    ensures
        r is Some <==> semicolon_from(arg@, 0) is Some,
        r is Some ==> r.unwrap().0@ == arg@.subrange(0, semicolon_from(arg@, 0).unwrap())
            && r.unwrap().1@ == arg@.subrange(semicolon_from(arg@, 0).unwrap() + 1, arg@.len() as int),
{
    let n = arg.unicode_len();
    let mut i: usize = 0;
    while i < n
        invariant
            n == arg@.len(),
            i <= n,
            semicolon_from(arg@, 0) == semicolon_from(arg@, i as int),
        decreases n - i,
    {
        if arg.get_char(i) == ';' {
            let label = String::from_str(arg.substring_char(0, i));
            let expr = String::from_str(arg.substring_char(i + 1, n));
            return Some((label, expr));
        }
        i = i + 1;
    }
    None
}

/// Whether every source expression before `n` parses.
pub open spec fn all_parse(srcs: Seq<(String, String)>, n: int) -> bool {
    forall|j: int| 0 <= j < n ==> #[trigger] parse_spec(srcs[j].1@) is Some
}

/// Parses each `(label, expression)` pair; the index of the first that fails, if one does.
pub fn compile_queries(srcs: &Vec<(String, String)>) -> (r: Result<Vec<Query>, usize>)
    ensures
        r is Ok <==> all_parse(srcs@, srcs@.len() as int),
        r is Ok ==> r.unwrap()@.len() == srcs@.len() && forall|i: int| 0 <= i < srcs@.len() ==>
            (#[trigger] r.unwrap()@[i]).label@ == srcs@[i].0@ && Some(r.unwrap()@[i].expr) == parse_spec(srcs@[i].1@),
        r is Err ==> r.unwrap_err() < srcs@.len() && all_parse(srcs@, r.unwrap_err() as int)
            && parse_spec(srcs@[r.unwrap_err() as int].1@) is None,
{
    let mut out: Vec<Query> = Vec::new();
    let mut i: usize = 0;
    while i < srcs.len()
        invariant
            i <= srcs@.len(),
            all_parse(srcs@, i as int),
            out@.len() == i,
            forall|j: int| 0 <= j < i ==>
                (#[trigger] out@[j]).label@ == srcs@[j].0@ && Some(out@[j].expr) == parse_spec(srcs@[j].1@),
        decreases srcs@.len() - i,
    {
        match parse_expr(srcs[i].1.as_str()) {
            Some(e) => {
                out.push(Query { label: srcs[i].0.clone(), expr: e });
            },
            None => {
                return Err(i);
            },
        }
        i = i + 1;
    }
    Ok(out)
}

/// Whether the segments together leave room in a trial's counters.
pub fn checkpoints_fit(cps: &Vec<u64>) -> (r: bool)
    ensures
        r == pulls_fit(cps@),
{
    let limit: u64 = u64::MAX - PITY5_RESET;
    let mut sum: u64 = 0;
    let mut i: usize = 0;
    while i < cps.len()
        invariant
            i <= cps@.len(),
            sum == prefix(cps@, i as int),
            sum < limit,
            limit == u64::MAX - PITY5_RESET,
        decreases cps@.len() - i,
    {
        if cps[i] >= limit - sum {
            proof {
                lemma_prefix_mono(cps@, i as int + 1, cps@.len() as int);
            }
            return false;
        }
        sum = sum + cps[i];
        i = i + 1;
    }
    true
}

/// What makes a run refused, in the order the checks are made; nothing where it may go ahead.
pub open spec fn run_error(c: BannerConfig, cps: Seq<u64>, srcs: Seq<(String, String)>) -> Option<RunError> {
    if c.error() is Some {
        Some(RunError::Config(c.error().unwrap()))
    } else if cps.len() == 0 {
        Some(RunError::NoCheckpoints)
    } else if !pulls_fit(cps) {
        Some(RunError::TooManyPulls)
    } else if !all_parse(srcs, srcs.len() as int) {
        Some(RunError::BadQuery((choose|i: int| 0 <= i < srcs.len() && all_parse(srcs, i) && parse_spec(srcs[i].1@) is None) as usize))
    } else if srcs.len() * cps.len() > usize::MAX {
        Some(RunError::TooManyResults)
    } else {
        None
    }
}

/// The index of the first failing query is the one that `choose` picks: it is unique.
proof fn lemma_first_bad_unique(srcs: Seq<(String, String)>, i: int, j: int)
    requires
        0 <= i < srcs.len(),
        0 <= j < srcs.len(),
        all_parse(srcs, i),
        parse_spec(srcs[i].1@) is None,
        all_parse(srcs, j),
        parse_spec(srcs[j].1@) is None,
    ensures
        i == j,
{
    if i < j {
        assert(parse_spec(srcs[i].1@) is Some);
    } else if j < i {
        assert(parse_spec(srcs[j].1@) is Some);
    }
}

/// Checks the configuration, the checkpoints and every query, before any trial runs.
pub fn prepare(c: &BannerConfig, cps: &Vec<u64>, srcs: &Vec<(String, String)>) -> (r: Result<Vec<Query>, RunError>)
    ensures
        r is Err <==> run_error(*c, cps@, srcs@) is Some,
        r is Err ==> r.unwrap_err() == run_error(*c, cps@, srcs@).unwrap(),
        r is Ok ==> c.valid() && pulls_fit(cps@) && cps@.len() > 0
            && r.unwrap()@.len() * cps@.len() <= usize::MAX
            && r.unwrap()@.len() == srcs@.len()
            && forall|i: int| 0 <= i < srcs@.len() ==>
                (#[trigger] r.unwrap()@[i]).label@ == srcs@[i].0@ && Some(r.unwrap()@[i].expr) == parse_spec(srcs@[i].1@),
{
    match c.validate() {
        Err(e) => {
            return Err(RunError::Config(e));
        },
        Ok(()) => {},
    }
    if cps.len() == 0 {
        return Err(RunError::NoCheckpoints);
    }
    if !checkpoints_fit(cps) {
        return Err(RunError::TooManyPulls);
    }
    let qs = match compile_queries(srcs) {
        Err(i) => {
            proof {
                let k = choose|k: int| 0 <= k < srcs@.len() && all_parse(srcs@, k) && parse_spec(srcs@[k].1@) is None;
                lemma_first_bad_unique(srcs@, i as int, k);
            }
            return Err(RunError::BadQuery(i));
        },
        Ok(qs) => qs,
    };
    if qs.len() > usize::MAX / cps.len() {
        proof {
            let a = srcs@.len() as int;
            let b = cps@.len() as int;
            let m = usize::MAX as int;
            assert(a * b > m) by (nonlinear_arith)
                requires a > m / b, b > 0;
        }
        return Err(RunError::TooManyResults);
    }
    proof {
        let a = srcs@.len() as int;
        let b = cps@.len() as int;
        let m = usize::MAX as int;
        assert(a * b <= m) by (nonlinear_arith)
            requires a <= m / b, b > 0;
    }
    Ok(qs)
}

/// Runs trials of seeds `0 .. ntrials` and returns, at `q * cps.len() + ci`, how many of them
/// satisfy query `q` at checkpoint `ci`; refuses the run, before any trial, where `prepare` does.
pub fn run(c: &BannerConfig, cps: &Vec<u64>, srcs: &Vec<(String, String)>, ntrials: u64) -> (r: Result<Vec<u64>, RunError>)
    ensures
        r is Err <==> run_error(*c, cps@, srcs@) is Some,
        r is Err ==> r.unwrap_err() == run_error(*c, cps@, srcs@).unwrap(),
        r is Ok ==> r.unwrap()@.len() == srcs@.len() * cps@.len()
            && forall|q: int, ci: int| 0 <= q < srcs@.len() && 0 <= ci < cps@.len() ==>
                #[trigger] r.unwrap()@[q * cps@.len() + ci]
                    == hits(*c, cps@, parse_spec(srcs@[q].1@).unwrap(), ci, 0, ntrials as nat),
{
    let qs = match prepare(c, cps, srcs) {
        Err(e) => {
            return Err(e);
        },
        Ok(qs) => qs,
    };
    let counts = simulate(c, cps, &qs, 0, ntrials);
    proof {
        assert forall|q: int, ci: int| 0 <= q < srcs@.len() && 0 <= ci < cps@.len() implies
            #[trigger] counts@[q * cps@.len() + ci] == hits(*c, cps@, parse_spec(srcs@[q].1@).unwrap(), ci, 0, ntrials as nat) by {
            assert(Some(qs@[q].expr) == parse_spec(srcs@[q].1@));
        }
    }
    Ok(counts)
}

} // verus!
