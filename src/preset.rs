use vstd::prelude::*;
use vstd::string::StringExecFns;
use crate::pull::BannerConfig;

verus! {

/// A banner archetype, which supplies a default configuration and default queries.
#[derive(Clone, Copy, Debug, PartialEq, Eq, Structural)]
pub enum BannerType {
    Standard,
    Limited,
    Event,
    Custom,
}

/// The configuration of a banner archetype.
pub open spec fn preset_spec(b: BannerType) -> BannerConfig {
    match b {
        BannerType::Standard => BannerConfig { n6: 2, n5: 3, n6p: 0, rate6b: 50, rate5b: 50, stdpool: 44 },
        BannerType::Event => BannerConfig { n6: 1, n5: 2, n6p: 0, rate6b: 50, rate5b: 50, stdpool: 44 },
        BannerType::Limited => BannerConfig { n6: 2, n5: 1, n6p: 0, rate6b: 70, rate5b: 50, stdpool: 44 },
        BannerType::Custom => BannerConfig { n6: 1, n5: 1, n6p: 0, rate6b: 50, rate5b: 50, stdpool: 44 },
    }
}

/// The default configuration of a banner archetype.
pub fn preset_config(b: BannerType) -> (r: BannerConfig)
    ensures
        r == preset_spec(b),
        r.valid(),
{
    match b {
        BannerType::Standard => BannerConfig { n6: 2, n5: 3, n6p: 0, rate6b: 50, rate5b: 50, stdpool: 44 },
        BannerType::Event => BannerConfig { n6: 1, n5: 2, n6p: 0, rate6b: 50, rate5b: 50, stdpool: 44 },
        BannerType::Limited => BannerConfig { n6: 2, n5: 1, n6p: 0, rate6b: 70, rate5b: 50, stdpool: 44 },
        BannerType::Custom => BannerConfig { n6: 1, n5: 1, n6p: 0, rate6b: 50, rate5b: 50, stdpool: 44 },
    }
}

pub open spec fn pick(o: Option<u64>, d: u64) -> u64 {
    match o {
        Some(v) => v,
        None => d,
    }
}

fn pick_or(o: Option<u64>, d: u64) -> (r: u64)
    ensures
        r == pick(o, d),
{
    match o {
        Some(v) => v,
        None => d,
    }
}

impl BannerConfig {
    /// This configuration with each given value in place of its own.
    pub fn with_overrides(
        &self,
        n6: Option<u64>,
        n5: Option<u64>,
        n6p: Option<u64>,
        rate6b: Option<u64>,
        rate5b: Option<u64>,
        stdpool: Option<u64>,
    ) -> (r: BannerConfig)
        ensures
            r == (BannerConfig {
                n6: pick(n6, self.n6),
                n5: pick(n5, self.n5),
                n6p: pick(n6p, self.n6p),
                rate6b: pick(rate6b, self.rate6b),
                rate5b: pick(rate5b, self.rate5b),
                stdpool: pick(stdpool, self.stdpool),
            }),
    {
        BannerConfig {
            n6: pick_or(n6, self.n6),
            n5: pick_or(n5, self.n5),
            n6p: pick_or(n6p, self.n6p),
            rate6b: pick_or(rate6b, self.rate6b),
            rate5b: pick_or(rate5b, self.rate5b),
            stdpool: pick_or(stdpool, self.stdpool),
        }
    }
}

/// Labels and expressions of a list of queries.
pub open spec fn texts(s: Seq<(String, String)>) -> Seq<(Seq<char>, Seq<char>)> {
    s.map_values(|p: (String, String)| (p.0@, p.1@))
}

/// Queries that every archetype but the custom one has.
pub open spec fn common_queries() -> Seq<(Seq<char>, Seq<char>)> {
    seq![
        ("1x 6*"@, "(banner6 + off6) >= 1"@),
        ("2x 6*"@, "(banner6 + off6) >= 2"@),
        ("3x 6*"@, "(banner6 + off6) >= 3"@),
        ("4x 6*"@, "(banner6 + off6) >= 4"@),
        ("5x 6*"@, "(banner6 + off6) >= 5"@),
        ("6x 6*"@, "(banner6 + off6) >= 6"@),
        ("Specific 6*"@, "banner6s[0] > 0"@),
        ("Specific 6* Max Pot"@, "banner6s[0] >= 6"@),
        ("Specific 5*"@, "banner5s[0] > 0"@),
        ("Specific 5* Max Pot"@, "banner5s[0] >= 6"@),
    ]
}

/// Queries of archetypes with two top-tier rate-up items.
pub open spec fn pair_queries() -> Seq<(Seq<char>, Seq<char>)> {
    seq![
        ("Both 6*"@, "banner6s[0] > 0 && banner6s[1] > 0"@),
        ("Both 6* Max Pot"@, "banner6s[0] >= 6 && banner6s[1] >= 6"@),
    ]
}

/// The built-in queries of a banner archetype.
pub open spec fn builtin_spec(b: BannerType) -> Seq<(Seq<char>, Seq<char>)> {
    match b {
        BannerType::Standard => common_queries() + pair_queries(),
        BannerType::Limited => common_queries() + pair_queries(),
        BannerType::Event => common_queries(),
        BannerType::Custom => Seq::empty(),
    }
}

fn push_query(v: &mut Vec<(String, String)>, label: &str, expr: &str)
    ensures
        texts(final(v)@) == texts(old(v)@).push((label@, expr@)),
{
    v.push((String::from_str(label), String::from_str(expr)));
    assert(texts(final(v)@) =~= texts(old(v)@).push((label@, expr@)));
}

/// The built-in queries of a banner archetype.
pub fn builtin_queries(b: BannerType) -> (r: Vec<(String, String)>)
    ensures
        texts(r@) == builtin_spec(b),
{
    let mut v: Vec<(String, String)> = Vec::new();
    assert(texts(v@) =~= Seq::empty());
    if b == BannerType::Custom {
        return v;
    }
    push_query(&mut v, "1x 6*", "(banner6 + off6) >= 1");
    push_query(&mut v, "2x 6*", "(banner6 + off6) >= 2");
    push_query(&mut v, "3x 6*", "(banner6 + off6) >= 3");
    push_query(&mut v, "4x 6*", "(banner6 + off6) >= 4");
    push_query(&mut v, "5x 6*", "(banner6 + off6) >= 5");
    push_query(&mut v, "6x 6*", "(banner6 + off6) >= 6");
    push_query(&mut v, "Specific 6*", "banner6s[0] > 0");
    push_query(&mut v, "Specific 6* Max Pot", "banner6s[0] >= 6");
    push_query(&mut v, "Specific 5*", "banner5s[0] > 0");
    push_query(&mut v, "Specific 5* Max Pot", "banner5s[0] >= 6");
    assert(texts(v@) =~= common_queries());
    if b == BannerType::Event {
        return v;
    }
    push_query(&mut v, "Both 6*", "banner6s[0] > 0 && banner6s[1] > 0");
    push_query(&mut v, "Both 6* Max Pot", "banner6s[0] >= 6 && banner6s[1] >= 6");
    assert(texts(v@) =~= common_queries() + pair_queries());
    v
}

/// The user's queries, followed by the archetype's built-in ones where the user gave none
/// or asked to keep them.
pub fn query_list(b: BannerType, user: Vec<(String, String)>, keep_builtin: bool) -> (r: Vec<(String, String)>)
    ensures
        texts(r@) == texts(user@) + if user@.len() == 0 || keep_builtin { builtin_spec(b) } else { Seq::empty() },
{
    let mut out = user;
    let ghost first = out@;
    if out.len() == 0 || keep_builtin {
        let mut extra = builtin_queries(b);
        let ghost more = extra@;
        out.append(&mut extra);
        assert(texts(out@) =~= texts(first) + texts(more));
    } else {
        assert(texts(out@) =~= texts(first) + Seq::empty());
    }
    out
}

} // verus!
