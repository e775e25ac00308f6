use akpull::expr::Expr;
use akpull::parse::parse_expr;
use akpull::preset::{builtin_queries, preset_config, query_list, BannerType};
use akpull::pull::{top_tier_threshold, BannerConfig, ConfigError, TrialState};
use akpull::rng::{draw_sequence, RandomStream};
use akpull::run::{checkpoints_fit, compile_queries, prepare, run, split_query, RunError};
use akpull::trial::simulate;

fn config(n6: u64, n5: u64, rate6b: u64, rate5b: u64) -> BannerConfig {
    BannerConfig { n6, n5, n6p: 0, rate6b, rate5b, stdpool: 44 }
}

fn queries(list: &[(&str, &str)]) -> Vec<(String, String)> {
    list.iter().map(|(a, b)| (a.to_string(), b.to_string())).collect()
}

fn value(src: &str, st: &TrialState) -> Option<i64> {
    let e: Expr = parse_expr(src).expect("parses");
    e.evaluate(st)
}

#[test]
fn same_seed_gives_same_stream() {
    for seed in [0u64, 1, 42, u64::MAX] {
        assert_eq!(draw_sequence(seed, 50), draw_sequence(seed, 50));
    }
    assert_ne!(draw_sequence(1, 8), draw_sequence(2, 8));
}

#[test]
fn stream_matches_step_by_step_draws() {
    let mut g = RandomStream::new(9);
    let seq = draw_sequence(9, 5);
    for v in seq {
        assert_eq!(g.next_u64(), v);
    }
}

#[test]
fn warm_up_hides_the_seed() {
    let g = RandomStream::new(3);
    assert_ne!(g.s0, 3);
    assert_ne!(g.s2, !3u64);
}

#[test]
fn threshold_escalates_with_pity() {
    assert_eq!(top_tier_threshold(0), 2);
    assert_eq!(top_tier_threshold(48), 2);
    assert_eq!(top_tier_threshold(49), 2);
    assert_eq!(top_tier_threshold(50), 2);
    assert_eq!(top_tier_threshold(51), 4);
    assert_eq!(top_tier_threshold(99), 100);
}

#[test]
fn hard_pity_at_pity_ninety_nine() {
    let c = config(2, 3, 50, 50);
    let mut st = TrialState::new(&c);
    st.pity6 = 98;
    st.pity5 = 40;
    st.pulls = 120;
    st.apply_pull(&c, 99, 99, 0);
    assert_eq!((st.pity6, st.off_banner5), (98, 1));
    st.pity6 = 99;
    st.apply_pull(&c, 99, 0, 0);
    assert_eq!(st.on_banner6, 1);
    assert_eq!(st.pity6, 0);
    assert_eq!(st.pity5, 10);
}

#[test]
fn tenth_pull_is_at_least_second_tier() {
    let c = config(2, 3, 50, 50);
    let mut st = TrialState::new(&c);
    for _ in 0..9 {
        st.apply_pull(&c, 99, 0, 0);
    }
    assert_eq!(st.pity5, 9);
    assert_eq!(st.on_banner5 + st.off_banner5, 0);
    st.apply_pull(&c, 99, 99, 0);
    assert_eq!(st.off_banner5, 1);
    assert_eq!(st.pity5, 10);
    assert_eq!(st.pity6, 9);
}

#[test]
fn second_tier_pity_does_not_return_after_a_hit() {
    let c = config(2, 3, 50, 50);
    let mut st = TrialState::new(&c);
    st.apply_pull(&c, 5, 0, 0);
    assert_eq!(st.on_banner5, 1);
    for _ in 0..9 {
        st.apply_pull(&c, 99, 0, 0);
    }
    assert_eq!(st.pity5, 19);
    st.apply_pull(&c, 99, 0, 0);
    assert_eq!(st.on_banner5, 1);
    assert_eq!(st.pity5, 20);
}

#[test]
fn tier_boundaries_are_strict() {
    let c = config(2, 3, 50, 50);
    let mut st = TrialState::new(&c);
    st.apply_pull(&c, 101, 0, 0);
    assert_eq!(st.on_banner6, 1);
    let mut st = TrialState::new(&c);
    st.apply_pull(&c, 2, 0, 0);
    assert_eq!(st.on_banner5, 1);
    let mut st = TrialState::new(&c);
    st.apply_pull(&c, 10, 0, 0);
    assert_eq!(st.on_banner5 + st.on_banner6 + st.off_banner5 + st.off_banner6, 0);
    assert_eq!((st.pity6, st.pity5), (1, 1));
}

#[test]
fn rate_up_hundred_is_always_on_banner() {
    let c = config(2, 3, 100, 50);
    for r2 in [0u64, 50, 99, 12345] {
        let mut st = TrialState::new(&c);
        st.apply_pull(&c, 0, r2, 1);
        assert_eq!((st.on_banner6, st.off_banner6), (1, 0));
        assert_eq!(st.on_item6, vec![0, 1, 0]);
    }
}

#[test]
fn rate_up_zero_is_always_off_banner() {
    let c = config(2, 3, 0, 50);
    for r2 in [0u64, 50, 99] {
        let mut st = TrialState::new(&c);
        st.apply_pull(&c, 0, r2, 1);
        assert_eq!((st.on_banner6, st.off_banner6), (0, 1));
    }
}

#[test]
fn single_item_pool_hits_index_zero() {
    let c = config(1, 3, 100, 50);
    let mut st = TrialState::new(&c);
    for r3 in [0u64, 1, 7, u64::MAX] {
        st.apply_pull(&c, 0, 0, r3);
    }
    assert_eq!(st.on_item6, vec![4, 0, 0]);
    assert_eq!(st.on_banner6, 4);
}

#[test]
fn second_tier_item_selection() {
    let c = config(1, 3, 50, 100);
    let mut st = TrialState::new(&c);
    st.apply_pull(&c, 5, 0, 5);
    assert_eq!(st.on_item5, vec![0, 0, 1]);
}

#[test]
fn checkpoints_are_cumulative() {
    let c = config(2, 3, 50, 50);
    let q = queries(&[("any", "onBanner6 + offBanner6 >= 1"), ("pity", "pity6 >= 20"), ("five", "onBanner5 >= 3")]);
    let split = run(&c, &vec![50, 50], &q, 300).unwrap();
    let whole = run(&c, &vec![100], &q, 300).unwrap();
    let half = run(&c, &vec![50], &q, 300).unwrap();
    for i in 0..3 {
        assert_eq!(split[i * 2], half[i]);
        assert_eq!(split[i * 2 + 1], whole[i]);
    }
}

#[test]
fn item_counts_sum_to_on_banner_counts() {
    let c = config(2, 3, 50, 50);
    let q = queries(&[
        ("six", "onItem6[0] + onItem6[1] == onBanner6"),
        ("five", "banner5s[0] + banner5s[1] + banner5s[2] == banner5"),
    ]);
    let r = run(&c, &vec![30, 70, 200], &q, 200).unwrap();
    assert_eq!(r, vec![200; 6]);
}

#[test]
fn end_to_end_at_least_one_top_tier() {
    let c = config(2, 3, 50, 50);
    let q = queries(&[("1x 6*", "(onBanner6+offBanner6) >= 1")]);
    let n = 1_000_000u64;
    let r = run(&c, &vec![150], &q, n).unwrap();
    let pct = 100.0 * r[0] as f64 / n as f64;
    assert!(pct >= 99.5 && pct <= 100.0, "{}", pct);
}

#[test]
fn result_layout_is_query_major() {
    let c = config(2, 3, 50, 50);
    let q = queries(&[("never", "0"), ("always", "1")]);
    let r = run(&c, &vec![1, 2, 3], &q, 7).unwrap();
    assert_eq!(r, vec![0, 0, 0, 7, 7, 7]);
}

#[test]
fn run_is_deterministic() {
    let c = config(2, 3, 50, 50);
    let q = queries(&[("x", "onItem6[1] >= 1 && onItem5[2] >= 2")]);
    assert_eq!(run(&c, &vec![80], &q, 500), run(&c, &vec![80], &q, 500));
}

#[test]
fn configuration_errors() {
    let q = queries(&[("a", "1")]);
    assert_eq!(run(&config(2, 3, 101, 50), &vec![10], &q, 1), Err(RunError::Config(ConfigError::RateOutOfRange)));
    assert_eq!(run(&config(2, 3, 50, 200), &vec![10], &q, 1), Err(RunError::Config(ConfigError::RateOutOfRange)));
    assert_eq!(run(&config(0, 3, 50, 50), &vec![10], &q, 1), Err(RunError::Config(ConfigError::EmptyPool)));
    assert_eq!(run(&config(2, 0, 50, 50), &vec![10], &q, 1), Err(RunError::Config(ConfigError::EmptyPool)));
    assert_eq!(run(&config(17, 3, 50, 50), &vec![10], &q, 1), Err(RunError::Config(ConfigError::PoolTooLarge)));
    assert_eq!(config(16, 16, 100, 0).validate(), Ok(()));
}

#[test]
fn checkpoint_errors() {
    let c = config(2, 3, 50, 50);
    let q = queries(&[("a", "1")]);
    assert_eq!(run(&c, &vec![], &q, 1), Err(RunError::NoCheckpoints));
    assert_eq!(run(&c, &vec![u64::MAX / 2, u64::MAX / 2], &q, 1), Err(RunError::TooManyPulls));
    assert!(checkpoints_fit(&vec![u64::MAX - 11]));
    assert!(!checkpoints_fit(&vec![u64::MAX - 10]));
}

#[test]
fn bad_queries_are_refused_before_any_trial() {
    let c = config(2, 3, 50, 50);
    let q = queries(&[("ok", "banner6 >= 1"), ("typo", "banner7 >= 1"), ("bad", "(1")]);
    assert_eq!(run(&c, &vec![10], &q, u64::MAX), Err(RunError::BadQuery(1)));
    assert_eq!(compile_queries(&queries(&[("bad", "1 +")])).unwrap_err(), 0);
    let ok = compile_queries(&queries(&[("l", "pity5 < 3")])).unwrap();
    assert_eq!(ok[0].label, "l");
}

#[test]
fn expression_evaluation() {
    let c = config(2, 3, 50, 50);
    let st = TrialState::new(&c);
    assert_eq!(value("1 + 2 * 3", &st), Some(7));
    assert_eq!(value("(1 + 2) * 3", &st), Some(9));
    assert_eq!(value("10 - 3 - 2", &st), Some(5));
    assert_eq!(value("!0", &st), Some(1));
    assert_eq!(value("!7", &st), Some(0));
    assert_eq!(value("-5 < 0", &st), Some(1));
    assert_eq!(value("2 <= 2 && 3 > 2 && 1 != 2 && 4 >= 5 || 1 == 1", &st), Some(1));
    assert_eq!(value("pity6 == 0 && onItem6[20] == 0", &st), Some(1));
    assert_eq!(value("9223372036854775807 + 1", &st), None);
    assert_eq!(value("0 && 9223372036854775807 + 1", &st), Some(0));
    assert_eq!(value("1 || 9223372036854775807 * 2", &st), Some(1));
}

#[test]
fn expression_counters() {
    let c = config(2, 3, 100, 100);
    let mut st = TrialState::new(&c);
    st.apply_pull(&c, 0, 0, 1);
    st.apply_pull(&c, 5, 0, 2);
    st.apply_pull(&c, 99, 0, 0);
    assert_eq!(value("onItem6[1]", &st), Some(1));
    assert_eq!(value("banner6s[0]", &st), Some(0));
    assert_eq!(value("onItem5[ 2 ]", &st), Some(1));
    assert_eq!(value("banner6 + off6 + banner5 + off5", &st), Some(2));
    assert_eq!(value("pity6 * 10 + pity5", &st), Some(21));
}

#[test]
fn malformed_expressions() {
    for src in ["", "1 +", "(1", "1)", "foo", "onItem6", "onItem6[x]", "1 = 1", "9223372036854775808", "1 2"] {
        assert!(parse_expr(src).is_none(), "{}", src);
    }
}

#[test]
fn splitting_query_arguments() {
    assert_eq!(split_query("name;banner6 >= 1"), Some(("name".to_string(), "banner6 >= 1".to_string())));
    assert_eq!(split_query("a;b;c"), Some(("a".to_string(), "b;c".to_string())));
    assert_eq!(split_query(";x"), Some((String::new(), "x".to_string())));
    assert_eq!(split_query("no separator"), None);
}

#[test]
fn preset_configurations() {
    assert_eq!(preset_config(BannerType::Standard), config(2, 3, 50, 50));
    assert_eq!(preset_config(BannerType::Event), config(1, 2, 50, 50));
    assert_eq!(preset_config(BannerType::Limited), config(2, 1, 70, 50));
    assert_eq!(preset_config(BannerType::Custom), config(1, 1, 50, 50));
    let c = preset_config(BannerType::Limited).with_overrides(Some(3), None, None, None, Some(0), Some(50));
    assert_eq!(c, BannerConfig { n6: 3, n5: 1, n6p: 0, rate6b: 70, rate5b: 0, stdpool: 50 });
}

#[test]
fn preset_queries() {
    assert_eq!(builtin_queries(BannerType::Standard).len(), 12);
    assert_eq!(builtin_queries(BannerType::Limited).len(), 12);
    assert_eq!(builtin_queries(BannerType::Event).len(), 10);
    assert!(builtin_queries(BannerType::Custom).is_empty());
    let all = builtin_queries(BannerType::Standard);
    assert_eq!(all[11], ("Both 6* Max Pot".to_string(), "banner6s[0] >= 6 && banner6s[1] >= 6".to_string()));
    assert!(compile_queries(&all).is_ok());
    let mine = queries(&[("mine", "pity6 > 3")]);
    assert_eq!(query_list(BannerType::Event, mine.clone(), false), mine);
    assert_eq!(query_list(BannerType::Event, mine.clone(), true).len(), 11);
    assert_eq!(query_list(BannerType::Event, vec![], false).len(), 10);
}

#[test]
fn waves_add_up_to_one_run() {
    let c = config(2, 3, 50, 50);
    let cps = vec![40, 60];
    let src = queries(&[("a", "onBanner6 >= 1"), ("b", "onItem5[1] >= 1 || pity6 > 30")]);
    let qs = prepare(&c, &cps, &src).unwrap();
    let whole = simulate(&c, &cps, &qs, 0, 250);
    let first = simulate(&c, &cps, &qs, 0, 100);
    let second = simulate(&c, &cps, &qs, 100, 150);
    let sum: Vec<u64> = first.iter().zip(second.iter()).map(|(x, y)| x + y).collect();
    assert_eq!(whole, sum);
    assert_eq!(run(&c, &cps, &src, 250).unwrap(), whole);
}
