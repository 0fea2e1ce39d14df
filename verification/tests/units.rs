use sapio::bet::CallSpec;
use sapio::conditional::ConditionalCompileType as C;
use sapio::bet::GenericBet;
use sapio::bet::GenericBetArguments;
use sapio::clause::Clause;
use sapio::context::Context;
use sapio::context::NetworkDef;
use sapio::context::PathSeg;
use sapio::guards::Guard;
use sapio::guards::GuardCache;
use sapio::template::AmountRange;
use sapio::template::Output;
use sapio::template::Template;

fn key_a() -> Vec<u8> {
    vec![0xaa; 33]
}

#[test]
fn amount_range_widens_monotonically() {
    let mut r = AmountRange::new();
    assert_eq!(r.min, u64::MAX);
    assert_eq!(r.max, 0);
    r.update_range(50);
    assert_eq!((r.min, r.max), (50, 50));
    r.update_range(70);
    assert_eq!((r.min, r.max), (50, 70));
    r.update_range(60);
    assert_eq!((r.min, r.max), (50, 70));
    r.update_range(10);
    assert_eq!((r.min, r.max), (10, 70));
}

#[test]
fn merge_follows_the_documented_total_order() {
    // fail, then never, then skippable, then required, then nullable, then
    // no-constraint
    assert_eq!(C::NoConstraint.merge(C::Required), C::Required);
    assert_eq!(C::Required.merge(C::NoConstraint), C::Required);
    assert_eq!(C::Required.merge(C::Nullable), C::Required);
    assert_eq!(C::Nullable.merge(C::NoConstraint), C::Nullable);
    assert_eq!(C::Skippable.merge(C::Required), C::Skippable);
    assert_eq!(C::Never.merge(C::Skippable), C::Never);
    assert_eq!(
        C::Never.merge(C::Fail(vec!["x".to_string()])),
        C::Fail(vec!["x".to_string()])
    );
    assert_eq!(
        C::Fail(vec!["a".to_string()]).merge(C::Fail(vec!["b".to_string()])),
        C::Fail(vec!["a".to_string(), "b".to_string()])
    );
    assert_eq!(C::NoConstraint.merge(C::NoConstraint), C::NoConstraint);
}

#[test]
fn cacheable_guard_evaluated_once_fresh_guard_every_time() {
    let table = vec![
        Some(Guard::Cache(Clause::Key(key_a()))),
        Some(Guard::Fresh(Clause::Trivial)),
        None,
    ];
    let mut cache = GuardCache::new(table.len());
    assert_eq!(cache.get(&table, 0), Some(Clause::Key(key_a())));
    assert_eq!(cache.get(&table, 0), Some(Clause::Key(key_a())));
    assert_eq!(cache.get(&table, 0), Some(Clause::Key(key_a())));
    assert_eq!(cache.evals[0], 1);
    assert_eq!(cache.get(&table, 1), Some(Clause::Trivial));
    assert_eq!(cache.get(&table, 1), Some(Clause::Trivial));
    assert_eq!(cache.evals[1], 2);
    assert_eq!(cache.get(&table, 2), None);
    assert_eq!(cache.evals[2], 0);
}

#[test]
fn template_hash_is_a_32_byte_digest_of_the_encoding() {
    let t = Template { outputs: vec![], max: 0 };
    let enc = t.encode();
    // count of outputs and the bound, both zero, little endian
    assert_eq!(enc, vec![0u8; 16]);
    let h = t.hash();
    assert_eq!(h.len(), 32);
    // sha256 of sixteen zero bytes
    let expected = "374708fff7719dd5979ec875d56cd2286f6d3cf7ec317a3b25632aab28ec37bb";
    let got: String = h.iter().map(|b| format!("{:02x}", b)).collect();
    assert_eq!(got, expected);
}

#[test]
fn equal_templates_hash_equal_and_different_ones_differ() {
    let a = Template {
        outputs: vec![Output { amount: 5, script: vec![1, 2, 3] }],
        max: 5,
    };
    let b = Template {
        outputs: vec![Output { amount: 5, script: vec![1, 2, 3] }],
        max: 5,
    };
    let c = Template {
        outputs: vec![Output { amount: 6, script: vec![1, 2, 3] }],
        max: 6,
    };
    assert_eq!(a.hash(), b.hash());
    assert_ne!(a.hash(), c.hash());
}

#[test]
fn context_derives_children_by_path() {
    let root = Context::new(NetworkDef::Regtest);
    assert!(root.path.is_empty());
    let child = root.derive(PathSeg::ThenFn).derive(PathSeg::Index(3));
    assert_eq!(child.network, NetworkDef::Regtest);
    assert_eq!(child.path, vec![PathSeg::ThenFn, PathSeg::Index(3)]);
    let sibling = child.internal_clone();
    assert_eq!(sibling.path, child.path);
    let h = vec![0x11; 32];
    assert_eq!(root.ctv_emulator(&h), Clause::TxTemplate(h));
}

fn call(buying: bool) -> CallSpec {
    CallSpec {
        amount: 2,
        strike_x_one_unit: 10_000,
        max_price_x_one_unit: 30_000,
        operator_key: Clause::Key(key_a()),
        user_key: Clause::Key(vec![0xbb; 33]),
        operator_script: vec![0x51],
        user_script: vec![0x52],
        oracle: Clause::Key(vec![0xcc; 33]),
        symbol: "BTCUSD".to_string(),
        buying,
    }
}

#[test]
fn call_schedule_selling() {
    let b = GenericBetArguments::try_from(call(false)).unwrap();
    assert_eq!(b.amount, 60_000);
    assert_eq!(b.symbol, "BTCUSD");
    assert_eq!(
        b.cooperate,
        Clause::And(
            Box::new(Clause::Key(key_a())),
            Box::new(Clause::Key(vec![0xbb; 33]))
        )
    );
    let prices: Vec<i64> = b.outcomes.iter().map(|o| o.0).collect();
    assert_eq!(prices, vec![10_000, 20_000, 30_000]);
    // at price 20 000 the profit is 10 000 to the user, the rest refunds
    let t = &b.outcomes[1].1;
    assert_eq!(t.max, 60_000);
    assert_eq!(t.outputs.len(), 2);
    assert_eq!((t.outputs[0].amount, t.outputs[0].script.clone()), (10_000, vec![0x52]));
    assert_eq!((t.outputs[1].amount, t.outputs[1].script.clone()), (50_000, vec![0x51]));
}

#[test]
fn call_schedule_buying_swaps_payouts() {
    let b = GenericBetArguments::try_from(call(true)).unwrap();
    let t = &b.outcomes[1].1;
    assert_eq!((t.outputs[0].amount, t.outputs[0].script.clone()), (50_000, vec![0x52]));
    assert_eq!((t.outputs[1].amount, t.outputs[1].script.clone()), (10_000, vec![0x51]));
}

#[test]
fn generic_bet_wraps_the_arguments() {
    let b = GenericBet::try_from(call(false)).unwrap();
    assert_eq!(b.args.amount, 60_000);
    assert_eq!(b.args.outcomes.len(), 3);
}

#[test]
fn empty_strike_range_yields_no_outcomes() {
    let mut v = call(false);
    v.strike_x_one_unit = 40_000;
    let b = GenericBetArguments::try_from(v).unwrap();
    assert!(b.outcomes.is_empty());
}

#[test]
fn zero_amount_with_empty_schedule_is_accepted() {
    let mut v = call(false);
    v.amount = 0;
    v.strike_x_one_unit = 40_000;
    let b = GenericBetArguments::try_from(v).unwrap();
    assert_eq!(b.amount, 0);
    assert!(b.outcomes.is_empty());
}
