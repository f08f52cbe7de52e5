use lob_kernel::orders::{ClientOrderId, Intent, TimeInForce};
use lob_kernel::risk::{
    fold_action, MaxPositionPolicy, PriceBandPolicy, RateLimitPolicy, RiskAction, RiskEngine,
    RiskPolicy,
};
use lob_kernel::strategy::ContextSnapshot;
use lob_kernel::types::{Price, Qty, Side, SymbolId};

fn ctx_with_mid(ts_ns: u64, position_lots: i64) -> ContextSnapshot {
    ContextSnapshot::new(
        ts_ns,
        SymbolId::from_u32(0),
        Some((Price::new(100).unwrap(), Qty::new(1).unwrap())),
        Some((Price::new(102).unwrap(), Qty::new(1).unwrap())),
        position_lots,
        0,
    )
}

fn limit_order(side: Side, price: i64, qty: i64) -> Intent {
    Intent::PlaceLimit {
        symbol: SymbolId::from_u32(0),
        side,
        price: Price::new(price).unwrap(),
        qty: Qty::new(qty).unwrap(),
        tif: TimeInForce::Gtc,
        tag: None,
    }
}

fn rejected_for(action: RiskAction) -> String {
    match action {
        RiskAction::Reject { reason } => reason,
        other => panic!("expected a rejection, got {:?}", other),
    }
}

#[test]
fn max_position_rejects_excess() {
    let mut policy = MaxPositionPolicy::new(10);
    let ctx = ctx_with_mid(1, 9);
    let intent = limit_order(Side::Bid, 101, 2);
    assert!(matches!(
        policy.evaluate(&ctx, &intent),
        RiskAction::Reject { .. }
    ));
}

#[test]
fn max_position_allows_reducing() {
    let mut policy = MaxPositionPolicy::new(10);
    let ctx = ctx_with_mid(1, 9);
    let intent = limit_order(Side::Ask, 101, 2);
    assert!(matches!(
        policy.evaluate(&ctx, &intent),
        RiskAction::Allow(_)
    ));
}

#[test]
fn price_band_rejects_far_price() {
    let mut policy = PriceBandPolicy::new(3);
    let ctx = ctx_with_mid(1, 0);
    let intent = limit_order(Side::Bid, 200, 1);
    assert!(matches!(
        policy.evaluate(&ctx, &intent),
        RiskAction::Reject { .. }
    ));
}

#[test]
fn rate_limit_enforced_per_second() {
    let mut policy = RateLimitPolicy::new(2);
    let ctx = ctx_with_mid(1, 0);
    let intent = limit_order(Side::Bid, 101, 1);

    assert!(matches!(
        policy.evaluate(&ctx, &intent),
        RiskAction::Allow(_)
    ));
    assert!(matches!(
        policy.evaluate(&ctx, &intent),
        RiskAction::Allow(_)
    ));
    assert!(matches!(
        policy.evaluate(&ctx, &intent),
        RiskAction::Reject { .. }
    ));

    let ctx_next = ctx_with_mid(1_000_000_000, 0);
    assert!(matches!(
        policy.evaluate(&ctx_next, &intent),
        RiskAction::Allow(_)
    ));
}

#[test]
fn max_position_edges_and_reasons() {
    let ctx = ctx_with_mid(1, 9);
    // Exactly at the limit passes; the sign of the limit does not matter.
    let mut policy = MaxPositionPolicy::new(-10);
    let at_limit = limit_order(Side::Bid, 101, 1);
    assert_eq!(policy.evaluate(&ctx, &at_limit), RiskAction::Allow(at_limit.clone()));
    assert_eq!(
        rejected_for(policy.evaluate(&ctx, &limit_order(Side::Bid, 101, 2))),
        "max position exceeded"
    );
    // Short side: 9 - 20 = -11.
    assert_eq!(
        rejected_for(policy.evaluate(&ctx, &limit_order(Side::Ask, 101, 20))),
        "max position exceeded"
    );
    // Other intents pass.
    let cancel = Intent::Cancel { client_order_id: ClientOrderId(1) };
    assert_eq!(policy.evaluate(&ctx, &cancel), RiskAction::Allow(cancel.clone()));
    // A limit of zero turns everything away.
    let mut closed = MaxPositionPolicy::new(0);
    assert_eq!(rejected_for(closed.evaluate(&ctx, &cancel)), "position limit is zero");
    assert_eq!(
        rejected_for(closed.evaluate(&ctx, &limit_order(Side::Ask, 101, 1))),
        "position limit is zero"
    );
    // The widest values do not overflow.
    let mut wide = MaxPositionPolicy::new(i64::MIN);
    let far = ctx_with_mid(1, i64::MAX);
    assert!(matches!(
        wide.evaluate(&far, &limit_order(Side::Bid, 101, i64::MAX)),
        RiskAction::Reject { .. }
    ));
}

#[test]
fn price_band_edges() {
    // The mid of 100 and 102 is 101.
    let ctx = ctx_with_mid(1, 0);
    let mut policy = PriceBandPolicy::new(-3);
    let inside = limit_order(Side::Bid, 104, 1);
    assert_eq!(policy.evaluate(&ctx, &inside), RiskAction::Allow(inside.clone()));
    let low = limit_order(Side::Ask, 98, 1);
    assert_eq!(policy.evaluate(&ctx, &low), RiskAction::Allow(low.clone()));
    assert_eq!(
        rejected_for(policy.evaluate(&ctx, &limit_order(Side::Bid, 105, 1))),
        "price outside band"
    );
    assert_eq!(
        rejected_for(policy.evaluate(&ctx, &limit_order(Side::Bid, 97, 1))),
        "price outside band"
    );
    // Without a mid price everything passes.
    let no_mid = ContextSnapshot::new(1, SymbolId::from_u32(0), None, None, 0, 0);
    assert_eq!(no_mid.mid_price, None);
    let far = limit_order(Side::Bid, 100_000, 1);
    assert_eq!(policy.evaluate(&no_mid, &far), RiskAction::Allow(far.clone()));
    let replace = Intent::Replace {
        client_order_id: ClientOrderId(4),
        new_price: Price::new(100_000).unwrap(),
        new_qty: Qty::new(1).unwrap(),
    };
    assert_eq!(policy.evaluate(&ctx, &replace), RiskAction::Allow(replace.clone()));
}

#[test]
fn rate_limit_of_zero_rejects_all() {
    let mut policy = RateLimitPolicy::new(0);
    let ctx = ctx_with_mid(5, 0);
    assert_eq!(
        rejected_for(policy.evaluate(&ctx, &limit_order(Side::Bid, 101, 1))),
        "rate limit exceeded"
    );
    assert_eq!(
        rejected_for(policy.evaluate(&ctx, &Intent::Cancel { client_order_id: ClientOrderId(1) })),
        "rate limit exceeded"
    );
}

#[test]
fn rate_limit_counts_each_second_apart() {
    let mut policy = RateLimitPolicy::new(1);
    let intent = limit_order(Side::Bid, 101, 1);
    assert!(matches!(policy.evaluate(&ctx_with_mid(999_999_999, 0), &intent), RiskAction::Allow(_)));
    assert!(matches!(policy.evaluate(&ctx_with_mid(0, 0), &intent), RiskAction::Reject { .. }));
    assert!(matches!(policy.evaluate(&ctx_with_mid(1_000_000_000, 0), &intent), RiskAction::Allow(_)));
    assert!(matches!(policy.evaluate(&ctx_with_mid(1_999_999_999, 0), &intent), RiskAction::Reject { .. }));
    // Going back to an earlier second starts a new count.
    assert!(matches!(policy.evaluate(&ctx_with_mid(5, 0), &intent), RiskAction::Allow(_)));
}

struct HalveQty;

impl RiskPolicy for HalveQty {
    fn evaluate(&mut self, _ctx: &ContextSnapshot, intent: &Intent) -> RiskAction {
        match intent {
            Intent::PlaceLimit { symbol, side, price, qty, tif, tag } => {
                RiskAction::Transform(Intent::PlaceLimit {
                    symbol: *symbol,
                    side: *side,
                    price: *price,
                    qty: Qty::new(qty.lots() / 2).unwrap(),
                    tif: *tif,
                    tag: tag.clone(),
                })
            }
            other => RiskAction::Allow(other.clone()),
        }
    }
}

#[test]
fn risk_engine_chains_policies_in_order() {
    let ctx = ctx_with_mid(1, 9);
    let intent = limit_order(Side::Bid, 101, 2);

    let mut empty = RiskEngine::new();
    assert_eq!(empty.len(), 0);
    assert_eq!(empty.evaluate(&ctx, &intent), RiskAction::Allow(intent.clone()));

    // Halving first brings the order under the limit; the answer allows what came out.
    let mut halve_first = RiskEngine::new()
        .with_policy(HalveQty)
        .with_policy(MaxPositionPolicy::new(10));
    assert_eq!(halve_first.len(), 2);
    assert_eq!(
        halve_first.evaluate(&ctx, &intent),
        RiskAction::Allow(limit_order(Side::Bid, 101, 1))
    );

    // The other way round the limit judges the order as it came, and the chain ends there.
    let mut limit_first = RiskEngine::default()
        .with_policy(MaxPositionPolicy::new(10))
        .with_policy(HalveQty);
    assert_eq!(
        limit_first.evaluate(&ctx, &intent),
        RiskAction::Reject { reason: "max position exceeded".to_string() }
    );
}

#[test]
fn fold_action_keeps_intent_or_reason() {
    let intent = limit_order(Side::Bid, 101, 2);
    assert_eq!(fold_action(RiskAction::Allow(intent.clone())), Ok(intent.clone()));
    assert_eq!(fold_action(RiskAction::Transform(intent.clone())), Ok(intent.clone()));
    assert_eq!(
        fold_action(RiskAction::Reject { reason: "no".to_string() }),
        Err("no".to_string())
    );
}

#[test]
fn context_mid_price_rounds_down() {
    let ctx = ContextSnapshot::new(
        7,
        SymbolId::from_u32(2),
        Some((Price::new(100).unwrap(), Qty::new(1).unwrap())),
        Some((Price::new(103).unwrap(), Qty::new(1).unwrap())),
        -4,
        3,
    );
    assert_eq!(ctx.mid_price, Some(Price::new(101).unwrap()));
    assert_eq!(ctx.ts_ns, 7);
    assert_eq!(ctx.position_lots, -4);
    assert_eq!(ctx.open_orders, 3);
    let wide = ContextSnapshot::new(
        7,
        SymbolId::from_u32(2),
        Some((Price::new(i64::MAX).unwrap(), Qty::new(1).unwrap())),
        Some((Price::new(i64::MAX).unwrap(), Qty::new(1).unwrap())),
        0,
        0,
    );
    assert_eq!(wide.mid_price, Some(Price::new(i64::MAX).unwrap()));
    let one_sided = ContextSnapshot::new(
        7,
        SymbolId::from_u32(2),
        Some((Price::new(100).unwrap(), Qty::new(1).unwrap())),
        None,
        0,
        0,
    );
    assert_eq!(one_sided.mid_price, None);
}

#[test]
fn chain_of_three_ends_at_the_first_rejection() {
    let ctx = ctx_with_mid(1, 0);
    let far = limit_order(Side::Bid, 140, 2);
    let mut chain = RiskEngine::new()
        .with_policy(MaxPositionPolicy::new(10))
        .with_policy(PriceBandPolicy::new(5))
        .with_policy(RateLimitPolicy::new(1));
    assert_eq!(chain.len(), 3);
    // The band turns the order away, so the rate limit never counts it.
    assert_eq!(rejected_for(chain.evaluate(&ctx, &far)), "price outside band");
    assert_eq!(rejected_for(chain.evaluate(&ctx, &far)), "price outside band");
    let near = limit_order(Side::Bid, 101, 2);
    assert_eq!(chain.evaluate(&ctx, &near), RiskAction::Allow(near.clone()));
    assert_eq!(rejected_for(chain.evaluate(&ctx, &near)), "rate limit exceeded");
}

#[test]
fn chain_without_memory_answers_alike_each_time() {
    let ctx = ctx_with_mid(1, 9);
    let big = limit_order(Side::Bid, 101, 2);
    let small = limit_order(Side::Bid, 101, 1);
    let mut chain = RiskEngine::new()
        .with_policy(MaxPositionPolicy::new(10))
        .with_policy(PriceBandPolicy::new(5));
    for _ in 0..3 {
        assert_eq!(rejected_for(chain.evaluate(&ctx, &big)), "max position exceeded");
        assert_eq!(chain.evaluate(&ctx, &small), RiskAction::Allow(small.clone()));
    }
}
