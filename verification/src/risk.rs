//! The risk engine: a chain of policies, each of which lets an intent
//! pass, changes it, or turns it away.

use crate::arith::magnitude;
use crate::orders::Intent;
use crate::strategy::ContextSnapshot;
use crate::types::Side;
use vstd::prelude::*;

verus! {

/// What a policy makes of an intent.
#[derive(Debug, Clone, PartialEq, Eq)]
pub enum RiskAction {
    Allow(Intent),
    Reject { reason: String },
    Transform(Intent),
}

/// What a policy's answer says, with the reason as plain text.
pub ghost enum Verdict {
    Allow(Intent),
    Transform(Intent),
    Reject(Seq<char>),
}

impl Verdict {
    /// The verdict that a rejection, or none, calls for: the rejection
    /// with its reason, or the intent let through as it came.
    pub open spec fn of(intent: Intent, rejection: Option<Seq<char>>) -> Verdict {
        match rejection {
            Some(reason) => Verdict::Reject(reason),
            None => Verdict::Allow(intent),
        }
    }

    /// The intent in hand after the verdict, or the reason for which the
    /// chain ends.
    pub open spec fn folded(self) -> Result<Intent, Seq<char>> {
        match self {
            Verdict::Allow(next) => Ok(next),
            Verdict::Transform(next) => Ok(next),
            Verdict::Reject(reason) => Err(reason),
        }
    }
}

/// What a chain of policies makes of an intent.
pub ghost struct Ruling {
    /// The chain's answer.
    pub verdict: Verdict,
    /// What each policy remembers afterwards.
    pub memories: Seq<Seq<int>>,
    /// How many policies were asked, counted from the first.
    pub asked: nat,
}

/// What a chain makes of intents, as a function of what its policies
/// remember, the engine's state and the intent.
pub type Judge = spec_fn(Seq<Seq<int>>, ContextSnapshot, Intent) -> Option<Ruling>;

/// Whether an answer is the one that a verdict describes.
pub open spec fn gives(action: RiskAction, verdict: Verdict) -> bool {
    match verdict {
        Verdict::Allow(next) => action == RiskAction::Allow(next),
        Verdict::Transform(next) => action == RiskAction::Transform(next),
        Verdict::Reject(reason) => action matches RiskAction::Reject { reason: given } && given@
            == reason,
    }
}

/// One risk policy. What a policy holds is of two kinds: its settings,
/// which a call leaves alone, and what it remembers from one call to the
/// next.
pub trait RiskPolicy {
    /// What the policy remembers, as numbers. A policy that remembers
    /// nothing has none.
    open spec fn memory(&self) -> Seq<int> {
        Seq::empty()
    }

    /// What a policy with these settings that remembers `memory` answers
    /// to an intent. `None` where the policy does not say.
    open spec fn verdict(&self, memory: Seq<int>, ctx: ContextSnapshot, intent: Intent) -> Option<
        Verdict,
    > {
        None
    }

    /// What a policy with these settings that remembered `memory`
    /// remembers once it has answered.
    open spec fn remembers(&self, memory: Seq<int>, ctx: ContextSnapshot, intent: Intent) -> Seq<
        int,
    > {
        memory
    }

    /// Judges one intent in the light of the engine's state.
    fn evaluate(&mut self, ctx: &ContextSnapshot, intent: &Intent) -> (r: RiskAction)
        ensures
            old(self).verdict(old(self).memory(), *ctx, *intent) matches Some(verdict) ==> {
                &&& gives(r, verdict)
                &&& final(self).memory() == old(self).remembers(old(self).memory(), *ctx, *intent)
                &&& forall|m: Seq<int>, c: ContextSnapshot, i: Intent| #[trigger]
                    final(self).verdict(m, c, i) == old(self).verdict(m, c, i)
                &&& forall|m: Seq<int>, c: ContextSnapshot, i: Intent| #[trigger]
                    final(self).remembers(m, c, i) == old(self).remembers(m, c, i)
            },
    ;
}

/// What each policy of a chain remembers.
pub open spec fn memories_of(policies: Seq<Box<dyn RiskPolicy>>) -> Seq<Seq<int>> {
    Seq::new(policies.len(), |j: int| policies[j].memory())
}

/// Whether the policies of two chains have the same settings, one by one:
/// remembering the same, they answer alike and remember the same
/// afterwards.
pub open spec fn same_settings(a: Seq<Box<dyn RiskPolicy>>, b: Seq<Box<dyn RiskPolicy>>) -> bool {
    &&& a.len() == b.len()
    &&& forall|j: int, m: Seq<int>, c: ContextSnapshot, i: Intent|
        0 <= j < a.len() ==> #[trigger] a[j].verdict(m, c, i) == b[j].verdict(m, c, i)
    &&& forall|j: int, m: Seq<int>, c: ContextSnapshot, i: Intent|
        0 <= j < a.len() ==> #[trigger] a[j].remembers(m, c, i) == b[j].remembers(m, c, i)
}

/// What the policies of a chain from the one at `from` onwards make of an
/// intent, where `memories` is what each policy remembers. Each policy
/// judges what the one before it let through or made of it; the first
/// rejection is the answer, and the policies behind it are not asked; with
/// no rejection the answer allows the intent that came out at the end.
/// `None` where a policy that is reached does not say what it answers.
pub open spec fn chain_ruling(
    policies: Seq<Box<dyn RiskPolicy>>,
    memories: Seq<Seq<int>>,
    from: nat,
    ctx: ContextSnapshot,
    intent: Intent,
) -> Option<Ruling>
    decreases policies.len() - from,
{
    if from >= policies.len() {
        Some(Ruling { verdict: Verdict::Allow(intent), memories, asked: policies.len() })
    } else {
        let policy = policies[from as int];
        let memory = memories[from as int];
        let kept = memories.update(from as int, policy.remembers(memory, ctx, intent));
        match policy.verdict(memory, ctx, intent) {
            None => None,
            Some(verdict) => match verdict.folded() {
                Ok(next) => chain_ruling(policies, kept, from + 1, ctx, next),
                Err(reason) => Some(
                    Ruling { verdict: Verdict::Reject(reason), memories: kept, asked: from + 1 },
                ),
            },
        }
    }
}

/// Chains whose policies have the same settings make the same of every
/// intent.
pub proof fn lemma_same_settings_rule_alike(
    a: Seq<Box<dyn RiskPolicy>>,
    b: Seq<Box<dyn RiskPolicy>>,
    memories: Seq<Seq<int>>,
    from: nat,
    ctx: ContextSnapshot,
    intent: Intent,
)
    requires
        same_settings(a, b),
    ensures
        chain_ruling(a, memories, from, ctx, intent) == chain_ruling(b, memories, from, ctx, intent),
    decreases a.len() - from,
{
    if from < a.len() {
        let at = from as int;
        let memory = memories[at];
        assert(a[at].verdict(memory, ctx, intent) == b[at].verdict(memory, ctx, intent));
        assert(a[at].remembers(memory, ctx, intent) == b[at].remembers(memory, ctx, intent));
        let kept = memories.update(at, a[at].remembers(memory, ctx, intent));
        match a[at].verdict(memory, ctx, intent) {
            Some(verdict) => match verdict.folded() {
                Ok(next) => {
                    lemma_same_settings_rule_alike(a, b, kept, from + 1, ctx, next);
                },
                Err(_) => {},
            },
            None => {},
        }
    }
}

/// Whether a policy's answer is the one that a rejection, or none, calls
/// for: the rejection with its reason, or the intent let through as it
/// came.
pub open spec fn answers(action: RiskAction, intent: Intent, rejection: Option<Seq<char>>) -> bool {
    match rejection {
        Some(reason) => action matches RiskAction::Reject { reason: given } && given@ == reason,
        None => action == RiskAction::Allow(intent),
    }
}

/// The intent in hand after one policy has answered, or the reason for
/// which the chain ends.
pub fn fold_action(action: RiskAction) -> (r: Result<Intent, String>)
    ensures
        match action {
            RiskAction::Allow(next) => r == Ok::<Intent, String>(next),
            RiskAction::Transform(next) => r == Ok::<Intent, String>(next),
            RiskAction::Reject { reason } => r == Err::<Intent, String>(reason),
        },
{
    match action {
        RiskAction::Allow(next) => Ok(next),
        RiskAction::Transform(next) => Ok(next),
        RiskAction::Reject { reason } => Err(reason),
    }
}

/// `Vec::push`, of the policy in a box that is taken as a trait object.
/// The policies that the chain held stay as they are and where they are,
/// and the new one stands behind them. A call on a trait object goes to the
/// value that it holds, so the new entry remembers what the policy
/// remembers and answers as it does. This is believed, not proved.
#[verifier::external_body]
fn push_policy<P: RiskPolicy + 'static>(policies: &mut Vec<Box<dyn RiskPolicy>>, policy: P)
    ensures
        final(policies)@.len() == old(policies)@.len() + 1,
        forall|j: int|
            0 <= j < old(policies)@.len() ==> #[trigger] final(policies)@[j] == old(policies)@[j],
        final(policies)@[old(policies)@.len() as int].memory() == policy.memory(),
        forall|m: Seq<int>, c: ContextSnapshot, i: Intent| #[trigger]
            final(policies)@[old(policies)@.len() as int].verdict(m, c, i) == policy.verdict(m, c, i),
        forall|m: Seq<int>, c: ContextSnapshot, i: Intent| #[trigger]
            final(policies)@[old(policies)@.len() as int].remembers(m, c, i) == policy.remembers(
                m,
                c,
                i,
            ),
{
    policies.push(Box::new(policy));
}

/// An ordered chain of risk policies.
pub struct RiskEngine {
    policies: Vec<Box<dyn RiskPolicy>>,
}

impl RiskEngine {
    /// The policies, first to last.
    pub closed spec fn spec_policies(&self) -> Seq<Box<dyn RiskPolicy>> {
        self.policies@
    }

    /// How many policies the chain holds.
    pub open spec fn spec_len(&self) -> nat {
        self.spec_policies().len()
    }

    /// What each policy remembers.
    pub open spec fn spec_memories(&self) -> Seq<Seq<int>> {
        memories_of(self.spec_policies())
    }

    /// What the chain, as it stands, makes of an intent.
    pub open spec fn ruling(&self, ctx: ContextSnapshot, intent: Intent) -> Option<Ruling> {
        chain_ruling(self.spec_policies(), self.spec_memories(), 0, ctx, intent)
    }

    /// What a chain with these policies' settings makes of intents.
    pub open spec fn judge(&self) -> Judge {
        |memories: Seq<Seq<int>>, ctx: ContextSnapshot, intent: Intent|
            chain_ruling(self.spec_policies(), memories, 0, ctx, intent)
    }

    /// A chain without policies: it lets every intent pass.
    pub fn new() -> (r: RiskEngine)
        ensures
            r.spec_len() == 0,
    {
        RiskEngine { policies: Vec::new() }
    }

    /// The chain with one more policy at its end.
    pub fn with_policy<P: RiskPolicy + 'static>(self, policy: P) -> (r: RiskEngine)
        ensures
            r.spec_len() == self.spec_len() + 1,
            forall|j: int|
                0 <= j < self.spec_len() ==> #[trigger] r.spec_policies()[j]
                    == self.spec_policies()[j],
            r.spec_policies()[self.spec_len() as int].memory() == policy.memory(),
            forall|m: Seq<int>, c: ContextSnapshot, i: Intent| #[trigger]
                r.spec_policies()[self.spec_len() as int].verdict(m, c, i) == policy.verdict(m, c, i),
            forall|m: Seq<int>, c: ContextSnapshot, i: Intent| #[trigger]
                r.spec_policies()[self.spec_len() as int].remembers(m, c, i) == policy.remembers(
                    m,
                    c,
                    i,
                ),
    {
        let mut policies = self.policies;
        push_policy(&mut policies, policy);
        RiskEngine { policies }
    }

    /// Chains whose policies have the same settings judge alike.
    pub proof fn lemma_same_settings_judge_alike(self, other: RiskEngine)
        requires
            same_settings(self.spec_policies(), other.spec_policies()),
        ensures
            self.judge() == other.judge(),
    {
        assert forall|memories: Seq<Seq<int>>, ctx: ContextSnapshot, intent: Intent|
            chain_ruling(self.spec_policies(), memories, 0, ctx, intent) == chain_ruling(
                other.spec_policies(),
                memories,
                0,
                ctx,
                intent,
            ) by {
            lemma_same_settings_rule_alike(
                self.spec_policies(),
                other.spec_policies(),
                memories,
                0,
                ctx,
                intent,
            );
        }
        assert(self.judge() =~= other.judge());
    }

    pub fn len(&self) -> (r: usize)
        ensures
            r == self.spec_len(),
    {
        self.policies.len()
    }

    /// Hands the intent down the chain. Each policy judges what the one
    /// before it let through or made of it; the first rejection ends the
    /// chain and is the answer. If no policy rejects, the answer allows the
    /// intent that came out at the end: with no policies, the one that went
    /// in. The policies behind the one that rejects are not asked and stay
    /// as they are; those that were asked keep their settings and remember
    /// what they say they do.
    pub fn evaluate(&mut self, ctx: &ContextSnapshot, intent: &Intent) -> (r: RiskAction)
        ensures
            final(self).spec_len() == old(self).spec_len(),
            r is Allow || r is Reject,
            old(self).spec_len() == 0 ==> r == RiskAction::Allow(*intent),
            old(self).ruling(*ctx, *intent) matches Some(ruling) ==> {
                &&& gives(r, ruling.verdict)
                &&& final(self).spec_memories() == ruling.memories
                &&& final(self).judge() == old(self).judge()
                &&& same_settings(final(self).spec_policies(), old(self).spec_policies())
                &&& forall|j: int|
                    ruling.asked <= j < old(self).spec_len() ==> #[trigger]
                        final(self).spec_policies()[j] == old(self).spec_policies()[j]
            },
    {
        let mut current = intent.clone();
        let n = self.policies.len();
        let mut i: usize = 0;
        let ghost goal = self.ruling(*ctx, *intent);
        assert(same_settings(self.policies@, self.policies@));
        while i < n
            invariant
                i <= n,
                n == self.policies@.len(),
                n == old(self).policies@.len(),
                n == 0 ==> current == *intent,
                goal == old(self).ruling(*ctx, *intent),
                forall|j: int| i <= j < n ==> self.policies@[j] == old(self).policies@[j],
                goal is Some ==> same_settings(self.policies@, old(self).policies@),
                goal is Some ==> goal == chain_ruling(
                    old(self).policies@,
                    memories_of(self.policies@),
                    i as nat,
                    *ctx,
                    current,
                ),
            decreases n - i,
        {
            let ghost held = self.policies@;
            let ghost memories = memories_of(held);
            let action = self.policies[i].evaluate(ctx, &current);
            proof {
                let at = i as int;
                assert forall|j: int| 0 <= j < n && j != i implies self.policies@[j] == held[j] by {
                    vstd::seq::axiom_seq_update_different(held, j, at, self.policies@[at]);
                }
                if goal is Some {
                    assert(memories[at] == held[at].memory());
                    assert(held[at].verdict(memories[at], *ctx, current) == old(
                        self,
                    ).policies@[at].verdict(memories[at], *ctx, current));
                    assert(held[at].remembers(memories[at], *ctx, current) == old(
                        self,
                    ).policies@[at].remembers(memories[at], *ctx, current));
                    assert(memories_of(self.policies@) =~= memories.update(
                        at,
                        held[at].remembers(memories[at], *ctx, current),
                    ));
                    assert forall|j: int, m: Seq<int>, c: ContextSnapshot, k: Intent|
                        0 <= j < n implies #[trigger] self.policies@[j].verdict(m, c, k) == old(
                        self,
                    ).policies@[j].verdict(m, c, k) by {
                        assert(held[j].verdict(m, c, k) == old(self).policies@[j].verdict(m, c, k));
                    }
                    assert forall|j: int, m: Seq<int>, c: ContextSnapshot, k: Intent|
                        0 <= j < n implies #[trigger] self.policies@[j].remembers(m, c, k) == old(
                        self,
                    ).policies@[j].remembers(m, c, k) by {
                        assert(held[j].remembers(m, c, k) == old(self).policies@[j].remembers(
                            m,
                            c,
                            k,
                        ));
                    }
                }
            }
            match fold_action(action) {
                Ok(next) => {
                    current = next;
                },
                Err(reason) => {
                    proof {
                        if goal is Some {
                            self.lemma_same_settings_judge_alike(*old(self));
                        }
                    }
                    return RiskAction::Reject { reason };
                },
            }
            i = i + 1;
        }
        proof {
            if goal is Some {
                self.lemma_same_settings_judge_alike(*old(self));
            }
        }
        RiskAction::Allow(current)
    }
}

impl Default for RiskEngine {
    fn default() -> (r: RiskEngine)
        ensures
            r.spec_len() == 0,
    {
        RiskEngine::new()
    }
}

/// Turns away orders that would take the position beyond a limit.
pub struct MaxPositionPolicy {
    limit_lots: i64,
}

impl MaxPositionPolicy {
    /// The limit, as given.
    pub closed spec fn spec_limit(&self) -> i64 {
        self.limit_lots
    }

    /// The position that an intent would lead to if it were filled in
    /// full: a limit order adds its quantity on the bid side and takes it
    /// away on the ask side.
    pub open spec fn projected(ctx: ContextSnapshot, intent: Intent) -> int {
        match intent {
            Intent::PlaceLimit { side, qty, .. } => match side {
                Side::Bid => ctx.position_lots + qty@,
                Side::Ask => ctx.position_lots - qty@,
            },
            _ => ctx.position_lots as int,
        }
    }

    /// Why the policy turns an intent away, if it does: a limit of zero
    /// turns everything away; otherwise a limit order whose projected
    /// position is, in magnitude, above the limit's.
    pub open spec fn rejection(limit_lots: int, ctx: ContextSnapshot, intent: Intent) -> Option<
        Seq<char>,
    > {
        if limit_lots == 0 {
            Some("position limit is zero"@)
        } else if intent is PlaceLimit && magnitude(Self::projected(ctx, intent)) > magnitude(
            limit_lots,
        ) {
            Some("max position exceeded"@)
        } else {
            None
        }
    }

    pub fn new(limit_lots: i64) -> (r: MaxPositionPolicy)
        ensures
            r.spec_limit() == limit_lots,
    {
        MaxPositionPolicy { limit_lots }
    }
}

impl RiskPolicy for MaxPositionPolicy {
    open spec fn verdict(&self, memory: Seq<int>, ctx: ContextSnapshot, intent: Intent) -> Option<
        Verdict,
    > {
        Some(Verdict::of(intent, MaxPositionPolicy::rejection(self.spec_limit() as int, ctx, intent)))
    }

    fn evaluate(&mut self, ctx: &ContextSnapshot, intent: &Intent) -> (r: RiskAction)
        ensures
            final(self).spec_limit() == old(self).spec_limit(),
            answers(
                r,
                *intent,
                MaxPositionPolicy::rejection(old(self).spec_limit() as int, *ctx, *intent),
            ),
    {
        let limit: i128 = if self.limit_lots < 0 {
            -(self.limit_lots as i128)
        } else {
            self.limit_lots as i128
        };
        if limit == 0 {
            return RiskAction::Reject { reason: "position limit is zero".to_owned() };
        }
        let (side, qty) = match intent {
            Intent::PlaceLimit { side, qty, .. } => (*side, qty.lots()),
            _ => {
                return RiskAction::Allow(intent.clone());
            },
        };
        let projected: i128 = match side {
            Side::Bid => ctx.position_lots as i128 + qty as i128,
            Side::Ask => ctx.position_lots as i128 - qty as i128,
        };
        let projected_size = if projected < 0 {
            -projected
        } else {
            projected
        };
        if projected_size > limit {
            return RiskAction::Reject { reason: "max position exceeded".to_owned() };
        }
        RiskAction::Allow(intent.clone())
    }
}

/// Turns away orders priced too far from the mid price.
pub struct PriceBandPolicy {
    max_distance_ticks: i64,
}

impl PriceBandPolicy {
    /// The widest distance, as given.
    pub closed spec fn spec_max_distance(&self) -> i64 {
        self.max_distance_ticks
    }

    /// Why the policy turns an intent away, if it does: a limit order
    /// whose price is further from the mid price than the widest distance.
    /// Without a mid price everything passes.
    pub open spec fn rejection(max_distance_ticks: int, ctx: ContextSnapshot, intent: Intent) -> Option<
        Seq<char>,
    > {
        match (intent, ctx.mid_price) {
            (Intent::PlaceLimit { price, .. }, Some(mid)) => if magnitude(price@ - mid@)
                > magnitude(max_distance_ticks) {
                Some("price outside band"@)
            } else {
                None
            },
            _ => None,
        }
    }

    pub fn new(max_distance_ticks: i64) -> (r: PriceBandPolicy)
        ensures
            r.spec_max_distance() == max_distance_ticks,
    {
        PriceBandPolicy { max_distance_ticks }
    }
}

impl RiskPolicy for PriceBandPolicy {
    open spec fn verdict(&self, memory: Seq<int>, ctx: ContextSnapshot, intent: Intent) -> Option<
        Verdict,
    > {
        Some(
            Verdict::of(
                intent,
                PriceBandPolicy::rejection(self.spec_max_distance() as int, ctx, intent),
            ),
        )
    }

    fn evaluate(&mut self, ctx: &ContextSnapshot, intent: &Intent) -> (r: RiskAction)
        ensures
            final(self).spec_max_distance() == old(self).spec_max_distance(),
            answers(
                r,
                *intent,
                PriceBandPolicy::rejection(old(self).spec_max_distance() as int, *ctx, *intent),
            ),
    {
        let max_distance: i128 = if self.max_distance_ticks < 0 {
            -(self.max_distance_ticks as i128)
        } else {
            self.max_distance_ticks as i128
        };
        let price = match intent {
            Intent::PlaceLimit { price, .. } => *price,
            _ => {
                return RiskAction::Allow(intent.clone());
            },
        };
        let mid = match ctx.mid_price {
            Some(mid) => mid,
            None => {
                return RiskAction::Allow(intent.clone());
            },
        };
        let gap: i128 = price.ticks() as i128 - mid.ticks() as i128;
        let distance = if gap < 0 {
            -gap
        } else {
            gap
        };
        if distance > max_distance {
            return RiskAction::Reject { reason: "price outside band".to_owned() };
        }
        RiskAction::Allow(intent.clone())
    }
}

/// What a rate limit holds.
pub struct RateLimitView {
    /// The most intents let through in one second.
    pub max_per_sec: u64,
    /// The second that is being counted.
    pub window_bucket: u64,
    /// The intents let through in that second.
    pub count: u64,
}

impl RateLimitView {
    /// A rate limit that has counted nothing.
    pub open spec fn start(max_per_sec: u64) -> RateLimitView {
        RateLimitView { max_per_sec, window_bucket: u64::MAX, count: 0 }
    }

    /// What changes from one call to the next: the second that is being
    /// counted, and the count.
    pub open spec fn counted(self) -> Seq<int> {
        seq![self.window_bucket as int, self.count as int]
    }

    /// The rate limit with the given limit and count.
    pub open spec fn counting(max_per_sec: u64, counted: Seq<int>) -> RateLimitView {
        RateLimitView { max_per_sec, window_bucket: counted[0] as u64, count: counted[1] as u64 }
    }

    /// The second that a time in nanoseconds falls in.
    pub open spec fn bucket_of(ts_ns: u64) -> u64 {
        ts_ns / 1_000_000_000
    }

    /// The intents counted so far in the second of `ts_ns`.
    pub open spec fn counted_at(self, ts_ns: u64) -> u64 {
        if self.window_bucket == Self::bucket_of(ts_ns) {
            self.count
        } else {
            0
        }
    }

    /// Why the policy turns an intent away, if it does: the limit is zero,
    /// or the second of the intent has had its fill.
    pub open spec fn rejection(self, ctx: ContextSnapshot) -> Option<Seq<char>> {
        if self.max_per_sec == 0 || self.counted_at(ctx.ts_ns) >= self.max_per_sec {
            Some("rate limit exceeded"@)
        } else {
            None
        }
    }

    /// The rate limit after an intent: a new second starts a new count,
    /// and an intent that passes is counted.
    pub open spec fn after(self, ctx: ContextSnapshot) -> RateLimitView {
        if self.max_per_sec == 0 {
            self
        } else {
            RateLimitView {
                max_per_sec: self.max_per_sec,
                window_bucket: Self::bucket_of(ctx.ts_ns),
                count: if self.counted_at(ctx.ts_ns) >= self.max_per_sec {
                    self.counted_at(ctx.ts_ns)
                } else {
                    (self.counted_at(ctx.ts_ns) + 1) as u64
                },
            }
        }
    }
}

/// Lets no more than a number of intents through in any one second of
/// event time.
pub struct RateLimitPolicy {
    max_per_sec: u64,
    window_bucket: u64,
    count: u64,
}

impl View for RateLimitPolicy {
    type V = RateLimitView;

    closed spec fn view(&self) -> RateLimitView {
        RateLimitView {
            max_per_sec: self.max_per_sec,
            window_bucket: self.window_bucket,
            count: self.count,
        }
    }
}

impl RateLimitPolicy {
    /// The most intents let through in one second, as given.
    pub open spec fn spec_limit(&self) -> u64 {
        self@.max_per_sec
    }

    pub fn new(max_per_sec: u64) -> (r: RateLimitPolicy)
        ensures
            r@ == RateLimitView::start(max_per_sec),
    {
        RateLimitPolicy { max_per_sec, window_bucket: u64::MAX, count: 0 }
    }
}

/// Whether an intent asks the venue for anything. Every kind does.
pub fn is_order_intent(intent: &Intent) -> (r: bool)
    ensures
        r,
{
    match intent {
        Intent::PlaceLimit { .. } | Intent::Cancel { .. } | Intent::Replace { .. } => true,
    }
}

impl RiskPolicy for RateLimitPolicy {
    /// The second that is being counted, and the count.
    open spec fn memory(&self) -> Seq<int> {
        self@.counted()
    }

    open spec fn verdict(&self, memory: Seq<int>, ctx: ContextSnapshot, intent: Intent) -> Option<
        Verdict,
    > {
        Some(Verdict::of(intent, RateLimitView::counting(self.spec_limit(), memory).rejection(ctx)))
    }

    open spec fn remembers(&self, memory: Seq<int>, ctx: ContextSnapshot, intent: Intent) -> Seq<
        int,
    > {
        RateLimitView::counting(self.spec_limit(), memory).after(ctx).counted()
    }

    fn evaluate(&mut self, ctx: &ContextSnapshot, intent: &Intent) -> (r: RiskAction)
        ensures
            answers(r, *intent, old(self)@.rejection(*ctx)),
            final(self)@ == old(self)@.after(*ctx),
    {
        if !is_order_intent(intent) {
            return RiskAction::Allow(intent.clone());
        }
        if self.max_per_sec == 0 {
            return RiskAction::Reject { reason: "rate limit exceeded".to_owned() };
        }
        let bucket = ctx.ts_ns / 1_000_000_000;
        if self.window_bucket != bucket {
            self.window_bucket = bucket;
            self.count = 0;
        }
        if self.count >= self.max_per_sec {
            return RiskAction::Reject { reason: "rate limit exceeded".to_owned() };
        }
        self.count = self.count + 1;
        RiskAction::Allow(intent.clone())
    }
}

} // verus!
