//! Patterns: behavioural observations about the user. A pattern is known by
//! its type and the exact wording of its description; observing it again
//! strengthens it, and neglect lets it decay until it is pruned.

use crate::clock::utc_now;
use crate::ranking::{is_ranking, ranked, select_ranked, Ranked};
use crate::scale::{
    bump, bumped, DECAY_FLOOR, PRUNE_CONFIDENCE, PRUNE_OBSERVATIONS, REINFORCEMENT_STEP, UNIT,
};
use crate::store::{MemoryStore, StoreView};
use crate::table::{
    count_where, distinct_by, first_index, lemma_first_index, lemma_first_index_none,
    lemma_without_distinct, lemma_without_misses, not_hit, position, remove_where, views, without,
    Keyed, Selector,
};
use vstd::prelude::*;

verus! {

/// A behavioural or personality observation.
#[derive(Debug, Clone)]
pub struct UserPattern {
    pub pattern_type: String,
    pub description: String,
    pub confidence: i64,
    pub evidence: String,
    pub first_observed: String,
    pub last_updated: String,
    pub observation_count: i64,
}

/// The plain value of a `UserPattern`.
pub ghost struct PatternView {
    pub pattern_type: Seq<char>,
    pub description: Seq<char>,
    pub confidence: i64,
    pub evidence: Seq<char>,
    pub first_observed: Seq<char>,
    pub last_updated: Seq<char>,
    pub observation_count: i64,
}

impl View for UserPattern {
    type V = PatternView;

    open spec fn view(&self) -> PatternView {
        PatternView {
            pattern_type: self.pattern_type@,
            description: self.description@,
            confidence: self.confidence,
            evidence: self.evidence@,
            first_observed: self.first_observed@,
            last_updated: self.last_updated@,
            observation_count: self.observation_count,
        }
    }
}

/// The identity of a pattern: its type and description, letter for letter.
pub open spec fn pattern_identity() -> spec_fn(PatternView) -> (Seq<char>, Seq<char>) {
    |row: PatternView| (row.pattern_type, row.description)
}

/// The condition of being the pattern with this type and description.
pub open spec fn pattern_named(pattern_type: Seq<char>, description: Seq<char>) -> spec_fn(
    PatternView,
) -> bool {
    |row: PatternView| row.pattern_type == pattern_type && row.description == description
}

/// The condition of having this type.
pub open spec fn pattern_of_type(pattern_type: Seq<char>) -> spec_fn(PatternView) -> bool {
    |row: PatternView| row.pattern_type == pattern_type
}

/// The condition of having a confidence below `threshold`.
pub open spec fn pattern_below(threshold: i64) -> spec_fn(PatternView) -> bool {
    |row: PatternView| row.confidence < threshold
}

/// The condition under which a pattern is pruned: little confidence and few
/// observations.
pub open spec fn pattern_stale() -> spec_fn(PatternView) -> bool {
    |row: PatternView| row.confidence < PRUNE_CONFIDENCE && row.observation_count
        < PRUNE_OBSERVATIONS
}

/// A confidence after one reinforcement: one step higher, but not above 1.
pub open spec fn strengthened(confidence: i64) -> i64 {
    if confidence + REINFORCEMENT_STEP >= UNIT {
        UNIT
    } else {
        (confidence + REINFORCEMENT_STEP) as i64
    }
}

/// A confidence after decay by `decay_amount`: lowered, but not below the
/// floor. A result beyond the largest representable value is held there.
pub open spec fn decayed_confidence(confidence: i64, decay_amount: i64) -> i64 {
    if confidence - decay_amount <= DECAY_FLOOR {
        DECAY_FLOOR
    } else if confidence - decay_amount >= i64::MAX {
        i64::MAX
    } else {
        (confidence - decay_amount) as i64
    }
}

/// What a stored pattern becomes when it is observed again: one step more
/// confident, one more observation, the new evidence in place of the old.
pub open spec fn reinforced_pattern(held: PatternView, evidence: Seq<char>, now: Seq<char>)
    -> PatternView {
    PatternView {
        confidence: strengthened(held.confidence),
        observation_count: bumped(held.observation_count),
        last_updated: now,
        evidence,
        ..held
    }
}

/// The patterns after `seen` has been observed at time `now`: the row with
/// its identity is reinforced, or `seen` joins the table as it is.
pub open spec fn with_pattern(patterns: Seq<PatternView>, seen: PatternView, now: Seq<char>)
    -> Seq<PatternView> {
    match first_index(patterns, pattern_named(seen.pattern_type, seen.description)) {
        Some(at) => patterns.update(at, reinforced_pattern(patterns[at], seen.evidence, now)),
        None => patterns.push(seen),
    }
}

/// What decay makes of one pattern: below the threshold its confidence is
/// lowered, otherwise it stays as it is.
pub open spec fn decayed(threshold: i64, decay_amount: i64) -> spec_fn(PatternView) -> PatternView {
    |row: PatternView|
        if row.confidence < threshold {
            PatternView { confidence: decayed_confidence(row.confidence, decay_amount), ..row }
        } else {
            row
        }
}

/// The patterns after a decay pass: first every pattern below the threshold
/// is lowered, then every stale pattern is dropped.
pub open spec fn after_decay(patterns: Seq<PatternView>, threshold: i64, decay_amount: i64) -> Seq<
    PatternView,
> {
    without(patterns.map_values(decayed(threshold, decay_amount)), pattern_stale())
}

/// A confidence after `times` reinforcements, one after the other.
pub open spec fn strengthened_times(confidence: i64, times: nat) -> i64
    decreases times,
{
    if times == 0 {
        confidence
    } else {
        strengthened(strengthened_times(confidence, (times - 1) as nat))
    }
}

/// Reinforcement adds one step each time and stops at 1: after `times`
/// reinforcements, at least one, a confidence stands at the lower of 1 and
/// its first value plus `times` steps.
pub proof fn lemma_reinforcement_cap(confidence: i64, times: nat)
    requires
        times >= 1,
    ensures
        strengthened_times(confidence, times) == if confidence + times * REINFORCEMENT_STEP
            >= UNIT {
            UNIT as int
        } else {
            confidence + times * REINFORCEMENT_STEP
        },
        strengthened_times(confidence, times) <= UNIT,
    decreases times,
{
    reveal_with_fuel(strengthened_times, 2);
    if times > 1 {
        lemma_reinforcement_cap(confidence, (times - 1) as nat);
    }
}

/// Identity is literal: a pattern whose type and description are not found,
/// letter for letter, on any stored row becomes a row of its own, and every
/// stored row stays as it is.
pub proof fn lemma_new_wording_is_new_pattern(
    patterns: Seq<PatternView>,
    seen: PatternView,
    now: Seq<char>,
)
    requires
        forall|i: int|
            0 <= i < patterns.len() ==> (#[trigger] patterns[i]).pattern_type != seen.pattern_type
                || patterns[i].description != seen.description,
    ensures
        with_pattern(patterns, seen, now) == patterns.push(seen),
{
    lemma_first_index(patterns, pattern_named(seen.pattern_type, seen.description));
}

/// Decay stops at the floor: whatever the confidence and the amount, the
/// lowered confidence is the higher of the floor and the difference, as far
/// as that can be represented.
pub proof fn lemma_decay_floor(confidence: i64, decay_amount: i64)
    ensures
        decayed_confidence(confidence, decay_amount) >= DECAY_FLOOR,
        confidence - decay_amount <= i64::MAX ==> decayed_confidence(confidence, decay_amount)
            == if confidence - decay_amount >= DECAY_FLOOR {
            confidence - decay_amount
        } else {
            DECAY_FLOOR as int
        },
{
}

/// After a decay pass no stale pattern is left, and every pattern that is
/// left and was below the threshold stands at the floor or above.
pub proof fn lemma_after_decay(patterns: Seq<PatternView>, threshold: i64, decay_amount: i64)
    ensures
        forall|k: int|
            0 <= k < after_decay(patterns, threshold, decay_amount).len() ==> {
                let row = #[trigger] after_decay(patterns, threshold, decay_amount)[k];
                &&& !(row.confidence < PRUNE_CONFIDENCE && row.observation_count
                    < PRUNE_OBSERVATIONS)
                &&& row.confidence >= DECAY_FLOOR || row.confidence >= threshold
            },
{
    let lowered = patterns.map_values(decayed(threshold, decay_amount));
    let left = after_decay(patterns, threshold, decay_amount);
    lemma_without_misses(lowered, pattern_stale());
    assert forall|k: int| 0 <= k < left.len() implies {
        let row = #[trigger] left[k];
        row.confidence >= DECAY_FLOOR || row.confidence >= threshold
    } by {
        assert(left.contains(left[k]));
        lowered.lemma_filter_contains_rev(not_hit(pattern_stale()), left[k]);
        let m = choose|m: int| 0 <= m < lowered.len() && lowered[m] == left[k];
        assert(lowered[m] == decayed(threshold, decay_amount)(patterns[m]));
    }
}

/// `row` is what a decay pass makes of the stored pattern `held`: the same
/// pattern, its confidence untouched at or above the threshold and below it
/// the higher of the floor and the difference. A difference beyond the
/// largest representable value, which only a negative amount can give, is
/// held at that value.
pub open spec fn lowered_from(
    row: PatternView,
    held: PatternView,
    threshold: i64,
    decay_amount: i64,
) -> bool {
    &&& row == PatternView { confidence: row.confidence, ..held }
    &&& row.confidence == if held.confidence >= threshold {
        held.confidence as int
    } else if held.confidence - decay_amount > i64::MAX {
        i64::MAX as int
    } else if held.confidence - decay_amount >= DECAY_FLOOR {
        held.confidence - decay_amount
    } else {
        DECAY_FLOOR as int
    }
}

/// `row` is what a decay pass makes of one of the stored patterns.
pub open spec fn lowered_from_stored(
    row: PatternView,
    patterns: Seq<PatternView>,
    threshold: i64,
    decay_amount: i64,
) -> bool {
    exists|m: int|
        0 <= m < patterns.len() && #[trigger] lowered_from(
            row,
            patterns[m],
            threshold,
            decay_amount,
        )
}

/// Every pattern that a decay pass leaves in the table is a stored pattern
/// lowered by the amount: whatever the table, the threshold and the amount,
/// a pattern that was below the threshold stands at the higher of the floor
/// and its old confidence less the amount, and so never below the floor.
pub proof fn lemma_decay_lowers_by_the_amount(
    patterns: Seq<PatternView>,
    threshold: i64,
    decay_amount: i64,
)
    ensures
        forall|k: int|
            0 <= k < after_decay(patterns, threshold, decay_amount).len() ==> lowered_from_stored(
                #[trigger] after_decay(patterns, threshold, decay_amount)[k],
                patterns,
                threshold,
                decay_amount,
            ),
{
    let lowered = patterns.map_values(decayed(threshold, decay_amount));
    let left = after_decay(patterns, threshold, decay_amount);
    assert forall|k: int| 0 <= k < left.len() implies lowered_from_stored(
        #[trigger] left[k],
        patterns,
        threshold,
        decay_amount,
    ) by {
        assert(left.contains(left[k]));
        lowered.lemma_filter_contains_rev(not_hit(pattern_stale()), left[k]);
        let m = choose|m: int| 0 <= m < lowered.len() && lowered[m] == left[k];
        assert(lowered[m] == decayed(threshold, decay_amount)(patterns[m]));
        assert(lowered_from(left[k], patterns[m], threshold, decay_amount));
    }
}

/// Pruning goes by the number of observations, not by the threshold: a
/// pattern observed at least three times outlasts every decay pass, however
/// low its confidence has become.
pub proof fn lemma_observed_patterns_survive(
    patterns: Seq<PatternView>,
    threshold: i64,
    decay_amount: i64,
    at: int,
)
    requires
        0 <= at < patterns.len(),
        patterns[at].observation_count >= PRUNE_OBSERVATIONS,
    ensures
        after_decay(patterns, threshold, decay_amount).contains(
            decayed(threshold, decay_amount)(patterns[at]),
        ),
{
    let lowered = patterns.map_values(decayed(threshold, decay_amount));
    assert(lowered[at] == decayed(threshold, decay_amount)(patterns[at]));
    lowered.lemma_filter_contains(not_hit(pattern_stale()), at);
}

/// A pattern observed fewer than three times is gone after a decay pass that
/// leaves its confidence below the pruning mark: no row of its type and
/// description remains.
pub proof fn lemma_neglected_patterns_are_pruned(
    patterns: Seq<PatternView>,
    threshold: i64,
    decay_amount: i64,
    at: int,
)
    requires
        distinct_by(patterns, pattern_identity()),
        0 <= at < patterns.len(),
        patterns[at].observation_count < PRUNE_OBSERVATIONS,
        decayed(threshold, decay_amount)(patterns[at]).confidence < PRUNE_CONFIDENCE,
    ensures
        first_index(
            after_decay(patterns, threshold, decay_amount),
            pattern_named(patterns[at].pattern_type, patterns[at].description),
        ).is_none(),
{
    let lowered = patterns.map_values(decayed(threshold, decay_amount));
    let left = after_decay(patterns, threshold, decay_amount);
    let named = pattern_named(patterns[at].pattern_type, patterns[at].description);
    lemma_without_misses(lowered, pattern_stale());
    assert forall|k: int| 0 <= k < left.len() implies !named(#[trigger] left[k]) by {
        assert(left.contains(left[k]));
        lowered.lemma_filter_contains_rev(not_hit(pattern_stale()), left[k]);
        let m = choose|m: int| 0 <= m < lowered.len() && lowered[m] == left[k];
        assert(lowered[m] == decayed(threshold, decay_amount)(patterns[m]));
        assert(lowered[at] == decayed(threshold, decay_amount)(patterns[at]));
        if named(left[k]) {
            if m != at {
                assert(pattern_identity()(patterns[m]) == pattern_identity()(patterns[at]));
                if m < at {
                    assert(pattern_identity()(patterns[m]) != pattern_identity()(patterns[at]));
                } else {
                    assert(pattern_identity()(patterns[at]) != pattern_identity()(patterns[m]));
                }
            }
        }
    }
    lemma_first_index_none(left, named);
}

/// Picks the pattern with a given type and description.
pub struct PatternNamed {
    pub pattern_type: String,
    pub description: String,
}

impl Selector<UserPattern> for PatternNamed {
    open spec fn admits(&self) -> spec_fn(PatternView) -> bool {
        pattern_named(self.pattern_type@, self.description@)
    }

    fn picks(&self, row: &UserPattern) -> (picked: bool) {
        row.pattern_type == self.pattern_type && row.description == self.description
    }
}

/// Picks the patterns of a type.
pub struct PatternOfType {
    pub pattern_type: String,
}

impl Selector<UserPattern> for PatternOfType {
    open spec fn admits(&self) -> spec_fn(PatternView) -> bool {
        pattern_of_type(self.pattern_type@)
    }

    fn picks(&self, row: &UserPattern) -> (picked: bool) {
        row.pattern_type == self.pattern_type
    }
}

/// Picks the patterns whose confidence is below a threshold.
pub struct PatternBelow {
    pub threshold: i64,
}

impl Selector<UserPattern> for PatternBelow {
    open spec fn admits(&self) -> spec_fn(PatternView) -> bool {
        pattern_below(self.threshold)
    }

    fn picks(&self, row: &UserPattern) -> (picked: bool) {
        row.confidence < self.threshold
    }
}

/// Picks the patterns that are due for pruning.
pub struct StalePattern;

impl Selector<UserPattern> for StalePattern {
    open spec fn admits(&self) -> spec_fn(PatternView) -> bool {
        pattern_stale()
    }

    fn picks(&self, row: &UserPattern) -> (picked: bool) {
        row.confidence < PRUNE_CONFIDENCE && row.observation_count < PRUNE_OBSERVATIONS
    }
}

impl Keyed for UserPattern {
    type Key = (Seq<char>, Seq<char>);

    open spec fn identity() -> spec_fn(PatternView) -> (Seq<char>, Seq<char>) {
        pattern_identity()
    }

    fn same_identity(&self, other: &Self) -> (same: bool) {
        self.pattern_type == other.pattern_type && self.description == other.description
    }
}

impl Ranked for UserPattern {
    /// Patterns are listed by falling confidence, and among equals by falling
    /// number of observations.
    open spec fn outranks(a: PatternView, b: PatternView) -> bool {
        a.confidence > b.confidence || (a.confidence == b.confidence && a.observation_count
            > b.observation_count)
    }

    proof fn lemma_outranks_asymmetric(a: PatternView, b: PatternView) {
    }

    proof fn lemma_outranks_transitive(a: PatternView, b: PatternView, c: PatternView) {
    }

    fn ranks_before(&self, other: &Self) -> (before: bool) {
        self.confidence > other.confidence || (self.confidence == other.confidence
            && self.observation_count > other.observation_count)
    }

    fn duplicate(&self) -> (copy: Self) {
        UserPattern {
            pattern_type: self.pattern_type.clone(),
            description: self.description.clone(),
            confidence: self.confidence,
            evidence: self.evidence.clone(),
            first_observed: self.first_observed.clone(),
            last_updated: self.last_updated.clone(),
            observation_count: self.observation_count,
        }
    }
}

/// One reinforcement step on a confidence.
pub fn strengthen(confidence: i64) -> (raised: i64)
    ensures
        raised == strengthened(confidence),
{
    if confidence >= UNIT - REINFORCEMENT_STEP {
        UNIT
    } else {
        confidence + REINFORCEMENT_STEP
    }
}

/// One decay step on a confidence.
pub fn decay_confidence(confidence: i64, decay_amount: i64) -> (lowered: i64)
    ensures
        lowered == decayed_confidence(confidence, decay_amount),
{
    let wide: i128 = confidence as i128 - decay_amount as i128;
    if wide <= DECAY_FLOOR as i128 {
        DECAY_FLOOR
    } else if wide >= i64::MAX as i128 {
        i64::MAX
    } else {
        wide as i64
    }
}

/// Records an observation of a pattern made at time `now`. A pattern with the
/// same type and description is reinforced: one step more confident, one more
/// observation, its evidence replaced by the new evidence. A pattern not seen
/// before is stored as given.
pub fn save_user_pattern_at(store: &mut MemoryStore, pattern: &UserPattern, now: &str)
    requires
        old(store).wf(),
    ensures
        final(store).wf(),
        final(store)@ == (StoreView {
            patterns: with_pattern(old(store)@.patterns, pattern@, now@),
            ..old(store)@
        }),
{
    let named = PatternNamed {
        pattern_type: pattern.pattern_type.clone(),
        description: pattern.description.clone(),
    };
    let ghost before = views(store.patterns@);
    proof {
        lemma_first_index(before, named.admits());
    }
    match position(&store.patterns, &named) {
        Some(at) => {
            let held = store.patterns.remove(at);
            let merged = UserPattern {
                pattern_type: held.pattern_type,
                description: held.description,
                confidence: strengthen(held.confidence),
                evidence: pattern.evidence.clone(),
                first_observed: held.first_observed,
                last_updated: now.to_owned(),
                observation_count: bump(held.observation_count),
            };
            store.patterns.insert(at, merged);
            proof {
                assert(views(store.patterns@) =~= before.update(
                    at as int,
                    reinforced_pattern(before[at as int], pattern@.evidence, now@),
                ));
            }
        },
        None => {
            store.patterns.push(pattern.duplicate());
            proof {
                assert(views(store.patterns@) =~= before.push(pattern@));
            }
        },
    }
}

/// Records an observation of a pattern made now.
pub fn save_user_pattern(store: &mut MemoryStore, pattern: &UserPattern)
    requires
        old(store).wf(),
    ensures
        final(store).wf(),
        exists|now: Seq<char>|
            final(store)@ == (StoreView {
                patterns: #[trigger] with_pattern(old(store)@.patterns, pattern@, now),
                ..old(store)@
            }),
{
    let now = utc_now();
    save_user_pattern_at(store, pattern, now.as_str());
}

/// Lowers the confidence of every pattern below `threshold` by
/// `decay_amount`, though not below the floor, and then drops every pattern
/// that is stale, whatever the threshold was. Returns how many patterns were
/// lowered; the dropped ones are not counted apart.
pub fn decay_low_confidence_patterns(store: &mut MemoryStore, threshold: i64, decay_amount: i64)
    -> (affected: usize)
    requires
        old(store).wf(),
    ensures
        final(store).wf(),
        final(store)@ == (StoreView {
            patterns: after_decay(old(store)@.patterns, threshold, decay_amount),
            ..old(store)@
        }),
        affected == old(store)@.patterns.filter(pattern_below(threshold)).len(),
{
    let ghost before = views(store.patterns@);
    let ghost lower = decayed(threshold, decay_amount);
    let affected = count_where(&store.patterns, &PatternBelow { threshold });
    let mut i: usize = 0;
    while i < store.patterns.len()
        invariant
            i <= store.patterns.len(),
            store.patterns.len() == before.len(),
            forall|k: int| 0 <= k < i ==> #[trigger] views(store.patterns@)[k] == lower(before[k]),
            forall|k: int|
                i <= k < before.len() ==> #[trigger] views(store.patterns@)[k] == before[k],
            lower == decayed(threshold, decay_amount),
            store@ == (StoreView { patterns: views(store.patterns@), ..old(store)@ }),
        decreases store.patterns.len() - i,
    {
        let ghost held = store.patterns@;
        proof {
            assert(views(held)[i as int] == before[i as int]);
        }
        if store.patterns[i].confidence < threshold {
            let lowered = decay_confidence(store.patterns[i].confidence, decay_amount);
            store.patterns[i].confidence = lowered;
            proof {
                assert(store.patterns@ =~= held.update(
                    i as int,
                    UserPattern { confidence: lowered, ..held[i as int] },
                ));
            }
        }
        proof {
            let past = views(held);
            let next = views(store.patterns@);
            assert(next[i as int] == lower(before[i as int]));
            assert forall|k: int| 0 <= k < i + 1 implies #[trigger] next[k] == lower(
                before[k],
            ) by {
                if k < i {
                    assert(next[k] == past[k]);
                }
            }
            assert forall|k: int| i + 1 <= k < before.len() implies #[trigger] next[k]
                == before[k] by {
                assert(next[k] == past[k]);
            }
        }
        i = i + 1;
    }
    proof {
        assert(views(store.patterns@) =~= before.map_values(lower));
    }
    remove_where(&mut store.patterns, &StalePattern);
    proof {
        lemma_without_distinct(before.map_values(lower), pattern_stale(), pattern_identity());
    }
    affected
}

/// All patterns, the most confident first and, among equally confident ones,
/// the most often observed first.
pub fn get_all_user_patterns(store: &MemoryStore) -> (patterns: Vec<UserPattern>)
    ensures
        is_ranking::<UserPattern>(views(patterns@), store@.patterns),
{
    ranked(&store.patterns)
}

/// The patterns of one type, the most confident first.
pub fn get_patterns_by_type(store: &MemoryStore, pattern_type: &str) -> (patterns: Vec<
    UserPattern,
>)
    ensures
        is_ranking::<UserPattern>(
            views(patterns@),
            store@.patterns.filter(pattern_of_type(pattern_type@)),
        ),
{
    select_ranked(&store.patterns, &PatternOfType { pattern_type: pattern_type.to_owned() })
}

} // verus!
