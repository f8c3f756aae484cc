//! Facts: keyed statements about the user. A fact is known by its category
//! and key; seeing it again reinforces the stored row.

use crate::ranking::{is_ranking, ranked, select_ranked, Ranked};
use crate::scale::{bump, bumped};
use crate::store::{MemoryStore, StoreView};
use crate::table::{
    first_index, lemma_first_index, lemma_first_index_at, position, views, Keyed, Selector,
};
use crate::text::{copy_text, text_view};
use vstd::prelude::*;

verus! {

/// A discrete statement about the user.
#[derive(Debug, Clone)]
pub struct UserFact {
    pub category: String,
    pub key: String,
    pub value: String,
    pub confidence: i64,
    pub source_type: String,
    pub source_conversation_id: Option<String>,
    pub first_mentioned: String,
    pub last_confirmed: String,
    pub mention_count: i64,
}

/// The plain value of a `UserFact`.
pub ghost struct FactView {
    pub category: Seq<char>,
    pub key: Seq<char>,
    pub value: Seq<char>,
    pub confidence: i64,
    pub source_type: Seq<char>,
    pub source_conversation_id: Option<Seq<char>>,
    pub first_mentioned: Seq<char>,
    pub last_confirmed: Seq<char>,
    pub mention_count: i64,
}

impl View for UserFact {
    type V = FactView;

    open spec fn view(&self) -> FactView {
        FactView {
            category: self.category@,
            key: self.key@,
            value: self.value@,
            confidence: self.confidence,
            source_type: self.source_type@,
            source_conversation_id: text_view(self.source_conversation_id),
            first_mentioned: self.first_mentioned@,
            last_confirmed: self.last_confirmed@,
            mention_count: self.mention_count,
        }
    }
}

/// The identity of a fact: its category and key.
pub open spec fn fact_identity() -> spec_fn(FactView) -> (Seq<char>, Seq<char>) {
    |row: FactView| (row.category, row.key)
}

/// The condition of being the fact with this category and key.
pub open spec fn fact_named(category: Seq<char>, key: Seq<char>) -> spec_fn(FactView) -> bool {
    |row: FactView| row.category == category && row.key == key
}

/// The condition of belonging to this category.
pub open spec fn fact_in_category(category: Seq<char>) -> spec_fn(FactView) -> bool {
    |row: FactView| row.category == category
}

/// The condition of having at least this confidence.
pub open spec fn fact_at_least(min_confidence: i64) -> spec_fn(FactView) -> bool {
    |row: FactView| row.confidence >= min_confidence
}

/// The larger of two confidences.
pub open spec fn higher(a: i64, b: i64) -> i64 {
    if a >= b {
        a
    } else {
        b
    }
}

/// What a stored fact becomes when it is seen again: the new value and
/// confirmation time, the higher of the two confidences, one more mention.
/// Where and when it was first mentioned stays as it was.
pub open spec fn reinforced_fact(held: FactView, seen: FactView) -> FactView {
    FactView {
        value: seen.value,
        confidence: higher(held.confidence, seen.confidence),
        last_confirmed: seen.last_confirmed,
        mention_count: bumped(held.mention_count),
        ..held
    }
}

/// The facts after `seen` has been recorded: the row with its identity is
/// reinforced, or `seen` joins the table as it is.
pub open spec fn with_fact(facts: Seq<FactView>, seen: FactView) -> Seq<FactView> {
    match first_index(facts, fact_named(seen.category, seen.key)) {
        Some(at) => facts.update(at, reinforced_fact(facts[at], seen)),
        None => facts.push(seen),
    }
}

/// A fact recorded for the first time and then again under the same category
/// and key is one row: it holds the second value and confirmation time, the
/// higher of the two confidences and one mention more than it came with.
pub proof fn lemma_fact_seen_twice(facts: Seq<FactView>, first: FactView, second: FactView)
    requires
        first_index(facts, fact_named(first.category, first.key)).is_none(),
        second.category == first.category,
        second.key == first.key,
    ensures
        with_fact(with_fact(facts, first), second) == facts.push(reinforced_fact(first, second)),
{
    let named = fact_named(first.category, first.key);
    let once = facts.push(first);
    lemma_first_index(facts, named);
    assert forall|j: int| 0 <= j < facts.len() implies !named(#[trigger] once[j]) by {
        assert(once[j] == facts[j]);
    }
    lemma_first_index_at(once, named, facts.len() as int);
    assert(once.update(facts.len() as int, reinforced_fact(first, second)) =~= facts.push(
        reinforced_fact(first, second),
    ));
}

/// Recording a fact lowers no confidence: every row that was stored keeps its
/// place, its category and its key, and its confidence is at least what it
/// was. The row of the recorded fact is at least as confident as the fact.
pub proof fn lemma_fact_confidence_never_falls(facts: Seq<FactView>, seen: FactView)
    ensures
        with_fact(facts, seen).len() >= facts.len(),
        forall|i: int|
            0 <= i < facts.len() ==> {
                &&& (#[trigger] with_fact(facts, seen)[i]).confidence >= facts[i].confidence
                &&& with_fact(facts, seen)[i].category == facts[i].category
                &&& with_fact(facts, seen)[i].key == facts[i].key
            },
        match first_index(facts, fact_named(seen.category, seen.key)) {
            Some(at) => with_fact(facts, seen)[at].confidence >= seen.confidence,
            None => with_fact(facts, seen).last() == seen,
        },
{
    lemma_first_index(facts, fact_named(seen.category, seen.key));
}

/// Picks the fact with a given category and key.
pub struct FactNamed {
    pub category: String,
    pub key: String,
}

impl Selector<UserFact> for FactNamed {
    open spec fn admits(&self) -> spec_fn(FactView) -> bool {
        fact_named(self.category@, self.key@)
    }

    fn picks(&self, row: &UserFact) -> (picked: bool) {
        row.category == self.category && row.key == self.key
    }
}

/// Picks the facts of a category.
pub struct FactInCategory {
    pub category: String,
}

impl Selector<UserFact> for FactInCategory {
    open spec fn admits(&self) -> spec_fn(FactView) -> bool {
        fact_in_category(self.category@)
    }

    fn picks(&self, row: &UserFact) -> (picked: bool) {
        row.category == self.category
    }
}

/// Picks the facts with at least a given confidence.
pub struct FactAtLeast {
    pub min_confidence: i64,
}

impl Selector<UserFact> for FactAtLeast {
    open spec fn admits(&self) -> spec_fn(FactView) -> bool {
        fact_at_least(self.min_confidence)
    }

    fn picks(&self, row: &UserFact) -> (picked: bool) {
        row.confidence >= self.min_confidence
    }
}

impl Keyed for UserFact {
    type Key = (Seq<char>, Seq<char>);

    open spec fn identity() -> spec_fn(FactView) -> (Seq<char>, Seq<char>) {
        fact_identity()
    }

    fn same_identity(&self, other: &Self) -> (same: bool) {
        self.category == other.category && self.key == other.key
    }
}

impl Ranked for UserFact {
    /// Facts are listed by falling confidence, and among equals by falling
    /// number of mentions.
    open spec fn outranks(a: FactView, b: FactView) -> bool {
        a.confidence > b.confidence || (a.confidence == b.confidence && a.mention_count
            > b.mention_count)
    }

    proof fn lemma_outranks_asymmetric(a: FactView, b: FactView) {
    }

    proof fn lemma_outranks_transitive(a: FactView, b: FactView, c: FactView) {
    }

    fn ranks_before(&self, other: &Self) -> (before: bool) {
        self.confidence > other.confidence || (self.confidence == other.confidence
            && self.mention_count > other.mention_count)
    }

    fn duplicate(&self) -> (copy: Self) {
        UserFact {
            category: self.category.clone(),
            key: self.key.clone(),
            value: self.value.clone(),
            confidence: self.confidence,
            source_type: self.source_type.clone(),
            source_conversation_id: copy_text(&self.source_conversation_id),
            first_mentioned: self.first_mentioned.clone(),
            last_confirmed: self.last_confirmed.clone(),
            mention_count: self.mention_count,
        }
    }
}

/// Records a fact. A fact with the same category and key is reinforced: its
/// value and confirmation time are overwritten, its confidence never falls,
/// and its mentions go up by one. A fact not seen before is stored as given.
pub fn save_user_fact(store: &mut MemoryStore, fact: &UserFact)
    requires
        old(store).wf(),
        fact@.category.len() > 0,
        fact@.key.len() > 0,
    ensures
        final(store).wf(),
        final(store)@ == (StoreView { facts: with_fact(old(store)@.facts, fact@), ..old(store)@ }),
{
    let named = FactNamed { category: fact.category.clone(), key: fact.key.clone() };
    let ghost before = views(store.facts@);
    proof {
        lemma_first_index(before, named.admits());
    }
    match position(&store.facts, &named) {
        Some(at) => {
            let held = store.facts.remove(at);
            let confidence = if held.confidence >= fact.confidence {
                held.confidence
            } else {
                fact.confidence
            };
            let merged = UserFact {
                category: held.category,
                key: held.key,
                value: fact.value.clone(),
                confidence,
                source_type: held.source_type,
                source_conversation_id: held.source_conversation_id,
                first_mentioned: held.first_mentioned,
                last_confirmed: fact.last_confirmed.clone(),
                mention_count: bump(held.mention_count),
            };
            store.facts.insert(at, merged);
            proof {
                assert(views(store.facts@) =~= before.update(
                    at as int,
                    reinforced_fact(before[at as int], fact@),
                ));
            }
        },
        None => {
            store.facts.push(fact.duplicate());
            proof {
                assert(views(store.facts@) =~= before.push(fact@));
            }
        },
    }
}

/// All facts, the most confident first and, among equally confident ones, the
/// most often mentioned first.
pub fn get_all_user_facts(store: &MemoryStore) -> (facts: Vec<UserFact>)
    ensures
        is_ranking::<UserFact>(views(facts@), store@.facts),
{
    ranked(&store.facts)
}

/// The facts of one category, the most confident first.
pub fn get_user_facts_by_category(store: &MemoryStore, category: &str) -> (facts: Vec<UserFact>)
    ensures
        is_ranking::<UserFact>(views(facts@), store@.facts.filter(fact_in_category(category@))),
{
    select_ranked(&store.facts, &FactInCategory { category: category.to_owned() })
}

/// The facts whose confidence is at least `min_confidence`, the most
/// confident first.
pub fn get_high_confidence_facts(store: &MemoryStore, min_confidence: i64) -> (facts: Vec<
    UserFact,
>)
    ensures
        is_ranking::<UserFact>(views(facts@), store@.facts.filter(fact_at_least(min_confidence))),
{
    select_ranked(&store.facts, &FactAtLeast { min_confidence })
}

} // verus!
