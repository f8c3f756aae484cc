//! The context table: loose things learned about the user, one entry per
//! key. Writing a key replaces what it held.

use crate::clock::utc_now;
use crate::ranking::{is_ranking, ranked, Ranked};
use crate::store::{MemoryStore, StoreView};
use crate::table::{
    lemma_without_distinct, lemma_without_misses, remove_where, views, without, Keyed, Selector,
};
use crate::text::{copy_text, own_text, str_view, text_view};
use vstd::prelude::*;

verus! {

/// One entry of the context table.
#[derive(Debug, Clone)]
pub struct UserContext {
    pub key: String,
    pub value: String,
    pub confidence: i64,
    pub source_agent: Option<String>,
    pub updated_at: String,
}

/// The plain value of a `UserContext`.
pub ghost struct ContextView {
    pub key: Seq<char>,
    pub value: Seq<char>,
    pub confidence: i64,
    pub source_agent: Option<Seq<char>>,
    pub updated_at: Seq<char>,
}

impl View for UserContext {
    type V = ContextView;

    open spec fn view(&self) -> ContextView {
        ContextView {
            key: self.key@,
            value: self.value@,
            confidence: self.confidence,
            source_agent: text_view(self.source_agent),
            updated_at: self.updated_at@,
        }
    }
}

/// The identity of a context entry: its key.
pub open spec fn context_identity() -> spec_fn(ContextView) -> Seq<char> {
    |row: ContextView| row.key
}

/// The condition of being the entry with this key.
pub open spec fn context_named(key: Seq<char>) -> spec_fn(ContextView) -> bool {
    |row: ContextView| row.key == key
}

/// The context after `written` has been saved: it stands in place of the
/// entry that had its key, if any.
pub open spec fn with_context(context: Seq<ContextView>, written: ContextView) -> Seq<
    ContextView,
> {
    without(context, context_named(written.key)).push(written)
}

/// Picks the entry with a given key.
pub struct ContextNamed {
    pub key: String,
}

impl Selector<UserContext> for ContextNamed {
    open spec fn admits(&self) -> spec_fn(ContextView) -> bool {
        context_named(self.key@)
    }

    fn picks(&self, row: &UserContext) -> (picked: bool) {
        row.key == self.key
    }
}

impl Keyed for UserContext {
    type Key = Seq<char>;

    open spec fn identity() -> spec_fn(ContextView) -> Seq<char> {
        context_identity()
    }

    fn same_identity(&self, other: &Self) -> (same: bool) {
        self.key == other.key
    }
}

impl Ranked for UserContext {
    /// Context entries are listed by falling confidence.
    open spec fn outranks(a: ContextView, b: ContextView) -> bool {
        a.confidence > b.confidence
    }

    proof fn lemma_outranks_asymmetric(a: ContextView, b: ContextView) {
    }

    proof fn lemma_outranks_transitive(a: ContextView, b: ContextView, c: ContextView) {
    }

    fn ranks_before(&self, other: &Self) -> (before: bool) {
        self.confidence > other.confidence
    }

    fn duplicate(&self) -> (copy: Self) {
        UserContext {
            key: self.key.clone(),
            value: self.value.clone(),
            confidence: self.confidence,
            source_agent: copy_text(&self.source_agent),
            updated_at: self.updated_at.clone(),
        }
    }
}

/// Saves a context entry at time `now`, in place of the entry that had its
/// key, if any.
pub fn save_user_context_at(
    store: &mut MemoryStore,
    key: &str,
    value: &str,
    confidence: i64,
    source_agent: Option<&str>,
    now: &str,
)
    requires
        old(store).wf(),
    ensures
        final(store).wf(),
        final(store)@ == (StoreView {
            context: with_context(
                old(store)@.context,
                ContextView {
                    key: key@,
                    value: value@,
                    confidence,
                    source_agent: str_view(source_agent),
                    updated_at: now@,
                },
            ),
            ..old(store)@
        }),
{
    let named = ContextNamed { key: key.to_owned() };
    let ghost before = views(store.context@);
    remove_where(&mut store.context, &named);
    let ghost kept = views(store.context@);
    let written = UserContext {
        key: key.to_owned(),
        value: value.to_owned(),
        confidence,
        source_agent: own_text(source_agent),
        updated_at: now.to_owned(),
    };
    let ghost plain = written@;
    store.context.push(written);
    proof {
        assert(views(store.context@) =~= kept.push(plain));
        lemma_without_distinct(before, named.admits(), context_identity());
        lemma_without_misses(before, named.admits());
    }
}

/// Saves a context entry now.
pub fn save_user_context(
    store: &mut MemoryStore,
    key: &str,
    value: &str,
    confidence: i64,
    source_agent: Option<&str>,
)
    requires
        old(store).wf(),
    ensures
        final(store).wf(),
        exists|now: Seq<char>|
            final(store)@ == (StoreView {
                context: #[trigger] with_context(
                    old(store)@.context,
                    ContextView {
                        key: key@,
                        value: value@,
                        confidence,
                        source_agent: str_view(source_agent),
                        updated_at: now,
                    },
                ),
                ..old(store)@
            }),
{
    let now = utc_now();
    save_user_context_at(store, key, value, confidence, source_agent, now.as_str());
}

/// All context entries, the most confident first.
pub fn get_all_user_context(store: &MemoryStore) -> (context: Vec<UserContext>)
    ensures
        is_ranking::<UserContext>(views(context@), store@.context),
{
    ranked(&store.context)
}

/// Drops every context entry.
pub fn clear_user_context(store: &mut MemoryStore)
    ensures
        final(store)@ == (StoreView { context: Seq::empty(), ..old(store)@ }),
{
    store.context.clear();
    proof {
        assert(views(store.context@) =~= Seq::<ContextView>::empty());
    }
}

} // verus!
