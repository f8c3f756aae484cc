//! The memory store: every table of the engine in one value.

use crate::clock::utc_now;
use crate::context::{context_identity, ContextView, UserContext};
use crate::conversations::{
    conversation_identity, message_identity, Conversation, ConversationView, Message, MessageView,
};
use crate::facts::{fact_identity, FactView, UserFact};
use crate::patterns::{pattern_identity, PatternView, UserPattern};
use crate::profile::{ProfileView, UserProfile};
use crate::summaries::{summary_identity, ConversationSummary, SummaryView};
use crate::table::{all_distinct, distinct_by, views};
use crate::themes::{theme_identity, RecurringTheme, ThemeView};
use vstd::prelude::*;

verus! {

/// Everything the engine remembers about the user.
#[derive(Debug, Clone)]
pub struct MemoryStore {
    pub profile: UserProfile,
    pub conversations: Vec<Conversation>,
    pub messages: Vec<Message>,
    pub context: Vec<UserContext>,
    pub facts: Vec<UserFact>,
    pub patterns: Vec<UserPattern>,
    pub summaries: Vec<ConversationSummary>,
    pub themes: Vec<RecurringTheme>,
}

/// The plain value of a `MemoryStore`: the profile, and each table as the
/// sequence of its plain rows in the order in which they were stored.
pub ghost struct StoreView {
    pub profile: ProfileView,
    pub conversations: Seq<ConversationView>,
    pub messages: Seq<MessageView>,
    pub context: Seq<ContextView>,
    pub facts: Seq<FactView>,
    pub patterns: Seq<PatternView>,
    pub summaries: Seq<SummaryView>,
    pub themes: Seq<ThemeView>,
}

impl View for MemoryStore {
    type V = StoreView;

    open spec fn view(&self) -> StoreView {
        StoreView {
            profile: self.profile@,
            conversations: views(self.conversations@),
            messages: views(self.messages@),
            context: views(self.context@),
            facts: views(self.facts@),
            patterns: views(self.patterns@),
            summaries: views(self.summaries@),
            themes: views(self.themes@),
        }
    }
}

impl StoreView {
    /// In every table each row is the only one of its identity.
    pub open spec fn wf(self) -> bool {
        &&& distinct_by(self.conversations, conversation_identity())
        &&& distinct_by(self.messages, message_identity())
        &&& distinct_by(self.context, context_identity())
        &&& distinct_by(self.facts, fact_identity())
        &&& distinct_by(self.patterns, pattern_identity())
        &&& distinct_by(self.summaries, summary_identity())
        &&& distinct_by(self.themes, theme_identity())
    }

    /// A store with the initial profile and nothing else.
    pub open spec fn initial(now: Seq<char>) -> StoreView {
        StoreView {
            profile: ProfileView::initial(now),
            conversations: Seq::empty(),
            messages: Seq::empty(),
            context: Seq::empty(),
            facts: Seq::empty(),
            patterns: Seq::empty(),
            summaries: Seq::empty(),
            themes: Seq::empty(),
        }
    }

    /// The store after everything was wiped at time `now`: all tables empty
    /// and the profile reset.
    pub open spec fn wiped(self, now: Seq<char>) -> StoreView {
        StoreView {
            profile: self.profile.reset(now),
            conversations: Seq::empty(),
            messages: Seq::empty(),
            context: Seq::empty(),
            facts: Seq::empty(),
            patterns: Seq::empty(),
            summaries: Seq::empty(),
            themes: Seq::empty(),
        }
    }
}

impl MemoryStore {
    /// The store's tables are well formed.
    pub open spec fn wf(&self) -> bool {
        self@.wf()
    }
}

/// Whatever a store held, after a wipe every table is empty, the weights are
/// the defaults and no message is counted; both credentials are what they
/// were.
pub proof fn lemma_wiped_store(store: StoreView, now: Seq<char>)
    ensures
        store.wiped(now).wf(),
        store.wiped(now).conversations.len() == 0,
        store.wiped(now).messages.len() == 0,
        store.wiped(now).context.len() == 0,
        store.wiped(now).facts.len() == 0,
        store.wiped(now).patterns.len() == 0,
        store.wiped(now).summaries.len() == 0,
        store.wiped(now).themes.len() == 0,
        store.wiped(now).profile.instinct_weight == 200_000,
        store.wiped(now).profile.logic_weight == 500_000,
        store.wiped(now).profile.psyche_weight == 300_000,
        store.wiped(now).profile.total_messages == 0,
        store.wiped(now).profile.api_key == store.profile.api_key,
        store.wiped(now).profile.anthropic_key == store.profile.anthropic_key,
        store.wiped(now).profile.created_at == store.profile.created_at,
{
}

/// A store whose tables hold no rows has no plain rows in any table.
pub proof fn lemma_empty_tables(store: MemoryStore)
    requires
        store.conversations.len() == 0,
        store.messages.len() == 0,
        store.context.len() == 0,
        store.facts.len() == 0,
        store.patterns.len() == 0,
        store.summaries.len() == 0,
        store.themes.len() == 0,
    ensures
        store@.conversations == Seq::<ConversationView>::empty(),
        store@.messages == Seq::<MessageView>::empty(),
        store@.context == Seq::<ContextView>::empty(),
        store@.facts == Seq::<FactView>::empty(),
        store@.patterns == Seq::<PatternView>::empty(),
        store@.summaries == Seq::<SummaryView>::empty(),
        store@.themes == Seq::<ThemeView>::empty(),
{
    assert(store@.conversations =~= Seq::<ConversationView>::empty());
    assert(store@.messages =~= Seq::<MessageView>::empty());
    assert(store@.context =~= Seq::<ContextView>::empty());
    assert(store@.facts =~= Seq::<FactView>::empty());
    assert(store@.patterns =~= Seq::<PatternView>::empty());
    assert(store@.summaries =~= Seq::<SummaryView>::empty());
    assert(store@.themes =~= Seq::<ThemeView>::empty());
}

/// Decides whether a store is well formed. A store put together from rows
/// of any origin is fit for the engine exactly when this holds.
pub fn is_well_formed(store: &MemoryStore) -> (ok: bool)
    ensures
        ok == store.wf(),
{
    all_distinct(&store.conversations) && all_distinct(&store.messages) && all_distinct(
        &store.context,
    ) && all_distinct(&store.facts) && all_distinct(&store.patterns) && all_distinct(
        &store.summaries,
    ) && all_distinct(&store.themes)
}

/// A new store, opened at time `now`: the initial profile and empty tables.
pub fn open_store_at(now: &str) -> (store: MemoryStore)
    ensures
        store.wf(),
        store@ == StoreView::initial(now@),
{
    let store = MemoryStore {
        profile: UserProfile::initial(now),
        conversations: Vec::new(),
        messages: Vec::new(),
        context: Vec::new(),
        facts: Vec::new(),
        patterns: Vec::new(),
        summaries: Vec::new(),
        themes: Vec::new(),
    };
    proof {
        lemma_empty_tables(store);
    }
    store
}

/// A new store, opened now.
pub fn open_store() -> (store: MemoryStore)
    ensures
        store.wf(),
        exists|now: Seq<char>| store@ == #[trigger] StoreView::initial(now),
{
    let now = utc_now();
    open_store_at(now.as_str())
}

/// Wipes the store at time `now`: every table is emptied, the weights go
/// back to their defaults and the message counter to zero. The credentials
/// stay as they were. There is no way back and no partial wipe.
pub fn reset_all_data_at(store: &mut MemoryStore, now: &str)
    ensures
        final(store).wf(),
        final(store)@ == old(store)@.wiped(now@),
{
    store.messages.clear();
    store.conversations.clear();
    store.context.clear();
    store.facts.clear();
    store.patterns.clear();
    store.summaries.clear();
    store.themes.clear();
    store.profile.instinct_weight = crate::scale::DEFAULT_INSTINCT_WEIGHT;
    store.profile.logic_weight = crate::scale::DEFAULT_LOGIC_WEIGHT;
    store.profile.psyche_weight = crate::scale::DEFAULT_PSYCHE_WEIGHT;
    store.profile.total_messages = 0;
    store.profile.updated_at = now.to_owned();
    proof {
        lemma_empty_tables(*store);
    }
}

/// Wipes the store now.
pub fn reset_all_data(store: &mut MemoryStore)
    ensures
        final(store).wf(),
        exists|now: Seq<char>| final(store)@ == #[trigger] old(store)@.wiped(now),
{
    let now = utc_now();
    reset_all_data_at(store, now.as_str());
}

} // verus!
