//! Summaries: one compact account per conversation. Writing a summary
//! replaces the one the conversation had; no history is kept.

use crate::ranking::{is_top_ranking, top_ranked, Ranked};
use crate::store::{MemoryStore, StoreView};
use crate::table::{
    first_index, lemma_first_index_at, lemma_without_distinct, lemma_without_misses, position,
    remove_where, views, without, Keyed, Selector,
};
use crate::text::{
    comes_before, copy_text, lemma_text_before_asymmetric, lemma_text_before_transitive,
    text_before, text_view,
};
use vstd::prelude::*;

verus! {

/// The summary of a conversation.
#[derive(Debug, Clone)]
pub struct ConversationSummary {
    pub conversation_id: String,
    pub summary: String,
    pub key_topics: String,
    pub emotional_tone: Option<String>,
    pub user_state: Option<String>,
    pub agents_involved: String,
    pub message_count: i64,
    pub created_at: String,
}

/// The plain value of a `ConversationSummary`.
pub ghost struct SummaryView {
    pub conversation_id: Seq<char>,
    pub summary: Seq<char>,
    pub key_topics: Seq<char>,
    pub emotional_tone: Option<Seq<char>>,
    pub user_state: Option<Seq<char>>,
    pub agents_involved: Seq<char>,
    pub message_count: i64,
    pub created_at: Seq<char>,
}

impl View for ConversationSummary {
    type V = SummaryView;

    open spec fn view(&self) -> SummaryView {
        SummaryView {
            conversation_id: self.conversation_id@,
            summary: self.summary@,
            key_topics: self.key_topics@,
            emotional_tone: text_view(self.emotional_tone),
            user_state: text_view(self.user_state),
            agents_involved: self.agents_involved@,
            message_count: self.message_count,
            created_at: self.created_at@,
        }
    }
}

/// The identity of a summary: the conversation it summarizes.
pub open spec fn summary_identity() -> spec_fn(SummaryView) -> Seq<char> {
    |row: SummaryView| row.conversation_id
}

/// The condition of being the summary of this conversation.
pub open spec fn summary_of(conversation_id: Seq<char>) -> spec_fn(SummaryView) -> bool {
    |row: SummaryView| row.conversation_id == conversation_id
}

/// The summaries after `written` has been saved: it stands in place of
/// whatever its conversation had before.
pub open spec fn with_summary(summaries: Seq<SummaryView>, written: SummaryView) -> Seq<
    SummaryView,
> {
    without(summaries, summary_of(written.conversation_id)).push(written)
}

/// The summary that a lookup finds for a conversation.
pub open spec fn summary_found(summaries: Seq<SummaryView>, conversation_id: Seq<char>) -> Option<
    SummaryView,
> {
    match first_index(summaries, summary_of(conversation_id)) {
        Some(at) => Some(summaries[at]),
        None => None,
    }
}

/// The plain value of a summary that may be absent.
pub open spec fn summary_view(summary: Option<ConversationSummary>) -> Option<SummaryView> {
    match summary {
        Some(s) => Some(s@),
        None => None,
    }
}

/// Saving replaces: after a summary is saved, a lookup for its conversation
/// finds exactly that summary, whatever the conversation had before, and no
/// other row of the table belongs to that conversation.
pub proof fn lemma_saved_summary_is_found(summaries: Seq<SummaryView>, written: SummaryView)
    ensures
        summary_found(with_summary(summaries, written), written.conversation_id) == Some(written),
        forall|i: int|
            0 <= i < with_summary(summaries, written).len() - 1 ==> (#[trigger] with_summary(
                summaries,
                written,
            )[i]).conversation_id != written.conversation_id,
{
    let of = summary_of(written.conversation_id);
    let kept = without(summaries, of);
    let after = with_summary(summaries, written);
    lemma_without_misses(summaries, of);
    assert forall|j: int| 0 <= j < kept.len() implies !of(#[trigger] after[j]) by {
        assert(after[j] == kept[j]);
    }
    lemma_first_index_at(after, of, kept.len() as int);
}

/// Picks the summary of a given conversation.
pub struct SummaryOf {
    pub conversation_id: String,
}

impl Selector<ConversationSummary> for SummaryOf {
    open spec fn admits(&self) -> spec_fn(SummaryView) -> bool {
        summary_of(self.conversation_id@)
    }

    fn picks(&self, row: &ConversationSummary) -> (picked: bool) {
        row.conversation_id == self.conversation_id
    }
}

impl Keyed for ConversationSummary {
    type Key = Seq<char>;

    open spec fn identity() -> spec_fn(SummaryView) -> Seq<char> {
        summary_identity()
    }

    fn same_identity(&self, other: &Self) -> (same: bool) {
        self.conversation_id == other.conversation_id
    }
}

impl Ranked for ConversationSummary {
    /// Summaries are listed from the latest creation time to the earliest.
    open spec fn outranks(a: SummaryView, b: SummaryView) -> bool {
        text_before(b.created_at, a.created_at)
    }

    proof fn lemma_outranks_asymmetric(a: SummaryView, b: SummaryView) {
        lemma_text_before_asymmetric(b.created_at, a.created_at);
    }

    proof fn lemma_outranks_transitive(a: SummaryView, b: SummaryView, c: SummaryView) {
        lemma_text_before_transitive(c.created_at, b.created_at, a.created_at);
    }

    fn ranks_before(&self, other: &Self) -> (before: bool) {
        comes_before(other.created_at.as_str(), self.created_at.as_str())
    }

    fn duplicate(&self) -> (copy: Self) {
        ConversationSummary {
            conversation_id: self.conversation_id.clone(),
            summary: self.summary.clone(),
            key_topics: self.key_topics.clone(),
            emotional_tone: copy_text(&self.emotional_tone),
            user_state: copy_text(&self.user_state),
            agents_involved: self.agents_involved.clone(),
            message_count: self.message_count,
            created_at: self.created_at.clone(),
        }
    }
}

/// Saves the summary of a conversation in place of the one it had, if any.
pub fn save_conversation_summary(store: &mut MemoryStore, summary: &ConversationSummary)
    requires
        old(store).wf(),
    ensures
        final(store).wf(),
        final(store)@ == (StoreView {
            summaries: with_summary(old(store)@.summaries, summary@),
            ..old(store)@
        }),
{
    let of = SummaryOf { conversation_id: summary.conversation_id.clone() };
    let ghost before = views(store.summaries@);
    remove_where(&mut store.summaries, &of);
    let ghost kept = views(store.summaries@);
    store.summaries.push(summary.duplicate());
    proof {
        assert(views(store.summaries@) =~= kept.push(summary@));
        lemma_without_distinct(before, of.admits(), summary_identity());
        lemma_without_misses(before, of.admits());
    }
}

/// The summary of a conversation, if it has one.
pub fn get_conversation_summary(store: &MemoryStore, conversation_id: &str) -> (found: Option<
    ConversationSummary,
>)
    ensures
        summary_view(found) == summary_found(store@.summaries, conversation_id@),
{
    match position(&store.summaries, &SummaryOf { conversation_id: conversation_id.to_owned() }) {
        Some(at) => Some(store.summaries[at].duplicate()),
        None => None,
    }
}

/// The `limit` most recently created summaries, the latest first.
pub fn get_recent_conversation_summaries(store: &MemoryStore, limit: usize) -> (summaries: Vec<
    ConversationSummary,
>)
    ensures
        is_top_ranking::<ConversationSummary>(views(summaries@), store@.summaries, limit as nat),
{
    top_ranked(&store.summaries, limit)
}

} // verus!
