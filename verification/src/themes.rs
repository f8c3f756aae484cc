//! Themes: topics that recur across conversations. A theme is known by its
//! exact label; each mention raises its frequency and remembers the
//! conversation, once.

use crate::clock::utc_now;
use crate::ranking::{is_ranking, is_top_ranking, ranked, top_ranked, Ranked};
use crate::scale::{bump, bumped};
use crate::store::{MemoryStore, StoreView};
use crate::table::{
    first_index, lemma_first_index, lemma_first_index_at, position, views, Keyed, Selector,
};
use vstd::prelude::*;

verus! {

/// A topic that comes up again and again.
#[derive(Debug, Clone)]
pub struct RecurringTheme {
    pub theme: String,
    pub frequency: i64,
    pub last_mentioned: String,
    pub related_conversations: Vec<String>,
}

/// The plain value of a `RecurringTheme`.
pub ghost struct ThemeView {
    pub theme: Seq<char>,
    pub frequency: i64,
    pub last_mentioned: Seq<char>,
    pub related_conversations: Seq<Seq<char>>,
}

impl View for RecurringTheme {
    type V = ThemeView;

    open spec fn view(&self) -> ThemeView {
        ThemeView {
            theme: self.theme@,
            frequency: self.frequency,
            last_mentioned: self.last_mentioned@,
            related_conversations: views(self.related_conversations@),
        }
    }
}

/// The identity of a theme: its label.
pub open spec fn theme_identity() -> spec_fn(ThemeView) -> Seq<char> {
    |row: ThemeView| row.theme
}

/// The condition of being the theme with this label.
pub open spec fn theme_named(theme: Seq<char>) -> spec_fn(ThemeView) -> bool {
    |row: ThemeView| row.theme == theme
}

/// A list of ids with `id` among them: added at the end unless it is there
/// already.
pub open spec fn with_member(ids: Seq<Seq<char>>, id: Seq<char>) -> Seq<Seq<char>> {
    if ids.contains(id) {
        ids
    } else {
        ids.push(id)
    }
}

/// What a stored theme becomes when it is mentioned in a conversation at time
/// `now`.
pub open spec fn mentioned_theme(held: ThemeView, conversation_id: Seq<char>, now: Seq<char>)
    -> ThemeView {
    ThemeView {
        frequency: bumped(held.frequency),
        last_mentioned: now,
        related_conversations: with_member(held.related_conversations, conversation_id),
        ..held
    }
}

/// A theme at its first mention.
pub open spec fn first_mention(theme: Seq<char>, conversation_id: Seq<char>, now: Seq<char>)
    -> ThemeView {
    ThemeView {
        theme,
        frequency: 1,
        last_mentioned: now,
        related_conversations: seq![conversation_id],
    }
}

/// The themes after `theme` has been mentioned in a conversation at time
/// `now`.
pub open spec fn with_theme(
    themes: Seq<ThemeView>,
    theme: Seq<char>,
    conversation_id: Seq<char>,
    now: Seq<char>,
) -> Seq<ThemeView> {
    match first_index(themes, theme_named(theme)) {
        Some(at) => themes.update(at, mentioned_theme(themes[at], conversation_id, now)),
        None => themes.push(first_mention(theme, conversation_id, now)),
    }
}

/// Adding an id twice is adding it once, and a list without repeats stays
/// without repeats.
pub proof fn lemma_with_member(ids: Seq<Seq<char>>, id: Seq<char>)
    ensures
        with_member(ids, id).contains(id),
        with_member(with_member(ids, id), id) == with_member(ids, id),
        ids.no_duplicates() ==> with_member(ids, id).no_duplicates(),
{
    if !ids.contains(id) {
        assert(ids.push(id)[ids.len() as int] == id);
        if ids.no_duplicates() {
            assert forall|i: int, j: int|
                0 <= i < ids.push(id).len() && 0 <= j < ids.push(id).len() && i != j implies ids.push(
                id,
            )[i] != ids.push(id)[j] by {
                if i < ids.len() {
                    assert(ids.contains(ids[i]));
                }
                if j < ids.len() {
                    assert(ids.contains(ids[j]));
                }
            }
        }
    }
}

/// Related conversations are counted once per conversation, not once per
/// mention: when a theme is mentioned twice in the same conversation, the
/// second mention raises the frequency again and leaves the theme's related
/// conversations, and the number of themes, as the first mention left them.
pub proof fn lemma_theme_mentioned_twice(
    themes: Seq<ThemeView>,
    theme: Seq<char>,
    conversation_id: Seq<char>,
    first: Seq<char>,
    second: Seq<char>,
)
    ensures
        ({
            let once = with_theme(themes, theme, conversation_id, first);
            let twice = with_theme(once, theme, conversation_id, second);
            match first_index(once, theme_named(theme)) {
                Some(at) => {
                    &&& twice.len() == once.len()
                    &&& twice[at].related_conversations == once[at].related_conversations
                    &&& twice[at].frequency == bumped(once[at].frequency)
                    &&& once[at].related_conversations.contains(conversation_id)
                    &&& first_index(themes, theme_named(theme)).is_none() ==> {
                        &&& once[at].related_conversations.len() == 1
                        &&& once[at].frequency == 1
                        &&& twice[at].frequency == 2
                    }
                },
                None => false,
            }
        }),
{
    let named = theme_named(theme);
    let once = with_theme(themes, theme, conversation_id, first);
    lemma_first_index(themes, named);
    match first_index(themes, named) {
        Some(at) => {
            lemma_with_member(themes[at].related_conversations, conversation_id);
            assert forall|j: int| 0 <= j < at implies !named(#[trigger] once[j]) by {
                assert(once[j] == themes[j]);
            }
            lemma_first_index_at(once, named, at);
        },
        None => {
            assert forall|j: int| 0 <= j < themes.len() implies !named(#[trigger] once[j]) by {
                assert(once[j] == themes[j]);
            }
            lemma_first_index_at(once, named, themes.len() as int);
            assert(seq![conversation_id][0] == conversation_id);
        },
    }
}

/// Picks the theme with a given label.
pub struct ThemeNamed {
    pub theme: String,
}

impl Selector<RecurringTheme> for ThemeNamed {
    open spec fn admits(&self) -> spec_fn(ThemeView) -> bool {
        theme_named(self.theme@)
    }

    fn picks(&self, row: &RecurringTheme) -> (picked: bool) {
        row.theme == self.theme
    }
}

/// A second list with the same texts.
pub fn copy_texts(texts: &Vec<String>) -> (copy: Vec<String>)
    ensures
        views(copy@) == views(texts@),
{
    let mut copy: Vec<String> = Vec::new();
    let mut i: usize = 0;
    while i < texts.len()
        invariant
            i <= texts.len(),
            views(copy@) == views(texts@).take(i as int),
        decreases texts.len() - i,
    {
        let ghost head = views(copy@);
        let text = texts[i].clone();
        copy.push(text);
        proof {
            assert(views(copy@) =~= head.push(texts@[i as int]@));
            assert(views(texts@).take(i + 1) =~= head.push(texts@[i as int]@));
        }
        i = i + 1;
    }
    proof {
        assert(views(texts@).take(texts.len() as int) =~= views(texts@));
    }
    copy
}

/// Whether `id` is among `ids`.
pub fn has_member(ids: &Vec<String>, id: &String) -> (found: bool)
    ensures
        found == views(ids@).contains(id@),
{
    let mut i: usize = 0;
    while i < ids.len()
        invariant
            i <= ids.len(),
            forall|k: int| 0 <= k < i ==> #[trigger] views(ids@)[k] != id@,
        decreases ids.len() - i,
    {
        if ids[i] == *id {
            proof {
                assert(views(ids@)[i as int] == id@);
            }
            return true;
        }
        i = i + 1;
    }
    false
}

/// Adds `id` to `ids` unless it is there already.
pub fn add_member(ids: &mut Vec<String>, id: String)
    ensures
        views(final(ids)@) == with_member(views(old(ids)@), id@),
{
    if !has_member(ids, &id) {
        let ghost before = views(ids@);
        let ghost value = id@;
        ids.push(id);
        proof {
            assert(views(ids@) =~= before.push(value));
        }
    }
}

impl Keyed for RecurringTheme {
    type Key = Seq<char>;

    open spec fn identity() -> spec_fn(ThemeView) -> Seq<char> {
        theme_identity()
    }

    fn same_identity(&self, other: &Self) -> (same: bool) {
        self.theme == other.theme
    }
}

impl Ranked for RecurringTheme {
    /// Themes are listed by falling frequency.
    open spec fn outranks(a: ThemeView, b: ThemeView) -> bool {
        a.frequency > b.frequency
    }

    proof fn lemma_outranks_asymmetric(a: ThemeView, b: ThemeView) {
    }

    proof fn lemma_outranks_transitive(a: ThemeView, b: ThemeView, c: ThemeView) {
    }

    fn ranks_before(&self, other: &Self) -> (before: bool) {
        self.frequency > other.frequency
    }

    fn duplicate(&self) -> (copy: Self) {
        RecurringTheme {
            theme: self.theme.clone(),
            frequency: self.frequency,
            last_mentioned: self.last_mentioned.clone(),
            related_conversations: copy_texts(&self.related_conversations),
        }
    }
}

/// Records that `theme` came up in a conversation at time `now`. A known
/// theme gains one in frequency, and the conversation joins its related
/// conversations unless it is among them already. A new theme starts at
/// frequency 1 with this conversation alone.
pub fn save_recurring_theme_at(
    store: &mut MemoryStore,
    theme: &str,
    conversation_id: &str,
    now: &str,
)
    requires
        old(store).wf(),
    ensures
        final(store).wf(),
        final(store)@ == (StoreView {
            themes: with_theme(old(store)@.themes, theme@, conversation_id@, now@),
            ..old(store)@
        }),
{
    let named = ThemeNamed { theme: theme.to_owned() };
    let ghost before = views(store.themes@);
    proof {
        lemma_first_index(before, named.admits());
    }
    match position(&store.themes, &named) {
        Some(at) => {
            let mut held = store.themes.remove(at);
            held.frequency = bump(held.frequency);
            held.last_mentioned = now.to_owned();
            add_member(&mut held.related_conversations, conversation_id.to_owned());
            store.themes.insert(at, held);
            proof {
                assert(views(store.themes@) =~= before.update(
                    at as int,
                    mentioned_theme(before[at as int], conversation_id@, now@),
                ));
            }
        },
        None => {
            let mut related: Vec<String> = Vec::new();
            related.push(conversation_id.to_owned());
            proof {
                assert(views(related@) =~= seq![conversation_id@]);
            }
            store.themes.push(
                RecurringTheme {
                    theme: theme.to_owned(),
                    frequency: 1,
                    last_mentioned: now.to_owned(),
                    related_conversations: related,
                },
            );
            proof {
                assert(views(store.themes@) =~= before.push(
                    first_mention(theme@, conversation_id@, now@),
                ));
            }
        },
    }
}

/// Records that `theme` came up in a conversation now.
pub fn save_recurring_theme(store: &mut MemoryStore, theme: &str, conversation_id: &str)
    requires
        old(store).wf(),
    ensures
        final(store).wf(),
        exists|now: Seq<char>|
            final(store)@ == (StoreView {
                themes: #[trigger] with_theme(old(store)@.themes, theme@, conversation_id@, now),
                ..old(store)@
            }),
{
    let now = utc_now();
    save_recurring_theme_at(store, theme, conversation_id, now.as_str());
}

/// All themes, the most frequent first.
pub fn get_all_recurring_themes(store: &MemoryStore) -> (themes: Vec<RecurringTheme>)
    ensures
        is_ranking::<RecurringTheme>(views(themes@), store@.themes),
{
    ranked(&store.themes)
}

/// The `limit` most frequent themes, the most frequent first.
pub fn get_top_themes(store: &MemoryStore, limit: usize) -> (themes: Vec<RecurringTheme>)
    ensures
        is_top_ranking::<RecurringTheme>(views(themes@), store@.themes, limit as nat),
{
    top_ranked(&store.themes, limit)
}

} // verus!
