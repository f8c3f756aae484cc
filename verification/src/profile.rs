//! The user profile: credentials, the three personality weights and the
//! message counter. The weights are stored as given, without validation.

use crate::clock::utc_now;
use crate::scale::{
    bump, bumped, DEFAULT_INSTINCT_WEIGHT, DEFAULT_LOGIC_WEIGHT, DEFAULT_PSYCHE_WEIGHT,
};
use crate::store::{MemoryStore, StoreView};
use crate::text::{copy_text, text_view};
use vstd::prelude::*;

verus! {

/// The single profile of the user.
#[derive(Debug, Clone)]
pub struct UserProfile {
    pub api_key: Option<String>,
    pub anthropic_key: Option<String>,
    pub instinct_weight: i64,
    pub logic_weight: i64,
    pub psyche_weight: i64,
    pub total_messages: i64,
    pub created_at: String,
    pub updated_at: String,
}

/// The plain value of a `UserProfile`.
pub ghost struct ProfileView {
    pub api_key: Option<Seq<char>>,
    pub anthropic_key: Option<Seq<char>>,
    pub instinct_weight: i64,
    pub logic_weight: i64,
    pub psyche_weight: i64,
    pub total_messages: i64,
    pub created_at: Seq<char>,
    pub updated_at: Seq<char>,
}

impl View for UserProfile {
    type V = ProfileView;

    open spec fn view(&self) -> ProfileView {
        ProfileView {
            api_key: text_view(self.api_key),
            anthropic_key: text_view(self.anthropic_key),
            instinct_weight: self.instinct_weight,
            logic_weight: self.logic_weight,
            psyche_weight: self.psyche_weight,
            total_messages: self.total_messages,
            created_at: self.created_at@,
            updated_at: self.updated_at@,
        }
    }
}

impl ProfileView {
    /// The profile of a new store: no credentials, the default weights, no
    /// messages.
    pub open spec fn initial(now: Seq<char>) -> ProfileView {
        ProfileView {
            api_key: None,
            anthropic_key: None,
            instinct_weight: DEFAULT_INSTINCT_WEIGHT,
            logic_weight: DEFAULT_LOGIC_WEIGHT,
            psyche_weight: DEFAULT_PSYCHE_WEIGHT,
            total_messages: 0,
            created_at: now,
            updated_at: now,
        }
    }

    /// The profile with its first credential set or cleared at time `now`.
    pub open spec fn with_api_key(self, api_key: Option<Seq<char>>, now: Seq<char>) -> ProfileView {
        ProfileView { api_key, updated_at: now, ..self }
    }

    /// The profile with its second credential set or cleared at time `now`.
    pub open spec fn with_anthropic_key(self, anthropic_key: Option<Seq<char>>, now: Seq<char>)
        -> ProfileView {
        ProfileView { anthropic_key, updated_at: now, ..self }
    }

    /// The profile with the three weights replaced, exactly as given, at time
    /// `now`.
    pub open spec fn with_weights(self, instinct: i64, logic: i64, psyche: i64, now: Seq<char>)
        -> ProfileView {
        ProfileView {
            instinct_weight: instinct,
            logic_weight: logic,
            psyche_weight: psyche,
            updated_at: now,
            ..self
        }
    }

    /// The profile after one more message at time `now`.
    pub open spec fn with_message_counted(self, now: Seq<char>) -> ProfileView {
        ProfileView { total_messages: bumped(self.total_messages), updated_at: now, ..self }
    }

    /// The profile after a reset at time `now`: the default weights and no
    /// messages. The credentials and the time of creation stay as they were.
    pub open spec fn reset(self, now: Seq<char>) -> ProfileView {
        ProfileView {
            instinct_weight: DEFAULT_INSTINCT_WEIGHT,
            logic_weight: DEFAULT_LOGIC_WEIGHT,
            psyche_weight: DEFAULT_PSYCHE_WEIGHT,
            total_messages: 0,
            updated_at: now,
            ..self
        }
    }
}

/// The weights are a passive container: whatever three values are written,
/// in range or not, summing to 1 or not, are the three values read back, and
/// nothing else of the profile changes but the time of the update.
pub proof fn lemma_weights_stored_verbatim(
    profile: ProfileView,
    instinct: i64,
    logic: i64,
    psyche: i64,
    now: Seq<char>,
)
    ensures
        profile.with_weights(instinct, logic, psyche, now).instinct_weight == instinct,
        profile.with_weights(instinct, logic, psyche, now).logic_weight == logic,
        profile.with_weights(instinct, logic, psyche, now).psyche_weight == psyche,
        profile.with_weights(instinct, logic, psyche, now).total_messages
            == profile.total_messages,
        profile.with_weights(instinct, logic, psyche, now).api_key == profile.api_key,
        profile.with_weights(instinct, logic, psyche, now).anthropic_key == profile.anthropic_key,
        profile.with_weights(instinct, logic, psyche, now).created_at == profile.created_at,
{
}

/// The message counter never goes down.
pub proof fn lemma_message_count_never_falls(profile: ProfileView, now: Seq<char>)
    ensures
        profile.with_message_counted(now).total_messages >= profile.total_messages,
{
}

impl UserProfile {
    /// The profile of a new store, created at time `now`.
    pub fn initial(now: &str) -> (profile: UserProfile)
        ensures
            profile@ == ProfileView::initial(now@),
    {
        UserProfile {
            api_key: None,
            anthropic_key: None,
            instinct_weight: DEFAULT_INSTINCT_WEIGHT,
            logic_weight: DEFAULT_LOGIC_WEIGHT,
            psyche_weight: DEFAULT_PSYCHE_WEIGHT,
            total_messages: 0,
            created_at: now.to_owned(),
            updated_at: now.to_owned(),
        }
    }

    /// A second profile with the same plain value.
    pub fn duplicate(&self) -> (copy: UserProfile)
        ensures
            copy@ == self@,
    {
        UserProfile {
            api_key: copy_text(&self.api_key),
            anthropic_key: copy_text(&self.anthropic_key),
            instinct_weight: self.instinct_weight,
            logic_weight: self.logic_weight,
            psyche_weight: self.psyche_weight,
            total_messages: self.total_messages,
            created_at: self.created_at.clone(),
            updated_at: self.updated_at.clone(),
        }
    }
}

/// The profile as it stands.
pub fn get_user_profile(store: &MemoryStore) -> (profile: UserProfile)
    ensures
        profile@ == store@.profile,
{
    store.profile.duplicate()
}

/// Stores the first credential at time `now`.
pub fn update_api_key_at(store: &mut MemoryStore, api_key: &str, now: &str)
    ensures
        final(store)@ == (StoreView {
            profile: old(store)@.profile.with_api_key(Some(api_key@), now@),
            ..old(store)@
        }),
{
    store.profile.api_key = Some(api_key.to_owned());
    store.profile.updated_at = now.to_owned();
}

/// Stores the first credential now.
pub fn update_api_key(store: &mut MemoryStore, api_key: &str)
    ensures
        exists|now: Seq<char>|
            final(store)@ == (StoreView {
                profile: #[trigger] old(store)@.profile.with_api_key(Some(api_key@), now),
                ..old(store)@
            }),
{
    let now = utc_now();
    update_api_key_at(store, api_key, now.as_str());
}

/// Forgets the first credential at time `now`.
pub fn clear_api_key_at(store: &mut MemoryStore, now: &str)
    ensures
        final(store)@ == (StoreView {
            profile: old(store)@.profile.with_api_key(None, now@),
            ..old(store)@
        }),
{
    store.profile.api_key = None;
    store.profile.updated_at = now.to_owned();
}

/// Forgets the first credential now.
pub fn clear_api_key(store: &mut MemoryStore)
    ensures
        exists|now: Seq<char>|
            final(store)@ == (StoreView {
                profile: #[trigger] old(store)@.profile.with_api_key(None, now),
                ..old(store)@
            }),
{
    let now = utc_now();
    clear_api_key_at(store, now.as_str());
}

/// Stores the second credential at time `now`.
pub fn update_anthropic_key_at(store: &mut MemoryStore, api_key: &str, now: &str)
    ensures
        final(store)@ == (StoreView {
            profile: old(store)@.profile.with_anthropic_key(Some(api_key@), now@),
            ..old(store)@
        }),
{
    store.profile.anthropic_key = Some(api_key.to_owned());
    store.profile.updated_at = now.to_owned();
}

/// Stores the second credential now.
pub fn update_anthropic_key(store: &mut MemoryStore, api_key: &str)
    ensures
        exists|now: Seq<char>|
            final(store)@ == (StoreView {
                profile: #[trigger] old(store)@.profile.with_anthropic_key(Some(api_key@), now),
                ..old(store)@
            }),
{
    let now = utc_now();
    update_anthropic_key_at(store, api_key, now.as_str());
}

/// Forgets the second credential at time `now`.
pub fn clear_anthropic_key_at(store: &mut MemoryStore, now: &str)
    ensures
        final(store)@ == (StoreView {
            profile: old(store)@.profile.with_anthropic_key(None, now@),
            ..old(store)@
        }),
{
    store.profile.anthropic_key = None;
    store.profile.updated_at = now.to_owned();
}

/// Forgets the second credential now.
pub fn clear_anthropic_key(store: &mut MemoryStore)
    ensures
        exists|now: Seq<char>|
            final(store)@ == (StoreView {
                profile: #[trigger] old(store)@.profile.with_anthropic_key(None, now),
                ..old(store)@
            }),
{
    let now = utc_now();
    clear_anthropic_key_at(store, now.as_str());
}

/// Replaces the three weights at time `now`. The values are stored exactly as
/// given: they are neither checked nor made to sum to 1.
pub fn update_weights_at(
    store: &mut MemoryStore,
    instinct: i64,
    logic: i64,
    psyche: i64,
    now: &str,
)
    ensures
        final(store)@ == (StoreView {
            profile: old(store)@.profile.with_weights(instinct, logic, psyche, now@),
            ..old(store)@
        }),
{
    store.profile.instinct_weight = instinct;
    store.profile.logic_weight = logic;
    store.profile.psyche_weight = psyche;
    store.profile.updated_at = now.to_owned();
}

/// Replaces the three weights now.
pub fn update_weights(store: &mut MemoryStore, instinct: i64, logic: i64, psyche: i64)
    ensures
        exists|now: Seq<char>|
            final(store)@ == (StoreView {
                profile: #[trigger] old(store)@.profile.with_weights(instinct, logic, psyche, now),
                ..old(store)@
            }),
{
    let now = utc_now();
    update_weights_at(store, instinct, logic, psyche, now.as_str());
}

/// Counts one more message at time `now`. The counter never goes down; at
/// the top of its range it stays where it is.
pub fn increment_message_count_at(store: &mut MemoryStore, now: &str)
    ensures
        final(store)@ == (StoreView {
            profile: old(store)@.profile.with_message_counted(now@),
            ..old(store)@
        }),
{
    store.profile.total_messages = bump(store.profile.total_messages);
    store.profile.updated_at = now.to_owned();
}

/// Counts one more message now.
pub fn increment_message_count(store: &mut MemoryStore)
    ensures
        exists|now: Seq<char>|
            final(store)@ == (StoreView {
                profile: #[trigger] old(store)@.profile.with_message_counted(now),
                ..old(store)@
            }),
{
    let now = utc_now();
    increment_message_count_at(store, now.as_str());
}

} // verus!
