use intersect::context::{
    clear_user_context, get_all_user_context, save_user_context, save_user_context_at,
};
use intersect::conversations::{
    clear_conversation_messages, create_conversation, create_conversation_at, get_conversation,
    get_conversation_messages, get_recent_conversations, get_recent_messages, save_message,
    save_message_at, update_conversation_title_at, Message, StoreError,
};
use intersect::facts::{save_user_fact, UserFact};
use intersect::patterns::{save_user_pattern_at, UserPattern};
use intersect::profile::{
    clear_anthropic_key_at, clear_api_key_at, get_user_profile, increment_message_count,
    increment_message_count_at, update_anthropic_key_at, update_api_key_at, update_weights,
    update_weights_at,
};
use intersect::scale::{bump, DEFAULT_INSTINCT_WEIGHT, DEFAULT_LOGIC_WEIGHT, DEFAULT_PSYCHE_WEIGHT};
use intersect::store::{
    is_well_formed, open_store, open_store_at, reset_all_data, reset_all_data_at, MemoryStore,
};
use intersect::summaries::{
    get_conversation_summary, get_recent_conversation_summaries, save_conversation_summary,
    ConversationSummary,
};
use intersect::themes::save_recurring_theme_at;

fn store() -> MemoryStore {
    open_store_at("2024-01-01T00:00:00+00:00")
}

fn message(id: &str, conversation: &str, timestamp: &str) -> Message {
    Message {
        id: id.to_string(),
        conversation_id: conversation.to_string(),
        role: "user".to_string(),
        content: format!("content of {}", id),
        response_type: None,
        references_message_id: None,
        timestamp: timestamp.to_string(),
    }
}

fn summary(conversation: &str, text: &str, created_at: &str) -> ConversationSummary {
    ConversationSummary {
        conversation_id: conversation.to_string(),
        summary: text.to_string(),
        key_topics: "[\"work\"]".to_string(),
        emotional_tone: Some("calm".to_string()),
        user_state: None,
        agents_involved: "[\"logic\"]".to_string(),
        message_count: 4,
        created_at: created_at.to_string(),
    }
}

#[test]
fn new_store_has_the_default_profile() {
    let s = store();
    assert!(is_well_formed(&s));
    let p = get_user_profile(&s);
    assert_eq!(p.api_key, None);
    assert_eq!(p.anthropic_key, None);
    assert_eq!(p.instinct_weight, 200_000);
    assert_eq!(p.logic_weight, 500_000);
    assert_eq!(p.psyche_weight, 300_000);
    assert_eq!(p.total_messages, 0);
    assert_eq!(p.created_at, "2024-01-01T00:00:00+00:00");
    assert_eq!(p.updated_at, "2024-01-01T00:00:00+00:00");
    assert!(s.facts.is_empty() && s.patterns.is_empty() && s.themes.is_empty());
    assert!(s.summaries.is_empty() && s.messages.is_empty() && s.conversations.is_empty());
}

#[test]
fn open_store_stamps_the_current_time() {
    let s = open_store();
    assert!(chrono::DateTime::parse_from_rfc3339(&s.profile.created_at).is_ok());
    assert_eq!(s.profile.created_at, s.profile.updated_at);
    assert_eq!(s.profile.logic_weight, DEFAULT_LOGIC_WEIGHT);
}

#[test]
fn weights_are_stored_unchecked() {
    let mut s = store();
    update_weights_at(&mut s, 2_000_000, -1_000_000, 500_000, "t1");
    let p = get_user_profile(&s);
    assert_eq!(p.instinct_weight, 2_000_000);
    assert_eq!(p.logic_weight, -1_000_000);
    assert_eq!(p.psyche_weight, 500_000);
    assert_eq!(p.updated_at, "t1");
    assert_eq!(p.created_at, "2024-01-01T00:00:00+00:00");
    assert_eq!(p.total_messages, 0);
}

#[test]
fn update_weights_stamps_the_current_time() {
    let mut s = store();
    update_weights(&mut s, 1, 2, 3);
    assert_eq!(
        (s.profile.instinct_weight, s.profile.logic_weight, s.profile.psyche_weight),
        (1, 2, 3)
    );
    assert_ne!(s.profile.updated_at, "2024-01-01T00:00:00+00:00");
    assert!(chrono::DateTime::parse_from_rfc3339(&s.profile.updated_at).is_ok());
}

#[test]
fn message_counter_counts_up_and_holds_at_the_top() {
    let mut s = store();
    increment_message_count_at(&mut s, "t1");
    increment_message_count_at(&mut s, "t2");
    increment_message_count(&mut s);
    assert_eq!(s.profile.total_messages, 3);
    s.profile.total_messages = i64::MAX;
    increment_message_count_at(&mut s, "t3");
    assert_eq!(s.profile.total_messages, i64::MAX);
    assert_eq!(bump(41), 42);
    assert_eq!(bump(i64::MAX), i64::MAX);
    assert_eq!(bump(-1), 0);
}

#[test]
fn credentials_are_set_and_cleared() {
    let mut s = store();
    update_api_key_at(&mut s, "SECRET-ONE", "t1");
    update_anthropic_key_at(&mut s, "SECRET-TWO", "t2");
    assert_eq!(s.profile.api_key, Some("SECRET-ONE".to_string()));
    assert_eq!(s.profile.anthropic_key, Some("SECRET-TWO".to_string()));
    assert_eq!(s.profile.updated_at, "t2");
    clear_api_key_at(&mut s, "t3");
    assert_eq!(s.profile.api_key, None);
    assert_eq!(s.profile.anthropic_key, Some("SECRET-TWO".to_string()));
    clear_anthropic_key_at(&mut s, "t4");
    assert_eq!(s.profile.anthropic_key, None);
    assert_eq!(s.profile.updated_at, "t4");
}

#[test]
fn reset_empties_everything_and_restores_the_defaults() {
    let mut s = store();
    save_user_fact(
        &mut s,
        &UserFact {
            category: "work".to_string(),
            key: "role".to_string(),
            value: "engineer".to_string(),
            confidence: 600_000,
            source_type: "explicit".to_string(),
            source_conversation_id: None,
            first_mentioned: "t".to_string(),
            last_confirmed: "t".to_string(),
            mention_count: 1,
        },
    );
    save_user_pattern_at(
        &mut s,
        &UserPattern {
            pattern_type: "thinking_mode".to_string(),
            description: "analytical".to_string(),
            confidence: 700_000,
            evidence: "[]".to_string(),
            first_observed: "t".to_string(),
            last_updated: "t".to_string(),
            observation_count: 1,
        },
        "t",
    );
    save_recurring_theme_at(&mut s, "sleep", "c1", "t");
    assert!(create_conversation_at(&mut s, "c1", "t").is_ok());
    save_message_at(&mut s, &message("m1", "c1", "t"), "t");
    save_conversation_summary(&mut s, &summary("c1", "short", "t"));
    save_user_context_at(&mut s, "mood", "good", 500_000, None, "t");
    update_weights_at(&mut s, 2_000_000, -1_000_000, 500_000, "t");
    increment_message_count_at(&mut s, "t");
    update_api_key_at(&mut s, "SECRET-ONE", "t");
    update_anthropic_key_at(&mut s, "SECRET-TWO", "t");
    assert_eq!(s.facts.len() + s.patterns.len() + s.themes.len() + s.messages.len(), 4);

    reset_all_data_at(&mut s, "t9");

    assert!(s.facts.is_empty());
    assert!(s.patterns.is_empty());
    assert!(s.themes.is_empty());
    assert!(s.messages.is_empty());
    assert!(s.conversations.is_empty());
    assert!(s.summaries.is_empty());
    assert!(s.context.is_empty());
    let p = get_user_profile(&s);
    assert_eq!(p.instinct_weight, DEFAULT_INSTINCT_WEIGHT);
    assert_eq!(p.logic_weight, DEFAULT_LOGIC_WEIGHT);
    assert_eq!(p.psyche_weight, DEFAULT_PSYCHE_WEIGHT);
    assert_eq!((p.instinct_weight, p.logic_weight, p.psyche_weight), (200_000, 500_000, 300_000));
    assert_eq!(p.total_messages, 0);
    assert_eq!(p.api_key, Some("SECRET-ONE".to_string()));
    assert_eq!(p.anthropic_key, Some("SECRET-TWO".to_string()));
    assert_eq!(p.updated_at, "t9");
    assert_eq!(p.created_at, "2024-01-01T00:00:00+00:00");
    assert!(is_well_formed(&s));
}

#[test]
fn reset_all_data_stamps_the_current_time() {
    let mut s = store();
    save_recurring_theme_at(&mut s, "sleep", "c1", "t");
    reset_all_data(&mut s);
    assert!(s.themes.is_empty());
    assert!(chrono::DateTime::parse_from_rfc3339(&s.profile.updated_at).is_ok());
}

#[test]
fn summary_is_replaced_not_merged() {
    let mut s = store();
    save_conversation_summary(&mut s, &summary("c1", "first", "t1"));
    save_conversation_summary(&mut s, &summary("c2", "other", "t2"));
    let mut second = summary("c1", "second", "t3");
    second.emotional_tone = None;
    second.message_count = 9;
    save_conversation_summary(&mut s, &second);
    assert_eq!(s.summaries.len(), 2);
    let found = get_conversation_summary(&s, "c1").expect("c1 has a summary");
    assert_eq!(found.summary, "second");
    assert_eq!(found.emotional_tone, None);
    assert_eq!(found.message_count, 9);
    assert_eq!(found.created_at, "t3");
    assert!(get_conversation_summary(&s, "c3").is_none());
    assert!(is_well_formed(&s));
}

#[test]
fn recent_summaries_are_latest_first_and_bounded() {
    let mut s = store();
    save_conversation_summary(&mut s, &summary("c1", "a", "2024-01-02T10:00:00+00:00"));
    save_conversation_summary(&mut s, &summary("c2", "b", "2024-03-01T09:00:00+00:00"));
    save_conversation_summary(&mut s, &summary("c3", "c", "2024-02-15T23:59:59+00:00"));
    let ids = |limit: usize| -> Vec<String> {
        get_recent_conversation_summaries(&s, limit)
            .into_iter()
            .map(|x| x.conversation_id)
            .collect()
    };
    assert_eq!(ids(2), vec!["c2".to_string(), "c3".to_string()]);
    assert_eq!(ids(5), vec!["c2".to_string(), "c3".to_string(), "c1".to_string()]);
    assert!(ids(0).is_empty());
}

#[test]
fn conversation_ids_are_unique() {
    let mut s = store();
    let created = create_conversation_at(&mut s, "c1", "t1").expect("a new id is accepted");
    assert_eq!(created.id, "c1");
    assert_eq!(created.title, None);
    assert_eq!(created.summary, None);
    assert_eq!(created.created_at, "t1");
    assert_eq!(created.updated_at, "t1");
    let again = create_conversation_at(&mut s, "c1", "t2");
    assert_eq!(again.err(), Some(StoreError::ConstraintViolation));
    assert_eq!(s.conversations.len(), 1);
    assert_eq!(s.conversations[0].created_at, "t1");
    assert!(create_conversation(&mut s, "c2").is_ok());
    assert!(create_conversation(&mut s, "c2").is_err());
    assert_eq!(s.conversations.len(), 2);
}

#[test]
fn conversation_lookup_and_title() {
    let mut s = store();
    assert!(create_conversation_at(&mut s, "c1", "t1").is_ok());
    assert!(get_conversation(&s, "missing").is_none());
    update_conversation_title_at(&mut s, "c1", "Plans", "t2");
    update_conversation_title_at(&mut s, "missing", "Nothing", "t3");
    let found = get_conversation(&s, "c1").expect("c1 is stored");
    assert_eq!(found.title, Some("Plans".to_string()));
    assert_eq!(found.created_at, "t1");
    assert_eq!(found.updated_at, "t2");
    assert_eq!(s.conversations.len(), 1);
}

#[test]
fn saving_a_message_touches_its_conversation() {
    let mut s = store();
    assert!(create_conversation_at(&mut s, "c1", "2024-01-01T00:00:00+00:00").is_ok());
    assert!(create_conversation_at(&mut s, "c2", "2024-01-02T00:00:00+00:00").is_ok());
    save_message_at(
        &mut s,
        &message("m1", "c1", "2024-01-03T00:00:00+00:00"),
        "2024-01-03T00:00:01+00:00",
    );
    assert_eq!(get_conversation(&s, "c1").unwrap().updated_at, "2024-01-03T00:00:01+00:00");
    assert_eq!(get_conversation(&s, "c2").unwrap().updated_at, "2024-01-02T00:00:00+00:00");
    let recent: Vec<String> =
        get_recent_conversations(&s, 1).into_iter().map(|c| c.id).collect();
    assert_eq!(recent, vec!["c1".to_string()]);
    save_message(&mut s, &message("m2", "c2", "2024-01-04T00:00:00+00:00"));
    assert_ne!(get_conversation(&s, "c2").unwrap().updated_at, "2024-01-02T00:00:00+00:00");
    save_message_at(&mut s, &message("m3", "nowhere", "t"), "t");
    assert_eq!(s.messages.len(), 3);
    assert_eq!(s.conversations.len(), 2);
}

#[test]
fn message_with_a_stored_id_replaces_it() {
    let mut s = store();
    save_message_at(&mut s, &message("m1", "c1", "t1"), "t");
    let mut edited = message("m1", "c1", "t2");
    edited.content = "edited".to_string();
    save_message_at(&mut s, &edited, "t");
    assert_eq!(s.messages.len(), 1);
    assert_eq!(s.messages[0].content, "edited");
    assert_eq!(s.messages[0].timestamp, "t2");
}

#[test]
fn messages_are_listed_oldest_first() {
    let mut s = store();
    save_message_at(&mut s, &message("m3", "c1", "2024-01-01T00:00:03+00:00"), "t");
    save_message_at(&mut s, &message("m1", "c1", "2024-01-01T00:00:01+00:00"), "t");
    save_message_at(&mut s, &message("x", "c2", "2024-01-01T00:00:00+00:00"), "t");
    save_message_at(&mut s, &message("m2", "c1", "2024-01-01T00:00:02+00:00"), "t");
    let ids: Vec<String> =
        get_conversation_messages(&s, "c1").into_iter().map(|m| m.id).collect();
    assert_eq!(ids, vec!["m1".to_string(), "m2".to_string(), "m3".to_string()]);
    let recent = |limit: usize| -> Vec<String> {
        get_recent_messages(&s, "c1", limit).into_iter().map(|m| m.id).collect()
    };
    assert_eq!(recent(2), vec!["m2".to_string(), "m3".to_string()]);
    assert_eq!(recent(3).len(), 3);
    assert_eq!(recent(9).len(), 3);
    assert!(recent(0).is_empty());
    clear_conversation_messages(&mut s, "c1");
    assert_eq!(s.messages.len(), 1);
    assert_eq!(s.messages[0].id, "x");
}

#[test]
fn context_is_replaced_by_key() {
    let mut s = store();
    save_user_context_at(&mut s, "mood", "good", 400_000, Some("psyche"), "t1");
    save_user_context_at(&mut s, "goal", "rest", 900_000, None, "t2");
    save_user_context_at(&mut s, "mood", "tired", 600_000, None, "t3");
    assert_eq!(s.context.len(), 2);
    let listed = get_all_user_context(&s);
    assert_eq!(listed[0].key, "goal");
    assert_eq!(listed[1].key, "mood");
    assert_eq!(listed[1].value, "tired");
    assert_eq!(listed[1].confidence, 600_000);
    assert_eq!(listed[1].source_agent, None);
    assert_eq!(listed[1].updated_at, "t3");
    save_user_context(&mut s, "goal", "sleep", 100_000, Some("logic"));
    assert_eq!(s.context.len(), 2);
    clear_user_context(&mut s);
    assert!(s.context.is_empty());
}

#[test]
fn well_formedness_is_decided() {
    let mut s = store();
    save_recurring_theme_at(&mut s, "sleep", "c1", "t");
    assert!(is_well_formed(&s));
    let copy = intersect::themes::RecurringTheme {
        theme: "sleep".to_string(),
        frequency: 3,
        last_mentioned: "t".to_string(),
        related_conversations: Vec::new(),
    };
    s.themes.push(copy);
    assert!(!is_well_formed(&s));
    s.themes.pop();
    assert!(is_well_formed(&s));
    let unnamed = UserFact {
        category: "".to_string(),
        key: "".to_string(),
        value: "v".to_string(),
        confidence: 1,
        source_type: "explicit".to_string(),
        source_conversation_id: None,
        first_mentioned: "t".to_string(),
        last_confirmed: "t".to_string(),
        mention_count: 1,
    };
    s.facts.push(unnamed.clone());
    assert!(is_well_formed(&s));
    s.facts.push(unnamed);
    assert!(!is_well_formed(&s));
}

#[test]
fn summaries_read_one_by_one_leave_the_latest() {
    let mut s = store();
    for row in [summary("c1", "old", "t1"), summary("c2", "other", "t2"), summary("c1", "new", "t3")]
    {
        save_conversation_summary(&mut s, &row);
    }
    assert!(is_well_formed(&s));
    assert_eq!(s.summaries.len(), 2);
    assert_eq!(get_conversation_summary(&s, "c1").unwrap().summary, "new");
}

#[test]
fn reset_keeps_the_credentials() {
    let mut s = store();
    reset_all_data_at(&mut s, "t1");
    assert_eq!(s.profile.api_key, None);
    assert_eq!(s.profile.anthropic_key, None);
    update_api_key_at(&mut s, "SECRET-ONE", "t2");
    reset_all_data_at(&mut s, "t3");
    assert_eq!(s.profile.api_key, Some("SECRET-ONE".to_string()));
    assert_eq!(s.profile.anthropic_key, None);
    update_anthropic_key_at(&mut s, "SECRET-TWO", "t4");
    reset_all_data(&mut s);
    assert_eq!(s.profile.api_key, Some("SECRET-ONE".to_string()));
    assert_eq!(s.profile.anthropic_key, Some("SECRET-TWO".to_string()));
}
