use intersect::json::{decode_ids, encode_ids, ids_or_empty, printed_or_empty};
use intersect::store::{is_well_formed, open_store_at, MemoryStore};
use intersect::themes::{
    add_member, get_all_recurring_themes, get_top_themes, has_member, save_recurring_theme,
    save_recurring_theme_at, RecurringTheme,
};

fn store() -> MemoryStore {
    open_store_at("2024-01-01T00:00:00+00:00")
}

fn theme(label: &str, frequency: i64) -> RecurringTheme {
    RecurringTheme {
        theme: label.to_string(),
        frequency,
        last_mentioned: "t0".to_string(),
        related_conversations: vec!["c0".to_string()],
    }
}

#[test]
fn theme_mentioned_twice_in_one_conversation() {
    let mut s = store();
    save_recurring_theme_at(&mut s, "career change", "conv-1", "t1");
    save_recurring_theme_at(&mut s, "career change", "conv-1", "t2");
    assert_eq!(s.themes.len(), 1);
    assert_eq!(s.themes[0].frequency, 2);
    assert_eq!(s.themes[0].related_conversations, vec!["conv-1".to_string()]);
    assert_eq!(s.themes[0].last_mentioned, "t2");
}

#[test]
fn new_theme_starts_at_frequency_one() {
    let mut s = store();
    save_recurring_theme_at(&mut s, "sleep", "conv-1", "t1");
    assert_eq!(s.themes.len(), 1);
    assert_eq!(s.themes[0].theme, "sleep");
    assert_eq!(s.themes[0].frequency, 1);
    assert_eq!(s.themes[0].last_mentioned, "t1");
    assert_eq!(s.themes[0].related_conversations, vec!["conv-1".to_string()]);
}

#[test]
fn theme_collects_conversations_in_order() {
    let mut s = store();
    save_recurring_theme_at(&mut s, "sleep", "conv-2", "t1");
    save_recurring_theme_at(&mut s, "sleep", "conv-1", "t2");
    save_recurring_theme_at(&mut s, "sleep", "conv-2", "t3");
    assert_eq!(s.themes[0].frequency, 3);
    assert_eq!(
        s.themes[0].related_conversations,
        vec!["conv-2".to_string(), "conv-1".to_string()]
    );
}

#[test]
fn theme_labels_are_compared_exactly() {
    let mut s = store();
    save_recurring_theme_at(&mut s, "sleep", "c", "t1");
    save_recurring_theme_at(&mut s, "Sleep", "c", "t2");
    assert_eq!(s.themes.len(), 2);
}

#[test]
fn save_recurring_theme_stamps_the_current_time() {
    let mut s = store();
    save_recurring_theme(&mut s, "sleep", "conv-1");
    assert_eq!(s.themes[0].frequency, 1);
    assert!(chrono::DateTime::parse_from_rfc3339(&s.themes[0].last_mentioned).is_ok());
    assert!(is_well_formed(&s));
}

#[test]
fn themes_are_listed_by_frequency() {
    let mut s = store();
    s.themes = vec![theme("rare", 1), theme("common", 9), theme("usual", 4)];
    let listed = get_all_recurring_themes(&s);
    let names: Vec<&str> = listed.iter().map(|t| t.theme.as_str()).collect();
    assert_eq!(names, vec!["common", "usual", "rare"]);
    assert_eq!(listed[0].related_conversations, vec!["c0".to_string()]);
}

#[test]
fn top_themes_are_bounded() {
    let mut s = store();
    s.themes = vec![theme("rare", 1), theme("common", 9), theme("usual", 4)];
    let names = |limit: usize| -> Vec<String> {
        get_top_themes(&s, limit).into_iter().map(|t| t.theme).collect()
    };
    assert_eq!(names(0), Vec::<String>::new());
    assert_eq!(names(2), vec!["common".to_string(), "usual".to_string()]);
    assert_eq!(names(3).len(), 3);
    assert_eq!(names(10).len(), 3);
}

#[test]
fn members_are_added_once() {
    let mut ids = vec!["a".to_string()];
    add_member(&mut ids, "b".to_string());
    add_member(&mut ids, "a".to_string());
    add_member(&mut ids, "b".to_string());
    assert_eq!(ids, vec!["a".to_string(), "b".to_string()]);
    assert!(has_member(&ids, &"a".to_string()));
    assert!(!has_member(&ids, &"A".to_string()));
}

#[test]
fn persisted_ids_are_decoded() {
    assert_eq!(
        decode_ids(Some("[\"conv-1\",\"conv-2\"]")),
        vec!["conv-1".to_string(), "conv-2".to_string()]
    );
    assert_eq!(decode_ids(Some("[]")), Vec::<String>::new());
}

#[test]
fn malformed_or_absent_ids_are_read_as_empty() {
    assert_eq!(decode_ids(None), Vec::<String>::new());
    assert_eq!(decode_ids(Some("")), Vec::<String>::new());
    assert_eq!(decode_ids(Some("not json")), Vec::<String>::new());
    assert_eq!(decode_ids(Some("{\"a\":1}")), Vec::<String>::new());
    assert_eq!(decode_ids(Some("[1,2]")), Vec::<String>::new());
}

#[test]
fn ids_are_encoded_as_a_json_array() {
    let ids = vec!["conv-1".to_string(), "say \"hi\"".to_string()];
    let text = encode_ids(&ids);
    assert_eq!(text, "[\"conv-1\",\"say \\\"hi\\\"\"]");
    assert_eq!(decode_ids(Some(&text)), ids);
    assert_eq!(encode_ids(&Vec::new()), "[]");
}

#[test]
fn failed_outcomes_count_as_empty() {
    assert_eq!(ids_or_empty(None), Vec::<String>::new());
    assert_eq!(ids_or_empty(Some(vec!["a".to_string()])), vec!["a".to_string()]);
    assert_eq!(printed_or_empty(None), "");
    assert_eq!(printed_or_empty(Some("[]".to_string())), "[]");
}
