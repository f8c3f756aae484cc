use intersect::facts::{
    get_all_user_facts, get_high_confidence_facts, get_user_facts_by_category, save_user_fact,
    UserFact,
};
use intersect::store::{open_store_at, MemoryStore};

fn fact(category: &str, key: &str, value: &str, confidence: i64, at: &str) -> UserFact {
    UserFact {
        category: category.to_string(),
        key: key.to_string(),
        value: value.to_string(),
        confidence,
        source_type: "explicit".to_string(),
        source_conversation_id: None,
        first_mentioned: at.to_string(),
        last_confirmed: at.to_string(),
        mention_count: 1,
    }
}

fn store() -> MemoryStore {
    open_store_at("2024-01-01T00:00:00+00:00")
}

#[test]
fn fact_reinforcement_keeps_one_row() {
    let mut s = store();
    save_user_fact(&mut s, &fact("work", "role", "engineer", 600_000, "t1"));
    save_user_fact(&mut s, &fact("work", "role", "senior engineer", 800_000, "t2"));
    assert_eq!(s.facts.len(), 1);
    assert_eq!(s.facts[0].value, "senior engineer");
    assert_eq!(s.facts[0].confidence, 800_000);
    assert_eq!(s.facts[0].mention_count, 2);
    assert_eq!(s.facts[0].first_mentioned, "t1");
    assert_eq!(s.facts[0].last_confirmed, "t2");
}

#[test]
fn fact_confidence_never_falls() {
    let mut s = store();
    save_user_fact(&mut s, &fact("work", "role", "engineer", 900_000, "t1"));
    save_user_fact(&mut s, &fact("work", "role", "engineer", 300_000, "t2"));
    assert_eq!(s.facts.len(), 1);
    assert_eq!(s.facts[0].confidence, 900_000);
    assert_eq!(s.facts[0].mention_count, 2);
}

#[test]
fn new_fact_is_stored_as_given() {
    let mut s = store();
    let mut f = fact("personal", "name", "Ada", 1_000_000, "t1");
    f.mention_count = 7;
    f.source_type = "inferred".to_string();
    f.source_conversation_id = Some("c1".to_string());
    save_user_fact(&mut s, &f);
    assert_eq!(s.facts.len(), 1);
    assert_eq!(s.facts[0].mention_count, 7);
    assert_eq!(s.facts[0].source_type, "inferred");
    assert_eq!(s.facts[0].source_conversation_id, Some("c1".to_string()));
}

#[test]
fn fact_reinforcement_keeps_the_first_source() {
    let mut s = store();
    let mut first = fact("work", "role", "engineer", 500_000, "t1");
    first.source_conversation_id = Some("c1".to_string());
    save_user_fact(&mut s, &first);
    let mut second = fact("work", "role", "lead", 500_000, "t2");
    second.source_type = "inferred".to_string();
    second.source_conversation_id = Some("c2".to_string());
    save_user_fact(&mut s, &second);
    assert_eq!(s.facts[0].source_type, "explicit");
    assert_eq!(s.facts[0].source_conversation_id, Some("c1".to_string()));
    assert_eq!(s.facts[0].value, "lead");
}

#[test]
fn facts_with_different_keys_are_different_rows() {
    let mut s = store();
    save_user_fact(&mut s, &fact("work", "role", "engineer", 500_000, "t1"));
    save_user_fact(&mut s, &fact("work", "team", "core", 500_000, "t1"));
    save_user_fact(&mut s, &fact("personal", "role", "parent", 500_000, "t1"));
    assert_eq!(s.facts.len(), 3);
}

#[test]
fn mention_count_stops_at_the_top_of_its_range() {
    let mut s = store();
    let mut f = fact("work", "role", "engineer", 500_000, "t1");
    f.mention_count = i64::MAX;
    save_user_fact(&mut s, &f);
    save_user_fact(&mut s, &f);
    assert_eq!(s.facts[0].mention_count, i64::MAX);
}

#[test]
fn all_facts_are_listed_by_confidence_then_mentions() {
    let mut s = store();
    save_user_fact(&mut s, &fact("a", "low", "v", 200_000, "t"));
    save_user_fact(&mut s, &fact("a", "high", "v", 900_000, "t"));
    save_user_fact(&mut s, &fact("b", "mid-once", "v", 500_000, "t"));
    save_user_fact(&mut s, &fact("b", "mid-twice", "v", 500_000, "t"));
    save_user_fact(&mut s, &fact("b", "mid-twice", "v", 500_000, "t"));
    let listed = get_all_user_facts(&s);
    let keys: Vec<&str> = listed.iter().map(|f| f.key.as_str()).collect();
    assert_eq!(keys, vec!["high", "mid-twice", "mid-once", "low"]);
}

#[test]
fn facts_by_category_lists_only_that_category() {
    let mut s = store();
    save_user_fact(&mut s, &fact("work", "role", "v", 300_000, "t"));
    save_user_fact(&mut s, &fact("personal", "name", "v", 900_000, "t"));
    save_user_fact(&mut s, &fact("work", "team", "v", 700_000, "t"));
    let listed = get_user_facts_by_category(&s, "work");
    let keys: Vec<&str> = listed.iter().map(|f| f.key.as_str()).collect();
    assert_eq!(keys, vec!["team", "role"]);
    assert!(get_user_facts_by_category(&s, "values").is_empty());
}

#[test]
fn high_confidence_facts_include_the_threshold() {
    let mut s = store();
    save_user_fact(&mut s, &fact("a", "k1", "v", 300_000, "t"));
    save_user_fact(&mut s, &fact("a", "k2", "v", 700_000, "t"));
    save_user_fact(&mut s, &fact("a", "k3", "v", 900_000, "t"));
    let listed = get_high_confidence_facts(&s, 700_000);
    let keys: Vec<&str> = listed.iter().map(|f| f.key.as_str()).collect();
    assert_eq!(keys, vec!["k3", "k2"]);
}
