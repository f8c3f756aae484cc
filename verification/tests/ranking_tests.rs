use intersect::facts::{FactAtLeast, FactInCategory, FactNamed, UserFact};
use intersect::ranking::{
    insert_ranked, ranked, select_bottom_ranked, select_ranked, top_ranked, Ranked,
};
use intersect::table::{all_distinct, count_where, position, remove_where, Everything, Selector};

fn fact(category: &str, key: &str, confidence: i64, mentions: i64) -> UserFact {
    UserFact {
        category: category.to_string(),
        key: key.to_string(),
        value: "v".to_string(),
        confidence,
        source_type: "explicit".to_string(),
        source_conversation_id: Some("c".to_string()),
        first_mentioned: "t".to_string(),
        last_confirmed: "t".to_string(),
        mention_count: mentions,
    }
}

fn rows() -> Vec<UserFact> {
    vec![
        fact("a", "k1", 300_000, 1),
        fact("b", "k2", 900_000, 1),
        fact("a", "k3", 300_000, 5),
        fact("b", "k4", 100_000, 2),
    ]
}

fn keys(listing: &[UserFact]) -> Vec<&str> {
    listing.iter().map(|f| f.key.as_str()).collect()
}

#[test]
fn ranking_sorts_and_keeps_every_row() {
    let listing = ranked(&rows());
    assert_eq!(keys(&listing), vec!["k2", "k3", "k1", "k4"]);
    assert_eq!(listing[0].source_conversation_id, Some("c".to_string()));
}

#[test]
fn ranking_keeps_stored_order_among_equals() {
    let all = vec![fact("a", "first", 5, 1), fact("a", "second", 5, 1), fact("a", "third", 5, 1)];
    assert_eq!(keys(&ranked(&all)), vec!["first", "second", "third"]);
}

#[test]
fn insertion_goes_behind_equals() {
    let mut listing = ranked(&rows());
    insert_ranked(&mut listing, fact("c", "new", 300_000, 5));
    assert_eq!(keys(&listing), vec!["k2", "k3", "new", "k1", "k4"]);
    insert_ranked(&mut listing, fact("c", "top", 950_000, 0));
    assert_eq!(listing[0].key, "top");
}

#[test]
fn selection_filters_before_ranking() {
    let all = rows();
    let of_a = select_ranked(&all, &FactInCategory { category: "a".to_string() });
    assert_eq!(keys(&of_a), vec!["k3", "k1"]);
    let sure = select_ranked(&all, &FactAtLeast { min_confidence: 300_000 });
    assert_eq!(keys(&sure), vec!["k2", "k3", "k1"]);
    assert_eq!(select_ranked(&all, &Everything).len(), 4);
}

#[test]
fn top_and_bottom_are_bounded() {
    let all = rows();
    assert_eq!(keys(&top_ranked(&all, 2)), vec!["k2", "k3"]);
    assert_eq!(top_ranked(&all, 9).len(), 4);
    assert!(top_ranked(&all, 0).is_empty());
    assert_eq!(keys(&select_bottom_ranked(&all, &Everything, 2)), vec!["k1", "k4"]);
    assert_eq!(select_bottom_ranked(&all, &Everything, 9).len(), 4);
    assert!(select_bottom_ranked(&all, &Everything, 0).is_empty());
}

#[test]
fn tables_are_searched_counted_and_thinned() {
    let mut all = rows();
    let named = FactNamed { category: "a".to_string(), key: "k3".to_string() };
    assert_eq!(position(&all, &named), Some(2));
    assert!(named.picks(&all[2]));
    assert!(!named.picks(&all[0]));
    let absent = FactNamed { category: "b".to_string(), key: "k3".to_string() };
    assert_eq!(position(&all, &absent), None);
    assert_eq!(count_where(&all, &FactInCategory { category: "a".to_string() }), 2);
    assert_eq!(count_where(&all, &Everything), 4);
    remove_where(&mut all, &FactInCategory { category: "a".to_string() });
    assert_eq!(keys(&all), vec!["k2", "k4"]);
    remove_where(&mut all, &Everything);
    assert!(all.is_empty());
}

#[test]
fn identities_are_compared() {
    let mut all = rows();
    assert!(all_distinct(&all));
    all.push(fact("a", "k1", 1, 1));
    assert!(!all_distinct(&all));
    assert!(all_distinct(&Vec::<UserFact>::new()));
    let copy = all[0].duplicate();
    assert_eq!(copy.key, "k1");
    assert!(all[1].ranks_before(&all[0]));
    assert!(!all[0].ranks_before(&all[1]));
    assert!(all[2].ranks_before(&all[0]));
}
