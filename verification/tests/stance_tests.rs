use topic_tally::stance::{classify, CommunitySet, Stance};

fn names(items: &[&str]) -> Vec<String> {
    items.iter().map(|item| item.to_string()).collect()
}

#[test]
fn supporting_member_is_supporting() {
    let supporting = CommunitySet::new(&names(&["israel", "jewish"]));
    let opposing = CommunitySet::new(&names(&["gaza"]));
    assert_eq!(classify("israel", &supporting, &opposing), Stance::Supporting);
    assert_eq!(classify("jewish", &supporting, &opposing), Stance::Supporting);
}

#[test]
fn opposing_member_is_opposing() {
    let supporting = CommunitySet::new(&names(&["israel"]));
    let opposing = CommunitySet::new(&names(&["gaza", "palestine"]));
    assert_eq!(classify("gaza", &supporting, &opposing), Stance::Opposing);
    assert_eq!(classify("palestine", &supporting, &opposing), Stance::Opposing);
}

#[test]
fn unknown_community_is_neutral() {
    let supporting = CommunitySet::new(&names(&["israel"]));
    let opposing = CommunitySet::new(&names(&["gaza"]));
    assert_eq!(classify("worldnews", &supporting, &opposing), Stance::Neutral);
    assert_eq!(classify("", &supporting, &opposing), Stance::Neutral);
}

#[test]
fn supporting_wins_when_a_community_is_on_both_sides() {
    let supporting = CommunitySet::new(&names(&["israelpalestine", "israel"]));
    let opposing = CommunitySet::new(&names(&["palestine", "israelpalestine"]));
    assert_eq!(classify("israelpalestine", &supporting, &opposing), Stance::Supporting);
}

#[test]
fn supporting_member_is_supporting_whatever_the_opposing_side_holds() {
    let supporting = CommunitySet::new(&names(&["israel"]));
    let others =
        [names(&[]), names(&["gaza"]), names(&["israel"]), names(&["israel", "gaza", "other"])];
    for opposing_names in others {
        let opposing = CommunitySet::new(&opposing_names);
        assert_eq!(classify("israel", &supporting, &opposing), Stance::Supporting);
    }
}

#[test]
fn membership_is_exact_not_by_substring() {
    let supporting = CommunitySet::new(&names(&["israel"]));
    let opposing = CommunitySet::new(&names(&["gaza"]));
    assert_eq!(classify("israelwar", &supporting, &opposing), Stance::Neutral);
    assert_eq!(classify("isra", &supporting, &opposing), Stance::Neutral);
    assert_eq!(classify("gaza ", &supporting, &opposing), Stance::Neutral);
}

#[test]
fn classify_compares_the_identifier_as_given() {
    let supporting = CommunitySet::new(&names(&["israel"]));
    let opposing = CommunitySet::new(&names(&["gaza"]));
    assert_eq!(classify("Israel", &supporting, &opposing), Stance::Neutral);
    assert_eq!(classify("GAZA", &supporting, &opposing), Stance::Neutral);
}

#[test]
fn community_set_holds_lowercase_identifiers() {
    let set = CommunitySet::new(&names(&["IsraelUnderAttack", "Jewish", "islam"]));
    assert!(set.contains("israelunderattack"));
    assert!(set.contains("jewish"));
    assert!(set.contains("islam"));
    assert!(!set.contains("IsraelUnderAttack"));
    assert!(!set.contains("Jewish"));
    assert!(!set.contains("muslim"));
}

#[test]
fn empty_community_set_has_no_members() {
    let set = CommunitySet::new(&names(&[]));
    assert!(!set.contains(""));
    assert!(!set.contains("israel"));
}

#[test]
fn stance_values_are_distinct() {
    assert_ne!(Stance::Supporting, Stance::Opposing);
    assert_ne!(Stance::Supporting, Stance::Neutral);
    assert_ne!(Stance::Opposing, Stance::Neutral);
    let copy = Stance::Opposing;
    assert_eq!(copy, Stance::Opposing);
}
