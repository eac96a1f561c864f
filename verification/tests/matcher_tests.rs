use topic_tally::matcher;

fn words(items: &[&str]) -> Vec<String> {
    items.iter().map(|item| item.to_string()).collect()
}

#[test]
fn a_keyword_inside_the_text_matches() {
    assert!(matcher::matches("a bomb exploded", &words(&["bomb"])));
    assert!(matcher::matches("another bomb today", &words(&["rocket", "bomb"])));
}

#[test]
fn a_text_without_any_keyword_does_not_match() {
    assert!(!matcher::matches("no mention here", &words(&["bomb"])));
    assert!(!matcher::matches("", &words(&["bomb"])));
}

#[test]
fn a_keyword_matches_inside_a_longer_word() {
    assert!(matcher::matches("the bombing went on", &words(&["bomb"])));
    assert!(matcher::matches("who said that", &words(&["who"])));
}

#[test]
fn an_empty_keyword_list_never_matches() {
    assert!(!matcher::matches("a bomb exploded", &words(&[])));
    assert!(!matcher::matches("", &words(&[])));
}

#[test]
fn a_phrase_matches_only_as_a_contiguous_run() {
    let phrase = words(&["blow up"]);
    assert!(matcher::matches("they will blow up the bridge", &phrase));
    assert!(!matcher::matches("blow it up", &phrase));
    assert!(!matcher::matches("up blow", &phrase));
    assert!(!matcher::matches("blow  up", &phrase));
}

#[test]
fn matching_compares_characters_as_given() {
    assert!(!matcher::matches("a Bomb exploded", &words(&["bomb"])));
    assert!(!matcher::matches("a bomb exploded", &words(&["Bomb"])));
}

#[test]
fn several_matching_keywords_still_give_one_match() {
    assert!(matcher::matches("this is an attack during the war", &words(&["attack", "war"])));
    assert!(matcher::matches("this is an attack during the war", &words(&["war", "attack"])));
}

#[test]
fn the_order_of_keywords_does_not_matter() {
    let text = "water cutoff in the north";
    assert_eq!(
        matcher::matches(text, &words(&["blackout", "water cutoff"])),
        matcher::matches(text, &words(&["water cutoff", "blackout"]))
    );
    assert!(matcher::matches(text, &words(&["blackout", "water cutoff"])));
}

#[test]
fn a_keyword_longer_than_the_text_does_not_match() {
    assert!(!matcher::matches("war", &words(&["warfare"])));
}

#[test]
fn a_keyword_equal_to_the_text_matches() {
    assert!(matcher::matches("who", &words(&["who"])));
}

#[test]
fn an_empty_keyword_occurs_in_every_text() {
    assert!(matcher::matches("anything", &words(&[""])));
    assert!(matcher::matches("", &words(&[""])));
}

#[test]
fn keywords_with_characters_outside_ascii() {
    assert!(matcher::matches("die straße ist gesperrt", &words(&["straße"])));
    assert!(!matcher::matches("die strasse ist gesperrt", &words(&["straße"])));
}
