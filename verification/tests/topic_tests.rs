use topic_tally::topic::TopicDefinition;

fn words(items: &[&str]) -> Vec<String> {
    items.iter().map(|item| item.to_string()).collect()
}

#[test]
fn a_topic_keeps_its_name() {
    let topic = TopicDefinition::new("October 7th Events", &words(&["terrorism"]));
    assert_eq!(topic.name(), "October 7th Events");
}

#[test]
fn keywords_are_lowercased_when_a_topic_is_made() {
    let given = words(&["Shireen Abu Akleh", "Al Jazeera", "WHO"]);
    let topic = TopicDefinition::new("Journalist Killed", &given);
    assert_eq!(topic.keywords(), &words(&["shireen abu akleh", "al jazeera", "who"]));
}

#[test]
fn keywords_keep_their_order() {
    let topic = TopicDefinition::new("t", &words(&["b", "A", "c", "A"]));
    assert_eq!(topic.keywords(), &words(&["b", "a", "c", "a"]));
}

#[test]
fn a_topic_may_have_no_keywords() {
    let topic = TopicDefinition::new("silent", &words(&[]));
    assert!(topic.keywords().is_empty());
    assert_eq!(topic.name(), "silent");
}

#[test]
fn lowercasing_reaches_beyond_ascii() {
    let topic = TopicDefinition::new("t", &words(&["ÄRGER", "Straße"]));
    assert_eq!(topic.keywords(), &words(&["ärger", "straße"]));
}
