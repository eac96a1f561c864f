use topic_tally::batch::{process, process_post};
use topic_tally::counters::TopicCounters;
use topic_tally::post::Post;
use topic_tally::stance::{CommunitySet, Stance};
use topic_tally::topic::TopicDefinition;

const STANCES: [Stance; 3] = [Stance::Supporting, Stance::Opposing, Stance::Neutral];

fn words(items: &[&str]) -> Vec<String> {
    items.iter().map(|item| item.to_string()).collect()
}

fn post(community: &str, timestamp: i64, text: &str) -> Post {
    Post { origin_community: community.to_string(), timestamp, text: text.to_string() }
}

fn copies(posts: &[Post]) -> Vec<Post> {
    posts.iter().map(|p| post(&p.origin_community, p.timestamp, &p.text)).collect()
}

fn sides() -> (CommunitySet, CommunitySet) {
    (CommunitySet::new(&words(&["israel"])), CommunitySet::new(&words(&["gaza"])))
}

fn zeroed(topics: &Vec<TopicDefinition>) -> Vec<TopicCounters> {
    topics.iter().map(|topic| TopicCounters::new(topic.name())).collect()
}

fn cells(counters: &TopicCounters) -> Vec<(Stance, String, usize)> {
    let mut found = Vec::new();
    for stance in STANCES {
        let per_date = counters.references_per_date(stance);
        for date in per_date.dates() {
            found.push((stance, date.clone(), per_date.get(date)));
        }
    }
    found
}

type Snapshot = Vec<(String, usize, Vec<(Stance, String, usize)>)>;

fn snapshot(aggregators: &Vec<TopicCounters>) -> Snapshot {
    aggregators
        .iter()
        .map(|one| (one.name().to_string(), one.total_references(), cells(one)))
        .collect()
}

fn scenario_posts() -> Vec<Post> {
    vec![
        post("Israel", 1699000000, "a bomb exploded"),
        post("Gaza", 1699000000, "no mention here"),
        post("other", 1699000000, "another bomb today"),
    ]
}

#[test]
fn end_to_end_scenario_through_process() {
    let topics = vec![TopicDefinition::new("attacks", &words(&["bomb"]))];
    let (supporting, opposing) = sides();
    let mut aggregators = zeroed(&topics);
    process(&scenario_posts(), &topics, &supporting, &opposing, &mut aggregators);
    assert_eq!(aggregators.len(), 1);
    let attacks = &aggregators[0];
    assert_eq!(attacks.name(), "attacks");
    assert_eq!(attacks.total_references(), 2);
    assert_eq!(attacks.references_per_date(Stance::Supporting).get("2023-11-03"), 1);
    assert_eq!(attacks.references_per_date(Stance::Supporting).len(), 1);
    assert_eq!(attacks.references_per_date(Stance::Neutral).get("2023-11-03"), 1);
    assert_eq!(attacks.references_per_date(Stance::Neutral).len(), 1);
    assert!(attacks.references_per_date(Stance::Opposing).is_empty());
}

#[test]
fn a_post_with_several_matching_keywords_counts_once() {
    let topics = vec![TopicDefinition::new("conflict", &words(&["attack", "war"]))];
    let (supporting, opposing) = sides();
    let mut aggregators = zeroed(&topics);
    let posts = vec![post("other", 1699000000, "this is an attack during the war")];
    process(&posts, &topics, &supporting, &opposing, &mut aggregators);
    assert_eq!(aggregators[0].total_references(), 1);
    assert_eq!(aggregators[0].references_per_date(Stance::Neutral).get("2023-11-03"), 1);
    assert_eq!(cells(&aggregators[0]), vec![(Stance::Neutral, "2023-11-03".to_string(), 1)]);
}

#[test]
fn a_post_may_reference_several_topics() {
    let topics = vec![
        TopicDefinition::new("attacks", &words(&["bomb"])),
        TopicDefinition::new("aid", &words(&["humanitarian aid"])),
        TopicDefinition::new("hospitals", &words(&["hospital"])),
    ];
    let (supporting, opposing) = sides();
    let mut aggregators = zeroed(&topics);
    let posts = vec![post("gaza", 1696636800, "a bomb hit the hospital")];
    process(&posts, &topics, &supporting, &opposing, &mut aggregators);
    assert_eq!(
        snapshot(&aggregators),
        vec![
            ("attacks".to_string(), 1, vec![(Stance::Opposing, "2023-10-07".to_string(), 1)]),
            ("aid".to_string(), 0, vec![]),
            ("hospitals".to_string(), 1, vec![(Stance::Opposing, "2023-10-07".to_string(), 1)]),
        ]
    );
}

#[test]
fn a_post_that_references_no_topic_is_not_counted() {
    let topics = vec![TopicDefinition::new("attacks", &words(&["bomb"]))];
    let (supporting, opposing) = sides();
    let mut aggregators = zeroed(&topics);
    let posts = vec![post("israel", 1699000000, "nothing to see"), post("gaza", 0, "")];
    process(&posts, &topics, &supporting, &opposing, &mut aggregators);
    assert_eq!(snapshot(&aggregators), vec![("attacks".to_string(), 0, vec![])]);
}

#[test]
fn community_and_text_are_compared_in_lowercase() {
    let topics = vec![TopicDefinition::new("attacks", &words(&["Bomb"]))];
    let (supporting, opposing) = sides();
    let mut aggregators = zeroed(&topics);
    let posts = vec![
        post("ISRAEL", 1699000000, "A BOMB EXPLODED"),
        post("GaZa", 1699000000, "the BoMb"),
    ];
    process(&posts, &topics, &supporting, &opposing, &mut aggregators);
    assert_eq!(
        cells(&aggregators[0]),
        vec![
            (Stance::Supporting, "2023-11-03".to_string(), 1),
            (Stance::Opposing, "2023-11-03".to_string(), 1),
        ]
    );
}

#[test]
fn a_topic_without_keywords_is_never_referenced() {
    let topics = vec![TopicDefinition::new("silent", &words(&[]))];
    let (supporting, opposing) = sides();
    let mut aggregators = zeroed(&topics);
    process(&scenario_posts(), &topics, &supporting, &opposing, &mut aggregators);
    assert_eq!(snapshot(&aggregators), vec![("silent".to_string(), 0, vec![])]);
}

#[test]
fn an_empty_batch_changes_nothing() {
    let topics = vec![TopicDefinition::new("attacks", &words(&["bomb"]))];
    let (supporting, opposing) = sides();
    let mut aggregators = zeroed(&topics);
    process(&scenario_posts(), &topics, &supporting, &opposing, &mut aggregators);
    let before = snapshot(&aggregators);
    process(&Vec::new(), &topics, &supporting, &opposing, &mut aggregators);
    assert_eq!(snapshot(&aggregators), before);
}

#[test]
fn posts_are_counted_under_their_own_dates() {
    let topics = vec![TopicDefinition::new("attacks", &words(&["bomb"]))];
    let (supporting, opposing) = sides();
    let mut aggregators = zeroed(&topics);
    let posts = vec![
        post("israel", 1696636800, "bomb"),
        post("israel", 1696723199, "bomb"),
        post("israel", 1696723200, "bomb"),
        post("israel", 1699000000, "bomb"),
    ];
    process(&posts, &topics, &supporting, &opposing, &mut aggregators);
    assert_eq!(
        cells(&aggregators[0]),
        vec![
            (Stance::Supporting, "2023-10-07".to_string(), 2),
            (Stance::Supporting, "2023-10-08".to_string(), 1),
            (Stance::Supporting, "2023-11-03".to_string(), 1),
        ]
    );
    assert_eq!(aggregators[0].total_references(), 4);
}

#[test]
fn a_timestamp_outside_the_calendar_is_counted_under_the_epoch_date() {
    let topics = vec![TopicDefinition::new("attacks", &words(&["bomb"]))];
    let (supporting, opposing) = sides();
    let mut aggregators = zeroed(&topics);
    let huge: f64 = 1e300;
    let posts = vec![post("other", huge as i64, "a bomb"), post("other", i64::MIN, "a bomb")];
    process(&posts, &topics, &supporting, &opposing, &mut aggregators);
    assert_eq!(aggregators[0].total_references(), 2);
    assert_eq!(cells(&aggregators[0]), vec![(Stance::Neutral, "1970-01-01".to_string(), 2)]);
}

#[test]
fn splitting_a_batch_gives_the_same_counts() {
    let topics = vec![
        TopicDefinition::new("attacks", &words(&["bomb", "attack"])),
        TopicDefinition::new("aid", &words(&["aid"])),
    ];
    let (supporting, opposing) = sides();
    let all = vec![
        post("Israel", 1699000000, "a bomb exploded"),
        post("Gaza", 1699000000, "aid arrived after the attack"),
        post("other", 1696636800, "another bomb today"),
        post("gaza", 1696636800, "no aid"),
        post("israel", 1699100000, "nothing"),
        post("x", 1699100000, "bomb and aid"),
    ];
    let mut whole = zeroed(&topics);
    process(&all, &topics, &supporting, &opposing, &mut whole);
    for cut in 0..=all.len() {
        let first = copies(&all[..cut]);
        let second = copies(&all[cut..]);
        let mut parts = zeroed(&topics);
        process(&first, &topics, &supporting, &opposing, &mut parts);
        process(&second, &topics, &supporting, &opposing, &mut parts);
        assert_eq!(snapshot(&parts), snapshot(&whole));
    }
    assert_eq!(whole[0].total_references(), 4);
    assert_eq!(whole[1].total_references(), 3);
}

#[test]
fn merging_the_counts_of_two_workers_gives_the_same_counts() {
    let topics = vec![
        TopicDefinition::new("attacks", &words(&["bomb", "attack"])),
        TopicDefinition::new("aid", &words(&["aid"])),
    ];
    let (supporting, opposing) = sides();
    let first = vec![
        post("Israel", 1699000000, "a bomb exploded"),
        post("Gaza", 1699000000, "aid arrived after the attack"),
    ];
    let second = vec![
        post("other", 1696636800, "another bomb today"),
        post("gaza", 1699000000, "no aid"),
        post("israel", 1699000000, "bomb"),
    ];
    let mut all = copies(&first);
    all.extend(copies(&second));
    let mut whole = zeroed(&topics);
    process(&all, &topics, &supporting, &opposing, &mut whole);

    let mut one = zeroed(&topics);
    process(&first, &topics, &supporting, &opposing, &mut one);
    let mut other = zeroed(&topics);
    process(&second, &topics, &supporting, &opposing, &mut other);

    let mut merged_forward = zeroed(&topics);
    let mut merged_backward = zeroed(&topics);
    for i in 0..topics.len() {
        merged_forward[i].merge(&one[i]);
        merged_forward[i].merge(&other[i]);
        merged_backward[i].merge(&other[i]);
        merged_backward[i].merge(&one[i]);
    }
    assert_eq!(snapshot(&merged_forward), snapshot(&whole));
    assert_eq!(snapshot(&merged_backward), snapshot(&whole));
}

#[test]
fn process_post_counts_one_post() {
    let topics = vec![
        TopicDefinition::new("attacks", &words(&["bomb"])),
        TopicDefinition::new("aid", &words(&["aid"])),
    ];
    let (supporting, opposing) = sides();
    let mut aggregators = zeroed(&topics);
    let loud = post("Gaza", 1699000000, "Aid, not a BOMB");
    process_post(&loud, &topics, &supporting, &opposing, &mut aggregators);
    assert_eq!(
        snapshot(&aggregators),
        vec![
            ("attacks".to_string(), 1, vec![(Stance::Opposing, "2023-11-03".to_string(), 1)]),
            ("aid".to_string(), 1, vec![(Stance::Opposing, "2023-11-03".to_string(), 1)]),
        ]
    );
    let quiet = post("nowhere", 1699000000, "quiet");
    process_post(&quiet, &topics, &supporting, &opposing, &mut aggregators);
    assert_eq!(aggregators[0].total_references(), 1);
    assert_eq!(aggregators[1].total_references(), 1);
}

#[test]
fn the_total_equals_the_sum_of_all_counts_after_a_batch() {
    let topics = vec![
        TopicDefinition::new("attacks", &words(&["bomb", "attack"])),
        TopicDefinition::new("aid", &words(&["aid"])),
    ];
    let (supporting, opposing) = sides();
    let mut aggregators = zeroed(&topics);
    let posts = vec![
        post("Israel", 1699000000, "a bomb exploded"),
        post("Gaza", 1699000000, "aid arrived after the attack"),
        post("other", 1696636800, "another bomb today"),
        post("gaza", 1696636800, "no aid"),
    ];
    process(&posts, &topics, &supporting, &opposing, &mut aggregators);
    for one in &aggregators {
        let sum: usize = cells(one).iter().map(|cell| cell.2).sum();
        assert_eq!(sum, one.total_references());
    }
}
