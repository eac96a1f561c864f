//! Processing of batches of posts into the counters of every topic.

use vstd::prelude::*;
use crate::counters::TopicCounters;
use crate::date::{normalize, normalized_date};
use crate::matcher::mentions;
use crate::post::{post_views, Post, PostView};
use crate::stance::{classify, stance_of, CommunitySet, Stance};
use crate::tally::Tally;
use crate::text::lowercase_of;
use crate::topic::TopicDefinition;

verus! {

/// The stance of the community a post came from; the community identifier is
/// compared in lowercase.
pub open spec fn stance_of_post(
    post: PostView,
    supporting: Set<Seq<char>>,
    opposing: Set<Seq<char>>,
) -> Stance {
    stance_of(lowercase_of(post.origin_community), supporting, opposing)
}

/// The calendar day under which a post is counted.
pub open spec fn date_of_post(post: PostView) -> Seq<char> {
    normalized_date(post.timestamp)
}

/// The post's text, in lowercase, contains one of the keywords.
pub open spec fn references(keywords: Seq<Seq<char>>, post: PostView) -> bool {
    mentions(keywords, lowercase_of(post.text))
}

/// A topic's counters after one post: one reference recorded where the post
/// references the topic, nothing changed where it does not.
pub open spec fn tally_after_post(
    tally: Tally,
    keywords: Seq<Seq<char>>,
    post: PostView,
    supporting: Set<Seq<char>>,
    opposing: Set<Seq<char>>,
) -> Tally {
    if references(keywords, post) {
        tally.record(date_of_post(post), stance_of_post(post, supporting, opposing))
    } else {
        tally
    }
}

/// A topic's counters after a sequence of posts, taken in order.
pub open spec fn tally_after(
    tally: Tally,
    keywords: Seq<Seq<char>>,
    posts: Seq<PostView>,
    supporting: Set<Seq<char>>,
    opposing: Set<Seq<char>>,
) -> Tally
    decreases posts.len(),
{
    if posts.len() == 0 {
        tally
    } else {
        tally_after_post(
            tally_after(tally, keywords, posts.drop_last(), supporting, opposing),
            keywords,
            posts.last(),
            supporting,
            opposing,
        )
    }
}

/// Every one of the counters is well formed and its total can grow by
/// `room` without leaving the range of `usize`.
pub open spec fn have_room(aggregators: Seq<TopicCounters>, room: nat) -> bool {
    forall|i: int|
        0 <= i < aggregators.len() ==> (#[trigger] aggregators[i]).wf() && aggregators[i]@.total
            + room <= usize::MAX
}

/// Counts one post: its community and text are lowercased once, its stance
/// and date are computed once, and every topic that the text references gets
/// one reference recorded under that date and stance.
pub fn process_post(
    post: &Post,
    topics: &Vec<TopicDefinition>,
    supporting: &CommunitySet,
    opposing: &CommunitySet,
    aggregators: &mut Vec<TopicCounters>,
)
    requires
        old(aggregators).len() == topics.len(),
        have_room(old(aggregators)@, 1),
    ensures
        final(aggregators).len() == topics.len(),
        forall|i: int|
            0 <= i < topics.len() ==> {
                &&& (#[trigger] final(aggregators)[i]).wf()
                &&& final(aggregators)[i]@ == tally_after_post(
                    old(aggregators)[i]@,
                    topics[i]@.keywords,
                    post@,
                    supporting@,
                    opposing@,
                )
            },
{
    let community = post.origin_community.as_str().to_lowercase();
    let stance = classify(community.as_str(), supporting, opposing);
    let date = normalize(post.timestamp);
    let text = post.text.as_str().to_lowercase();
    let mut i: usize = 0;
    while i < topics.len()
        invariant
            i <= topics.len(),
            aggregators.len() == topics.len(),
            old(aggregators).len() == topics.len(),
            text@ == lowercase_of(post@.text),
            date@ == date_of_post(post@),
            stance == stance_of_post(post@, supporting@, opposing@),
            have_room(old(aggregators)@, 1),
            forall|j: int|
                0 <= j < i ==> {
                    &&& (#[trigger] aggregators[j]).wf()
                    &&& aggregators[j]@ == tally_after_post(
                        old(aggregators)[j]@,
                        topics[j]@.keywords,
                        post@,
                        supporting@,
                        opposing@,
                    )
                },
            forall|j: int|
                i <= j < topics.len() ==> (#[trigger] aggregators[j]) == old(aggregators)[j],
        decreases topics.len() - i,
    {
        if crate::matcher::matches(text.as_str(), topics[i].keywords()) {
            aggregators[i].record(date.as_str(), stance);
        }
        i += 1;
    }
}

/// Counts a batch of posts, in order, into the counters of every topic:
/// `aggregators[i]` belongs to `topics[i]`. No post is skipped.
pub fn process(
    posts: &Vec<Post>,
    topics: &Vec<TopicDefinition>,
    supporting: &CommunitySet,
    opposing: &CommunitySet,
    aggregators: &mut Vec<TopicCounters>,
)
    requires
        old(aggregators).len() == topics.len(),
        have_room(old(aggregators)@, posts.len() as nat),
    ensures
        final(aggregators).len() == topics.len(),
        forall|i: int|
            0 <= i < topics.len() ==> {
                &&& (#[trigger] final(aggregators)[i]).wf()
                &&& final(aggregators)[i]@ == tally_after(
                    old(aggregators)[i]@,
                    topics[i]@.keywords,
                    post_views(posts@),
                    supporting@,
                    opposing@,
                )
            },
{
    let ghost all = post_views(posts@);
    let mut p: usize = 0;
    while p < posts.len()
        invariant
            p <= posts.len(),
            all == post_views(posts@),
            aggregators.len() == topics.len(),
            old(aggregators).len() == topics.len(),
            have_room(old(aggregators)@, posts.len() as nat),
            forall|i: int|
                0 <= i < topics.len() ==> {
                    &&& (#[trigger] aggregators[i]).wf()
                    &&& aggregators[i]@.total <= old(aggregators)[i]@.total + p
                    &&& aggregators[i]@ == tally_after(
                        old(aggregators)[i]@,
                        topics[i]@.keywords,
                        all.take(p as int),
                        supporting@,
                        opposing@,
                    )
                },
        decreases posts.len() - p,
    {
        process_post(&posts[p], topics, supporting, opposing, aggregators);
        proof {
            assert(all.take(p + 1).drop_last() =~= all.take(p as int));
        }
        p += 1;
    }
    proof {
        assert(all.take(posts.len() as int) =~= all);
    }
}

} // verus!
