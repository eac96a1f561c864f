//! Laws that hold of the counting rules, whatever the posts and topics.

use vstd::prelude::*;
use crate::batch::{date_of_post, references, stance_of_post, tally_after};
use crate::engine::{outcome_view, Batch, BatchView, EngineView};
use crate::error::RunError;
use crate::matcher::mentions;
use crate::post::PostView;
use crate::result::RunResult;
use crate::run::{
    batch_views, first_failure, lemma_first_failure_concat, lemma_posts_of_concat, posts_of,
    run_outcome, tallies_of,
};
use crate::stance::{stance_of, CommunitySet, Stance};
use crate::tally::{lemma_record_balanced, Tally};
use crate::topic::{topic_views, TopicDefinition, TopicView};

verus! {

/// A community found on the supporting side is classified as supporting,
/// whatever the opposing side holds.
pub proof fn lemma_supporting_takes_precedence(
    community: Seq<char>,
    supporting: Set<Seq<char>>,
    opposing: Set<Seq<char>>,
)
    requires
        supporting.contains(community),
    ensures
        stance_of(community, supporting, opposing) == Stance::Supporting,
{
}

/// Counting a batch in two parts, one after the other, gives the same
/// counters as counting the whole batch at once.
pub proof fn lemma_partition_invariance(
    tally: Tally,
    keywords: Seq<Seq<char>>,
    first: Seq<PostView>,
    second: Seq<PostView>,
    supporting: Set<Seq<char>>,
    opposing: Set<Seq<char>>,
)
    ensures
        tally_after(
            tally_after(tally, keywords, first, supporting, opposing),
            keywords,
            second,
            supporting,
            opposing,
        ) == tally_after(tally, keywords, first + second, supporting, opposing),
    decreases second.len(),
{
    if second.len() > 0 {
        lemma_partition_invariance(
            tally,
            keywords,
            first,
            second.drop_last(),
            supporting,
            opposing,
        );
        assert((first + second).drop_last() =~= first + second.drop_last());
    }
}

/// Feeding batches to an engine one at a time, from its start, ends where a
/// run over the whole list ends: with the first failure, or with the counters
/// after all posts of all batches.
pub proof fn lemma_feeding_is_running(
    batches: Seq<BatchView>,
    topics: Seq<TopicView>,
    supporting: Set<Seq<char>>,
    opposing: Set<Seq<char>>,
)
    ensures
        ({
            let end = EngineView::started(topics, supporting, opposing).fed_all(batches);
            &&& end.outcome() == run_outcome(batches, topics, supporting, opposing)
            &&& end.topics == topics
            &&& end.supporting == supporting
            &&& end.opposing == opposing
            &&& end.failure == first_failure(batches)
            &&& end.failure is None ==> end.posts_seen == posts_of(batches).len()
        }),
    decreases batches.len(),
{
    let start = EngineView::started(topics, supporting, opposing);
    if batches.len() == 0 {
        assert(start.tallies =~= tallies_of(topics, posts_of(batches), supporting, opposing));
    } else {
        lemma_feeding_is_running(batches.drop_last(), topics, supporting, opposing);
        let before = start.fed_all(batches.drop_last());
        let end = before.fed(batches.last());
        if before.failure is None {
            if let Ok(posts) = batches.last() {
                let counted = posts_of(batches.drop_last());
                assert forall|i: int| 0 <= i < topics.len() implies end.tallies[i] == tallies_of(
                    topics,
                    counted + posts,
                    supporting,
                    opposing,
                )[i] by {
                    lemma_partition_invariance(
                        Tally::fresh(topics[i].name),
                        topics[i].keywords,
                        counted,
                        posts,
                        supporting,
                        opposing,
                    );
                }
                assert(end.tallies =~= tallies_of(topics, counted + posts, supporting, opposing));
            }
        }
    }
}

/// A run yields the same whether a batch comes in as one batch or split in
/// two batches that follow each other in its place.
pub proof fn lemma_split_batch(
    before: Seq<BatchView>,
    first: Seq<PostView>,
    second: Seq<PostView>,
    after: Seq<BatchView>,
    topics: Seq<TopicView>,
    supporting: Set<Seq<char>>,
    opposing: Set<Seq<char>>,
)
    ensures
        run_outcome(
            before + seq![Ok(first), Ok(second)] + after,
            topics,
            supporting,
            opposing,
        ) == run_outcome(before + seq![Ok(first + second)] + after, topics, supporting, opposing),
{
    let split: Seq<BatchView> = seq![Ok(first), Ok(second)];
    let whole: Seq<BatchView> = seq![Ok(first + second)];
    assert(posts_of(split) =~= first + second && first_failure(split) is None) by {
        reveal_with_fuel(posts_of, 3);
        reveal_with_fuel(first_failure, 3);
    }
    assert(posts_of(whole) =~= first + second && first_failure(whole) is None) by {
        reveal_with_fuel(posts_of, 2);
        reveal_with_fuel(first_failure, 2);
    }
    lemma_posts_of_concat(before, split);
    lemma_posts_of_concat(before + split, after);
    lemma_posts_of_concat(before, whole);
    lemma_posts_of_concat(before + whole, after);
    lemma_first_failure_concat(before, split);
    lemma_first_failure_concat(before + split, after);
    lemma_first_failure_concat(before, whole);
    lemma_first_failure_concat(before + whole, after);
}

/// Two workers that count the two parts of a batch from zero, each into
/// counters of its own, and then merge them, arrive at the counters of one
/// worker that counts the whole batch.
pub proof fn lemma_merge_of_partitions(
    name: Seq<char>,
    keywords: Seq<Seq<char>>,
    first: Seq<PostView>,
    second: Seq<PostView>,
    supporting: Set<Seq<char>>,
    opposing: Set<Seq<char>>,
)
    ensures
        tally_after(Tally::fresh(name), keywords, first, supporting, opposing).merged(
            tally_after(Tally::fresh(name), keywords, second, supporting, opposing),
        ) == tally_after(Tally::fresh(name), keywords, first + second, supporting, opposing),
{
    let counted = tally_after(Tally::fresh(name), keywords, first, supporting, opposing);
    lemma_merge_is_counting(counted, name, keywords, second, supporting, opposing);
    lemma_partition_invariance(
        Tally::fresh(name),
        keywords,
        first,
        second,
        supporting,
        opposing,
    );
}

/// Merging in what a worker counted from zero is the same as counting the
/// worker's posts directly.
pub proof fn lemma_merge_is_counting(
    tally: Tally,
    name: Seq<char>,
    keywords: Seq<Seq<char>>,
    posts: Seq<PostView>,
    supporting: Set<Seq<char>>,
    opposing: Set<Seq<char>>,
)
    ensures
        tally.merged(tally_after(Tally::fresh(name), keywords, posts, supporting, opposing))
            == tally_after(tally, keywords, posts, supporting, opposing),
    decreases posts.len(),
{
    let worker = tally_after(Tally::fresh(name), keywords, posts, supporting, opposing);
    let direct = tally_after(tally, keywords, posts, supporting, opposing);
    if posts.len() > 0 {
        lemma_merge_is_counting(tally, name, keywords, posts.drop_last(), supporting, opposing);
    }
    assert(tally.merged(worker).supporting =~= direct.supporting);
    assert(tally.merged(worker).opposing =~= direct.opposing);
    assert(tally.merged(worker).neutral =~= direct.neutral);
}

/// Merging the counters of one topic gives the same whichever of the two is
/// merged into the other.
pub proof fn lemma_merge_commutes(left: Tally, right: Tally)
    requires
        left.name == right.name,
    ensures
        left.merged(right) == right.merged(left),
{
    assert(left.merged(right).supporting =~= right.merged(left).supporting);
    assert(left.merged(right).opposing =~= right.merged(left).opposing);
    assert(left.merged(right).neutral =~= right.merged(left).neutral);
}

/// Merging three counters gives the same however the merges are grouped.
pub proof fn lemma_merge_associates(first: Tally, second: Tally, third: Tally)
    ensures
        first.merged(second).merged(third) == first.merged(second.merged(third)),
{
    let grouped_left = first.merged(second).merged(third);
    let grouped_right = first.merged(second.merged(third));
    assert(grouped_left.supporting =~= grouped_right.supporting);
    assert(grouped_left.opposing =~= grouped_right.opposing);
    assert(grouped_left.neutral =~= grouped_right.neutral);
}

/// Counting posts keeps the total equal to the sum of all per-day counts of
/// the three stances.
pub proof fn lemma_counting_keeps_balance(
    tally: Tally,
    keywords: Seq<Seq<char>>,
    posts: Seq<PostView>,
    supporting: Set<Seq<char>>,
    opposing: Set<Seq<char>>,
)
    requires
        tally.balanced(),
    ensures
        tally_after(tally, keywords, posts, supporting, opposing).balanced(),
    decreases posts.len(),
{
    if posts.len() > 0 {
        lemma_counting_keeps_balance(tally, keywords, posts.drop_last(), supporting, opposing);
        let before = tally_after(tally, keywords, posts.drop_last(), supporting, opposing);
        let post = posts.last();
        lemma_record_balanced(
            before,
            date_of_post(post),
            stance_of_post(post, supporting, opposing),
        );
    }
}

/// The number of posts that reference a topic with the given keywords.
pub open spec fn reference_count(keywords: Seq<Seq<char>>, posts: Seq<PostView>) -> nat
    decreases posts.len(),
{
    if posts.len() == 0 {
        0
    } else {
        let earlier = reference_count(keywords, posts.drop_last());
        if references(keywords, posts.last()) {
            earlier + 1
        } else {
            earlier
        }
    }
}

/// The post references a topic with the given keywords, is dated `day` and
/// comes from a community of the given stance.
pub open spec fn references_on(
    keywords: Seq<Seq<char>>,
    post: PostView,
    supporting: Set<Seq<char>>,
    opposing: Set<Seq<char>>,
    stance: Stance,
    day: Seq<char>,
) -> bool {
    &&& references(keywords, post)
    &&& stance_of_post(post, supporting, opposing) == stance
    &&& date_of_post(post) == day
}

/// The number of posts that reference a topic with the given keywords, are
/// dated `day` and come from a community of the given stance.
pub open spec fn reference_count_on(
    keywords: Seq<Seq<char>>,
    posts: Seq<PostView>,
    supporting: Set<Seq<char>>,
    opposing: Set<Seq<char>>,
    stance: Stance,
    day: Seq<char>,
) -> nat
    decreases posts.len(),
{
    if posts.len() == 0 {
        0
    } else {
        let earlier = reference_count_on(
            keywords,
            posts.drop_last(),
            supporting,
            opposing,
            stance,
            day,
        );
        if references_on(keywords, posts.last(), supporting, opposing, stance, day) {
            earlier + 1
        } else {
            earlier
        }
    }
}

/// Counting posts raises a topic's total by the number of posts that
/// reference the topic: a post counts once, however many of the keywords
/// occur in it. The name stays.
pub proof fn lemma_total_counts_references(
    tally: Tally,
    keywords: Seq<Seq<char>>,
    posts: Seq<PostView>,
    supporting: Set<Seq<char>>,
    opposing: Set<Seq<char>>,
)
    ensures
        tally_after(tally, keywords, posts, supporting, opposing).total == tally.total
            + reference_count(keywords, posts),
        tally_after(tally, keywords, posts, supporting, opposing).name == tally.name,
        reference_count(keywords, posts) <= posts.len(),
    decreases posts.len(),
{
    if posts.len() > 0 {
        lemma_total_counts_references(tally, keywords, posts.drop_last(), supporting, opposing);
    }
}

/// Counting posts raises the count of a day and stance by the number of
/// referencing posts of that day and stance, and a day has an entry exactly
/// where it had one before or such a post exists.
pub proof fn lemma_counts_are_reference_counts(
    tally: Tally,
    keywords: Seq<Seq<char>>,
    posts: Seq<PostView>,
    supporting: Set<Seq<char>>,
    opposing: Set<Seq<char>>,
    stance: Stance,
    day: Seq<char>,
)
    ensures
        tally_after(tally, keywords, posts, supporting, opposing).count(stance, day)
            == tally.count(stance, day) + reference_count_on(
            keywords,
            posts,
            supporting,
            opposing,
            stance,
            day,
        ),
        tally_after(tally, keywords, posts, supporting, opposing).counts(stance).contains_key(day)
            <==> tally.counts(stance).contains_key(day) || reference_count_on(
            keywords,
            posts,
            supporting,
            opposing,
            stance,
            day,
        ) > 0,
    decreases posts.len(),
{
    if posts.len() > 0 {
        lemma_counts_are_reference_counts(
            tally,
            keywords,
            posts.drop_last(),
            supporting,
            opposing,
            stance,
            day,
        );
    }
}

/// Whether a text mentions a keyword depends on which keywords there are, not
/// on their order or on repetitions.
pub proof fn lemma_mentions_any_order(
    first: Seq<Seq<char>>,
    second: Seq<Seq<char>>,
    text: Seq<char>,
)
    requires
        first.to_set() == second.to_set(),
    ensures
        mentions(first, text) == mentions(second, text),
{
    if mentions(first, text) {
        let k = choose|k: int| 0 <= k < first.len() && crate::text::occurs_in(first[k], text);
        assert(first.to_set().contains(first[k]));
    }
    if mentions(second, text) {
        let k = choose|k: int| 0 <= k < second.len() && crate::text::occurs_in(second[k], text);
        assert(second.to_set().contains(second[k]));
    }
}

/// The counters of a topic depend on which keywords the topic has, not on
/// the order in which they are listed or tried.
pub proof fn lemma_keyword_order_is_irrelevant(
    tally: Tally,
    first: Seq<Seq<char>>,
    second: Seq<Seq<char>>,
    posts: Seq<PostView>,
    supporting: Set<Seq<char>>,
    opposing: Set<Seq<char>>,
)
    requires
        first.to_set() == second.to_set(),
    ensures
        tally_after(tally, first, posts, supporting, opposing) == tally_after(
            tally,
            second,
            posts,
            supporting,
            opposing,
        ),
    decreases posts.len(),
{
    if posts.len() > 0 {
        lemma_keyword_order_is_irrelevant(
            tally,
            first,
            second,
            posts.drop_last(),
            supporting,
            opposing,
        );
        lemma_mentions_any_order(first, second, crate::text::lowercase_of(posts.last().text));
    }
}

/// Two runs over batches, topics and community sets that hold the same
/// values end the same way: with errors that hold the same texts, or with
/// results that hold the same counters in the same order.
pub proof fn lemma_run_is_deterministic(
    first_batches: Seq<Batch>,
    second_batches: Seq<Batch>,
    first_topics: Seq<TopicDefinition>,
    second_topics: Seq<TopicDefinition>,
    first_supporting: CommunitySet,
    second_supporting: CommunitySet,
    first_opposing: CommunitySet,
    second_opposing: CommunitySet,
    first_outcome: Result<RunResult, RunError>,
    second_outcome: Result<RunResult, RunError>,
)
    requires
        batch_views(first_batches) == batch_views(second_batches),
        topic_views(first_topics) == topic_views(second_topics),
        first_supporting@ == second_supporting@,
        first_opposing@ == second_opposing@,
        outcome_view(first_outcome) == run_outcome(
            batch_views(first_batches),
            topic_views(first_topics),
            first_supporting@,
            first_opposing@,
        ),
        outcome_view(second_outcome) == run_outcome(
            batch_views(second_batches),
            topic_views(second_topics),
            second_supporting@,
            second_opposing@,
        ),
    ensures
        outcome_view(first_outcome) == outcome_view(second_outcome),
{
}

} // verus!
