//! A whole run over a list of batches.

use vstd::prelude::*;
use crate::batch::tally_after;
use crate::engine::{batch_view, outcome_view, Batch, BatchView, Engine, EngineView};
use crate::error::{RunError, RunErrorView};
use crate::laws::{
    lemma_counting_keeps_balance, lemma_feeding_is_running, lemma_total_counts_references,
};
use crate::post::PostView;
use crate::result::RunResult;
use crate::stance::CommunitySet;
use crate::tally::Tally;
use crate::topic::{topic_views, TopicDefinition, TopicView};

verus! {

/// What a list of batches holds, in order.
pub open spec fn batch_views(batches: Seq<Batch>) -> Seq<BatchView> {
    batches.map_values(|batch: Batch| batch_view(batch))
}

/// The posts of all batches that were read and decoded, in order.
pub open spec fn posts_of(batches: Seq<BatchView>) -> Seq<PostView>
    decreases batches.len(),
{
    if batches.len() == 0 {
        Seq::empty()
    } else {
        posts_of(batches.drop_last()) + match batches.last() {
            Ok(posts) => posts,
            Err(_) => Seq::empty(),
        }
    }
}

/// The error of the first failed batch, if any batch failed.
pub open spec fn first_failure(batches: Seq<BatchView>) -> Option<RunErrorView>
    decreases batches.len(),
{
    if batches.len() == 0 {
        None
    } else {
        match first_failure(batches.drop_last()) {
            Some(error) => Some(error),
            None => match batches.last() {
                Ok(_) => None,
                Err(error) => Some(error),
            },
        }
    }
}

/// The counters of every topic, in the order of the topics, after counting
/// `posts` from zero.
pub open spec fn tallies_of(
    topics: Seq<TopicView>,
    posts: Seq<PostView>,
    supporting: Set<Seq<char>>,
    opposing: Set<Seq<char>>,
) -> Seq<Tally> {
    Seq::new(
        topics.len(),
        |i: int|
            tally_after(
                Tally::fresh(topics[i].name),
                topics[i].keywords,
                posts,
                supporting,
                opposing,
            ),
    )
}

/// What a run yields: the error of the first failed batch and nothing else,
/// or, where no batch failed, the counters after all posts of all batches.
pub open spec fn run_outcome(
    batches: Seq<BatchView>,
    topics: Seq<TopicView>,
    supporting: Set<Seq<char>>,
    opposing: Set<Seq<char>>,
) -> Result<Seq<Tally>, RunErrorView> {
    match first_failure(batches) {
        Some(error) => Err(error),
        None => Ok(tallies_of(topics, posts_of(batches), supporting, opposing)),
    }
}

/// The posts of two lists of batches, one after the other, are the posts of
/// the first list followed by those of the second.
pub proof fn lemma_posts_of_concat(first: Seq<BatchView>, second: Seq<BatchView>)
    ensures
        posts_of(first + second) == posts_of(first) + posts_of(second),
    decreases second.len(),
{
    if second.len() > 0 {
        lemma_posts_of_concat(first, second.drop_last());
        assert((first + second).drop_last() =~= first + second.drop_last());
    }
}

/// The first failure of two lists of batches, one after the other, is the
/// first failure of the first list, or else that of the second.
pub proof fn lemma_first_failure_concat(first: Seq<BatchView>, second: Seq<BatchView>)
    ensures
        first_failure(first + second) == match first_failure(first) {
            Some(error) => Some(error),
            None => first_failure(second),
        },
    decreases second.len(),
{
    if second.len() > 0 {
        lemma_first_failure_concat(first, second.drop_last());
        assert((first + second).drop_last() =~= first + second.drop_last());
    }
}

/// The number of posts in all batches that were read and decoded, or `None`
/// where that number does not fit in `usize`.
pub fn total_posts(batches: &Vec<Batch>) -> (total: Option<usize>)
    ensures
        match total {
            Some(count) => count == posts_of(batch_views(batches@)).len(),
            None => posts_of(batch_views(batches@)).len() > usize::MAX,
        },
{
    let ghost all = batch_views(batches@);
    let mut count: usize = 0;
    let mut j: usize = 0;
    while j < batches.len()
        invariant
            j <= batches.len(),
            all == batch_views(batches@),
            count == posts_of(all.take(j as int)).len(),
        decreases batches.len() - j,
    {
        proof {
            assert(all.take(j + 1).drop_last() =~= all.take(j as int));
        }
        match &batches[j] {
            Ok(posts) => {
                if posts.len() > usize::MAX - count {
                    proof {
                        lemma_posts_of_concat(all.take(j + 1), all.skip(j + 1));
                        assert(all.take(j + 1) + all.skip(j + 1) =~= all);
                    }
                    return None;
                }
                count = count + posts.len();
            },
            Err(_) => {},
        }
        j += 1;
    }
    proof {
        assert(all.take(batches.len() as int) =~= all);
    }
    Some(count)
}

/// Runs the engine over the batches, in order. The first failed batch ends
/// the run with its error and no counts; otherwise the result holds, for
/// each topic in the order given, the counters after every post of every
/// batch.
pub fn run(
    batches: &Vec<Batch>,
    topics: Vec<TopicDefinition>,
    supporting: CommunitySet,
    opposing: CommunitySet,
) -> (outcome: Result<RunResult, RunError>)
    requires
        posts_of(batch_views(batches@)).len() <= usize::MAX,
    ensures
        outcome_view(outcome) == run_outcome(
            batch_views(batches@),
            topic_views(topics@),
            supporting@,
            opposing@,
        ),
        outcome matches Ok(result) ==> {
            &&& result.wf()
            &&& result@.len() == topics.len()
            &&& forall|i: int|
                0 <= i < topics.len() ==> {
                    &&& (#[trigger] result@[i]).name == topics[i]@.name
                    &&& result@[i].balanced()
                }
        },
{
    let ghost all = batch_views(batches@);
    let ghost catalog = topic_views(topics@);
    let ghost pro = supporting@;
    let ghost contra = opposing@;
    let mut engine = Engine::new(topics, supporting, opposing);
    let mut j: usize = 0;
    while j < batches.len() && !engine.has_failed()
        invariant
            j <= batches.len(),
            all == batch_views(batches@),
            posts_of(all).len() <= usize::MAX,
            engine.wf(),
            engine@ == EngineView::started(catalog, pro, contra).fed_all(all.take(j as int)),
        decreases batches.len() - j,
    {
        proof {
            lemma_feeding_is_running(all.take(j as int), catalog, pro, contra);
            lemma_posts_of_concat(all.take(j + 1), all.skip(j + 1));
            assert(all.take(j + 1) + all.skip(j + 1) =~= all);
            assert(all.take(j + 1).drop_last() =~= all.take(j as int));
        }
        engine.feed(&batches[j]);
        j += 1;
    }
    proof {
        let fed = all.take(j as int);
        lemma_feeding_is_running(fed, catalog, pro, contra);
        lemma_first_failure_concat(fed, all.skip(j as int));
        assert(fed + all.skip(j as int) =~= all);
        if engine@.failure is None {
            assert forall|i: int| 0 <= i < catalog.len() implies {
                &&& (#[trigger] engine@.tallies[i]).name == catalog[i].name
                &&& engine@.tallies[i].balanced()
            } by {
                let zero = Tally::fresh(catalog[i].name);
                lemma_total_counts_references(
                    zero,
                    catalog[i].keywords,
                    posts_of(all),
                    pro,
                    contra,
                );
                lemma_counting_keeps_balance(zero, catalog[i].keywords, posts_of(all), pro, contra);
            }
        }
    }
    engine.finish()
}

} // verus!
