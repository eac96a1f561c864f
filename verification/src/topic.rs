//! Topic definitions supplied by the caller.

use vstd::prelude::*;
use crate::text::{lowered, texts};

verus! {

/// What a topic definition holds: its name and its keywords in lowercase.
pub struct TopicView {
    pub name: Seq<char>,
    pub keywords: Seq<Seq<char>>,
}

/// What a list of topic definitions holds, in order.
pub open spec fn topic_views(topics: Seq<TopicDefinition>) -> Seq<TopicView> {
    topics.map_values(|topic: TopicDefinition| topic@)
}

/// A named topic with the keywords that signal a reference to it. The
/// keywords are held in lowercase.
#[derive(Debug)]
pub struct TopicDefinition {
    name: String,
    keywords: Vec<String>,
}

impl View for TopicDefinition {
    type V = TopicView;

    closed spec fn view(&self) -> TopicView {
        TopicView { name: self.name@, keywords: texts(self.keywords@) }
    }
}

impl TopicDefinition {
    /// A topic called `name` with the lowercase forms of `keywords`, in the
    /// order given. An empty list is allowed: such a topic is never
    /// referenced.
    pub fn new(name: &str, keywords: &Vec<String>) -> (topic: Self)
        ensures
            topic@.name == name@,
            topic@.keywords == lowered(texts(keywords@)),
    {
        let mut folded: Vec<String> = Vec::new();
        let mut k: usize = 0;
        while k < keywords.len()
            invariant
                k <= keywords.len(),
                texts(folded@) == lowered(texts(keywords@)).take(k as int),
            decreases keywords.len() - k,
        {
            folded.push(keywords[k].as_str().to_lowercase());
            proof {
                lowered(texts(keywords@)).lemma_take_succ_push(k as int);
            }
            k += 1;
        }
        TopicDefinition { name: name.to_owned(), keywords: folded }
    }

    /// The topic's name.
    pub fn name(&self) -> (name: &str)
        ensures
            name@ == self@.name,
    {
        self.name.as_str()
    }

    /// The topic's keywords, in lowercase.
    pub fn keywords(&self) -> (keywords: &Vec<String>)
        ensures
            texts(keywords@) == self@.keywords,
    {
        &self.keywords
    }
}

} // verus!
