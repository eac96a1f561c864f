//! Stance of a post, inferred from the community it was posted in.

use vstd::prelude::*;
use vstd::hash_map::StringHashMap;
use crate::text::{lowered, texts};

verus! {

/// Alignment of a community with respect to the two configured sides.
#[derive(Clone, Copy, Debug, PartialEq, Eq, Hash, Structural)]
pub enum Stance {
    Supporting,
    Opposing,
    Neutral,
}

/// The stance of `community` given the two sides: membership in `supporting`
/// wins over membership in `opposing`.
pub open spec fn stance_of(
    community: Seq<char>,
    supporting: Set<Seq<char>>,
    opposing: Set<Seq<char>>,
) -> Stance {
    if supporting.contains(community) {
        Stance::Supporting
    } else if opposing.contains(community) {
        Stance::Opposing
    } else {
        Stance::Neutral
    }
}

/// A set of community identifiers, held in lowercase.
pub struct CommunitySet {
    members: StringHashMap<()>,
}

impl View for CommunitySet {
    type V = Set<Seq<char>>;

    closed spec fn view(&self) -> Set<Seq<char>> {
        self.members@.dom()
    }
}

impl CommunitySet {
    /// The set of the lowercase forms of `names`.
    pub fn new(names: &Vec<String>) -> (set: Self)
        ensures
            set@ == lowered(texts(names@)).to_set(),
    {
        let ghost folded = lowered(texts(names@));
        let mut members: StringHashMap<()> = StringHashMap::new();
        let mut i: usize = 0;
        while i < names.len()
            invariant
                i <= names.len(),
                folded == lowered(texts(names@)),
                members@.dom() == folded.take(i as int).to_set(),
            decreases names.len() - i,
        {
            members.insert(names[i].as_str().to_lowercase(), ());
            proof {
                folded.lemma_take_succ_push(i as int);
                folded.take(i as int).lemma_push_to_set_commute(folded[i as int]);
            }
            i += 1;
        }
        proof {
            assert(folded.take(names.len() as int) =~= folded);
        }
        CommunitySet { members }
    }

    /// Whether `community` is a member, compared character by character.
    pub fn contains(&self, community: &str) -> (found: bool)
        ensures
            found == self@.contains(community@),
    {
        self.members.contains_key(community)
    }
}

/// Classifies a community identifier, which the caller has lowercased, by
/// exact membership in the two sets.
pub fn classify(
    community: &str,
    supporting: &CommunitySet,
    opposing: &CommunitySet,
) -> (stance: Stance)
    ensures
        stance == stance_of(community@, supporting@, opposing@),
{
    if supporting.contains(community) {
        Stance::Supporting
    } else if opposing.contains(community) {
        Stance::Opposing
    } else {
        Stance::Neutral
    }
}

} // verus!
