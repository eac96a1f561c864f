//! Running counters of one topic.

use vstd::prelude::*;
use vstd::hash_map::StringHashMap;
use crate::order::{
    lemma_ascending_distinct, lemma_ascending_insert, lemma_sorts_before_total,
    lemma_sorts_before_transitive, lists_in_order, sorts_before, text_sorts_before,
};
use crate::stance::Stance;
use crate::tally::{
    bumped, count_on, lemma_count_within_total, lemma_merged_balanced, lemma_record_balanced,
    raised, summed, DayCounts, Tally,
};
use crate::text::texts;

verus! {

/// Reference counts per calendar day. The days are listed in ascending
/// order of their text.
pub struct DateCounts {
    counts: StringHashMap<usize>,
    dates: Vec<String>,
}

impl View for DateCounts {
    type V = DayCounts;

    closed spec fn view(&self) -> DayCounts {
        Map::new(
            |day: Seq<char>| self.counts@.contains_key(day),
            |day: Seq<char>| self.counts@[day] as nat,
        )
    }
}

impl DateCounts {
    /// The listed days are exactly the days that have a count, in ascending
    /// order.
    pub closed spec fn wf(&self) -> bool {
        lists_in_order(texts(self.dates@), self.counts@.dom())
    }

    /// A well-formed value has counts for finitely many days.
    pub proof fn lemma_finite(&self)
        requires
            self.wf(),
        ensures
            self@.dom().finite(),
    {
        let listed = texts(self.dates@);
        vstd::seq_lib::seq_to_set_is_finite(listed);
        assert(self@.dom() =~= listed.to_set());
    }

    /// No counts at all.
    pub fn new() -> (empty: Self)
        ensures
            empty.wf(),
            empty@ == DayCounts::empty(),
    {
        DateCounts { counts: StringHashMap::new(), dates: Vec::new() }
    }

    /// The count for `date`, zero where there is no entry.
    pub fn get(&self, date: &str) -> (count: usize)
        ensures
            count == count_on(self@, date@),
    {
        match self.counts.get(date) {
            Some(count) => *count,
            None => 0,
        }
    }

    /// Whether `date` has an entry.
    pub fn contains(&self, date: &str) -> (present: bool)
        ensures
            present == self@.contains_key(date@),
    {
        self.counts.contains_key(date)
    }

    /// The number of days that have an entry.
    pub fn len(&self) -> (count: usize)
        ensures
            count == self@.len(),
    {
        broadcast use vstd::hash_map::axiom_string_hash_map_spec_len;

        assert(self@.dom() =~= self.counts@.dom());
        self.counts.len()
    }

    /// Whether no day has an entry.
    pub fn is_empty(&self) -> (empty: bool)
        ensures
            empty == self@.is_empty(),
    {
        self.counts.is_empty()
    }

    /// The days that have an entry, each once, in ascending order.
    pub fn dates(&self) -> (dates: &Vec<String>)
        requires
            self.wf(),
        ensures
            lists_in_order(texts(dates@), self@.dom()),
            texts(dates@).no_duplicates(),
    {
        proof {
            lemma_ascending_distinct(texts(self.dates@));
        }
        &self.dates
    }

    /// Where among the listed days a day without an entry belongs: after all
    /// days that come before it and before all others.
    fn slot_for(&self, date: &str) -> (at: usize)
        requires
            self.wf(),
            !self@.contains_key(date@),
        ensures
            at <= self.dates.len(),
            forall|i: int| 0 <= i < at ==> sorts_before(#[trigger] texts(self.dates@)[i], date@),
            forall|i: int|
                at <= i < self.dates.len() ==> sorts_before(
                    date@,
                    #[trigger] texts(self.dates@)[i],
                ),
    {
        let ghost listed = texts(self.dates@);
        let mut at: usize = 0;
        while at < self.dates.len() && text_sorts_before(self.dates[at].as_str(), date)
            invariant
                at <= self.dates.len(),
                listed == texts(self.dates@),
                forall|i: int| 0 <= i < at ==> sorts_before(#[trigger] listed[i], date@),
            decreases self.dates.len() - at,
        {
            at += 1;
        }
        proof {
            if at < self.dates.len() {
                lemma_sorts_before_total(listed[at as int], date@);
                assert forall|i: int| at <= i < listed.len() implies sorts_before(
                    date@,
                    #[trigger] listed[i],
                ) by {
                    if at < i {
                        lemma_sorts_before_transitive(date@, listed[at as int], listed[i]);
                    }
                }
            }
        }
        at
    }

    /// Adds `amount` to the count for `date`, starting from zero where the
    /// day had no entry.
    pub fn add(&mut self, date: &str, amount: usize)
        requires
            old(self).wf(),
            count_on(old(self)@, date@) + amount <= usize::MAX,
        ensures
            final(self).wf(),
            final(self)@ == raised(old(self)@, date@, amount as nat),
    {
        let current = self.get(date);
        if !self.contains(date) {
            let at = self.slot_for(date);
            self.dates.insert(at, date.to_owned());
            proof {
                let before = texts(old(self).dates@);
                assert(texts(self.dates@) =~= before.insert(at as int, date@));
                lemma_ascending_insert(before, at as int, date@);
            }
        }
        self.counts.insert(date.to_owned(), current + amount);
    }

    /// Adds one to the count for `date`, starting from zero where the day had
    /// no entry.
    pub fn increment(&mut self, date: &str)
        requires
            old(self).wf(),
            count_on(old(self)@, date@) < usize::MAX,
        ensures
            final(self).wf(),
            final(self)@ == bumped(old(self)@, date@),
    {
        self.add(date, 1);
    }

    /// Adds every count of `other` to the count of the same day.
    pub fn absorb(&mut self, other: &DateCounts)
        requires
            old(self).wf(),
            other.wf(),
            forall|day: Seq<char>| count_on(old(self)@, day) + count_on(other@, day) <= usize::MAX,
        ensures
            final(self).wf(),
            final(self)@ == summed(old(self)@, other@),
    {
        let days = other.dates();
        let ghost listed = texts(days@);
        let mut j: usize = 0;
        while j < days.len()
            invariant
                j <= days.len(),
                listed == texts(days@),
                listed.no_duplicates(),
                lists_in_order(listed, other@.dom()),
                forall|day: Seq<char>|
                    count_on(old(self)@, day) + count_on(other@, day) <= usize::MAX,
                self.wf(),
                self@ == summed(old(self)@, other@.restrict(listed.take(j as int).to_set())),
            decreases days.len() - j,
        {
            let date = days[j].as_str();
            proof {
                assert(listed[j as int] == date@);
            }
            self.add(date, other.get(date));
            proof {
                let done = listed.take(j as int);
                listed.lemma_take_succ_push(j as int);
                done.lemma_push_to_set_commute(date@);
                assert(self@ =~= summed(
                    old(self)@,
                    other@.restrict(listed.take(j + 1).to_set()),
                ));
            }
            j += 1;
        }
        proof {
            assert(listed.take(days.len() as int) =~= listed);
        }
    }
}

/// The running counters of one topic: its name, the total number of
/// references, and the references per day for each stance.
pub struct TopicCounters {
    name: String,
    total_references: usize,
    supporting: DateCounts,
    opposing: DateCounts,
    neutral: DateCounts,
}

impl View for TopicCounters {
    type V = Tally;

    closed spec fn view(&self) -> Tally {
        Tally {
            name: self.name@,
            total: self.total_references as nat,
            supporting: self.supporting@,
            opposing: self.opposing@,
            neutral: self.neutral@,
        }
    }
}

impl TopicCounters {
    /// The per-day counts are well formed and the total is the sum of all of
    /// them.
    pub closed spec fn wf(&self) -> bool {
        &&& self.supporting.wf()
        &&& self.opposing.wf()
        &&& self.neutral.wf()
        &&& self@.balanced()
    }

    /// In well-formed counters the total equals the sum of all per-day counts
    /// of the three stances.
    pub proof fn lemma_total_is_sum(&self)
        requires
            self.wf(),
        ensures
            self@.balanced(),
            self@.total <= usize::MAX,
    {
    }

    /// Counters for the topic `name`, all at zero.
    pub fn new(name: &str) -> (counters: Self)
        ensures
            counters.wf(),
            counters@ == Tally::fresh(name@),
    {
        TopicCounters {
            name: name.to_owned(),
            total_references: 0,
            supporting: DateCounts::new(),
            opposing: DateCounts::new(),
            neutral: DateCounts::new(),
        }
    }

    /// The topic's name.
    pub fn name(&self) -> (name: &str)
        ensures
            name@ == self@.name,
    {
        self.name.as_str()
    }

    /// The number of references recorded so far.
    pub fn total_references(&self) -> (total: usize)
        ensures
            total == self@.total,
    {
        self.total_references
    }

    /// The per-day counts of one stance.
    pub fn references_per_date(&self, stance: Stance) -> (counts: &DateCounts)
        ensures
            counts@ == self@.counts(stance),
            self.wf() ==> counts.wf(),
    {
        match stance {
            Stance::Supporting => &self.supporting,
            Stance::Opposing => &self.opposing,
            Stance::Neutral => &self.neutral,
        }
    }

    /// Records one reference on `date` from a community of the given stance:
    /// the count of that day and stance and the total each go up by one.
    pub fn record(&mut self, date: &str, stance: Stance)
        requires
            old(self).wf(),
            old(self)@.total < usize::MAX,
        ensures
            final(self).wf(),
            final(self)@ == old(self)@.record(date@, stance),
    {
        proof {
            lemma_record_balanced(self@, date@, stance);
            lemma_count_within_total(self@, stance, date@);
        }
        match stance {
            Stance::Supporting => self.supporting.increment(date),
            Stance::Opposing => self.opposing.increment(date),
            Stance::Neutral => self.neutral.increment(date),
        }
        self.total_references = self.total_references + 1;
    }

    /// Adds the counters of `other`, which another worker kept for the same
    /// topic, to these: totals and per-day counts are summed.
    pub fn merge(&mut self, other: &TopicCounters)
        requires
            old(self).wf(),
            other.wf(),
            old(self)@.total + other@.total <= usize::MAX,
        ensures
            final(self).wf(),
            final(self)@ == old(self)@.merged(other@),
    {
        proof {
            lemma_merged_balanced(self@, other@);
            assert forall|day: Seq<char>|
                count_on(self.supporting@, day) + count_on(other.supporting@, day)
                    <= usize::MAX by {
                lemma_count_within_total(self@, Stance::Supporting, day);
                lemma_count_within_total(other@, Stance::Supporting, day);
            }
            assert forall|day: Seq<char>|
                count_on(self.opposing@, day) + count_on(other.opposing@, day) <= usize::MAX by {
                lemma_count_within_total(self@, Stance::Opposing, day);
                lemma_count_within_total(other@, Stance::Opposing, day);
            }
            assert forall|day: Seq<char>|
                count_on(self.neutral@, day) + count_on(other.neutral@, day) <= usize::MAX by {
                lemma_count_within_total(self@, Stance::Neutral, day);
                lemma_count_within_total(other@, Stance::Neutral, day);
            }
        }
        self.supporting.absorb(&other.supporting);
        self.opposing.absorb(&other.opposing);
        self.neutral.absorb(&other.neutral);
        self.total_references = self.total_references + other.total_references;
    }
}

} // verus!
