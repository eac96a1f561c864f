//! The mathematical picture of a topic's counters: a name, a total, and for
//! each stance a map from calendar day to the number of references that day.

use vstd::prelude::*;
use crate::stance::Stance;

verus! {

/// Counts keyed by calendar day.
pub type DayCounts = Map<Seq<char>, nat>;

/// The count recorded for `day`, which is zero for a day without an entry.
pub open spec fn count_on(counts: DayCounts, day: Seq<char>) -> nat {
    if counts.contains_key(day) {
        counts[day]
    } else {
        0
    }
}

/// `counts` with `amount` more references on `day`; the day gets an entry if
/// it had none.
pub open spec fn raised(counts: DayCounts, day: Seq<char>, amount: nat) -> DayCounts {
    counts.insert(day, count_on(counts, day) + amount)
}

/// `counts` with one more reference on `day`.
pub open spec fn bumped(counts: DayCounts, day: Seq<char>) -> DayCounts {
    raised(counts, day, 1)
}

/// The day-by-day sum of two maps of counts: a day has an entry where it has
/// one in either map.
pub open spec fn summed(left: DayCounts, right: DayCounts) -> DayCounts {
    Map::new(
        |day: Seq<char>| left.contains_key(day) || right.contains_key(day),
        |day: Seq<char>| count_on(left, day) + count_on(right, day),
    )
}

/// The sum of all counts in a map with finitely many days.
pub open spec fn sum_of(counts: DayCounts) -> nat
    decreases counts.dom().len(),
    when counts.dom().finite()
{
    if counts.dom().is_empty() {
        0
    } else {
        let day = counts.dom().choose();
        counts[day] + sum_of(counts.remove(day))
    }
}

/// The sum of a map is the count of any one of its days plus the sum of the
/// rest.
pub proof fn lemma_sum_of_split(counts: DayCounts, day: Seq<char>)
    requires
        counts.dom().finite(),
        counts.contains_key(day),
    ensures
        sum_of(counts) == counts[day] + sum_of(counts.remove(day)),
    decreases counts.dom().len(),
{
    let first = counts.dom().choose();
    if first != day {
        lemma_sum_of_split(counts.remove(first), day);
        lemma_sum_of_split(counts.remove(day), first);
        assert(counts.remove(first).remove(day) =~= counts.remove(day).remove(first));
    }
}

/// More references on a day raise the sum by as many, and no single count
/// exceeds the sum.
pub proof fn lemma_sum_of_raised(counts: DayCounts, day: Seq<char>, amount: nat)
    requires
        counts.dom().finite(),
    ensures
        sum_of(raised(counts, day, amount)) == sum_of(counts) + amount,
        count_on(counts, day) <= sum_of(counts),
{
    let after = raised(counts, day, amount);
    lemma_sum_of_split(after, day);
    assert(after.remove(day) =~= counts.remove(day));
    if counts.contains_key(day) {
        lemma_sum_of_split(counts, day);
    } else {
        assert(counts.remove(day) =~= counts);
    }
}

/// The sum of a day-by-day sum is the sum of the two sums.
pub proof fn lemma_sum_of_summed(left: DayCounts, right: DayCounts)
    requires
        left.dom().finite(),
        right.dom().finite(),
    ensures
        summed(left, right).dom().finite(),
        sum_of(summed(left, right)) == sum_of(left) + sum_of(right),
    decreases right.dom().len(),
{
    if right.dom().is_empty() {
        assert(summed(left, right) =~= left);
    } else {
        let day = right.dom().choose();
        let rest = right.remove(day);
        lemma_sum_of_summed(left, rest);
        lemma_sum_of_split(right, day);
        lemma_sum_of_raised(summed(left, rest), day, right[day]);
        assert(summed(left, right) =~= raised(summed(left, rest), day, right[day]));
    }
}

/// What a topic's counters hold.
pub struct Tally {
    pub name: Seq<char>,
    pub total: nat,
    pub supporting: DayCounts,
    pub opposing: DayCounts,
    pub neutral: DayCounts,
}

impl Tally {
    /// The counters of a topic that nothing has referenced yet.
    pub open spec fn fresh(name: Seq<char>) -> Tally {
        Tally {
            name,
            total: 0,
            supporting: Map::empty(),
            opposing: Map::empty(),
            neutral: Map::empty(),
        }
    }

    /// The per-day counts of one stance.
    pub open spec fn counts(self, stance: Stance) -> DayCounts {
        match stance {
            Stance::Supporting => self.supporting,
            Stance::Opposing => self.opposing,
            Stance::Neutral => self.neutral,
        }
    }

    /// The number of references recorded for `stance` on `day`.
    pub open spec fn count(self, stance: Stance, day: Seq<char>) -> nat {
        count_on(self.counts(stance), day)
    }

    /// Each stance has entries for finitely many days.
    pub open spec fn finite(self) -> bool {
        &&& self.supporting.dom().finite()
        &&& self.opposing.dom().finite()
        &&& self.neutral.dom().finite()
    }

    /// The sum of every count of every stance.
    pub open spec fn sum(self) -> nat {
        sum_of(self.supporting) + sum_of(self.opposing) + sum_of(self.neutral)
    }

    /// The total equals the sum of all per-day counts of all three stances.
    pub open spec fn balanced(self) -> bool {
        self.finite() && self.total == self.sum()
    }

    /// The counters after one more reference on `day` from a community of the
    /// given stance.
    pub open spec fn record(self, day: Seq<char>, stance: Stance) -> Tally {
        match stance {
            Stance::Supporting => Tally {
                total: self.total + 1,
                supporting: bumped(self.supporting, day),
                ..self
            },
            Stance::Opposing => Tally {
                total: self.total + 1,
                opposing: bumped(self.opposing, day),
                ..self
            },
            Stance::Neutral => Tally {
                total: self.total + 1,
                neutral: bumped(self.neutral, day),
                ..self
            },
        }
    }

    /// These counters with those of `other` added: totals and per-day counts
    /// are summed, the name stays.
    pub open spec fn merged(self, other: Tally) -> Tally {
        Tally {
            name: self.name,
            total: self.total + other.total,
            supporting: summed(self.supporting, other.supporting),
            opposing: summed(self.opposing, other.opposing),
            neutral: summed(self.neutral, other.neutral),
        }
    }
}

/// Where the total equals the sum of the counts, no single count exceeds the
/// total.
pub proof fn lemma_count_within_total(tally: Tally, stance: Stance, day: Seq<char>)
    requires
        tally.balanced(),
    ensures
        tally.count(stance, day) <= tally.total,
{
    lemma_sum_of_raised(tally.counts(stance), day, 0);
}

/// Recording a reference keeps the total equal to the sum of the counts.
pub proof fn lemma_record_balanced(tally: Tally, day: Seq<char>, stance: Stance)
    requires
        tally.balanced(),
    ensures
        tally.record(day, stance).balanced(),
{
    lemma_sum_of_raised(tally.counts(stance), day, 1);
}

/// Merging keeps the total equal to the sum of the counts.
pub proof fn lemma_merged_balanced(tally: Tally, other: Tally)
    requires
        tally.balanced(),
        other.balanced(),
    ensures
        tally.merged(other).balanced(),
{
    lemma_sum_of_summed(tally.supporting, other.supporting);
    lemma_sum_of_summed(tally.opposing, other.opposing);
    lemma_sum_of_summed(tally.neutral, other.neutral);
}

} // verus!
