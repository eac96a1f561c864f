//! The order in which texts are listed.

use vstd::prelude::*;

verus! {

/// `left` comes before `right` where texts are ordered by the code points of
/// their characters, from the first character on, and a text comes before
/// every longer text that starts with it.
pub open spec fn sorts_before(left: Seq<char>, right: Seq<char>) -> bool
    decreases left.len(),
{
    if right.len() == 0 {
        false
    } else if left.len() == 0 {
        true
    } else if left[0] != right[0] {
        left[0] < right[0]
    } else {
        sorts_before(left.drop_first(), right.drop_first())
    }
}

/// Each text of the list comes before every later one.
pub open spec fn ascending(list: Seq<Seq<char>>) -> bool {
    forall|i: int, j: int|
        0 <= i < j < list.len() ==> sorts_before(#[trigger] list[i], #[trigger] list[j])
}

/// `list` holds the members of `set`, each once, in ascending order.
pub open spec fn lists_in_order(list: Seq<Seq<char>>, set: Set<Seq<char>>) -> bool {
    &&& ascending(list)
    &&& forall|text: Seq<char>| list.contains(text) <==> set.contains(text)
}

/// Trusted: `<` on string slices orders them by their bytes, which is the
/// order of the code points of their characters.
#[verifier::external_body]
pub(crate) fn text_sorts_before(left: &str, right: &str) -> (before: bool)
    ensures
        before == sorts_before(left@, right@),
{
    left < right
}

/// No text comes before itself.
pub proof fn lemma_sorts_before_irreflexive(text: Seq<char>)
    ensures
        !sorts_before(text, text),
    decreases text.len(),
{
    if text.len() > 0 {
        lemma_sorts_before_irreflexive(text.drop_first());
    }
}

/// Of two different texts, one comes before the other.
pub proof fn lemma_sorts_before_total(left: Seq<char>, right: Seq<char>)
    requires
        left != right,
    ensures
        sorts_before(left, right) || sorts_before(right, left),
    decreases left.len(),
{
    if left.len() == 0 || right.len() == 0 {
        if left.len() == 0 && right.len() == 0 {
            assert(left =~= right);
        }
    } else if left[0] == right[0] {
        if left.drop_first() == right.drop_first() {
            assert(left =~= seq![left[0]] + left.drop_first());
            assert(right =~= seq![right[0]] + right.drop_first());
        }
        lemma_sorts_before_total(left.drop_first(), right.drop_first());
    }
}

/// A text that comes before a second, which comes before a third, comes
/// before the third.
pub proof fn lemma_sorts_before_transitive(first: Seq<char>, second: Seq<char>, third: Seq<char>)
    requires
        sorts_before(first, second),
        sorts_before(second, third),
    ensures
        sorts_before(first, third),
    decreases first.len(),
{
    if first.len() > 0 && first[0] == second[0] && second[0] == third[0] {
        lemma_sorts_before_transitive(
            first.drop_first(),
            second.drop_first(),
            third.drop_first(),
        );
    }
}

/// An ascending list holds no text twice.
pub proof fn lemma_ascending_distinct(list: Seq<Seq<char>>)
    requires
        ascending(list),
    ensures
        list.no_duplicates(),
{
    assert forall|i: int, j: int|
        0 <= i < list.len() && 0 <= j < list.len() && i != j implies list[i] != list[j] by {
        lemma_sorts_before_irreflexive(list[i]);
    }
}

/// Putting a text between the texts that come before it and those that come
/// after it keeps the list ascending, and adds that text and no other.
pub proof fn lemma_ascending_insert(list: Seq<Seq<char>>, at: int, text: Seq<char>)
    requires
        ascending(list),
        0 <= at <= list.len(),
        forall|i: int| 0 <= i < at ==> sorts_before(#[trigger] list[i], text),
        forall|i: int| at <= i < list.len() ==> sorts_before(text, #[trigger] list[i]),
    ensures
        ascending(list.insert(at, text)),
        forall|other: Seq<char>|
            list.insert(at, text).contains(other) <==> other == text || list.contains(other),
{
    let longer = list.insert(at, text);
    assert forall|k: int| 0 <= k < longer.len() implies #[trigger] longer[k] == (if k < at {
        list[k]
    } else if k == at {
        text
    } else {
        list[k - 1]
    }) by {}
    assert(ascending(longer));
    assert forall|other: Seq<char>|
        longer.contains(other) <==> other == text || list.contains(other) by {
        if list.contains(other) {
            let k = choose|k: int| 0 <= k < list.len() && list[k] == other;
            assert(longer[if k < at { k } else { k + 1 }] == other);
        }
        assert(longer[at] == text);
    }
}

/// The texts of an ascending list, but for the last, are the members of the
/// listed set but for that last text.
proof fn lemma_listing_without_last(list: Seq<Seq<char>>, set: Set<Seq<char>>)
    requires
        lists_in_order(list, set),
        list.len() > 0,
    ensures
        lists_in_order(list.drop_last(), set.remove(list.last())),
{
    lemma_ascending_distinct(list);
    let shorter = list.drop_last();
    assert forall|text: Seq<char>| shorter.contains(text) <==> set.remove(list.last()).contains(
        text,
    ) by {
        if set.remove(list.last()).contains(text) {
            let k = choose|k: int| 0 <= k < list.len() && list[k] == text;
            assert(shorter[k] == text);
        }
    }
}

/// Two ascending lists of the members of one set are the same list: the
/// order of such a list is settled by what it holds.
pub proof fn lemma_listing_is_unique(
    first: Seq<Seq<char>>,
    second: Seq<Seq<char>>,
    set: Set<Seq<char>>,
)
    requires
        lists_in_order(first, set),
        lists_in_order(second, set),
    ensures
        first == second,
    decreases first.len(),
{
    if first.len() == 0 || second.len() == 0 {
        if first.len() > 0 {
            assert(first.contains(first[0]));
        }
        if second.len() > 0 {
            assert(second.contains(second[0]));
        }
        assert(first =~= second);
    } else {
        assert(first.contains(first.last()));
        assert(second.contains(second.last()));
        if first.last() != second.last() {
            // Each list holds the other's last text somewhere before its own
            // last text, so each of the two would come before the other.
            lemma_sorts_before_transitive(first.last(), second.last(), first.last());
            lemma_sorts_before_irreflexive(first.last());
        }
        lemma_listing_without_last(first, set);
        lemma_listing_without_last(second, set);
        lemma_listing_is_unique(first.drop_last(), second.drop_last(), set.remove(first.last()));
        assert(first =~= first.drop_last().push(first.last()));
        assert(second =~= second.drop_last().push(second.last()));
    }
}

} // verus!
