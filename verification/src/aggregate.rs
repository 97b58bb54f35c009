//! The aggregation engine: one linear pass over an ordered roster of
//! person records producing a headcount, a total monthly cost, the
//! most-recently-joined member, and a title histogram in first-seen order.

use vstd::prelude::*;

use crate::models::Person;

verus! {

/// The sum of all compensation values of the records in `s`.
pub open spec fn total_comp(s: Seq<Person>) -> int
    decreases s.len(),
{
    if s.len() == 0 {
        0
    } else {
        total_comp(s.drop_last()) + s.last().compensation
    }
}

/// How many records in `s` carry exactly the title `t`.
pub open spec fn count_title(s: Seq<Person>, t: Seq<char>) -> int
    decreases s.len(),
{
    if s.len() == 0 {
        0
    } else {
        count_title(s.drop_last(), t) + if s.last().title@ == t {
            1int
        } else {
            0int
        }
    }
}

/// The distinct titles of `s`, each exactly once, in the order in which
/// they are first encountered when reading `s` from index 0 upward.
pub open spec fn distinct_titles(s: Seq<Person>) -> Seq<Seq<char>>
    decreases s.len(),
{
    if s.len() == 0 {
        Seq::empty()
    } else {
        let d = distinct_titles(s.drop_last());
        if d.contains(s.last().title@) {
            d
        } else {
            d.push(s.last().title@)
        }
    }
}

/// The name of the most-recently-joined member: the record at index 0,
/// or the empty string when the roster is empty.
pub open spec fn latest_member_of(s: Seq<Person>) -> Seq<char> {
    if s.len() == 0 {
        Seq::empty()
    } else {
        s[0].name@
    }
}

/// The character sequences behind a sequence of strings.
pub open spec fn titles_view(v: Seq<String>) -> Seq<Seq<char>> {
    v.map_values(|t: String| t@)
}

/// The sum of a sequence of integers.
pub open spec fn sum_counts(s: Seq<int>) -> int
    decreases s.len(),
{
    if s.len() == 0 {
        0
    } else {
        sum_counts(s.drop_last()) + s.last()
    }
}

/// Everything one aggregation pass derives from the roster.
pub struct AggregationResult {
    /// Number of input records.
    pub headcount: usize,
    /// Sum of all compensation values.
    pub total_cost: i128,
    /// Name of the record at index 0, or empty for an empty roster.
    pub latest_member: String,
    /// The distinct titles in first-seen order.
    pub titles: Vec<String>,
    /// For each entry of `titles`, how often that title occurs.
    pub counts: Vec<usize>,
}

/// The full relation between a roster and the result of aggregating it:
/// this predicate pins every field of the result down as a function of
/// the input sequence.
pub open spec fn aggregation_matches(s: Seq<Person>, r: AggregationResult) -> bool {
    &&& r.headcount == s.len()
    &&& r.total_cost == total_comp(s)
    &&& r.latest_member@ == latest_member_of(s)
    &&& titles_view(r.titles@) == distinct_titles(s)
    &&& r.counts@.len() == r.titles@.len()
    &&& forall|j: int|
        0 <= j < r.counts@.len() ==> r.counts@[j] as int == count_title(s, r.titles@[j]@)
}

/// The index of the first string in `titles` equal to `title`, if any.
fn find_title(titles: &Vec<String>, title: &String) -> (found: Option<usize>)
    ensures
        match found {
            Some(j) => j < titles@.len() && titles@[j as int]@ == title@,
            None => forall|k: int| 0 <= k < titles@.len() ==> #[trigger] titles@[k]@ != title@,
        },
{
    let mut idx: usize = 0;
    while idx < titles.len()
        invariant
            idx <= titles@.len(),
            forall|k: int| 0 <= k < idx ==> #[trigger] titles@[k]@ != title@,
        decreases titles@.len() - idx,
    {
        if titles[idx] == *title {
            return Some(idx);
        }
        idx = idx + 1;
    }
    None
}

/// One aggregation pass over the roster.
///
/// The result is a pure function of the input sequence: headcount is the
/// record count, total cost the exact integer sum of all compensation
/// values, the latest member the name at index 0 (empty for an empty
/// roster), and the histogram lists each distinct title exactly once in
/// first-seen order, each with its number of occurrences. The counts of
/// the histogram always add up to the headcount.
pub fn aggregate(persons: &Vec<Person>) -> (result: AggregationResult)
    ensures
        aggregation_matches(persons@, result),
        sum_counts(result.counts@.map_values(|c: usize| c as int)) == persons@.len(),
{
    let ghost s = persons@;
    let mut total_cost: i128 = 0;
    let mut latest_member: String = String::new();
    let mut titles: Vec<String> = Vec::new();
    let mut counts: Vec<usize> = Vec::new();
    let mut i: usize = 0;
    proof {
        assert(s.take(0) =~= Seq::empty());
    }
    while i < persons.len()
        invariant
            i <= s.len(),
            persons@ == s,
            total_cost == total_comp(s.take(i as int)),
            -0x8000_0000 * (i as int) <= total_cost <= 0x8000_0000 * (i as int),
            latest_member@ == latest_member_of(s.take(i as int)),
            titles_view(titles@) == distinct_titles(s.take(i as int)),
            counts@.len() == titles@.len(),
            forall|j: int|
                0 <= j < counts@.len() ==> #[trigger] counts@[j] as int == count_title(
                    s.take(i as int),
                    titles@[j]@,
                ),
            forall|j: int| 0 <= j < counts@.len() ==> #[trigger] counts@[j] <= i,
        decreases s.len() - i,
    {
        let person = &persons[i];
        proof {
            assert(s.take(i + 1).drop_last() =~= s.take(i as int));
            assert(s.take(i + 1).last() == s[i as int]);
            assert((i as int) <= 0xFFFF_FFFF_FFFF_FFFF);
            assert(0x8000_0000 * (i as int) <= 0x8000_0000 * 0xFFFF_FFFF_FFFF_FFFF)
                by (nonlinear_arith)
                requires (i as int) <= 0xFFFF_FFFF_FFFF_FFFF;
            assert(-0x8000_0000 * 0xFFFF_FFFF_FFFF_FFFF <= -0x8000_0000 * (i as int))
                by (nonlinear_arith)
                requires (i as int) <= 0xFFFF_FFFF_FFFF_FFFF;
        }
        if i == 0 {
            latest_member = person.name.clone();
        }
        total_cost = total_cost + person.compensation as i128;
        let found = find_title(&titles, &person.title);
        match found {
            Some(idx) => {
                proof {
                    lemma_distinct_titles_no_dup(s.take(i as int));
                    assert(titles_view(titles@)[idx as int] == persons@[i as int].title@);
                    assert(distinct_titles(s.take(i as int)).contains(person.title@));
                    assert forall|j: int|
                        0 <= j < counts@.len() && j != idx implies titles@[j]@
                        != person.title@ by {
                        assert(titles_view(titles@)[j] == titles@[j]@);
                    }
                }
                counts[idx] = counts[idx] + 1;
            },
            None => {
                proof {
                    assert forall|k: int|
                        0 <= k < distinct_titles(s.take(i as int)).len()
                            implies #[trigger] distinct_titles(s.take(i as int))[k]
                        != person.title@ by {
                        assert(distinct_titles(s.take(i as int))[k] == titles@[k]@);
                    }
                    assert(!distinct_titles(s.take(i as int)).contains(person.title@));
                    lemma_uncounted_title(s.take(i as int), person.title@);
                }
                titles.push(person.title.clone());
                counts.push(1);
                proof {
                    assert(titles_view(titles@) =~= distinct_titles(s.take(i as int)).push(
                        person.title@,
                    ));
                }
            },
        }
        i = i + 1;
        proof {
            assert(titles_view(titles@) =~= distinct_titles(s.take(i as int)));
        }
    }
    proof {
        assert(s.take(i as int) =~= s);
    }
    let result = AggregationResult { headcount: persons.len(), total_cost, latest_member, titles, counts };
    proof {
        lemma_histogram_sum(s);
        assert(result.counts@.map_values(|c: usize| c as int) =~= distinct_titles(s).map_values(
            |t: Seq<char>| count_title(s, t),
        ));
    }
    result
}

/// The histogram never lists a title twice: the entries of
/// `distinct_titles` are pairwise different.
pub proof fn lemma_distinct_titles_no_dup(s: Seq<Person>)
    ensures
        forall|j: int, k: int|
            0 <= j < k < distinct_titles(s).len() ==> distinct_titles(s)[j] != distinct_titles(
                s,
            )[k],
    decreases s.len(),
{
    if s.len() > 0 {
        let s0 = s.drop_last();
        let d0 = distinct_titles(s0);
        lemma_distinct_titles_no_dup(s0);
        if !d0.contains(s.last().title@) {
            assert forall|j: int, k: int|
                0 <= j < k < distinct_titles(s).len() implies distinct_titles(s)[j]
                != distinct_titles(s)[k] by {
                if k == d0.len() {
                    assert(distinct_titles(s)[j] == d0[j]);
                    if d0[j] == s.last().title@ {
                        assert(d0.contains(s.last().title@));
                    }
                }
            }
        }
    }
}

/// A title that the histogram does not list does not occur in the roster.
pub proof fn lemma_uncounted_title(s: Seq<Person>, t: Seq<char>)
    requires
        !distinct_titles(s).contains(t),
    ensures
        count_title(s, t) == 0,
    decreases s.len(),
{
    if s.len() > 0 {
        let s0 = s.drop_last();
        let d0 = distinct_titles(s0);
        let d = distinct_titles(s);
        assert forall|k: int| 0 <= k < d0.len() implies #[trigger] d0[k] != t by {
            if d0.contains(s.last().title@) {
                assert(d[k] == d0[k]);
            } else {
                assert(d[k] == d0[k]);
            }
            assert(d.contains(d0[k]) ==> d0[k] != t);
            assert(d[k] == d0[k]);
        }
        assert(!d0.contains(t));
        lemma_uncounted_title(s0, t);
        if s.last().title@ == t {
            if d0.contains(t) {
                assert(d == d0);
                assert(d.contains(t));
            } else {
                assert(d == d0.push(t));
                assert(d[d0.len() as int] == t);
                assert(d.contains(t));
            }
            assert(false);
        }
    }
}

/// Incrementing one entry of a sequence of integers raises its sum by
/// exactly that increment.
pub proof fn lemma_sum_counts_update(s: Seq<int>, j: int, v: int)
    requires
        0 <= j < s.len(),
    ensures
        sum_counts(s.update(j, s[j] + v)) == sum_counts(s) + v,
    decreases s.len(),
{
    let su = s.update(j, s[j] + v);
    if j == s.len() - 1 {
        assert(su.drop_last() =~= s.drop_last());
        assert(su.last() == s[j] + v);
    } else {
        assert(su.drop_last() =~= s.drop_last().update(j, s.drop_last()[j] + v));
        assert(su.last() == s.last());
        lemma_sum_counts_update(s.drop_last(), j, v);
    }
}

/// The sum invariant of the histogram: over any roster, the counts of
/// the distinct titles add up to the number of records.
pub proof fn lemma_histogram_sum(s: Seq<Person>)
    ensures
        sum_counts(distinct_titles(s).map_values(|t: Seq<char>| count_title(s, t))) == s.len(),
    decreases s.len(),
{
    let d = distinct_titles(s);
    let m = d.map_values(|t: Seq<char>| count_title(s, t));
    if s.len() == 0 {
        assert(m =~= Seq::empty());
    } else {
        let s0 = s.drop_last();
        let p = s.last();
        let d0 = distinct_titles(s0);
        let m0 = d0.map_values(|t: Seq<char>| count_title(s0, t));
        lemma_histogram_sum(s0);
        lemma_distinct_titles_no_dup(s0);
        if d0.contains(p.title@) {
            let j = choose|j: int| 0 <= j < d0.len() && d0[j] == p.title@;
            assert(d == d0);
            assert forall|k: int| 0 <= k < d0.len() && k != j implies #[trigger] m[k] == m0[k] by {
                assert(d0[k] != p.title@);
                assert(count_title(s, d0[k]) == count_title(s0, d0[k]));
            }
            assert(m[j] == count_title(s, d0[j]));
            assert(count_title(s, d0[j]) == count_title(s0, d0[j]) + 1);
            assert(m =~= m0.update(j, m0[j] + 1));
            lemma_sum_counts_update(m0, j, 1);
        } else {
            assert(d == d0.push(p.title@));
            assert forall|k: int| 0 <= k < d0.len() implies #[trigger] m[k] == m0[k] by {
                if d0[k] == p.title@ {
                    assert(d0.contains(p.title@));
                }
                assert(count_title(s, d0[k]) == count_title(s0, d0[k]));
            }
            lemma_uncounted_title(s0, p.title@);
            assert(m.last() == count_title(s, p.title@));
            assert(count_title(s, p.title@) == 1);
            assert(m.drop_last() =~= m0);
            assert(sum_counts(m) == sum_counts(m0) + 1);
        }
    }
}

/// First-seen order is stable: extending the roster with further records
/// never moves an existing histogram entry; the old histogram order is a
/// prefix of the new one.
pub proof fn lemma_first_seen_order_stable(s: Seq<Person>, more: Seq<Person>)
    ensures
        distinct_titles(s).is_prefix_of(distinct_titles(s + more)),
    decreases more.len(),
{
    if more.len() == 0 {
        assert(s + more =~= s);
        assert(distinct_titles(s).is_prefix_of(distinct_titles(s)));
    } else {
        let m0 = more.drop_last();
        lemma_first_seen_order_stable(s, m0);
        let w = s + more;
        assert(w.drop_last() =~= s + m0);
        let d0 = distinct_titles(s + m0);
        assert(distinct_titles(w) == d0 || distinct_titles(w) == d0.push(w.last().title@));
        assert(d0.is_prefix_of(d0.push(w.last().title@))) by {
            assert(d0 =~= d0.push(w.last().title@).subrange(0, d0.len() as int));
        }
        assert(distinct_titles(s).is_prefix_of(distinct_titles(w))) by {
            let ds = distinct_titles(s);
            assert(ds =~= d0.subrange(0, ds.len() as int));
            assert(ds =~= distinct_titles(w).subrange(0, ds.len() as int));
        }
    }
}

/// The histogram of the first `k` records is a prefix of the histogram
/// of the whole roster: the records after index `k` can only raise
/// counts or append new entries, never move an entry already present.
pub proof fn lemma_prefix_histogram(s: Seq<Person>, k: int)
    requires
        0 <= k <= s.len(),
    ensures
        distinct_titles(s.take(k)).is_prefix_of(distinct_titles(s)),
{
    lemma_first_seen_order_stable(s.take(k), s.skip(k));
    assert(s.take(k) + s.skip(k) =~= s);
}

/// Aggregation is a pure function of the roster: any two results that
/// stand in the aggregation relation to the same input agree on every
/// field.
pub proof fn lemma_aggregation_deterministic(
    s: Seq<Person>,
    r1: AggregationResult,
    r2: AggregationResult,
)
    requires
        aggregation_matches(s, r1),
        aggregation_matches(s, r2),
    ensures
        r1.headcount == r2.headcount,
        r1.total_cost == r2.total_cost,
        r1.latest_member@ == r2.latest_member@,
        titles_view(r1.titles@) == titles_view(r2.titles@),
        r1.counts@ == r2.counts@,
{
    assert(titles_view(r1.titles@).len() == r1.titles@.len());
    assert(titles_view(r2.titles@).len() == r2.titles@.len());
    assert(r1.counts@.len() == r2.counts@.len());
    assert(r1.counts@ =~= r2.counts@) by {
        assert forall|j: int| 0 <= j < r1.counts@.len() implies r1.counts@[j] == r2.counts@[j] by {
            assert(titles_view(r1.titles@)[j] == r1.titles@[j]@);
            assert(titles_view(r2.titles@)[j] == r2.titles@[j]@);
            assert(r1.counts@[j] as int == count_title(s, r1.titles@[j]@));
            assert(r2.counts@[j] as int == count_title(s, r2.titles@[j]@));
        }
    }
}

} // verus!
