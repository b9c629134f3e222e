//! Totals of a set of transactions by continent, and views of it by
//! continent.

use crate::location::Continent;
use crate::transaction::Transaction;
use vstd::prelude::*;

verus! {

/// The transactions of `txs` on the continent `continent`, in their order.
pub open spec fn in_continent(txs: Seq<Transaction>, continent: Continent) -> Seq<Transaction> {
    txs.filter(|t: Transaction| t.continent == continent)
}

/// The sum of the amounts of `txs`, in millionths.
pub open spec fn total_amount(txs: Seq<Transaction>) -> nat
    decreases txs.len(),
{
    if txs.len() == 0 {
        0
    } else {
        total_amount(txs.drop_last()) + txs.last().amount.micros as nat
    }
}

/// The number of transactions of `txs` on `continent`.
pub open spec fn count_in(txs: Seq<Transaction>, continent: Continent) -> nat {
    in_continent(txs, continent).len()
}

/// The sum of the amounts of the transactions of `txs` on `continent`.
pub open spec fn total_in(txs: Seq<Transaction>, continent: Continent) -> nat {
    total_amount(in_continent(txs, continent))
}

/// The continents that occur in `txs`, each once, in the order in which they
/// first occur.
pub open spec fn continents_seen(txs: Seq<Transaction>) -> Seq<Continent>
    decreases txs.len(),
{
    if txs.len() == 0 {
        Seq::empty()
    } else {
        let before = continents_seen(txs.drop_last());
        if before.contains(txs.last().continent) {
            before
        } else {
            before.push(txs.last().continent)
        }
    }
}

/// The total and the number of the transactions on one continent.
#[derive(Debug, Clone, Copy, PartialEq, Eq, Structural)]
pub struct ContinentTotal {
    pub continent: Continent,
    /// The sum of the amounts, in millionths.
    pub total_micros: u128,
    pub count: usize,
}

/// The totals by continent of a set of transactions, with the total over all
/// of them.
#[derive(Debug, Clone, PartialEq, Eq)]
pub struct ContinentAnalysis {
    /// One entry for each continent that occurs, in the order of first
    /// occurrence.
    pub entries: Vec<ContinentTotal>,
    /// The sum of all amounts, in millionths.
    pub total_micros: u128,
    /// The number of all transactions.
    pub count: usize,
}

/// Whether `entries` are the totals of `txs` by continent: one entry for each
/// continent that occurs in `txs`, in the order of first occurrence, with the
/// sum and the number of the transactions on that continent.
pub open spec fn is_summary_of(entries: Seq<ContinentTotal>, txs: Seq<Transaction>) -> bool {
    &&& entries.len() == continents_seen(txs).len()
    &&& forall|i: int|
        0 <= i < entries.len() ==> {
            &&& (#[trigger] entries[i]).continent == continents_seen(txs)[i]
            &&& entries[i].total_micros == total_in(txs, entries[i].continent)
            &&& entries[i].count == count_in(txs, entries[i].continent)
        }
}

/// The sum of the counts of `entries`.
pub open spec fn count_sum(entries: Seq<ContinentTotal>) -> nat
    decreases entries.len(),
{
    if entries.len() == 0 {
        0
    } else {
        count_sum(entries.drop_last()) + entries.last().count as nat
    }
}

/// The sum of the totals of `entries`.
pub open spec fn total_sum(entries: Seq<ContinentTotal>) -> nat
    decreases entries.len(),
{
    if entries.len() == 0 {
        0
    } else {
        total_sum(entries.drop_last()) + entries.last().total_micros as nat
    }
}

/// The mean of `count` amounts that sum up to `total_micros`, rounded down
/// to a millionth; `None` for no amounts.
pub open spec fn average_of(total_micros: u128, count: usize) -> Option<u128> {
    if count == 0 {
        None
    } else {
        Some((total_micros / (count as u128)) as u128)
    }
}

/// Adding a transaction to `txs` adds it to the count and total of its own
/// continent, and leaves those of the other continents as they were.
pub proof fn lemma_push_transaction(txs: Seq<Transaction>, t: Transaction, continent: Continent)
    ensures
        total_amount(txs.push(t)) == total_amount(txs) + t.amount.micros,
        count_in(txs.push(t), continent) == count_in(txs, continent) + if t.continent
            == continent {
            1nat
        } else {
            0nat
        },
        total_in(txs.push(t), continent) == total_in(txs, continent) + if t.continent
            == continent {
            t.amount.micros as nat
        } else {
            0nat
        },
{
    reveal(Seq::filter);
    let pushed = txs.push(t);
    assert(pushed.drop_last() =~= txs);
    assert(pushed.last() == t);
    if t.continent == continent {
        let sub = in_continent(txs, continent);
        assert(in_continent(pushed, continent) == sub.push(t));
        assert(sub.push(t).drop_last() =~= sub);
    }
}

/// A continent occurs among the continents seen exactly if some transaction
/// lies on it, and it occurs there once.
pub proof fn lemma_continents_seen(txs: Seq<Transaction>)
    ensures
        continents_seen(txs).no_duplicates(),
        forall|c: Continent| continents_seen(txs).contains(c) <==> count_in(txs, c) > 0,
    decreases txs.len(),
{
    reveal(Seq::filter);
    if txs.len() > 0 {
        let front = txs.drop_last();
        let t = txs.last();
        lemma_continents_seen(front);
        assert(front.push(t) =~= txs);
        let before = continents_seen(front);
        let seen = continents_seen(txs);
        assert forall|c: Continent| seen.contains(c) <==> count_in(txs, c) > 0 by {
            lemma_push_transaction(front, t, c);
            if before.contains(t.continent) {
            } else {
                if seen.contains(c) {
                    let k = choose|k: int| 0 <= k < seen.len() && seen[k] == c;
                    if k < before.len() {
                        assert(before[k] == c);
                    }
                }
                if c == t.continent {
                    assert(seen[before.len() as int] == c);
                } else if before.contains(c) {
                    let k = choose|k: int| 0 <= k < before.len() && before[k] == c;
                    assert(seen[k] == c);
                }
            }
        }
    }
}

/// The continents part the transactions: each transaction lies on exactly
/// one of them, so the counts by continent add up to the number of
/// transactions, and the totals by continent to the total.
pub proof fn lemma_continents_partition(txs: Seq<Transaction>)
    ensures
        count_in(txs, Continent::NorthAmerica) + count_in(txs, Continent::Europe) + count_in(
            txs,
            Continent::Asia,
        ) + count_in(txs, Continent::Oceania) + count_in(txs, Continent::SouthAmerica)
            == txs.len(),
        total_in(txs, Continent::NorthAmerica) + total_in(txs, Continent::Europe) + total_in(
            txs,
            Continent::Asia,
        ) + total_in(txs, Continent::Oceania) + total_in(txs, Continent::SouthAmerica)
            == total_amount(txs),
    decreases txs.len(),
{
    reveal(Seq::filter);
    if txs.len() > 0 {
        let front = txs.drop_last();
        let t = txs.last();
        assert(front.push(t) =~= txs);
        lemma_continents_partition(front);
        lemma_push_transaction(front, t, Continent::NorthAmerica);
        lemma_push_transaction(front, t, Continent::Europe);
        lemma_push_transaction(front, t, Continent::Asia);
        lemma_push_transaction(front, t, Continent::Oceania);
        lemma_push_transaction(front, t, Continent::SouthAmerica);
    }
}

/// Where no transaction lies on a continent, the view by that continent is
/// empty; where one does, it is not.
pub proof fn lemma_empty_view(txs: Seq<Transaction>, continent: Continent)
    ensures
        in_continent(txs, continent).len() == 0 <==> forall|i: int|
            0 <= i < txs.len() ==> txs[i].continent != continent,
        in_continent(txs, continent).len() <= txs.len(),
    decreases txs.len(),
{
    reveal(Seq::filter);
    if txs.len() > 0 {
        let front = txs.drop_last();
        lemma_empty_view(front, continent);
        if in_continent(txs, continent).len() == 0 {
            assert forall|i: int| 0 <= i < txs.len() implies txs[i].continent != continent by {
                if i < front.len() {
                    assert(front[i] == txs[i]);
                }
            }
        } else if txs.last().continent != continent {
            let i = choose|i: int| 0 <= i < front.len() && front[i].continent == continent;
            assert(txs[i].continent == continent);
        }
    }
}

/// Replacing one entry changes the two sums by what that entry changes, and
/// no entry is larger than the sums.
pub proof fn lemma_replace_entry(entries: Seq<ContinentTotal>, k: int, entry: ContinentTotal)
    requires
        0 <= k < entries.len(),
    ensures
        entries[k].count <= count_sum(entries),
        entries[k].total_micros <= total_sum(entries),
        count_sum(entries.update(k, entry)) == count_sum(entries) - entries[k].count + entry.count,
        total_sum(entries.update(k, entry)) == total_sum(entries) - entries[k].total_micros
            + entry.total_micros,
    decreases entries.len(),
{
    let replaced = entries.update(k, entry);
    if k == entries.len() - 1 {
        assert(replaced.drop_last() =~= entries.drop_last());
    } else {
        lemma_replace_entry(entries.drop_last(), k, entry);
        assert(replaced.drop_last() =~= entries.drop_last().update(k, entry));
    }
}

/// The position of the entry for `continent`, if there is one.
fn find_entry(entries: &Vec<ContinentTotal>, continent: Continent) -> (r: Option<usize>)
    ensures
        match r {
            Some(k) => k < entries.len() && entries[k as int].continent == continent,
            None => forall|j: int| 0 <= j < entries.len() ==> entries[j].continent != continent,
        },
{
    let mut k: usize = 0;
    while k < entries.len()
        invariant
            k <= entries.len(),
            forall|j: int| 0 <= j < k ==> entries[j].continent != continent,
        decreases entries.len() - k,
    {
        if entries[k].continent == continent {
            return Some(k);
        }
        k += 1;
    }
    None
}

/// Folds the transactions into totals by continent. A continent gets its
/// entry when its first transaction comes; one without transactions has none.
pub fn analyze_by_continent(transactions: &Vec<Transaction>) -> (r: ContinentAnalysis)
    ensures
        is_summary_of(r.entries@, transactions@),
        r.count == transactions.len(),
        r.total_micros == total_amount(transactions@),
        count_sum(r.entries@) == r.count,
        total_sum(r.entries@) == r.total_micros,
{
    let ghost txs = transactions@;
    let mut entries: Vec<ContinentTotal> = Vec::new();
    let mut total: u128 = 0;
    let mut i: usize = 0;
    while i < transactions.len()
        invariant
            i <= transactions.len(),
            txs == transactions@,
            is_summary_of(entries@, txs.take(i as int)),
            total == total_amount(txs.take(i as int)),
            count_sum(entries@) == i,
            total_sum(entries@) == total,
            total <= i * 0xFFFF_FFFF_FFFF_FFFF,
        decreases transactions.len() - i,
    {
        let t = &transactions[i];
        let ghost seen = txs.take(i as int);
        let ghost next = txs.take(i + 1);
        let ghost old_entries = entries@;
        proof {
            assert(next =~= seen.push(*t));
            assert(next.drop_last() =~= seen);
            lemma_continents_seen(seen);
            lemma_push_transaction(seen, *t, t.continent);
            assert forall|c: Continent|
                count_in(next, c) == count_in(seen, c) + if t.continent == c {
                    1nat
                } else {
                    0nat
                } && total_in(next, c) == total_in(seen, c) + if t.continent == c {
                    t.amount.micros as nat
                } else {
                    0nat
                } by {
                lemma_push_transaction(seen, *t, c);
            }
        }
        match find_entry(&entries, t.continent) {
            Some(k) => {
                let entry = entries[k];
                proof {
                    lemma_replace_entry(old_entries, k as int, entry);
                    assert(continents_seen(seen)[k as int] == t.continent);
                    assert(continents_seen(seen).contains(t.continent));
                }
                let grown = ContinentTotal {
                    continent: entry.continent,
                    total_micros: entry.total_micros + t.amount.micros as u128,
                    count: entry.count + 1,
                };
                entries.set(k, grown);
                proof {
                    lemma_replace_entry(old_entries, k as int, grown);
                }
            },
            None => {
                proof {
                    assert(!continents_seen(seen).contains(t.continent)) by {
                        if continents_seen(seen).contains(t.continent) {
                            let j = choose|j: int|
                                0 <= j < continents_seen(seen).len() && continents_seen(seen)[j]
                                    == t.continent;
                            assert(old_entries[j].continent == t.continent);
                        }
                    }
                    assert(count_in(seen, t.continent) == 0);
                    assert(in_continent(seen, t.continent).len() == 0);
                }
                let first = ContinentTotal {
                    continent: t.continent,
                    total_micros: t.amount.micros as u128,
                    count: 1,
                };
                entries.push(first);
                proof {
                    assert(entries@.drop_last() =~= old_entries);
                }
            },
        }
        total = total + t.amount.micros as u128;
        i += 1;
    }
    assert(txs.take(i as int) =~= txs);
    ContinentAnalysis { entries, total_micros: total, count: i }
}

/// The mean of `count` amounts that sum up to `total_micros`.
pub fn average(total_micros: u128, count: usize) -> (r: Option<u128>)
    ensures
        r == average_of(total_micros, count),
{
    if count == 0 {
        None
    } else {
        Some(total_micros / (count as u128))
    }
}

impl ContinentTotal {
    /// The mean amount on the continent, in millionths.
    pub fn average(&self) -> (r: Option<u128>)
        ensures
            r == average_of(self.total_micros, self.count),
    {
        average(self.total_micros, self.count)
    }
}

impl ContinentAnalysis {
    /// The mean amount over all transactions, in millionths.
    pub fn average(&self) -> (r: Option<u128>)
        ensures
            r == average_of(self.total_micros, self.count),
    {
        average(self.total_micros, self.count)
    }
}

/// The transactions on the continent `target`, in their order. Where there
/// are none the result is empty.
pub fn filter_by_continent<'a>(transactions: &'a Vec<Transaction>, target: Continent) -> (r: Vec<
    &'a Transaction,
>)
    ensures
        r@.len() == in_continent(transactions@, target).len(),
        forall|i: int| 0 <= i < r@.len() ==> *r@[i] == in_continent(transactions@, target)[i],
        (forall|i: int| 0 <= i < transactions.len() ==> transactions[i].continent != target)
            ==> r@.len() == 0,
{
    let ghost txs = transactions@;
    let mut out: Vec<&Transaction> = Vec::new();
    let mut i: usize = 0;
    proof {
        reveal(Seq::filter);
    }
    while i < transactions.len()
        invariant
            i <= transactions.len(),
            txs == transactions@,
            out@.len() == in_continent(txs.take(i as int), target).len(),
            forall|j: int|
                0 <= j < out@.len() ==> *out@[j] == in_continent(txs.take(i as int), target)[j],
            (forall|j: int| 0 <= j < i ==> txs[j].continent != target) ==> out@.len() == 0,
        decreases transactions.len() - i,
    {
        let t = &transactions[i];
        proof {
            reveal(Seq::filter);
            assert(txs.take(i + 1).drop_last() =~= txs.take(i as int));
            assert(txs.take(i + 1).last() == *t);
        }
        if t.continent == target {
            out.push(t);
        }
        i += 1;
    }
    assert(txs.take(i as int) =~= txs);
    out
}

} // verus!
