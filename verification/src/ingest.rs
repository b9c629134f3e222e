//! Reading a whole set of records: the header is passed over, every other
//! line is accepted as a transaction or set aside with the reason.

use crate::transaction::{
    describe, error_text, lemma_accepted_line_is_valid, parse_record, ParseErrorKind,
    Transaction, TransactionView,
};
use vstd::prelude::*;

verus! {

/// A line that was set aside.
#[derive(Debug, Clone, PartialEq, Eq)]
pub struct SkippedRecord {
    /// The number of the line in the input, where the header is line 1.
    pub line_number: usize,
    /// Why the line was rejected.
    pub reason: ParseErrorKind,
    /// The line as it was given.
    pub raw_line: String,
}

/// What a `SkippedRecord` holds, with its text as a sequence of characters.
pub ghost struct SkippedView {
    pub line_number: usize,
    pub reason: ParseErrorKind,
    pub raw_line: Seq<char>,
}

impl View for SkippedRecord {
    type V = SkippedView;

    open spec fn view(&self) -> SkippedView {
        SkippedView {
            line_number: self.line_number,
            reason: self.reason,
            raw_line: self.raw_line@,
        }
    }
}

/// What became of a set of lines.
#[derive(Debug, Clone, PartialEq, Eq)]
pub struct Ingested {
    /// The accepted transactions, in the order of their lines.
    pub transactions: Vec<Transaction>,
    /// The lines set aside, in their order.
    pub skipped: Vec<SkippedRecord>,
}

/// The transactions read from `lines`, of which the first is the header.
pub open spec fn accepted(lines: Seq<Seq<char>>) -> Seq<TransactionView>
    decreases lines.len(),
{
    if lines.len() <= 1 {
        Seq::empty()
    } else {
        let before = accepted(lines.drop_last());
        match parse_record(lines.last()) {
            Ok(t) => before.push(t),
            Err(_) => before,
        }
    }
}

/// The lines of `lines` that are set aside, of which the first is the
/// header and is not among them. A line's number is its place in `lines`,
/// counted from 1.
pub open spec fn set_aside(lines: Seq<Seq<char>>) -> Seq<SkippedView>
    decreases lines.len(),
{
    if lines.len() <= 1 {
        Seq::empty()
    } else {
        let before = set_aside(lines.drop_last());
        match parse_record(lines.last()) {
            Ok(_) => before,
            Err(reason) => before.push(
                SkippedView {
                    line_number: lines.len() as usize,
                    reason,
                    raw_line: lines.last(),
                },
            ),
        }
    }
}

/// The texts of `lines`.
pub open spec fn line_views(lines: Seq<String>) -> Seq<Seq<char>> {
    Seq::new(lines.len(), |i: int| lines[i]@)
}

/// The views of `transactions`.
pub open spec fn transaction_views(transactions: Seq<Transaction>) -> Seq<TransactionView> {
    Seq::new(transactions.len(), |i: int| transactions[i]@)
}

/// The views of `records`.
pub open spec fn skipped_views(records: Seq<SkippedRecord>) -> Seq<SkippedView> {
    Seq::new(records.len(), |i: int| records[i]@)
}

impl SkippedRecord {
    /// Why the line was set aside, in words.
    pub fn message(&self) -> (r: String)
        ensures
            r@ == error_text(self.reason, self.raw_line@),
    {
        describe(self.reason, self.raw_line.as_str())
    }
}

/// Reads the lines of an input whose first line is a header. Every other
/// line is read on its own: one that cannot be accepted is set aside with
/// its number, the reason and its text, and the reading goes on.
pub fn process_lines(lines: &Vec<String>) -> (r: Ingested)
    ensures
        transaction_views(r.transactions@) == accepted(line_views(lines@)),
        skipped_views(r.skipped@) == set_aside(line_views(lines@)),
        forall|i: int| 0 <= i < r.transactions.len() ==> (#[trigger] r.transactions[i])@.is_valid(),
        lines.len() > 0 ==> r.transactions.len() + r.skipped.len() == lines.len() - 1,
        lines.len() == 0 ==> r.transactions.len() + r.skipped.len() == 0,
{
    let ghost texts = line_views(lines@);
    let mut transactions: Vec<Transaction> = Vec::new();
    let mut skipped: Vec<SkippedRecord> = Vec::new();
    if lines.len() == 0 {
        assert(transaction_views(transactions@) =~= accepted(texts));
        assert(skipped_views(skipped@) =~= set_aside(texts));
        return Ingested { transactions, skipped };
    }
    let mut i: usize = 1;
    assert(transaction_views(transactions@) =~= accepted(texts.take(1)));
    assert(skipped_views(skipped@) =~= set_aside(texts.take(1)));
    while i < lines.len()
        invariant
            1 <= i <= lines.len(),
            texts == line_views(lines@),
            transaction_views(transactions@) == accepted(texts.take(i as int)),
            skipped_views(skipped@) == set_aside(texts.take(i as int)),
            forall|j: int| 0 <= j < transactions.len() ==> (#[trigger] transactions[j])@.is_valid(),
            transactions.len() + skipped.len() == i - 1,
        decreases lines.len() - i,
    {
        let line = &lines[i];
        let ghost old_transactions = transactions@;
        let ghost old_skipped = skipped@;
        proof {
            assert(texts.take(i + 1).drop_last() =~= texts.take(i as int));
            assert(texts.take(i + 1).last() == line@);
        }
        match Transaction::from_csv_line(line.as_str()) {
            Ok(t) => {
                transactions.push(t);
                assert(transaction_views(transactions@) =~= transaction_views(
                    old_transactions,
                ).push(transactions@.last()@));
            },
            Err(e) => {
                skipped.push(
                    SkippedRecord { line_number: i + 1, reason: e.kind, raw_line: e.raw_line },
                );
                assert(skipped_views(skipped@) =~= skipped_views(old_skipped).push(
                    skipped@.last()@,
                ));
            },
        }
        i += 1;
    }
    assert(texts.take(i as int) =~= texts);
    Ingested { transactions, skipped }
}

/// Every line behind the header is either accepted or set aside: the two
/// results together have one entry for each such line, and every accepted
/// transaction is valid.
pub proof fn lemma_every_line_is_accounted_for(lines: Seq<Seq<char>>)
    ensures
        lines.len() > 0 ==> accepted(lines).len() + set_aside(lines).len() == lines.len() - 1,
        lines.len() == 0 ==> accepted(lines).len() + set_aside(lines).len() == 0,
        forall|i: int| 0 <= i < accepted(lines).len() ==> (#[trigger] accepted(lines)[i]).is_valid(),
    decreases lines.len(),
{
    if lines.len() > 1 {
        lemma_every_line_is_accounted_for(lines.drop_last());
        lemma_accepted_line_is_valid(lines.last());
    }
}

/// What becomes of a line does not depend on the lines around it: adding a
/// line at the end of an input adds its transaction or its rejection at the
/// end of the results, and leaves what was there.
pub proof fn lemma_lines_are_read_independently(lines: Seq<Seq<char>>, line: Seq<char>)
    requires
        lines.len() >= 1,
    ensures
        parse_record(line) matches Ok(t) ==> accepted(lines.push(line)) == accepted(lines).push(t)
            && set_aside(lines.push(line)) == set_aside(lines),
        parse_record(line) matches Err(reason) ==> accepted(lines.push(line)) == accepted(lines)
            && set_aside(lines.push(line)).drop_last() == set_aside(lines) && set_aside(
            lines.push(line),
        ).last().reason == reason && set_aside(lines.push(line)).last().raw_line == line,
{
    assert(lines.push(line).drop_last() =~= lines);
    if parse_record(line) is Err {
        assert(set_aside(lines.push(line)).drop_last() =~= set_aside(lines));
    }
}

} // verus!
