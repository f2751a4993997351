//! Progress accumulation: byte-count reports from completed transfer units
//! are folded into a cumulative counter. The counter itself is plain data;
//! callers that share it between concurrent tasks serialize access around it,
//! so every history of reports is some sequence of `on_report` calls.

use vstd::prelude::*;

verus! {

/// One completed unit of transfer work, measured in bytes.
#[derive(Clone, Copy, Debug, PartialEq, Eq, Structural)]
pub struct ProgressReport {
    pub bytes: u64,
}

/// Sum of a sequence of byte counts, as an unbounded integer.
pub open spec fn sum_bytes(s: Seq<u64>) -> int
    decreases s.len(),
{
    if s.len() == 0 {
        0
    } else {
        s[0] + sum_bytes(s.drop_first())
    }
}

/// The byte counts carried by a sequence of reports.
pub open spec fn bytes_of(reports: Seq<ProgressReport>) -> Seq<u64> {
    reports.map_values(|r: ProgressReport| r.bytes)
}

/// Cumulative progress state: bytes done so far, against a fixed
/// total used only to size a user-facing indicator.
pub struct ProgressCounter {
    pub done: u64,
    pub total: u64,
}

impl ProgressCounter {
    /// A fresh counter: nothing done yet, denominator fixed at `total`.
    pub fn new(total: u64) -> (r: ProgressCounter)
        ensures
            r.done == 0,
            r.total == total,
    {
        ProgressCounter { done: 0, total }
    }

    /// Fold one report into the cumulative count. The count saturates at
    /// `u64::MAX` rather than overflow; below that bound no byte is lost.
    pub fn on_report(&mut self, report: &ProgressReport)
        ensures
            final(self).total == old(self).total,
            old(self).done + report.bytes <= u64::MAX ==> final(self).done == old(self).done
                + report.bytes,
            old(self).done + report.bytes > u64::MAX ==> final(self).done == u64::MAX,
    {
        self.done = self.done.saturating_add(report.bytes);
    }

    /// Fold a whole batch of reports, in order. Any sequential interleaving
    /// of the same multiset of reports ends at the same count
    /// (see `lemma_sum_bytes_order_insensitive`).
    pub fn apply_reports(&mut self, reports: &Vec<ProgressReport>)
        ensures
            final(self).total == old(self).total,
            old(self).done + sum_bytes(bytes_of(reports@)) <= u64::MAX ==> final(self).done == old(
                self,
            ).done + sum_bytes(bytes_of(reports@)),
            old(self).done + sum_bytes(bytes_of(reports@)) > u64::MAX ==> final(self).done
                == u64::MAX,
    {
        let ghost all = bytes_of(reports@);
        let ghost start = self.done as int;
        let mut i: usize = 0;
        while i < reports.len()
            invariant
                i <= reports.len(),
                all == bytes_of(reports@),
                self.total == old(self).total,
                start == old(self).done,
                start + sum_bytes(all.take(i as int)) <= u64::MAX ==> self.done == start
                    + sum_bytes(all.take(i as int)),
                start + sum_bytes(all.take(i as int)) > u64::MAX ==> self.done == u64::MAX,
            decreases reports.len() - i,
        {
            proof {
                lemma_sum_bytes_take_step(all, i as int);
                lemma_sum_bytes_nonneg(all.take(i as int));
            }
            self.on_report(&reports[i]);
            i = i + 1;
        }
        proof {
            assert(all.take(reports@.len() as int) =~= all);
        }
    }
}

/// Extending a prefix by one element adds exactly that element to its sum.
pub proof fn lemma_sum_bytes_take_step(s: Seq<u64>, i: int)
    requires
        0 <= i < s.len(),
    ensures
        sum_bytes(s.take(i + 1)) == sum_bytes(s.take(i)) + s[i],
{
    lemma_sum_bytes_push(s.take(i), s[i]);
    assert(s.take(i + 1) =~= s.take(i).push(s[i]));
}

/// Appending one count adds exactly that count to the sum.
proof fn lemma_sum_bytes_push(s: Seq<u64>, x: u64)
    ensures
        sum_bytes(s.push(x)) == sum_bytes(s) + x,
    decreases s.len(),
{
    if s.len() == 0 {
        assert(s.push(x).drop_first() =~= Seq::<u64>::empty());
        assert(sum_bytes(s.push(x).drop_first()) == 0);
        assert(s.push(x)[0] == x);
    } else {
        assert(s.push(x).drop_first() =~= s.drop_first().push(x));
        lemma_sum_bytes_push(s.drop_first(), x);
        assert(s.push(x)[0] == s[0]);
    }
}

/// A sum of byte counts is never negative.
pub proof fn lemma_sum_bytes_nonneg(s: Seq<u64>)
    ensures
        sum_bytes(s) >= 0,
    decreases s.len(),
{
    if s.len() > 0 {
        lemma_sum_bytes_nonneg(s.drop_first());
    }
}

/// Removing the count at index `i` subtracts exactly that count.
proof fn lemma_sum_bytes_remove(s: Seq<u64>, i: int)
    requires
        0 <= i < s.len(),
    ensures
        sum_bytes(s.remove(i)) == sum_bytes(s) - s[i],
    decreases s.len(),
{
    if i == 0 {
        assert(s.remove(0) =~= s.drop_first());
    } else {
        assert(s.remove(i).drop_first() =~= s.drop_first().remove(i - 1));
        lemma_sum_bytes_remove(s.drop_first(), i - 1);
    }
}

/// The cumulative total depends only on which reports arrived, not on the
/// order they arrived in: two histories with the same multiset of byte
/// counts have the same sum. This is the no-lost-updates guarantee for a
/// serialized counter under any interleaving of concurrent reporters.
pub proof fn lemma_sum_bytes_order_insensitive(a: Seq<u64>, b: Seq<u64>)
    requires
        a.to_multiset() == b.to_multiset(),
    ensures
        sum_bytes(a) == sum_bytes(b),
    decreases a.len(),
{
    broadcast use vstd::seq_lib::group_to_multiset_ensures;

    if a.len() == 0 {
        vstd::seq_lib::to_multiset_len(a);
        vstd::seq_lib::to_multiset_len(b);
        assert(b.len() == 0);
    } else {
        let x = a[0];
        assert(a.to_multiset().count(x) > 0);
        assert(b.contains(x));
        let i = choose|i: int| 0 <= i < b.len() && b[i] == x;
        assert(a.drop_first() =~= a.remove(0));
        assert(a.remove(0).to_multiset() =~= b.remove(i).to_multiset());
        lemma_sum_bytes_order_insensitive(a.drop_first(), b.remove(i));
        lemma_sum_bytes_remove(b, i);
    }
}

/// Law: after any interleaving of `n` reports of `k` bytes each — any
/// history whose multiset of byte counts is `n` copies of `k` — the
/// accumulated total is exactly `n * k`: no update lost, none doubled.
pub proof fn lemma_uniform_reports_total(history: Seq<u64>, n: nat, k: u64)
    requires
        history.to_multiset() == Seq::new(n, |i: int| k).to_multiset(),
    ensures
        sum_bytes(history) == n * k,
{
    lemma_sum_bytes_order_insensitive(history, Seq::new(n, |i: int| k));
    lemma_sum_bytes_uniform(Seq::new(n, |i: int| k), k);
}

/// A history of `n` reports, each of `k` bytes, sums to exactly `n * k`:
/// no report is lost and none is counted twice.
pub proof fn lemma_sum_bytes_uniform(s: Seq<u64>, k: u64)
    requires
        forall|i: int| 0 <= i < s.len() ==> s[i] == k,
    ensures
        sum_bytes(s) == s.len() * k,
    decreases s.len(),
{
    if s.len() == 0 {
    } else {
        lemma_sum_bytes_uniform(s.drop_first(), k);
        assert(s.len() * k == (s.len() - 1) * k + k) by (nonlinear_arith);
    }
}

} // verus!
