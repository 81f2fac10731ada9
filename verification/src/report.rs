//! The aggregation of what the subscribing peers report into the result of
//! a round.
//!
//! A receive rate is kept as an exact fraction: its numerator and its
//! denominator. A denominator of zero marks a rate that is not defined.

use crate::file_name::{file_name_text, report_file_name};
use vstd::prelude::*;

verus! {

/// A rate as an exact fraction. Where `den` is zero the rate is not defined.
#[derive(Clone, Copy, Debug, PartialEq, Eq)]
pub struct Ratio {
    pub num: u128,
    pub den: u128,
}

impl Ratio {
    /// Whether the rate is a number: its denominator is not zero.
    pub fn is_defined(&self) -> (defined: bool)
        ensures
            defined == (self.den != 0),
    {
        self.den != 0
    }
}

/// What one subscribing peer received, against what it was expected to
/// receive.
#[derive(Clone, Copy, Debug, PartialEq, Eq)]
pub struct PeerResult {
    pub peer_id: usize,
    pub recvd_msg_num: usize,
    pub expected_msg_num: usize,
}

impl PeerResult {
    /// The receive rate of the peer: received over expected.
    pub open spec fn rate(self) -> Ratio {
        Ratio { num: self.recvd_msg_num as u128, den: self.expected_msg_num as u128 }
    }

    /// The receive rate of the peer: received over expected.
    pub fn receive_rate(&self) -> (rate: Ratio)
        ensures
            rate == self.rate(),
            rate.num == self.recvd_msg_num,
            rate.den == self.expected_msg_num,
    {
        Ratio { num: self.recvd_msg_num as u128, den: self.expected_msg_num as u128 }
    }
}

/// The result of a round.
#[derive(Clone, Debug, PartialEq, Eq)]
pub struct TestResult {
    /// The number of peers that reported.
    pub total_sub_returned: usize,
    /// All that was received over all that was expected.
    pub total_receive_rate: Ratio,
    /// One entry for each report, in ascending order of the peers.
    pub per_peer_result: Vec<PeerResult>,
}

/// The result of a round and the name of the file it is written to.
#[derive(Clone, Debug, PartialEq, Eq)]
pub struct Report {
    pub file_name: String,
    pub result: TestResult,
}

/// Why a round has no report.
#[derive(Clone, Copy, Debug, PartialEq, Eq)]
pub enum ReportError {
    /// The number of messages that each peer is expected to receive is more
    /// than a `usize` holds.
    ExpectedCountOverflow,
}

/// The number of messages that each subscribing peer is expected to receive:
/// every publisher, the additional ones included, emits `num_msgs_per_peer`.
pub open spec fn expected_total(
    total_put_number: usize,
    additional_pub_num: usize,
    num_msgs_per_peer: usize,
) -> int {
    (total_put_number + additional_pub_num) * num_msgs_per_peer
}

/// The entries of the reports `data`, in the order of arrival: for each
/// report its peer and the number of its samples.
pub open spec fn tally<T>(data: Seq<(usize, Vec<T>)>, expected: usize) -> Seq<PeerResult> {
    Seq::new(
        data.len(),
        |i: int|
            PeerResult {
                peer_id: data[i].0,
                recvd_msg_num: data[i].1@.len() as usize,
                expected_msg_num: expected,
            },
    )
}

/// The entries of `results` that belong to the peer `id`, in their order.
pub open spec fn reports_of(results: Seq<PeerResult>, id: usize) -> Seq<PeerResult> {
    results.filter(|r: PeerResult| r.peer_id == id)
}

/// Whether `results` are in ascending order of their peers.
pub open spec fn sorted_by_peer(results: Seq<PeerResult>) -> bool {
    forall|i: int, j: int|
        0 <= i <= j < results.len() ==> results[i].peer_id <= results[j].peer_id
}

/// Whether `sorted` holds the entries of `results` in ascending order of
/// their peers, those of one peer in the order they have in `results`.
pub open spec fn stably_sorted(results: Seq<PeerResult>, sorted: Seq<PeerResult>) -> bool {
    &&& sorted.len() == results.len()
    &&& sorted_by_peer(sorted)
    &&& forall|id: usize| #[trigger] reports_of(sorted, id) == reports_of(results, id)
}

/// The number of messages received over all of `results`.
pub open spec fn total_received(results: Seq<PeerResult>) -> nat
    decreases results.len(),
{
    if results.len() == 0 {
        0
    } else {
        total_received(results.drop_last()) + results.last().recvd_msg_num as nat
    }
}

/// The entries of one peer in a sequence are those in its front part
/// followed by those in its back part.
pub proof fn lemma_reports_of_add(a: Seq<PeerResult>, b: Seq<PeerResult>, id: usize)
    ensures
        reports_of(a + b, id) == reports_of(a, id) + reports_of(b, id),
{
    Seq::filter_distributes_over_add(a, b, |r: PeerResult| r.peer_id == id);
}

/// The entries of one peer in a sequence of a single entry.
pub proof fn lemma_reports_of_one(x: PeerResult, id: usize)
    ensures
        reports_of(seq![x], id) == if x.peer_id == id {
            seq![x]
        } else {
            Seq::<PeerResult>::empty()
        },
{
    reveal_with_fuel(Seq::filter, 2);
    let one = seq![x];
    assert(one.drop_last() =~= Seq::<PeerResult>::empty());
    assert(one.last() == x);
    assert(Seq::<PeerResult>::empty().push(x) =~= seq![x]);
}

/// A peer without an entry in a sequence has no entries there.
pub proof fn lemma_reports_of_none(s: Seq<PeerResult>, id: usize)
    requires
        forall|i: int| 0 <= i < s.len() ==> s[i].peer_id != id,
    ensures
        reports_of(s, id) == Seq::<PeerResult>::empty(),
    decreases s.len(),
{
    reveal_with_fuel(Seq::filter, 2);
    if s.len() > 0 {
        lemma_reports_of_none(s.drop_last(), id);
    }
}

/// What was received over a sequence is what was received over its front
/// part and over its back part.
pub proof fn lemma_total_received_add(a: Seq<PeerResult>, b: Seq<PeerResult>)
    ensures
        total_received(a + b) == total_received(a) + total_received(b),
    decreases b.len(),
{
    if b.len() == 0 {
        assert(a + b =~= a);
    } else {
        lemma_total_received_add(a, b.drop_last());
        assert((a + b).drop_last() =~= a + b.drop_last());
        assert((a + b).last() == b.last());
    }
}

/// Each entry counts at most `usize::MAX` messages.
pub proof fn lemma_total_received_bound(s: Seq<PeerResult>)
    ensures
        total_received(s) <= s.len() * usize::MAX,
    decreases s.len(),
{
    if s.len() > 0 {
        lemma_total_received_bound(s.drop_last());
        assert(s.drop_last().len() * usize::MAX + usize::MAX == s.len() * usize::MAX)
            by (nonlinear_arith)
            requires
                s.drop_last().len() + 1 == s.len(),
        ;
    }
}

/// Putting `x` into a sorted sequence behind every entry of a peer up to
/// its own, and before every entry of a later peer, keeps the sequence
/// sorted and adds `x` as the last entry of its peer.
proof fn lemma_insert_keeps_order(sorted: Seq<PeerResult>, p: int, x: PeerResult)
    requires
        sorted_by_peer(sorted),
        0 <= p <= sorted.len(),
        forall|j: int| 0 <= j < p ==> sorted[j].peer_id <= x.peer_id,
        forall|j: int| p <= j < sorted.len() ==> sorted[j].peer_id > x.peer_id,
    ensures
        sorted_by_peer(sorted.insert(p, x)),
        forall|id: usize| #[trigger]
            reports_of(sorted.insert(p, x), id) == reports_of(sorted, id) + reports_of(seq![x], id),
        total_received(sorted.insert(p, x)) == total_received(sorted) + x.recvd_msg_num,
{
    let front = sorted.take(p);
    let back = sorted.skip(p);
    let one = seq![x];
    let next = sorted.insert(p, x);
    assert(next =~= front + one + back);
    assert(sorted =~= front + back);
    assert forall|id: usize| #[trigger]
        reports_of(next, id) == reports_of(sorted, id) + reports_of(one, id) by {
        lemma_reports_of_add(front + one, back, id);
        lemma_reports_of_add(front, one, id);
        lemma_reports_of_add(front, back, id);
        lemma_reports_of_one(x, id);
        if x.peer_id == id {
            lemma_reports_of_none(back, id);
            assert(reports_of(front, id) + Seq::<PeerResult>::empty() =~= reports_of(front, id));
            assert(reports_of(sorted, id) =~= reports_of(front, id));
        } else {
            assert(reports_of(front, id) + Seq::<PeerResult>::empty() + reports_of(back, id)
                =~= reports_of(front, id) + reports_of(back, id));
            assert(reports_of(sorted, id) + Seq::<PeerResult>::empty() =~= reports_of(sorted, id));
        }
    }
    lemma_total_received_add(front + one, back);
    lemma_total_received_add(front, one);
    lemma_total_received_add(front, back);
    assert(one.drop_last() =~= Seq::<PeerResult>::empty());
    assert(total_received(one) == x.recvd_msg_num) by {
        reveal_with_fuel(total_received, 2);
    }
}

/// The number of messages that each subscribing peer is expected to
/// receive, or `None` where that is more than a `usize` holds.
pub fn expected_msg_num(
    total_put_number: usize,
    additional_pub_num: usize,
    num_msgs_per_peer: usize,
) -> (expected: Option<usize>)
    ensures
        expected matches Some(n) ==> n == expected_total(
            total_put_number,
            additional_pub_num,
            num_msgs_per_peer,
        ),
        expected is None <==> expected_total(total_put_number, additional_pub_num, num_msgs_per_peer)
            > usize::MAX,
{
    if num_msgs_per_peer == 0 {
        assert((total_put_number + additional_pub_num) * 0 == 0);
        return Some(0);
    }
    let publishers = match total_put_number.checked_add(additional_pub_num) {
        Some(publishers) => publishers,
        None => {
            assert((total_put_number + additional_pub_num) * num_msgs_per_peer > usize::MAX)
                by (nonlinear_arith)
                requires
                    total_put_number + additional_pub_num > usize::MAX,
                    num_msgs_per_peer >= 1,
            ;
            return None;
        },
    };
    publishers.checked_mul(num_msgs_per_peer)
}

/// The entries of the reports `data`, in the order of arrival.
pub fn tally_reports<T>(data: &Vec<(usize, Vec<T>)>, expected: usize) -> (results: Vec<PeerResult>)
    ensures
        results@ == tally(data@, expected),
{
    let mut results: Vec<PeerResult> = Vec::new();
    let mut i: usize = 0;
    while i < data.len()
        invariant
            i <= data.len(),
            results@ == tally(data@.take(i as int), expected),
        decreases data.len() - i,
    {
        let entry = PeerResult {
            peer_id: data[i].0,
            recvd_msg_num: data[i].1.len(),
            expected_msg_num: expected,
        };
        results.push(entry);
        i += 1;
        assert(results@ =~= tally(data@.take(i as int), expected));
    }
    assert(data@.take(i as int) =~= data@);
    results
}

/// Sorts `results` by peer, ascending. The sort is stable: the entries of
/// one peer keep the order in which they arrived.
pub fn sort_by_peer(results: &Vec<PeerResult>) -> (sorted: Vec<PeerResult>)
    ensures
        stably_sorted(results@, sorted@),
        total_received(sorted@) == total_received(results@),
{
    let mut sorted: Vec<PeerResult> = Vec::new();
    let mut i: usize = 0;
    assert forall|id: usize| #[trigger]
        reports_of(sorted@, id) == reports_of(results@.take(0), id) by {
        lemma_reports_of_none(sorted@, id);
        lemma_reports_of_none(results@.take(0), id);
    }
    while i < results.len()
        invariant
            i <= results.len(),
            sorted@.len() == i,
            sorted_by_peer(sorted@),
            forall|id: usize| #[trigger]
                reports_of(sorted@, id) == reports_of(results@.take(i as int), id),
            total_received(sorted@) == total_received(results@.take(i as int)),
        decreases results.len() - i,
    {
        let x = results[i];
        let mut p: usize = sorted.len();
        while p > 0 && sorted[p - 1].peer_id > x.peer_id
            invariant
                p <= sorted.len(),
                forall|j: int| p <= j < sorted.len() ==> sorted@[j].peer_id > x.peer_id,
            decreases p,
        {
            p -= 1;
        }
        proof {
            assert forall|j: int| 0 <= j < p implies sorted@[j].peer_id <= x.peer_id by {
                assert(sorted@[j].peer_id <= sorted@[p - 1].peer_id);
            }
            lemma_insert_keeps_order(sorted@, p as int, x);
            let earlier = results@.take(i as int);
            assert(results@.take(i + 1) =~= earlier + seq![x]);
            assert forall|id: usize| #[trigger]
                reports_of(sorted@.insert(p as int, x), id) == reports_of(
                    results@.take(i + 1),
                    id,
                ) by {
                lemma_reports_of_add(earlier, seq![x], id);
                assert(reports_of(sorted@, id) == reports_of(earlier, id));
            }
            lemma_total_received_add(earlier, seq![x]);
            assert(seq![x].drop_last() =~= Seq::<PeerResult>::empty());
            assert(total_received(seq![x]) == x.recvd_msg_num) by {
                reveal_with_fuel(total_received, 2);
            }
        }
        sorted.insert(p, x);
        i += 1;
    }
    assert(results@.take(i as int) =~= results@);
    sorted
}

/// The number of messages received over all of `results`.
pub fn sum_received(results: &Vec<PeerResult>) -> (total: u128)
    ensures
        total == total_received(results@),
{
    let mut total: u128 = 0;
    let mut i: usize = 0;
    while i < results.len()
        invariant
            i <= results.len(),
            total == total_received(results@.take(i as int)),
        decreases results.len() - i,
    {
        proof {
            let upto = results@.take(i + 1);
            assert(upto.drop_last() =~= results@.take(i as int));
            lemma_total_received_bound(upto);
            assert(upto.len() * usize::MAX <= 0xffff_ffff_ffff_ffff * 0xffff_ffff_ffff_ffff)
                by (nonlinear_arith)
                requires
                    upto.len() <= 0xffff_ffff_ffff_ffff,
                    usize::MAX <= 0xffff_ffff_ffff_ffff,
            ;
        }
        total = total + results[i].recvd_msg_num as u128;
        i += 1;
    }
    assert(results@.take(i as int) =~= results@);
    total
}

/// The aggregator. `vector_data` holds the reports of the round as they
/// arrived: for each one its peer and its samples.
///
/// The result holds one entry for each report, sorted by peer, each with the
/// number of samples of the report and with the number of messages that every
/// peer is expected to receive, `(total_put_number + additional_pub_num) *
/// num_msgs_per_peer`. The total receive rate is all that was received over
/// all that was expected, the number of reports times the expected number;
/// without a report it is not defined. The file name is made of the five
/// parameters of the round.
///
/// The only error is an expected number that a `usize` does not hold.
pub fn demonstration_worker<T>(
    vector_data: &Vec<(usize, Vec<T>)>,
    total_put_number: usize,
    total_sub_number: usize,
    num_msgs_per_peer: usize,
    additional_pub_num: usize,
    payload_size: usize,
    round_timeout: u64,
) -> (report: Result<Report, ReportError>)
    ensures
        report is Err <==> expected_total(total_put_number, additional_pub_num, num_msgs_per_peer)
            > usize::MAX,
        report matches Err(e) ==> e == ReportError::ExpectedCountOverflow,
        report matches Ok(r) ==> {
            let expected = expected_total(total_put_number, additional_pub_num, num_msgs_per_peer);
            let entries = r.result.per_peer_result@;
            &&& r.file_name@ == file_name_text(
                total_put_number as nat,
                total_sub_number as nat,
                num_msgs_per_peer as nat,
                payload_size as nat,
                round_timeout as nat,
            )
            &&& r.result.total_sub_returned == vector_data@.len()
            &&& stably_sorted(tally(vector_data@, expected as usize), entries)
            &&& forall|i: int|
                0 <= i < entries.len() ==> (#[trigger] entries[i]).expected_msg_num == expected
            &&& r.result.total_receive_rate.num == total_received(entries)
            &&& r.result.total_receive_rate.num == total_received(
                tally(vector_data@, expected as usize),
            )
            &&& r.result.total_receive_rate.den == entries.len() * expected
        },
{
    let expected = match expected_msg_num(total_put_number, additional_pub_num, num_msgs_per_peer) {
        Some(expected) => expected,
        None => {
            return Err(ReportError::ExpectedCountOverflow);
        },
    };
    let arrived = tally_reports(vector_data, expected);
    let per_peer_result = sort_by_peer(&arrived);
    let received = sum_received(&per_peer_result);
    let count = per_peer_result.len();
    proof {
        assert(count * expected <= 0xffff_ffff_ffff_ffff * 0xffff_ffff_ffff_ffff)
            by (nonlinear_arith)
            requires
                0 <= count <= 0xffff_ffff_ffff_ffff,
                0 <= expected <= 0xffff_ffff_ffff_ffff,
        ;
        lemma_entries_expect(arrived@, per_peer_result@, expected);
    }
    let expected_overall: u128 = count as u128 * expected as u128;
    let file_name = report_file_name(
        total_put_number,
        total_sub_number,
        num_msgs_per_peer,
        payload_size,
        round_timeout,
    );
    Ok(
        Report {
            file_name,
            result: TestResult {
                total_sub_returned: count,
                total_receive_rate: Ratio { num: received, den: expected_overall },
                per_peer_result,
            },
        },
    )
}

/// Sorting neither adds an entry nor changes one: where every entry before
/// the sort expects `expected` messages, so does every entry after it.
pub proof fn lemma_entries_expect(results: Seq<PeerResult>, sorted: Seq<PeerResult>, expected: usize)
    requires
        stably_sorted(results, sorted),
        forall|i: int| 0 <= i < results.len() ==> (#[trigger] results[i]).expected_msg_num == expected,
    ensures
        forall|i: int| 0 <= i < sorted.len() ==> (#[trigger] sorted[i]).expected_msg_num == expected,
{
    broadcast use vstd::seq_lib::group_filter_ensures;

    assert forall|i: int| 0 <= i < sorted.len() implies (#[trigger] sorted[i]).expected_msg_num
        == expected by {
        let id = sorted[i].peer_id;
        let pred = |r: PeerResult| r.peer_id == id;
        assert(pred(sorted[i]));
        assert(sorted.filter(pred).contains(sorted[i]));
        assert(reports_of(sorted, id) == reports_of(results, id));
        assert(results.filter(pred).contains(sorted[i]));
        results.lemma_filter_contains_rev(pred, sorted[i]);
        assert(results.contains(sorted[i]));
    }
}

/// The entries of one peer in a sequence, told from its last entry.
proof fn lemma_reports_of_last(s: Seq<PeerResult>, id: usize)
    requires
        s.len() > 0,
    ensures
        reports_of(s, id) == if s.last().peer_id == id {
            reports_of(s.drop_last(), id).push(s.last())
        } else {
            reports_of(s.drop_last(), id)
        },
{
    reveal_with_fuel(Seq::filter, 2);
}

/// In a sorted sequence no peer has an entry that lies behind the peer of
/// the last entry.
proof fn lemma_last_peer_is_greatest(s: Seq<PeerResult>, x: PeerResult)
    requires
        sorted_by_peer(s),
        s.len() > 0,
        reports_of(s, x.peer_id).contains(x),
    ensures
        x.peer_id <= s.last().peer_id,
{
    s.lemma_filter_contains_rev(|r: PeerResult| r.peer_id == x.peer_id, x);
    let j = choose|j: int| 0 <= j < s.len() && s[j] == x;
    assert(s[j].peer_id <= s[s.len() - 1].peer_id);
}

/// The order of arrival decides the sorted sequence: there is one sequence
/// only that holds the entries of `results` in ascending order of their
/// peers, those of each peer in their order of arrival.
pub proof fn lemma_stable_sort_unique(
    results: Seq<PeerResult>,
    first: Seq<PeerResult>,
    second: Seq<PeerResult>,
)
    requires
        stably_sorted(results, first),
        stably_sorted(results, second),
    ensures
        first == second,
{
    assert forall|id: usize| #[trigger] reports_of(first, id) == reports_of(second, id) by {
        assert(reports_of(first, id) == reports_of(results, id));
        assert(reports_of(second, id) == reports_of(results, id));
    }
    lemma_sorted_unique(first, second);
}

proof fn lemma_sorted_unique(a: Seq<PeerResult>, b: Seq<PeerResult>)
    requires
        a.len() == b.len(),
        sorted_by_peer(a),
        sorted_by_peer(b),
        forall|id: usize| #[trigger] reports_of(a, id) == reports_of(b, id),
    ensures
        a == b,
    decreases a.len(),
{
    if a.len() == 0 {
        assert(a =~= b);
    } else {
        let x = a.last();
        let y = b.last();
        lemma_reports_of_last(a, x.peer_id);
        lemma_reports_of_last(b, y.peer_id);
        assert(reports_of(a, x.peer_id).last() == x);
        assert(reports_of(b, y.peer_id).last() == y);
        assert(reports_of(a, x.peer_id) == reports_of(b, x.peer_id));
        assert(reports_of(a, y.peer_id) == reports_of(b, y.peer_id));
        assert(reports_of(b, x.peer_id).contains(x)) by {
            let r = reports_of(a, x.peer_id);
            assert(r[r.len() - 1] == x);
        }
        assert(reports_of(a, y.peer_id).contains(y)) by {
            let r = reports_of(b, y.peer_id);
            assert(r[r.len() - 1] == y);
        }
        lemma_last_peer_is_greatest(b, x);
        lemma_last_peer_is_greatest(a, y);
        assert(x.peer_id == y.peer_id);
        assert(x == y);
        let front_a = a.drop_last();
        let front_b = b.drop_last();
        assert forall|id: usize| #[trigger] reports_of(front_a, id) == reports_of(front_b, id) by {
            lemma_reports_of_last(a, id);
            lemma_reports_of_last(b, id);
            assert(reports_of(a, id) == reports_of(b, id));
            if id == x.peer_id {
                let ra = reports_of(front_a, id);
                let rb = reports_of(front_b, id);
                assert(ra.push(x).drop_last() =~= ra);
                assert(rb.push(y).drop_last() =~= rb);
            }
        }
        lemma_sorted_unique(front_a, front_b);
        assert(a =~= front_a.push(x));
        assert(b =~= front_b.push(y));
    }
}

} // verus!
