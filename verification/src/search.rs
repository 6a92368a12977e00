//! The search / sort / pagination view over a flow-table snapshot: the
//! read side the inspect page consumes.

use vstd::prelude::*;
use vstd::multiset::Multiset;
use crate::flow::FlowRecord;

verus! {

/// Independent, optional filters over the fields of a flow record. An empty
/// field imposes no constraint; all non-empty fields must hold at once.
pub struct SearchParameters {
    /// Country filter: case-insensitive substring of the record's two-letter
    /// country code, as ASCII bytes, already trimmed by the caller.
    pub country: Vec<u8>,
}

impl SearchParameters {
    /// Parameters that filter nothing out.
    pub fn none() -> (r: SearchParameters)
        ensures
            r.country@ == Seq::<u8>::empty(),
    {
        SearchParameters { country: Vec::new() }
    }
}

/// ASCII uppercase folding of one byte.
pub open spec fn upper(b: u8) -> u8 {
    if 97 <= b && b <= 122 {
        (b - 32) as u8
    } else {
        b
    }
}

/// Case-insensitive substring match of `f` against the two bytes of a
/// country code: empty matches everything, one byte matches either position,
/// two bytes must equal the code, more can match nothing.
pub open spec fn country_matches(f: Seq<u8>, c0: u8, c1: u8) -> bool {
    if f.len() == 0 {
        true
    } else if f.len() == 1 {
        upper(f[0]) == upper(c0) || upper(f[0]) == upper(c1)
    } else if f.len() == 2 {
        upper(f[0]) == upper(c0) && upper(f[1]) == upper(c1)
    } else {
        false
    }
}

/// Whether a record satisfies every non-empty filter field.
pub open spec fn record_matches(r: FlowRecord, f: Seq<u8>) -> bool {
    country_matches(f, r.country.c0, r.country.c1)
}

fn upper_exec(b: u8) -> (r: u8)
    ensures
        r == upper(b),
{
    if 97 <= b && b <= 122 {
        b - 32
    } else {
        b
    }
}

pub fn record_matches_exec(r: &FlowRecord, f: &Vec<u8>) -> (m: bool)
    ensures
        m == record_matches(*r, f@),
{
    if f.len() == 0 {
        true
    } else if f.len() == 1 {
        let fb = upper_exec(f[0]);
        fb == upper_exec(r.country.c0) || fb == upper_exec(r.country.c1)
    } else if f.len() == 2 {
        upper_exec(f[0]) == upper_exec(r.country.c0) && upper_exec(f[1]) == upper_exec(
            r.country.c1,
        )
    } else {
        false
    }
}

/// The records of `s` that match, in the order of `s`.
pub open spec fn filtered(s: Seq<FlowRecord>, f: Seq<u8>) -> Seq<FlowRecord>
    decreases s.len(),
{
    if s.len() == 0 {
        Seq::empty()
    } else {
        let rest = filtered(s.drop_last(), f);
        if record_matches(s.last(), f) {
            rest.push(s.last())
        } else {
            rest
        }
    }
}

/// An empty filter keeps every record, in order.
pub proof fn lemma_filtered_empty(s: Seq<FlowRecord>, f: Seq<u8>)
    requires
        f.len() == 0,
    ensures
        filtered(s, f) == s,
    decreases s.len(),
{
    if s.len() > 0 {
        lemma_filtered_empty(s.drop_last(), f);
        assert(filtered(s, f) =~= s);
    } else {
        assert(filtered(s, f) =~= s);
    }
}

/// Every record the filter keeps comes from `s` and matches; the filter
/// keeps exactly the matching records of `s`, without reordering.
pub proof fn lemma_filtered_sound(s: Seq<FlowRecord>, f: Seq<u8>)
    ensures
        forall|i: int|
            0 <= i < filtered(s, f).len() ==> record_matches(#[trigger] filtered(s, f)[i], f)
                && s.contains(filtered(s, f)[i]),
        forall|i: int|
            0 <= i < s.len() && record_matches(#[trigger] s[i], f) ==> filtered(s, f).contains(
                s[i],
            ),
    decreases s.len(),
{
    if s.len() > 0 {
        lemma_filtered_sound(s.drop_last(), f);
        assert forall|i: int| 0 <= i < filtered(s, f).len() implies record_matches(
            #[trigger] filtered(s, f)[i],
            f,
        ) && s.contains(filtered(s, f)[i]) by {
            if i < filtered(s.drop_last(), f).len() {
                assert(s.drop_last().contains(filtered(s.drop_last(), f)[i]));
                let j = choose|j: int|
                    0 <= j < s.drop_last().len() && s.drop_last()[j] == filtered(
                        s.drop_last(),
                        f,
                    )[i];
                assert(s[j] == filtered(s, f)[i]);
            } else {
                assert(s[s.len() - 1] == filtered(s, f)[i]);
            }
        }
        assert forall|i: int| 0 <= i < s.len() && record_matches(#[trigger] s[i], f) implies
            filtered(s, f).contains(s[i]) by {
            if i < s.len() - 1 {
                assert(s.drop_last()[i] == s[i]);
                assert(filtered(s.drop_last(), f).contains(s[i]));
                let j = choose|j: int|
                    0 <= j < filtered(s.drop_last(), f).len() && filtered(s.drop_last(), f)[j]
                        == s[i];
                assert(filtered(s, f)[j] == s[i]);
            } else {
                assert(filtered(s, f).last() == s[i]);
            }
        }
    }
}

fn filter_records(s: &Vec<FlowRecord>, f: &Vec<u8>) -> (out: Vec<FlowRecord>)
    ensures
        out@ == filtered(s@, f@),
{
    let n = s.len();
    let mut out: Vec<FlowRecord> = Vec::new();
    let mut i: usize = 0;
    while i < n
        invariant
            i <= n,
            n == s@.len(),
            out@ == filtered(s@.subrange(0, i as int), f@),
        decreases n - i,
    {
        proof {
            let pre = s@.subrange(0, i as int);
            let post = s@.subrange(0, i + 1 as int);
            assert(post.drop_last() =~= pre);
            assert(post.last() == s@[i as int]);
        }
        if record_matches_exec(&s[i], f) {
            out.push(s[i]);
        }
        i += 1;
    }
    proof {
        assert(s@.subrange(0, n as int) =~= s@);
    }
    out
}

/// The sort orders the inspect page offers.
#[derive(Clone, Copy, Debug, PartialEq, Eq, Structural)]
pub enum ReportSortType {
    /// `last_seen` descending, ties by `index` descending.
    MostRecent,
    /// Total bytes descending, ties by `last_seen` then `index` descending.
    MostBytes,
    /// Total packets descending, ties by `last_seen` then `index` descending.
    MostPackets,
}

/// Total bytes of a record, both directions.
pub open spec fn bytes_total(r: FlowRecord) -> int {
    r.bytes_out + r.bytes_in
}

/// Total packets of a record, both directions.
pub open spec fn packets_total(r: FlowRecord) -> int {
    r.packets_out + r.packets_in
}

/// `last_seen` descending, ties by `index` descending: the final tie
/// breaker of every sort order.
pub open spec fn recent_ge(a: FlowRecord, b: FlowRecord) -> bool {
    a.last_seen > b.last_seen || (a.last_seen == b.last_seen && a.index >= b.index)
}

/// `a` comes no later than `b` under the chosen sort order. Since distinct
/// records of one snapshot have distinct indexes, this order is total and
/// antisymmetric there: the sorted projection is unique.
pub open spec fn precedes(sort: ReportSortType, a: FlowRecord, b: FlowRecord) -> bool {
    match sort {
        ReportSortType::MostRecent => recent_ge(a, b),
        ReportSortType::MostBytes => bytes_total(a) > bytes_total(b) || (bytes_total(a)
            == bytes_total(b) && recent_ge(a, b)),
        ReportSortType::MostPackets => packets_total(a) > packets_total(b) || (packets_total(a)
            == packets_total(b) && recent_ge(a, b)),
    }
}

/// Pairwise sortedness under the chosen order.
pub open spec fn sorted_by(sort: ReportSortType, s: Seq<FlowRecord>) -> bool {
    forall|i: int, j: int|
        0 <= i < j < s.len() ==> precedes(sort, #[trigger] s[i], #[trigger] s[j])
}

/// `x` inserted in front of the first element it precedes.
pub open spec fn insert_sorted(sort: ReportSortType, x: FlowRecord, s: Seq<FlowRecord>)
    -> Seq<FlowRecord>
    decreases s.len(),
{
    if s.len() == 0 {
        seq![x]
    } else if precedes(sort, x, s[0]) {
        seq![x] + s
    } else {
        seq![s[0]] + insert_sorted(sort, x, s.subrange(1, s.len() as int))
    }
}

/// The canonical sorted projection: every record of `s` inserted in turn.
pub open spec fn sort_spec(sort: ReportSortType, s: Seq<FlowRecord>) -> Seq<FlowRecord>
    decreases s.len(),
{
    if s.len() == 0 {
        Seq::empty()
    } else {
        insert_sorted(sort, s.last(), sort_spec(sort, s.drop_last()))
    }
}

/// Inserting at the first position whose element `x` precedes is what
/// `insert_sorted` does.
proof fn lemma_insert_sorted_at(sort: ReportSortType, x: FlowRecord, s: Seq<FlowRecord>, p: int)
    requires
        0 <= p <= s.len(),
        forall|i: int| 0 <= i < p ==> !precedes(sort, x, #[trigger] s[i]),
        p < s.len() ==> precedes(sort, x, s[p]),
    ensures
        insert_sorted(sort, x, s) == s.subrange(0, p) + seq![x] + s.subrange(p, s.len() as int),
    decreases s.len(),
{
    if s.len() == 0 {
        assert(insert_sorted(sort, x, s) =~= s.subrange(0, p) + seq![x] + s.subrange(
            p,
            s.len() as int,
        ));
    } else if p == 0 {
        assert(insert_sorted(sort, x, s) =~= s.subrange(0, 0) + seq![x] + s.subrange(
            0,
            s.len() as int,
        ));
    } else {
        let tail = s.subrange(1, s.len() as int);
        assert(forall|i: int| 0 <= i < p - 1 ==> !precedes(sort, x, #[trigger] tail[i]));
        lemma_insert_sorted_at(sort, x, tail, p - 1);
        assert(insert_sorted(sort, x, s) =~= s.subrange(0, p) + seq![x] + s.subrange(
            p,
            s.len() as int,
        ));
    }
}

/// Insertion keeps the multiset of records: nothing is lost or invented.
proof fn lemma_insert_sorted_multiset(sort: ReportSortType, x: FlowRecord, s: Seq<FlowRecord>)
    ensures
        insert_sorted(sort, x, s).to_multiset() == s.to_multiset().insert(x),
        insert_sorted(sort, x, s).len() == s.len() + 1,
    decreases s.len(),
{
    broadcast use vstd::seq_lib::group_to_multiset_ensures;
    broadcast use vstd::seq_lib::lemma_multiset_commutative;

    if s.len() == 0 {
        assert(seq![x] =~= Seq::empty().push(x));
        assert(Seq::<FlowRecord>::empty().to_multiset() =~= Multiset::empty());
        assert(insert_sorted(sort, x, s).to_multiset() =~= s.to_multiset().insert(x));
    } else if precedes(sort, x, s[0]) {
        assert(seq![x] =~= Seq::empty().push(x));
        assert((seq![x] + s).to_multiset() =~= s.to_multiset().insert(x));
    } else {
        let tail = s.subrange(1, s.len() as int);
        lemma_insert_sorted_multiset(sort, x, tail);
        assert(seq![s[0]] =~= Seq::empty().push(s[0]));
        assert(seq![s[0]] + tail =~= s);
        assert((seq![s[0]] + insert_sorted(sort, x, tail)).to_multiset() =~= s.to_multiset()
            .insert(x));
    }
}

/// The order is total: of any two records one precedes the other.
proof fn lemma_precedes_total(sort: ReportSortType, a: FlowRecord, b: FlowRecord)
    ensures
        precedes(sort, a, b) || precedes(sort, b, a),
{
}

/// The order is transitive.
proof fn lemma_precedes_trans(sort: ReportSortType, a: FlowRecord, b: FlowRecord, c: FlowRecord)
    ensures
        precedes(sort, a, b) && precedes(sort, b, c) ==> precedes(sort, a, c),
{
}

/// Inserting into a sorted sequence keeps it sorted.
proof fn lemma_insert_sorted_sorted(sort: ReportSortType, x: FlowRecord, s: Seq<FlowRecord>)
    requires
        sorted_by(sort, s),
    ensures
        sorted_by(sort, insert_sorted(sort, x, s)),
    decreases s.len(),
{
    if s.len() == 0 {
    } else if precedes(sort, x, s[0]) {
        let out = seq![x] + s;
        assert forall|i: int, j: int| 0 <= i < j < out.len() implies precedes(
            sort,
            #[trigger] out[i],
            #[trigger] out[j],
        ) by {
            if i == 0 {
                lemma_precedes_trans(sort, x, s[0], out[j]);
            }
        }
    } else {
        let tail = s.subrange(1, s.len() as int);
        assert forall|i: int, j: int| 0 <= i < j < tail.len() implies precedes(
            sort,
            #[trigger] tail[i],
            #[trigger] tail[j],
        ) by {
            assert(tail[i] == s[i + 1] && tail[j] == s[j + 1]);
        }
        lemma_insert_sorted_sorted(sort, x, tail);
        let ins = insert_sorted(sort, x, tail);
        let out = seq![s[0]] + ins;
        lemma_insert_sorted_multiset(sort, x, tail);
        lemma_precedes_total(sort, x, s[0]);
        assert forall|i: int, j: int| 0 <= i < j < out.len() implies precedes(
            sort,
            #[trigger] out[i],
            #[trigger] out[j],
        ) by {
            if i == 0 {
                broadcast use vstd::seq_lib::group_to_multiset_ensures;

                assert(ins.to_multiset().contains(out[j]));
                if out[j] == x {
                    assert(precedes(sort, s[0], x));
                } else {
                    assert(tail.to_multiset().contains(out[j]));
                    let k = choose|k: int| 0 <= k < tail.len() && tail[k] == out[j];
                    if k == 0 {
                        assert(precedes(sort, s[0], s[1]));
                    } else {
                        assert(precedes(sort, s[1int], tail[k]));
                        lemma_precedes_trans(sort, s[0int], s[1int], tail[k]);
                    }
                }
            }
        }
    }
}

/// The canonical sorted projection is sorted and holds exactly the records
/// of `s`: what "sorting" promises, proved of `sort_spec`.
pub proof fn lemma_sort_spec_ensures(sort: ReportSortType, s: Seq<FlowRecord>)
    ensures
        sorted_by(sort, sort_spec(sort, s)),
        sort_spec(sort, s).to_multiset() == s.to_multiset(),
        sort_spec(sort, s).len() == s.len(),
    decreases s.len(),
{
    broadcast use vstd::seq_lib::group_to_multiset_ensures;

    if s.len() == 0 {
        assert(Seq::<FlowRecord>::empty().to_multiset() =~= Multiset::empty());
    } else {
        lemma_sort_spec_ensures(sort, s.drop_last());
        lemma_insert_sorted_sorted(sort, s.last(), sort_spec(sort, s.drop_last()));
        lemma_insert_sorted_multiset(sort, s.last(), sort_spec(sort, s.drop_last()));
        assert(s.drop_last().push(s.last()) =~= s);
        assert(s.drop_last().to_multiset().insert(s.last()) =~= s.to_multiset());
    }
}

fn precedes_exec(sort: ReportSortType, a: &FlowRecord, b: &FlowRecord) -> (r: bool)
    ensures
        r == precedes(sort, *a, *b),
{
    let recent = a.last_seen > b.last_seen || (a.last_seen == b.last_seen && a.index >= b.index);
    match sort {
        ReportSortType::MostRecent => recent,
        ReportSortType::MostBytes => {
            let ta = (a.bytes_out as u128) + (a.bytes_in as u128);
            let tb = (b.bytes_out as u128) + (b.bytes_in as u128);
            ta > tb || (ta == tb && recent)
        },
        ReportSortType::MostPackets => {
            let ta = (a.packets_out as u128) + (a.packets_in as u128);
            let tb = (b.packets_out as u128) + (b.packets_in as u128);
            ta > tb || (ta == tb && recent)
        },
    }
}

fn insert_sorted_exec(sort: ReportSortType, x: FlowRecord, acc: &mut Vec<FlowRecord>)
    ensures
        final(acc)@ == insert_sorted(sort, x, old(acc)@),
{
    let n = acc.len();
    let mut p: usize = 0;
    while p < n && !precedes_exec(sort, &x, &acc[p])
        invariant
            p <= n,
            n == acc@.len(),
            forall|i: int| 0 <= i < p ==> !precedes(sort, x, #[trigger] acc@[i]),
        decreases n - p,
    {
        p += 1;
    }
    proof {
        lemma_insert_sorted_at(sort, x, acc@, p as int);
    }
    let ghost pre = acc@;
    acc.insert(p, x);
    proof {
        assert(acc@ =~= pre.subrange(0, p as int) + seq![x] + pre.subrange(
            p as int,
            pre.len() as int,
        ));
    }
}

/// How many pages a result of `total` rows fills: the ceiling of
/// `total / page_size`, written with a carry so that nothing overflows.
pub open spec fn page_count(total: int, page_size: int) -> int {
    total / page_size + if total % page_size != 0 {
        1int
    } else {
        0int
    }
}

/// An invalid or out-of-range page is clamped into `[1, page_count]`;
/// an empty result keeps page 1.
pub open spec fn clamp_page(page: int, total: int, page_size: int) -> int {
    let pages = page_count(total, page_size);
    if pages == 0 {
        1
    } else if page < 1 {
        1
    } else if page > pages {
        pages
    } else {
        page
    }
}

/// First row (inclusive) of the clamped page.
pub open spec fn page_start(page: int, total: int, page_size: int) -> int {
    (clamp_page(page, total, page_size) - 1) * page_size
}

/// Last row (exclusive) of the clamped page.
pub open spec fn page_end(page: int, total: int, page_size: int) -> int {
    let start = page_start(page, total, page_size);
    if total - start < page_size {
        total
    } else {
        start + page_size
    }
}

/// The facts about `/` and `%` that the pagination arithmetic rests on.
proof fn lemma_div_mod_facts(total: int, ps: int)
    requires
        ps >= 1,
        total >= 0,
    ensures
        total == ps * (total / ps) + total % ps,
        0 <= total % ps < ps,
        total / ps >= 0,
{
    vstd::arithmetic::div_mod::lemma_fundamental_div_mod(total, ps);
    vstd::arithmetic::div_mod::lemma_mod_division_less_than_divisor(total, ps);
    vstd::arithmetic::div_mod::lemma_div_pos_is_pos(total, ps);
}

/// The clamped page slices a well-formed window out of the result.
pub proof fn lemma_page_bounds(page: int, total: int, page_size: int)
    requires
        page_size >= 1,
        total >= 0,
    ensures
        0 <= page_start(page, total, page_size),
        page_start(page, total, page_size) <= page_end(page, total, page_size),
        page_end(page, total, page_size) <= total,
        total > 0 ==> page_start(page, total, page_size) < total,
        total == 0 ==> page_start(page, total, page_size) == 0 && page_end(
            page,
            total,
            page_size,
        ) == 0,
        page_count(total, page_size) >= 0,
        total > 0 ==> page_count(total, page_size) >= 1,
        total == 0 ==> page_count(total, page_size) == 0,
{
    lemma_div_mod_facts(total, page_size);
    let q = total / page_size;
    let r = total % page_size;
    let pages = page_count(total, page_size);
    if total > 0 {
        assert(pages >= 1) by (nonlinear_arith)
            requires
                total == page_size * q + r,
                0 <= r < page_size,
                q >= 0,
                total > 0,
                pages == q + if r != 0 {
                    1int
                } else {
                    0int
                },
        ;
        let p = clamp_page(page, total, page_size);
        assert(1 <= p && p <= pages);
        assert((pages - 1) * page_size < total && (p - 1) * page_size <= (pages - 1) * page_size
            && (p - 1) * page_size >= 0) by (nonlinear_arith)
            requires
                page_size >= 1,
                total > 0,
                q >= 0,
                total == page_size * q + r,
                0 <= r < page_size,
                pages == q + if r != 0 {
                    1int
                } else {
                    0int
                },
                1 <= p <= pages,
        ;
        assert(page_start(page, total, page_size) == (p - 1) * page_size);
        assert(0 <= page_start(page, total, page_size) < total);
        assert(page_start(page, total, page_size) <= page_end(page, total, page_size));
        assert(page_end(page, total, page_size) <= total);
    } else {
        assert(q == 0 && r == 0) by (nonlinear_arith)
            requires
                total == page_size * q + r,
                0 <= r,
                q >= 0,
                page_size >= 1,
                total == 0,
        ;
        assert(pages == 0);
        assert(clamp_page(page, total, page_size) == 1);
        assert((1int - 1) * page_size == 0) by (nonlinear_arith);
        assert(page_start(page, total, page_size) == 0);
        assert(page_end(page, total, page_size) == 0);
    }
}

/// The rows of one page: the sorted, filtered projection of the snapshot,
/// sliced to the clamped page.
pub open spec fn query_entries_spec(
    s: Seq<FlowRecord>,
    f: Seq<u8>,
    sort: ReportSortType,
    page: int,
    page_size: int,
) -> Seq<FlowRecord> {
    let flt = sort_spec(sort, filtered(s, f));
    flt.subrange(
        page_start(page, flt.len() as int, page_size),
        page_end(page, flt.len() as int, page_size),
    )
}

/// Sort a snapshot's records into the canonical projection.
fn sort_records(sort: ReportSortType, v: Vec<FlowRecord>) -> (out: Vec<FlowRecord>)
    ensures
        out@ == sort_spec(sort, v@),
{
    let n = v.len();
    let mut out: Vec<FlowRecord> = Vec::new();
    let mut i: usize = 0;
    while i < n
        invariant
            i <= n,
            n == v@.len(),
            out@ == sort_spec(sort, v@.subrange(0, i as int)),
        decreases n - i,
    {
        proof {
            let post = v@.subrange(0, i + 1 as int);
            assert(post.drop_last() =~= v@.subrange(0, i as int));
            assert(post.last() == v@[i as int]);
        }
        insert_sorted_exec(sort, v[i], &mut out);
        i += 1;
    }
    proof {
        assert(v@.subrange(0, n as int) =~= v@);
    }
    out
}

/// One query of the inspect view: filter the snapshot, sort it, slice the
/// requested page. The result and the total are a pure function of the
/// arguments, and the page window is the one the clamping rules name; a
/// query never fails, an empty result simply has `total == 0`.
pub fn query(
    snapshot: &Vec<FlowRecord>,
    params: &SearchParameters,
    sort: ReportSortType,
    page: usize,
    page_size: usize,
) -> (r: (Vec<FlowRecord>, usize))
    requires
        page_size >= 1,
    ensures
        r.0@ == query_entries_spec(snapshot@, params.country@, sort, page as int,
            page_size as int),
        r.1 == filtered(snapshot@, params.country@).len(),
{
    let flt = filter_records(snapshot, &params.country);
    let total = flt.len();
    let sorted = sort_records(sort, flt);
    proof {
        lemma_sort_spec_ensures(sort, filtered(snapshot@, params.country@));
        lemma_page_bounds(page as int, total as int, page_size as int);
    }
    let pages = if total % page_size != 0 {
        proof {
            let t = total as int;
            let ps = page_size as int;
            lemma_div_mod_facts(t, ps);
            assert(t / ps + 1 <= t) by (nonlinear_arith)
                requires
                    t == ps * (t / ps) + t % ps,
                    0 <= t % ps < ps,
                    t % ps != 0,
                    t / ps >= 0,
            ;
        }
        total / page_size + 1
    } else {
        total / page_size
    };
    let p = if pages == 0 {
        1
    } else if page < 1 {
        1
    } else if page > pages {
        pages
    } else {
        page
    };
    let start = (p - 1) * page_size;
    let end = if total - start < page_size {
        total
    } else {
        start + page_size
    };
    let mut out: Vec<FlowRecord> = Vec::new();
    let mut i: usize = start;
    while i < end
        invariant
            start <= i <= end,
            end <= sorted@.len(),
            out@ == sorted@.subrange(start as int, i as int),
        decreases end - i,
    {
        proof {
            assert(sorted@.subrange(start as int, i + 1 as int) =~= sorted@.subrange(
                start as int,
                i as int,
            ).push(sorted@[i as int]));
        }
        out.push(sorted[i]);
        i += 1;
    }
    (out, total)
}

/// The page size the inspect page uses.
pub const DEFAULT_PAGE_SIZE: usize = 10;

/// `query` at the inspect page's fixed page size.
pub fn query_page(
    snapshot: &Vec<FlowRecord>,
    params: &SearchParameters,
    sort: ReportSortType,
    page: usize,
) -> (r: (Vec<FlowRecord>, usize))
    ensures
        r.0@ == query_entries_spec(snapshot@, params.country@, sort, page as int, 10),
        r.1 == filtered(snapshot@, params.country@).len(),
{
    query(snapshot, params, sort, page, DEFAULT_PAGE_SIZE)
}

/// Pages `1..=k` of a query, concatenated.
pub open spec fn pages_concat(
    s: Seq<FlowRecord>,
    f: Seq<u8>,
    sort: ReportSortType,
    page_size: int,
    k: int,
) -> Seq<FlowRecord>
    decreases k,
{
    if k <= 0 {
        Seq::empty()
    } else {
        pages_concat(s, f, sort, page_size, k - 1) + query_entries_spec(s, f, sort, k, page_size)
    }
}

/// A page within range starts strictly inside the result.
proof fn lemma_page_within(k: int, total: int, page_size: int)
    requires
        page_size >= 1,
        total >= 0,
        1 <= k <= page_count(total, page_size),
    ensures
        (k - 1) * page_size < total,
        clamp_page(k, total, page_size) == k,
{
    lemma_div_mod_facts(total, page_size);
    let q = total / page_size;
    let r = total % page_size;
    assert((k - 1) * page_size < total) by (nonlinear_arith)
        requires
            page_size >= 1,
            1 <= k,
            k <= q + if r != 0 {
                1int
            } else {
                0int
            },
            total == page_size * q + r,
            0 <= r < page_size,
    ;
}

/// Pages `1..=k` cover exactly the first `min(k * page_size, total)` rows.
proof fn lemma_pages_concat_prefix(
    s: Seq<FlowRecord>,
    f: Seq<u8>,
    sort: ReportSortType,
    page_size: int,
    k: int,
)
    requires
        page_size >= 1,
        0 <= k <= page_count(filtered(s, f).len() as int, page_size),
    ensures
        pages_concat(s, f, sort, page_size, k) == sort_spec(sort, filtered(s, f)).subrange(
            0,
            if k * page_size < filtered(s, f).len() {
                k * page_size
            } else {
                filtered(s, f).len() as int
            },
        ),
    decreases k,
{
    let flt = sort_spec(sort, filtered(s, f));
    let total = filtered(s, f).len() as int;
    lemma_sort_spec_ensures(sort, filtered(s, f));
    if k == 0 {
        assert(pages_concat(s, f, sort, page_size, 0) =~= flt.subrange(0, 0));
    } else {
        lemma_pages_concat_prefix(s, f, sort, page_size, k - 1);
        lemma_page_within(k, total, page_size);
        lemma_page_bounds(k, total, page_size);
        assert((k - 1) * page_size <= (k - 1) * page_size + page_size) by (nonlinear_arith)
            requires
                page_size >= 1,
        ;
        assert(k * page_size == (k - 1) * page_size + page_size) by (nonlinear_arith);
        let prev_hi = if (k - 1) * page_size < total {
            (k - 1) * page_size
        } else {
            total
        };
        assert(prev_hi == page_start(k, total, page_size));
        let hi = if k * page_size < total {
            k * page_size
        } else {
            total
        };
        assert(hi == page_end(k, total, page_size));
        assert(pages_concat(s, f, sort, page_size, k) =~= flt.subrange(0, hi));
    }
}

/// Reading the result page by page loses nothing and repeats nothing: the
/// pages of a query, concatenated in order across the whole page range,
/// are exactly the filtered, sorted projection of the snapshot.
pub proof fn lemma_pages_cover(s: Seq<FlowRecord>, f: Seq<u8>, sort: ReportSortType,
    page_size: int)
    requires
        page_size >= 1,
    ensures
        pages_concat(s, f, sort, page_size, page_count(filtered(s, f).len() as int, page_size))
            == sort_spec(sort, filtered(s, f)),
{
    let total = filtered(s, f).len() as int;
    let pages = page_count(total, page_size);
    lemma_sort_spec_ensures(sort, filtered(s, f));
    lemma_page_bounds(1, total, page_size);
    lemma_pages_concat_prefix(s, f, sort, page_size, pages);
    if total > 0 {
        lemma_page_within(pages, total, page_size);
        assert(pages * page_size >= total) by (nonlinear_arith)
            requires
                page_size >= 1,
                total > 0,
                pages == total / page_size + if total % page_size != 0 {
                    1int
                } else {
                    0int
                },
        ;
    }
    assert(pages_concat(s, f, sort, page_size, pages) =~= sort_spec(sort, filtered(s, f)));
}

} // verus!
