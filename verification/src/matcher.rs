//! Matching raw records against the ABI catalog: a left join by selector
//! hash, optionally refined by contract address and topic count, with a
//! two-pass fallback that resolves ambiguous signatures by frequency.

use vstd::prelude::*;
use crate::abi::AbiItemRowV;
use crate::rows::{
    LogRow, LogRowV, TraceRow, TraceRowV, MatchedLogRow, MatchedLogRowV, MatchedTraceRow,
    MatchedTraceRowV, SigInfo, sig_of_row, sig_from_row, clone_log_row, clone_trace_row,
};

verus! {

/// Failures of the matching stage.
#[derive(Debug)]
pub enum MatcherError {
    PolarsError(String),
}

/// The topic count of a raw log row: the signature topic plus one per
/// present argument topic.
pub open spec fn log_num_topics(l: LogRowV) -> usize {
    (1 + (if l.topic1 is Some {
        1int
    } else {
        0int
    }) + (if l.topic2 is Some {
        1int
    } else {
        0int
    }) + (if l.topic3 is Some {
        1int
    } else {
        0int
    })) as usize
}

/// Whether a catalog row matches a log row under the hash-and-address
/// algorithm: equal hash, equal address, equal topic count.
pub open spec fn log_key_match(l: LogRowV, c: AbiItemRowV) -> bool {
    l.topic0 == Some(c.hash) && l.address == Some(c.address) && c.num_indexed_args == Some(
        log_num_topics(l),
    )
}

/// The join output of one log row: one row per matching catalog row, or a
/// single unmatched row when the catalog has none.
pub open spec fn match_log_row(l: LogRowV, catalog: Seq<AbiItemRowV>) -> Seq<MatchedLogRowV> {
    let ms = catalog.filter(|c: AbiItemRowV| log_key_match(l, c));
    if ms.len() == 0 {
        seq![MatchedLogRowV { log: l, num_indexed_args: log_num_topics(l), sig: None }]
    } else {
        ms.map_values(
            |c: AbiItemRowV| MatchedLogRowV {
                log: l,
                num_indexed_args: log_num_topics(l),
                sig: Some(sig_of_row(c)),
            },
        )
    }
}

/// The hash-and-address join over a whole log table, row by row in order.
pub open spec fn match_logs_by_topic0_address_spec(
    logs: Seq<LogRowV>,
    catalog: Seq<AbiItemRowV>,
) -> Seq<MatchedLogRowV> {
    logs.flat_map(|l: LogRowV| match_log_row(l, catalog))
}

/// Compares two byte strings.
pub fn bytes_eq(a: &Vec<u8>, b: &Vec<u8>) -> (r: bool)
    ensures
        r == (a@ == b@),
{
    if a.len() != b.len() {
        return false;
    }
    let mut i: usize = 0;
    while i < a.len()
        invariant
            i <= a@.len(),
            a@.len() == b@.len(),
            forall|j: int| 0 <= j < i ==> a@[j] == b@[j],
        decreases a@.len() - i,
    {
        if a[i] != b[i] {
            return false;
        }
        i = i + 1;
    }
    assert(a@ =~= b@);
    true
}

/// Compares an optional byte column with a byte string.
fn opt_bytes_is(a: &Option<Vec<u8>>, b: &Vec<u8>) -> (r: bool)
    ensures
        r == (crate::rows::opt_bytes_view(*a) == Some(b@)),
{
    match a {
        Some(x) => bytes_eq(x, b),
        None => false,
    }
}

/// Counts the topics of a raw log row.
pub fn count_log_topics(l: &LogRow) -> (r: usize)
    ensures
        r == log_num_topics(l@),
        1 <= r <= 4,
{
    let mut n: usize = 1;
    if l.topic1.is_some() {
        n = n + 1;
    }
    if l.topic2.is_some() {
        n = n + 1;
    }
    if l.topic3.is_some() {
        n = n + 1;
    }
    n
}

/// Whether a catalog row matches a log row, as executable code.
fn log_key_match_exec(l: &LogRow, c: &crate::abi::AbiItemRow) -> (r: bool)
    ensures
        r == log_key_match(l@, c@),
{
    let n = count_log_topics(l);
    let hash_ok = opt_bytes_is(&l.topic0, &c.hash);
    let addr_ok = opt_bytes_is(&l.address, &c.address);
    let num_ok = match c.num_indexed_args {
        Some(m) => m == n,
        None => false,
    };
    hash_ok && addr_ok && num_ok
}

/// Left-joins log rows with the catalog on `(topic0, address, topic count)`:
/// each row yields one output row per matching catalog row, in catalog
/// order, or a single row with null catalog columns when nothing matches.
/// Row order of the input is preserved.
pub fn match_logs_by_topic0_address(logs: &Vec<LogRow>, abi_rows: &Vec<crate::abi::AbiItemRow>)
    -> (r: Vec<MatchedLogRow>)
    ensures
        r.deep_view() == match_logs_by_topic0_address_spec(logs.deep_view(), abi_rows.deep_view()),
{
    let ghost logsv = logs.deep_view();
    let ghost catv = abi_rows.deep_view();
    let ghost f = |l: LogRowV| match_log_row(l, catv);
    let mut out: Vec<MatchedLogRow> = Vec::new();
    let mut i: usize = 0;
    proof {
        assert(logsv.take(0) =~= Seq::<LogRowV>::empty());
        assert(logsv.take(0).flat_map(f) =~= Seq::<MatchedLogRowV>::empty());
    }
    while i < logs.len()
        invariant
            i <= logs@.len(),
            logsv == logs.deep_view(),
            catv == abi_rows.deep_view(),
            f == (|l: LogRowV| match_log_row(l, catv)),
            logsv.len() == logs@.len(),
            out.deep_view() =~= logsv.take(i as int).flat_map(f),
        decreases logs@.len() - i,
    {
        let row_matches = match_one_log_row(&logs[i], abi_rows);
        proof {
            assert(logs.deep_view()[i as int] == logs@[i as int]@);
        }
        let ghost pre_deep = out.deep_view();
        let ghost addv = row_matches.deep_view();
        let mut k: usize = 0;
        let m = row_matches.len();
        while k < m
            invariant
                k <= m,
                m == row_matches@.len(),
                addv.len() == m,
                forall|j: int| 0 <= j < m ==> row_matches@[j]@ == addv[j],
                out.deep_view() =~= pre_deep + addv.take(k as int),
            decreases m - k,
        {
            let ghost pre = out@;
            let ghost pd = out.deep_view();
            let one = clone_matched_log_row(&row_matches[k]);
            out.push(one);
            proof {
                assert(out@ == pre.push(one));
                assert(pd.len() == pre.len());
                assert forall|j: int| 0 <= j < out.deep_view().len() implies out.deep_view()[j] == (
                pre_deep + addv.take(k + 1 as int))[j] by {
                    if j < pre.len() {
                        assert(out@[j] == pre[j]);
                        assert(pd[j] == pre[j]@);
                        assert(pd[j] == (pre_deep + addv.take(k as int))[j]);
                    } else {
                        assert(out@[j] == one);
                    }
                }
                assert(out.deep_view() =~= pre_deep + addv.take(k + 1 as int));
            }
            k = k + 1;
        }
        proof {
            assert(addv.take(m as int) =~= addv);
            logsv.take(i as int).lemma_flat_map_push(f, logsv[i as int]);
            assert(logsv.take(i as int).push(logsv[i as int]) =~= logsv.take(i + 1 as int));
            assert(out.deep_view() =~= logsv.take(i + 1 as int).flat_map(f));
        }
        i = i + 1;
    }
    proof {
        assert(logsv.take(logsv.len() as int) =~= logsv);
    }
    out
}

/// The join output of one log row, as executable code.
fn match_one_log_row(l: &LogRow, abi_rows: &Vec<crate::abi::AbiItemRow>) -> (r: Vec<
    MatchedLogRow,
>)
    ensures
        r.deep_view() == match_log_row(l@, abi_rows.deep_view()),
{
    let ghost catv = abi_rows.deep_view();
    let ghost pred = |c: AbiItemRowV| log_key_match(l@, c);
    let n = count_log_topics(l);
    let mut matches: Vec<MatchedLogRow> = Vec::new();
    let mut j: usize = 0;
    proof {
        reveal(Seq::filter);
        assert(catv.take(0) =~= Seq::<AbiItemRowV>::empty());
        assert(catv.take(0).filter(pred) =~= Seq::<AbiItemRowV>::empty());
    }
    while j < abi_rows.len()
        invariant
            j <= abi_rows@.len(),
            catv == abi_rows.deep_view(),
            catv.len() == abi_rows@.len(),
            pred == (|c: AbiItemRowV| log_key_match(l@, c)),
            n == log_num_topics(l@),
            matches.deep_view() =~= catv.take(j as int).filter(pred).map_values(
                |c: AbiItemRowV| MatchedLogRowV {
                    log: l@,
                    num_indexed_args: log_num_topics(l@),
                    sig: Some(sig_of_row(c)),
                },
            ),
        decreases abi_rows@.len() - j,
    {
        proof {
            reveal(Seq::filter);
            assert(catv.take(j + 1 as int).drop_last() =~= catv.take(j as int));
            assert(catv.take(j + 1 as int).last() == catv[j as int]);
            assert(catv[j as int] == abi_rows@[j as int]@);
        }
        if log_key_match_exec(l, &abi_rows[j]) {
            let ghost pre = matches@;
            let ghost pd = matches.deep_view();
            let one = MatchedLogRow {
                log: clone_log_row(l),
                num_indexed_args: n,
                sig: Some(sig_from_row(&abi_rows[j])),
            };
            matches.push(one);
            proof {
                let mk = |c: AbiItemRowV| MatchedLogRowV {
                    log: l@,
                    num_indexed_args: log_num_topics(l@),
                    sig: Some(sig_of_row(c)),
                };
                assert(matches@ == pre.push(one));
                assert(pd.len() == pre.len());
                assert(catv.take(j + 1 as int).filter(pred) =~= catv.take(j as int).filter(
                    pred,
                ).push(catv[j as int]));
                assert forall|q: int| 0 <= q < matches.deep_view().len() implies
                    matches.deep_view()[q] == catv.take(j + 1 as int).filter(pred).map_values(
                    mk,
                )[q] by {
                    if q < pre.len() {
                        assert(matches@[q] == pre[q]);
                        assert(pd[q] == pre[q]@);
                        assert(pd[q] == catv.take(j as int).filter(pred).map_values(mk)[q]);
                    } else {
                        assert(matches@[q] == one);
                        assert(catv.take(j + 1 as int).filter(pred)[q] == catv[j as int]);
                    }
                }
                assert(matches.deep_view() =~= catv.take(j + 1 as int).filter(pred).map_values(
                    mk,
                ));
            }
        } else {
            proof {
                assert(catv.take(j + 1 as int).filter(pred) =~= catv.take(j as int).filter(pred));
            }
        }
        j = j + 1;
    }
    proof {
        assert(catv.take(catv.len() as int) =~= catv);
    }
    if matches.len() == 0 {
        let mut single: Vec<MatchedLogRow> = Vec::new();
        single.push(MatchedLogRow { log: clone_log_row(l), num_indexed_args: n, sig: None });
        proof {
            assert(catv.filter(pred).len() == 0);
            assert(single.deep_view() =~= match_log_row(l@, catv));
        }
        single
    } else {
        proof {
            assert(catv.filter(pred).len() > 0);
        }
        matches
    }
}

/// Whether two catalog rows fall in the same log signature group.
pub open spec fn log_group_eq(a: AbiItemRowV, b: AbiItemRowV) -> bool {
    a.hash == b.hash && a.full_signature == b.full_signature && a.name == b.name && a.anonymous
        == b.anonymous && a.num_indexed_args == b.num_indexed_args
}

/// How many catalog rows fall in the group of row `i`.
pub open spec fn log_group_count(catalog: Seq<AbiItemRowV>, i: int) -> nat {
    catalog.filter(|x: AbiItemRowV| log_group_eq(catalog[i], x)).len()
}

/// Whether row `i` is the first of its log signature group.
pub open spec fn log_first_occ(catalog: Seq<AbiItemRowV>, i: int) -> bool {
    forall|j: int| 0 <= j < i ==> !log_group_eq(catalog[i], #[trigger] catalog[j])
}

/// Whether a catalog row belongs to the `(hash, topic count)` bucket.
pub open spec fn log_bucket(c: AbiItemRowV, hash: Seq<u8>, n: usize) -> bool {
    c.hash == hash && c.num_indexed_args == Some(n)
}

/// The most frequent signature of a `(hash, topic count)` bucket among the
/// first `k` catalog rows: the first row of the group with the largest
/// member count, earlier groups winning ties.
pub open spec fn log_best_rep_upto(catalog: Seq<AbiItemRowV>, hash: Seq<u8>, n: usize, k: int)
    -> Option<int>
    decreases k,
{
    if k <= 0 {
        None
    } else {
        let prev = log_best_rep_upto(catalog, hash, n, k - 1);
        let i = k - 1;
        if log_bucket(catalog[i], hash, n) && log_first_occ(catalog, i) {
            match prev {
                None => Some(i),
                Some(p) => if log_group_count(catalog, i) > log_group_count(catalog, p) {
                    Some(i)
                } else {
                    Some(p)
                },
            }
        } else {
            prev
        }
    }
}

/// The most frequent signature of a `(hash, topic count)` bucket.
pub open spec fn log_best_rep(catalog: Seq<AbiItemRowV>, hash: Seq<u8>, n: usize) -> Option<int> {
    log_best_rep_upto(catalog, hash, n, catalog.len() as int)
}

/// The second-pass match of one unmatched log row: the most frequent
/// signature with its hash and topic count, or nothing.
pub open spec fn match_log_row_pass2(l: LogRowV, catalog: Seq<AbiItemRowV>) -> MatchedLogRowV {
    let n = log_num_topics(l);
    let rep = match l.topic0 {
        Some(h) => log_best_rep(catalog, h, n),
        None => None,
    };
    match rep {
        Some(i) => MatchedLogRowV { log: l, num_indexed_args: n, sig: Some(sig_of_row(catalog[i])) },
        None => MatchedLogRowV { log: l, num_indexed_args: n, sig: None },
    }
}

/// The two-pass hash join over a whole log table: the hash-and-address
/// matches first, then the unmatched rows joined against the most frequent
/// signature of their `(hash, topic count)` bucket.
pub open spec fn match_logs_by_topic0_spec(logs: Seq<LogRowV>, catalog: Seq<AbiItemRowV>) -> Seq<
    MatchedLogRowV,
> {
    let first = match_logs_by_topic0_address_spec(logs, catalog);
    let matched = first.filter(|m: MatchedLogRowV| m.sig is Some);
    let unmatched = first.filter(|m: MatchedLogRowV| m.sig is None);
    matched + unmatched.map_values(|m: MatchedLogRowV| match_log_row_pass2(m.log, catalog))
}

/// Compares two optional booleans.
fn opt_bool_eq(a: &Option<bool>, b: &Option<bool>) -> (r: bool)
    ensures
        r == (*a == *b),
{
    match (a, b) {
        (Some(x), Some(y)) => *x == *y,
        (None, None) => true,
        _ => false,
    }
}

/// Compares two optional machine integers.
fn opt_usize_eq(a: &Option<usize>, b: &Option<usize>) -> (r: bool)
    ensures
        r == (*a == *b),
{
    match (a, b) {
        (Some(x), Some(y)) => *x == *y,
        (None, None) => true,
        _ => false,
    }
}

/// Whether two catalog rows fall in the same log signature group, as
/// executable code.
fn log_group_eq_exec(a: &crate::abi::AbiItemRow, b: &crate::abi::AbiItemRow) -> (r: bool)
    ensures
        r == log_group_eq(a@, b@),
{
    bytes_eq(&a.hash, &b.hash) && crate::strutil::str_eq(
        a.full_signature.as_str(),
        b.full_signature.as_str(),
    ) && crate::strutil::str_eq(a.name.as_str(), b.name.as_str()) && opt_bool_eq(
        &a.anonymous,
        &b.anonymous,
    ) && opt_usize_eq(&a.num_indexed_args, &b.num_indexed_args)
}

/// Counts the members of the log signature group of row `i`.
fn log_group_count_exec(catalog: &Vec<crate::abi::AbiItemRow>, i: usize) -> (r: usize)
    requires
        i < catalog@.len(),
    ensures
        r == log_group_count(catalog.deep_view(), i as int),
{
    let ghost catv = catalog.deep_view();
    let ghost pred = |x: AbiItemRowV| log_group_eq(catv[i as int], x);
    let mut count: usize = 0;
    let mut j: usize = 0;
    proof {
        reveal(Seq::filter);
        assert(catv.take(0).filter(pred) =~= Seq::<AbiItemRowV>::empty());
    }
    while j < catalog.len()
        invariant
            j <= catalog@.len(),
            i < catalog@.len(),
            catv == catalog.deep_view(),
            catv.len() == catalog@.len(),
            pred == (|x: AbiItemRowV| log_group_eq(catv[i as int], x)),
            count == catv.take(j as int).filter(pred).len(),
            count <= j,
        decreases catalog@.len() - j,
    {
        proof {
            reveal(Seq::filter);
            assert(catv.take(j + 1 as int).drop_last() =~= catv.take(j as int));
            assert(catv.take(j + 1 as int).last() == catv[j as int]);
            assert(catv[j as int] == catalog@[j as int]@);
            assert(catv[i as int] == catalog@[i as int]@);
        }
        if log_group_eq_exec(&catalog[i], &catalog[j]) {
            count = count + 1;
        }
        j = j + 1;
    }
    proof {
        assert(catv.take(catv.len() as int) =~= catv);
    }
    count
}

/// Whether row `i` is the first of its log signature group, as executable
/// code.
fn log_first_occ_exec(catalog: &Vec<crate::abi::AbiItemRow>, i: usize) -> (r: bool)
    requires
        i < catalog@.len(),
    ensures
        r == log_first_occ(catalog.deep_view(), i as int),
{
    let ghost catv = catalog.deep_view();
    let mut j: usize = 0;
    while j < i
        invariant
            j <= i < catalog@.len(),
            catv == catalog.deep_view(),
            catv.len() == catalog@.len(),
            forall|q: int| 0 <= q < j ==> !log_group_eq(catv[i as int], #[trigger] catv[q]),
        decreases i - j,
    {
        proof {
            assert(catv[j as int] == catalog@[j as int]@);
            assert(catv[i as int] == catalog@[i as int]@);
        }
        if log_group_eq_exec(&catalog[i], &catalog[j]) {
            return false;
        }
        j = j + 1;
    }
    true
}

/// Finds the most frequent signature of a `(hash, topic count)` bucket.
fn log_best_rep_exec(catalog: &Vec<crate::abi::AbiItemRow>, hash: &Vec<u8>, n: usize) -> (r:
    Option<usize>)
    ensures
        match r {
            Some(i) => log_best_rep(catalog.deep_view(), hash@, n) == Some(i as int) && i
                < catalog@.len(),
            None => log_best_rep(catalog.deep_view(), hash@, n) is None,
        },
{
    let ghost catv = catalog.deep_view();
    let mut best: Option<usize> = None;
    let mut k: usize = 0;
    while k < catalog.len()
        invariant
            k <= catalog@.len(),
            catv == catalog.deep_view(),
            catv.len() == catalog@.len(),
            match best {
                Some(i) => log_best_rep_upto(catv, hash@, n, k as int) == Some(i as int) && i < k,
                None => log_best_rep_upto(catv, hash@, n, k as int) is None,
            },
        decreases catalog@.len() - k,
    {
        proof {
            assert(catv[k as int] == catalog@[k as int]@);
        }
        let in_bucket = opt_bytes_is(&Some(crate::abi::clone_bytes(&catalog[k].hash)), hash)
            && match catalog[k].num_indexed_args {
            Some(m) => m == n,
            None => false,
        };
        if in_bucket && log_first_occ_exec(catalog, k) {
            match best {
                None => {
                    best = Some(k);
                },
                Some(p) => {
                    let ck = log_group_count_exec(catalog, k);
                    let cp = log_group_count_exec(catalog, p);
                    if ck > cp {
                        best = Some(k);
                    }
                },
            }
        }
        k = k + 1;
    }
    best
}

/// The second-pass match of one unmatched log row, as executable code.
fn match_log_row_pass2_exec(l: &LogRow, catalog: &Vec<crate::abi::AbiItemRow>) -> (r:
    MatchedLogRow)
    ensures
        r@ == match_log_row_pass2(l@, catalog.deep_view()),
{
    let n = count_log_topics(l);
    let rep: Option<usize> = match &l.topic0 {
        Some(h) => log_best_rep_exec(catalog, h, n),
        None => None,
    };
    match rep {
        Some(i) => {
            proof {
                assert(catalog.deep_view()[i as int] == catalog@[i as int]@);
            }
            MatchedLogRow {
                log: clone_log_row(l),
                num_indexed_args: n,
                sig: Some(sig_from_row(&catalog[i])),
            }
        },
        None => MatchedLogRow { log: clone_log_row(l), num_indexed_args: n, sig: None },
    }
}

/// Left-joins log rows with the catalog in two passes: first on
/// `(topic0, address, topic count)`, then the rows that stayed unmatched
/// against the most frequent signature of their `(topic0, topic count)`
/// bucket. Matched rows come first, then the second-pass rows, each group
/// in input order.
pub fn match_logs_by_topic0(logs: &Vec<LogRow>, abi_rows: &Vec<crate::abi::AbiItemRow>) -> (r:
    Vec<MatchedLogRow>)
    ensures
        r.deep_view() == match_logs_by_topic0_spec(logs.deep_view(), abi_rows.deep_view()),
{
    let ghost catv = abi_rows.deep_view();
    let first = match_logs_by_topic0_address(logs, abi_rows);
    let ghost firstv = first.deep_view();
    let ghost some_pred = |m: MatchedLogRowV| m.sig is Some;
    let ghost none_pred = |m: MatchedLogRowV| m.sig is None;
    let ghost p2 = |m: MatchedLogRowV| match_log_row_pass2(m.log, catv);
    let mut matched: Vec<MatchedLogRow> = Vec::new();
    let mut second: Vec<MatchedLogRow> = Vec::new();
    let mut i: usize = 0;
    proof {
        reveal(Seq::filter);
        assert(firstv.take(0).filter(some_pred) =~= Seq::<MatchedLogRowV>::empty());
        assert(firstv.take(0).filter(none_pred) =~= Seq::<MatchedLogRowV>::empty());
    }
    while i < first.len()
        invariant
            i <= first@.len(),
            catv == abi_rows.deep_view(),
            firstv == first.deep_view(),
            firstv.len() == first@.len(),
            some_pred == (|m: MatchedLogRowV| m.sig is Some),
            none_pred == (|m: MatchedLogRowV| m.sig is None),
            p2 == (|m: MatchedLogRowV| match_log_row_pass2(m.log, catv)),
            matched.deep_view() =~= firstv.take(i as int).filter(some_pred),
            second.deep_view() =~= firstv.take(i as int).filter(none_pred).map_values(p2),
        decreases first@.len() - i,
    {
        proof {
            reveal(Seq::filter);
            assert(firstv.take(i + 1 as int).drop_last() =~= firstv.take(i as int));
            assert(firstv.take(i + 1 as int).last() == firstv[i as int]);
            assert(firstv[i as int] == first@[i as int]@);
        }
        let has_sig = first[i].sig.is_some();
        if has_sig {
            let ghost pre = matched@;
            let ghost pd = matched.deep_view();
            let one = clone_matched_log_row(&first[i]);
            matched.push(one);
            proof {
                assert(matched@ == pre.push(one));
                assert(pd.len() == pre.len());
                assert(firstv.take(i + 1 as int).filter(some_pred) =~= firstv.take(
                    i as int,
                ).filter(some_pred).push(firstv[i as int]));
                assert forall|q: int| 0 <= q < matched.deep_view().len() implies
                    matched.deep_view()[q] == firstv.take(i + 1 as int).filter(some_pred)[q] by {
                    if q < pre.len() {
                        assert(matched@[q] == pre[q]);
                        assert(pd[q] == pre[q]@);
                    } else {
                        assert(matched@[q] == one);
                    }
                }
                assert(matched.deep_view() =~= firstv.take(i + 1 as int).filter(some_pred));
                assert(firstv.take(i + 1 as int).filter(none_pred) =~= firstv.take(
                    i as int,
                ).filter(none_pred));
            }
        } else {
            let ghost pre = second@;
            let ghost pd = second.deep_view();
            let one = match_log_row_pass2_exec(&first[i].log, abi_rows);
            proof {
                assert(first@[i as int].log@ == firstv[i as int].log);
            }
            second.push(one);
            proof {
                assert(second@ == pre.push(one));
                assert(pd.len() == pre.len());
                assert(firstv.take(i + 1 as int).filter(none_pred) =~= firstv.take(
                    i as int,
                ).filter(none_pred).push(firstv[i as int]));
                assert forall|q: int| 0 <= q < second.deep_view().len() implies
                    second.deep_view()[q] == firstv.take(i + 1 as int).filter(none_pred).map_values(
                    p2,
                )[q] by {
                    if q < pre.len() {
                        assert(second@[q] == pre[q]);
                        assert(pd[q] == pre[q]@);
                        assert(pd[q] == firstv.take(i as int).filter(none_pred).map_values(p2)[q]);
                    } else {
                        assert(second@[q] == one);
                        assert(firstv.take(i + 1 as int).filter(none_pred)[q] == firstv[i as int]);
                    }
                }
                assert(second.deep_view() =~= firstv.take(i + 1 as int).filter(none_pred).map_values(
                    p2,
                ));
                assert(firstv.take(i + 1 as int).filter(some_pred) =~= firstv.take(
                    i as int,
                ).filter(some_pred));
            }
        }
        i = i + 1;
    }
    proof {
        assert(firstv.take(firstv.len() as int) =~= firstv);
    }
    let ghost mdv = matched.deep_view();
    let ghost sdv = second.deep_view();
    let mut out = matched;
    out.append(&mut second);
    proof {
        assert forall|q: int| 0 <= q < out.deep_view().len() implies out.deep_view()[q] == (mdv
            + sdv)[q] by {
            if q < mdv.len() {
            }
        }
        assert(out.deep_view() =~= mdv + sdv);
    }
    out
}

/// Whether a catalog row matches a trace row under the hash-and-address
/// algorithm: equal selector and equal contract address.
pub open spec fn trace_key_match(t: TraceRowV, c: AbiItemRowV) -> bool {
    t.selector == Some(c.hash) && t.action_to == Some(c.address)
}

/// The join output of one trace row: one row per matching catalog row, or a
/// single unmatched row when the catalog has none.
pub open spec fn match_trace_row(t: TraceRowV, catalog: Seq<AbiItemRowV>) -> Seq<
    MatchedTraceRowV,
> {
    let ms = catalog.filter(|c: AbiItemRowV| trace_key_match(t, c));
    if ms.len() == 0 {
        seq![MatchedTraceRowV { trace: t, sig: None, num_indexed_args: None }]
    } else {
        ms.map_values(
            |c: AbiItemRowV| MatchedTraceRowV {
                trace: t,
                sig: Some(sig_of_row(c)),
                num_indexed_args: c.num_indexed_args,
            },
        )
    }
}

/// The hash-and-address join over a whole trace table, row by row in order.
pub open spec fn match_traces_by_4bytes_address_spec(
    traces: Seq<TraceRowV>,
    catalog: Seq<AbiItemRowV>,
) -> Seq<MatchedTraceRowV> {
    traces.flat_map(|t: TraceRowV| match_trace_row(t, catalog))
}

/// Whether a catalog row matches a trace row, as executable code.
fn trace_key_match_exec(t: &TraceRow, c: &crate::abi::AbiItemRow) -> (r: bool)
    ensures
        r == trace_key_match(t@, c@),
{
    opt_bytes_is(&t.selector, &c.hash) && opt_bytes_is(&t.action_to, &c.address)
}

/// The join output of one trace row, as executable code.
fn match_one_trace_row(t: &TraceRow, abi_rows: &Vec<crate::abi::AbiItemRow>) -> (r: Vec<
    MatchedTraceRow,
>)
    ensures
        r.deep_view() == match_trace_row(t@, abi_rows.deep_view()),
{
    let ghost catv = abi_rows.deep_view();
    let ghost pred = |c: AbiItemRowV| trace_key_match(t@, c);
    let mut matches: Vec<MatchedTraceRow> = Vec::new();
    let mut j: usize = 0;
    proof {
        reveal(Seq::filter);
        assert(catv.take(0).filter(pred) =~= Seq::<AbiItemRowV>::empty());
    }
    while j < abi_rows.len()
        invariant
            j <= abi_rows@.len(),
            catv == abi_rows.deep_view(),
            catv.len() == abi_rows@.len(),
            pred == (|c: AbiItemRowV| trace_key_match(t@, c)),
            matches.deep_view() =~= catv.take(j as int).filter(pred).map_values(
                |c: AbiItemRowV| MatchedTraceRowV {
                    trace: t@,
                    sig: Some(sig_of_row(c)),
                    num_indexed_args: c.num_indexed_args,
                },
            ),
        decreases abi_rows@.len() - j,
    {
        proof {
            reveal(Seq::filter);
            assert(catv.take(j + 1 as int).drop_last() =~= catv.take(j as int));
            assert(catv.take(j + 1 as int).last() == catv[j as int]);
            assert(catv[j as int] == abi_rows@[j as int]@);
        }
        if trace_key_match_exec(t, &abi_rows[j]) {
            let ghost pre = matches@;
            let ghost pd = matches.deep_view();
            let one = MatchedTraceRow {
                trace: clone_trace_row(t),
                sig: Some(sig_from_row(&abi_rows[j])),
                num_indexed_args: abi_rows[j].num_indexed_args,
            };
            matches.push(one);
            proof {
                let mk = |c: AbiItemRowV| MatchedTraceRowV {
                    trace: t@,
                    sig: Some(sig_of_row(c)),
                    num_indexed_args: c.num_indexed_args,
                };
                assert(matches@ == pre.push(one));
                assert(pd.len() == pre.len());
                assert(catv.take(j + 1 as int).filter(pred) =~= catv.take(j as int).filter(
                    pred,
                ).push(catv[j as int]));
                assert forall|q: int| 0 <= q < matches.deep_view().len() implies
                    matches.deep_view()[q] == catv.take(j + 1 as int).filter(pred).map_values(
                    mk,
                )[q] by {
                    if q < pre.len() {
                        assert(matches@[q] == pre[q]);
                        assert(pd[q] == pre[q]@);
                        assert(pd[q] == catv.take(j as int).filter(pred).map_values(mk)[q]);
                    } else {
                        assert(matches@[q] == one);
                        assert(catv.take(j + 1 as int).filter(pred)[q] == catv[j as int]);
                    }
                }
                assert(matches.deep_view() =~= catv.take(j + 1 as int).filter(pred).map_values(
                    mk,
                ));
            }
        } else {
            proof {
                assert(catv.take(j + 1 as int).filter(pred) =~= catv.take(j as int).filter(pred));
            }
        }
        j = j + 1;
    }
    proof {
        assert(catv.take(catv.len() as int) =~= catv);
    }
    if matches.len() == 0 {
        let mut single: Vec<MatchedTraceRow> = Vec::new();
        single.push(
            MatchedTraceRow { trace: clone_trace_row(t), sig: None, num_indexed_args: None },
        );
        proof {
            assert(catv.filter(pred).len() == 0);
            assert(single.deep_view() =~= match_trace_row(t@, catv));
        }
        single
    } else {
        proof {
            assert(catv.filter(pred).len() > 0);
        }
        matches
    }
}

/// Left-joins trace rows with the catalog on `(selector, contract address)`:
/// each row yields one output row per matching catalog row, in catalog
/// order, or a single row with null catalog columns when nothing matches.
pub fn match_traces_by_4bytes_address(
    traces: &Vec<TraceRow>,
    abi_rows: &Vec<crate::abi::AbiItemRow>,
) -> (r: Vec<MatchedTraceRow>)
    ensures
        r.deep_view() == match_traces_by_4bytes_address_spec(
            traces.deep_view(),
            abi_rows.deep_view(),
        ),
{
    let ghost tracesv = traces.deep_view();
    let ghost catv = abi_rows.deep_view();
    let ghost f = |t: TraceRowV| match_trace_row(t, catv);
    let mut out: Vec<MatchedTraceRow> = Vec::new();
    let mut i: usize = 0;
    proof {
        assert(tracesv.take(0) =~= Seq::<TraceRowV>::empty());
        assert(tracesv.take(0).flat_map(f) =~= Seq::<MatchedTraceRowV>::empty());
    }
    while i < traces.len()
        invariant
            i <= traces@.len(),
            tracesv == traces.deep_view(),
            catv == abi_rows.deep_view(),
            f == (|t: TraceRowV| match_trace_row(t, catv)),
            tracesv.len() == traces@.len(),
            out.deep_view() =~= tracesv.take(i as int).flat_map(f),
        decreases traces@.len() - i,
    {
        let row_matches = match_one_trace_row(&traces[i], abi_rows);
        proof {
            assert(traces.deep_view()[i as int] == traces@[i as int]@);
        }
        let ghost pre_deep = out.deep_view();
        let ghost addv = row_matches.deep_view();
        let mut k: usize = 0;
        let m = row_matches.len();
        while k < m
            invariant
                k <= m,
                m == row_matches@.len(),
                addv.len() == m,
                forall|j: int| 0 <= j < m ==> row_matches@[j]@ == addv[j],
                out.deep_view() =~= pre_deep + addv.take(k as int),
            decreases m - k,
        {
            let ghost pre = out@;
            let ghost pd = out.deep_view();
            let one = clone_matched_trace_row(&row_matches[k]);
            out.push(one);
            proof {
                assert(out@ == pre.push(one));
                assert(pd.len() == pre.len());
                assert forall|j: int| 0 <= j < out.deep_view().len() implies out.deep_view()[j] == (
                pre_deep + addv.take(k + 1 as int))[j] by {
                    if j < pre.len() {
                        assert(out@[j] == pre[j]);
                        assert(pd[j] == pre[j]@);
                        assert(pd[j] == (pre_deep + addv.take(k as int))[j]);
                    } else {
                        assert(out@[j] == one);
                    }
                }
                assert(out.deep_view() =~= pre_deep + addv.take(k + 1 as int));
            }
            k = k + 1;
        }
        proof {
            assert(addv.take(m as int) =~= addv);
            tracesv.take(i as int).lemma_flat_map_push(f, tracesv[i as int]);
            assert(tracesv.take(i as int).push(tracesv[i as int]) =~= tracesv.take(i + 1 as int));
            assert(out.deep_view() =~= tracesv.take(i + 1 as int).flat_map(f));
        }
        i = i + 1;
    }
    proof {
        assert(tracesv.take(tracesv.len() as int) =~= tracesv);
    }
    out
}

/// Whether two catalog rows fall in the same trace signature group.
pub open spec fn trace_group_eq(a: AbiItemRowV, b: AbiItemRowV) -> bool {
    a.hash == b.hash && a.full_signature == b.full_signature && a.name == b.name
}

/// How many catalog rows fall in the trace group of row `i`.
pub open spec fn trace_group_count(catalog: Seq<AbiItemRowV>, i: int) -> nat {
    catalog.filter(|x: AbiItemRowV| trace_group_eq(catalog[i], x)).len()
}

/// Whether row `i` is the first of its trace signature group.
pub open spec fn trace_first_occ(catalog: Seq<AbiItemRowV>, i: int) -> bool {
    forall|j: int| 0 <= j < i ==> !trace_group_eq(catalog[i], #[trigger] catalog[j])
}

/// The most frequent signature of a selector among the first `k` catalog
/// rows: the first row of the group with the largest member count, earlier
/// groups winning ties.
pub open spec fn trace_best_rep_upto(catalog: Seq<AbiItemRowV>, hash: Seq<u8>, k: int) -> Option<
    int,
>
    decreases k,
{
    if k <= 0 {
        None
    } else {
        let prev = trace_best_rep_upto(catalog, hash, k - 1);
        let i = k - 1;
        if catalog[i].hash == hash && trace_first_occ(catalog, i) {
            match prev {
                None => Some(i),
                Some(p) => if trace_group_count(catalog, i) > trace_group_count(catalog, p) {
                    Some(i)
                } else {
                    Some(p)
                },
            }
        } else {
            prev
        }
    }
}

/// The most frequent signature of a selector.
pub open spec fn trace_best_rep(catalog: Seq<AbiItemRowV>, hash: Seq<u8>) -> Option<int> {
    trace_best_rep_upto(catalog, hash, catalog.len() as int)
}

/// The second-pass match of one unmatched trace row.
pub open spec fn match_trace_row_pass2(t: TraceRowV, catalog: Seq<AbiItemRowV>)
    -> MatchedTraceRowV {
    let rep = match t.selector {
        Some(h) => trace_best_rep(catalog, h),
        None => None,
    };
    match rep {
        Some(i) => MatchedTraceRowV {
            trace: t,
            sig: Some(sig_of_row(catalog[i])),
            num_indexed_args: catalog[i].num_indexed_args,
        },
        None => MatchedTraceRowV { trace: t, sig: None, num_indexed_args: None },
    }
}

/// The two-pass selector join over a whole trace table.
pub open spec fn match_traces_by_4bytes_spec(traces: Seq<TraceRowV>, catalog: Seq<AbiItemRowV>)
    -> Seq<MatchedTraceRowV> {
    let first = match_traces_by_4bytes_address_spec(traces, catalog);
    let matched = first.filter(|m: MatchedTraceRowV| m.sig is Some);
    let unmatched = first.filter(|m: MatchedTraceRowV| m.sig is None);
    matched + unmatched.map_values(|m: MatchedTraceRowV| match_trace_row_pass2(m.trace, catalog))
}

/// Whether two catalog rows fall in the same trace signature group, as
/// executable code.
fn trace_group_eq_exec(a: &crate::abi::AbiItemRow, b: &crate::abi::AbiItemRow) -> (r: bool)
    ensures
        r == trace_group_eq(a@, b@),
{
    bytes_eq(&a.hash, &b.hash) && crate::strutil::str_eq(
        a.full_signature.as_str(),
        b.full_signature.as_str(),
    ) && crate::strutil::str_eq(a.name.as_str(), b.name.as_str())
}

/// Counts the members of the trace signature group of row `i`.
fn trace_group_count_exec(catalog: &Vec<crate::abi::AbiItemRow>, i: usize) -> (r: usize)
    requires
        i < catalog@.len(),
    ensures
        r == trace_group_count(catalog.deep_view(), i as int),
{
    let ghost catv = catalog.deep_view();
    let ghost pred = |x: AbiItemRowV| trace_group_eq(catv[i as int], x);
    let mut count: usize = 0;
    let mut j: usize = 0;
    proof {
        reveal(Seq::filter);
        assert(catv.take(0).filter(pred) =~= Seq::<AbiItemRowV>::empty());
    }
    while j < catalog.len()
        invariant
            j <= catalog@.len(),
            i < catalog@.len(),
            catv == catalog.deep_view(),
            catv.len() == catalog@.len(),
            pred == (|x: AbiItemRowV| trace_group_eq(catv[i as int], x)),
            count == catv.take(j as int).filter(pred).len(),
            count <= j,
        decreases catalog@.len() - j,
    {
        proof {
            reveal(Seq::filter);
            assert(catv.take(j + 1 as int).drop_last() =~= catv.take(j as int));
            assert(catv.take(j + 1 as int).last() == catv[j as int]);
            assert(catv[j as int] == catalog@[j as int]@);
            assert(catv[i as int] == catalog@[i as int]@);
        }
        if trace_group_eq_exec(&catalog[i], &catalog[j]) {
            count = count + 1;
        }
        j = j + 1;
    }
    proof {
        assert(catv.take(catv.len() as int) =~= catv);
    }
    count
}

/// Whether row `i` is the first of its trace signature group, as executable
/// code.
fn trace_first_occ_exec(catalog: &Vec<crate::abi::AbiItemRow>, i: usize) -> (r: bool)
    requires
        i < catalog@.len(),
    ensures
        r == trace_first_occ(catalog.deep_view(), i as int),
{
    let ghost catv = catalog.deep_view();
    let mut j: usize = 0;
    while j < i
        invariant
            j <= i < catalog@.len(),
            catv == catalog.deep_view(),
            catv.len() == catalog@.len(),
            forall|q: int| 0 <= q < j ==> !trace_group_eq(catv[i as int], #[trigger] catv[q]),
        decreases i - j,
    {
        proof {
            assert(catv[j as int] == catalog@[j as int]@);
            assert(catv[i as int] == catalog@[i as int]@);
        }
        if trace_group_eq_exec(&catalog[i], &catalog[j]) {
            return false;
        }
        j = j + 1;
    }
    true
}

/// Finds the most frequent signature of a selector.
fn trace_best_rep_exec(catalog: &Vec<crate::abi::AbiItemRow>, hash: &Vec<u8>) -> (r: Option<
    usize,
>)
    ensures
        match r {
            Some(i) => trace_best_rep(catalog.deep_view(), hash@) == Some(i as int) && i
                < catalog@.len(),
            None => trace_best_rep(catalog.deep_view(), hash@) is None,
        },
{
    let ghost catv = catalog.deep_view();
    let mut best: Option<usize> = None;
    let mut k: usize = 0;
    while k < catalog.len()
        invariant
            k <= catalog@.len(),
            catv == catalog.deep_view(),
            catv.len() == catalog@.len(),
            match best {
                Some(i) => trace_best_rep_upto(catv, hash@, k as int) == Some(i as int) && i < k,
                None => trace_best_rep_upto(catv, hash@, k as int) is None,
            },
        decreases catalog@.len() - k,
    {
        proof {
            assert(catv[k as int] == catalog@[k as int]@);
        }
        let in_bucket = bytes_eq(&catalog[k].hash, hash);
        if in_bucket && trace_first_occ_exec(catalog, k) {
            match best {
                None => {
                    best = Some(k);
                },
                Some(p) => {
                    let ck = trace_group_count_exec(catalog, k);
                    let cp = trace_group_count_exec(catalog, p);
                    if ck > cp {
                        best = Some(k);
                    }
                },
            }
        }
        k = k + 1;
    }
    best
}

/// The second-pass match of one unmatched trace row, as executable code.
fn match_trace_row_pass2_exec(t: &TraceRow, catalog: &Vec<crate::abi::AbiItemRow>) -> (r:
    MatchedTraceRow)
    ensures
        r@ == match_trace_row_pass2(t@, catalog.deep_view()),
{
    let rep: Option<usize> = match &t.selector {
        Some(h) => trace_best_rep_exec(catalog, h),
        None => None,
    };
    match rep {
        Some(i) => {
            proof {
                assert(catalog.deep_view()[i as int] == catalog@[i as int]@);
            }
            MatchedTraceRow {
                trace: clone_trace_row(t),
                sig: Some(sig_from_row(&catalog[i])),
                num_indexed_args: catalog[i].num_indexed_args,
            }
        },
        None => MatchedTraceRow { trace: clone_trace_row(t), sig: None, num_indexed_args: None },
    }
}

/// Left-joins trace rows with the catalog in two passes: first on
/// `(selector, contract address)`, then the rows that stayed unmatched
/// against the most frequent signature of their selector.
pub fn match_traces_by_4bytes(traces: &Vec<TraceRow>, abi_rows: &Vec<crate::abi::AbiItemRow>)
    -> (r: Vec<MatchedTraceRow>)
    ensures
        r.deep_view() == match_traces_by_4bytes_spec(traces.deep_view(), abi_rows.deep_view()),
{
    let ghost catv = abi_rows.deep_view();
    let first = match_traces_by_4bytes_address(traces, abi_rows);
    let ghost firstv = first.deep_view();
    let ghost some_pred = |m: MatchedTraceRowV| m.sig is Some;
    let ghost none_pred = |m: MatchedTraceRowV| m.sig is None;
    let ghost p2 = |m: MatchedTraceRowV| match_trace_row_pass2(m.trace, catv);
    let mut matched: Vec<MatchedTraceRow> = Vec::new();
    let mut second: Vec<MatchedTraceRow> = Vec::new();
    let mut i: usize = 0;
    proof {
        reveal(Seq::filter);
        assert(firstv.take(0).filter(some_pred) =~= Seq::<MatchedTraceRowV>::empty());
        assert(firstv.take(0).filter(none_pred) =~= Seq::<MatchedTraceRowV>::empty());
    }
    while i < first.len()
        invariant
            i <= first@.len(),
            catv == abi_rows.deep_view(),
            firstv == first.deep_view(),
            firstv.len() == first@.len(),
            some_pred == (|m: MatchedTraceRowV| m.sig is Some),
            none_pred == (|m: MatchedTraceRowV| m.sig is None),
            p2 == (|m: MatchedTraceRowV| match_trace_row_pass2(m.trace, catv)),
            matched.deep_view() =~= firstv.take(i as int).filter(some_pred),
            second.deep_view() =~= firstv.take(i as int).filter(none_pred).map_values(p2),
        decreases first@.len() - i,
    {
        proof {
            reveal(Seq::filter);
            assert(firstv.take(i + 1 as int).drop_last() =~= firstv.take(i as int));
            assert(firstv.take(i + 1 as int).last() == firstv[i as int]);
            assert(firstv[i as int] == first@[i as int]@);
        }
        let has_sig = first[i].sig.is_some();
        if has_sig {
            let ghost pre = matched@;
            let ghost pd = matched.deep_view();
            let one = clone_matched_trace_row(&first[i]);
            matched.push(one);
            proof {
                assert(matched@ == pre.push(one));
                assert(pd.len() == pre.len());
                assert(firstv.take(i + 1 as int).filter(some_pred) =~= firstv.take(
                    i as int,
                ).filter(some_pred).push(firstv[i as int]));
                assert forall|q: int| 0 <= q < matched.deep_view().len() implies
                    matched.deep_view()[q] == firstv.take(i + 1 as int).filter(some_pred)[q] by {
                    if q < pre.len() {
                        assert(matched@[q] == pre[q]);
                        assert(pd[q] == pre[q]@);
                    } else {
                        assert(matched@[q] == one);
                    }
                }
                assert(matched.deep_view() =~= firstv.take(i + 1 as int).filter(some_pred));
                assert(firstv.take(i + 1 as int).filter(none_pred) =~= firstv.take(
                    i as int,
                ).filter(none_pred));
            }
        } else {
            let ghost pre = second@;
            let ghost pd = second.deep_view();
            let one = match_trace_row_pass2_exec(&first[i].trace, abi_rows);
            proof {
                assert(first@[i as int].trace@ == firstv[i as int].trace);
            }
            second.push(one);
            proof {
                assert(second@ == pre.push(one));
                assert(pd.len() == pre.len());
                assert(firstv.take(i + 1 as int).filter(none_pred) =~= firstv.take(
                    i as int,
                ).filter(none_pred).push(firstv[i as int]));
                assert forall|q: int| 0 <= q < second.deep_view().len() implies
                    second.deep_view()[q] == firstv.take(i + 1 as int).filter(none_pred).map_values(
                    p2,
                )[q] by {
                    if q < pre.len() {
                        assert(second@[q] == pre[q]);
                        assert(pd[q] == pre[q]@);
                        assert(pd[q] == firstv.take(i as int).filter(none_pred).map_values(p2)[q]);
                    } else {
                        assert(second@[q] == one);
                        assert(firstv.take(i + 1 as int).filter(none_pred)[q] == firstv[i as int]);
                    }
                }
                assert(second.deep_view() =~= firstv.take(i + 1 as int).filter(none_pred).map_values(
                    p2,
                ));
                assert(firstv.take(i + 1 as int).filter(some_pred) =~= firstv.take(
                    i as int,
                ).filter(some_pred));
            }
        }
        i = i + 1;
    }
    proof {
        assert(firstv.take(firstv.len() as int) =~= firstv);
    }
    let ghost mdv = matched.deep_view();
    let ghost sdv = second.deep_view();
    let mut out = matched;
    out.append(&mut second);
    proof {
        assert forall|q: int| 0 <= q < out.deep_view().len() implies out.deep_view()[q] == (mdv
            + sdv)[q] by {
            if q < mdv.len() {
            }
        }
        assert(out.deep_view() =~= mdv + sdv);
    }
    out
}

/// Copies one matched trace row.
pub fn clone_matched_trace_row(r: &MatchedTraceRow) -> (c: MatchedTraceRow)
    ensures
        c@ == r@,
{
    MatchedTraceRow {
        trace: clone_trace_row(&r.trace),
        sig: match &r.sig {
            Some(s) => Some(clone_sig_info(s)),
            None => None,
        },
        num_indexed_args: r.num_indexed_args,
    }
}

/// Copies one matched log row.
pub fn clone_matched_log_row(r: &MatchedLogRow) -> (c: MatchedLogRow)
    ensures
        c@ == r@,
{
    MatchedLogRow {
        log: clone_log_row(&r.log),
        num_indexed_args: r.num_indexed_args,
        sig: match &r.sig {
            Some(s) => Some(clone_sig_info(s)),
            None => None,
        },
    }
}

/// Copies the matched catalog columns.
pub fn clone_sig_info(s: &SigInfo) -> (c: SigInfo)
    ensures
        c@ == s@,
{
    SigInfo {
        full_signature: s.full_signature.clone(),
        name: s.name.clone(),
        anonymous: s.anonymous,
        state_mutability: match &s.state_mutability {
            Some(m) => Some(m.clone()),
            None => None,
        },
        id: s.id.clone(),
    }
}

} // verus!
