//! Order-independence of the pipeline: shuffling the raw input rows permutes
//! the matched and decoded output rows, because matching and decoding treat
//! every row by itself.

use vstd::prelude::*;
use vstd::seq_lib::lemma_multiset_commutative;
use crate::abi::AbiItemRowV;
use crate::decoder::{matched_logs_spec, matched_traces_spec};
use crate::config::DecoderAlgorithm;
use crate::log_decoder::decode_log_row_spec;
use crate::trace_decoder::decode_trace_row_spec;
use crate::matcher::{
    match_logs_by_topic0_address_spec, match_log_row, match_trace_row,
};
use crate::rows::{LogRowV, MatchedLogRowV, TraceRowV, MatchedTraceRowV};

verus! {

/// Mapping each element to a piece and concatenating distributes over
/// concatenation of the inputs.
pub proof fn lemma_flat_map_concat<A, B>(a: Seq<A>, b: Seq<A>, f: spec_fn(A) -> Seq<B>)
    ensures
        (a + b).flat_map(f) == a.flat_map(f) + b.flat_map(f),
    decreases b.len(),
{
    if b.len() == 0 {
        assert(a + b =~= a);
        assert(b.map_values(f).len() == 0);
        assert(b.flat_map(f) =~= Seq::<B>::empty());
        assert(a.flat_map(f) + Seq::<B>::empty() =~= a.flat_map(f));
    } else {
        let b0 = b.drop_last();
        lemma_flat_map_concat(a, b0, f);
        (a + b0).lemma_flat_map_push(f, b.last());
        b0.lemma_flat_map_push(f, b.last());
        assert((a + b0).push(b.last()) =~= a + b);
        assert(b0.push(b.last()) =~= b);
        assert((a.flat_map(f) + b0.flat_map(f)) + f(b.last()) =~= a.flat_map(f) + (b0.flat_map(f)
            + f(b.last())));
    }
}

/// The one-element flat map is the piece of that element.
pub proof fn lemma_flat_map_singleton<A, B>(x: A, f: spec_fn(A) -> Seq<B>)
    ensures
        seq![x].flat_map(f) == f(x),
{
    let s = seq![x];
    assert(s.map_values(f).len() == 1);
    assert(s.map_values(f)[0] == f(x));
    assert(s.map_values(f).drop_first().len() == 0);
    assert(s.map_values(f).drop_first().flatten() =~= Seq::<B>::empty());
    assert(s.flat_map(f) =~= f(x));
}

/// Inputs with the same rows in any order produce, piece by piece, outputs
/// with the same rows: the flat map of a permutation is a permutation.
pub proof fn lemma_flat_map_permutation<A, B>(s1: Seq<A>, s2: Seq<A>, f: spec_fn(A) -> Seq<B>)
    requires
        s1.to_multiset() == s2.to_multiset(),
    ensures
        s1.flat_map(f).to_multiset() == s2.flat_map(f).to_multiset(),
    decreases s1.len(),
{
    broadcast use vstd::seq_lib::group_to_multiset_ensures;

    if s1.len() == 0 {
        assert(s2.to_multiset().len() == 0);
        assert(s2.len() == 0);
        assert(s1.flat_map(f) =~= s2.flat_map(f));
    } else {
        let x = s1[0];
        assert(s1.contains(x));
        assert(s1.to_multiset().count(x) > 0);
        assert(s2.to_multiset().count(x) > 0);
        assert(s2.contains(x));
        let j = choose|j: int| 0 <= j < s2.len() && s2[j] == x;
        let t1 = s1.drop_first();
        let t2 = s2.remove(j);
        assert(s1.remove(0) =~= t1);
        assert(s1.remove(0).to_multiset() == s1.to_multiset().remove(x));
        assert(t2.to_multiset() == s2.to_multiset().remove(x));
        lemma_flat_map_permutation(t1, t2, f);
        assert(s1 =~= seq![x] + t1);
        lemma_flat_map_concat(seq![x], t1, f);
        lemma_flat_map_singleton(x, f);
        lemma_multiset_commutative(f(x), t1.flat_map(f));
        assert(s1.flat_map(f).to_multiset() =~= f(x).to_multiset().add(
            t1.flat_map(f).to_multiset(),
        ));
        let front = s2.take(j);
        let back = s2.skip(j + 1);
        assert(s2 =~= front + (seq![x] + back));
        assert(t2 =~= front + back);
        lemma_flat_map_concat(front, seq![x] + back, f);
        lemma_flat_map_concat(seq![x], back, f);
        lemma_flat_map_concat(front, back, f);
        lemma_multiset_commutative(front.flat_map(f), (seq![x] + back).flat_map(f));
        lemma_multiset_commutative(f(x), back.flat_map(f));
        lemma_multiset_commutative(front.flat_map(f), back.flat_map(f));
        assert(s2.flat_map(f).to_multiset() =~= front.flat_map(f).to_multiset().add(
            f(x).to_multiset().add(back.flat_map(f).to_multiset()),
        ));
        assert(t2.flat_map(f).to_multiset() =~= front.flat_map(f).to_multiset().add(
            back.flat_map(f).to_multiset(),
        ));
        assert(s1.flat_map(f).to_multiset() =~= s2.flat_map(f).to_multiset());
    }
}

/// A map of a permutation is a permutation.
pub proof fn lemma_map_permutation<A, B>(s1: Seq<A>, s2: Seq<A>, f: spec_fn(A) -> B)
    requires
        s1.to_multiset() == s2.to_multiset(),
    ensures
        s1.map_values(f).to_multiset() == s2.map_values(f).to_multiset(),
    decreases s1.len(),
{
    broadcast use vstd::seq_lib::group_to_multiset_ensures;

    if s1.len() == 0 {
        assert(s2.to_multiset().len() == 0);
        assert(s2.len() == 0);
        assert(s1.map_values(f) =~= s2.map_values(f));
    } else {
        let x = s1[0];
        assert(s1.contains(x));
        assert(s1.to_multiset().count(x) > 0);
        assert(s2.to_multiset().count(x) > 0);
        assert(s2.contains(x));
        let j = choose|j: int| 0 <= j < s2.len() && s2[j] == x;
        let t1 = s1.drop_first();
        let t2 = s2.remove(j);
        assert(s1.remove(0) =~= t1);
        assert(s1.remove(0).to_multiset() == s1.to_multiset().remove(x));
        assert(t2.to_multiset() == s2.to_multiset().remove(x));
        lemma_map_permutation(t1, t2, f);
        assert(s1.map_values(f) =~= seq![f(x)] + t1.map_values(f));
        lemma_multiset_commutative(seq![f(x)], t1.map_values(f));
        let front = s2.take(j);
        let back = s2.skip(j + 1);
        assert(s2.map_values(f) =~= front.map_values(f) + (seq![f(x)] + back.map_values(f)));
        assert(t2.map_values(f) =~= front.map_values(f) + back.map_values(f));
        lemma_multiset_commutative(front.map_values(f), seq![f(x)] + back.map_values(f));
        lemma_multiset_commutative(seq![f(x)], back.map_values(f));
        lemma_multiset_commutative(front.map_values(f), back.map_values(f));
        assert(s1.map_values(f).to_multiset() =~= s2.map_values(f).to_multiset());
    }
}

/// A filter of a permutation is a permutation.
pub proof fn lemma_filter_permutation<A>(s1: Seq<A>, s2: Seq<A>, p: spec_fn(A) -> bool)
    requires
        s1.to_multiset() == s2.to_multiset(),
    ensures
        s1.filter(p).to_multiset() == s2.filter(p).to_multiset(),
    decreases s1.len(),
{
    broadcast use vstd::seq_lib::group_to_multiset_ensures;

    if s1.len() == 0 {
        assert(s2.to_multiset().len() == 0);
        assert(s2.len() == 0);
        assert(s1.filter(p) =~= s2.filter(p));
    } else {
        reveal(Seq::filter);
        let x = s1[0];
        assert(s1.contains(x));
        assert(s1.to_multiset().count(x) > 0);
        assert(s2.to_multiset().count(x) > 0);
        assert(s2.contains(x));
        let j = choose|j: int| 0 <= j < s2.len() && s2[j] == x;
        let t1 = s1.drop_first();
        let t2 = s2.remove(j);
        assert(s1.remove(0) =~= t1);
        assert(s1.remove(0).to_multiset() == s1.to_multiset().remove(x));
        assert(t2.to_multiset() == s2.to_multiset().remove(x));
        lemma_filter_permutation(t1, t2, p);
        assert(s1 =~= seq![x] + t1);
        Seq::filter_distributes_over_add(seq![x], t1, p);
        assert(seq![x].drop_last().filter(p) =~= Seq::<A>::empty());
        assert(seq![x].filter(p) =~= (if p(x) {
            seq![x]
        } else {
            Seq::<A>::empty()
        }));
        lemma_multiset_commutative(seq![x].filter(p), t1.filter(p));
        let front = s2.take(j);
        let back = s2.skip(j + 1);
        assert(s2 =~= front + (seq![x] + back));
        assert(t2 =~= front + back);
        Seq::filter_distributes_over_add(front, seq![x] + back, p);
        Seq::filter_distributes_over_add(seq![x], back, p);
        Seq::filter_distributes_over_add(front, back, p);
        lemma_multiset_commutative(front.filter(p), (seq![x] + back).filter(p));
        lemma_multiset_commutative(seq![x].filter(p), back.filter(p));
        lemma_multiset_commutative(front.filter(p), back.filter(p));
        assert(s1.filter(p).to_multiset() =~= s2.filter(p).to_multiset());
    }
}

/// Ordering-independent matching for the two-pass hash algorithm: the first
/// pass maps permutations to permutations, splitting it into matched and
/// unmatched rows keeps multisets, and the second pass is a map again.
pub proof fn lemma_order_independent_two_pass(
    logs1: Seq<LogRowV>,
    logs2: Seq<LogRowV>,
    catalog: Seq<AbiItemRowV>,
)
    requires
        logs1.to_multiset() == logs2.to_multiset(),
    ensures
        crate::matcher::match_logs_by_topic0_spec(logs1, catalog).to_multiset()
            == crate::matcher::match_logs_by_topic0_spec(logs2, catalog).to_multiset(),
{
    let f = |l: LogRowV| match_log_row(l, catalog);
    let some_pred = |m: MatchedLogRowV| m.sig is Some;
    let none_pred = |m: MatchedLogRowV| m.sig is None;
    let p2 = |m: MatchedLogRowV| crate::matcher::match_log_row_pass2(m.log, catalog);
    lemma_flat_map_permutation(logs1, logs2, f);
    let first1 = match_logs_by_topic0_address_spec(logs1, catalog);
    let first2 = match_logs_by_topic0_address_spec(logs2, catalog);
    lemma_filter_permutation(first1, first2, some_pred);
    lemma_filter_permutation(first1, first2, none_pred);
    lemma_map_permutation(first1.filter(none_pred), first2.filter(none_pred), p2);
    lemma_multiset_commutative(first1.filter(some_pred), first1.filter(none_pred).map_values(p2));
    lemma_multiset_commutative(first2.filter(some_pred), first2.filter(none_pred).map_values(p2));
}

/// Ordering-independent matching and decoding, under either algorithm:
/// shuffling the raw log rows gives a decoded output that is a
/// row-permutation of the unshuffled output. Matching joins each row by
/// itself, the two-pass refinement splits and reassembles without losing
/// rows, and the kernel decodes each matched row by itself, so the whole
/// pipeline maps permutations to permutations.
pub proof fn lemma_order_independent_decoding(
    logs1: Seq<LogRowV>,
    logs2: Seq<LogRowV>,
    catalog: Seq<AbiItemRowV>,
    algorithm: DecoderAlgorithm,
)
    requires
        logs1.to_multiset() == logs2.to_multiset(),
    ensures
        matched_logs_spec(logs1, catalog, algorithm).map_values(
            |m: MatchedLogRowV| decode_log_row_spec(m),
        ).to_multiset() == matched_logs_spec(logs2, catalog, algorithm).map_values(
            |m: MatchedLogRowV| decode_log_row_spec(m),
        ).to_multiset(),
{
    match algorithm {
        DecoderAlgorithm::HashAddress => {
            let f = |l: LogRowV| match_log_row(l, catalog);
            lemma_flat_map_permutation(logs1, logs2, f);
        },
        DecoderAlgorithm::Hash => {
            lemma_order_independent_two_pass(logs1, logs2, catalog);
        },
    }
    lemma_map_permutation(
        matched_logs_spec(logs1, catalog, algorithm),
        matched_logs_spec(logs2, catalog, algorithm),
        |m: MatchedLogRowV| decode_log_row_spec(m),
    );
}

/// Ordering-independent matching for the two-pass selector algorithm on
/// traces, as [`lemma_order_independent_two_pass`] shows for logs.
pub proof fn lemma_order_independent_two_pass_traces(
    traces1: Seq<TraceRowV>,
    traces2: Seq<TraceRowV>,
    catalog: Seq<AbiItemRowV>,
)
    requires
        traces1.to_multiset() == traces2.to_multiset(),
    ensures
        crate::matcher::match_traces_by_4bytes_spec(traces1, catalog).to_multiset()
            == crate::matcher::match_traces_by_4bytes_spec(traces2, catalog).to_multiset(),
{
    let f = |t: TraceRowV| match_trace_row(t, catalog);
    let some_pred = |m: MatchedTraceRowV| m.sig is Some;
    let none_pred = |m: MatchedTraceRowV| m.sig is None;
    let p2 = |m: MatchedTraceRowV| crate::matcher::match_trace_row_pass2(m.trace, catalog);
    lemma_flat_map_permutation(traces1, traces2, f);
    let first1 = crate::matcher::match_traces_by_4bytes_address_spec(traces1, catalog);
    let first2 = crate::matcher::match_traces_by_4bytes_address_spec(traces2, catalog);
    lemma_filter_permutation(first1, first2, some_pred);
    lemma_filter_permutation(first1, first2, none_pred);
    lemma_map_permutation(first1.filter(none_pred), first2.filter(none_pred), p2);
    lemma_multiset_commutative(first1.filter(some_pred), first1.filter(none_pred).map_values(p2));
    lemma_multiset_commutative(first2.filter(some_pred), first2.filter(none_pred).map_values(p2));
}

/// Ordering-independent matching and decoding for traces, under either
/// algorithm.
pub proof fn lemma_order_independent_decoding_traces(
    traces1: Seq<TraceRowV>,
    traces2: Seq<TraceRowV>,
    catalog: Seq<AbiItemRowV>,
    algorithm: DecoderAlgorithm,
)
    requires
        traces1.to_multiset() == traces2.to_multiset(),
    ensures
        matched_traces_spec(traces1, catalog, algorithm).map_values(
            |m: MatchedTraceRowV| decode_trace_row_spec(m),
        ).to_multiset() == matched_traces_spec(traces2, catalog, algorithm).map_values(
            |m: MatchedTraceRowV| decode_trace_row_spec(m),
        ).to_multiset(),
{
    match algorithm {
        DecoderAlgorithm::HashAddress => {
            let f = |t: TraceRowV| match_trace_row(t, catalog);
            lemma_flat_map_permutation(traces1, traces2, f);
        },
        DecoderAlgorithm::Hash => {
            lemma_order_independent_two_pass_traces(traces1, traces2, catalog);
        },
    }
    lemma_map_permutation(
        matched_traces_spec(traces1, catalog, algorithm),
        matched_traces_spec(traces2, catalog, algorithm),
        |m: MatchedTraceRowV| decode_trace_row_spec(m),
    );
}

} // verus!
