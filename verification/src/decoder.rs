//! The decoding orchestrator: chunked runs of the per-row kernels over a
//! matched table, the match-then-decode pipeline, and the placement of
//! decoded output files.

use vstd::prelude::*;
use crate::abi::AbiItemRow;
use crate::config::{Config, DecoderAlgorithm};
use crate::log_decoder::{decode_log_row_spec, polars_decode_logs};
use crate::trace_decoder::{decode_trace_row_spec, polars_decode_traces};
use crate::matcher::{
    match_logs_by_topic0_address, match_logs_by_topic0, match_traces_by_4bytes_address,
    match_traces_by_4bytes, match_logs_by_topic0_address_spec, match_logs_by_topic0_spec,
    match_traces_by_4bytes_address_spec, match_traces_by_4bytes_spec,
};
use crate::rows::{
    LogRow, LogRowV, TraceRow, TraceRowV, MatchedLogRow, MatchedLogRowV, MatchedTraceRow,
    MatchedTraceRowV, DecodedLogRow, DecodedLogRowV, DecodedTraceRow, DecodedTraceRowV,
};
use crate::strutil::push_char;

verus! {

/// Failures of decoding runs.
#[derive(Debug)]
pub enum DecoderError {
    DecodingError(String),
    PolarsError(String),
    MatcherError(String),
    IoError(String),
    JoinError(String),
}

/// The source kind of a decoding run.
#[derive(Clone, Copy, Debug, PartialEq, Eq, Structural)]
pub enum DecoderType {
    Log,
    Trace,
}

/// Runs the event kernel over a matched log table in contiguous chunks of at
/// most `chunk_size` rows. The result does not depend on the chunk size:
/// chunking is a partition, the kernel is per-row, and the chunks are
/// reassembled in slice order, so any chunk size yields the row-by-row map.
pub fn decode_log_chunks(rows: &Vec<MatchedLogRow>, chunk_size: usize) -> (r: Vec<DecodedLogRow>)
    requires
        chunk_size >= 1,
    ensures
        r.deep_view() == rows.deep_view().map_values(
            |m: MatchedLogRowV| decode_log_row_spec(m),
        ),
{
    let ghost rowsv = rows.deep_view();
    let ghost f = |m: MatchedLogRowV| decode_log_row_spec(m);
    let mut out: Vec<DecodedLogRow> = Vec::new();
    let total = rows.len();
    let mut i: usize = 0;
    while i < total
        invariant
            i <= total,
            total == rows@.len(),
            chunk_size >= 1,
            rowsv == rows.deep_view(),
            rowsv.len() == total,
            f == (|m: MatchedLogRowV| decode_log_row_spec(m)),
            out.deep_view() =~= rowsv.map_values(f).take(i as int),
        decreases total - i,
    {
        let end = if total - i < chunk_size {
            total
        } else {
            i + chunk_size
        };
        let mut chunk: Vec<MatchedLogRow> = Vec::new();
        let mut k: usize = i;
        while k < end
            invariant
                i <= k <= end <= total,
                total == rows@.len(),
                rowsv == rows.deep_view(),
                rowsv.len() == total,
                chunk.deep_view() =~= rowsv.subrange(i as int, k as int),
            decreases end - k,
        {
            let ghost pre = chunk@;
            let ghost pd = chunk.deep_view();
            let one = crate::matcher::clone_matched_log_row(&rows[k]);
            proof {
                assert(rowsv[k as int] == rows@[k as int]@);
            }
            chunk.push(one);
            proof {
                assert(chunk@ == pre.push(one));
                assert(pd.len() == pre.len());
                assert forall|q: int| 0 <= q < chunk.deep_view().len() implies
                    chunk.deep_view()[q] == rowsv.subrange(i as int, k + 1 as int)[q] by {
                    if q < pre.len() {
                        assert(chunk@[q] == pre[q]);
                        assert(pd[q] == pre[q]@);
                        assert(pd[q] == rowsv.subrange(i as int, k as int)[q]);
                    } else {
                        assert(chunk@[q] == one);
                    }
                }
                assert(chunk.deep_view() =~= rowsv.subrange(i as int, k + 1 as int));
            }
            k = k + 1;
        }
        let mut decoded = polars_decode_logs(&chunk);
        let ghost outd = out.deep_view();
        let ghost decd = decoded.deep_view();
        out.append(&mut decoded);
        proof {
            assert forall|q: int| 0 <= q < out.deep_view().len() implies out.deep_view()[q] == (
            outd + decd)[q] by {
                if q < outd.len() {
                }
            }
            assert(out.deep_view() =~= outd + decd);
            assert forall|q: int| 0 <= q < end implies out.deep_view()[q] == rowsv.map_values(
                f,
            ).take(end as int)[q] by {
                if q >= i {
                    assert(decd[q - i] == f(rowsv.subrange(i as int, end as int)[q - i]));
                }
            }
            assert(out.deep_view() =~= rowsv.map_values(f).take(end as int));
        }
        i = end;
    }
    proof {
        assert(rowsv.map_values(f).take(total as int) =~= rowsv.map_values(f));
    }
    out
}

/// Runs the function kernel over a matched trace table in contiguous chunks
/// of at most `chunk_size` rows; the result does not depend on the chunk
/// size.
pub fn decode_trace_chunks(rows: &Vec<MatchedTraceRow>, chunk_size: usize) -> (r: Vec<
    DecodedTraceRow,
>)
    requires
        chunk_size >= 1,
    ensures
        r.deep_view() == rows.deep_view().map_values(
            |m: MatchedTraceRowV| decode_trace_row_spec(m),
        ),
{
    let ghost rowsv = rows.deep_view();
    let ghost f = |m: MatchedTraceRowV| decode_trace_row_spec(m);
    let mut out: Vec<DecodedTraceRow> = Vec::new();
    let total = rows.len();
    let mut i: usize = 0;
    while i < total
        invariant
            i <= total,
            total == rows@.len(),
            chunk_size >= 1,
            rowsv == rows.deep_view(),
            rowsv.len() == total,
            f == (|m: MatchedTraceRowV| decode_trace_row_spec(m)),
            out.deep_view() =~= rowsv.map_values(f).take(i as int),
        decreases total - i,
    {
        let end = if total - i < chunk_size {
            total
        } else {
            i + chunk_size
        };
        let mut chunk: Vec<MatchedTraceRow> = Vec::new();
        let mut k: usize = i;
        while k < end
            invariant
                i <= k <= end <= total,
                total == rows@.len(),
                rowsv == rows.deep_view(),
                rowsv.len() == total,
                chunk.deep_view() =~= rowsv.subrange(i as int, k as int),
            decreases end - k,
        {
            let ghost pre = chunk@;
            let ghost pd = chunk.deep_view();
            let one = crate::matcher::clone_matched_trace_row(&rows[k]);
            proof {
                assert(rowsv[k as int] == rows@[k as int]@);
            }
            chunk.push(one);
            proof {
                assert(chunk@ == pre.push(one));
                assert(pd.len() == pre.len());
                assert forall|q: int| 0 <= q < chunk.deep_view().len() implies
                    chunk.deep_view()[q] == rowsv.subrange(i as int, k + 1 as int)[q] by {
                    if q < pre.len() {
                        assert(chunk@[q] == pre[q]);
                        assert(pd[q] == pre[q]@);
                        assert(pd[q] == rowsv.subrange(i as int, k as int)[q]);
                    } else {
                        assert(chunk@[q] == one);
                    }
                }
                assert(chunk.deep_view() =~= rowsv.subrange(i as int, k + 1 as int));
            }
            k = k + 1;
        }
        let mut decoded = polars_decode_traces(&chunk);
        let ghost outd = out.deep_view();
        let ghost decd = decoded.deep_view();
        out.append(&mut decoded);
        proof {
            assert forall|q: int| 0 <= q < out.deep_view().len() implies out.deep_view()[q] == (
            outd + decd)[q] by {
                if q < outd.len() {
                }
            }
            assert(out.deep_view() =~= outd + decd);
            assert forall|q: int| 0 <= q < end implies out.deep_view()[q] == rowsv.map_values(
                f,
            ).take(end as int)[q] by {
                if q >= i {
                    assert(decd[q - i] == f(rowsv.subrange(i as int, end as int)[q - i]));
                }
            }
            assert(out.deep_view() =~= rowsv.map_values(f).take(end as int));
        }
        i = end;
    }
    proof {
        assert(rowsv.map_values(f).take(total as int) =~= rowsv.map_values(f));
    }
    out
}

/// The matched table of a log run under the configured algorithm.
pub open spec fn matched_logs_spec(
    logs: Seq<LogRowV>,
    catalog: Seq<crate::abi::AbiItemRowV>,
    algorithm: DecoderAlgorithm,
) -> Seq<MatchedLogRowV> {
    match algorithm {
        DecoderAlgorithm::HashAddress => match_logs_by_topic0_address_spec(logs, catalog),
        DecoderAlgorithm::Hash => match_logs_by_topic0_spec(logs, catalog),
    }
}

/// The matched table of a trace run under the configured algorithm.
pub open spec fn matched_traces_spec(
    traces: Seq<TraceRowV>,
    catalog: Seq<crate::abi::AbiItemRowV>,
    algorithm: DecoderAlgorithm,
) -> Seq<MatchedTraceRowV> {
    match algorithm {
        DecoderAlgorithm::HashAddress => match_traces_by_4bytes_address_spec(traces, catalog),
        DecoderAlgorithm::Hash => match_traces_by_4bytes_spec(traces, catalog),
    }
}

/// Decodes a log table against a loaded catalog: the rows are matched under
/// the configured algorithm and every matched row runs through the event
/// kernel, in chunks of the configured size.
pub fn decode_logs_with_abi_df(logs: &Vec<LogRow>, abi_rows: &Vec<AbiItemRow>, config: &Config)
    -> (r: Vec<DecodedLogRow>)
    requires
        config.wf(),
    ensures
        r.deep_view() == matched_logs_spec(
            logs.deep_view(),
            abi_rows.deep_view(),
            config@.decoder.algorithm,
        ).map_values(|m: MatchedLogRowV| decode_log_row_spec(m)),
{
    let matched = match config.decoder.algorithm {
        DecoderAlgorithm::HashAddress => match_logs_by_topic0_address(logs, abi_rows),
        DecoderAlgorithm::Hash => match_logs_by_topic0(logs, abi_rows),
    };
    decode_log_chunks(&matched, config.decoder.decoded_chunk_size)
}

/// Decodes a trace table against a loaded catalog, as
/// [`decode_logs_with_abi_df`] does for logs.
pub fn decode_traces_with_abi_df(
    traces: &Vec<TraceRow>,
    abi_rows: &Vec<AbiItemRow>,
    config: &Config,
) -> (r: Vec<DecodedTraceRow>)
    requires
        config.wf(),
    ensures
        r.deep_view() == matched_traces_spec(
            traces.deep_view(),
            abi_rows.deep_view(),
            config@.decoder.algorithm,
        ).map_values(|m: MatchedTraceRowV| decode_trace_row_spec(m)),
{
    let matched = match config.decoder.algorithm {
        DecoderAlgorithm::HashAddress => match_traces_by_4bytes_address(traces, abi_rows),
        DecoderAlgorithm::Hash => match_traces_by_4bytes(traces, abi_rows),
    };
    decode_trace_chunks(&matched, config.decoder.decoded_chunk_size)
}

/// Null columns stay null: a row whose signature is null after matching
/// carries null decoded columns.
pub proof fn lemma_null_preservation_log(m: MatchedLogRowV)
    requires
        m.sig is None,
    ensures
        decode_log_row_spec(m).event_values is None,
        decode_log_row_spec(m).event_keys is None,
        decode_log_row_spec(m).event_json is None,
        decode_log_row_spec(m).matched == m,
{
}

/// Null columns stay null for traces: an unmatched row carries six null
/// decoded columns.
pub proof fn lemma_null_preservation_trace(m: MatchedTraceRowV)
    requires
        m.sig is None,
    ensures
        decode_trace_row_spec(m).input_values is None,
        decode_trace_row_spec(m).input_keys is None,
        decode_trace_row_spec(m).input_json is None,
        decode_trace_row_spec(m).output_values is None,
        decode_trace_row_spec(m).output_keys is None,
        decode_trace_row_spec(m).output_json is None,
        decode_trace_row_spec(m).matched == m,
{
}

/// Replacing every occurrence of a pattern, leftmost first, without
/// overlap, as Rust's `str::replace` does.
pub open spec fn replace_all(s: Seq<char>, pat: Seq<char>, rep: Seq<char>) -> Seq<char>
    recommends
        pat.len() >= 1,
    decreases s.len(),
{
    if s.len() < pat.len() || pat.len() == 0 {
        s
    } else if s.take(pat.len() as int) == pat {
        rep + replace_all(s.skip(pat.len() as int), pat, rep)
    } else {
        seq![s[0]] + replace_all(s.drop_first(), pat, rep)
    }
}

/// Whether a pattern occurs in a sequence.
pub open spec fn contains_seq(s: Seq<char>, pat: Seq<char>) -> bool {
    exists|k: int|
        0 <= k <= s.len() - pat.len() && #[trigger] s.subrange(k, k + pat.len() as int) == pat
}

/// Whether the prefix of `s` at `k` is `pat`, as executable code.
fn matches_at(s: &str, n: usize, k: usize, pat: &str, m: usize) -> (r: bool)
    requires
        n == s@.len(),
        m == pat@.len(),
        k + m <= n,
    ensures
        r == (s@.subrange(k as int, k + m as int) == pat@),
{
    let mut j: usize = 0;
    while j < m
        invariant
            j <= m,
            k + m <= n,
            n == s@.len(),
            m == pat@.len(),
            forall|q: int| 0 <= q < j ==> s@[k + q] == pat@[q],
        decreases m - j,
    {
        if s.get_char(k + j) != pat.get_char(j) {
            assert(s@.subrange(k as int, k + m as int)[j as int] != pat@[j as int]);
            return false;
        }
        j = j + 1;
    }
    assert(s@.subrange(k as int, k + m as int) =~= pat@);
    true
}

/// Whether a string contains a pattern, as executable code.
pub fn contains_str(s: &str, pat: &str) -> (r: bool)
    requires
        pat@.len() >= 1,
    ensures
        r == contains_seq(s@, pat@),
{
    let n: usize = s.unicode_len();
    let m: usize = pat.unicode_len();
    if m > n {
        assert(!contains_seq(s@, pat@));
        return false;
    }
    let mut k: usize = 0;
    while k <= n - m
        invariant
            0 <= k <= n - m + 1,
            m <= n,
            m >= 1,
            n == s@.len(),
            m == pat@.len(),
            forall|q: int| 0 <= q < k ==> #[trigger] s@.subrange(q, q + m as int) != pat@,
        decreases n - k,
    {
        if matches_at(s, n, k, pat, m) {
            assert(contains_seq(s@, pat@));
            return true;
        }
        k = k + 1;
    }
    assert(!contains_seq(s@, pat@));
    false
}

/// Replaces every occurrence of a pattern, leftmost first, without overlap.
pub fn replace_str(s: &str, pat: &str, rep: &str) -> (r: String)
    requires
        pat@.len() >= 1,
    ensures
        r@ == replace_all(s@, pat@, rep@),
{
    let n: usize = s.unicode_len();
    let m: usize = pat.unicode_len();
    let mut out = String::new();
    let mut i: usize = 0;
    proof {
        assert(s@.skip(0) =~= s@);
        assert(Seq::<char>::empty() + replace_all(s@, pat@, rep@) =~= replace_all(
            s@,
            pat@,
            rep@,
        ));
    }
    while i < n
        invariant
            i <= n,
            n == s@.len(),
            m == pat@.len(),
            m >= 1,
            replace_all(s@, pat@, rep@) == out@ + replace_all(s@.skip(i as int), pat@, rep@),
        decreases n - i,
    {
        proof {
            assert(s@.skip(i as int).len() == n - i);
        }
        if m <= n - i && matches_at(s, n, i, pat, m) {
            proof {
                assert(s@.skip(i as int).take(m as int) =~= s@.subrange(i as int, i + m as int));
                assert(s@.skip(i as int).skip(m as int) =~= s@.skip(i + m as int));
                assert((out@ + rep@) + replace_all(s@.skip(i + m as int), pat@, rep@) =~= out@ + (
                rep@ + replace_all(s@.skip(i + m as int), pat@, rep@)));
            }
            out.append(rep);
            i = i + m;
        } else {
            proof {
                if m <= n - i {
                    assert(s@.skip(i as int).take(m as int) =~= s@.subrange(
                        i as int,
                        i + m as int,
                    ));
                    assert(s@.skip(i as int)[0] == s@[i as int]);
                    assert(s@.skip(i as int).drop_first() =~= s@.skip(i + 1 as int));
                    assert((out@ + seq![s@[i as int]]) + replace_all(
                        s@.skip(i + 1 as int),
                        pat@,
                        rep@,
                    ) =~= out@ + (seq![s@[i as int]] + replace_all(
                        s@.skip(i + 1 as int),
                        pat@,
                        rep@,
                    )));
                } else {
                    assert(replace_all(s@.skip(i as int), pat@, rep@) == s@.skip(i as int));
                    assert(replace_all(s@.skip(i + 1 as int), pat@, rep@) == s@.skip(i + 1 as int));
                    assert(s@.skip(i as int) =~= seq![s@[i as int]] + s@.skip(i + 1 as int));
                    assert((out@ + seq![s@[i as int]]) + s@.skip(i + 1 as int) =~= out@ + (seq![
                        s@[i as int],
                    ] + s@.skip(i + 1 as int)));
                }
            }
            push_char(&mut out, s.get_char(i));
            i = i + 1;
        }
    }
    proof {
        assert(s@.skip(n as int) =~= Seq::<char>::empty());
        assert(replace_all(Seq::<char>::empty(), pat@, rep@) == Seq::<char>::empty());
        assert(out@ + Seq::<char>::empty() =~= out@);
    }
    out
}

/// The decoded name of a source file: the `logs` or `traces` marker replaced
/// by its decoded counterpart, or the counterpart prefixed when the marker
/// is absent.
pub open spec fn decoded_file_name(name: Seq<char>, kind: DecoderType) -> Seq<char> {
    match kind {
        DecoderType::Log => if contains_seq(name, "logs"@) {
            replace_all(name, "logs"@, "decoded_logs"@)
        } else {
            "decoded_logs_"@ + name
        },
        DecoderType::Trace => if contains_seq(name, "traces"@) {
            replace_all(name, "traces"@, "decoded_traces"@)
        } else {
            "decoded_traces_"@ + name
        },
    }
}

/// A file name with its extension, the part after the last dot, replaced; a
/// name without a dot gets the extension appended.
pub open spec fn with_extension(name: Seq<char>, ext: Seq<char>) -> Seq<char> {
    let cut = last_dot(name, name.len() as int);
    if cut < 0 {
        name + seq!['.'] + ext
    } else {
        name.take(cut) + seq!['.'] + ext
    }
}

/// The position of the last dot before `k`, or a negative number.
pub open spec fn last_dot(name: Seq<char>, k: int) -> int
    decreases k,
{
    if k <= 0 {
        -1
    } else if name[k - 1] == '.' {
        k - 1
    } else {
        last_dot(name, k - 1)
    }
}

/// Replaces a file name's extension, as executable code.
pub fn set_extension(name: &str, ext: &str) -> (r: String)
    ensures
        r@ == with_extension(name@, ext@),
{
    let n: usize = name.unicode_len();
    let mut cut: usize = n;
    let mut k: usize = 0;
    while k < n
        invariant
            0 <= k <= n,
            n == name@.len(),
            cut == n ==> last_dot(name@, k as int) < 0,
            cut < n ==> last_dot(name@, k as int) == cut,
            cut <= n,
        decreases n - k,
    {
        if name.get_char(k) == '.' {
            cut = k;
        }
        k = k + 1;
    }
    let stem = if cut < n {
        name.substring_char(0, cut)
    } else {
        name
    };
    let mut r = String::from_str(stem);
    push_char(&mut r, '.');
    r.append(ext);
    proof {
        if cut < n {
            assert(last_dot(name@, n as int) == cut);
            assert(name@.take(cut as int) =~= stem@);
        } else {
            assert(last_dot(name@, n as int) < 0);
        }
        assert(r@ =~= with_extension(name@, ext@));
    }
    r
}

/// Where a decoded file is written: a `decoded` directory beside the source
/// file's parent directory, holding the renamed file with the configured
/// output extension. The path is split at `/` separators; the source file's
/// two enclosing components are dropped from the end and replaced by
/// `decoded`.
pub fn decoded_save_path(file_path: &str, kind: DecoderType, output_file_format: &str) -> (r:
    String)
    ensures
        r@ == save_path_of(file_path@, kind, output_file_format@),
{
    let parts = crate::strutil::split_on_char(file_path, '/');
    proof {
        crate::strutil::lemma_split_char_len(file_path@, '/');
    }
    let nparts = parts.len();
    let file_name = &parts[nparts - 1];
    proof {
        reveal_strlit("logs");
        reveal_strlit("traces");
        reveal_strlit("decoded_logs");
        reveal_strlit("decoded_traces");
        reveal_strlit("decoded_logs_");
        reveal_strlit("decoded_traces_");
        assert("logs"@.len() == 4);
        assert("traces"@.len() == 6);
    }
    let renamed: String = match kind {
        DecoderType::Log => {
            if contains_str(file_name.as_str(), "logs") {
                replace_str(file_name.as_str(), "logs", "decoded_logs")
            } else {
                let mut t = String::from_str("decoded_logs_");
                t.append(file_name.as_str());
                t
            }
        },
        DecoderType::Trace => {
            if contains_str(file_name.as_str(), "traces") {
                replace_str(file_name.as_str(), "traces", "decoded_traces")
            } else {
                let mut t = String::from_str("decoded_traces_");
                t.append(file_name.as_str());
                t
            }
        },
    };
    proof {
        assert(parts.deep_view()[nparts - 1 as int] == parts@[nparts - 1 as int]@);
        assert(renamed@ == decoded_file_name(
            crate::strutil::split_char(file_path@, '/').last(),
            kind,
        ));
    }
    let with_ext = set_extension(renamed.as_str(), output_file_format);
    let mut out = String::new();
    let keep = if nparts >= 3 {
        nparts - 2
    } else {
        0
    };
    let mut i: usize = 0;
    while i < keep
        invariant
            i <= keep,
            keep <= parts@.len(),
            parts.deep_view() == crate::strutil::split_char(file_path@, '/'),
            out@ =~= joined_prefix(crate::strutil::split_char(file_path@, '/'), i as int),
        decreases keep - i,
    {
        proof {
            assert(parts.deep_view()[i as int] == parts@[i as int]@);
        }
        out.append(parts[i].as_str());
        push_char(&mut out, '/');
        assert(out@ =~= joined_prefix(crate::strutil::split_char(file_path@, '/'), i + 1 as int));
        i = i + 1;
    }
    proof {
        reveal_strlit("decoded/");
        assert("decoded/"@.len() == 8);
    }
    out.append("decoded/");
    out.append(with_ext.as_str());
    proof {
        assert(out@ =~= save_path_of(file_path@, kind, output_file_format@));
    }
    out
}

/// The `/`-joined prefix of path components, each followed by a separator.
pub open spec fn joined_prefix(parts: Seq<Seq<char>>, k: int) -> Seq<char>
    decreases k,
{
    if k <= 0 {
        Seq::empty()
    } else {
        joined_prefix(parts, k - 1) + parts[k - 1] + seq!['/']
    }
}

/// The full decoded output path of a source file.
pub open spec fn save_path_of(file_path: Seq<char>, kind: DecoderType, ext: Seq<char>) -> Seq<
    char,
> {
    let parts = crate::strutil::split_char(file_path, '/');
    let keep = if parts.len() >= 3 {
        parts.len() - 2
    } else {
        0
    };
    joined_prefix(parts, keep as int) + "decoded/"@ + with_extension(
        decoded_file_name(parts.last(), kind),
        ext,
    )
}

} // verus!
