//! The per-row event kernel: decoding one matched log row into its named,
//! typed, human-readable parameters.

use vstd::prelude::*;
use crate::abi::EventInputV;
use crate::rows::{MatchedLogRow, MatchedLogRowV, LogRowV, DecodedLogRow, DecodedLogRowV};
use crate::sol::{event_decode_of, parsed_event_of};
use crate::value::{
    DynValueV, render_value, render_value_exec, json_of_params, StructuredParam, StructuredParamV,
    params_to_json, values_wf, lemma_values_wf_index, lemma_values_wf_all,
};

verus! {

/// Failures of log decoding.
#[derive(Debug)]
pub enum LogDecoderError {
    DecodingError(String),
    PolarsError(String),
}

/// A topic of all zero bytes, standing in for an absent topic.
pub open spec fn zero_topic_bytes() -> Seq<u8> {
    Seq::new(32, |i: int| 0u8)
}

/// The bytes of one topic cell: the topic itself, or the zero word when the
/// cell is null.
pub open spec fn topic_bytes(t: Option<Seq<u8>>) -> Seq<u8> {
    match t {
        Some(b) => b,
        None => zero_topic_bytes(),
    }
}

/// How many leading topic slots the kernel hands to the decoder: up to and
/// including the last present topic.
pub open spec fn present_topic_count(l: LogRowV) -> int {
    if l.topic3 is Some {
        4
    } else if l.topic2 is Some {
        3
    } else if l.topic1 is Some {
        2
    } else if l.topic0 is Some {
        1
    } else {
        0
    }
}

/// The topic words handed to the decoder: the present topics in position,
/// absent slots in between zero-filled, trailing absent slots dropped.
pub open spec fn topics_of_log(l: LogRowV) -> Seq<Seq<u8>> {
    Seq::new(
        present_topic_count(l) as nat,
        |i: int|
            if i == 0 {
                topic_bytes(l.topic0)
            } else if i == 1 {
                topic_bytes(l.topic1)
            } else if i == 2 {
                topic_bytes(l.topic2)
            } else {
                topic_bytes(l.topic3)
            },
    )
}

/// Whether every present topic of a row is a 32-byte word.
pub open spec fn log_topics_wf(l: LogRowV) -> bool {
    &&& (l.topic0 matches Some(b) ==> b.len() == 32)
    &&& (l.topic1 matches Some(b) ==> b.len() == 32)
    &&& (l.topic2 matches Some(b) ==> b.len() == 32)
    &&& (l.topic3 matches Some(b) ==> b.len() == 32)
}

/// The data bytes handed to the decoder: the cell itself, empty when null.
pub open spec fn data_bytes(l: LogRowV) -> Seq<u8> {
    match l.data {
        Some(d) => d,
        None => Seq::empty(),
    }
}

/// A decoded row whose decoded columns are all null.
pub open spec fn null_decoded_log(m: MatchedLogRowV) -> DecodedLogRowV {
    DecodedLogRowV { matched: m, event_values: None, event_keys: None, event_json: None }
}

/// An event's inputs reordered as the decoded values come: the indexed
/// parameters first, then the non-indexed ones, each in declaration order.
pub open spec fn indexed_first(inputs: Seq<EventInputV>) -> Seq<EventInputV> {
    inputs.filter(|p: EventInputV| p.indexed) + inputs.filter(|p: EventInputV| !p.indexed)
}

/// The parameter records of one decoded event.
pub open spec fn event_params(inputs2: Seq<EventInputV>, values: Seq<DynValueV>) -> Seq<
    StructuredParamV,
> {
    Seq::new(
        values.len(),
        |i: int| StructuredParamV {
            name: inputs2[i].name,
            index: i as u32,
            value_type: inputs2[i].ty,
            value: render_value(values[i]),
        },
    )
}

/// The event kernel on one matched row: a null triple for unmatched rows,
/// malformed topics, signatures that do not parse or payloads that do not
/// decode; otherwise the decoded values rendered in order (indexed
/// parameters first), their parameter names, and the compact JSON array of
/// the parameter records.
pub open spec fn decode_log_row_spec(m: MatchedLogRowV) -> DecodedLogRowV {
    match m.sig {
        None => null_decoded_log(m),
        Some(sig) => if !log_topics_wf(m.log) {
            null_decoded_log(m)
        } else {
            match event_decode_of(sig.full_signature, topics_of_log(m.log), data_bytes(m.log)) {
                None => null_decoded_log(m),
                Some(parts) => match parsed_event_of(sig.full_signature) {
                    None => null_decoded_log(m),
                    Some(e) => {
                        let values = parts.0 + parts.1;
                        let inputs2 = indexed_first(e.inputs);
                        if values.len() != inputs2.len() || values.len() > u32::MAX {
                            null_decoded_log(m)
                        } else {
                            let params = event_params(inputs2, values);
                            DecodedLogRowV {
                                matched: m,
                                event_values: Some(
                                    values.map_values(|v: DynValueV| render_value(v)),
                                ),
                                event_keys: Some(
                                    inputs2.map_values(|p: EventInputV| p.name),
                                ),
                                event_json: Some(json_of_params(params)),
                            }
                        }
                    },
                },
            }
        },
    }
}

/// A topic cell as decoder input: the topic's bytes, or 32 zero bytes.
fn topic_or_zero(t: &Option<Vec<u8>>) -> (r: Vec<u8>)
    ensures
        r@ == topic_bytes(crate::rows::opt_bytes_view(*t)),
{
    match t {
        Some(b) => crate::abi::clone_bytes(b),
        None => {
            let mut z: Vec<u8> = Vec::new();
            let mut i: usize = 0;
            while i < 32
                invariant
                    i <= 32,
                    z@ =~= zero_topic_bytes().take(i as int),
                decreases 32 - i,
            {
                z.push(0);
                assert(z@ =~= zero_topic_bytes().take(i + 1 as int));
                i = i + 1;
            }
            assert(z@ =~= zero_topic_bytes());
            z
        },
    }
}

/// Whether every present topic of a row is a 32-byte word, as executable
/// code.
fn check_log_topics(l: &crate::rows::LogRow) -> (r: bool)
    ensures
        r == log_topics_wf(l@),
{
    let t0 = match &l.topic0 {
        Some(b) => b.len() == 32,
        None => true,
    };
    let t1 = match &l.topic1 {
        Some(b) => b.len() == 32,
        None => true,
    };
    let t2 = match &l.topic2 {
        Some(b) => b.len() == 32,
        None => true,
    };
    let t3 = match &l.topic3 {
        Some(b) => b.len() == 32,
        None => true,
    };
    t0 && t1 && t2 && t3
}

/// Builds the topic words of one row for the decoder.
fn build_topics(l: &crate::rows::LogRow) -> (r: Vec<Vec<u8>>)
    ensures
        r.deep_view() == topics_of_log(l@),
        log_topics_wf(l@) ==> forall|i: int|
            0 <= i < r@.len() ==> (#[trigger] r@[i])@.len() == 32,
{
    let count: usize = if l.topic3.is_some() {
        4
    } else if l.topic2.is_some() {
        3
    } else if l.topic1.is_some() {
        2
    } else if l.topic0.is_some() {
        1
    } else {
        0
    };
    let mut r: Vec<Vec<u8>> = Vec::new();
    if count >= 1 {
        r.push(topic_or_zero(&l.topic0));
    }
    if count >= 2 {
        r.push(topic_or_zero(&l.topic1));
    }
    if count >= 3 {
        r.push(topic_or_zero(&l.topic2));
    }
    if count >= 4 {
        r.push(topic_or_zero(&l.topic3));
    }
    proof {
        assert(zero_topic_bytes().len() == 32);
        assert(r@.len() == count);
        assert forall|q: int| 0 <= q < r@.len() implies r.deep_view()[q] == topics_of_log(l@)[q] by {
            assert(r.deep_view()[q] == r@[q]@);
        }
        assert(r.deep_view() =~= topics_of_log(l@));
    }
    r
}

/// Splits an event's inputs into the decoded order: indexed first, then
/// non-indexed, each in declaration order.
fn reorder_inputs(inputs: &Vec<crate::abi::EventInput>) -> (r: Vec<crate::abi::EventInput>)
    ensures
        r.deep_view() == indexed_first(inputs.deep_view()),
{
    let ghost inv = inputs.deep_view();
    let ghost p_yes = |p: EventInputV| p.indexed;
    let ghost p_no = |p: EventInputV| !p.indexed;
    let mut first: Vec<crate::abi::EventInput> = Vec::new();
    let mut rest: Vec<crate::abi::EventInput> = Vec::new();
    let mut i: usize = 0;
    proof {
        reveal(Seq::filter);
        assert(inv.take(0).filter(p_yes) =~= Seq::<EventInputV>::empty());
        assert(inv.take(0).filter(p_no) =~= Seq::<EventInputV>::empty());
    }
    while i < inputs.len()
        invariant
            i <= inputs@.len(),
            inv == inputs.deep_view(),
            inv.len() == inputs@.len(),
            p_yes == (|p: EventInputV| p.indexed),
            p_no == (|p: EventInputV| !p.indexed),
            first.deep_view() =~= inv.take(i as int).filter(p_yes),
            rest.deep_view() =~= inv.take(i as int).filter(p_no),
        decreases inputs@.len() - i,
    {
        proof {
            reveal(Seq::filter);
            assert(inv.take(i + 1 as int).drop_last() =~= inv.take(i as int));
            assert(inv.take(i + 1 as int).last() == inv[i as int]);
            assert(inv[i as int] == inputs@[i as int]@);
        }
        let item = crate::abi::EventInput {
            name: inputs[i].name.clone(),
            ty: inputs[i].ty.clone(),
            indexed: inputs[i].indexed,
        };
        if inputs[i].indexed {
            let ghost pre = first@;
            let ghost pd = first.deep_view();
            first.push(item);
            proof {
                assert(first@ == pre.push(item));
                assert(pd.len() == pre.len());
                assert forall|q: int| 0 <= q < first.deep_view().len() implies
                    first.deep_view()[q] == inv.take(i + 1 as int).filter(p_yes)[q] by {
                    if q < pre.len() {
                        assert(first@[q] == pre[q]);
                        assert(pd[q] == pre[q]@);
                    } else {
                        assert(first@[q] == item);
                    }
                }
                assert(first.deep_view() =~= inv.take(i + 1 as int).filter(p_yes));
                assert(inv.take(i + 1 as int).filter(p_no) =~= inv.take(i as int).filter(p_no));
            }
        } else {
            let ghost pre = rest@;
            let ghost pd = rest.deep_view();
            rest.push(item);
            proof {
                assert(rest@ == pre.push(item));
                assert(pd.len() == pre.len());
                assert forall|q: int| 0 <= q < rest.deep_view().len() implies rest.deep_view()[q]
                    == inv.take(i + 1 as int).filter(p_no)[q] by {
                    if q < pre.len() {
                        assert(rest@[q] == pre[q]);
                        assert(pd[q] == pre[q]@);
                    } else {
                        assert(rest@[q] == item);
                    }
                }
                assert(rest.deep_view() =~= inv.take(i + 1 as int).filter(p_no));
                assert(inv.take(i + 1 as int).filter(p_yes) =~= inv.take(i as int).filter(p_yes));
            }
        }
        i = i + 1;
    }
    proof {
        assert(inv.take(inv.len() as int) =~= inv);
    }
    let ghost fd = first.deep_view();
    let ghost rd = rest.deep_view();
    let mut out = first;
    out.append(&mut rest);
    proof {
        assert forall|q: int| 0 <= q < out.deep_view().len() implies out.deep_view()[q] == (fd
            + rd)[q] by {
            if q < fd.len() {
            }
        }
        assert(out.deep_view() =~= fd + rd);
    }
    out
}

/// Runs the event kernel on one matched row.
pub fn decode_log_row(m: &MatchedLogRow) -> (r: DecodedLogRow)
    ensures
        r@ == decode_log_row_spec(m@),
        m@.sig is None ==> r@.event_values is None && r@.event_keys is None && r@.event_json
            is None,
{
    let matched = crate::matcher::clone_matched_log_row(m);
    let sig = match &m.sig {
        None => {
            return DecodedLogRow {
                matched,
                event_values: None,
                event_keys: None,
                event_json: None,
            };
        },
        Some(s) => s,
    };
    if !check_log_topics(&m.log) {
        return DecodedLogRow { matched, event_values: None, event_keys: None, event_json: None };
    }
    let topics = build_topics(&m.log);
    let data: Vec<u8> = match &m.log.data {
        Some(d) => crate::abi::clone_bytes(d),
        None => Vec::new(),
    };
    proof {
        assert(data@ =~= data_bytes(m@.log));
    }
    let parts = match crate::sol::decode_event_values(sig.full_signature.as_str(), &topics, &data) {
        None => {
            return DecodedLogRow {
                matched,
                event_values: None,
                event_keys: None,
                event_json: None,
            };
        },
        Some(p) => p,
    };
    let desc = match crate::sol::parse_event_descriptor(sig.full_signature.as_str()) {
        None => {
            return DecodedLogRow {
                matched,
                event_values: None,
                event_keys: None,
                event_json: None,
            };
        },
        Some(e) => e,
    };
    let inputs2 = reorder_inputs(&desc.inputs);
    let (ind, mut body) = parts;
    let ghost indv = ind.deep_view();
    let ghost bodyv = body.deep_view();
    let mut values = ind;
    values.append(&mut body);
    proof {
        assert forall|q: int| 0 <= q < values.deep_view().len() implies values.deep_view()[q] == (
        indv + bodyv)[q] by {
            if q < indv.len() {
            }
        }
        assert(values.deep_view() =~= indv + bodyv);
        assert forall|q: int| 0 <= q < values.deep_view().len() implies crate::value::value_wf(
            #[trigger] values.deep_view()[q],
        ) by {
            if q < indv.len() {
                lemma_values_wf_index(indv, q);
            } else {
                lemma_values_wf_index(bodyv, q - indv.len());
            }
        }
        lemma_values_wf_all(values.deep_view());
    }
    if values.len() != inputs2.len() || values.len() > (u32::MAX as usize) {
        return DecodedLogRow { matched, event_values: None, event_keys: None, event_json: None };
    }
    let ghost valuesv = values.deep_view();
    let ghost inputs2v = inputs2.deep_view();
    let mut evs: Vec<String> = Vec::new();
    let mut keys: Vec<String> = Vec::new();
    let mut params: Vec<StructuredParam> = Vec::new();
    let n = values.len();
    let mut i: usize = 0;
    while i < n
        invariant
            i <= n,
            n == values@.len(),
            n == inputs2@.len(),
            n <= u32::MAX,
            valuesv == values.deep_view(),
            inputs2v == inputs2.deep_view(),
            valuesv.len() == n,
            inputs2v.len() == n,
            values_wf(valuesv),
            evs.deep_view() =~= valuesv.map_values(|v: DynValueV| render_value(v)).take(i as int),
            keys.deep_view() =~= inputs2v.map_values(|p: EventInputV| p.name).take(i as int),
            params.deep_view() =~= event_params(inputs2v, valuesv).take(i as int),
        decreases n - i,
    {
        proof {
            lemma_values_wf_index(valuesv, i as int);
            assert(valuesv[i as int] == values@[i as int]@);
            assert(inputs2v[i as int] == inputs2@[i as int]@);
        }
        let rendered = render_value_exec(&values[i]);
        let rendered2 = rendered.clone();
        let ghost pe = evs@;
        let ghost ped = evs.deep_view();
        evs.push(rendered2);
        let ghost pk = keys@;
        let ghost pkd = keys.deep_view();
        keys.push(inputs2[i].name.clone());
        let key_clone = inputs2[i].name.clone();
        let ty_clone = inputs2[i].ty.clone();
        let ghost pp = params@;
        let ghost ppd = params.deep_view();
        let param = StructuredParam {
            name: key_clone,
            index: i as u32,
            value_type: ty_clone,
            value: rendered,
        };
        params.push(param);
        proof {
            assert(ped.len() == pe.len());
            assert(pkd.len() == pk.len());
            assert(ppd.len() == pp.len());
            assert forall|q: int| 0 <= q < i + 1 implies evs.deep_view()[q] == valuesv.map_values(
                |v: DynValueV| render_value(v),
            ).take(i + 1 as int)[q] by {
                if q < pe.len() {
                    assert(evs@[q] == pe[q]);
                    assert(ped[q] == pe[q]@);
                    assert(ped[q] == valuesv.map_values(|v: DynValueV| render_value(v)).take(
                        i as int,
                    )[q]);
                }
            }
            assert(evs.deep_view() =~= valuesv.map_values(|v: DynValueV| render_value(v)).take(
                i + 1 as int,
            ));
            assert forall|q: int| 0 <= q < i + 1 implies keys.deep_view()[q]
                == inputs2v.map_values(|p: EventInputV| p.name).take(i + 1 as int)[q] by {
                if q < pk.len() {
                    assert(keys@[q] == pk[q]);
                    assert(pkd[q] == pk[q]@);
                    assert(pkd[q] == inputs2v.map_values(|p: EventInputV| p.name).take(
                        i as int,
                    )[q]);
                }
            }
            assert(keys.deep_view() =~= inputs2v.map_values(|p: EventInputV| p.name).take(
                i + 1 as int,
            ));
            assert forall|q: int| 0 <= q < i + 1 implies params.deep_view()[q] == event_params(
                inputs2v,
                valuesv,
            ).take(i + 1 as int)[q] by {
                if q < pp.len() {
                    assert(params@[q] == pp[q]);
                    assert(ppd[q] == pp[q]@);
                    assert(ppd[q] == event_params(inputs2v, valuesv).take(i as int)[q]);
                } else {
                    assert(params@[q] == param);
                }
            }
            assert(params.deep_view() =~= event_params(inputs2v, valuesv).take(i + 1 as int));
        }
        i = i + 1;
    }
    proof {
        assert(valuesv.map_values(|v: DynValueV| render_value(v)).take(n as int)
            =~= valuesv.map_values(|v: DynValueV| render_value(v)));
        assert(inputs2v.map_values(|p: EventInputV| p.name).take(n as int)
            =~= inputs2v.map_values(|p: EventInputV| p.name));
        assert(event_params(inputs2v, valuesv).take(n as int) =~= event_params(
            inputs2v,
            valuesv,
        ));
    }
    let json = params_to_json(&params);
    DecodedLogRow {
        matched,
        event_values: Some(evs),
        event_keys: Some(keys),
        event_json: Some(json),
    }
}

/// Runs the event kernel over a whole chunk, row by row in order.
pub fn polars_decode_logs(rows: &Vec<MatchedLogRow>) -> (r: Vec<DecodedLogRow>)
    ensures
        r.deep_view() == rows.deep_view().map_values(
            |m: MatchedLogRowV| decode_log_row_spec(m),
        ),
{
    let ghost rowsv = rows.deep_view();
    let ghost f = |m: MatchedLogRowV| decode_log_row_spec(m);
    let mut out: Vec<DecodedLogRow> = Vec::new();
    let mut i: usize = 0;
    while i < rows.len()
        invariant
            i <= rows@.len(),
            rowsv == rows.deep_view(),
            rowsv.len() == rows@.len(),
            f == (|m: MatchedLogRowV| decode_log_row_spec(m)),
            out.deep_view() =~= rowsv.map_values(f).take(i as int),
        decreases rows@.len() - i,
    {
        let ghost pre = out@;
        let ghost pd = out.deep_view();
        let one = decode_log_row(&rows[i]);
        proof {
            assert(rowsv[i as int] == rows@[i as int]@);
        }
        out.push(one);
        proof {
            assert(out@ == pre.push(one));
            assert(pd.len() == pre.len());
            assert forall|q: int| 0 <= q < out.deep_view().len() implies out.deep_view()[q]
                == rowsv.map_values(f).take(i + 1 as int)[q] by {
                if q < pre.len() {
                    assert(out@[q] == pre[q]);
                    assert(pd[q] == pre[q]@);
                    assert(pd[q] == rowsv.map_values(f).take(i as int)[q]);
                } else {
                    assert(out@[q] == one);
                }
            }
            assert(out.deep_view() =~= rowsv.map_values(f).take(i + 1 as int));
        }
        i = i + 1;
    }
    proof {
        assert(rowsv.map_values(f).take(rowsv.len() as int) =~= rowsv.map_values(f));
    }
    out
}

/// Splitting an event's inputs at the indexed flag keeps every parameter:
/// the indexed and the non-indexed parts together are as long as the whole.
pub proof fn lemma_indexed_partition_len(s: Seq<EventInputV>)
    ensures
        s.filter(|p: EventInputV| p.indexed).len() + s.filter(|p: EventInputV| !p.indexed).len()
            == s.len(),
    decreases s.len(),
{
    reveal(Seq::filter);
    if s.len() > 0 {
        lemma_indexed_partition_len(s.drop_last());
    }
}

/// Parameter count: when the kernel decodes a row, the value list, the key
/// list and the parameter records are exactly one per parameter of the
/// parsed signature.
pub proof fn lemma_parameter_count(m: MatchedLogRowV)
    requires
        decode_log_row_spec(m).event_values is Some,
    ensures
        m.sig is Some,
        parsed_event_of(m.sig.unwrap().full_signature) is Some,
        decode_log_row_spec(m).event_values.unwrap().len() == parsed_event_of(
            m.sig.unwrap().full_signature,
        ).unwrap().inputs.len(),
        decode_log_row_spec(m).event_keys is Some,
        decode_log_row_spec(m).event_keys.unwrap().len() == parsed_event_of(
            m.sig.unwrap().full_signature,
        ).unwrap().inputs.len(),
{
    let sig = m.sig.unwrap();
    let e = parsed_event_of(sig.full_signature).unwrap();
    lemma_indexed_partition_len(e.inputs);
    assert(indexed_first(e.inputs).len() == e.inputs.len());
}

} // verus!
