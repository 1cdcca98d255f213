//! The per-row function kernel: decoding one matched trace row's input and
//! output bytes into named, typed, human-readable parameters.

use vstd::prelude::*;
use crate::abi::FnParamV;
use crate::rows::{
    MatchedTraceRow, MatchedTraceRowV, TraceRowV, DecodedTraceRow, DecodedTraceRowV,
};
use crate::sol::{
    function_input_decode_of, function_output_decode_of, parsed_function_of,
};
use crate::value::{
    DynValueV, render_value, render_value_exec, json_of_params, StructuredParam, StructuredParamV,
    params_to_json, values_wf, lemma_values_wf_index,
};

verus! {

/// Failures of trace decoding.
#[derive(Debug)]
pub enum TraceDecoderError {
    DecodingError(String),
    PolarsError(String),
}

/// The input bytes handed to the decoder: the cell itself, empty when null.
pub open spec fn input_bytes(t: TraceRowV) -> Seq<u8> {
    match t.action_input {
        Some(d) => d,
        None => Seq::empty(),
    }
}

/// The output bytes handed to the decoder: the cell itself, empty when null.
pub open spec fn output_bytes(t: TraceRowV) -> Seq<u8> {
    match t.result_output {
        Some(d) => d,
        None => Seq::empty(),
    }
}

/// A decoded row whose decoded columns are all null.
pub open spec fn null_decoded_trace(m: MatchedTraceRowV) -> DecodedTraceRowV {
    DecodedTraceRowV {
        matched: m,
        input_values: None,
        input_keys: None,
        input_json: None,
        output_values: None,
        output_keys: None,
        output_json: None,
    }
}

/// The parameter records of one decoded parameter list.
pub open spec fn fn_params(params: Seq<FnParamV>, values: Seq<DynValueV>) -> Seq<
    StructuredParamV,
> {
    Seq::new(
        values.len(),
        |i: int| StructuredParamV {
            name: params[i].name,
            index: i as u32,
            value_type: params[i].ty,
            value: render_value(values[i]),
        },
    )
}

/// The function kernel on one matched row: a null sextet for unmatched rows,
/// signatures that do not parse, or input or output bytes that do not
/// decode; otherwise the decoded input and output values rendered in
/// declaration order, their parameter names, and the compact JSON arrays of
/// the parameter records.
pub open spec fn decode_trace_row_spec(m: MatchedTraceRowV) -> DecodedTraceRowV {
    match m.sig {
        None => null_decoded_trace(m),
        Some(sig) => {
            let din = function_input_decode_of(sig.full_signature, input_bytes(m.trace));
            let dout = function_output_decode_of(sig.full_signature, output_bytes(m.trace));
            match (din, dout, parsed_function_of(sig.full_signature)) {
                (Some(ivals), Some(ovals), Some(f)) => {
                    if ivals.len() != f.inputs.len() || ovals.len() != f.outputs.len()
                        || ivals.len() > u32::MAX || ovals.len() > u32::MAX {
                        null_decoded_trace(m)
                    } else {
                        DecodedTraceRowV {
                            matched: m,
                            input_values: Some(
                                ivals.map_values(|v: DynValueV| render_value(v)),
                            ),
                            input_keys: Some(f.inputs.map_values(|p: FnParamV| p.name)),
                            input_json: Some(json_of_params(fn_params(f.inputs, ivals))),
                            output_values: Some(
                                ovals.map_values(|v: DynValueV| render_value(v)),
                            ),
                            output_keys: Some(f.outputs.map_values(|p: FnParamV| p.name)),
                            output_json: Some(json_of_params(fn_params(f.outputs, ovals))),
                        }
                    }
                },
                _ => null_decoded_trace(m),
            }
        },
    }
}

/// Renders one decoded parameter list: the rendered values, the parameter
/// names, and the JSON array of the records.
fn render_param_list(params: &Vec<crate::abi::FnParam>, values: &Vec<crate::value::DynValue>)
    -> (r: (Vec<String>, Vec<String>, String))
    requires
        params@.len() == values@.len(),
        values@.len() <= u32::MAX,
        values_wf(values.deep_view()),
    ensures
        r.0.deep_view() == values.deep_view().map_values(|v: DynValueV| render_value(v)),
        r.1.deep_view() == params.deep_view().map_values(|p: FnParamV| p.name),
        r.2@ == json_of_params(fn_params(params.deep_view(), values.deep_view())),
{
    let ghost valuesv = values.deep_view();
    let ghost paramsv = params.deep_view();
    let mut vals: Vec<String> = Vec::new();
    let mut keys: Vec<String> = Vec::new();
    let mut records: Vec<StructuredParam> = Vec::new();
    let n = values.len();
    let mut i: usize = 0;
    while i < n
        invariant
            i <= n,
            n == values@.len(),
            n == params@.len(),
            n <= u32::MAX,
            valuesv == values.deep_view(),
            paramsv == params.deep_view(),
            valuesv.len() == n,
            paramsv.len() == n,
            values_wf(valuesv),
            vals.deep_view() =~= valuesv.map_values(|v: DynValueV| render_value(v)).take(i as int),
            keys.deep_view() =~= paramsv.map_values(|p: FnParamV| p.name).take(i as int),
            records.deep_view() =~= fn_params(paramsv, valuesv).take(i as int),
        decreases n - i,
    {
        proof {
            lemma_values_wf_index(valuesv, i as int);
            assert(valuesv[i as int] == values@[i as int]@);
            assert(paramsv[i as int] == params@[i as int]@);
        }
        let rendered = render_value_exec(&values[i]);
        let rendered2 = rendered.clone();
        let ghost pv = vals@;
        let ghost pvd = vals.deep_view();
        vals.push(rendered2);
        let ghost pk = keys@;
        let ghost pkd = keys.deep_view();
        keys.push(params[i].name.clone());
        let ghost pr = records@;
        let ghost prd = records.deep_view();
        let rec = StructuredParam {
            name: params[i].name.clone(),
            index: i as u32,
            value_type: params[i].ty.clone(),
            value: rendered,
        };
        records.push(rec);
        proof {
            assert(pvd.len() == pv.len());
            assert(pkd.len() == pk.len());
            assert(prd.len() == pr.len());
            assert forall|q: int| 0 <= q < i + 1 implies vals.deep_view()[q] == valuesv.map_values(
                |v: DynValueV| render_value(v),
            ).take(i + 1 as int)[q] by {
                if q < pv.len() {
                    assert(vals@[q] == pv[q]);
                    assert(pvd[q] == pv[q]@);
                    assert(pvd[q] == valuesv.map_values(|v: DynValueV| render_value(v)).take(
                        i as int,
                    )[q]);
                }
            }
            assert(vals.deep_view() =~= valuesv.map_values(|v: DynValueV| render_value(v)).take(
                i + 1 as int,
            ));
            assert forall|q: int| 0 <= q < i + 1 implies keys.deep_view()[q]
                == paramsv.map_values(|p: FnParamV| p.name).take(i + 1 as int)[q] by {
                if q < pk.len() {
                    assert(keys@[q] == pk[q]);
                    assert(pkd[q] == pk[q]@);
                    assert(pkd[q] == paramsv.map_values(|p: FnParamV| p.name).take(i as int)[q]);
                }
            }
            assert(keys.deep_view() =~= paramsv.map_values(|p: FnParamV| p.name).take(
                i + 1 as int,
            ));
            assert forall|q: int| 0 <= q < i + 1 implies records.deep_view()[q] == fn_params(
                paramsv,
                valuesv,
            ).take(i + 1 as int)[q] by {
                if q < pr.len() {
                    assert(records@[q] == pr[q]);
                    assert(prd[q] == pr[q]@);
                    assert(prd[q] == fn_params(paramsv, valuesv).take(i as int)[q]);
                } else {
                    assert(records@[q] == rec);
                }
            }
            assert(records.deep_view() =~= fn_params(paramsv, valuesv).take(i + 1 as int));
        }
        i = i + 1;
    }
    proof {
        assert(valuesv.map_values(|v: DynValueV| render_value(v)).take(n as int)
            =~= valuesv.map_values(|v: DynValueV| render_value(v)));
        assert(paramsv.map_values(|p: FnParamV| p.name).take(n as int) =~= paramsv.map_values(
            |p: FnParamV| p.name,
        ));
        assert(fn_params(paramsv, valuesv).take(n as int) =~= fn_params(paramsv, valuesv));
    }
    let json = params_to_json(&records);
    (vals, keys, json)
}

/// Runs the function kernel on one matched row.
pub fn decode_trace_row(m: &MatchedTraceRow) -> (r: DecodedTraceRow)
    ensures
        r@ == decode_trace_row_spec(m@),
        m@.sig is None ==> r@.input_values is None && r@.input_keys is None && r@.input_json
            is None && r@.output_values is None && r@.output_keys is None && r@.output_json
            is None,
{
    let matched = crate::matcher::clone_matched_trace_row(m);
    let sig = match &m.sig {
        None => {
            return DecodedTraceRow {
                matched,
                input_values: None,
                input_keys: None,
                input_json: None,
                output_values: None,
                output_keys: None,
                output_json: None,
            };
        },
        Some(s) => s,
    };
    let input: Vec<u8> = match &m.trace.action_input {
        Some(d) => crate::abi::clone_bytes(d),
        None => Vec::new(),
    };
    let output: Vec<u8> = match &m.trace.result_output {
        Some(d) => crate::abi::clone_bytes(d),
        None => Vec::new(),
    };
    proof {
        assert(input@ =~= input_bytes(m@.trace));
        assert(output@ =~= output_bytes(m@.trace));
    }
    let ivals = crate::sol::decode_function_input_values(sig.full_signature.as_str(), &input);
    let ovals = crate::sol::decode_function_output_values(sig.full_signature.as_str(), &output);
    let desc = crate::sol::parse_function_descriptor(sig.full_signature.as_str());
    match (ivals, ovals, desc) {
        (Some(ivals), Some(ovals), Some(f)) => {
            if ivals.len() != f.inputs.len() || ovals.len() != f.outputs.len() || ivals.len() > (
            u32::MAX as usize) || ovals.len() > (u32::MAX as usize) {
                return DecodedTraceRow {
                    matched,
                    input_values: None,
                    input_keys: None,
                    input_json: None,
                    output_values: None,
                    output_keys: None,
                    output_json: None,
                };
            }
            let (ivs, iks, ijson) = render_param_list(&f.inputs, &ivals);
            let (ovs, oks, ojson) = render_param_list(&f.outputs, &ovals);
            DecodedTraceRow {
                matched,
                input_values: Some(ivs),
                input_keys: Some(iks),
                input_json: Some(ijson),
                output_values: Some(ovs),
                output_keys: Some(oks),
                output_json: Some(ojson),
            }
        },
        _ => DecodedTraceRow {
            matched,
            input_values: None,
            input_keys: None,
            input_json: None,
            output_values: None,
            output_keys: None,
            output_json: None,
        },
    }
}

/// Runs the function kernel over a whole chunk, row by row in order.
pub fn polars_decode_traces(rows: &Vec<MatchedTraceRow>) -> (r: Vec<DecodedTraceRow>)
    ensures
        r.deep_view() == rows.deep_view().map_values(
            |m: MatchedTraceRowV| decode_trace_row_spec(m),
        ),
{
    let ghost rowsv = rows.deep_view();
    let ghost f = |m: MatchedTraceRowV| decode_trace_row_spec(m);
    let mut out: Vec<DecodedTraceRow> = Vec::new();
    let mut i: usize = 0;
    while i < rows.len()
        invariant
            i <= rows@.len(),
            rowsv == rows.deep_view(),
            rowsv.len() == rows@.len(),
            f == (|m: MatchedTraceRowV| decode_trace_row_spec(m)),
            out.deep_view() =~= rowsv.map_values(f).take(i as int),
        decreases rows@.len() - i,
    {
        let ghost pre = out@;
        let ghost pd = out.deep_view();
        let one = decode_trace_row(&rows[i]);
        proof {
            assert(rowsv[i as int] == rows@[i as int]@);
        }
        out.push(one);
        proof {
            assert(out@ == pre.push(one));
            assert(pd.len() == pre.len());
            assert forall|q: int| 0 <= q < out.deep_view().len() implies out.deep_view()[q]
                == rowsv.map_values(f).take(i + 1 as int)[q] by {
                if q < pre.len() {
                    assert(out@[q] == pre[q]);
                    assert(pd[q] == pre[q]@);
                    assert(pd[q] == rowsv.map_values(f).take(i as int)[q]);
                } else {
                    assert(out@[q] == one);
                }
            }
            assert(out.deep_view() =~= rowsv.map_values(f).take(i + 1 as int));
        }
        i = i + 1;
    }
    proof {
        assert(rowsv.map_values(f).take(rowsv.len() as int) =~= rowsv.map_values(f));
    }
    out
}

/// Parameter count for traces: when the kernel decodes a row, the input and
/// output value and key lists are exactly one per parameter of the parsed
/// signature.
pub proof fn lemma_trace_parameter_count(m: MatchedTraceRowV)
    requires
        decode_trace_row_spec(m).input_values is Some,
    ensures
        m.sig is Some,
        parsed_function_of(m.sig.unwrap().full_signature) is Some,
        decode_trace_row_spec(m).input_values.unwrap().len() == parsed_function_of(
            m.sig.unwrap().full_signature,
        ).unwrap().inputs.len(),
        decode_trace_row_spec(m).input_keys.unwrap().len() == parsed_function_of(
            m.sig.unwrap().full_signature,
        ).unwrap().inputs.len(),
        decode_trace_row_spec(m).output_values.unwrap().len() == parsed_function_of(
            m.sig.unwrap().full_signature,
        ).unwrap().outputs.len(),
        decode_trace_row_spec(m).output_keys.unwrap().len() == parsed_function_of(
            m.sig.unwrap().full_signature,
        ).unwrap().outputs.len(),
{
}

} // verus!
