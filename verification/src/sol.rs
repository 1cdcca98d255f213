//! Trusted boundary to the alloy crate: ABI JSON parsing, signature
//! handling and per-row payload decoding. Every item here wraps one call
//! into alloy; everything downstream of these values is verified code.

use vstd::prelude::*;
use crate::abi::{
    AbiDocument, AbiDocumentV, EventAbi, EventAbiV, EventInput, FunctionAbi, StateMut, FnDesc,
    FnDescV, FnParam, indexed_count,
};
use crate::value::{DynValue, DynValueV, values_wf};
use alloy::dyn_abi::DynSolValue;

verus! {

#[verifier::external_type_specification]
#[verifier::external_body]
pub struct ExEvent(alloy::json_abi::Event);

#[verifier::external_type_specification]
#[verifier::external_body]
pub struct ExFunction(alloy::json_abi::Function);

/// Relies on alloy's `Event` fields and methods: the name, the inputs with
/// their declared names, types and indexed flags, the anonymous flag, the
/// full signature (`event $name($($type indexed $name),*) $(anonymous)?`)
/// and the 32-byte selector (the keccak-256 of the canonical signature).
/// A vector's length stays below the address-space bound, so the input
/// count fits the arithmetic of the topic counter.
#[verifier::external_body]
fn event_model(e: &alloy::json_abi::Event) -> (r: EventAbi)
    ensures
        r@.selector.len() == 32,
        r@.inputs.len() < usize::MAX,
{
    EventAbi {
        name: e.name.clone(),
        full_signature: e.full_signature(),
        selector: e.selector().to_vec(),
        anonymous: e.anonymous,
        inputs: e.inputs.iter().map(|p| EventInput {
            name: p.name.clone(),
            ty: p.ty.clone(),
            indexed: p.indexed,
        }).collect(),
    }
}

/// Relies on alloy's `Function` fields and methods: the name, the full
/// signature (`function $name($($inputs),*) [mutability] returns (...)`),
/// the 4-byte selector (the first four bytes of the keccak-256 of the
/// canonical signature) and the state mutability, one variant for one.
#[verifier::external_body]
fn function_model(f: &alloy::json_abi::Function) -> (r: FunctionAbi)
    ensures
        r@.selector.len() == 4,
{
    FunctionAbi {
        name: f.name.clone(),
        full_signature: f.full_signature(),
        selector: f.selector().to_vec(),
        state_mutability: match f.state_mutability {
            alloy::json_abi::StateMutability::Pure => StateMut::Pure,
            alloy::json_abi::StateMutability::View => StateMut::View,
            alloy::json_abi::StateMutability::NonPayable => StateMut::NonPayable,
            alloy::json_abi::StateMutability::Payable => StateMut::Payable,
        },
    }
}

/// What parsing an ABI document yields: its events and functions as the
/// crate models them, or nothing when the text is not a well-formed ABI.
/// It depends on the document text alone.
pub uninterp spec fn abi_items_of(s: Seq<char>) -> Option<AbiDocumentV>;

/// Relies on serde_json's `from_str` for alloy's `JsonAbi` and on alloy's
/// `JsonAbi::events` and `JsonAbi::functions`: parses one ABI document and
/// carries its items over, each through `event_model` or `function_model`,
/// in the ABI maps' iteration order. The result is a function of the text
/// alone; on success the document is well shaped, with 32-byte event
/// selectors, 4-byte function selectors and bounded input counts.
#[verifier::external_body]
pub fn parse_abi_items(contents: &str) -> (r: Option<AbiDocument>)
    ensures
        match r {
            Some(d) => abi_items_of(contents@) == Some(d@),
            None => abi_items_of(contents@) is None,
        },
        r matches Some(d) ==> crate::abi::abi_doc_wf(d@),
{
    let abi = serde_json::from_str::<alloy::json_abi::JsonAbi>(contents).ok()?;
    Some(AbiDocument {
        events: abi.events().map(event_model).collect(),
        functions: abi.functions().map(function_model).collect(),
    })
}

/// The EIP-55 checksummed rendering of a 20-byte address, as alloy's
/// `Address` displays it. It depends on the address bytes alone.
pub uninterp spec fn checksum_of(address: Seq<u8>) -> Seq<char>;

/// Relies on alloy's `Display` for `Address`: the checksummed hex string of
/// the address.
#[verifier::external_body]
pub fn address_display(address: &Vec<u8>) -> (r: String)
    requires
        address@.len() == 20,
    ensures
        r@ == checksum_of(address@),
{
    alloy::primitives::Address::from_slice(address.as_slice()).to_string()
}

/// Relies on alloy's `Display` for `U256` (from the ruint crate): the plain
/// base-ten digits of the unsigned 256-bit word.
#[verifier::external_body]
pub fn uint_display(b: &Vec<u8>) -> (r: String)
    requires
        b@.len() == 32,
    ensures
        r@ == crate::strutil::dec_str(crate::value::be_val(b@)),
{
    alloy::primitives::U256::from_be_slice(b.as_slice()).to_string()
}

/// Relies on alloy's `Display` for `I256`: a minus sign for negative values,
/// then the base-ten digits of the absolute value, reading the 32 bytes as
/// a two's complement word.
#[verifier::external_body]
pub fn int_display(b: &Vec<u8>) -> (r: String)
    requires
        b@.len() == 32,
    ensures
        r@ == (if b@[0] >= 128 {
            seq!['-'] + crate::strutil::dec_str(
                (vstd::arithmetic::power2::pow2(8 * b@.len()) - crate::value::be_val(b@)) as nat,
            )
        } else {
            crate::strutil::dec_str(crate::value::be_val(b@))
        }),
{
    let mut word = [0u8; 32];
    word.copy_from_slice(b.as_slice());
    alloy::primitives::I256::from_be_bytes(word).to_string()
}

/// What parsing an event signature yields: it depends on the signature text
/// alone.
pub uninterp spec fn parsed_event_of(sig: Seq<char>) -> Option<EventAbiV>;

/// Relies on alloy's `Event::parse`: parses a Solidity event signature, with
/// an optional `event` prefix; the result is a function of the text alone.
#[verifier::external_body]
pub fn parse_event_descriptor(sig: &str) -> (r: Option<EventAbi>)
    ensures
        match r {
            Some(e) => parsed_event_of(sig@) == Some(e@),
            None => parsed_event_of(sig@) is None,
        },
        r matches Some(e) ==> e.inputs@.len() < usize::MAX,
{
    alloy::json_abi::Event::parse(sig).ok().map(|e| event_model(&e))
}

/// What decoding one event log yields: the indexed values and the body
/// values, as the crate's value trees. It depends on the signature text, the
/// topic words and the data bytes alone.
pub uninterp spec fn event_decode_of(sig: Seq<char>, topics: Seq<Seq<u8>>, data: Seq<u8>)
    -> Option<(Seq<DynValueV>, Seq<DynValueV>)>;

/// The abstract value of an optional pair of decoded value lists.
pub open spec fn decoded_pair_view(r: Option<(Vec<DynValue>, Vec<DynValue>)>) -> Option<
    (Seq<DynValueV>, Seq<DynValueV>),
> {
    match r {
        Some(p) => Some((p.0.deep_view(), p.1.deep_view())),
        None => None,
    }
}

/// Relies on alloy's `Event::parse` and `EventExt::decode_log_parts`: decodes
/// one log's topics and data against a signature. On success the signature
/// parses, the indexed values are one per indexed parameter, the body values
/// one per non-indexed parameter (the body is decoded as the tuple of the
/// non-indexed types), and every value carries its leaves at ABI widths.
#[verifier::external_body]
pub fn decode_event_values(sig: &str, topics: &Vec<Vec<u8>>, data: &Vec<u8>) -> (r: Option<
    (Vec<DynValue>, Vec<DynValue>),
>)
    requires
        forall|i: int| 0 <= i < topics@.len() ==> (#[trigger] topics@[i])@.len() == 32,
    ensures
        decoded_pair_view(r) == event_decode_of(sig@, topics.deep_view(), data@),
        r matches Some(p) ==> parsed_event_of(sig@) matches Some(e) && p.0.deep_view().len()
            == indexed_count(e.inputs) && p.1.deep_view().len() == e.inputs.len() - indexed_count(
            e.inputs,
        ) && values_wf(p.0.deep_view()) && values_wf(p.1.deep_view()),
{
    let ev = match alloy::json_abi::Event::parse(sig) {
        Ok(e) => e,
        Err(_) => return None,
    };
    let ts: Vec<alloy::primitives::B256> = topics.iter().map(
        |t| alloy::primitives::B256::from_slice(t),
    ).collect();
    match alloy::dyn_abi::EventExt::decode_log_parts(&ev, ts, data) {
        Ok(d) => Some((values_from_dyn(d.indexed), values_from_dyn(d.body))),
        Err(_) => None,
    }
}

#[verifier::external_type_specification]
#[verifier::external_body]
pub struct ExDynSolValue(DynSolValue);

/// Relies on alloy's `DynSolValue`: each variant is carried over one for
/// one; numbers become their 32-byte big-endian words, addresses their 20
/// raw bytes, function pointers their 24 raw bytes.
#[verifier::external_body]
pub fn value_from_dyn(v: DynSolValue) -> (r: DynValue) {
    match v {
        DynSolValue::Bool(b) => DynValue::Bool(b),
        DynSolValue::Int(i, _) => DynValue::Int(i.to_be_bytes::<32>().to_vec()),
        DynSolValue::Uint(u, _) => DynValue::Uint(u.to_be_bytes_vec()),
        DynSolValue::FixedBytes(w, s) => DynValue::FixedBytes(w.as_slice().to_vec(), s),
        DynSolValue::Address(a) => DynValue::Address(a.as_slice().to_vec()),
        DynSolValue::Function(f) => DynValue::Function(f.as_slice().to_vec()),
        DynSolValue::Bytes(b) => DynValue::Bytes(b),
        DynSolValue::String(s) => DynValue::Str(s),
        other => nested_from_dyn(other),
    }
}

/// Relies on alloy's `DynSolValue`: the three nested variants, each carried
/// over with its elements converted one by one. Only nested values reach it;
/// the leaf arm at the end is never taken.
#[verifier::external_body]
fn nested_from_dyn(v: DynSolValue) -> (r: DynValue) {
    match v {
        DynSolValue::Array(a) => DynValue::Array(values_from_dyn(a)),
        DynSolValue::FixedArray(a) => DynValue::FixedArray(values_from_dyn(a)),
        DynSolValue::Tuple(t) => DynValue::Tuple(values_from_dyn(t)),
        _ => DynValue::Tuple(Vec::new()),
    }
}

/// Relies on alloy's `DynSolValue`: converts a list of decoded values one by
/// one through `value_from_dyn`.
#[verifier::external_body]
pub fn values_from_dyn(vs: Vec<DynSolValue>) -> (r: Vec<DynValue>) {
    vs.into_iter().map(value_from_dyn).collect()
}

/// What parsing a function signature yields: it depends on the text alone.
pub uninterp spec fn parsed_function_of(sig: Seq<char>) -> Option<FnDescV>;

/// Relies on alloy's `Function::parse`: parses a Solidity function
/// signature, with an optional `function` prefix and optional `returns`
/// clause; the result is a function of the text alone.
#[verifier::external_body]
pub fn parse_function_descriptor(sig: &str) -> (r: Option<FnDesc>)
    ensures
        match r {
            Some(f) => parsed_function_of(sig@) == Some(f@),
            None => parsed_function_of(sig@) is None,
        },
{
    let f = alloy::json_abi::Function::parse(sig).ok()?;
    Some(FnDesc {
        name: f.name.clone(),
        inputs: f.inputs.iter().map(|p| FnParam { name: p.name.clone(), ty: p.ty.clone() }).collect(),
        outputs: f.outputs.iter().map(|p| FnParam { name: p.name.clone(), ty: p.ty.clone() }).collect(),
    })
}

/// What decoding a function call's input bytes yields. It depends on the
/// signature text and the bytes alone.
pub uninterp spec fn function_input_decode_of(sig: Seq<char>, data: Seq<u8>) -> Option<
    Seq<DynValueV>,
>;

/// The abstract value of an optional decoded value list.
pub open spec fn decoded_values_view(r: Option<Vec<DynValue>>) -> Option<Seq<DynValueV>> {
    match r {
        Some(v) => Some(v.deep_view()),
        None => None,
    }
}

/// Relies on alloy's `Function::parse` and `JsonAbiExt::abi_decode_input`:
/// decodes a call's input bytes against a signature; on success the
/// signature parses, the values are one per input parameter, and every
/// value carries its leaves at ABI widths.
#[verifier::external_body]
pub fn decode_function_input_values(sig: &str, data: &Vec<u8>) -> (r: Option<Vec<DynValue>>)
    ensures
        decoded_values_view(r) == function_input_decode_of(sig@, data@),
        r matches Some(v) ==> parsed_function_of(sig@) matches Some(f) && v.deep_view().len()
            == f.inputs.len() && values_wf(v.deep_view()),
{
    let f = alloy::json_abi::Function::parse(sig).ok()?;
    let vs = alloy::dyn_abi::JsonAbiExt::abi_decode_input(&f, data).ok()?;
    Some(values_from_dyn(vs))
}

/// What decoding a function call's output bytes yields. It depends on the
/// signature text and the bytes alone.
pub uninterp spec fn function_output_decode_of(sig: Seq<char>, data: Seq<u8>) -> Option<
    Seq<DynValueV>,
>;

/// Relies on alloy's `Function::parse` and `FunctionExt::abi_decode_output`:
/// decodes a call's output bytes against a signature; on success the
/// signature parses, the values are one per output parameter, and every
/// value carries its leaves at ABI widths.
#[verifier::external_body]
pub fn decode_function_output_values(sig: &str, data: &Vec<u8>) -> (r: Option<Vec<DynValue>>)
    ensures
        decoded_values_view(r) == function_output_decode_of(sig@, data@),
        r matches Some(v) ==> parsed_function_of(sig@) matches Some(f) && v.deep_view().len()
            == f.outputs.len() && values_wf(v.deep_view()),
{
    let f = alloy::json_abi::Function::parse(sig).ok()?;
    let vs = alloy::dyn_abi::FunctionExt::abi_decode_output(&f, data).ok()?;
    Some(values_from_dyn(vs))
}

} // verus!
