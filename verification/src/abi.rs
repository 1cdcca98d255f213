//! The ABI catalog: event and function descriptors extracted from ABI
//! documents, their catalog rows keyed for matching, and the deduplicating
//! merge that maintains a persisted catalog.

use vstd::prelude::*;
use crate::config::{AbiReadMode, AbiReaderConfig};
use crate::hexutil::{
    hex_prefixed, is_hex_seq, bytes_of_hex, strip_hex_prefix, hex_string_to_bytes,
};
use crate::strutil::str_eq;
use crate::sol::checksum_of;

verus! {

/// One event parameter as the ABI declares it.
pub struct EventInput {
    pub name: String,
    pub ty: String,
    pub indexed: bool,
}

/// Abstract value of [`EventInput`].
pub ghost struct EventInputV {
    pub name: Seq<char>,
    pub ty: Seq<char>,
    pub indexed: bool,
}

impl View for EventInput {
    type V = EventInputV;

    open spec fn view(&self) -> EventInputV {
        EventInputV { name: self.name@, ty: self.ty@, indexed: self.indexed }
    }
}

impl DeepView for EventInput {
    type V = EventInputV;

    open spec fn deep_view(&self) -> EventInputV {
        self@
    }
}

/// One event of an ABI document.
pub struct EventAbi {
    pub name: String,
    pub full_signature: String,
    pub selector: Vec<u8>,
    pub anonymous: bool,
    pub inputs: Vec<EventInput>,
}

/// Abstract value of [`EventAbi`].
pub ghost struct EventAbiV {
    pub name: Seq<char>,
    pub full_signature: Seq<char>,
    pub selector: Seq<u8>,
    pub anonymous: bool,
    pub inputs: Seq<EventInputV>,
}

impl View for EventAbi {
    type V = EventAbiV;

    open spec fn view(&self) -> EventAbiV {
        EventAbiV {
            name: self.name@,
            full_signature: self.full_signature@,
            selector: self.selector@,
            anonymous: self.anonymous,
            inputs: self.inputs.deep_view(),
        }
    }
}

impl DeepView for EventAbi {
    type V = EventAbiV;

    open spec fn deep_view(&self) -> EventAbiV {
        self@
    }
}

/// The state mutability of a function.
#[derive(Clone, Copy, Debug, PartialEq, Eq, Structural)]
pub enum StateMut {
    Pure,
    View,
    NonPayable,
    Payable,
}

/// The lower-case name of a state mutability, as the catalog stores it.
pub open spec fn state_mut_name(m: StateMut) -> Seq<char> {
    match m {
        StateMut::Pure => "pure"@,
        StateMut::View => "view"@,
        StateMut::NonPayable => "nonpayable"@,
        StateMut::Payable => "payable"@,
    }
}

/// One function of an ABI document.
pub struct FunctionAbi {
    pub name: String,
    pub full_signature: String,
    pub selector: Vec<u8>,
    pub state_mutability: StateMut,
}

/// Abstract value of [`FunctionAbi`].
pub ghost struct FunctionAbiV {
    pub name: Seq<char>,
    pub full_signature: Seq<char>,
    pub selector: Seq<u8>,
    pub state_mutability: StateMut,
}

impl View for FunctionAbi {
    type V = FunctionAbiV;

    open spec fn view(&self) -> FunctionAbiV {
        FunctionAbiV {
            name: self.name@,
            full_signature: self.full_signature@,
            selector: self.selector@,
            state_mutability: self.state_mutability,
        }
    }
}

impl DeepView for FunctionAbi {
    type V = FunctionAbiV;

    open spec fn deep_view(&self) -> FunctionAbiV {
        self@
    }
}

/// One row of the ABI catalog.
pub struct AbiItemRow {
    pub address: Vec<u8>,
    pub hash: Vec<u8>,
    pub full_signature: String,
    pub name: String,
    pub anonymous: Option<bool>,
    pub num_indexed_args: Option<usize>,
    pub state_mutability: Option<String>,
    pub id: String,
}

/// Abstract value of [`AbiItemRow`].
pub ghost struct AbiItemRowV {
    pub address: Seq<u8>,
    pub hash: Seq<u8>,
    pub full_signature: Seq<char>,
    pub name: Seq<char>,
    pub anonymous: Option<bool>,
    pub num_indexed_args: Option<usize>,
    pub state_mutability: Option<Seq<char>>,
    pub id: Seq<char>,
}

impl View for AbiItemRow {
    type V = AbiItemRowV;

    open spec fn view(&self) -> AbiItemRowV {
        AbiItemRowV {
            address: self.address@,
            hash: self.hash@,
            full_signature: self.full_signature@,
            name: self.name@,
            anonymous: self.anonymous,
            num_indexed_args: self.num_indexed_args,
            state_mutability: match self.state_mutability {
                Some(s) => Some(s@),
                None => None,
            },
            id: self.id@,
        }
    }
}

impl DeepView for AbiItemRow {
    type V = AbiItemRowV;

    open spec fn deep_view(&self) -> AbiItemRowV {
        self@
    }
}

/// A parsed ABI document, reduced to what the catalog reads: its events
/// and its functions, in the document maps' iteration order.
pub struct AbiDocument {
    pub events: Vec<EventAbi>,
    pub functions: Vec<FunctionAbi>,
}

/// Abstract value of [`AbiDocument`].
pub ghost struct AbiDocumentV {
    pub events: Seq<EventAbiV>,
    pub functions: Seq<FunctionAbiV>,
}

impl View for AbiDocument {
    type V = AbiDocumentV;

    open spec fn view(&self) -> AbiDocumentV {
        AbiDocumentV { events: self.events.deep_view(), functions: self.functions.deep_view() }
    }
}

/// Shape of a well-formed ABI document: 32-byte event selectors, bounded
/// event input counts, 4-byte function selectors.
pub open spec fn abi_doc_wf(d: AbiDocumentV) -> bool {
    &&& forall|i: int|
        0 <= i < d.events.len() ==> (#[trigger] d.events[i]).selector.len() == 32
            && d.events[i].inputs.len() < usize::MAX
    &&& forall|i: int| 0 <= i < d.functions.len() ==> (#[trigger] d.functions[i]).selector.len()
        == 4
}

/// One function parameter: its declared name and resolved type.
pub struct FnParam {
    pub name: String,
    pub ty: String,
}

/// Abstract value of [`FnParam`].
pub ghost struct FnParamV {
    pub name: Seq<char>,
    pub ty: Seq<char>,
}

impl View for FnParam {
    type V = FnParamV;

    open spec fn view(&self) -> FnParamV {
        FnParamV { name: self.name@, ty: self.ty@ }
    }
}

impl DeepView for FnParam {
    type V = FnParamV;

    open spec fn deep_view(&self) -> FnParamV {
        self@
    }
}

/// A parsed function signature: its name and its input and output
/// parameters, as the trace kernel consumes them.
pub struct FnDesc {
    pub name: String,
    pub inputs: Vec<FnParam>,
    pub outputs: Vec<FnParam>,
}

/// Abstract value of [`FnDesc`].
pub ghost struct FnDescV {
    pub name: Seq<char>,
    pub inputs: Seq<FnParamV>,
    pub outputs: Seq<FnParamV>,
}

impl View for FnDesc {
    type V = FnDescV;

    open spec fn view(&self) -> FnDescV {
        FnDescV {
            name: self.name@,
            inputs: self.inputs.deep_view(),
            outputs: self.outputs.deep_view(),
        }
    }
}

/// Failures of catalog construction.
#[derive(Debug)]
pub enum AbiReaderError {
    PolarsError(String),
    InvalidAbiFile(String),
    InvalidPath(String),
    InvalidAbiDf(String),
    InvalidConfig(String),
}

/// The number of indexed parameters of an event.
pub open spec fn indexed_count(inputs: Seq<EventInputV>) -> nat {
    inputs.filter(|p: EventInputV| p.indexed).len()
}

/// The topic count of an event: one per indexed parameter, plus the
/// signature topic when the event is not anonymous.
pub open spec fn num_topics_of(e: EventAbiV) -> nat {
    (if e.anonymous {
        0nat
    } else {
        1nat
    }) + indexed_count(e.inputs)
}

/// The deduplication key of a catalog entry: the `0x`-prefixed hash,
/// then the full signature and the checksummed address when `unique_key`
/// names them, joined by `" - "`.
pub open spec fn item_id(
    selector: Seq<u8>,
    full_signature: Seq<char>,
    address: Seq<u8>,
    unique_key: Seq<Seq<char>>,
) -> Seq<char> {
    let base = hex_prefixed(selector);
    let with_sig = if unique_key.contains("full_signature"@) {
        base + " - "@ + full_signature
    } else {
        base
    };
    if unique_key.contains("address"@) {
        with_sig + " - "@ + checksum_of(address)
    } else {
        with_sig
    }
}

/// The catalog row of one event.
pub open spec fn event_row_of(e: EventAbiV, address: Seq<u8>, unique_key: Seq<Seq<char>>)
    -> AbiItemRowV {
    AbiItemRowV {
        address: address,
        hash: e.selector,
        full_signature: e.full_signature,
        name: e.name,
        anonymous: Some(e.anonymous),
        num_indexed_args: Some(num_topics_of(e) as usize),
        state_mutability: None,
        id: item_id(e.selector, e.full_signature, address, unique_key),
    }
}

/// The catalog row of one function.
pub open spec fn function_row_of(f: FunctionAbiV, address: Seq<u8>, unique_key: Seq<Seq<char>>)
    -> AbiItemRowV {
    AbiItemRowV {
        address: address,
        hash: f.selector,
        full_signature: f.full_signature,
        name: f.name,
        anonymous: None,
        num_indexed_args: None,
        state_mutability: Some(state_mut_name(f.state_mutability)),
        id: item_id(f.selector, f.full_signature, address, unique_key),
    }
}

/// Whether a list of strings contains a given word.
fn contains_word(keys: &Vec<String>, word: &str) -> (r: bool)
    ensures
        r == keys.deep_view().contains(word@),
{
    let mut i: usize = 0;
    while i < keys.len()
        invariant
            i <= keys@.len(),
            forall|j: int| 0 <= j < i ==> keys.deep_view()[j] != word@,
        decreases keys@.len() - i,
    {
        if str_eq(keys[i].as_str(), word) {
            assert(keys.deep_view()[i as int] == word@);
            return true;
        }
        assert(keys.deep_view()[i as int] == keys@[i as int]@);
        i = i + 1;
    }
    assert(!keys.deep_view().contains(word@));
    false
}

/// Builds the deduplication key of one catalog entry.
pub fn build_item_id(
    selector: &Vec<u8>,
    full_signature: &String,
    address: &Vec<u8>,
    unique_key: &Vec<String>,
) -> (r: String)
    requires
        address@.len() == 20,
    ensures
        r@ == item_id(selector@, full_signature@, address@, unique_key.deep_view()),
{
    let mut id = crate::hexutil::bytes_to_hex_prefixed(selector);
    if contains_word(unique_key, "full_signature") {
        id.append(" - ");
        id.append(full_signature.as_str());
        proof {
            reveal_strlit(" - ");
        }
    }
    if contains_word(unique_key, "address") {
        id.append(" - ");
        let addr = crate::sol::address_display(address);
        id.append(addr.as_str());
        proof {
            reveal_strlit(" - ");
        }
    }
    assert(id@ =~= item_id(selector@, full_signature@, address@, unique_key.deep_view()));
    id
}

/// Counts the topics of an event descriptor.
fn count_topics(e: &EventAbi) -> (r: usize)
    requires
        e.inputs@.len() < usize::MAX,
    ensures
        r == num_topics_of(e@),
{
    let mut count: usize = if e.anonymous {
        0
    } else {
        1
    };
    let mut i: usize = 0;
    proof {
        reveal(Seq::filter);
        assert(e.inputs.deep_view().take(0) =~= Seq::<EventInputV>::empty());
        assert(indexed_count(e.inputs.deep_view().take(0)) == 0);
    }
    while i < e.inputs.len()
        invariant
            i <= e.inputs@.len(),
            e.inputs@.len() == e.inputs.deep_view().len(),
            count == (if e.anonymous {
                0nat
            } else {
                1nat
            }) + indexed_count(e.inputs.deep_view().take(i as int)),
            count <= 1 + i,
            e.inputs@.len() < usize::MAX,
        decreases e.inputs@.len() - i,
    {
        proof {
            reveal(Seq::filter);
            let dv = e.inputs.deep_view();
            assert(dv.take(i + 1 as int).drop_last() =~= dv.take(i as int));
            assert(dv.take(i + 1 as int).last() == dv[i as int]);
            assert(dv[i as int] == e.inputs@[i as int]@);
        }
        if e.inputs[i].indexed {
            assert(count < usize::MAX);
            count = count + 1;
        }
        i = i + 1;
    }
    proof {
        assert(e.inputs.deep_view().take(e.inputs@.len() as int) =~= e.inputs.deep_view());
    }
    count
}

/// Builds the catalog row of one event.
pub fn create_event_row(event: &EventAbi, address: &Vec<u8>, unique_key: &Vec<String>) -> (r:
    AbiItemRow)
    requires
        address@.len() == 20,
        event.inputs@.len() < usize::MAX,
    ensures
        r@ == event_row_of(event@, address@, unique_key.deep_view()),
{
    let id = build_item_id(&event.selector, &event.full_signature, address, unique_key);
    let num = count_topics(event);
    AbiItemRow {
        address: clone_bytes(address),
        hash: clone_bytes(&event.selector),
        full_signature: event.full_signature.clone(),
        name: event.name.clone(),
        anonymous: Some(event.anonymous),
        num_indexed_args: Some(num),
        state_mutability: None,
        id,
    }
}

/// Builds the catalog row of one function.
pub fn create_function_row(function: &FunctionAbi, address: &Vec<u8>, unique_key: &Vec<String>)
    -> (r: AbiItemRow)
    requires
        address@.len() == 20,
    ensures
        r@ == function_row_of(function@, address@, unique_key.deep_view()),
{
    let id = build_item_id(&function.selector, &function.full_signature, address, unique_key);
    let sm: String = match function.state_mutability {
        StateMut::Pure => String::from_str("pure"),
        StateMut::View => String::from_str("view"),
        StateMut::NonPayable => String::from_str("nonpayable"),
        StateMut::Payable => String::from_str("payable"),
    };
    AbiItemRow {
        address: clone_bytes(address),
        hash: clone_bytes(&function.selector),
        full_signature: function.full_signature.clone(),
        name: function.name.clone(),
        anonymous: None,
        num_indexed_args: None,
        state_mutability: Some(sm),
        id,
    }
}

/// Copies a byte vector.
pub fn clone_bytes(v: &Vec<u8>) -> (r: Vec<u8>)
    ensures
        r@ == v@,
{
    let r = v.clone();
    assert forall|i: int| 0 <= i < r@.len() implies r@[i] == v@[i] by {
        assert(vstd::pervasive::cloned::<u8>(v@[i], r@[i]));
    }
    assert(r@ =~= v@);
    r
}

/// The catalog rows of one ABI document: function rows, then event rows,
/// each set present exactly when the read mode asks for it.
pub open spec fn catalog_rows_of(
    events: Seq<EventAbiV>,
    functions: Seq<FunctionAbiV>,
    address: Seq<u8>,
    mode: AbiReadMode,
    unique_key: Seq<Seq<char>>,
) -> Seq<AbiItemRowV> {
    let frows = if mode != AbiReadMode::Events {
        functions.map_values(|f: FunctionAbiV| function_row_of(f, address, unique_key))
    } else {
        Seq::empty()
    };
    let erows = if mode != AbiReadMode::Functions {
        events.map_values(|e: EventAbiV| event_row_of(e, address, unique_key))
    } else {
        Seq::empty()
    };
    frows + erows
}

/// Builds the catalog rows of one ABI document, honouring the read mode.
fn catalog_rows(
    events: &Vec<EventAbi>,
    functions: &Vec<FunctionAbi>,
    address: &Vec<u8>,
    config: &AbiReaderConfig,
) -> (r: Vec<AbiItemRow>)
    requires
        address@.len() == 20,
        forall|i: int| 0 <= i < events@.len() ==> (#[trigger] events@[i]).inputs@.len()
            < usize::MAX,
    ensures
        r.deep_view() == catalog_rows_of(
            events.deep_view(),
            functions.deep_view(),
            address@,
            config.abi_read_mode,
            config.unique_key.deep_view(),
        ),
{
    let ghost addressv = address@;
    let ghost ukv = config.unique_key.deep_view();
    let mut out: Vec<AbiItemRow> = Vec::new();
    let read_functions = match config.abi_read_mode {
        AbiReadMode::Events => false,
        _ => true,
    };
    let read_events = match config.abi_read_mode {
        AbiReadMode::Functions => false,
        _ => true,
    };
    let ghost frows = if config.abi_read_mode != AbiReadMode::Events {
        functions.deep_view().map_values(|f: FunctionAbiV| function_row_of(f, addressv, ukv))
    } else {
        Seq::<AbiItemRowV>::empty()
    };
    if read_functions {
        let mut i: usize = 0;
        while i < functions.len()
            invariant
                i <= functions@.len(),
                functions@.len() == functions.deep_view().len(),
                read_functions,
                frows == functions.deep_view().map_values(
                    |f: FunctionAbiV| function_row_of(f, addressv, ukv),
                ),
                address@.len() == 20,
                addressv == address@,
                ukv == config.unique_key.deep_view(),
                out.deep_view() =~= frows.take(i as int),
            decreases functions@.len() - i,
        {
            let ghost pre = out@;
            let ghost pre_deep = out.deep_view();
            let row = create_function_row(&functions[i], address, &config.unique_key);
            proof {
                assert(functions.deep_view()[i as int] == functions@[i as int]@);
            }
            out.push(row);
            proof {
                assert(out@ == pre.push(row));
                assert(pre_deep.len() == pre.len());
                assert forall|j: int| 0 <= j < i + 1 implies out.deep_view()[j] == frows.take(
                    i + 1 as int,
                )[j] by {
                    if j < i {
                        assert(out@[j] == pre[j]);
                        assert(pre_deep[j] == pre[j]@);
                        assert(pre_deep[j] == frows.take(i as int)[j]);
                    } else {
                        assert(out@[j] == row);
                    }
                }
                assert(out.deep_view() =~= frows.take(i + 1 as int));
            }
            i = i + 1;
        }
        proof {
            assert(frows.take(functions@.len() as int) =~= frows);
        }
    }
    let ghost erows = if config.abi_read_mode != AbiReadMode::Functions {
        events.deep_view().map_values(|e: EventAbiV| event_row_of(e, addressv, ukv))
    } else {
        Seq::<AbiItemRowV>::empty()
    };
    let ghost base = out.deep_view();
    if read_events {
        let mut i: usize = 0;
        while i < events.len()
            invariant
                i <= events@.len(),
                events@.len() == events.deep_view().len(),
                read_events,
                erows == events.deep_view().map_values(
                    |e: EventAbiV| event_row_of(e, addressv, ukv),
                ),
                forall|j: int| 0 <= j < events@.len() ==> (#[trigger] events@[j]).inputs@.len()
                    < usize::MAX,
                address@.len() == 20,
                addressv == address@,
                ukv == config.unique_key.deep_view(),
                out.deep_view() =~= base + erows.take(i as int),
            decreases events@.len() - i,
        {
            let ghost pre = out@;
            let ghost pre_deep = out.deep_view();
            let row = create_event_row(&events[i], address, &config.unique_key);
            proof {
                assert(events.deep_view()[i as int] == events@[i as int]@);
            }
            out.push(row);
            proof {
                assert(out@ == pre.push(row));
                assert(pre_deep.len() == pre.len());
                assert forall|j: int| 0 <= j < out.deep_view().len() implies out.deep_view()[j] == (
                base + erows.take(i + 1 as int))[j] by {
                    if j < pre.len() {
                        assert(out@[j] == pre[j]);
                        assert(pre_deep[j] == pre[j]@);
                        assert(pre_deep[j] == (base + erows.take(i as int))[j]);
                    } else {
                        assert(out@[j] == row);
                    }
                }
                assert(out.deep_view() =~= base + erows.take(i + 1 as int));
            }
            i = i + 1;
        }
        proof {
            assert(erows.take(events@.len() as int) =~= erows);
        }
    }
    proof {
        assert(out.deep_view() =~= frows + erows);
    }
    out
}

/// Extracts the catalog rows of one parsed ABI document: function rows,
/// then event rows, per the read mode, each row carrying the given contract
/// address and keyed by the configured `unique_key`.
pub fn read_new_abi_json(doc: &AbiDocument, address: &Vec<u8>, config: &AbiReaderConfig) -> (r:
    Vec<AbiItemRow>)
    requires
        address@.len() == 20,
        abi_doc_wf(doc@),
    ensures
        r.deep_view() == catalog_rows_of(
            doc@.events,
            doc@.functions,
            address@,
            config.abi_read_mode,
            config.unique_key.deep_view(),
        ),
        forall|i: int|
            0 <= i < r.deep_view().len() ==> row_shape_wf(#[trigger] r.deep_view()[i])
                && r.deep_view()[i].address == address@,
{
    proof {
        assert forall|i: int| 0 <= i < doc.events@.len() implies (
        #[trigger] doc.events@[i]).inputs@.len() < usize::MAX by {
            assert(doc@.events[i] == doc.events@[i]@);
        }
    }
    let rows = catalog_rows(&doc.events, &doc.functions, address, config);
    proof {
        let rv = rows.deep_view();
        let ev = doc@.events;
        let fv = doc@.functions;
        let ukv = config.unique_key.deep_view();
        assert forall|i: int| 0 <= i < rv.len() implies row_shape_wf(#[trigger] rv[i]) && rv[i].address
            == address@ by {
            let frows = if config.abi_read_mode != AbiReadMode::Events {
                fv.map_values(|f: FunctionAbiV| function_row_of(f, address@, ukv))
            } else {
                Seq::<AbiItemRowV>::empty()
            };
            if i < frows.len() {
                assert(rv[i] == function_row_of(fv[i], address@, ukv));
            } else {
                let j = i - frows.len();
                assert(rv[i] == event_row_of(ev[j], address@, ukv));
            }
        }
    }
    rows
}

/// Shape of a well-formed catalog row: an event row has a 32-byte hash, a
/// topic count and no mutability; a function row has a 4-byte hash, a
/// mutability and no topic count.
pub open spec fn row_shape_wf(r: AbiItemRowV) -> bool {
    (r.anonymous is Some && r.num_indexed_args is Some && r.state_mutability is None
        && r.hash.len() == 32) || (r.anonymous is None && r.num_indexed_args is None
        && r.state_mutability is Some && r.hash.len() == 4)
}

/// Whether some row of a catalog carries the given deduplication key.
pub open spec fn contains_id(rows: Seq<AbiItemRowV>, id: Seq<char>) -> bool {
    exists|i: int| 0 <= i < rows.len() && (#[trigger] rows[i]).id == id
}

/// Whether every row of a catalog carries a distinct deduplication key.
pub open spec fn unique_ids(rows: Seq<AbiItemRowV>) -> bool {
    forall|i: int, j: int|
        0 <= i < j < rows.len() ==> (#[trigger] rows[i]).id != (#[trigger] rows[j]).id
}

/// Appending rows to a catalog, keeping only the first row of each key.
pub open spec fn dedup_insert(acc: Seq<AbiItemRowV>, rows: Seq<AbiItemRowV>) -> Seq<AbiItemRowV>
    decreases rows.len(),
{
    if rows.len() == 0 {
        acc
    } else if contains_id(acc, rows[0].id) {
        dedup_insert(acc, rows.drop_first())
    } else {
        dedup_insert(acc.push(rows[0]), rows.drop_first())
    }
}

/// The catalog after one update: the existing rows, deduplicated keeping the
/// first of each key, followed by the new rows whose keys are not yet there,
/// in first-occurrence order.
pub open spec fn merged_catalog(existing: Seq<AbiItemRowV>, new_rows: Seq<AbiItemRowV>) -> Seq<
    AbiItemRowV,
> {
    dedup_insert(dedup_insert(Seq::empty(), existing), new_rows)
}

/// Key-deduplicating insertion keeps keys unique.
pub proof fn lemma_dedup_insert_unique(acc: Seq<AbiItemRowV>, rows: Seq<AbiItemRowV>)
    requires
        unique_ids(acc),
    ensures
        unique_ids(dedup_insert(acc, rows)),
    decreases rows.len(),
{
    if rows.len() > 0 {
        if contains_id(acc, rows[0].id) {
            lemma_dedup_insert_unique(acc, rows.drop_first());
        } else {
            let acc2 = acc.push(rows[0]);
            assert forall|i: int, j: int| 0 <= i < j < acc2.len() implies (#[trigger] acc2[i]).id
                != (#[trigger] acc2[j]).id by {
                if j == acc.len() {
                    assert(acc2[i] == acc[i]);
                    assert(!contains_id(acc, rows[0].id));
                }
            }
            lemma_dedup_insert_unique(acc2, rows.drop_first());
        }
    }
}

/// A key appears after insertion exactly when it appears in the accumulator
/// or among the inserted rows.
pub proof fn lemma_dedup_insert_ids(acc: Seq<AbiItemRowV>, rows: Seq<AbiItemRowV>, id: Seq<char>)
    ensures
        contains_id(dedup_insert(acc, rows), id) <==> contains_id(acc, id) || contains_id(
            rows,
            id,
        ),
    decreases rows.len(),
{
    if rows.len() == 0 {
        assert(!contains_id(rows, id));
    } else {
        let tail = rows.drop_first();
        assert(contains_id(rows, id) <==> rows[0].id == id || contains_id(tail, id)) by {
            if contains_id(rows, id) {
                let w = choose|i: int| 0 <= i < rows.len() && (#[trigger] rows[i]).id == id;
                if w > 0 {
                    assert(tail[w - 1].id == id);
                }
            }
            if contains_id(tail, id) {
                let w = choose|i: int| 0 <= i < tail.len() && (#[trigger] tail[i]).id == id;
                assert(rows[w + 1].id == id);
            }
        }
        if contains_id(acc, rows[0].id) {
            lemma_dedup_insert_ids(acc, tail, id);
        } else {
            let acc2 = acc.push(rows[0]);
            lemma_dedup_insert_ids(acc2, tail, id);
            assert(contains_id(acc2, id) <==> contains_id(acc, id) || rows[0].id == id) by {
                if contains_id(acc2, id) {
                    let w = choose|i: int| 0 <= i < acc2.len() && (#[trigger] acc2[i]).id == id;
                    if w < acc.len() {
                        assert(acc[w].id == id);
                    }
                }
                if contains_id(acc, id) {
                    let w = choose|i: int| 0 <= i < acc.len() && (#[trigger] acc[i]).id == id;
                    assert(acc2[w].id == id);
                }
                assert(acc2[acc.len() as int] == rows[0]);
            }
        }
    }
}

/// Inserting rows whose keys are all present already changes nothing.
pub proof fn lemma_dedup_insert_noop(acc: Seq<AbiItemRowV>, rows: Seq<AbiItemRowV>)
    requires
        forall|i: int| 0 <= i < rows.len() ==> contains_id(acc, (#[trigger] rows[i]).id),
    ensures
        dedup_insert(acc, rows) == acc,
    decreases rows.len(),
{
    if rows.len() > 0 {
        assert(contains_id(acc, rows[0].id));
        assert forall|i: int| 0 <= i < rows.drop_first().len() implies contains_id(
            acc,
            (#[trigger] rows.drop_first()[i]).id,
        ) by {
            assert(rows.drop_first()[i] == rows[i + 1]);
        }
        lemma_dedup_insert_noop(acc, rows.drop_first());
    }
}

/// Inserting rows with pairwise fresh keys appends them unchanged.
pub proof fn lemma_dedup_insert_fresh(acc: Seq<AbiItemRowV>, rows: Seq<AbiItemRowV>)
    requires
        forall|i: int| 0 <= i < rows.len() ==> !contains_id(acc, (#[trigger] rows[i]).id),
        unique_ids(rows),
    ensures
        dedup_insert(acc, rows) == acc + rows,
    decreases rows.len(),
{
    if rows.len() == 0 {
        assert(acc + rows =~= acc);
    } else {
        let acc2 = acc.push(rows[0]);
        let tail = rows.drop_first();
        assert(!contains_id(acc, rows[0].id));
        assert forall|i: int| 0 <= i < tail.len() implies !contains_id(
            acc2,
            (#[trigger] tail[i]).id,
        ) by {
            assert(tail[i] == rows[i + 1]);
            if contains_id(acc2, tail[i].id) {
                let w = choose|k: int| 0 <= k < acc2.len() && (#[trigger] acc2[k]).id == tail[i].id;
                if w < acc.len() {
                    assert(acc[w].id == rows[i + 1].id);
                } else {
                    assert(rows[0].id == rows[i + 1].id);
                }
            }
        }
        assert forall|i: int, j: int| 0 <= i < j < tail.len() implies (#[trigger] tail[i]).id != (
        #[trigger] tail[j]).id by {
            assert(tail[i] == rows[i + 1]);
            assert(tail[j] == rows[j + 1]);
        }
        lemma_dedup_insert_fresh(acc2, tail);
        assert(acc2 + tail =~= acc + rows);
    }
}

/// Updating a catalog twice from the same scan leaves it as the first update
/// wrote it: every key of the scan is already present, so the second merge
/// inserts nothing.
pub proof fn lemma_update_idempotent(existing: Seq<AbiItemRowV>, new_rows: Seq<AbiItemRowV>)
    ensures
        merged_catalog(merged_catalog(existing, new_rows), new_rows) == merged_catalog(
            existing,
            new_rows,
        ),
{
    let m = merged_catalog(existing, new_rows);
    assert(unique_ids(Seq::<AbiItemRowV>::empty()));
    lemma_dedup_insert_unique(Seq::empty(), existing);
    lemma_dedup_insert_unique(dedup_insert(Seq::empty(), existing), new_rows);
    assert(unique_ids(m));
    assert forall|i: int| 0 <= i < m.len() implies !contains_id(
        Seq::<AbiItemRowV>::empty(),
        (#[trigger] m[i]).id,
    ) by {}
    lemma_dedup_insert_fresh(Seq::empty(), m);
    assert(dedup_insert(Seq::<AbiItemRowV>::empty(), m) == Seq::<AbiItemRowV>::empty() + m);
    assert(Seq::<AbiItemRowV>::empty() + m =~= m);
    assert forall|i: int| 0 <= i < new_rows.len() implies contains_id(
        m,
        (#[trigger] new_rows[i]).id,
    ) by {
        lemma_dedup_insert_ids(
            dedup_insert(Seq::empty(), existing),
            new_rows,
            new_rows[i].id,
        );
    }
    lemma_dedup_insert_noop(m, new_rows);
}

/// Appends rows to a catalog being built, keeping only the first row of
/// each deduplication key.
fn push_dedup(out: &mut Vec<AbiItemRow>, mut rows: Vec<AbiItemRow>)
    ensures
        final(out).deep_view() == dedup_insert(old(out).deep_view(), rows.deep_view()),
{
    let ghost all = rows.deep_view();
    let mut k: usize = 0;
    let n = rows.len();
    proof {
        assert(all.skip(0) =~= all);
    }
    while k < n
        invariant
            k <= n,
            n == rows@.len(),
            all == rows.deep_view(),
            all.len() == n,
            dedup_insert(old(out).deep_view(), all) == dedup_insert(
                out.deep_view(),
                all.skip(k as int),
            ),
            forall|j: int| k <= j < n ==> rows@[j]@ == all[j],
        decreases n - k,
    {
        proof {
            assert(all.skip(k as int)[0] == all[k as int]);
            assert(all.skip(k as int).drop_first() =~= all.skip(k + 1 as int));
        }
        proof {
            assert(rows@[k as int]@ == all[k as int]);
        }
        let dup = catalog_contains_id(out, &rows[k].id);
        let ghost pre = out@;
        let ghost pre_deep = out.deep_view();
        if !dup {
            let row = clone_row(&rows[k]);
            proof {
                assert(row@ == all[k as int]);
            }
            out.push(row);
            proof {
                assert(out@ == pre.push(row));
                assert(pre_deep.len() == pre.len());
                assert forall|j: int| 0 <= j < out.deep_view().len() implies out.deep_view()[j]
                    == pre_deep.push(all[k as int])[j] by {
                    if j < pre.len() {
                        assert(out@[j] == pre[j]);
                        assert(pre_deep[j] == pre[j]@);
                    } else {
                        assert(out@[j] == row);
                    }
                }
                assert(out.deep_view() =~= pre_deep.push(all[k as int]));
            }
        }
        k = k + 1;
    }
    proof {
        assert(all.skip(n as int) =~= Seq::<AbiItemRowV>::empty());
    }
}

/// Copies one catalog row, preserving its abstract value.
pub fn clone_row(row: &AbiItemRow) -> (r: AbiItemRow)
    ensures
        r@ == row@,
{
    AbiItemRow {
        address: clone_bytes(&row.address),
        hash: clone_bytes(&row.hash),
        full_signature: row.full_signature.clone(),
        name: row.name.clone(),
        anonymous: row.anonymous,
        num_indexed_args: row.num_indexed_args,
        state_mutability: match &row.state_mutability {
            Some(s) => Some(s.clone()),
            None => None,
        },
        id: row.id.clone(),
    }
}

/// Whether a catalog being built already carries a key.
fn catalog_contains_id(rows: &Vec<AbiItemRow>, id: &String) -> (r: bool)
    ensures
        r == contains_id(rows.deep_view(), id@),
{
    let mut i: usize = 0;
    while i < rows.len()
        invariant
            i <= rows@.len(),
            forall|j: int| 0 <= j < i ==> (#[trigger] rows.deep_view()[j]).id != id@,
        decreases rows@.len() - i,
    {
        if str_eq(rows[i].id.as_str(), id.as_str()) {
            assert(rows.deep_view()[i as int].id == id@);
            return true;
        }
        assert(rows.deep_view()[i as int] == rows@[i as int]@);
        i = i + 1;
    }
    assert(!contains_id(rows.deep_view(), id@));
    false
}

/// Merges freshly scanned rows into an existing catalog: the existing rows,
/// deduplicated keeping the first of each key, then the new rows whose keys
/// are not yet present, in first-occurrence order. The result's keys are
/// unique, and running the same update again would change nothing.
pub fn update_abi_db(existing: Vec<AbiItemRow>, new_rows: Vec<AbiItemRow>) -> (r: Vec<AbiItemRow>)
    ensures
        r.deep_view() == merged_catalog(existing.deep_view(), new_rows.deep_view()),
        unique_ids(r.deep_view()),
{
    let ghost exv = existing.deep_view();
    let ghost newv = new_rows.deep_view();
    let mut out: Vec<AbiItemRow> = Vec::new();
    proof {
        assert(out.deep_view() =~= Seq::<AbiItemRowV>::empty());
    }
    push_dedup(&mut out, existing);
    push_dedup(&mut out, new_rows);
    proof {
        assert(unique_ids(Seq::<AbiItemRowV>::empty()));
        lemma_dedup_insert_unique(Seq::empty(), exv);
        lemma_dedup_insert_unique(dedup_insert(Seq::empty(), exv), newv);
    }
    out
}

/// The contract address a catalog source file name denotes: the name must
/// end in `.json` and the rest must read, after an optional `0x`, as exactly
/// twenty bytes of hex.
pub open spec fn file_name_address(name: Seq<char>) -> Option<Seq<u8>> {
    if name.len() >= 5 && name.skip(name.len() - 5) == ".json"@ {
        let stem = strip_hex_prefix(name.take(name.len() - 5));
        if is_hex_seq(stem) && bytes_of_hex(stem).len() == 20 {
            Some(bytes_of_hex(stem))
        } else {
            None
        }
    } else {
        None
    }
}

/// Reads the contract address out of a catalog source file name; `None`
/// exactly when the name is not a `.json` file named by a 20-byte address.
pub fn extract_address_from_file_name(name: &str) -> (r: Option<Vec<u8>>)
    ensures
        r is Some <==> file_name_address(name@) is Some,
        r is Some ==> r.unwrap()@ == file_name_address(name@).unwrap() && r.unwrap()@.len() == 20,
{
    let n: usize = name.unicode_len();
    if n < 5 {
        return None;
    }
    let suffix = name.substring_char(n - 5, n);
    if !str_eq(suffix, ".json") {
        assert(name@.skip(n - 5 as int) =~= suffix@);
        return None;
    }
    assert(name@.skip(n - 5 as int) =~= suffix@);
    let stem = name.substring_char(0, n - 5);
    assert(stem@ =~= name@.take(n - 5 as int));
    match hex_string_to_bytes(stem) {
        Some(bytes) => {
            if bytes.len() == 20 {
                Some(bytes)
            } else {
                None
            }
        },
        None => None,
    }
}

/// Reads one ABI source file, already loaded as text. It succeeds exactly
/// when the file name denotes a contract address and the contents parse as
/// an ABI document; the rows are then exactly the document's catalog rows
/// under the read mode, carrying the address the file name denotes.
pub fn read_new_abi_file(file_name: &str, contents: &str, config: &AbiReaderConfig) -> (r: Result<
    Vec<AbiItemRow>,
    AbiReaderError,
>)
    ensures
        r is Ok <==> file_name_address(file_name@) is Some && crate::sol::abi_items_of(
            contents@,
        ) is Some,
        r is Err ==> r->Err_0 is InvalidAbiFile,
        r is Ok ==> r.unwrap().deep_view() == catalog_rows_of(
            crate::sol::abi_items_of(contents@).unwrap().events,
            crate::sol::abi_items_of(contents@).unwrap().functions,
            file_name_address(file_name@).unwrap(),
            config.abi_read_mode,
            config.unique_key.deep_view(),
        ),
        r is Ok ==> forall|i: int|
            0 <= i < r.unwrap().deep_view().len() ==> row_shape_wf(
                #[trigger] r.unwrap().deep_view()[i],
            ) && r.unwrap().deep_view()[i].address == file_name_address(file_name@).unwrap(),
{
    let address = match extract_address_from_file_name(file_name) {
        Some(a) => a,
        None => {
            return Err(
                AbiReaderError::InvalidAbiFile(
                    String::from_str(
                        "file is not a JSON file or its name is not a contract address",
                    ),
                ),
            );
        },
    };
    let doc = match crate::sol::parse_abi_items(contents) {
        Some(d) => d,
        None => {
            return Err(
                AbiReaderError::InvalidAbiFile(
                    String::from_str("contents do not parse as an ABI document"),
                ),
            );
        },
    };
    Ok(read_new_abi_json(&doc, &address, config))
}

} // verus!
