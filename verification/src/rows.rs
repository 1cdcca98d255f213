//! The row model of the decoder: raw log and trace rows, the catalog
//! columns a match attaches to them, and the decoded rows the kernels emit.
//! Passthrough columns ride along as generic cells.

use vstd::prelude::*;

verus! {

/// One cell of a passthrough or output column.
#[derive(Debug, PartialEq, Eq)]
pub enum CellValue {
    Null,
    Bin(Vec<u8>),
    Str(String),
    UInt(u64),
    Int(i64),
    Bool(bool),
    StrList(Vec<String>),
}

/// Abstract value of [`CellValue`].
pub ghost enum CellValueV {
    Null,
    Bin(Seq<u8>),
    Str(Seq<char>),
    UInt(u64),
    Int(i64),
    Bool(bool),
    StrList(Seq<Seq<char>>),
}

impl View for CellValue {
    type V = CellValueV;

    open spec fn view(&self) -> CellValueV {
        match self {
            CellValue::Null => CellValueV::Null,
            CellValue::Bin(b) => CellValueV::Bin(b@),
            CellValue::Str(s) => CellValueV::Str(s@),
            CellValue::UInt(n) => CellValueV::UInt(*n),
            CellValue::Int(n) => CellValueV::Int(*n),
            CellValue::Bool(b) => CellValueV::Bool(*b),
            CellValue::StrList(l) => CellValueV::StrList(l.deep_view()),
        }
    }
}

impl DeepView for CellValue {
    type V = CellValueV;

    open spec fn deep_view(&self) -> CellValueV {
        self@
    }
}

/// Copies one cell, preserving its abstract value.
pub fn clone_cell(c: &CellValue) -> (r: CellValue)
    ensures
        r@ == c@,
{
    match c {
        CellValue::Null => CellValue::Null,
        CellValue::Bin(b) => CellValue::Bin(crate::abi::clone_bytes(b)),
        CellValue::Str(s) => CellValue::Str(s.clone()),
        CellValue::UInt(n) => CellValue::UInt(*n),
        CellValue::Int(n) => CellValue::Int(*n),
        CellValue::Bool(b) => CellValue::Bool(*b),
        CellValue::StrList(l) => CellValue::StrList(crate::config::clone_string_vec(l)),
    }
}

/// Copies a row of cells, preserving its abstract value.
pub fn clone_cells(cells: &Vec<CellValue>) -> (r: Vec<CellValue>)
    ensures
        r.deep_view() == cells.deep_view(),
{
    let mut out: Vec<CellValue> = Vec::new();
    let mut i: usize = 0;
    while i < cells.len()
        invariant
            i <= cells@.len(),
            out.deep_view() =~= cells.deep_view().take(i as int),
        decreases cells@.len() - i,
    {
        let ghost pre = out@;
        let ghost pre_deep = out.deep_view();
        let c = clone_cell(&cells[i]);
        proof {
            assert(cells.deep_view()[i as int] == cells@[i as int]@);
        }
        out.push(c);
        proof {
            assert(out@ == pre.push(c));
            assert(pre_deep.len() == pre.len());
            assert forall|j: int| 0 <= j < out.deep_view().len() implies out.deep_view()[j]
                == cells.deep_view().take(i + 1 as int)[j] by {
                if j < pre.len() {
                    assert(out@[j] == pre[j]);
                    assert(pre_deep[j] == pre[j]@);
                    assert(pre_deep[j] == cells.deep_view().take(i as int)[j]);
                } else {
                    assert(out@[j] == c);
                }
            }
            assert(out.deep_view() =~= cells.deep_view().take(i + 1 as int));
        }
        i = i + 1;
    }
    assert(cells.deep_view().take(cells@.len() as int) =~= cells.deep_view());
    out
}

/// Copies an optional byte column cell.
pub fn clone_opt_bytes(v: &Option<Vec<u8>>) -> (r: Option<Vec<u8>>)
    ensures
        opt_bytes_view(r) == opt_bytes_view(*v),
{
    match v {
        Some(b) => Some(crate::abi::clone_bytes(b)),
        None => None,
    }
}

/// The abstract value of an optional byte column cell.
pub open spec fn opt_bytes_view(v: Option<Vec<u8>>) -> Option<Seq<u8>> {
    match v {
        Some(b) => Some(b@),
        None => None,
    }
}

/// One raw log record.
pub struct LogRow {
    pub address: Option<Vec<u8>>,
    pub topic0: Option<Vec<u8>>,
    pub topic1: Option<Vec<u8>>,
    pub topic2: Option<Vec<u8>>,
    pub topic3: Option<Vec<u8>>,
    pub data: Option<Vec<u8>>,
    pub extra: Vec<CellValue>,
}

/// Abstract value of [`LogRow`].
pub ghost struct LogRowV {
    pub address: Option<Seq<u8>>,
    pub topic0: Option<Seq<u8>>,
    pub topic1: Option<Seq<u8>>,
    pub topic2: Option<Seq<u8>>,
    pub topic3: Option<Seq<u8>>,
    pub data: Option<Seq<u8>>,
    pub extra: Seq<CellValueV>,
}

impl View for LogRow {
    type V = LogRowV;

    open spec fn view(&self) -> LogRowV {
        LogRowV {
            address: opt_bytes_view(self.address),
            topic0: opt_bytes_view(self.topic0),
            topic1: opt_bytes_view(self.topic1),
            topic2: opt_bytes_view(self.topic2),
            topic3: opt_bytes_view(self.topic3),
            data: opt_bytes_view(self.data),
            extra: self.extra.deep_view(),
        }
    }
}

impl DeepView for LogRow {
    type V = LogRowV;

    open spec fn deep_view(&self) -> LogRowV {
        self@
    }
}

/// Copies one raw log record.
pub fn clone_log_row(r: &LogRow) -> (c: LogRow)
    ensures
        c@ == r@,
{
    LogRow {
        address: clone_opt_bytes(&r.address),
        topic0: clone_opt_bytes(&r.topic0),
        topic1: clone_opt_bytes(&r.topic1),
        topic2: clone_opt_bytes(&r.topic2),
        topic3: clone_opt_bytes(&r.topic3),
        data: clone_opt_bytes(&r.data),
        extra: clone_cells(&r.extra),
    }
}

/// One raw trace record.
pub struct TraceRow {
    pub selector: Option<Vec<u8>>,
    pub action_input: Option<Vec<u8>>,
    pub result_output: Option<Vec<u8>>,
    pub action_to: Option<Vec<u8>>,
    pub extra: Vec<CellValue>,
}

/// Abstract value of [`TraceRow`].
pub ghost struct TraceRowV {
    pub selector: Option<Seq<u8>>,
    pub action_input: Option<Seq<u8>>,
    pub result_output: Option<Seq<u8>>,
    pub action_to: Option<Seq<u8>>,
    pub extra: Seq<CellValueV>,
}

impl View for TraceRow {
    type V = TraceRowV;

    open spec fn view(&self) -> TraceRowV {
        TraceRowV {
            selector: opt_bytes_view(self.selector),
            action_input: opt_bytes_view(self.action_input),
            result_output: opt_bytes_view(self.result_output),
            action_to: opt_bytes_view(self.action_to),
            extra: self.extra.deep_view(),
        }
    }
}

impl DeepView for TraceRow {
    type V = TraceRowV;

    open spec fn deep_view(&self) -> TraceRowV {
        self@
    }
}

/// Copies one raw trace record.
pub fn clone_trace_row(r: &TraceRow) -> (c: TraceRow)
    ensures
        c@ == r@,
{
    TraceRow {
        selector: clone_opt_bytes(&r.selector),
        action_input: clone_opt_bytes(&r.action_input),
        result_output: clone_opt_bytes(&r.result_output),
        action_to: clone_opt_bytes(&r.action_to),
        extra: clone_cells(&r.extra),
    }
}

/// The catalog columns a successful match attaches to a record.
pub struct SigInfo {
    pub full_signature: String,
    pub name: String,
    pub anonymous: Option<bool>,
    pub state_mutability: Option<String>,
    pub id: String,
}

/// Abstract value of [`SigInfo`].
pub ghost struct SigInfoV {
    pub full_signature: Seq<char>,
    pub name: Seq<char>,
    pub anonymous: Option<bool>,
    pub state_mutability: Option<Seq<char>>,
    pub id: Seq<char>,
}

impl View for SigInfo {
    type V = SigInfoV;

    open spec fn view(&self) -> SigInfoV {
        SigInfoV {
            full_signature: self.full_signature@,
            name: self.name@,
            anonymous: self.anonymous,
            state_mutability: match self.state_mutability {
                Some(s) => Some(s@),
                None => None,
            },
            id: self.id@,
        }
    }
}

/// The catalog columns of a catalog row, as a match attaches them.
pub open spec fn sig_of_row(c: crate::abi::AbiItemRowV) -> SigInfoV {
    SigInfoV {
        full_signature: c.full_signature,
        name: c.name,
        anonymous: c.anonymous,
        state_mutability: c.state_mutability,
        id: c.id,
    }
}

/// Builds the catalog columns of a catalog row.
pub fn sig_from_row(c: &crate::abi::AbiItemRow) -> (r: SigInfo)
    ensures
        r@ == sig_of_row(c@),
{
    SigInfo {
        full_signature: c.full_signature.clone(),
        name: c.name.clone(),
        anonymous: c.anonymous,
        state_mutability: match &c.state_mutability {
            Some(s) => Some(s.clone()),
            None => None,
        },
        id: c.id.clone(),
    }
}

/// A log record joined with the catalog: the raw row, its computed topic
/// count, and the matched catalog columns, if any.
pub struct MatchedLogRow {
    pub log: LogRow,
    pub num_indexed_args: usize,
    pub sig: Option<SigInfo>,
}

/// Abstract value of [`MatchedLogRow`].
pub ghost struct MatchedLogRowV {
    pub log: LogRowV,
    pub num_indexed_args: usize,
    pub sig: Option<SigInfoV>,
}

impl View for MatchedLogRow {
    type V = MatchedLogRowV;

    open spec fn view(&self) -> MatchedLogRowV {
        MatchedLogRowV {
            log: self.log@,
            num_indexed_args: self.num_indexed_args,
            sig: match &self.sig {
                Some(s) => Some(s@),
                None => None,
            },
        }
    }
}

impl DeepView for MatchedLogRow {
    type V = MatchedLogRowV;

    open spec fn deep_view(&self) -> MatchedLogRowV {
        self@
    }
}

/// A trace record joined with the catalog.
pub struct MatchedTraceRow {
    pub trace: TraceRow,
    pub sig: Option<SigInfo>,
    pub num_indexed_args: Option<usize>,
}

/// Abstract value of [`MatchedTraceRow`].
pub ghost struct MatchedTraceRowV {
    pub trace: TraceRowV,
    pub sig: Option<SigInfoV>,
    pub num_indexed_args: Option<usize>,
}

impl View for MatchedTraceRow {
    type V = MatchedTraceRowV;

    open spec fn view(&self) -> MatchedTraceRowV {
        MatchedTraceRowV {
            trace: self.trace@,
            sig: match &self.sig {
                Some(s) => Some(s@),
                None => None,
            },
            num_indexed_args: self.num_indexed_args,
        }
    }
}

impl DeepView for MatchedTraceRow {
    type V = MatchedTraceRowV;

    open spec fn deep_view(&self) -> MatchedTraceRowV {
        self@
    }
}

/// A decoded log record: the matched row extended with the decoded columns,
/// all three null when the row was unmatched or decoding failed.
pub struct DecodedLogRow {
    pub matched: MatchedLogRow,
    pub event_values: Option<Vec<String>>,
    pub event_keys: Option<Vec<String>>,
    pub event_json: Option<String>,
}

/// Abstract value of [`DecodedLogRow`].
pub ghost struct DecodedLogRowV {
    pub matched: MatchedLogRowV,
    pub event_values: Option<Seq<Seq<char>>>,
    pub event_keys: Option<Seq<Seq<char>>>,
    pub event_json: Option<Seq<char>>,
}

impl View for DecodedLogRow {
    type V = DecodedLogRowV;

    open spec fn view(&self) -> DecodedLogRowV {
        DecodedLogRowV {
            matched: self.matched@,
            event_values: match &self.event_values {
                Some(v) => Some(v.deep_view()),
                None => None,
            },
            event_keys: match &self.event_keys {
                Some(v) => Some(v.deep_view()),
                None => None,
            },
            event_json: match &self.event_json {
                Some(s) => Some(s@),
                None => None,
            },
        }
    }
}

impl DeepView for DecodedLogRow {
    type V = DecodedLogRowV;

    open spec fn deep_view(&self) -> DecodedLogRowV {
        self@
    }
}

/// A decoded trace record: the matched row extended with the decoded input
/// and output columns, all six null when unmatched or failed.
pub struct DecodedTraceRow {
    pub matched: MatchedTraceRow,
    pub input_values: Option<Vec<String>>,
    pub input_keys: Option<Vec<String>>,
    pub input_json: Option<String>,
    pub output_values: Option<Vec<String>>,
    pub output_keys: Option<Vec<String>>,
    pub output_json: Option<String>,
}

/// Abstract value of [`DecodedTraceRow`].
pub ghost struct DecodedTraceRowV {
    pub matched: MatchedTraceRowV,
    pub input_values: Option<Seq<Seq<char>>>,
    pub input_keys: Option<Seq<Seq<char>>>,
    pub input_json: Option<Seq<char>>,
    pub output_values: Option<Seq<Seq<char>>>,
    pub output_keys: Option<Seq<Seq<char>>>,
    pub output_json: Option<Seq<char>>,
}

impl View for DecodedTraceRow {
    type V = DecodedTraceRowV;

    open spec fn view(&self) -> DecodedTraceRowV {
        DecodedTraceRowV {
            matched: self.matched@,
            input_values: match &self.input_values {
                Some(v) => Some(v.deep_view()),
                None => None,
            },
            input_keys: match &self.input_keys {
                Some(v) => Some(v.deep_view()),
                None => None,
            },
            input_json: match &self.input_json {
                Some(s) => Some(s@),
                None => None,
            },
            output_values: match &self.output_values {
                Some(v) => Some(v.deep_view()),
                None => None,
            },
            output_keys: match &self.output_keys {
                Some(v) => Some(v.deep_view()),
                None => None,
            },
            output_json: match &self.output_json {
                Some(s) => Some(s@),
                None => None,
            },
        }
    }
}

impl DeepView for DecodedTraceRow {
    type V = DecodedTraceRowV;

    open spec fn deep_view(&self) -> DecodedTraceRowV {
        self@
    }
}

} // verus!
