//! Decoded dynamic values and their canonical renderings: the tagged value
//! tree a payload decodes into, its string form, and the JSON serialization
//! of decoded parameter records.

use vstd::prelude::*;
use crate::hexutil::hex_prefixed;
use crate::strutil::{push_char, dec_str, usize_to_dec_string};

verus! {

/// A decoded dynamic value. Numbers are carried as their 32-byte big-endian
/// words (two's complement for the signed kind), addresses and function
/// pointers as their raw bytes.
pub enum DynValue {
    Bool(bool),
    Int(Vec<u8>),
    Uint(Vec<u8>),
    FixedBytes(Vec<u8>, usize),
    Address(Vec<u8>),
    Function(Vec<u8>),
    Bytes(Vec<u8>),
    Str(String),
    Array(Vec<DynValue>),
    FixedArray(Vec<DynValue>),
    Tuple(Vec<DynValue>),
}

/// Abstract value of [`DynValue`].
pub ghost enum DynValueV {
    Bool(bool),
    Int(Seq<u8>),
    Uint(Seq<u8>),
    FixedBytes(Seq<u8>, usize),
    Address(Seq<u8>),
    Function(Seq<u8>),
    Bytes(Seq<u8>),
    Str(Seq<char>),
    Array(Seq<DynValueV>),
    FixedArray(Seq<DynValueV>),
    Tuple(Seq<DynValueV>),
}

/// The abstract value of a decoded value tree.
pub open spec fn value_view(v: DynValue) -> DynValueV
    decreases v,
{
    match v {
        DynValue::Bool(b) => DynValueV::Bool(b),
        DynValue::Int(b) => DynValueV::Int(b@),
        DynValue::Uint(b) => DynValueV::Uint(b@),
        DynValue::FixedBytes(b, s) => DynValueV::FixedBytes(b@, s),
        DynValue::Address(b) => DynValueV::Address(b@),
        DynValue::Function(b) => DynValueV::Function(b@),
        DynValue::Bytes(b) => DynValueV::Bytes(b@),
        DynValue::Str(s) => DynValueV::Str(s@),
        DynValue::Array(items) => DynValueV::Array(values_view_of(v, items)),
        DynValue::FixedArray(items) => DynValueV::FixedArray(values_view_of(v, items)),
        DynValue::Tuple(items) => DynValueV::Tuple(values_view_of(v, items)),
    }
}

/// The abstract values of the elements of a nested list, guarded so that
/// the recursion stays within the containing value.
pub open spec fn values_view_of(v: DynValue, items: Vec<DynValue>) -> Seq<DynValueV>
    decreases items,
{
    Seq::new(
        items@.len(),
        |i: int|
            if 0 <= i < items@.len() {
                proof {
                    assert(decreases_to!(items => items@));
                    assert(decreases_to!(items@ => items@[i]));
                }
                value_view(items@[i])
            } else {
                DynValueV::Bool(false)
            },
    )
}

impl View for DynValue {
    type V = DynValueV;

    open spec fn view(&self) -> DynValueV {
        value_view(*self)
    }
}

impl DeepView for DynValue {
    type V = DynValueV;

    open spec fn deep_view(&self) -> DynValueV {
        self@
    }
}

/// Whether a decoded value carries its numeric and address leaves at their
/// ABI widths: 32-byte words for numbers, 20 bytes for an address, 24 for a
/// function pointer.
pub open spec fn value_wf(v: DynValueV) -> bool
    decreases v,
{
    match v {
        DynValueV::Int(b) => b.len() == 32,
        DynValueV::Uint(b) => b.len() == 32,
        DynValueV::Address(b) => b.len() == 20,
        DynValueV::Function(b) => b.len() == 24,
        DynValueV::Array(items) => values_wf(items),
        DynValueV::FixedArray(items) => values_wf(items),
        DynValueV::Tuple(items) => values_wf(items),
        _ => true,
    }
}

/// Whether every value of a list is well formed.
pub open spec fn values_wf(items: Seq<DynValueV>) -> bool
    decreases items,
{
    if items.len() == 0 {
        true
    } else {
        value_wf(items[0]) && values_wf(items.drop_first())
    }
}

/// Every element of a well-formed list is well formed.
pub proof fn lemma_values_wf_index(items: Seq<DynValueV>, i: int)
    requires
        values_wf(items),
        0 <= i < items.len(),
    ensures
        value_wf(items[i]),
    decreases i,
{
    if i > 0 {
        lemma_values_wf_index(items.drop_first(), i - 1);
        assert(items.drop_first()[i - 1] == items[i]);
    }
}

/// A list all of whose elements are well formed is well formed.
pub proof fn lemma_values_wf_all(items: Seq<DynValueV>)
    requires
        forall|i: int| 0 <= i < items.len() ==> value_wf(#[trigger] items[i]),
    ensures
        values_wf(items),
    decreases items.len(),
{
    if items.len() > 0 {
        assert forall|i: int| 0 <= i < items.drop_first().len() implies value_wf(
            #[trigger] items.drop_first()[i],
        ) by {
            assert(items.drop_first()[i] == items[i + 1]);
        }
        lemma_values_wf_all(items.drop_first());
    }
}

/// The unsigned value of a big-endian byte string.
pub open spec fn be_val(b: Seq<u8>) -> nat
    decreases b.len(),
{
    if b.len() == 0 {
        0
    } else {
        (be_val(b.drop_last()) * 256 + b.last()) as nat
    }
}

/// The canonical rendering of a decoded value: booleans as words, numbers in
/// base ten, byte strings as `0x`-prefixed lower-case hex, addresses in
/// checksummed form, arrays bracketed and tuples parenthesised with
/// comma-space joins, strings verbatim.
pub open spec fn render_value(v: DynValueV) -> Seq<char>
    decreases v,
{
    match v {
        DynValueV::Bool(b) => if b {
            "true"@
        } else {
            "false"@
        },
        DynValueV::Int(b) => if b.len() > 0 && b[0] >= 128 {
            seq!['-'] + dec_str((vstd::arithmetic::power2::pow2(8 * b.len()) - be_val(b)) as nat)
        } else {
            dec_str(be_val(b))
        },
        DynValueV::Uint(b) => dec_str(be_val(b)),
        DynValueV::FixedBytes(b, s) => hex_prefixed(b),
        DynValueV::Address(b) => crate::sol::checksum_of(b),
        DynValueV::Function(b) => hex_prefixed(b),
        DynValueV::Bytes(b) => hex_prefixed(b),
        DynValueV::Str(s) => s,
        DynValueV::Array(items) => seq!['['] + render_join(items) + seq![']'],
        DynValueV::FixedArray(items) => seq!['['] + render_join(items) + seq![']'],
        DynValueV::Tuple(items) => seq!['('] + render_join(items) + seq![')'],
    }
}

/// The comma-space join of rendered values.
pub open spec fn render_join(items: Seq<DynValueV>) -> Seq<char>
    decreases items,
{
    if items.len() == 0 {
        Seq::empty()
    } else if items.len() == 1 {
        render_value(items[0])
    } else {
        render_value(items[0]) + ", "@ + render_join(items.drop_first())
    }
}

/// A decoded value wrapped for rendering.
pub struct StrDynSolValue(pub DynValue);

impl StrDynSolValue {
    /// Renders the value in its canonical string form.
    pub fn to_string(&self) -> (r: Option<String>)
        requires
            value_wf(self.0@),
        ensures
            r matches Some(s) && s@ == render_value(self.0@),
    {
        Some(render_value_exec(&self.0))
    }
}

/// Renders a decoded value in its canonical string form.
pub fn render_value_exec(v: &DynValue) -> (r: String)
    requires
        value_wf(v@),
    ensures
        r@ == render_value(v@),
    decreases v,
{
    match v {
        DynValue::Bool(b) => {
            proof {
                reveal_strlit("true");
                reveal_strlit("false");
            }
            if *b {
                String::from_str("true")
            } else {
                String::from_str("false")
            }
        },
        DynValue::Int(b) => crate::sol::int_display(b),
        DynValue::Uint(b) => crate::sol::uint_display(b),
        DynValue::FixedBytes(b, _) => crate::hexutil::bytes_to_hex_prefixed(b),
        DynValue::Address(b) => crate::sol::address_display(b),
        DynValue::Function(b) => crate::hexutil::bytes_to_hex_prefixed(b),
        DynValue::Bytes(b) => crate::hexutil::bytes_to_hex_prefixed(b),
        DynValue::Str(s) => s.clone(),
        DynValue::Array(items) => {
            proof {
                assert(v@ == DynValueV::Array(values_view_of(*v, *items)));
                assert(values_view_of(*v, *items) =~= Seq::new(
                    items@.len(),
                    |i: int| items@[i].view(),
                ));
            }
            let mut r = String::new();
            push_char(&mut r, '[');
            let joined = render_join_exec(items);
            r.append(joined.as_str());
            push_char(&mut r, ']');
            proof {
                assert(DynValueV::Array(Seq::new(items@.len(), |i: int| items@[i].view())) == v@);
                assert(r@ =~= render_value(v@));
            }
            r
        },
        DynValue::FixedArray(items) => {
            proof {
                assert(v@ == DynValueV::FixedArray(values_view_of(*v, *items)));
                assert(values_view_of(*v, *items) =~= Seq::new(
                    items@.len(),
                    |i: int| items@[i].view(),
                ));
            }
            let mut r = String::new();
            push_char(&mut r, '[');
            let joined = render_join_exec(items);
            r.append(joined.as_str());
            push_char(&mut r, ']');
            proof {
                assert(r@ =~= render_value(v@));
            }
            r
        },
        DynValue::Tuple(items) => {
            proof {
                assert(v@ == DynValueV::Tuple(values_view_of(*v, *items)));
                assert(values_view_of(*v, *items) =~= Seq::new(
                    items@.len(),
                    |i: int| items@[i].view(),
                ));
            }
            let mut r = String::new();
            push_char(&mut r, '(');
            let joined = render_join_exec(items);
            r.append(joined.as_str());
            push_char(&mut r, ')');
            proof {
                assert(r@ =~= render_value(v@));
            }
            r
        },
    }
}

/// Renders the comma-space join of a list of values.
fn render_join_exec(items: &Vec<DynValue>) -> (r: String)
    requires
        values_wf(Seq::new(items@.len(), |i: int| items@[i].view())),
    ensures
        r@ == render_join(Seq::new(items@.len(), |i: int| items@[i].view())),
    decreases items,
{
    let ghost itemsv = Seq::new(items@.len(), |i: int| items@[i].view());
    let mut r = String::new();
    let n = items.len();
    let mut i: usize = 0;
    while i < n
        invariant
            i <= n,
            n == items@.len(),
            itemsv == Seq::new(items@.len(), |q: int| items@[q].view()),
            values_wf(itemsv),
            r@ == render_join_prefix(itemsv, i as int),
        decreases n - i,
    {
        if i > 0 {
            proof {
                reveal_strlit(", ");
            }
            r.append(", ");
        }
        proof {
            lemma_values_wf_index(itemsv, i as int);
            assert(itemsv[i as int] == items@[i as int]@);
        }
        let piece = render_value_exec(&items[i]);
        r.append(piece.as_str());
        proof {
            lemma_render_join_prefix(itemsv, i as int);
            assert(r@ =~= render_join_prefix(itemsv, i + 1 as int));
        }
        i = i + 1;
    }
    proof {
        lemma_render_join_prefix_full(itemsv);
    }
    r
}

/// The rendering of the first `k` values of a join.
pub open spec fn render_join_prefix(items: Seq<DynValueV>, k: int) -> Seq<char>
    decreases k,
{
    if k <= 0 {
        Seq::empty()
    } else if k == 1 {
        render_value(items[0])
    } else {
        render_join_prefix(items, k - 1) + ", "@ + render_value(items[k - 1])
    }
}

/// Appending one value to a join prefix.
proof fn lemma_render_join_prefix(items: Seq<DynValueV>, i: int)
    requires
        0 <= i < items.len(),
    ensures
        i == 0 ==> render_join_prefix(items, 1) == render_value(items[0]),
        i > 0 ==> render_join_prefix(items, i + 1) == render_join_prefix(items, i) + ", "@
            + render_value(items[i]),
{
}

/// A complete join prefix equals the join.
proof fn lemma_render_join_prefix_full(items: Seq<DynValueV>)
    ensures
        render_join_prefix(items, items.len() as int) == render_join(items),
    decreases items.len(),
{
    if items.len() > 1 {
        lemma_render_join_prefix_full(items.drop_first());
        lemma_render_join_shift(items, items.len() as int);
    }
}

/// A join prefix of the tail, shifted by one.
proof fn lemma_render_join_shift(items: Seq<DynValueV>, k: int)
    requires
        2 <= k <= items.len(),
    ensures
        render_join_prefix(items, k) == render_value(items[0]) + ", "@ + render_join_prefix(
            items.drop_first(),
            k - 1,
        ),
    decreases k,
{
    if k == 2 {
        assert(items.drop_first()[0] == items[1]);
    } else {
        lemma_render_join_shift(items, k - 1);
        assert(items.drop_first()[k - 2] == items[k - 1]);
        assert(render_join_prefix(items, k) == render_join_prefix(items, k - 1) + ", "@
            + render_value(items[k - 1]));
        assert(render_join_prefix(items.drop_first(), k - 1) == render_join_prefix(
            items.drop_first(),
            k - 2,
        ) + ", "@ + render_value(items.drop_first()[k - 2]));
        assert((render_value(items[0]) + ", "@ + render_join_prefix(items.drop_first(), k - 2))
            + ", "@ + render_value(items[k - 1]) =~= render_value(items[0]) + ", "@ + (
        render_join_prefix(items.drop_first(), k - 2) + ", "@ + render_value(items[k - 1])));
    }
}

/// One decoded parameter of a record, as it appears in the JSON column.
pub struct StructuredParam {
    pub name: String,
    pub index: u32,
    pub value_type: String,
    pub value: String,
}

/// Abstract value of [`StructuredParam`].
pub ghost struct StructuredParamV {
    pub name: Seq<char>,
    pub index: u32,
    pub value_type: Seq<char>,
    pub value: Seq<char>,
}

impl View for StructuredParam {
    type V = StructuredParamV;

    open spec fn view(&self) -> StructuredParamV {
        StructuredParamV {
            name: self.name@,
            index: self.index,
            value_type: self.value_type@,
            value: self.value@,
        }
    }
}

impl DeepView for StructuredParam {
    type V = StructuredParamV;

    open spec fn deep_view(&self) -> StructuredParamV {
        self@
    }
}

/// The JSON escape of one character: the two-character escapes for quotes,
/// backslashes and the common control characters, `\u00` escapes for the
/// other control characters, everything else verbatim.
pub open spec fn json_escape_char(c: char) -> Seq<char> {
    if c == '"' {
        seq!['\\', '"']
    } else if c == '\\' {
        seq!['\\', '\\']
    } else if c == '\u{8}' {
        seq!['\\', 'b']
    } else if c == '\u{c}' {
        seq!['\\', 'f']
    } else if c == '\n' {
        seq!['\\', 'n']
    } else if c == '\r' {
        seq!['\\', 'r']
    } else if c == '\t' {
        seq!['\\', 't']
    } else if (c as u32) < 32 {
        seq!['\\', 'u', '0', '0', crate::hexutil::hex_digit(((c as u32) / 16) as u8),
            crate::hexutil::hex_digit(((c as u32) % 16) as u8)]
    } else {
        seq![c]
    }
}

/// A character sequence with every character JSON-escaped.
pub open spec fn json_escaped(s: Seq<char>) -> Seq<char>
    decreases s.len(),
{
    if s.len() == 0 {
        Seq::empty()
    } else {
        json_escape_char(s[0]) + json_escaped(s.drop_first())
    }
}

/// A JSON string literal: quotes around the escaped characters.
pub open spec fn json_string(s: Seq<char>) -> Seq<char> {
    seq!['"'] + json_escaped(s) + seq!['"']
}

/// The JSON object of one decoded parameter, in compact form with the keys
/// `name`, `index`, `value_type` and `value` in that order.
pub open spec fn json_of_param(p: StructuredParamV) -> Seq<char> {
    "{\"name\":"@ + json_string(p.name) + ",\"index\":"@ + dec_str(p.index as nat)
        + ",\"value_type\":"@ + json_string(p.value_type) + ",\"value\":"@ + json_string(p.value)
        + seq!['}']
}

/// The compact JSON array of decoded parameters.
pub open spec fn json_of_params(ps: Seq<StructuredParamV>) -> Seq<char> {
    seq!['['] + json_params_join(ps) + seq![']']
}

/// The comma join of parameter objects.
pub open spec fn json_params_join(ps: Seq<StructuredParamV>) -> Seq<char>
    decreases ps.len(),
{
    if ps.len() == 0 {
        Seq::empty()
    } else if ps.len() == 1 {
        json_of_param(ps[0])
    } else {
        json_of_param(ps[0]) + seq![','] + json_params_join(ps.drop_first())
    }
}

/// Escapes a string for JSON and appends it, quoted, to the output.
fn append_json_string(out: &mut String, s: &str)
    ensures
        final(out)@ == old(out)@ + json_string(s@),
{
    push_char(out, '"');
    let n: usize = s.unicode_len();
    let mut i: usize = 0;
    let ghost base = old(out)@ + seq!['"'];
    while i < n
        invariant
            i <= n,
            n == s@.len(),
            out@ == base + json_escaped_prefix(s@, i as int),
        decreases n - i,
    {
        let c = s.get_char(i);
        let u: u32 = c as u32;
        proof {
            lemma_json_escaped_prefix(s@, i as int);
        }
        if c == '"' {
            push_char(out, '\\');
            push_char(out, '"');
        } else if c == '\\' {
            push_char(out, '\\');
            push_char(out, '\\');
        } else if u == 8 {
            push_char(out, '\\');
            push_char(out, 'b');
        } else if u == 12 {
            push_char(out, '\\');
            push_char(out, 'f');
        } else if c == '\n' {
            push_char(out, '\\');
            push_char(out, 'n');
        } else if c == '\r' {
            push_char(out, '\\');
            push_char(out, 'r');
        } else if c == '\t' {
            push_char(out, '\\');
            push_char(out, 't');
        } else if u < 32 {
            push_char(out, '\\');
            push_char(out, 'u');
            push_char(out, '0');
            push_char(out, '0');
            let hi: u8 = (u / 16) as u8;
            let lo: u8 = (u % 16) as u8;
            let hc: char = if hi < 10 {
                (48 + hi) as char
            } else {
                (87 + hi) as char
            };
            let lc: char = if lo < 10 {
                (48 + lo) as char
            } else {
                (87 + lo) as char
            };
            push_char(out, hc);
            push_char(out, lc);
        } else {
            push_char(out, c);
        }
        assert(out@ =~= base + json_escaped_prefix(s@, i + 1 as int));
        i = i + 1;
    }
    proof {
        lemma_json_escaped_prefix_full(s@);
    }
    push_char(out, '"');
    assert(out@ =~= old(out)@ + json_string(s@));
}

/// The escape of the first `k` characters.
pub open spec fn json_escaped_prefix(s: Seq<char>, k: int) -> Seq<char>
    decreases k,
{
    if k <= 0 {
        Seq::empty()
    } else {
        json_escaped_prefix(s, k - 1) + json_escape_char(s[k - 1])
    }
}

/// Extending an escape prefix by one character.
proof fn lemma_json_escaped_prefix(s: Seq<char>, i: int)
    requires
        0 <= i < s.len(),
    ensures
        json_escaped_prefix(s, i + 1) == json_escaped_prefix(s, i) + json_escape_char(s[i]),
{
}

/// A complete escape prefix equals the escape.
proof fn lemma_json_escaped_prefix_full(s: Seq<char>)
    ensures
        json_escaped_prefix(s, s.len() as int) == json_escaped(s),
    decreases s.len(),
{
    if s.len() > 0 {
        lemma_json_escaped_prefix_full(s.drop_first());
        lemma_json_escaped_shift(s, s.len() as int);
    }
}

/// An escape prefix of the tail, shifted by one.
proof fn lemma_json_escaped_shift(s: Seq<char>, k: int)
    requires
        1 <= k <= s.len(),
    ensures
        json_escaped_prefix(s, k) == json_escape_char(s[0]) + json_escaped_prefix(
            s.drop_first(),
            k - 1,
        ),
    decreases k,
{
    if k == 1 {
        assert(json_escaped_prefix(s, 0) == Seq::<char>::empty());
        assert(json_escaped_prefix(s.drop_first(), 0) == Seq::<char>::empty());
        assert(json_escaped_prefix(s, 1) =~= json_escape_char(s[0]) + json_escaped_prefix(
            s.drop_first(),
            0,
        ));
    } else {
        lemma_json_escaped_shift(s, k - 1);
        assert(s.drop_first()[k - 2] == s[k - 1]);
        assert(json_escaped_prefix(s, k) == json_escaped_prefix(s, k - 1) + json_escape_char(
            s[k - 1],
        ));
        assert(json_escaped_prefix(s.drop_first(), k - 1) == json_escaped_prefix(
            s.drop_first(),
            k - 2,
        ) + json_escape_char(s.drop_first()[k - 2]));
        assert((json_escape_char(s[0]) + json_escaped_prefix(s.drop_first(), k - 2))
            + json_escape_char(s[k - 1]) =~= json_escape_char(s[0]) + (json_escaped_prefix(
            s.drop_first(),
            k - 2,
        ) + json_escape_char(s[k - 1])));
    }
}

/// Serializes decoded parameters as a compact JSON array, as the decoded
/// `*_json` columns store them.
pub fn params_to_json(ps: &Vec<StructuredParam>) -> (r: String)
    ensures
        r@ == json_of_params(ps.deep_view()),
{
    let ghost psv = ps.deep_view();
    let mut out = String::new();
    push_char(&mut out, '[');
    let n = ps.len();
    let mut i: usize = 0;
    while i < n
        invariant
            i <= n,
            n == ps@.len(),
            psv == ps.deep_view(),
            psv.len() == n,
            out@ == seq!['['] + json_params_prefix(psv, i as int),
        decreases n - i,
    {
        if i > 0 {
            push_char(&mut out, ',');
        }
        append_param_json(&mut out, &ps[i]);
        proof {
            assert(ps.deep_view()[i as int] == ps@[i as int]@);
            lemma_json_params_prefix(psv, i as int);
            assert(out@ =~= seq!['['] + json_params_prefix(psv, i + 1 as int));
        }
        i = i + 1;
    }
    push_char(&mut out, ']');
    proof {
        lemma_json_params_prefix_full(psv);
        assert(out@ =~= json_of_params(psv));
    }
    out
}

/// The join of the first `k` parameter objects.
pub open spec fn json_params_prefix(ps: Seq<StructuredParamV>, k: int) -> Seq<char>
    decreases k,
{
    if k <= 0 {
        Seq::empty()
    } else if k == 1 {
        json_of_param(ps[0])
    } else {
        json_params_prefix(ps, k - 1) + seq![','] + json_of_param(ps[k - 1])
    }
}

/// Extending a parameter join prefix by one object.
proof fn lemma_json_params_prefix(ps: Seq<StructuredParamV>, i: int)
    requires
        0 <= i < ps.len(),
    ensures
        i == 0 ==> json_params_prefix(ps, 1) == json_of_param(ps[0]),
        i > 0 ==> json_params_prefix(ps, i + 1) == json_params_prefix(ps, i) + seq![',']
            + json_of_param(ps[i]),
{
}

/// A complete parameter join prefix equals the join.
proof fn lemma_json_params_prefix_full(ps: Seq<StructuredParamV>)
    ensures
        json_params_prefix(ps, ps.len() as int) == json_params_join(ps),
    decreases ps.len(),
{
    if ps.len() > 1 {
        lemma_json_params_prefix_full(ps.drop_first());
        lemma_json_params_shift(ps, ps.len() as int);
    }
}

/// A parameter join prefix of the tail, shifted by one.
proof fn lemma_json_params_shift(ps: Seq<StructuredParamV>, k: int)
    requires
        2 <= k <= ps.len(),
    ensures
        json_params_prefix(ps, k) == json_of_param(ps[0]) + seq![','] + json_params_prefix(
            ps.drop_first(),
            k - 1,
        ),
    decreases k,
{
    if k == 2 {
        assert(ps.drop_first()[0] == ps[1]);
    } else {
        lemma_json_params_shift(ps, k - 1);
        assert(ps.drop_first()[k - 2] == ps[k - 1]);
        assert(json_params_prefix(ps, k) == json_params_prefix(ps, k - 1) + seq![',']
            + json_of_param(ps[k - 1]));
        assert(json_params_prefix(ps.drop_first(), k - 1) == json_params_prefix(
            ps.drop_first(),
            k - 2,
        ) + seq![','] + json_of_param(ps.drop_first()[k - 2]));
        assert((json_of_param(ps[0]) + seq![','] + json_params_prefix(ps.drop_first(), k - 2))
            + seq![','] + json_of_param(ps[k - 1]) =~= json_of_param(ps[0]) + seq![','] + (
        json_params_prefix(ps.drop_first(), k - 2) + seq![','] + json_of_param(ps[k - 1])));
    }
}

/// Appends the JSON object of one parameter.
fn append_param_json(out: &mut String, p: &StructuredParam)
    ensures
        final(out)@ == old(out)@ + json_of_param(p@),
{
    proof {
        reveal_strlit("{\"name\":");
        reveal_strlit(",\"index\":");
        reveal_strlit(",\"value_type\":");
        reveal_strlit(",\"value\":");
    }
    out.append("{\"name\":");
    append_json_string(out, p.name.as_str());
    out.append(",\"index\":");
    let idx = usize_to_dec_string(p.index as usize);
    out.append(idx.as_str());
    out.append(",\"value_type\":");
    append_json_string(out, p.value_type.as_str());
    out.append(",\"value\":");
    append_json_string(out, p.value.as_str());
    push_char(out, '}');
    assert(out@ =~= old(out)@ + json_of_param(p@));
}

} // verus!
