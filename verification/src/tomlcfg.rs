//! Bulk configuration from a TOML document: the document tree is flattened
//! depth-first into dotted keys and each leaf is applied through
//! [`set_config`].

use vstd::prelude::*;
use crate::config::{
    Config, ConfigV, ConfigValue, ConfigValueV, ConfiggerError, apply_set, set_config,
};
use crate::strutil::push_char;

verus! {

/// A TOML document tree reduced to the value kinds the configuration reads.
/// Float and datetime leaves appear as [`TomlValue::Other`]; flattening
/// reports them as unsupported.
pub enum TomlValue {
    Str(String),
    Int(i64),
    Bool(bool),
    Arr(Vec<TomlValue>),
    Table(Vec<(String, TomlValue)>),
    Other,
}

/// Abstract value of [`TomlValue`].
pub ghost enum TomlValueV {
    Str(Seq<char>),
    Int(i64),
    Bool(bool),
    Arr(Seq<TomlValueV>),
    Table(Seq<(Seq<char>, TomlValueV)>),
    Other,
}

/// The abstract value of a TOML tree.
pub open spec fn toml_view(t: TomlValue) -> TomlValueV
    decreases t,
{
    match t {
        TomlValue::Str(s) => TomlValueV::Str(s@),
        TomlValue::Int(n) => TomlValueV::Int(n),
        TomlValue::Bool(b) => TomlValueV::Bool(b),
        TomlValue::Arr(items) => TomlValueV::Arr(toml_views_of(t, items)),
        TomlValue::Table(entries) => TomlValueV::Table(toml_entries_view_of(t, entries)),
        TomlValue::Other => TomlValueV::Other,
    }
}

/// The abstract values of the elements of a nested array, guarded so that
/// the recursion stays within the containing value.
pub open spec fn toml_views_of(v: TomlValue, items: Vec<TomlValue>) -> Seq<TomlValueV>
    decreases items,
{
    Seq::new(
        items@.len(),
        |i: int|
            if 0 <= i < items@.len() {
                proof {
                    assert(decreases_to!(items => items@));
                    assert(decreases_to!(items@ => items@[i]));
                }
                toml_view(items@[i])
            } else {
                TomlValueV::Other
            },
    )
}

/// The abstract pairs of the entries of a nested table, guarded so that the
/// recursion stays within the containing value.
pub open spec fn toml_entries_view_of(v: TomlValue, entries: Vec<(String, TomlValue)>) -> Seq<
    (Seq<char>, TomlValueV),
>
    decreases entries,
{
    Seq::new(
        entries@.len(),
        |i: int|
            if 0 <= i < entries@.len() {
                proof {
                    assert(decreases_to!(entries => entries@));
                    assert(decreases_to!(entries@ => entries@[i]));
                    assert(decreases_to!(entries@[i] => entries@[i].1));
                }
                (entries@[i].0@, toml_view(entries@[i].1))
            } else {
                (Seq::<char>::empty(), TomlValueV::Other)
            },
    )
}

impl View for TomlValue {
    type V = TomlValueV;

    open spec fn view(&self) -> TomlValueV {
        toml_view(*self)
    }
}

/// The abstract values of an executable list of TOML values.
pub open spec fn toml_values_view(v: Seq<TomlValue>) -> Seq<TomlValueV> {
    v.map_values(|t: TomlValue| t@)
}

/// The abstract pairs of an executable list of TOML table entries.
pub open spec fn toml_entries_view(v: Seq<(String, TomlValue)>) -> Seq<(Seq<char>, TomlValueV)> {
    v.map_values(|p: (String, TomlValue)| (p.0@, p.1@))
}

/// The dotted key of an entry under a prefix.
pub open spec fn joined_key(prefix: Seq<char>, key: Seq<char>) -> Seq<char> {
    if prefix.len() == 0 {
        key
    } else {
        prefix + seq!['.'] + key
    }
}

/// Whether every element of an array is a string leaf.
pub open spec fn all_string_items(items: Seq<TomlValueV>) -> bool {
    forall|i: int| 0 <= i < items.len() ==> (#[trigger] items[i]) is Str
}

/// The character sequences of an all-string array.
pub open spec fn string_item_views(items: Seq<TomlValueV>) -> Seq<Seq<char>> {
    items.map_values(|t: TomlValueV| t->Str_0)
}

/// Flattening one table: the dotted keys and configuration values of its
/// leaves, depth-first in entry order, or the first unsupported key.
pub open spec fn flatten_toml(prefix: Seq<char>, entries: Seq<(Seq<char>, TomlValueV)>) -> Result<
    Seq<(Seq<char>, ConfigValueV)>,
    Seq<char>,
>
    decreases entries,
{
    if entries.len() == 0 {
        Ok(Seq::empty())
    } else {
        let key = joined_key(prefix, entries[0].0);
        let head: Result<Seq<(Seq<char>, ConfigValueV)>, Seq<char>> = match entries[0].1 {
            TomlValueV::Str(s) => Ok(seq![(key, ConfigValueV::Str(s))]),
            TomlValueV::Int(n) => Ok(seq![(key, ConfigValueV::Num(n as usize))]),
            TomlValueV::Bool(b) => Ok(seq![(key, ConfigValueV::Bool(b))]),
            TomlValueV::Arr(items) => if all_string_items(items) {
                Ok(seq![(key, ConfigValueV::List(string_item_views(items)))])
            } else {
                Err(key)
            },
            TomlValueV::Table(sub) => {
                proof {
                    assert(decreases_to!(entries => entries[0]));
                    assert(decreases_to!(entries[0] => entries[0].1));
                    assert(decreases_to!(entries[0].1 => entries[0].1->Table_0));
                }
                flatten_toml(key, sub)
            },
            TomlValueV::Other => Err(key),
        };
        match head {
            Ok(hd) => match flatten_toml(prefix, entries.drop_first()) {
                Ok(tl) => Ok(hd + tl),
                Err(e) => Err(e),
            },
            Err(e) => Err(e),
        }
    }
}

/// The snapshot left by applying a sequence of key/value pairs in order,
/// stopping at the first pair `apply_set` rejects.
pub open spec fn apply_pairs_state(c: ConfigV, pairs: Seq<(Seq<char>, ConfigValueV)>) -> ConfigV
    decreases pairs.len(),
{
    if pairs.len() == 0 {
        c
    } else {
        match apply_set(c, pairs[0].0, pairs[0].1) {
            Some(c2) => apply_pairs_state(c2, pairs.drop_first()),
            None => c,
        }
    }
}

/// Whether every pair of a sequence is accepted when applied in order.
pub open spec fn pairs_all_apply(c: ConfigV, pairs: Seq<(Seq<char>, ConfigValueV)>) -> bool
    decreases pairs.len(),
{
    if pairs.len() == 0 {
        true
    } else {
        match apply_set(c, pairs[0].0, pairs[0].1) {
            Some(c2) => pairs_all_apply(c2, pairs.drop_first()),
            None => false,
        }
    }
}

/// The abstract pairs of an executable key/value list.
pub open spec fn pairs_view(v: Seq<(String, ConfigValue)>) -> Seq<(Seq<char>, ConfigValueV)> {
    v.map_values(|p: (String, ConfigValue)| (p.0@, p.1@))
}

/// Builds the dotted key of an entry under a prefix.
fn join_key(prefix: &str, key: &String) -> (r: String)
    ensures
        r@ == joined_key(prefix@, key@),
{
    if prefix.unicode_len() == 0 {
        key.clone()
    } else {
        let mut r = String::from_str(prefix);
        push_char(&mut r, '.');
        r.append(key.as_str());
        assert(r@ =~= joined_key(prefix@, key@));
        r
    }
}

/// Reads a TOML integer the way the configuration does: reinterpreted as an
/// unsigned machine word.
fn cast_toml_int(v: i64) -> (r: usize)
    ensures
        r == v as usize,
{
    #[verifier::truncate]
    (v as usize)
}

/// Collects the strings of an all-string array; `None` exactly when some
/// element is not a string.
fn extract_string_items(items: &Vec<TomlValue>) -> (r: Option<Vec<String>>)
    ensures
        r is Some <==> all_string_items(toml_values_view(items@)),
        r is Some ==> r.unwrap().deep_view() == string_item_views(toml_values_view(items@)),
{
    let ghost iv = toml_values_view(items@);
    let mut out: Vec<String> = Vec::new();
    let mut i: usize = 0;
    while i < items.len()
        invariant
            i <= items@.len(),
            iv == toml_values_view(items@),
            iv.len() == items@.len(),
            forall|j: int| 0 <= j < i ==> (#[trigger] iv[j]) is Str,
            out.deep_view() =~= string_item_views(iv.take(i as int)),
        decreases items@.len() - i,
    {
        proof {
            assert(iv[i as int] == items@[i as int]@);
        }
        match &items[i] {
            TomlValue::Str(s) => {
                let ghost pre = out@;
                let sc = s.clone();
                out.push(sc);
                proof {
                    assert(iv[i as int] == TomlValueV::Str(s@));
                    assert(string_item_views(iv.take(i + 1 as int)) =~= string_item_views(
                        iv.take(i as int),
                    ).push(iv[i as int]->Str_0));
                    assert(out.deep_view() =~= string_item_views(iv.take(i + 1 as int)));
                }
            },
            _ => {
                proof {
                    assert(!(iv[i as int] is Str));
                }
                return None;
            },
        }
        i = i + 1;
    }
    assert(iv.take(iv.len() as int) =~= iv);
    Some(out)
}

/// Flattens the entries of one TOML table, depth-first, into dotted
/// key/value pairs; fails on the first leaf whose kind the configuration
/// does not support.
pub fn process_table(prefix: &str, entries: &Vec<(String, TomlValue)>) -> (r: Result<
    Vec<(String, ConfigValue)>,
    ConfiggerError,
>)
    ensures
        r is Ok <==> flatten_toml(prefix@, toml_entries_view(entries@)) is Ok,
        r is Ok ==> pairs_view(r.unwrap()@) == flatten_toml(
            prefix@,
            toml_entries_view(entries@),
        )->Ok_0,
        r is Err ==> r->Err_0 is UnsupportedValueType,
    decreases entries@,
{
    let ghost ev = toml_entries_view(entries@);
    let mut out: Vec<(String, ConfigValue)> = Vec::new();
    let n = entries.len();
    let mut i: usize = 0;
    assert(ev.skip(0) =~= ev);
    assert(pairs_view(out@) =~= Seq::<(Seq<char>, ConfigValueV)>::empty());
    while i < n
        invariant
            i <= n,
            n == entries@.len(),
            ev == toml_entries_view(entries@),
            ev.len() == n,
            flatten_toml(prefix@, ev.skip(i as int)) is Ok ==> flatten_toml(prefix@, ev) is Ok
                && flatten_toml(prefix@, ev)->Ok_0 == pairs_view(out@) + flatten_toml(
                prefix@,
                ev.skip(i as int),
            )->Ok_0,
            flatten_toml(prefix@, ev.skip(i as int)) is Err ==> flatten_toml(prefix@, ev)
                == flatten_toml(prefix@, ev.skip(i as int)),
        decreases n - i,
    {
        proof {
            assert(ev.skip(i as int)[0] == ev[i as int]);
            assert(ev.skip(i as int).drop_first() =~= ev.skip(i + 1 as int));
            assert(ev[i as int] == (entries@[i as int].0@, entries@[i as int].1@));
        }
        let key = join_key(prefix, &entries[i].0);
        let ghost keyv = joined_key(prefix@, entries@[i as int].0@);
        match &entries[i].1 {
            TomlValue::Str(s) => {
                proof {
                    assert(ev[i as int].1 == TomlValueV::Str(s@));
                }
                let ghost pre = out@;
                out.push((key, ConfigValue::String(s.clone())));
                proof {
                    assert(pairs_view(out@) =~= pairs_view(pre) + seq![
                        (keyv, ConfigValueV::Str(s@)),
                    ]);
                }
            },
            TomlValue::Int(v) => {
                proof {
                    assert(ev[i as int].1 == TomlValueV::Int(*v));
                }
                let ghost pre = out@;
                out.push((key, ConfigValue::Number(cast_toml_int(*v))));
                proof {
                    assert(pairs_view(out@) =~= pairs_view(pre) + seq![
                        (keyv, ConfigValueV::Num((*v) as usize)),
                    ]);
                }
            },
            TomlValue::Bool(b) => {
                proof {
                    assert(ev[i as int].1 == TomlValueV::Bool(*b));
                }
                let ghost pre = out@;
                out.push((key, ConfigValue::Boolean(*b)));
                proof {
                    assert(pairs_view(out@) =~= pairs_view(pre) + seq![
                        (keyv, ConfigValueV::Bool(*b)),
                    ]);
                }
            },
            TomlValue::Arr(items) => {
                proof {
                    assert(ev[i as int].1 == entries@[i as int].1@);
                    assert(ev[i as int].1->Arr_0 =~= toml_values_view(items@));
                }
                match extract_string_items(items) {
                    Some(ss) => {
                        let ghost pre = out@;
                        out.push((key, ConfigValue::List(ss)));
                        proof {
                            assert(string_item_views(toml_values_view(items@))
                                =~= string_item_views(ev[i as int].1->Arr_0));
                            assert(pairs_view(out@) =~= pairs_view(pre) + seq![
                                (keyv, ConfigValueV::List(string_item_views(
                                    ev[i as int].1->Arr_0,
                                ))),
                            ]);
                        }
                    },
                    None => {
                        return Err(ConfiggerError::UnsupportedValueType(key));
                    },
                }
            },
            TomlValue::Table(sub) => {
                proof {
                    assert(decreases_to!(entries@ => entries@[i as int]));
                    assert(decreases_to!(entries@[i as int] => entries@[i as int].1));
                    assert(decreases_to!(entries@[i as int].1 => entries@[i as int].1->Table_0));
                    assert(decreases_to!(entries@[i as int].1->Table_0 => entries@[i as int].1->Table_0@));
                    assert(ev[i as int].1 == entries@[i as int].1@);
                    assert(ev[i as int].1->Table_0 =~= toml_entries_view(sub@));
                }
                match process_table(key.as_str(), sub) {
                    Ok(mut inner) => {
                        let ghost pre = out@;
                        let ghost innerv = inner@;
                        out.append(&mut inner);
                        proof {
                            assert(out@ == pre + innerv);
                            assert(pairs_view(out@) =~= pairs_view(pre) + pairs_view(innerv));
                        }
                    },
                    Err(e) => {
                        return Err(e);
                    },
                }
            },
            TomlValue::Other => {
                proof {
                    assert(ev[i as int].1 == TomlValueV::Other);
                }
                return Err(ConfiggerError::UnsupportedValueType(key));
            },
        }
        i = i + 1;
    }
    proof {
        assert(ev.skip(n as int) =~= Seq::<(Seq<char>, TomlValueV)>::empty());
        assert(pairs_view(out@) + Seq::<(Seq<char>, ConfigValueV)>::empty() =~= pairs_view(out@));
    }
    Ok(out)
}

/// Applies every leaf of a TOML document's root table, in flattening order.
/// Keys already applied stay applied when a later key is rejected: the
/// update is sequential and stops at the first bad key.
pub fn apply_toml_tree(config: &mut Config, root: &Vec<(String, TomlValue)>) -> (r: Result<
    (),
    ConfiggerError,
>)
    ensures
        flatten_toml(Seq::<char>::empty(), toml_entries_view(root@)) is Err ==> r is Err
            && r->Err_0 is UnsupportedValueType && final(config)@ == old(config)@,
        flatten_toml(Seq::<char>::empty(), toml_entries_view(root@)) is Ok ==> final(config)@
            == apply_pairs_state(
            old(config)@,
            flatten_toml(Seq::<char>::empty(), toml_entries_view(root@))->Ok_0,
        ) && (r is Ok <==> pairs_all_apply(
            old(config)@,
            flatten_toml(Seq::<char>::empty(), toml_entries_view(root@))->Ok_0,
        )),
        flatten_toml(Seq::<char>::empty(), toml_entries_view(root@)) is Ok && r is Err ==> r
            ->Err_0 is InvalidFieldOrValue,
        old(config).wf() ==> final(config).wf(),
{
    let ghost c0 = config@;
    let empty_prefix = String::new();
    let pairs = match process_table(empty_prefix.as_str(), root) {
        Ok(p) => p,
        Err(e) => {
            return Err(e);
        },
    };
    let ghost all = pairs_view(pairs@);
    proof {
        assert(empty_prefix@ =~= Seq::<char>::empty());
        assert(all == flatten_toml(Seq::<char>::empty(), toml_entries_view(root@))->Ok_0);
    }
    let mut k: usize = 0;
    let npairs = pairs.len();
    assert(all.skip(0) =~= all);
    while k < npairs
        invariant
            k <= npairs,
            npairs == pairs@.len(),
            all.len() == npairs,
            all == pairs_view(pairs@),
            old(config).wf() ==> config.wf(),
            c0 == old(config)@,
            flatten_toml(Seq::<char>::empty(), toml_entries_view(root@)) is Ok,
            all == flatten_toml(Seq::<char>::empty(), toml_entries_view(root@))->Ok_0,
            apply_pairs_state(c0, all) == apply_pairs_state(config@, all.skip(k as int)),
            pairs_all_apply(c0, all) == pairs_all_apply(config@, all.skip(k as int)),
        decreases npairs - k,
    {
        proof {
            assert(all.skip(k as int)[0] == all[k as int]);
            assert(all.skip(k as int).drop_first() =~= all.skip(k + 1 as int));
        }
        let key = pairs[k].0.clone();
        let value = clone_config_value(&pairs[k].1);
        proof {
            assert(all[k as int] == (pairs@[k as int].0@, pairs@[k as int].1@));
            assert(all[k as int] == (key@, value@));
        }
        match set_config(config, key.as_str(), value) {
            Ok(_) => {},
            Err(e) => {
                proof {
                    assert(apply_pairs_state(config@, all.skip(k as int)) == config@);
                    assert(!pairs_all_apply(config@, all.skip(k as int)));
                }
                return Err(e);
            },
        }
        k = k + 1;
    }
    assert(all.skip(npairs as int) =~= Seq::<(Seq<char>, ConfigValueV)>::empty());
    Ok(())
}

#[verifier::external_type_specification]
#[verifier::external_body]
pub struct ExTomlValue(toml::Value);

/// What parsing a TOML document yields: its tree as the crate models it, or
/// nothing when the text is not well-formed TOML. It depends on the text
/// alone.
pub uninterp spec fn toml_doc_of(s: Seq<char>) -> Option<TomlValueV>;

/// Relies on toml's document deserializer for `Value` and on the `Value`
/// enum itself: parses one TOML document and carries the tree over through
/// `toml_tree`, with the parser's message on failure. The result is a
/// function of the text alone.
#[verifier::external_body]
fn parse_toml_doc(s: &str) -> (r: Result<TomlValue, String>)
    ensures
        match r {
            Ok(t) => toml_doc_of(s@) == Some(t@),
            Err(_) => toml_doc_of(s@) is None,
        },
{
    toml::from_str::<toml::Value>(s).map(toml_tree).map_err(|e| e.to_string())
}

/// Relies on toml's `Value` enum: each variant is carried over one for one;
/// float and datetime leaves become [`TomlValue::Other`].
#[verifier::external_body]
fn toml_tree(v: toml::Value) -> (r: TomlValue) {
    match v {
        toml::Value::String(s) => TomlValue::Str(s),
        toml::Value::Integer(n) => TomlValue::Int(n),
        toml::Value::Boolean(b) => TomlValue::Bool(b),
        toml::Value::Array(a) => TomlValue::Arr(a.into_iter().map(toml_tree).collect()),
        toml::Value::Table(t) => TomlValue::Table(
            t.into_iter().map(|(k, v)| (k, toml_tree(v))).collect(),
        ),
        _ => TomlValue::Other,
    }
}

/// Loads a whole configuration from the text of a TOML document. It fails
/// with a parse error exactly when the text is not well-formed TOML; a
/// document whose root is not a table is rejected unchanged; otherwise the
/// root's leaves are flattened depth-first into dotted keys and applied in
/// order through [`set_config`], stopping at the first unsupported leaf or
/// rejected key.
pub fn set_config_toml(config: &mut Config, contents: &str) -> (r: Result<(), ConfiggerError>)
    ensures
        (r is Err && r->Err_0 is ParseError) <==> toml_doc_of(contents@) is None,
        toml_doc_of(contents@) matches Some(d) ==> (!(d is Table) ==> r is Err
            && r->Err_0 is InvalidTomlFormat && final(config)@ == old(config)@),
        toml_doc_of(contents@) matches Some(d) ==> (d is Table && flatten_toml(
            Seq::<char>::empty(),
            d->Table_0,
        ) is Err ==> r is Err && r->Err_0 is UnsupportedValueType && final(config)@ == old(
            config,
        )@),
        toml_doc_of(contents@) matches Some(d) ==> (d is Table && flatten_toml(
            Seq::<char>::empty(),
            d->Table_0,
        ) is Ok ==> final(config)@ == apply_pairs_state(
            old(config)@,
            flatten_toml(Seq::<char>::empty(), d->Table_0)->Ok_0,
        ) && (r is Ok <==> pairs_all_apply(
            old(config)@,
            flatten_toml(Seq::<char>::empty(), d->Table_0)->Ok_0,
        )) && (r is Err ==> r->Err_0 is InvalidFieldOrValue)),
        r is Err && (r->Err_0 is ParseError || r->Err_0 is InvalidTomlFormat) ==> final(config)@
            == old(config)@,
        old(config).wf() ==> final(config).wf(),
{
    let t = match parse_toml_doc(contents) {
        Ok(t) => t,
        Err(e) => {
            return Err(ConfiggerError::ParseError(e));
        },
    };
    match t {
        TomlValue::Table(entries) => {
            proof {
                let d = toml_doc_of(contents@).unwrap();
                assert(d->Table_0 =~= toml_entries_view(entries@));
            }
            apply_toml_tree(config, &entries)
        },
        _ => Err(ConfiggerError::InvalidTomlFormat),
    }
}

/// Copies a configuration value, preserving its abstract value.
fn clone_config_value(v: &ConfigValue) -> (r: ConfigValue)
    ensures
        r@ == v@,
{
    match v {
        ConfigValue::String(s) => ConfigValue::String(s.clone()),
        ConfigValue::Number(n) => ConfigValue::Number(*n),
        ConfigValue::List(l) => ConfigValue::List(crate::config::clone_string_vec(l)),
        ConfigValue::Boolean(b) => ConfigValue::Boolean(*b),
    }
}

} // verus!
