//! Bind parameters: positional or named values collected row by row,
//! then serialised to the request's bindings map.
//!
//! A key bound once carries a scalar value; a key bound several times
//! (batched inserts) carries the whole column as an array. Each binding
//! is tagged with its type name and, for semi-structured and binary
//! types, the "json" format hint.

use vstd::prelude::*;

use crate::cast::{cell_wire_str, reverse_cast};
use crate::cell::{CellValue, Column, ColumnType, spec_value_name, value_to_name};

verus! {

/// The server's description of one expected bind parameter.
#[derive(Clone, Debug)]
pub struct BindMetadata {
    pub col_type: ColumnType,
    pub name: String,
    pub precision: Option<i64>,
    pub scale: Option<i64>,
    pub nullable: bool,
}

impl BindMetadata {
    /// The column a bind parameter describes.
    pub fn to_column(self) -> (r: Column)
        ensures
            r.col_type == self.col_type,
            r.name == self.name,
            r.precision == self.precision,
            r.scale == self.scale,
            r.nullable == self.nullable,
    {
        Column {
            col_type: self.col_type,
            name: self.name,
            precision: self.precision,
            scale: self.scale,
            nullable: self.nullable,
        }
    }
}

/// A binding's value: one scalar, or one value per bound row.
#[derive(Clone, Debug, PartialEq)]
pub enum BindValue {
    Slice(Vec<Option<String>>),
    Scalar(String),
}

/// One serialised binding: its type name, its optional format hint, and
/// its value; a null scalar has no value at all.
#[derive(Clone, Debug, PartialEq)]
pub struct Binding {
    pub binding_type: String,
    pub format: Option<String>,
    pub value: Option<BindValue>,
}

impl Binding {
    pub fn new(binding_type: String, format: Option<String>, value: Option<BindValue>) -> (r:
        Binding)
        ensures
            r.binding_type == binding_type,
            r.format == format,
            r.value == value,
    {
        Binding { binding_type, format, value }
    }
}

/// Semi-structured and binary values carry the "json" format hint so
/// the server parses them.
pub open spec fn needs_json_format(v: CellValue) -> bool {
    match v {
        CellValue::Mapping(_) => true,
        CellValue::Array(_) => true,
        CellValue::Slice(_) => true,
        CellValue::Object(_) => true,
        CellValue::Variant(_) => true,
        CellValue::Binary(_) => true,
        _ => false,
    }
}

fn json_format_of(v: &CellValue) -> (r: Option<String>)
    ensures
        match r {
            Some(f) => needs_json_format(*v) && f@ == "json"@,
            None => !needs_json_format(*v),
        },
{
    match v {
        CellValue::Mapping(_) => Some(String::from_str("json")),
        CellValue::Array(_) => Some(String::from_str("json")),
        CellValue::Slice(_) => Some(String::from_str("json")),
        CellValue::Object(_) => Some(String::from_str("json")),
        CellValue::Variant(_) => Some(String::from_str("json")),
        CellValue::Binary(_) => Some(String::from_str("json")),
        _ => None,
    }
}

/// The schema a structured binding may announce.
#[derive(Clone, Debug)]
pub struct BindingSchema {
    pub schema_type: String,
    pub is_nullable: bool,
    pub fields: Vec<FieldMetadata>,
}

/// One field of a structured binding's schema.
#[derive(Clone, Debug)]
pub struct FieldMetadata {
    pub name: String,
    pub field_type: String,
    pub is_nullable: bool,
    pub precision: Option<i64>,
    pub scale: Option<i64>,
    pub length: Option<i64>,
}

/// The collected bindings: one entry per parameter key, each holding
/// the values bound to it so far, in binding order. Keys are unique.
pub struct Bindings {
    pub entries: Vec<(String, Vec<CellValue>)>,
}

/// The keys of the collected entries are pairwise distinct.
pub open spec fn keys_unique(entries: Seq<(String, Vec<CellValue>)>) -> bool {
    forall|i: int, j: int|
        0 <= i < j < entries.len() ==> (#[trigger] entries[i]).0@ != (#[trigger] entries[j]).0@
}

/// The mathematical view of the collected entries: each key's
/// characters with its column of values.
pub open spec fn entries_view(entries: Seq<(String, Vec<CellValue>)>) -> Seq<
    (Seq<char>, Seq<CellValue>),
> {
    entries.map_values(|p: (String, Vec<CellValue>)| (p.0@, p.1@))
}

/// The position of `key` among the viewed entries, or the length if
/// absent.
pub open spec fn view_key_index(v: Seq<(Seq<char>, Seq<CellValue>)>, key: Seq<char>) -> int
    decreases v.len(),
{
    if v.len() == 0 {
        0
    } else if v[0].0 == key {
        0
    } else {
        1 + view_key_index(v.skip(1), key)
    }
}

/// What binding one value to one key does: the value is appended to the
/// key's column, or opens a new single-value column for a new key.
pub open spec fn spec_bind_value(
    v: Seq<(Seq<char>, Seq<CellValue>)>,
    key: Seq<char>,
    value: CellValue,
) -> Seq<(Seq<char>, Seq<CellValue>)> {
    let i = view_key_index(v, key);
    if i < v.len() {
        v.update(i, (v[i].0, v[i].1.push(value)))
    } else {
        v.push((key, seq![value]))
    }
}

/// Binding a sequence of key-value pairs, one after the other in the
/// given order.
pub open spec fn spec_bind_all(
    v: Seq<(Seq<char>, Seq<CellValue>)>,
    pairs: Seq<(Seq<char>, CellValue)>,
) -> Seq<(Seq<char>, Seq<CellValue>)>
    decreases pairs.len(),
{
    if pairs.len() == 0 {
        v
    } else {
        spec_bind_value(spec_bind_all(v, pairs.drop_last()), pairs.last().0, pairs.last().1)
    }
}

/// The key-value pairs of one positional row: the value at position
/// `k`, counting from zero, goes to the decimal key `k + 1`.
pub open spec fn positional_pairs(params: Seq<CellValue>) -> Seq<(Seq<char>, CellValue)> {
    Seq::new(params.len(), |i: int| (crate::numeric::dec_digits((i + 1) as nat), params[i]))
}

/// The key-value pairs of one named row.
pub open spec fn named_pairs(params: Seq<(String, CellValue)>) -> Seq<(Seq<char>, CellValue)> {
    params.map_values(|p: (String, CellValue)| (p.0@, p.1))
}

impl Bindings {
    pub open spec fn wf(&self) -> bool {
        &&& keys_unique(self.entries@)
        &&& forall|i: int|
            0 <= i < self.entries@.len() ==> (#[trigger] self.entries@[i]).1@.len() > 0
    }

    pub fn new() -> (r: Bindings)
        ensures
            r.wf(),
            r.entries@.len() == 0,
    {
        Bindings { entries: Vec::new() }
    }

    /// Appends `value` to `key`'s column, creating the column when the
    /// key is new.
    pub fn bind_value(&mut self, key: String, value: CellValue)
        requires
            old(self).wf(),
        ensures
            final(self).wf(),
            entries_view(final(self).entries@) == spec_bind_value(
                entries_view(old(self).entries@),
                key@,
                value,
            ),
    {
        let len = self.entries.len();
        let mut i: usize = 0;
        while i < len
            invariant
                old(self).wf(),
                *self == *old(self),
                len == self.entries@.len(),
                i <= len,
                forall|j: int| 0 <= j < i ==> (#[trigger] self.entries@[j]).0@ != key@,
            decreases len - i,
        {
            if crate::strutil::str_eq(self.entries[i].0.as_str(), key.as_str()) {
                let ghost old_entries = self.entries@;
                let mut pair = self.entries.remove(i);
                pair.1.push(value);
                self.entries.insert(i, pair);
                proof {
                    let v0 = entries_view(old_entries);
                    assert forall|j: int| 0 <= j < i implies (#[trigger] v0[j]).0 != key@ by {
                        assert(v0[j].0 == old_entries[j].0@);
                    }
                    lemma_view_key_index_found(v0, key@, i as int);
                    assert(self.entries@ =~= old_entries.update(
                        i as int,
                        (old_entries[i as int].0, self.entries@[i as int].1),
                    ));
                    assert(self.entries@[i as int].1@ =~= old_entries[i as int].1@.push(value));
                    assert(entries_view(self.entries@) =~= spec_bind_value(v0, key@, value));
                    assert forall|i2: int, j2: int|
                        0 <= i2 < j2 < self.entries@.len() implies (
                    #[trigger] self.entries@[i2]).0@ != (#[trigger] self.entries@[j2]).0@ by {
                        assert(self.entries@[i2].0 == old_entries[i2].0);
                        assert(self.entries@[j2].0 == old_entries[j2].0);
                    }
                }
                return ;
            }
            i = i + 1;
        }
        let ghost old_entries = self.entries@;
        let mut column: Vec<CellValue> = Vec::new();
        column.push(value);
        self.entries.push((key, column));
        proof {
            let v0 = entries_view(old_entries);
            assert forall|i2: int, j2: int|
                0 <= i2 < j2 < self.entries@.len() implies (#[trigger] self.entries@[i2]).0@ != (
            #[trigger] self.entries@[j2]).0@ by {
                if j2 == self.entries@.len() - 1 {
                    assert(self.entries@[i2] == old_entries[i2]);
                }
            }
            assert forall|j: int| 0 <= j < v0.len() implies (#[trigger] v0[j]).0 != key@ by {
                assert(v0[j].0 == old_entries[j].0@);
            }
            lemma_view_key_index_absent(v0, key@);
            assert(self.entries@.last().1@ =~= seq![value]);
            assert(entries_view(self.entries@) =~= spec_bind_value(v0, key@, value));
        }
    }

    /// Binds one row of positional parameters: the value at position
    /// `k`, counting from zero, is appended under the decimal key
    /// `k + 1`, so a row bound after earlier rows extends each
    /// position's column (a batched insert).
    pub fn bind_row(&mut self, params: Vec<CellValue>)
        requires
            old(self).wf(),
            params@.len() < usize::MAX,
        ensures
            final(self).wf(),
            entries_view(final(self).entries@) == spec_bind_all(
                entries_view(old(self).entries@),
                positional_pairs(params@),
            ),
    {
        let ghost all = params@;
        let ghost v0 = entries_view(self.entries@);
        let ghost pairs = positional_pairs(all);
        let mut params = params;
        let mut k: usize = 0;
        while params.len() > 0
            invariant
                self.wf(),
                k + params@.len() == all.len(),
                all.len() < usize::MAX,
                params@ =~= all.skip(k as int),
                pairs == positional_pairs(all),
                entries_view(self.entries@) == spec_bind_all(v0, pairs.take(k as int)),
            decreases params@.len(),
        {
            let value = params.remove(0);
            proof {
                assert(value == all[k as int]) by {
                    assert(all.skip(k as int)[0] == all[k as int]);
                }
            }
            k = k + 1;
            let key = crate::numeric::format_u128(k as u128);
            self.bind_value(key, value);
            proof {
                assert(pairs.take(k as int).drop_last() =~= pairs.take(k - 1));
                assert(pairs.take(k as int).last() == pairs[k - 1]);
                assert(entries_view(self.entries@) == spec_bind_all(v0, pairs.take(k as int)));
                assert(params@ =~= all.skip(k as int));
            }
        }
        proof {
            assert(pairs.take(all.len() as int) =~= pairs);
        }
    }

    /// Binds one row of named parameters: each pair's value is appended
    /// under its key, in the row's order.
    pub fn bind_row_named(&mut self, params: Vec<(String, CellValue)>)
        requires
            old(self).wf(),
        ensures
            final(self).wf(),
            entries_view(final(self).entries@) == spec_bind_all(
                entries_view(old(self).entries@),
                named_pairs(params@),
            ),
    {
        let ghost all = params@;
        let ghost v0 = entries_view(self.entries@);
        let ghost pairs = named_pairs(all);
        let total = params.len();
        let mut params = params;
        let mut k: usize = 0;
        while params.len() > 0
            invariant
                self.wf(),
                total == all.len(),
                k + params@.len() == total,
                params@ =~= all.skip(k as int),
                pairs == named_pairs(all),
                entries_view(self.entries@) == spec_bind_all(v0, pairs.take(k as int)),
            decreases params@.len(),
        {
            let (key, value) = params.remove(0);
            proof {
                assert((key, value) == all[k as int]) by {
                    assert(all.skip(k as int)[0] == all[k as int]);
                }
            }
            k = k + 1;
            self.bind_value(key, value);
            proof {
                assert(pairs.take(k as int).drop_last() =~= pairs.take(k - 1));
                assert(pairs.take(k as int).last() == pairs[k - 1]);
                assert(entries_view(self.entries@) == spec_bind_all(v0, pairs.take(k as int)));
                assert(params@ =~= all.skip(k as int));
            }
        }
        proof {
            assert(pairs.take(all.len() as int) =~= pairs);
        }
    }

    /// Serialises the collected bindings: one value renders as a
    /// scalar, several render as an array; every binding is tagged with
    /// the first value's type name and format hint.
    pub fn get_final_bindings(&self) -> (r: Vec<(String, Binding)>)
        requires
            self.wf(),
        ensures
            r@.len() == self.entries@.len(),
            forall|i: int|
                0 <= i < r@.len() ==> binding_matches(self.entries@[i], #[trigger] r@[i]),
    {
        let mut out: Vec<(String, Binding)> = Vec::new();
        let len = self.entries.len();
        let mut i: usize = 0;
        while i < len
            invariant
                self.wf(),
                len == self.entries@.len(),
                i <= len,
                out@.len() == i,
                forall|j: int|
                    0 <= j < i ==> binding_matches(self.entries@[j], #[trigger] out@[j]),
            decreases len - i,
        {
            let b = serialise_column(&self.entries[i].1);
            out.push((self.entries[i].0.clone(), b));
            i = i + 1;
        }
        out
    }
}

/// The serialised binding a collected column must produce.
pub open spec fn binding_matches(entry: (String, Vec<CellValue>), out: (String, Binding)) -> bool {
    &&& out.0@ == entry.0@
    &&& entry.1@.len() > 0 ==> {
        let first = entry.1@[0];
        &&& out.1.binding_type@ == spec_value_name(first)
        &&& (needs_json_format(first) ==> (out.1.format matches Some(f) && f@ == "json"@))
        &&& (!needs_json_format(first) ==> out.1.format is None)
        &&& (entry.1@.len() == 1 ==> match cell_wire_str(entry.1@[0]) {
            Some(s) => (out.1.value matches Some(BindValue::Scalar(v)) && v@ == s),
            None => out.1.value is None,
        })
        &&& (entry.1@.len() > 1 ==> (out.1.value matches Some(BindValue::Slice(vs)) && vs@.len()
            == entry.1@.len() && (forall|k: int|
            0 <= k < vs@.len() ==> match cell_wire_str(entry.1@[k]) {
                Some(s) => (#[trigger] vs@[k]) matches Some(v) && v@ == s,
                None => vs@[k] is None,
            })))
    }
}

/// Serialises one collected column into its binding.
fn serialise_column(column: &Vec<CellValue>) -> (r: Binding)
    requires
        column@.len() > 0,
    ensures
        forall|key: String| binding_matches((key, *column), (key, r)),
{
    let binding_type = String::from_str(value_to_name(&column[0]));
    let format = json_format_of(&column[0]);
    if column.len() == 1 {
        let value = match reverse_cast(&column[0]) {
            Some(s) => Some(BindValue::Scalar(s)),
            None => None,
        };
        Binding { binding_type, format, value }
    } else {
        let mut vs: Vec<Option<String>> = Vec::new();
        let len = column.len();
        let mut k: usize = 0;
        while k < len
            invariant
                len == column@.len(),
                k <= len,
                vs@.len() == k,
                forall|j: int|
                    0 <= j < k ==> match cell_wire_str(column@[j]) {
                        Some(s) => (#[trigger] vs@[j]) matches Some(v) && v@ == s,
                        None => vs@[j] is None,
                    },
            decreases len - k,
        {
            let rendered = reverse_cast(&column[k]);
            vs.push(rendered);
            k = k + 1;
        }
        Binding { binding_type, format, value: Some(BindValue::Slice(vs)) }
    }
}

/// When the scan finds `key` at position `i`, that is its index.
proof fn lemma_view_key_index_found(v: Seq<(Seq<char>, Seq<CellValue>)>, key: Seq<char>, i: int)
    requires
        0 <= i < v.len(),
        v[i].0 == key,
        forall|j: int| 0 <= j < i ==> (#[trigger] v[j]).0 != key,
    ensures
        view_key_index(v, key) == i,
    decreases i,
{
    if i > 0 {
        assert(v[0].0 != key);
        lemma_view_key_index_found(v.skip(1), key, i - 1);
        assert forall|j: int| 0 <= j < i - 1 implies (#[trigger] v.skip(1)[j]).0 != key by {
            assert(v.skip(1)[j] == v[j + 1]);
        }
    }
}

/// When no entry holds `key`, its index is the length.
proof fn lemma_view_key_index_absent(v: Seq<(Seq<char>, Seq<CellValue>)>, key: Seq<char>)
    requires
        forall|j: int| 0 <= j < v.len() ==> (#[trigger] v[j]).0 != key,
    ensures
        view_key_index(v, key) == v.len(),
    decreases v.len(),
{
    if v.len() > 0 {
        lemma_view_key_index_absent(v.skip(1), key);
        assert forall|j: int|
            0 <= j < v.skip(1).len() implies (#[trigger] v.skip(1)[j]).0 != key by {
            assert(v.skip(1)[j] == v[j + 1]);
        }
    }
}

} // verus!
