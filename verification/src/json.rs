//! A generic JSON tree value and its mathematical model.
//!
//! Responses arrive as one JSON document; requests carry one JSON payload.
//! Both are handled as trees of [`Json`] values, whose ghost counterpart
//! [`JsonVal`] (sequences in place of vectors) is what every contract in the
//! crate speaks about. Numbers are kept as their decimal literal text: this
//! layer never does arithmetic on payload numbers, it only parses the few
//! unsigned integer fields of the envelope and passes everything else
//! through byte-for-byte.

use vstd::prelude::*;

use crate::percent::spec_hex_digit;

verus! {

/// The mathematical model of a JSON value.
#[verifier::ext_equal]
pub enum JsonVal {
    /// `null`, also the default for an absent optional field.
    Null,
    /// `true` or `false`.
    Bool(bool),
    /// A number, as the bytes of its literal.
    Num(Seq<u8>),
    /// A string, as its unescaped UTF-8 bytes.
    Str(Seq<u8>),
    /// An array, in document order.
    Arr(Seq<JsonVal>),
    /// An object, as key/value pairs in document order.
    Obj(Seq<(Seq<u8>, JsonVal)>),
}

/// A JSON value: the executable tree the codec consumes and produces.
#[derive(Debug, PartialEq, Eq)]
pub enum Json {
    /// `null`, also the default for an absent optional field.
    Null,
    /// `true` or `false`.
    Bool(bool),
    /// A number, as the bytes of its decimal literal.
    Num(Vec<u8>),
    /// A string, as its unescaped UTF-8 bytes.
    Str(Vec<u8>),
    /// An array, in document order.
    Arr(Vec<Json>),
    /// An object, as key/value pairs in document order.
    Obj(Vec<(Vec<u8>, Json)>),
}

/// The model of a JSON tree: vectors become sequences, recursively.
pub open spec fn spec_json_view(j: Json) -> JsonVal
    decreases j,
{
    match j {
        Json::Null => JsonVal::Null,
        Json::Bool(b) => JsonVal::Bool(b),
        Json::Num(t) => JsonVal::Num(t@),
        Json::Str(s) => JsonVal::Str(s@),
        Json::Arr(v) => JsonVal::Arr(spec_arr_view(v@)),
        Json::Obj(fs) => JsonVal::Obj(spec_obj_view(fs@)),
    }
}

/// The models of the elements of an array.
pub open spec fn spec_arr_view(v: Seq<Json>) -> Seq<JsonVal>
    decreases v,
{
    if v.len() == 0 {
        Seq::empty()
    } else {
        seq![spec_json_view(v[0])] + spec_arr_view(v.drop_first())
    }
}

/// The models of the fields of an object.
pub open spec fn spec_obj_view(fs: Seq<(Vec<u8>, Json)>) -> Seq<(Seq<u8>, JsonVal)>
    decreases fs,
{
    if fs.len() == 0 {
        Seq::empty()
    } else {
        seq![(fs[0].0@, spec_json_view(fs[0].1))] + spec_obj_view(fs.drop_first())
    }
}

impl View for Json {
    type V = JsonVal;

    open spec fn view(&self) -> JsonVal {
        spec_json_view(*self)
    }
}

/// An array's model has one element per element, the element's model.
pub proof fn lemma_arr_view(v: Seq<Json>)
    ensures
        spec_arr_view(v).len() == v.len(),
        forall|i: int| 0 <= i < v.len() ==> #[trigger] spec_arr_view(v)[i] == spec_json_view(v[i]),
    decreases v.len(),
{
    if v.len() > 0 {
        lemma_arr_view(v.drop_first());
        assert forall|i: int| 0 <= i < v.len() implies #[trigger] spec_arr_view(v)[i]
            == spec_json_view(v[i]) by {
            if i > 0 {
                assert(spec_arr_view(v)[i] == spec_arr_view(v.drop_first())[i - 1]);
                assert(v.drop_first()[i - 1] == v[i]);
            }
        }
    }
}

/// An object's model has one pair per field: the key's bytes and the value's
/// model.
pub proof fn lemma_obj_view(fs: Seq<(Vec<u8>, Json)>)
    ensures
        spec_obj_view(fs).len() == fs.len(),
        forall|i: int|
            0 <= i < fs.len() ==> #[trigger] spec_obj_view(fs)[i] == (
            fs[i].0@,
            spec_json_view(fs[i].1),
            ),
    decreases fs.len(),
{
    if fs.len() > 0 {
        lemma_obj_view(fs.drop_first());
        assert forall|i: int| 0 <= i < fs.len() implies #[trigger] spec_obj_view(fs)[i] == (
        fs[i].0@,
        spec_json_view(fs[i].1),
        ) by {
            if i > 0 {
                assert(spec_obj_view(fs)[i] == spec_obj_view(fs.drop_first())[i - 1]);
                assert(fs.drop_first()[i - 1] == fs[i]);
            }
        }
    }
}

/// A fresh copy of a byte string.
pub(crate) fn clone_bytes(v: &Vec<u8>) -> (r: Vec<u8>)
    ensures
        r@ == v@,
{
    let mut out: Vec<u8> = Vec::new();
    let mut i: usize = 0;
    while i < v.len()
        invariant
            i <= v@.len(),
            out@ == v@.subrange(0, i as int),
        decreases v@.len() - i,
    {
        out.push(v[i]);
        i = i + 1;
        assert(out@ =~= v@.subrange(0, i as int));
    }
    assert(out@ =~= v@);
    out
}

/// A fresh copy of a JSON tree, with the same model.
pub fn clone_json(j: &Json) -> (r: Json)
    ensures
        r@ == j@,
    decreases *j,
{
    match j {
        Json::Null => Json::Null,
        Json::Bool(b) => Json::Bool(*b),
        Json::Num(t) => Json::Num(clone_bytes(t)),
        Json::Str(s) => Json::Str(clone_bytes(s)),
        Json::Arr(v) => {
            let mut out: Vec<Json> = Vec::new();
            let mut i: usize = 0;
            #[verifier::loop_isolation(false)]
            while i < v.len()
                invariant
                    i <= v@.len(),
                    out@.len() == i,
                    forall|k: int| 0 <= k < i ==> #[trigger] out@[k]@ == v@[k]@,
                decreases v@.len() - i,
            {
                let c = clone_json(&v[i]);
                out.push(c);
                i = i + 1;
            }
            proof {
                lemma_arr_view_congruent(out@, v@);
            }
            Json::Arr(out)
        },
        Json::Obj(fs) => {
            let mut out: Vec<(Vec<u8>, Json)> = Vec::new();
            let mut i: usize = 0;
            #[verifier::loop_isolation(false)]
            while i < fs.len()
                invariant
                    i <= fs@.len(),
                    out@.len() == i,
                    forall|k: int|
                        0 <= k < i ==> (#[trigger] out@[k]).0@ == fs@[k].0@ && out@[k].1@
                            == fs@[k].1@,
                decreases fs@.len() - i,
            {
                let key = clone_bytes(&fs[i].0);
                let val = clone_json(&fs[i].1);
                out.push((key, val));
                i = i + 1;
            }
            proof {
                lemma_obj_view_congruent(out@, fs@);
            }
            Json::Obj(out)
        },
    }
}

impl Clone for Json {
    /// A deep copy: the clone has the same model as the original.
    fn clone(&self) -> (r: Self)
        ensures
            r@ == self@,
    {
        clone_json(self)
    }
}

/// Arrays whose elements have equal models have equal models.
proof fn lemma_arr_view_congruent(a: Seq<Json>, b: Seq<Json>)
    requires
        a.len() == b.len(),
        forall|k: int| 0 <= k < a.len() ==> #[trigger] a[k]@ == b[k]@,
    ensures
        spec_arr_view(a) == spec_arr_view(b),
{
    lemma_arr_view(a);
    lemma_arr_view(b);
    assert forall|i: int| 0 <= i < a.len() implies spec_arr_view(a)[i] == spec_arr_view(b)[i] by {
        assert(a[i]@ == b[i]@);
    }
    assert(spec_arr_view(a) =~= spec_arr_view(b));
}

/// Objects whose keys and values have equal models have equal models.
proof fn lemma_obj_view_congruent(a: Seq<(Vec<u8>, Json)>, b: Seq<(Vec<u8>, Json)>)
    requires
        a.len() == b.len(),
        forall|k: int| 0 <= k < a.len() ==> (#[trigger] a[k]).0@ == b[k].0@ && a[k].1@ == b[k].1@,
    ensures
        spec_obj_view(a) == spec_obj_view(b),
{
    lemma_obj_view(a);
    lemma_obj_view(b);
    assert forall|i: int| 0 <= i < a.len() implies spec_obj_view(a)[i] == spec_obj_view(b)[i] by {
        assert(a[i].0@ == b[i].0@ && a[i].1@ == b[i].1@);
    }
    assert(spec_obj_view(a) =~= spec_obj_view(b));
}

/// The value of the first field of `fields` whose key is the one-byte string
/// `key`; every key of the wire envelope is a single ASCII letter.
pub open spec fn spec_lookup(fields: Seq<(Seq<u8>, JsonVal)>, key: u8) -> Option<JsonVal>
    decreases fields.len(),
{
    if fields.len() == 0 {
        None
    } else if fields[0].0 == seq![key] {
        Some(fields[0].1)
    } else {
        spec_lookup(fields.drop_first(), key)
    }
}

impl Json {
    /// Looks up the single-byte key `key` if this value is an object:
    /// exactly [`spec_lookup`] on the object's model, `None` on any other
    /// kind of value.
    pub fn get(&self, key: u8) -> (r: Option<&Json>)
        ensures
            match self@ {
                JsonVal::Obj(fields) => match spec_lookup(fields, key) {
                    Some(v) => r matches Some(x) && x@ == v,
                    None => r is None,
                },
                _ => r is None,
            },
    {
        match self {
            Json::Obj(fs) => {
                let ghost fields = spec_obj_view(fs@);
                proof {
                    lemma_obj_view(fs@);
                    assert(fields.skip(0) =~= fields);
                }
                let mut i: usize = 0;
                while i < fs.len()
                    invariant
                        i <= fs@.len(),
                        fields == spec_obj_view(fs@),
                        self@ == JsonVal::Obj(fields),
                        fields.len() == fs@.len(),
                        forall|k: int|
                            0 <= k < fs@.len() ==> (#[trigger] fields[k]) == (
                            fs@[k].0@,
                            spec_json_view(fs@[k].1),
                            ),
                        spec_lookup(fields, key) == spec_lookup(fields.skip(i as int), key),
                    decreases fs@.len() - i,
                {
                    let ghost tail = fields.skip(i as int);
                    assert(tail[0] == fields[i as int]);
                    if fs[i].0.len() == 1 && fs[i].0[0] == key {
                        proof {
                            assert(fs@[i as int].0@ =~= seq![key]);
                            assert(fields[i as int] == (fs@[i as int].0@, spec_json_view(
                                fs@[i as int].1,
                            )));
                            assert(spec_lookup(tail, key) == Some(fields[i as int].1));
                            assert(self@ == JsonVal::Obj(fields));
                        }
                        return Some(&fs[i].1);
                    }
                    proof {
                        assert(fields[i as int].0 == fs@[i as int].0@);
                        if fs@[i as int].0@.len() == 1 {
                            assert(fs@[i as int].0@[0] != key);
                            assert(fs@[i as int].0@ != seq![key]);
                        } else {
                            assert(fs@[i as int].0@ != seq![key]);
                        }
                        assert(tail.drop_first() =~= fields.skip(i as int + 1));
                    }
                    i = i + 1;
                }
                proof {
                    assert(fields.skip(i as int) =~= Seq::<(Seq<u8>, JsonVal)>::empty());
                }
                None
            },
            _ => None,
        }
    }
}

/// How one byte of a string is written inside a JSON string literal: quote
/// and backslash get a backslash escape, control bytes a `\u00XX` escape,
/// every other byte stands for itself.
pub open spec fn spec_escape_byte(b: u8) -> Seq<u8> {
    if b == 0x22 {
        seq![0x5Cu8, 0x22u8]
    } else if b == 0x5C {
        seq![0x5Cu8, 0x5Cu8]
    } else if b < 0x20 {
        seq![0x5Cu8, 0x75u8, 0x30u8, 0x30u8, spec_hex_digit(b as int / 16), spec_hex_digit(
            b as int % 16,
        )]
    } else {
        seq![b]
    }
}

/// The escaped form of a string's bytes.
pub open spec fn spec_escape(s: Seq<u8>) -> Seq<u8>
    decreases s.len(),
{
    if s.len() == 0 {
        Seq::empty()
    } else {
        spec_escape_byte(s[0]) + spec_escape(s.drop_first())
    }
}

/// A JSON string literal: the escaped bytes between double quotes.
pub open spec fn spec_quoted(s: Seq<u8>) -> Seq<u8> {
    seq![0x22u8] + spec_escape(s) + seq![0x22u8]
}

/// The compact (no whitespace) JSON text of a value.
pub open spec fn spec_json_bytes(v: JsonVal) -> Seq<u8>
    decreases v, 0nat,
{
    match v {
        JsonVal::Null => seq![0x6Eu8, 0x75u8, 0x6Cu8, 0x6Cu8],
        JsonVal::Bool(b) => if b {
            seq![0x74u8, 0x72u8, 0x75u8, 0x65u8]
        } else {
            seq![0x66u8, 0x61u8, 0x6Cu8, 0x73u8, 0x65u8]
        },
        JsonVal::Num(t) => t,
        JsonVal::Str(s) => spec_quoted(s),
        JsonVal::Arr(items) => seq![0x5Bu8] + spec_items_bytes(items) + seq![0x5Du8],
        JsonVal::Obj(fields) => seq![0x7Bu8] + spec_fields_bytes(fields) + seq![0x7Du8],
    }
}

/// The comma-joined compact texts of an array's elements.
pub open spec fn spec_items_bytes(items: Seq<JsonVal>) -> Seq<u8>
    decreases items, 1nat,
{
    if items.len() == 0 {
        Seq::empty()
    } else if items.len() == 1 {
        spec_json_bytes(items[0])
    } else {
        spec_json_bytes(items[0]) + seq![0x2Cu8] + spec_items_bytes(items.drop_first())
    }
}

/// The comma-joined compact texts of an object's fields, each a quoted key,
/// a colon and the value.
pub open spec fn spec_fields_bytes(fields: Seq<(Seq<u8>, JsonVal)>) -> Seq<u8>
    decreases fields, 1nat,
{
    if fields.len() == 0 {
        Seq::empty()
    } else if fields.len() == 1 {
        spec_quoted(fields[0].0) + seq![0x3Au8] + spec_json_bytes(fields[0].1)
    } else {
        spec_quoted(fields[0].0) + seq![0x3Au8] + spec_json_bytes(fields[0].1) + seq![0x2Cu8]
            + spec_fields_bytes(fields.drop_first())
    }
}

/// The uppercase ASCII hex digit byte for a value below 16.
fn hex_digit(n: u8) -> (r: u8)
    requires
        n < 16,
    ensures
        r == spec_hex_digit(n as int),
{
    if n < 10 {
        0x30 + n
    } else {
        0x41 + (n - 10)
    }
}

/// Appends the escaped form of `s[i..]` to `out`.
fn push_escaped_from(s: &Vec<u8>, i: usize, out: &mut Vec<u8>)
    requires
        i <= s@.len(),
    ensures
        final(out)@ == old(out)@ + spec_escape(s@.skip(i as int)),
    decreases s@.len() - i,
{
    let ghost tail = s@.skip(i as int);
    if i == s.len() {
        assert(tail =~= Seq::<u8>::empty());
        assert(out@ =~= out@ + spec_escape(tail));
        return ;
    }
    assert(tail[0] == s@[i as int]);
    let ghost pre = out@;
    let b = s[i];
    if b == 0x22 {
        out.push(0x5C);
        out.push(0x22);
    } else if b == 0x5C {
        out.push(0x5C);
        out.push(0x5C);
    } else if b < 0x20 {
        out.push(0x5C);
        out.push(0x75);
        out.push(0x30);
        out.push(0x30);
        out.push(hex_digit(b / 16));
        out.push(hex_digit(b % 16));
    } else {
        out.push(b);
    }
    assert(out@ =~= pre + spec_escape_byte(b));
    proof {
        assert(tail.drop_first() =~= s@.skip(i as int + 1));
    }
    push_escaped_from(s, i + 1, out);
    proof {
        assert(pre + spec_escape_byte(b) + spec_escape(tail.drop_first()) =~= pre + spec_escape(
            tail,
        ));
    }
}

/// Appends the compact JSON text of `j` to `out`.
fn push_json(j: &Json, out: &mut Vec<u8>)
    ensures
        final(out)@ == old(out)@ + spec_json_bytes(j@),
    decreases *j, 0nat,
{
    let ghost pre = out@;
    match j {
        Json::Null => {
            out.push(0x6E);
            out.push(0x75);
            out.push(0x6C);
            out.push(0x6C);
            assert(out@ =~= pre + spec_json_bytes(j@));
        },
        Json::Bool(b) => {
            if *b {
                out.push(0x74);
                out.push(0x72);
                out.push(0x75);
                out.push(0x65);
            } else {
                out.push(0x66);
                out.push(0x61);
                out.push(0x6C);
                out.push(0x73);
                out.push(0x65);
            }
            assert(out@ =~= pre + spec_json_bytes(j@));
        },
        Json::Num(t) => {
            let mut c = clone_bytes(t);
            out.append(&mut c);
        },
        Json::Str(s) => {
            out.push(0x22);
            proof {
                assert(s@.skip(0) =~= s@);
            }
            push_escaped_from(s, 0, out);
            out.push(0x22);
            assert(out@ =~= pre + spec_quoted(s@));
        },
        Json::Arr(v) => {
            out.push(0x5B);
            proof {
                assert(spec_arr_view(v@).skip(0) =~= spec_arr_view(v@));
            }
            push_items(v, 0, out);
            out.push(0x5D);
            assert(out@ =~= pre + spec_json_bytes(j@));
        },
        Json::Obj(fs) => {
            out.push(0x7B);
            proof {
                assert(spec_obj_view(fs@).skip(0) =~= spec_obj_view(fs@));
            }
            push_fields(fs, 0, out);
            out.push(0x7D);
            assert(out@ =~= pre + spec_json_bytes(j@));
        },
    }
}

/// Appends the comma-joined texts of `v[i..]` to `out`.
fn push_items(v: &Vec<Json>, i: usize, out: &mut Vec<u8>)
    requires
        i <= v@.len(),
    ensures
        final(out)@ == old(out)@ + spec_items_bytes(spec_arr_view(v@).skip(i as int)),
    decreases *v, v@.len() - i,
{
    proof {
        lemma_arr_view(v@);
    }
    let ghost items = spec_arr_view(v@).skip(i as int);
    if i == v.len() {
        assert(items =~= Seq::<JsonVal>::empty());
        assert(out@ =~= out@ + spec_items_bytes(items));
        return ;
    }
    assert(items[0] == spec_arr_view(v@)[i as int]);
    let ghost pre = out@;
    push_json(&v[i], out);
    if i + 1 < v.len() {
        out.push(0x2C);
        proof {
            assert(items.drop_first() =~= spec_arr_view(v@).skip(i as int + 1));
        }
        push_items(v, i + 1, out);
        proof {
            assert(items.len() >= 2);
            assert(out@ =~= pre + (spec_json_bytes(items[0]) + seq![0x2Cu8] + spec_items_bytes(
                items.drop_first(),
            )));
        }
    } else {
        proof {
            assert(items.len() == 1);
            assert(out@ =~= pre + spec_items_bytes(items));
        }
    }
}

/// Appends the comma-joined texts of the fields `fs[i..]` to `out`.
fn push_fields(fs: &Vec<(Vec<u8>, Json)>, i: usize, out: &mut Vec<u8>)
    requires
        i <= fs@.len(),
    ensures
        final(out)@ == old(out)@ + spec_fields_bytes(spec_obj_view(fs@).skip(i as int)),
    decreases *fs, fs@.len() - i,
{
    proof {
        lemma_obj_view(fs@);
    }
    let ghost fields = spec_obj_view(fs@).skip(i as int);
    if i == fs.len() {
        assert(fields =~= Seq::<(Seq<u8>, JsonVal)>::empty());
        assert(out@ =~= out@ + spec_fields_bytes(fields));
        return ;
    }
    assert(fields[0] == spec_obj_view(fs@)[i as int]);
    let ghost pre = out@;
    out.push(0x22);
    proof {
        assert(fs@[i as int].0@.skip(0) =~= fs@[i as int].0@);
    }
    push_escaped_from(&fs[i].0, 0, out);
    out.push(0x22);
    out.push(0x3A);
    assert(out@ =~= pre + spec_quoted(fields[0].0) + seq![0x3Au8]);
    push_json(&fs[i].1, out);
    assert(out@ =~= pre + (spec_quoted(fields[0].0) + seq![0x3Au8] + spec_json_bytes(
        fields[0].1,
    )));
    if i + 1 < fs.len() {
        out.push(0x2C);
        proof {
            assert(fields.drop_first() =~= spec_obj_view(fs@).skip(i as int + 1));
        }
        push_fields(fs, i + 1, out);
        proof {
            assert(fields.len() >= 2);
            assert(out@ =~= pre + (spec_quoted(fields[0].0) + seq![0x3Au8] + spec_json_bytes(
                fields[0].1,
            ) + seq![0x2Cu8] + spec_fields_bytes(fields.drop_first())));
        }
    } else {
        proof {
            assert(fields.len() == 1);
            assert(out@ =~= pre + spec_fields_bytes(fields));
        }
    }
}

/// The compact JSON text of `j`, as embedded literally in a publish path.
pub fn json_to_bytes(j: &Json) -> (r: Vec<u8>)
    ensures
        r@ == spec_json_bytes(j@),
{
    let mut out: Vec<u8> = Vec::new();
    push_json(j, &mut out);
    assert(out@ =~= spec_json_bytes(j@));
    out
}

} // verus!
