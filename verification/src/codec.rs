use vstd::prelude::*;

verus! {

use crate::errors::GremlinError;
use crate::gid::{GIDV, GID};
use crate::json::{arr_view, json_view, lemma_arr_view, lemma_obj_view, obj_view, Json, JsonV};
use crate::strutil::str_eq;
use crate::structure::{VertexPropertyV, VertexProperty};
use crate::value::{
    entries_view, gvalue_view, gvalues_view, lemma_entries_view, lemma_gvalues_view, GValue,
    GValueV,
};

broadcast use vstd::seq::group_seq_axioms, vstd::std_specs::vec::group_vec_axioms;

/// The self-describing envelope every typed wire value sits in: an object
/// with exactly a `@type` tag and a `@value` payload, in that order.
pub open spec fn typed_obj(t: Seq<char>, val: JsonV) -> JsonV {
    JsonV::Obj(seq![("@type"@, JsonV::Str(t)), ("@value"@, val)])
}

/// The digit index within the 32 hex digits for position `p` of the
/// 36-character rendering, skipping the four hyphens.
pub open spec fn uuid_digit_index(p: int) -> int {
    if p <= 8 {
        p
    } else if p <= 13 {
        p - 1
    } else if p <= 18 {
        p - 2
    } else if p <= 23 {
        p - 3
    } else {
        p - 4
    }
}

/// The `h`-th hex digit of `u`, most significant first.
pub open spec fn uuid_nibble(u: u128, h: int) -> u128 {
    (u >> ((4 * (31 - h)) as u32)) & 0xf
}

/// The lower-case hex character for a digit in `0 .. 16`.
pub open spec fn hex_char_of(nib: u128) -> char {
    if nib == 0 {
        '0'
    } else if nib == 1 {
        '1'
    } else if nib == 2 {
        '2'
    } else if nib == 3 {
        '3'
    } else if nib == 4 {
        '4'
    } else if nib == 5 {
        '5'
    } else if nib == 6 {
        '6'
    } else if nib == 7 {
        '7'
    } else if nib == 8 {
        '8'
    } else if nib == 9 {
        '9'
    } else if nib == 10 {
        'a'
    } else if nib == 11 {
        'b'
    } else if nib == 12 {
        'c'
    } else if nib == 13 {
        'd'
    } else if nib == 14 {
        'e'
    } else {
        'f'
    }
}

/// The canonical 36-character rendering of a 128-bit identifier: 32
/// lower-case hex digits in five groups separated by hyphens.
pub open spec fn uuid_chars(u: u128) -> Seq<char> {
    Seq::new(
        36,
        |p: int|
            if p == 8 || p == 13 || p == 18 || p == 23 {
                '-'
            } else {
                hex_char_of(uuid_nibble(u, uuid_digit_index(p)))
            },
    )
}

/// How a value is laid out on the wire: scalars and entities inside a
/// `@type`/`@value` envelope, strings as bare JSON strings, lists and
/// maps with their contents encoded recursively (a map as a flat
/// alternation of keys and values).
pub open spec fn spec_encode(v: GValueV) -> JsonV
    decreases v,
{
    match v {
        GValueV::Int32(n) => typed_obj("g:Int32"@, JsonV::Int(n as i64)),
        GValueV::Int64(n) => typed_obj("g:Int64"@, JsonV::Int(n)),
        GValueV::Str(s) => JsonV::Str(s),
        GValueV::Date(ms) => typed_obj("g:Date"@, JsonV::Int(ms)),
        GValueV::Uuid(u) => typed_obj("g:UUID"@, JsonV::Str(uuid_chars(u))),
        GValueV::List(items) => typed_obj("g:List"@, JsonV::Arr(spec_encode_seq(items))),
        GValueV::Mapping(entries) => typed_obj("g:Map"@, JsonV::Arr(spec_encode_flat(entries))),
        GValueV::Vertex(x) => typed_obj(
            "g:Vertex"@,
            JsonV::Obj(
                seq![
                    ("id"@, spec_encode_gid(x.id)),
                    ("label"@, JsonV::Str(x.label)),
                    ("properties"@, JsonV::Obj(spec_encode_props(x.properties))),
                ],
            ),
        ),
        GValueV::Edge(e) => typed_obj(
            "g:Edge"@,
            JsonV::Obj(
                seq![
                    ("id"@, spec_encode_gid(e.id)),
                    ("label"@, JsonV::Str(e.label)),
                    ("inV"@, spec_encode_gid(e.in_v)),
                    ("outV"@, spec_encode_gid(e.out_v)),
                ],
            ),
        ),
        GValueV::VertexProperty(p) => spec_encode_vp(p),
        GValueV::Property(p) => typed_obj(
            "g:Property"@,
            JsonV::Obj(seq![("key"@, JsonV::Str(p.label)), ("value"@, spec_encode(*p.value))]),
        ),
        GValueV::Path(objs) => typed_obj(
            "g:Path"@,
            JsonV::Obj(seq![("objects"@, JsonV::Arr(spec_encode_seq(objs)))]),
        ),
    }
}

/// How one vertex property is laid out on the wire.
pub open spec fn spec_encode_vp(p: VertexPropertyV) -> JsonV
    decreases p,
{
    typed_obj(
        "g:VertexProperty"@,
        JsonV::Obj(
            seq![
                ("id"@, spec_encode_gid(p.id)),
                ("label"@, JsonV::Str(p.label)),
                ("value"@, spec_encode(*p.value)),
            ],
        ),
    )
}

/// How an identifier is laid out on the wire: by the native width of its
/// variant.
pub open spec fn spec_encode_gid(g: GIDV) -> JsonV {
    match g {
        GIDV::Int32(n) => typed_obj("g:Int32"@, JsonV::Int(n as i64)),
        GIDV::Int64(n) => typed_obj("g:Int64"@, JsonV::Int(n)),
        GIDV::Str(s) => JsonV::Str(s),
    }
}

/// Encoded list elements, in order.
pub open spec fn spec_encode_seq(s: Seq<GValueV>) -> Seq<JsonV>
    decreases s,
{
    if s.len() == 0 {
        Seq::empty()
    } else {
        seq![spec_encode(s[0])] + spec_encode_seq(s.drop_first())
    }
}

/// Encoded map entries, flattened into an alternation of keys and
/// values.
pub open spec fn spec_encode_flat(s: Seq<(Seq<char>, GValueV)>) -> Seq<JsonV>
    decreases s,
{
    if s.len() == 0 {
        Seq::empty()
    } else {
        seq![JsonV::Str(s[0].0), spec_encode(s[0].1)] + spec_encode_flat(s.drop_first())
    }
}

/// Encoded vertex property entries: each key mapped to the array of its
/// encoded properties.
pub open spec fn spec_encode_props(s: Seq<(Seq<char>, Seq<VertexPropertyV>)>) -> Seq<
    (Seq<char>, JsonV),
>
    decreases s,
{
    if s.len() == 0 {
        Seq::empty()
    } else {
        seq![(s[0].0, JsonV::Arr(spec_encode_vps(s[0].1)))] + spec_encode_props(s.drop_first())
    }
}

/// Encoded vertex properties, in order.
pub open spec fn spec_encode_vps(s: Seq<VertexPropertyV>) -> Seq<JsonV>
    decreases s,
{
    if s.len() == 0 {
        Seq::empty()
    } else {
        seq![spec_encode_vp(s[0])] + spec_encode_vps(s.drop_first())
    }
}

/// `spec_encode_seq` maps the sequence element by element.
pub proof fn lemma_spec_encode_seq(s: Seq<GValueV>)
    ensures
        spec_encode_seq(s).len() == s.len(),
        forall|i: int| 0 <= i < s.len() ==> spec_encode_seq(s)[i] == spec_encode(s[i]),
    decreases s.len(),
{
    if s.len() > 0 {
        lemma_spec_encode_seq(s.drop_first());
    }
}

/// `spec_encode_flat` lays key and value of entry `i` at `2 * i` and
/// `2 * i + 1`.
pub proof fn lemma_spec_encode_flat(s: Seq<(Seq<char>, GValueV)>)
    ensures
        spec_encode_flat(s).len() == 2 * s.len(),
        forall|i: int|
            0 <= i < s.len() ==> spec_encode_flat(s)[2 * i] == JsonV::Str(s[i].0)
                && spec_encode_flat(s)[2 * i + 1] == spec_encode(s[i].1),
    decreases s.len(),
{
    if s.len() > 0 {
        lemma_spec_encode_flat(s.drop_first());
        let f = spec_encode_flat(s);
        let rest = spec_encode_flat(s.drop_first());
        assert(f == seq![JsonV::Str(s[0].0), spec_encode(s[0].1)] + rest);
        assert forall|i: int|
            0 <= i < s.len() implies f[2 * i] == JsonV::Str(s[i].0) && f[2 * i + 1]
            == spec_encode(s[i].1) by {
            if i > 0 {
                assert(s.drop_first()[i - 1] == s[i]);
                assert(f[2 * i] == rest[2 * (i - 1)]);
                assert(f[2 * i + 1] == rest[2 * (i - 1) + 1]);
            }
        }
    }
}

/// `spec_encode_props` maps the entries element by element.
pub proof fn lemma_spec_encode_props(s: Seq<(Seq<char>, Seq<VertexPropertyV>)>)
    ensures
        spec_encode_props(s).len() == s.len(),
        forall|i: int|
            0 <= i < s.len() ==> spec_encode_props(s)[i] == (
                s[i].0,
                JsonV::Arr(spec_encode_vps(s[i].1)),
            ),
    decreases s.len(),
{
    if s.len() > 0 {
        lemma_spec_encode_props(s.drop_first());
    }
}

/// `spec_encode_vps` maps the sequence element by element.
pub proof fn lemma_spec_encode_vps(s: Seq<VertexPropertyV>)
    ensures
        spec_encode_vps(s).len() == s.len(),
        forall|i: int| 0 <= i < s.len() ==> spec_encode_vps(s)[i] == spec_encode_vp(s[i]),
    decreases s.len(),
{
    if s.len() > 0 {
        lemma_spec_encode_vps(s.drop_first());
    }
}

/// Wraps `val` in the `@type`/`@value` envelope with tag `t`.
fn typed(t: &str, val: Json) -> (j: Json)
    ensures
        j@ == typed_obj(t@, val@),
{
    let mut o: Vec<(String, Json)> = Vec::new();
    o.push(("@type".to_owned(), Json::Str(t.to_owned())));
    o.push(("@value".to_owned(), val));
    proof {
        lemma_obj_view(o@);
        assert(obj_view(o@) =~= seq![("@type"@, JsonV::Str(t@)), ("@value"@, val@)]);
    }
    Json::Obj(o)
}

/// The canonical text of a 128-bit identifier: exactly `uuid_chars`.
pub fn uuid_to_string(u: u128) -> (s: String)
    ensures
        s@ == uuid_chars(u),
{
    let mut s = String::new();
    let mut p: usize = 0;
    let mut h: u32 = 0;
    while p < 36
        invariant
            0 <= p <= 36,
            h == uuid_digit_index(p as int),
            s@ =~= uuid_chars(u).take(p as int),
        decreases 36 - p,
    {
        if p == 8 || p == 13 || p == 18 || p == 23 {
            s.append("-");
            proof {
                reveal_strlit("-");
                assert(uuid_chars(u)[p as int] == '-');
            }
        } else {
            let sh: u32 = 4 * (31 - h);
            let nib: u128 = (u >> sh) & 0xf;
            proof {
                assert(nib == uuid_nibble(u, uuid_digit_index(p as int)));
            }
            if nib == 0 {
                s.append("0");
                proof {
                    reveal_strlit("0");
                }
            } else if nib == 1 {
                s.append("1");
                proof {
                    reveal_strlit("1");
                }
            } else if nib == 2 {
                s.append("2");
                proof {
                    reveal_strlit("2");
                }
            } else if nib == 3 {
                s.append("3");
                proof {
                    reveal_strlit("3");
                }
            } else if nib == 4 {
                s.append("4");
                proof {
                    reveal_strlit("4");
                }
            } else if nib == 5 {
                s.append("5");
                proof {
                    reveal_strlit("5");
                }
            } else if nib == 6 {
                s.append("6");
                proof {
                    reveal_strlit("6");
                }
            } else if nib == 7 {
                s.append("7");
                proof {
                    reveal_strlit("7");
                }
            } else if nib == 8 {
                s.append("8");
                proof {
                    reveal_strlit("8");
                }
            } else if nib == 9 {
                s.append("9");
                proof {
                    reveal_strlit("9");
                }
            } else if nib == 10 {
                s.append("a");
                proof {
                    reveal_strlit("a");
                }
            } else if nib == 11 {
                s.append("b");
                proof {
                    reveal_strlit("b");
                }
            } else if nib == 12 {
                s.append("c");
                proof {
                    reveal_strlit("c");
                }
            } else if nib == 13 {
                s.append("d");
                proof {
                    reveal_strlit("d");
                }
            } else if nib == 14 {
                s.append("e");
                proof {
                    reveal_strlit("e");
                }
            } else {
                s.append("f");
                proof {
                    reveal_strlit("f");
                    assert(nib == 15) by (bit_vector)
                        requires
                            nib == (u >> sh) & 0xf && nib != 0 && nib != 1 && nib != 2 && nib != 3
                                && nib != 4 && nib != 5 && nib != 6 && nib != 7 && nib != 8 && nib
                                != 9 && nib != 10 && nib != 11 && nib != 12 && nib != 13 && nib
                                != 14,
                    ;
                }
            }
            proof {
                assert(uuid_chars(u)[p as int] == hex_char_of(nib));
            }
            h = h + 1;
        }
        p = p + 1;
        proof {
            assert(uuid_chars(u).take(p as int) =~= uuid_chars(u).take(p - 1) + seq![
                uuid_chars(u)[p - 1],
            ]);
        }
    }
    proof {
        assert(uuid_chars(u).take(36) =~= uuid_chars(u));
    }
    s
}

/// Encodes an identifier by the native width of its variant.
pub fn encode_gid(g: &GID) -> (j: Json)
    ensures
        j@ == spec_encode_gid(g@),
{
    match g {
        GID::Int32(n) => typed("g:Int32", Json::Int(*n as i64)),
        GID::Int64(n) => typed("g:Int64", Json::Int(*n)),
        GID::String(s) => Json::Str(s.clone()),
    }
}

/// Encodes a value into its wire shape: exactly `spec_encode` of the
/// value's shape.
#[verifier::loop_isolation(false)]
#[verifier::rlimit(100)]
pub fn encode_value(v: &GValue) -> (j: Json)
    ensures
        j@ == spec_encode(v@),
    decreases *v,
{
    match v {
        GValue::Int32(n) => typed("g:Int32", Json::Int(*n as i64)),
        GValue::Int64(n) => typed("g:Int64", Json::Int(*n)),
        GValue::String(s) => Json::Str(s.clone()),
        GValue::Date(d) => typed("g:Date", Json::Int(d.0)),
        GValue::Uuid(u) => typed("g:UUID", Json::Str(uuid_to_string(u.0))),
        GValue::List(l) => {
            let items = encode_seq(&l.0);
            typed("g:List", Json::Arr(items))
        },
        GValue::Mapping(m) => encode_map(m),
        GValue::Vertex(x) => {
            let ghost pv = crate::structure::props_view(x.properties@);
            proof {
                crate::structure::lemma_props_view(x.properties@);
                lemma_spec_encode_props(pv);
            }
            let mut props: Vec<(String, Json)> = Vec::new();
            let mut i: usize = 0;
            while i < x.properties.len()
                invariant
                    0 <= i <= x.properties@.len(),
                    props@.len() == i,
                    forall|k: int|
                        0 <= k < i ==> props@[k].0@ == pv[k].0 && json_view(props@[k].1)
                            == JsonV::Arr(spec_encode_vps(pv[k].1)),
                decreases x.properties@.len() - i,
            {
                let vps = encode_vps(&x.properties[i].1);
                props.push((x.properties[i].0.clone(), Json::Arr(vps)));
                i += 1;
            }
            proof {
                lemma_obj_view(props@);
                assert(obj_view(props@) =~= spec_encode_props(pv));
            }
            let mut inner: Vec<(String, Json)> = Vec::new();
            inner.push(("id".to_owned(), encode_gid(&x.id)));
            inner.push(("label".to_owned(), Json::Str(x.label.clone())));
            inner.push(("properties".to_owned(), Json::Obj(props)));
            proof {
                lemma_obj_view(inner@);
                assert(obj_view(inner@) =~= spec_encode(v@)->Obj_0[1].1->Obj_0);
            }
            typed("g:Vertex", Json::Obj(inner))
        },
        GValue::Edge(e) => {
            let mut inner: Vec<(String, Json)> = Vec::new();
            inner.push(("id".to_owned(), encode_gid(&e.id)));
            inner.push(("label".to_owned(), Json::Str(e.label.clone())));
            inner.push(("inV".to_owned(), encode_gid(&e.in_v)));
            inner.push(("outV".to_owned(), encode_gid(&e.out_v)));
            proof {
                lemma_obj_view(inner@);
                assert(obj_view(inner@) =~= spec_encode(v@)->Obj_0[1].1->Obj_0);
            }
            typed("g:Edge", Json::Obj(inner))
        },
        GValue::VertexProperty(p) => encode_vp(p),
        GValue::Property(p) => {
            let mut inner: Vec<(String, Json)> = Vec::new();
            inner.push(("key".to_owned(), Json::Str(p.label.clone())));
            inner.push(("value".to_owned(), encode_value(&p.value)));
            proof {
                lemma_obj_view(inner@);
                assert(obj_view(inner@) =~= spec_encode(v@)->Obj_0[1].1->Obj_0);
            }
            typed("g:Property", Json::Obj(inner))
        },
        GValue::Path(p) => {
            let objs = encode_seq(&p.objects);
            let mut inner: Vec<(String, Json)> = Vec::new();
            inner.push(("objects".to_owned(), Json::Arr(objs)));
            proof {
                lemma_obj_view(inner@);
                assert(obj_view(inner@) =~= spec_encode(v@)->Obj_0[1].1->Obj_0);
            }
            typed("g:Path", Json::Obj(inner))
        },
    }
}

/// Encodes a mapping into its wire shape: the `g:Map` envelope around a
/// flat alternation of keys and encoded values, in entry order.
#[verifier::loop_isolation(false)]
pub fn encode_map(m: &crate::value::GMap) -> (j: Json)
    ensures
        j@ == typed_obj("g:Map"@, JsonV::Arr(spec_encode_flat(entries_view(m.0@)))),
    decreases *m,
{
    let ghost ev = entries_view(m.0@);
    proof {
        lemma_entries_view(m.0@);
        lemma_spec_encode_flat(ev);
    }
    let mut flat: Vec<Json> = Vec::new();
    let mut i: usize = 0;
    while i < m.0.len()
        invariant
            0 <= i <= m.0@.len(),
            flat@.len() == 2 * i,
            forall|k: int|
                0 <= k < i ==> json_view(flat@[2 * k]) == JsonV::Str(ev[k].0) && json_view(
                    flat@[2 * k + 1],
                ) == spec_encode(ev[k].1),
        decreases m.0@.len() - i,
    {
        flat.push(Json::Str(m.0[i].0.clone()));
        let jv = encode_value(&m.0[i].1);
        flat.push(jv);
        i += 1;
    }
    proof {
        lemma_arr_view(flat@);
        assert forall|k: int|
            0 <= k < flat@.len() implies arr_view(flat@)[k] == spec_encode_flat(ev)[k] by {
            let q = k / 2;
            assert(0 <= q < ev.len());
            if k % 2 == 0 {
                assert(k == 2 * q);
                assert(json_view(flat@[2 * q]) == JsonV::Str(ev[q].0));
                assert(spec_encode_flat(ev)[2 * q] == JsonV::Str(ev[q].0));
            } else {
                assert(k == 2 * q + 1);
                assert(json_view(flat@[2 * q + 1]) == spec_encode(ev[q].1));
                assert(spec_encode_flat(ev)[2 * q + 1] == spec_encode(ev[q].1));
            }
        }
        assert(arr_view(flat@) =~= spec_encode_flat(ev));
    }
    typed("g:Map", Json::Arr(flat))
}

/// Encodes the elements of a list, in order.
#[verifier::loop_isolation(false)]
fn encode_seq(items: &Vec<GValue>) -> (a: Vec<Json>)
    ensures
        arr_view(a@) == spec_encode_seq(gvalues_view(items@)),
    decreases *items,
{
    let ghost iv = gvalues_view(items@);
    proof {
        lemma_gvalues_view(items@);
        lemma_spec_encode_seq(iv);
    }
    let mut a: Vec<Json> = Vec::new();
    let mut i: usize = 0;
    while i < items.len()
        invariant
            0 <= i <= items@.len(),
            a@.len() == i,
            forall|k: int| 0 <= k < i ==> json_view(a@[k]) == spec_encode(iv[k]),
        decreases items@.len() - i,
    {
        let jv = encode_value(&items[i]);
        a.push(jv);
        i += 1;
    }
    proof {
        lemma_arr_view(a@);
        assert(arr_view(a@) =~= spec_encode_seq(iv));
    }
    a
}

/// Encodes a sequence of vertex properties, in order.
#[verifier::loop_isolation(false)]
fn encode_vps(items: &Vec<VertexProperty>) -> (a: Vec<Json>)
    ensures
        arr_view(a@) == spec_encode_vps(crate::structure::vps_view(items@)),
    decreases *items,
{
    let ghost iv = crate::structure::vps_view(items@);
    proof {
        crate::structure::lemma_vps_view(items@);
        lemma_spec_encode_vps(iv);
    }
    let mut a: Vec<Json> = Vec::new();
    let mut i: usize = 0;
    while i < items.len()
        invariant
            0 <= i <= items@.len(),
            a@.len() == i,
            forall|k: int| 0 <= k < i ==> json_view(a@[k]) == spec_encode_vp(iv[k]),
        decreases items@.len() - i,
    {
        let jv = encode_vp(&items[i]);
        a.push(jv);
        i += 1;
    }
    proof {
        lemma_arr_view(a@);
        assert(arr_view(a@) =~= spec_encode_vps(iv));
    }
    a
}

/// Encodes one vertex property.
fn encode_vp(p: &VertexProperty) -> (j: Json)
    ensures
        j@ == spec_encode_vp(p@),
    decreases *p,
{
    let mut inner: Vec<(String, Json)> = Vec::new();
    inner.push(("id".to_owned(), encode_gid(&p.id)));
    inner.push(("label".to_owned(), Json::Str(p.label.clone())));
    inner.push(("value".to_owned(), encode_value(&p.value)));
    proof {
        lemma_obj_view(inner@);
        assert(obj_view(inner@) =~= spec_encode_vp(p@)->Obj_0[1].1->Obj_0);
    }
    typed("g:VertexProperty", Json::Obj(inner))
}

/// A deserialization failure for a value that is not in the wire format.
fn de_err() -> (e: GremlinError)
    ensures
        e matches GremlinError::Deserialization(_),
{
    GremlinError::Deserialization("malformed wire value".to_owned())
}

/// A document that is the encoding of some value.
pub open spec fn spec_decodable(j: JsonV) -> bool {
    exists|vv: GValueV| spec_encode(vv) == j
}

/// A document that is the encoding of some identifier.
pub open spec fn spec_decodable_gid(j: JsonV) -> bool {
    exists|g: GIDV| spec_encode_gid(g) == j
}

/// Two typed envelopes are equal only when tag and payload agree.
proof fn lemma_typed_obj_inj(t1: Seq<char>, v1: JsonV, t2: Seq<char>, v2: JsonV)
    requires
        typed_obj(t1, v1) == typed_obj(t2, v2),
    ensures
        t1 == t2,
        v1 == v2,
{
    assert(typed_obj(t1, v1)->Obj_0[0] == typed_obj(t2, v2)->Obj_0[0]);
    assert(typed_obj(t1, v1)->Obj_0[1] == typed_obj(t2, v2)->Obj_0[1]);
}

/// Every encoding is either a bare JSON string or a two-member object
/// carrying a string `@type` tag and a `@value` payload, in that order.
proof fn lemma_encode_shape(vv: GValueV)
    ensures
        ({
            ||| spec_encode(vv) is Str
            ||| {
                &&& spec_encode(vv) matches JsonV::Obj(o)
                &&& o.len() == 2
                &&& o[0].0 == "@type"@
                &&& o[1].0 == "@value"@
                &&& o[0].1 is Str
            }
        }),
{
    match vv {
        GValueV::Int32(_) => {},
        GValueV::Int64(_) => {},
        GValueV::Str(_) => {},
        GValueV::Date(_) => {},
        GValueV::Uuid(_) => {},
        GValueV::List(_) => {},
        GValueV::Mapping(_) => {},
        GValueV::Vertex(_) => {},
        GValueV::Edge(_) => {},
        GValueV::VertexProperty(p) => {
            assert(spec_encode(vv) == spec_encode_vp(p));
        },
        GValueV::Property(_) => {},
        GValueV::Path(_) => {},
    }
}

/// The eleven type tags are pairwise distinct character sequences.
proof fn lemma_tags()
    ensures
        "g:Int32"@.len() == 7,
        "g:Int64"@.len() == 7,
        "g:Date"@.len() == 6,
        "g:UUID"@.len() == 6,
        "g:List"@.len() == 6,
        "g:Map"@.len() == 5,
        "g:Vertex"@.len() == 8,
        "g:Edge"@.len() == 6,
        "g:VertexProperty"@.len() == 16,
        "g:Property"@.len() == 10,
        "g:Path"@.len() == 6,
        "g:Int32"@ != "g:Int64"@,
        "g:Date"@ != "g:UUID"@,
        "g:Date"@ != "g:List"@,
        "g:Date"@ != "g:Edge"@,
        "g:Date"@ != "g:Path"@,
        "g:UUID"@ != "g:List"@,
        "g:UUID"@ != "g:Edge"@,
        "g:UUID"@ != "g:Path"@,
        "g:List"@ != "g:Edge"@,
        "g:List"@ != "g:Path"@,
        "g:Edge"@ != "g:Path"@,
{
    reveal_strlit("g:Int32");
    reveal_strlit("g:Int64");
    reveal_strlit("g:Date");
    reveal_strlit("g:UUID");
    reveal_strlit("g:List");
    reveal_strlit("g:Map");
    reveal_strlit("g:Vertex");
    reveal_strlit("g:Edge");
    reveal_strlit("g:VertexProperty");
    reveal_strlit("g:Path");
    reveal_strlit("g:Property");
    assert("g:Int32"@[6] != "g:Int64"@[6]);
    assert("g:Date"@[2] != "g:UUID"@[2]);
    assert("g:Date"@[2] != "g:List"@[2]);
    assert("g:Date"@[2] != "g:Edge"@[2]);
    assert("g:Date"@[2] != "g:Path"@[2]);
    assert("g:UUID"@[2] != "g:List"@[2]);
    assert("g:UUID"@[2] != "g:Edge"@[2]);
    assert("g:UUID"@[2] != "g:Path"@[2]);
    assert("g:List"@[2] != "g:Edge"@[2]);
    assert("g:List"@[2] != "g:Path"@[2]);
    assert("g:Edge"@[2] != "g:Path"@[2]);
}

/// What a value must be, given that its encoding carries tag `t` and
/// payload `val`: the tag fixes the variant and the payload's shape.
proof fn lemma_encode_typed(vv: GValueV, t: Seq<char>, val: JsonV)
    requires
        spec_encode(vv) == typed_obj(t, val),
    ensures
        ({
            ||| { &&& t == "g:Int32"@ &&& (vv matches GValueV::Int32(n) && val == JsonV::Int(n as i64)) }
            ||| { &&& t == "g:Int64"@ &&& (vv matches GValueV::Int64(n) && val == JsonV::Int(n)) }
            ||| { &&& t == "g:Date"@ &&& (vv matches GValueV::Date(ms) && val == JsonV::Int(ms)) }
            ||| { &&& t == "g:UUID"@ &&& (vv matches GValueV::Uuid(u) && val == JsonV::Str(uuid_chars(u))) }
            ||| { &&& t == "g:List"@ &&& (vv matches GValueV::List(items) && val == JsonV::Arr(spec_encode_seq(items))) }
            ||| { &&& t == "g:Map"@ &&& (vv matches GValueV::Mapping(en) && val == JsonV::Arr(spec_encode_flat(en))) }
            ||| { &&& t == "g:Vertex"@ &&& (vv matches GValueV::Vertex(x) && val == JsonV::Obj(
                seq![
                    ("id"@, spec_encode_gid(x.id)),
                    ("label"@, JsonV::Str(x.label)),
                    ("properties"@, JsonV::Obj(spec_encode_props(x.properties))),
                ],
            )) }
            ||| { &&& t == "g:Edge"@ &&& (vv matches GValueV::Edge(e) && val == JsonV::Obj(
                seq![
                    ("id"@, spec_encode_gid(e.id)),
                    ("label"@, JsonV::Str(e.label)),
                    ("inV"@, spec_encode_gid(e.in_v)),
                    ("outV"@, spec_encode_gid(e.out_v)),
                ],
            )) }
            ||| { &&& t == "g:VertexProperty"@ &&& (vv matches GValueV::VertexProperty(p) && val == JsonV::Obj(
                seq![
                    ("id"@, spec_encode_gid(p.id)),
                    ("label"@, JsonV::Str(p.label)),
                    ("value"@, spec_encode(*p.value)),
                ],
            )) }
            ||| { &&& t == "g:Property"@ &&& (vv matches GValueV::Property(p) && val == JsonV::Obj(
                seq![("key"@, JsonV::Str(p.label)), ("value"@, spec_encode(*p.value))],
            )) }
            ||| { &&& t == "g:Path"@ &&& (vv matches GValueV::Path(objs) && val == JsonV::Obj(
                seq![("objects"@, JsonV::Arr(spec_encode_seq(objs)))],
            )) }
                }),
{
    match vv {
        GValueV::Int32(n) => {
            lemma_typed_obj_inj(t, val, "g:Int32"@, JsonV::Int(n as i64));
        },
        GValueV::Int64(n) => {
            lemma_typed_obj_inj(t, val, "g:Int64"@, JsonV::Int(n));
        },
        GValueV::Str(_) => {},
        GValueV::Date(ms) => {
            lemma_typed_obj_inj(t, val, "g:Date"@, JsonV::Int(ms));
        },
        GValueV::Uuid(u) => {
            lemma_typed_obj_inj(t, val, "g:UUID"@, JsonV::Str(uuid_chars(u)));
        },
        GValueV::List(items) => {
            lemma_typed_obj_inj(t, val, "g:List"@, JsonV::Arr(spec_encode_seq(items)));
        },
        GValueV::Mapping(en) => {
            lemma_typed_obj_inj(t, val, "g:Map"@, JsonV::Arr(spec_encode_flat(en)));
        },
        GValueV::Vertex(x) => {
            lemma_typed_obj_inj(
                t,
                val,
                "g:Vertex"@,
                JsonV::Obj(
                    seq![
                        ("id"@, spec_encode_gid(x.id)),
                        ("label"@, JsonV::Str(x.label)),
                        ("properties"@, JsonV::Obj(spec_encode_props(x.properties))),
                    ],
                ),
            );
        },
        GValueV::Edge(e) => {
            lemma_typed_obj_inj(
                t,
                val,
                "g:Edge"@,
                JsonV::Obj(
                    seq![
                        ("id"@, spec_encode_gid(e.id)),
                        ("label"@, JsonV::Str(e.label)),
                        ("inV"@, spec_encode_gid(e.in_v)),
                        ("outV"@, spec_encode_gid(e.out_v)),
                    ],
                ),
            );
        },
        GValueV::VertexProperty(p) => {
            assert(spec_encode(vv) == spec_encode_vp(p));
            lemma_typed_obj_inj(
                t,
                val,
                "g:VertexProperty"@,
                JsonV::Obj(
                    seq![
                        ("id"@, spec_encode_gid(p.id)),
                        ("label"@, JsonV::Str(p.label)),
                        ("value"@, spec_encode(*p.value)),
                    ],
                ),
            );
        },
        GValueV::Property(p) => {
            lemma_typed_obj_inj(
                t,
                val,
                "g:Property"@,
                JsonV::Obj(seq![("key"@, JsonV::Str(p.label)), ("value"@, spec_encode(*p.value))]),
            );
        },
        GValueV::Path(objs) => {
            lemma_typed_obj_inj(
                t,
                val,
                "g:Path"@,
                JsonV::Obj(seq![("objects"@, JsonV::Arr(spec_encode_seq(objs)))]),
            );
        },
    }
}

/// The JSON tree and its shape agree on the top constructor.
proof fn lemma_json_view_ctor(x: Json)
    ensures
        (json_view(x) is Str) == (x is Str),
        (json_view(x) is Int) == (x is Int),
        (json_view(x) is Arr) == (x is Arr),
        (json_view(x) is Obj) == (x is Obj),
        (json_view(x) is Null) == (x is Null),
        (json_view(x) is Bool) == (x is Bool),
{
    match x {
        Json::Null => {},
        Json::Bool(_) => {},
        Json::Int(_) => {},
        Json::Str(_) => {},
        Json::Arr(_) => {},
        Json::Obj(_) => {},
    }
}

/// A value and its shape agree on the variant.
pub proof fn lemma_gvalue_ctor(v: GValue)
    ensures
        (gvalue_view(v) is List) == (v is List),
        (gvalue_view(v) is VertexProperty) == (v is VertexProperty),
{
    match v {
        GValue::Int32(_) => {},
        GValue::Int64(_) => {},
        GValue::String(_) => {},
        GValue::Date(_) => {},
        GValue::Uuid(_) => {},
        GValue::List(_) => {},
        GValue::Mapping(_) => {},
        GValue::Vertex(_) => {},
        GValue::Edge(_) => {},
        GValue::VertexProperty(_) => {},
        GValue::Property(_) => {},
        GValue::Path(_) => {},
    }
}

/// A masked nibble is below sixteen.
proof fn lemma_nibble_mask(u: u128, sh: u32)
    ensures
        (u >> sh) & 0xf < 16,
{
    assert((u >> sh) & 0xf < 16) by (bit_vector);
}

/// Every nibble of zero is zero.
proof fn lemma_zero_nibble(sh: u32)
    ensures
        (0u128 >> sh) & 0xf == 0,
{
    assert((0u128 >> sh) & 0xf == 0) by (bit_vector);
}

/// Setting one clear nibble stores exactly that digit.
proof fn lemma_set_nibble(u: u128, nib: u128, sh: u32)
    requires
        sh <= 124,
        nib < 16,
        (u >> sh) & 0xf == 0,
    ensures
        ((u | (nib << sh)) >> sh) & 0xf == nib,
{
    assert(((u | (nib << sh)) >> sh) & 0xf == nib) by (bit_vector)
        requires
            sh <= 124 && nib < 16 && (u >> sh) & 0xf == 0,
    ;
}

/// Setting one nibble leaves every other nibble untouched.
proof fn lemma_other_nibble(u: u128, nib: u128, sh: u32, shk: u32)
    requires
        sh % 4 == 0,
        shk % 4 == 0,
        sh <= 124,
        shk <= 124,
        sh != shk,
        nib < 16,
    ensures
        ((u | (nib << sh)) >> shk) & 0xf == (u >> shk) & 0xf,
{
    assert(((u | (nib << sh)) >> shk) & 0xf == (u >> shk) & 0xf) by (bit_vector)
        requires
            sh % 4 == 0 && shk % 4 == 0 && sh <= 124 && shk <= 124 && sh != shk && nib < 16,
    ;
}

/// Every identifier encoding is a bare string or a typed integer
/// envelope of one of the two integer widths.
proof fn lemma_gid_shape(g: GIDV)
    ensures
        ({
            ||| (spec_encode_gid(g) is Str && g is Str)
            ||| { &&& g matches GIDV::Int32(n) &&& spec_encode_gid(g) == typed_obj("g:Int32"@, JsonV::Int(n as i64)) }
            ||| { &&& g matches GIDV::Int64(n) &&& spec_encode_gid(g) == typed_obj("g:Int64"@, JsonV::Int(n)) }
        }),
{
    match g {
        GIDV::Int32(_) => {},
        GIDV::Int64(_) => {},
        GIDV::Str(_) => {},
    }
}

/// Reads an identifier back from its wire shape. A decoded identifier
/// re-encodes to exactly the input; any other input is rejected.
pub fn decode_gid(j: &Json) -> (r: Result<GID, GremlinError>)
    ensures
        r matches Ok(g) ==> spec_encode_gid(g@) == j@,
        r matches Err(e) ==> e matches GremlinError::Deserialization(_),
        spec_decodable_gid(j@) ==> r is Ok,
{
    proof {
        lemma_tags();
        lemma_json_view_ctor(*j);
        if spec_decodable_gid(j@) {
            let g0 = choose|g0: GIDV| spec_encode_gid(g0) == j@;
            lemma_gid_shape(g0);
        }
    }
    match j {
        Json::Str(s) => Ok(GID::String(s.clone())),
        Json::Obj(o) => {
            proof {
                lemma_obj_view(o@);
            }
            if o.len() != 2 {
                return Err(de_err());
            }
            if !str_eq(o[0].0.as_str(), "@type") || !str_eq(o[1].0.as_str(), "@value") {
                return Err(de_err());
            }
            let t = match &o[0].1 {
                Json::Str(t) => t,
                _ => {
                    proof {
                        lemma_json_view_ctor(o@[0].1);
                    }
                    return Err(de_err());
                },
            };
            let n = match &o[1].1 {
                Json::Int(n) => *n,
                _ => {
                    proof {
                        lemma_json_view_ctor(o@[1].1);
                    }
                    return Err(de_err());
                },
            };
            proof {
                lemma_obj_view(o@);
                assert(obj_view(o@) =~= seq![
                    ("@type"@, json_view(o@[0].1)),
                    ("@value"@, JsonV::Int(n)),
                ]);
            }
            if str_eq(t.as_str(), "g:Int32") {
                if n >= -2147483648i64 && n <= 2147483647i64 {
                    let g = GID::Int32(n as i32);
                    proof {
                        assert(spec_encode_gid(g@) =~~= j@);
                    }
                    Ok(g)
                } else {
                    Err(de_err())
                }
            } else if str_eq(t.as_str(), "g:Int64") {
                let g = GID::Int64(n);
                proof {
                    assert(spec_encode_gid(g@) =~~= j@);
                }
                Ok(g)
            } else {
                Err(de_err())
            }
        },
        _ => Err(de_err()),
    }
}

/// Reads the characters of `s` back as a 128-bit identifier, accepting
/// only the canonical rendering: the result, formatted again, is
/// compared with the input, and anything that does not round-trip is
/// rejected. Canonical text always parses.
#[verifier::loop_isolation(false)]
#[verifier::rlimit(100)]
fn parse_uuid(s: &str) -> (r: Option<u128>)
    ensures
        r matches Some(u) ==> uuid_chars(u) == s@,
        (exists|u0: u128| uuid_chars(u0) == s@) ==> r is Some,
{
    let ghost dec = exists|u0: u128| uuid_chars(u0) == s@;
    let ghost u0: u128 = if dec {
        choose|u0: u128| uuid_chars(u0) == s@
    } else {
        0
    };
    let n = s.unicode_len();
    if n != 36 {
        proof {
            if dec {
                assert(uuid_chars(u0).len() == 36);
            }
        }
        return None;
    }
    let mut u: u128 = 0;
    let mut p: usize = 0;
    let mut h: u32 = 0;
    proof {
        assert forall|hh: int| 0 <= hh < 32 implies #[trigger] uuid_nibble(0u128, hh) == 0 by {
            let shk: u32 = (4 * (31 - hh)) as u32;
            lemma_zero_nibble(shk);
        }
    }
    while p < 36
        invariant
            0 <= p <= 36,
            h == uuid_digit_index(p as int),
            0 <= h <= 32,
            s@.len() == 36,
            forall|hh: int| 0 <= hh < h ==> (dec ==> #[trigger] uuid_nibble(u, hh) == uuid_nibble(
                u0,
                hh,
            )),
            forall|hh: int| h <= hh < 32 ==> #[trigger] uuid_nibble(u, hh) == 0,
        decreases 36 - p,
    {
        let c = s.get_char(p);
        if p == 8 || p == 13 || p == 18 || p == 23 {
            if c != '-' {
                proof {
                    if dec {
                        assert(uuid_chars(u0)[p as int] == '-');
                    }
                }
                return None;
            }
        } else {
            if h >= 32 {
                proof {
                    assert(false);
                }
                return None;
            }
            let ghost nib0 = uuid_nibble(u0, h as int);
            proof {
                if dec {
                    let sh0: u32 = (4 * (31 - h as int)) as u32;
                    lemma_nibble_mask(u0, sh0);
                    assert(nib0 == (u0 >> sh0) & 0xf);
                    assert(nib0 < 16);
                    assert(uuid_chars(u0)[p as int] == hex_char_of(nib0));
                    assert(c == hex_char_of(nib0));
                }
            }
            let nib: u128 = if c == '0' {
                0
            } else if c == '1' {
                1
            } else if c == '2' {
                2
            } else if c == '3' {
                3
            } else if c == '4' {
                4
            } else if c == '5' {
                5
            } else if c == '6' {
                6
            } else if c == '7' {
                7
            } else if c == '8' {
                8
            } else if c == '9' {
                9
            } else if c == 'a' {
                10
            } else if c == 'b' {
                11
            } else if c == 'c' {
                12
            } else if c == 'd' {
                13
            } else if c == 'e' {
                14
            } else if c == 'f' {
                15
            } else {
                proof {
                    if dec {
                        assert(false);
                    }
                }
                return None;
            };
            proof {
                if dec {
                    assert(nib == nib0);
                }
            }
            let sh: u32 = 4 * (31 - h);
            let ghost uold = u;
            u = u | (nib << sh);
            proof {
                let gh = h as int;
                assert(sh as int == 4 * (31 - gh));
                assert forall|hh: int| 0 <= hh < gh + 1 implies (dec ==> #[trigger] uuid_nibble(
                    u,
                    hh,
                ) == uuid_nibble(u0, hh)) by {
                    if dec {
                        let shk: u32 = (4 * (31 - hh)) as u32;
                        assert(uuid_nibble(uold, hh) == (uold >> shk) & 0xf);
                        assert(uuid_nibble(u, hh) == (u >> shk) & 0xf);
                        if hh == gh {
                            lemma_set_nibble(uold, nib, sh);
                        } else {
                            lemma_other_nibble(uold, nib, sh, shk);
                        }
                    }
                }
                assert forall|hh: int| gh + 1 <= hh < 32 implies #[trigger] uuid_nibble(u, hh)
                    == 0 by {
                    let shk: u32 = (4 * (31 - hh)) as u32;
                    assert(uuid_nibble(uold, hh) == (uold >> shk) & 0xf);
                    assert(uuid_nibble(u, hh) == (u >> shk) & 0xf);
                    lemma_other_nibble(uold, nib, sh, shk);
                }
            }
            h = h + 1;
        }
        p = p + 1;
    }
    let back = uuid_to_string(u);
    proof {
        if dec {
            assert(h == 32);
            assert forall|pp: int| 0 <= pp < 36 implies uuid_chars(u)[pp] == s@[pp] by {
                assert(s@[pp] == uuid_chars(u0)[pp]);
                if !(pp == 8 || pp == 13 || pp == 18 || pp == 23) {
                    assert(uuid_nibble(u, uuid_digit_index(pp)) == uuid_nibble(
                        u0,
                        uuid_digit_index(pp),
                    ));
                }
            }
            assert(uuid_chars(u) =~= s@);
        }
    }
    if str_eq(back.as_str(), s) {
        Some(u)
    } else {
        proof {
            if dec {
                assert(back@ == uuid_chars(u));
            }
        }
        None
    }
}

/// Reads a sequence of values back from their wire shapes. A decoded
/// sequence re-encodes, element by element, to exactly the input.
#[verifier::loop_isolation(false)]
fn decode_seq(a: &Vec<Json>) -> (r: Result<Vec<GValue>, GremlinError>)
    ensures
        r matches Ok(out) ==> spec_encode_seq(gvalues_view(out@)) == arr_view(a@),
        r matches Err(e) ==> e matches GremlinError::Deserialization(_),
        (exists|xs: Seq<GValueV>| spec_encode_seq(xs) == arr_view(a@)) ==> r is Ok,
    decreases *a,
{
    let ghost dec = exists|xs: Seq<GValueV>| spec_encode_seq(xs) == arr_view(a@);
    let ghost xs: Seq<GValueV> = if dec {
        choose|xs: Seq<GValueV>| spec_encode_seq(xs) == arr_view(a@)
    } else {
        Seq::empty()
    };
    proof {
        if dec {
            lemma_spec_encode_seq(xs);
            lemma_arr_view(a@);
        }
    }
    let mut out: Vec<GValue> = Vec::new();
    let mut i: usize = 0;
    while i < a.len()
        invariant
            0 <= i <= a@.len(),
            out@.len() == i,
            forall|k: int| 0 <= k < i ==> spec_encode(gvalue_view(out@[k])) == json_view(a@[k]),
        decreases a@.len() - i,
    {
        proof {
            if dec {
                assert(spec_encode(xs[i as int]) == arr_view(a@)[i as int]);
                assert(spec_decodable(json_view(a@[i as int])));
            }
        }
        let v = match decode_value(&a[i]) {
            Ok(v) => v,
            Err(e) => {
                return Err(e);
            },
        };
        out.push(v);
        i += 1;
    }
    proof {
        lemma_gvalues_view(out@);
        lemma_spec_encode_seq(gvalues_view(out@));
        lemma_arr_view(a@);
        assert(spec_encode_seq(gvalues_view(out@)) =~= arr_view(a@));
    }
    Ok(out)
}

/// Reads a sequence of vertex properties back from their wire shapes.
#[verifier::loop_isolation(false)]
fn decode_vps(a: &Vec<Json>) -> (r: Result<Vec<VertexProperty>, GremlinError>)
    ensures
        r matches Ok(out) ==> spec_encode_vps(crate::structure::vps_view(out@)) == arr_view(a@),
        r matches Err(e) ==> e matches GremlinError::Deserialization(_),
        (exists|ps: Seq<VertexPropertyV>| spec_encode_vps(ps) == arr_view(a@)) ==> r is Ok,
    decreases *a,
{
    let ghost dec = exists|ps: Seq<VertexPropertyV>| spec_encode_vps(ps) == arr_view(a@);
    let ghost ps: Seq<VertexPropertyV> = if dec {
        choose|ps: Seq<VertexPropertyV>| spec_encode_vps(ps) == arr_view(a@)
    } else {
        Seq::empty()
    };
    proof {
        if dec {
            lemma_spec_encode_vps(ps);
            lemma_arr_view(a@);
        }
    }
    let mut out: Vec<VertexProperty> = Vec::new();
    let mut i: usize = 0;
    while i < a.len()
        invariant
            0 <= i <= a@.len(),
            out@.len() == i,
            forall|k: int|
                0 <= k < i ==> spec_encode_vp(crate::structure::vp_view(out@[k])) == json_view(
                    a@[k],
                ),
        decreases a@.len() - i,
    {
        proof {
            if dec {
                assert(spec_encode_vp(ps[i as int]) == arr_view(a@)[i as int]);
                assert(spec_encode(GValueV::VertexProperty(ps[i as int])) == json_view(
                    a@[i as int],
                ));
                assert(spec_decodable(json_view(a@[i as int])));
            }
        }
        let v = match decode_value(&a[i]) {
            Ok(v) => v,
            Err(e) => {
                return Err(e);
            },
        };
        match v {
            GValue::VertexProperty(p) => {
                out.push(p);
            },
            _ => {
                proof {
                    if dec {
                        lemma_tags();
                        let pi = ps[i as int];
                        assert(spec_encode(v@) == spec_encode_vp(pi));
                        lemma_encode_typed(
                            v@,
                            "g:VertexProperty"@,
                            JsonV::Obj(
                                seq![
                                    ("id"@, spec_encode_gid(pi.id)),
                                    ("label"@, JsonV::Str(pi.label)),
                                    ("value"@, spec_encode(*pi.value)),
                                ],
                            ),
                        );
                        lemma_gvalue_ctor(v);
                    }
                }
                return Err(de_err());
            },
        }
        i += 1;
    }
    proof {
        crate::structure::lemma_vps_view(out@);
        lemma_spec_encode_vps(crate::structure::vps_view(out@));
        lemma_arr_view(a@);
        assert(spec_encode_vps(crate::structure::vps_view(out@)) =~= arr_view(a@));
    }
    Ok(out)
}

/// Reads a value back from its wire shape. A decoded value re-encodes
/// to exactly the input; a bare JSON string always decodes to a string
/// value; anything outside the wire format is rejected with a
/// deserialization error.
#[verifier::loop_isolation(false)]
#[verifier::rlimit(100)]
#[verifier::spinoff_prover]
pub fn decode_value(j: &Json) -> (r: Result<GValue, GremlinError>)
    ensures
        r matches Ok(v) ==> spec_encode(v@) == j@,
        r matches Err(e) ==> e matches GremlinError::Deserialization(_),
        j@ matches JsonV::Str(s) ==> (r matches Ok(v) && v@ == GValueV::Str(s)),
        spec_decodable(j@) ==> r is Ok,
    decreases *j,
{
    let ghost dec = spec_decodable(j@);
    let ghost vv0: GValueV = if dec {
        choose|vv: GValueV| spec_encode(vv) == j@
    } else {
        GValueV::Int32(0)
    };
    proof {
        lemma_tags();
        lemma_json_view_ctor(*j);
        if dec {
            lemma_encode_shape(vv0);
        }
    }
    match j {
        Json::Str(s) => Ok(GValue::String(s.clone())),
        Json::Obj(o) => {
            proof {
                lemma_obj_view(o@);
            }
            if o.len() != 2 {
                return Err(de_err());
            }
            if !str_eq(o[0].0.as_str(), "@type") || !str_eq(o[1].0.as_str(), "@value") {
                return Err(de_err());
            }
            let t = match &o[0].1 {
                Json::Str(t) => t.clone(),
                _ => {
                    proof {
                        lemma_json_view_ctor(o@[0].1);
                    }
                    return Err(de_err());
                },
            };
            let val = &o[1].1;
            proof {
                assert(obj_view(o@) =~= seq![
                    ("@type"@, JsonV::Str(t@)),
                    ("@value"@, json_view(o@[1].1)),
                ]);
                assert(j@ == typed_obj(t@, json_view(o@[1].1)));
                lemma_json_view_ctor(o@[1].1);
                if dec {
                    lemma_encode_typed(vv0, t@, json_view(o@[1].1));
                }
            }
            if str_eq(t.as_str(), "g:Int32") {
                match val {
                    Json::Int(n) => {
                        if *n >= -2147483648i64 && *n <= 2147483647i64 {
                            let v = GValue::Int32(*n as i32);
                            proof {
                                assert(spec_encode(v@) =~~= j@);
                            }
                            Ok(v)
                        } else {
                            Err(de_err())
                        }
                    },
                    _ => Err(de_err()),
                }
            } else if str_eq(t.as_str(), "g:Int64") {
                match val {
                    Json::Int(n) => {
                        let v = GValue::Int64(*n);
                        proof {
                            assert(spec_encode(v@) =~~= j@);
                        }
                        Ok(v)
                    },
                    _ => Err(de_err()),
                }
            } else if str_eq(t.as_str(), "g:Date") {
                match val {
                    Json::Int(n) => {
                        let v = GValue::Date(crate::value::GDate(*n));
                        proof {
                            assert(spec_encode(v@) =~~= j@);
                        }
                        Ok(v)
                    },
                    _ => Err(de_err()),
                }
            } else if str_eq(t.as_str(), "g:UUID") {
                match val {
                    Json::Str(us) => {
                        proof {
                            if dec {
                                assert(json_view(o@[1].1) == JsonV::Str(us@));
                            }
                        }
                        match parse_uuid(us.as_str()) {
                            Some(u) => {
                                let v = GValue::Uuid(crate::value::GUuid(u));
                                proof {
                                    assert(spec_encode(v@) =~~= j@);
                                }
                                Ok(v)
                            },
                            None => Err(de_err()),
                        }
                    },
                    _ => Err(de_err()),
                }
            } else if str_eq(t.as_str(), "g:List") {
                match val {
                    Json::Arr(a) => {
                        proof {
                            if dec {
                                assert(arr_view(a@) == spec_encode_seq(vv0->List_0));
                            }
                        }
                        let items = match decode_seq(a) {
                            Ok(items) => items,
                            Err(e) => {
                                return Err(e);
                            },
                        };
                        let v = GValue::List(crate::value::List(items));
                        proof {
                            assert(spec_encode(v@) =~~= j@);
                        }
                        Ok(v)
                    },
                    _ => Err(de_err()),
                }
            } else if str_eq(t.as_str(), "g:Map") {
                match val {
                    Json::Arr(a) => {
                        let ghost av = arr_view(a@);
                        let ghost en = vv0->Mapping_0;
                        proof {
                            lemma_arr_view(a@);
                            if dec {
                                assert(av == spec_encode_flat(en));
                                lemma_spec_encode_flat(en);
                            }
                        }
                        if a.len() % 2 != 0 {
                            return Err(de_err());
                        }
                        let mut entries: Vec<(String, GValue)> = Vec::new();
                        let mut i: usize = 0;
                        while i + 1 < a.len() + 1
                            invariant
                                i % 2 == 0,
                                0 <= i <= a@.len(),
                                entries@.len() * 2 == i,
                                forall|k: int|
                                    0 <= k < entries@.len() ==> JsonV::Str(entries@[k].0@)
                                        == json_view(a@[2 * k]) && spec_encode(
                                        gvalue_view(entries@[k].1),
                                    ) == json_view(a@[2 * k + 1]),
                            decreases a@.len() - i,
                        {
                            proof {
                                if dec {
                                    let q = i as int / 2;
                                    assert(i as int == 2 * q);
                                    assert(0 <= q < en.len());
                                    assert(json_view(a@[2 * q]) == JsonV::Str(en[q].0));
                                    assert(json_view(a@[2 * q + 1]) == spec_encode(en[q].1));
                                    lemma_json_view_ctor(a@[i as int]);
                                    assert(spec_decodable(json_view(a@[i as int + 1])));
                                }
                            }
                            let key = match &a[i] {
                                Json::Str(k) => k.clone(),
                                _ => {
                                    return Err(de_err());
                                },
                            };
                            let v = match decode_value(&a[i + 1]) {
                                Ok(v) => v,
                                Err(e) => {
                                    return Err(e);
                                },
                            };
                            entries.push((key, v));
                            i += 2;
                        }
                        let m = crate::value::GMap(entries);
                        let v = GValue::Mapping(m);
                        proof {
                            let ev = entries_view(v->Mapping_0.0@);
                            lemma_entries_view(v->Mapping_0.0@);
                            lemma_spec_encode_flat(ev);
                            assert forall|k: int|
                                0 <= k < av.len() implies spec_encode_flat(ev)[k] == av[k] by {
                                let q = k / 2;
                                assert(0 <= q < ev.len());
                                if k % 2 == 0 {
                                    assert(k == 2 * q);
                                    assert(spec_encode_flat(ev)[2 * q] == JsonV::Str(ev[q].0));
                                    assert(json_view(a@[2 * q]) == av[2 * q]);
                                } else {
                                    assert(k == 2 * q + 1);
                                    assert(spec_encode_flat(ev)[2 * q + 1] == spec_encode(
                                        ev[q].1,
                                    ));
                                    assert(json_view(a@[2 * q + 1]) == av[2 * q + 1]);
                                }
                            }
                            assert(spec_encode_flat(ev) =~= av);
                            assert(spec_encode(v@) =~~= j@);
                        }
                        Ok(v)
                    },
                    _ => Err(de_err()),
                }
            } else if str_eq(t.as_str(), "g:Vertex") {
                let ghost x0 = vv0->Vertex_0;
                let inner = match val {
                    Json::Obj(inner) => inner,
                    _ => {
                        return Err(de_err());
                    },
                };
                proof {
                    lemma_obj_view(inner@);
                    if dec {
                        assert(obj_view(inner@) == seq![
                            ("id"@, spec_encode_gid(x0.id)),
                            ("label"@, JsonV::Str(x0.label)),
                            ("properties"@, JsonV::Obj(spec_encode_props(x0.properties))),
                        ]);
                    }
                }
                if inner.len() != 3 {
                    return Err(de_err());
                }
                if !str_eq(inner[0].0.as_str(), "id") || !str_eq(inner[1].0.as_str(), "label")
                    || !str_eq(inner[2].0.as_str(), "properties") {
                    return Err(de_err());
                }
                proof {
                    if dec {
                        assert(json_view(inner@[0].1) == spec_encode_gid(x0.id));
                        assert(spec_decodable_gid(json_view(inner@[0].1)));
                        lemma_json_view_ctor(inner@[1].1);
                        lemma_json_view_ctor(inner@[2].1);
                    }
                }
                let id = match decode_gid(&inner[0].1) {
                    Ok(g) => g,
                    Err(e) => {
                        return Err(e);
                    },
                };
                let label = match &inner[1].1 {
                    Json::Str(s) => s.clone(),
                    _ => {
                        return Err(de_err());
                    },
                };
                let pentries = match &inner[2].1 {
                    Json::Obj(p) => p,
                    _ => {
                        return Err(de_err());
                    },
                };
                let ghost pv = obj_view(pentries@);
                proof {
                    lemma_obj_view(pentries@);
                    if dec {
                        assert(pv == spec_encode_props(x0.properties));
                        lemma_spec_encode_props(x0.properties);
                    }
                }
                let mut props: Vec<(String, Vec<VertexProperty>)> = Vec::new();
                let mut i: usize = 0;
                while i < pentries.len()
                    invariant
                        0 <= i <= pentries@.len(),
                        props@.len() == i,
                        forall|k: int|
                            0 <= k < i ==> props@[k].0@ == pv[k].0 && JsonV::Arr(
                                spec_encode_vps(crate::structure::vps_view(props@[k].1@)),
                            ) == pv[k].1,
                    decreases pentries@.len() - i,
                {
                    proof {
                        if dec {
                            assert(json_view(pentries@[i as int].1) == pv[i as int].1);
                            assert(pv[i as int].1 == JsonV::Arr(
                                spec_encode_vps(x0.properties[i as int].1),
                            ));
                            lemma_json_view_ctor(pentries@[i as int].1);
                        }
                    }
                    let arr = match &pentries[i].1 {
                        Json::Arr(arr) => arr,
                        _ => {
                            return Err(de_err());
                        },
                    };
                    proof {
                        if dec {
                            assert(JsonV::Arr(arr_view(arr@)) == pv[i as int].1);
                            assert(arr_view(arr@) == spec_encode_vps(x0.properties[i as int].1));
                        }
                    }
                    let vps = match decode_vps(arr) {
                        Ok(vps) => vps,
                        Err(e) => {
                            return Err(e);
                        },
                    };
                    props.push((pentries[i].0.clone(), vps));
                    i += 1;
                }
                let vx = crate::structure::Vertex { id, label, properties: props };
                let v = GValue::Vertex(vx);
                proof {
                    lemma_obj_view(inner@);
                    crate::structure::lemma_props_view(v->Vertex_0.properties@);
                    lemma_spec_encode_props(crate::structure::props_view(v->Vertex_0.properties@));
                    assert(spec_encode_props(crate::structure::props_view(
                        v->Vertex_0.properties@,
                    )) =~= pv);
                    let xv = crate::structure::vertex_view(v->Vertex_0);
                    assert(obj_view(inner@) =~= seq![
                        ("id"@, spec_encode_gid(xv.id)),
                        ("label"@, JsonV::Str(xv.label)),
                        (
                            "properties"@,
                            JsonV::Obj(spec_encode_props(xv.properties)),
                        ),
                    ]);
                    assert(spec_encode(v@) =~~= j@);
                }
                Ok(v)
            } else if str_eq(t.as_str(), "g:Edge") {
                let ghost e0 = vv0->Edge_0;
                let inner = match val {
                    Json::Obj(inner) => inner,
                    _ => {
                        return Err(de_err());
                    },
                };
                proof {
                    lemma_obj_view(inner@);
                    if dec {
                        assert(obj_view(inner@) == seq![
                            ("id"@, spec_encode_gid(e0.id)),
                            ("label"@, JsonV::Str(e0.label)),
                            ("inV"@, spec_encode_gid(e0.in_v)),
                            ("outV"@, spec_encode_gid(e0.out_v)),
                        ]);
                    }
                }
                if inner.len() != 4 {
                    return Err(de_err());
                }
                if !str_eq(inner[0].0.as_str(), "id") || !str_eq(inner[1].0.as_str(), "label")
                    || !str_eq(inner[2].0.as_str(), "inV") || !str_eq(
                    inner[3].0.as_str(),
                    "outV",
                ) {
                    return Err(de_err());
                }
                proof {
                    if dec {
                        assert(json_view(inner@[0].1) == spec_encode_gid(e0.id));
                        assert(spec_decodable_gid(json_view(inner@[0].1)));
                        assert(json_view(inner@[2].1) == spec_encode_gid(e0.in_v));
                        assert(spec_decodable_gid(json_view(inner@[2].1)));
                        assert(json_view(inner@[3].1) == spec_encode_gid(e0.out_v));
                        assert(spec_decodable_gid(json_view(inner@[3].1)));
                        lemma_json_view_ctor(inner@[1].1);
                    }
                }
                let id = match decode_gid(&inner[0].1) {
                    Ok(g) => g,
                    Err(e) => {
                        return Err(e);
                    },
                };
                let label = match &inner[1].1 {
                    Json::Str(s) => s.clone(),
                    _ => {
                        return Err(de_err());
                    },
                };
                let in_v = match decode_gid(&inner[2].1) {
                    Ok(g) => g,
                    Err(e) => {
                        return Err(e);
                    },
                };
                let out_v = match decode_gid(&inner[3].1) {
                    Ok(g) => g,
                    Err(e) => {
                        return Err(e);
                    },
                };
                let v = GValue::Edge(crate::structure::Edge { id, label, in_v, out_v });
                proof {
                    lemma_obj_view(inner@);
                    assert(spec_encode(v@)->Obj_0[1].1->Obj_0 =~= obj_view(inner@));
                    assert(spec_encode(v@) =~~= j@);
                }
                Ok(v)
            } else if str_eq(t.as_str(), "g:VertexProperty") {
                let ghost p0 = vv0->VertexProperty_0;
                let inner = match val {
                    Json::Obj(inner) => inner,
                    _ => {
                        return Err(de_err());
                    },
                };
                proof {
                    lemma_obj_view(inner@);
                    if dec {
                        assert(obj_view(inner@) == seq![
                            ("id"@, spec_encode_gid(p0.id)),
                            ("label"@, JsonV::Str(p0.label)),
                            ("value"@, spec_encode(*p0.value)),
                        ]);
                    }
                }
                if inner.len() != 3 {
                    return Err(de_err());
                }
                if !str_eq(inner[0].0.as_str(), "id") || !str_eq(inner[1].0.as_str(), "label")
                    || !str_eq(inner[2].0.as_str(), "value") {
                    return Err(de_err());
                }
                proof {
                    if dec {
                        assert(json_view(inner@[0].1) == spec_encode_gid(p0.id));
                        assert(spec_decodable_gid(json_view(inner@[0].1)));
                        lemma_json_view_ctor(inner@[1].1);
                        assert(json_view(inner@[2].1) == spec_encode(*p0.value));
                        assert(spec_decodable(json_view(inner@[2].1)));
                    }
                }
                let id = match decode_gid(&inner[0].1) {
                    Ok(g) => g,
                    Err(e) => {
                        return Err(e);
                    },
                };
                let label = match &inner[1].1 {
                    Json::Str(s) => s.clone(),
                    _ => {
                        return Err(de_err());
                    },
                };
                let pval = match decode_value(&inner[2].1) {
                    Ok(v) => v,
                    Err(e) => {
                        return Err(e);
                    },
                };
                let p = crate::structure::VertexProperty { id, label, value: Box::new(pval) };
                let v = GValue::VertexProperty(p);
                proof {
                    lemma_obj_view(inner@);
                    let pw = crate::structure::vp_view(v->VertexProperty_0);
                    assert(v@ == GValueV::VertexProperty(pw));
                    assert(spec_encode(v@) == spec_encode_vp(pw));
                    assert(json_view(inner@[0].1) == spec_encode_gid(pw.id));
                    assert(json_view(inner@[1].1) == JsonV::Str(pw.label));
                    assert(json_view(inner@[2].1) == spec_encode(*pw.value));
                    assert(obj_view(inner@) =~= seq![
                        ("id"@, spec_encode_gid(pw.id)),
                        ("label"@, JsonV::Str(pw.label)),
                        ("value"@, spec_encode(*pw.value)),
                    ]);
                    assert(spec_encode(v@) =~~= j@);
                }
                Ok(v)
            } else if str_eq(t.as_str(), "g:Property") {
                let ghost pr0 = vv0->Property_0;
                let inner = match val {
                    Json::Obj(inner) => inner,
                    _ => {
                        return Err(de_err());
                    },
                };
                proof {
                    lemma_obj_view(inner@);
                    if dec {
                        assert(obj_view(inner@) == seq![
                            ("key"@, JsonV::Str(pr0.label)),
                            ("value"@, spec_encode(*pr0.value)),
                        ]);
                    }
                }
                if inner.len() != 2 {
                    return Err(de_err());
                }
                if !str_eq(inner[0].0.as_str(), "key") || !str_eq(inner[1].0.as_str(), "value") {
                    return Err(de_err());
                }
                proof {
                    if dec {
                        lemma_json_view_ctor(inner@[0].1);
                        assert(json_view(inner@[1].1) == spec_encode(*pr0.value));
                        assert(spec_decodable(json_view(inner@[1].1)));
                    }
                }
                let label = match &inner[0].1 {
                    Json::Str(s) => s.clone(),
                    _ => {
                        return Err(de_err());
                    },
                };
                let pval = match decode_value(&inner[1].1) {
                    Ok(v) => v,
                    Err(e) => {
                        return Err(e);
                    },
                };
                let v = GValue::Property(
                    crate::structure::Property { label, value: Box::new(pval) },
                );
                proof {
                    lemma_obj_view(inner@);
                    assert(spec_encode(v@)->Obj_0[1].1->Obj_0 =~= obj_view(inner@));
                    assert(spec_encode(v@) =~~= j@);
                }
                Ok(v)
            } else if str_eq(t.as_str(), "g:Path") {
                let ghost objs0 = vv0->Path_0;
                let inner = match val {
                    Json::Obj(inner) => inner,
                    _ => {
                        return Err(de_err());
                    },
                };
                proof {
                    lemma_obj_view(inner@);
                    if dec {
                        assert(obj_view(inner@) == seq![
                            ("objects"@, JsonV::Arr(spec_encode_seq(objs0))),
                        ]);
                        lemma_json_view_ctor(inner@[0].1);
                    }
                }
                if inner.len() != 1 {
                    return Err(de_err());
                }
                proof {
                    if dec {
                        assert(obj_view(inner@)[0] == ("objects"@, JsonV::Arr(
                            spec_encode_seq(objs0),
                        )));
                        assert(inner@[0].0@ == "objects"@);
                        assert(json_view(inner@[0].1) == JsonV::Arr(spec_encode_seq(objs0)));
                    }
                }
                if !str_eq(inner[0].0.as_str(), "objects") {
                    return Err(de_err());
                }
                let arr = match &inner[0].1 {
                    Json::Arr(arr) => arr,
                    _ => {
                        return Err(de_err());
                    },
                };
                proof {
                    if dec {
                        assert(JsonV::Arr(arr_view(arr@)) == json_view(inner@[0].1));
                        assert(arr_view(arr@) == spec_encode_seq(objs0));
                    }
                }
                let objs = match decode_seq(arr) {
                    Ok(objs) => objs,
                    Err(e) => {
                        return Err(e);
                    },
                };
                let v = GValue::Path(crate::structure::Path { objects: objs });
                proof {
                    lemma_obj_view(inner@);
                    assert(spec_encode(v@)->Obj_0[1].1->Obj_0 =~= obj_view(inner@));
                    assert(spec_encode(v@) =~~= j@);
                }
                Ok(v)
            } else {
                Err(de_err())
            }
        },
        _ => Err(de_err()),
    }
}

} // verus!
