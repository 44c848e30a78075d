use vstd::prelude::*;

verus! {

use vstd::string::StringSliceAdditionalSpecFns;

use crate::strutil::str_eq;

broadcast use vstd::seq::group_seq_axioms, vstd::std_specs::vec::group_vec_axioms;

/// A parsed JSON document. The transport hands the client one of these
/// for every received frame; outbound, the client renders one into the
/// exact byte sequence that goes on the wire. Numbers are 64-bit
/// integers: the protocol carries every numeric payload it needs
/// (status codes, integer scalars, timestamps) in that range.
#[derive(Debug)]
pub enum Json {
    Null,
    Bool(bool),
    Int(i64),
    Str(String),
    Arr(Vec<Json>),
    Obj(Vec<(String, Json)>),
}

/// The mathematical shape of a JSON document: what `Json` looks like in
/// contracts.
pub enum JsonV {
    Null,
    Bool(bool),
    Int(i64),
    Str(Seq<char>),
    Arr(Seq<JsonV>),
    Obj(Seq<(Seq<char>, JsonV)>),
}

/// The shape of a `Json` value.
pub open spec fn json_view(j: Json) -> JsonV
    decreases j,
{
    match j {
        Json::Null => JsonV::Null,
        Json::Bool(b) => JsonV::Bool(b),
        Json::Int(n) => JsonV::Int(n),
        Json::Str(s) => JsonV::Str(s@),
        Json::Arr(a) => JsonV::Arr(arr_view(a@)),
        Json::Obj(o) => JsonV::Obj(obj_view(o@)),
    }
}

/// The shapes of array elements, in order.
pub open spec fn arr_view(s: Seq<Json>) -> Seq<JsonV>
    decreases s,
{
    if s.len() == 0 {
        Seq::empty()
    } else {
        seq![json_view(s[0])] + arr_view(s.drop_first())
    }
}

/// The shapes of object entries, in order.
pub open spec fn obj_view(s: Seq<(String, Json)>) -> Seq<(Seq<char>, JsonV)>
    decreases s,
{
    if s.len() == 0 {
        Seq::empty()
    } else {
        seq![(s[0].0@, json_view(s[0].1))] + obj_view(s.drop_first())
    }
}

/// `arr_view` maps the sequence element by element.
pub proof fn lemma_arr_view(s: Seq<Json>)
    ensures
        arr_view(s).len() == s.len(),
        forall|i: int| 0 <= i < s.len() ==> arr_view(s)[i] == json_view(s[i]),
    decreases s.len(),
{
    if s.len() > 0 {
        lemma_arr_view(s.drop_first());
    }
}

/// `obj_view` maps the entries element by element.
pub proof fn lemma_obj_view(s: Seq<(String, Json)>)
    ensures
        obj_view(s).len() == s.len(),
        forall|i: int| 0 <= i < s.len() ==> obj_view(s)[i] == (s[i].0@, json_view(s[i].1)),
    decreases s.len(),
{
    if s.len() > 0 {
        lemma_obj_view(s.drop_first());
    }
}

impl View for Json {
    type V = JsonV;

    open spec fn view(&self) -> JsonV {
        json_view(*self)
    }
}

/// The decimal digits of `n` (`n >= 0`), most significant first.
pub open spec fn nat_bytes(n: int) -> Seq<u8>
    decreases n,
{
    if n < 10 {
        seq![(48 + if n >= 0 { n } else { 0 }) as u8]
    } else {
        nat_bytes(n / 10) + seq![(48 + n % 10) as u8]
    }
}

/// The decimal rendering of `n`: a minus sign and then the digits of its
/// magnitude.
pub open spec fn int_bytes(n: int) -> Seq<u8> {
    if n < 0 {
        seq![45u8] + nat_bytes(-n)
    } else {
        nat_bytes(n)
    }
}

/// How one byte of string content is rendered inside a JSON string
/// literal: quote and backslash get a backslash escape, control bytes a
/// `\u00XX` escape, and every other byte stands as itself.
pub open spec fn esc_byte(b: u8) -> Seq<u8> {
    if b == 34 {
        seq![92u8, 34u8]
    } else if b == 92 {
        seq![92u8, 92u8]
    } else if b < 32 {
        seq![92u8, 117u8, 48u8, 48u8, hex_digit((b / 16) as int), hex_digit((b % 16) as int)]
    } else {
        seq![b]
    }
}

/// The lower-case hex digit for `n` in `0 .. 16`.
pub open spec fn hex_digit(n: int) -> u8 {
    if n < 10 {
        (48 + n) as u8
    } else {
        (87 + n) as u8
    }
}

/// String content, escaped byte for byte.
pub open spec fn escape_bytes(bs: Seq<u8>) -> Seq<u8>
    decreases bs.len(),
{
    if bs.len() == 0 {
        Seq::empty()
    } else {
        escape_bytes(bs.drop_last()) + esc_byte(bs.last())
    }
}

/// A JSON string literal: quoted, escaped UTF-8 of `chars`.
pub open spec fn str_lit_bytes(chars: Seq<char>) -> Seq<u8> {
    seq![34u8] + escape_bytes(vstd::utf8::encode_utf8(chars)) + seq![34u8]
}

/// The byte rendering of a JSON document: no whitespace, object entries
/// and array elements in stored order, separated by commas.
pub open spec fn json_bytes(j: JsonV) -> Seq<u8>
    decreases j,
{
    match j {
        JsonV::Null => seq![110u8, 117u8, 108u8, 108u8],  // null
        JsonV::Bool(b) => if b {
            seq![116u8, 114u8, 117u8, 101u8]  // true
        } else {
            seq![102u8, 97u8, 108u8, 115u8, 101u8]  // false
        },
        JsonV::Int(n) => int_bytes(n as int),
        JsonV::Str(s) => str_lit_bytes(s),
        JsonV::Arr(a) => seq![91u8] + arr_items_bytes(a) + seq![93u8],
        JsonV::Obj(o) => seq![123u8] + obj_items_bytes(o) + seq![125u8],
    }
}

/// Array elements, comma-separated.
pub open spec fn arr_items_bytes(s: Seq<JsonV>) -> Seq<u8>
    decreases s,
{
    if s.len() == 0 {
        Seq::empty()
    } else if s.len() == 1 {
        json_bytes(s[0])
    } else {
        arr_items_bytes(s.drop_last()) + seq![44u8] + json_bytes(s.last())
    }
}

/// Object entries, comma-separated; each is a quoted key, a colon, and a
/// value.
pub open spec fn obj_items_bytes(s: Seq<(Seq<char>, JsonV)>) -> Seq<u8>
    decreases s,
{
    if s.len() == 0 {
        Seq::empty()
    } else if s.len() == 1 {
        str_lit_bytes(s[0].0) + seq![58u8] + json_bytes(s[0].1)
    } else {
        obj_items_bytes(s.drop_last()) + seq![44u8] + str_lit_bytes(s.last().0) + seq![58u8]
            + json_bytes(s.last().1)
    }
}

/// The first value in `entries` stored under `key`, if any.
pub open spec fn spec_obj_lookup(entries: Seq<(Seq<char>, JsonV)>, key: Seq<char>) -> Option<JsonV>
    decreases entries.len(),
{
    if entries.len() == 0 {
        None
    } else if entries[0].0 == key {
        Some(entries[0].1)
    } else {
        spec_obj_lookup(entries.drop_first(), key)
    }
}

/// What looking `key` up in `j` finds: the first matching member when
/// `j` is an object that has one, nothing otherwise.
pub open spec fn spec_member(j: JsonV, key: Seq<char>) -> Option<JsonV> {
    match j {
        JsonV::Obj(o) => spec_obj_lookup(o, key),
        _ => None,
    }
}

/// When the first `i` entries miss `key` and entry `i` matches it, the
/// lookup finds entry `i`.
proof fn lemma_obj_lookup_first_match(entries: Seq<(Seq<char>, JsonV)>, key: Seq<char>, i: int)
    requires
        0 <= i < entries.len(),
        entries[i].0 == key,
        forall|j: int| 0 <= j < i ==> entries[j].0 != key,
    ensures
        spec_obj_lookup(entries, key) == Some(entries[i].1),
    decreases i,
{
    if i > 0 {
        lemma_obj_lookup_first_match(entries.drop_first(), key, i - 1);
    }
}

/// When no entry carries `key`, the lookup finds nothing.
proof fn lemma_obj_lookup_no_match(entries: Seq<(Seq<char>, JsonV)>, key: Seq<char>)
    requires
        forall|j: int| 0 <= j < entries.len() ==> entries[j].0 != key,
    ensures
        spec_obj_lookup(entries, key) is None,
    decreases entries.len(),
{
    if entries.len() > 0 {
        lemma_obj_lookup_no_match(entries.drop_first(), key);
    }
}

impl Json {
    /// The member of this object stored under `key`: the first matching
    /// entry, or `None` when there is none or this is not an object.
    #[verifier::loop_isolation(false)]
    pub fn get<'a>(&'a self, key: &str) -> (r: Option<&'a Json>)
        ensures
            match r {
                Option::None => spec_member(self@, key@) is None,
                Option::Some(v) => spec_member(self@, key@) == Some(v@),
            },
    {
        match self {
            Json::Obj(entries) => {
                let ghost ov = self@->Obj_0;
                proof {
                    assert(ov == obj_view(entries@));
                    lemma_obj_view(entries@);
                }
                let mut i: usize = 0;
                while i < entries.len()
                    invariant
                        0 <= i <= entries@.len(),
                        forall|j: int| 0 <= j < i ==> ov[j].0 != key@,
                    decreases entries@.len() - i,
                {
                    if str_eq(entries[i].0.as_str(), key) {
                        proof {
                            lemma_obj_lookup_first_match(ov, key@, i as int);
                        }
                        return Some(&entries[i].1);
                    }
                    i += 1;
                }
                proof {
                    lemma_obj_lookup_no_match(ov, key@);
                }
                None
            },
            _ => None,
        }
    }
}

/// Appends the decimal digits of `n`.
fn push_nat(out: &mut Vec<u8>, n: u64)
    ensures
        final(out)@ == old(out)@ + nat_bytes(n as int),
    decreases n,
{
    if n >= 10 {
        push_nat(out, n / 10);
    }
    out.push(48 + (n % 10) as u8);
}

/// Appends the decimal rendering of `n`, sign included.
fn push_int(out: &mut Vec<u8>, n: i64)
    ensures
        final(out)@ == old(out)@ + int_bytes(n as int),
{
    if n < 0 {
        out.push(45);  // -
        let mag: u64 = if n == i64::MIN {
            9223372036854775808u64
        } else {
            (-n) as u64
        };
        proof {
            assert(mag as int == -(n as int));
        }
        push_nat(out, mag);
    } else {
        push_nat(out, n as u64);
    }
}

/// Appends the escaped bytes of `s`'s UTF-8 content.
fn push_escaped(out: &mut Vec<u8>, s: &str)
    ensures
        final(out)@ == old(out)@ + escape_bytes(s.spec_bytes()),
{
    let bs = s.as_bytes();
    let mut i: usize = 0;
    while i < bs.len()
        invariant
            0 <= i <= bs@.len(),
            bs@ == s.spec_bytes(),
            out@ == old(out)@ + escape_bytes(bs@.take(i as int)),
        decreases bs@.len() - i,
    {
        let b = bs[i];
        if b == 34 {
            out.push(92);
            out.push(34);
        } else if b == 92 {
            out.push(92);
            out.push(92);
        } else if b < 32 {
            out.push(92);
            out.push(117);
            out.push(48);
            out.push(48);
            let hi = b / 16;
            let lo = b % 16;
            out.push(if hi < 10 {
                48 + hi
            } else {
                87 + hi
            });
            out.push(if lo < 10 {
                48 + lo
            } else {
                87 + lo
            });
        } else {
            out.push(b);
        }
        proof {
            assert(bs@.take(i + 1).drop_last() =~= bs@.take(i as int));
            assert(bs@.take(i + 1).last() == bs@[i as int]);
        }
        i += 1;
    }
    proof {
        assert(bs@.take(bs@.len() as int) =~= bs@);
    }
}

/// Appends a quoted, escaped JSON string literal holding `s`.
fn push_str_lit(out: &mut Vec<u8>, s: &str)
    ensures
        final(out)@ == old(out)@ + str_lit_bytes(s@),
{
    out.push(34);
    push_escaped(out, s);
    out.push(34);
}

/// Appends the byte rendering of `j`.
#[verifier::loop_isolation(false)]
#[verifier::rlimit(100)]
fn push_json(out: &mut Vec<u8>, j: &Json)
    ensures
        final(out)@ == old(out)@ + json_bytes(j@),
    decreases *j,
{
    match j {
        Json::Null => {
            out.push(110);
            out.push(117);
            out.push(108);
            out.push(108);
            proof {
                assert(old(out)@ + json_bytes(j@) =~= out@);
            }
        },
        Json::Bool(b) => {
            if *b {
                out.push(116);
                out.push(114);
                out.push(117);
                out.push(101);
            } else {
                out.push(102);
                out.push(97);
                out.push(108);
                out.push(115);
                out.push(101);
            }
            proof {
                assert(old(out)@ + json_bytes(j@) =~= out@);
            }
        },
        Json::Int(n) => {
            push_int(out, *n);
        },
        Json::Str(s) => {
            push_str_lit(out, s.as_str());
        },
        Json::Arr(a) => {
            let ghost av = j@->Arr_0;
            proof {
                assert(av == arr_view(a@));
                lemma_arr_view(a@);
            }
            out.push(91);  // [
            let mut i: usize = 0;
            while i < a.len()
                invariant
                    0 <= i <= av.len(),
                    av.len() == a@.len(),
                    out@ == old(out)@ + seq![91u8] + arr_items_bytes(av.take(i as int)) + (
                    if i > 0 && i < av.len() {
                        seq![44u8]
                    } else {
                        Seq::<u8>::empty()
                    }),
                decreases av.len() - i,
            {
                push_json(out, &a[i]);
                proof {
                    assert(av.take(i + 1).drop_last() =~= av.take(i as int));
                    assert(av.take(i + 1).last() == av[i as int]);
                }
                i += 1;
                if i < a.len() {
                    out.push(44);  // ,
                }
            }
            out.push(93);  // ]
            proof {
                assert(av.take(av.len() as int) =~= av);
                assert(out@ =~= old(out)@ + json_bytes(j@));
            }
        },
        Json::Obj(o) => {
            let ghost ov = j@->Obj_0;
            proof {
                assert(ov == obj_view(o@));
                lemma_obj_view(o@);
            }
            out.push(123);  // {
            let mut i: usize = 0;
            while i < o.len()
                invariant
                    0 <= i <= ov.len(),
                    ov.len() == o@.len(),
                    out@ == old(out)@ + seq![123u8] + obj_items_bytes(ov.take(i as int)) + (
                    if i > 0 && i < ov.len() {
                        seq![44u8]
                    } else {
                        Seq::<u8>::empty()
                    }),
                decreases ov.len() - i,
            {
                push_str_lit(out, o[i].0.as_str());
                out.push(58);  // :
                push_json(out, &o[i].1);
                proof {
                    assert(ov.take(i + 1).drop_last() =~= ov.take(i as int));
                    assert(ov.take(i + 1).last() == ov[i as int]);
                }
                i += 1;
                if i < o.len() {
                    out.push(44);  // ,
                }
            }
            out.push(125);  // }
            proof {
                assert(ov.take(ov.len() as int) =~= ov);
                assert(out@ =~= old(out)@ + json_bytes(j@));
            }
        },
    }
}

/// The byte rendering of `j`: exactly `json_bytes` of its shape.
pub fn json_to_bytes(j: &Json) -> (out: Vec<u8>)
    ensures
        out@ == json_bytes(j@),
{
    let mut out: Vec<u8> = Vec::new();
    push_json(&mut out, j);
    out
}

} // verus!
