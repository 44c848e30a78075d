use vstd::prelude::*;

verus! {

use vstd::string::StringSliceAdditionalSpecFns;
use vstd::utf8::encode_utf8;

use crate::codec::{decode_value, spec_encode};
use crate::errors::GremlinError;
use crate::json::{json_bytes, json_to_bytes, spec_member, Json, JsonV};
use crate::message::{alias_view, build_message, envelope_to_json, spec_request_json};
use crate::value::{entries_view, GMap, GUuid, GValue, GValueV};

broadcast use vstd::seq::group_seq_axioms, vstd::std_specs::vec::group_vec_axioms;

/// The wire representation the codec speaks. The client pins one version
/// for its lifetime; only version 3 of the typed JSON representation is
/// spoken here.
#[derive(Debug, Clone, Copy, PartialEq, Eq, Structural)]
pub enum GraphSON {
    V3,
}

/// The protocol client core: the codec version it pins and the optional
/// routing alias. The connection pool and the socket calls live outside;
/// this part builds the exact bytes to send and classifies every
/// received frame.
#[derive(Debug)]
pub struct GremlinClient {
    pub io: GraphSON,
    pub alias: Option<String>,
}

/// One response envelope's status: the server's numeric code and its
/// message, verbatim.
#[derive(Debug)]
pub struct Response {
    pub code: i64,
    pub message: String,
}

/// The MIME identifier that frames every request.
pub open spec fn content_type_chars() -> Seq<char> {
    "application/json"@
}

/// The framed request: one byte holding the content-type length, the
/// content-type bytes, then the body, bit for bit.
pub open spec fn spec_frame(body: Seq<u8>) -> Seq<u8> {
    seq![(encode_utf8(content_type_chars()).len() as u8)] + encode_utf8(content_type_chars())
        + body
}

/// Framing law: the first byte is the content-type length, the content
/// type follows it, and the body comes after, byte for byte, whatever
/// the body holds.
pub proof fn lemma_frame_layout(body: Seq<u8>)
    ensures
        spec_frame(body).len() == 1 + encode_utf8(content_type_chars()).len() + body.len(),
        spec_frame(body)[0] == encode_utf8(content_type_chars()).len() as u8,
        spec_frame(body).subrange(1, 1 + encode_utf8(content_type_chars()).len() as int)
            =~= encode_utf8(content_type_chars()),
        spec_frame(body).skip(1 + encode_utf8(content_type_chars()).len() as int) =~= body,
{
}

/// The status code of a response frame, when the frame carries one.
pub open spec fn spec_status_code(f: JsonV) -> Option<i64> {
    match spec_member(f, "status"@) {
        Option::Some(st) => match spec_member(st, "code"@) {
            Option::Some(JsonV::Int(n)) => Some(n),
            _ => None,
        },
        Option::None => None,
    }
}

/// The status message of a response frame, when the frame carries one.
pub open spec fn spec_status_message(f: JsonV) -> Option<Seq<char>> {
    match spec_member(f, "status"@) {
        Option::Some(st) => match spec_member(st, "message"@) {
            Option::Some(JsonV::Str(s)) => Some(s),
            _ => None,
        },
        Option::None => None,
    }
}

/// The result payload of a response frame, when one is present.
pub open spec fn spec_result_data(f: JsonV) -> Option<JsonV> {
    match spec_member(f, "result"@) {
        Option::Some(res) => spec_member(res, "data"@),
        Option::None => None,
    }
}

/// What binding the tail of `params` from position `from` on yields:
/// every entry of `entries` carries the value of the last occurrence of
/// its key in that tail, and every name in the tail is bound.
pub open spec fn spec_bound(
    params: Seq<(String, GValue)>,
    from: int,
    entries: Seq<(String, GValue)>,
) -> bool {
    &&& (forall|e: int|
        #![trigger entries[e]]
        0 <= e < entries.len() ==> exists|k: int|
            {
                &&& from <= k < params.len()
                &&& params[k].0@ == entries[e].0@
                &&& params[k].1 == entries[e].1
                &&& (forall|j: int|
                    #![trigger params[j]]
                    k < j < params.len() ==> params[j].0@ != entries[e].0@)
            })
    &&& (forall|k: int|
        #![trigger params[k]]
        from <= k < params.len() ==> exists|e: int|
            0 <= e < entries.len() && entries[e].0@ == params[k].0@)
}

/// Binds a sequence of named parameters into a mapping with
/// last-write-wins semantics: every name is bound, each to the value of
/// its last occurrence, and no name is bound twice. Scans from the last
/// parameter so that an earlier occurrence never overrides a later one.
#[verifier::rlimit(100)]
pub fn bind_params(params: Vec<(String, GValue)>) -> (m: GMap)
    ensures
        m.wf(),
        spec_bound(params@, 0, m.0@),
{
    let ghost orig = params@;
    let mut rest = params;
    let mut m = GMap::new();
    while rest.len() > 0
        invariant
            m.wf(),
            rest@.len() <= orig.len(),
            rest@ =~= orig.take(rest@.len() as int),
            spec_bound(orig, rest@.len() as int, m.0@),
        decreases rest@.len(),
    {
        let ghost t = rest@.len() as int;
        let (key, value) = match rest.pop() {
            Option::Some(kv) => kv,
            Option::None => {
                return m;
            },
        };
        proof {
            assert(orig[t - 1] == (key, value));
        }
        let bound = m.get(key.as_str()).is_some();
        proof {
            crate::value::lemma_lookup_contains(m.0@, key@);
        }
        if !bound {
            let ghost mold = m.0@;
            proof {
                assert(forall|j: int| 0 <= j < mold.len() ==> mold[j].0@ != key@);
            }
            m.insert(key, value);
            proof {
                assert(m.0@ =~= mold + seq![(key, value)]);
                assert forall|k: int| #![trigger orig[k]] t - 1 <= k < orig.len() implies exists|
                    e: int,
                |
                    0 <= e < m.0@.len() && m.0@[e].0@ == orig[k].0@ by {
                    if k >= t {
                        let e = choose|e: int| 0 <= e < mold.len() && mold[e].0@ == orig[k].0@;
                        assert(m.0@[e].0@ == orig[k].0@);
                    } else {
                        assert(m.0@[m.0@.len() - 1].0@ == orig[k].0@);
                    }
                }
                assert forall|e: int| #![trigger m.0@[e]] 0 <= e < m.0@.len() implies exists|
                    k: int,
                |
                    {
                        &&& t - 1 <= k < orig.len()
                        &&& orig[k].0@ == m.0@[e].0@
                        &&& orig[k].1 == m.0@[e].1
                        &&& (forall|j: int|
                            #![trigger orig[j]]
                            k < j < orig.len() ==> orig[j].0@ != m.0@[e].0@)
                    } by {
                    if e < m.0@.len() - 1 {
                        assert(m.0@[e] == mold[e]);
                    } else {
                        assert(m.0@[e] == (key, value));
                        assert forall|j: int| #![trigger orig[j]] t - 1 < j < orig.len() implies
                            orig[j].0@ != key@ by {
                            let f = choose|f: int| 0 <= f < mold.len() && mold[f].0@ == orig[j].0@;
                        }
                    }
                }
            }
        } else {
            proof {
                assert forall|k: int| #![trigger orig[k]] t - 1 <= k < orig.len() implies exists|
                    e: int,
                |
                    0 <= e < m.0@.len() && m.0@[e].0@ == orig[k].0@ by {
                }
            }
        }
    }
    proof {
        assert(rest@.len() == 0);
        assert(orig == params@);
    }
    m
}

impl GremlinClient {
    /// A client core with the default wire version and no routing alias.
    pub fn new() -> (c: GremlinClient)
        ensures
            c.io == GraphSON::V3,
            c.alias is None,
    {
        GremlinClient { io: GraphSON::V3, alias: None }
    }

    /// A client like this one whose requests are routed to `alias`. The
    /// original client is untouched.
    pub fn alias(&self, alias: String) -> (c: GremlinClient)
        ensures
            c.io == self.io,
            c.alias == Some(alias),
    {
        GremlinClient { io: self.io, alias: Some(alias) }
    }

    /// The exact bytes that one request puts on the wire: the request
    /// envelope for `script` with `bindings` and this client's alias,
    /// rendered as JSON and framed behind the content-type prefix.
    pub fn prepare_request(&self, script: String, bindings: GMap, request_id: GUuid) -> (out: Vec<
        u8,
    >)
        ensures
            out@ == spec_frame(
                json_bytes(
                    spec_request_json(
                        request_id.0,
                        script@,
                        entries_view(bindings.0@),
                        alias_view(self.alias),
                    ),
                ),
            ),
    {
        let alias = match &self.alias {
            Option::Some(a) => Some(a.clone()),
            Option::None => None,
        };
        let ghost gscript = script@;
        let ghost gbind = bindings.0@;
        let envelope = build_message(script, bindings, alias, request_id);
        let body_json = envelope_to_json(&envelope);
        let body = json_to_bytes(&body_json);
        frame_message(&body)
    }

    /// Classifies one received response frame. A frame without the
    /// status fields is a deserialization error. A no-content status
    /// yields an empty queue with nothing decoded. A success status
    /// decodes the result payload into a queue whose values re-encode,
    /// in order, to exactly that payload; an absent or null payload
    /// yields an empty queue. Any other status fails with the server's
    /// code and message, verbatim.
    pub fn read_response(&self, frame: &Json) -> (r: Result<
        (Response, Vec<GValue>),
        GremlinError,
    >)
        ensures
            (spec_status_code(frame@) is None || spec_status_message(frame@) is None) ==> (
            r matches Err(e) && e matches GremlinError::Deserialization(_)),
            match (spec_status_code(frame@), spec_status_message(frame@)) {
                (Option::Some(code), Option::Some(msg)) => {
                    &&& code == 204 ==> (r matches Ok((resp, q)) && resp.code == 204
                        && resp.message@ == msg && q@.len() == 0)
                    &&& (code == 200 || code == 206) ==> {
                        &&& (spec_result_data(frame@) is None || spec_result_data(frame@)
                            == Some(JsonV::Null)) ==> (r matches Ok((resp, q)) && resp.code == code
                            && resp.message@ == msg && q@.len() == 0)
                        &&& (match spec_result_data(frame@) {
                            Option::Some(d) => !(d is Null) ==> ((r matches Ok((resp, q))
                                ==> resp.code == code && resp.message@ == msg && spec_encode(
                                GValueV::List(crate::value::gvalues_view(q@)),
                            ) == d) && (r matches Err(e)
                                ==> e matches GremlinError::Deserialization(_))),
                            Option::None => true,
                        })
                    }
                    &&& (code != 200 && code != 204 && code != 206) ==> (r matches Err(e)
                        && e matches GremlinError::Request(c, m) && c == code && m@ == msg)
                },
                _ => true,
            },
    {
        let status = match frame.get("status") {
            Option::Some(s) => s,
            Option::None => {
                return Err(
                    GremlinError::Deserialization("response frame without a status".to_owned()),
                );
            },
        };
        let code: i64 = match status.get("code") {
            Option::Some(Json::Int(n)) => *n,
            _ => {
                return Err(
                    GremlinError::Deserialization("response status without a code".to_owned()),
                );
            },
        };
        let message: String = match status.get("message") {
            Option::Some(Json::Str(s)) => s.clone(),
            _ => {
                return Err(
                    GremlinError::Deserialization("response status without a message".to_owned()),
                );
            },
        };
        if code == 200 || code == 206 {
            let data = match frame.get("result") {
                Option::Some(res) => res.get("data"),
                Option::None => None,
            };
            match data {
                Option::None => Ok((Response { code, message }, Vec::new())),
                Option::Some(d) => {
                    match d {
                        Json::Null => Ok((Response { code, message }, Vec::new())),
                        _ => {
                            let v = match decode_value(d) {
                                Ok(v) => v,
                                Err(e) => {
                                    return Err(e);
                                },
                            };
                            match v {
                                GValue::List(l) => Ok((Response { code, message }, l.0)),
                                _ => Err(
                                    GremlinError::Deserialization(
                                        "result payload is not a list".to_owned(),
                                    ),
                                ),
                            }
                        },
                    }
                },
            }
        } else if code == 204 {
            Ok((Response { code, message }, Vec::new()))
        } else {
            Err(GremlinError::Request(code, message))
        }
    }
}

/// Frames a request body for the wire: one byte holding the
/// content-type length, the content-type bytes, then the body.
pub fn frame_message(body: &Vec<u8>) -> (out: Vec<u8>)
    ensures
        out@ == spec_frame(body@),
{
    let ct = "application/json";
    let ctb = ct.as_bytes();
    let mut out: Vec<u8> = Vec::new();
    out.push(ctb.len() as u8);
    let mut i: usize = 0;
    while i < ctb.len()
        invariant
            0 <= i <= ctb@.len(),
            ctb@ == encode_utf8(content_type_chars()),
            out@ =~= seq![(ctb@.len() as u8)] + ctb@.take(i as int),
        decreases ctb@.len() - i,
    {
        out.push(ctb[i]);
        proof {
            assert(ctb@.take(i + 1) =~= ctb@.take(i as int) + seq![ctb@[i as int]]);
        }
        i += 1;
    }
    proof {
        assert(ctb@.take(ctb@.len() as int) =~= ctb@);
    }
    let mut k: usize = 0;
    while k < body.len()
        invariant
            0 <= k <= body@.len(),
            ctb@ == encode_utf8(content_type_chars()),
            out@ =~= seq![(ctb@.len() as u8)] + ctb@ + body@.take(k as int),
        decreases body@.len() - k,
    {
        out.push(body[k]);
        proof {
            assert(body@.take(k + 1) =~= body@.take(k as int) + seq![body@[k as int]]);
        }
        k += 1;
    }
    proof {
        assert(body@.take(body@.len() as int) =~= body@);
        assert(out@ =~= spec_frame(body@));
    }
    out
}

} // verus!
