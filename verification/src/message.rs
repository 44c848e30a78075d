use vstd::prelude::*;

verus! {

use crate::codec::{encode_map, spec_encode_flat, typed_obj, uuid_chars, uuid_to_string};
use crate::json::{lemma_obj_view, obj_view, Json, JsonV};
use crate::value::{entries_view, GMap, GUuid, GValueV};

broadcast use vstd::seq::group_seq_axioms, vstd::std_specs::vec::group_vec_axioms;

/// One request envelope: everything the server needs to evaluate a
/// script once. Built per call and discarded after encoding.
#[derive(Debug)]
pub struct Envelope {
    /// Correlates this request with its responses.
    pub request_id: GUuid,
    /// The operation: always script evaluation here.
    pub op: String,
    /// The sub-processor designation: always empty here.
    pub processor: String,
    /// The traversal script, interpreted server-side.
    pub gremlin: String,
    /// Named values bound into the script at evaluation time.
    pub bindings: GMap,
    /// Routes the request to a named traversal source when set; the
    /// server falls back to its default graph binding when absent.
    pub aliases: Option<String>,
}

/// The JSON shape of a request envelope: `aliases` appears exactly when
/// an alias was configured.
pub open spec fn spec_request_json(
    request_id: u128,
    gremlin: Seq<char>,
    bindings: Seq<(Seq<char>, GValueV)>,
    alias: Option<Seq<char>>,
) -> JsonV {
    JsonV::Obj(
        seq![
            ("requestId"@, JsonV::Str(uuid_chars(request_id))),
            ("op"@, JsonV::Str("eval"@)),
            ("processor"@, JsonV::Str(""@)),
            (
                "args"@,
                JsonV::Obj(
                    seq![
                        ("gremlin"@, JsonV::Str(gremlin)),
                        ("bindings"@, typed_obj("g:Map"@, JsonV::Arr(spec_encode_flat(bindings)))),
                    ]
                        + (match alias {
                        Option::Some(a) => seq![
                            ("aliases"@, JsonV::Obj(seq![("g"@, JsonV::Str(a))])),
                        ],
                        Option::None => Seq::empty(),
                    }),
                ),
            ),
        ],
    )
}

/// The view of an optional alias string.
pub open spec fn alias_view(alias: Option<String>) -> Option<Seq<char>> {
    match alias {
        Option::Some(a) => Some(a@),
        Option::None => None,
    }
}

/// Assembles a request envelope: the fixed script-evaluation operation,
/// an empty processor designation, the script, its bindings, and the
/// alias exactly as configured.
pub fn build_message(script: String, bindings: GMap, alias: Option<String>, request_id: GUuid) -> (e:
    Envelope)
    ensures
        e.request_id == request_id,
        e.op@ == "eval"@,
        e.processor@ == ""@,
        e.gremlin == script,
        e.bindings == bindings,
        e.aliases == alias,
{
    Envelope {
        request_id,
        op: "eval".to_owned(),
        processor: "".to_owned(),
        gremlin: script,
        bindings,
        aliases: alias,
    }
}

/// Renders an envelope as the JSON document that goes on the wire:
/// exactly `spec_request_json` of its parts.
pub fn envelope_to_json(e: &Envelope) -> (j: Json)
    ensures
        j@ == spec_request_json(
            e.request_id.0,
            e.gremlin@,
            entries_view(e.bindings.0@),
            alias_view(e.aliases),
        ),
{
    let mut args: Vec<(String, Json)> = Vec::new();
    args.push(("gremlin".to_owned(), Json::Str(e.gremlin.clone())));
    args.push(("bindings".to_owned(), encode_map(&e.bindings)));
    match &e.aliases {
        Option::Some(a) => {
            let mut amap: Vec<(String, Json)> = Vec::new();
            amap.push(("g".to_owned(), Json::Str(a.clone())));
            proof {
                lemma_obj_view(amap@);
                assert(obj_view(amap@) =~= seq![("g"@, JsonV::Str(a@))]);
            }
            args.push(("aliases".to_owned(), Json::Obj(amap)));
        },
        Option::None => {},
    }
    let ghost spec = spec_request_json(
        e.request_id.0,
        e.gremlin@,
        entries_view(e.bindings.0@),
        alias_view(e.aliases),
    );
    proof {
        lemma_obj_view(args@);
        assert(obj_view(args@) =~~= spec->Obj_0[3].1->Obj_0);
    }
    let mut top: Vec<(String, Json)> = Vec::new();
    top.push(("requestId".to_owned(), Json::Str(uuid_to_string(e.request_id.0))));
    top.push(("op".to_owned(), Json::Str("eval".to_owned())));
    top.push(("processor".to_owned(), Json::Str("".to_owned())));
    top.push(("args".to_owned(), Json::Obj(args)));
    proof {
        lemma_obj_view(top@);
        assert(obj_view(top@) =~~= spec->Obj_0);
    }
    Json::Obj(top)
}

} // verus!
