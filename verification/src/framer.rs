use vstd::prelude::*;

use crate::json::{nums_wf, ser, Json, JsonV};
use crate::jsonrpc::{
    classified_v, classify_v, code_in_range, lemma_code_int_round_trip, spec_code_int,
    spec_code_of_int, DecodeError, ErrorData, ErrorDataV, IdV, Message, MessageV, NumberOrString,
    Raw, RawV,
};

verus! {

/// The wire form of a message identifier.
pub open spec fn id_json(i: IdV) -> JsonV {
    match i {
        IdV::Num(n) => JsonV::Int(n),
        IdV::Str(s) => JsonV::Str(s),
    }
}

/// The wire form of an error object: `code` and `message` always, `data`
/// only when present.
pub open spec fn error_json(e: ErrorDataV) -> JsonV {
    JsonV::Obj(
        seq![("code"@, JsonV::Int(spec_code_int(e.code))), ("message"@, JsonV::Str(e.message))]
            + (match e.data {
            Some(d) => seq![("data"@, d)],
            None => Seq::empty(),
        }),
    )
}

/// Wraps a value as a one-member-or-empty tail of an object member list.
pub open spec fn opt_memb(key: Seq<char>, v: Option<JsonV>) -> Seq<(Seq<char>, JsonV)> {
    match v {
        Some(j) => seq![(key, j)],
        None => Seq::empty(),
    }
}

/// The wire object of an envelope: its present fields, in the fixed order
/// jsonrpc, id, method, params, result, error.
pub open spec fn raw_json(r: RawV) -> JsonV {
    JsonV::Obj(
        opt_memb(
            "jsonrpc"@,
            match r.jsonrpc {
                Some(s) => Some(JsonV::Str(s)),
                None => None,
            },
        ) + opt_memb(
            "id"@,
            match r.id {
                Some(i) => Some(id_json(i)),
                None => None,
            },
        ) + opt_memb(
            "method"@,
            match r.method {
                Some(m) => Some(JsonV::Str(m)),
                None => None,
            },
        ) + opt_memb("params"@, r.params) + opt_memb("result"@, r.result) + opt_memb(
            "error"@,
            match r.error {
                Some(e) => Some(error_json(e)),
                None => None,
            },
        ),
    )
}

/// The envelope an outgoing message is put into: tagged with the protocol
/// version, each variant's fields in their wire places.
pub open spec fn envelope_v(m: MessageV) -> RawV {
    match m {
        MessageV::Request(rq) => RawV {
            jsonrpc: Some("2.0"@),
            id: Some(rq.id),
            method: Some(rq.method),
            params: rq.params,
            result: None,
            error: None,
        },
        MessageV::Response(rs) => RawV {
            jsonrpc: Some("2.0"@),
            id: rs.id,
            method: None,
            params: None,
            result: rs.result,
            error: rs.error,
        },
        MessageV::Notification(n) => RawV {
            jsonrpc: Some("2.0"@),
            id: None,
            method: Some(n.method),
            params: n.params,
            result: None,
            error: None,
        },
        MessageV::Error(e) => RawV {
            jsonrpc: Some("2.0"@),
            id: e.id,
            method: None,
            params: None,
            result: None,
            error: Some(e.error),
        },
        MessageV::Null => RawV {
            jsonrpc: None,
            id: None,
            method: None,
            params: None,
            result: None,
            error: None,
        },
    }
}

/// Puts an outgoing message into its envelope, exactly as `envelope_v` says.
pub fn envelope_of(m: Message) -> (r: Raw)
    ensures
        r@ == envelope_v(m@),
{
    match m {
        Message::Request(rq) => Raw {
            jsonrpc: Some("2.0".to_owned()),
            id: Some(rq.id),
            method: Some(rq.method),
            params: rq.params,
            result: None,
            error: None,
        },
        Message::Response(rs) => Raw {
            jsonrpc: Some("2.0".to_owned()),
            id: rs.id,
            method: None,
            params: None,
            result: rs.result,
            error: rs.error,
        },
        Message::Notification(n) => Raw {
            jsonrpc: Some("2.0".to_owned()),
            id: None,
            method: Some(n.method),
            params: n.params,
            result: None,
            error: None,
        },
        Message::Error(e) => Raw {
            jsonrpc: Some("2.0".to_owned()),
            id: e.id,
            method: None,
            params: None,
            result: None,
            error: Some(e.error),
        },
        Message::Null => Raw {
            jsonrpc: None,
            id: None,
            method: None,
            params: None,
            result: None,
            error: None,
        },
    }
}

fn id_to_json(i: NumberOrString) -> (r: Json)
    ensures
        r@ == id_json(i@),
{
    match i {
        NumberOrString::Number(n) => Json::Int(n as i64),
        NumberOrString::String(s) => Json::Str(s),
    }
}

fn error_to_json(e: ErrorData) -> (r: Json)
    ensures
        r@ == error_json(e@),
{
    let mut membs: Vec<(String, Json)> = Vec::new();
    let key_code = "code".to_owned();
    let val_code = Json::Int(e.code.code_int());
    proof {
        assert(val_code@ == JsonV::Int(spec_code_int(e.code)));
    }
    let ghost vcv = val_code@;
    membs.push((key_code, val_code));
    proof {
        assert(membs@[0].0@ == "code"@);
        assert(membs@[0].1@ == vcv);
    }
    let key_message = "message".to_owned();
    let val_message = Json::Str(e.message);
    membs.push((key_message, val_message));
    proof {
        assert(membs@[1].0@ == "message"@);
        assert(membs@[1].1@ == JsonV::Str(e@.message));
    }
    match e.data {
        Some(d) => {
            let key_data = "data".to_owned();
            membs.push((key_data, d));
            proof {
                assert(membs@[2].0@ == "data"@);
            }
        },
        None => {},
    }
    let r = Json::Obj(membs);
    proof {
        let got = crate::json::json_view(r)->Obj_0;
        let want = error_json(e@)->Obj_0;
        assert(got.len() == want.len());
        assert(got[0] == (membs@[0].0@, crate::json::json_view(membs@[0].1)));
        assert(got[0] == ("code"@, JsonV::Int(spec_code_int(e@.code))));
        assert(got[1] == ("message"@, JsonV::Str(e@.message)));
        if e@.data is Some {
            assert(got[2] == ("data"@, e@.data->Some_0));
        }
        assert(got =~~= want);
        assert(r@ =~~= error_json(e@));
    }
    r
}

/// The member list a list of built pairs stands for.
pub open spec fn membs_view(ms: Seq<(String, Json)>) -> Seq<(Seq<char>, JsonV)> {
    Seq::new(
        ms.len(),
        |i: int|
            if 0 <= i < ms.len() {
                (ms[i].0@, crate::json::json_view(ms[i].1))
            } else {
                (Seq::empty(), JsonV::Null)
            },
    )
}

/// Turns an envelope into its wire object, exactly as `raw_json` says.
#[verifier::rlimit(100)]
pub fn json_of_raw(r: Raw) -> (j: Json)
    ensures
        j@ == raw_json(r@),
{
    let ghost rv = r@;
    let mut membs: Vec<(String, Json)> = Vec::new();
    let ghost w1 = opt_memb(
        "jsonrpc"@,
        match rv.jsonrpc {
            Some(s) => Some(JsonV::Str(s)),
            None => None,
        },
    );
    match r.jsonrpc {
        Some(s) => {
            let key = "jsonrpc".to_owned();
            let val = Json::Str(s);
            membs.push((key, val));
        },
        None => {},
    }
    proof {
        assert(membs_view(membs@) =~~= w1);
    }
    let ghost w2 = w1 + opt_memb(
        "id"@,
        match rv.id {
            Some(i) => Some(id_json(i)),
            None => None,
        },
    );
    match r.id {
        Some(i) => {
            let key = "id".to_owned();
            let val = id_to_json(i);
            membs.push((key, val));
        },
        None => {},
    }
    proof {
        assert(membs_view(membs@) =~~= w2);
    }
    let ghost w3 = w2 + opt_memb(
        "method"@,
        match rv.method {
            Some(m) => Some(JsonV::Str(m)),
            None => None,
        },
    );
    match r.method {
        Some(m) => {
            let key = "method".to_owned();
            let val = Json::Str(m);
            membs.push((key, val));
        },
        None => {},
    }
    proof {
        assert(membs_view(membs@) =~~= w3);
    }
    let ghost w4 = w3 + opt_memb("params"@, rv.params);
    match r.params {
        Some(p) => {
            let key = "params".to_owned();
            membs.push((key, p));
        },
        None => {},
    }
    proof {
        assert(membs_view(membs@) =~~= w4);
    }
    let ghost w5 = w4 + opt_memb("result"@, rv.result);
    match r.result {
        Some(v) => {
            let key = "result".to_owned();
            membs.push((key, v));
        },
        None => {},
    }
    proof {
        assert(membs_view(membs@) =~~= w5);
    }
    let ghost w6 = w5 + opt_memb(
        "error"@,
        match rv.error {
            Some(e) => Some(error_json(e)),
            None => None,
        },
    );
    match r.error {
        Some(e) => {
            let key = "error".to_owned();
            let val = error_to_json(e);
            membs.push((key, val));
        },
        None => {},
    }
    proof {
        assert(membs_view(membs@) =~~= w6);
    }
    let j = Json::Obj(membs);
    proof {
        assert(crate::json::json_view(j)->Obj_0 =~~= membs_view(membs@));
        assert(raw_json(rv)->Obj_0 == w6);
        assert(j@ =~~= raw_json(rv));
    }
    j
}

/// Every document a message carries has well-formed number texts: what a
/// frame needs so that no number smuggles a newline into the line.
pub open spec fn message_nums_wf(m: MessageV) -> bool {
    raw_nums_wf(envelope_v(m))
}

/// Every document an envelope carries has well-formed number texts.
pub open spec fn raw_nums_wf(r: RawV) -> bool {
    &&& (r.params matches Some(p) ==> nums_wf(p))
    &&& (r.result matches Some(v) ==> nums_wf(v))
    &&& (r.error matches Some(e) ==> (e.data matches Some(d) ==> nums_wf(d)))
}

/// Every member value of a member list has well-formed number texts.
spec fn membs_nums_wf(ms: Seq<(Seq<char>, JsonV)>) -> bool {
    forall|i: int| 0 <= i < ms.len() ==> nums_wf(#[trigger] ms[i].1)
}

proof fn lemma_membs_nums_wf_concat(a: Seq<(Seq<char>, JsonV)>, b: Seq<(Seq<char>, JsonV)>)
    requires
        membs_nums_wf(a),
        membs_nums_wf(b),
    ensures
        membs_nums_wf(a + b),
{
    assert forall|i: int| 0 <= i < (a + b).len() implies nums_wf((a + b)[i].1) by {
        if i < a.len() {
            assert((a + b)[i] == a[i]);
        } else {
            assert((a + b)[i] == b[i - a.len()]);
        }
    }
}

/// The wire object of a well-formed envelope has well-formed number
/// texts everywhere.
proof fn lemma_raw_json_nums_wf(r: RawV)
    requires
        raw_nums_wf(r),
    ensures
        nums_wf(raw_json(r)),
{
    let m1 = opt_memb(
        "jsonrpc"@,
        match r.jsonrpc {
            Some(s) => Some(JsonV::Str(s)),
            None => None,
        },
    );
    let m2 = opt_memb(
        "id"@,
        match r.id {
            Some(i) => Some(id_json(i)),
            None => None,
        },
    );
    let m3 = opt_memb(
        "method"@,
        match r.method {
            Some(m) => Some(JsonV::Str(m)),
            None => None,
        },
    );
    let m4 = opt_memb("params"@, r.params);
    let m5 = opt_memb("result"@, r.result);
    let m6 = opt_memb(
        "error"@,
        match r.error {
            Some(e) => Some(error_json(e)),
            None => None,
        },
    );
    match r.error {
        Some(e) => {
            let ms = error_json(e)->Obj_0;
            assert forall|i: int| 0 <= i < ms.len() implies nums_wf(ms[i].1) by {
                match e.data {
                    Some(d) => {
                        assert(ms =~= seq![
                            ("code"@, JsonV::Int(spec_code_int(e.code))),
                            ("message"@, JsonV::Str(e.message)),
                            ("data"@, d),
                        ]);
                    },
                    None => {
                        assert(ms =~= seq![
                            ("code"@, JsonV::Int(spec_code_int(e.code))),
                            ("message"@, JsonV::Str(e.message)),
                        ]);
                    },
                }
            }
            assert(nums_wf(error_json(e)));
        },
        None => {},
    }
    lemma_membs_nums_wf_concat(m1, m2);
    lemma_membs_nums_wf_concat(m1 + m2, m3);
    lemma_membs_nums_wf_concat(m1 + m2 + m3, m4);
    lemma_membs_nums_wf_concat(m1 + m2 + m3 + m4, m5);
    lemma_membs_nums_wf_concat(m1 + m2 + m3 + m4 + m5, m6);
    assert(raw_json(r)->Obj_0 =~= m1 + m2 + m3 + m4 + m5 + m6);
}

/// One complete outgoing frame: the message's wire object serialized to
/// one line, closed by a terminating newline. For a message whose number
/// texts are well formed — every message the library decodes or whose
/// documents hold no `Num` — that newline is the frame's only one: a
/// write of a frame is a complete line, never part of one.
pub fn frame_message(m: Message) -> (out: Vec<u8>)
    ensures
        out@ == ser(raw_json(envelope_v(m@))) + seq![0x0Au8],
        out@.len() > 0 && out@[out@.len() - 1] == 0x0A,
        message_nums_wf(m@) ==> forall|i: int| 0 <= i < out@.len() - 1 ==> out@[i] != 0x0A,
{
    let raw = envelope_of(m);
    let j = json_of_raw(raw);
    let mut out = crate::json::to_bytes(&j);
    out.push(0x0A);
    proof {
        if message_nums_wf(m@) {
            lemma_raw_json_nums_wf(envelope_v(m@));
            crate::json::lemma_ser_newline_free(raw_json(envelope_v(m@)));
        }
    }
    out
}

/// First-match lookup of a key in an object's member list.
pub open spec fn obj_lookup(membs: Seq<(Seq<char>, JsonV)>, key: Seq<char>) -> Option<JsonV>
    decreases membs.len(),
{
    if membs.len() == 0 {
        None
    } else if membs[0].0 == key {
        Some(membs[0].1)
    } else {
        obj_lookup(membs.drop_first(), key)
    }
}

/// The identifier a wire value stands for: an integer that fits the
/// identifier width, or a string; anything else is no identifier.
pub open spec fn id_of_json(j: JsonV) -> Option<IdV> {
    match j {
        JsonV::Int(n) => if -0x8000_0000 <= n < 0x8000_0000 {
            Some(IdV::Num(n))
        } else {
            None
        },
        JsonV::Str(s) => Some(IdV::Str(s)),
        _ => None,
    }
}

/// The error object a wire value stands for: an object whose `code` is one
/// of the known wire integers and whose `message` is a string; `data` is
/// kept as it came, when present.
pub open spec fn error_of_json(j: JsonV) -> Option<ErrorDataV> {
    if !(j is Obj) {
        None
    } else {
        let ms = j->Obj_0;
        match obj_lookup(ms, "code"@) {
            Some(JsonV::Int(n)) => match obj_lookup(ms, "message"@) {
                Some(JsonV::Str(msg)) => match spec_code_of_int(n) {
                    Some(c) => Some(
                        ErrorDataV { code: c, message: msg, data: obj_lookup(ms, "data"@) },
                    ),
                    None => None,
                },
                _ => None,
            },
            _ => None,
        }
    }
}

/// The shape failure for an object that is valid JSON but no envelope,
/// naming which envelope fields were present.
pub open spec fn shape_err(ms: Seq<(Seq<char>, JsonV)>) -> DecodeError {
    DecodeError::MalformedMessage {
        has_id: obj_lookup(ms, "id"@) is Some,
        has_method: obj_lookup(ms, "method"@) is Some,
        has_result: obj_lookup(ms, "result"@) is Some,
        has_error: obj_lookup(ms, "error"@) is Some,
    }
}

/// The envelope a wire value stands for. A non-object is malformed; so is
/// an object whose `jsonrpc` or `method` is no string, whose `id` is no
/// identifier, or whose `error` is no error object. `params` and `result`
/// pass through untouched.
pub open spec fn raw_of_json_v(j: JsonV) -> Result<RawV, DecodeError> {
    if !(j is Obj) {
        Err(
            DecodeError::MalformedMessage {
                has_id: false,
                has_method: false,
                has_result: false,
                has_error: false,
            },
        )
    } else {
        let ms = j->Obj_0;
        let jr = match obj_lookup(ms, "jsonrpc"@) {
            None => Ok(None),
            Some(JsonV::Str(v)) => Ok(Some(v)),
            Some(_) => Err(()),
        };
        let idf = match obj_lookup(ms, "id"@) {
            None => Ok(None),
            Some(v) => match id_of_json(v) {
                Some(i) => Ok(Some(i)),
                None => Err(()),
            },
        };
        let mf = match obj_lookup(ms, "method"@) {
            None => Ok(None),
            Some(JsonV::Str(v)) => Ok(Some(v)),
            Some(_) => Err(()),
        };
        let ef = match obj_lookup(ms, "error"@) {
            None => Ok(None),
            Some(v) => match error_of_json(v) {
                Some(e) => Ok(Some(e)),
                None => Err(()),
            },
        };
        if jr is Err || idf is Err || mf is Err || ef is Err {
            Err(shape_err(ms))
        } else {
            Ok(
                RawV {
                    jsonrpc: jr->Ok_0,
                    id: idf->Ok_0,
                    method: mf->Ok_0,
                    params: obj_lookup(ms, "params"@),
                    result: obj_lookup(ms, "result"@),
                    error: ef->Ok_0,
                },
            )
        }
    }
}

/// `Result` of envelope extraction seen at the spec level.
pub open spec fn extracted_v(r: Result<Raw, DecodeError>) -> Result<RawV, DecodeError> {
    match r {
        Ok(raw) => Ok(raw@),
        Err(e) => Err(e),
    }
}

/// The envelope and error-object member names are pairwise distinct.
pub proof fn lemma_keys_distinct()
    ensures
        "jsonrpc"@ != "id"@,
        "jsonrpc"@ != "method"@,
        "jsonrpc"@ != "params"@,
        "jsonrpc"@ != "result"@,
        "jsonrpc"@ != "error"@,
        "id"@ != "method"@,
        "id"@ != "params"@,
        "id"@ != "result"@,
        "id"@ != "error"@,
        "method"@ != "params"@,
        "method"@ != "result"@,
        "method"@ != "error"@,
        "params"@ != "result"@,
        "params"@ != "error"@,
        "result"@ != "error"@,
        "code"@ != "message"@,
        "code"@ != "data"@,
        "message"@ != "data"@,
{
    reveal_strlit("jsonrpc");
    reveal_strlit("id");
    reveal_strlit("method");
    reveal_strlit("params");
    reveal_strlit("result");
    reveal_strlit("error");
    reveal_strlit("code");
    reveal_strlit("message");
    reveal_strlit("data");
    assert("method"@[0] == 'm' && "params"@[0] == 'p' && "result"@[0] == 'r');
    assert("jsonrpc"@[0] == 'j' && "id"@[0] == 'i' && "error"@[0] == 'e');
    assert("code"@[0] == 'c' && "data"@[0] == 'd' && "message"@[0] == 'm');
    assert("jsonrpc"@.len() == 7 && "id"@.len() == 2 && "method"@.len() == 6);
    assert("params"@.len() == 6 && "result"@.len() == 6 && "error"@.len() == 5);
    assert("code"@.len() == 4 && "message"@.len() == 7 && "data"@.len() == 4);
}

/// Whether an optional slot holds exactly what a lookup yields.
spec fn slot_matches(slot: Option<Json>, looked: Option<JsonV>) -> bool {
    match slot {
        Some(v) => looked == Some(v@),
        None => looked is None,
    }
}

/// Extracts the identifier a wire value stands for, exactly as
/// `id_of_json` says.
fn id_from_json(j: Json) -> (r: Option<NumberOrString>)
    ensures
        match r {
            Some(i) => id_of_json(j@) == Some(i@),
            None => id_of_json(j@) is None,
        },
{
    match j {
        Json::Int(n) => {
            if -2147483648i64 <= n && n <= 2147483647i64 {
                Some(NumberOrString::Number(n as i32))
            } else {
                None
            }
        },
        Json::Str(s) => Some(NumberOrString::String(s)),
        _ => None,
    }
}

/// Extracts the error object a wire value stands for, exactly as
/// `error_of_json` says.
#[verifier::rlimit(50)]
fn error_from_json(j: Json) -> (r: Option<ErrorData>)
    ensures
        match r {
            Some(e) => error_of_json(j@) == Some(e@),
            None => error_of_json(j@) is None,
        },
{
    let mut rest = match j {
        Json::Obj(m) => m,
        _ => {
            return None;
        },
    };
    let ghost msv = crate::json::json_view(j)->Obj_0;
    let ghost full_len = rest@.len() as int;
    let mut s_code: Option<Json> = None;
    let mut s_message: Option<Json> = None;
    let mut s_data: Option<Json> = None;
    let key_code = "code".to_owned();
    let key_message = "message".to_owned();
    let key_data = "data".to_owned();
    proof {
        assert(msv.skip(msv.len() as int) =~= Seq::<(Seq<char>, JsonV)>::empty());
        assert(msv.len() == rest@.len());
        assert(forall|i: int|
            0 <= i < msv.len() ==> msv[i] == (#[trigger] rest@[i].0@, crate::json::json_view(
                rest@[i].1,
            )));
    }
    while rest.len() > 0
        invariant
            rest@.len() <= msv.len(),
            forall|i: int|
                0 <= i < rest@.len() ==> msv[i] == (#[trigger] rest@[i].0@,
                crate::json::json_view(rest@[i].1)),
            key_code@ == "code"@,
            key_message@ == "message"@,
            key_data@ == "data"@,
            slot_matches(s_code, obj_lookup(msv.skip(rest@.len() as int), "code"@)),
            slot_matches(s_message, obj_lookup(msv.skip(rest@.len() as int), "message"@)),
            slot_matches(s_data, obj_lookup(msv.skip(rest@.len() as int), "data"@)),
        decreases rest@.len(),
    {
        let ghost old_rest = rest@;
        let pair = rest.pop().unwrap();
        let ghost i = rest@.len() as int;
        proof {
            lemma_keys_distinct();
            assert(old_rest[i] == pair);
            assert(msv.skip(i)[0] == msv[i]);
            assert(msv.skip(i).drop_first() =~= msv.skip(i + 1));
            assert(msv[i] == (pair.0@, crate::json::json_view(pair.1)));
        }
        if pair.0 == key_code {
            s_code = Some(pair.1);
        } else if pair.0 == key_message {
            s_message = Some(pair.1);
        } else if pair.0 == key_data {
            s_data = Some(pair.1);
        }
    }
    proof {
        assert(msv.skip(0) =~= msv);
    }
    let code_n = match s_code {
        Some(Json::Int(n)) => n,
        _ => {
            return None;
        },
    };
    let message_s = match s_message {
        Some(Json::Str(m)) => m,
        _ => {
            return None;
        },
    };
    let code = match crate::jsonrpc::code_of_int(code_n) {
        Some(c) => c,
        None => {
            return None;
        },
    };
    let data = s_data;
    let r = ErrorData { code, message: message_s, data };
    Some(r)
}

/// Extracts the envelope a wire value stands for, exactly as
/// `raw_of_json_v` says.
#[verifier::rlimit(100)]
pub fn raw_of_json(j: Json) -> (r: Result<Raw, DecodeError>)
    ensures
        extracted_v(r) == raw_of_json_v(j@),
{
    let mut rest = match j {
        Json::Obj(m) => m,
        _ => {
            return Err(
                DecodeError::MalformedMessage {
                    has_id: false,
                    has_method: false,
                    has_result: false,
                    has_error: false,
                },
            );
        },
    };
    let ghost msv = crate::json::json_view(j)->Obj_0;
    let mut s_jsonrpc: Option<Json> = None;
    let mut s_id: Option<Json> = None;
    let mut s_method: Option<Json> = None;
    let mut s_params: Option<Json> = None;
    let mut s_result: Option<Json> = None;
    let mut s_error: Option<Json> = None;
    let key_jsonrpc = "jsonrpc".to_owned();
    let key_id = "id".to_owned();
    let key_method = "method".to_owned();
    let key_params = "params".to_owned();
    let key_result = "result".to_owned();
    let key_error = "error".to_owned();
    proof {
        assert(msv.skip(msv.len() as int) =~= Seq::<(Seq<char>, JsonV)>::empty());
        assert(msv.len() == rest@.len());
        assert(forall|i: int|
            0 <= i < msv.len() ==> msv[i] == (#[trigger] rest@[i].0@, crate::json::json_view(
                rest@[i].1,
            )));
    }
    while rest.len() > 0
        invariant
            rest@.len() <= msv.len(),
            forall|i: int|
                0 <= i < rest@.len() ==> msv[i] == (#[trigger] rest@[i].0@,
                crate::json::json_view(rest@[i].1)),
            key_jsonrpc@ == "jsonrpc"@,
            key_id@ == "id"@,
            key_method@ == "method"@,
            key_params@ == "params"@,
            key_result@ == "result"@,
            key_error@ == "error"@,
            slot_matches(s_jsonrpc, obj_lookup(msv.skip(rest@.len() as int), "jsonrpc"@)),
            slot_matches(s_id, obj_lookup(msv.skip(rest@.len() as int), "id"@)),
            slot_matches(s_method, obj_lookup(msv.skip(rest@.len() as int), "method"@)),
            slot_matches(s_params, obj_lookup(msv.skip(rest@.len() as int), "params"@)),
            slot_matches(s_result, obj_lookup(msv.skip(rest@.len() as int), "result"@)),
            slot_matches(s_error, obj_lookup(msv.skip(rest@.len() as int), "error"@)),
        decreases rest@.len(),
    {
        let ghost old_rest = rest@;
        let pair = rest.pop().unwrap();
        let ghost i = rest@.len() as int;
        proof {
            lemma_keys_distinct();
            assert(old_rest[i] == pair);
            assert(msv.skip(i)[0] == msv[i]);
            assert(msv.skip(i).drop_first() =~= msv.skip(i + 1));
            assert(msv[i] == (pair.0@, crate::json::json_view(pair.1)));
        }
        if pair.0 == key_jsonrpc {
            s_jsonrpc = Some(pair.1);
        } else if pair.0 == key_id {
            s_id = Some(pair.1);
        } else if pair.0 == key_method {
            s_method = Some(pair.1);
        } else if pair.0 == key_params {
            s_params = Some(pair.1);
        } else if pair.0 == key_result {
            s_result = Some(pair.1);
        } else if pair.0 == key_error {
            s_error = Some(pair.1);
        }
    }
    proof {
        assert(msv.skip(0) =~= msv);
    }
    let has_id = s_id.is_some();
    let has_method = s_method.is_some();
    let has_result = s_result.is_some();
    let has_error = s_error.is_some();
    let malformed = DecodeError::MalformedMessage { has_id, has_method, has_result, has_error };
    let jsonrpc = match s_jsonrpc {
        None => None,
        Some(Json::Str(v)) => Some(v),
        Some(_) => {
            return Err(malformed);
        },
    };
    let id = match s_id {
        None => None,
        Some(v) => match id_from_json(v) {
            Some(i) => Some(i),
            None => {
                return Err(malformed);
            },
        },
    };
    let method = match s_method {
        None => None,
        Some(Json::Str(v)) => Some(v),
        Some(_) => {
            return Err(malformed);
        },
    };
    let error = match s_error {
        None => None,
        Some(v) => match error_from_json(v) {
            Some(e) => Some(e),
            None => {
                return Err(malformed);
            },
        },
    };
    Ok(Raw { jsonrpc, id, method, params: s_params, result: s_result, error })
}

/// What one decoded wire value classifies to: envelope extraction, then
/// classification, each failure kept by name.
pub open spec fn message_of_json_v(j: JsonV) -> Result<MessageV, DecodeError> {
    match raw_of_json_v(j) {
        Ok(r) => classify_v(r),
        Err(e) => Err(e),
    }
}

/// Decodes one wire value into a message, exactly as `message_of_json_v`
/// says.
pub fn message_of_json(j: Json) -> (r: Result<Message, DecodeError>)
    ensures
        classified_v(r) == message_of_json_v(j@),
{
    match raw_of_json(j) {
        Ok(raw) => Message::classify(raw),
        Err(e) => Err(e),
    }
}



proof fn lemma_obj_lookup_concat(a: Seq<(Seq<char>, JsonV)>, b: Seq<(Seq<char>, JsonV)>, key: Seq<char>)
    ensures
        obj_lookup(a + b, key) == (match obj_lookup(a, key) {
            Some(v) => Some(v),
            None => obj_lookup(b, key),
        }),
    decreases a.len(),
{
    if a.len() == 0 {
        assert(a + b =~= b);
    } else {
        assert((a + b)[0] == a[0]);
        assert((a + b).drop_first() =~= a.drop_first() + b);
        lemma_obj_lookup_concat(a.drop_first(), b, key);
    }
}

proof fn lemma_lookup_opt_memb(key: Seq<char>, k: Seq<char>, v: Option<JsonV>)
    ensures
        obj_lookup(opt_memb(k, v), key) == (if v is Some && k == key {
            Some(v->Some_0)
        } else {
            None
        }),
{
    reveal_with_fuel(obj_lookup, 3);
    match v {
        None => {
        },
        Some(x) => {
            assert(opt_memb(k, v)[0] == (k, x));
            if k != key {
                assert(opt_memb(k, v).drop_first() =~= Seq::<(Seq<char>, JsonV)>::empty());
            }
        },
    }
}

/// Decoding the wire form of an error object yields the object again,
/// for every object whose code is in range.
pub proof fn lemma_error_json_round_trip(e: ErrorDataV)
    requires
        code_in_range(e.code),
    ensures
        error_of_json(error_json(e)) == Some(e),
{
    reveal_with_fuel(obj_lookup, 4);
    lemma_keys_distinct();
    let head = seq![("code"@, JsonV::Int(spec_code_int(e.code))), ("message"@, JsonV::Str(e.message))];
    let tail = (match e.data {
        Some(d) => seq![("data"@, d)],
        None => Seq::<(Seq<char>, JsonV)>::empty(),
    });
    let ms = error_json(e)->Obj_0;
    assert(ms =~= head + tail);
    lemma_obj_lookup_concat(head, tail, "code"@);
    lemma_obj_lookup_concat(head, tail, "message"@);
    lemma_obj_lookup_concat(head, tail, "data"@);
    assert(head[0] == ("code"@, JsonV::Int(spec_code_int(e.code))));
    assert(head.drop_first() =~= seq![("message"@, JsonV::Str(e.message))]);
    assert(obj_lookup(head, "code"@) == Some(JsonV::Int(spec_code_int(e.code))));
    assert(head.drop_first().drop_first() =~= Seq::<(Seq<char>, JsonV)>::empty());
    assert(obj_lookup(head, "message"@) == Some(JsonV::Str(e.message)));
    assert(obj_lookup(head, "data"@) is None);
    match e.data {
        Some(d) => {
            assert(tail[0] == ("data"@, d));
            assert(obj_lookup(tail, "data"@) == Some(d));
        },
        None => {
        },
    }
    lemma_code_int_round_trip(e.code, 0);
    assert(error_of_json(error_json(e)) matches Some(got) && got =~~= e);
}

/// An identifier the library can put on the wire: a number must fit the
/// identifier width.
pub open spec fn id_wf(i: IdV) -> bool {
    match i {
        IdV::Num(n) => -0x8000_0000 <= n < 0x8000_0000,
        IdV::Str(_) => true,
    }
}

pub open spec fn opt_id_wf(i: Option<IdV>) -> bool {
    match i {
        Some(x) => id_wf(x),
        None => true,
    }
}

/// An envelope the library can put on the wire and read back: identifiers
/// fit, and an error object's code is in range.
pub open spec fn raw_wf(r: RawV) -> bool {
    opt_id_wf(r.id) && (match r.error {
        Some(e) => code_in_range(e.code),
        None => true,
    })
}

/// Decoding the wire object of an envelope yields the envelope again, for
/// every well-formed envelope.
#[verifier::rlimit(100)]
pub proof fn lemma_raw_round_trip(r: RawV)
    requires
        raw_wf(r),
    ensures
        raw_of_json_v(raw_json(r)) == Ok::<RawV, DecodeError>(r),
{
    lemma_keys_distinct();
    let v1 = match r.jsonrpc {
        Some(s) => Some(JsonV::Str(s)),
        None => None,
    };
    let v2 = match r.id {
        Some(i) => Some(id_json(i)),
        None => None,
    };
    let v3 = match r.method {
        Some(m) => Some(JsonV::Str(m)),
        None => None,
    };
    let v4 = r.params;
    let v5 = r.result;
    let v6 = match r.error {
        Some(e) => Some(error_json(e)),
        None => None,
    };
    let m1 = opt_memb("jsonrpc"@, v1);
    let m2 = opt_memb("id"@, v2);
    let m3 = opt_memb("method"@, v3);
    let m4 = opt_memb("params"@, v4);
    let m5 = opt_memb("result"@, v5);
    let m6 = opt_memb("error"@, v6);
    let ms = raw_json(r)->Obj_0;
    assert(ms =~= m1 + m2 + m3 + m4 + m5 + m6);
    assert forall|key: Seq<char>|
        key == "jsonrpc"@ || key == "id"@ || key == "method"@ || key == "params"@ || key
            == "result"@ || key == "error"@ implies obj_lookup(ms, key) == (if key == "jsonrpc"@ {
        v1
    } else if key == "id"@ {
        v2
    } else if key == "method"@ {
        v3
    } else if key == "params"@ {
        v4
    } else if key == "result"@ {
        v5
    } else {
        v6
    }) by {
        lemma_obj_lookup_concat(m1 + m2 + m3 + m4 + m5, m6, key);
        lemma_obj_lookup_concat(m1 + m2 + m3 + m4, m5, key);
        lemma_obj_lookup_concat(m1 + m2 + m3, m4, key);
        lemma_obj_lookup_concat(m1 + m2, m3, key);
        lemma_obj_lookup_concat(m1, m2, key);
        lemma_lookup_opt_memb(key, "jsonrpc"@, v1);
        lemma_lookup_opt_memb(key, "id"@, v2);
        lemma_lookup_opt_memb(key, "method"@, v3);
        lemma_lookup_opt_memb(key, "params"@, v4);
        lemma_lookup_opt_memb(key, "result"@, v5);
        lemma_lookup_opt_memb(key, "error"@, v6);
    }
    assert(obj_lookup(ms, "jsonrpc"@) == v1);
    assert(obj_lookup(ms, "id"@) == v2);
    assert(obj_lookup(ms, "method"@) == v3);
    assert(obj_lookup(ms, "params"@) == v4);
    assert(obj_lookup(ms, "result"@) == v5);
    assert(obj_lookup(ms, "error"@) == v6);
    match r.id {
        Some(i) => {
            assert(id_of_json(id_json(i)) == Some(i));
        },
        None => {
        },
    }
    match r.error {
        Some(e) => {
            lemma_error_json_round_trip(e);
        },
        None => {
        },
    }
    assert(raw_of_json_v(raw_json(r)) matches Ok(got) && got =~~= r);
}



/// A message the library can put on the wire and read back unchanged: its
/// identifiers fit the identifier width, an error's code is in range, and
/// a response carries its result (an error-carrying reply travels as an
/// `Error` message, which is what the wire precedence hands back).
pub open spec fn message_wf(m: MessageV) -> bool {
    match m {
        MessageV::Request(rq) => id_wf(rq.id),
        MessageV::Response(rs) => rs.result is Some && rs.error is None && opt_id_wf(rs.id),
        MessageV::Notification(_) => true,
        MessageV::Error(e) => opt_id_wf(e.id) && code_in_range(e.error.code),
        MessageV::Null => true,
    }
}

/// The round trip of the wire format: putting a well-formed message into
/// its envelope, writing the envelope as its wire object and decoding that
/// object back through classification yields the message again.
pub proof fn lemma_message_round_trip(m: MessageV)
    requires
        message_wf(m),
    ensures
        message_of_json_v(raw_json(envelope_v(m))) == Ok::<MessageV, DecodeError>(m),
{
    let r = envelope_v(m);
    lemma_raw_round_trip(r);
    assert(classify_v(r) matches Ok(got) && got =~~= m);
}



/// Converts one parsed document into the library's tree. Integers stay
/// integers; any other number keeps its wire text; nesting is bounded by
/// the given budget, and a line outside that is not a document the
/// library can hold. Nothing can be stated of the opaque input, but
/// whatever came back is a tree whose number texts are well formed, and
/// the whole parse-and-convert step is the function of the bytes that
/// `spec_parse` names.
pub(crate) fn json_of_value(v: serde_json::Value, depth: u32) -> (r: Option<Json>)
    ensures
        r matches Some(j) ==> nums_wf(j@),
    decreases depth,
{
    match crate::trusted::value_node(v) {
        crate::trusted::Node::Null => Some(Json::Null),
        crate::trusted::Node::Bool(b) => Some(Json::Bool(b)),
        crate::trusted::Node::Num(n) => match crate::trusted::number_as_i64(&n) {
            Some(i) => Some(Json::Int(i)),
            None => Some(Json::Num(crate::trusted::number_text(&n))),
        },
        crate::trusted::Node::Str(s) => Some(Json::Str(s)),
        crate::trusted::Node::Arr(a) => {
            if depth == 0 {
                return None;
            }
            let mut rest = a;
            let mut out: Vec<Json> = Vec::new();
            while rest.len() > 0
                invariant
                    depth > 0,
                    forall|k: int| 0 <= k < out@.len() ==> nums_wf(#[trigger] out@[k]@),
                decreases rest@.len(),
            {
                let head = rest.remove(0);
                match json_of_value(head, depth - 1) {
                    Some(j) => {
                        out.push(j);
                    },
                    None => {
                        return None;
                    },
                }
            }
            let res = Json::Arr(out);
            proof {
                let rv = crate::json::json_view(res);
                assert forall|i: int| 0 <= i < rv->Arr_0.len() implies nums_wf(
                    #[trigger] rv->Arr_0[i],
                ) by {
                    assert(0 <= i < out@.len());
                    assert(nums_wf(out@[i]@));
                    assert(rv->Arr_0[i] == crate::json::json_view(out@[i]));
                }
            }
            Some(res)
        },
        crate::trusted::Node::Obj(m) => {
            if depth == 0 {
                return None;
            }
            let mut rest = m;
            let mut out: Vec<(String, Json)> = Vec::new();
            while rest.len() > 0
                invariant
                    depth > 0,
                    forall|k: int| 0 <= k < out@.len() ==> nums_wf(#[trigger] out@[k].1@),
                decreases rest@.len(),
            {
                let head = rest.remove(0);
                match json_of_value(head.1, depth - 1) {
                    Some(j) => {
                        out.push((head.0, j));
                    },
                    None => {
                        return None;
                    },
                }
            }
            let res = Json::Obj(out);
            proof {
                let rv = crate::json::json_view(res);
                assert forall|i: int| 0 <= i < rv->Obj_0.len() implies nums_wf(
                    #[trigger] rv->Obj_0[i].1,
                ) by {
                    assert(0 <= i < out@.len());
                    assert(nums_wf(out@[i].1@));
                    assert(rv->Obj_0[i].1 == crate::json::json_view(out@[i].1));
                }
            }
            Some(res)
        },
    }
}

/// How deep a wire line's document may nest.
pub const MAX_DEPTH: u32 = 128;

/// What one wire line decodes to: bytes that parse to no document the
/// library can hold fail the protocol decode; a parsed document goes
/// through envelope extraction and classification, each failure kept by
/// name.
pub open spec fn decoded_line_v(bytes: Seq<u8>) -> Result<MessageV, DecodeError> {
    match crate::trusted::spec_parse(bytes) {
        None => Err(DecodeError::ProtocolDecodeError),
        Some(jv) => message_of_json_v(jv),
    }
}

/// Decodes one wire line into a message: parses the bytes, extracts the
/// envelope and classifies it, exactly as `decoded_line_v` says — a
/// decodable line yields its one message, a failing line its one named
/// failure.
pub fn decode_line(line: &[u8]) -> (r: Result<Message, DecodeError>)
    ensures
        classified_v(r) == decoded_line_v(line@),
{
    let j = match crate::trusted::parse_document(line) {
        Some(j) => j,
        None => {
            return Err(DecodeError::ProtocolDecodeError);
        },
    };
    message_of_json(j)
}

/// What the read loop does with one line.
#[derive(Debug)]
pub enum FramerStep {
    /// An empty line: passed over without a word.
    Skip,
    /// A line that did not decode: reported, and the loop goes on.
    Report(DecodeError),
    /// A decoded message, handed to the caller.
    Deliver(Message),
}

/// The read side's policy for one line, the line given without its
/// terminator: an empty line is skipped; a nonempty line that decodes is
/// delivered with exactly its message, and one that fails is reported
/// with exactly its named failure — never delivered, and never the end of
/// the stream.
pub fn step_on_line(line: &[u8]) -> (r: FramerStep)
    ensures
        r is Skip <==> line@.len() == 0,
        line@.len() > 0 ==> (match decoded_line_v(line@) {
            Ok(mv) => r matches FramerStep::Deliver(m) && m@ == mv,
            Err(e) => r == FramerStep::Report(e),
        }),
{
    if line.len() == 0 {
        return FramerStep::Skip;
    }
    match decode_line(line) {
        Ok(m) => FramerStep::Deliver(m),
        Err(e) => FramerStep::Report(e),
    }
}

} // verus!
