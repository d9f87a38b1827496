use vstd::prelude::*;

use crate::json::{Json, JsonV};
use crate::jsonrpc::{IdV, NumberOrString, Request, RequestV};

verus! {

/// The roots capability: whether changes to the root list are announced.
/// An absent flag is not advertised, not an empty object.
#[derive(Clone, Copy, PartialEq, Eq, Structural, Debug)]
pub struct RootCapability {
    pub list_changed: Option<bool>,
}

/// The sampling capability carries no fields of its own.
#[derive(Clone, Copy, PartialEq, Eq, Structural, Debug)]
pub struct SamplingCapability {}

/// The experimental capability carries no fields of its own.
#[derive(Clone, Copy, PartialEq, Eq, Structural, Debug)]
pub struct ExperimentalCapability {}

/// What a client advertises in the initialize handshake: each field absent
/// means "not advertised".
#[derive(Clone, Copy, PartialEq, Eq, Structural, Debug)]
pub struct Capabilities {
    pub roots: Option<RootCapability>,
    pub sampling: Option<SamplingCapability>,
    pub experimental: Option<ExperimentalCapability>,
}

/// Who is calling: carried in the initialize request.
pub struct ClientInfo {
    pub name: String,
    pub version: String,
}

/// The initialize request's parameter record.
pub struct InitializeParams {
    pub protocol_version: String,
    pub capabilities: Capabilities,
    pub client_info: ClientInfo,
}

/// The wire form of the roots capability.
pub open spec fn roots_json(r: RootCapability) -> JsonV {
    JsonV::Obj(
        match r.list_changed {
            Some(b) => seq![("listChanged"@, JsonV::Bool(b))],
            None => Seq::empty(),
        },
    )
}

/// The wire form of a capability record: the advertised sub-capabilities,
/// in the order roots, sampling, experimental; nothing stands in for an
/// absent one.
pub open spec fn caps_json(c: Capabilities) -> JsonV {
    JsonV::Obj(
        (match c.roots {
            Some(r) => seq![("roots"@, roots_json(r))],
            None => Seq::empty(),
        }) + (match c.sampling {
            Some(_) => seq![("sampling"@, JsonV::Obj(Seq::empty()))],
            None => Seq::empty(),
        }) + (match c.experimental {
            Some(_) => seq![("experimental"@, JsonV::Obj(Seq::empty()))],
            None => Seq::empty(),
        }),
    )
}

/// The wire form of the initialize parameters.
pub open spec fn init_params_json(
    protocol_version: Seq<char>,
    name: Seq<char>,
    version: Seq<char>,
    c: Capabilities,
) -> JsonV {
    JsonV::Obj(
        seq![
            ("protocolVersion"@, JsonV::Str(protocol_version)),
            ("capabilities"@, caps_json(c)),
            (
                "clientInfo"@,
                JsonV::Obj(
                    seq![("name"@, JsonV::Str(name)), ("version"@, JsonV::Str(version))],
                ),
            ),
        ],
    )
}

/// The capabilities advertised when the caller names none: announced root
/// list changes, nothing else.
pub open spec fn default_caps() -> Capabilities {
    Capabilities {
        roots: Some(RootCapability { list_changed: Some(true) }),
        sampling: None,
        experimental: None,
    }
}

fn roots_to_json(r: RootCapability) -> (j: Json)
    ensures
        j@ == roots_json(r),
{
    let mut membs: Vec<(String, Json)> = Vec::new();
    match r.list_changed {
        Some(b) => {
            let key = "listChanged".to_owned();
            let val = Json::Bool(b);
            membs.push((key, val));
            proof {
                assert(membs@[0].0@ == "listChanged"@);
                assert(membs@[0].1@ == JsonV::Bool(b));
            }
        },
        None => {},
    }
    let j = Json::Obj(membs);
    proof {
        let got = crate::json::json_view(j)->Obj_0;
        let want = roots_json(r)->Obj_0;
        assert(got.len() == want.len());
        match r.list_changed {
            Some(b) => {
                assert(got[0] == (membs@[0].0@, crate::json::json_view(membs@[0].1)));
                assert(got[0] == ("listChanged"@, JsonV::Bool(b)));
            },
            None => {},
        }
        assert(got =~~= want);
        assert(j@ =~~= roots_json(r));
    }
    j
}

fn caps_to_json(c: Capabilities) -> (j: Json)
    ensures
        j@ == caps_json(c),
{
    let mut membs: Vec<(String, Json)> = Vec::new();
    let ghost w1 = (match c.roots {
        Some(r) => seq![("roots"@, roots_json(r))],
        None => Seq::<(Seq<char>, JsonV)>::empty(),
    });
    match c.roots {
        Some(r) => {
            let key = "roots".to_owned();
            let val = roots_to_json(r);
            membs.push((key, val));
        },
        None => {},
    }
    proof {
        assert(crate::framer::membs_view(membs@) =~~= w1);
    }
    let ghost w2 = w1 + (match c.sampling {
        Some(_) => seq![("sampling"@, JsonV::Obj(Seq::<(Seq<char>, JsonV)>::empty()))],
        None => Seq::<(Seq<char>, JsonV)>::empty(),
    });
    match c.sampling {
        Some(_) => {
            let key = "sampling".to_owned();
            let empty_obj: Vec<(String, Json)> = Vec::new();
            let val = Json::Obj(empty_obj);
            proof {
                let gv = crate::json::json_view(val)->Obj_0;
                assert(gv.len() == 0);
                assert(gv =~= Seq::<(Seq<char>, JsonV)>::empty());
                assert(val@ =~~= JsonV::Obj(Seq::<(Seq<char>, JsonV)>::empty()));
            }
            membs.push((key, val));
        },
        None => {},
    }
    proof {
        assert(crate::framer::membs_view(membs@) =~~= w2);
    }
    let ghost w3 = w2 + (match c.experimental {
        Some(_) => seq![("experimental"@, JsonV::Obj(Seq::<(Seq<char>, JsonV)>::empty()))],
        None => Seq::<(Seq<char>, JsonV)>::empty(),
    });
    match c.experimental {
        Some(_) => {
            let key = "experimental".to_owned();
            let empty_obj: Vec<(String, Json)> = Vec::new();
            let val = Json::Obj(empty_obj);
            proof {
                let gv = crate::json::json_view(val)->Obj_0;
                assert(gv.len() == 0);
                assert(gv =~= Seq::<(Seq<char>, JsonV)>::empty());
                assert(val@ =~~= JsonV::Obj(Seq::<(Seq<char>, JsonV)>::empty()));
            }
            membs.push((key, val));
        },
        None => {},
    }
    proof {
        assert(crate::framer::membs_view(membs@) =~~= w3);
    }
    let j = Json::Obj(membs);
    proof {
        assert(crate::json::json_view(j)->Obj_0 =~~= crate::framer::membs_view(membs@));
        assert(caps_json(c)->Obj_0 == w3);
        assert(j@ =~~= caps_json(c));
    }
    j
}

/// Builds the initialize request.
pub struct InitializeRequest {}

impl InitializeRequest {
    /// The initialize request: identifier 1, the protocol version, the
    /// caller's name and version, and the given capabilities — or, when
    /// none are given, the default ones.
    pub fn new(
        protocol_version: &str,
        name: &str,
        version: &str,
        capabilities: Option<Capabilities>,
    ) -> (r: Request)
        ensures
            r@ == (RequestV {
                id: IdV::Num(1),
                method: "initialize"@,
                params: Some(
                    init_params_json(
                        protocol_version@,
                        name@,
                        version@,
                        match capabilities {
                            Some(c) => c,
                            None => default_caps(),
                        },
                    ),
                ),
            }),
    {
        let caps = match capabilities {
            Some(c) => c,
            None => Capabilities {
                roots: Some(RootCapability { list_changed: Some(true) }),
                sampling: None,
                experimental: None,
            },
        };
        let mut membs: Vec<(String, Json)> = Vec::new();
        let key_pv = "protocolVersion".to_owned();
        let val_pv = Json::Str(protocol_version.to_owned());
        membs.push((key_pv, val_pv));
        let key_caps = "capabilities".to_owned();
        let val_caps = caps_to_json(caps);
        membs.push((key_caps, val_caps));
        let mut ci: Vec<(String, Json)> = Vec::new();
        let key_name = "name".to_owned();
        let val_name = Json::Str(name.to_owned());
        ci.push((key_name, val_name));
        proof {
            assert(ci@[0].0@ == "name"@);
            assert(ci@[0].1@ == JsonV::Str(name@));
        }
        let key_version = "version".to_owned();
        let val_version = Json::Str(version.to_owned());
        ci.push((key_version, val_version));
        proof {
            assert(ci@[1].0@ == "version"@);
            assert(ci@[1].1@ == JsonV::Str(version@));
        }
        let key_ci = "clientInfo".to_owned();
        let val_ci = Json::Obj(ci);
        proof {
            let got = crate::json::json_view(val_ci)->Obj_0;
            let want = seq![("name"@, JsonV::Str(name@)), ("version"@, JsonV::Str(version@))];
            assert(got.len() == want.len());
            assert(got[0] == (ci@[0].0@, crate::json::json_view(ci@[0].1)));
            assert(got[0] == ("name"@, JsonV::Str(name@)));
            assert(got[1] == (ci@[1].0@, crate::json::json_view(ci@[1].1)));
            assert(got[1] == ("version"@, JsonV::Str(version@)));
            assert(got =~~= want);
            assert(val_ci@ =~~= JsonV::Obj(want));
        }
        membs.push((key_ci, val_ci));
        proof {
            assert(membs@[0].0@ == "protocolVersion"@);
            assert(membs@[0].1@ == JsonV::Str(protocol_version@));
            assert(membs@[1].0@ == "capabilities"@);
            assert(membs@[1].1@ == caps_json(caps));
            assert(membs@[2].0@ == "clientInfo"@);
        }
        let params = Json::Obj(membs);
        proof {
            let got = crate::json::json_view(params)->Obj_0;
            let want = init_params_json(protocol_version@, name@, version@, caps)->Obj_0;
            assert(got.len() == want.len());
            assert(got[0] == (membs@[0].0@, crate::json::json_view(membs@[0].1)));
            assert(got[1] == (membs@[1].0@, crate::json::json_view(membs@[1].1)));
            assert(got[2] == (membs@[2].0@, crate::json::json_view(membs@[2].1)));
            assert(got =~~= want);
            assert(params@ =~~= init_params_json(protocol_version@, name@, version@, caps));
        }
        Request {
            id: NumberOrString::Number(1),
            method: "initialize".to_owned(),
            params: Some(params),
        }
    }
}

} // verus!
