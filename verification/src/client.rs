use vstd::prelude::*;

verus! {

/// The calling side's identity and spoken protocol version, as put into
/// the initialize handshake.
pub struct Client {
    pub name: String,
    pub version: String,
    pub protocol_version: String,
}

impl Client {
    pub fn new(name: &str, version: &str, protocol_version: &str) -> (r: Self)
        ensures
            r.name@ == name@,
            r.version@ == version@,
            r.protocol_version@ == protocol_version@,
    {
        Self {
            name: name.to_owned(),
            version: version.to_owned(),
            protocol_version: protocol_version.to_owned(),
        }
    }
}

} // verus!
