//! Settings -> Servers: the remote engines this app can drive directly over
//! the network. Which row is the engine in use, the status line above the
//! list, and the parser behind the Add server dialog.
pub mod active;
pub mod add;
pub mod page;

use vstd::prelude::*;
use crate::text::{append, chars_of, decimal, decimal_chars, string_of};

verus! {

/// The port a portless address means, in the Add dialog and when two
/// addresses are compared.
pub const DEFAULT_PORT: u16 = 27700;

/// A saved remote engine.
#[derive(Debug, Clone, PartialEq, Eq)]
pub struct ServerEntry {
    pub id: String,
    pub name: String,
    pub host: String,
    pub port: u16,
    pub token: Option<String>,
}

/// An engine to dial: from the command line, the environment, or a saved
/// entry.
#[derive(Debug, Clone, PartialEq, Eq)]
pub struct RemoteEngineTarget {
    pub url: String,
    pub token: Option<String>,
    pub name: Option<String>,
}

/// Where the app's engine connection stands.
#[derive(Debug, Clone, PartialEq, Eq)]
pub enum ConnectionStatus {
    Connecting,
    Failed(String),
    Ready,
}

/// `ws://<host>:<port>`.
pub open spec fn entry_url(host: Seq<char>, port: u16) -> Seq<char> {
    "ws://"@ + host + ":"@ + decimal(port as nat)
}

impl ServerEntry {
    /// The address a saved entry dials.
    pub fn url(&self) -> (r: String)
        ensures
            r@ == entry_url(self.host@, self.port),
    {
        let mut v = chars_of("ws://");
        append(&mut v, chars_of(self.host.as_str()).as_slice());
        append(&mut v, chars_of(":").as_slice());
        append(&mut v, decimal_chars(self.port as u64).as_slice());
        string_of(v.as_slice())
    }

    /// What dialing this entry means.
    pub fn target(&self) -> (r: RemoteEngineTarget)
        ensures
            r.url@ == entry_url(self.host@, self.port),
            r.token == self.token,
            r.name == Some(self.name),
    {
        RemoteEngineTarget { url: self.url(), token: self.token.clone(), name: Some(self.name.clone()) }
    }
}

} // verus!
