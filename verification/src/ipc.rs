//! The desktop's message service and its client: the connection state the
//! client keeps.

use vstd::prelude::*;

verus! {

/// The message service.
#[derive(Debug)]
pub struct XfceIpcService {}

impl XfceIpcService {
    pub fn new() -> (r: Self) {
        XfceIpcService {}
    }
}

/// A client of the message service.
#[derive(Debug)]
pub struct XfceIpcClient {
    pub connection: Option<String>,
}

impl XfceIpcClient {
    /// A client not yet connected.
    pub fn new() -> (r: Self)
        ensures
            r.connection.is_none(),
    {
        XfceIpcClient { connection: None }
    }

    /// Marks the client connected.
    pub fn connect(&mut self)
        ensures
            final(self).connection matches Some(c) && c@ == "connected"@,
    {
        self.connection = Some(String::from_str("connected"));
    }

    /// Whether the client is connected.
    pub fn is_connected(&self) -> (r: bool)
        ensures
            r == self.connection.is_some(),
    {
        self.connection.is_some()
    }

    /// The status text the service reports.
    pub fn status_text(&self) -> (r: String)
        ensures
            r@ == "XFCE.rs IPC Service running"@,
    {
        String::from_str("XFCE.rs IPC Service running")
    }
}

} // verus!
