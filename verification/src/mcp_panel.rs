//! State of the MCP server panel: whether it is open, and the server's
//! life cycle (stopped, starting, running on a port).

use vstd::prelude::*;
use crate::text::{concat, decimal, decimal_string};

verus! {

/// Life cycle of the embedded MCP server.
#[derive(Debug, Clone, Copy, PartialEq, Eq, Structural)]
pub enum McpServerState {
    Stopped,
    Starting,
    Running { port: u16 },
}

/// The MCP panel.
#[derive(Debug, Clone, Copy)]
pub struct McpPanelState {
    pub open: bool,
    pub server: McpServerState,
}

/// What the panel asks for.
#[derive(Debug, Clone, Copy, PartialEq, Eq, Structural)]
pub enum McpMsg {
    Toggle,
    StartStop,
    Started,
    CopyConfig,
    Noop,
}

/// The server state after a start is requested: only a stopped server
/// starts.
pub open spec fn after_begin_start(s: McpServerState) -> McpServerState {
    if s is Stopped {
        McpServerState::Starting
    } else {
        s
    }
}

/// The server state once the server reports `port`: only a starting
/// server becomes running.
pub open spec fn after_started(s: McpServerState, port: u16) -> McpServerState {
    if s is Starting {
        McpServerState::Running { port }
    } else {
        s
    }
}

/// The server state after a stop: only a running server stops.
pub open spec fn after_stop(s: McpServerState) -> McpServerState {
    if s is Running {
        McpServerState::Stopped
    } else {
        s
    }
}

impl McpPanelState {
    /// A closed panel and a stopped server.
    pub fn new() -> (r: Self)
        ensures
            !r.open,
            r.server == McpServerState::Stopped,
    {
        McpPanelState { open: false, server: McpServerState::Stopped }
    }

    /// Opens a closed panel, closes an open one.
    pub fn toggle(&mut self)
        ensures
            final(self).open == !old(self).open,
            final(self).server == old(self).server,
    {
        self.open = !self.open;
    }

    /// Starts a stopped server; says whether it did.
    pub fn begin_start(&mut self) -> (fired: bool)
        ensures
            fired == (old(self).server is Stopped),
            final(self).server == after_begin_start(old(self).server),
            final(self).open == old(self).open,
    {
        if matches!(self.server, McpServerState::Stopped) {
            self.server = McpServerState::Starting;
            true
        } else {
            false
        }
    }

    /// A starting server now runs on `port`.
    pub fn on_started(&mut self, port: u16)
        ensures
            final(self).server == after_started(old(self).server, port),
            final(self).open == old(self).open,
    {
        if matches!(self.server, McpServerState::Starting) {
            self.server = McpServerState::Running { port };
        }
    }

    /// A running server stops.
    pub fn stop(&mut self)
        ensures
            final(self).server == after_stop(old(self).server),
            final(self).open == old(self).open,
    {
        if matches!(self.server, McpServerState::Running { .. }) {
            self.server = McpServerState::Stopped;
        }
    }
}

/// A full cycle, start requested, started on a port, stopped, leads a
/// stopped server back to stopped; in between it runs on that port.
pub proof fn lemma_server_cycle(port: u16)
    ensures
        after_begin_start(McpServerState::Stopped) == McpServerState::Starting,
        after_started(McpServerState::Starting, port) == (McpServerState::Running { port }),
        after_stop((McpServerState::Running { port })) == McpServerState::Stopped,
{
}

/// Only the step a state is waiting for moves it: a second start request,
/// a late start report and a stop of a server not running change nothing.
pub proof fn lemma_server_transitions_guarded(s: McpServerState, port: u16)
    ensures
        s != McpServerState::Stopped ==> after_begin_start(s) == s,
        s != McpServerState::Starting ==> after_started(s, port) == s,
        (s == McpServerState::Stopped || s == McpServerState::Starting) ==> after_stop(s) == s,
        after_begin_start(after_begin_start(s)) == after_begin_start(s),
{
}

/// The client configuration shown for a server running on `port`.
pub open spec fn config_snippet(port: u16) -> Seq<char> {
    "\"mongoscope\": {\n  \"url\": \"http://localhost:"@ + decimal(port as nat)
        + "/mcp\"\n}"@
}

/// The client configuration to paste for a server running on `port`.
pub fn config_text(port: u16) -> (r: String)
    ensures
        r@ == config_snippet(port),
{
    let p = decimal_string(port as u64);
    let head = concat("\"mongoscope\": {\n  \"url\": \"http://localhost:", p.as_str());
    concat(head.as_str(), "/mcp\"\n}")
}

} // verus!
