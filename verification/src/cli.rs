//! The command line, once it is parsed.

use crate::zoom::Zoom;
use vstd::prelude::*;

verus! {

/// The options of a run. `P` is the type of a path.
#[derive(Debug, Clone)]
pub struct Cli<P> {
    pub command: Option<Command>,
    /// The address to open first.
    pub url: Option<String>,
    /// The profile directory.
    pub profile_dir: Option<P>,
    /// The Chrome binary.
    pub chrome: Option<P>,
    /// The quality of the screencast, from 1 to 100.
    pub quality: Option<u8>,
    /// The zoom factor.
    pub zoom: Option<Zoom>,
    pub mcp_on: bool,
    pub mcp_off: bool,
    /// The port of the MCP server.
    pub mcp_port: Option<u16>,
    pub mcp_allow_control_on: bool,
    pub mcp_allow_control_off: bool,
}

/// What a pair of opposite flags says: nothing where neither or both are set.
pub open spec fn switch_of(on: bool, off: bool) -> Option<bool> {
    if on == off {
        None
    } else {
        Some(on)
    }
}

/// What a pair of opposite flags says.
fn switch(on: bool, off: bool) -> (r: Option<bool>)
    ensures
        r == switch_of(on, off),
{
    match (on, off) {
        (true, false) => Some(true),
        (false, true) => Some(false),
        _ => None,
    }
}

impl<P> Cli<P> {
    /// Whether the MCP server is asked for or declined.
    pub fn mcp(&self) -> (r: Option<bool>)
        ensures
            r == switch_of(self.mcp_on, self.mcp_off),
    {
        switch(self.mcp_on, self.mcp_off)
    }

    /// Whether control by agents is asked for or declined.
    pub fn mcp_allow_control(&self) -> (r: Option<bool>)
        ensures
            r == switch_of(self.mcp_allow_control_on, self.mcp_allow_control_off),
    {
        switch(self.mcp_allow_control_on, self.mcp_allow_control_off)
    }
}

/// A command other than to browse.
#[derive(Debug, Clone)]
pub enum Command {
    /// Manages the MCP integration.
    Mcp(McpCmd),
}

/// A command on the MCP integration.
#[derive(Debug, Clone)]
pub struct McpCmd {
    pub action: McpAction,
}

/// What to do with the MCP integration.
#[derive(Debug, Clone)]
pub enum McpAction {
    /// Registers the server with an agent, and writes the configuration.
    Install(InstallArgs),
    /// Shows the configuration.
    Status,
    /// Takes the registration back.
    Uninstall(UninstallArgs),
}

/// How to install.
#[derive(Debug, Clone, Copy, PartialEq, Eq, Structural)]
pub struct InstallArgs {
    pub agent: AgentKind,
    pub port: Option<u16>,
    pub allow_control: bool,
}

/// How to uninstall.
#[derive(Debug, Clone, Copy, PartialEq, Eq, Structural)]
pub struct UninstallArgs {
    pub agent: AgentKind,
}

/// An agent.
#[derive(Debug, Clone, Copy, PartialEq, Eq, Structural)]
pub enum AgentKind {
    /// Registered with its own command.
    Claude,
    /// Only shown how to register: nothing is changed.
    Print,
}

} // verus!
