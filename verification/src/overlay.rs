//! Overlays: what floats above the main view, and what each of them says.

use vstd::prelude::*;

pub mod ask_modal;
pub mod help;
pub mod history;
pub mod page;
pub mod rules;
pub mod settings;
pub mod servers;

verus! {

/// Which overlay is open.
#[derive(Debug, Clone, Copy, PartialEq, Eq, Structural)]
pub enum Overlay {
    SlashHelp,
    Config,
    Mcp,
    Skills,
    System,
    /// The conversation as the model sees it.
    TranscriptViewer,
    /// Search through past prompts.
    ReverseHistory,
    /// A request for permission.
    AskModal,
    /// The checkpoints of this session.
    Rewind,
    /// The permission mode and rules.
    Permissions,
}

/// The main view, or an overlay above it.
#[derive(Debug, Clone, Copy, PartialEq, Eq, Structural)]
pub enum ViewState {
    Main,
    Overlay(Overlay),
}

impl Overlay {
    pub open spec fn heading(self) -> Seq<char> {
        match self {
            Overlay::SlashHelp => "Slash Commands"@,
            Overlay::Config => "Configuration"@,
            Overlay::Mcp => "MCP Servers"@,
            Overlay::Skills => "Skills"@,
            Overlay::System => "System Prompt"@,
            Overlay::TranscriptViewer => "Transcript"@,
            Overlay::ReverseHistory => "Reverse History"@,
            Overlay::AskModal => "Permission Needed"@,
            Overlay::Rewind => "Rewind"@,
            Overlay::Permissions => "Permissions"@,
        }
    }

    pub open spec fn nick(self) -> Seq<char> {
        match self {
            Overlay::SlashHelp => "help"@,
            Overlay::Config => "config"@,
            Overlay::Mcp => "mcp"@,
            Overlay::Skills => "skills"@,
            Overlay::System => "system"@,
            Overlay::TranscriptViewer => "transcript"@,
            Overlay::ReverseHistory => "history"@,
            Overlay::AskModal => "ask"@,
            Overlay::Rewind => "rewind"@,
            Overlay::Permissions => "permissions"@,
        }
    }

    /// What stands in the border.
    pub fn title(self) -> (r: &'static str)
        ensures
            r@ == self.heading(),
    {
        match self {
            Overlay::SlashHelp => "Slash Commands",
            Overlay::Config => "Configuration",
            Overlay::Mcp => "MCP Servers",
            Overlay::Skills => "Skills",
            Overlay::System => "System Prompt",
            Overlay::TranscriptViewer => "Transcript",
            Overlay::ReverseHistory => "Reverse History",
            Overlay::AskModal => "Permission Needed",
            Overlay::Rewind => "Rewind",
            Overlay::Permissions => "Permissions",
        }
    }

    /// What stands in the status bar.
    pub fn short_name(self) -> (r: &'static str)
        ensures
            r@ == self.nick(),
    {
        match self {
            Overlay::SlashHelp => "help",
            Overlay::Config => "config",
            Overlay::Mcp => "mcp",
            Overlay::Skills => "skills",
            Overlay::System => "system",
            Overlay::TranscriptViewer => "transcript",
            Overlay::ReverseHistory => "history",
            Overlay::AskModal => "ask",
            Overlay::Rewind => "rewind",
            Overlay::Permissions => "permissions",
        }
    }
}

/// Each overlay goes by its own title in the border and by its own short
/// name in the status bar.
pub proof fn law_overlays_have_their_names()
    ensures
        Overlay::SlashHelp.heading() == "Slash Commands"@,
        Overlay::Config.heading() == "Configuration"@,
        Overlay::Mcp.heading() == "MCP Servers"@,
        Overlay::Skills.heading() == "Skills"@,
        Overlay::System.heading() == "System Prompt"@,
        Overlay::TranscriptViewer.heading() == "Transcript"@,
        Overlay::ReverseHistory.heading() == "Reverse History"@,
        Overlay::AskModal.heading() == "Permission Needed"@,
        Overlay::Rewind.heading() == "Rewind"@,
        Overlay::Permissions.heading() == "Permissions"@,
        Overlay::SlashHelp.nick() == "help"@,
        Overlay::Config.nick() == "config"@,
        Overlay::Mcp.nick() == "mcp"@,
        Overlay::Skills.nick() == "skills"@,
        Overlay::System.nick() == "system"@,
        Overlay::TranscriptViewer.nick() == "transcript"@,
        Overlay::ReverseHistory.nick() == "history"@,
        Overlay::AskModal.nick() == "ask"@,
        Overlay::Rewind.nick() == "rewind"@,
        Overlay::Permissions.nick() == "permissions"@,
{
}

} // verus!
