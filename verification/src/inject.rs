//! How transcribed text reaches the focused window.
//!
//! Tools are tried in order of preference: `wtype` (the wlr virtual
//! keyboard, best unicode fidelity), then `ydotool` (uinput, works wherever
//! `ydotoold` runs), then `wl-copy` (the clipboard, with a desktop
//! notification saying so). Each reads the text on its standard input.

use vstd::prelude::*;

verus! {

/// A program that can deliver text.
#[derive(Debug, Clone, Copy, PartialEq, Eq, Structural)]
pub enum Tool {
    Wtype,
    Ydotool,
    WlCopy,
}

/// What to do after an attempt.
#[derive(Debug, Clone, Copy, PartialEq, Eq, Structural)]
pub enum Next {
    /// The text was typed.
    Done,
    /// The text is on the clipboard: say so, and stop.
    NotifyCopied,
    /// Try this tool next.
    Try(Tool),
    /// Nothing could deliver the text.
    GiveUp,
}

/// The tool tried first.
pub fn first_tool() -> (t: Tool)
    ensures
        t == Tool::Wtype,
{
    Tool::Wtype
}

pub open spec fn spec_after_attempt(tool: Tool, delivered: bool) -> Next {
    match tool {
        Tool::Wtype => if delivered { Next::Done } else { Next::Try(Tool::Ydotool) },
        Tool::Ydotool => if delivered { Next::Done } else { Next::Try(Tool::WlCopy) },
        Tool::WlCopy => if delivered { Next::NotifyCopied } else { Next::GiveUp },
    }
}

/// What follows an attempt with `tool`; `delivered` says whether the tool
/// ran and exited successfully.
pub fn after_attempt(tool: Tool, delivered: bool) -> (n: Next)
    ensures
        n == spec_after_attempt(tool, delivered),
{
    match tool {
        Tool::Wtype => if delivered { Next::Done } else { Next::Try(Tool::Ydotool) },
        Tool::Ydotool => if delivered { Next::Done } else { Next::Try(Tool::WlCopy) },
        Tool::WlCopy => if delivered { Next::NotifyCopied } else { Next::GiveUp },
    }
}

pub open spec fn spec_program(tool: Tool) -> Seq<char> {
    match tool {
        Tool::Wtype => "wtype"@,
        Tool::Ydotool => "ydotool"@,
        Tool::WlCopy => "wl-copy"@,
    }
}

/// The program a tool runs.
pub fn program(tool: Tool) -> (p: &'static str)
    ensures
        p@ == spec_program(tool),
{
    match tool {
        Tool::Wtype => "wtype",
        Tool::Ydotool => "ydotool",
        Tool::WlCopy => "wl-copy",
    }
}

/// The arguments that make a tool read the text from standard input.
pub fn arguments(tool: Tool) -> (a: Vec<&'static str>)
    ensures
        tool == Tool::Wtype ==> a@.len() == 1 && a@[0]@ == "-"@,
        tool == Tool::Ydotool ==> a@.len() == 3 && a@[0]@ == "type"@ && a@[1]@ == "--file"@ && a@[2]@
            == "-"@,
        tool == Tool::WlCopy ==> a@.len() == 0,
{
    match tool {
        Tool::Wtype => vec!["-"],
        Tool::Ydotool => vec!["type", "--file", "-"],
        Tool::WlCopy => Vec::new(),
    }
}

/// Delivery tries each tool at most once, in order, and always ends: after
/// the clipboard there is nothing left to try.
pub proof fn lemma_delivery_ends(d1: bool, d2: bool, d3: bool)
    ensures
        spec_after_attempt(Tool::Wtype, d1) == Next::Done || spec_after_attempt(Tool::Wtype, d1) == Next::Try(
            Tool::Ydotool,
        ),
        spec_after_attempt(Tool::Ydotool, d2) == Next::Done || spec_after_attempt(Tool::Ydotool, d2)
            == Next::Try(Tool::WlCopy),
        !(spec_after_attempt(Tool::WlCopy, d3) is Try),
{
}

} // verus!
