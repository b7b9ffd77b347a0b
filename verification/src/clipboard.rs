//! Which clipboard tool to try next, and what the attempts add up to.
//!
//! Copying runs external programs one after another until one of them takes
//! the text. The order and the verdict are decided here; running a program is
//! left to the caller, who reports back whether it succeeded.
use vstd::prelude::*;

verus! {

/// A clipboard program and its arguments.
pub struct ClipboardTool {
    pub cmd: &'static str,
    pub args: Vec<&'static str>,
}

pub struct ToolView {
    pub cmd: Seq<char>,
    pub args: Seq<Seq<char>>,
}

impl View for ClipboardTool {
    type V = ToolView;

    open spec fn view(&self) -> ToolView {
        ToolView { cmd: self.cmd@, args: self.args@.map_values(|a: &'static str| a@) }
    }
}

/// What the caller does next.
pub enum ClipboardStep {
    /// Run this tool with the text on its standard input and report whether it succeeded.
    Try(ClipboardTool),
    /// Stop: the text was copied, or no tool could take it.
    Done(Result<(), String>),
}

pub open spec fn tool(cmd: Seq<char>, args: Seq<Seq<char>>) -> ToolView {
    ToolView { cmd, args }
}

/// The tools in the order they are tried: macOS, Wayland, X11 (xclip, then xsel), Windows.
pub open spec fn clipboard_tools() -> Seq<ToolView> {
    seq![
        tool("pbcopy"@, seq![]),
        tool("wl-copy"@, seq![]),
        tool("xclip"@, seq!["-selection"@, "clipboard"@]),
        tool("xsel"@, seq!["--clipboard"@, "--input"@]),
        tool("clip.exe"@, seq![]),
    ]
}

pub open spec fn no_tool_message() -> Seq<char> {
    "no clipboard tool found (install pbcopy / xclip / wl-copy / xsel)"@
}

/// The outcomes so far are those of the first tools, in order, none but the last a success.
pub open spec fn valid_outcomes(outcomes: Seq<bool>) -> bool {
    &&& outcomes.len() <= clipboard_tools().len()
    &&& forall|i: int| 0 <= i < outcomes.len() - 1 ==> !#[trigger] outcomes[i]
}

/// The step after the given outcomes: stop on the first success, otherwise try the next
/// tool, and when every tool has failed report that none was found.
pub open spec fn next_step_spec(outcomes: Seq<bool>) -> (bool, Option<ToolView>, bool) {
    if outcomes.len() > 0 && outcomes.last() {
        (true, None, true)
    } else if outcomes.len() < clipboard_tools().len() {
        (false, Some(clipboard_tools()[outcomes.len() as int]), false)
    } else {
        (true, None, false)
    }
}

fn tool_at(i: usize) -> (r: ClipboardTool)
    requires
        i < 5,
    ensures
        r@ == clipboard_tools()[i as int],
{
    let t = if i == 0 {
        ClipboardTool { cmd: "pbcopy", args: Vec::new() }
    } else if i == 1 {
        ClipboardTool { cmd: "wl-copy", args: Vec::new() }
    } else if i == 2 {
        ClipboardTool { cmd: "xclip", args: vec!["-selection", "clipboard"] }
    } else if i == 3 {
        ClipboardTool { cmd: "xsel", args: vec!["--clipboard", "--input"] }
    } else {
        ClipboardTool { cmd: "clip.exe", args: Vec::new() }
    };
    assert(t@.args =~= clipboard_tools()[i as int].args);
    t
}

/// Decides the next step of copying to the clipboard, given whether each tool tried
/// so far succeeded: `Done(Ok(()))` after a success, `Try` with the next tool in
/// order while one is left, and `Done(Err(..))` once all have failed.
pub fn copy_to_clipboard(outcomes: &Vec<bool>) -> (r: ClipboardStep)
    ensures
        match r {
            ClipboardStep::Done(Ok(())) => next_step_spec(outcomes@) == (true, None::<ToolView>, true),
            ClipboardStep::Done(Err(m)) => next_step_spec(outcomes@) == (true, None::<ToolView>, false)
                && m@ == no_tool_message(),
            ClipboardStep::Try(t) => next_step_spec(outcomes@) == (false, Some(t@), false),
        },
{
    let n = outcomes.len();
    if n > 0 && outcomes[n - 1] {
        ClipboardStep::Done(Ok(()))
    } else if n < 5 {
        ClipboardStep::Try(tool_at(n))
    } else {
        ClipboardStep::Done(Err(String::from_str("no clipboard tool found (install pbcopy / xclip / wl-copy / xsel)")))
    }
}

/// Copying succeeds exactly when some tool succeeded, and every tool is tried, in
/// order, before copying fails.
pub proof fn law_copy_succeeds_iff_a_tool_did(outcomes: Seq<bool>)
    requires
        valid_outcomes(outcomes),
    ensures
        next_step_spec(outcomes).0 && next_step_spec(outcomes).2 <==> exists|i: int|
            0 <= i < outcomes.len() && #[trigger] outcomes[i],
        next_step_spec(outcomes).0 && !next_step_spec(outcomes).2 ==> outcomes.len()
            == clipboard_tools().len(),
        !next_step_spec(outcomes).0 ==> next_step_spec(outcomes).1 == Some(
            clipboard_tools()[outcomes.len() as int],
        ),
{
    if exists|i: int| 0 <= i < outcomes.len() && #[trigger] outcomes[i] {
        let i = choose|i: int| 0 <= i < outcomes.len() && #[trigger] outcomes[i];
        assert(i == outcomes.len() - 1);
    }
    if outcomes.len() > 0 && outcomes.last() {
        assert(outcomes[outcomes.len() - 1]);
    }
}

/// The tools, in the order they are tried: `pbcopy`, `wl-copy`, `xclip -selection
/// clipboard`, `xsel --clipboard --input`, `clip.exe`; with none of them the copy
/// fails with the message naming them.
pub proof fn law_tools_in_order()
    ensures
        clipboard_tools().len() == 5,
        clipboard_tools()[0] == (ToolView { cmd: "pbcopy"@, args: seq![] }),
        clipboard_tools()[1] == (ToolView { cmd: "wl-copy"@, args: seq![] }),
        clipboard_tools()[2] == (ToolView { cmd: "xclip"@, args: seq!["-selection"@, "clipboard"@] }),
        clipboard_tools()[3] == (ToolView { cmd: "xsel"@, args: seq!["--clipboard"@, "--input"@] }),
        clipboard_tools()[4] == (ToolView { cmd: "clip.exe"@, args: seq![] }),
        next_step_spec(seq![false, false, false, false, false]) == (true, None::<ToolView>, false),
        next_step_spec(Seq::<bool>::empty()) == (false, Some(clipboard_tools()[0]), false),
{
    assert(seq![false, false, false, false, false].last() == false);
}
} // verus!
