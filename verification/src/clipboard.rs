//! The programs that take text onto the system clipboard, in the order they are tried.
use vstd::prelude::*;

verus! {

/// A clipboard program and its arguments; the text goes to its standard input.
#[derive(Debug)]
pub struct ClipboardTool {
    pub program: String,
    pub args: Vec<String>,
}

/// A tool as (program, arguments).
pub open spec fn tool_view(t: ClipboardTool) -> (Seq<char>, Seq<Seq<char>>) {
    (t.program@, t.args@.map_values(|a: String| a@))
}

/// The tools to try: `pbcopy` on macOS; elsewhere `wl-copy`, then `xclip`, then `xsel`.
pub open spec fn clipboard_candidates(macos: bool) -> Seq<(Seq<char>, Seq<Seq<char>>)> {
    if macos {
        seq![("pbcopy"@, Seq::empty())]
    } else {
        seq![
            ("wl-copy"@, Seq::empty()),
            ("xclip"@, seq!["-selection"@, "clipboard"@]),
            ("xsel"@, seq!["--clipboard"@, "--input"@]),
        ]
    }
}

fn tool(program: &str, args: Vec<String>) -> (t: ClipboardTool)
    ensures
        tool_view(t) == (program@, args@.map_values(|a: String| a@)),
{
    ClipboardTool { program: program.to_owned(), args }
}

fn no_args() -> (v: Vec<String>)
    ensures
        v@.map_values(|a: String| a@) == Seq::<Seq<char>>::empty(),
{
    let v: Vec<String> = Vec::new();
    assert(v@.map_values(|a: String| a@) =~= Seq::<Seq<char>>::empty());
    v
}

/// The clipboard tools to try, in order; the first that starts takes the text.
pub fn clipboard_tools(macos: bool) -> (r: Vec<ClipboardTool>)
    ensures
        r@.map_values(|t: ClipboardTool| tool_view(t)) == clipboard_candidates(macos),
{
    let mut r: Vec<ClipboardTool> = Vec::new();
    if macos {
        r.push(tool("pbcopy", no_args()));
    } else {
        r.push(tool("wl-copy", no_args()));
        let mut xclip: Vec<String> = Vec::new();
        xclip.push("-selection".to_owned());
        xclip.push("clipboard".to_owned());
        assert(xclip@.map_values(|a: String| a@) =~= seq!["-selection"@, "clipboard"@]);
        r.push(tool("xclip", xclip));
        let mut xsel: Vec<String> = Vec::new();
        xsel.push("--clipboard".to_owned());
        xsel.push("--input".to_owned());
        assert(xsel@.map_values(|a: String| a@) =~= seq!["--clipboard"@, "--input"@]);
        r.push(tool("xsel", xsel));
    }
    assert(r@.map_values(|t: ClipboardTool| tool_view(t)) =~= clipboard_candidates(macos));
    r
}

} // verus!
