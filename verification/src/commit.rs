//! Commit messages: what is asked of `git`, and how its answer becomes the
//! model's input.
use crate::text::{append_str, decimal, push_decimal, trim, trimmed};
use vstd::prelude::*;
use vstd::utf8::{decode_utf8, valid_utf8};

verus! {

/// The system prompt used for commit messages when the configuration sets none.
pub const DEFAULT_SYSTEM_PROMPT: &'static str = "\
You write Conventional Commit messages from staged Git changes.
Output only the commit message, with no Markdown fences or commentary.
Use the form type(scope): description, omitting the scope when it is not useful.
Use an imperative, lowercase description with no trailing period and keep the subject at most 72 characters.
Do not add a body to the messages.
Represent breaking changes with ! before the colon.
Do not invent changes, motivations, issue references, or breaking behavior.
";

/// The largest staged diff, in bytes, that is sent to the model.
pub const MAX_DIFF_BYTES: usize = 262144;

/// Lines of context around each change: Git's standard compact context,
/// whatever the user's own diff settings.
pub const DIFF_CONTEXT_LINES: usize = 3;

/// What `String::from_utf8_lossy` makes of `bytes`: the decoded text, with
/// each invalid sequence replaced by U+FFFD.
pub uninterp spec fn lossy_text(bytes: Seq<u8>) -> Seq<char>;

/// Calls `String::from_utf8_lossy`. Its result depends on the bytes alone; on
/// valid UTF-8 it is the decoded text, as the documentation says.
#[verifier::external_body]
fn utf8_lossy(bytes: &[u8]) -> (r: String)
    ensures
        r@ == lossy_text(bytes@),
        valid_utf8(bytes@) ==> r@ == decode_utf8(bytes@),
{
    String::from_utf8_lossy(bytes).into_owned()
}

/// The arguments given to `git` to show the staged changes.
pub open spec fn diff_arguments() -> Seq<Seq<char>> {
    seq![
        "diff"@,
        "--cached"@,
        "--no-ext-diff"@,
        "--no-textconv"@,
        "--find-renames"@,
        "--stat"@,
        "--patch"@,
        "--unified="@ + decimal(DIFF_CONTEXT_LINES as nat),
    ]
}

/// The arguments given to `git`: the staged changes only, without external
/// diff drivers or text conversion, with renames, a summary and the patch.
pub fn git_diff_args() -> (r: Vec<String>)
    ensures
        r@.map_values(|a: String| a@) == diff_arguments(),
{
    let mut r: Vec<String> = Vec::new();
    r.push("diff".to_owned());
    r.push("--cached".to_owned());
    r.push("--no-ext-diff".to_owned());
    r.push("--no-textconv".to_owned());
    r.push("--find-renames".to_owned());
    r.push("--stat".to_owned());
    r.push("--patch".to_owned());
    let mut unified = "--unified=".to_owned();
    push_decimal(&mut unified, DIFF_CONTEXT_LINES as u64);
    r.push(unified);
    assert(r@.map_values(|a: String| a@) =~= diff_arguments());
    r
}

/// Why no prompt could be made from the staged changes.
#[derive(Debug)]
pub enum CommitError {
    /// `git` failed; holds what it printed on standard error, trimmed.
    GitFailed(String),
    /// Nothing is staged.
    NoStagedChanges,
    /// The diff is over the limit; holds its size in KiB, rounded up.
    DiffTooLarge(usize),
}

/// `n / d`, rounded up.
pub open spec fn ceil_div(n: nat, d: nat) -> nat {
    ((n + d - 1) / (d as int)) as nat
}

/// The message for an oversized diff of `kib` KiB.
pub open spec fn too_large_message(kib: nat) -> Seq<char> {
    "staged diff is too large ("@ + decimal(kib) + " KiB; limit is "@ + decimal(
        (MAX_DIFF_BYTES / 1024) as nat,
    ) + " KiB); stage a smaller change"@
}

impl CommitError {
    /// The message shown to the user.
    pub fn message(&self) -> (r: String)
        ensures
            r@ == match self {
                CommitError::GitFailed(e) => "reading staged changes: "@ + e@,
                CommitError::NoStagedChanges => "no staged changes"@,
                CommitError::DiffTooLarge(kib) => too_large_message(*kib as nat),
            },
    {
        match self {
            CommitError::GitFailed(e) => {
                let mut m = "reading staged changes: ".to_owned();
                append_str(&mut m, e.as_str());
                m
            },
            CommitError::NoStagedChanges => "no staged changes".to_owned(),
            CommitError::DiffTooLarge(kib) => {
                let mut m = "staged diff is too large (".to_owned();
                push_decimal(&mut m, *kib as u64);
                append_str(&mut m, " KiB; limit is ");
                push_decimal(&mut m, (MAX_DIFF_BYTES / 1024) as u64);
                append_str(&mut m, " KiB); stage a smaller change");
                m
            },
        }
    }
}

/// The text before the diff in the model's input.
pub open spec fn prompt_header() -> Seq<char> {
    "Generate a Conventional Commit message for exactly the staged changes below.\n\n<staged-diff>\n"@
}

/// The model's input for the staged diff `diff`.
pub open spec fn prompt_text(diff: Seq<char>) -> Seq<char> {
    "Generate a Conventional Commit message for exactly the staged changes below.\n\n<staged-diff>\n"@
        + diff + "</staged-diff>"@
}

/// What becomes of the output of `git diff`: `success` is its exit status,
/// `stdout` and `stderr` what it printed.
pub open spec fn staged_outcome(success: bool, stdout: Seq<u8>, stderr: Seq<u8>) -> Result<
    Seq<char>,
    CommitErrorKind,
> {
    if !success {
        Err(CommitErrorKind::GitFailed(trim(lossy_text(stderr))))
    } else if stdout.len() == 0 {
        Err(CommitErrorKind::NoStagedChanges)
    } else if stdout.len() > MAX_DIFF_BYTES {
        Err(CommitErrorKind::DiffTooLarge(ceil_div(stdout.len(), 1024)))
    } else {
        Ok(prompt_text(lossy_text(stdout)))
    }
}

/// The meaning of a `CommitError`.
pub enum CommitErrorKind {
    GitFailed(Seq<char>),
    NoStagedChanges,
    DiffTooLarge(nat),
}

impl View for CommitError {
    type V = CommitErrorKind;

    open spec fn view(&self) -> CommitErrorKind {
        match self {
            CommitError::GitFailed(e) => CommitErrorKind::GitFailed(e@),
            CommitError::NoStagedChanges => CommitErrorKind::NoStagedChanges,
            CommitError::DiffTooLarge(k) => CommitErrorKind::DiffTooLarge(*k as nat),
        }
    }
}

/// The model's input built from the output of `git diff` (see `git_diff_args`):
/// refused when git failed, when nothing is staged, and when the diff is over
/// `MAX_DIFF_BYTES`.
pub fn staged_changes_prompt_from(success: bool, stdout: &[u8], stderr: &[u8]) -> (r: Result<
    String,
    CommitError,
>)
    ensures
        match r {
            Ok(p) => staged_outcome(success, stdout@, stderr@) == Ok::<Seq<char>, CommitErrorKind>(
                p@,
            ),
            Err(e) => staged_outcome(success, stdout@, stderr@) == Err::<
                Seq<char>,
                CommitErrorKind,
            >(e@),
        },
        valid_utf8(stdout@) ==> (r matches Ok(p) ==> p@ == prompt_text(decode_utf8(stdout@))),
        r is Ok <==> success && 0 < stdout@.len() <= MAX_DIFF_BYTES,
        r matches Ok(p) ==> {
            let d = lossy_text(stdout@);
            &&& p@.len() == prompt_header().len() + d.len() + 14
            &&& p@.take(prompt_header().len() as int) == prompt_header()
            &&& p@.subrange(prompt_header().len() as int, prompt_header().len() + d.len() as int) == d
            &&& p@.skip(prompt_header().len() + d.len() as int) == "</staged-diff>"@
        },
{
    if !success {
        let text = utf8_lossy(stderr);
        return Err(CommitError::GitFailed(trimmed(text.as_str())));
    }
    if stdout.len() == 0 {
        return Err(CommitError::NoStagedChanges);
    }
    if stdout.len() > MAX_DIFF_BYTES {
        let n = stdout.len();
        let kib = n / 1024 + if n % 1024 == 0 {
            0
        } else {
            1
        };
        assert(kib as nat == ceil_div(n as nat, 1024)) by (nonlinear_arith)
            requires
                kib == n / 1024 + if n % 1024 == 0 {
                    0int
                } else {
                    1int
                },
        ;
        return Err(CommitError::DiffTooLarge(kib));
    }
    let diff = utf8_lossy(stdout);
    let mut p =
        "Generate a Conventional Commit message for exactly the staged changes below.\n\n<staged-diff>\n".to_owned();
    append_str(&mut p, diff.as_str());
    append_str(&mut p, "</staged-diff>");
    proof {
        law_prompt_holds_the_whole_diff(diff@);
    }
    Ok(p)
}

/// The model's input holds the whole diff, unchanged, between a fixed header
/// and the closing marker: nothing of the diff is dropped or altered, and
/// nothing else is added.
pub proof fn law_prompt_holds_the_whole_diff(diff: Seq<char>)
    ensures
        prompt_header().len() == 92,
        prompt_text(diff).len() == 92 + diff.len() + 14,
        prompt_text(diff).take(92) == prompt_header(),
        prompt_text(diff).subrange(92, 92 + diff.len() as int) == diff,
        prompt_text(diff).skip(92 + diff.len() as int) == "</staged-diff>"@,
{
    reveal_strlit(
        "Generate a Conventional Commit message for exactly the staged changes below.\n\n<staged-diff>\n",
    );
    reveal_strlit("</staged-diff>");
    let t = prompt_text(diff);
    assert(t.take(92) =~= prompt_header());
    assert(t.subrange(92, 92 + diff.len() as int) =~= diff);
    assert(t.skip(92 + diff.len() as int) =~= "</staged-diff>"@);
}

} // verus!
