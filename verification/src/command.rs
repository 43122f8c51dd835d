//! Command lines of the `pelagos` binary, and what its runs come back with.

use vstd::prelude::*;

use crate::text::trim;

verus! {

/// The systems that `pelagos` runs on.
#[derive(Debug, Clone, Copy, PartialEq, Eq, Structural)]
pub enum Platform {
    /// The runtime lives in virtual machines, one per profile.
    MacOs,
    /// The runtime is native and knows no profiles.
    Linux,
}

/// The beginning of every command line: the binary and, where there are profiles, the profile.
pub open spec fn pelagos_argv(platform: Platform, profile: Seq<char>) -> Seq<Seq<char>> {
    match platform {
        Platform::MacOs => seq!["pelagos"@, "--profile"@, profile],
        Platform::Linux => seq!["pelagos"@],
    }
}

/// Puts one more argument at the end of a command line.
pub(crate) fn arg(argv: &mut Vec<String>, a: &str)
    ensures
        final(argv).deep_view() == old(argv).deep_view().push(a@),
{
    let ghost before = argv.deep_view();
    argv.push(a.to_string());
    assert(argv.deep_view() =~= before.push(a@));
}

/// Begins a command line.
pub fn pelagos_cmd(platform: Platform, profile: &str) -> (r: Vec<String>)
    ensures
        r.deep_view() == pelagos_argv(platform, profile@),
{
    let mut argv: Vec<String> = Vec::new();
    arg(&mut argv, "pelagos");
    match platform {
        Platform::MacOs => {
            arg(&mut argv, "--profile");
            arg(&mut argv, profile);
        },
        Platform::Linux => {},
    }
    assert(argv.deep_view() =~= pelagos_argv(platform, profile@));
    argv
}

/// The text that `String::from_utf8_lossy` makes of `bytes`.
pub uninterp spec fn utf8_lossy(bytes: Seq<u8>) -> Seq<char>;

/// Calls `String::from_utf8_lossy`, which gives the text that bytes encode and puts replacement
/// characters in the place of what is not UTF-8.
///
/// Claimed of it: the text depends on the bytes alone, and is the text that they encode where
/// they are UTF-8. Where the replacement characters go is left open.
#[verifier::external_body]
fn from_utf8_lossy(bytes: &[u8]) -> (r: String)
    ensures
        r@ == utf8_lossy(bytes@),
        vstd::utf8::valid_utf8(bytes@) ==> r@ == vstd::utf8::decode_utf8(bytes@),
{
    String::from_utf8_lossy(bytes).into_owned()
}

/// What a run of a command came back with.
pub enum CommandReply {
    /// The command ran to its end.
    Exited {
        /// Whether the exit status says success.
        success: bool,
        /// The exit status in words.
        status: String,
        /// What it wrote to its output.
        stdout: String,
        /// What it wrote to its error output.
        stderr: String,
    },
    /// The command could not be run.
    NotRun {
        /// The reason in words.
        error: String,
    },
}

/// What a run of a command came back with, as characters.
pub enum Reply {
    Exited { success: bool, status: Seq<char>, stdout: Seq<char>, stderr: Seq<char> },
    NotRun { error: Seq<char> },
}

impl View for CommandReply {
    type V = Reply;

    open spec fn view(&self) -> Reply {
        match *self {
            CommandReply::Exited { success, status, stdout, stderr } => Reply::Exited {
                success,
                status: status@,
                stdout: stdout@,
                stderr: stderr@,
            },
            CommandReply::NotRun { error } => Reply::NotRun { error: error@ },
        }
    }
}

impl CommandReply {
    /// The reply of a command that ran to its end and wrote these bytes.
    pub fn exited(success: bool, status: String, stdout: &[u8], stderr: &[u8]) -> (r: CommandReply)
        ensures
            r@ == (Reply::Exited {
                success,
                status: status@,
                stdout: utf8_lossy(stdout@),
                stderr: utf8_lossy(stderr@),
            }),
            vstd::utf8::valid_utf8(stdout@) ==> r->stdout@ == vstd::utf8::decode_utf8(stdout@),
            vstd::utf8::valid_utf8(stderr@) ==> r->stderr@ == vstd::utf8::decode_utf8(stderr@),
    {
        CommandReply::Exited {
            success,
            status,
            stdout: from_utf8_lossy(stdout),
            stderr: from_utf8_lossy(stderr),
        }
    }
}

/// Tells whether the command ran and succeeded.
pub open spec fn succeeded(reply: Reply) -> bool {
    reply matches Reply::Exited { success, .. } && success
}

/// `<what> failed (exit <status>)`.
pub open spec fn bare_failure(what: Seq<char>, status: Seq<char>) -> Seq<char> {
    what + " failed (exit "@ + status + ")"@
}

/// `<what>: <detail>`.
pub open spec fn labelled(what: Seq<char>, detail: Seq<char>) -> Seq<char> {
    what + ": "@ + detail
}

/// The message for the user where a command did not succeed.
///
/// It is what the command wrote to its error output, behind `label`; where it wrote nothing, the
/// exit status, behind `what`; and where it could not be run, the reason, behind `label`.
pub open spec fn failure_text(reply: Reply, what: Seq<char>, label: Seq<char>) -> Option<Seq<char>> {
    match reply {
        Reply::Exited { success, status, stdout, stderr } => if success {
            None
        } else if crate::text::trimmed(stderr).len() == 0 {
            Some(bare_failure(what, status))
        } else {
            Some(labelled(label, crate::text::trimmed(stderr)))
        },
        Reply::NotRun { error } => Some(labelled(label, error)),
    }
}

/// Writes `<what> failed (exit <status>)`.
pub(crate) fn write_bare_failure(what: &str, status: &str) -> (r: String)
    ensures
        r@ == bare_failure(what@, status@),
{
    let mut text = what.to_string();
    text.append(" failed (exit ");
    text.append(status);
    text.append(")");
    text
}

/// Writes `<what>: <detail>`.
pub(crate) fn write_labelled(what: &str, detail: &str) -> (r: String)
    ensures
        r@ == labelled(what@, detail@),
{
    let mut text = what.to_string();
    text.append(": ");
    text.append(detail);
    text
}

/// The message for the user where a command did not succeed; none where it did.
pub fn failure_message(reply: &CommandReply, what: &str, label: &str) -> (r: Option<String>)
    ensures
        match r {
            Some(text) => failure_text(reply@, what@, label@) == Some(text@),
            None => failure_text(reply@, what@, label@) is None,
        },
{
    match reply {
        CommandReply::Exited { success, status, stdout: _, stderr } => {
            if *success {
                return None;
            }
            let detail = trim(stderr.as_str());
            if detail.is_empty() {
                Some(write_bare_failure(what, status.as_str()))
            } else {
                Some(write_labelled(label, detail))
            }
        },
        CommandReply::NotRun { error } => Some(write_labelled(label, error.as_str())),
    }
}

/// A message is due exactly where the command did not succeed.
pub proof fn law_failure_is_reported(reply: Reply, what: Seq<char>, label: Seq<char>)
    ensures
        failure_text(reply, what, label) is Some <==> !succeeded(reply),
{
}

/// Only where there are profiles does a command line name one, as the value of `--profile` right
/// behind the binary.
pub proof fn law_profile_is_named_on_macos_only(profile: Seq<char>, other: Seq<char>)
    ensures
        pelagos_argv(Platform::MacOs, profile) == seq!["pelagos"@, "--profile"@, profile],
        pelagos_argv(Platform::Linux, profile) == seq!["pelagos"@],
        pelagos_argv(Platform::Linux, profile) == pelagos_argv(Platform::Linux, other),
{
}

/// A command that fails is reported with its error output, without the white space around it.
/// Where there is nothing else, it is reported with its status.
pub proof fn law_failure_shows_error_output(
    status: Seq<char>,
    stdout: Seq<char>,
    a: Seq<char>,
    detail: Seq<char>,
    b: Seq<char>,
    what: Seq<char>,
    label: Seq<char>,
)
    requires
        forall|i: int| 0 <= i < a.len() ==> crate::text::whitespace(#[trigger] a[i]),
        forall|i: int| 0 <= i < b.len() ==> crate::text::whitespace(#[trigger] b[i]),
        detail.len() > 0 ==> !crate::text::whitespace(detail[0]) && !crate::text::whitespace(
            detail.last(),
        ),
    ensures
        failure_text(
            Reply::Exited { success: false, status, stdout, stderr: a + detail + b },
            what,
            label,
        ) == Some(
            if detail.len() > 0 {
                label + ": "@ + detail
            } else {
                what + " failed (exit "@ + status + ")"@
            },
        ),
{
    crate::text::law_trim_keeps_the_text(a, detail, b);
}

/// A command that cannot be run is reported with the reason, as it is. One that succeeds is not
/// reported, whatever it wrote.
pub proof fn law_only_failures_are_reported(
    status: Seq<char>,
    stdout: Seq<char>,
    stderr: Seq<char>,
    error: Seq<char>,
    what: Seq<char>,
    label: Seq<char>,
)
    ensures
        failure_text(Reply::Exited { success: true, status, stdout, stderr }, what, label) is None,
        failure_text(Reply::NotRun { error }, what, label) == Some(label + ": "@ + error),
        succeeded(Reply::Exited { success: true, status, stdout, stderr }),
        !succeeded(Reply::Exited { success: false, status, stdout, stderr }),
        !succeeded(Reply::NotRun { error }),
{
}

/// A reply is seen as it is: nothing is dropped, changed or swapped.
pub proof fn law_replies_are_seen_as_they_are(
    success: bool,
    status: String,
    stdout: String,
    stderr: String,
    error: String,
)
    ensures
        (CommandReply::Exited { success, status, stdout, stderr })@ == (Reply::Exited {
            success,
            status: status@,
            stdout: stdout@,
            stderr: stderr@,
        }),
        (CommandReply::NotRun { error })@ == (Reply::NotRun { error: error@ }),
{
}

} // verus!
