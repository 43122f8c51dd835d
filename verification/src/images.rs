//! Listing, pulling, removing and inspecting images.

use vstd::prelude::*;

use crate::command::{
    arg, failure_message, pelagos_cmd, write_bare_failure, write_labelled, CommandReply, Platform,
};
use crate::text::trim;

verus! {

/// The command line `pelagos image <verb> <last>`.
pub open spec fn image_argv(
    platform: Platform,
    profile: Seq<char>,
    verb: Seq<char>,
    last: Seq<char>,
) -> Seq<Seq<char>> {
    crate::command::pelagos_argv(platform, profile) + seq!["image"@, verb, last]
}

fn write_image_command(platform: Platform, profile: &str, verb: &str, last: &str) -> (r: Vec<
    String,
>)
    ensures
        r.deep_view() == image_argv(platform, profile@, verb@, last@),
{
    let mut argv = pelagos_cmd(platform, profile);
    arg(&mut argv, "image");
    arg(&mut argv, verb);
    arg(&mut argv, last);
    assert(argv.deep_view() =~= image_argv(platform, profile@, verb@, last@));
    argv
}

/// The command line that lists the images.
pub fn image_ls_command(platform: Platform, profile: &str) -> (r: Vec<String>)
    ensures
        r.deep_view() == image_argv(platform, profile@, "ls"@, "--json"@),
{
    write_image_command(platform, profile, "ls", "--json")
}

/// The command line that pulls an image.
pub fn image_pull_command(platform: Platform, profile: &str, reference: &str) -> (r: Vec<String>)
    ensures
        r.deep_view() == image_argv(platform, profile@, "pull"@, reference@),
{
    write_image_command(platform, profile, "pull", reference)
}

/// The command line that removes an image.
pub fn image_rm_command(platform: Platform, profile: &str, reference: &str) -> (r: Vec<String>)
    ensures
        r.deep_view() == image_argv(platform, profile@, "rm"@, reference@),
{
    write_image_command(platform, profile, "rm", reference)
}

/// The command line that describes an image.
pub fn image_inspect_command(platform: Platform, profile: &str, reference: &str) -> (r: Vec<String>)
    ensures
        r.deep_view() == image_argv(platform, profile@, "inspect"@, reference@),
{
    write_image_command(platform, profile, "inspect", reference)
}

/// What a listing of the images gives: the JSON text of the list, or why there is none.
pub open spec fn listing(reply: crate::command::Reply) -> Result<Seq<char>, Seq<char>> {
    match reply {
        crate::command::Reply::Exited { success, status, stdout, stderr } => if success {
            Ok(crate::text::trimmed(stdout))
        } else {
            Err(crate::text::trimmed(stderr))
        },
        crate::command::Reply::NotRun { error } => Err(error),
    }
}

/// The JSON text in the reply to `image_ls_command`, or why there is none.
pub fn image_ls_listing(reply: &CommandReply) -> (r: Result<String, String>)
    ensures
        match r {
            Ok(text) => listing(reply@) == Ok::<Seq<char>, Seq<char>>(text@),
            Err(e) => listing(reply@) == Err::<Seq<char>, Seq<char>>(e@),
        },
{
    match reply {
        CommandReply::Exited { success, status: _, stdout, stderr } => {
            if *success {
                Ok(trim(stdout.as_str()).to_string())
            } else {
                Err(trim(stderr.as_str()).to_string())
            }
        },
        CommandReply::NotRun { error } => Err(error.clone()),
    }
}

/// The list of images, or why there is none.
///
/// `parsed` is what the text that `image_ls_listing` gives was read as, or why it could not be
/// read. It counts only where there is such a text.
pub fn image_ls_result<T>(reply: &CommandReply, parsed: Result<T, String>) -> (r: Result<T, String>)
    ensures
        match (listing(reply@), parsed) {
            (Err(why), _) => r matches Err(e) && e@ == why,
            (Ok(_), Err(why)) => r matches Err(e) && e@ == crate::command::labelled(
                "parse error"@,
                why@,
            ),
            (Ok(_), Ok(list)) => r == Ok::<T, String>(list),
        },
{
    match image_ls_listing(reply) {
        Err(why) => Err(why),
        Ok(_) => match parsed {
            Ok(list) => Ok(list),
            Err(why) => Err(write_labelled("parse error", why.as_str())),
        },
    }
}

/// What follows a command that changes the images.
pub enum ImageFollowUp {
    /// List the images anew.
    Refresh,
    /// Tell the user.
    Report(String),
}

/// What follows a pull.
pub fn after_pull(reply: &CommandReply) -> (r: ImageFollowUp)
    ensures
        match r {
            ImageFollowUp::Refresh => crate::command::succeeded(reply@),
            ImageFollowUp::Report(text) => Some(text@) == crate::command::failure_text(
                reply@,
                "pull"@,
                "pull"@,
            ),
        },
{
    match failure_message(reply, "pull", "pull") {
        Some(text) => ImageFollowUp::Report(text),
        None => ImageFollowUp::Refresh,
    }
}

/// What follows a removal.
pub fn after_rm(reply: &CommandReply) -> (r: ImageFollowUp)
    ensures
        match r {
            ImageFollowUp::Refresh => crate::command::succeeded(reply@),
            ImageFollowUp::Report(text) => Some(text@) == crate::command::failure_text(
                reply@,
                "rm"@,
                "image rm"@,
            ),
        },
{
    match failure_message(reply, "rm", "image rm") {
        Some(text) => ImageFollowUp::Report(text),
        None => ImageFollowUp::Refresh,
    }
}

/// The description of an image, or why there is none.
pub open spec fn description(reply: crate::command::Reply) -> Result<Seq<char>, Seq<char>> {
    match reply {
        crate::command::Reply::Exited { success, status, stdout, stderr } => if success {
            Ok(crate::text::trimmed(stdout))
        } else if crate::text::trimmed(stderr).len() == 0 {
            Err(crate::command::bare_failure("inspect"@, status))
        } else {
            Err(crate::text::trimmed(stderr))
        },
        crate::command::Reply::NotRun { error } => Err(error),
    }
}

/// The description of an image in the reply to `image_inspect_command`, or why there is none.
pub fn image_inspect_result(reply: &CommandReply) -> (r: Result<String, String>)
    ensures
        match r {
            Ok(text) => description(reply@) == Ok::<Seq<char>, Seq<char>>(text@),
            Err(e) => description(reply@) == Err::<Seq<char>, Seq<char>>(e@),
        },
{
    match reply {
        CommandReply::Exited { success, status, stdout, stderr } => {
            if *success {
                return Ok(trim(stdout.as_str()).to_string());
            }
            let why = trim(stderr.as_str());
            if why.is_empty() {
                Err(write_bare_failure("inspect", status.as_str()))
            } else {
                Err(why.to_string())
            }
        },
        CommandReply::NotRun { error } => Err(error.clone()),
    }
}

/// Commands on images begin with `image` behind the binary and its profile.
pub proof fn law_image_commands(profile: Seq<char>, verb: Seq<char>, last: Seq<char>)
    ensures
        image_argv(Platform::MacOs, profile, verb, last) == seq![
            "pelagos"@,
            "--profile"@,
            profile,
            "image"@,
            verb,
            last,
        ],
        image_argv(Platform::Linux, profile, verb, last) == seq!["pelagos"@, "image"@, verb, last],
{
    assert(image_argv(Platform::MacOs, profile, verb, last) =~= seq![
        "pelagos"@,
        "--profile"@,
        profile,
        "image"@,
        verb,
        last,
    ]);
}

/// What a successful command wrote is its result, without the white space around it, also where
/// nothing is left of it then.
pub proof fn law_output_is_the_result(
    status: Seq<char>,
    a: Seq<char>,
    text: Seq<char>,
    b: Seq<char>,
    stderr: Seq<char>,
)
    requires
        forall|i: int| 0 <= i < a.len() ==> crate::text::whitespace(#[trigger] a[i]),
        forall|i: int| 0 <= i < b.len() ==> crate::text::whitespace(#[trigger] b[i]),
        text.len() > 0 ==> !crate::text::whitespace(text[0]) && !crate::text::whitespace(
            text.last(),
        ),
    ensures
        ({
            let reply = crate::command::Reply::Exited {
                success: true,
                status,
                stdout: a + text + b,
                stderr,
            };
            &&& listing(reply) == Ok::<Seq<char>, Seq<char>>(text)
            &&& description(reply) == Ok::<Seq<char>, Seq<char>>(text)
        }),
{
    crate::text::law_trim_keeps_the_text(a, text, b);
}

/// What a command that failed wrote to its error output is the reason, without the white space
/// around it. A description that has none names the status; one of a command that cannot be run
/// is the reason for that, as it is.
pub proof fn law_error_output_is_the_reason(
    status: Seq<char>,
    stdout: Seq<char>,
    a: Seq<char>,
    text: Seq<char>,
    b: Seq<char>,
    error: Seq<char>,
)
    requires
        forall|i: int| 0 <= i < a.len() ==> crate::text::whitespace(#[trigger] a[i]),
        forall|i: int| 0 <= i < b.len() ==> crate::text::whitespace(#[trigger] b[i]),
        text.len() > 0 ==> !crate::text::whitespace(text[0]) && !crate::text::whitespace(
            text.last(),
        ),
    ensures
        ({
            let reply = crate::command::Reply::Exited {
                success: false,
                status,
                stdout,
                stderr: a + text + b,
            };
            let missing = crate::command::Reply::NotRun { error };
            &&& listing(reply) == Err::<Seq<char>, Seq<char>>(text)
            &&& description(reply) == Err::<Seq<char>, Seq<char>>(
                if text.len() > 0 {
                    text
                } else {
                    "inspect failed (exit "@ + status + ")"@
                },
            )
            &&& listing(missing) == Err::<Seq<char>, Seq<char>>(error)
            &&& description(missing) == Err::<Seq<char>, Seq<char>>(error)
        }),
{
    crate::text::law_trim_keeps_the_text(a, text, b);
    reveal_strlit("inspect");
    reveal_strlit(" failed (exit ");
    reveal_strlit("inspect failed (exit ");
    assert("inspect"@ + " failed (exit "@ =~= "inspect failed (exit "@);
}

} // verus!
