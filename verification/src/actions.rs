//! Actions on containers that the user has confirmed, carried out one target after the other.

use vstd::prelude::*;

use crate::command::{arg, pelagos_cmd, write_labelled, CommandReply, Platform, Reply};
use crate::text::{contains, join, lines, trim};

verus! {

/// What is done to the targets.
#[derive(Debug, Clone, Copy, PartialEq, Eq, Structural)]
pub enum ConfirmAction {
    Stop,
    Restart,
    Remove,
    /// Each target is stopped first.
    StopAndRemove,
}

/// The subcommand of `pelagos` that carries out an action on one target.
pub open spec fn subcommand(action: ConfirmAction) -> Seq<char> {
    match action {
        ConfirmAction::Stop => "stop"@,
        ConfirmAction::Restart => "restart"@,
        ConfirmAction::Remove => "rm"@,
        ConfirmAction::StopAndRemove => "rm"@,
    }
}

impl ConfirmAction {
    /// The subcommand of `pelagos` that carries out this action.
    pub fn pelagos_cmd(&self) -> (r: &'static str)
        ensures
            r@ == subcommand(*self),
    {
        match self {
            ConfirmAction::Stop => "stop",
            ConfirmAction::Restart => "restart",
            ConfirmAction::Remove => "rm",
            ConfirmAction::StopAndRemove => "rm",
        }
    }
}

/// Tells whether an action takes containers away.
///
/// No event tells of a removed container, so the subscription has to start over to show what is
/// left.
pub open spec fn removes(action: ConfirmAction) -> bool {
    action is Remove || action is StopAndRemove
}

/// Tells whether a line of error output looks like an error.
pub open spec fn names_error(line: Seq<char>) -> bool {
    crate::text::has(line, "error:"@) || crate::text::has(line, "Error"@)
}

/// The first of `lines` that looks like an error.
pub open spec fn first_error(lines: Seq<Seq<char>>) -> Option<Seq<char>>
    decreases lines.len(),
{
    if lines.len() == 0 {
        None
    } else if names_error(lines[0]) {
        Some(lines[0])
    } else {
        first_error(lines.drop_first())
    }
}

/// What is shown of a command's error output: the first line that looks like an error, or all of
/// it where none does.
pub open spec fn error_line(stderr: Seq<char>) -> Seq<char> {
    match first_error(crate::text::lines_of(stderr)) {
        Some(line) => crate::text::trimmed(line),
        None => crate::text::trimmed(stderr),
    }
}

/// The message for the user where an action on the container `name` failed.
///
/// A container that is no longer there is no failure.
pub open spec fn error_text(verb: Seq<char>, name: Seq<char>, reply: Reply) -> Option<Seq<char>> {
    let label = verb + " "@ + name;
    match reply {
        Reply::Exited { success, status, stdout, stderr } => if success || crate::text::has(
            stderr,
            "no container named"@,
        ) {
            None
        } else if error_line(stderr).len() == 0 {
            Some(crate::command::labelled(label, "exit "@ + status))
        } else {
            Some(crate::command::labelled(label, error_line(stderr)))
        },
        Reply::NotRun { error } => Some(crate::command::labelled(label, error)),
    }
}

/// Picks what is shown of a command's error output.
fn pick_error_line<'a>(stderr: &'a str) -> (r: &'a str)
    ensures
        r@ == error_line(stderr@),
{
    let all = lines(stderr);
    let ghost rows = all.deep_view();
    let mut i: usize = 0;
    assert(rows.skip(0) =~= rows);
    while i < all.len()
        invariant
            rows == all.deep_view(),
            rows == crate::text::lines_of(stderr@),
            i <= all@.len(),
            first_error(rows) == first_error(rows.skip(i as int)),
        decreases all@.len() - i,
    {
        let line = all[i];
        assert(rows.skip(i as int)[0] == line@);
        assert(rows.skip(i as int).drop_first() =~= rows.skip(i + 1));
        if contains(line, "error:") || contains(line, "Error") {
            return trim(line);
        }
        i += 1;
    }
    trim(stderr)
}

/// The message for the user where an action on the container `name` failed.
pub fn action_error(verb: &str, name: &str, reply: &CommandReply) -> (r: Option<String>)
    ensures
        match r {
            Some(text) => error_text(verb@, name@, reply@) == Some(text@),
            None => error_text(verb@, name@, reply@) is None,
        },
{
    let mut label = verb.to_string();
    label.append(" ");
    label.append(name);
    match reply {
        CommandReply::Exited { success, status, stdout: _, stderr } => {
            if *success || contains(stderr.as_str(), "no container named") {
                return None;
            }
            let line = pick_error_line(stderr.as_str());
            if line.is_empty() {
                let mut exit = "exit ".to_string();
                exit.append(status.as_str());
                Some(write_labelled(label.as_str(), exit.as_str()))
            } else {
                Some(write_labelled(label.as_str(), line))
            }
        },
        CommandReply::NotRun { error } => Some(write_labelled(label.as_str(), error.as_str())),
    }
}

/// An action that is being carried out on a list of targets.
///
/// `next_command` says what to run and `record` takes what came back, until there is nothing more
/// to run.
pub struct ActionBatch {
    platform: Platform,
    profile: String,
    action: ConfirmAction,
    targets: Vec<String>,
    next: usize,
    stopped: bool,
    errors: Vec<String>,
}

/// How far an action has got.
pub struct Progress {
    pub platform: Platform,
    pub profile: Seq<char>,
    pub action: ConfirmAction,
    /// The containers, in the order in which they are dealt with.
    pub targets: Seq<Seq<char>>,
    /// The number of targets that are done.
    pub done: int,
    /// Whether the target in hand has been stopped ahead of its removal.
    pub stopped: bool,
    /// The messages so far.
    pub errors: Seq<Seq<char>>,
}

impl View for ActionBatch {
    type V = Progress;

    closed spec fn view(&self) -> Progress {
        Progress {
            platform: self.platform,
            profile: self.profile@,
            action: self.action,
            targets: self.targets.deep_view(),
            done: self.next as int,
            stopped: self.stopped,
            errors: self.errors.deep_view(),
        }
    }
}

/// The progress of an action before anything was run.
pub open spec fn not_begun(
    platform: Platform,
    profile: Seq<char>,
    action: ConfirmAction,
    targets: Seq<Seq<char>>,
) -> Progress {
    Progress { platform, profile, action, targets, done: 0, stopped: false, errors: seq![] }
}

/// Tells whether the next command stops the target ahead of its removal.
pub open spec fn stops_first(p: Progress) -> bool {
    p.action is StopAndRemove && !p.stopped
}

/// The next command line; none where all targets are done.
pub open spec fn next_argv(p: Progress) -> Option<Seq<Seq<char>>> {
    if p.done < p.targets.len() {
        let verb = if stops_first(p) {
            "stop"@
        } else {
            subcommand(p.action)
        };
        Some(crate::command::pelagos_argv(p.platform, p.profile) + seq![verb, p.targets[p.done]])
    } else {
        None
    }
}

/// The progress once the next command has come back with `reply`.
///
/// What the stop ahead of a removal comes back with does not count.
pub open spec fn recorded(p: Progress, reply: Reply) -> Progress {
    if p.done >= p.targets.len() {
        p
    } else if stops_first(p) {
        Progress { stopped: true, ..p }
    } else {
        let errors = match error_text(subcommand(p.action), p.targets[p.done], reply) {
            Some(text) => p.errors.push(text),
            None => p.errors,
        };
        Progress { done: p.done + 1, stopped: false, errors, ..p }
    }
}

impl ActionBatch {
    /// Prepares an action on `targets`.
    pub fn new(
        platform: Platform,
        profile: &str,
        action: ConfirmAction,
        targets: Vec<String>,
    ) -> (r: ActionBatch)
        ensures
            r@ == not_begun(platform, profile@, action, targets.deep_view()),
    {
        let r = ActionBatch {
            platform,
            profile: profile.to_string(),
            action,
            targets,
            next: 0,
            stopped: false,
            errors: Vec::new(),
        };
        assert(r.errors.deep_view() =~= seq![]);
        r
    }

    /// The next command line; none where all targets are done.
    pub fn next_command(&self) -> (r: Option<Vec<String>>)
        ensures
            match r {
                Some(argv) => next_argv(self@) == Some(argv.deep_view()),
                None => next_argv(self@) is None,
            },
    {
        if self.next >= self.targets.len() {
            return None;
        }
        let mut argv = pelagos_cmd(self.platform, self.profile.as_str());
        if self.action == ConfirmAction::StopAndRemove && !self.stopped {
            arg(&mut argv, "stop");
        } else {
            arg(&mut argv, self.action.pelagos_cmd());
        }
        arg(&mut argv, self.targets[self.next].as_str());
        assert(argv.deep_view() =~= next_argv(self@)->0);
        Some(argv)
    }

    /// Takes what the command that `next_command` gave came back with.
    pub fn record(&mut self, reply: &CommandReply)
        ensures
            final(self)@ == recorded(old(self)@, reply@),
    {
        if self.next >= self.targets.len() {
            return ;
        }
        if self.action == ConfirmAction::StopAndRemove && !self.stopped {
            self.stopped = true;
            return ;
        }
        let ghost before = self.errors.deep_view();
        let error = action_error(
            self.action.pelagos_cmd(),
            self.targets[self.next].as_str(),
            reply,
        );
        if let Some(text) = error {
            self.errors.push(text);
            assert(self.errors.deep_view() =~= before.push(text@));
        }
        self.next += 1;
        self.stopped = false;
    }

    /// Tells whether the subscription is to start over now.
    pub fn resubscribe_due(&self) -> (r: bool)
        ensures
            r == resubscribes(self@),
    {
        let removing = match self.action {
            ConfirmAction::Stop => false,
            ConfirmAction::Restart => false,
            ConfirmAction::Remove => true,
            ConfirmAction::StopAndRemove => true,
        };
        removing && self.next >= self.targets.len()
    }

    /// The message for the user: all failures so far, or none.
    pub fn status(&self) -> (r: Option<String>)
        ensures
            match r {
                Some(text) => {
                    &&& self@.errors.len() > 0
                    &&& text@ == crate::text::joined(self@.errors, "; "@)
                },
                None => self@.errors.len() == 0,
            },
    {
        if self.errors.len() == 0 {
            None
        } else {
            Some(join(&self.errors, "; "))
        }
    }
}

/// Tells whether the subscription is to start over: after a removal, once all targets are done.
/// A snapshot that is taken earlier would show containers that are about to go.
pub open spec fn resubscribes(p: Progress) -> bool {
    removes(p.action) && p.done >= p.targets.len()
}

/// The progress once commands have come back with `replies`, one after the other.
pub open spec fn recorded_all(p: Progress, replies: Seq<Reply>) -> Progress
    decreases replies.len(),
{
    if replies.len() == 0 {
        p
    } else {
        recorded(recorded_all(p, replies.drop_last()), replies.last())
    }
}

/// The number of commands that an action takes for `n` targets.
pub open spec fn commands_for(action: ConfirmAction, n: int) -> int {
    if action is StopAndRemove {
        2 * n
    } else {
        n
    }
}

/// The messages for `targets`, where the last command of each came back as `replies` says.
pub open spec fn messages(
    action: ConfirmAction,
    targets: Seq<Seq<char>>,
    replies: Seq<Reply>,
) -> Seq<Seq<char>>
    decreases targets.len(),
{
    if targets.len() == 0 {
        seq![]
    } else {
        let before = messages(action, targets.drop_last(), replies);
        let reply = replies[commands_for(action, targets.len() as int) - 1];
        match error_text(subcommand(action), targets.last(), reply) {
            Some(text) => before.push(text),
            None => before,
        }
    }
}

/// The progress after the commands for the first `n` targets.
proof fn lemma_first_targets(
    platform: Platform,
    profile: Seq<char>,
    action: ConfirmAction,
    targets: Seq<Seq<char>>,
    replies: Seq<Reply>,
    n: int,
)
    requires
        0 <= n <= targets.len(),
        commands_for(action, n) <= replies.len(),
    ensures
        recorded_all(
            not_begun(platform, profile, action, targets),
            replies.take(commands_for(action, n)),
        ) == (Progress {
            platform,
            profile,
            action,
            targets,
            done: n,
            stopped: false,
            errors: messages(action, targets.take(n), replies),
        }),
    decreases n,
{
    let start = not_begun(platform, profile, action, targets);
    let k = commands_for(action, n);
    if n > 0 {
        lemma_first_targets(platform, profile, action, targets, replies, n - 1);
        assert(targets.take(n).drop_last() =~= targets.take(n - 1));
        assert(targets.take(n).last() == targets[n - 1]);
        assert(replies.take(k).drop_last() =~= replies.take(k - 1));
        assert(replies.take(k).last() == replies[k - 1]);
        if action is StopAndRemove {
            assert(replies.take(k - 1).drop_last() =~= replies.take(k - 2));
        }
    } else {
        assert(replies.take(0) =~= Seq::<Reply>::empty());
        assert(targets.take(0) =~= Seq::<Seq<char>>::empty());
        assert(start.errors =~= messages(action, targets.take(0), replies));
    }
}

/// Each target gets its own command, in order, and each removal of a container that may still run
/// is preceded by a stop of the same container. What came back before changes none of it.
pub proof fn law_commands_in_order(
    platform: Platform,
    profile: Seq<char>,
    action: ConfirmAction,
    targets: Seq<Seq<char>>,
    replies: Seq<Reply>,
    i: int,
)
    requires
        0 <= i < targets.len(),
    ensures
        ({
            let start = not_begun(platform, profile, action, targets);
            let first = commands_for(action, i);
            let argv = crate::command::pelagos_argv(platform, profile);
            &&& action is StopAndRemove && replies.len() == first ==> next_argv(
                recorded_all(start, replies),
            ) == Some(argv + seq!["stop"@, targets[i]])
            &&& action is StopAndRemove && replies.len() == first + 1 ==> next_argv(
                recorded_all(start, replies),
            ) == Some(argv + seq!["rm"@, targets[i]])
            &&& !(action is StopAndRemove) && replies.len() == first ==> next_argv(
                recorded_all(start, replies),
            ) == Some(argv + seq![subcommand(action), targets[i]])
        }),
{
    let first = commands_for(action, i);
    if replies.len() == first {
        lemma_first_targets(platform, profile, action, targets, replies, i);
        assert(replies.take(first) =~= replies);
    } else if replies.len() == first + 1 {
        lemma_first_targets(platform, profile, action, targets, replies, i);
        assert(replies.drop_last() =~= replies.take(first));
    }
}

/// After the last command nothing is left to run, and the messages are those of the targets whose
/// command failed, in order.
pub proof fn law_all_failures_reported(
    platform: Platform,
    profile: Seq<char>,
    action: ConfirmAction,
    targets: Seq<Seq<char>>,
    replies: Seq<Reply>,
)
    requires
        replies.len() == commands_for(action, targets.len() as int),
    ensures
        ({
            let end = recorded_all(not_begun(platform, profile, action, targets), replies);
            &&& next_argv(end) is None
            &&& end.errors == messages(action, targets, replies)
        }),
{
    let n = targets.len() as int;
    lemma_first_targets(platform, profile, action, targets, replies, n);
    assert(replies.take(commands_for(action, n)) =~= replies);
    assert(targets.take(n) =~= targets);
}

/// The subscription starts over after the last command of a removal, and not before; other
/// actions leave it alone.
pub proof fn law_resubscribe_after_last_removal(
    platform: Platform,
    profile: Seq<char>,
    action: ConfirmAction,
    targets: Seq<Seq<char>>,
    replies: Seq<Reply>,
)
    requires
        replies.len() <= commands_for(action, targets.len() as int),
    ensures
        resubscribes(recorded_all(not_begun(platform, profile, action, targets), replies)) <==> (
        removes(action) && replies.len() == commands_for(action, targets.len() as int)),
{
    let k = replies.len() as int;
    let i = if action is StopAndRemove {
        k / 2
    } else {
        k
    };
    let first = commands_for(action, i);
    lemma_first_targets(platform, profile, action, targets, replies, i);
    if k == first {
        assert(replies.take(first) =~= replies);
    } else {
        assert(replies.drop_last() =~= replies.take(first));
    }
}

/// A container that is already gone is no failure, whatever else the command says.
pub proof fn law_gone_is_no_failure(
    verb: Seq<char>,
    name: Seq<char>,
    success: bool,
    status: Seq<char>,
    stdout: Seq<char>,
    before: Seq<char>,
    after: Seq<char>,
)
    ensures
        error_text(
            verb,
            name,
            Reply::Exited {
                success,
                status,
                stdout,
                stderr: before + "no container named"@ + after,
            },
        ) is None,
{
    let needle = "no container named"@;
    let stderr = before + needle + after;
    let i = before.len() as int;
    assert(stderr.subrange(i, i + needle.len()) =~= needle);
    assert(crate::text::occurs_at(stderr, needle, i));
}

/// Each action has its own subcommand; a removal is the same whether or not a stop precedes it.
pub proof fn law_next_command_in_words(p: Progress)
    requires
        p.done >= 0,
    ensures
        p.done >= p.targets.len() ==> next_argv(p) is None,
        p.done < p.targets.len() ==> {
            let verb = match p.action {
                ConfirmAction::Stop => "stop"@,
                ConfirmAction::Restart => "restart"@,
                ConfirmAction::Remove => "rm"@,
                ConfirmAction::StopAndRemove => if p.stopped {
                    "rm"@
                } else {
                    "stop"@
                },
            };
            next_argv(p) == Some(
                crate::command::pelagos_argv(p.platform, p.profile) + seq![
                    verb,
                    p.targets[p.done],
                ],
            )
        },
        subcommand(ConfirmAction::Stop) == "stop"@,
        subcommand(ConfirmAction::Restart) == "restart"@,
        subcommand(ConfirmAction::Remove) == "rm"@,
        subcommand(ConfirmAction::StopAndRemove) == "rm"@,
{
}

/// Each reply settles one target and adds its message, where there is one, behind those before.
/// Only the reply to the stop ahead of a removal settles nothing and adds none.
pub proof fn law_each_reply_settles_one_target(p: Progress, reply: Reply)
    requires
        0 <= p.done < p.targets.len(),
    ensures
        ({
            let q = recorded(p, reply);
            let verb = match p.action {
                ConfirmAction::Stop => "stop"@,
                ConfirmAction::Restart => "restart"@,
                ConfirmAction::Remove => "rm"@,
                ConfirmAction::StopAndRemove => "rm"@,
            };
            &&& q.platform == p.platform && q.profile == p.profile
            &&& q.action == p.action && q.targets == p.targets
            &&& p.action is StopAndRemove && !p.stopped ==> {
                &&& q.done == p.done
                &&& q.stopped
                &&& q.errors == p.errors
            }
            &&& !(p.action is StopAndRemove) || p.stopped ==> {
                &&& q.done == p.done + 1
                &&& !q.stopped
                &&& match error_text(verb, p.targets[p.done], reply) {
                    Some(text) => q.errors == p.errors + seq![text],
                    None => q.errors == p.errors,
                }
            }
        }),
{
}

/// Tells whether `text` is the message for one of `targets`.
spec fn is_message(
    action: ConfirmAction,
    verb: Seq<char>,
    targets: Seq<Seq<char>>,
    replies: Seq<Reply>,
    i: int,
    text: Seq<char>,
) -> bool {
    let reply = if action is StopAndRemove {
        replies[2 * i + 1]
    } else {
        replies[i]
    };
    0 <= i < targets.len() && error_text(verb, targets[i], reply) == Some(text)
}

proof fn lemma_message_is_shown(
    action: ConfirmAction,
    targets: Seq<Seq<char>>,
    replies: Seq<Reply>,
    n: int,
    i: int,
    text: Seq<char>,
)
    requires
        0 <= i < n <= targets.len(),
        is_message(action, subcommand(action), targets, replies, i, text),
    ensures
        messages(action, targets.take(n), replies).contains(text),
    decreases n,
{
    let all = messages(action, targets.take(n), replies);
    let before = messages(action, targets.take(n - 1), replies);
    assert(targets.take(n).drop_last() =~= targets.take(n - 1));
    assert(targets.take(n).last() == targets[n - 1]);
    if i < n - 1 {
        lemma_message_is_shown(action, targets, replies, n - 1, i, text);
        let k = choose|k: int| 0 <= k < before.len() && before[k] == text;
        assert(all[k] == text);
    } else {
        assert(all[all.len() - 1] == text);
    }
}

proof fn lemma_message_has_a_target(
    action: ConfirmAction,
    targets: Seq<Seq<char>>,
    replies: Seq<Reply>,
    n: int,
    k: int,
) -> (i: int)
    requires
        0 <= n <= targets.len(),
        0 <= k < messages(action, targets.take(n), replies).len(),
    ensures
        is_message(
            action,
            subcommand(action),
            targets,
            replies,
            i,
            messages(action, targets.take(n), replies)[k],
        ),
    decreases n,
{
    let before = messages(action, targets.take(n - 1), replies);
    assert(targets.take(n).drop_last() =~= targets.take(n - 1));
    assert(targets.take(n).last() == targets[n - 1]);
    if k < before.len() {
        lemma_message_has_a_target(action, targets, replies, n - 1, k)
    } else {
        n - 1
    }
}

/// Once all is done, the target number `i` has its message among those shown where its own command
/// failed, and every message shown is that of a target.
pub proof fn law_failed_targets_are_shown(
    platform: Platform,
    profile: Seq<char>,
    action: ConfirmAction,
    targets: Seq<Seq<char>>,
    replies: Seq<Reply>,
    i: int,
    k: int,
)
    requires
        replies.len() == (if action is StopAndRemove {
            2 * targets.len()
        } else {
            targets.len()
        }),
    ensures
        ({
            let end = recorded_all(not_begun(platform, profile, action, targets), replies);
            let verb = match action {
                ConfirmAction::Stop => "stop"@,
                ConfirmAction::Restart => "restart"@,
                ConfirmAction::Remove => "rm"@,
                ConfirmAction::StopAndRemove => "rm"@,
            };
            let own = if action is StopAndRemove {
                Seq::new(targets.len(), |j: int| replies[2 * j + 1])
            } else {
                replies
            };
            &&& end.done == targets.len()
            &&& 0 <= i < targets.len() && error_text(verb, targets[i], own[i]) is Some
                ==> end.errors.contains(error_text(verb, targets[i], own[i])->0)
            &&& 0 <= k < end.errors.len() ==> exists|j: int|
                0 <= j < targets.len() && error_text(verb, #[trigger] targets[j], own[j]) == Some(
                    end.errors[k],
                )
        }),
{
    let n = targets.len() as int;
    let verb = subcommand(action);
    lemma_first_targets(platform, profile, action, targets, replies, n);
    assert(replies.take(commands_for(action, n)) =~= replies);
    assert(targets.take(n) =~= targets);
    let end = recorded_all(not_begun(platform, profile, action, targets), replies);
    let reply = if action is StopAndRemove {
        replies[2 * i + 1]
    } else {
        replies[i]
    };
    if 0 <= i < n && error_text(verb, targets[i], reply) is Some {
        let text = error_text(verb, targets[i], reply)->0;
        lemma_message_is_shown(action, targets, replies, n, i, text);
    }
    if 0 <= k < end.errors.len() {
        let j = lemma_message_has_a_target(action, targets, replies, n, k);
        assert(0 <= j < targets.len());
    }
}

/// The subscription starts over once all targets are done, where the action takes containers away,
/// and in no other case.
pub proof fn law_resubscribes_after_removals(p: Progress)
    ensures
        resubscribes(p) <==> p.done >= p.targets.len() && (p.action == ConfirmAction::Remove
            || p.action == ConfirmAction::StopAndRemove),
{
}

proof fn lemma_first_error(lines: Seq<Seq<char>>, i: int)
    requires
        0 <= i <= lines.len(),
        forall|k: int| 0 <= k < i ==> !names_error(#[trigger] lines[k]),
        i < lines.len() ==> names_error(lines[i]),
    ensures
        first_error(lines) == if i < lines.len() {
            Some(lines[i])
        } else {
            None
        },
    decreases lines.len(),
{
    if i > 0 {
        let rest = lines.drop_first();
        assert(!names_error(lines[0]));
        assert forall|k: int| 0 <= k < i - 1 implies !names_error(#[trigger] rest[k]) by {
            assert(rest[k] == lines[k + 1]);
        }
        lemma_first_error(rest, i - 1);
    }
}

proof fn lemma_error_lines_have_text(line: Seq<char>)
    requires
        names_error(line),
    ensures
        crate::text::trimmed(line).len() > 0,
{
    reveal_strlit("error:");
    reveal_strlit("Error");
    crate::text::law_only_white_space_trims_to_nothing(line);
    if crate::text::has(line, "error:"@) {
        let i = choose|i: int| #[trigger] crate::text::occurs_at(line, "error:"@, i);
        assert(line.subrange(i, i + 6)[0] == 'e');
        assert(line[i] == 'e');
    } else {
        let i = choose|i: int| #[trigger] crate::text::occurs_at(line, "Error"@, i);
        assert(line.subrange(i, i + 5)[0] == 'E');
        assert(line[i] == 'E');
    }
}

/// Of the error output of a command that failed, the first line with `error:` or `Error` in it is
/// shown, without the white space around it. Line number `i` is that line.
pub proof fn law_first_error_line_is_shown(
    verb: Seq<char>,
    name: Seq<char>,
    status: Seq<char>,
    stdout: Seq<char>,
    stderr: Seq<char>,
    i: int,
)
    requires
        !crate::text::has(stderr, "no container named"@),
        0 <= i < crate::text::lines_of(stderr).len(),
        crate::text::has(crate::text::lines_of(stderr)[i], "error:"@) || crate::text::has(
            crate::text::lines_of(stderr)[i],
            "Error"@,
        ),
        forall|k: int|
            0 <= k < i ==> {
                &&& !crate::text::has(#[trigger] crate::text::lines_of(stderr)[k], "error:"@)
                &&& !crate::text::has(crate::text::lines_of(stderr)[k], "Error"@)
            },
    ensures
        error_text(verb, name, Reply::Exited { success: false, status, stdout, stderr }) == Some(
            verb + " "@ + name + ": "@ + crate::text::trimmed(crate::text::lines_of(stderr)[i]),
        ),
{
    lemma_first_error(crate::text::lines_of(stderr), i);
    lemma_error_lines_have_text(crate::text::lines_of(stderr)[i]);
}

/// Where no line looks like an error, all of the error output is shown, without the white space
/// around it, and the exit status where there is nothing else.
pub proof fn law_other_error_output_is_shown_whole(
    verb: Seq<char>,
    name: Seq<char>,
    status: Seq<char>,
    stdout: Seq<char>,
    a: Seq<char>,
    detail: Seq<char>,
    b: Seq<char>,
)
    requires
        forall|i: int| 0 <= i < a.len() ==> crate::text::whitespace(#[trigger] a[i]),
        forall|i: int| 0 <= i < b.len() ==> crate::text::whitespace(#[trigger] b[i]),
        detail.len() > 0 ==> !crate::text::whitespace(detail[0]) && !crate::text::whitespace(
            detail.last(),
        ),
        !crate::text::has(a + detail + b, "no container named"@),
        forall|k: int|
            0 <= k < crate::text::lines_of(a + detail + b).len() ==> {
                &&& !crate::text::has(
                    #[trigger] crate::text::lines_of(a + detail + b)[k],
                    "error:"@,
                )
                &&& !crate::text::has(crate::text::lines_of(a + detail + b)[k], "Error"@)
            },
    ensures
        error_text(
            verb,
            name,
            Reply::Exited { success: false, status, stdout, stderr: a + detail + b },
        ) == Some(
            verb + " "@ + name + ": "@ + if detail.len() > 0 {
                detail
            } else {
                "exit "@ + status
            },
        ),
{
    let stderr = a + detail + b;
    let lines = crate::text::lines_of(stderr);
    assert forall|k: int| 0 <= k < lines.len() implies !names_error(#[trigger] lines[k]) by {
        assert(!crate::text::has(crate::text::lines_of(stderr)[k], "error:"@));
    }
    lemma_first_error(lines, lines.len() as int);
    crate::text::law_trim_keeps_the_text(a, detail, b);
}

/// A command that succeeds is no failure, whatever it wrote; one that cannot be run is shown with
/// the reason, as it is.
pub proof fn law_success_is_no_failure(
    verb: Seq<char>,
    name: Seq<char>,
    status: Seq<char>,
    stdout: Seq<char>,
    stderr: Seq<char>,
    error: Seq<char>,
)
    ensures
        error_text(verb, name, Reply::Exited { success: true, status, stdout, stderr }) is None,
        error_text(verb, name, Reply::NotRun { error }) == Some(verb + " "@ + name + ": "@ + error),
        !crate::text::has(stderr, "no container named"@) ==> error_text(
            verb,
            name,
            Reply::Exited { success: false, status, stdout, stderr },
        ) is Some,
{
}

} // verus!
