//! The arguments of `run` as a user types them, and the order in which `pelagos run` wants them.
//!
//! `pelagos run` takes every token after the image as part of the container's command.
//! Users write flags on either side of the image, so the flags are moved ahead of it.

use vstd::prelude::*;

use crate::command::{arg, failure_message, pelagos_cmd, CommandReply, Platform};
use crate::text::{split_whitespace, str_eq, words};

verus! {

/// The flags that take the next token as their value.
pub open spec fn takes_value(t: Seq<char>) -> bool {
    ||| t == "--name"@
    ||| t == "--network"@
    ||| t == "--net"@
    ||| t == "--hostname"@
    ||| t == "--env"@
    ||| t == "-e"@
    ||| t == "--volume"@
    ||| t == "-v"@
    ||| t == "--mount"@
    ||| t == "--publish"@
    ||| t == "-p"@
    ||| t == "--memory"@
    ||| t == "--cpus"@
    ||| t == "--user"@
    ||| t == "-u"@
    ||| t == "--workdir"@
    ||| t == "-w"@
    ||| t == "--entrypoint"@
    ||| t == "--cap-add"@
    ||| t == "--cap-drop"@
    ||| t == "--label"@
    ||| t == "-l"@
    ||| t == "--dns"@
    ||| t == "--dns-search"@
    ||| t == "--dns-option"@
}

/// A flag is a token that begins with `-`.
pub open spec fn is_flag(t: Seq<char>) -> bool {
    t.len() > 0 && t[0] == '-'
}

/// The number of tokens that the flag in front of `tokens` takes up; 0 where there is none.
///
/// A flag that takes a value takes up two tokens, unless it is the last one. Every other flag
/// stands alone: the boolean ones, and those that are not known here, which may carry their value
/// themselves (`--env=FOO=bar`).
pub open spec fn flag_width(tokens: Seq<Seq<char>>) -> int {
    if tokens.len() == 0 {
        0
    } else if takes_value(tokens[0]) {
        if tokens.len() > 1 {
            2
        } else {
            1
        }
    } else if is_flag(tokens[0]) {
        1
    } else {
        0
    }
}

/// A `run` command taken apart.
pub struct RunLine {
    /// The flags, each followed by its value where it takes one.
    pub flags: Seq<Seq<char>>,
    /// The image, where one was named.
    pub image: Option<Seq<char>>,
    /// What the container runs.
    pub command: Seq<Seq<char>>,
}

/// Takes `tokens` apart, once `image` has been read.
///
/// The first token that belongs to no flag is the image. The second such token begins the
/// command, which reaches to the end.
pub open spec fn run_line(tokens: Seq<Seq<char>>, image: Option<Seq<char>>) -> RunLine
    decreases tokens.len(),
{
    let w = flag_width(tokens);
    if tokens.len() == 0 {
        RunLine { flags: seq![], image, command: seq![] }
    } else if w > 0 {
        let rest = run_line(tokens.skip(w), image);
        RunLine { flags: tokens.take(w) + rest.flags, image: rest.image, command: rest.command }
    } else if image is None {
        run_line(tokens.drop_first(), Some(tokens[0]))
    } else {
        RunLine { flags: seq![], image, command: tokens }
    }
}

/// The tokens of a `run` command in the order flags, image, command.
pub open spec fn ordered(line: RunLine) -> Seq<Seq<char>> {
    match line.image {
        Some(image) => line.flags + seq![image] + line.command,
        None => line.flags + line.command,
    }
}

/// `tokens` with the flags moved ahead of the image.
pub open spec fn normalised(tokens: Seq<Seq<char>>) -> Seq<Seq<char>> {
    ordered(run_line(tokens, None))
}

fn value_flag(t: &str) -> (r: bool)
    ensures
        r == takes_value(t@),
{
    str_eq(t, "--name") || str_eq(t, "--network") || str_eq(t, "--net") || str_eq(t, "--hostname")
        || str_eq(t, "--env") || str_eq(t, "-e") || str_eq(t, "--volume") || str_eq(t, "-v")
        || str_eq(t, "--mount") || str_eq(t, "--publish") || str_eq(t, "-p") || str_eq(
        t,
        "--memory",
    ) || str_eq(t, "--cpus") || str_eq(t, "--user") || str_eq(t, "-u") || str_eq(t, "--workdir")
        || str_eq(t, "-w") || str_eq(t, "--entrypoint") || str_eq(t, "--cap-add") || str_eq(
        t,
        "--cap-drop",
    ) || str_eq(t, "--label") || str_eq(t, "-l") || str_eq(t, "--dns") || str_eq(t, "--dns-search")
        || str_eq(t, "--dns-option")
}

fn flag(t: &str) -> (r: bool)
    ensures
        r == is_flag(t@),
{
    !t.is_empty() && t.get_char(0) == '-'
}

/// Moves the flags of a `run` command ahead of the image.
pub fn normalise_run_args<'a>(tokens: &[&'a str]) -> (r: Vec<&'a str>)
    ensures
        r.deep_view() == normalised(tokens.deep_view()),
{
    let ghost all = tokens.deep_view();
    let n = tokens.len();
    let mut flags: Vec<&'a str> = Vec::new();
    let mut image: Option<&'a str> = None;
    let ghost mut seen: Option<Seq<char>> = None;
    let mut i: usize = 0;
    assert(all.skip(0) =~= all);
    assert(flags.deep_view() + run_line(all, None).flags =~= run_line(all, None).flags);
    while i < n
        invariant
            n == tokens@.len(),
            i <= n,
            all == tokens.deep_view(),
            seen == (match image {
                Some(t) => Some(t@),
                None => None,
            }),
            ({
                let rest = run_line(all.skip(i as int), seen);
                run_line(all, None) == (RunLine {
                    flags: flags.deep_view() + rest.flags,
                    image: rest.image,
                    command: rest.command,
                })
            }),
        ensures
            i == n || (seen is Some && flag_width(all.skip(i as int)) == 0),
        decreases n - i,
    {
        let tok = tokens[i];
        let ghost rest = all.skip(i as int);
        let ghost before = flags.deep_view();
        assert(rest[0] == tok@);
        if value_flag(tok) {
            flags.push(tok);
            if i + 1 < n {
                let value = tokens[i + 1];
                flags.push(value);
                proof {
                    assert(rest[1] == value@);
                    assert(rest.skip(2) =~= all.skip(i + 2));
                    assert(flags.deep_view() =~= before + rest.take(2));
                    let tail = run_line(all.skip(i + 2), seen);
                    assert(before + (rest.take(2) + tail.flags) =~= flags.deep_view() + tail.flags);
                }
                i += 2;
            } else {
                proof {
                    assert(rest.skip(1) =~= all.skip(i + 1));
                    assert(flags.deep_view() =~= before + rest.take(1));
                    let tail = run_line(all.skip(i + 1), seen);
                    assert(before + (rest.take(1) + tail.flags) =~= flags.deep_view() + tail.flags);
                }
                i += 1;
            }
        } else if flag(tok) {
            flags.push(tok);
            proof {
                assert(rest.skip(1) =~= all.skip(i + 1));
                assert(flags.deep_view() =~= before + rest.take(1));
                let tail = run_line(all.skip(i + 1), seen);
                assert(before + (rest.take(1) + tail.flags) =~= flags.deep_view() + tail.flags);
            }
            i += 1;
        } else if image.is_none() {
            image = Some(tok);
            proof {
                seen = Some(tok@);
                assert(rest.drop_first() =~= all.skip(i + 1));
            }
            i += 1;
        } else {
            break ;
        }
    }
    let ghost line = run_line(all, None);
    assert(line.flags =~= flags.deep_view());
    assert(line.command =~= all.skip(i as int));
    let ghost hoisted = flags.deep_view();
    let mut result = flags;
    if let Some(img) = image {
        result.push(img);
    }
    let ghost front = result.deep_view();
    let ghost start = i as int;
    proof {
        match seen {
            Some(img) => assert(front =~= hoisted + seq![img]),
            None => assert(front =~= hoisted),
        }
        assert(front + all.subrange(start, i as int) =~= front);
    }
    while i < n
        invariant
            n == tokens@.len(),
            all == tokens.deep_view(),
            0 <= start <= i <= n,
            result.deep_view() == front + all.subrange(start, i as int),
        decreases n - i,
    {
        let ghost before = result.deep_view();
        result.push(tokens[i]);
        proof {
            assert(result.deep_view() =~= before.push(all[i as int]));
            assert(all.subrange(start, i + 1) =~= all.subrange(start, i as int).push(
                all[i as int],
            ));
        }
        i += 1;
    }
    assert(all.subrange(start, n as int) =~= all.skip(start));
    result
}

/// The flags that ask for a terminal.
pub open spec fn is_interactive_flag(t: Seq<char>) -> bool {
    t == "-i"@ || t == "--interactive"@ || t == "-it"@ || t == "-ti"@
}

/// Tells whether one of `tokens` asks for a terminal.
pub open spec fn wants_terminal(tokens: Seq<Seq<char>>) -> bool {
    exists|i: int| 0 <= i < tokens.len() && is_interactive_flag(#[trigger] tokens[i])
}

/// How a `run` command is carried out.
pub enum RunPlan<'a> {
    /// In a new terminal window, with the input as it was typed.
    Terminal,
    /// In the background, with these arguments to `pelagos run`.
    Detached(Vec<&'a str>),
}

/// Decides how the `run` command in `input` is carried out.
pub fn plan_run<'a>(input: &'a str) -> (r: RunPlan<'a>)
    ensures
        match r {
            RunPlan::Terminal => wants_terminal(normalised(words(input@))),
            RunPlan::Detached(args) => {
                &&& !wants_terminal(normalised(words(input@)))
                &&& args.deep_view() == normalised(words(input@))
            },
        },
{
    let raw = split_whitespace(input);
    let tokens = raw.as_slice();
    let args = normalise_run_args(tokens);
    let ghost all = args.deep_view();
    assert(tokens.deep_view() =~= raw.deep_view());
    let mut i: usize = 0;
    while i < args.len()
        invariant
            all == args.deep_view(),
            all == normalised(words(input@)),
            i <= args@.len(),
            forall|k: int| 0 <= k < i ==> !is_interactive_flag(#[trigger] all[k]),
        decreases args@.len() - i,
    {
        let t = args[i];
        assert(all[i as int] == t@);
        if str_eq(t, "-i") || str_eq(t, "--interactive") || str_eq(t, "-it") || str_eq(t, "-ti") {
            return RunPlan::Terminal;
        }
        i += 1;
    }
    RunPlan::Detached(args)
}

/// The command line that runs a container with these arguments.
pub fn run_command(platform: Platform, profile: &str, args: &Vec<&str>) -> (r: Vec<String>)
    ensures
        r.deep_view() == crate::command::pelagos_argv(platform, profile@) + seq!["run"@]
            + args.deep_view(),
{
    let mut argv = pelagos_cmd(platform, profile);
    arg(&mut argv, "run");
    let ghost front = crate::command::pelagos_argv(platform, profile@) + seq!["run"@];
    let ghost all = args.deep_view();
    let mut i: usize = 0;
    assert(argv.deep_view() =~= front + all.take(0));
    while i < args.len()
        invariant
            all == args.deep_view(),
            i <= args@.len(),
            argv.deep_view() == front + all.take(i as int),
        decreases args@.len() - i,
    {
        arg(&mut argv, args[i]);
        assert(front + all.take(i + 1) =~= (front + all.take(i as int)).push(all[i as int]));
        i += 1;
    }
    assert(all.take(i as int) =~= all);
    argv
}

/// The message for the user where a run failed.
pub fn run_failure(reply: &CommandReply) -> (r: Option<String>)
    ensures
        match r {
            Some(text) => crate::command::failure_text(reply@, "run"@, "run"@) == Some(text@),
            None => crate::command::succeeded(reply@),
        },
{
    failure_message(reply, "run", "run")
}

/// Tells whether `f` is made of flags alone, none of which lacks its value.
pub open spec fn flags_only(f: Seq<Seq<char>>) -> bool
    decreases f.len(),
{
    f.len() > 0 ==> {
        &&& is_flag(f[0])
        &&& takes_value(f[0]) ==> f.len() > 1
        &&& 0 < flag_width(f) <= f.len() ==> flags_only(f.skip(flag_width(f)))
    }
}

/// A flag that takes a value is a flag.
proof fn lemma_value_flag_is_flag(t: Seq<char>)
    requires
        takes_value(t),
    ensures
        is_flag(t),
{
    reveal_strlit("--name");
    reveal_strlit("--network");
    reveal_strlit("--net");
    reveal_strlit("--hostname");
    reveal_strlit("--env");
    reveal_strlit("-e");
    reveal_strlit("--volume");
    reveal_strlit("-v");
    reveal_strlit("--mount");
    reveal_strlit("--publish");
    reveal_strlit("-p");
    reveal_strlit("--memory");
    reveal_strlit("--cpus");
    reveal_strlit("--user");
    reveal_strlit("-u");
    reveal_strlit("--workdir");
    reveal_strlit("-w");
    reveal_strlit("--entrypoint");
    reveal_strlit("--cap-add");
    reveal_strlit("--cap-drop");
    reveal_strlit("--label");
    reveal_strlit("-l");
    reveal_strlit("--dns");
    reveal_strlit("--dns-search");
    reveal_strlit("--dns-option");
}

/// Complete flags in front are read as flags, and what follows is read as if it stood alone.
proof fn lemma_leading_flags(f: Seq<Seq<char>>, t: Seq<Seq<char>>, image: Option<Seq<char>>)
    requires
        flags_only(f),
    ensures
        run_line(f + t, image) == (RunLine {
            flags: f + run_line(t, image).flags,
            image: run_line(t, image).image,
            command: run_line(t, image).command,
        }),
    decreases f.len(),
{
    let rest = run_line(t, image);
    if f.len() == 0 {
        assert(f + t =~= t);
        assert(f + rest.flags =~= rest.flags);
    } else {
        let w = flag_width(f);
        let g = f.skip(w);
        assert((f + t)[0] == f[0]);
        assert(flag_width(f + t) == w);
        assert((f + t).skip(w) =~= g + t);
        assert((f + t).take(w) =~= f.take(w));
        lemma_leading_flags(g, t, image);
        assert(f.take(w) + (g + rest.flags) =~= f + rest.flags);
    }
}

/// A token that belongs to no flag is no flag that takes a value.
proof fn lemma_plain_token(tokens: Seq<Seq<char>>)
    requires
        tokens.len() > 0,
    ensures
        flag_width(tokens) == 0 <==> !is_flag(tokens[0]),
{
    if takes_value(tokens[0]) {
        lemma_value_flag_is_flag(tokens[0]);
    }
}

/// Flags may stand before the image and after it: they all end up before it, in their order, and
/// image and command follow unchanged.
pub proof fn law_flags_lead(
    before: Seq<Seq<char>>,
    image: Seq<char>,
    after: Seq<Seq<char>>,
    command: Seq<Seq<char>>,
)
    requires
        flags_only(before),
        !is_flag(image),
        flags_only(after),
        command.len() > 0 ==> !is_flag(command[0]),
    ensures
        normalised(before + seq![image] + after + command) == before + after + seq![image]
            + command,
{
    let tail = after + command;
    let from_image = seq![image] + tail;
    assert(before + seq![image] + after + command =~= before + from_image);
    lemma_leading_flags(before, from_image, None);
    lemma_plain_token(from_image);
    assert(from_image.drop_first() =~= tail);
    lemma_leading_flags(after, command, Some(image));
    if command.len() > 0 {
        lemma_plain_token(command);
    }
    let line = run_line(command, Some(image));
    assert(line.flags =~= Seq::<Seq<char>>::empty());
    assert(before + (after + line.flags) =~= before + after);
    assert(line.command =~= command);
}

/// Tokens without a flag among them stay as they are.
pub proof fn law_no_flags(tokens: Seq<Seq<char>>)
    requires
        forall|i: int| 0 <= i < tokens.len() ==> !is_flag(#[trigger] tokens[i]),
    ensures
        normalised(tokens) == tokens,
{
    if tokens.len() > 0 {
        let none = Seq::<Seq<char>>::empty();
        law_flags_lead(none, tokens[0], none, tokens.drop_first());
        assert(none + seq![tokens[0]] + none + tokens.drop_first() =~= tokens);
        assert(none + none + seq![tokens[0]] + tokens.drop_first() =~= tokens);
    } else {
        assert(normalised(tokens) =~= tokens);
    }
}

proof fn lemma_command_grows(
    tokens: Seq<Seq<char>>,
    image: Option<Seq<char>>,
    more: Seq<Seq<char>>,
)
    requires
        run_line(tokens, image).command.len() > 0,
    ensures
        ({
            let line = run_line(tokens, image);
            run_line(tokens + more, image) == (RunLine {
                flags: line.flags,
                image: line.image,
                command: line.command + more,
            })
        }),
    decreases tokens.len(),
{
    let w = flag_width(tokens);
    assert((tokens + more)[0] == tokens[0]);
    if w > 0 {
        assert(tokens.skip(w).len() > 0) by {
            if tokens.skip(w).len() == 0 {
                assert(run_line(tokens.skip(w), image).command.len() == 0);
            }
        }
        assert(flag_width(tokens + more) == w);
        assert((tokens + more).skip(w) =~= tokens.skip(w) + more);
        assert((tokens + more).take(w) =~= tokens.take(w));
        lemma_command_grows(tokens.skip(w), image, more);
    } else if image is None {
        assert((tokens + more).drop_first() =~= tokens.drop_first() + more);
        lemma_command_grows(tokens.drop_first(), Some(tokens[0]), more);
    }
}

/// Once the container's command has begun, further tokens belong to it, flags among them: they
/// are appended unchanged.
pub proof fn law_command_is_verbatim(tokens: Seq<Seq<char>>, more: Seq<Seq<char>>)
    requires
        run_line(tokens, None).command.len() > 0,
    ensures
        normalised(tokens + more) == normalised(tokens) + more,
{
    lemma_command_grows(tokens, None, more);
    assert(normalised(tokens + more) =~= normalised(tokens) + more);
}

/// `tokens` taken apart and ordered hold what `tokens` and `image` hold.
proof fn lemma_same_tokens(tokens: Seq<Seq<char>>, image: Option<Seq<char>>)
    ensures
        ordered(run_line(tokens, image)).to_multiset() == (match image {
            Some(i) => tokens.to_multiset().insert(i),
            None => tokens.to_multiset(),
        }),
    decreases tokens.len(),
{
    broadcast use vstd::seq_lib::group_to_multiset_ensures;
    broadcast use vstd::multiset::group_multiset_axioms;

    let w = flag_width(tokens);
    let line = run_line(tokens, image);
    if tokens.len() == 0 {
        match image {
            Some(i) => assert(ordered(line) =~= tokens.push(i)),
            None => assert(ordered(line) =~= tokens),
        }
    } else if w > 0 {
        let rest = run_line(tokens.skip(w), image);
        lemma_same_tokens(tokens.skip(w), image);
        assert(ordered(line) =~= tokens.take(w) + ordered(rest));
        vstd::seq_lib::lemma_multiset_commutative(tokens.take(w), ordered(rest));
        vstd::seq_lib::lemma_multiset_commutative(tokens.take(w), tokens.skip(w));
        assert(tokens =~= tokens.take(w) + tokens.skip(w));
    } else if image is None {
        lemma_same_tokens(tokens.drop_first(), Some(tokens[0]));
        let one = seq![tokens[0]];
        assert(one =~= Seq::<Seq<char>>::empty().push(tokens[0]));
        vstd::seq_lib::lemma_multiset_commutative(one, tokens.drop_first());
        assert(tokens =~= one + tokens.drop_first());
    } else {
        let one = seq![image->0];
        assert(one =~= Seq::<Seq<char>>::empty().push(image->0));
        vstd::seq_lib::lemma_multiset_commutative(one, tokens);
        assert(ordered(line) =~= one + tokens);
    }
}

/// No token is lost, added or changed.
pub proof fn law_same_tokens(tokens: Seq<Seq<char>>)
    ensures
        normalised(tokens).to_multiset() == tokens.to_multiset(),
        normalised(tokens).len() == tokens.len(),
{
    lemma_same_tokens(tokens, None);
    normalised(tokens).to_multiset_ensures();
    tokens.to_multiset_ensures();
}

/// What the parts of a `run` command look like, whatever was typed.
///
/// Either no flag lacks its value, or the last token does and nothing follows it.
proof fn lemma_parts(tokens: Seq<Seq<char>>, image: Option<Seq<char>>)
    requires
        image is Some ==> !is_flag(image->0),
    ensures
        ({
            let line = run_line(tokens, image);
            &&& line.image is Some ==> !is_flag(line.image->0)
            &&& line.image is None ==> line.command.len() == 0
            &&& line.command.len() > 0 ==> !is_flag(line.command[0])
            &&& flags_only(line.flags) || {
                &&& line.command.len() == 0
                &&& line.flags.len() > 0
                &&& takes_value(line.flags.last())
                &&& flags_only(line.flags.drop_last())
            }
        }),
    decreases tokens.len(),
{
    let w = flag_width(tokens);
    let line = run_line(tokens, image);
    if tokens.len() > 0 {
        lemma_plain_token(tokens);
        if w > 0 {
            let head = tokens.take(w);
            let rest = run_line(tokens.skip(w), image);
            lemma_parts(tokens.skip(w), image);
            if takes_value(tokens[0]) && tokens.len() == 1 {
                assert(line.flags =~= seq![tokens[0]]);
                assert(line.flags.drop_last() =~= Seq::<Seq<char>>::empty());
            } else {
                assert(line.flags[0] == tokens[0]);
                assert(flag_width(line.flags) == w);
                assert(line.flags.skip(w) =~= rest.flags);
                if !flags_only(rest.flags) {
                    let f = line.flags.drop_last();
                    assert(f[0] == tokens[0]);
                    assert(flag_width(f) == w);
                    assert(f.skip(w) =~= rest.flags.drop_last());
                }
            }
        } else if image is None {
            lemma_parts(tokens.drop_first(), Some(tokens[0]));
        }
    }
}

/// Complete flags stay complete with more of them behind.
proof fn lemma_flags_join(f: Seq<Seq<char>>, g: Seq<Seq<char>>)
    requires
        flags_only(f),
        flags_only(g),
    ensures
        flags_only(f + g),
    decreases f.len(),
{
    if f.len() == 0 {
        assert(f + g =~= g);
    } else {
        let w = flag_width(f);
        lemma_flags_join(f.skip(w), g);
        assert((f + g)[0] == f[0]);
        assert(flag_width(f + g) == w);
        assert((f + g).skip(w) =~= f.skip(w) + g);
    }
}

/// What was put in order once stays as it is.
pub proof fn law_idempotent(tokens: Seq<Seq<char>>)
    ensures
        normalised(normalised(tokens)) == normalised(tokens),
{
    let line = run_line(tokens, None);
    let none = Seq::<Seq<char>>::empty();
    let t = normalised(tokens);
    lemma_parts(tokens, None);
    if flags_only(line.flags) {
        if line.image is Some {
            let image = line.image->0;
            law_flags_lead(line.flags, image, none, line.command);
            assert(line.flags + seq![image] + none + line.command =~= t);
            assert(line.flags + none + seq![image] + line.command =~= t);
        } else {
            lemma_leading_flags(line.flags, none, None);
            assert(t =~= line.flags + none);
            assert(normalised(t) =~= t);
        }
    } else {
        let f = line.flags.drop_last();
        let v = line.flags.last();
        lemma_value_flag_is_flag(v);
        if line.image is Some {
            let pair = seq![v, line.image->0];
            assert(pair.skip(2) =~= none);
            assert(flags_only(pair)) by {
                reveal_with_fuel(flags_only, 2);
            }
            lemma_flags_join(f, pair);
            assert(t =~= f + pair);
            lemma_leading_flags(t, none, None);
            assert(t + none =~= t);
            assert(normalised(t) =~= t);
        } else {
            let last = seq![v];
            assert(t =~= f + last);
            lemma_leading_flags(f, last, None);
            assert(last.skip(1) =~= none);
            let tail = run_line(last, None);
            assert(tail.flags =~= last && tail.image is None && tail.command =~= none) by {
                reveal_with_fuel(run_line, 2);
                assert(last.take(1) =~= last);
            }
            assert(normalised(t) =~= t);
        }
    }
}

/// A terminal is asked for exactly where one of the words of the input asks for it, wherever it
/// stands.
pub proof fn law_interactive_anywhere(input: Seq<char>)
    ensures
        wants_terminal(normalised(words(input))) <==> wants_terminal(words(input)),
{
    let typed = words(input);
    let sorted = normalised(typed);
    law_same_tokens(typed);
    typed.to_multiset_ensures();
    sorted.to_multiset_ensures();
    if wants_terminal(sorted) {
        let i = choose|i: int| 0 <= i < sorted.len() && is_interactive_flag(#[trigger] sorted[i]);
        assert(sorted.contains(sorted[i]));
        assert(sorted.to_multiset().count(sorted[i]) > 0);
        assert(typed.contains(sorted[i]));
    }
    if wants_terminal(typed) {
        let i = choose|i: int| 0 <= i < typed.len() && is_interactive_flag(#[trigger] typed[i]);
        assert(typed.contains(typed[i]));
        assert(typed.to_multiset().count(typed[i]) > 0);
        assert(sorted.contains(typed[i]));
    }
}

/// No flag that takes the next token holds a `=`.
proof fn lemma_value_flag_has_no_equals_sign(t: Seq<char>)
    requires
        takes_value(t),
    ensures
        !t.contains('='),
{
    if t == "--name"@ {
        reveal_strlit("--name");
        assert(forall|i: int| 0 <= i < 6 ==> #[trigger] t[i] != '=');
    }
    if t == "--network"@ {
        reveal_strlit("--network");
        assert(forall|i: int| 0 <= i < 9 ==> #[trigger] t[i] != '=');
    }
    if t == "--net"@ {
        reveal_strlit("--net");
        assert(forall|i: int| 0 <= i < 5 ==> #[trigger] t[i] != '=');
    }
    if t == "--hostname"@ {
        reveal_strlit("--hostname");
        assert(forall|i: int| 0 <= i < 10 ==> #[trigger] t[i] != '=');
    }
    if t == "--env"@ {
        reveal_strlit("--env");
        assert(forall|i: int| 0 <= i < 5 ==> #[trigger] t[i] != '=');
    }
    if t == "-e"@ {
        reveal_strlit("-e");
        assert(forall|i: int| 0 <= i < 2 ==> #[trigger] t[i] != '=');
    }
    if t == "--volume"@ {
        reveal_strlit("--volume");
        assert(forall|i: int| 0 <= i < 8 ==> #[trigger] t[i] != '=');
    }
    if t == "-v"@ {
        reveal_strlit("-v");
        assert(forall|i: int| 0 <= i < 2 ==> #[trigger] t[i] != '=');
    }
    if t == "--mount"@ {
        reveal_strlit("--mount");
        assert(forall|i: int| 0 <= i < 7 ==> #[trigger] t[i] != '=');
    }
    if t == "--publish"@ {
        reveal_strlit("--publish");
        assert(forall|i: int| 0 <= i < 9 ==> #[trigger] t[i] != '=');
    }
    if t == "-p"@ {
        reveal_strlit("-p");
        assert(forall|i: int| 0 <= i < 2 ==> #[trigger] t[i] != '=');
    }
    if t == "--memory"@ {
        reveal_strlit("--memory");
        assert(forall|i: int| 0 <= i < 8 ==> #[trigger] t[i] != '=');
    }
    if t == "--cpus"@ {
        reveal_strlit("--cpus");
        assert(forall|i: int| 0 <= i < 6 ==> #[trigger] t[i] != '=');
    }
    if t == "--user"@ {
        reveal_strlit("--user");
        assert(forall|i: int| 0 <= i < 6 ==> #[trigger] t[i] != '=');
    }
    if t == "-u"@ {
        reveal_strlit("-u");
        assert(forall|i: int| 0 <= i < 2 ==> #[trigger] t[i] != '=');
    }
    if t == "--workdir"@ {
        reveal_strlit("--workdir");
        assert(forall|i: int| 0 <= i < 9 ==> #[trigger] t[i] != '=');
    }
    if t == "-w"@ {
        reveal_strlit("-w");
        assert(forall|i: int| 0 <= i < 2 ==> #[trigger] t[i] != '=');
    }
    if t == "--entrypoint"@ {
        reveal_strlit("--entrypoint");
        assert(forall|i: int| 0 <= i < 12 ==> #[trigger] t[i] != '=');
    }
    if t == "--cap-add"@ {
        reveal_strlit("--cap-add");
        assert(forall|i: int| 0 <= i < 9 ==> #[trigger] t[i] != '=');
    }
    if t == "--cap-drop"@ {
        reveal_strlit("--cap-drop");
        assert(forall|i: int| 0 <= i < 10 ==> #[trigger] t[i] != '=');
    }
    if t == "--label"@ {
        reveal_strlit("--label");
        assert(forall|i: int| 0 <= i < 7 ==> #[trigger] t[i] != '=');
    }
    if t == "-l"@ {
        reveal_strlit("-l");
        assert(forall|i: int| 0 <= i < 2 ==> #[trigger] t[i] != '=');
    }
    if t == "--dns"@ {
        reveal_strlit("--dns");
        assert(forall|i: int| 0 <= i < 5 ==> #[trigger] t[i] != '=');
    }
    if t == "--dns-search"@ {
        reveal_strlit("--dns-search");
        assert(forall|i: int| 0 <= i < 12 ==> #[trigger] t[i] != '=');
    }
    if t == "--dns-option"@ {
        reveal_strlit("--dns-option");
        assert(forall|i: int| 0 <= i < 12 ==> #[trigger] t[i] != '=');
    }
}

/// The first step of reading tokens that begin with a flag.
proof fn lemma_flag_first(tokens: Seq<Seq<char>>, image: Option<Seq<char>>)
    requires
        tokens.len() > 0,
        is_flag(tokens[0]),
    ensures
        ({
            let w = flag_width(tokens);
            let rest = run_line(tokens.skip(w), image);
            &&& 0 < w <= tokens.len()
            &&& run_line(tokens, image) == (RunLine {
                flags: tokens.take(w) + rest.flags,
                image: rest.image,
                command: rest.command,
            })
        }),
{
}

/// A flag takes the next token with it exactly where it is one of these names.
///
/// `f` stands behind the image. Where it takes `x` with it, both move ahead of the image; where it
/// does not, it moves alone, and `x` begins the command.
pub proof fn law_listed_flags_take_the_next_token(
    f: Seq<char>,
    x: Seq<char>,
    image: Seq<char>,
    command: Seq<Seq<char>>,
)
    requires
        f.len() > 0,
        f[0] == '-',
        image.len() == 0 || image[0] != '-',
        command.len() == 0 || command[0].len() == 0 || command[0][0] != '-',
    ensures
        ({
            let listed = seq![
                "--name"@,
                "--network"@,
                "--net"@,
                "--hostname"@,
                "--env"@,
                "-e"@,
                "--volume"@,
                "-v"@,
                "--mount"@,
                "--publish"@,
                "-p"@,
                "--memory"@,
                "--cpus"@,
                "--user"@,
                "-u"@,
                "--workdir"@,
                "-w"@,
                "--entrypoint"@,
                "--cap-add"@,
                "--cap-drop"@,
                "--label"@,
                "-l"@,
                "--dns"@,
                "--dns-search"@,
                "--dns-option"@,
            ].contains(f);
            &&& listed ==> normalised(seq![image, f, x] + command) == seq![f, x, image] + command
            &&& !listed && (x.len() == 0 || x[0] != '-') ==> normalised(seq![image, f, x] + command)
                == seq![f, image, x] + command
        }),
{
    let list = seq![
        "--name"@,
        "--network"@,
        "--net"@,
        "--hostname"@,
        "--env"@,
        "-e"@,
        "--volume"@,
        "-v"@,
        "--mount"@,
        "--publish"@,
        "-p"@,
        "--memory"@,
        "--cpus"@,
        "--user"@,
        "-u"@,
        "--workdir"@,
        "-w"@,
        "--entrypoint"@,
        "--cap-add"@,
        "--cap-drop"@,
        "--label"@,
        "-l"@,
        "--dns"@,
        "--dns-search"@,
        "--dns-option"@,
    ];
    assert(list.contains(f) == takes_value(f)) by {
        if list.contains(f) {
            let i = choose|i: int| 0 <= i < list.len() && list[i] == f;
            assert(0 <= i < 25);
        }
        if takes_value(f) {
            assert(list[0] == "--name"@);
            assert(list[1] == "--network"@);
            assert(list[2] == "--net"@);
            assert(list[3] == "--hostname"@);
            assert(list[4] == "--env"@);
            assert(list[5] == "-e"@);
            assert(list[6] == "--volume"@);
            assert(list[7] == "-v"@);
            assert(list[8] == "--mount"@);
            assert(list[9] == "--publish"@);
            assert(list[10] == "-p"@);
            assert(list[11] == "--memory"@);
            assert(list[12] == "--cpus"@);
            assert(list[13] == "--user"@);
            assert(list[14] == "-u"@);
            assert(list[15] == "--workdir"@);
            assert(list[16] == "-w"@);
            assert(list[17] == "--entrypoint"@);
            assert(list[18] == "--cap-add"@);
            assert(list[19] == "--cap-drop"@);
            assert(list[20] == "--label"@);
            assert(list[21] == "-l"@);
            assert(list[22] == "--dns"@);
            assert(list[23] == "--dns-search"@);
            assert(list[24] == "--dns-option"@);
        }
    }
    let none = Seq::<Seq<char>>::empty();
    if takes_value(f) {
        let pair = seq![f, x];
        assert(pair.skip(2) =~= none);
        assert(flags_only(pair)) by {
            reveal_with_fuel(flags_only, 2);
        }
        law_flags_lead(none, image, pair, command);
        assert(none + seq![image] + pair + command =~= seq![image, f, x] + command);
        assert(none + pair + seq![image] + command =~= seq![f, x, image] + command);
    } else if x.len() == 0 || x[0] != '-' {
        let alone = seq![f];
        let tail = seq![x] + command;
        assert(alone.skip(1) =~= none);
        assert(flags_only(alone)) by {
            reveal_with_fuel(flags_only, 2);
        }
        law_flags_lead(none, image, alone, tail);
        assert(none + seq![image] + alone + tail =~= seq![image, f, x] + command);
        assert(none + alone + seq![image] + tail =~= seq![f, image, x] + command);
    }
}

/// A flag that brings its value along behind a `=` stands alone: it takes no further token.
pub proof fn law_flag_with_equals_sign_stands_alone(
    f: Seq<char>,
    image: Seq<char>,
    command: Seq<Seq<char>>,
)
    requires
        f.len() > 0,
        f[0] == '-',
        f.contains('='),
        image.len() == 0 || image[0] != '-',
        command.len() == 0 || command[0].len() == 0 || command[0][0] != '-',
    ensures
        normalised(seq![image, f] + command) == seq![f, image] + command,
{
    if takes_value(f) {
        lemma_value_flag_has_no_equals_sign(f);
    }
    let none = Seq::<Seq<char>>::empty();
    let alone = seq![f];
    assert(alone.skip(1) =~= none);
    assert(flags_only(alone)) by {
        reveal_with_fuel(flags_only, 2);
    }
    law_flags_lead(none, image, alone, command);
    assert(none + seq![image] + alone + command =~= seq![image, f] + command);
    assert(none + alone + seq![image] + command =~= seq![f, image] + command);
}

/// A flag in front stays in front, with its value where it takes one, and what follows is put in
/// order as if it stood alone.
pub proof fn law_leading_flag_stays(f: Seq<char>, x: Seq<char>, rest: Seq<Seq<char>>)
    requires
        f.len() > 0,
        f[0] == '-',
    ensures
        takes_value(f) ==> normalised(seq![f, x] + rest) == seq![f, x] + normalised(rest),
        !takes_value(f) ==> normalised(seq![f] + rest) == seq![f] + normalised(rest),
{
    let line = run_line(rest, None);
    if takes_value(f) {
        let tokens = seq![f, x] + rest;
        lemma_flag_first(tokens, None);
        assert(tokens.skip(2) =~= rest);
        assert(tokens.take(2) =~= seq![f, x]);
        assert(normalised(tokens) =~= seq![f, x] + ordered(line));
    } else {
        let tokens = seq![f] + rest;
        lemma_flag_first(tokens, None);
        assert(tokens.skip(1) =~= rest);
        assert(tokens.take(1) =~= seq![f]);
        assert(normalised(tokens) =~= seq![f] + ordered(line));
    }
}

/// A flag right behind the image changes places with it, together with its value where it takes
/// one, and the rest is put in order as if the flag had not been there.
pub proof fn law_flag_moves_ahead_of_image(
    image: Seq<char>,
    f: Seq<char>,
    x: Seq<char>,
    rest: Seq<Seq<char>>,
)
    requires
        image.len() == 0 || image[0] != '-',
        f.len() > 0,
        f[0] == '-',
    ensures
        takes_value(f) ==> normalised(seq![image, f, x] + rest) == seq![f, x] + normalised(
            seq![image] + rest,
        ),
        !takes_value(f) ==> normalised(seq![image, f] + rest) == seq![f] + normalised(
            seq![image] + rest,
        ),
{
    let plain = seq![image] + rest;
    lemma_plain_token(plain);
    assert(plain.drop_first() =~= rest);
    let line = run_line(rest, Some(image));
    assert(run_line(plain, None) == line);
    if takes_value(f) {
        let tail = seq![f, x] + rest;
        let tokens = seq![image, f, x] + rest;
        lemma_plain_token(tokens);
        assert(tokens.drop_first() =~= tail);
        lemma_flag_first(tail, Some(image));
        assert(tail.skip(2) =~= rest);
        assert(tail.take(2) =~= seq![f, x]);
        assert(run_line(tokens, None) == run_line(tail, Some(image)));
        assert(normalised(tokens) =~= seq![f, x] + ordered(line));
    } else {
        let tail = seq![f] + rest;
        let tokens = seq![image, f] + rest;
        lemma_plain_token(tokens);
        assert(tokens.drop_first() =~= tail);
        lemma_flag_first(tail, Some(image));
        assert(tail.skip(1) =~= rest);
        assert(tail.take(1) =~= seq![f]);
        assert(run_line(tokens, None) == run_line(tail, Some(image)));
        assert(normalised(tokens) =~= seq![f] + ordered(line));
    }
}

/// Once image and command have begun, all stays as it is, whatever follows. A single token stays
/// as it is too, and a flag at the very end moves ahead of the image, also where its value is
/// missing.
pub proof fn law_command_ends_the_flags(
    image: Seq<char>,
    first: Seq<char>,
    rest: Seq<Seq<char>>,
    f: Seq<char>,
    t: Seq<char>,
)
    requires
        image.len() == 0 || image[0] != '-',
        first.len() == 0 || first[0] != '-',
        f.len() > 0,
        f[0] == '-',
    ensures
        normalised(seq![image, first] + rest) == seq![image, first] + rest,
        normalised(seq![]) == Seq::<Seq<char>>::empty(),
        normalised(seq![t]) == seq![t],
        normalised(seq![image, f]) == seq![f, image],
{
    let none = Seq::<Seq<char>>::empty();
    law_flags_lead(none, image, none, seq![first] + rest);
    assert(none + seq![image] + none + (seq![first] + rest) =~= seq![image, first] + rest);
    assert(none + none + seq![image] + (seq![first] + rest) =~= seq![image, first] + rest);
    assert(normalised(none) =~= none);
    if is_flag(t) {
        let one = seq![t];
        lemma_flag_first(one, None);
        assert(one.skip(1) =~= none);
        assert(one.take(1) =~= one);
        assert(normalised(one) =~= one);
    } else {
        law_flags_lead(none, t, none, none);
        assert(none + seq![t] + none + none =~= seq![t]);
        assert(none + none + seq![t] + none =~= seq![t]);
    }
    let tokens = seq![image, f];
    let tail = seq![f];
    lemma_plain_token(tokens);
    assert(tokens.drop_first() =~= tail);
    lemma_flag_first(tail, Some(image));
    assert(tail.skip(1) =~= none);
    assert(tail.take(1) =~= tail);
    assert(run_line(tokens, None) == run_line(tail, Some(image)));
    assert(normalised(tokens) =~= seq![f, image]);
}

/// A `run` command gets a terminal exactly where one of the words of the input is `-i`,
/// `--interactive`, `-it` or `-ti`, wherever it stands.
pub proof fn law_terminal_flags(input: Seq<char>)
    ensures
        wants_terminal(normalised(words(input))) <==> {
            ||| words(input).contains("-i"@)
            ||| words(input).contains("--interactive"@)
            ||| words(input).contains("-it"@)
            ||| words(input).contains("-ti"@)
        },
{
    law_interactive_anywhere(input);
    let typed = words(input);
    if wants_terminal(typed) {
        let i = choose|i: int| 0 <= i < typed.len() && is_interactive_flag(#[trigger] typed[i]);
        assert(typed.contains(typed[i]));
    }
    assert forall|t: Seq<char>| typed.contains(t) && is_interactive_flag(
        t,
    ) implies wants_terminal(typed) by {
        let i = choose|i: int| 0 <= i < typed.len() && typed[i] == t;
        assert(is_interactive_flag(typed[i]));
    }
    assert(is_interactive_flag("-i"@) && is_interactive_flag("--interactive"@));
    assert(is_interactive_flag("-it"@) && is_interactive_flag("-ti"@));
}

} // verus!
