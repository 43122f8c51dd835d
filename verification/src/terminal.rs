//! Interactive runs in a new terminal window: which terminal, which binary and which command.

use vstd::prelude::*;

use crate::command::{arg, write_labelled, CommandReply, Platform, Reply};
use crate::text::{chars_of, str_eq, trim};

verus! {

/// How a character is written in an AppleScript string.
pub open spec fn applescript_char(c: char) -> Seq<char> {
    if c == '\\' {
        seq!['\\', '\\']
    } else if c == '"' {
        seq!['\\', '"']
    } else {
        seq![c]
    }
}

/// `s` as it is written between the quotes of an AppleScript string.
pub open spec fn applescript_escaped(s: Seq<char>) -> Seq<char>
    decreases s.len(),
{
    if s.len() == 0 {
        seq![]
    } else {
        applescript_char(s[0]) + applescript_escaped(s.drop_first())
    }
}

/// Writes `s` for use between the quotes of an AppleScript string.
pub fn escape_applescript(s: &str) -> (r: String)
    ensures
        r@ == applescript_escaped(s@),
{
    let v = chars_of(s);
    let mut out = String::new();
    let mut i: usize = 0;
    assert(v@.skip(0) =~= v@);
    assert(out@ + applescript_escaped(v@) =~= applescript_escaped(v@));
    while i < v.len()
        invariant
            i <= v@.len(),
            applescript_escaped(v@) == out@ + applescript_escaped(v@.skip(i as int)),
        decreases v@.len() - i,
    {
        let ghost before = out@;
        let ghost rest = v@.skip(i as int);
        let c = v[i];
        if c == '\\' || c == '"' {
            out.push('\\');
        }
        out.push(c);
        proof {
            assert(rest.drop_first() =~= v@.skip(i + 1));
            assert(out@ =~= before + applescript_char(c));
            assert(before + applescript_escaped(rest) =~= out@ + applescript_escaped(
                v@.skip(i + 1),
            ));
        }
        i += 1;
    }
    assert(v@.skip(i as int) =~= Seq::<char>::empty());
    assert(out@ + applescript_escaped(Seq::<char>::empty()) =~= out@);
    out
}

/// How a character is written between the single quotes of a shell word.
pub open spec fn shell_char(c: char) -> Seq<char> {
    if c == '\'' {
        seq!['\'', '\\', '\'', '\'']
    } else {
        seq![c]
    }
}

/// `s` as it is written between the single quotes of a shell word.
pub open spec fn shell_quoted(s: Seq<char>) -> Seq<char>
    decreases s.len(),
{
    if s.len() == 0 {
        seq![]
    } else {
        shell_char(s[0]) + shell_quoted(s.drop_first())
    }
}

/// `s` as one word of a shell command.
pub open spec fn shell_escaped(s: Seq<char>) -> Seq<char> {
    seq!['\''] + shell_quoted(s) + seq!['\'']
}

/// Writes `s` as one word of a shell command.
pub fn shell_escape(s: &str) -> (r: String)
    ensures
        r@ == shell_escaped(s@),
{
    let v = chars_of(s);
    let ghost quote = seq!['\''];
    let mut out = String::new();
    out.push('\'');
    let mut i: usize = 0;
    assert(v@.skip(0) =~= v@);
    assert(out@ =~= quote);
    while i < v.len()
        invariant
            i <= v@.len(),
            quote + shell_quoted(v@) == out@ + shell_quoted(v@.skip(i as int)),
        decreases v@.len() - i,
    {
        let ghost before = out@;
        let ghost rest = v@.skip(i as int);
        let c = v[i];
        if c == '\'' {
            out.push('\'');
            out.push('\\');
            out.push('\'');
        }
        out.push(c);
        proof {
            assert(rest.drop_first() =~= v@.skip(i + 1));
            assert(out@ =~= before + shell_char(c));
            assert(before + shell_quoted(rest) =~= out@ + shell_quoted(v@.skip(i + 1)));
        }
        i += 1;
    }
    assert(v@.skip(i as int) =~= Seq::<char>::empty());
    assert(out@ + shell_quoted(Seq::<char>::empty()) =~= out@);
    out.push('\'');
    assert(out@ =~= quote + shell_quoted(v@) + seq!['\'']);
    out
}

/// What AppleScript reads between the quotes of a string; nothing where the string would end
/// early or hold an escape other than that of a backslash or a quote.
pub open spec fn applescript_value(s: Seq<char>) -> Option<Seq<char>>
    decreases s.len(),
{
    if s.len() == 0 {
        Some(seq![])
    } else if s[0] == '"' {
        None
    } else if s[0] == '\\' {
        if s.len() > 1 && (s[1] == '\\' || s[1] == '"') {
            match applescript_value(s.skip(2)) {
                Some(rest) => Some(seq![s[1]] + rest),
                None => None,
            }
        } else {
            None
        }
    } else {
        match applescript_value(s.drop_first()) {
            Some(rest) => Some(seq![s[0]] + rest),
            None => None,
        }
    }
}

/// AppleScript reads back what was escaped.
pub proof fn law_applescript_reads_back(s: Seq<char>)
    ensures
        applescript_value(applescript_escaped(s)) == Some(s),
    decreases s.len(),
{
    let e = applescript_escaped(s);
    if s.len() > 0 {
        let rest = s.drop_first();
        law_applescript_reads_back(rest);
        assert(s =~= seq![s[0]] + rest);
        if s[0] == '\\' || s[0] == '"' {
            assert(e.skip(2) =~= applescript_escaped(rest));
        } else {
            assert(e.drop_first() =~= applescript_escaped(rest));
        }
    } else {
        assert(s =~= Seq::<char>::empty());
    }
}

/// The word that a shell reads from `s`; nothing where `s` is not one word of quoted parts and
/// escaped characters alone. A line feed cannot be escaped: a shell drops it with its backslash.
pub open spec fn shell_value(s: Seq<char>, quoted: bool) -> Option<Seq<char>>
    decreases s.len(),
{
    if s.len() == 0 {
        if quoted {
            None
        } else {
            Some(seq![])
        }
    } else if s[0] == '\'' {
        shell_value(s.drop_first(), !quoted)
    } else if quoted {
        match shell_value(s.drop_first(), true) {
            Some(rest) => Some(seq![s[0]] + rest),
            None => None,
        }
    } else if s[0] == '\\' && s.len() > 1 && s[1] != '\n' {
        match shell_value(s.skip(2), false) {
            Some(rest) => Some(seq![s[1]] + rest),
            None => None,
        }
    } else {
        None
    }
}

proof fn lemma_shell_quoted_reads_back(s: Seq<char>)
    ensures
        shell_value(shell_quoted(s) + seq!['\''], true) == Some(s),
    decreases s.len(),
{
    let end = seq!['\''];
    let e = shell_quoted(s) + end;
    if s.len() > 0 {
        let rest = s.drop_first();
        let tail = shell_quoted(rest) + end;
        lemma_shell_quoted_reads_back(rest);
        assert(s =~= seq![s[0]] + rest);
        if s[0] == '\'' {
            let e1 = e.drop_first();
            let e2 = e1.skip(2);
            assert(e1[0] == '\\' && e1[1] == '\'');
            assert(e2[0] == '\'');
            assert(e2.drop_first() =~= tail);
            assert(shell_value(e2, false) == shell_value(tail, true));
            assert(shell_value(e1, false) == Some(seq!['\''] + rest));
        } else {
            assert(e[0] == s[0]);
            assert(e.drop_first() =~= tail);
        }
    } else {
        assert(e =~= end);
        assert(e.drop_first() =~= Seq::<char>::empty());
        assert(shell_value(Seq::<char>::empty(), false) == Some(Seq::<char>::empty()));
        assert(s =~= Seq::<char>::empty());
    }
}

/// A shell reads back what was escaped, as one word.
pub proof fn law_shell_reads_back(s: Seq<char>)
    ensures
        shell_value(shell_escaped(s), false) == Some(s),
{
    lemma_shell_quoted_reads_back(s);
    assert(shell_escaped(s).drop_first() =~= shell_quoted(s) + seq!['\'']);
}

/// The shell command that runs `input` with the binary `pelagos`.
pub open spec fn run_in_shell(
    platform: Platform,
    pelagos: Seq<char>,
    profile: Seq<char>,
    input: Seq<char>,
) -> Seq<char> {
    match platform {
        Platform::MacOs => pelagos + " --profile "@ + shell_escaped(profile) + " run "@ + input,
        Platform::Linux => pelagos + " run "@ + input,
    }
}

/// Writes the shell command that runs `input` with the binary `pelagos`.
pub fn shell_command(platform: Platform, pelagos: &str, profile: &str, input: &str) -> (r: String)
    ensures
        r@ == run_in_shell(platform, pelagos@, profile@, input@),
{
    let mut cmd = pelagos.to_string();
    match platform {
        Platform::MacOs => {
            cmd.append(" --profile ");
            cmd.append(shell_escape(profile).as_str());
        },
        Platform::Linux => {},
    }
    cmd.append(" run ");
    cmd.append(input);
    cmd
}

/// How a terminal window is opened.
pub enum Launcher {
    /// Through Terminal.
    AppleTerminal,
    /// Through iTerm.
    ITerm,
    /// By a terminal program that takes the command after `-e`.
    Program(String),
}

/// How a terminal window is opened, with the program's name as characters.
pub enum LauncherKind {
    AppleTerminal,
    ITerm,
    Program(Seq<char>),
}

impl View for Launcher {
    type V = LauncherKind;

    open spec fn view(&self) -> LauncherKind {
        match *self {
            Launcher::AppleTerminal => LauncherKind::AppleTerminal,
            Launcher::ITerm => LauncherKind::ITerm,
            Launcher::Program(name) => LauncherKind::Program(name@),
        }
    }
}

/// The launcher for the values of `PELAGOS_TERMINAL` and `TERM_PROGRAM`.
///
/// The first names a program outright. The second names the terminal in use, which opens the
/// window where that is possible; Terminal opens all others.
pub open spec fn launcher_for(
    pelagos_terminal: Option<Seq<char>>,
    term_program: Option<Seq<char>>,
) -> LauncherKind {
    match pelagos_terminal {
        Some(name) => LauncherKind::Program(name),
        None => match term_program {
            Some(t) => if t == "iTerm.app"@ {
                LauncherKind::ITerm
            } else if t == "ghostty"@ || t == "kitty"@ || t == "alacritty"@ {
                LauncherKind::Program(t)
            } else {
                LauncherKind::AppleTerminal
            },
            None => LauncherKind::AppleTerminal,
        },
    }
}

/// Chooses the launcher.
pub fn choose_launcher(pelagos_terminal: Option<&str>, term_program: Option<&str>) -> (r: Launcher)
    ensures
        r@ == launcher_for(
            crate::paths::chars_of_option(pelagos_terminal),
            crate::paths::chars_of_option(term_program),
        ),
{
    if let Some(name) = pelagos_terminal {
        return Launcher::Program(name.to_string());
    }
    match term_program {
        Some(t) => {
            if str_eq(t, "iTerm.app") {
                Launcher::ITerm
            } else if str_eq(t, "ghostty") || str_eq(t, "kitty") || str_eq(t, "alacritty") {
                Launcher::Program(t.to_string())
            } else {
                Launcher::AppleTerminal
            }
        },
        None => Launcher::AppleTerminal,
    }
}

/// The script that has an application run `cmd`: `instruction`, then `cmd` in quotes.
pub open spec fn script(instruction: Seq<char>, cmd: Seq<char>) -> Seq<char> {
    instruction + " \""@ + applescript_escaped(cmd) + "\""@
}

/// The command line that opens a terminal window in which `cmd` runs.
pub open spec fn launch_argv(launcher: LauncherKind, cmd: Seq<char>) -> Seq<Seq<char>> {
    match launcher {
        LauncherKind::AppleTerminal => seq![
            "osascript"@,
            "-e"@,
            script("tell application \"Terminal\" to do script"@, cmd),
        ],
        LauncherKind::ITerm => seq![
            "osascript"@,
            "-e"@,
            script(
                "tell application \"iTerm\" to create window with default profile command"@,
                cmd,
            ),
        ],
        LauncherKind::Program(name) => seq![name, "-e"@, "sh"@, "-c"@, cmd],
    }
}

fn write_script(instruction: &str, cmd: &str) -> (r: String)
    ensures
        r@ == script(instruction@, cmd@),
{
    let mut text = instruction.to_string();
    text.append(" \"");
    text.append(escape_applescript(cmd).as_str());
    text.append("\"");
    text
}

/// Writes the command line that opens a terminal window in which `cmd` runs.
pub fn launch_command(launcher: &Launcher, cmd: &str) -> (r: Vec<String>)
    ensures
        r.deep_view() == launch_argv(launcher@, cmd@),
{
    let mut argv: Vec<String> = Vec::new();
    match launcher {
        Launcher::AppleTerminal => {
            arg(&mut argv, "osascript");
            arg(&mut argv, "-e");
            let text = write_script("tell application \"Terminal\" to do script", cmd);
            arg(&mut argv, text.as_str());
        },
        Launcher::ITerm => {
            arg(&mut argv, "osascript");
            arg(&mut argv, "-e");
            let text = write_script(
                "tell application \"iTerm\" to create window with default profile command",
                cmd,
            );
            arg(&mut argv, text.as_str());
        },
        Launcher::Program(name) => {
            arg(&mut argv, name.as_str());
            arg(&mut argv, "-e");
            arg(&mut argv, "sh");
            arg(&mut argv, "-c");
            arg(&mut argv, cmd);
        },
    }
    assert(argv.deep_view() =~= launch_argv(launcher@, cmd@));
    argv
}

/// The message for the user where no terminal window could be opened.
pub fn launch_failure(error: &str) -> (r: String)
    ensures
        r@ == crate::command::labelled("terminal launch"@, error@),
{
    write_labelled("terminal launch", error)
}

/// Where the `pelagos` binary is looked for, one place after the other.
pub enum PathLookup {
    /// Next to the running program.
    Sibling,
    /// Where `which pelagos` says.
    Which,
    /// At `/opt/homebrew/bin/pelagos`.
    Homebrew,
    /// At `/usr/local/bin/pelagos`.
    UsrLocal,
    /// The lookup is over.
    Found(String),
}

/// Where the `pelagos` binary is looked for, with the result as characters.
pub enum Lookup {
    Sibling,
    Which,
    Homebrew,
    UsrLocal,
    Found(Seq<char>),
}

impl View for PathLookup {
    type V = Lookup;

    open spec fn view(&self) -> Lookup {
        match *self {
            PathLookup::Sibling => Lookup::Sibling,
            PathLookup::Which => Lookup::Which,
            PathLookup::Homebrew => Lookup::Homebrew,
            PathLookup::UsrLocal => Lookup::UsrLocal,
            PathLookup::Found(path) => Lookup::Found(path@),
        }
    }
}

/// The path that `which` names.
pub open spec fn path_of_which(reply: Reply) -> Option<Seq<char>> {
    match reply {
        Reply::Exited { success, status, stdout, stderr } => if success && crate::text::trimmed(
            stdout,
        ).len() > 0 {
            Some(crate::text::trimmed(stdout))
        } else {
            None
        },
        Reply::NotRun { error } => None,
    }
}

/// The file that a stage of the lookup looks for, where it looks for a well-known one.
pub open spec fn well_known(at: Lookup) -> Option<Seq<char>> {
    match at {
        Lookup::Homebrew => Some("/opt/homebrew/bin/pelagos"@),
        Lookup::UsrLocal => Some("/usr/local/bin/pelagos"@),
        _ => None,
    }
}

impl PathLookup {
    /// The file that this stage of the lookup looks for, where it looks for a well-known one.
    pub fn well_known_path(&self) -> (r: Option<&'static str>)
        ensures
            match r {
                Some(path) => well_known(self@) == Some(path@),
                None => well_known(self@) is None,
            },
    {
        match self {
            PathLookup::Homebrew => Some("/opt/homebrew/bin/pelagos"),
            PathLookup::UsrLocal => Some("/usr/local/bin/pelagos"),
            _ => None,
        }
    }
}

/// Where the lookup goes on from the place next to the running program.
pub open spec fn next_after_sibling(sibling: Option<Seq<char>>) -> Lookup {
    match sibling {
        Some(path) => Lookup::Found(path),
        None => Lookup::Which,
    }
}

/// Where the lookup goes on from the answer of `which`.
pub open spec fn next_after_which(reply: Reply) -> Lookup {
    match path_of_which(reply) {
        Some(path) => Lookup::Found(path),
        None => Lookup::Homebrew,
    }
}

/// Where the lookup goes on from Homebrew's directory.
pub open spec fn next_after_homebrew(present: bool) -> Lookup {
    if present {
        Lookup::Found(well_known(Lookup::Homebrew)->0)
    } else {
        Lookup::UsrLocal
    }
}

/// Where the lookup goes on from `/usr/local/bin`. The last resort is the bare name.
pub open spec fn next_after_usr_local(present: bool) -> Lookup {
    if present {
        Lookup::Found(well_known(Lookup::UsrLocal)->0)
    } else {
        Lookup::Found("pelagos"@)
    }
}

/// Goes on from the place next to the running program, given the path of a binary there.
pub fn after_sibling(sibling: Option<String>) -> (r: PathLookup)
    ensures
        r@ == next_after_sibling(
            match sibling {
                Some(path) => Some(path@),
                None => None,
            },
        ),
{
    match sibling {
        Some(path) => PathLookup::Found(path),
        None => PathLookup::Which,
    }
}

/// The command line that asks the shell's path for the binary.
pub fn which_command() -> (r: Vec<String>)
    ensures
        r.deep_view() == seq!["which"@, "pelagos"@],
{
    let mut argv: Vec<String> = Vec::new();
    arg(&mut argv, "which");
    arg(&mut argv, "pelagos");
    assert(argv.deep_view() =~= seq!["which"@, "pelagos"@]);
    argv
}

/// Goes on from the reply to `which_command`.
pub fn after_which(reply: &CommandReply) -> (r: PathLookup)
    ensures
        r@ == next_after_which(reply@),
{
    match reply {
        CommandReply::Exited { success, status: _, stdout, stderr: _ } => {
            let path = trim(stdout.as_str());
            if *success && !path.is_empty() {
                return PathLookup::Found(path.to_string());
            }
        },
        CommandReply::NotRun { error: _ } => {},
    }
    PathLookup::Homebrew
}

/// Goes on from `/opt/homebrew/bin/pelagos`, given whether a file is there.
pub fn after_homebrew(present: bool) -> (r: PathLookup)
    ensures
        r@ == next_after_homebrew(present),
{
    if present {
        PathLookup::Found("/opt/homebrew/bin/pelagos".to_string())
    } else {
        PathLookup::UsrLocal
    }
}

/// Goes on from `/usr/local/bin/pelagos`, given whether a file is there.
pub fn after_usr_local(present: bool) -> (r: PathLookup)
    ensures
        r@ == next_after_usr_local(present),
{
    if present {
        PathLookup::Found("/usr/local/bin/pelagos".to_string())
    } else {
        PathLookup::Found("pelagos".to_string())
    }
}

/// What the lookup finds in each place.
pub struct Places {
    pub sibling: Option<Seq<char>>,
    pub which: Reply,
    pub homebrew: bool,
    pub usr_local: bool,
}

/// One step of the lookup.
pub open spec fn lookup_step(at: Lookup, places: Places) -> Lookup {
    match at {
        Lookup::Sibling => next_after_sibling(places.sibling),
        Lookup::Which => next_after_which(places.which),
        Lookup::Homebrew => next_after_homebrew(places.homebrew),
        Lookup::UsrLocal => next_after_usr_local(places.usr_local),
        Lookup::Found(path) => Lookup::Found(path),
    }
}

/// The binary of choice: next to the running program, else on the shell's path, else in a
/// well-known directory, else the bare name.
pub open spec fn preferred(places: Places) -> Seq<char> {
    if places.sibling is Some {
        places.sibling->0
    } else if path_of_which(places.which) is Some {
        path_of_which(places.which)->0
    } else if places.homebrew {
        "/opt/homebrew/bin/pelagos"@
    } else if places.usr_local {
        "/usr/local/bin/pelagos"@
    } else {
        "pelagos"@
    }
}

/// The lookup ends after four steps at most, with the binary of choice.
pub proof fn law_lookup_finds_preferred(places: Places)
    ensures
        ({
            let first = lookup_step(Lookup::Sibling, places);
            let second = lookup_step(first, places);
            let third = lookup_step(second, places);
            lookup_step(third, places) == Lookup::Found(preferred(places))
        }),
{
}

/// `PELAGOS_TERMINAL` decides alone where it is set: it names the program, whatever the terminal
/// in use is.
pub proof fn law_named_terminal_is_used(name: Seq<char>, term_program: Option<Seq<char>>)
    ensures
        launcher_for(Some(name), term_program) == LauncherKind::Program(name),
{
}

/// Without it, the terminal in use opens the window where that is iTerm, ghostty, kitty or
/// alacritty, and Terminal does in all other cases.
pub proof fn law_terminal_in_use_is_second(t: Seq<char>)
    ensures
        launcher_for(None, None) == LauncherKind::AppleTerminal,
        launcher_for(None, Some(t)) is ITerm <==> t == "iTerm.app"@,
        launcher_for(None, Some(t)) is Program <==> t == "ghostty"@ || t == "kitty"@ || t
            == "alacritty"@,
        launcher_for(None, Some(t)) is Program ==> launcher_for(None, Some(t))
            == LauncherKind::Program(t),
{
    reveal_strlit("iTerm.app");
    reveal_strlit("ghostty");
    reveal_strlit("kitty");
    reveal_strlit("alacritty");
    assert("iTerm.app"@[0] == 'i');
    assert("ghostty"@[0] == 'g');
    assert("kitty"@[0] == 'k');
    assert("alacritty"@[0] == 'a');
}

/// In an AppleScript string only a backslash and a quote are written otherwise than they are, each
/// behind a backslash.
pub proof fn law_applescript_escapes(a: Seq<char>, c: char, b: Seq<char>)
    ensures
        c != '\\' && c != '"' ==> applescript_escaped(a + seq![c] + b) == applescript_escaped(a)
            + seq![c] + applescript_escaped(b),
        c == '\\' || c == '"' ==> applescript_escaped(a + seq![c] + b) == applescript_escaped(a)
            + seq!['\\', c] + applescript_escaped(b),
        applescript_escaped(seq![]) == Seq::<char>::empty(),
    decreases a.len(),
{
    let all = a + seq![c] + b;
    let own = if c == '\\' || c == '"' {
        seq!['\\', c]
    } else {
        seq![c]
    };
    if a.len() == 0 {
        assert(all[0] == c);
        assert(all.drop_first() =~= b);
        assert(applescript_escaped(all) =~= applescript_escaped(a) + own + applescript_escaped(b));
    } else {
        assert(all[0] == a[0]);
        assert(all.drop_first() =~= a.drop_first() + seq![c] + b);
        law_applescript_escapes(a.drop_first(), c, b);
        assert(applescript_escaped(all) =~= applescript_escaped(a) + own + applescript_escaped(b));
    }
}

/// Between the single quotes of a shell word only a single quote is written otherwise than it is:
/// the quotes are closed, it follows behind a backslash, and they are opened again.
pub proof fn law_shell_quotes(a: Seq<char>, c: char, b: Seq<char>)
    ensures
        c != '\'' ==> shell_quoted(a + seq![c] + b) == shell_quoted(a) + seq![c] + shell_quoted(b),
        c == '\'' ==> shell_quoted(a + seq![c] + b) == shell_quoted(a) + seq![
            '\'',
            '\\',
            '\'',
            '\'',
        ] + shell_quoted(b),
        shell_quoted(seq![]) == Seq::<char>::empty(),
        shell_escaped(a) == seq!['\''] + shell_quoted(a) + seq!['\''],
    decreases a.len(),
{
    let all = a + seq![c] + b;
    let own = if c == '\'' {
        seq!['\'', '\\', '\'', '\'']
    } else {
        seq![c]
    };
    if a.len() == 0 {
        assert(all[0] == c);
        assert(all.drop_first() =~= b);
        assert(shell_quoted(all) =~= shell_quoted(a) + own + shell_quoted(b));
    } else {
        assert(all[0] == a[0]);
        assert(all.drop_first() =~= a.drop_first() + seq![c] + b);
        law_shell_quotes(a.drop_first(), c, b);
        assert(shell_quoted(all) =~= shell_quoted(a) + own + shell_quoted(b));
    }
}

/// A text without single quotes is written as it is, between single quotes.
pub proof fn law_plain_text_is_quoted_as_it_is(s: Seq<char>)
    requires
        !s.contains('\''),
    ensures
        shell_escaped(s) == seq!['\''] + s + seq!['\''],
{
    lemma_plain_text_stays(s);
}

proof fn lemma_plain_text_stays(s: Seq<char>)
    requires
        !s.contains('\''),
    ensures
        shell_quoted(s) == s,
    decreases s.len(),
{
    if s.len() > 0 {
        let rest = s.drop_first();
        assert(s.contains(s[0]));
        assert forall|i: int| 0 <= i < rest.len() implies rest[i] != '\'' by {
            assert(s.contains(s[i + 1]));
        }
        lemma_plain_text_stays(rest);
        assert(shell_quoted(s) =~= s);
    } else {
        assert(shell_quoted(s) =~= s);
    }
}

/// The input follows `run` as it was typed. The profile is named on macOS alone, as one shell
/// word.
pub proof fn law_input_runs_as_typed(
    pelagos: Seq<char>,
    profile: Seq<char>,
    other: Seq<char>,
    input: Seq<char>,
)
    ensures
        run_in_shell(Platform::Linux, pelagos, profile, input) == pelagos + " run "@ + input,
        run_in_shell(Platform::MacOs, pelagos, profile, input) == pelagos + " --profile "@
            + shell_escaped(profile) + " run "@ + input,
        !profile.contains('\'') ==> run_in_shell(Platform::MacOs, pelagos, profile, input)
            == pelagos + " --profile '"@ + profile + "' run "@ + input,
{
    if !profile.contains('\'') {
        law_plain_text_is_quoted_as_it_is(profile);
        reveal_strlit(" --profile ");
        reveal_strlit(" --profile '");
        reveal_strlit(" run ");
        reveal_strlit("' run ");
        assert(run_in_shell(Platform::MacOs, pelagos, profile, input) =~= pelagos
            + " --profile '"@ + profile + "' run "@ + input);
    }
}

/// A terminal program gets the command through `sh -c`; Terminal and iTerm get a script with the
/// command in quotes.
pub proof fn law_launch_commands(name: Seq<char>, cmd: Seq<char>)
    ensures
        launch_argv(LauncherKind::Program(name), cmd) == seq![name, "-e"@, "sh"@, "-c"@, cmd],
        launch_argv(LauncherKind::AppleTerminal, cmd) == seq![
            "osascript"@,
            "-e"@,
            "tell application \"Terminal\" to do script \""@ + applescript_escaped(cmd) + "\""@,
        ],
        launch_argv(LauncherKind::ITerm, cmd) == seq![
            "osascript"@,
            "-e"@,
            "tell application \"iTerm\" to create window with default profile command \""@
                + applescript_escaped(cmd) + "\""@,
        ],
{
    reveal_strlit(" \"");
    reveal_strlit("tell application \"Terminal\" to do script");
    reveal_strlit("tell application \"Terminal\" to do script \"");
    reveal_strlit("tell application \"iTerm\" to create window with default profile command");
    reveal_strlit("tell application \"iTerm\" to create window with default profile command \"");
    assert("tell application \"Terminal\" to do script"@ + " \""@
        =~= "tell application \"Terminal\" to do script \""@);
    assert("tell application \"iTerm\" to create window with default profile command"@ + " \""@
        =~= "tell application \"iTerm\" to create window with default profile command \""@);
}

/// What a launcher is seen as is what it is.
pub proof fn law_launchers_are_seen_as_they_are(name: String)
    ensures
        Launcher::Program(name)@ == LauncherKind::Program(name@),
        Launcher::ITerm@ == LauncherKind::ITerm,
        Launcher::AppleTerminal@ == LauncherKind::AppleTerminal,
{
}

/// The path that a successful `which` wrote counts, without the white space around it; where it
/// wrote nothing else, did not succeed or could not be run, there is none.
pub proof fn law_which_names_a_path(
    status: Seq<char>,
    a: Seq<char>,
    path: Seq<char>,
    b: Seq<char>,
    stderr: Seq<char>,
    error: Seq<char>,
)
    requires
        forall|i: int| 0 <= i < a.len() ==> crate::text::whitespace(#[trigger] a[i]),
        forall|i: int| 0 <= i < b.len() ==> crate::text::whitespace(#[trigger] b[i]),
        path.len() > 0 ==> !crate::text::whitespace(path[0]) && !crate::text::whitespace(
            path.last(),
        ),
    ensures
        ({
            let good = Reply::Exited { success: true, status, stdout: a + path + b, stderr };
            let bad = Reply::Exited { success: false, status, stdout: a + path + b, stderr };
            &&& path.len() > 0 ==> path_of_which(good) == Some(path)
            &&& path.len() == 0 ==> path_of_which(good) is None
            &&& path_of_which(bad) is None
            &&& path_of_which(Reply::NotRun { error }) is None
        }),
{
    crate::text::law_trim_keeps_the_text(a, path, b);
}

/// Each place counts only where all those before it have nothing: first the one next to the
/// running program, then the shell's path, then Homebrew's directory, then `/usr/local/bin`, and
/// at last the bare name.
pub proof fn law_lookup_goes_by_precedence(places: Places)
    ensures
        ({
            let first = lookup_step(Lookup::Sibling, places);
            let second = lookup_step(first, places);
            let third = lookup_step(second, places);
            let end = lookup_step(third, places);
            let which = path_of_which(places.which);
            &&& places.sibling is Some ==> end == Lookup::Found(places.sibling->0)
            &&& places.sibling is None && which is Some ==> end == Lookup::Found(which->0)
            &&& places.sibling is None && which is None ==> {
                &&& places.homebrew ==> end == Lookup::Found("/opt/homebrew/bin/pelagos"@)
                &&& !places.homebrew && places.usr_local ==> end == Lookup::Found(
                    "/usr/local/bin/pelagos"@,
                )
                &&& !places.homebrew && !places.usr_local ==> end == Lookup::Found("pelagos"@)
            }
            &&& well_known(Lookup::Homebrew) == Some("/opt/homebrew/bin/pelagos"@)
            &&& well_known(Lookup::UsrLocal) == Some("/usr/local/bin/pelagos"@)
            &&& well_known(Lookup::Sibling) is None
            &&& well_known(Lookup::Which) is None
            &&& well_known(end) is None
        }),
{
}

/// What a lookup is seen as is what it is.
pub proof fn law_lookups_are_seen_as_they_are(path: String)
    ensures
        PathLookup::Sibling@ == Lookup::Sibling,
        PathLookup::Which@ == Lookup::Which,
        PathLookup::Homebrew@ == Lookup::Homebrew,
        PathLookup::UsrLocal@ == Lookup::UsrLocal,
        PathLookup::Found(path)@ == Lookup::Found(path@),
{
}

} // verus!
