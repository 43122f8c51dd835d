//! Containers, and how they, the runtime's state and the profiles are asked for on each platform.

use std::collections::HashMap;

use vstd::prelude::*;

use crate::command::{arg, pelagos_cmd, CommandReply, Platform};
use crate::order::sort;
use crate::text::{str_eq, trim};

verus! {

/// The part of a container's spawn configuration that is shown to the user.
#[derive(Debug, Clone)]
pub struct SpawnConfigView {
    pub env: Vec<String>,
    pub bind: Vec<String>,
    pub bind_ro: Vec<String>,
    pub volume: Vec<String>,
    pub working_dir: Option<String>,
    pub hostname: Option<String>,
    pub user: Option<String>,
    pub read_only: bool,
}

impl Default for SpawnConfigView {
    fn default() -> (r: Self)
        ensures
            r.env@.len() == 0,
            r.bind@.len() == 0,
            r.bind_ro@.len() == 0,
            r.volume@.len() == 0,
            r.working_dir is None,
            r.hostname is None,
            r.user is None,
            !r.read_only,
    {
        SpawnConfigView {
            env: Vec::new(),
            bind: Vec::new(),
            bind_ro: Vec::new(),
            volume: Vec::new(),
            working_dir: None,
            hostname: None,
            user: None,
            read_only: false,
        }
    }
}

/// A container, as `pelagos ps --json` describes it.
#[derive(Debug, Clone)]
pub struct Container {
    pub name: String,
    pub rootfs: String,
    /// `running` or `exited`.
    pub status: String,
    pub pid: i32,
    pub started_at: String,
    pub exit_code: Option<i32>,
    pub command: Vec<String>,
    /// Port mappings `HOST:CONTAINER`.
    pub ports: Vec<String>,
    /// Address in the bridge network.
    pub bridge_ip: Option<String>,
    /// Address in each network, by the network's name.
    pub network_ips: HashMap<String, String>,
    pub labels: HashMap<String, String>,
    /// Path of the captured output of a detached container.
    pub stdout_log: Option<String>,
    /// Path of the captured error output of a detached container.
    pub stderr_log: Option<String>,
    pub spawn_config: Option<SpawnConfigView>,
}

/// An entry of the directory that holds the named profiles.
pub struct ProfileEntry {
    /// Whether it is a directory.
    pub is_dir: bool,
    /// Its name, where that is UTF-8.
    pub name: Option<String>,
}

/// The command line that lists the containers.
pub open spec fn ps_argv(platform: Platform, profile: Seq<char>, all: bool) -> Seq<Seq<char>> {
    crate::command::pelagos_argv(platform, profile) + if all {
        seq!["ps"@, "--json"@, "--all"@]
    } else {
        seq!["ps"@, "--json"@]
    }
}

/// The JSON text that a listing came back with; none where there is nothing to read, because the
/// runtime is not there or said nothing.
pub open spec fn ps_text(reply: crate::command::Reply) -> Option<Seq<char>> {
    match reply {
        crate::command::Reply::Exited { success, status, stdout, stderr } => if success
            && crate::text::trimmed(stdout).len() > 0 {
            Some(crate::text::trimmed(stdout))
        } else {
            None
        },
        crate::command::Reply::NotRun { error } => None,
    }
}

/// The names of the profiles among `entries`: the directories with a readable name other than
/// `default`.
pub open spec fn profile_names(entries: Seq<ProfileEntry>) -> Seq<Seq<char>>
    decreases entries.len(),
{
    if entries.len() == 0 {
        seq![]
    } else {
        let rest = profile_names(entries.drop_last());
        let last = entries.last();
        if last.is_dir && last.name is Some && (last.name->0)@ != "default"@ {
            rest.push((last.name->0)@)
        } else {
            rest
        }
    }
}

/// `default` and the named profiles.
pub open spec fn all_profiles(entries: Option<Seq<ProfileEntry>>) -> Seq<Seq<char>> {
    match entries {
        Some(e) => seq!["default"@] + profile_names(e),
        None => seq!["default"@],
    }
}

/// How the runtime is asked on a platform.
///
/// A method whose name ends in `command` says what to run; its counterpart takes what came back.
pub trait Runner {
    /// The platform that this runner is for.
    spec fn on_platform(&self) -> Platform;

    /// The profile that this runner is for.
    spec fn for_profile(&self) -> Seq<char>;

    /// The command line that lists the containers: those that run, or `all`.
    fn ps_command(&self, all: bool) -> (r: Vec<String>)
        ensures
            r.deep_view() == ps_argv(self.on_platform(), self.for_profile(), all),
    ;

    /// The JSON text in the reply to a listing, where there is any.
    fn ps_listing(&self, reply: &CommandReply) -> (r: Option<String>)
        ensures
            match r {
                Some(text) => ps_text(reply@) == Some(text@),
                None => ps_text(reply@) is None,
            },
    ;

    /// The containers of a listing.
    ///
    /// `parsed` is what the text that `ps_listing` gives was read as, or nothing where it could
    /// not be read. A listing that fails or cannot be read is an empty one; the only error is a
    /// command that cannot be run.
    fn ps(&self, reply: &CommandReply, parsed: Option<Vec<Container>>) -> (r: Result<
        Vec<Container>,
        String,
    >)
        ensures
            match r {
                Ok(list) => {
                    &&& reply is Exited
                    &&& list@ == (if ps_text(reply@) is Some && parsed is Some {
                        (parsed->0)@
                    } else {
                        Seq::empty()
                    })
                },
                Err(e) => reply@ == (crate::command::Reply::NotRun { error: e@ }),
            },
    ;

    /// The command line that asks whether the virtual machine runs, where there is one.
    fn vm_status_command(&self) -> (r: Option<Vec<String>>)
        ensures
            match r {
                Some(argv) => {
                    &&& self.on_platform() is MacOs
                    &&& argv.deep_view() == crate::command::pelagos_argv(
                        self.on_platform(),
                        self.for_profile(),
                    ) + seq!["vm"@, "status"@]
                },
                None => self.on_platform() is Linux,
            },
    ;

    /// Tells whether the runtime is there, from the reply to `vm_status_command`.
    ///
    /// Without a virtual machine it always is.
    fn vm_status(&self, reply: Option<&CommandReply>) -> (r: bool)
        ensures
            r == match self.on_platform() {
                Platform::MacOs => reply is Some && crate::command::succeeded((reply->0)@),
                Platform::Linux => true,
            },
    ;

    /// The profiles, in order, from the entries of their directory; `default` alone where that
    /// cannot be read.
    fn profiles(&self, entries: Option<&Vec<ProfileEntry>>) -> (r: Vec<String>)
        ensures
            crate::order::in_order(r.deep_view()),
            r.deep_view().to_multiset() == all_profiles(
                match entries {
                    Some(e) => Some(e@),
                    None => None,
                },
            ).to_multiset(),
    ;
}

fn write_ps_command(platform: Platform, profile: &str, all: bool) -> (r: Vec<String>)
    ensures
        r.deep_view() == ps_argv(platform, profile@, all),
{
    let mut argv = pelagos_cmd(platform, profile);
    arg(&mut argv, "ps");
    arg(&mut argv, "--json");
    if all {
        arg(&mut argv, "--all");
    }
    assert(argv.deep_view() =~= ps_argv(platform, profile@, all));
    argv
}

fn read_ps_listing(reply: &CommandReply) -> (r: Option<String>)
    ensures
        match r {
            Some(text) => ps_text(reply@) == Some(text@),
            None => ps_text(reply@) is None,
        },
{
    match reply {
        CommandReply::Exited { success, status: _, stdout, stderr: _ } => {
            let text = trim(stdout.as_str());
            if *success && !text.is_empty() {
                Some(text.to_string())
            } else {
                None
            }
        },
        CommandReply::NotRun { error: _ } => None,
    }
}

fn list_containers(reply: &CommandReply, parsed: Option<Vec<Container>>) -> (r: Result<
    Vec<Container>,
    String,
>)
    ensures
        match r {
            Ok(list) => {
                &&& reply is Exited
                &&& list@ == (if ps_text(reply@) is Some && parsed is Some {
                    (parsed->0)@
                } else {
                    Seq::empty()
                })
            },
            Err(e) => reply@ == (crate::command::Reply::NotRun { error: e@ }),
        },
{
    if let CommandReply::NotRun { error } = reply {
        return Err(error.clone());
    }
    match (read_ps_listing(reply), parsed) {
        (Some(_), Some(list)) => Ok(list),
        _ => Ok(Vec::new()),
    }
}

fn sorted_profiles(entries: Option<&Vec<ProfileEntry>>) -> (r: Vec<String>)
    ensures
        crate::order::in_order(r.deep_view()),
        r.deep_view().to_multiset() == all_profiles(
            match entries {
                Some(e) => Some(e@),
                None => None,
            },
        ).to_multiset(),
{
    let mut found: Vec<String> = Vec::new();
    arg(&mut found, "default");
    assert(found.deep_view() =~= seq!["default"@]);
    if let Some(list) = entries {
        let mut i: usize = 0;
        assert(list@.take(0) =~= Seq::<ProfileEntry>::empty());
        assert(found.deep_view() =~= seq!["default"@] + profile_names(list@.take(0)));
        while i < list.len()
            invariant
                i <= list@.len(),
                found.deep_view() == seq!["default"@] + profile_names(list@.take(i as int)),
            decreases list@.len() - i,
        {
            let ghost before = found.deep_view();
            let entry = &list[i];
            proof {
                assert(list@.take(i + 1).drop_last() =~= list@.take(i as int));
                assert(list@.take(i + 1).last() == list@[i as int]);
            }
            if entry.is_dir {
                if let Some(name) = &entry.name {
                    if !str_eq(name.as_str(), "default") {
                        arg(&mut found, name.as_str());
                    }
                }
            }
            assert(found.deep_view() =~= seq!["default"@] + profile_names(list@.take(i + 1)));
            i += 1;
        }
        assert(list@.take(i as int) =~= list@);
    }
    sort(&found)
}

/// The runner for macOS, where each profile has a virtual machine.
pub struct MacOsRunner {
    pub profile: String,
}

impl MacOsRunner {
    /// The runner for `profile`.
    pub fn new(profile: &str) -> (r: Self)
        ensures
            r.profile@ == profile@,
    {
        MacOsRunner { profile: profile.to_string() }
    }
}

impl Runner for MacOsRunner {
    open spec fn on_platform(&self) -> Platform {
        Platform::MacOs
    }

    open spec fn for_profile(&self) -> Seq<char> {
        self.profile@
    }

    fn ps_command(&self, all: bool) -> (r: Vec<String>) {
        write_ps_command(Platform::MacOs, self.profile.as_str(), all)
    }

    fn ps_listing(&self, reply: &CommandReply) -> (r: Option<String>) {
        read_ps_listing(reply)
    }

    fn ps(&self, reply: &CommandReply, parsed: Option<Vec<Container>>) -> (r: Result<
        Vec<Container>,
        String,
    >) {
        list_containers(reply, parsed)
    }

    fn vm_status_command(&self) -> (r: Option<Vec<String>>) {
        let mut argv = pelagos_cmd(Platform::MacOs, self.profile.as_str());
        arg(&mut argv, "vm");
        arg(&mut argv, "status");
        assert(argv.deep_view() =~= crate::command::pelagos_argv(Platform::MacOs, self.profile@)
            + seq!["vm"@, "status"@]);
        Some(argv)
    }

    fn vm_status(&self, reply: Option<&CommandReply>) -> (r: bool) {
        match reply {
            Some(CommandReply::Exited { success, .. }) => *success,
            _ => false,
        }
    }

    fn profiles(&self, entries: Option<&Vec<ProfileEntry>>) -> (r: Vec<String>) {
        sorted_profiles(entries)
    }
}

/// The runner for Linux, where the runtime is native.
pub struct LinuxRunner {
    /// Never passed on: the runtime knows no profiles here.
    pub profile: String,
}

impl LinuxRunner {
    /// The runner for `profile`.
    pub fn new(profile: &str) -> (r: Self)
        ensures
            r.profile@ == profile@,
    {
        LinuxRunner { profile: profile.to_string() }
    }
}

impl Runner for LinuxRunner {
    open spec fn on_platform(&self) -> Platform {
        Platform::Linux
    }

    open spec fn for_profile(&self) -> Seq<char> {
        self.profile@
    }

    fn ps_command(&self, all: bool) -> (r: Vec<String>) {
        write_ps_command(Platform::Linux, self.profile.as_str(), all)
    }

    fn ps_listing(&self, reply: &CommandReply) -> (r: Option<String>) {
        read_ps_listing(reply)
    }

    fn ps(&self, reply: &CommandReply, parsed: Option<Vec<Container>>) -> (r: Result<
        Vec<Container>,
        String,
    >) {
        list_containers(reply, parsed)
    }

    fn vm_status_command(&self) -> (r: Option<Vec<String>>) {
        None
    }

    fn vm_status(&self, reply: Option<&CommandReply>) -> (r: bool) {
        true
    }

    fn profiles(&self, entries: Option<&Vec<ProfileEntry>>) -> (r: Vec<String>) {
        sorted_profiles(entries)
    }
}

/// The first of `list` with the given name.
pub open spec fn first_named(list: Seq<Container>, name: Seq<char>) -> Option<Container>
    decreases list.len(),
{
    if list.len() == 0 {
        None
    } else if list[0].name@ == name {
        Some(list[0])
    } else {
        first_named(list.drop_first(), name)
    }
}

/// Picks the container with the given name.
pub fn find_container(list: Vec<Container>, name: &str) -> (r: Option<Container>)
    ensures
        r == first_named(list@, name@),
        match r {
            Some(c) => {
                &&& c.name@ == name@
                &&& exists|i: int|
                    #![trigger list@[i]]
                    0 <= i < list@.len() && list@[i] == c && forall|k: int|
                        0 <= k < i ==> (#[trigger] list@[k]).name@ != name@
            },
            None => forall|k: int| 0 <= k < list@.len() ==> (#[trigger] list@[k]).name@ != name@,
        },
{
    let ghost all = list@;
    let mut rest = list;
    let mut i: usize = 0;
    assert(all.skip(0) =~= all);
    while i < rest.len()
        invariant
            all == list@,
            rest@ == all,
            i <= all.len(),
            first_named(all, name@) == first_named(all.skip(i as int), name@),
            forall|k: int| 0 <= k < i ==> (#[trigger] all[k]).name@ != name@,
        decreases all.len() - i,
    {
        assert(all.skip(i as int).drop_first() =~= all.skip(i + 1));
        if str_eq(rest[i].name.as_str(), name) {
            return Some(rest.remove(i));
        }
        i += 1;
    }
    None
}

/// The command line that asks for everything known of the containers.
pub fn inspect_command(platform: Platform, profile: &str) -> (r: Vec<String>)
    ensures
        r.deep_view() == ps_argv(platform, profile@, true),
{
    write_ps_command(platform, profile, true)
}

/// What the details of a container are to be read from: the JSON text in the reply to
/// `inspect_command`, where the command succeeded.
pub open spec fn inspect_text(reply: crate::command::Reply) -> Option<Seq<char>> {
    match reply {
        crate::command::Reply::Exited { success, status, stdout, stderr } => if success {
            Some(crate::text::trimmed(stdout))
        } else {
            None
        },
        crate::command::Reply::NotRun { error } => None,
    }
}

/// The JSON text in the reply to `inspect_command`.
pub fn inspect_listing(reply: &CommandReply) -> (r: Option<String>)
    ensures
        match r {
            Some(text) => inspect_text(reply@) == Some(text@),
            None => inspect_text(reply@) is None,
        },
{
    match reply {
        CommandReply::Exited { success, status: _, stdout, stderr: _ } => {
            if *success {
                Some(trim(stdout.as_str()).to_string())
            } else {
                None
            }
        },
        CommandReply::NotRun { error: _ } => None,
    }
}

/// `default` is among the named profiles under no circumstances.
proof fn lemma_default_is_not_named(entries: Seq<ProfileEntry>)
    ensures
        !profile_names(entries).contains("default"@),
    decreases entries.len(),
{
    if entries.len() > 0 {
        lemma_default_is_not_named(entries.drop_last());
        let rest = profile_names(entries.drop_last());
        assert forall|i: int| 0 <= i < profile_names(entries).len() implies profile_names(
            entries,
        )[i] != "default"@ by {
            if i < rest.len() {
                assert(rest.contains(rest[i]));
            }
        }
    }
}

/// `default` is always listed, once.
pub proof fn law_default_is_listed_once(
    entries: Option<Seq<ProfileEntry>>,
    listed: Seq<Seq<char>>,
)
    requires
        listed.to_multiset() == all_profiles(entries).to_multiset(),
    ensures
        listed.contains("default"@),
        listed.to_multiset().count("default"@) == 1,
{
    broadcast use vstd::multiset::group_multiset_axioms;

    let d = "default"@;
    let named = match entries {
        Some(e) => profile_names(e),
        None => Seq::empty(),
    };
    let first = seq![d];
    match entries {
        Some(e) => lemma_default_is_not_named(e),
        None => {},
    }
    assert(all_profiles(entries) =~= first + named);
    vstd::seq_lib::lemma_multiset_commutative(first, named);
    assert(first =~= Seq::empty().push(d));
    Seq::<Seq<char>>::empty().to_multiset_ensures();
    named.to_multiset_ensures();
    listed.to_multiset_ensures();
    assert(named.to_multiset().count(d) == 0);
    assert(listed.to_multiset().count(d) == 1);
}

/// The container that is found has the very name that was asked for, and is the first such one.
/// None is found only where none has that name.
pub proof fn law_first_of_that_name_is_found(list: Seq<Container>, name: Seq<char>)
    ensures
        match first_named(list, name) {
            Some(c) => {
                &&& c.name@ == name
                &&& exists|i: int|
                    #![trigger list[i]]
                    0 <= i < list.len() && list[i] == c && forall|k: int|
                        0 <= k < i ==> (#[trigger] list[k]).name@ != name
            },
            None => forall|k: int| 0 <= k < list.len() ==> (#[trigger] list[k]).name@ != name,
        },
    decreases list.len(),
{
    if list.len() > 0 && list[0].name@ != name {
        let rest = list.drop_first();
        law_first_of_that_name_is_found(rest, name);
        match first_named(rest, name) {
            Some(c) => {
                let j = choose|j: int|
                    #![trigger rest[j]]
                    0 <= j < rest.len() && rest[j] == c && forall|k: int|
                        0 <= k < j ==> (#[trigger] rest[k]).name@ != name;
                assert(list[j + 1] == c);
                assert forall|k: int| 0 <= k < j + 1 implies (#[trigger] list[k]).name@ != name by {
                    if k > 0 {
                        assert(rest[k - 1] == list[k]);
                    }
                }
            },
            None => {
                assert forall|k: int| 0 <= k < list.len() implies (
                #[trigger] list[k]).name@ != name by {
                    if k > 0 {
                        assert(rest[k - 1] == list[k]);
                    }
                }
            },
        }
    } else if list.len() > 0 {
        assert(list[0].name@ == name);
    }
}

/// The containers are listed as JSON, and those that do not run only where all are asked for.
pub proof fn law_listing_commands(profile: Seq<char>)
    ensures
        ps_argv(Platform::MacOs, profile, false) == seq![
            "pelagos"@,
            "--profile"@,
            profile,
            "ps"@,
            "--json"@,
        ],
        ps_argv(Platform::MacOs, profile, true) == seq![
            "pelagos"@,
            "--profile"@,
            profile,
            "ps"@,
            "--json"@,
            "--all"@,
        ],
        ps_argv(Platform::Linux, profile, false) == seq!["pelagos"@, "ps"@, "--json"@],
        ps_argv(Platform::Linux, profile, true) == seq!["pelagos"@, "ps"@, "--json"@, "--all"@],
{
    assert(ps_argv(Platform::MacOs, profile, false) =~= seq![
        "pelagos"@,
        "--profile"@,
        profile,
        "ps"@,
        "--json"@,
    ]);
    assert(ps_argv(Platform::MacOs, profile, true) =~= seq![
        "pelagos"@,
        "--profile"@,
        profile,
        "ps"@,
        "--json"@,
        "--all"@,
    ]);
}

/// What a successful listing wrote is read without the white space around it. Where it wrote
/// nothing else, or did not succeed, there is no listing.
pub proof fn law_listings_are_read(
    status: Seq<char>,
    a: Seq<char>,
    text: Seq<char>,
    b: Seq<char>,
    stderr: Seq<char>,
    error: Seq<char>,
)
    requires
        forall|i: int| 0 <= i < a.len() ==> crate::text::whitespace(#[trigger] a[i]),
        forall|i: int| 0 <= i < b.len() ==> crate::text::whitespace(#[trigger] b[i]),
        text.len() > 0 ==> !crate::text::whitespace(text[0]) && !crate::text::whitespace(
            text.last(),
        ),
    ensures
        ({
            let good = crate::command::Reply::Exited {
                success: true,
                status,
                stdout: a + text + b,
                stderr,
            };
            let bad = crate::command::Reply::Exited {
                success: false,
                status,
                stdout: a + text + b,
                stderr,
            };
            let missing = crate::command::Reply::NotRun { error };
            &&& text.len() > 0 ==> ps_text(good) == Some(text)
            &&& text.len() == 0 ==> ps_text(good) is None
            &&& inspect_text(good) == Some(text)
            &&& ps_text(bad) is None
            &&& inspect_text(bad) is None
            &&& ps_text(missing) is None
            &&& inspect_text(missing) is None
        }),
{
    crate::text::law_trim_keeps_the_text(a, text, b);
}

/// An entry is a profile exactly where it is a directory with a readable name other than
/// `default`, whatever stands around it.
pub proof fn law_each_directory_is_a_profile(
    before: Seq<ProfileEntry>,
    entry: ProfileEntry,
    after: Seq<ProfileEntry>,
)
    ensures
        profile_names(before + seq![entry] + after) == profile_names(before) + (if entry.is_dir
            && entry.name is Some && (entry.name->0)@ != "default"@ {
            seq![(entry.name->0)@]
        } else {
            seq![]
        }) + profile_names(after),
        profile_names(seq![]) == Seq::<Seq<char>>::empty(),
        all_profiles(Some(before)) == seq!["default"@] + profile_names(before),
        all_profiles(None) == seq!["default"@],
    decreases after.len(),
{
    let all = before + seq![entry] + after;
    let own = if entry.is_dir && entry.name is Some && (entry.name->0)@ != "default"@ {
        seq![(entry.name->0)@]
    } else {
        seq![]
    };
    if after.len() == 0 {
        assert(all.drop_last() =~= before);
        assert(all.last() == entry);
        assert(profile_names(all) =~= profile_names(before) + own + profile_names(after));
    } else {
        assert(all.drop_last() =~= before + seq![entry] + after.drop_last());
        assert(all.last() == after.last());
        law_each_directory_is_a_profile(before, entry, after.drop_last());
        assert(profile_names(all) =~= profile_names(before) + own + profile_names(after));
    }
}

/// Each runner is for its own platform and for the profile that it was made for.
pub proof fn law_runners_know_their_platform(mac: MacOsRunner, linux: LinuxRunner)
    ensures
        mac.on_platform() == Platform::MacOs,
        mac.for_profile() == mac.profile@,
        linux.on_platform() == Platform::Linux,
        linux.for_profile() == linux.profile@,
{
}

} // verus!
