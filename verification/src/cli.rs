//! The program's own command line.

use vstd::prelude::*;

use crate::text::{str_eq, strip_prefix};

verus! {

/// The profile that the arguments after the program's name ask for.
///
/// The first of `--profile <p>`, `-p <p>` and `--profile=<p>` counts. The flag without a value, at
/// the very end, asks for nothing.
pub open spec fn requested_profile(args: Seq<Seq<char>>) -> Option<Seq<char>>
    decreases args.len(),
{
    if args.len() == 0 {
        None
    } else if args[0] == "--profile"@ || args[0] == "-p"@ {
        if args.len() > 1 {
            Some(args[1])
        } else {
            None
        }
    } else if crate::text::begins_with(args[0], "--profile="@) {
        Some(args[0].skip("--profile="@.len() as int))
    } else {
        requested_profile(args.drop_first())
    }
}

/// The profile to start with: what the arguments ask for, else the value of `PELAGOS_PROFILE`,
/// else `default`.
pub open spec fn profile_for(args: Seq<Seq<char>>, pelagos_profile: Option<Seq<char>>) -> Seq<char> {
    match requested_profile(args) {
        Some(p) => p,
        None => match pelagos_profile {
            Some(p) => p,
            None => "default"@,
        },
    }
}

/// What stands behind the program's name.
pub open spec fn after_name(args: Seq<Seq<char>>) -> Seq<Seq<char>> {
    if args.len() > 0 {
        args.drop_first()
    } else {
        seq![]
    }
}

fn find_requested(args: &Vec<String>) -> (r: Option<String>)
    ensures
        match r {
            Some(p) => requested_profile(after_name(args.deep_view())) == Some(p@),
            None => requested_profile(after_name(args.deep_view())) is None,
        },
{
    let ghost all = args.deep_view();
    if args.len() == 0 {
        return None;
    }
    let mut i: usize = 1;
    assert(all.skip(1) =~= after_name(all));
    while i < args.len()
        invariant
            all == args.deep_view(),
            1 <= i <= args@.len(),
            requested_profile(after_name(all)) == requested_profile(all.skip(i as int)),
        decreases args@.len() - i,
    {
        let ghost rest = all.skip(i as int);
        let a = args[i].as_str();
        assert(rest[0] == a@);
        assert(rest.drop_first() =~= all.skip(i + 1));
        if str_eq(a, "--profile") || str_eq(a, "-p") {
            if i + 1 < args.len() {
                assert(rest[1] == all[i + 1]);
                return Some(args[i + 1].clone());
            }
            return None;
        }
        if let Some(value) = strip_prefix(a, "--profile=") {
            return Some(value.to_string());
        }
        i += 1;
    }
    None
}

/// Finds the profile to start with. `args` begins with the program's name.
pub fn resolve_profile(args: &Vec<String>, pelagos_profile: Option<&str>) -> (r: String)
    ensures
        r@ == profile_for(
            after_name(args.deep_view()),
            crate::paths::chars_of_option(pelagos_profile),
        ),
{
    match find_requested(args) {
        Some(p) => p,
        None => match pelagos_profile {
            Some(p) => p.to_string(),
            None => "default".to_string(),
        },
    }
}

/// Tells whether an argument has to do with the profile.
pub open spec fn is_profile_flag(a: Seq<char>) -> bool {
    a == "--profile"@ || a == "-p"@ || crate::text::begins_with(a, "--profile="@)
}

proof fn lemma_other_arguments(before: Seq<Seq<char>>, rest: Seq<Seq<char>>)
    requires
        forall|i: int| 0 <= i < before.len() ==> !is_profile_flag(#[trigger] before[i]),
    ensures
        requested_profile(before + rest) == requested_profile(rest),
    decreases before.len(),
{
    if before.len() == 0 {
        assert(before + rest =~= rest);
    } else {
        assert((before + rest)[0] == before[0]);
        assert((before + rest).drop_first() =~= before.drop_first() + rest);
        lemma_other_arguments(before.drop_first(), rest);
    }
}

/// The three spellings of the flag mean the same, and the first flag counts, whatever stands
/// around it.
pub proof fn law_spellings_agree(
    before: Seq<Seq<char>>,
    profile: Seq<char>,
    after: Seq<Seq<char>>,
    pelagos_profile: Option<Seq<char>>,
)
    requires
        forall|i: int|
            0 <= i < before.len() ==> {
                &&& #[trigger] before[i] != "--profile"@
                &&& before[i] != "-p"@
                &&& !crate::text::begins_with(before[i], "--profile="@)
            },
    ensures
        profile_for(before + seq!["--profile"@, profile] + after, pelagos_profile) == profile,
        profile_for(before + seq!["-p"@, profile] + after, pelagos_profile) == profile,
        profile_for(before + seq!["--profile="@ + profile] + after, pelagos_profile) == profile,
{
    let long = seq!["--profile"@, profile] + after;
    let short = seq!["-p"@, profile] + after;
    let glued = seq!["--profile="@ + profile] + after;
    lemma_other_arguments(before, long);
    lemma_other_arguments(before, short);
    lemma_other_arguments(before, glued);
    assert(before + seq!["--profile"@, profile] + after =~= before + long);
    assert(before + seq!["-p"@, profile] + after =~= before + short);
    assert(before + seq!["--profile="@ + profile] + after =~= before + glued);
    reveal_strlit("--profile");
    reveal_strlit("-p");
    reveal_strlit("--profile=");
    let a = "--profile="@ + profile;
    let n = "--profile="@.len() as int;
    assert(a.subrange(0, n) =~= "--profile="@);
    assert(a.skip(n) =~= profile);
    assert(a[9] == '=');
    assert(a[1] == '-' && "-p"@[1] == 'p');
    assert("--profile"@.len() == 9);
}

/// Without the flag, the environment decides, and without that it is `default`.
pub proof fn law_environment_is_second(args: Seq<Seq<char>>, pelagos_profile: Option<Seq<char>>)
    requires
        forall|i: int|
            0 <= i < args.len() ==> {
                &&& #[trigger] args[i] != "--profile"@
                &&& args[i] != "-p"@
                &&& !crate::text::begins_with(args[i], "--profile="@)
            },
    ensures
        profile_for(args, pelagos_profile) == (match pelagos_profile {
            Some(p) => p,
            None => "default"@,
        }),
{
    lemma_other_arguments(args, seq![]);
    assert(args + Seq::<Seq<char>>::empty() =~= args);
}

/// The flag at the very end, without a value, asks for nothing.
pub proof fn law_flag_without_value_asks_for_nothing(
    before: Seq<Seq<char>>,
    pelagos_profile: Option<Seq<char>>,
)
    requires
        forall|i: int|
            0 <= i < before.len() ==> {
                &&& #[trigger] before[i] != "--profile"@
                &&& before[i] != "-p"@
                &&& !crate::text::begins_with(before[i], "--profile="@)
            },
    ensures
        profile_for(before + seq!["--profile"@], pelagos_profile) == profile_for(
            before,
            pelagos_profile,
        ),
        profile_for(before + seq!["-p"@], pelagos_profile) == profile_for(before, pelagos_profile),
{
    lemma_other_arguments(before, seq!["--profile"@]);
    lemma_other_arguments(before, seq!["-p"@]);
    lemma_other_arguments(before, seq![]);
    assert(before + Seq::<Seq<char>>::empty() =~= before);
}

/// The program's name is no argument, whatever it is.
pub proof fn law_program_name_does_not_count(name: Seq<char>, args: Seq<Seq<char>>)
    ensures
        after_name(seq![name] + args) == args,
        after_name(seq![]) == Seq::<Seq<char>>::empty(),
{
    assert((seq![name] + args).drop_first() =~= args);
}

} // verus!
