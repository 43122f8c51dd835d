//! Where `pelagos` keeps its data, from the values of `XDG_DATA_HOME` and `HOME`.

use vstd::prelude::*;

use crate::text::str_eq;

verus! {

/// The path `part`, taken relative to the directory `base`.
///
/// An absolute `part` stands for itself. Otherwise exactly one `/` separates the two, unless
/// `base` is empty or brings its own.
pub open spec fn joined_path(base: Seq<char>, part: Seq<char>) -> Seq<char> {
    if part.len() > 0 && part[0] == '/' {
        part
    } else if base.len() == 0 || base.last() == '/' {
        base + part
    } else {
        base + "/"@ + part
    }
}

/// Takes `part` relative to the directory `base`.
pub fn join_path(base: &str, part: &str) -> (r: String)
    ensures
        r@ == joined_path(base@, part@),
{
    if !part.is_empty() && part.get_char(0) == '/' {
        return part.to_string();
    }
    let n = base.unicode_len();
    let mut path = base.to_string();
    if n > 0 && base.get_char(n - 1) != '/' {
        path.append("/");
    }
    path.append(part);
    path
}

/// The directory that holds all of pelagos' data.
///
/// `XDG_DATA_HOME` names the parent; without it, it is `.local/share` in the home directory, or
/// in `/tmp` where there is none.
pub open spec fn base_dir(xdg_data_home: Option<Seq<char>>, home: Option<Seq<char>>) -> Seq<char> {
    let parent = match (xdg_data_home, home) {
        (Some(xdg), _) => xdg,
        (None, Some(h)) => joined_path(h, ".local/share"@),
        (None, None) => joined_path("/tmp"@, ".local/share"@),
    };
    joined_path(parent, "pelagos"@)
}

/// The characters of an optional string.
pub open spec fn chars_of_option(s: Option<&str>) -> Option<Seq<char>> {
    match s {
        Some(t) => Some(t@),
        None => None,
    }
}

/// Finds the directory that holds all of pelagos' data.
pub fn pelagos_base(xdg_data_home: Option<&str>, home: Option<&str>) -> (r: String)
    ensures
        r@ == base_dir(chars_of_option(xdg_data_home), chars_of_option(home)),
{
    match xdg_data_home {
        Some(xdg) => join_path(xdg, "pelagos"),
        None => {
            let home_dir = match home {
                Some(h) => h,
                None => "/tmp",
            };
            let parent = join_path(home_dir, ".local/share");
            join_path(parent.as_str(), "pelagos")
        },
    }
}

/// The directory of the profile `name`: `base` itself for `default`, and one of the directories
/// below `profiles` for any other name.
pub open spec fn dir_of_profile(base: Seq<char>, name: Seq<char>) -> Seq<char> {
    if name == "default"@ {
        base
    } else {
        joined_path(joined_path(base, "profiles"@), name)
    }
}

/// Finds the directory of the profile `name` below `base`.
pub fn profile_dir(base: &str, name: &str) -> (r: String)
    ensures
        r@ == dir_of_profile(base@, name@),
{
    if str_eq(name, "default") {
        base.to_string()
    } else {
        let profiles = join_path(base, "profiles");
        join_path(profiles.as_str(), name)
    }
}

/// The directory whose subdirectories are the named profiles; none where neither variable is set.
pub open spec fn dir_of_profiles(
    xdg_data_home: Option<Seq<char>>,
    home: Option<Seq<char>>,
) -> Option<Seq<char>> {
    match (xdg_data_home, home) {
        (Some(xdg), _) => Some(joined_path(joined_path(xdg, "pelagos"@), "profiles"@)),
        (None, Some(h)) => Some(
            joined_path(joined_path(h, ".local/share/pelagos"@), "profiles"@),
        ),
        (None, None) => None,
    }
}

/// Finds the directory whose subdirectories are the named profiles.
pub fn profiles_dir(xdg_data_home: Option<&str>, home: Option<&str>) -> (r: Option<String>)
    ensures
        match r {
            Some(dir) => dir_of_profiles(chars_of_option(xdg_data_home), chars_of_option(home))
                == Some(dir@),
            None => dir_of_profiles(chars_of_option(xdg_data_home), chars_of_option(home)) is None,
        },
{
    let base = match xdg_data_home {
        Some(xdg) => join_path(xdg, "pelagos"),
        None => match home {
            Some(h) => join_path(h, ".local/share/pelagos"),
            None => {
                return None;
            },
        },
    };
    Some(join_path(base.as_str(), "profiles"))
}

/// The directory of a named profile is the one of that name among those that `profiles_dir`
/// lists.
pub proof fn law_named_profile_is_listed(
    xdg_data_home: Option<Seq<char>>,
    home: Option<Seq<char>>,
    name: Seq<char>,
)
    requires
        xdg_data_home is Some || home is Some,
        name != "default"@,
    ensures
        dir_of_profiles(xdg_data_home, home) is Some,
        dir_of_profile(base_dir(xdg_data_home, home), name) == joined_path(
            dir_of_profiles(xdg_data_home, home)->0,
            name,
        ),
{
    if xdg_data_home is None {
        let h = home->0;
        reveal_strlit(".local/share");
        reveal_strlit(".local/share/pelagos");
        reveal_strlit("pelagos");
        reveal_strlit("/");
        let share = joined_path(h, ".local/share"@);
        assert(share.last() == 'e');
        assert(".local/share/pelagos"@ =~= ".local/share"@ + "/"@ + "pelagos"@);
        assert(joined_path(share, "pelagos"@) =~= joined_path(h, ".local/share/pelagos"@));
    }
}

/// Two profiles never share a directory path, and only `default` has the base itself.
///
/// This leaves out names that are absolute paths, which stand for themselves.
pub proof fn law_profiles_are_apart(base: Seq<char>, a: Seq<char>, b: Seq<char>)
    requires
        a.len() > 0 ==> a[0] != '/',
        b.len() > 0 ==> b[0] != '/',
        a != b,
    ensures
        dir_of_profile(base, a) != dir_of_profile(base, b),
        dir_of_profile(base, a) == base <==> a == "default"@,
{
    reveal_strlit("profiles");
    reveal_strlit("/");
    let dir = joined_path(base, "profiles"@);
    assert(dir.len() > base.len());
    assert(dir.last() == 's');
    let front = dir + "/"@;
    assert(joined_path(dir, a) =~= front + a);
    assert(joined_path(dir, b) =~= front + b);
    assert((front + a).skip(front.len() as int) =~= a);
    assert((front + b).skip(front.len() as int) =~= b);
}

/// A relative path lies below the directory that it is taken from, with one `/` between the two;
/// an absolute one lies where it says.
pub proof fn law_one_slash_between(base: Seq<char>, part: Seq<char>)
    ensures
        part.len() > 0 && part[0] == '/' ==> joined_path(base, part) == part,
        part.len() == 0 || part[0] != '/' ==> {
            &&& base.len() == 0 ==> joined_path(base, part) == part
            &&& base.len() > 0 && base.last() == '/' ==> joined_path(base, part) == base + part
            &&& base.len() > 0 && base.last() != '/' ==> joined_path(base, part) == base + seq!['/']
                + part
        },
{
    reveal_strlit("/");
    assert("/"@ =~= seq!['/']);
    assert(base.len() == 0 ==> base + part =~= part);
}

/// It does not matter which of two steps below a directory is taken together with the other.
pub proof fn law_joining_is_associative(a: Seq<char>, b: Seq<char>, c: Seq<char>)
    ensures
        joined_path(joined_path(a, b), c) == joined_path(a, joined_path(b, c)),
{
    reveal_strlit("/");
    assert("/"@ =~= seq!['/']);
    assert(joined_path(joined_path(a, b), c) =~= joined_path(a, joined_path(b, c)));
}

/// `XDG_DATA_HOME` decides alone where it is set, even where it is empty. Without it the data lies
/// in `.local/share/pelagos` below the home directory, and `/tmp` stands in for that.
pub proof fn law_data_home(xdg: Seq<char>, home: Option<Seq<char>>, h: Seq<char>)
    ensures
        base_dir(Some(xdg), home) == joined_path(xdg, "pelagos"@),
        base_dir(None, Some(h)) == joined_path(h, ".local/share/pelagos"@),
        base_dir(None, None) == "/tmp/.local/share/pelagos"@,
        dir_of_profiles(Some(xdg), home) == Some(joined_path(xdg, "pelagos/profiles"@)),
        dir_of_profiles(None, Some(h)) == Some(joined_path(h, ".local/share/pelagos/profiles"@)),
        dir_of_profiles(None, None) is None,
{
    reveal_strlit("/");
    reveal_strlit("/tmp");
    reveal_strlit("pelagos");
    reveal_strlit("profiles");
    reveal_strlit(".local/share");
    reveal_strlit(".local/share/pelagos");
    reveal_strlit("/tmp/.local/share/pelagos");
    reveal_strlit("pelagos/profiles");
    reveal_strlit(".local/share/pelagos/profiles");
    law_joining_is_associative(h, ".local/share"@, "pelagos"@);
    law_joining_is_associative(xdg, "pelagos"@, "profiles"@);
    law_joining_is_associative(h, ".local/share/pelagos"@, "profiles"@);
    assert(joined_path(".local/share"@, "pelagos"@) =~= ".local/share/pelagos"@);
    assert(joined_path("pelagos"@, "profiles"@) =~= "pelagos/profiles"@);
    assert(joined_path(".local/share/pelagos"@, "profiles"@) =~= ".local/share/pelagos/profiles"@);
    let share = joined_path("/tmp"@, ".local/share"@);
    assert(share =~= "/tmp"@ + "/"@ + ".local/share"@);
    assert(share.last() == 'e');
    assert(base_dir(None, None) =~= "/tmp/.local/share/pelagos"@);
}

/// The `default` profile has the base directory; any other lies below `profiles` there, under its
/// own name.
pub proof fn law_profile_directories(base: Seq<char>, name: Seq<char>)
    ensures
        dir_of_profile(base, "default"@) == base,
        name != "default"@ ==> dir_of_profile(base, name) == joined_path(
            base,
            joined_path("profiles"@, name),
        ),
{
    law_joining_is_associative(base, "profiles"@, name);
}

/// A variable that is set counts with just the text that it holds, an empty one too.
pub proof fn law_set_variables_count(s: &str)
    ensures
        chars_of_option(Some(s)) == Some(s@),
        chars_of_option(None) is None,
{
}

} // verus!
