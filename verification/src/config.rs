//! Per-profile defaults, read from `tui.conf`.
//!
//! ```text
//! # tui.conf
//! default_image  = alpine
//! default_it_cmd = /bin/sh
//! ```

use vstd::prelude::*;

use crate::paths::{join_path, pelagos_base, profile_dir};
use crate::text::{lines, split_once, str_eq, trim};

verus! {

/// Per-profile defaults.
#[derive(Debug, Clone)]
pub struct TuiConfig {
    /// Image offered for an interactive run.
    pub default_image: String,
    /// Command offered for an interactive run.
    pub default_it_cmd: String,
}

impl Default for TuiConfig {
    fn default() -> (r: Self)
        ensures
            r.default_image@ == "alpine"@,
            r.default_it_cmd@ == "/bin/sh"@,
    {
        TuiConfig { default_image: "alpine".to_string(), default_it_cmd: "/bin/sh".to_string() }
    }
}

/// The key and the value that a line assigns.
///
/// A line assigns `value` to `key` where it reads `key = value`. White space around the line, the
/// key and the value does not count. A line that is empty, begins with `#` or has no `=` assigns
/// nothing.
pub open spec fn assignment(line: Seq<char>) -> Option<(Seq<char>, Seq<char>)> {
    let l = crate::text::trimmed(line);
    if l.len() == 0 || l[0] == '#' {
        None
    } else {
        match crate::text::split_at_first(l, '=') {
            Some((key, value)) => Some((crate::text::trimmed(key), crate::text::trimmed(value))),
            None => None,
        }
    }
}

/// The value that the last of `lines` to assign `key` gives it.
pub open spec fn setting(lines: Seq<Seq<char>>, key: Seq<char>) -> Option<Seq<char>>
    decreases lines.len(),
{
    if lines.len() == 0 {
        None
    } else {
        match assignment(lines.last()) {
            Some((k, value)) if k == key => Some(value),
            _ => setting(lines.drop_last(), key),
        }
    }
}

/// The value of `key`, or `fallback` where nothing assigns it.
pub open spec fn setting_or(
    lines: Seq<Seq<char>>,
    key: Seq<char>,
    fallback: Seq<char>,
) -> Seq<char> {
    match setting(lines, key) {
        Some(value) => value,
        None => fallback,
    }
}

/// Reads the key and the value that a line assigns.
fn read_assignment<'a>(line: &'a str) -> (r: Option<(&'a str, &'a str)>)
    ensures
        match r {
            Some((key, value)) => assignment(line@) == Some((key@, value@)),
            None => assignment(line@) is None,
        },
{
    let l = trim(line);
    if l.is_empty() || l.get_char(0) == '#' {
        return None;
    }
    match split_once(l, '=') {
        Some((key, value)) => Some((trim(key), trim(value))),
        None => None,
    }
}

impl TuiConfig {
    /// The configuration that `contents`, the text of `tui.conf`, gives; the built-in defaults
    /// where there is no such text.
    pub fn load(contents: Option<&str>) -> (r: TuiConfig)
        ensures
            match contents {
                Some(text) => {
                    let lines = crate::text::lines_of(text@);
                    &&& r.default_image@ == setting_or(lines, "default_image"@, "alpine"@)
                    &&& r.default_it_cmd@ == setting_or(lines, "default_it_cmd"@, "/bin/sh"@)
                },
                None => r.default_image@ == "alpine"@ && r.default_it_cmd@ == "/bin/sh"@,
            },
    {
        let mut cfg = TuiConfig::default();
        let text = match contents {
            Some(t) => t,
            None => {
                return cfg;
            },
        };
        let all = lines(text);
        let ghost rows = all.deep_view();
        let mut i: usize = 0;
        while i < all.len()
            invariant
                rows == all.deep_view(),
                i <= all@.len(),
                cfg.default_image@ == setting_or(
                    rows.take(i as int),
                    "default_image"@,
                    "alpine"@,
                ),
                cfg.default_it_cmd@ == setting_or(
                    rows.take(i as int),
                    "default_it_cmd"@,
                    "/bin/sh"@,
                ),
            decreases all@.len() - i,
        {
            proof {
                reveal_strlit("default_image");
                reveal_strlit("default_it_cmd");
                assert("default_image"@ != "default_it_cmd"@) by {
                    assert("default_image"@.len() != "default_it_cmd"@.len());
                }
                assert(rows.take(i + 1).drop_last() =~= rows.take(i as int));
                assert(rows.take(i + 1).last() == all@[i as int]@);
            }
            if let Some((key, value)) = read_assignment(all[i]) {
                if str_eq(key, "default_image") {
                    cfg.default_image = value.to_string();
                } else if str_eq(key, "default_it_cmd") {
                    cfg.default_it_cmd = value.to_string();
                }
            }
            i += 1;
        }
        assert(rows.take(i as int) =~= rows);
        cfg
    }
}

/// The path of a profile's `tui.conf`.
pub open spec fn path_of_config(
    profile: Seq<char>,
    xdg_data_home: Option<Seq<char>>,
    home: Option<Seq<char>>,
) -> Seq<char> {
    crate::paths::joined_path(
        crate::paths::dir_of_profile(crate::paths::base_dir(xdg_data_home, home), profile),
        "tui.conf"@,
    )
}

/// Finds the `tui.conf` of a profile.
pub fn config_path(profile: &str, xdg_data_home: Option<&str>, home: Option<&str>) -> (r: String)
    ensures
        r@ == path_of_config(
            profile@,
            crate::paths::chars_of_option(xdg_data_home),
            crate::paths::chars_of_option(home),
        ),
{
    let base = pelagos_base(xdg_data_home, home);
    let dir = profile_dir(base.as_str(), profile);
    join_path(dir.as_str(), "tui.conf")
}

/// Below the home directory, the `default` profile is configured in
/// `.local/share/pelagos/tui.conf` and any other one in
/// `.local/share/pelagos/profiles/<name>/tui.conf`.
pub proof fn law_config_locations(home: Seq<char>, name: Seq<char>)
    requires
        home.len() > 0,
        home.last() != '/',
        name.len() > 0,
        name[0] != '/',
        name.last() != '/',
        name != "default"@,
    ensures
        path_of_config("default"@, None, Some(home)) == home + "/.local/share/pelagos/tui.conf"@,
        path_of_config(name, None, Some(home)) == home + "/.local/share/pelagos/profiles/"@ + name
            + "/tui.conf"@,
{
    reveal_strlit("/");
    reveal_strlit(".local/share");
    reveal_strlit("pelagos");
    reveal_strlit("profiles");
    reveal_strlit("tui.conf");
    reveal_strlit("/tui.conf");
    reveal_strlit("/.local/share/pelagos/tui.conf");
    reveal_strlit("/.local/share/pelagos/profiles/");
    let base = crate::paths::base_dir(None, Some(home));
    let share = crate::paths::joined_path(home, ".local/share"@);
    assert(share.last() == 'e');
    assert(base =~= home + "/"@ + ".local/share"@ + "/"@ + "pelagos"@);
    assert(base.last() == 's');
    assert(path_of_config("default"@, None, Some(home)) =~= home
        + "/.local/share/pelagos/tui.conf"@);
    let profiles = crate::paths::joined_path(base, "profiles"@);
    assert(profiles.last() == 's');
    let dir = crate::paths::joined_path(profiles, name);
    assert(dir.last() == name.last());
    assert(path_of_config(name, None, Some(home)) =~= home + "/.local/share/pelagos/profiles/"@
        + name + "/tui.conf"@);
}

/// A line that does not assign `key` can be put in or left out anywhere.
pub proof fn law_other_lines_do_not_matter(
    before: Seq<Seq<char>>,
    line: Seq<char>,
    after: Seq<Seq<char>>,
    key: Seq<char>,
)
    requires
        assignment(line) is Some ==> (assignment(line)->0).0 != key,
    ensures
        setting(before + seq![line] + after, key) == setting(before + after, key),
    decreases after.len(),
{
    let with = before + seq![line] + after;
    if after.len() == 0 {
        assert(with.drop_last() =~= before);
        assert(before + after =~= before);
    } else {
        assert(with.drop_last() =~= before + seq![line] + after.drop_last());
        assert((before + after).drop_last() =~= before + after.drop_last());
        law_other_lines_do_not_matter(before, line, after.drop_last(), key);
    }
}

/// Of several lines that assign `key`, the last one counts.
pub proof fn law_last_assignment_counts(
    before: Seq<Seq<char>>,
    line: Seq<char>,
    after: Seq<Seq<char>>,
    key: Seq<char>,
    value: Seq<char>,
)
    requires
        assignment(line) == Some((key, value)),
        setting(after, key) is None,
    ensures
        setting(before + seq![line] + after, key) == Some(value),
    decreases after.len(),
{
    let all = before + seq![line] + after;
    if after.len() == 0 {
        assert(all.last() == line);
    } else {
        assert(all.drop_last() =~= before + seq![line] + after.drop_last());
        law_last_assignment_counts(before, line, after.drop_last(), key, value);
    }
}

/// A line assigns what stands behind its first `=` to what stands before it, whatever white space
/// stands around either.
pub proof fn law_first_equals_sign_assigns(
    a: Seq<char>,
    key: Seq<char>,
    b: Seq<char>,
    c: Seq<char>,
    value: Seq<char>,
    d: Seq<char>,
)
    requires
        forall|i: int| 0 <= i < a.len() ==> crate::text::whitespace(#[trigger] a[i]),
        forall|i: int| 0 <= i < b.len() ==> crate::text::whitespace(#[trigger] b[i]),
        forall|i: int| 0 <= i < c.len() ==> crate::text::whitespace(#[trigger] c[i]),
        forall|i: int| 0 <= i < d.len() ==> crate::text::whitespace(#[trigger] d[i]),
        !key.contains('='),
        key.len() > 0 ==> key[0] != '#' && !crate::text::whitespace(key[0])
            && !crate::text::whitespace(key.last()),
        value.len() > 0 ==> !crate::text::whitespace(value[0]) && !crate::text::whitespace(
            value.last(),
        ),
    ensures
        assignment(a + key + b + seq!['='] + c + value + d) == Some((key, value)),
{
    let empty = Seq::<char>::empty();
    let line = a + key + b + seq!['='] + c + value + d;
    let (before, left) = if key.len() > 0 {
        (a, key + b)
    } else {
        (a + b, empty)
    };
    let (right, after) = if value.len() > 0 {
        (c + value, d)
    } else {
        (empty, c + d)
    };
    let l = left + seq!['='] + right;
    assert(line =~= before + l + after);
    assert(!crate::text::whitespace('='));
    assert(l[0] == if key.len() > 0 {
        key[0]
    } else {
        '='
    });
    assert(l.last() == if value.len() > 0 {
        value.last()
    } else {
        '='
    });
    crate::text::law_trim_keeps_the_text(before, l, after);
    assert(!left.contains('=')) by {
        if left.contains('=') {
            let i = choose|i: int| 0 <= i < left.len() && left[i] == '=';
            if i < key.len() {
                assert(key[i] == '=');
            } else {
                assert(b[i - key.len()] == '=');
            }
        }
    }
    crate::text::law_split_at_first_occurrence(left, '=', right);
    crate::text::law_trim_keeps_the_text(empty, key, b);
    crate::text::law_trim_keeps_the_text(empty, key, empty);
    crate::text::law_trim_keeps_the_text(c, value, empty);
    crate::text::law_trim_keeps_the_text(empty, value, empty);
    assert(empty + key + b =~= key + b);
    assert(empty + key + empty =~= key);
    assert(c + value + empty =~= c + value);
    assert(empty + value + empty =~= value);
    assert(key.len() == 0 ==> left =~= key);
    assert(value.len() == 0 ==> right =~= value);
}

/// The line `key = value` assigns `value` to `key`. The value may hold any character, a further
/// `=`, a `:` or a `#` among them.
pub proof fn law_assignment_reads_back(key: Seq<char>, value: Seq<char>)
    requires
        !key.contains('='),
        key.len() > 0,
        key[0] != '#',
        !crate::text::whitespace(key[0]),
        !crate::text::whitespace(key.last()),
        value.len() > 0 ==> !crate::text::whitespace(value[0]) && !crate::text::whitespace(
            value.last(),
        ),
    ensures
        assignment(key + " = "@ + value) == Some((key, value)),
        assignment(key + "="@ + value) == Some((key, value)),
{
    let empty = Seq::<char>::empty();
    let blank = seq![' '];
    reveal_strlit(" = ");
    reveal_strlit("=");
    law_first_equals_sign_assigns(empty, key, blank, blank, value, empty);
    law_first_equals_sign_assigns(empty, key, empty, empty, value, empty);
    assert(key + " = "@ + value =~= empty + key + blank + seq!['='] + blank + value + empty);
    assert(key + "="@ + value =~= empty + key + empty + seq!['='] + empty + value + empty);
}

/// A line whose first character that is no white space is `#` assigns nothing.
pub proof fn law_comments_assign_nothing(a: Seq<char>, rest: Seq<char>)
    requires
        forall|i: int| 0 <= i < a.len() ==> crate::text::whitespace(#[trigger] a[i]),
    ensures
        assignment(a + seq!['#'] + rest) is None,
{
    crate::text::law_trimmed_begins_with_text(a, '#', rest);
}

/// A line without `=` assigns nothing.
pub proof fn law_lines_without_equals_sign_assign_nothing(line: Seq<char>)
    requires
        !line.contains('='),
    ensures
        assignment(line) is None,
{
    let l = crate::text::trimmed(line);
    if l.contains('=') {
        crate::text::law_trim_adds_nothing(line, '=');
    }
    crate::text::law_split_at_first_occurrence(l, '=', l);
}

proof fn lemma_never_assigned(lines: Seq<Seq<char>>, key: Seq<char>)
    requires
        forall|i: int|
            0 <= i < lines.len() && assignment(#[trigger] lines[i]) is Some ==> (assignment(
                lines[i],
            )->0).0 != key,
    ensures
        setting(lines, key) is None,
    decreases lines.len(),
{
    if lines.len() > 0 {
        assert(lines.last() == lines[lines.len() - 1]);
        assert forall|i: int|
            0 <= i < lines.drop_last().len() && assignment(
                #[trigger] lines.drop_last()[i],
            ) is Some implies (assignment(lines.drop_last()[i])->0).0 != key by {
            assert(lines.drop_last()[i] == lines[i]);
        }
        lemma_never_assigned(lines.drop_last(), key);
    }
}

/// A key that no line assigns has its built-in value. One that a line `key = value` assigns has
/// that value, where no later line assigns it.
pub proof fn law_settings_are_found(
    before: Seq<Seq<char>>,
    key: Seq<char>,
    value: Seq<char>,
    after: Seq<Seq<char>>,
    fallback: Seq<char>,
)
    requires
        !key.contains('='),
        key.len() > 0,
        key[0] != '#',
        !crate::text::whitespace(key[0]),
        !crate::text::whitespace(key.last()),
        value.len() > 0 ==> !crate::text::whitespace(value[0]) && !crate::text::whitespace(
            value.last(),
        ),
        forall|i: int|
            0 <= i < after.len() && assignment(#[trigger] after[i]) is Some ==> (assignment(
                after[i],
            )->0).0 != key,
    ensures
        setting_or(before + seq![key + " = "@ + value] + after, key, fallback) == value,
        setting_or(after, key, fallback) == fallback,
{
    let line = key + " = "@ + value;
    law_assignment_reads_back(key, value);
    lemma_never_assigned(after, key);
    law_last_assignment_counts(before, line, after, key, value);
}

/// A profile is configured in the file `tui.conf` right in its directory.
pub proof fn law_config_lies_in_profile_dir(
    profile: Seq<char>,
    xdg_data_home: Option<Seq<char>>,
    home: Option<Seq<char>>,
)
    ensures
        ({
            let dir = crate::paths::dir_of_profile(
                crate::paths::base_dir(xdg_data_home, home),
                profile,
            );
            path_of_config(profile, xdg_data_home, home) == if dir.len() == 0 || dir.last() == '/' {
                dir + "tui.conf"@
            } else {
                dir + "/tui.conf"@
            }
        }),
{
    reveal_strlit("/");
    reveal_strlit("tui.conf");
    reveal_strlit("/tui.conf");
    let dir = crate::paths::dir_of_profile(crate::paths::base_dir(xdg_data_home, home), profile);
    assert(dir + "/"@ + "tui.conf"@ =~= dir + "/tui.conf"@);
}

} // verus!
