use pelagos_tui::config::{config_path, TuiConfig};
use pelagos_tui::paths::{join_path, pelagos_base, profile_dir, profiles_dir};
use std::path::Path;

fn loaded(text: &str) -> (String, String) {
    let cfg = TuiConfig::load(Some(text));
    (cfg.default_image, cfg.default_it_cmd)
}

fn pair(image: &str, cmd: &str) -> (String, String) {
    (image.to_string(), cmd.to_string())
}

#[test]
fn missing_file_gives_the_defaults() {
    let cfg = TuiConfig::load(None);
    assert_eq!(cfg.default_image, "alpine");
    assert_eq!(cfg.default_it_cmd, "/bin/sh");
    let built_in = TuiConfig::default();
    assert_eq!(built_in.default_image, "alpine");
    assert_eq!(built_in.default_it_cmd, "/bin/sh");
}

#[test]
fn sample_file_is_read() {
    assert_eq!(
        loaded("# tui.conf\ndefault_image  = debian\ndefault_it_cmd = /bin/bash -l\n"),
        pair("debian", "/bin/bash -l")
    );
}

#[test]
fn missing_keys_fall_back() {
    assert_eq!(loaded(""), pair("alpine", "/bin/sh"));
    assert_eq!(loaded("default_image=x"), pair("x", "/bin/sh"));
    assert_eq!(loaded("default_it_cmd=y"), pair("alpine", "y"));
}

#[test]
fn lines_that_assign_nothing_are_passed_over() {
    assert_eq!(
        loaded("  # default_image = a\n\ndefault_image\nother = b\n= c\nDefault_image = d"),
        pair("alpine", "/bin/sh")
    );
}

#[test]
fn last_assignment_counts() {
    assert_eq!(
        loaded("default_image = a\r\ndefault_image = b = c\r\n#default_image = d"),
        pair("b = c", "/bin/sh")
    );
    assert_eq!(loaded("default_image ="), pair("", "/bin/sh"));
}

#[test]
fn config_locations() {
    assert_eq!(
        config_path("default", None, Some("/home/u")),
        "/home/u/.local/share/pelagos/tui.conf"
    );
    assert_eq!(
        config_path("work", None, Some("/home/u")),
        "/home/u/.local/share/pelagos/profiles/work/tui.conf"
    );
    assert_eq!(config_path("default", Some("/x"), Some("/home/u")), "/x/pelagos/tui.conf");
    assert_eq!(config_path("default", None, None), "/tmp/.local/share/pelagos/tui.conf");
}

#[test]
fn data_directories() {
    assert_eq!(pelagos_base(Some(""), None), "pelagos");
    assert_eq!(profile_dir("/b", "default"), "/b");
    assert_eq!(profile_dir("/b", "x"), "/b/profiles/x");
    assert_eq!(profile_dir("/b", "/abs"), "/abs");
    assert_eq!(profiles_dir(Some("/x"), None), Some("/x/pelagos/profiles".to_string()));
    assert_eq!(
        profiles_dir(None, Some("/h")),
        Some("/h/.local/share/pelagos/profiles".to_string())
    );
    assert_eq!(profiles_dir(None, None), None);
}

#[test]
fn named_profiles_are_where_they_are_listed() {
    for home in ["/h", "/h/", "", "rel"] {
        let listed = profiles_dir(None, Some(home)).unwrap();
        let base = pelagos_base(None, Some(home));
        assert_eq!(profile_dir(&base, "work"), join_path(&listed, "work"));
    }
}

#[test]
fn joining_agrees_with_std() {
    for base in ["", "/", "a", "a/", "/a/b"] {
        for part in ["", "/", "x", "x/", "/x"] {
            assert_eq!(
                join_path(base, part),
                Path::new(base).join(part).to_str().unwrap()
            );
        }
    }
}

#[test]
fn profiles_have_directories_of_their_own() {
    let names = ["default", "a", "b", "", "default2"];
    for a in names {
        assert_eq!(profile_dir("/b", a) == "/b", a == "default");
        for b in names {
            assert_eq!(profile_dir("/b", a) == profile_dir("/b", b), a == b);
        }
    }
}
