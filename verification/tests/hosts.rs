use nettool::helper::hosts::{replace_managed_section, ManagedHostsEntry};
use nettool::net::IpAddr;

fn entry(hostname: &str) -> ManagedHostsEntry {
    ManagedHostsEntry {
        address: IpAddr::v4(192, 0, 2, 1),
        hostname: hostname.to_owned(),
        comment: None,
        enabled: true,
    }
}

#[test]
fn preserves_all_unmanaged_content() {
    let existing = "127.0.0.1 localhost\n# user entry\n203.0.113.2 custom.local\n";
    let updated =
        replace_managed_section(existing, "lab", &[entry("api.lab")]).expect("valid update");
    assert!(updated.starts_with(existing));
    assert!(updated
        .contains("# BEGIN NETTOOL PROFILE lab\n192.0.2.1 api.lab\n# END NETTOOL PROFILE lab"));
}

#[test]
fn replaces_only_matching_managed_section() {
    let existing = "before\n# BEGIN NETTOOL PROFILE lab\n192.0.2.9 old.lab\n# END NETTOOL PROFILE lab\nafter\n";
    let updated =
        replace_managed_section(existing, "lab", &[entry("new.lab")]).expect("valid update");
    assert_eq!(
        updated,
        "before\n# BEGIN NETTOOL PROFILE lab\n192.0.2.1 new.lab\n# END NETTOOL PROFILE lab\nafter\n"
    );
}

#[test]
fn renders_disabled_entry_without_enabling_resolution() {
    let existing = "# BEGIN NETTOOL PROFILE lab\n# END NETTOOL PROFILE lab\n";
    let mut disabled = entry("offline.lab");
    disabled.enabled = false;
    let updated = replace_managed_section(existing, "lab", &[disabled]).expect("valid update");
    assert!(updated.contains("# NETTOOL DISABLED 192.0.2.1 offline.lab"));
}

#[test]
fn rejects_unbalanced_markers() {
    assert!(replace_managed_section("# BEGIN NETTOOL PROFILE lab\n", "lab", &[]).is_err());
}

#[test]
fn replacing_twice_is_replacing_once() {
    let existing = "before\n# BEGIN NETTOOL PROFILE lab\nold\n# END NETTOOL PROFILE lab\nafter\n";
    let once = replace_managed_section(existing, "lab", &[entry("a.lab"), entry("b.lab")])
        .expect("first");
    let twice = replace_managed_section(&once, "lab", &[entry("a.lab"), entry("b.lab")])
        .expect("second");
    assert_eq!(once, twice);
}

#[test]
fn other_profiles_are_left_alone() {
    let other = "# BEGIN NETTOOL PROFILE work\n10.0.0.1 work\n# END NETTOOL PROFILE work\n";
    let updated = replace_managed_section(other, "lab", &[entry("a.lab")]).expect("update");
    assert!(updated.starts_with(other));
}

#[test]
fn invalid_entries_and_profiles_are_refused() {
    assert!(replace_managed_section("", "la b", &[]).is_err());
    assert!(replace_managed_section("", "lab", &[entry("bad host")]).is_err());
    let mut commented = entry("a.lab");
    commented.comment = Some("one\ntwo".to_owned());
    assert!(replace_managed_section("", "lab", &[commented]).is_err());
    let reversed = "# END NETTOOL PROFILE lab\n# BEGIN NETTOOL PROFILE lab\n";
    assert!(replace_managed_section(reversed, "lab", &[]).is_err());
}

#[test]
fn comments_stand_behind_the_name() {
    let mut commented = entry("a.lab");
    commented.comment = Some("primary".to_owned());
    let updated = replace_managed_section("", "lab", &[commented]).expect("update");
    assert!(updated.contains("192.0.2.1 a.lab # primary"));
}

#[test]
fn replacing_again_changes_no_line_of_a_file_that_held_no_section() {
    let entries = [entry("a.lab"), entry("b.lab")];
    for existing in [
        "",
        "127.0.0.1 localhost",
        "127.0.0.1 localhost\n",
        "127.0.0.1 localhost\r\n\r\n",
        "one\r\ntwo\n",
        "one\r",
    ] {
        let once = replace_managed_section(existing, "lab", &entries).expect("first");
        let twice = replace_managed_section(&once, "lab", &entries).expect("second");
        assert!(once.lines().eq(twice.lines()), "{existing:?}");
        assert!(once.contains("# BEGIN NETTOOL PROFILE lab"));
    }
}

#[test]
fn replacing_again_returns_the_same_file_where_line_breaks_are_of_one_kind() {
    let entries = [entry("a.lab"), entry("b.lab")];
    let section = concat_lines(&[
        "# BEGIN NETTOOL PROFILE lab\n",
        "192.0.2.1 a.lab\n192.0.2.1 b.lab\n",
        "# END NETTOOL PROFILE lab\n",
    ]);
    for existing in ["", "one", "one\n", "one\n\n", "one\n \ntwo"] {
        let once = replace_managed_section(existing, "lab", &entries).expect("first");
        assert!(once.starts_with(existing));
        assert!(once.ends_with(&section));
        assert_eq!(
            replace_managed_section(&once, "lab", &entries).expect("second"),
            once
        );
    }
    for existing in ["one\r\n", "one\r\ntwo", "one\r\ntwo\r", "one\rtwo\n"] {
        let once = replace_managed_section(existing, "lab", &entries).expect("first");
        assert_eq!(
            replace_managed_section(&once, "lab", &entries).expect("second"),
            once
        );
    }
    for existing in ["one\r\ntwo\n", "one\r"] {
        let once = replace_managed_section(existing, "lab", &entries).expect("first");
        assert_ne!(
            replace_managed_section(&once, "lab", &entries).expect("second"),
            once
        );
    }
}

fn concat_lines(parts: &[&str]) -> String {
    parts.concat()
}
