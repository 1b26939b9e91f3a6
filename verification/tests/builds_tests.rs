use gogdl_cli::builds::{build_option_label, find_latest_build, list_builds, sort_builds_by_time, GameBuild};

fn b(name: &str, date: &str) -> GameBuild {
    GameBuild { version_name: name.to_string(), date_published: date.to_string() }
}

fn names(v: &[GameBuild]) -> Vec<&str> {
    v.iter().map(|x| x.version_name.as_str()).collect()
}

#[test]
fn builds_are_ordered_latest_first() {
    let builds = vec![
        b("1.0", "2023-05-01T10:00:00+0000"),
        b("2.0", "2024-01-01T00:00:00+0000"),
        b("1.5", "2023-09-15T12:30:00+0000"),
    ];
    assert_eq!(names(&list_builds(builds)), vec!["2.0", "1.5", "1.0"]);
}

#[test]
fn unparseable_dates_are_dropped() {
    let builds = vec![
        b("old", "2020-01-01T00:00:00+0000"),
        b("broken", "yesterday"),
        b("spaced", "2021-01-01 00:00:00+0000"),
    ];
    assert_eq!(names(&list_builds(builds)), vec!["old"]);
}

#[test]
fn offsets_are_taken_into_account() {
    let builds = vec![
        b("utc-midnight", "2024-01-01T00:00:00+0000"),
        b("plus-two", "2024-01-01T01:00:00+0200"),
    ];
    assert_eq!(names(&list_builds(builds)), vec!["utc-midnight", "plus-two"]);
}

#[test]
fn equal_dates_keep_their_order() {
    let builds = vec![
        b("a", "2024-01-01T00:00:00+0000"),
        b("b", "2024-01-01T02:00:00+0200"),
        b("c", "2024-01-01T00:00:00+0000"),
    ];
    assert_eq!(names(&list_builds(builds)), vec!["a", "b", "c"]);
}

#[test]
fn sorting_by_given_instants() {
    let builds = vec![b("x", ""), b("y", ""), b("z", ""), b("w", "")];
    let times = vec![Some((5, 0)), None, Some((7, 0)), Some((5, 1))];
    assert_eq!(names(&sort_builds_by_time(builds, times)), vec!["z", "w", "x"]);
}

#[test]
fn latest_build() {
    let builds = vec![
        b("1.0", "2023-05-01T10:00:00+0000"),
        b("2.0", "2024-01-01T00:00:00+0000"),
        b("2.0b", "2024-01-01T00:00:00+0000"),
    ];
    assert_eq!(find_latest_build(builds).unwrap().version_name, "2.0");
    assert_eq!(find_latest_build(vec![b("x", "bad")]), None);
    assert_eq!(find_latest_build(vec![]), None);
}

#[test]
fn build_menu_lines() {
    let build = b("2.0", "2024-01-01T00:00:00+0000");
    assert_eq!(build_option_label(0, &build, None), "2.0  (2024-01-01T00:00:00+0000)  (latest)");
    assert_eq!(
        build_option_label(0, &build, Some("2.0")),
        "2.0  (2024-01-01T00:00:00+0000)  (latest, installed)"
    );
    assert_eq!(build_option_label(3, &build, Some("2.0")), "2.0  (2024-01-01T00:00:00+0000)  (installed)");
    assert_eq!(build_option_label(3, &build, Some("1.0")), "2.0  (2024-01-01T00:00:00+0000)");
}
