use pushtime::search::{select_config_source, ConfigSource};

#[test]
fn current_dir_beats_parent() {
    let found = select_config_source(&vec![true, true], true);
    assert_eq!(found, Some(ConfigSource::Ancestor(0)));
}

#[test]
fn nearest_ancestor_wins() {
    let found = select_config_source(&vec![false, true, true], false);
    assert_eq!(found, Some(ConfigSource::Ancestor(1)));
}

#[test]
fn home_is_fallback_only() {
    let found = select_config_source(&vec![false, false, false], true);
    assert_eq!(found, Some(ConfigSource::Home));
}

#[test]
fn nothing_found_anywhere() {
    let found = select_config_source(&vec![false, false], false);
    assert_eq!(found, None);
}

#[test]
fn no_ancestors_at_all_falls_to_home() {
    let found = select_config_source(&vec![], true);
    assert_eq!(found, Some(ConfigSource::Home));
}
