use minishell::search::candidate_path;
use minishell::search::path_candidates;
use minishell::search::resolve_external;
use minishell::search::search_in_path;
use minishell::search::split_path;

#[test]
fn splits_colon_separated_directories() {
    let dirs = split_path("/usr/bin:/bin:/usr/local/bin");
    assert_eq!(dirs, vec!["/usr/bin", "/bin", "/usr/local/bin"]);
}

#[test]
fn keeps_empty_fields() {
    let dirs = split_path("/bin::/sbin:");
    assert_eq!(dirs, vec!["/bin", "", "/sbin", ""]);
}

#[test]
fn empty_path_is_one_empty_field() {
    let dirs = split_path("");
    assert_eq!(dirs, vec![""]);
}

#[test]
fn forms_candidate_path() {
    assert_eq!(candidate_path("/bin", "foo"), "/bin/foo");
}

#[test]
fn candidates_follow_path_order() {
    let cands = path_candidates("/usr/bin:/bin", "foo");
    assert_eq!(cands, vec!["/usr/bin/foo", "/bin/foo"]);
}

#[test]
fn first_existing_candidate_wins() {
    let cands = path_candidates("/usr/bin:/bin", "foo");
    let found = resolve_external(cands, &vec![false, true]);
    assert_eq!(found, Some("/bin/foo".to_string()));
}

#[test]
fn earlier_directory_shadows_later() {
    let found = search_in_path("/usr/bin:/bin", "foo", &vec![true, true]);
    assert_eq!(found, Some("/usr/bin/foo".to_string()));
}

#[test]
fn absent_everywhere_resolves_to_nothing() {
    let found = search_in_path("/usr/bin:/bin", "foo", &vec![false, false]);
    assert_eq!(found, None);
}
