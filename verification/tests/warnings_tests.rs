use zellij_project_sidebar::warnings::load_warnings;

fn pairs(entries: &[(&str, &str)]) -> Vec<(String, String)> {
    entries.iter().map(|(k, v)| (k.to_string(), v.to_string())).collect()
}

#[test]
fn unknown_verbosity_is_warned_about() {
    assert_eq!(
        load_warnings(&pairs(&[("verbosity", "loud"), ("scan_dir", "/p")])),
        vec!["WARNING: Unknown verbosity 'loud', defaulting to 'full'".to_string()]
    );
    assert!(load_warnings(&pairs(&[("verbosity", "minimal")])).is_empty());
    assert!(load_warnings(&pairs(&[("verbosity", "full")])).is_empty());
}

#[test]
fn tilde_paths_and_shared_names_are_warned_about() {
    let warnings = load_warnings(&pairs(&[
        ("project_0", "~/code/app"),
        ("project_1", "/x/app"),
        ("project_2", "/y/api"),
        ("project_3", "/z/app"),
    ]));
    assert_eq!(
        warnings,
        vec![
            "WARNING: project_0 uses tilde path '~/code/app'. Use absolute paths.".to_string(),
            "WARNING: Duplicate project basename 'app'. Session matching will be ambiguous.".to_string(),
            "WARNING: Duplicate project basename 'app'. Session matching will be ambiguous.".to_string(),
        ]
    );
}

#[test]
fn discovery_mode_ignores_configured_projects() {
    assert!(load_warnings(&pairs(&[("scan_dir", "/p"), ("project_0", "~/a"), ("project_1", "~/a")])).is_empty());
}
