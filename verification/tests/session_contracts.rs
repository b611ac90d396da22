use workroot::session::{parse_tmux_list_panes, sanitize_tmux_session_name};

#[test]
fn tmux_names_avoid_separator_and_truncation_collisions() {
    let slash = sanitize_tmux_session_name("jam", "auth/flow");
    let underscore = sanitize_tmux_session_name("jam", "auth_flow");
    assert_ne!(slash, underscore);
    assert!(!slash.contains(':'));
    assert!(slash.len() <= 80);

    let long_a = sanitize_tmux_session_name("repo", &format!("{}a", "x".repeat(120)));
    let long_b = sanitize_tmux_session_name("repo", &format!("{}b", "x".repeat(120)));
    assert_ne!(long_a, long_b);
    assert!(long_a.len() <= 80);
    assert!(long_b.len() <= 80);
}

#[test]
fn parses_tmux_list_panes_inventory() {
    let panes =
        parse_tmux_list_panes("workroot-jam-base\t/tmp/jam\tmake\nscratch\t/tmp/other src\tbash\nbad-row\n");

    assert_eq!(panes.len(), 2);
    assert_eq!(panes[0].session_name, "workroot-jam-base");
    assert_eq!(panes[0].current_path, "/tmp/jam");
    assert_eq!(panes[0].current_command, "make");
    assert_eq!(panes[1].session_name, "scratch");
    assert_eq!(panes[1].current_path, "/tmp/other src");
    assert_eq!(panes[1].current_command, "bash");
}
