use branchyard::config::{RepoCommands, RepoConfig, ServiceConfig, SetupConfig};
use branchyard::ports::{
    interpolate, next_available_slot, ports_fit_check, parse_slot, slot_file_content, slot_or_zero, with_repo_port,
    PortAssignment, VarMap,
};

fn repo(name: &str, serve: Option<&str>) -> RepoConfig {
    RepoConfig {
        name: name.to_string(),
        path: format!("./{name}"),
        commands: RepoCommands { serve: serve.map(|s| s.to_string()), stop: None, setup: None },
        setup: SetupConfig { symlinks: vec![] },
    }
}

fn service(name: &str, image: &str, port: u16) -> ServiceConfig {
    ServiceConfig {
        name: name.to_string(),
        image: image.to_string(),
        port,
        environment: vec![],
        command: None,
        depends_on: vec![],
        volumes: vec![],
        env_file: None,
        platform: None,
        build: None,
    }
}

fn vars_of(pairs: &[(&str, &str)]) -> VarMap {
    let mut v = VarMap::new();
    for (k, val) in pairs {
        v.insert(k.to_string(), val.to_string());
    }
    v
}

#[test]
fn port_layout_doc_example() {
    let p = PortAssignment::new(3000, 1, 2, 2);
    assert_eq!(p.slot, 1);
    assert_eq!(p.repo_ports, vec![3010, 3011]);
    assert_eq!(p.service_ports, vec![3012, 3013]);
}

#[test]
fn port_layout_readme_table() {
    let expected = [[3000, 3001, 3002, 3003], [3010, 3011, 3012, 3013], [3020, 3021, 3022, 3023]];
    for slot in 0..3u16 {
        let p = PortAssignment::new(3000, slot, 2, 2);
        let row = &expected[slot as usize];
        assert_eq!(p.repo_ports, vec![row[0], row[1]]);
        assert_eq!(p.service_ports, vec![row[2], row[3]]);
    }
}

#[test]
fn port_layout_empty_and_edge() {
    let p = PortAssignment::new(8000, 0, 0, 0);
    assert!(p.repo_ports.is_empty());
    assert!(p.service_ports.is_empty());
    let p = PortAssignment::new(65530, 0, 3, 3);
    assert_eq!(p.repo_ports, vec![65530, 65531, 65532]);
    assert_eq!(p.service_ports, vec![65533, 65534, 65535]);
}

#[test]
fn slots_never_conflict_with_ten_ports() {
    let a = PortAssignment::new(3000, 0, 6, 4);
    let b = PortAssignment::new(3000, 1, 6, 4);
    for x in a.repo_ports.iter().chain(a.service_ports.iter()) {
        assert!(!b.repo_ports.contains(x) && !b.service_ports.contains(x));
    }
}

#[test]
fn next_slot_picks_smallest_free() {
    assert_eq!(next_available_slot(&[]), 0);
    assert_eq!(next_available_slot(&[0, 1, 3]), 2);
    assert_eq!(next_available_slot(&[1, 2]), 0);
    assert_eq!(next_available_slot(&[2, 0, 1]), 3);
}

#[test]
fn next_slot_when_all_taken_is_zero() {
    let all: Vec<u16> = (0..=u16::MAX).collect();
    assert_eq!(next_available_slot(&all), 0);
}

#[test]
fn variable_map_has_slug_and_ports() {
    let repos = vec![repo("frontend", None), repo("backend", None)];
    let services = vec![service("postgres", "postgres:16", 5432)];
    let p = PortAssignment::new(3000, 1, 2, 1);
    let vars = p.variable_map("auth-jwt", &repos, &services);
    assert_eq!(vars.len(), 4);
    assert_eq!(vars.get("slug"), Some("auth-jwt".to_string()));
    assert_eq!(vars.get("frontend_port"), Some("3010".to_string()));
    assert_eq!(vars.get("backend_port"), Some("3011".to_string()));
    assert_eq!(vars.get("postgres_port"), Some("3012".to_string()));
    assert_eq!(vars.get("port"), None);
}

#[test]
fn variable_map_service_overrides_repo_of_same_name() {
    let repos = vec![repo("api", None)];
    let services = vec![service("api", "img", 80)];
    let p = PortAssignment::new(4000, 0, 1, 1);
    let vars = p.variable_map("x", &repos, &services);
    assert_eq!(vars.len(), 2);
    assert_eq!(vars.get("api_port"), Some("4001".to_string()));
}

#[test]
fn variable_map_skips_names_without_ports() {
    let repos = vec![repo("a", None), repo("b", None)];
    let p = PortAssignment::new(3000, 0, 1, 0);
    let vars = p.variable_map("s", &repos, &[]);
    assert_eq!(vars.get("a_port"), Some("3000".to_string()));
    assert_eq!(vars.get("b_port"), None);
}

#[test]
fn var_map_insert_replaces_in_place() {
    let mut v = vars_of(&[("a", "1"), ("b", "2")]);
    v.insert("a".to_string(), "3".to_string());
    assert_eq!(v.len(), 2);
    assert_eq!(v.key_at(0), "a");
    assert_eq!(v.value_at(0), "3");
    assert_eq!(v.get("b"), Some("2".to_string()));
    let d = v.duplicate();
    assert_eq!(d.len(), 2);
    assert_eq!(d.get("a"), Some("3".to_string()));
}

#[test]
fn interpolate_readme_commands() {
    let repos = vec![repo("web", None), repo("api", None)];
    let services = vec![service("redis", "redis:7", 6379)];
    let p = PortAssignment::new(8000, 0, 2, 1);
    let vars = p.variable_map("feat", &repos, &services);
    let rv = with_repo_port(&vars, &p, 1);
    assert_eq!(interpolate("python manage.py runserver {port}", &rv), "python manage.py runserver 8001");
    assert_eq!(
        interpolate("python worker.py --redis redis://localhost:{redis_port}", &rv),
        "python worker.py --redis redis://localhost:8002"
    );
    assert_eq!(interpolate("echo 'Worktree {slug} ready'", &vars), "echo 'Worktree feat ready'");
}

#[test]
fn interpolate_keeps_unknown_and_repeats() {
    let vars = vars_of(&[("slug", "s1")]);
    assert_eq!(interpolate("{slug}-{slug}/{other}", &vars), "s1-s1/{other}");
    assert_eq!(interpolate("no placeholders", &vars), "no placeholders");
    assert_eq!(interpolate("", &vars), "");
    assert_eq!(interpolate("{slug", &vars), "{slug");
}

#[test]
fn interpolate_applies_entries_in_order() {
    let vars = vars_of(&[("a", "{b}"), ("b", "x")]);
    assert_eq!(interpolate("{a}", &vars), "x");
    let vars = vars_of(&[("b", "x"), ("a", "{b}")]);
    assert_eq!(interpolate("{a}", &vars), "{b}");
}

#[test]
fn with_repo_port_only_for_repos_with_port() {
    let p = PortAssignment::new(3000, 2, 1, 0);
    let vars = vars_of(&[("slug", "s")]);
    let r0 = with_repo_port(&vars, &p, 0);
    assert_eq!(r0.get("port"), Some("3020".to_string()));
    let r5 = with_repo_port(&vars, &p, 5);
    assert_eq!(r5.get("port"), None);
    assert_eq!(r5.len(), 1);
}

#[test]
fn parse_slot_reads_trimmed_u16() {
    assert_eq!(parse_slot("3"), Some(3));
    assert_eq!(parse_slot("  12 \n"), Some(12));
    assert_eq!(parse_slot("+5"), Some(5));
    assert_eq!(parse_slot("65535"), Some(65535));
    assert_eq!(parse_slot("65536"), None);
    assert_eq!(parse_slot("-1"), None);
    assert_eq!(parse_slot(""), None);
    assert_eq!(parse_slot("+"), None);
    assert_eq!(parse_slot("1 2"), None);
    assert_eq!(parse_slot("abc"), None);
    assert_eq!(parse_slot("\u{3000}7\u{a0}"), Some(7));
    assert_eq!(parse_slot("00042"), Some(42));
}

#[test]
fn slot_or_zero_defaults() {
    assert_eq!(slot_or_zero(None), 0);
    assert_eq!(slot_or_zero(Some("junk")), 0);
    assert_eq!(slot_or_zero(Some("4\n")), 4);
}

#[test]
fn slot_file_round_trip() {
    for slot in [0u16, 1, 9, 10, 99, 12345, 65535] {
        let written = slot_file_content(slot);
        assert_eq!(written, slot.to_string());
        assert_eq!(slot_or_zero(Some(&written)), slot);
    }
}

#[test]
fn port_layout_largest_counts() {
    let p = PortAssignment::new(0, 0, 65536, 0);
    assert_eq!(p.repo_ports.len(), 65536);
    assert_eq!(p.repo_ports[65535], 65535);
    let p = PortAssignment::new(0, 0, 0, 65536);
    assert_eq!(p.service_ports[0], 0);
    assert_eq!(p.service_ports[65535], 65535);
    let p = PortAssignment::new(65535, 1, 0, 0);
    assert_eq!(p.slot, 1);
    assert!(p.repo_ports.is_empty());
}

#[test]
fn ports_fit_exactly_when_no_overflow() {
    assert!(ports_fit_check(0, 0, 65536, 0));
    assert!(!ports_fit_check(0, 0, 65537, 0));
    assert!(!ports_fit_check(1, 0, 65536, 0));
    assert!(ports_fit_check(65535, 1, 0, 0));
    assert!(!ports_fit_check(0, 6554, 0, 0));
    assert!(ports_fit_check(0, 6553, 5, 0));
    assert!(!ports_fit_check(0, 6553, 7, 0));
    assert!(ports_fit_check(3000, 0, 2, 2));
    assert!(!ports_fit_check(65534, 0, 1, 2));
    assert!(!ports_fit_check(0, 0, usize::MAX, 1));
}

#[test]
fn workspace_variable_added() {
    let repos = vec![repo("web", None)];
    let p = PortAssignment::new(3000, 0, 1, 0);
    let vars = p.workspace_variables("s", &repos, &[], "/ws");
    assert_eq!(vars.get("workspace"), Some("/ws".to_string()));
    assert_eq!(vars.get("web_port"), Some("3000".to_string()));
    assert_eq!(interpolate("cd {workspace} && echo {slug}", &vars), "cd /ws && echo s");
}
