use branchyard::commands::done::{change_preview, file_suffix, parse_pids, sort_names};
use branchyard::commands::init::{
    common_service_labels, find_common_service, multiplexer_from_choice, parse_port_base,
    repo_from_answers, services_from_selection,
};
use branchyard::commands::list::{branch_or_slug, json_entry, json_list};
use branchyard::commands::new::{branchyard_env, port_or, setup_command, symlink_paths};
use branchyard::commands::{column_width, hook_commands};
use branchyard::config::{
    default_worktrees_dir, HooksConfig, Multiplexer, PortConfig, RepoCommands, RepoConfig,
    SetupConfig, SymlinkConfig, TerminalConfig, WtreeConfig, CONFIG_FILE,
};
use branchyard::ports::{PortAssignment, VarMap};
use branchyard::worktree::{
    create_args, delete_branch_args, failure_message, parse_porcelain, remove_args, status_args,
};

fn repo(name: &str, setup: Option<&str>) -> RepoConfig {
    RepoConfig {
        name: name.to_string(),
        path: format!("./{name}"),
        commands: RepoCommands { serve: None, stop: None, setup: setup.map(|s| s.to_string()) },
        setup: SetupConfig { symlinks: vec![] },
    }
}

fn config(dir: &str) -> WtreeConfig {
    WtreeConfig {
        base_branch: "main".to_string(),
        worktrees_dir: dir.to_string(),
        repos: vec![],
        ports: PortConfig { base: 3000 },
        services: vec![],
        terminal: TerminalConfig { multiplexer: Multiplexer::Disabled, autostart: false },
        hooks: HooksConfig { after_new: vec![], after_done: vec![] },
    }
}

#[test]
fn config_defaults_and_paths() {
    assert_eq!(CONFIG_FILE, ".branchyard.yml");
    assert_eq!(default_worktrees_dir(), "./worktrees");
    let c = config("./worktrees");
    assert_eq!(c.worktrees_path("/ws"), "/ws/./worktrees");
    let c = config("/tmp/wt");
    assert_eq!(c.worktrees_path("/ws"), "/tmp/wt");
    assert_eq!(c.repo_path("./my-frontend", "/ws"), "/ws/./my-frontend");
    assert_eq!(c.repo_path("/abs/repo", "/ws"), "/abs/repo");
}

#[test]
fn env_variables() {
    let env = branchyard_env("auth", "feature/auth", "api", "/w/auth/api", 3011);
    let expected = vec![
        ("BRANCHYARD_SLUG".to_string(), "auth".to_string()),
        ("BRANCHYARD_BRANCH".to_string(), "feature/auth".to_string()),
        ("BRANCHYARD_REPO".to_string(), "api".to_string()),
        ("BRANCHYARD_WORKTREE_PATH".to_string(), "/w/auth/api".to_string()),
        ("BRANCHYARD_PORT".to_string(), "3011".to_string()),
    ];
    assert_eq!(env, expected);
}

#[test]
fn setup_commands_and_ports() {
    let repos = vec![repo("api", Some("migrate --port {port} --slug {slug}")), repo("web", None)];
    let p = PortAssignment::new(3000, 0, 2, 0);
    let vars = p.variable_map("s1", &repos, &[]);
    assert_eq!(setup_command(&repos[0], &vars, &p, 0), Some("migrate --port 3000 --slug s1".to_string()));
    assert_eq!(setup_command(&repos[1], &vars, &p, 1), None);
    assert_eq!(port_or(&p.repo_ports, 1, 0), 3001);
    assert_eq!(port_or(&p.repo_ports, 7, 0), 0);
    assert_eq!(port_or(&p.service_ports, 0, 5432), 5432);
}

#[test]
fn symlink_targets() {
    let link = SymlinkConfig { from: "./my-frontend/node_modules".to_string(), to: "node_modules".to_string() };
    let (from, to) = symlink_paths("/ws", "/ws/worktrees/s/frontend", &link);
    assert_eq!(from, "/ws/./my-frontend/node_modules");
    assert_eq!(to, "/ws/worktrees/s/frontend/node_modules");
}

#[test]
fn hooks_are_interpolated() {
    let mut vars = VarMap::new();
    vars.insert("slug".to_string(), "auth".to_string());
    let hooks = vec!["echo 'Worktree {slug} ready'".to_string(), "true".to_string()];
    assert_eq!(hook_commands(&hooks, &vars), vec!["echo 'Worktree auth ready'", "true"]);
}

#[test]
fn column_widths() {
    assert_eq!(column_width(&vec![], 8, 7), 8);
    assert_eq!(column_width(&vec![], 7, 7), 7);
    assert_eq!(column_width(&vec!["api".to_string()], 8, 7), 7);
    assert_eq!(column_width(&vec!["api".to_string(), "frontend-app".to_string()], 8, 7), 12);
    assert_eq!(column_width(&vec!["é".to_string()], 4, 1), 2);
}

#[test]
fn list_json_output() {
    let repos = vec![repo("web", None), repo("api", None)];
    let p = PortAssignment::new(3000, 1, 2, 0);
    let e = json_entry("auth", "feature/auth", 1, &repos, &p);
    assert_eq!(e, "{\"slug\":\"auth\",\"branch\":\"feature/auth\",\"slot\":1,\"ports\":{\"web\":3010,\"api\":3011}}");
    let e2 = json_entry("x", "x", 0, &vec![], &PortAssignment::new(3000, 0, 0, 0));
    assert_eq!(e2, "{\"slug\":\"x\",\"branch\":\"x\",\"slot\":0,\"ports\":{}}");
    assert_eq!(json_list(&vec![]), "[]");
    assert_eq!(json_list(&vec![e2.clone(), e2.clone()]), format!("[{e2},{e2}]"));
}

#[test]
fn branch_file_reading() {
    assert_eq!(branch_or_slug(Some("feature/auth\n"), "auth"), "feature/auth");
    assert_eq!(branch_or_slug(None, "auth"), "auth");
    assert_eq!(branch_or_slug(Some("  "), "auth"), "");
}

#[test]
fn pids_from_lsof() {
    assert_eq!(parse_pids("123\n 456 \nabc\n\n4294967296\n7"), vec![123, 456, 7]);
    assert_eq!(parse_pids(""), Vec::<u32>::new());
}

#[test]
fn done_targets_sorted() {
    let names = vec!["zeta".to_string(), "auth".to_string(), "Beta".to_string(), "auth-2".to_string()];
    let mut expected = names.clone();
    expected.sort();
    assert_eq!(sort_names(names), expected);
    assert_eq!(sort_names(vec![]), Vec::<String>::new());
}

#[test]
fn init_wizard_helpers() {
    assert_eq!(
        common_service_labels(),
        vec!["postgres", "mysql", "redis", "mongodb", "kafka", "elasticsearch", "minio"]
    );
    assert_eq!(find_common_service("redis"), Some(("redis:7".to_string(), 6379)));
    assert_eq!(find_common_service("nope"), None);
    let svcs = services_from_selection(&vec!["kafka".to_string(), "bogus".to_string(), "postgres".to_string()]);
    assert_eq!(svcs.len(), 2);
    assert_eq!(svcs[0].name, "kafka");
    assert_eq!(svcs[0].image, "confluentinc/cp-kafka:7");
    assert_eq!(svcs[0].port, 9092);
    assert_eq!(svcs[1].name, "postgres");
    assert_eq!(svcs[1].port, 5432);
    assert!(svcs[1].environment.is_empty() && svcs[1].build.is_none());
    assert_eq!(multiplexer_from_choice("warp"), Multiplexer::Warp);
    assert_eq!(multiplexer_from_choice("iterm2"), Multiplexer::Iterm2);
    assert_eq!(multiplexer_from_choice("tmux"), Multiplexer::Tmux);
    assert_eq!(multiplexer_from_choice("ghostty"), Multiplexer::Ghostty);
    assert_eq!(multiplexer_from_choice("none"), Multiplexer::Disabled);
    assert_eq!(parse_port_base("3000"), 3000);
    assert_eq!(parse_port_base("8080"), 8080);
    assert_eq!(parse_port_base(" 8080"), 3000);
    assert_eq!(parse_port_base("99999"), 3000);
    let r = repo_from_answers("web".to_string(), "./web".to_string(), Some(String::new()), Some("npm ci".to_string()));
    assert_eq!(r.name, "web");
    assert_eq!(r.path, "./web");
    assert!(r.commands.serve.is_none());
    assert!(r.commands.stop.is_none());
    assert_eq!(r.commands.setup.as_deref(), Some("npm ci"));
    assert!(r.setup.symlinks.is_empty());
}

#[test]
fn git_arguments() {
    assert_eq!(create_args("/w/s/api", "feat"), vec!["worktree", "add", "/w/s/api", "-b", "feat"]);
    assert_eq!(remove_args("/w/s/api", true), vec!["worktree", "remove", "--force", "/w/s/api"]);
    assert_eq!(remove_args("/w/s/api", false), vec!["worktree", "remove", "/w/s/api"]);
    assert_eq!(status_args(), vec!["status", "--porcelain"]);
    assert_eq!(delete_branch_args("feat"), vec!["branch", "-d", "feat"]);
    assert_eq!(
        failure_message("git worktree add", "fatal: exists\n"),
        "git worktree add failed: fatal: exists"
    );
}

#[test]
fn porcelain_lines() {
    assert_eq!(parse_porcelain(" M src/a.rs\n?? new.txt\n\n   \n"), vec![" M src/a.rs", "?? new.txt"]);
    assert!(parse_porcelain("").is_empty());
}

#[test]
fn branch_file_round_trip() {
    for b in ["main", "feature/auth-jwt", "x"] {
        assert_eq!(branch_or_slug(Some(b), "slug"), b);
    }
}

#[test]
fn dirty_change_preview() {
    assert_eq!(change_preview(0), (0, 0));
    assert_eq!(change_preview(3), (3, 0));
    assert_eq!(change_preview(5), (5, 0));
    assert_eq!(change_preview(12), (5, 7));
    assert_eq!(file_suffix(1), "");
    assert_eq!(file_suffix(0), "s");
    assert_eq!(file_suffix(2), "s");
}
