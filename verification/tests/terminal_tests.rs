use branchyard::config::{
    HooksConfig, Multiplexer, PortConfig, RepoCommands, RepoConfig, SetupConfig, TerminalConfig,
    WtreeConfig,
};
use branchyard::ports::PortAssignment;
use branchyard::terminal::{
    iterm2, open, open_if_autostart, remove, resolve, tmux, warp, Integration, Iterm2,
    TerminalIntegration, TerminalPlan, UserDirs, Warp,
};

fn dirs() -> UserDirs {
    UserDirs { home: Some("/home/u".to_string()), documents: Some("/home/u/Documents".to_string()) }
}

fn repo(name: &str, serve: Option<&str>) -> RepoConfig {
    RepoConfig {
        name: name.to_string(),
        path: format!("./{name}"),
        commands: RepoCommands { serve: serve.map(|s| s.to_string()), stop: None, setup: None },
        setup: SetupConfig { symlinks: vec![] },
    }
}

fn config(multiplexer: Multiplexer, autostart: bool) -> WtreeConfig {
    WtreeConfig {
        base_branch: "main".to_string(),
        worktrees_dir: "./worktrees".to_string(),
        repos: vec![
            repo("frontend", Some("npm run dev -- --port {port}")),
            repo("backend", None),
        ],
        ports: PortConfig { base: 3000 },
        services: vec![],
        terminal: TerminalConfig { multiplexer, autostart },
        hooks: HooksConfig { after_new: vec![], after_done: vec![] },
    }
}

#[test]
fn warp_launch_configuration() {
    let c = config(Multiplexer::Warp, false);
    let p = PortAssignment::new(3000, 0, 2, 0);
    let vars = p.variable_map("auth", &c.repos, &c.services);
    let out = warp::generate("auth", &c, "/ws/worktrees", &p, &vars);
    assert_eq!(
        out,
        "---\nname: branchyard · auth\ntabs:\n  - title: \"frontend · auth\"\n    directory: /ws/worktrees/auth/frontend\n    commands:\n      - npm run dev -- --port 3000\n  - title: \"backend · auth\"\n    directory: /ws/worktrees/auth/backend\n"
    );
}

#[test]
fn warp_paths() {
    assert_eq!(
        warp::launch_config_path_in(Some("/home/u/Documents"), "s"),
        "/home/u/Documents/Warp/Launch Configurations/branchyard-s.yaml"
    );
    assert_eq!(
        warp::launch_config_path_in(None, "s"),
        "./Warp/Launch Configurations/branchyard-s.yaml"
    );
}

#[test]
fn iterm2_dynamic_profile() {
    let c = config(Multiplexer::Iterm2, false);
    let p = PortAssignment::new(3000, 0, 2, 0);
    let vars = p.variable_map("auth", &c.repos, &c.services);
    let out = iterm2::generate("auth", &c, "/ws/worktrees", &p, &vars);
    assert_eq!(
        out,
        "{\n  \"Profiles\": [\n    {\n      \"Name\": \"frontend · auth\",\n      \"Guid\": \"branchyard-auth-frontend\",\n      \"Working Directory\": \"/ws/worktrees/auth/frontend\",\n      \"Initial Text\": \"npm run dev -- --port 3000\",\n      \"Custom Directory\": \"Yes\"\n    },\n    {\n      \"Name\": \"backend · auth\",\n      \"Guid\": \"branchyard-auth-backend\",\n      \"Working Directory\": \"/ws/worktrees/auth/backend\",\n      \"Custom Directory\": \"Yes\"\n    }\n  ]\n}"
    );
}

#[test]
fn iterm2_empty_profile_list() {
    let mut c = config(Multiplexer::Iterm2, false);
    c.repos.clear();
    let p = PortAssignment::new(3000, 0, 0, 0);
    let vars = p.variable_map("x", &c.repos, &c.services);
    assert_eq!(iterm2::generate("x", &c, "/w", &p, &vars), "{\n  \"Profiles\": [\n\n  ]\n}");
}

#[test]
fn iterm2_escapes_commands() {
    assert_eq!(iterm2::escape("echo \"a\\b\""), "echo \\\"a\\\\b\\\"");
    assert_eq!(iterm2::escape("plain"), "plain");
}

#[test]
fn iterm2_paths() {
    assert_eq!(
        iterm2::profile_path_in(Some("/Users/u"), "s"),
        "/Users/u/Library/Application Support/iTerm2/DynamicProfiles/branchyard-s.json"
    );
}

#[test]
fn tmux_open_commands() {
    let c = config(Multiplexer::Tmux, false);
    let p = PortAssignment::new(3000, 1, 2, 0);
    let vars = p.variable_map("auth", &c.repos, &c.services);
    let cmds = tmux::open_session_commands("auth", &c, "/ws/worktrees", &p, &vars);
    let expected: Vec<Vec<&str>> = vec![
        vec!["new-session", "-d", "-s", "branchyard-auth"],
        vec!["rename-window", "-t", "branchyard-auth:0", "frontend · auth"],
        vec!["send-keys", "-t", "branchyard-auth:0", "cd /ws/worktrees/auth/frontend && clear", "Enter"],
        vec!["send-keys", "-t", "branchyard-auth:0", "npm run dev -- --port 3010", "Enter"],
        vec!["new-window", "-t", "branchyard-auth", "-n", "backend · auth"],
        vec!["send-keys", "-t", "branchyard-auth:1", "cd /ws/worktrees/auth/backend && clear", "Enter"],
        vec!["attach-session", "-t", "branchyard-auth"],
    ];
    assert_eq!(cmds, expected);
    let kill = tmux::remove_session_commands("auth");
    assert_eq!(kill, vec![vec!["kill-session", "-t", "branchyard-auth"]]);
}

#[test]
fn resolve_each_multiplexer() {
    assert_eq!(resolve(&Multiplexer::Disabled), None);
    assert_eq!(resolve(&Multiplexer::Warp), Some(Integration::Warp));
    assert_eq!(resolve(&Multiplexer::Iterm2), Some(Integration::Iterm2));
    assert_eq!(resolve(&Multiplexer::Tmux), Some(Integration::Tmux));
    assert_eq!(resolve(&Multiplexer::Ghostty), Some(Integration::Ghostty));
}

#[test]
fn open_and_remove_plans() {
    let p = PortAssignment::new(3000, 0, 2, 0);
    let c = config(Multiplexer::Disabled, true);
    let vars = p.variable_map("s", &c.repos, &c.services);
    assert!(open("s", &c, "/w", &p, &vars, &dirs()).is_none());
    assert!(remove("s", &c, &dirs()).is_none());

    let c = config(Multiplexer::Tmux, false);
    match open("s", &c, "/w", &p, &vars, &dirs()) {
        Some(TerminalPlan::RunTmux { commands, first_required }) => {
            assert!(first_required);
            assert_eq!(commands[0], vec!["new-session", "-d", "-s", "branchyard-s"]);
        }
        other => panic!("unexpected plan {other:?}"),
    }
    match remove("s", &c, &dirs()) {
        Some(TerminalPlan::RunTmux { first_required, .. }) => assert!(!first_required),
        other => panic!("unexpected plan {other:?}"),
    }
    assert!(open_if_autostart("s", &c, "/w", &p, &vars, &dirs()).is_none());

    let c = config(Multiplexer::Warp, true);
    match open_if_autostart("s", &c, "/w", &p, &vars, &dirs()) {
        Some(TerminalPlan::WriteConfig { path, content, app }) => {
            assert_eq!(app, "Warp");
            assert_eq!(path, "/home/u/Documents/Warp/Launch Configurations/branchyard-s.yaml");
            assert!(content.starts_with("---\nname: branchyard · s\n"));
        }
        other => panic!("unexpected plan {other:?}"),
    }
    match remove("s", &c, &dirs()) {
        Some(TerminalPlan::RemoveFile { path }) => {
            assert_eq!(path, "/home/u/Documents/Warp/Launch Configurations/branchyard-s.yaml")
        }
        other => panic!("unexpected plan {other:?}"),
    }

    let c = config(Multiplexer::Iterm2, false);
    match open("s", &c, "/w", &p, &vars, &dirs()) {
        Some(TerminalPlan::WriteConfig { path, app, .. }) => {
            assert_eq!(app, "iTerm");
            assert_eq!(path, "/home/u/Library/Application Support/iTerm2/DynamicProfiles/branchyard-s.json");
        }
        other => panic!("unexpected plan {other:?}"),
    }

    let c = config(Multiplexer::Ghostty, false);
    match open("s", &c, "/w", &p, &vars, &dirs()) {
        Some(TerminalPlan::Unsupported { name }) => assert_eq!(name, "ghostty"),
        other => panic!("unexpected plan {other:?}"),
    }
}

#[test]
fn remove_deletes_the_file_open_wrote() {
    let c = config(Multiplexer::Warp, false);
    let p = PortAssignment::new(3000, 0, 2, 0);
    let vars = p.variable_map("auth", &c.repos, &c.services);
    let w = Warp { documents: None };
    let (written, deleted) = match (w.open("auth", &c, "/w", &p, &vars), w.remove("auth")) {
        (TerminalPlan::WriteConfig { path: a, .. }, TerminalPlan::RemoveFile { path: b }) => (a, b),
        other => panic!("unexpected plans {other:?}"),
    };
    assert_eq!(written, "./Warp/Launch Configurations/branchyard-auth.yaml");
    assert_eq!(written, deleted);
    let i = Iterm2 { home: Some("/h".to_string()) };
    match (i.open("auth", &c, "/w", &p, &vars), i.remove("auth"), i.remove("other")) {
        (
            TerminalPlan::WriteConfig { path: a, .. },
            TerminalPlan::RemoveFile { path: b },
            TerminalPlan::RemoveFile { path: o },
        ) => {
            assert_eq!(a, b);
            assert_ne!(a, o);
        }
        other => panic!("unexpected plans {other:?}"),
    }
}
