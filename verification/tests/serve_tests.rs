use branchyard::commands::serve::{repo_runs, serve_plan, stop_runs, CommandKind, ServePlan};
use branchyard::config::{
    HooksConfig, Multiplexer, PortConfig, RepoCommands, RepoConfig, SetupConfig, TerminalConfig,
    WtreeConfig,
};
use branchyard::ports::PortAssignment;
use branchyard::terminal::{TerminalPlan, UserDirs};

fn repo(name: &str, serve: Option<&str>, stop: Option<&str>) -> RepoConfig {
    RepoConfig {
        name: name.to_string(),
        path: format!("./{name}"),
        commands: RepoCommands {
            serve: serve.map(|s| s.to_string()),
            stop: stop.map(|s| s.to_string()),
            setup: None,
        },
        setup: SetupConfig { symlinks: vec![] },
    }
}

fn config(multiplexer: Multiplexer, autostart: bool) -> WtreeConfig {
    WtreeConfig {
        base_branch: "main".to_string(),
        worktrees_dir: "./worktrees".to_string(),
        repos: vec![
            repo("web", Some("npm run dev -- --port {port}"), None),
            repo("api", None, Some("kill-api {slug}")),
            repo("worker", Some("run {workspace}"), Some("stop {port}")),
        ],
        ports: PortConfig { base: 3000 },
        services: vec![],
        terminal: TerminalConfig { multiplexer, autostart },
        hooks: HooksConfig { after_new: vec![], after_done: vec![] },
    }
}

fn no_dirs() -> UserDirs {
    UserDirs { home: None, documents: None }
}

#[test]
fn serve_runs_detached_without_autostart() {
    let c = config(Multiplexer::Tmux, false);
    let p = PortAssignment::new(3000, 1, 3, 0);
    let vars = p.workspace_variables("s", &c.repos, &c.services, "/ws");
    match serve_plan("s", "feat", &c, "/ws/worktrees", &p, &vars, &no_dirs()) {
        ServePlan::Detached(runs) => {
            assert_eq!(runs.len(), 2);
            assert_eq!(runs[0].repo, "web");
            assert_eq!(runs[0].dir, "/ws/worktrees/s/web");
            assert_eq!(runs[0].command, "npm run dev -- --port 3010");
            assert_eq!(runs[0].env[1], ("BRANCHYARD_BRANCH".to_string(), "feat".to_string()));
            assert_eq!(runs[0].env[4], ("BRANCHYARD_PORT".to_string(), "3010".to_string()));
            assert_eq!(runs[1].repo, "worker");
            assert_eq!(runs[1].command, "run /ws");
            assert_eq!(runs[1].env[3], ("BRANCHYARD_WORKTREE_PATH".to_string(), "/ws/worktrees/s/worker".to_string()));
        }
        other => panic!("unexpected plan {other:?}"),
    }
}

#[test]
fn serve_opens_terminal_with_autostart() {
    let c = config(Multiplexer::Tmux, true);
    let p = PortAssignment::new(3000, 0, 3, 0);
    let vars = p.workspace_variables("s", &c.repos, &c.services, "/ws");
    match serve_plan("s", "s", &c, "/ws/worktrees", &p, &vars, &no_dirs()) {
        ServePlan::Terminal(TerminalPlan::RunTmux { first_required, .. }) => assert!(first_required),
        other => panic!("unexpected plan {other:?}"),
    }
    let c = config(Multiplexer::Disabled, true);
    assert!(matches!(
        serve_plan("s", "s", &c, "/ws/worktrees", &p, &vars, &no_dirs()),
        ServePlan::Detached(_)
    ));
}

#[test]
fn stop_runs_only_stop_commands() {
    let c = config(Multiplexer::Disabled, false);
    let p = PortAssignment::new(3000, 0, 3, 0);
    let vars = p.workspace_variables("s", &c.repos, &c.services, "/ws");
    let runs = stop_runs("s", "b", &c, "/w", &p, &vars);
    assert_eq!(runs.len(), 2);
    assert_eq!(runs[0].repo, "api");
    assert_eq!(runs[0].command, "kill-api s");
    assert_eq!(runs[1].repo, "worker");
    assert_eq!(runs[1].command, "stop 3002");
    assert_eq!(repo_runs(CommandKind::Serve, "s", "b", &c, "/w", &p, &vars).len(), 2);
}
