use branchyard::config::{
    HooksConfig, Multiplexer, PortConfig, RepoCommands, RepoConfig, ServiceConfig, SetupConfig,
    TerminalConfig, WtreeConfig,
};
use branchyard::docker::{collect_named_volumes, compose_args, generate_override, volume_name_of, OVERRIDE_FILE};
use branchyard::ports::PortAssignment;

fn service(name: &str, image: &str, port: u16) -> ServiceConfig {
    ServiceConfig {
        name: name.to_string(),
        image: image.to_string(),
        port,
        environment: vec![],
        command: None,
        depends_on: vec![],
        volumes: vec![],
        env_file: None,
        platform: None,
        build: None,
    }
}

fn repo(name: &str) -> RepoConfig {
    RepoConfig {
        name: name.to_string(),
        path: format!("./{name}"),
        commands: RepoCommands { serve: None, stop: None, setup: None },
        setup: SetupConfig { symlinks: vec![] },
    }
}

fn readme_config() -> WtreeConfig {
    let mut pg = service("postgres", "postgres:16", 5432);
    pg.environment = vec!["POSTGRES_PASSWORD=postgres".to_string()];
    let redis = service("redis", "redis:7", 6379);
    let mut web = service("web", "my-app:latest", 3000);
    web.build = Some("./my-backend".to_string());
    web.command = Some("bundle exec rails s -p 3000 -b 0.0.0.0".to_string());
    web.env_file = Some("./my-backend/.env".to_string());
    web.volumes = vec!["bundle_cache:/usr/local/bundle".to_string()];
    web.depends_on = vec!["postgres".to_string(), "redis".to_string()];
    WtreeConfig {
        base_branch: "main".to_string(),
        worktrees_dir: "./worktrees".to_string(),
        repos: vec![repo("frontend"), repo("backend")],
        ports: PortConfig { base: 3000 },
        services: vec![pg, redis, web],
        terminal: TerminalConfig { multiplexer: Multiplexer::Disabled, autostart: false },
        hooks: HooksConfig { after_new: vec![], after_done: vec![] },
    }
}

#[test]
fn compose_file_for_readme_services() {
    let c = readme_config();
    let p = PortAssignment::new(3000, 0, 2, 3);
    let out = generate_override("auth-jwt", &c, &p, "/ws");
    let expected = "services:
  \"postgres\":
    image: \"postgres:16\"
    container_name: \"auth-jwt-postgres\"
    ports:
      - \"3002:5432\"
    environment:
      - \"POSTGRES_PASSWORD=postgres\"
  \"redis\":
    image: \"redis:7\"
    container_name: \"auth-jwt-redis\"
    ports:
      - \"3003:6379\"
  \"web\":
    image: \"my-app:latest\"
    build: \"/ws/./my-backend\"
    container_name: \"auth-jwt-web\"
    command: \"bundle exec rails s -p 3000 -b 0.0.0.0\"
    ports:
      - \"3004:3000\"
    env_file:
      - \"/ws/./my-backend/.env\"
    volumes:
      - \"bundle_cache:/usr/local/bundle\"
    depends_on:
      - \"postgres\"
      - \"redis\"
volumes:
  \"bundle_cache\": {}
";
    assert_eq!(out, expected);
}

#[test]
fn compose_service_without_port_or_slot_port() {
    let mut c = readme_config();
    c.services = vec![service("worker", "w:1", 0), service("db", "d:1", 5432)];
    let p = PortAssignment::new(3000, 0, 0, 1);
    let out = generate_override("s", &c, &p, "/ws");
    assert_eq!(
        out,
        "services:\n  \"worker\":\n    image: \"w:1\"\n    container_name: \"s-worker\"\n  \"db\":\n    image: \"d:1\"\n    container_name: \"s-db\"\n    ports:\n      - \"5432:5432\"\n"
    );
}

#[test]
fn quoting_in_compose_values() {
    let mut c = readme_config();
    let mut svc = service("x", "img", 0);
    svc.command = Some("sh -c \"echo \\\\ok\"".to_string());
    svc.platform = Some("linux/amd64".to_string());
    c.services = vec![svc];
    let p = PortAssignment::new(3000, 0, 0, 1);
    let out = generate_override("s", &c, &p, "/ws");
    assert!(out.contains("    platform: \"linux/amd64\"\n"));
    assert!(out.contains("    command: \"sh -c \\\"echo \\\\\\\\ok\\\"\"\n"));
}

#[test]
fn named_volumes_detection() {
    assert_eq!(volume_name_of("data:/var/lib"), Some("data".to_string()));
    assert_eq!(volume_name_of("./data:/var/lib"), None);
    assert_eq!(volume_name_of("/abs:/var/lib"), None);
    assert_eq!(volume_name_of("~/h:/x"), None);
    assert_eq!(volume_name_of("/only/container/path"), None);
    assert_eq!(volume_name_of(":x"), None);
    let mut a = service("a", "i", 0);
    a.volumes = vec!["v1:/x".to_string(), "./b:/y".to_string(), "v2:/z:ro".to_string()];
    let mut b = service("b", "i", 0);
    b.volumes = vec!["v1:/w".to_string(), "v3:/q".to_string()];
    assert_eq!(collect_named_volumes(&vec![a, b]), vec!["v1", "v2", "v3"]);
}

#[test]
fn compose_commands() {
    assert_eq!(OVERRIDE_FILE, "docker-compose.override.yml");
    assert_eq!(
        compose_args("s", "/w/s/docker-compose.override.yml", true),
        vec!["compose", "-f", "/w/s/docker-compose.override.yml", "-p", "s", "up", "-d"]
    );
    assert_eq!(
        compose_args("s", "/w/s/docker-compose.override.yml", false),
        vec!["compose", "-f", "/w/s/docker-compose.override.yml", "-p", "s", "down"]
    );
}

#[test]
fn container_names_differ_between_worktrees() {
    let c = readme_config();
    let p = PortAssignment::new(3000, 0, 2, 3);
    let a = generate_override("auth", &c, &p, "/ws");
    let b = generate_override("billing", &c, &PortAssignment::new(3000, 1, 2, 3), "/ws");
    assert!(a.contains("container_name: \"auth-postgres\""));
    assert!(b.contains("container_name: \"billing-postgres\""));
    assert!(!b.contains("auth-postgres"));
    assert!(b.contains("\"3012:5432\""));
}
