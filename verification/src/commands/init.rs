//! `branchyard init`: turning the wizard's answers into a configuration.
use vstd::prelude::*;

use crate::config::{Multiplexer, RepoCommands, RepoConfig, ServiceConfig, SetupConfig};
use crate::text::{parse_unsigned, parse_unsigned_chars, str_eq, to_chars};

verus! {

/// The services offered by the wizard: image and container port by name.
pub open spec fn common_service(name: Seq<char>) -> Option<(Seq<char>, u16)> {
    if name == "postgres"@ {
        Some(("postgres:16"@, 5432))
    } else if name == "mysql"@ {
        Some(("mysql:8"@, 3306))
    } else if name == "redis"@ {
        Some(("redis:7"@, 6379))
    } else if name == "mongodb"@ {
        Some(("mongo:7"@, 27017))
    } else if name == "kafka"@ {
        Some(("confluentinc/cp-kafka:7"@, 9092))
    } else if name == "elasticsearch"@ {
        Some(("elasticsearch:8"@, 9200))
    } else if name == "minio"@ {
        Some(("minio/minio:latest"@, 9000))
    } else {
        None
    }
}

/// The image of an offered service.
pub open spec fn offered_image(name: Seq<char>) -> Seq<char> {
    match common_service(name) {
        Some((image, _)) => image,
        None => Seq::<char>::empty(),
    }
}

/// The container port of an offered service.
pub open spec fn offered_port(name: Seq<char>) -> u16 {
    match common_service(name) {
        Some((_, port)) => port,
        None => 0,
    }
}

/// The names of the services offered by the wizard, in the order shown.
pub open spec fn common_service_names() -> Seq<Seq<char>> {
    seq!["postgres"@, "mysql"@, "redis"@, "mongodb"@, "kafka"@, "elasticsearch"@, "minio"@]
}

/// The service labels shown by the wizard.
pub fn common_service_labels() -> (r: Vec<String>)
    ensures
        r.deep_view() == common_service_names(),
{
    let mut r: Vec<String> = Vec::new();
    r.push(String::from_str("postgres"));
    r.push(String::from_str("mysql"));
    r.push(String::from_str("redis"));
    r.push(String::from_str("mongodb"));
    r.push(String::from_str("kafka"));
    r.push(String::from_str("elasticsearch"));
    r.push(String::from_str("minio"));
    assert(r.deep_view() =~= common_service_names());
    r
}

/// Looks up a service offered by the wizard.
pub fn find_common_service(name: &str) -> (r: Option<(String, u16)>)
    ensures
        match common_service(name@) {
            Some((image, port)) => r matches Some((i, p)) && i@ == image && p == port,
            None => r is None,
        },
{
    if str_eq(name, "postgres") {
        Some((String::from_str("postgres:16"), 5432))
    } else if str_eq(name, "mysql") {
        Some((String::from_str("mysql:8"), 3306))
    } else if str_eq(name, "redis") {
        Some((String::from_str("redis:7"), 6379))
    } else if str_eq(name, "mongodb") {
        Some((String::from_str("mongo:7"), 27017))
    } else if str_eq(name, "kafka") {
        Some((String::from_str("confluentinc/cp-kafka:7"), 9092))
    } else if str_eq(name, "elasticsearch") {
        Some((String::from_str("elasticsearch:8"), 9200))
    } else if str_eq(name, "minio") {
        Some((String::from_str("minio/minio:latest"), 9000))
    } else {
        None
    }
}

/// A service as the wizard creates it: name, image and port set, nothing else.
pub open spec fn is_plain_service(svc: ServiceConfig, name: Seq<char>, image: Seq<char>, port: u16) -> bool {
    &&& svc.name@ == name
    &&& svc.image@ == image
    &&& svc.port == port
    &&& svc.environment@.len() == 0
    &&& svc.command is None
    &&& svc.depends_on@.len() == 0
    &&& svc.volumes@.len() == 0
    &&& svc.env_file is None
    &&& svc.platform is None
    &&& svc.build is None
}

/// The selected names that the wizard offers, in order.
pub open spec fn offered(selected: Seq<Seq<char>>) -> Seq<Seq<char>>
    decreases selected.len(),
{
    if selected.len() == 0 {
        selected
    } else if common_service(selected.last()) is Some {
        offered(selected.drop_last()).push(selected.last())
    } else {
        offered(selected.drop_last())
    }
}

/// The services for the names selected in the wizard (unknown names skipped).
pub fn services_from_selection(selected: &Vec<String>) -> (r: Vec<ServiceConfig>)
    ensures
        r@.len() == offered(selected.deep_view()).len(),
        forall|k: int|
            0 <= k < r@.len() ==> {
                let name = #[trigger] offered(selected.deep_view())[k];
                is_plain_service(
                    r@[k],
                    name,
                    offered_image(name),
                    offered_port(name),
                )
            },
{
    let ghost sv = selected.deep_view();
    let mut r: Vec<ServiceConfig> = Vec::new();
    let n = selected.len();
    let mut i: usize = 0;
    while i < n
        invariant
            i <= n == selected@.len() == sv.len(),
            sv == selected.deep_view(),
            r@.len() == offered(sv.take(i as int)).len(),
            forall|k: int|
                0 <= k < r@.len() ==> {
                    let name = #[trigger] offered(sv.take(i as int))[k];
                    is_plain_service(
                        r@[k],
                        name,
                        offered_image(name),
                        offered_port(name),
                    )
                },
        decreases n - i,
    {
        let ghost prev = offered(sv.take(i as int));
        assert(sv.take(i + 1).drop_last() =~= sv.take(i as int));
        assert(sv.take(i + 1).last() == sv[i as int]);
        assert(sv[i as int] == selected@[i as int]@);
        match find_common_service(selected[i].as_str()) {
            Some((image, port)) => {
                r.push(
                    ServiceConfig {
                        name: selected[i].clone(),
                        image,
                        port,
                        environment: Vec::new(),
                        command: None,
                        depends_on: Vec::new(),
                        volumes: Vec::new(),
                        env_file: None,
                        platform: None,
                        build: None,
                    },
                );
                assert(offered(sv.take(i + 1)) == prev.push(sv[i as int]));
            },
            None => {},
        }
        i = i + 1;
    }
    assert(sv.take(n as int) =~= sv);
    r
}

/// The multiplexer chosen in the wizard; anything unknown means none.
pub open spec fn multiplexer_of(choice: Seq<char>) -> Multiplexer {
    if choice == "warp"@ {
        Multiplexer::Warp
    } else if choice == "iterm2"@ {
        Multiplexer::Iterm2
    } else if choice == "tmux"@ {
        Multiplexer::Tmux
    } else if choice == "ghostty"@ {
        Multiplexer::Ghostty
    } else {
        Multiplexer::Disabled
    }
}

/// Computes `multiplexer_of`.
pub fn multiplexer_from_choice(choice: &str) -> (r: Multiplexer)
    ensures
        r == multiplexer_of(choice@),
{
    if str_eq(choice, "warp") {
        Multiplexer::Warp
    } else if str_eq(choice, "iterm2") {
        Multiplexer::Iterm2
    } else if str_eq(choice, "tmux") {
        Multiplexer::Tmux
    } else if str_eq(choice, "ghostty") {
        Multiplexer::Ghostty
    } else {
        Multiplexer::Disabled
    }
}

/// The base port typed in the wizard, or 3000 when it is not a `u16`.
pub fn parse_port_base(input: &str) -> (r: u16)
    ensures
        r == match parse_unsigned(input@, u16::MAX as nat) {
            Some(v) => v as u16,
            None => 3000u16,
        },
{
    let v = to_chars(input);
    match parse_unsigned_chars(&v, 65535) {
        Some(x) => x as u16,
        None => 3000,
    }
}

/// An answer left blank counts as no answer.
pub open spec fn answer(a: Option<String>) -> Option<Seq<char>> {
    match a {
        Some(s) => if s@.len() == 0 {
            None
        } else {
            Some(s@)
        },
        None => None,
    }
}

fn non_empty(a: Option<String>) -> (r: Option<String>)
    ensures
        match answer(a) {
            Some(v) => r matches Some(s) && s@ == v,
            None => r is None,
        },
{
    match a {
        Some(s) => if s.as_str().is_empty() {
            None
        } else {
            Some(s)
        },
        None => None,
    }
}

/// The repository described by the wizard's answers: blank commands are
/// left out, there is no stop command and no symlink.
pub fn repo_from_answers(name: String, path: String, serve: Option<String>, setup: Option<String>) -> (r:
    RepoConfig)
    ensures
        r.name@ == name@,
        r.path@ == path@,
        match answer(serve) {
            Some(v) => r.commands.serve matches Some(s) && s@ == v,
            None => r.commands.serve is None,
        },
        r.commands.stop is None,
        match answer(setup) {
            Some(v) => r.commands.setup matches Some(s) && s@ == v,
            None => r.commands.setup is None,
        },
        r.setup.symlinks@.len() == 0,
{
    RepoConfig {
        name,
        path,
        commands: RepoCommands { serve: non_empty(serve), stop: None, setup: non_empty(setup) },
        setup: SetupConfig { symlinks: Vec::new() },
    }
}

} // verus!
