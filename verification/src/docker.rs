//! The standalone Docker Compose file of a worktree: one service per
//! configured service, with a container name prefixed by the slug and the
//! host port of the worktree's slot.
use vstd::prelude::*;

use crate::config::{ServiceConfig, WtreeConfig};
use crate::ports::PortAssignment;
use crate::terminal::iterm2::{escape, json_escape};
use crate::text::{
    decimal, join, join_path, lemma_occurs_after, lemma_occurs_within, occurs_at, opt_ref, opt_view,
    push_str, str_eq, to_chars, u64_to_decimal,
};

verus! {

/// Name of the compose file inside a worktree's directory.
pub const OVERRIDE_FILE: &'static str = "docker-compose.override.yml";

/// A YAML double-quoted scalar.
pub open spec fn quoted(s: Seq<char>) -> Seq<char> {
    "\""@ + json_escape(s) + "\""@
}

fn push_quoted(out: &mut String, s: &str)
    ensures
        final(out)@ == old(out)@ + quoted(s@),
{
    push_str(out, "\"");
    let e = escape(s);
    push_str(out, e.as_str());
    push_str(out, "\"");
}

/// The items of a list, one per line under `key`.
pub open spec fn list_items(items: Seq<Seq<char>>, n: nat) -> Seq<char>
    decreases n,
{
    if n == 0 {
        Seq::<char>::empty()
    } else {
        list_items(items, (n - 1) as nat) + "      - "@ + quoted(items[n - 1]) + "\n"@
    }
}

/// `key:` followed by the items; nothing for an empty list.
pub open spec fn list_block(key: Seq<char>, items: Seq<Seq<char>>) -> Seq<char> {
    if items.len() == 0 {
        Seq::<char>::empty()
    } else {
        "    "@ + key + ":\n"@ + list_items(items, items.len())
    }
}

fn push_list(out: &mut String, key: &str, items: &Vec<String>)
    ensures
        final(out)@ == old(out)@ + list_block(key@, items.deep_view()),
{
    let ghost iv = items.deep_view();
    let n = items.len();
    if n == 0 {
        assert(old(out)@ + list_block(key@, iv) =~= old(out)@);
        return;
    }
    push_str(out, "    ");
    push_str(out, key);
    push_str(out, ":\n");
    let ghost head = out@;
    let mut i: usize = 0;
    while i < n
        invariant
            i <= n == items@.len() == iv.len(),
            iv == items.deep_view(),
            out@ == head + list_items(iv, i as nat),
        decreases n - i,
    {
        push_str(out, "      - ");
        push_quoted(out, items[i].as_str());
        push_str(out, "\n");
        assert(iv[i as int] == items@[i as int]@);
        assert(out@ =~= head + list_items(iv, (i + 1) as nat));
        i = i + 1;
    }
    assert(old(out)@ + list_block(key@, iv) =~= head + list_items(iv, n as nat));
}

/// The container name of service `name` in worktree `slug`.
pub open spec fn container_name(slug: Seq<char>, name: Seq<char>) -> Seq<char> {
    slug + "-"@ + name
}

/// A one-line `key: "value"` entry, or nothing.
pub open spec fn optional_entry(key: Seq<char>, value: Option<Seq<char>>) -> Seq<char> {
    match value {
        Some(v) => "    "@ + key + ": "@ + quoted(v) + "\n"@,
        None => Seq::<char>::empty(),
    }
}

fn push_optional(out: &mut String, key: &str, value: Option<&str>)
    ensures
        final(out)@ == old(out)@ + optional_entry(
            key@,
            match value {
                Some(v) => Some(v@),
                None => None,
            },
        ),
{
    match value {
        Some(v) => {
            push_str(out, "    ");
            push_str(out, key);
            push_str(out, ": ");
            push_quoted(out, v);
            push_str(out, "\n");
        },
        None => {
            assert(old(out)@ + Seq::<char>::empty() =~= old(out)@);
        },
    }
}

/// The optional path resolved against the workspace root.
pub open spec fn opt_path(root: Seq<char>, o: Option<String>) -> Option<Seq<char>> {
    match o {
        Some(s) => Some(join_path(root, s@)),
        None => None,
    }
}

/// The single `"host:container"` port mapping, when the service exposes a port.
pub open spec fn port_mappings(svc: ServiceConfig, host: u16) -> Seq<Seq<char>> {
    if svc.port == 0 {
        Seq::<Seq<char>>::empty()
    } else {
        seq![decimal(host as nat) + ":"@ + decimal(svc.port as nat)]
    }
}

/// The env file resolved against the workspace root, as a list.
pub open spec fn env_files(root: Seq<char>, svc: ServiceConfig) -> Seq<Seq<char>> {
    match svc.env_file {
        Some(f) => seq![join_path(root, f@)],
        None => Seq::<Seq<char>>::empty(),
    }
}

/// The first lines of a service's entry: name, image, build, container name,
/// platform and command.
pub open spec fn service_head(slug: Seq<char>, root: Seq<char>, svc: ServiceConfig) -> Seq<char> {
    "  "@ + quoted(svc.name@) + ":\n"@ + "    image: "@ + quoted(svc.image@) + "\n"@
        + optional_entry("build"@, opt_path(root, svc.build)) + "    container_name: "@ + quoted(
        container_name(slug, svc.name@),
    ) + "\n"@ + optional_entry("platform"@, opt_view(svc.platform)) + optional_entry(
        "command"@,
        opt_view(svc.command),
    )
}

/// The list sections of a service's entry.
pub open spec fn service_lists(root: Seq<char>, svc: ServiceConfig, host: u16) -> Seq<char> {
    list_block("ports"@, port_mappings(svc, host)) + list_block(
        "environment"@,
        svc.environment.deep_view(),
    ) + list_block("env_file"@, env_files(root, svc)) + list_block("volumes"@, svc.volumes.deep_view())
        + list_block("depends_on"@, svc.depends_on.deep_view())
}

/// The compose entry of one service.
pub open spec fn service_entry(slug: Seq<char>, root: Seq<char>, svc: ServiceConfig, host: u16) -> Seq<
    char,
> {
    service_head(slug, root, svc) + service_lists(root, svc, host)
}

/// The host port of service `i`: its slot port, or its own port when it has none.
pub open spec fn host_port(svc: ServiceConfig, ports: Seq<u16>, i: int) -> u16 {
    if 0 <= i < ports.len() {
        ports[i]
    } else {
        svc.port
    }
}

/// The entries of the first `n` services.
pub open spec fn service_entries(
    slug: Seq<char>,
    root: Seq<char>,
    services: Seq<ServiceConfig>,
    ports: Seq<u16>,
    n: nat,
) -> Seq<char>
    decreases n,
{
    if n == 0 {
        Seq::<char>::empty()
    } else {
        service_entries(slug, root, services, ports, (n - 1) as nat) + service_entry(
            slug,
            root,
            services[n - 1],
            host_port(services[n - 1], ports, n - 1),
        )
    }
}

/// The named volume a volume entry mounts: the part before the first `:`,
/// when there is one and it is not a path (does not start with `/`, `.` or `~`).
pub open spec fn volume_name(v: Seq<char>) -> Option<Seq<char>> {
    if exists|i: int| 0 <= i < v.len() && v[i] == ':' {
        let k = choose|i: int| 0 <= i < v.len() && v[i] == ':' && forall|j: int| 0 <= j < i ==> v[j] != ':';
        let src = v.take(k);
        if src.len() > 0 && src[0] != '/' && src[0] != '.' && src[0] != '~' {
            Some(src)
        } else {
            None
        }
    } else {
        None
    }
}

/// The volume entries of the first `n` services, in order.
pub open spec fn all_volumes(services: Seq<ServiceConfig>, n: nat) -> Seq<Seq<char>>
    decreases n,
{
    if n == 0 {
        Seq::<Seq<char>>::empty()
    } else {
        all_volumes(services, (n - 1) as nat) + services[n - 1].volumes.deep_view()
    }
}

/// The distinct named volumes among the entries, in order of first use.
pub open spec fn named_volumes(entries: Seq<Seq<char>>) -> Seq<Seq<char>>
    decreases entries.len(),
{
    if entries.len() == 0 {
        Seq::<Seq<char>>::empty()
    } else {
        let prev = named_volumes(entries.drop_last());
        match volume_name(entries.last()) {
            Some(v) => if prev.contains(v) {
                prev
            } else {
                prev.push(v)
            },
            None => prev,
        }
    }
}

/// The declarations of the first `n` named volumes.
pub open spec fn volume_decls(names: Seq<Seq<char>>, n: nat) -> Seq<char>
    decreases n,
{
    if n == 0 {
        Seq::<char>::empty()
    } else {
        volume_decls(names, (n - 1) as nat) + "  "@ + quoted(names[n - 1]) + ": {}\n"@
    }
}

/// The top-level `volumes:` section, or nothing when no named volume is used.
pub open spec fn volumes_section(names: Seq<Seq<char>>) -> Seq<char> {
    if names.len() == 0 {
        Seq::<char>::empty()
    } else {
        "volumes:\n"@ + volume_decls(names, names.len())
    }
}

/// The whole compose file of a worktree.
pub open spec fn compose_file(
    slug: Seq<char>,
    root: Seq<char>,
    services: Seq<ServiceConfig>,
    ports: Seq<u16>,
) -> Seq<char> {
    "services:\n"@ + service_entries(slug, root, services, ports, services.len()) + volumes_section(
        named_volumes(all_volumes(services, services.len())),
    )
}

#[verifier::rlimit(80)]
fn push_service_head(out: &mut String, slug: &str, root: &str, svc: &ServiceConfig)
    ensures
        final(out)@ == old(out)@ + service_head(slug@, root@, *svc),
{
    let ghost before = out@;
    push_str(out, "  ");
    push_quoted(out, svc.name.as_str());
    push_str(out, ":\n");
    push_str(out, "    image: ");
    push_quoted(out, svc.image.as_str());
    push_str(out, "\n");
    let build = match &svc.build {
        Some(b) => Some(join(root, b.as_str())),
        None => None,
    };
    push_optional(out, "build", opt_ref(&build));
    let mut cname = String::from_str(slug);
    push_str(&mut cname, "-");
    push_str(&mut cname, svc.name.as_str());
    push_str(out, "    container_name: ");
    push_quoted(out, cname.as_str());
    push_str(out, "\n");
    push_optional(out, "platform", opt_ref(&svc.platform));
    push_optional(out, "command", opt_ref(&svc.command));
    assert(out@ =~= before + service_head(slug@, root@, *svc));
}

fn push_service_lists(out: &mut String, root: &str, svc: &ServiceConfig, host: u16)
    ensures
        final(out)@ == old(out)@ + service_lists(root@, *svc, host),
{
    let ghost before = out@;
    let mut mappings: Vec<String> = Vec::new();
    if svc.port != 0 {
        let mut m = u64_to_decimal(host as u64);
        push_str(&mut m, ":");
        let c = u64_to_decimal(svc.port as u64);
        push_str(&mut m, c.as_str());
        mappings.push(m);
    }
    assert(mappings.deep_view() =~= port_mappings(*svc, host));
    push_list(out, "ports", &mappings);
    push_list(out, "environment", &svc.environment);
    let mut files: Vec<String> = Vec::new();
    match &svc.env_file {
        Some(f) => {
            files.push(join(root, f.as_str()));
        },
        None => {},
    }
    assert(files.deep_view() =~= env_files(root@, *svc));
    push_list(out, "env_file", &files);
    push_list(out, "volumes", &svc.volumes);
    push_list(out, "depends_on", &svc.depends_on);
    assert(out@ =~= before + service_lists(root@, *svc, host));
}

fn push_service(out: &mut String, slug: &str, root: &str, svc: &ServiceConfig, host: u16)
    ensures
        final(out)@ == old(out)@ + service_entry(slug@, root@, *svc, host),
{
    let ghost before = out@;
    push_service_head(out, slug, root, svc);
    push_service_lists(out, root, svc, host);
    assert(out@ =~= before + service_entry(slug@, root@, *svc, host));
}

/// Computes `volume_name`.
pub fn volume_name_of(v: &str) -> (r: Option<String>)
    ensures
        match volume_name(v@) {
            Some(n) => r matches Some(s) && s@ == n,
            None => r is None,
        },
{
    let c = to_chars(v);
    let n = c.len();
    let mut k: usize = 0;
    while k < n && c[k] != ':'
        invariant
            k <= n == c@.len(),
            c@ == v@,
            forall|j: int| 0 <= j < k ==> c@[j] != ':',
        decreases n - k,
    {
        k = k + 1;
    }
    if k == n {
        return None;
    }
    proof {
        let kk = choose|i: int| 0 <= i < v@.len() && v@[i] == ':' && forall|j: int| 0 <= j < i ==> v@[j] != ':';
        assert(v@[k as int] == ':');
        if kk < k {
            assert(c@[kk] != ':');
        }
        if kk > k {
            assert(v@[k as int] != ':');
        }
        assert(kk == k);
    }
    if k == 0 || c[0] == '/' || c[0] == '.' || c[0] == '~' {
        return None;
    }
    let mut src = String::new();
    crate::text::push_range(&mut src, &c, 0, k);
    assert(c@.subrange(0, k as int) =~= v@.take(k as int));
    Some(src)
}

fn contains_name(names: &Vec<String>, v: &str) -> (b: bool)
    ensures
        b == names.deep_view().contains(v@),
{
    let n = names.len();
    let mut i: usize = 0;
    while i < n
        invariant
            i <= n == names@.len(),
            forall|k: int| 0 <= k < i ==> names.deep_view()[k] != v@,
        decreases n - i,
    {
        if str_eq(names[i].as_str(), v) {
            assert(names.deep_view()[i as int] == v@);
            return true;
        }
        i = i + 1;
    }
    false
}

/// The distinct named volumes used by the services, in order of first use.
pub fn collect_named_volumes(services: &Vec<ServiceConfig>) -> (r: Vec<String>)
    ensures
        r.deep_view() == named_volumes(all_volumes(services@, services@.len())),
{
    let mut r: Vec<String> = Vec::new();
    let n = services.len();
    let mut i: usize = 0;
    assert(r.deep_view() =~= named_volumes(all_volumes(services@, 0)));
    while i < n
        invariant
            i <= n == services@.len(),
            r.deep_view() == named_volumes(all_volumes(services@, i as nat)),
        decreases n - i,
    {
        let vols = &services[i].volumes;
        let ghost base = all_volumes(services@, i as nat);
        let m = vols.len();
        let mut j: usize = 0;
        assert(base + vols.deep_view().take(0) =~= base);
        while j < m
            invariant
                j <= m == vols@.len(),
                *vols == services@[i as int].volumes,
                base == all_volumes(services@, i as nat),
                r.deep_view() == named_volumes(base + vols.deep_view().take(j as int)),
            decreases m - j,
        {
            let ghost e = base + vols.deep_view().take(j as int);
            let ghost e2 = base + vols.deep_view().take(j + 1);
            assert(e2.drop_last() =~= e);
            assert(e2.last() == vols@[j as int]@);
            match volume_name_of(vols[j].as_str()) {
                Some(name) => {
                    if !contains_name(&r, name.as_str()) {
                        let ghost rv = r.deep_view();
                        r.push(name);
                        assert(r.deep_view() =~= rv.push(name@));
                    }
                },
                None => {},
            }
            j = j + 1;
        }
        assert(vols.deep_view().take(m as int) =~= vols.deep_view());
        assert(all_volumes(services@, (i + 1) as nat) == base + vols.deep_view());
        i = i + 1;
    }
    r
}

/// Generates the standalone compose file of a worktree.
pub fn generate_override(
    slug: &str,
    config: &WtreeConfig,
    ports: &PortAssignment,
    workspace_root: &str,
) -> (r: String)
    ensures
        r@ == compose_file(slug@, workspace_root@, config.services@, ports.service_ports@),
{
    let mut out = String::from_str("services:\n");
    let ghost head = out@;
    let n = config.services.len();
    let mut i: usize = 0;
    while i < n
        invariant
            i <= n == config.services@.len(),
            out@ == head + service_entries(
                slug@,
                workspace_root@,
                config.services@,
                ports.service_ports@,
                i as nat,
            ),
        decreases n - i,
    {
        let svc = &config.services[i];
        let host = if i < ports.service_ports.len() {
            ports.service_ports[i]
        } else {
            svc.port
        };
        push_service(&mut out, slug, workspace_root, svc, host);
        assert(out@ =~= head + service_entries(
            slug@,
            workspace_root@,
            config.services@,
            ports.service_ports@,
            (i + 1) as nat,
        ));
        i = i + 1;
    }
    let names = collect_named_volumes(&config.services);
    let ghost nv = names.deep_view();
    let ghost mid = out@;
    let k = names.len();
    if k > 0 {
        push_str(&mut out, "volumes:\n");
        let ghost vh = out@;
        let mut j: usize = 0;
        while j < k
            invariant
                j <= k == names@.len() == nv.len(),
                nv == names.deep_view(),
                out@ == vh + volume_decls(nv, j as nat),
            decreases k - j,
        {
            push_str(&mut out, "  ");
            push_quoted(&mut out, names[j].as_str());
            push_str(&mut out, ": {}\n");
            assert(nv[j as int] == names@[j as int]@);
            assert(out@ =~= vh + volume_decls(nv, (j + 1) as nat));
            j = j + 1;
        }
        assert(out@ =~= mid + volumes_section(nv));
    } else {
        assert(out@ =~= mid + volumes_section(nv));
    }
    out
}

/// `docker compose -f <file> -p <slug> up -d` (when `up`) or `... down`.
pub fn compose_args(slug: &str, file: &str, up: bool) -> (r: Vec<String>)
    ensures
        r.deep_view() == if up {
            seq!["compose"@, "-f"@, file@, "-p"@, slug@, "up"@, "-d"@]
        } else {
            seq!["compose"@, "-f"@, file@, "-p"@, slug@, "down"@]
        },
{
    let mut r: Vec<String> = Vec::new();
    r.push(String::from_str("compose"));
    r.push(String::from_str("-f"));
    r.push(String::from_str(file));
    r.push(String::from_str("-p"));
    r.push(String::from_str(slug));
    if up {
        r.push(String::from_str("up"));
        r.push(String::from_str("-d"));
        assert(r.deep_view() =~= seq!["compose"@, "-f"@, file@, "-p"@, slug@, "up"@, "-d"@]);
    } else {
        r.push(String::from_str("down"));
        assert(r.deep_view() =~= seq!["compose"@, "-f"@, file@, "-p"@, slug@, "down"@]);
    }
    r
}

/// Containers of the same service in two different worktrees never share a name.
pub proof fn lemma_container_names_distinct(s1: Seq<char>, s2: Seq<char>, name: Seq<char>)
    requires
        s1 != s2,
    ensures
        container_name(s1, name) != container_name(s2, name),
{
    if container_name(s1, name) == container_name(s2, name) {
        let a = container_name(s1, name);
        let b = container_name(s2, name);
        assert(a.len() == b.len());
        assert(s1.len() == s2.len());
        assert(s1 =~= s2) by {
            assert forall|i: int| 0 <= i < s1.len() implies s1[i] == s2[i] by {
                assert(a[i] == s1[i]);
                assert(b[i] == s2[i]);
            }
        }
    }
}

/// A named volume that some entry mounts is among the collected names.
proof fn lemma_named_volumes_include(entries: Seq<Seq<char>>, x: int, name: Seq<char>)
    requires
        0 <= x < entries.len(),
        volume_name(entries[x]) == Some(name),
    ensures
        named_volumes(entries).contains(name),
    decreases entries.len(),
{
    let prev = named_volumes(entries.drop_last());
    if x == entries.len() - 1 {
        if !prev.contains(name) {
            assert(prev.push(name)[prev.len() as int] == name);
        }
    } else {
        lemma_named_volumes_include(entries.drop_last(), x, name);
        let y = choose|y: int| 0 <= y < prev.len() && prev[y] == name;
        match volume_name(entries.last()) {
            Some(v) => {
                if !prev.contains(v) {
                    assert(prev.push(v)[y] == name);
                }
            },
            None => {},
        }
    }
}

/// Each collected name is mounted by some entry, and no name is collected twice.
proof fn lemma_named_volumes_sound(entries: Seq<Seq<char>>)
    ensures
        forall|y: int|
            #![trigger named_volumes(entries)[y]]
            0 <= y < named_volumes(entries).len() ==> exists|x: int|
                0 <= x < entries.len() && volume_name(#[trigger] entries[x]) == Some(
                    named_volumes(entries)[y],
                ),
        forall|a: int, b: int|
            0 <= a < b < named_volumes(entries).len() ==> named_volumes(entries)[a]
                != named_volumes(entries)[b],
    decreases entries.len(),
{
    if entries.len() > 0 {
        let init = entries.drop_last();
        lemma_named_volumes_sound(init);
        let prev = named_volumes(init);
        let names = named_volumes(entries);
        assert forall|y: int| #![trigger names[y]] 0 <= y < names.len() implies exists|x: int|
            0 <= x < entries.len() && volume_name(#[trigger] entries[x]) == Some(names[y]) by {
            if y < prev.len() {
                let x = choose|x: int| 0 <= x < init.len() && volume_name(#[trigger] init[x]) == Some(prev[y]);
                assert(entries[x] == init[x]);
            } else {
                assert(volume_name(entries[entries.len() - 1]) == Some(names[y]));
            }
        }
    }
}

/// The entries of the first `m` services list service `j`'s volume entries
/// right after those of the services before it.
proof fn lemma_all_volumes_index(services: Seq<ServiceConfig>, m: nat, j: int, v: int)
    requires
        0 <= j < m <= services.len(),
        0 <= v < services[j].volumes.len(),
    ensures
        all_volumes(services, j as nat).len() + v < all_volumes(services, m).len(),
        all_volumes(services, m)[all_volumes(services, j as nat).len() + v] == services[j].volumes@[v]@,
    decreases m,
{
    let x = all_volumes(services, j as nat).len() + v;
    if m == j + 1 {
        assert(all_volumes(services, m) == all_volumes(services, j as nat) + services[j].volumes.deep_view());
    } else {
        lemma_all_volumes_index(services, (m - 1) as nat, j, v);
        assert(all_volumes(services, m) == all_volumes(services, (m - 1) as nat) + services[m - 1].volumes.deep_view());
    }
}

proof fn lemma_volume_decls_contain(names: Seq<Seq<char>>, n: nat, x: int)
    requires
        0 <= x < n <= names.len(),
    ensures
        exists|k: int| occurs_at(volume_decls(names, n), "  "@ + quoted(names[x]) + ": {}\n"@, k),
    decreases n,
{
    let t = "  "@ + quoted(names[x]) + ": {}\n"@;
    let prev = volume_decls(names, (n - 1) as nat);
    let last = "  "@ + quoted(names[n - 1]) + ": {}\n"@;
    let whole = volume_decls(names, n);
    assert(whole =~= prev + last);
    if x == n - 1 {
        lemma_occurs_after(prev, t);
        assert(occurs_at(whole, t, prev.len() as int));
    } else {
        lemma_volume_decls_contain(names, (n - 1) as nat, x);
        let k = choose|k: int| occurs_at(prev, t, k);
        lemma_occurs_within(prev, t, k, Seq::<char>::empty(), last);
        assert(Seq::<char>::empty() + prev + last =~= whole);
        assert(occurs_at(whole, t, k));
    }
}

/// Every named volume that a service mounts is declared, once, in the
/// top-level `volumes:` section that follows the services of the compose
/// file; and every name declared there is mounted by some service.
pub proof fn lemma_mounted_volumes_declared(
    slug: Seq<char>,
    root: Seq<char>,
    services: Seq<ServiceConfig>,
    ports: Seq<u16>,
    j: int,
    v: int,
    name: Seq<char>,
)
    requires
        0 <= j < services.len(),
        0 <= v < services[j].volumes.len(),
        volume_name(services[j].volumes@[v]@) == Some(name),
    ensures
        ({
            let head = "services:\n"@ + service_entries(slug, root, services, ports, services.len())
                + "volumes:\n"@;
            let file = compose_file(slug, root, services, ports);
            &&& head.len() <= file.len()
            &&& file.take(head.len() as int) == head
            &&& exists|k: int|
                head.len() <= k && occurs_at(file, "  "@ + quoted(name) + ": {}\n"@, k)
        }),
{
    let entries = all_volumes(services, services.len());
    let names = named_volumes(entries);
    lemma_all_volumes_index(services, services.len(), j, v);
    let x = all_volumes(services, j as nat).len() + v;
    lemma_named_volumes_include(entries, x, name);
    let y = choose|y: int| 0 <= y < names.len() && names[y] == name;
    lemma_volume_decls_contain(names, names.len(), y);
    let decls = volume_decls(names, names.len());
    let t = "  "@ + quoted(name) + ": {}\n"@;
    let k = choose|k: int| occurs_at(decls, t, k);
    let head = "services:\n"@ + service_entries(slug, root, services, ports, services.len())
        + "volumes:\n"@;
    let file = compose_file(slug, root, services, ports);
    assert(file =~= head + decls);
    assert(file.take(head.len() as int) =~= head);
    lemma_occurs_within(decls, t, k, head, Seq::<char>::empty());
    assert(head + decls + Seq::<char>::empty() =~= file);
    assert(occurs_at(file, t, k + head.len()));
}

/// The names that the compose file declares as volumes are distinct, and each
/// is mounted by some service.
pub proof fn lemma_declared_volumes_mounted(services: Seq<ServiceConfig>)
    ensures
        forall|y: int|
            #![trigger named_volumes(all_volumes(services, services.len()))[y]]
            0 <= y < named_volumes(all_volumes(services, services.len())).len() ==> exists|x: int|
                0 <= x < all_volumes(services, services.len()).len() && volume_name(
                    #[trigger] all_volumes(services, services.len())[x],
                ) == Some(named_volumes(all_volumes(services, services.len()))[y]),
        forall|a: int, b: int|
            0 <= a < b < named_volumes(all_volumes(services, services.len())).len() ==> named_volumes(
                all_volumes(services, services.len()),
            )[a] != named_volumes(all_volumes(services, services.len()))[b],
{
    lemma_named_volumes_sound(all_volumes(services, services.len()));
}
} // verus!
