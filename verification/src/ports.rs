//! Port slots, the variable map used for command interpolation, and the
//! interpolation itself.
use vstd::prelude::*;

use crate::config::{RepoConfig, ServiceConfig};
use crate::text::{
    decimal, from_chars, lemma_parse_decimal, lemma_replace_absent, lemma_replace_whole, parse_unsigned, parse_unsigned_chars, replace_all,
    replace_chars, str_eq, to_chars, trim_chars, trimmed, u64_to_decimal,
};

verus! {

// ---------------------------------------------------------------------------
// Port layout
// ---------------------------------------------------------------------------

/// The `k`-th host port of a slot: ports of a slot start at `base + 10 * slot`;
/// repos come first, then services.
pub open spec fn slot_port(base: u16, slot: u16, k: int) -> int {
    base + slot * 10 + k
}

/// The slot's offset and every port of the slot fit in a `u16` (otherwise the
/// arithmetic overflows).
pub open spec fn ports_fit(base: u16, slot: u16, repo_count: usize, service_count: usize) -> bool {
    &&& slot * 10 <= u16::MAX
    &&& repo_count > 0 ==> slot_port(base, slot, repo_count - 1) <= u16::MAX
    &&& service_count > 0 ==> slot_port(base, slot, repo_count + service_count - 1) <= u16::MAX
}

/// Decides `ports_fit`: whether `PortAssignment::new` can lay out the slot.
pub fn ports_fit_check(base: u16, slot: u16, repo_count: usize, service_count: usize) -> (r: bool)
    ensures
        r == ports_fit(base, slot, repo_count, service_count),
{
    let start = base as u64 + slot as u64 * 10;
    if slot as u64 * 10 > 65535 {
        return false;
    }
    if repo_count > 0 && (repo_count > 65536 || start + repo_count as u64 - 1 > 65535) {
        return false;
    }
    service_count == 0 || (repo_count <= 65536 && service_count <= 65536 && start
        + repo_count as u64 + service_count as u64 - 1 <= 65535)
}

/// Port assignment for one worktree slot.
///
/// Layout per slot (base=3000, slot=1, 2 repos, 2 services):
///   slot offset = 1 * 10 = 10
///   repo[0]  → 3010
///   repo[1]  → 3011
///   service[0] (db)    → 3012
///   service[1] (redis) → 3013
#[derive(Debug)]
pub struct PortAssignment {
    pub slot: u16,
    /// Host port per repo, indexed as the configuration's repos.
    pub repo_ports: Vec<u16>,
    /// Host port per service, indexed as the configuration's services.
    pub service_ports: Vec<u16>,
}

impl PortAssignment {
    /// The ports of `slot`: repo `i` gets `base + 10 * slot + i`, service `j`
    /// gets `base + 10 * slot + repo_count + j`.
    pub fn new(base: u16, slot: u16, repo_count: usize, service_count: usize) -> (r: Self)
        requires
            ports_fit(base, slot, repo_count, service_count),
        ensures
            r.slot == slot,
            r.repo_ports@.len() == repo_count,
            r.service_ports@.len() == service_count,
            forall|i: int| 0 <= i < repo_count ==> #[trigger] r.repo_ports@[i] == slot_port(base, slot, i),
            forall|j: int|
                0 <= j < service_count ==> #[trigger] r.service_ports@[j] == slot_port(
                    base,
                    slot,
                    repo_count + j,
                ),
    {
        let offset = slot * 10;
        let rc = repo_count;
        let sc = service_count;
        let mut repo_ports: Vec<u16> = Vec::new();
        let mut i: usize = 0;
        while i < rc
            invariant
                rc == repo_count,
                offset == slot * 10,
                i <= rc,
                ports_fit(base, slot, repo_count, service_count),
                repo_ports@.len() == i,
                forall|k: int| 0 <= k < i ==> #[trigger] repo_ports@[k] == slot_port(base, slot, k),
            decreases rc - i,
        {
            repo_ports.push(base + offset + i as u16);
            i = i + 1;
        }
        let mut service_ports: Vec<u16> = Vec::new();
        let mut j: usize = 0;
        while j < sc
            invariant
                rc == repo_count,
                sc == service_count,
                offset == slot * 10,
                j <= sc,
                ports_fit(base, slot, repo_count, service_count),
                service_ports@.len() == j,
                forall|k: int|
                    0 <= k < j ==> #[trigger] service_ports@[k] == slot_port(base, slot, rc + k),
            decreases sc - j,
        {
            service_ports.push(base + offset + (rc + j) as u16);
            j = j + 1;
        }
        PortAssignment { slot, repo_ports, service_ports }
    }

    /// The variable map for command interpolation: `slug`, then
    /// `<name>_port` for each repo that has a port, then for each service that
    /// has one (a later entry with the same key replaces an earlier one).
    pub fn variable_map(&self, slug: &str, repos: &[RepoConfig], services: &[ServiceConfig]) -> (r:
        VarMap)
        ensures
            r@ == variable_entries(slug@, repos@, services@, self.repo_ports@, self.service_ports@),
    {
        let mut vars = VarMap::new();
        vars.insert(String::from_str("slug"), String::from_str(slug));
        assert(vars@ =~= seq![("slug"@, slug@)]);
        let ghost start = vars@;
        let ghost names = repos@.map_values(|c: RepoConfig| c.name@);
        let n = if repos.len() < self.repo_ports.len() {
            repos.len()
        } else {
            self.repo_ports.len()
        };
        let mut i: usize = 0;
        while i < n
            invariant
                i <= n == min_len(repos@.len(), self.repo_ports@.len()),
                names == repos@.map_values(|c: RepoConfig| c.name@),
                vars@ == port_entries(start, names, self.repo_ports@, i as nat),
            decreases n - i,
        {
            let key = port_key(repos[i].name.as_str());
            assert(names[i as int] == repos@[i as int].name@);
            vars.insert(key, u64_to_decimal(self.repo_ports[i] as u64));
            i = i + 1;
        }
        let ghost mid = vars@;
        let ghost snames = services@.map_values(|c: ServiceConfig| c.name@);
        let m = if services.len() < self.service_ports.len() {
            services.len()
        } else {
            self.service_ports.len()
        };
        let mut j: usize = 0;
        while j < m
            invariant
                j <= m == min_len(services@.len(), self.service_ports@.len()),
                snames == services@.map_values(|c: ServiceConfig| c.name@),
                vars@ == port_entries(mid, snames, self.service_ports@, j as nat),
            decreases m - j,
        {
            let key = port_key(services[j].name.as_str());
            assert(snames[j as int] == services@[j as int].name@);
            vars.insert(key, u64_to_decimal(self.service_ports[j] as u64));
            j = j + 1;
        }
        vars
    }
}

/// The variables of a worktree: `slug`, then `<name>_port` for each repo
/// that has a port, then for each service that has one.
pub open spec fn variable_entries(
    slug: Seq<char>,
    repos: Seq<RepoConfig>,
    services: Seq<ServiceConfig>,
    repo_ports: Seq<u16>,
    service_ports: Seq<u16>,
) -> Seq<(Seq<char>, Seq<char>)> {
    port_entries(
        port_entries(
            seq![("slug"@, slug)],
            repos.map_values(|c: RepoConfig| c.name@),
            repo_ports,
            min_len(repos.len(), repo_ports.len()),
        ),
        services.map_values(|c: ServiceConfig| c.name@),
        service_ports,
        min_len(services.len(), service_ports.len()),
    )
}

/// The variables of a worktree with `workspace` set to the workspace root.
pub open spec fn workspace_entries(
    slug: Seq<char>,
    repos: Seq<RepoConfig>,
    services: Seq<ServiceConfig>,
    repo_ports: Seq<u16>,
    service_ports: Seq<u16>,
    workspace: Seq<char>,
) -> Seq<(Seq<char>, Seq<char>)> {
    put(variable_entries(slug, repos, services, repo_ports, service_ports), "workspace"@, workspace)
}

impl PortAssignment {
    /// The variables for commands and hooks: the variable map plus
    /// `workspace`, the absolute path of the workspace root.
    pub fn workspace_variables(
        &self,
        slug: &str,
        repos: &[RepoConfig],
        services: &[ServiceConfig],
        workspace: &str,
    ) -> (r: VarMap)
        ensures
            r@ == workspace_entries(
                slug@,
                repos@,
                services@,
                self.repo_ports@,
                self.service_ports@,
                workspace@,
            ),
    {
        let mut vars = self.variable_map(slug, repos, services);
        vars.insert(String::from_str("workspace"), String::from_str(workspace));
        vars
    }
}

/// The smaller of two lengths.
pub open spec fn min_len(a: nat, b: nat) -> nat {
    if a < b {
        a
    } else {
        b
    }
}

/// The key under which the port of the repo or service `name` is known.
pub open spec fn port_key_of(name: Seq<char>) -> Seq<char> {
    name + "_port"@
}

/// `<name>_port`.
pub fn port_key(name: &str) -> (r: String)
    ensures
        r@ == port_key_of(name@),
{
    let mut k = String::from_str(name);
    k.append("_port");
    k
}

/// Puts `<names[i]>_port ↦ ports[i]` for each `i < n`, in order.
pub open spec fn port_entries(
    e: Seq<(Seq<char>, Seq<char>)>,
    names: Seq<Seq<char>>,
    ports: Seq<u16>,
    n: nat,
) -> Seq<(Seq<char>, Seq<char>)>
    decreases n,
{
    if n == 0 {
        e
    } else {
        put(
            port_entries(e, names, ports, (n - 1) as nat),
            port_key_of(names[n - 1]),
            decimal(ports[n - 1] as nat),
        )
    }
}

// ---------------------------------------------------------------------------
// The variable map
// ---------------------------------------------------------------------------

/// Index of the last entry with key `k`.
pub open spec fn find_key(e: Seq<(Seq<char>, Seq<char>)>, k: Seq<char>) -> Option<int>
    decreases e.len(),
{
    if e.len() == 0 {
        None
    } else if e.last().0 == k {
        Some(e.len() - 1)
    } else {
        find_key(e.drop_last(), k)
    }
}

/// The entries after setting `k` to `v`: an existing entry keeps its place and
/// takes the new value; a new key goes last.
pub open spec fn put(e: Seq<(Seq<char>, Seq<char>)>, k: Seq<char>, v: Seq<char>) -> Seq<
    (Seq<char>, Seq<char>),
> {
    match find_key(e, k) {
        Some(i) => e.update(i, (k, v)),
        None => e.push((k, v)),
    }
}

/// The value of `k`, if any.
pub open spec fn lookup(e: Seq<(Seq<char>, Seq<char>)>, k: Seq<char>) -> Option<Seq<char>> {
    match find_key(e, k) {
        Some(i) => Some(e[i].1),
        None => None,
    }
}

proof fn lemma_find_key_bounds(e: Seq<(Seq<char>, Seq<char>)>, k: Seq<char>)
    ensures
        find_key(e, k) matches Some(i) ==> 0 <= i < e.len() && e[i].0 == k && forall|j: int|
            i < j < e.len() ==> #[trigger] e[j].0 != k,
        find_key(e, k) is None ==> forall|j: int| 0 <= j < e.len() ==> #[trigger] e[j].0 != k,
    decreases e.len(),
{
    if e.len() > 0 {
        lemma_find_key_bounds(e.drop_last(), k);
        if e.last().0 != k {
            assert forall|j: int| 0 <= j < e.len() - 1 implies #[trigger] e[j] == e.drop_last()[j] by {}
        }
    }
}

proof fn lemma_find_key_unique(e: Seq<(Seq<char>, Seq<char>)>, k: Seq<char>, i: int)
    requires
        0 <= i < e.len(),
        e[i].0 == k,
        forall|j: int| i < j < e.len() ==> #[trigger] e[j].0 != k,
    ensures
        find_key(e, k) == Some(i),
    decreases e.len(),
{
    if i < e.len() - 1 {
        assert(e.last() == e[e.len() - 1]);
        lemma_find_key_unique(e.drop_last(), k, i);
    }
}

/// After `put(e, k, v)`, `k` maps to `v` and every other key keeps its value.
pub proof fn lemma_lookup_put(e: Seq<(Seq<char>, Seq<char>)>, k: Seq<char>, v: Seq<char>, k2: Seq<
    char,
>)
    ensures
        lookup(put(e, k, v), k2) == if k2 == k {
            Some(v)
        } else {
            lookup(e, k2)
        },
{
    lemma_find_key_bounds(e, k);
    lemma_find_key_bounds(e, k2);
    let p = put(e, k, v);
    match find_key(e, k) {
        Some(i) => {
            if k2 == k {
                lemma_find_key_unique(p, k, i);
            } else {
                match find_key(e, k2) {
                    Some(i2) => {
                        lemma_find_key_unique(p, k2, i2);
                    },
                    None => {
                        lemma_find_key_bounds(p, k2);
                    },
                }
            }
        },
        None => {
            if k2 == k {
                lemma_find_key_unique(p, k, e.len() as int);
            } else {
                match find_key(e, k2) {
                    Some(i2) => {
                        lemma_find_key_unique(p, k2, i2);
                    },
                    None => {
                        lemma_find_key_bounds(p, k2);
                    },
                }
            }
        },
    }
}

/// Interpolation variables: an ordered list of `(key, value)` entries with
/// map semantics (setting a key again replaces its value in place).
#[derive(Debug)]
pub struct VarMap {
    entries: Vec<(String, String)>,
}

impl View for VarMap {
    type V = Seq<(Seq<char>, Seq<char>)>;

    closed spec fn view(&self) -> Seq<(Seq<char>, Seq<char>)> {
        self.entries@.map_values(|e: (String, String)| (e.0@, e.1@))
    }
}

impl VarMap {
    /// The empty map.
    pub fn new() -> (r: Self)
        ensures
            r@ == Seq::<(Seq<char>, Seq<char>)>::empty(),
    {
        let r = VarMap { entries: Vec::new() };
        assert(r@ =~= Seq::<(Seq<char>, Seq<char>)>::empty());
        r
    }

    /// Number of entries.
    pub fn len(&self) -> (n: usize)
        ensures
            n == self@.len(),
    {
        self.entries.len()
    }

    /// The key of entry `i`.
    pub fn key_at(&self, i: usize) -> (k: &String)
        requires
            i < self@.len(),
        ensures
            k@ == self@[i as int].0,
    {
        &self.entries[i].0
    }

    /// The value of entry `i`.
    pub fn value_at(&self, i: usize) -> (v: &String)
        requires
            i < self@.len(),
        ensures
            v@ == self@[i as int].1,
    {
        &self.entries[i].1
    }

    /// Sets `key` to `value`.
    pub fn insert(&mut self, key: String, value: String)
        ensures
            final(self)@ == put(old(self)@, key@, value@),
    {
        let ghost e = self@;
        let n = self.entries.len();
        let mut i = n;
        assert(e.take(n as int) =~= e);
        while i > 0
            invariant
                i <= n == self.entries@.len(),
                e == self@,
                e == old(self)@,
                find_key(e, key@) == find_key(e.take(i as int), key@),
            decreases i,
        {
            assert(e.take(i as int).drop_last() =~= e.take(i - 1));
            assert(e[i - 1] == (self.entries@[i - 1].0@, self.entries@[i - 1].1@));
            assert(e.take(i as int).last() == e[i - 1]);
            if self.entries[i - 1].0 == key {
                assert(find_key(e.take(i as int), key@) == Some((i - 1) as int));
                self.entries.set(i - 1, (key, value));
                assert(self@ =~= e.update(i - 1, (key@, value@)));
                return;
            }
            i = i - 1;
        }
        self.entries.push((key, value));
        assert(self@ =~= e.push((key@, value@)));
    }

    /// The value of `key`, if any.
    pub fn get(&self, key: &str) -> (r: Option<String>)
        ensures
            match lookup(self@, key@) {
                Some(v) => r is Some && r->0@ == v,
                None => r is None,
            },
    {
        let ghost e = self@;
        let n = self.entries.len();
        let mut i = n;
        assert(e.take(n as int) =~= e);
        while i > 0
            invariant
                i <= n == self.entries@.len(),
                e == self@,
                find_key(e, key@) == find_key(e.take(i as int), key@),
            decreases i,
        {
            assert(e.take(i as int).drop_last() =~= e.take(i - 1));
            assert(e[i - 1] == (self.entries@[i - 1].0@, self.entries@[i - 1].1@));
            assert(e.take(i as int).last() == e[i - 1]);
            if str_eq(self.entries[i - 1].0.as_str(), key) {
                return Some(self.entries[i - 1].1.clone());
            }
            i = i - 1;
        }
        None
    }

    /// A copy with the same entries.
    pub fn duplicate(&self) -> (r: Self)
        ensures
            r@ == self@,
    {
        let mut entries: Vec<(String, String)> = Vec::new();
        let n = self.entries.len();
        let mut i: usize = 0;
        while i < n
            invariant
                i <= n == self.entries@.len(),
                entries@.len() == i,
                forall|k: int|
                    0 <= k < i ==> (#[trigger] entries@[k]).0@ == self.entries@[k].0@
                        && entries@[k].1@ == self.entries@[k].1@,
            decreases n - i,
        {
            let e = &self.entries[i];
            entries.push((e.0.clone(), e.1.clone()));
            i = i + 1;
        }
        let r = VarMap { entries };
        assert(r@ =~= self@);
        r
    }
}

// ---------------------------------------------------------------------------
// Interpolation
// ---------------------------------------------------------------------------

/// `{key}`.
pub open spec fn placeholder(k: Seq<char>) -> Seq<char> {
    seq!['{'] + k + seq!['}']
}

/// Replaces `{key}` by its value for each entry in turn.
pub open spec fn interp(t: Seq<char>, e: Seq<(Seq<char>, Seq<char>)>) -> Seq<char>
    decreases e.len(),
{
    if e.len() == 0 {
        t
    } else {
        replace_all(interp(t, e.drop_last()), placeholder(e.last().0), e.last().1)
    }
}

/// Interpolate `{key}` placeholders in a command string: each entry's
/// placeholder is replaced everywhere by its value, entry after entry.
pub fn interpolate(template: &str, vars: &VarMap) -> (r: String)
    ensures
        r@ == interp(template@, vars@),
{
    let mut result = to_chars(template);
    let n = vars.len();
    let mut i: usize = 0;
    while i < n
        invariant
            i <= n == vars@.len(),
            result@ == interp(template@, vars@.take(i as int)),
        decreases n - i,
    {
        let mut pat: Vec<char> = Vec::new();
        pat.push('{');
        let kc = to_chars(vars.key_at(i).as_str());
        let mut k: usize = 0;
        while k < kc.len()
            invariant
                k <= kc@.len(),
                pat@ == seq!['{'] + kc@.take(k as int),
            decreases kc@.len() - k,
        {
            pat.push(kc[k]);
            k = k + 1;
            assert(pat@ =~= seq!['{'] + kc@.take(k as int));
        }
        pat.push('}');
        assert(kc@.take(kc@.len() as int) =~= kc@);
        assert(pat@ =~= placeholder(vars@[i as int].0));
        let rep = to_chars(vars.value_at(i).as_str());
        assert(vars@.take(i + 1).drop_last() =~= vars@.take(i as int));
        result = replace_chars(&result, &pat, &rep);
        i = i + 1;
    }
    assert(vars@.take(n as int) =~= vars@);
    from_chars(&result)
}

/// The variables for one repo's commands: the shared variables plus `port`,
/// the repo's own port, when it has one.
pub open spec fn repo_vars(e: Seq<(Seq<char>, Seq<char>)>, ports: Seq<u16>, i: int) -> Seq<
    (Seq<char>, Seq<char>),
> {
    if 0 <= i < ports.len() {
        put(e, "port"@, decimal(ports[i] as nat))
    } else {
        e
    }
}

/// The shared variables with `port` set to repo `i`'s port, if it has one.
pub fn with_repo_port(vars: &VarMap, ports: &PortAssignment, i: usize) -> (r: VarMap)
    ensures
        r@ == repo_vars(vars@, ports.repo_ports@, i as int),
{
    let mut r = vars.duplicate();
    if i < ports.repo_ports.len() {
        r.insert(String::from_str("port"), u64_to_decimal(ports.repo_ports[i] as u64));
    }
    r
}

// ---------------------------------------------------------------------------
// Slots
// ---------------------------------------------------------------------------

/// `r` is the smallest slot not in `used`, or 0 when every slot is taken.
pub open spec fn is_next_slot(used: Seq<u16>, r: u16) -> bool {
    if exists|s: u16| !used.contains(s) {
        &&& !used.contains(r)
        &&& forall|s: u16| s < r ==> used.contains(s)
    } else {
        r == 0
    }
}

fn contains_slot(used: &[u16], s: u16) -> (b: bool)
    ensures
        b == used@.contains(s),
{
    let n = used.len();
    let mut i: usize = 0;
    while i < n
        invariant
            i <= n == used@.len(),
            forall|k: int| 0 <= k < i ==> used@[k] != s,
        decreases n - i,
    {
        if used[i] == s {
            return true;
        }
        i = i + 1;
    }
    false
}

/// Find the next available slot not already in use.
pub fn next_available_slot(used_slots: &[u16]) -> (r: u16)
    ensures
        is_next_slot(used_slots@, r),
{
    let mut s: u32 = 0;
    while s <= 65535
        invariant
            s <= 65536,
            forall|t: u16| t < s ==> used_slots@.contains(t),
        decreases 65536 - s,
    {
        if !contains_slot(used_slots, s as u16) {
            return s as u16;
        }
        s = s + 1;
    }
    assert(forall|t: u16| used_slots@.contains(t));
    0
}

/// The slot recorded in a slot file: its trimmed content parsed as a `u16`.
pub open spec fn slot_of(content: Seq<char>) -> Option<u16> {
    match parse_unsigned(trimmed(content), u16::MAX as nat) {
        Some(v) => Some(v as u16),
        None => None,
    }
}

/// Parses the content of a slot file.
pub fn parse_slot(content: &str) -> (r: Option<u16>)
    ensures
        r == slot_of(content@),
{
    let v = to_chars(content);
    let t = trim_chars(&v);
    match parse_unsigned_chars(&t, 65535) {
        Some(x) => Some(x as u16),
        None => None,
    }
}

/// The slot of a worktree given what its slot file read as: 0 when the file
/// could not be read or does not hold a slot.
pub fn slot_or_zero(content: Option<&str>) -> (r: u16)
    ensures
        r == match content {
            Some(c) => match slot_of(c@) {
                Some(v) => v,
                None => 0,
            },
            None => 0,
        },
{
    match content {
        Some(c) => match parse_slot(c) {
            Some(v) => v,
            None => 0,
        },
        None => 0,
    }
}

/// The content written to a slot file.
pub fn slot_file_content(slot: u16) -> (r: String)
    ensures
        r@ == decimal(slot as nat),
{
    u64_to_decimal(slot as u64)
}


// ---------------------------------------------------------------------------
// Laws
// ---------------------------------------------------------------------------

/// What `new` writes to a slot file, a later read gives back.
pub proof fn lemma_slot_file_round_trip(slot: u16)
    ensures
        slot_of(decimal(slot as nat)) == Some(slot),
{
    lemma_parse_decimal(slot as nat, u16::MAX as nat);
}

/// With at most ten ports per slot, two different ports of the same or of
/// different slots never coincide: parallel worktrees never conflict.
pub proof fn lemma_slots_never_conflict(
    base: u16,
    s1: u16,
    s2: u16,
    count: nat,
    k1: nat,
    k2: nat,
)
    requires
        count <= 10,
        k1 < count,
        k2 < count,
        s1 != s2 || k1 != k2,
    ensures
        slot_port(base, s1, k1 as int) != slot_port(base, s2, k2 as int),
{
}

/// The slot chosen for a new worktree is not used by any existing one, and
/// (with at most ten ports per slot) none of its ports is a port of a used slot.
pub proof fn lemma_next_slot_is_free(
    used: Seq<u16>,
    r: u16,
    base: u16,
    count: nat,
    k1: nat,
    u: u16,
    k2: nat,
)
    requires
        is_next_slot(used, r),
        exists|s: u16| !used.contains(s),
        used.contains(u),
        count <= 10,
        k1 < count,
        k2 < count,
    ensures
        !used.contains(r),
        slot_port(base, r, k1 as int) != slot_port(base, u, k2 as int),
{
    lemma_slots_never_conflict(base, r, u, count, k1, k2);
}

/// No two entries share a key.
pub open spec fn keys_distinct(e: Seq<(Seq<char>, Seq<char>)>) -> bool {
    forall|i: int, j: int| 0 <= i < j < e.len() ==> #[trigger] e[i].0 != #[trigger] e[j].0
}

/// Setting a key keeps the keys distinct.
pub proof fn lemma_put_distinct(e: Seq<(Seq<char>, Seq<char>)>, k: Seq<char>, v: Seq<char>)
    requires
        keys_distinct(e),
    ensures
        keys_distinct(put(e, k, v)),
{
    lemma_find_key_bounds(e, k);
    let p = put(e, k, v);
    assert forall|i: int, j: int| 0 <= i < j < p.len() implies #[trigger] p[i].0 != #[trigger] p[j].0 by {
        match find_key(e, k) {
            Some(x) => {
                if i != x && j != x {
                    assert(p[i] == e[i] && p[j] == e[j]);
                } else if i == x {
                    assert(p[j] == e[j]);
                } else {
                    assert(p[i] == e[i]);
                }
            },
            None => {
                if j < e.len() {
                    assert(p[i] == e[i] && p[j] == e[j]);
                } else {
                    assert(p[i] == e[i]);
                }
            },
        }
    }
}

proof fn lemma_port_entries_distinct(
    e: Seq<(Seq<char>, Seq<char>)>,
    names: Seq<Seq<char>>,
    ports: Seq<u16>,
    n: nat,
)
    requires
        keys_distinct(e),
    ensures
        keys_distinct(port_entries(e, names, ports, n)),
    decreases n,
{
    if n > 0 {
        lemma_port_entries_distinct(e, names, ports, (n - 1) as nat);
        lemma_put_distinct(
            port_entries(e, names, ports, (n - 1) as nat),
            port_key_of(names[n - 1]),
            decimal(ports[n - 1] as nat),
        );
    }
}

proof fn lemma_port_entries_lookup(
    e: Seq<(Seq<char>, Seq<char>)>,
    names: Seq<Seq<char>>,
    ports: Seq<u16>,
    n: nat,
    k: Seq<char>,
)
    requires
        forall|j: int| 0 <= j < n ==> port_key_of(#[trigger] names[j]) != k,
    ensures
        lookup(port_entries(e, names, ports, n), k) == lookup(e, k),
    decreases n,
{
    if n > 0 {
        assert(port_key_of(names[n - 1]) != k);
        lemma_port_entries_lookup(e, names, ports, (n - 1) as nat, k);
        lemma_lookup_put(
            port_entries(e, names, ports, (n - 1) as nat),
            port_key_of(names[n - 1]),
            decimal(ports[n - 1] as nat),
            k,
        );
    }
}

proof fn lemma_port_entries_lookup_own(
    e: Seq<(Seq<char>, Seq<char>)>,
    names: Seq<Seq<char>>,
    ports: Seq<u16>,
    n: nat,
    i: int,
)
    requires
        0 <= i < n,
        forall|j: int| i < j < n ==> #[trigger] names[j] != names[i],
    ensures
        lookup(port_entries(e, names, ports, n), port_key_of(names[i])) == Some(
            decimal(ports[i] as nat),
        ),
    decreases n,
{
    let k = port_key_of(names[i]);
    let prev = port_entries(e, names, ports, (n - 1) as nat);
    lemma_lookup_put(prev, port_key_of(names[n - 1]), decimal(ports[n - 1] as nat), k);
    if i < n - 1 {
        assert(names[n - 1] != names[i]);
        assert(port_key_of(names[n - 1]) != k) by {
            if port_key_of(names[n - 1]) == k {
                assert(names[n - 1] =~= port_key_of(names[n - 1]).take(names[n - 1].len() as int));
                assert(names[i] =~= k.take(names[i].len() as int));
            }
        }
        lemma_port_entries_lookup_own(e, names, ports, (n - 1) as nat, i);
    }
}

/// The variable map gives `slug` the worktree's slug and `<name>_port` the
/// port of the repo or service called `name` (a service wins over a repo of
/// the same name, a later one over an earlier one); its keys are distinct.
pub proof fn lemma_variable_map_lookup(
    slug: Seq<char>,
    repo_names: Seq<Seq<char>>,
    repo_ports: Seq<u16>,
    service_names: Seq<Seq<char>>,
    service_ports: Seq<u16>,
    i: int,
    j: int,
)
    ensures
        ({
            let rn = min_len(repo_names.len(), repo_ports.len());
            let sn = min_len(service_names.len(), service_ports.len());
            let vars = port_entries(
                port_entries(seq![("slug"@, slug)], repo_names, repo_ports, rn),
                service_names,
                service_ports,
                sn,
            );
            &&& keys_distinct(vars)
            &&& lookup(vars, "slug"@) == Some(slug)
            &&& (0 <= i < rn && (forall|x: int| i < x < rn ==> #[trigger] repo_names[x] != repo_names[i])
                && (forall|y: int| 0 <= y < sn ==> #[trigger] service_names[y] != repo_names[i]))
                ==> lookup(vars, port_key_of(repo_names[i])) == Some(decimal(repo_ports[i] as nat))
            &&& (0 <= j < sn && (forall|y: int| j < y < sn ==> #[trigger] service_names[y] != service_names[j]))
                ==> lookup(vars, port_key_of(service_names[j])) == Some(
                decimal(service_ports[j] as nat),
            )
        }),
{
    let rn = min_len(repo_names.len(), repo_ports.len());
    let sn = min_len(service_names.len(), service_ports.len());
    let start = seq![("slug"@, slug)];
    let mid = port_entries(start, repo_names, repo_ports, rn);
    let vars = port_entries(mid, service_names, service_ports, sn);
    lemma_port_entries_distinct(start, repo_names, repo_ports, rn);
    lemma_port_entries_distinct(mid, service_names, service_ports, sn);
    assert forall|x: int| 0 <= x < rn implies port_key_of(#[trigger] repo_names[x]) != "slug"@ by {
        assert("slug"@.len() == 4) by {
            reveal_strlit("slug");
        }
        assert("_port"@.len() == 5) by {
            reveal_strlit("_port");
        }
    }
    assert forall|y: int| 0 <= y < sn implies port_key_of(#[trigger] service_names[y]) != "slug"@ by {
        assert("slug"@.len() == 4) by {
            reveal_strlit("slug");
        }
        assert("_port"@.len() == 5) by {
            reveal_strlit("_port");
        }
    }
    lemma_port_entries_lookup(start, repo_names, repo_ports, rn, "slug"@);
    lemma_port_entries_lookup(mid, service_names, service_ports, sn, "slug"@);
    lemma_find_key_unique(start, "slug"@, 0);
    if 0 <= i < rn && (forall|x: int| i < x < rn ==> #[trigger] repo_names[x] != repo_names[i]) && (
    forall|y: int| 0 <= y < sn ==> #[trigger] service_names[y] != repo_names[i]) {
        lemma_port_entries_lookup_own(start, repo_names, repo_ports, rn, i);
        assert forall|y: int| 0 <= y < sn implies port_key_of(#[trigger] service_names[y])
            != port_key_of(repo_names[i]) by {
            if port_key_of(service_names[y]) == port_key_of(repo_names[i]) {
                assert(service_names[y] =~= port_key_of(service_names[y]).take(
                    service_names[y].len() as int,
                ));
                assert(repo_names[i] =~= port_key_of(repo_names[i]).take(
                    repo_names[i].len() as int,
                ));
            }
        }
        lemma_port_entries_lookup(mid, service_names, service_ports, sn, port_key_of(repo_names[i]));
    }
    if 0 <= j < sn && (forall|y: int| j < y < sn ==> #[trigger] service_names[y] != service_names[j]) {
        lemma_port_entries_lookup_own(mid, service_names, service_ports, sn, j);
    }
}

/// The text has neither `{` nor `}`.
pub open spec fn brace_free(s: Seq<char>) -> bool {
    !s.contains('{') && !s.contains('}')
}

proof fn lemma_replace_other_placeholder(k: Seq<char>, k2: Seq<char>, v: Seq<char>)
    requires
        brace_free(k),
        brace_free(k2),
        k != k2,
    ensures
        replace_all(placeholder(k), placeholder(k2), v) == placeholder(k),
{
    let s = placeholder(k);
    let p = placeholder(k2);
    if s.len() >= p.len() {
        if s.take(p.len() as int) == p {
            let m = k2.len() as int;
            assert(p[m + 1] == '}');
            assert(s[m + 1] == '}');
            if m < k.len() {
                assert(s[m + 1] == k[m]);
                assert(k.contains('}'));
            } else {
                assert(m == k.len());
                assert(k =~= k2) by {
                    assert forall|x: int| 0 <= x < k.len() implies k[x] == k2[x] by {
                        assert(s[x + 1] == k[x]);
                        assert(p[x + 1] == k2[x]);
                        assert(s.take(p.len() as int)[x + 1] == s[x + 1]);
                    }
                }
            }
        }
        assert(s.take(p.len() as int) != p);
        let rest = s.skip(1);
        assert(rest =~= k + seq!['}']);
        assert(!rest.contains('{')) by {
            if rest.contains('{') {
                let x = choose|x: int| 0 <= x < rest.len() && rest[x] == '{';
                if x < k.len() {
                    assert(k[x] == '{');
                }
            }
        }
        lemma_replace_absent(rest, p, v);
        assert(seq![s[0]] + rest =~= s);
    }
}

/// A text without `{` comes out of interpolation unchanged.
pub proof fn lemma_interpolate_plain(t: Seq<char>, e: Seq<(Seq<char>, Seq<char>)>)
    requires
        !t.contains('{'),
    ensures
        interp(t, e) == t,
    decreases e.len(),
{
    if e.len() > 0 {
        lemma_interpolate_plain(t, e.drop_last());
        lemma_replace_absent(t, placeholder(e.last().0), e.last().1);
    }
}

/// Placeholder resolution: `{k}` becomes the value of `k`, or stays as it is
/// when `k` has no value (keys without braces, values without `{`).
pub proof fn lemma_interpolate_placeholder(k: Seq<char>, e: Seq<(Seq<char>, Seq<char>)>)
    requires
        keys_distinct(e),
        brace_free(k),
        forall|i: int| 0 <= i < e.len() ==> brace_free(#[trigger] e[i].0),
        forall|i: int| 0 <= i < e.len() ==> !(#[trigger] e[i].1).contains('{'),
    ensures
        interp(placeholder(k), e) == match lookup(e, k) {
            Some(v) => v,
            None => placeholder(k),
        },
    decreases e.len(),
{
    if e.len() > 0 {
        let d = e.drop_last();
        let last = e.last();
        assert(last == e[e.len() - 1]);
        assert forall|i: int, j: int| 0 <= i < j < d.len() implies #[trigger] d[i].0 != #[trigger] d[j].0 by {
            assert(d[i] == e[i] && d[j] == e[j]);
        }
        assert forall|i: int| 0 <= i < d.len() implies brace_free(#[trigger] d[i].0) && !d[i].1.contains('{') by {
            assert(d[i] == e[i]);
        }
        lemma_interpolate_placeholder(k, d);
        lemma_find_key_bounds(d, k);
        let prev = interp(placeholder(k), d);
        if last.0 == k {
            assert(find_key(d, k) is None) by {
                if find_key(d, k) is Some {
                    let x = find_key(d, k)->0;
                    assert(d[x] == e[x]);
                }
            }
            lemma_replace_whole(placeholder(k), last.1);
        } else {
            match lookup(d, k) {
                Some(v) => {
                    let x = find_key(d, k)->0;
                    assert(d[x] == e[x]);
                    lemma_replace_absent(v, placeholder(last.0), last.1);
                },
                None => {
                    lemma_replace_other_placeholder(k, last.0, last.1);
                },
            }
        }
    }
}

/// Within one repo's variables, `port` is that repo's port.
pub proof fn lemma_repo_vars_port(e: Seq<(Seq<char>, Seq<char>)>, ports: Seq<u16>, i: int, k: Seq<char>)
    requires
        0 <= i < ports.len(),
    ensures
        lookup(repo_vars(e, ports, i), "port"@) == Some(decimal(ports[i] as nat)),
        k != "port"@ ==> lookup(repo_vars(e, ports, i), k) == lookup(e, k),
{
    lemma_lookup_put(e, "port"@, decimal(ports[i] as nat), "port"@);
    lemma_lookup_put(e, "port"@, decimal(ports[i] as nat), k);
}

/// In the variables of commands and hooks, `workspace` is the workspace root
/// and every other key keeps its value from the variable map.
pub proof fn lemma_workspace_variable(
    slug: Seq<char>,
    repos: Seq<RepoConfig>,
    services: Seq<ServiceConfig>,
    repo_ports: Seq<u16>,
    service_ports: Seq<u16>,
    workspace: Seq<char>,
    k: Seq<char>,
)
    ensures
        lookup(workspace_entries(slug, repos, services, repo_ports, service_ports, workspace), "workspace"@)
            == Some(workspace),
        k != "workspace"@ ==> lookup(
            workspace_entries(slug, repos, services, repo_ports, service_ports, workspace),
            k,
        ) == lookup(variable_entries(slug, repos, services, repo_ports, service_ports), k),
{
    let e = variable_entries(slug, repos, services, repo_ports, service_ports);
    lemma_lookup_put(e, "workspace"@, workspace, "workspace"@);
    lemma_lookup_put(e, "workspace"@, workspace, k);
}

/// Slot allocation keeps worktrees apart: when the recorded slots are
/// pairwise distinct and some slot is free, the slot given to a new worktree
/// is the least free one, differs from every recorded slot, and reads back
/// from its slot file; so the recorded slots stay pairwise distinct.
pub proof fn lemma_slot_allocation(used: Seq<u16>, r: u16)
    requires
        used.no_duplicates(),
        exists|s: u16| !used.contains(s),
        is_next_slot(used, r),
    ensures
        !used.contains(r),
        forall|s: u16| s < r ==> used.contains(s),
        slot_of(decimal(r as nat)) == Some(r),
        used.push(r).no_duplicates(),
{
    lemma_slot_file_round_trip(r);
    let p = used.push(r);
    assert forall|i: int, j: int| 0 <= i < p.len() && 0 <= j < p.len() && i != j implies p[i] != p[j] by {
        if i < used.len() && j < used.len() {
            assert(p[i] == used[i] && p[j] == used[j]);
        } else if i == used.len() {
            assert(p[j] == used[j]);
            assert(used.contains(used[j]));
        } else {
            assert(p[i] == used[i]);
            assert(used.contains(used[i]));
        }
    }
}
} // verus!
