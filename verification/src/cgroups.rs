//! The cgroup v2 slice of each tenant: where it lives under the daemon's
//! root, what is written into it, and how the files read back from it are
//! interpreted. The file system itself is touched by the daemon binary; this
//! module decides paths, contents and outcomes.

use vstd::prelude::*;
use crate::config::{Tier, TierConfig, cpu_quota_of, invalid_tier_message, memory_max_of};
use crate::error::DaemonError;
use crate::jvm_forker::{ascii_bytes, pid_line};
use crate::paths::{join_spec, join_path, path_has_base, path_starts_with};
use crate::text::{
    IntErrorKind, chars_of, contains_char, contains_str, decimal, has_infix, is_ws, matches_at, occurs_at,
    parse_i32_range, parse_i32_spec, parse_u64_range, parse_u64_spec, skip_non_ws, skip_non_ws_from,
    parse_u64_trimmed, lemma_decimal_parses_u64, lemma_decimal_parses_i32, lemma_decimal_digits,
    is_digit, skip_ws_back, skip_ws, skip_ws_from, str_equal, trim, trim_bounds, trim_range, trimmed,
    u64_to_decimal, equal_ignoring_ascii_case, eq_ignore_ascii_case,
};

verus! {

/// Where the cgroup hierarchy lives when no root is configured.
pub const DEFAULT_CGROUP_ROOT: &'static str = "/sys/fs/cgroup/javapaas";

/// The file of the cgroup v2 mount that lists the available controllers.
pub const CONTROLLERS_FILE: &'static str = "/sys/fs/cgroup/cgroup.controllers";

/// The value written to `cgroup.subtree_control` of the root and of each tier
/// directory.
pub const SUBTREE_CONTROLLERS: &'static str = "+cpu +memory +io";

/// A name that cannot lead a path out of its directory: no `/`, no `\` and no
/// `..`.
pub open spec fn is_confined_name(s: Seq<char>) -> bool {
    !s.contains('/') && !s.contains('\\') && !has_infix(s, ".."@)
}

/// The directory of a tenant's cgroup: `root`, then the tier, then the tenant.
pub open spec fn tenant_dir(root: Seq<char>, tier: Seq<char>, tenant_id: Seq<char>) -> Seq<char> {
    join_spec(join_spec(root, tier), tenant_id)
}

/// A file inside a tenant's cgroup directory.
pub open spec fn tenant_file(
    root: Seq<char>,
    tier: Seq<char>,
    tenant_id: Seq<char>,
    file: Seq<char>,
) -> Seq<char> {
    join_spec(tenant_dir(root, tier, tenant_id), file)
}

/// Why a tier name and tenant id are refused, if they are.
pub open spec fn identifiers_error(tier: Seq<char>, tenant_id: Seq<char>) -> Option<Seq<char>> {
    if !is_confined_name(tier) {
        Some(bad_tier_name_message())
    } else if tenant_id.len() == 0 || !is_confined_name(tenant_id) {
        Some(bad_tenant_id_message())
    } else {
        None
    }
}

/// The controllers among those required that the text of
/// `cgroup.controllers` does not mention.
pub open spec fn missing_controllers(available: Seq<char>) -> Seq<Seq<char>> {
    (if has_infix(available, "memory"@) { Seq::<Seq<char>>::empty() } else { seq!["memory"@] })
        + (if has_infix(available, "cpu"@) { Seq::<Seq<char>>::empty() } else { seq!["cpu"@] })
}

/// The message of the error for a tenant whose cgroup is missing.
pub open spec fn missing_cgroup_message(tenant_id: Seq<char>, tier: Seq<char>) -> Seq<char> {
    "cgroup for tenant '"@ + tenant_id + "' in tier '"@ + tier + "' not found"@
}

/// The message of the error for a cgroup directory that could not be removed.
pub open spec fn removal_failed_message(dir: Seq<char>, error: Seq<char>) -> Seq<char> {
    "failed to remove cgroup "@ + dir + ": "@ + error
}

/// The message of the error for a cgroup directory that could not be created.
pub open spec fn create_failed_message(dir: Seq<char>, error: Seq<char>) -> Seq<char> {
    "failed to create cgroup dir "@ + dir + ": "@ + error
}

/// The directory that removing a tenant's cgroup works on: the tenant's
/// directory where it exists, nothing where it is gone.
pub open spec fn removal_dir(root: Seq<char>, tier: Seq<char>, tenant_id: Seq<char>, dir_exists: bool) -> Option<
    Seq<char>,
> {
    if dir_exists {
        Some(tenant_dir(root, tier, tenant_id))
    } else {
        None
    }
}

/// The message of the error for a tier name that could escape the root.
pub open spec fn bad_tier_name_message() -> Seq<char> {
    "invalid tier name"@
}

/// The message of the error for a tenant id that is empty or could escape the root.
pub open spec fn bad_tenant_id_message() -> Seq<char> {
    "invalid tenant_id: path separators and '..' are forbidden"@
}

/// The message of the error for a root that is neither on a cgroup v2 mount
/// nor under `/tmp`.
pub open spec fn not_mounted_message() -> Seq<char> {
    "cgroups v2 not mounted at /sys/fs/cgroup"@
}

/// A file to write and the text to write into it.
#[derive(Debug)]
pub struct CgroupWrite {
    pub path: String,
    pub contents: String,
}

impl CgroupWrite {
    pub open spec fn view_pair(&self) -> (Seq<char>, Seq<char>) {
        (self.path@, self.contents@)
    }
}

/// What creating a tenant's cgroup consists of: the directory to create and
/// the limit files to write into it, in order.
#[derive(Debug)]
pub struct TenantCgroupPlan {
    pub dir: String,
    pub tier: Tier,
    pub writes: Vec<CgroupWrite>,
}

/// The limit files of a tenant of tier `t` whose cgroup is `dir`, with their
/// contents: `memory.max`, `memory.swap.max`, `memory.oom.group`, `cpu.max`.
pub open spec fn limit_writes(dir: Seq<char>, t: Tier) -> Seq<(Seq<char>, Seq<char>)> {
    seq![
        (join_spec(dir, "memory.max"@), decimal(memory_max_of(t) as nat)),
        (join_spec(dir, "memory.swap.max"@), decimal(0)),
        (join_spec(dir, "memory.oom.group"@), "1"@),
        (join_spec(dir, "cpu.max"@), decimal(cpu_quota_of(t) as nat) + " "@ + decimal(100_000)),
    ]
}

/// The files rewritten when a tenant keeps its tier: `memory.max` and `cpu.max`.
pub open spec fn live_update_writes(dir: Seq<char>, t: Tier) -> Seq<(Seq<char>, Seq<char>)> {
    seq![
        (join_spec(dir, "memory.max"@), decimal(memory_max_of(t) as nat)),
        (join_spec(dir, "cpu.max"@), decimal(cpu_quota_of(t) as nat) + " "@ + decimal(100_000)),
    ]
}

/// How a tenant's cgroup changes tier.
#[derive(Debug)]
pub enum ResizePlan {
    /// Same tier, letter case aside: rewrite the limits of the existing cgroup.
    InPlace { writes: Vec<CgroupWrite> },
    /// Another tier: create the target cgroup, move every process of the old
    /// cgroup into `procs` (the target's `cgroup.procs`), then remove the old
    /// cgroup.
    Migrate { target: TenantCgroupPlan, procs: String },
}

/// How removing a cgroup directory went, as the file system reported it.
#[derive(Debug)]
pub enum RemoveDirOutcome {
    Removed,
    /// The directory was already gone.
    Missing,
    /// The directory still held files; `cleared` tells whether removing it
    /// with everything inside then left no trace of it.
    NotEmpty { cleared: bool, error: String },
    /// Any other failure, with the error's text.
    Failed { error: String },
}

/// The end of the line that starts at `i`: the index of the next newline, or
/// the end of `s`.
pub open spec fn line_end(s: Seq<char>, i: int) -> int
    decreases s.len() - i,
{
    if i >= s.len() || s[i] == '\n' {
        i
    } else {
        line_end(s, i + 1)
    }
}

pub proof fn lemma_line_end_bounds(s: Seq<char>, i: int)
    requires
        0 <= i <= s.len(),
    ensures
        i <= line_end(s, i) <= s.len(),
        line_end(s, i) < s.len() ==> s[line_end(s, i)] == '\n',
        forall|k: int| i <= k < line_end(s, i) ==> #[trigger] s[k] != '\n',
    decreases s.len() - i,
{
    if i < s.len() && s[i] != '\n' {
        lemma_line_end_bounds(s, i + 1);
    }
}

/// The process ids listed in `s` from index `i` on: each line, without its
/// surrounding white space, that reads as an `i32`, in order; other lines are
/// passed over.
pub open spec fn pids_from(s: Seq<char>, i: int) -> Seq<i32>
    decreases s.len() - i,
    when 0 <= i <= s.len()
{
    let e = line_end(s, i);
    let (a, b) = trim_bounds(s, i, e);
    let here = match parse_i32_spec(s.subrange(a, b)) {
        Ok(p) => seq![p],
        Err(_) => Seq::<i32>::empty(),
    };
    if e >= s.len() {
        here
    } else {
        proof {
            lemma_line_end_bounds(s, i);
        }
        here + pids_from(s, e + 1)
    }
}

/// Bounds of the second white-space separated word of `s[lo..hi]`, if any.
pub open spec fn second_word(s: Seq<char>, lo: int, hi: int) -> Option<(int, int)> {
    let a1 = skip_ws(s, lo, hi);
    if a1 >= hi {
        None
    } else {
        let a2 = skip_ws(s, skip_non_ws(s, a1, hi), hi);
        if a2 >= hi {
            None
        } else {
            Some((a2, skip_non_ws(s, a2, hi)))
        }
    }
}

/// What the line `s[i..e]` says of the OOM kill count: for a line that starts
/// with `oom_kill` and has a second word, that word read as a `u64`.
pub open spec fn oom_line(s: Seq<char>, i: int, e: int) -> Option<Result<u64, IntErrorKind>> {
    if occurs_at(s.subrange(i, e), "oom_kill"@, 0) {
        match second_word(s, i, e) {
            Some((a, b)) => Some(parse_u64_spec(s.subrange(a, b))),
            None => None,
        }
    } else {
        None
    }
}

/// The first line from index `i` on that states the OOM kill count, read.
pub open spec fn oom_scan(s: Seq<char>, i: int) -> Option<Result<u64, IntErrorKind>>
    decreases s.len() - i,
    when 0 <= i <= s.len()
{
    let e = line_end(s, i);
    match oom_line(s, i, e) {
        Some(r) => Some(r),
        None => if e >= s.len() {
            None
        } else {
            proof {
                lemma_line_end_bounds(s, i);
            }
            oom_scan(s, e + 1)
        },
    }
}

fn find_line_end(v: &Vec<char>, i: usize) -> (e: usize)
    requires
        i <= v.len(),
    ensures
        e as int == line_end(v@, i as int),
        i <= e <= v.len(),
{
    let mut k = i;
    while k < v.len() && v[k] != '\n'
        invariant
            i <= k <= v.len(),
            line_end(v@, k as int) == line_end(v@, i as int),
        decreases v.len() - k,
    {
        k = k + 1;
    }
    k
}

fn second_word_range(v: &Vec<char>, lo: usize, hi: usize) -> (r: Option<(usize, usize)>)
    requires
        lo <= hi <= v.len(),
    ensures
        match second_word(v@, lo as int, hi as int) {
            Some((a, b)) => r == Some((a as usize, b as usize)) && lo <= a <= b <= hi,
            None => r is None,
        },
{
    let a1 = skip_ws_from(v, lo, hi);
    if a1 >= hi {
        return None;
    }
    let b1 = skip_non_ws_from(v, a1, hi);
    let a2 = skip_ws_from(v, b1, hi);
    if a2 >= hi {
        return None;
    }
    let b2 = skip_non_ws_from(v, a2, hi);
    Some((a2, b2))
}

/// A cgroup v2 hierarchy owned by the daemon, rooted at a directory.
#[derive(Debug)]
pub struct CgroupManager {
    root: String,
}

impl CgroupManager {
    /// The hierarchy's root directory.
    pub closed spec fn root_view(&self) -> Seq<char> {
        self.root@
    }

    /// A manager of the hierarchy rooted at `root`.
    pub fn with_root(root: String) -> (m: Self)
        ensures
            m.root_view() == root@,
    {
        CgroupManager { root }
    }

    /// A manager of the hierarchy rooted at the configured directory, or at
    /// [`DEFAULT_CGROUP_ROOT`] when none is configured.
    pub fn new(configured: Option<String>) -> (m: Self)
        ensures
            m.root_view() == match configured {
                Some(r) => r@,
                None => DEFAULT_CGROUP_ROOT@,
            },
    {
        match configured {
            Some(r) => CgroupManager { root: r },
            None => CgroupManager { root: String::from_str(DEFAULT_CGROUP_ROOT) },
        }
    }

    /// The hierarchy's root directory.
    pub fn root(&self) -> (r: &str)
        ensures
            r@ == self.root_view(),
    {
        self.root.as_str()
    }

    /// Refuses a tier name or tenant id that could lead outside the tier's
    /// directory, and an empty tenant id.
    pub fn validate_identifiers(tier: &str, tenant_id: &str) -> (r: Result<(), DaemonError>)
        ensures
            match identifiers_error(tier@, tenant_id@) {
                None => r is Ok,
                Some(m) => r matches Err(e) && e.is_invalid_input(m),
            },
    {
        if contains_char(tier, '/') || contains_char(tier, '\\') || contains_str(tier, "..") {
            return Err(DaemonError::InvalidInput(String::from_str("invalid tier name")));
        }
        if tenant_id.unicode_len() == 0 || contains_char(tenant_id, '/') || contains_char(
            tenant_id,
            '\\',
        ) || contains_str(tenant_id, "..") {
            return Err(
                DaemonError::InvalidInput(
                    String::from_str("invalid tenant_id: path separators and '..' are forbidden"),
                ),
            );
        }
        Ok(())
    }

    /// The cgroup directory of a tenant.
    pub fn tenant_path(&self, tier: &str, tenant_id: &str) -> (p: String)
        ensures
            p@ == tenant_dir(self.root_view(), tier@, tenant_id@),
    {
        let t = join_path(self.root.as_str(), tier);
        join_path(t.as_str(), tenant_id)
    }

    /// A file inside the cgroup directory of a tenant.
    pub fn tenant_file_path(&self, tier: &str, tenant_id: &str, file: &str) -> (p: String)
        ensures
            p@ == tenant_file(self.root_view(), tier@, tenant_id@, file@),
    {
        let d = self.tenant_path(tier, tenant_id);
        join_path(d.as_str(), file)
    }

    /// The `cgroup.procs` file of a tenant.
    pub fn tenant_procs_path(&self, tier: &str, tenant_id: &str) -> (p: String)
        ensures
            p@ == tenant_file(self.root_view(), tier@, tenant_id@, "cgroup.procs"@),
    {
        self.tenant_file_path(tier, tenant_id, "cgroup.procs")
    }

    /// The `memory.events` file of a tenant.
    pub fn tenant_events_path(&self, tier: &str, tenant_id: &str) -> (p: String)
        ensures
            p@ == tenant_file(self.root_view(), tier@, tenant_id@, "memory.events"@),
    {
        self.tenant_file_path(tier, tenant_id, "memory.events")
    }
}


impl CgroupManager {
    /// Checks that the daemon can use the cgroup v2 mount. `controllers` is the
    /// text of the mount's `cgroup.controllers` file, or `None` when that file
    /// does not exist. With the file, the answer lists the required controllers
    /// it does not mention (to be warned about); without it, only a root under
    /// `/tmp` (a stand-in hierarchy) is accepted.
    pub fn mount_check(&self, controllers: Option<&str>) -> (r: Result<Vec<&'static str>, DaemonError>)
        ensures
            match controllers {
                Some(c) => r matches Ok(missing) && missing@.map_values(|m: &str| m@)
                    == missing_controllers(c@),
                None => if path_has_base(self.root_view(), "/tmp"@) {
                    r matches Ok(missing) && missing@.len() == 0
                } else {
                    r matches Err(e) && e.is_cgroup(not_mounted_message())
                },
            },
    {
        match controllers {
            Some(c) => {
                let mut missing: Vec<&'static str> = Vec::new();
                if !contains_str(c, "memory") {
                    missing.push("memory");
                }
                if !contains_str(c, "cpu") {
                    missing.push("cpu");
                }
                assert(missing@.map_values(|m: &str| m@) =~= missing_controllers(c@));
                Ok(missing)
            },
            None => {
                if path_starts_with(self.root.as_str(), "/tmp") {
                    Ok(Vec::new())
                } else {
                    Err(DaemonError::Cgroup(String::from_str("cgroups v2 not mounted at /sys/fs/cgroup")))
                }
            },
        }
    }

    /// The directory of a tier under the root.
    pub fn tier_path(&self, tier: &str) -> (p: String)
        ensures
            p@ == join_spec(self.root_view(), tier@),
    {
        join_path(self.root.as_str(), tier)
    }

    /// The directories of the hierarchy, parents first: the root, then one per
    /// tier.
    pub fn hierarchy_dirs(&self) -> (dirs: Vec<String>)
        ensures
            dirs@.map_values(|d: String| d@) == seq![
                self.root_view(),
                join_spec(self.root_view(), "silver"@),
                join_spec(self.root_view(), "gold"@),
                join_spec(self.root_view(), "platinum"@),
            ],
    {
        let mut dirs: Vec<String> = Vec::new();
        dirs.push(self.root.clone());
        dirs.push(self.tier_path("silver"));
        dirs.push(self.tier_path("gold"));
        dirs.push(self.tier_path("platinum"));
        assert(dirs@.map_values(|d: String| d@) =~= seq![
            self.root_view(),
            join_spec(self.root_view(), "silver"@),
            join_spec(self.root_view(), "gold"@),
            join_spec(self.root_view(), "platinum"@),
        ]);
        dirs
    }

    /// The `cgroup.subtree_control` file of a directory of the hierarchy.
    pub fn subtree_control_path(dir: &str) -> (p: String)
        ensures
            p@ == join_spec(dir@, "cgroup.subtree_control"@),
    {
        join_path(dir, "cgroup.subtree_control")
    }

    /// Whether a `cgroup.subtree_control` file that reads `current` already
    /// enables [`SUBTREE_CONTROLLERS`], so that it need not be written.
    pub fn subtree_control_is_current(current: &str) -> (b: bool)
        ensures
            b == (trimmed(current@) == SUBTREE_CONTROLLERS@),
    {
        let t = trim(current);
        str_equal(t, SUBTREE_CONTROLLERS)
    }

    fn limit_plan(dir: &String, config: &TierConfig) -> (writes: Vec<CgroupWrite>)
        requires
            config.describes(config.tier),
        ensures
            writes@.map_values(|w: CgroupWrite| w.view_pair()) == limit_writes(dir@, config.tier),
    {
        let mut writes: Vec<CgroupWrite> = Vec::new();
        writes.push(CgroupWrite {
            path: join_path(dir.as_str(), "memory.max"),
            contents: u64_to_decimal(config.cgroup_memory_max),
        });
        writes.push(CgroupWrite {
            path: join_path(dir.as_str(), "memory.swap.max"),
            contents: u64_to_decimal(config.cgroup_memory_swap_max),
        });
        writes.push(CgroupWrite {
            path: join_path(dir.as_str(), "memory.oom.group"),
            contents: String::from_str("1"),
        });
        writes.push(CgroupWrite {
            path: join_path(dir.as_str(), "cpu.max"),
            contents: config.cpu_max_string(),
        });
        assert(writes@.map_values(|w: CgroupWrite| w.view_pair()) =~= limit_writes(dir@, config.tier));
        writes
    }

    /// What creating a tenant's cgroup consists of: after the identifiers are
    /// validated and the tier is read, the tenant's directory and its limit
    /// files.
    pub fn tenant_plan(&self, tier: &str, tenant_id: &str) -> (r: Result<TenantCgroupPlan, DaemonError>)
        ensures
            match identifiers_error(tier@, tenant_id@) {
                Some(m) => r matches Err(e) && e.is_invalid_input(m),
                None => match Tier::named(tier@) {
                    None => r matches Err(e) && e.is_invalid_input(invalid_tier_message(tier@)),
                    Some(t) => r matches Ok(p) && p.tier == t && p.dir@ == tenant_dir(
                        self.root_view(),
                        tier@,
                        tenant_id@,
                    ) && p.writes@.map_values(|w: CgroupWrite| w.view_pair()) == limit_writes(
                        p.dir@,
                        t,
                    ),
                },
            },
    {
        CgroupManager::validate_identifiers(tier, tenant_id)?;
        let t = Tier::parse(tier)?;
        let config = TierConfig::for_tier(t);
        let dir = self.tenant_path(tier, tenant_id);
        let writes = CgroupManager::limit_plan(&dir, &config);
        Ok(TenantCgroupPlan { dir, tier: t, writes })
    }

    /// The process ids listed in the text of a `cgroup.procs` file: every line
    /// that reads as a number, in order.
    pub fn parse_pids(content: &str) -> (pids: Vec<i32>)
        ensures
            pids@ == pids_from(content@, 0),
    {
        let v = chars_of(content);
        let mut out: Vec<i32> = Vec::new();
        let mut i: usize = 0;
        loop
            invariant
                v@ == content@,
                i <= v.len(),
                out@ + pids_from(v@, i as int) == pids_from(v@, 0),
            decreases v.len() - i,
        {
            let e = find_line_end(&v, i);
            let (a, b) = trim_range(&v, i, e);
            let ghost before = out@;
            match parse_i32_range(&v, a, b) {
                Ok(p) => out.push(p),
                Err(_) => {},
            }
            if e >= v.len() {
                assert(out@ =~= before + pids_from(v@, i as int));
                return out;
            }
            proof {
                lemma_line_end_bounds(v@, i as int);
                assert(out@ + pids_from(v@, e + 1) =~= before + pids_from(v@, i as int));
            }
            i = e + 1;
        }
    }

    /// Reads the text of a single-number cgroup file such as `memory.current`
    /// or `memory.max`, named `file_name` in the error.
    pub fn parse_counter(content: &str, file_name: &str) -> (r: Result<u64, DaemonError>)
        ensures
            match parse_u64_spec(trimmed(content@)) {
                Ok(n) => r == Ok::<u64, DaemonError>(n),
                Err(k) => r matches Err(e) && e.is_cgroup(
                    "invalid "@ + file_name@ + ": "@ + k.text(),
                ),
            },
    {
        match parse_u64_trimmed(content) {
            Ok(n) => Ok(n),
            Err(k) => Err(
                DaemonError::Cgroup(
                    String::from_str("invalid ").concat(file_name).concat(": ").concat(
                        k.message().as_str(),
                    ),
                ),
            ),
        }
    }

    /// The memory limit of a tenant whose cgroup has no `memory.max` file: the
    /// limit of its tier.
    pub fn memory_max_default(tier: &str) -> (r: Result<u64, DaemonError>)
        ensures
            match Tier::named(tier@) {
                Some(t) => r == Ok::<u64, DaemonError>(memory_max_of(t)),
                None => r matches Err(e) && e.is_invalid_input(invalid_tier_message(tier@)),
            },
    {
        let t = Tier::parse(tier)?;
        Ok(TierConfig::for_tier(t).cgroup_memory_max)
    }

    /// The OOM kill count stated by the text of a `memory.events` file: the
    /// second word of the first line that starts with `oom_kill` and has one,
    /// or 0 when no line does.
    pub fn parse_oom_kill_count(content: &str) -> (r: Result<u64, DaemonError>)
        ensures
            match oom_scan(content@, 0) {
                None => r == Ok::<u64, DaemonError>(0),
                Some(Ok(n)) => r == Ok::<u64, DaemonError>(n),
                Some(Err(k)) => r matches Err(e) && e.is_cgroup(
                    "invalid oom_kill count: "@ + k.text(),
                ),
            },
    {
        let v = chars_of(content);
        let key = chars_of("oom_kill");
        let mut i: usize = 0;
        loop
            invariant
                v@ == content@,
                key@ == "oom_kill"@,
                i <= v.len(),
                oom_scan(v@, i as int) == oom_scan(v@, 0),
            decreases v.len() - i,
        {
            let e = find_line_end(&v, i);
            let starts = key.len() <= e - i && matches_at(&v, &key, i);
            proof {
                if key.len() <= e - i {
                    assert(v@.subrange(i as int, e as int).subrange(0, key@.len() as int)
                        =~= v@.subrange(i as int, i + key@.len()));
                }
            }
            assert(starts == occurs_at(v@.subrange(i as int, e as int), "oom_kill"@, 0));
            if starts {
                match second_word_range(&v, i, e) {
                    Some((a, b)) => {
                        return match parse_u64_range(&v, a, b) {
                            Ok(n) => Ok(n),
                            Err(k) => Err(
                                DaemonError::Cgroup(
                                    String::from_str("invalid oom_kill count: ").concat(
                                        k.message().as_str(),
                                    ),
                                ),
                            ),
                        };
                    },
                    None => {},
                }
            }
            if e >= v.len() {
                return Ok(0);
            }
            proof {
                lemma_line_end_bounds(v@, i as int);
            }
            i = e + 1;
        }
    }

    /// Plans moving a tenant's cgroup from `current_tier` to `new_tier`;
    /// `cgroup_exists` tells whether the tenant's directory under
    /// `current_tier` exists.
    pub fn resize_plan(
        &self,
        current_tier: &str,
        tenant_id: &str,
        new_tier: &str,
        cgroup_exists: bool,
    ) -> (r: Result<ResizePlan, DaemonError>)
        ensures
            match identifiers_error(current_tier@, tenant_id@) {
                Some(m) => r matches Err(e) && e.is_invalid_input(m),
                None => match identifiers_error(new_tier@, tenant_id@) {
                    Some(m) => r matches Err(e) && e.is_invalid_input(m),
                    None => match Tier::named(new_tier@) {
                        None => r matches Err(e) && e.is_invalid_input(
                            invalid_tier_message(new_tier@),
                        ),
                        Some(t) => if !cgroup_exists {
                            r matches Err(e) && e.is_not_found(
                                missing_cgroup_message(tenant_id@, current_tier@),
                            )
                        } else if equal_ignoring_ascii_case(current_tier@, new_tier@) {
                            r matches Ok(ResizePlan::InPlace { writes }) && writes@.map_values(
                                |w: CgroupWrite| w.view_pair(),
                            ) == live_update_writes(
                                tenant_dir(self.root_view(), current_tier@, tenant_id@),
                                t,
                            )
                        } else {
                            r matches Ok(ResizePlan::Migrate { target, procs }) && target.tier == t
                                && target.dir@ == tenant_dir(self.root_view(), new_tier@, tenant_id@)
                                && target.writes@.map_values(|w: CgroupWrite| w.view_pair())
                                == limit_writes(target.dir@, t) && procs@ == join_spec(
                                target.dir@,
                                "cgroup.procs"@,
                            )
                        },
                    },
                },
            },
    {
        CgroupManager::validate_identifiers(current_tier, tenant_id)?;
        CgroupManager::validate_identifiers(new_tier, tenant_id)?;
        let t = Tier::parse(new_tier)?;
        let config = TierConfig::for_tier(t);
        if !cgroup_exists {
            return Err(
                DaemonError::NotFound(
                    String::from_str("cgroup for tenant '").concat(tenant_id).concat(
                        "' in tier '",
                    ).concat(current_tier).concat("' not found"),
                ),
            );
        }
        if eq_ignore_ascii_case(current_tier, new_tier) {
            let dir = self.tenant_path(current_tier, tenant_id);
            let mut writes: Vec<CgroupWrite> = Vec::new();
            writes.push(CgroupWrite {
                path: join_path(dir.as_str(), "memory.max"),
                contents: u64_to_decimal(config.cgroup_memory_max),
            });
            writes.push(CgroupWrite {
                path: join_path(dir.as_str(), "cpu.max"),
                contents: config.cpu_max_string(),
            });
            assert(writes@.map_values(|w: CgroupWrite| w.view_pair()) =~= live_update_writes(
                dir@,
                t,
            ));
            return Ok(ResizePlan::InPlace { writes });
        }
        let target = match self.tenant_plan(new_tier, tenant_id) {
            Ok(p) => p,
            Err(e) => {
                return Err(e);
            },
        };
        let procs = join_path(target.dir.as_str(), "cgroup.procs");
        Ok(ResizePlan::Migrate { target, procs })
    }

    /// The directory to remove for a tenant, once its identifiers are
    /// validated: `None` where the directory does not exist, so that there is
    /// nothing to kill or remove.
    pub fn removal_target(&self, tier: &str, tenant_id: &str, dir_exists: bool) -> (r: Result<
        Option<String>,
        DaemonError,
    >)
        ensures
            match identifiers_error(tier@, tenant_id@) {
                Some(m) => r matches Err(e) && e.is_invalid_input(m),
                None => match removal_dir(self.root_view(), tier@, tenant_id@, dir_exists) {
                    Some(d) => r matches Ok(Some(p)) && p@ == d,
                    None => r matches Ok(None),
                },
            },
    {
        CgroupManager::validate_identifiers(tier, tenant_id)?;
        if dir_exists {
            Ok(Some(self.tenant_path(tier, tenant_id)))
        } else {
            Ok(None)
        }
    }

    /// The error for a tenant's cgroup directory that could not be created.
    pub fn create_dir_error(dir: &str, error: &str) -> (e: DaemonError)
        ensures
            e.is_cgroup(create_failed_message(dir@, error@)),
    {
        DaemonError::Cgroup(
            String::from_str("failed to create cgroup dir ").concat(dir).concat(": ").concat(error),
        )
    }

    /// The `cgroup.kill` file of a cgroup directory, written with `1` to kill
    /// every process in the cgroup where the kernel offers it.
    pub fn kill_switch_path(dir: &str) -> (p: String)
        ensures
            p@ == join_spec(dir@, "cgroup.kill"@),
    {
        join_path(dir, "cgroup.kill")
    }

    /// The result of removing the cgroup directory `dir`: a directory that is
    /// gone, or that was gone already, is a success.
    pub fn removal_result(dir: &str, outcome: RemoveDirOutcome) -> (r: Result<(), DaemonError>)
        ensures
            match outcome {
                RemoveDirOutcome::Removed => r is Ok,
                RemoveDirOutcome::Missing => r is Ok,
                RemoveDirOutcome::NotEmpty { cleared, error } => if cleared {
                    r is Ok
                } else {
                    r matches Err(e) && e.is_cgroup(removal_failed_message(dir@, error@))
                },
                RemoveDirOutcome::Failed { error } => r matches Err(e) && e.is_cgroup(
                    removal_failed_message(dir@, error@),
                ),
            },
    {
        match outcome {
            RemoveDirOutcome::Removed => Ok(()),
            RemoveDirOutcome::Missing => Ok(()),
            RemoveDirOutcome::NotEmpty { cleared, error } => if cleared {
                Ok(())
            } else {
                Err(CgroupManager::removal_error(dir, &error))
            },
            RemoveDirOutcome::Failed { error } => Err(CgroupManager::removal_error(dir, &error)),
        }
    }

    fn removal_error(dir: &str, error: &String) -> (e: DaemonError)
        ensures
            e.is_cgroup(removal_failed_message(dir@, error@)),
    {
        DaemonError::Cgroup(
            String::from_str("failed to remove cgroup ").concat(dir).concat(": ").concat(
                error.as_str(),
            ),
        )
    }
}

/// Rounds in which the processes left in a cgroup are killed before its
/// directory is removed.
pub const REMOVAL_KILL_ROUNDS: u32 = 10;

/// Pause after each of those rounds, in milliseconds.
pub const REMOVAL_ROUND_PAUSE_MS: u64 = 50;

/// Whether another kill round is due before removing a cgroup: `round` rounds
/// have passed and `remaining` processes are still listed.
pub fn removal_needs_kill_round(round: u32, remaining: usize) -> (b: bool)
    ensures
        b == (round < REMOVAL_KILL_ROUNDS && remaining > 0),
{
    round < REMOVAL_KILL_ROUNDS && remaining > 0
}


/// Removing a tenant's cgroup once its directory is gone, as after an earlier
/// removal that succeeded, touches nothing: with valid identifiers there is no
/// directory to kill in or remove, and the removal succeeds. While the
/// directory exists, it is the tenant's own directory under the root that is
/// worked on.
pub proof fn law_removal_of_absent_cgroup_is_noop(root: Seq<char>, tier: Seq<char>, tenant_id: Seq<char>)
    requires
        identifiers_error(tier, tenant_id) is None,
    ensures
        removal_dir(root, tier, tenant_id, false) is None,
        removal_dir(root, tier, tenant_id, true) == Some(tenant_dir(root, tier, tenant_id)),
{
}

/// What `memory.max` of a new tenant's cgroup is written with reads back as
/// the tier's memory limit, the same value that is assumed when the file is
/// missing.
pub proof fn law_memory_limit_reads_back(dir: Seq<char>, t: Tier)
    ensures
        limit_writes(dir, t)[0].0 == join_spec(dir, "memory.max"@),
        parse_u64_spec(trimmed(limit_writes(dir, t)[0].1)) == Ok::<u64, IntErrorKind>(
            memory_max_of(t),
        ),
{
    lemma_decimal_parses_u64(memory_max_of(t));
}

/// The line a child writes into `cgroup.procs` to join its cgroup is the
/// decimal form of its process id and a newline, and a `cgroup.procs` that
/// holds just that line reads back as that process.
pub proof fn law_pid_line_reads_back(pid: i32)
    requires
        pid >= 0,
    ensures
        ascii_bytes(decimal(pid as nat).push('\n')) == pid_line(pid),
        pids_from(decimal(pid as nat).push('\n'), 0) == seq![pid],
{
    let d = decimal(pid as nat);
    let s = d.push('\n');
    assert(ascii_bytes(s) =~= pid_line(pid));
    lemma_decimal_parses_i32(pid);
    lemma_decimal_digits(pid as nat);
    let n = d.len() as int;
    assert forall|k: int| 0 <= k < n implies #[trigger] s[k] != '\n' by {
        assert(s[k] == d[k]);
        assert(is_digit(d[k]));
    }
    lemma_line_end_stops(s, 0, n);
    lemma_skip_ws_on(s, d, 0, n);
    lemma_skip_ws_back_on(s, d, 0, n);
    assert(s.subrange(0, n) =~= d);
    assert(line_end(s, n + 1) == n + 1);
    assert(pids_from(s, n + 1) =~= Seq::<i32>::empty());
    assert(pids_from(s, 0) =~= seq![pid]);
}

proof fn lemma_line_end_stops(s: Seq<char>, i: int, e: int)
    requires
        0 <= i <= e < s.len(),
        s[e] == '\n',
        forall|k: int| i <= k < e ==> #[trigger] s[k] != '\n',
    ensures
        line_end(s, i) == e,
    decreases e - i,
{
    if i < e {
        lemma_line_end_stops(s, i + 1, e);
    }
}

proof fn lemma_skip_ws_on(s: Seq<char>, d: Seq<char>, i: int, n: int)
    requires
        0 <= i <= n,
        n == d.len(),
        n <= s.len(),
        n >= 1,
        forall|k: int| 0 <= k < n ==> s[k] == d[k],
        !is_ws(d[0]),
        i == 0,
    ensures
        skip_ws(s, i, n) == 0,
{
    assert(s[0] == d[0]);
}

proof fn lemma_skip_ws_back_on(s: Seq<char>, d: Seq<char>, a: int, n: int)
    requires
        0 == a,
        n == d.len(),
        n <= s.len(),
        n >= 1,
        forall|k: int| 0 <= k < n ==> s[k] == d[k],
        !is_ws(d[n - 1]),
    ensures
        skip_ws_back(s, a, n) == n,
{
    assert(s[n - 1] == d[n - 1]);
}

/// The root as the start of a path below it: followed by a separator unless
/// it is empty or ends in one already.
pub open spec fn root_prefix(root: Seq<char>) -> Seq<char> {
    if root.len() > 0 && root.last() != '/' {
        root + seq!['/']
    } else {
        root
    }
}

/// The part of a tenant's cgroup directory below the root: the tier and the
/// tenant id, or the tenant id alone under an empty tier name.
pub open spec fn below_root(tier: Seq<char>, tenant_id: Seq<char>) -> Seq<char> {
    if tier.len() == 0 {
        tenant_id
    } else {
        tier + seq!['/'] + tenant_id
    }
}

/// Identifiers that pass validation cannot lead a tenant's cgroup out of the
/// root, whatever the root and the tier name: the directory is the root and a
/// separator (none is added to an empty root or one that ends in a
/// separator), then a relative part that holds no `..` anywhere, so none of
/// its components is `..`.
pub proof fn law_tenant_dir_stays_under_root(root: Seq<char>, tier: Seq<char>, tenant_id: Seq<char>)
    requires
        identifiers_error(tier, tenant_id) is None,
    ensures
        tenant_dir(root, tier, tenant_id) == root_prefix(root) + below_root(tier, tenant_id),
        root.len() > 0 ==> root_prefix(root).last() == '/',
        below_root(tier, tenant_id).len() > 0,
        below_root(tier, tenant_id)[0] != '/',
        !has_infix(below_root(tier, tenant_id), ".."@),
{
    reveal_strlit("..");
    assert(tenant_id.len() > 0);
    if tenant_id[0] == '/' {
        assert(tenant_id.contains('/'));
    }
    if tier.len() > 0 {
        if tier[0] == '/' {
            assert(tier.contains('/'));
        }
        if tier.last() == '/' {
            assert(tier.contains('/'));
        }
        let base = join_spec(root, tier);
        assert(base == root_prefix(root) + tier);
        assert(base.len() > 0 && base.last() == tier.last());
        assert(tenant_dir(root, tier, tenant_id) =~= root_prefix(root) + below_root(tier, tenant_id));
        let r = below_root(tier, tenant_id);
        let n = tier.len() as int;
        assert forall|i: int| !occurs_at(r, ".."@, i) by {
            if occurs_at(r, ".."@, i) {
                assert(r.subrange(i, i + 2)[0] == '.');
                assert(r.subrange(i, i + 2)[1] == '.');
                assert(r[i] == '.' && r[i + 1] == '.');
                if i + 1 < n {
                    assert(tier.subrange(i, i + 2) =~= ".."@);
                    assert(occurs_at(tier, ".."@, i));
                } else if i + 1 == n {
                    assert(r[i + 1] == '/');
                } else if i == n {
                    assert(r[i] == '/');
                } else {
                    assert(tenant_id.subrange(i - n - 1, i - n + 1) =~= ".."@);
                    assert(occurs_at(tenant_id, ".."@, i - n - 1));
                }
            }
        }
    } else {
        assert(join_spec(root, tier) == root_prefix(root));
        assert(tenant_dir(root, tier, tenant_id) =~= root_prefix(root) + below_root(tier, tenant_id));
    }
}

/// The cgroup directory of a tenant whose identifiers pass validation and
/// whose tier is known lies two levels below the root: a directory named
/// after the tier, then one named after the tenant.
pub proof fn law_tenant_dir_is_two_levels_down(root: Seq<char>, tier: Seq<char>, tenant_id: Seq<char>)
    requires
        identifiers_error(tier, tenant_id) is None,
        Tier::named(tier) is Some,
        root.len() > 0,
    ensures
        tenant_dir(root, tier, tenant_id) == (if root.last() == '/' {
            root
        } else {
            root + seq!['/']
        }) + tier + seq!['/'] + tenant_id,
        !tier.contains('/'),
        !tenant_id.contains('/'),
        tenant_id.len() > 0,
        tier.len() > 0,
{
    let t = Tier::named(tier).unwrap();
    reveal_strlit("silver");
    reveal_strlit("gold");
    reveal_strlit("platinum");
    assert(tier.len() > 0);
    if tier[0] == '/' {
        assert(tier.contains('/'));
    }
    if tenant_id[0] == '/' {
        assert(tenant_id.contains('/'));
    }
    let base = join_spec(root, tier);
    assert(base.len() > 0);
    assert(base.last() == tier.last());
    if tier.last() == '/' {
        assert(tier.contains('/'));
    }
}

/// The limits written into a tenant's cgroup are its tier's own settings, as
/// the tier's configuration holds them: `memory.max` is the tier's memory
/// limit, swap is off, the group is OOM-killed as a whole, and `cpu.max` is
/// the tier's quota, a space, then its period of 100000 microseconds. Keeping
/// the tier rewrites the same `memory.max` and `cpu.max`.
pub proof fn law_limits_are_the_tiers_own(dir: Seq<char>, t: Tier, c: TierConfig)
    requires
        c.describes(t),
    ensures
        limit_writes(dir, t).len() == 4,
        limit_writes(dir, t)[0] == (join_spec(dir, "memory.max"@), decimal(c.cgroup_memory_max as nat)),
        limit_writes(dir, t)[1] == (join_spec(dir, "memory.swap.max"@), decimal(c.cgroup_memory_swap_max as nat)),
        limit_writes(dir, t)[2] == (join_spec(dir, "memory.oom.group"@), "1"@),
        limit_writes(dir, t)[3] == (join_spec(dir, "cpu.max"@), c.spec_cpu_max()),
        c.spec_cpu_max() == decimal(c.cpu_quota_us as nat) + " "@ + decimal(100_000),
        live_update_writes(dir, t) == seq![limit_writes(dir, t)[0], limit_writes(dir, t)[3]],
{
    assert(live_update_writes(dir, t) =~= seq![limit_writes(dir, t)[0], limit_writes(dir, t)[3]]);
}

} // verus!
