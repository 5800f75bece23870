//! Launching a tenant's JVM: what a launch request must satisfy, where the
//! `java` executable is looked for, the command line, the line a child writes
//! into its cgroup's `cgroup.procs`, and the pacing of a tenant's shutdown.
//! Process creation and signals belong to the daemon binary.

use std::sync::Arc;
use vstd::prelude::*;
use vstd::string::StringSliceAdditionalSpecFns;
use crate::cgroups::CgroupManager;
use crate::cgroups::identifiers_error;
use crate::config::{Tier, TierConfig, invalid_tier_message, jvm_args_of, lemma_tier_name_letters};
use crate::error::DaemonError;
use crate::paths::{join_spec, join_path, path_has_base, path_starts_with};
use crate::text::{
    ascii_lower_code, contains_char, contains_str, decimal, digit_char, ends_with_str,
    equal_ignoring_ascii_case, has_infix, has_suffix, occurs_at, trim, trimmed, u64_to_decimal,
    chars_of,
};

verus! {

/// A request to launch a tenant's JVM.
#[derive(Debug, Clone)]
pub struct ForkRequest {
    pub tenant_id: String,
    pub tier: String,
    pub java_version: String,
    pub jar_path: String,
    pub extra_args: Vec<String>,
}

/// A character allowed in a tenant id: an ASCII letter or digit, `-` or `_`.
pub open spec fn is_tenant_id_char(c: char) -> bool {
    let u = c as u32;
    (48 <= u <= 57) || (65 <= u <= 90) || (97 <= u <= 122) || c == '-' || c == '_'
}

/// Why a launch request is refused before anything on disk is looked at, if it is.
pub open spec fn request_problem(
    tenant_id: Seq<char>,
    tier: Seq<char>,
    java_version: Seq<char>,
    jar_path: Seq<char>,
) -> Option<Seq<char>> {
    if trimmed(tenant_id).len() == 0 {
        Some("tenant_id cannot be empty"@)
    } else if !(forall|i: int| 0 <= i < tenant_id.len() ==> is_tenant_id_char(#[trigger] tenant_id[i])) {
        Some("tenant_id must contain only alphanumeric characters, '-', or '_'"@)
    } else if Tier::named(tier) is None {
        Some(invalid_tier_message(tier))
    } else if trimmed(java_version).len() == 0 || java_version.contains('/') || has_infix(
        java_version,
        ".."@,
    ) {
        Some("invalid java_version: path separators and '..' are forbidden"@)
    } else if trimmed(jar_path).len() == 0 || has_infix(jar_path, ".."@) {
        Some("invalid jar_path: empty or path traversal '..' detected"@)
    } else if !has_suffix(jar_path, ".jar"@) {
        Some("jar_path must end with .jar extension"@)
    } else {
        None
    }
}

/// The places searched for `java`, in order: the requested version under
/// `/opt/jdk`, each directory of the search path, then the usual system
/// locations.
pub open spec fn java_candidates_spec(version: Seq<char>, path_dirs: Seq<Seq<char>>) -> Seq<Seq<char>> {
    seq![join_spec(join_spec(join_spec("/opt/jdk"@, version), "bin"@), "java"@)] + path_dirs.map_values(
        |d: Seq<char>| join_spec(d, "java"@),
    ) + seq!["/usr/local/bin/java"@, "/usr/bin/java"@, "/bin/java"@]
}

/// The first probed path that is a regular file.
pub open spec fn first_existing(probed: Seq<(Seq<char>, bool)>) -> Option<Seq<char>>
    decreases probed.len(),
{
    if probed.len() == 0 {
        None
    } else if probed[0].1 {
        Some(probed[0].0)
    } else {
        first_existing(probed.skip(1))
    }
}

/// The message of the error for a `java` that is nowhere to be found.
pub open spec fn java_not_found_message(version: Seq<char>) -> Seq<char> {
    "Java executable not found for version '"@ + version + "' (checked /opt/jdk/"@ + version
        + "/bin/java and system PATH)"@
}

/// The first zero byte of `b` at or after `i`, if any.
pub open spec fn first_zero_byte(b: Seq<u8>, i: int) -> Option<int>
    decreases b.len() - i,
{
    if i >= b.len() {
        None
    } else if b[i] == 0 {
        Some(i)
    } else {
        first_zero_byte(b, i + 1)
    }
}

/// The ASCII bytes of a text made of ASCII characters.
pub open spec fn ascii_bytes(s: Seq<char>) -> Seq<u8> {
    s.map_values(|c: char| c as u8)
}

/// The line that registers process `pid` in a `cgroup.procs` file: its
/// decimal digits and a newline; a negative number gives the newline alone.
pub open spec fn pid_line(pid: i32) -> Seq<u8> {
    if pid < 0 {
        seq![10u8]
    } else {
        ascii_bytes(decimal(pid as nat)).push(10u8)
    }
}

/// Polls of a stopping tenant's cgroup before the processes that remain are killed.
pub const STOP_POLL_ROUNDS: u32 = 30;

/// Pause after each of those polls, and after the kill, in milliseconds.
pub const STOP_POLL_PAUSE_MS: u64 = 100;

/// What to do after a poll of a stopping tenant's processes.
#[derive(Debug, Clone, Copy, PartialEq, Eq, Structural)]
pub enum StopStep {
    /// No process is left.
    Exited,
    /// Pause, then poll again.
    KeepWaiting,
    /// Pause, then kill whatever is left.
    PauseThenKill,
}

/// Decides the next step of stopping a tenant after poll number `poll`
/// (counted from 0) found `remaining` processes.
pub fn stop_poll_step(poll: u32, remaining: usize) -> (s: StopStep)
    ensures
        remaining == 0 ==> s == StopStep::Exited,
        remaining > 0 && poll + 1 < STOP_POLL_ROUNDS ==> s == StopStep::KeepWaiting,
        remaining > 0 && poll + 1 >= STOP_POLL_ROUNDS ==> s == StopStep::PauseThenKill,
{
    if remaining == 0 {
        StopStep::Exited
    } else if poll < STOP_POLL_ROUNDS - 1 {
        StopStep::KeepWaiting
    } else {
        StopStep::PauseThenKill
    }
}

fn is_tenant_id_char_exec(c: char) -> (b: bool)
    ensures
        b == is_tenant_id_char(c),
{
    let u = c as u32;
    (48 <= u && u <= 57) || (65 <= u && u <= 90) || (97 <= u && u <= 122) || c == '-' || c == '_'
}

fn all_tenant_id_chars(s: &str) -> (b: bool)
    ensures
        b == forall|i: int| 0 <= i < s@.len() ==> is_tenant_id_char(#[trigger] s@[i]),
{
    let v = chars_of(s);
    let mut i: usize = 0;
    while i < v.len()
        invariant
            v@ == s@,
            i <= v.len(),
            forall|j: int| 0 <= j < i ==> is_tenant_id_char(#[trigger] s@[j]),
        decreases v.len() - i,
    {
        if !is_tenant_id_char_exec(v[i]) {
            return false;
        }
        i = i + 1;
    }
    true
}

/// What the file system says of a launch request's application, gathered
/// before the request is judged.
#[derive(Debug)]
pub struct JarFacts {
    /// The application is a regular file.
    pub is_file: bool,
    /// With an allowed directory configured: what is known of it.
    pub allowlist: Option<AllowlistFacts>,
}

/// The allowed directory for applications, and the canonical forms of the
/// application and of that directory (or the error met computing them).
#[derive(Debug)]
pub struct AllowlistFacts {
    pub allowed_dir: String,
    pub canonical: Result<(String, String), DaemonError>,
}

/// Launches and stops tenant JVMs inside the cgroups of a hierarchy.
pub struct JvmForker {
    cgroup_mgr: Arc<CgroupManager>,
}

impl JvmForker {
    /// The hierarchy that the forker places tenants in.
    pub closed spec fn manager(&self) -> Arc<CgroupManager> {
        self.cgroup_mgr
    }

    /// A forker that places tenants in the hierarchy of `cgroup_mgr`.
    pub fn new(cgroup_mgr: Arc<CgroupManager>) -> (f: Self)
        ensures
            f.manager() == cgroup_mgr,
    {
        JvmForker { cgroup_mgr }
    }

    /// The hierarchy that the forker places tenants in.
    pub fn cgroup_manager(&self) -> (m: &Arc<CgroupManager>)
        ensures
            *m == self.manager(),
    {
        &self.cgroup_mgr
    }

    /// Checks the fields of a launch request: a tenant id made of ASCII letters,
    /// digits, `-` and `_`; a known tier; a Java version and an application
    /// path that cannot walk out of their directories; an application ending in
    /// `.jar`. The checks run in that order and the first that fails is reported.
    pub fn check_request_fields(&self, req: &ForkRequest) -> (r: Result<(), DaemonError>)
        ensures
            match request_problem(req.tenant_id@, req.tier@, req.java_version@, req.jar_path@) {
                None => r is Ok,
                Some(m) => r matches Err(e) && e.is_invalid_input(m),
            },
    {
        if trim(req.tenant_id.as_str()).unicode_len() == 0 {
            return Err(DaemonError::InvalidInput(String::from_str("tenant_id cannot be empty")));
        }
        if !all_tenant_id_chars(req.tenant_id.as_str()) {
            return Err(
                DaemonError::InvalidInput(
                    String::from_str(
                        "tenant_id must contain only alphanumeric characters, '-', or '_'",
                    ),
                ),
            );
        }
        Tier::parse(req.tier.as_str())?;
        let java = req.java_version.as_str();
        if trim(java).unicode_len() == 0 || contains_char(java, '/') || contains_str(java, "..") {
            return Err(
                DaemonError::InvalidInput(
                    String::from_str("invalid java_version: path separators and '..' are forbidden"),
                ),
            );
        }
        let jar = req.jar_path.as_str();
        if trim(jar).unicode_len() == 0 || contains_str(jar, "..") {
            return Err(
                DaemonError::InvalidInput(
                    String::from_str("invalid jar_path: empty or path traversal '..' detected"),
                ),
            );
        }
        if !ends_with_str(jar, ".jar") {
            return Err(
                DaemonError::InvalidInput(String::from_str("jar_path must end with .jar extension")),
            );
        }
        Ok(())
    }

    /// Judges a launch request in full: its fields first (as
    /// [`JvmForker::check_request_fields`]), then whether its application is a
    /// regular file, then, when an allowed directory is configured, whether
    /// the application lies inside it. `facts` is what the file system says
    /// of the application.
    pub fn validate_request(&self, req: &ForkRequest, facts: JarFacts) -> (r: Result<(), DaemonError>)
        ensures
            match request_problem(req.tenant_id@, req.tier@, req.java_version@, req.jar_path@) {
                Some(m) => r matches Err(e) && e.is_invalid_input(m),
                None => if !facts.is_file {
                    r matches Err(e) && e.is_not_found("JAR file not found: "@ + req.jar_path@)
                } else {
                    match facts.allowlist {
                        None => r is Ok,
                        Some(a) => match a.canonical {
                            Err(e) => r == Err::<(), DaemonError>(e),
                            Ok((jar, dir)) => if path_has_base(jar@, dir@) {
                                r is Ok
                            } else {
                                r matches Err(e) && e.is_unauthorized(
                                    "jar_path is outside allowed directory '"@ + a.allowed_dir@
                                        + "'"@,
                                )
                            },
                        },
                    }
                },
            },
    {
        self.check_request_fields(req)?;
        JvmForker::check_jar_exists(req.jar_path.as_str(), facts.is_file)?;
        match facts.allowlist {
            None => Ok(()),
            Some(a) => match a.canonical {
                Err(e) => Err(e),
                Ok((jar, dir)) => JvmForker::check_allowlist(
                    a.allowed_dir.as_str(),
                    jar.as_str(),
                    dir.as_str(),
                ),
            },
        }
    }

    /// Refuses an application that is not a regular file.
    pub fn check_jar_exists(jar_path: &str, is_file: bool) -> (r: Result<(), DaemonError>)
        ensures
            is_file ==> r is Ok,
            !is_file ==> (r matches Err(e) && e.is_not_found("JAR file not found: "@ + jar_path@)),
    {
        if is_file {
            Ok(())
        } else {
            Err(DaemonError::NotFound(String::from_str("JAR file not found: ").concat(jar_path)))
        }
    }

    /// Refuses an application outside the allowed directory `allowed_dir`,
    /// both taken in their canonical forms.
    pub fn check_allowlist(
        allowed_dir: &str,
        canonical_jar: &str,
        canonical_allowed: &str,
    ) -> (r: Result<(), DaemonError>)
        ensures
            path_has_base(canonical_jar@, canonical_allowed@) ==> r is Ok,
            !path_has_base(canonical_jar@, canonical_allowed@) ==> (r matches Err(e)
                && e.is_unauthorized(
                "jar_path is outside allowed directory '"@ + allowed_dir@ + "'"@,
            )),
    {
        if path_starts_with(canonical_jar, canonical_allowed) {
            Ok(())
        } else {
            Err(
                DaemonError::Unauthorized(
                    String::from_str("jar_path is outside allowed directory '").concat(
                        allowed_dir,
                    ).concat("'"),
                ),
            )
        }
    }

    /// The places to look for `java` of version `version`, in order of
    /// preference; `path_dirs` are the directories of the search path.
    pub fn java_candidates(version: &str, path_dirs: &Vec<String>) -> (c: Vec<String>)
        ensures
            c@.map_values(|p: String| p@) == java_candidates_spec(
                version@,
                path_dirs@.map_values(|d: String| d@),
            ),
    {
        let mut c: Vec<String> = Vec::new();
        let a = join_path("/opt/jdk", version);
        let b = join_path(a.as_str(), "bin");
        c.push(join_path(b.as_str(), "java"));
        let mut i: usize = 0;
        while i < path_dirs.len()
            invariant
                i <= path_dirs.len(),
                c@.len() == i + 1,
                c@[0]@ == join_spec(join_spec(join_spec("/opt/jdk"@, version@), "bin"@), "java"@),
                forall|j: int| 0 <= j < i ==> (#[trigger] c@[j + 1])@ == join_spec(path_dirs@[j]@, "java"@),
            decreases path_dirs.len() - i,
        {
            c.push(join_path(path_dirs[i].as_str(), "java"));
            i = i + 1;
        }
        c.push(String::from_str("/usr/local/bin/java"));
        c.push(String::from_str("/usr/bin/java"));
        c.push(String::from_str("/bin/java"));
        let ghost want = java_candidates_spec(version@, path_dirs@.map_values(|d: String| d@));
        assert forall|k: int| 1 <= k < path_dirs.len() + 1 implies c@[k]@ == want[k] by {
            assert(c@[(k - 1) + 1] == c@[k]);
        }
        assert(c@.map_values(|p: String| p@) =~= want);
        c
    }

    /// Picks `java` among the probed candidates (each with whether it is a
    /// regular file): the first that is one.
    pub fn resolve_java_home(version: &str, probed: &Vec<(String, bool)>) -> (r: Result<String, DaemonError>)
        ensures
            match first_existing(probed@.map_values(|p: (String, bool)| (p.0@, p.1))) {
                Some(p) => r matches Ok(s) && s@ == p,
                None => r matches Err(e) && e.is_not_found(java_not_found_message(version@)),
            },
    {
        let ghost all = probed@.map_values(|p: (String, bool)| (p.0@, p.1));
        let mut i: usize = 0;
        assert(all.skip(0) =~= all);
        while i < probed.len()
            invariant
                i <= probed.len(),
                all == probed@.map_values(|p: (String, bool)| (p.0@, p.1)),
                first_existing(all.skip(i as int)) == first_existing(all),
            decreases probed.len() - i,
        {
            assert(all.skip(i as int).skip(1) =~= all.skip(i + 1));
            if probed[i].1 {
                return Ok(probed[i].0.clone());
            }
            i = i + 1;
        }
        assert(all.skip(i as int).len() == 0);
        Err(
            DaemonError::NotFound(
                String::from_str("Java executable not found for version '").concat(version).concat(
                    "' (checked /opt/jdk/",
                ).concat(version).concat("/bin/java and system PATH)"),
            ),
        )
    }

    /// The arguments given to `java` for a request.
    pub fn launch_args(req: &ForkRequest) -> (r: Result<Vec<String>, DaemonError>)
        ensures
            match Tier::named(req.tier@) {
                None => r matches Err(e) && e.is_invalid_input(invalid_tier_message(req.tier@)),
                Some(t) => r matches Ok(args) && args@.map_values(|a: String| a@)
                    == jvm_args_of(t) + seq!["-jar"@, req.jar_path@]
                    + req.extra_args@.map_values(|a: String| a@),
            },
    {
        let t = Tier::parse(req.tier.as_str())?;
        let config = TierConfig::for_tier(t);
        let mut args = config.jvm_args();
        let ghost head = args@.map_values(|a: String| a@);
        let n = args.len();
        args.push(String::from_str("-jar"));
        args.push(req.jar_path.clone());
        let mut i: usize = 0;
        while i < req.extra_args.len()
            invariant
                i <= req.extra_args.len(),
                args@.len() == n + 2 + i,
                n == head.len(),
                forall|j: int| 0 <= j < n ==> (#[trigger] args@[j])@ == head[j],
                args@[n as int]@ == "-jar"@,
                args@[n + 1]@ == req.jar_path@,
                forall|j: int| 0 <= j < i ==> (#[trigger] args@[n + 2 + j])@ == req.extra_args@[j]@,
            decreases req.extra_args.len() - i,
        {
            args.push(req.extra_args[i].clone());
            i = i + 1;
        }
        let ghost want = head + seq!["-jar"@, req.jar_path@] + req.extra_args@.map_values(|a: String| a@);
        assert forall|k: int| n + 2 <= k < args@.len() implies args@[k]@ == want[k] by {
            assert(args@[n + 2 + (k - n - 2)] == args@[k]);
        }
        assert(args@.map_values(|a: String| a@) =~= want);
        Ok(args)
    }

    /// Refuses a `cgroup.procs` path that cannot be handed to the operating
    /// system because it holds a NUL byte, reporting where.
    pub fn procs_path_check(path: &str) -> (r: Result<(), DaemonError>)
        ensures
            match first_zero_byte(path.spec_bytes(), 0) {
                None => r is Ok,
                Some(i) => r matches Err(e) && e.is_invalid_input(
                    "CString error: nul byte found in provided data at position: "@ + decimal(
                        i as nat,
                    ),
                ),
            },
    {
        let b = path.as_bytes();
        let mut i: usize = 0;
        while i < b.len()
            invariant
                b@ == path.spec_bytes(),
                i <= b@.len(),
                first_zero_byte(b@, i as int) == first_zero_byte(b@, 0),
            decreases b@.len() - i,
        {
            if b[i] == 0 {
                return Err(
                    DaemonError::InvalidInput(
                        String::from_str(
                            "CString error: nul byte found in provided data at position: ",
                        ).concat(u64_to_decimal(i as u64).as_str()),
                    ),
                );
            }
            i = i + 1;
        }
        Ok(())
    }
}

/// How launching a tenant's JVM ended once its cgroup had been created.
#[derive(Debug)]
pub enum LaunchEnd {
    /// The cgroup's process list could not be handed to the child, with the
    /// error this gave.
    ProcsPathRefused(DaemonError),
    /// The JVM could not be spawned, with the text of the system's error.
    SpawnFailed(String),
    /// The JVM runs as process `pid`.
    Spawned(u32),
}

/// What follows the end of a launch: whether the tenant's fresh cgroup is to
/// be removed again, and what the launch returns.
#[derive(Debug)]
pub struct LaunchVerdict {
    pub remove_cgroup: bool,
    pub result: Result<u32, DaemonError>,
}

/// The message of the error for a JVM that could not be spawned.
pub open spec fn spawn_failed_message(error: Seq<char>) -> Seq<char> {
    "failed to spawn JVM: "@ + error
}

/// The verdict on a launch: a launch that failed after its cgroup was created
/// removes that cgroup again and returns the failure; a JVM that runs keeps
/// its cgroup and returns its process id.
pub fn launch_verdict(end: LaunchEnd) -> (v: LaunchVerdict)
    ensures
        match end {
            LaunchEnd::ProcsPathRefused(e) => v.remove_cgroup && v.result == Err::<u32, DaemonError>(e),
            LaunchEnd::SpawnFailed(t) => v.remove_cgroup && (v.result matches Err(e) && e.is_fork(
                spawn_failed_message(t@),
            )),
            LaunchEnd::Spawned(pid) => !v.remove_cgroup && v.result == Ok::<u32, DaemonError>(pid),
        },
{
    match end {
        LaunchEnd::ProcsPathRefused(e) => LaunchVerdict { remove_cgroup: true, result: Err(e) },
        LaunchEnd::SpawnFailed(t) => LaunchVerdict {
            remove_cgroup: true,
            result: Err(DaemonError::Fork(String::from_str("failed to spawn JVM: ").concat(t.as_str()))),
        },
        LaunchEnd::Spawned(pid) => LaunchVerdict { remove_cgroup: false, result: Ok(pid) },
    }
}

/// `10^k`.
pub open spec fn pow10(k: nat) -> nat
    decreases k,
{
    if k == 0 {
        1
    } else {
        10 * pow10((k - 1) as nat)
    }
}

proof fn lemma_decimal_len_bound(n: nat, k: nat)
    requires
        k >= 1,
        n < pow10(k),
    ensures
        decimal(n).len() <= k,
    decreases k,
{
    if n >= 10 {
        let p = pow10((k - 1) as nat);
        assert(n / 10 < p) by (nonlinear_arith)
            requires
                n < 10 * p,
        ;
        if k == 1 {
            assert(pow10(0) == 1);
        } else {
            lemma_decimal_len_bound(n / 10, (k - 1) as nat);
        }
    }
}

/// Writes the `cgroup.procs` line of process `pid` at the end of a 32-byte
/// buffer, returning the buffer and where the line starts. It allocates
/// nothing, so a freshly forked child can call it.
pub fn encode_pid_line(pid: i32) -> (r: ([u8; 32], usize))
    ensures
        r.1 < 32,
        r.0@.subrange(r.1 as int, 32) == pid_line(pid),
{
    let mut buf = [0u8; 32];
    let mut idx: usize = 31;
    buf[idx] = 10u8;
    if pid < 0 {
        assert(buf@.subrange(31, 32) =~= pid_line(pid));
        return (buf, idx);
    }
    if pid == 0 {
        idx = idx - 1;
        buf[idx] = 48u8;
        assert(buf@.subrange(idx as int, 32) =~= pid_line(pid));
        return (buf, idx);
    }
    let ghost full = ascii_bytes(decimal(pid as nat));
    proof {
        reveal_with_fuel(pow10, 11);
        assert(pow10(10) == 10_000_000_000);
        lemma_decimal_len_bound(pid as nat, 10);
        assert(buf@.subrange(31, 31) =~= Seq::<u8>::empty());
        assert(ascii_bytes(decimal(pid as nat)) + buf@.subrange(31, 31) =~= full);
    }
    let mut n = pid;
    while n > 0 && idx > 0
        invariant
            0 <= idx <= 31,
            buf@.len() == 32,
            buf@[31] == 10u8,
            pid > 0,
            0 <= n <= pid,
            full == ascii_bytes(decimal(pid as nat)),
            decimal(pid as nat).len() <= 10,
            n > 0 ==> full == ascii_bytes(decimal(n as nat)) + buf@.subrange(idx as int, 31),
            n > 0 ==> 31 - idx + decimal(n as nat).len() == decimal(pid as nat).len(),
            n == 0 ==> full == buf@.subrange(idx as int, 31),
        decreases n,
    {
        let ghost old_written = buf@.subrange(idx as int, 31);
        let ghost m = n as nat;
        idx = idx - 1;
        let d = (n % 10) as u8;
        buf[idx] = 48u8 + d;
        n = n / 10;
        proof {
            let written = buf@.subrange(idx as int, 31);
            assert(written =~= seq![((48 + d) as u8)] + old_written);
            assert(digit_char((m % 10) as nat) as u8 == ((48 + d) as u8));
            if m >= 10 {
                assert(ascii_bytes(decimal(m)) =~= ascii_bytes(decimal(m / 10)).push(((48 + d) as u8)));
                assert(ascii_bytes(decimal(m / 10)) + written =~= ascii_bytes(decimal(m)) + old_written);
            } else {
                assert(ascii_bytes(decimal(m)) =~= seq![((48 + d) as u8)]);
                assert(written =~= ascii_bytes(decimal(m)) + old_written);
            }
        }
    }
    proof {
        assert(buf@.subrange(idx as int, 32) =~= buf@.subrange(idx as int, 31).push(10u8));
    }
    (buf, idx)
}


/// A launch request that passes [`JvmForker::check_request_fields`] names a tier
/// and a tenant that pass [`CgroupManager::validate_identifiers`]: the
/// tenant's cgroup cannot be placed outside the hierarchy.
pub proof fn law_valid_request_has_valid_identifiers(
    tenant_id: Seq<char>,
    tier: Seq<char>,
    java_version: Seq<char>,
    jar_path: Seq<char>,
)
    requires
        request_problem(tenant_id, tier, java_version, jar_path) is None,
    ensures
        identifiers_error(tier, tenant_id) is None,
{
    reveal_strlit("..");
    assert(".."@.len() == 2 && ".."@[0] == '.');
    if tenant_id.len() == 0 {
        assert(trimmed(tenant_id) =~= Seq::<char>::empty());
    }
    assert(forall|i: int| 0 <= i < tenant_id.len() ==> is_tenant_id_char(#[trigger] tenant_id[i]));
    if tenant_id.contains('/') {
        let i = choose|i: int| 0 <= i < tenant_id.len() && tenant_id[i] == '/';
        assert(is_tenant_id_char(tenant_id[i]));
    }
    if tenant_id.contains('\\') {
        let i = choose|i: int| 0 <= i < tenant_id.len() && tenant_id[i] == '\\';
        assert(is_tenant_id_char(tenant_id[i]));
    }
    if has_infix(tenant_id, ".."@) {
        let i = choose|i: int| occurs_at(tenant_id, ".."@, i);
        assert(tenant_id.subrange(i, i + 2)[0] == tenant_id[i]);
        assert(is_tenant_id_char(tenant_id[i]));
    }
    let t = Tier::named(tier).unwrap();
    lemma_tier_name_letters(t);
    assert(equal_ignoring_ascii_case(tier, t.name()));
    assert forall|i: int| 0 <= i < tier.len() implies (tier[i] != '/' && tier[i] != '\\' && tier[i]
        != '.') by {
        assert(ascii_lower_code(tier[i]) == ascii_lower_code(t.name()[i]));
        assert(97 <= t.name()[i] as u32 <= 122);
    }
    if tier.contains('/') {
        let i = choose|i: int| 0 <= i < tier.len() && tier[i] == '/';
    }
    if tier.contains('\\') {
        let i = choose|i: int| 0 <= i < tier.len() && tier[i] == '\\';
    }
    if has_infix(tier, ".."@) {
        let i = choose|i: int| occurs_at(tier, ".."@, i);
        assert(tier.subrange(i, i + 2)[0] == tier[i]);
    }
}

/// The message of the error for a Java version that could name a path.
pub open spec fn bad_java_version_message() -> Seq<char> {
    "invalid java_version: path separators and '..' are forbidden"@
}

/// A Java version is refused only for what could make it name another path:
/// being blank, holding `/`, or holding `..`. Once the tenant id and the tier
/// pass, such a version is refused with its own error, and any other version,
/// dotted ones such as `17.0.2` included, passes this check.
pub proof fn law_java_version_refused_only_when_unsafe(
    tenant_id: Seq<char>,
    tier: Seq<char>,
    java_version: Seq<char>,
    jar_path: Seq<char>,
)
    ensures
        request_problem(tenant_id, tier, java_version, jar_path) == Some(bad_java_version_message())
            <==> ({
            &&& trimmed(tenant_id).len() > 0
            &&& forall|i: int| 0 <= i < tenant_id.len() ==> is_tenant_id_char(#[trigger] tenant_id[i])
            &&& Tier::named(tier) is Some
            &&& (trimmed(java_version).len() == 0 || java_version.contains('/') || has_infix(
                java_version,
                ".."@,
            ))
        }),
{
    let m = bad_java_version_message();
    reveal_strlit("invalid java_version: path separators and '..' are forbidden");
    reveal_strlit("tenant_id cannot be empty");
    reveal_strlit("tenant_id must contain only alphanumeric characters, '-', or '_'");
    reveal_strlit("invalid tier '");
    reveal_strlit("invalid jar_path: empty or path traversal '..' detected");
    reveal_strlit("jar_path must end with .jar extension");
    assert(m[0] == 'i' && m[8] == 'j' && m[10] == 'v');
    assert("tenant_id cannot be empty"@[0] != m[0]);
    assert("tenant_id must contain only alphanumeric characters, '-', or '_'"@[0] != m[0]);
    assert(invalid_tier_message(tier)[8] == 't');
    assert(invalid_tier_message(tier) != m);
    assert("invalid jar_path: empty or path traversal '..' detected"@[10] != m[10]);
    assert("jar_path must end with .jar extension"@[0] != m[0]);
}

/// The first probed candidate that is a regular file is the one taken,
/// counting from the first: the candidate at index `i` is the answer exactly
/// when it is a file and no earlier one is; when none is a file there is no
/// answer.
pub proof fn law_first_existing_candidate_wins(probed: Seq<(Seq<char>, bool)>)
    ensures
        probed.len() > 0 && probed[0].1 ==> first_existing(probed) == Some(probed[0].0),
        forall|i: int|
            0 <= i < probed.len() && #[trigger] probed[i].1 && (forall|j: int| 0 <= j < i ==> !probed[j].1)
                ==> first_existing(probed) == Some(probed[i].0),
        (forall|i: int| 0 <= i < probed.len() ==> !#[trigger] probed[i].1) ==> first_existing(probed)
            is None,
{
    assert forall|i: int|
        0 <= i < probed.len() && #[trigger] probed[i].1 && (forall|j: int| 0 <= j < i ==> !probed[j].1)
            implies first_existing(probed) == Some(probed[i].0) by {
        lemma_first_existing_at(probed, i);
    }
    if forall|i: int| 0 <= i < probed.len() ==> !#[trigger] probed[i].1 {
        lemma_first_existing_none(probed);
    }
}

proof fn lemma_first_existing_at(probed: Seq<(Seq<char>, bool)>, i: int)
    requires
        0 <= i < probed.len(),
        probed[i].1,
        forall|j: int| 0 <= j < i ==> !probed[j].1,
    ensures
        first_existing(probed) == Some(probed[i].0),
    decreases i,
{
    if i > 0 {
        let rest = probed.skip(1);
        assert(!probed[0].1);
        assert(rest[i - 1] == probed[i]);
        assert forall|j: int| 0 <= j < i - 1 implies !rest[j].1 by {
            assert(rest[j] == probed[j + 1]);
        }
        lemma_first_existing_at(rest, i - 1);
    }
}

proof fn lemma_first_existing_none(probed: Seq<(Seq<char>, bool)>)
    requires
        forall|i: int| 0 <= i < probed.len() ==> !#[trigger] probed[i].1,
    ensures
        first_existing(probed) is None,
    decreases probed.len(),
{
    if probed.len() > 0 {
        let rest = probed.skip(1);
        assert(!probed[0].1);
        assert forall|i: int| 0 <= i < rest.len() implies !#[trigger] rest[i].1 by {
            assert(rest[i] == probed[i + 1]);
        }
        lemma_first_existing_none(rest);
    }
}

/// The requests that pass the field checks are exactly those with a
/// non-blank tenant id made of letters, digits, `-` and `_`, a known tier, a
/// non-blank Java version without `/` or `..`, and a non-blank jar path
/// without `..` that ends in `.jar`.
pub proof fn law_accepted_requests_are_exactly_the_safe_ones(
    tenant_id: Seq<char>,
    tier: Seq<char>,
    java_version: Seq<char>,
    jar_path: Seq<char>,
)
    ensures
        request_problem(tenant_id, tier, java_version, jar_path) is None <==> ({
            &&& trimmed(tenant_id).len() > 0
            &&& forall|i: int| 0 <= i < tenant_id.len() ==> is_tenant_id_char(#[trigger] tenant_id[i])
            &&& Tier::named(tier) is Some
            &&& trimmed(java_version).len() > 0
            &&& !java_version.contains('/')
            &&& !has_infix(java_version, ".."@)
            &&& trimmed(jar_path).len() > 0
            &&& !has_infix(jar_path, ".."@)
            &&& has_suffix(jar_path, ".jar"@)
        }),
{
}

} // verus!
