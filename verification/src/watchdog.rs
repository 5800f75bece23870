//! The health watchdog's bookkeeping: the registry of tenants the daemon
//! runs, their OOM kill counts, and the decisions taken when an OOM kill is
//! observed or a tenant's process exits. Waiting for signals, reading cgroup
//! files and reporting to the controller belong to the daemon binary; every
//! change of the registry goes through the functions here.

use vstd::prelude::*;
use crate::table::{Table, distinct_keys, map_of};

verus! {

/// Where a tenant stands in its life cycle.
#[derive(Debug, Clone, Copy, PartialEq, Eq, Structural)]
pub enum TenantStatus {
    Running,
    Recovering,
    Stopping,
    Stopped,
    Exited,
}

impl TenantStatus {
    /// The status's name in snake case.
    pub open spec fn name(self) -> Seq<char> {
        match self {
            TenantStatus::Running => "running"@,
            TenantStatus::Recovering => "recovering"@,
            TenantStatus::Stopping => "stopping"@,
            TenantStatus::Stopped => "stopped"@,
            TenantStatus::Exited => "exited"@,
        }
    }

    /// The status's name in snake case.
    pub fn as_str(&self) -> (s: &'static str)
        ensures
            s@ == self.name(),
    {
        match self {
            TenantStatus::Running => "running",
            TenantStatus::Recovering => "recovering",
            TenantStatus::Stopping => "stopping",
            TenantStatus::Stopped => "stopped",
            TenantStatus::Exited => "exited",
        }
    }
}

/// How often the OOM kill counts of running tenants are read, in milliseconds.
pub const OOM_POLL_INTERVAL_MS: u64 = 500;

/// What the registry knows of a tenant, as plain values.
pub struct TenantRecord {
    pub tier: Seq<char>,
    pub pid: u32,
    pub status: TenantStatus,
    pub generation: u64,
}

/// What the registry keeps of a tenant.
#[derive(Debug)]
pub struct TenantInfo {
    pub tier: String,
    pub pid: u32,
    pub status: TenantStatus,
    /// How many times the tenant has been registered since it was last forgotten.
    pub generation: u64,
}

impl View for TenantInfo {
    type V = TenantRecord;

    open spec fn view(&self) -> TenantRecord {
        TenantRecord {
            tier: self.tier@,
            pid: self.pid,
            status: self.status,
            generation: self.generation,
        }
    }
}

impl Clone for TenantInfo {
    fn clone(&self) -> (r: Self)
        ensures
            r@ == self@,
    {
        TenantInfo {
            tier: self.tier.clone(),
            pid: self.pid,
            status: self.status,
            generation: self.generation,
        }
    }
}

/// A report, for the controller, that a tenant died unexpectedly.
#[derive(Debug, Clone)]
pub struct CrashEvent {
    pub tenant_id: String,
    pub tier: String,
    pub node_id: String,
    pub reason: String,
    pub exit_code: Option<i32>,
    pub timestamp: String,
}

/// How a child process of the daemon ended.
#[derive(Debug)]
pub enum ChildExit {
    /// It exited with status `code`.
    Exited { pid: u32, code: i32 },
    /// It was killed by the signal named `signal` (such as `SIGKILL`).
    Signaled { pid: u32, signal: String },
}

impl ChildExit {
    pub open spec fn pid(&self) -> u32 {
        match self {
            ChildExit::Exited { pid, .. } => *pid,
            ChildExit::Signaled { pid, .. } => *pid,
        }
    }

    /// The reason given in a crash report for this ending.
    pub open spec fn reason(&self) -> Seq<char> {
        match self {
            ChildExit::Exited { .. } => "EXIT"@,
            ChildExit::Signaled { signal, .. } => "SIGNAL_"@ + signal@,
        }
    }

    /// The exit status given in a crash report for this ending.
    pub open spec fn code(&self) -> Option<i32> {
        match self {
            ChildExit::Exited { code, .. } => Some(*code),
            ChildExit::Signaled { .. } => None,
        }
    }
}

/// What the daemon must do after a child process ended.
#[derive(Debug)]
pub enum ExitAction {
    /// The process was no tenant's.
    Untracked,
    /// The tenant was forgotten; its cgroup is to be removed when
    /// `remove_cgroup` holds.
    Released { tenant_id: String, tier: String, remove_cgroup: bool },
    /// The tenant crashed: report `event`, then call
    /// [`TenantRegistry::finish_crash`].
    Crashed { tenant_id: String, tier: String, event: CrashEvent },
}

/// The registry as plain values: each tenant's record and each tenant's last
/// seen OOM kill count, by tenant id.
pub struct RegistryView {
    pub tenants: Map<Seq<char>, TenantRecord>,
    pub oom_counts: Map<Seq<char>, u64>,
}

/// The generation a tenant gets when (re)registered.
pub open spec fn next_generation(s: RegistryView, id: Seq<char>) -> u64 {
    if s.tenants.contains_key(id) {
        (s.tenants[id].generation + 1) as u64
    } else {
        1
    }
}

/// The registry once tenant `id` is registered as running process `pid` of
/// tier `tier`, with OOM kill count `initial_oom`.
pub open spec fn registered(
    s: RegistryView,
    id: Seq<char>,
    tier: Seq<char>,
    pid: u32,
    initial_oom: u64,
) -> RegistryView {
    RegistryView {
        tenants: s.tenants.insert(
            id,
            TenantRecord {
                tier,
                pid,
                status: TenantStatus::Running,
                generation: next_generation(s, id),
            },
        ),
        oom_counts: s.oom_counts.insert(id, initial_oom),
    }
}

/// The registry once a tenant found alive in the cgroup hierarchy at start-up
/// is taken back: first generation, running.
pub open spec fn rehydrated(
    s: RegistryView,
    id: Seq<char>,
    tier: Seq<char>,
    pid: u32,
    initial_oom: u64,
) -> RegistryView {
    RegistryView {
        tenants: s.tenants.insert(
            id,
            TenantRecord { tier, pid, status: TenantStatus::Running, generation: 1 },
        ),
        oom_counts: s.oom_counts.insert(id, initial_oom),
    }
}

/// The registry once tenant `id`, if known, has status `status`.
pub open spec fn with_status(s: RegistryView, id: Seq<char>, status: TenantStatus) -> RegistryView {
    if s.tenants.contains_key(id) {
        RegistryView {
            tenants: s.tenants.insert(
                id,
                TenantRecord {
                    tier: s.tenants[id].tier,
                    pid: s.tenants[id].pid,
                    status,
                    generation: s.tenants[id].generation,
                },
            ),
            oom_counts: s.oom_counts,
        }
    } else {
        s
    }
}

/// The registry once tenant `id`, if known, is of tier `tier`.
pub open spec fn with_tier(s: RegistryView, id: Seq<char>, tier: Seq<char>) -> RegistryView {
    if s.tenants.contains_key(id) {
        RegistryView {
            tenants: s.tenants.insert(
                id,
                TenantRecord {
                    tier,
                    pid: s.tenants[id].pid,
                    status: s.tenants[id].status,
                    generation: s.tenants[id].generation,
                },
            ),
            oom_counts: s.oom_counts,
        }
    } else {
        s
    }
}

/// The registry once tenant `id` is forgotten, with its OOM kill count.
pub open spec fn unregistered(s: RegistryView, id: Seq<char>) -> RegistryView {
    RegistryView { tenants: s.tenants.remove(id), oom_counts: s.oom_counts.remove(id) }
}

/// The OOM kill count last seen for tenant `id` (0 when none was).
pub open spec fn oom_baseline(s: RegistryView, id: Seq<char>) -> u64 {
    if s.oom_counts.contains_key(id) {
        s.oom_counts[id]
    } else {
        0
    }
}

/// Reading OOM kill count `current` for tenant `id` is reported as a crash:
/// the count grew and the tenant is running.
pub open spec fn oom_reported(s: RegistryView, id: Seq<char>, current: u64) -> bool {
    current > oom_baseline(s, id) && s.tenants.contains_key(id) && s.tenants[id].status
        == TenantStatus::Running
}

/// The registry once OOM kill count `current` has been read for tenant `id`:
/// a larger count is kept, and a running tenant whose count grew is marked
/// recovering so that its death is reported once.
pub open spec fn after_oom_reading(s: RegistryView, id: Seq<char>, current: u64) -> RegistryView {
    let oom_counts = if current > oom_baseline(s, id) {
        s.oom_counts.insert(id, current)
    } else if !s.oom_counts.contains_key(id) {
        s.oom_counts.insert(id, 0)
    } else {
        s.oom_counts
    };
    let tenants = if oom_reported(s, id, current) {
        with_status(s, id, TenantStatus::Recovering).tenants
    } else {
        s.tenants
    };
    RegistryView { tenants, oom_counts }
}

/// The death of tenant `id`'s process is reported as a crash: the tenant was
/// running (not being stopped, nor already recovering).
pub open spec fn exit_reported(s: RegistryView, id: Seq<char>) -> bool {
    s.tenants[id].status == TenantStatus::Running
}

/// The registry once the process of tenant `id` has ended: a crashed tenant
/// stays, marked exited, until its crash is reported; any other is forgotten.
/// OOM kill counts are kept.
pub open spec fn after_exit(s: RegistryView, id: Seq<char>) -> RegistryView {
    if exit_reported(s, id) {
        with_status(s, id, TenantStatus::Exited)
    } else {
        RegistryView { tenants: s.tenants.remove(id), oom_counts: s.oom_counts }
    }
}

/// The registry once the crash of tenant `id`, whose process was `pid`, has
/// been reported: the tenant is forgotten unless it was registered again with
/// another process meanwhile.
pub open spec fn crash_finished(s: RegistryView, id: Seq<char>, pid: u32) -> RegistryView {
    if s.tenants.contains_key(id) && s.tenants[id].pid == pid {
        RegistryView { tenants: s.tenants.remove(id), oom_counts: s.oom_counts }
    } else {
        s
    }
}

/// The running tenants of a listing, with their tiers, in order.
pub open spec fn running_of(l: Seq<(Seq<char>, TenantRecord)>) -> Seq<(Seq<char>, Seq<char>)>
    decreases l.len(),
{
    if l.len() == 0 {
        Seq::empty()
    } else {
        let rest = running_of(l.drop_last());
        if l.last().1.status == TenantStatus::Running {
            rest.push((l.last().0, l.last().1.tier))
        } else {
            rest
        }
    }
}

/// What probing a process with signal 0 gave.
#[derive(Debug, Clone, Copy, PartialEq, Eq, Structural)]
pub enum ProbeOutcome {
    /// The process id was not probed (it is not positive).
    NotProbed,
    /// The signal could be delivered.
    Delivered,
    /// The process exists but may not be signalled by the daemon.
    PermissionDenied,
    /// Any other failure: no such process.
    Failed,
}

/// A process is taken for alive when its id is positive and a probe reached
/// it or was refused for lack of permission.
pub open spec fn alive(pid: i32, probe: ProbeOutcome) -> bool {
    pid > 0 && (probe == ProbeOutcome::Delivered || probe == ProbeOutcome::PermissionDenied)
}

/// Whether a probed process is taken for alive.
pub fn is_process_alive(pid: i32, probe: ProbeOutcome) -> (b: bool)
    ensures
        b == alive(pid, probe),
{
    pid > 0 && (probe == ProbeOutcome::Delivered || probe == ProbeOutcome::PermissionDenied)
}

/// The first probed process that is alive.
pub open spec fn first_alive_of(probed: Seq<(i32, ProbeOutcome)>) -> Option<i32>
    decreases probed.len(),
{
    if probed.len() == 0 {
        None
    } else if alive(probed[0].0, probed[0].1) {
        Some(probed[0].0)
    } else {
        first_alive_of(probed.skip(1))
    }
}

/// The first process, among those of a cgroup and in their order, that is
/// alive: the one a tenant found at start-up is taken back with.
pub fn first_alive(probed: &Vec<(i32, ProbeOutcome)>) -> (r: Option<i32>)
    ensures
        r == first_alive_of(probed@),
{
    let mut i: usize = 0;
    assert(probed@.skip(0) =~= probed@);
    while i < probed.len()
        invariant
            i <= probed.len(),
            first_alive_of(probed@.skip(i as int)) == first_alive_of(probed@),
        decreases probed.len() - i,
    {
        assert(probed@.skip(i as int).skip(1) =~= probed@.skip(i + 1));
        let (pid, probe) = probed[i];
        if is_process_alive(pid, probe) {
            return Some(pid);
        }
        i = i + 1;
    }
    None
}

/// A process that [`first_alive_of`] picks has a positive id.
pub proof fn lemma_first_alive_positive(probed: Seq<(i32, ProbeOutcome)>)
    ensures
        first_alive_of(probed) matches Some(pid) ==> pid > 0,
    decreases probed.len(),
{
    if probed.len() > 0 && !alive(probed[0].0, probed[0].1) {
        lemma_first_alive_positive(probed.skip(1));
    }
}

/// A tenant cgroup found in the hierarchy at start-up: its tier and tenant
/// id, the processes it lists in their order, each with what probing it gave,
/// and the OOM kill count its cgroup reports.
pub struct FoundTenant {
    pub tier: String,
    pub tenant_id: String,
    pub probed: Vec<(i32, ProbeOutcome)>,
    pub initial_oom: u64,
}

/// What taking back the tenants found at start-up came to: how many were
/// taken back, and the stale cgroups, as (tier, tenant id), whose processes
/// are all gone and which are to be removed, in the order they were found.
pub struct Rehydration {
    pub taken_back: usize,
    pub stale: Vec<(String, String)>,
}

/// The registry once the tenants found at start-up, in their order, are taken
/// back wherever one of their processes is alive.
pub open spec fn rehydrated_all(s: RegistryView, found: Seq<FoundTenant>) -> RegistryView
    decreases found.len(),
{
    if found.len() == 0 {
        s
    } else {
        let before = rehydrated_all(s, found.drop_last());
        let f = found.last();
        match first_alive_of(f.probed@) {
            Some(pid) => rehydrated(before, f.tenant_id@, f.tier@, pid as u32, f.initial_oom),
            None => before,
        }
    }
}

/// How many of the tenants found have a live process.
pub open spec fn alive_count(found: Seq<FoundTenant>) -> nat
    decreases found.len(),
{
    if found.len() == 0 {
        0
    } else {
        alive_count(found.drop_last()) + if first_alive_of(found.last().probed@) is Some {
            1nat
        } else {
            0nat
        }
    }
}

/// The (tier, tenant id) of each tenant found whose processes are all gone.
pub open spec fn stale_of(found: Seq<FoundTenant>) -> Seq<(Seq<char>, Seq<char>)>
    decreases found.len(),
{
    if found.len() == 0 {
        Seq::empty()
    } else {
        let f = found.last();
        if first_alive_of(f.probed@) is Some {
            stale_of(found.drop_last())
        } else {
            stale_of(found.drop_last()).push((f.tier@, f.tenant_id@))
        }
    }
}

/// The tenants the daemon runs, with their OOM kill counts.
pub struct TenantRegistry {
    tenants: Table<TenantInfo>,
    oom_counts: Table<u64>,
}

impl View for TenantRegistry {
    type V = RegistryView;

    closed spec fn view(&self) -> RegistryView {
        RegistryView { tenants: self.tenants.map(), oom_counts: self.oom_counts.map() }
    }
}

impl TenantRegistry {
    #[verifier::type_invariant]
    spec fn inv(&self) -> bool {
        self.tenants.wf() && self.oom_counts.wf()
    }

    /// The tenants in the order they were first registered.
    pub closed spec fn tenant_listing(&self) -> Seq<(Seq<char>, TenantRecord)> {
        self.tenants.listing()
    }

    /// The OOM kill counts in the order they were first recorded.
    pub closed spec fn oom_listing(&self) -> Seq<(Seq<char>, u64)> {
        self.oom_counts.listing()
    }

    /// Moves both tables out, leaving empty ones behind.
    fn take_tables(&mut self) -> (r: (Table<TenantInfo>, Table<u64>))
        ensures
            r.0.wf(),
            r.1.wf(),
            r.0.map() == old(self)@.tenants,
            r.1.map() == old(self)@.oom_counts,
            r.0.listing() == old(self).tenant_listing(),
            r.1.listing() == old(self).oom_listing(),
    {
        proof {
            use_type_invariant(&*self);
        }
        let mut tenants = Table::new();
        std::mem::swap(&mut tenants, &mut self.tenants);
        let mut oom_counts = Table::new();
        std::mem::swap(&mut oom_counts, &mut self.oom_counts);
        (tenants, oom_counts)
    }

    /// An empty registry.
    pub fn new() -> (r: Self)
        ensures
            r@.tenants == Map::<Seq<char>, TenantRecord>::empty(),
            r@.oom_counts == Map::<Seq<char>, u64>::empty(),
    {
        TenantRegistry { tenants: Table::new(), oom_counts: Table::new() }
    }

    /// Registers tenant `tenant_id` as running process `pid` of tier `tier`,
    /// whose cgroup reports `initial_oom` OOM kills so far. A tenant
    /// registered again moves to its next generation.
    pub fn register_tenant(&mut self, tenant_id: String, tier: String, pid: u32, initial_oom: u64)
        requires
            old(self)@.tenants.contains_key(tenant_id@) ==> old(self)@.tenants[tenant_id@].generation
                < u64::MAX,
        ensures
            final(self)@ == registered(old(self)@, tenant_id@, tier@, pid, initial_oom),
    {
        let (mut tenants, mut oom_counts) = self.take_tables();
        let generation = match tenants.get(tenant_id.as_str()) {
            Some(info) => info.generation + 1,
            None => 1,
        };
        let key = tenant_id.clone();
        tenants.insert(tenant_id, TenantInfo { tier, pid, status: TenantStatus::Running, generation });
        oom_counts.insert(key, initial_oom);
        *self = TenantRegistry { tenants, oom_counts };
    }

    /// Takes back a tenant found alive in the hierarchy at start-up.
    pub fn rehydrate_tenant(&mut self, tenant_id: String, tier: String, pid: u32, initial_oom: u64)
        ensures
            final(self)@ == rehydrated(old(self)@, tenant_id@, tier@, pid, initial_oom),
    {
        let (mut tenants, mut oom_counts) = self.take_tables();
        let key = tenant_id.clone();
        tenants.insert(
            tenant_id,
            TenantInfo { tier, pid, status: TenantStatus::Running, generation: 1 },
        );
        oom_counts.insert(key, initial_oom);
        *self = TenantRegistry { tenants, oom_counts };
    }

    /// Takes back, in their order, the tenants found in the hierarchy at
    /// start-up that still have a live process (the first one alive, in the
    /// cgroup's order), and names the others, whose cgroups are stale.
    pub fn rehydrate_tenants(&mut self, found: Vec<FoundTenant>) -> (r: Rehydration)
        ensures
            final(self)@ == rehydrated_all(old(self)@, found@),
            r.taken_back == alive_count(found@),
            r.stale@.map_values(|p: (String, String)| (p.0@, p.1@)) == stale_of(found@),
    {
        let mut taken_back: usize = 0;
        let mut stale: Vec<(String, String)> = Vec::new();
        let mut i: usize = 0;
        assert(found@.take(0) =~= Seq::<FoundTenant>::empty());
        while i < found.len()
            invariant
                i <= found.len(),
                taken_back <= i,
                self@ == rehydrated_all(old(self)@, found@.take(i as int)),
                taken_back == alive_count(found@.take(i as int)),
                stale@.map_values(|p: (String, String)| (p.0@, p.1@)) == stale_of(
                    found@.take(i as int),
                ),
            decreases found.len() - i,
        {
            let f = &found[i];
            assert(found@.take(i + 1).drop_last() =~= found@.take(i as int));
            assert(found@.take(i + 1).last() == found@[i as int]);
            let alive = first_alive(&f.probed);
            match alive {
                Some(pid) => {
                    proof {
                        lemma_first_alive_positive(f.probed@);
                    }
                    self.rehydrate_tenant(f.tenant_id.clone(), f.tier.clone(), pid as u32, f.initial_oom);
                    taken_back = taken_back + 1;
                },
                None => {
                    let ghost before = stale@;
                    stale.push((f.tier.clone(), f.tenant_id.clone()));
                    assert(stale@.map_values(|p: (String, String)| (p.0@, p.1@)) =~= before.map_values(
                        |p: (String, String)| (p.0@, p.1@),
                    ).push((f.tier@, f.tenant_id@)));
                },
            }
            i = i + 1;
        }
        assert(found@.take(found.len() as int) =~= found@);
        Rehydration { taken_back, stale }
    }

    /// Sets the status of a known tenant; an unknown one is ignored.
    pub fn set_status(&mut self, tenant_id: &str, status: TenantStatus)
        ensures
            final(self)@ == with_status(old(self)@, tenant_id@, status),
    {
        let (mut tenants, oom_counts) = self.take_tables();
        match tenants.find(tenant_id) {
            Some(i) => {
                let info = tenants.entry(i).1.clone();
                proof {
                    crate::table::lemma_map_of_index(tenants.listing(), i as int);
                }
                tenants.set_at(
                    i,
                    TenantInfo { tier: info.tier, pid: info.pid, status, generation: info.generation },
                );
            },
            None => {},
        }
        *self = TenantRegistry { tenants, oom_counts };
    }

    /// Moves a known tenant to tier `new_tier`, telling whether it was known.
    pub fn update_tenant_tier(&mut self, tenant_id: &str, new_tier: String) -> (known: bool)
        ensures
            known == old(self)@.tenants.contains_key(tenant_id@),
            final(self)@ == with_tier(old(self)@, tenant_id@, new_tier@),
    {
        let (mut tenants, oom_counts) = self.take_tables();
        let known = match tenants.find(tenant_id) {
            Some(i) => {
                let info = tenants.entry(i).1.clone();
                proof {
                    crate::table::lemma_map_of_index(tenants.listing(), i as int);
                }
                tenants.set_at(
                    i,
                    TenantInfo {
                        tier: new_tier,
                        pid: info.pid,
                        status: info.status,
                        generation: info.generation,
                    },
                );
                true
            },
            None => false,
        };
        *self = TenantRegistry { tenants, oom_counts };
        known
    }

    /// Forgets a tenant and its OOM kill count.
    pub fn unregister_tenant(&mut self, tenant_id: &str)
        ensures
            final(self)@ == unregistered(old(self)@, tenant_id@),
    {
        let (mut tenants, mut oom_counts) = self.take_tables();
        tenants.remove(tenant_id);
        oom_counts.remove(tenant_id);
        *self = TenantRegistry { tenants, oom_counts };
    }

    /// What the registry holds for a tenant.
    pub fn get_tenant(&self, tenant_id: &str) -> (r: Option<TenantInfo>)
        ensures
            match r {
                Some(info) => self@.tenants.contains_key(tenant_id@) && info@ == self@.tenants[tenant_id@],
                None => !self@.tenants.contains_key(tenant_id@),
            },
    {
        proof {
            use_type_invariant(self);
        }
        match self.tenants.get(tenant_id) {
            Some(info) => Some(info.clone()),
            None => None,
        }
    }

    /// Whether a tenant is known and running.
    pub fn is_running(&self, tenant_id: &str) -> (b: bool)
        ensures
            b == (self@.tenants.contains_key(tenant_id@) && self@.tenants[tenant_id@].status
                == TenantStatus::Running),
    {
        proof {
            use_type_invariant(self);
        }
        match self.tenants.get(tenant_id) {
            Some(info) => info.status == TenantStatus::Running,
            None => false,
        }
    }

    /// The OOM kill count last seen for a tenant, 0 when none was.
    pub fn oom_count(&self, tenant_id: &str) -> (n: u64)
        ensures
            n == oom_baseline(self@, tenant_id@),
    {
        proof {
            use_type_invariant(self);
        }
        match self.oom_counts.get(tenant_id) {
            Some(n) => *n,
            None => 0,
        }
    }

    /// Every tenant with what the registry holds for it, in registration order.
    pub fn get_all_tenants(&self) -> (all: Vec<(String, TenantInfo)>)
        ensures
            all@.map_values(|e: (String, TenantInfo)| (e.0@, e.1@)) == self.tenant_listing(),
            distinct_keys(self.tenant_listing()),
            map_of(self.tenant_listing()) == self@.tenants,
    {
        proof {
            use_type_invariant(self);
        }
        let mut all: Vec<(String, TenantInfo)> = Vec::new();
        let mut i: usize = 0;
        while i < self.tenants.len()
            invariant
                i <= self.tenant_listing().len(),
                all@.map_values(|e: (String, TenantInfo)| (e.0@, e.1@)) == self.tenant_listing().take(
                    i as int,
                ),
            decreases self.tenant_listing().len() - i,
        {
            let e = self.tenants.entry(i);
            let ghost before = all@.map_values(|e: (String, TenantInfo)| (e.0@, e.1@));
            all.push((e.0.clone(), e.1.clone()));
            assert(all@.map_values(|e: (String, TenantInfo)| (e.0@, e.1@)) =~= before.push(
                self.tenant_listing()[i as int],
            ));
            assert(self.tenant_listing().take(i + 1) =~= self.tenant_listing().take(i as int).push(
                self.tenant_listing()[i as int],
            ));
            i = i + 1;
        }
        assert(self.tenant_listing().take(i as int) =~= self.tenant_listing());
        all
    }

    /// Every recorded OOM kill count, in the order first recorded.
    pub fn get_oom_counts(&self) -> (all: Vec<(String, u64)>)
        ensures
            all@.map_values(|e: (String, u64)| (e.0@, e.1)) == self.oom_listing(),
            distinct_keys(self.oom_listing()),
            map_of(self.oom_listing()) == self@.oom_counts,
    {
        proof {
            use_type_invariant(self);
        }
        let mut all: Vec<(String, u64)> = Vec::new();
        let mut i: usize = 0;
        while i < self.oom_counts.len()
            invariant
                i <= self.oom_listing().len(),
                all@.map_values(|e: (String, u64)| (e.0@, e.1)) == self.oom_listing().take(i as int),
            decreases self.oom_listing().len() - i,
        {
            let e = self.oom_counts.entry(i);
            let ghost before = all@.map_values(|e: (String, u64)| (e.0@, e.1));
            all.push((e.0.clone(), e.1));
            assert(all@.map_values(|e: (String, u64)| (e.0@, e.1)) =~= before.push(
                self.oom_listing()[i as int],
            ));
            assert(self.oom_listing().take(i + 1) =~= self.oom_listing().take(i as int).push(
                self.oom_listing()[i as int],
            ));
            i = i + 1;
        }
        assert(self.oom_listing().take(i as int) =~= self.oom_listing());
        all
    }

    /// The running tenants with their tiers, in registration order: those
    /// whose OOM kill counts are to be watched.
    pub fn running_tenants(&self) -> (r: Vec<(String, String)>)
        ensures
            r@.map_values(|e: (String, String)| (e.0@, e.1@)) == running_of(self.tenant_listing()),
            distinct_keys(self.tenant_listing()),
            map_of(self.tenant_listing()) == self@.tenants,
    {
        proof {
            use_type_invariant(self);
        }
        let mut r: Vec<(String, String)> = Vec::new();
        let mut i: usize = 0;
        while i < self.tenants.len()
            invariant
                i <= self.tenant_listing().len(),
                r@.map_values(|e: (String, String)| (e.0@, e.1@)) == running_of(
                    self.tenant_listing().take(i as int),
                ),
            decreases self.tenant_listing().len() - i,
        {
            let e = self.tenants.entry(i);
            let ghost before = r@.map_values(|e: (String, String)| (e.0@, e.1@));
            assert(self.tenant_listing().take(i + 1).drop_last() =~= self.tenant_listing().take(
                i as int,
            ));
            if e.1.status == TenantStatus::Running {
                r.push((e.0.clone(), e.1.tier.clone()));
                assert(r@.map_values(|e: (String, String)| (e.0@, e.1@)) =~= before.push(
                    (e.0@, e.1.tier@),
                ));
            }
            i = i + 1;
        }
        assert(self.tenant_listing().take(i as int) =~= self.tenant_listing());
        r
    }

    /// Takes note of OOM kill count `current`, just read from the cgroup of
    /// tenant `tenant_id` (of tier `tier` when its reading began), at time
    /// `timestamp`. When the count grew while the tenant was running, the
    /// tenant is marked recovering and the crash to report is returned.
    pub fn observe_oom(
        &mut self,
        tenant_id: &str,
        tier: &str,
        current: u64,
        node_id: &str,
        timestamp: String,
    ) -> (r: Option<CrashEvent>)
        ensures
            final(self)@ == after_oom_reading(old(self)@, tenant_id@, current),
            match r {
                Some(ev) => oom_reported(old(self)@, tenant_id@, current) && ev.tenant_id@
                    == tenant_id@ && ev.tier@ == tier@ && ev.node_id@ == node_id@ && ev.reason@
                    == "OOM_KILL"@ && ev.exit_code is None && ev.timestamp@ == timestamp@,
                None => !oom_reported(old(self)@, tenant_id@, current),
            },
    {
        let ghost s = self@;
        let (mut tenants, mut oom_counts) = self.take_tables();
        let prev = match oom_counts.get(tenant_id) {
            Some(n) => *n,
            None => 0,
        };
        let mut event: Option<CrashEvent> = None;
        if current > prev {
            oom_counts.insert(String::from_str(tenant_id), current);
            match tenants.find(tenant_id) {
                Some(i) => {
                    let info = tenants.entry(i).1.clone();
                    proof {
                        crate::table::lemma_map_of_index(tenants.listing(), i as int);
                    }
                    if info.status == TenantStatus::Running {
                        tenants.set_at(
                            i,
                            TenantInfo {
                                tier: info.tier,
                                pid: info.pid,
                                status: TenantStatus::Recovering,
                                generation: info.generation,
                            },
                        );
                        event = Some(
                            CrashEvent {
                                tenant_id: String::from_str(tenant_id),
                                tier: String::from_str(tier),
                                node_id: String::from_str(node_id),
                                reason: String::from_str("OOM_KILL"),
                                exit_code: None,
                                timestamp,
                            },
                        );
                    }
                },
                None => {},
            }
        } else {
            match oom_counts.find(tenant_id) {
                Some(_) => {},
                None => {
                    oom_counts.insert(String::from_str(tenant_id), 0);
                },
            }
        }
        *self = TenantRegistry { tenants, oom_counts };
        proof {
            assert(self@.tenants =~= after_oom_reading(s, tenant_id@, current).tenants);
            assert(self@.oom_counts =~= after_oom_reading(s, tenant_id@, current).oom_counts);
        }
        event
    }

    /// Takes note that a child process of the daemon ended (noticed at time
    /// `timestamp`), and says what is to be done about it.
    pub fn on_child_exit(&mut self, exit: ChildExit, node_id: &str, timestamp: String) -> (a:
        ExitAction)
        ensures
            match a {
                ExitAction::Untracked => final(self)@ == old(self)@ && forall|k: Seq<char>|
                    #[trigger] old(self)@.tenants.contains_key(k) ==> old(self)@.tenants[k].pid
                        != exit.pid(),
                ExitAction::Released { tenant_id, tier, remove_cgroup } => {
                    let t = old(self)@.tenants[tenant_id@];
                    &&& old(self)@.tenants.contains_key(tenant_id@)
                    &&& t.pid == exit.pid()
                    &&& !exit_reported(old(self)@, tenant_id@)
                    &&& tier@ == t.tier
                    &&& remove_cgroup == (t.status == TenantStatus::Stopping || t.status
                        == TenantStatus::Recovering)
                    &&& final(self)@ == after_exit(old(self)@, tenant_id@)
                },
                ExitAction::Crashed { tenant_id, tier, event } => {
                    let t = old(self)@.tenants[tenant_id@];
                    &&& old(self)@.tenants.contains_key(tenant_id@)
                    &&& t.pid == exit.pid()
                    &&& exit_reported(old(self)@, tenant_id@)
                    &&& tier@ == t.tier
                    &&& final(self)@ == after_exit(old(self)@, tenant_id@)
                    &&& event.tenant_id@ == tenant_id@
                    &&& event.tier@ == t.tier
                    &&& event.node_id@ == node_id@
                    &&& event.reason@ == exit.reason()
                    &&& event.exit_code == exit.code()
                    &&& event.timestamp@ == timestamp@
                },
            },
    {
        let pid = match &exit {
            ChildExit::Exited { pid, .. } => *pid,
            ChildExit::Signaled { pid, .. } => *pid,
        };
        let tenant_id = match self.find_tenant_by_pid(pid) {
            Some(t) => t,
            None => {
                return ExitAction::Untracked;
            },
        };
        let info = match self.get_tenant(tenant_id.as_str()) {
            Some(i) => i,
            None => {
                return ExitAction::Untracked;
            },
        };
        if info.status == TenantStatus::Running {
            self.set_status(tenant_id.as_str(), TenantStatus::Exited);
            let (reason, exit_code) = match &exit {
                ChildExit::Exited { code, .. } => (String::from_str("EXIT"), Some(*code)),
                ChildExit::Signaled { signal, .. } => (
                    String::from_str("SIGNAL_").concat(signal.as_str()),
                    None,
                ),
            };
            let event = CrashEvent {
                tenant_id: tenant_id.clone(),
                tier: info.tier.clone(),
                node_id: String::from_str(node_id),
                reason,
                exit_code,
                timestamp,
            };
            ExitAction::Crashed { tenant_id, tier: info.tier, event }
        } else {
            let (mut tenants, oom_counts) = self.take_tables();
            tenants.remove(tenant_id.as_str());
            *self = TenantRegistry { tenants, oom_counts };
            let remove_cgroup = info.status == TenantStatus::Stopping || info.status
                == TenantStatus::Recovering;
            ExitAction::Released { tenant_id, tier: info.tier, remove_cgroup }
        }
    }

    /// Once the crash of `tenant_id` (whose process was `pid`) is reported,
    /// forgets the tenant unless it runs another process by now; tells whether
    /// it was forgotten (and its cgroup is to be removed).
    pub fn finish_crash(&mut self, tenant_id: &str, pid: u32) -> (removed: bool)
        ensures
            removed == (old(self)@.tenants.contains_key(tenant_id@) && old(self)@.tenants[tenant_id@].pid
                == pid),
            final(self)@ == crash_finished(old(self)@, tenant_id@, pid),
    {
        let (mut tenants, oom_counts) = self.take_tables();
        let matches = match tenants.get(tenant_id) {
            Some(info) => info.pid == pid,
            None => false,
        };
        if matches {
            tenants.remove(tenant_id);
        }
        *self = TenantRegistry { tenants, oom_counts };
        matches
    }

    /// The tenant whose process is `pid`, if any.
    pub fn find_tenant_by_pid(&self, pid: u32) -> (r: Option<String>)
        ensures
            match r {
                Some(id) => self@.tenants.contains_key(id@) && self@.tenants[id@].pid == pid,
                None => forall|k: Seq<char>| #[trigger] self@.tenants.contains_key(k)
                    ==> self@.tenants[k].pid != pid,
            },
    {
        proof {
            use_type_invariant(self);
        }
        let mut i: usize = 0;
        while i < self.tenants.len()
            invariant
                self.tenants.wf(),
                i <= self.tenant_listing().len(),
                forall|j: int| 0 <= j < i ==> (#[trigger] self.tenant_listing()[j]).1.pid != pid,
            decreases self.tenant_listing().len() - i,
        {
            let e = self.tenants.entry(i);
            if e.1.pid == pid {
                proof {
                    crate::table::lemma_map_of_index(self.tenants.listing(), i as int);
                }
                return Some(e.0.clone());
            }
            i = i + 1;
        }
        proof {
            assert forall|k: Seq<char>| #[trigger] self@.tenants.contains_key(k) implies self@.tenants[k].pid
                != pid by {
                let l = self.tenant_listing();
                let j = choose|j: int| 0 <= j < l.len() && l[j].0 == k;
                crate::table::lemma_map_of_index(l, j);
            }
        }
        None
    }
}


/// A registered tenant is running the given process in the given tier, its
/// OOM kill count starts from the given reading, and every other tenant is
/// left as it was.
pub proof fn law_registered_tenant_runs(
    s: RegistryView,
    id: Seq<char>,
    tier: Seq<char>,
    pid: u32,
    initial_oom: u64,
    other: Seq<char>,
)
    requires
        other != id,
    ensures
        ({
            let t = registered(s, id, tier, pid, initial_oom);
            &&& t.tenants.contains_key(id)
            &&& t.tenants[id].status == TenantStatus::Running
            &&& t.tenants[id].pid == pid
            &&& t.tenants[id].tier == tier
            &&& oom_baseline(t, id) == initial_oom
            &&& t.tenants.contains_key(other) == s.tenants.contains_key(other)
            &&& t.tenants[other] == s.tenants[other]
        }),
{
}

/// Registering a known tenant again moves it to its next generation; a new
/// tenant starts at generation 1.
pub proof fn law_generation_advances(
    s: RegistryView,
    id: Seq<char>,
    tier: Seq<char>,
    pid: u32,
    initial_oom: u64,
)
    requires
        s.tenants.contains_key(id) ==> s.tenants[id].generation < u64::MAX,
    ensures
        registered(s, id, tier, pid, initial_oom).tenants[id].generation == if s.tenants.contains_key(
            id,
        ) {
            s.tenants[id].generation + 1
        } else {
            1
        },
{
}

/// A status or tier set on a known tenant is what the registry then holds
/// for it, with its process, generation and the rest unchanged; an unknown
/// tenant changes nothing.
pub proof fn law_updates_are_read_back(
    s: RegistryView,
    id: Seq<char>,
    status: TenantStatus,
    tier: Seq<char>,
)
    ensures
        s.tenants.contains_key(id) ==> ({
            let a = with_status(s, id, status);
            let b = with_tier(s, id, tier);
            &&& a.tenants.contains_key(id) && a.tenants[id].status == status
            &&& a.tenants[id].tier == s.tenants[id].tier && a.tenants[id].pid == s.tenants[id].pid
            &&& a.tenants[id].generation == s.tenants[id].generation
            &&& b.tenants.contains_key(id) && b.tenants[id].tier == tier
            &&& b.tenants[id].status == s.tenants[id].status && b.tenants[id].pid
                == s.tenants[id].pid
            &&& a.oom_counts == s.oom_counts && b.oom_counts == s.oom_counts
        }),
        !s.tenants.contains_key(id) ==> with_status(s, id, status) == s && with_tier(s, id, tier)
            == s,
{
}

/// An unregistered tenant is gone, and so is its OOM kill count; every other
/// tenant is left as it was.
pub proof fn law_unregister_forgets(s: RegistryView, id: Seq<char>, other: Seq<char>)
    requires
        other != id,
    ensures
        !unregistered(s, id).tenants.contains_key(id),
        !unregistered(s, id).oom_counts.contains_key(id),
        unregistered(s, id).tenants.contains_key(other) == s.tenants.contains_key(other),
        unregistered(s, id).tenants[other] == s.tenants[other],
{
}

/// An OOM kill is reported once: once reported, the tenant is recovering, so
/// neither a later reading of its OOM kill count nor the death of its process
/// is reported again.
pub proof fn law_oom_reported_once(s: RegistryView, id: Seq<char>, first: u64, later: u64)
    requires
        oom_reported(s, id, first),
    ensures
        ({
            let t = after_oom_reading(s, id, first);
            &&& t.tenants.contains_key(id)
            &&& t.tenants[id].status == TenantStatus::Recovering
            &&& !oom_reported(t, id, later)
            &&& !exit_reported(t, id)
        }),
{
}

/// The recorded OOM kill count of a tenant never decreases: after a reading
/// it is the larger of the reading and the count seen before.
pub proof fn law_oom_count_never_decreases(s: RegistryView, id: Seq<char>, current: u64)
    ensures
        after_oom_reading(s, id, current).oom_counts.contains_key(id),
        after_oom_reading(s, id, current).oom_counts[id] >= oom_baseline(s, id),
        after_oom_reading(s, id, current).oom_counts[id] >= current,
        after_oom_reading(s, id, current).oom_counts[id] == current || after_oom_reading(
            s,
            id,
            current,
        ).oom_counts[id] == oom_baseline(s, id),
{
}

/// A tenant that is being stopped on request dies without a crash report
/// and is forgotten; its OOM kill count is kept.
pub proof fn law_stop_is_quiet(s: RegistryView, id: Seq<char>)
    requires
        s.tenants.contains_key(id),
        s.tenants[id].status == TenantStatus::Stopping,
    ensures
        !exit_reported(s, id),
        !after_exit(s, id).tenants.contains_key(id),
        after_exit(s, id).oom_counts == s.oom_counts,
{
}

/// A running tenant whose process dies is reported as crashed, stays marked
/// exited while the report is sent, and is forgotten once it is sent.
pub proof fn law_crash_then_forget(s: RegistryView, id: Seq<char>)
    requires
        s.tenants.contains_key(id),
        s.tenants[id].status == TenantStatus::Running,
    ensures
        exit_reported(s, id),
        after_exit(s, id).tenants.contains_key(id),
        after_exit(s, id).tenants[id].status == TenantStatus::Exited,
        !crash_finished(after_exit(s, id), id, s.tenants[id].pid).tenants.contains_key(id),
{
}

/// A crash report does not forget a tenant that was registered again, with
/// another process, while the report was being sent.
pub proof fn law_restarted_tenant_survives_report(
    s: RegistryView,
    id: Seq<char>,
    dead_pid: u32,
    tier: Seq<char>,
    new_pid: u32,
    initial_oom: u64,
)
    requires
        new_pid != dead_pid,
    ensures
        ({
            let t = registered(s, id, tier, new_pid, initial_oom);
            crash_finished(t, id, dead_pid) == t
        }),
{
}

/// Any OOM kill count above the one last seen for a running tenant is
/// reported as an OOM kill, a rise from nothing to one kill included: the
/// tenant is then marked recovering and the new count is kept. A count that
/// does not rise above the last one seen (none seen counts as zero) is never
/// reported and leaves the last count in place; a rise is kept whatever the
/// tenant's status; nothing else in the registry changes.
pub proof fn law_every_oom_rise_is_reported(s: RegistryView, id: Seq<char>, current: u64)
    ensures
        ({
            let last = if s.oom_counts.contains_key(id) { s.oom_counts[id] as int } else { 0int };
            &&& (s.tenants.contains_key(id) && s.tenants[id].status == TenantStatus::Running
                && current > last) ==> {
                &&& oom_reported(s, id, current)
                &&& after_oom_reading(s, id, current).tenants[id].status
                    == TenantStatus::Recovering
                &&& after_oom_reading(s, id, current).tenants[id].pid == s.tenants[id].pid
                &&& after_oom_reading(s, id, current).oom_counts[id] == current
            }
            &&& current <= last ==> !oom_reported(s, id, current)
            &&& !s.tenants.contains_key(id) ==> !oom_reported(s, id, current)
            &&& current > last ==> after_oom_reading(s, id, current).oom_counts[id] == current
            &&& current <= last ==> after_oom_reading(s, id, current).oom_counts[id] == last
            &&& !oom_reported(s, id, current) ==> after_oom_reading(s, id, current).tenants
                == s.tenants
            &&& after_oom_reading(s, id, current).tenants.remove(id) == s.tenants.remove(id)
            &&& after_oom_reading(s, id, current).oom_counts.remove(id) == s.oom_counts.remove(id)
        }),
{
    let a = after_oom_reading(s, id, current);
    assert(a.tenants.remove(id) =~= s.tenants.remove(id));
    assert(a.oom_counts.remove(id) =~= s.oom_counts.remove(id));
}

} // verus!
