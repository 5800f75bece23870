//! What the daemon's HTTP API decides: who may call it, the answers to its
//! requests, the crash-report address, and the metrics page. Routing, JSON and
//! the network belong to the daemon binary.

use vstd::prelude::*;
use crate::error::DaemonError;
use crate::jvm_forker::ForkRequest;
use crate::text::{decimal, has_prefix, trimmed, starts_with_str, str_equal, trim, u64_to_decimal};
use crate::watchdog::{TenantInfo, TenantRecord, TenantRegistry, TenantStatus};

verus! {

/// Where the API listens when no address is configured.
pub const DEFAULT_LISTEN_ADDR: &'static str = "127.0.0.1:9100";

/// The controller that crashes are reported to when none is configured.
pub const DEFAULT_CONTROLLER_URL: &'static str = "http://127.0.0.1:8080";

/// The node's name when neither a configured one nor the host name is known.
pub const UNKNOWN_NODE_ID: &'static str = "node-unknown";

/// How long a crash report may take, in seconds.
pub const CRASH_REPORT_TIMEOUT_SECS: u64 = 5;

/// The content type of the metrics page.
pub const METRICS_CONTENT_TYPE: &'static str = "text/plain; version=0.0.4; charset=utf-8";

/// The body of a launch request.
#[derive(Debug)]
pub struct ForkPayload {
    pub tenant_id: String,
    pub tier: String,
    pub java_version: String,
    pub jar_path: String,
    pub extra_args: Vec<String>,
}

/// The answer to a launch or stop request.
#[derive(Debug)]
pub struct ForkResponse {
    pub tenant_id: String,
    pub pid: u32,
    pub status: String,
}

/// The answer to a status request.
#[derive(Debug)]
pub struct StatusResponse {
    pub tenant_id: String,
    pub pid: Option<u32>,
    pub tier: Option<String>,
    pub status: String,
}

/// The body of a resize request.
#[derive(Debug)]
pub struct ResizePayload {
    pub new_tier: String,
}

/// The answer to a resize request.
#[derive(Debug)]
pub struct ResizeResponse {
    pub tenant_id: String,
    pub tier: String,
    pub status: String,
}

/// Copies a list of texts.
pub fn copy_strings(v: &Vec<String>) -> (c: Vec<String>)
    ensures
        c@.map_values(|s: String| s@) == v@.map_values(|s: String| s@),
{
    let mut c: Vec<String> = Vec::new();
    let mut i: usize = 0;
    while i < v.len()
        invariant
            i <= v.len(),
            c@.len() == i,
            forall|j: int| 0 <= j < i ==> (#[trigger] c@[j])@ == v@[j]@,
        decreases v.len() - i,
    {
        c.push(v[i].clone());
        i = i + 1;
    }
    assert(c@.map_values(|s: String| s@) =~= v@.map_values(|s: String| s@));
    c
}

impl ForkPayload {
    /// The launch request that this body asks for.
    pub fn fork_request(&self) -> (r: ForkRequest)
        ensures
            r.tenant_id@ == self.tenant_id@,
            r.tier@ == self.tier@,
            r.java_version@ == self.java_version@,
            r.jar_path@ == self.jar_path@,
            r.extra_args@.map_values(|s: String| s@) == self.extra_args@.map_values(|s: String| s@),
    {
        ForkRequest {
            tenant_id: self.tenant_id.clone(),
            tier: self.tier.clone(),
            java_version: self.java_version.clone(),
            jar_path: self.jar_path.clone(),
            extra_args: copy_strings(&self.extra_args),
        }
    }
}

/// The text of the refusal of an unauthenticated request.
pub open spec fn unauthorized_message() -> Seq<char> {
    "unauthorized: missing or invalid authorization token"@
}

/// An `Authorization` header value that carries the token `expected` as a
/// bearer token (white space around the token aside).
pub open spec fn bearer_carries(header: Seq<char>, expected: Seq<char>) -> bool {
    has_prefix(header, "Bearer "@) && trimmed(header.skip("Bearer "@.len() as int)) == expected
}

/// A request is let through: no token is configured (or it is empty), or the
/// request carries it, as a bearer token in `Authorization` or, trimmed, in
/// `X-JavaPaaS-Token`.
pub open spec fn request_authorized(
    expected: Option<Seq<char>>,
    authorization: Option<Seq<char>>,
    token_header: Option<Seq<char>>,
) -> bool {
    match expected {
        None => true,
        Some(e) => e.len() == 0 || (authorization matches Some(a) && bearer_carries(a, e)) || (
        token_header matches Some(t) && trimmed(t) == e),
    }
}

/// The characters of an optional text.
pub open spec fn text_of(o: Option<&str>) -> Option<Seq<char>> {
    match o {
        Some(t) => Some(t@),
        None => None,
    }
}

/// The characters of an optional owned text.
pub open spec fn owned_text(o: &Option<String>) -> Option<Seq<char>> {
    match o {
        Some(t) => Some(t@),
        None => None,
    }
}

/// Checks that a request may use the API. `expected` is the configured token;
/// `authorization` and `token_header` are the values of the request's
/// `Authorization` and `X-JavaPaaS-Token` headers, when present and readable
/// as text.
pub fn check_auth(
    expected: &Option<String>,
    authorization: Option<&str>,
    token_header: Option<&str>,
) -> (r: Result<(), DaemonError>)
    ensures
        request_authorized(owned_text(expected), text_of(authorization), text_of(token_header))
            ==> r is Ok,
        !request_authorized(owned_text(expected), text_of(authorization), text_of(token_header))
            ==> (r matches Err(e) && e.is_unauthorized(unauthorized_message())),
{
    let expected_token = match expected {
        Some(token) => {
            if token.as_str().unicode_len() == 0 {
                return Ok(());
            }
            token.as_str()
        },
        None => {
            return Ok(());
        },
    };
    match authorization {
        Some(a) => {
            if starts_with_str(a, "Bearer ") {
                let plen = "Bearer ".unicode_len();
                let rest = a.substring_char(plen, a.unicode_len());
                if str_equal(trim(rest), expected_token) {
                    return Ok(());
                }
            }
        },
        None => {},
    }
    match token_header {
        Some(t) => {
            if str_equal(trim(t), expected_token) {
                return Ok(());
            }
        },
        None => {},
    }
    Err(
        DaemonError::Unauthorized(
            String::from_str("unauthorized: missing or invalid authorization token"),
        ),
    )
}

/// The message of the refusal to launch a tenant that runs already.
pub open spec fn already_running_message(tenant_id: Seq<char>) -> Seq<char> {
    "tenant '"@ + tenant_id + "' is already running"@
}

/// The message of the answer about an unknown tenant.
pub open spec fn tenant_not_found_message(tenant_id: Seq<char>) -> Seq<char> {
    "tenant '"@ + tenant_id + "' not found"@
}

/// Refuses to launch a tenant that the registry knows as running.
pub fn ensure_not_running(registry: &TenantRegistry, tenant_id: &str) -> (r: Result<(), DaemonError>)
    ensures
        !(registry@.tenants.contains_key(tenant_id@) && registry@.tenants[tenant_id@].status
            == TenantStatus::Running) ==> r is Ok,
        registry@.tenants.contains_key(tenant_id@) && registry@.tenants[tenant_id@].status
            == TenantStatus::Running ==> (r matches Err(e) && e.is_conflict(
            already_running_message(tenant_id@),
        )),
{
    if registry.is_running(tenant_id) {
        Err(
            DaemonError::Conflict(
                String::from_str("tenant '").concat(tenant_id).concat("' is already running"),
            ),
        )
    } else {
        Ok(())
    }
}

/// What the registry holds for a tenant, or the answer that it is unknown.
pub fn lookup_tenant(registry: &TenantRegistry, tenant_id: &str) -> (r: Result<TenantInfo, DaemonError>)
    ensures
        registry@.tenants.contains_key(tenant_id@) ==> (r matches Ok(info) && info@
            == registry@.tenants[tenant_id@]),
        !registry@.tenants.contains_key(tenant_id@) ==> (r matches Err(e) && e.is_not_found(
            tenant_not_found_message(tenant_id@),
        )),
{
    match registry.get_tenant(tenant_id) {
        Some(info) => Ok(info),
        None => Err(
            DaemonError::NotFound(String::from_str("tenant '").concat(tenant_id).concat("' not found")),
        ),
    }
}

/// The answer to a successful launch.
pub fn fork_response(tenant_id: String, pid: u32) -> (r: ForkResponse)
    ensures
        r.tenant_id@ == tenant_id@,
        r.pid == pid,
        r.status@ == "running"@,
{
    ForkResponse { tenant_id, pid, status: String::from_str("running") }
}

/// The answer to a successful stop.
pub fn stop_response(tenant_id: String) -> (r: ForkResponse)
    ensures
        r.tenant_id@ == tenant_id@,
        r.pid == 0,
        r.status@ == "stopped"@,
{
    ForkResponse { tenant_id, pid: 0, status: String::from_str("stopped") }
}

/// The answer to a successful resize.
pub fn resize_response(tenant_id: String, tier: String) -> (r: ResizeResponse)
    ensures
        r.tenant_id@ == tenant_id@,
        r.tier@ == tier@,
        r.status@ == "resized"@,
{
    ResizeResponse { tenant_id, tier, status: String::from_str("resized") }
}

/// The answer to a status request for a tenant.
pub fn status_response(registry: &TenantRegistry, tenant_id: String) -> (r: Result<
    StatusResponse,
    DaemonError,
>)
    ensures
        registry@.tenants.contains_key(tenant_id@) ==> (r matches Ok(resp) && resp.tenant_id@
            == tenant_id@ && resp.pid == Some(registry@.tenants[tenant_id@].pid) && (resp.tier matches Some(
            t,
        ) && t@ == registry@.tenants[tenant_id@].tier) && resp.status@
            == registry@.tenants[tenant_id@].status.name()),
        !registry@.tenants.contains_key(tenant_id@) ==> (r matches Err(e) && e.is_not_found(
            tenant_not_found_message(tenant_id@),
        )),
{
    match registry.get_tenant(tenant_id.as_str()) {
        Some(info) => Ok(
            StatusResponse {
                tenant_id,
                pid: Some(info.pid),
                status: String::from_str(info.status.as_str()),
                tier: Some(info.tier),
            },
        ),
        None => Err(
            DaemonError::NotFound(
                String::from_str("tenant '").concat(tenant_id.as_str()).concat("' not found"),
            ),
        ),
    }
}

/// `s` without the `/` characters at its end.
pub open spec fn without_trailing_slashes(s: Seq<char>) -> Seq<char>
    decreases s.len(),
{
    if s.len() > 0 && s.last() == '/' {
        without_trailing_slashes(s.drop_last())
    } else {
        s
    }
}

/// Where crashes are reported on the controller at `controller_url`.
pub open spec fn recover_url_of(controller_url: Seq<char>) -> Seq<char> {
    without_trailing_slashes(controller_url) + "/v1/internal/recover"@
}

/// Where crashes are reported on the controller at `controller_url`.
pub fn recover_url(controller_url: &str) -> (u: String)
    ensures
        u@ == recover_url_of(controller_url@),
{
    let n = controller_url.unicode_len();
    let mut k = n;
    assert(controller_url@.subrange(0, n as int) =~= controller_url@);
    while k > 0 && controller_url.get_char(k - 1) == '/'
        invariant
            k <= n,
            n == controller_url@.len(),
            without_trailing_slashes(controller_url@.subrange(0, k as int))
                == without_trailing_slashes(controller_url@),
        decreases k,
    {
        assert(controller_url@.subrange(0, k as int).drop_last() =~= controller_url@.subrange(
            0,
            k - 1,
        ));
        k = k - 1;
    }
    String::from_str(controller_url.substring_char(0, k)).concat("/v1/internal/recover")
}

/// The `Authorization` header value that carries `token`.
pub fn bearer_value(token: &str) -> (v: String)
    ensures
        v@ == "Bearer "@ + token@,
{
    String::from_str("Bearer ").concat(token)
}


/// What the metrics page shows of a tenant.
#[derive(Debug)]
pub struct MetricsRow {
    pub tenant_id: String,
    pub tier: String,
    pub status: TenantStatus,
    pub memory_current: u64,
    pub memory_max: u64,
    pub oom_kills: u64,
}

/// A metrics row as plain values.
pub struct MetricsRowView {
    pub tenant_id: Seq<char>,
    pub tier: Seq<char>,
    pub status: TenantStatus,
    pub memory_current: u64,
    pub memory_max: u64,
    pub oom_kills: u64,
}

impl View for MetricsRow {
    type V = MetricsRowView;

    open spec fn view(&self) -> MetricsRowView {
        MetricsRowView {
            tenant_id: self.tenant_id@,
            tier: self.tier@,
            status: self.status,
            memory_current: self.memory_current,
            memory_max: self.memory_max,
            oom_kills: self.oom_kills,
        }
    }
}

/// The number of running tenants among the rows.
pub open spec fn running_count(rows: Seq<MetricsRowView>) -> nat
    decreases rows.len(),
{
    if rows.len() == 0 {
        0
    } else {
        running_count(rows.drop_last()) + if rows.last().status == TenantStatus::Running {
            1nat
        } else {
            0nat
        }
    }
}

/// The labels of a tenant's sample: `{tenant_id="..",tier=".."`, still open.
pub open spec fn labels(row: MetricsRowView) -> Seq<char> {
    "{tenant_id=\""@ + row.tenant_id + "\",tier=\""@ + row.tier + "\""@
}

/// The sample line of one tenant in the metric section number `section`:
/// 0 current memory, 1 memory limit, 2 OOM kills, 3 status.
pub open spec fn sample_line(section: int, row: MetricsRowView) -> Seq<char> {
    if section == 0 {
        "javapaas_tenant_memory_current_bytes"@ + labels(row) + "} "@ + decimal(
            row.memory_current as nat,
        ) + "\n"@
    } else if section == 1 {
        "javapaas_tenant_memory_max_bytes"@ + labels(row) + "} "@ + decimal(row.memory_max as nat)
            + "\n"@
    } else if section == 2 {
        "javapaas_tenant_oom_kills_total"@ + labels(row) + "} "@ + decimal(row.oom_kills as nat)
            + "\n"@
    } else {
        "javapaas_tenant_status"@ + labels(row) + ",status=\""@ + row.status.name() + "\"} 1\n"@
    }
}

/// The sample lines of every row in a section, in row order.
pub open spec fn section_lines(section: int, rows: Seq<MetricsRowView>) -> Seq<char>
    decreases rows.len(),
{
    if rows.len() == 0 {
        Seq::empty()
    } else {
        section_lines(section, rows.drop_last()) + sample_line(section, rows.last())
    }
}

/// The metrics page, in the Prometheus text format.
pub open spec fn metrics_text(rows: Seq<MetricsRowView>) -> Seq<char> {
    "# HELP javapaas_active_tenants Number of currently active tenants\n"@
        + "# TYPE javapaas_active_tenants gauge\n"@ + "javapaas_active_tenants "@ + decimal(
        running_count(rows),
    ) + "\n\n"@
        + "# HELP javapaas_tenant_memory_current_bytes Current memory usage in bytes per tenant\n"@
        + "# TYPE javapaas_tenant_memory_current_bytes gauge\n"@ + section_lines(0, rows) + "\n"@
        + "# HELP javapaas_tenant_memory_max_bytes Configured memory limit in bytes per tenant\n"@
        + "# TYPE javapaas_tenant_memory_max_bytes gauge\n"@ + section_lines(1, rows) + "\n"@
        + "# HELP javapaas_tenant_oom_kills_total Cumulative OOM kill events per tenant\n"@
        + "# TYPE javapaas_tenant_oom_kills_total counter\n"@ + section_lines(2, rows) + "\n"@
        + "# HELP javapaas_tenant_status Current tenant status (1 if matching state)\n"@
        + "# TYPE javapaas_tenant_status gauge\n"@ + section_lines(3, rows)
}

fn render_sample(section: u8, row: &MetricsRow) -> (s: String)
    requires
        section < 4,
    ensures
        s@ == sample_line(section as int, row@),
{
    let head = if section == 0 {
        "javapaas_tenant_memory_current_bytes"
    } else if section == 1 {
        "javapaas_tenant_memory_max_bytes"
    } else if section == 2 {
        "javapaas_tenant_oom_kills_total"
    } else {
        "javapaas_tenant_status"
    };
    let labelled = String::from_str(head).concat("{tenant_id=\"").concat(row.tenant_id.as_str()).concat(
        "\",tier=\"",
    ).concat(row.tier.as_str()).concat("\"");
    if section == 0 {
        labelled.concat("} ").concat(u64_to_decimal(row.memory_current).as_str()).concat("\n")
    } else if section == 1 {
        labelled.concat("} ").concat(u64_to_decimal(row.memory_max).as_str()).concat("\n")
    } else if section == 2 {
        labelled.concat("} ").concat(u64_to_decimal(row.oom_kills).as_str()).concat("\n")
    } else {
        labelled.concat(",status=\"").concat(row.status.as_str()).concat("\"} 1\n")
    }
}

fn render_section(section: u8, rows: &Vec<MetricsRow>) -> (s: String)
    requires
        section < 4,
    ensures
        s@ == section_lines(section as int, rows@.map_values(|r: MetricsRow| r@)),
{
    let ghost all = rows@.map_values(|r: MetricsRow| r@);
    let mut out = String::new();
    let mut i: usize = 0;
    while i < rows.len()
        invariant
            section < 4,
            i <= rows.len(),
            all == rows@.map_values(|r: MetricsRow| r@),
            out@ == section_lines(section as int, all.take(i as int)),
        decreases rows.len() - i,
    {
        let line = render_sample(section, &rows[i]);
        out = out.concat(line.as_str());
        assert(all.take(i + 1).drop_last() =~= all.take(i as int));
        i = i + 1;
    }
    assert(all.take(i as int) =~= all);
    out
}

/// The number of running tenants among the rows.
fn count_running(rows: &Vec<MetricsRow>) -> (n: u64)
    ensures
        n as nat == running_count(rows@.map_values(|r: MetricsRow| r@)),
{
    let ghost all = rows@.map_values(|r: MetricsRow| r@);
    let mut n: u64 = 0;
    let mut i: usize = 0;
    while i < rows.len()
        invariant
            i <= rows.len(),
            all == rows@.map_values(|r: MetricsRow| r@),
            n as nat == running_count(all.take(i as int)),
            n <= i,
        decreases rows.len() - i,
    {
        assert(all.take(i + 1).drop_last() =~= all.take(i as int));
        if rows[i].status == TenantStatus::Running {
            n = n + 1;
        }
        i = i + 1;
    }
    assert(all.take(i as int) =~= all);
    n
}

/// Renders the metrics page for the given tenants, in the Prometheus text
/// format: the number of running tenants, then each tenant's current memory,
/// memory limit, OOM kills and status.
pub fn render_metrics(rows: &Vec<MetricsRow>) -> (page: String)
    ensures
        page@ == metrics_text(rows@.map_values(|r: MetricsRow| r@)),
{
    let active = count_running(rows);
    let mut out = String::from_str("# HELP javapaas_active_tenants Number of currently active tenants\n");
    out = out.concat("# TYPE javapaas_active_tenants gauge\n");
    out = out.concat("javapaas_active_tenants ").concat(u64_to_decimal(active).as_str()).concat("\n\n");
    out = out.concat("# HELP javapaas_tenant_memory_current_bytes Current memory usage in bytes per tenant\n");
    out = out.concat("# TYPE javapaas_tenant_memory_current_bytes gauge\n");
    out = out.concat(render_section(0, rows).as_str()).concat("\n");
    out = out.concat("# HELP javapaas_tenant_memory_max_bytes Configured memory limit in bytes per tenant\n");
    out = out.concat("# TYPE javapaas_tenant_memory_max_bytes gauge\n");
    out = out.concat(render_section(1, rows).as_str()).concat("\n");
    out = out.concat("# HELP javapaas_tenant_oom_kills_total Cumulative OOM kill events per tenant\n");
    out = out.concat("# TYPE javapaas_tenant_oom_kills_total counter\n");
    out = out.concat(render_section(2, rows).as_str()).concat("\n");
    out = out.concat("# HELP javapaas_tenant_status Current tenant status (1 if matching state)\n");
    out = out.concat("# TYPE javapaas_tenant_status gauge\n");
    out = out.concat(render_section(3, rows).as_str());
    out
}

/// The active-tenants figure counts exactly the rows whose status is running:
/// it is the number of running rows, a row of any other status adds nothing,
/// and it never exceeds the number of rows.
pub proof fn law_active_tenants_are_the_running_ones(rows: Seq<MetricsRowView>)
    ensures
        running_count(rows) == rows.filter(|r: MetricsRowView| r.status == TenantStatus::Running).len(),
        running_count(rows) <= rows.len(),
        (forall|i: int| 0 <= i < rows.len() ==> #[trigger] rows[i].status != TenantStatus::Running)
            ==> running_count(rows) == 0,
        (forall|i: int| 0 <= i < rows.len() ==> #[trigger] rows[i].status == TenantStatus::Running)
            ==> running_count(rows) == rows.len(),
    decreases rows.len(),
{
    reveal(Seq::filter);
    if rows.len() > 0 {
        let rest = rows.drop_last();
        law_active_tenants_are_the_running_ones(rest);
        assert forall|i: int| 0 <= i < rest.len() implies #[trigger] rest[i] == rows[i] by {}
        assert(rows.last() == rows[rows.len() - 1]);
    }
}

} // verus!
