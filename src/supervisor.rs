//! The listener supervisor: which ports to bind, in which order, what to abort
//! when a bind fails, and the ports that the status reports. The binding and
//! aborting themselves are done by the caller, one step at a time.
use vstd::prelude::*;
use crate::text::{decimal, join4, u16_text};

verus! {

/// The three listeners, in the order in which they are started.
#[derive(Clone, Copy, Debug, PartialEq, Eq, Structural)]
pub enum ListenerKind {
    Forward,
    ReverseHttp,
    ReverseHttps,
}

/// A listener to bind.
#[derive(Clone, Copy, Debug, PartialEq, Eq, Structural)]
pub struct ListenerPlan {
    pub kind: ListenerKind,
    pub port: u16,
}

/// Why a start failed.
#[derive(Clone, Copy, Debug, PartialEq, Eq, Structural)]
pub enum StartError {
    /// Two enabled listeners were configured on the same port.
    InvalidPortConfig { port: u16 },
    /// A listener could not bind its port; `os_error` is the system's error code.
    BindFailed { port: u16, os_error: Option<i32> },
}

/// What the control plane shows of the proxy.
#[derive(Clone, Copy, Debug, PartialEq, Eq, Structural)]
pub struct ProxyStatusPayload {
    pub running: bool,
    pub port: u16,
    pub reverse_http_port: Option<u16>,
    pub reverse_https_port: Option<u16>,
    pub local_routing_enabled: bool,
}

/// A reverse port as configured: `None` and `Some(0)` both mean off.
pub open spec fn enabled_port(p: Option<u16>) -> Option<u16> {
    match p {
        Some(x) => if x > 0 {
            Some(x)
        } else {
            None
        },
        None => None,
    }
}

/// The listeners to start for a forward port and two optional reverse ports.
pub open spec fn plan_of(port: u16, rh: Option<u16>, rht: Option<u16>) -> Seq<ListenerPlan> {
    let a = seq![ListenerPlan { kind: ListenerKind::Forward, port }];
    let b = match enabled_port(rh) {
        Some(p) => a.push(ListenerPlan { kind: ListenerKind::ReverseHttp, port: p }),
        None => a,
    };
    match enabled_port(rht) {
        Some(p) => b.push(ListenerPlan { kind: ListenerKind::ReverseHttps, port: p }),
        None => b,
    }
}

/// All listeners of the plan have distinct ports.
pub open spec fn ports_distinct(plan: Seq<ListenerPlan>) -> bool {
    forall|i: int, j: int| 0 <= i < j < plan.len() ==> #[trigger] plan[i].port != #[trigger] plan[j].port
}

fn enabled_port_of(p: Option<u16>) -> (r: Option<u16>)
    ensures
        r == enabled_port(p),
{
    match p {
        Some(x) => if x > 0 {
            Some(x)
        } else {
            None
        },
        None => None,
    }
}

/// The listeners to start, in order, when their ports are pairwise distinct;
/// else `InvalidPortConfig` with the first port that repeats an earlier one.
pub fn validate_ports(port: u16, reverse_http: Option<u16>, reverse_https: Option<u16>) -> (r: Result<
    Vec<ListenerPlan>,
    StartError,
>)
    ensures
        match r {
            Ok(v) => v@ == plan_of(port, reverse_http, reverse_https) && ports_distinct(v@),
            Err(e) => !ports_distinct(plan_of(port, reverse_http, reverse_https)) && (e matches StartError::InvalidPortConfig { .. }),
        },
{
    let rh = enabled_port_of(reverse_http);
    let rht = enabled_port_of(reverse_https);
    let mut v: Vec<ListenerPlan> = Vec::new();
    v.push(ListenerPlan { kind: ListenerKind::Forward, port });
    if let Some(p) = rh {
        if p == port {
            proof {
                let pl = plan_of(port, reverse_http, reverse_https);
                assert(pl[0].port == pl[1].port);
            }
            return Err(StartError::InvalidPortConfig { port: p });
        }
        v.push(ListenerPlan { kind: ListenerKind::ReverseHttp, port: p });
    }
    if let Some(p) = rht {
        let clash = match rh {
            Some(q) => p == port || p == q,
            None => p == port,
        };
        if clash {
            proof {
                let pl = plan_of(port, reverse_http, reverse_https);
                if p == port {
                    assert(pl[0].port == pl[pl.len() - 1].port);
                } else {
                    assert(pl[1].port == pl[2].port);
                }
            }
            return Err(StartError::InvalidPortConfig { port: p });
        }
        v.push(ListenerPlan { kind: ListenerKind::ReverseHttps, port: p });
    }
    proof {
        assert(v@ =~= plan_of(port, reverse_http, reverse_https));
    }
    Ok(v)
}

/// A start in progress, as a mathematical value: the listeners to bind and the
/// handles of those bound so far.
pub struct AttemptView {
    pub plan: Seq<ListenerPlan>,
    pub handles: Seq<u64>,
}

/// The attempt after the next listener was bound and gave `h`.
pub open spec fn bound(a: AttemptView, h: u64) -> AttemptView {
    AttemptView { plan: a.plan, handles: a.handles.push(h) }
}

/// The handles to abort when the next bind fails: every one bound so far.
pub open spec fn abort_of(a: AttemptView) -> Seq<u64> {
    a.handles
}

/// The error reported when the next bind fails.
pub open spec fn failure_of(a: AttemptView, os_error: Option<i32>) -> StartError {
    StartError::BindFailed { port: a.plan[a.handles.len() as int].port, os_error }
}

/// A start in progress. The caller binds the listener that `next_step` names
/// and reports the outcome; on failure every handle bound so far is returned
/// for aborting, and the supervisor was never changed.
pub struct StartAttempt {
    forward: u16,
    reverse_http: Option<u16>,
    reverse_https: Option<u16>,
    plan: Vec<ListenerPlan>,
    handles: Vec<u64>,
}

impl View for StartAttempt {
    type V = AttemptView;

    closed spec fn view(&self) -> AttemptView {
        AttemptView { plan: self.plan@, handles: self.handles@ }
    }
}

/// What to do next in a start.
#[derive(Clone, Copy, Debug, PartialEq, Eq, Structural)]
pub enum StartStep {
    Bind(ListenerPlan),
    Commit,
}

impl StartAttempt {
    pub closed spec fn wf(&self) -> bool {
        &&& self.plan@ == plan_of(self.forward, self.reverse_http, self.reverse_https)
        &&& ports_distinct(self.plan@)
        &&& self.forward > 0
        &&& self.handles@.len() <= self.plan@.len()
    }

    pub open spec fn complete(&self) -> bool {
        self@.handles.len() == self@.plan.len()
    }

    /// The next listener to bind, or `Commit` when all are bound.
    pub fn next_step(&self) -> (r: StartStep)
        requires
            self.wf(),
        ensures
            self@.handles.len() < self@.plan.len() ==> r == StartStep::Bind(
                self@.plan[self@.handles.len() as int],
            ),
            self@.handles.len() >= self@.plan.len() ==> r == StartStep::Commit,
    {
        if self.handles.len() < self.plan.len() {
            StartStep::Bind(self.plan[self.handles.len()])
        } else {
            StartStep::Commit
        }
    }

    /// Records that the next listener was bound, with handle `handle`.
    pub fn on_bound(&mut self, handle: u64)
        requires
            old(self).wf(),
            old(self)@.handles.len() < old(self)@.plan.len(),
        ensures
            final(self).wf(),
            final(self)@ == bound(old(self)@, handle),
    {
        self.handles.push(handle);
    }

    /// Ends the start after the next listener failed to bind: the handles to
    /// abort, and the error to report.
    pub fn on_bind_failed(self, os_error: Option<i32>) -> (r: (Vec<u64>, StartError))
        requires
            self.wf(),
            self@.handles.len() < self@.plan.len(),
        ensures
            r.0@ == abort_of(self@),
            r.1 == failure_of(self@, os_error),
    {
        let port = self.plan[self.handles.len()].port;
        (self.handles, StartError::BindFailed { port, os_error })
    }
}

/// The supervisor as a mathematical value.
pub struct SupervisorView {
    pub forward_port: u16,
    pub reverse_http_port: u16,
    pub reverse_https_port: u16,
    pub handles: Seq<u64>,
    pub local_routing_enabled: bool,
    pub auto_start_error: Option<Seq<char>>,
}

/// No listener runs and every port reads 0.
pub open spec fn is_stopped(v: SupervisorView) -> bool {
    v.forward_port == 0 && v.reverse_http_port == 0 && v.reverse_https_port == 0
        && v.handles.len() == 0
}

pub open spec fn port_or_zero(p: Option<u16>) -> u16 {
    match enabled_port(p) {
        Some(x) => x,
        None => 0,
    }
}

/// The supervisor once a start has bound every listener of its plan.
pub open spec fn after_commit(
    v: SupervisorView,
    forward: u16,
    rh: Option<u16>,
    rht: Option<u16>,
    handles: Seq<u64>,
) -> SupervisorView {
    SupervisorView {
        forward_port: forward,
        reverse_http_port: port_or_zero(rh),
        reverse_https_port: port_or_zero(rht),
        handles,
        local_routing_enabled: v.local_routing_enabled,
        auto_start_error: None,
    }
}

/// The supervisor after a stop.
pub open spec fn after_stop(v: SupervisorView) -> SupervisorView {
    SupervisorView {
        forward_port: 0,
        reverse_http_port: 0,
        reverse_https_port: 0,
        handles: Seq::empty(),
        local_routing_enabled: v.local_routing_enabled,
        auto_start_error: v.auto_start_error,
    }
}

/// The status that the supervisor reports.
pub open spec fn status_of(v: SupervisorView) -> ProxyStatusPayload {
    ProxyStatusPayload {
        running: v.forward_port != 0,
        port: v.forward_port,
        reverse_http_port: if v.reverse_http_port != 0 {
            Some(v.reverse_http_port)
        } else {
            None
        },
        reverse_https_port: if v.reverse_https_port != 0 {
            Some(v.reverse_https_port)
        } else {
            None
        },
        local_routing_enabled: v.local_routing_enabled,
    }
}

/// How a request to start ends before any bind.
pub enum BeginStart {
    /// The proxy already runs; its status.
    AlreadyRunning(ProxyStatusPayload),
    /// The configuration was refused; nothing was bound.
    Refused(StartError),
    /// Binding may begin.
    Attempt(StartAttempt),
}

/// Holds the ports of the running listeners (0 when not running), their
/// handles, the local-routing switch and the last auto-start error.
pub struct Supervisor {
    forward_port: u16,
    reverse_http_port: u16,
    reverse_https_port: u16,
    handles: Vec<u64>,
    local_routing_enabled: bool,
    auto_start_error: Option<String>,
}

pub open spec fn opt_seq(o: Option<String>) -> Option<Seq<char>> {
    match o {
        Some(s) => Some(s@),
        None => None,
    }
}

impl View for Supervisor {
    type V = SupervisorView;

    closed spec fn view(&self) -> SupervisorView {
        SupervisorView {
            forward_port: self.forward_port,
            reverse_http_port: self.reverse_http_port,
            reverse_https_port: self.reverse_https_port,
            handles: self.handles@,
            local_routing_enabled: self.local_routing_enabled,
            auto_start_error: opt_seq(self.auto_start_error),
        }
    }
}

impl Supervisor {
    /// Stopped, with local routing on and no error.
    pub fn new() -> (s: Supervisor)
        ensures
            is_stopped(s@),
            s@.local_routing_enabled,
            s@.auto_start_error is None,
    {
        Supervisor {
            forward_port: 0,
            reverse_http_port: 0,
            reverse_https_port: 0,
            handles: Vec::new(),
            local_routing_enabled: true,
            auto_start_error: None,
        }
    }

    /// Whether no listener runs, every port reads 0 and no handle is held:
    /// the state in which a start may be committed.
    pub fn is_stopped(&self) -> (r: bool)
        ensures
            r == is_stopped(self@),
    {
        self.forward_port == 0 && self.reverse_http_port == 0 && self.reverse_https_port == 0
            && self.handles.len() == 0
    }

    /// The status: running exactly when the forward port is not 0.
    pub fn get_proxy_status_payload(&self) -> (r: ProxyStatusPayload)
        ensures
            r == status_of(self@),
    {
        self.current_proxy_status()
    }

    fn current_proxy_status(&self) -> (r: ProxyStatusPayload)
        ensures
            r == status_of(self@),
    {
        ProxyStatusPayload {
            running: self.forward_port != 0,
            port: self.forward_port,
            reverse_http_port: if self.reverse_http_port != 0 {
                Some(self.reverse_http_port)
            } else {
                None
            },
            reverse_https_port: if self.reverse_https_port != 0 {
                Some(self.reverse_https_port)
            } else {
                None
            },
            local_routing_enabled: self.local_routing_enabled,
        }
    }

    /// Checks a start request: refused while running and on a forward port of 0
    /// or repeated ports; otherwise an attempt with nothing bound yet.
    pub fn begin_start(&self, port: u16, reverse_http: Option<u16>, reverse_https: Option<u16>) -> (r:
        BeginStart)
        ensures
            self@.forward_port != 0 ==> r == BeginStart::AlreadyRunning(status_of(self@)),
            refuses_start(self@, port, reverse_http, reverse_https) ==> (r matches BeginStart::Refused(
                StartError::InvalidPortConfig { .. },
            )),
            self@.forward_port == 0 && port != 0 && ports_distinct(
                plan_of(port, reverse_http, reverse_https),
            ) ==> (r matches BeginStart::Attempt(a) && a.wf() && a@.plan == plan_of(
                port,
                reverse_http,
                reverse_https,
            ) && a@.handles.len() == 0),
    {
        if self.forward_port != 0 {
            return BeginStart::AlreadyRunning(self.current_proxy_status());
        }
        if port == 0 {
            return BeginStart::Refused(StartError::InvalidPortConfig { port });
        }
        match validate_ports(port, reverse_http, reverse_https) {
            Ok(plan) => BeginStart::Attempt(
                StartAttempt {
                    forward: port,
                    reverse_http,
                    reverse_https,
                    plan,
                    handles: Vec::new(),
                },
            ),
            Err(e) => BeginStart::Refused(e),
        }
    }

    /// Records a start whose listeners are all bound; returns the new status.
    pub fn commit(&mut self, attempt: StartAttempt) -> (r: ProxyStatusPayload)
        requires
            attempt.wf(),
            attempt.complete(),
            is_stopped(old(self)@),
        ensures
            final(self)@ == after_commit(
                old(self)@,
                attempt@.plan[0].port,
                attempt.reverse_http_spec(),
                attempt.reverse_https_spec(),
                attempt@.handles,
            ),
            r == status_of(final(self)@),
    {
        self.forward_port = attempt.forward;
        self.reverse_http_port = match enabled_port_of(attempt.reverse_http) {
            Some(p) => p,
            None => 0,
        };
        self.reverse_https_port = match enabled_port_of(attempt.reverse_https) {
            Some(p) => p,
            None => 0,
        };
        self.handles = attempt.handles;
        self.auto_start_error = None;
        self.current_proxy_status()
    }

    /// Stops: returns every handle to abort and sets every port to 0.
    pub fn stop(&mut self) -> (r: (Vec<u64>, ProxyStatusPayload))
        ensures
            r.0@ == old(self)@.handles,
            final(self)@ == after_stop(old(self)@),
            r.1 == status_of(final(self)@),
    {
        let handles = self.handles.split_off(0);
        self.forward_port = 0;
        self.reverse_http_port = 0;
        self.reverse_https_port = 0;
        assert(self.handles@ =~= Seq::<u64>::empty());
        assert(handles@ =~= old(self).handles@);
        (handles, self.current_proxy_status())
    }

    /// Records the outcome of the start made at launch (`None` on success).
    pub fn set_auto_start_error(&mut self, err: Option<String>)
        ensures
            final(self)@ == (SupervisorView { auto_start_error: opt_seq(err), ..old(self)@ }),
    {
        self.auto_start_error = err;
    }

    /// The error of the start made at launch, if it failed.
    pub fn get_proxy_auto_start_error(&self) -> (r: Option<String>)
        ensures
            opt_seq(r) == self@.auto_start_error,
    {
        match &self.auto_start_error {
            Some(e) => Some(e.clone()),
            None => None,
        }
    }
}

impl StartAttempt {
    pub closed spec fn reverse_http_spec(&self) -> Option<u16> {
        self.reverse_http
    }

    pub closed spec fn reverse_https_spec(&self) -> Option<u16> {
        self.reverse_https
    }
}

/// Whether requests may go to local routes.
pub fn is_local_routing_enabled(s: &Supervisor) -> (r: bool)
    ensures
        r == s@.local_routing_enabled,
{
    s.local_routing_enabled
}

/// Turns routing to local routes on or off; nothing else changes.
pub fn set_local_routing_enabled(s: &mut Supervisor, enabled: bool)
    ensures
        final(s)@ == (SupervisorView { local_routing_enabled: enabled, ..old(s)@ }),
{
    s.local_routing_enabled = enabled;
}

/// A stopped supervisor refuses to start on a forward port of 0 or on ports that repeat.
pub open spec fn refuses_start(v: SupervisorView, port: u16, rh: Option<u16>, rht: Option<u16>) -> bool {
    v.forward_port == 0 && (port == 0 || !ports_distinct(plan_of(port, rh, rht)))
}

/// Three listeners configured on one port are refused with `InvalidPortConfig`
/// before any bind.
pub proof fn lemma_identical_ports_refused(v: SupervisorView, p: u16)
    requires
        is_stopped(v),
    ensures
        refuses_start(v, p, Some(p), Some(p)),
{
    if p > 0 {
        let pl = plan_of(p, Some(p), Some(p));
        assert(pl[0].port == pl[1].port);
    }
}

/// When the first listener binds and the second fails, exactly the first is
/// aborted, the error names the second port, and the supervisor, which only a
/// commit changes, still reports every port as 0.
pub proof fn lemma_second_bind_failure_aborts_first(
    v: SupervisorView,
    a: AttemptView,
    h1: u64,
    os_error: Option<i32>,
)
    requires
        is_stopped(v),
        a.handles.len() == 0,
        a.plan.len() >= 2,
    ensures
        abort_of(bound(a, h1)) == seq![h1],
        failure_of(bound(a, h1), os_error) == (StartError::BindFailed {
            port: a.plan[1].port,
            os_error,
        }),
        status_of(v).port == 0 && !status_of(v).running && status_of(v).reverse_http_port is None
            && status_of(v).reverse_https_port is None,
{
    assert(abort_of(bound(a, h1)) =~= seq![h1]);
}

/// A stop after a successful start aborts exactly the started handles and
/// returns every port to 0; a second stop finds nothing left to abort and
/// changes nothing.
pub proof fn lemma_stop_after_start(
    v: SupervisorView,
    forward: u16,
    rh: Option<u16>,
    rht: Option<u16>,
    handles: Seq<u64>,
)
    requires
        is_stopped(v),
        forward > 0,
    ensures
        after_commit(v, forward, rh, rht, handles).handles == handles,
        status_of(after_commit(v, forward, rh, rht, handles)).running,
        is_stopped(after_stop(after_commit(v, forward, rh, rht, handles))),
        !status_of(after_stop(after_commit(v, forward, rh, rht, handles))).running,
        after_stop(after_commit(v, forward, rh, rht, handles)).handles.len() == 0,
        after_stop(after_stop(after_commit(v, forward, rh, rht, handles))) == after_stop(
            after_commit(v, forward, rh, rht, handles),
        ),
{
}

/// The message for a failed bind of `port`: "in use" for the address-in-use
/// codes of Windows (10048), Linux (98) and macOS (48), else the system's
/// `detail`.
pub open spec fn bind_error_text(port: u16, os_error: Option<i32>, detail: Seq<char>) -> Seq<char> {
    if os_error == Some(10048i32) {
        "Port "@ + decimal(port as nat)
            + " is already in use. Stop the other process using this port or choose a different port in settings."@
    } else if os_error == Some(98i32) || os_error == Some(48i32) {
        "Port "@ + decimal(port as nat)
            + " is already in use. Stop the other process or choose a different port."@
    } else {
        "Failed to bind port "@ + decimal(port as nat) + ": "@ + detail
    }
}

/// A readable message for a failed bind.
pub fn map_bind_error(port: u16, os_error: Option<i32>, detail: &str) -> (r: String)
    ensures
        r@ == bind_error_text(port, os_error, detail@),
{
    let digits = u16_text(port);
    let code: i32 = match os_error {
        Some(c) => c,
        None => 0,
    };
    proof {
        reveal_strlit("");
    }
    if os_error.is_some() && code == 10048 {
        join4(
            "Port ",
            digits.as_str(),
            " is already in use. Stop the other process using this port or choose a different port in settings.",
            "",
        )
    } else if os_error.is_some() && (code == 98 || code == 48) {
        join4(
            "Port ",
            digits.as_str(),
            " is already in use. Stop the other process or choose a different port.",
            "",
        )
    } else {
        join4("Failed to bind port ", digits.as_str(), ": ", detail)
    }
}

/// The URL of the setup page: on the reverse HTTP listener if it runs, else
/// on the reverse HTTPS listener.
pub open spec fn setup_url_of(v: SupervisorView) -> Result<Seq<char>, Seq<char>> {
    if v.forward_port == 0 {
        Err("Proxy is not running"@)
    } else if v.reverse_http_port != 0 {
        Ok("http://127.0.0.1:"@ + decimal(v.reverse_http_port as nat) + "/.watchtower/setup"@)
    } else if v.reverse_https_port != 0 {
        Ok("https://127.0.0.1:"@ + decimal(v.reverse_https_port as nat) + "/.watchtower/setup"@)
    } else {
        Err("No reverse port configured. Set reverse HTTP or HTTPS port and start the proxy."@)
    }
}

impl Supervisor {
    /// Where the setup page can be opened while the proxy runs.
    pub fn get_proxy_setup_url(&self) -> (r: Result<String, String>)
        ensures
            match r {
                Ok(u) => setup_url_of(self@) == Ok::<Seq<char>, Seq<char>>(u@),
                Err(e) => setup_url_of(self@) == Err::<Seq<char>, Seq<char>>(e@),
            },
    {
        proof {
            reveal_strlit("");
        }
        if self.forward_port == 0 {
            Err(String::from_str("Proxy is not running"))
        } else if self.reverse_http_port != 0 {
            let d = u16_text(self.reverse_http_port);
            Ok(join4("http://127.0.0.1:", d.as_str(), "/.watchtower/setup", ""))
        } else if self.reverse_https_port != 0 {
            let d = u16_text(self.reverse_https_port);
            Ok(join4("https://127.0.0.1:", d.as_str(), "/.watchtower/setup", ""))
        } else {
            Err(
                String::from_str(
                    "No reverse port configured. Set reverse HTTP or HTTPS port and start the proxy.",
                ),
            )
        }
    }
}

/// The message of a successful start.
pub open spec fn started_text(s: ProxyStatusPayload) -> Seq<char> {
    let a = "Proxy started on 127.0.0.1:"@ + decimal(s.port as nat);
    let b = match s.reverse_http_port {
        Some(p) => a + ", reverse HTTP :"@ + decimal(p as nat),
        None => a,
    };
    match s.reverse_https_port {
        Some(p) => b + ", reverse HTTPS :"@ + decimal(p as nat),
        None => b,
    }
}

/// "Proxy started on 127.0.0.1:8888, reverse HTTP :8080" and the like.
pub fn start_message(s: &ProxyStatusPayload) -> (r: String)
    ensures
        r@ == started_text(*s),
{
    let d = u16_text(s.port);
    let mut m = String::from_str("Proxy started on 127.0.0.1:");
    m.append(d.as_str());
    if let Some(p) = s.reverse_http_port {
        let dp = u16_text(p);
        m.append(", reverse HTTP :");
        m.append(dp.as_str());
    }
    if let Some(p) = s.reverse_https_port {
        let dp = u16_text(p);
        m.append(", reverse HTTPS :");
        m.append(dp.as_str());
    }
    m
}

} // verus!
