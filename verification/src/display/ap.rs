//! Finding the display's own access point among scanned networks: the one
//! saved before, or else the first whose name marks it as a display.

use vstd::prelude::*;
use crate::text::{str_chars, string_of};
use crate::wifi::{WifiScanResult, WifiState, WifiStatus};

verus! {

/// How many scans look for the display's network.
pub const DISPLAY_SCAN_ATTEMPTS: u32 = 12;
/// How many times, 100 ms apart, a scan is polled for completion.
pub const DISPLAY_SCAN_POLLS: u32 = 40;
/// How many times, 500 ms apart, the connection is polled.
pub const DISPLAY_CONNECT_POLLS: u32 = 60;

/// The name prefix of a display's network.
pub open spec fn display_prefix() -> Seq<char> {
    "5D_"@
}

pub open spec fn has_display_prefix(ssid: Seq<char>) -> bool {
    ssid.len() >= 3 && ssid.subrange(0, 3) == display_prefix()
}

/// Which network to join.
pub enum ApChoice {
    /// The saved network is visible.
    Saved,
    /// No network was saved, and this display network is visible.
    Discovered { ssid: String },
    NotFound,
}

/// Whether some scanned network has the name.
pub open spec fn visible(entries: Seq<WifiScanResult>, ssid: Seq<char>) -> bool {
    exists|i: int| 0 <= i < entries.len() && (#[trigger] entries[i]).ssid@ == ssid
}

/// The first scanned display network, by position.
pub open spec fn first_display(entries: Seq<WifiScanResult>) -> Option<int> {
    if exists|i: int| 0 <= i < entries.len() && has_display_prefix((#[trigger] entries[i]).ssid@) {
        Some(
            choose|i: int|
                0 <= i < entries.len() && has_display_prefix((#[trigger] entries[i]).ssid@) && forall|j: int|
                    0 <= j < i ==> !has_display_prefix((#[trigger] entries[j]).ssid@),
        )
    } else {
        None
    }
}

fn starts_with_display_prefix(ssid: &String) -> (r: bool)
    ensures
        r == has_display_prefix(ssid@),
{
    let c = str_chars(ssid.as_str());
    proof {
        reveal_strlit("5D_");
    }
    if c.len() >= 3 && c[0] == '5' && c[1] == 'D' && c[2] == '_' {
        assert(c@.subrange(0, 3) =~= display_prefix());
        true
    } else {
        proof {
            if c@.len() >= 3 && c@.subrange(0, 3) == display_prefix() {
                assert(c@.subrange(0, 3)[0] == '5');
                assert(c@.subrange(0, 3)[1] == 'D');
                assert(c@.subrange(0, 3)[2] == '_');
            }
        }
        false
    }
}

fn find_saved(t: &String, entries: &Vec<WifiScanResult>) -> (found: bool)
    ensures
        found == visible(entries@, t@),
{
    let mut i: usize = 0;
    while i < entries.len()
        invariant
            i <= entries@.len(),
            forall|j: int| 0 <= j < i ==> (#[trigger] entries@[j]).ssid@ != t@,
        decreases entries@.len() - i,
    {
        if entries[i].ssid == *t {
            assert(entries@[i as int].ssid@ == t@);
            return true;
        }
        i = i + 1;
    }
    false
}

fn find_display(entries: &Vec<WifiScanResult>) -> (r: Option<usize>)
    ensures
        match first_display(entries@) {
            Some(i) => r matches Some(j) && j as int == i,
            None => r is None,
        },
        r matches Some(i) ==> i < entries@.len(),
{
    let mut i: usize = 0;
    while i < entries.len()
        invariant
            i <= entries@.len(),
            forall|j: int| 0 <= j < i ==> !has_display_prefix((#[trigger] entries@[j]).ssid@),
        decreases entries@.len() - i,
    {
        if starts_with_display_prefix(&entries[i].ssid) {
            proof {
                let k = i as int;
                assert(has_display_prefix(entries@[k].ssid@));
                let f = first_display(entries@);
                assert(f is Some);
                let m = f.unwrap();
                if m < k {
                    assert(!has_display_prefix(entries@[m].ssid@));
                }
                if m > k {
                    assert(!has_display_prefix(entries@[k].ssid@));
                }
                assert(m == k);
            }
            return Some(i);
        }
        i = i + 1;
    }
    None
}

/// Chooses the network: with a saved name, whether it is visible; without,
/// the first visible display network.
pub fn choose_display_ap(saved_ssid: Option<&String>, entries: &Vec<WifiScanResult>) -> (c: ApChoice)
    ensures
        match saved_ssid {
            Some(t) => if visible(entries@, t@) { c is Saved } else { c is NotFound },
            None => match first_display(entries@) {
                Some(i) => c matches ApChoice::Discovered { ssid } && ssid@ == entries@[i].ssid@,
                None => c is NotFound,
            },
        },
{
    match saved_ssid {
        Some(t) => {
            let found = find_saved(t, entries);
            if found {
                let c = ApChoice::Saved;
                assert(c is Saved);
                c
            } else {
                ApChoice::NotFound
            }
        },
        None => match find_display(entries) {
            Some(i) => {
                let e = &entries[i];
                let ssid = e.ssid.clone();
                assert(ssid@ == entries@[i as int].ssid@);
                ApChoice::Discovered { ssid }
            },
            None => ApChoice::NotFound,
        },
    }
}

/// Whether the station is connected to the named network.
pub fn connected_to(status: &WifiStatus, ssid: &String) -> (r: bool)
    ensures
        r == (status.state == WifiState::Connected && (status.ssid matches Some(s) && s@ == ssid@)),
{
    status.state == WifiState::Connected && match &status.ssid {
        Some(s) => *s == *ssid,
        None => false,
    }
}

/// The passphrase a display's network has out of the box, with which a
/// discovered one is joined.
pub fn default_display_passphrase() -> (s: String)
    ensures
        s@ == "12345678"@,
{
    string_of("12345678")
}

/// Why joining the display's network failed.
#[derive(Clone, Copy, PartialEq, Eq, Structural, Debug)]
pub enum JoinError {
    /// The Wi-Fi task is not running.
    NotReady,
    /// No scan showed the network to join.
    NotFound,
    /// The network was not joined in time.
    Timeout,
}

pub open spec fn join_error_text(e: JoinError) -> Seq<char> {
    match e {
        JoinError::NotReady => "WiFi subsystem not initialized"@,
        JoinError::NotFound => "Display AP not found (either saved SSID was not visible or no matching 5D_ network was found)"@,
        JoinError::Timeout => "WiFi connection timeout/failed"@,
    }
}

/// The message of a failed join.
pub fn join_error_message(e: JoinError) -> (s: &'static str)
    ensures
        s@ == join_error_text(e),
{
    proof {
        reveal_strlit("WiFi subsystem not initialized");
        reveal_strlit(
            "Display AP not found (either saved SSID was not visible or no matching 5D_ network was found)",
        );
        reveal_strlit("WiFi connection timeout/failed");
    }
    match e {
        JoinError::NotReady => "WiFi subsystem not initialized",
        JoinError::NotFound => "Display AP not found (either saved SSID was not visible or no matching 5D_ network was found)",
        JoinError::Timeout => "WiFi connection timeout/failed",
    }
}

/// Milliseconds between polls of a scan.
pub const SCAN_POLL_MS: u64 = 100;
/// Milliseconds between a scan that did not show the network and the next.
pub const RESCAN_DELAY_MS: u64 = 500;
/// Milliseconds between polls of the connection.
pub const CONNECT_POLL_MS: u64 = 500;

/// Where joining the display's network stands.
#[derive(Clone, Copy, PartialEq, Eq, Structural, Debug)]
pub enum JoinPhase {
    /// A scan was asked for; its end is awaited.
    ScanWait,
    /// A connect was asked for; the link is awaited.
    ConnectWait,
    Done,
}

/// What the join asks of the Wi-Fi task next.
pub enum JoinStep {
    /// After `delay_ms`, ask for a scan; then, after [`SCAN_POLL_MS`], report
    /// the Wi-Fi state and the scan results.
    Scan { delay_ms: u64 },
    /// After `after_ms`, report the Wi-Fi status again.
    Poll { after_ms: u64 },
    /// Save the credentials first when `save` is set, then ask to join the
    /// network; after [`CONNECT_POLL_MS`], report the Wi-Fi status.
    Connect { ssid: String, passphrase: String, save: bool },
    /// After `delay_ms`, joining is over with this result.
    Finish { delay_ms: u64, result: Result<(), JoinError> },
}

/// A [`JoinStep`], as the specification sees it.
pub enum JoinStepView {
    Scan(u64),
    Poll(u64),
    Connect(Seq<char>, Seq<char>, bool),
    Finish(u64, Result<(), JoinError>),
}

pub open spec fn join_step_view(s: JoinStep) -> JoinStepView {
    match s {
        JoinStep::Scan { delay_ms } => JoinStepView::Scan(delay_ms),
        JoinStep::Poll { after_ms } => JoinStepView::Poll(after_ms),
        JoinStep::Connect { ssid, passphrase, save } => JoinStepView::Connect(ssid@, passphrase@, save),
        JoinStep::Finish { delay_ms, result } => JoinStepView::Finish(delay_ms, result),
    }
}

/// The join's state, as the specification sees it.
pub struct JoinState {
    /// The network to join and its passphrase, once known.
    pub target: Option<(Seq<char>, Seq<char>)>,
    /// How many scans were asked for.
    pub scans: nat,
    /// How many polls of the present wait came back without an answer.
    pub polls: nat,
    pub phase: JoinPhase,
}

pub open spec fn join_state_wf(st: JoinState) -> bool {
    &&& st.scans <= DISPLAY_SCAN_ATTEMPTS
    &&& st.phase == JoinPhase::ScanWait ==> 1 <= st.scans && st.polls < DISPLAY_SCAN_POLLS
    &&& st.phase == JoinPhase::ConnectWait ==> st.target is Some && st.polls < DISPLAY_CONNECT_POLLS
}

/// The start of a join: refused when the Wi-Fi task is not running, else the
/// first scan, aiming at the saved network if there is one.
pub open spec fn join_start_spec(ready: bool, saved: Option<(Seq<char>, Seq<char>)>) -> (JoinState, JoinStepView) {
    if !ready {
        (
            JoinState { target: saved, scans: 0, polls: 0, phase: JoinPhase::Done },
            JoinStepView::Finish(0, Err(JoinError::NotReady)),
        )
    } else {
        (JoinState { target: saved, scans: 1, polls: 0, phase: JoinPhase::ScanWait }, JoinStepView::Scan(0))
    }
}

/// The next scan after `delay_ms`, or, after the last one, the end: the
/// network was not found.
pub open spec fn next_scan_spec(st: JoinState, delay_ms: u64) -> (JoinState, JoinStepView) {
    if st.scans < DISPLAY_SCAN_ATTEMPTS {
        (JoinState { scans: st.scans + 1, polls: 0, ..st }, JoinStepView::Scan(delay_ms))
    } else {
        (JoinState { phase: JoinPhase::Done, ..st }, JoinStepView::Finish(delay_ms, Err(JoinError::NotFound)))
    }
}

/// The saved network's name, if any.
pub open spec fn target_ssid(st: JoinState) -> Option<Seq<char>> {
    match st.target {
        Some((s, _)) => Some(s),
        None => None,
    }
}

/// A poll while a scan runs, given the Wi-Fi state and the last scan's
/// results: while it runs, poll again, up to [`DISPLAY_SCAN_POLLS`] times,
/// then scan anew at once; when it is over, join the saved network if it
/// was listed, or with nothing saved the first display network listed, saved
/// with its default passphrase; else scan anew after [`RESCAN_DELAY_MS`].
pub open spec fn scan_poll_spec(st: JoinState, state: WifiState, entries: Seq<WifiScanResult>) -> (
    JoinState,
    JoinStepView,
) {
    if state == WifiState::Scanning {
        if st.polls + 1 < DISPLAY_SCAN_POLLS {
            (JoinState { polls: st.polls + 1, ..st }, JoinStepView::Poll(SCAN_POLL_MS))
        } else {
            next_scan_spec(st, 0)
        }
    } else {
        match st.target {
            Some((s, p)) => if visible(entries, s) {
                (JoinState { polls: 0, phase: JoinPhase::ConnectWait, ..st }, JoinStepView::Connect(s, p, false))
            } else {
                next_scan_spec(st, RESCAN_DELAY_MS)
            },
            None => match first_display(entries) {
                Some(i) => (
                    JoinState {
                        target: Some((entries[i].ssid@, "12345678"@)),
                        polls: 0,
                        phase: JoinPhase::ConnectWait,
                        ..st
                    },
                    JoinStepView::Connect(entries[i].ssid@, "12345678"@, true),
                ),
                None => next_scan_spec(st, RESCAN_DELAY_MS),
            },
        }
    }
}

/// A poll while the link is awaited: joined once the station is connected to
/// the target, else poll again, up to [`DISPLAY_CONNECT_POLLS`] times in all.
pub open spec fn connect_poll_spec(st: JoinState, connected: bool) -> (JoinState, JoinStepView) {
    if connected {
        (JoinState { phase: JoinPhase::Done, ..st }, JoinStepView::Finish(0, Ok(())))
    } else if st.polls + 1 < DISPLAY_CONNECT_POLLS {
        (JoinState { polls: st.polls + 1, ..st }, JoinStepView::Poll(CONNECT_POLL_MS))
    } else {
        (JoinState { polls: st.polls + 1, phase: JoinPhase::Done, ..st }, JoinStepView::Finish(0, Err(JoinError::Timeout)))
    }
}

/// Joining the display's network: scans until the network shows, then one
/// connect, then polls of the link.
pub struct DisplayJoin {
    target: Option<(String, String)>,
    scans: u32,
    polls: u32,
    phase: JoinPhase,
}

impl DisplayJoin {
    pub closed spec fn state(&self) -> JoinState {
        JoinState {
            target: match self.target {
                Some((s, p)) => Some((s@, p@)),
                None => None,
            },
            scans: self.scans as nat,
            polls: self.polls as nat,
            phase: self.phase,
        }
    }

    pub closed spec fn wf(&self) -> bool {
        join_state_wf(self.state())
    }

    /// Starts a join, with the saved credentials if any.
    pub fn start(ready: bool, saved: Option<(String, String)>) -> (r: (Self, JoinStep))
        ensures
            r.0.wf(),
            (r.0.state(), join_step_view(r.1)) == join_start_spec(
                ready,
                match saved {
                    Some((s, p)) => Some((s@, p@)),
                    None => None,
                },
            ),
    {
        if !ready {
            (
                DisplayJoin { target: saved, scans: 0, polls: 0, phase: JoinPhase::Done },
                JoinStep::Finish { delay_ms: 0, result: Err(JoinError::NotReady) },
            )
        } else {
            (DisplayJoin { target: saved, scans: 1, polls: 0, phase: JoinPhase::ScanWait }, JoinStep::Scan { delay_ms: 0 })
        }
    }

    pub fn phase(&self) -> (p: JoinPhase)
        ensures
            p == self.state().phase,
    {
        self.phase
    }

    fn next_scan(&mut self, delay_ms: u64) -> (r: JoinStep)
        requires
            old(self).wf(),
            old(self).state().phase == JoinPhase::ScanWait,
        ensures
            final(self).wf(),
            (final(self).state(), join_step_view(r)) == next_scan_spec(old(self).state(), delay_ms),
    {
        if self.scans < DISPLAY_SCAN_ATTEMPTS {
            self.scans = self.scans + 1;
            self.polls = 0;
            JoinStep::Scan { delay_ms }
        } else {
            self.phase = JoinPhase::Done;
            JoinStep::Finish { delay_ms, result: Err(JoinError::NotFound) }
        }
    }

    /// A poll while a scan runs, with the Wi-Fi state and the scan results.
    pub fn on_scan_poll(&mut self, state: WifiState, entries: &Vec<WifiScanResult>) -> (r: JoinStep)
        requires
            old(self).wf(),
            old(self).state().phase == JoinPhase::ScanWait,
        ensures
            final(self).wf(),
            (final(self).state(), join_step_view(r)) == scan_poll_spec(old(self).state(), state, entries@),
    {
        if state == WifiState::Scanning {
            if self.polls + 1 < DISPLAY_SCAN_POLLS {
                self.polls = self.polls + 1;
                return JoinStep::Poll { after_ms: SCAN_POLL_MS };
            }
            return self.next_scan(0);
        }
        let choice = match &self.target {
            Some((s, _)) => choose_display_ap(Some(s), entries),
            None => choose_display_ap(None, entries),
        };
        match choice {
            ApChoice::Saved => {
                match &self.target {
                    Some((s, p)) => {
                        let ssid = s.clone();
                        let passphrase = p.clone();
                        self.polls = 0;
                        self.phase = JoinPhase::ConnectWait;
                        JoinStep::Connect { ssid, passphrase, save: false }
                    },
                    None => self.next_scan(RESCAN_DELAY_MS),
                }
            },
            ApChoice::Discovered { ssid } => {
                let passphrase = default_display_passphrase();
                self.target = Some((ssid.clone(), passphrase.clone()));
                self.polls = 0;
                self.phase = JoinPhase::ConnectWait;
                JoinStep::Connect { ssid, passphrase, save: true }
            },
            ApChoice::NotFound => self.next_scan(RESCAN_DELAY_MS),
        }
    }

    /// A poll while the link is awaited, with the Wi-Fi status.
    pub fn on_connect_poll(&mut self, status: &WifiStatus) -> (r: JoinStep)
        requires
            old(self).wf(),
            old(self).state().phase == JoinPhase::ConnectWait,
        ensures
            final(self).wf(),
            (final(self).state(), join_step_view(r)) == connect_poll_spec(
                old(self).state(),
                status.state == WifiState::Connected && (status.ssid matches Some(s) && target_ssid(
                    old(self).state(),
                ) == Some(s@)),
            ),
    {
        let connected = match &self.target {
            Some((s, _)) => connected_to(status, s),
            None => false,
        };
        if connected {
            self.phase = JoinPhase::Done;
            JoinStep::Finish { delay_ms: 0, result: Ok(()) }
        } else if self.polls + 1 < DISPLAY_CONNECT_POLLS {
            self.polls = self.polls + 1;
            JoinStep::Poll { after_ms: CONNECT_POLL_MS }
        } else {
            self.polls = self.polls + 1;
            self.phase = JoinPhase::Done;
            JoinStep::Finish { delay_ms: 0, result: Err(JoinError::Timeout) }
        }
    }
}

/// When some scanned network is a display's, a first one exists, so
/// [`first_display`] names a display network with none before it.
proof fn lemma_first_display_found(entries: Seq<WifiScanResult>, k: int)
    requires
        0 <= k <= entries.len(),
        forall|j: int| 0 <= j < k ==> !has_display_prefix((#[trigger] entries[j]).ssid@),
        exists|i: int| 0 <= i < entries.len() && has_display_prefix((#[trigger] entries[i]).ssid@),
    ensures
        exists|i: int|
            0 <= i < entries.len() && has_display_prefix((#[trigger] entries[i]).ssid@) && forall|j: int|
                0 <= j < i ==> !has_display_prefix((#[trigger] entries[j]).ssid@),
    decreases entries.len() - k,
{
    if k < entries.len() {
        if has_display_prefix(entries[k].ssid@) {
            assert(0 <= k < entries.len() && has_display_prefix(entries[k].ssid@) && forall|j: int|
                0 <= j < k ==> !has_display_prefix((#[trigger] entries[j]).ssid@));
        } else {
            lemma_first_display_found(entries, k + 1);
        }
    }
}

/// At most [`DISPLAY_SCAN_ATTEMPTS`] scans: a join starts with one scan, and
/// each later step asks for a scan only by counting it, never past the bound.
pub proof fn law_join_scans_bounded(st: JoinState, state: WifiState, entries: Seq<WifiScanResult>, connected: bool)
    requires
        join_state_wf(st),
    ensures
        join_start_spec(true, st.target).1 is Scan ==> join_start_spec(true, st.target).0.scans == 1,
        st.phase == JoinPhase::ScanWait ==> ({
            let (next, step) = scan_poll_spec(st, state, entries);
            &&& join_state_wf(next)
            &&& step is Scan ==> next.scans == st.scans + 1
            &&& !(step is Scan) ==> next.scans == st.scans
        }),
        st.phase == JoinPhase::ConnectWait ==> ({
            let (next, step) = connect_poll_spec(st, connected);
            &&& join_state_wf(next)
            &&& !(step is Scan)
            &&& next.scans == st.scans
        }),
{
}

/// A join connects only to a network that the finished scan listed: the saved
/// one, with its saved passphrase, or, with nothing saved, a display network,
/// with the default passphrase and saved first.
pub proof fn law_join_connects_to_listed(st: JoinState, state: WifiState, entries: Seq<WifiScanResult>)
    requires
        join_state_wf(st),
        st.phase == JoinPhase::ScanWait,
    ensures
        scan_poll_spec(st, state, entries).1 matches JoinStepView::Connect(s, p, save) ==> {
            &&& state != WifiState::Scanning
            &&& visible(entries, s)
            &&& scan_poll_spec(st, state, entries).0.target == Some((s, p))
            &&& scan_poll_spec(st, state, entries).0.phase == JoinPhase::ConnectWait
            &&& (st.target matches Some((t, q)) ==> s == t && p == q && !save)
            &&& (st.target is None ==> has_display_prefix(s) && p == "12345678"@ && save)
        },
        !(scan_poll_spec(st, state, entries).1 is Connect) ==> scan_poll_spec(st, state, entries).0.target
            == st.target,
        state != WifiState::Scanning && (st.target matches Some((t, _)) && visible(entries, t))
            ==> scan_poll_spec(st, state, entries).1 is Connect,
{
    if state != WifiState::Scanning && st.target is None {
        match first_display(entries) {
            Some(i) => {
                lemma_first_display_found(entries, 0);
                assert(0 <= i < entries.len() && has_display_prefix(entries[i].ssid@));
                assert(entries[i].ssid@ == entries[i].ssid@);
            },
            None => {},
        }
    }
}

/// Once a connect was asked for, no further scan or connect is: the link is
/// polled until it is up or the polls run out.
pub proof fn law_join_connects_once(st: JoinState, connected: bool)
    requires
        join_state_wf(st),
        st.phase == JoinPhase::ConnectWait,
    ensures
        ({
            let (next, step) = connect_poll_spec(st, connected);
            &&& step is Poll || step is Finish
            &&& step is Poll ==> next.phase == JoinPhase::ConnectWait
            &&& connected ==> step == JoinStepView::Finish(0, Ok(()))
        }),
{
}

/// What the Wi-Fi task reports to a join.
pub enum JoinReport {
    /// The Wi-Fi state and the last scan's results, while a scan is awaited.
    Scan(WifiState, Seq<WifiScanResult>),
    /// Whether the station is connected to the target, while the link is awaited.
    Link(bool),
}

/// One report: the join's next state and step, when the report is the one
/// its phase waits on.
pub open spec fn join_report(st: JoinState, r: JoinReport) -> (JoinState, Option<JoinStepView>) {
    match (st.phase, r) {
        (JoinPhase::ScanWait, JoinReport::Scan(state, entries)) => {
            let (next, step) = scan_poll_spec(st, state, entries);
            (next, Some(step))
        },
        (JoinPhase::ConnectWait, JoinReport::Link(c)) => {
            let (next, step) = connect_poll_spec(st, c);
            (next, Some(step))
        },
        _ => (st, None),
    }
}

/// A join through a run of reports: its last state and every step it asked for.
pub open spec fn join_run(st: JoinState, reports: Seq<JoinReport>) -> (JoinState, Seq<JoinStepView>)
    decreases reports.len(),
{
    if reports.len() == 0 {
        (st, Seq::empty())
    } else {
        let (next, step) = join_report(st, reports[0]);
        let (fin, steps) = join_run(next, reports.drop_first());
        (
            fin,
            match step {
                Some(s) => seq![s] + steps,
                None => steps,
            },
        )
    }
}

/// How many steps ask for a scan.
pub open spec fn scan_count(steps: Seq<JoinStepView>) -> nat
    decreases steps.len(),
{
    if steps.len() == 0 {
        0
    } else {
        (if steps[0] is Scan { 1nat } else { 0nat }) + scan_count(steps.drop_first())
    }
}

/// How many steps ask to connect.
pub open spec fn connect_count(steps: Seq<JoinStepView>) -> nat
    decreases steps.len(),
{
    if steps.len() == 0 {
        0
    } else {
        (if steps[0] is Connect { 1nat } else { 0nat }) + connect_count(steps.drop_first())
    }
}

proof fn lemma_join_run(st: JoinState, reports: Seq<JoinReport>)
    requires
        join_state_wf(st),
    ensures
        ({
            let (fin, steps) = join_run(st, reports);
            &&& join_state_wf(fin)
            &&& fin.scans == st.scans + scan_count(steps)
            &&& st.phase != JoinPhase::ScanWait ==> scan_count(steps) == 0 && connect_count(steps) == 0
                && fin.target == st.target && fin.phase != JoinPhase::ScanWait
            &&& st.phase == JoinPhase::ScanWait ==> connect_count(steps) <= 1
            &&& connect_count(steps) == 1 ==> fin.target is Some && fin.phase != JoinPhase::ScanWait
            &&& connect_count(steps) == 0 && st.phase == JoinPhase::ScanWait ==> fin.target == st.target
        }),
    decreases reports.len(),
{
    if reports.len() > 0 {
        let (next, step) = join_report(st, reports[0]);
        law_join_scans_bounded(
            st,
            match reports[0] {
                JoinReport::Scan(s, _) => s,
                _ => WifiState::Disconnected,
            },
            match reports[0] {
                JoinReport::Scan(_, e) => e,
                _ => Seq::empty(),
            },
            match reports[0] {
                JoinReport::Link(c) => c,
                _ => false,
            },
        );
        if st.phase == JoinPhase::ScanWait {
            if let JoinReport::Scan(s, e) = reports[0] {
                law_join_connects_to_listed(st, s, e);
            }
        }
        lemma_join_run(next, reports.drop_first());
        let (fin, steps) = join_run(next, reports.drop_first());
        match step {
            Some(s) => {
                let all = seq![s] + steps;
                assert(all[0] == s);
                assert(all.drop_first() =~= steps);
            },
            None => {},
        }
    }
}

/// A whole join asks for at most [`DISPLAY_SCAN_ATTEMPTS`] scans, counting the
/// first, and connects at most once: never again after the first scan that
/// lists the network. Only a join that asked to connect can end joined, and
/// only one that never did ends with the target it started with.
pub proof fn law_join_run(ready: bool, saved: Option<(Seq<char>, Seq<char>)>, reports: Seq<JoinReport>)
    ensures
        ({
            let (st0, first) = join_start_spec(ready, saved);
            let (fin, steps) = join_run(st0, reports);
            let all = seq![first] + steps;
            &&& scan_count(all) <= DISPLAY_SCAN_ATTEMPTS
            &&& connect_count(all) <= 1
            &&& !ready ==> scan_count(all) == 0 && connect_count(all) == 0
            &&& connect_count(all) == 0 ==> fin.target == saved
        }),
{
    let (st0, first) = join_start_spec(ready, saved);
    lemma_join_run(st0, reports);
    let (fin, steps) = join_run(st0, reports);
    let all = seq![first] + steps;
    assert(all[0] == first);
    assert(all.drop_first() =~= steps);
}

} // verus!
