//! The process-supervisor state machine for the spawned player.
//!
//! The supervisor owns the two virtual terminals (one per pseudo-terminal),
//! the control bridge of the live session, and the routing selector for
//! keystrokes. It decides; the embedding application acts: it spawns the
//! player and the optional auxiliary demuxer, sleeps between connection
//! attempts, reads the pseudo-terminals without blocking, and writes where
//! the supervisor says. Every tick the application gathers what it saw into
//! an [`UpdateInput`] and applies [`MpvHandler::update`].

use crate::ansi_term::{gv_new, rows_text, term_after_feed};
use crate::ansi_term_buf::AnsiTermBuf;
use crate::ipc::Bridge;
use crate::ipc::{IpcEvent, apply_lines, split_lines};
use crate::modal::{ModalPopup, ModalView, error_view, warn_view};
use vstd::prelude::*;
use vstd::string::StrSliceExecFns;
use vstd::string::StringSliceAdditionalSpecFns;
use vstd::string::StringExecFns;

verus! {

/// Which pseudo-terminal keystrokes are currently routed to.
#[derive(Clone, Copy, PartialEq, Eq, Debug, Structural)]
pub enum ActivePtyInput {
    Mpv,
    Demuxer,
}

/// An auxiliary demuxer process to spawn: its command and arguments, already
/// resolved against the song path.
pub struct CustomDemuxer {
    pub cmd: String,
    pub args: Vec<String>,
}

/// Playback position and duration, in milliseconds.
pub struct TimeInfo {
    pub pos_millis: i64,
    pub duration_millis: i64,
}

/// How many times a fresh session tries to reach the control socket. The
/// socket is created by the spawned player asynchronously after startup, so
/// there is no readiness signal to wait on, only a bounded retry.
pub const CONNECT_ATTEMPTS: u8 = 5;

/// What one connection attempt saw.
#[derive(Clone, Copy, PartialEq, Eq, Debug, Structural)]
pub enum ConnectOutcome {
    /// The control socket accepted and the observe commands were written.
    Connected,
    /// The socket was not reachable and the player process has already
    /// exited.
    FailedProcessExited,
    /// The socket was not reachable but the player process is still running.
    FailedProcessRunning,
}

/// What to do after one connection attempt.
#[derive(Clone, Copy, PartialEq, Eq, Debug, Structural)]
pub enum RetryDecision {
    /// Connected: the session may start.
    Proceed,
    /// Sleep the fixed delay and try again.
    Retry,
    /// Give up now: the player already exited, waiting longer cannot help.
    AbortProcessExited,
    /// Give up: the whole retry budget is spent.
    AbortRetriesExhausted,
}

/// The decision after attempt number `attempt` (counted from zero) saw
/// `outcome`.
pub open spec fn spec_retry_step(attempt: u8, outcome: ConnectOutcome) -> RetryDecision {
    match outcome {
        ConnectOutcome::Connected => RetryDecision::Proceed,
        ConnectOutcome::FailedProcessExited => RetryDecision::AbortProcessExited,
        ConnectOutcome::FailedProcessRunning => if attempt + 1 < CONNECT_ATTEMPTS {
            RetryDecision::Retry
        } else {
            RetryDecision::AbortRetriesExhausted
        },
    }
}

/// Decide what one connection attempt's outcome means. A dead player aborts
/// the loop at once, whatever the remaining budget.
pub fn retry_step(attempt: u8, outcome: ConnectOutcome) -> (d: RetryDecision)
    requires
        attempt < CONNECT_ATTEMPTS,
    ensures
        d == spec_retry_step(attempt, outcome),
        outcome == ConnectOutcome::FailedProcessExited ==> d == RetryDecision::AbortProcessExited,
        outcome == ConnectOutcome::Connected ==> d == RetryDecision::Proceed,
{
    match outcome {
        ConnectOutcome::Connected => RetryDecision::Proceed,
        ConnectOutcome::FailedProcessExited => RetryDecision::AbortProcessExited,
        ConnectOutcome::FailedProcessRunning => {
            if attempt + 1 < CONNECT_ATTEMPTS {
                RetryDecision::Retry
            } else {
                RetryDecision::AbortRetriesExhausted
            }
        },
    }
}

/// The whole retry loop run against a given sequence of attempt outcomes
/// (an attempt past the end of the sequence counts as a failure with the
/// process still running): the number of attempts made and the final
/// decision.
pub open spec fn spec_run_retry(outcomes: Seq<ConnectOutcome>, attempt: u8) -> (nat, RetryDecision)
    decreases CONNECT_ATTEMPTS - attempt,
{
    if attempt >= CONNECT_ATTEMPTS {
        (attempt as nat, RetryDecision::AbortRetriesExhausted)
    } else {
        let oc = if attempt < outcomes.len() {
            outcomes[attempt as int]
        } else {
            ConnectOutcome::FailedProcessRunning
        };
        match spec_retry_step(attempt, oc) {
            RetryDecision::Retry => spec_run_retry(outcomes, (attempt + 1) as u8),
            d => ((attempt + 1) as nat, d),
        }
    }
}

/// The result of simulating the retry loop.
pub struct RetryResult {
    pub attempts_used: u8,
    pub decision: RetryDecision,
}

/// Run the retry loop against a pre-recorded sequence of attempt outcomes, as
/// a simulated player process would produce them.
pub fn run_retry(outcomes: &Vec<ConnectOutcome>) -> (r: RetryResult)
    ensures
        ({
            let s = spec_run_retry(outcomes@, 0);
            r.attempts_used as nat == s.0 && r.decision == s.1
        }),
{
    let mut attempt: u8 = 0;
    while attempt < CONNECT_ATTEMPTS
        invariant
            attempt <= CONNECT_ATTEMPTS,
            spec_run_retry(outcomes@, 0) == spec_run_retry(outcomes@, attempt),
        decreases CONNECT_ATTEMPTS - attempt,
    {
        let oc: ConnectOutcome = if (attempt as usize) < outcomes.len() {
            outcomes[attempt as usize]
        } else {
            ConnectOutcome::FailedProcessRunning
        };
        let d = retry_step(attempt, oc);
        match d {
            RetryDecision::Retry => {
                attempt = attempt + 1;
            },
            _ => {
                return RetryResult { attempts_used: attempt + 1, decision: d };
            },
        }
    }
    RetryResult { attempts_used: attempt, decision: RetryDecision::AbortRetriesExhausted }
}

/// A connection attempt that finds the player process already dead makes the
/// loop report failure at once: after `i` plain failures and one
/// process-exited outcome, the loop has made `i + 1` attempts, short of the
/// budget whenever `i + 1` is.
pub proof fn lemma_retry_aborts_early_on_process_exit(outcomes: Seq<ConnectOutcome>, i: u8)
    requires
        i < CONNECT_ATTEMPTS,
        i < outcomes.len(),
        outcomes[i as int] == ConnectOutcome::FailedProcessExited,
        forall|j: int| 0 <= j < i ==> outcomes[j] == ConnectOutcome::FailedProcessRunning,
    ensures
        spec_run_retry(outcomes, 0) == ((i + 1) as nat, RetryDecision::AbortProcessExited),
{
    lemma_retry_aborts_from(outcomes, i, 0);
}

proof fn lemma_retry_aborts_from(outcomes: Seq<ConnectOutcome>, i: u8, attempt: u8)
    requires
        attempt <= i,
        i < CONNECT_ATTEMPTS,
        i < outcomes.len(),
        outcomes[i as int] == ConnectOutcome::FailedProcessExited,
        forall|j: int| attempt <= j < i ==> outcomes[j] == ConnectOutcome::FailedProcessRunning,
    ensures
        spec_run_retry(outcomes, attempt) == ((i + 1) as nat, RetryDecision::AbortProcessExited),
    decreases i - attempt,
{
    if attempt < i {
        lemma_retry_aborts_from(outcomes, i, (attempt + 1) as u8);
    }
}

/// One non-blocking read of a pseudo-terminal: the bytes that were available
/// (possibly none), or a genuine I/O error. A would-block condition is not an
/// error; it is an empty read.
pub enum ReadOutcome {
    Data(Vec<u8>),
    Failed(String),
}

/// What the application learned about the child process this tick.
pub enum ChildStatus {
    Running,
    /// The process exited; whether the exit was clean, and the status text
    /// for the error report.
    Exited(bool, String),
    /// Waiting on the process itself failed, with the error text.
    WaitFailed(String),
}

/// Everything the application gathered for one tick: the bytes drained from
/// the control socket (and the I/O error that ended draining, if one did),
/// the child-process status, and one non-blocking read from each
/// pseudo-terminal.
pub struct UpdateInput {
    pub ipc_data: Vec<u8>,
    pub ipc_error: Option<String>,
    pub child: ChildStatus,
    pub mpv_read: ReadOutcome,
    pub demux_read: ReadOutcome,
}

/// What the application must do after a tick.
pub struct UpdateActions {
    /// The session is over: write the quit key to the player's
    /// pseudo-terminal and wait for the process to exit.
    pub stop: bool,
}

/// The modal slot after one tick's errors are reported: an I/O error on the
/// control channel warns; an abnormal exit, or a failure to wait on the
/// child, raises an error over it.
pub open spec fn modal_after_update(m: ModalView, input: UpdateInput) -> ModalView {
    let m1 = match input.ipc_error {
        Some(e) => warn_view("Mpv IPC error"@, e@),
        None => m,
    };
    match input.child {
        ChildStatus::Exited(success, text) => if !success {
            error_view("Abnormal mpv termination"@, "Mpv exited with status "@ + text@)
        } else {
            m1
        },
        ChildStatus::WaitFailed(e) => error_view(
            "Abnormal mpv termination"@,
            "Error waiting on mpv: "@ + e@,
        ),
        ChildStatus::Running => m1,
    }
}

/// The supervisor: the two virtual terminals, the control bridge of the live
/// session (if one is live), whether the auxiliary pseudo-terminal is still
/// being read, and the keystroke routing selector.
pub struct MpvHandler {
    pub mpv_term: AnsiTermBuf,
    pub demux_term: AnsiTermBuf,
    pub inner: Option<Bridge>,
    pub read_demuxer: bool,
    pub active_pty_input: ActivePtyInput,
}

impl MpvHandler {
    pub open spec fn wf(&self) -> bool {
        &&& self.mpv_term.wf()
        &&& self.demux_term.wf()
    }
}

impl Default for MpvHandler {
    /// A supervisor with no live session and two fresh 100-column terminals.
    fn default() -> (r: Self)
        ensures
            r.wf(),
            r.inner is None,
            r.read_demuxer,
            r.active_pty_input == ActivePtyInput::Mpv,
            r.mpv_term.state@ == gv_new(100),
            r.demux_term.state@ == gv_new(100),
    {
        MpvHandler {
            mpv_term: AnsiTermBuf::new(100),
            demux_term: AnsiTermBuf::new(100),
            inner: None,
            read_demuxer: true,
            active_pty_input: ActivePtyInput::Mpv,
        }
    }
}

impl MpvHandler {
    /// Whether a session is live.
    pub fn active(&self) -> (r: bool)
        ensures
            r == (self.inner is Some),
    {
        self.inner.is_some()
    }

    /// The cached paused flag; a supervisor with no session counts as paused.
    pub fn paused(&self) -> (r: bool)
        ensures
            r == match self.inner {
                Some(b) => b.observed@.paused,
                None => true,
            },
    {
        match &self.inner {
            Some(b) => b.observed.paused,
            None => true,
        }
    }

    /// Whether the auxiliary pseudo-terminal is still being read.
    pub fn demuxer_active(&self) -> (r: bool)
        ensures
            r == self.read_demuxer,
    {
        self.read_demuxer
    }

    /// End the session. Returns whether one was live; if so, the caller must
    /// write the quit key to the player's pseudo-terminal and wait,
    /// synchronously, for the process to exit before anything else plays.
    pub fn stop_music(&mut self) -> (was_active: bool)
        ensures
            final(self).inner is None,
            was_active == (old(self).inner is Some),
            final(self).mpv_term == old(self).mpv_term,
            final(self).demux_term == old(self).demux_term,
            final(self).read_demuxer == old(self).read_demuxer,
            final(self).active_pty_input == old(self).active_pty_input,
    {
        let was_active = self.inner.is_some();
        self.inner = None;
        was_active
    }

    /// Start a new playback session: tear down any previous one and reset
    /// both terminals. Returns whether a previous session must be stopped
    /// (quit key written and the old process waited for) before spawning.
    pub fn begin_play(&mut self) -> (stop_needed: bool)
        requires
            old(self).wf(),
        ensures
            final(self).wf(),
            stop_needed == (old(self).inner is Some),
            final(self).inner is None,
            final(self).read_demuxer,
            final(self).mpv_term.state@ == gv_new(old(self).mpv_term.state@.width),
            final(self).demux_term.state@ == gv_new(old(self).demux_term.state@.width),
            final(self).active_pty_input == old(self).active_pty_input,
    {
        self.read_demuxer = true;
        let stop_needed = self.stop_music();
        self.mpv_term.reset();
        self.demux_term.reset();
        stop_needed
    }

    /// Install the bridge of a freshly connected session.
    pub fn attach_session(&mut self, bridge: Bridge)
        ensures
            final(self).inner == Some(bridge),
            final(self).mpv_term == old(self).mpv_term,
            final(self).demux_term == old(self).demux_term,
            final(self).read_demuxer == old(self).read_demuxer,
            final(self).active_pty_input == old(self).active_pty_input,
    {
        self.inner = Some(bridge);
    }

    /// Apply one tick: dispatch what the control channel sent, report errors,
    /// feed both terminals, and decide whether the session survives. A
    /// genuine read error on the player's pseudo-terminal is fatal for the
    /// session; one on the auxiliary pseudo-terminal only stops further
    /// auxiliary reads.
    pub fn update(&mut self, input: UpdateInput, modal: &mut ModalPopup) -> (actions: UpdateActions)
        requires
            old(self).wf(),
        ensures
            final(self).wf(),
            old(self).inner is None ==> *final(self) == *old(self) && *final(modal) == *old(modal)
                && !actions.stop,
            old(self).inner matches Some(b0) ==> {
                let br = apply_lines(b0.observed@, b0.event_queue@, split_lines(input.ipc_data@));
                &&& final(modal)@ == modal_after_update(old(modal)@, input)
                &&& (match input.mpv_read {
                    ReadOutcome::Data(d) => {
                        &&& !actions.stop
                        &&& final(self).inner matches Some(b1) && b1.observed@ == br.0
                            && b1.event_queue@ == br.1
                        &&& ({
                            let t = term_after_feed(
                                old(self).mpv_term.ansi_parser.status,
                                old(self).mpv_term.ansi_parser.params@,
                                old(self).mpv_term.state@,
                                d@,
                            );
                            final(self).mpv_term.ansi_parser.status == t.0 && final(self).mpv_term.ansi_parser.params@ == t.1 && final(self).mpv_term.state@
                                == t.2
                        })
                        &&& (match input.demux_read {
                            ReadOutcome::Data(dd) => {
                                &&& final(self).read_demuxer == old(self).read_demuxer
                                &&& (old(self).read_demuxer ==> {
                                    let t = term_after_feed(
                                        old(self).demux_term.ansi_parser.status,
                                        old(self).demux_term.ansi_parser.params@,
                                        old(self).demux_term.state@,
                                        dd@,
                                    );
                                    final(self).demux_term.ansi_parser.status == t.0 && final(self).demux_term.ansi_parser.params@ == t.1 && final(self).demux_term.state@ == t.2
                                })
                                &&& (!old(self).read_demuxer ==> final(self).demux_term == old(
                                    self,
                                ).demux_term)
                            },
                            ReadOutcome::Failed(_) => {
                                &&& !final(self).read_demuxer
                                &&& final(self).demux_term == old(self).demux_term
                            },
                        })
                    },
                    ReadOutcome::Failed(_) => {
                        &&& actions.stop
                        &&& final(self).inner is None
                        &&& final(self).mpv_term == old(self).mpv_term
                        &&& final(self).demux_term == old(self).demux_term
                        &&& final(self).read_demuxer == old(self).read_demuxer
                    },
                })
                &&& final(self).active_pty_input == old(self).active_pty_input
            },
    {
        let bridge = match &mut self.inner {
            Some(b) => b,
            None => {
                return UpdateActions { stop: false };
            },
        };
        bridge.handle_responses(input.ipc_data.as_slice());
        if let Some(e) = &input.ipc_error {
            modal.warn("Mpv IPC error", e.as_str());
        }
        match &input.child {
            ChildStatus::Running => (),
            ChildStatus::Exited(success, text) => {
                if !*success {
                    let mut msg = String::new();
                    msg.append("Mpv exited with status ");
                    msg.append(text.as_str());
                    modal.error("Abnormal mpv termination", msg.as_str());
                }
            },
            ChildStatus::WaitFailed(e) => {
                let mut msg = String::new();
                msg.append("Error waiting on mpv: ");
                msg.append(e.as_str());
                modal.error("Abnormal mpv termination", msg.as_str());
            },
        }
        match &input.mpv_read {
            ReadOutcome::Data(d) => {
                if d.len() > 0 {
                    self.mpv_term.feed(d.as_slice());
                }
            },
            ReadOutcome::Failed(_) => {
                // Better terminate playback: a broken player terminal means
                // the session is beyond saving.
                self.inner = None;
                return UpdateActions { stop: true };
            },
        }
        if self.read_demuxer {
            match &input.demux_read {
                ReadOutcome::Data(d) => {
                    if d.len() > 0 {
                        self.demux_term.feed(d.as_slice());
                    }
                },
                ReadOutcome::Failed(_) => {
                    self.read_demuxer = false;
                },
            }
        }
        UpdateActions { stop: false }
    }

    /// Where raw text typed by the user goes, and as which bytes: the
    /// currently selected pseudo-terminal, while a session is live.
    pub fn send_input(&self, text: &str) -> (r: Option<(ActivePtyInput, Vec<u8>)>)
        ensures
            self.inner is None ==> r is None,
            self.inner is Some ==> (r matches Some((target, bytes)) && target
                == self.active_pty_input && bytes@ == text.spec_bytes()),
    {
        if self.inner.is_some() {
            Some((self.active_pty_input, text.as_bytes_vec()))
        } else {
            None
        }
    }

    /// The player's console output with each row's trailing padding replaced
    /// by a single line terminator.
    pub fn mpv_output(&self) -> (r: String)
        requires
            self.wf(),
        ensures
            r@ == rows_text(self.mpv_term.state@.rows, true),
    {
        self.mpv_term.state.render(true)
    }

    /// The observed loop-region bounds, while a session is live.
    pub fn ab_loop(&self) -> (r: Option<(Option<i64>, Option<i64>)>)
        ensures
            r == match self.inner {
                Some(b) => Some((b.observed@.ab_loop_a, b.observed@.ab_loop_b)),
                None => None::<(Option<i64>, Option<i64>)>,
            },
    {
        match &self.inner {
            Some(b) => Some((b.observed.ab_loop_a, b.observed.ab_loop_b)),
            None => None,
        }
    }

    /// The observed playback position and duration, while a session is live.
    pub fn time_info(&self) -> (r: Option<TimeInfo>)
        ensures
            self.inner is None ==> r is None,
            self.inner matches Some(b) ==> (r matches Some(ti) && ti.pos_millis
                == b.observed@.time_pos_millis && ti.duration_millis == b.observed@.duration_millis),
    {
        match &self.inner {
            Some(b) => Some(
                TimeInfo {
                    pos_millis: b.observed.time_pos_millis,
                    duration_millis: b.observed.duration_millis,
                },
            ),
            None => None,
        }
    }

    /// Take the oldest pending lifecycle event, if any; each event is
    /// delivered exactly once.
    pub fn poll_event(&mut self) -> (r: Option<IpcEvent>)
        ensures
            old(self).inner is None ==> r is None && *final(self) == *old(self),
            old(self).inner matches Some(b0) ==> {
                &&& final(self).mpv_term == old(self).mpv_term
                &&& final(self).demux_term == old(self).demux_term
                &&& final(self).read_demuxer == old(self).read_demuxer
                &&& final(self).active_pty_input == old(self).active_pty_input
                &&& final(self).inner matches Some(b1) && b1.observed@ == b0.observed@
                &&& (b0.event_queue@.len() == 0 ==> r is None && final(self).inner->0.event_queue@
                    == b0.event_queue@)
                &&& (b0.event_queue@.len() > 0 ==> r == Some(b0.event_queue@[0]) && final(self).inner->0.event_queue@ == b0.event_queue@.drop_first())
            },
    {
        match &mut self.inner {
            Some(b) => b.event_queue.pop_front(),
            None => None,
        }
    }

    /// Flip the cached paused flag of the live session and hand back the
    /// command the application must write; `None` with no session.
    pub fn toggle_pause(&mut self) -> (r: Option<String>)
        ensures
            old(self).inner is None ==> r is None && *final(self) == *old(self),
            old(self).inner matches Some(b0) ==> {
                &&& final(self).mpv_term == old(self).mpv_term
                &&& final(self).demux_term == old(self).demux_term
                &&& final(self).read_demuxer == old(self).read_demuxer
                &&& final(self).active_pty_input == old(self).active_pty_input
                &&& final(self).inner matches Some(b1) && b1.observed@ == (crate::ipc::PropsView {
                    paused: !b0.observed@.paused,
                    ..b0.observed@
                }) && b1.event_queue@ == b0.event_queue@
                &&& r matches Some(cmd) && cmd@ == crate::ipc_command::command_text(
                    crate::ipc_command::IpcCommand::SetProperty(
                        crate::ipc_property::PropertyId::Pause,
                        crate::ipc_property::PropValue::Bool(!b0.observed@.paused),
                    ),
                )
            },
    {
        match &mut self.inner {
            Some(b) => Some(b.toggle_pause()),
            None => None,
        }
    }
}

/// The fixed path of the control socket; one session exists at a time, and a
/// new session fully closes the old process before the path is reused.
pub fn ipc_socket_path() -> (r: &'static str)
    ensures
        r@ == "/tmp/mpvfrog.sock"@,
{
    "/tmp/mpvfrog.sock"
}

/// The argument list for the player: the song path (unless an auxiliary
/// demuxer pipes the data in), the control-socket flag, the volume and speed
/// flags, a no-video flag when video is off, and any extra arguments the
/// matched custom player asks for.
pub fn build_mpv_args(
    song_path: &str,
    volume: u8,
    speed_millis: i64,
    video: bool,
    extra_args: &Vec<String>,
    with_demuxer: bool,
) -> (args: Vec<String>)
    requires
        speed_millis != i64::MIN,
    ensures
        views_of(args@) == spec_mpv_args(
            song_path@,
            volume,
            speed_millis as int,
            video,
            views_of(extra_args@),
            with_demuxer,
        ),
{
    let mut args: Vec<String> = Vec::new();
    if !with_demuxer {
        args.push(song_path.to_owned());
    }
    let mut ipc_arg = String::new();
    ipc_arg.append("--input-ipc-server=");
    ipc_arg.append(ipc_socket_path());
    args.push(ipc_arg);
    let mut vol_arg = String::new();
    vol_arg.append("--volume=");
    crate::numfmt::append_u64(&mut vol_arg, volume as u64);
    args.push(vol_arg);
    let mut speed_arg = String::new();
    speed_arg.append("--speed=");
    crate::numfmt::append_millis(&mut speed_arg, speed_millis);
    args.push(speed_arg);
    if !video {
        args.push("--no-video".to_owned());
    }
    let ghost head = spec_mpv_args_head(song_path@, volume, speed_millis as int, video, with_demuxer);
    let ghost mapped = views_of(extra_args@);
    proof {
        assert(views_of(args@) =~= head + mapped.take(0));
    }
    let mut i: usize = 0;
    while i < extra_args.len()
        invariant
            i <= extra_args@.len(),
            mapped == views_of(extra_args@),
            head == spec_mpv_args_head(song_path@, volume, speed_millis as int, video, with_demuxer),
            views_of(args@) =~= head + mapped.take(i as int),
        decreases extra_args@.len() - i,
    {
        let ghost prev_args = args@;
        args.push(extra_args[i].clone());
        proof {
            assert(args@ == prev_args.push(extra_args@[i as int]));
            assert(mapped[i as int] == extra_args@[i as int]@);
            assert(mapped.take(i + 1) =~= mapped.take(i as int).push(mapped[i as int]));
            // The stored views: one new element behind the old ones.
            assert(views_of(prev_args).len() == prev_args.len());
            assert(mapped.take(i as int).len() == i as int);
            assert forall|j: int|
                0 <= j < prev_args.len() implies views_of(args@)[j] == (head + mapped.take(i + 1))[j] by {
                assert(views_of(args@)[j] == args@[j]@);
                assert(views_of(prev_args)[j] == prev_args[j]@);
                assert((head + mapped.take(i as int))[j] == views_of(prev_args)[j]);
                if j >= head.len() {
                    assert(mapped.take(i + 1)[j - head.len()] == mapped[j - head.len()]);
                    assert(mapped.take(i as int)[j - head.len()] == mapped[j - head.len()]);
                }
            }
            assert(views_of(args@)[prev_args.len() as int] == mapped[i as int]);
            assert(views_of(args@) =~= head + mapped.take(i + 1));
        }
        i = i + 1;
    }
    proof {
        assert(mapped.take(mapped.len() as int) =~= mapped);
        assert(views_of(args@) =~= spec_mpv_args(
            song_path@,
            volume,
            speed_millis as int,
            video,
            mapped,
            with_demuxer,
        ));
    }
    args
}

/// The views of a sequence of strings.
pub open spec fn views_of(ss: Seq<String>) -> Seq<Seq<char>> {
    ss.map(|k: int, s: String| s@)
}

/// The text a reader-command argument resolves to: its literal, or the song
/// path for the placeholder.
pub open spec fn resolved_arg_text(arg: crate::config::ArgType, song_path: Seq<char>) -> Seq<char> {
    match arg {
        crate::config::ArgType::Custom(s) => s@,
        crate::config::ArgType::SongPath => song_path,
    }
}

/// Resolve one reader-command argument against the song path.
pub fn config_cmd_arg_to_string(arg: &crate::config::ArgType, song_path: &str) -> (r: String)
    ensures
        r@ == resolved_arg_text(*arg, song_path@),
{
    match arg {
        crate::config::ArgType::Custom(s) => s.clone(),
        crate::config::ArgType::SongPath => song_path.to_owned(),
    }
}

impl CustomDemuxer {
    /// The demuxer process a configured reader command describes, its
    /// placeholder arguments resolved against the song path.
    pub fn from_config_cmd(reader_cmd: &crate::config::Command, song_path: &str) -> (r: Self)
        ensures
            r.cmd@ == reader_cmd.name@,
            views_of(r.args@).len() == reader_cmd.args@.len(),
            forall|k: int|
                0 <= k < r.args@.len() ==> views_of(r.args@)[k] == resolved_arg_text(
                    #[trigger] reader_cmd.args@[k],
                    song_path@,
                ),
    {
        let mut args: Vec<String> = Vec::new();
        let mut i: usize = 0;
        while i < reader_cmd.args.len()
            invariant
                i <= reader_cmd.args@.len(),
                args@.len() == i,
                forall|k: int|
                    0 <= k < i ==> views_of(args@)[k] == resolved_arg_text(
                        #[trigger] reader_cmd.args@[k],
                        song_path@,
                    ),
            decreases reader_cmd.args@.len() - i,
        {
            args.push(config_cmd_arg_to_string(&reader_cmd.args[i], song_path));
            proof {
                assert forall|k: int|
                    0 <= k < args@.len() implies views_of(args@)[k] == args@[k]@ by {}
            }
            i = i + 1;
        }
        CustomDemuxer { cmd: reader_cmd.name.clone(), args }
    }
}

/// The fixed front of the argument list.
pub open spec fn spec_mpv_args_head(
    song_path: Seq<char>,
    volume: u8,
    speed_millis: int,
    video: bool,
    with_demuxer: bool,
) -> Seq<Seq<char>> {
    let head: Seq<Seq<char>> = if with_demuxer {
        seq![]
    } else {
        seq![song_path]
    };
    let base = head + seq![
        "--input-ipc-server="@ + "/tmp/mpvfrog.sock"@,
        "--volume="@ + crate::numfmt::dec_digits(volume as nat),
        "--speed="@ + crate::numfmt::millis_text(speed_millis),
    ];
    if !video {
        base + seq!["--no-video"@]
    } else {
        base
    }
}

/// The whole argument list: the fixed front plus the custom player's extra
/// arguments.
pub open spec fn spec_mpv_args(
    song_path: Seq<char>,
    volume: u8,
    speed_millis: int,
    video: bool,
    extra: Seq<Seq<char>>,
    with_demuxer: bool,
) -> Seq<Seq<char>> {
    spec_mpv_args_head(song_path, volume, speed_millis, video, with_demuxer) + extra
}

} // verus!
