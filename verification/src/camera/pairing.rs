//! The Bluetooth handshake that ends with the camera's Wi-Fi credentials.
//!
//! Sockets and GATT stay outside. [`PairingFlow`] decides what the next step is, given
//! what the camera has said so far and whether the exchange has run out of time and the
//! pause before a resend has passed; [`Pairing`] keeps the clock that answers those two
//! questions, in milliseconds: the whole exchange has [`PAIR_DEADLINE_MS`], and a step
//! the camera leaves unanswered goes out again after [`STEP_RETRY_MS`].
//!
//! 1. Wake the session.
//! 2. Offer a pairing PIN. The camera answers `00 01` if it already knows this client,
//!    or `00 02` if a human has to approve on the body.
//! 3. If it asks for approval, it sends its own `0x07/0x46` request; answer that.
//! 4. Ask it to wake its access point.
//! 5. Read the Wi-Fi name, then the password.

use vstd::prelude::*;

use crate::text::{chars_of, owned};

verus! {

/// How long any one step may go unanswered before it is retried, in milliseconds.
pub const STEP_RETRY_MS: u64 = 2000;

/// How long the whole exchange may take, in milliseconds. Approval waits for a human.
pub const PAIR_DEADLINE_MS: u64 = 120_000;

/// Command set and identifier of a frame, which is all this machine needs to route one.
#[derive(Debug, Clone, PartialEq, Eq)]
pub struct Reply {
    pub cmd_set: u8,
    pub cmd_id: u8,
    pub seq: u16,
    pub is_request: bool,
    pub payload: Vec<u8>,
}

/// What to write to the camera next.
#[derive(Debug, Clone, Copy, PartialEq, Eq, Structural)]
pub enum PairStep {
    /// Open the session.
    Wake,
    /// Offer the PIN.
    SetPin,
    /// Answer the camera's approval request, echoing its sequence.
    ApproveWith(u16),
    /// Ask the camera to bring its access point up.
    WakeAccessPoint,
    AskSsid,
    AskPassword,
}

/// Where the pairing has got to.
#[derive(Debug, Clone, PartialEq, Eq)]
pub enum PairState {
    Waking,
    Pinning,
    /// The camera wants a human to approve this client on the body.
    AwaitingApproval,
    WakingAccessPoint,
    AskingSsid,
    AskingPassword,
    Done { ssid: String, password: String },
    Failed(String),
}

/// A stage of the exchange, with its texts as characters.
pub enum Stage {
    Waking,
    Pinning,
    AwaitingApproval,
    WakingAccessPoint,
    AskingSsid,
    AskingPassword,
    Done { ssid: Seq<char>, password: Seq<char> },
    Failed(Seq<char>),
}

pub open spec fn stage_of(state: PairState) -> Stage {
    match state {
        PairState::Waking => Stage::Waking,
        PairState::Pinning => Stage::Pinning,
        PairState::AwaitingApproval => Stage::AwaitingApproval,
        PairState::WakingAccessPoint => Stage::WakingAccessPoint,
        PairState::AskingSsid => Stage::AskingSsid,
        PairState::AskingPassword => Stage::AskingPassword,
        PairState::Done { ssid, password } => Stage::Done { ssid: ssid@, password: password@ },
        PairState::Failed(reason) => Stage::Failed(reason@),
    }
}

/// The whole of a pairing's state: its stage, the step queued to go out next, whether
/// the last step sent is waiting out the retry pause, and the name held between the
/// two credential replies.
pub struct FlowView {
    pub stage: Stage,
    pub pending: Option<PairStep>,
    pub awaiting_retry: bool,
    pub ssid: Seq<char>,
}

/// The exchange's decisions with the clock left out: what the camera has said, the step
/// queued, and whether the last step sent waits out the retry pause.
#[derive(Debug)]
pub struct PairingFlow {
    state: PairState,
    pending: Option<PairStep>,
    /// A step went out and its resend waits for the retry pause.
    awaiting_retry: bool,
    /// Held between the two credential replies; the name arrives before the password.
    ssid: String,
}

impl View for PairingFlow {
    type V = FlowView;

    closed spec fn view(&self) -> FlowView {
        FlowView {
            stage: stage_of(self.state),
            pending: self.pending,
            awaiting_retry: self.awaiting_retry,
            ssid: self.ssid@,
        }
    }
}

pub open spec fn is_finished_stage(stage: Stage) -> bool {
    stage matches Stage::Done { .. } || stage matches Stage::Failed(_)
}

/// Credentials are never empty, and the name held while the password is asked for is
/// never empty either.
pub open spec fn flow_wf(flow: FlowView) -> bool {
    &&& flow.stage matches Stage::AskingPassword ==> flow.ssid.len() > 0
    &&& flow.stage matches Stage::Done { ssid, password } ==> ssid.len() > 0 && password.len() > 0
}

/// The step a stage asks for when nothing is queued.
pub open spec fn step_for_stage(stage: Stage) -> Option<PairStep> {
    match stage {
        Stage::Waking => Some(PairStep::Wake),
        Stage::Pinning => Some(PairStep::SetPin),
        Stage::WakingAccessPoint => Some(PairStep::WakeAccessPoint),
        Stage::AskingSsid => Some(PairStep::AskSsid),
        Stage::AskingPassword => Some(PairStep::AskPassword),
        _ => None,
    }
}

pub open spec fn refused_text() -> Seq<char> {
    "The camera refused the pairing request."@
}

pub open spec fn no_name_text() -> Seq<char> {
    "The camera did not give a Wi-Fi name."@
}

pub open spec fn no_password_text() -> Seq<char> {
    "The camera did not give a Wi-Fi password."@
}

pub open spec fn timed_out_text() -> Seq<char> {
    "The camera did not finish pairing. Bring it closer and try again."@
}

/// Queues a step to go out at once rather than after a retry pause.
pub open spec fn advanced(flow: FlowView, stage: Stage, step: PairStep) -> FlowView {
    FlowView { stage, pending: Some(step), awaiting_retry: false, ..flow }
}

/// What one frame from the camera does to the exchange.
pub open spec fn spec_receive(
    flow: FlowView,
    cmd_set: u8,
    cmd_id: u8,
    seq: u16,
    is_request: bool,
    payload: Seq<u8>,
    text: Option<Seq<char>>,
) -> FlowView {
    if flow.stage matches Stage::Pinning && cmd_set == 0x07 && cmd_id == 0x45 {
        if payload.len() > 1 && payload[1] == 0x01 {
            advanced(flow, Stage::WakingAccessPoint, PairStep::WakeAccessPoint)
        } else if payload.len() > 1 && payload[1] == 0x02 {
            FlowView { stage: Stage::AwaitingApproval, pending: None, ..flow }
        } else {
            FlowView { stage: Stage::Failed(refused_text()), ..flow }
        }
    } else if cmd_set == 0x07 && cmd_id == 0x46 && is_request {
        advanced(flow, Stage::WakingAccessPoint, PairStep::ApproveWith(seq))
    } else if flow.stage matches Stage::WakingAccessPoint && cmd_set == 0x53 && cmd_id == 0x10 {
        advanced(flow, Stage::AskingSsid, PairStep::AskSsid)
    } else if flow.stage matches Stage::AskingSsid && cmd_set == 0x07 && cmd_id == 0x07 {
        match text {
            Some(name) if name.len() > 0 => FlowView {
                ssid: name,
                ..advanced(flow, Stage::AskingPassword, PairStep::AskPassword)
            },
            _ => FlowView { stage: Stage::Failed(no_name_text()), ..flow },
        }
    } else if flow.stage matches Stage::AskingPassword && cmd_set == 0x07 && cmd_id == 0x0E {
        match text {
            Some(password) if password.len() > 0 => FlowView {
                stage: Stage::Done { ssid: flow.ssid, password },
                pending: None,
                awaiting_retry: flow.awaiting_retry,
                ssid: Seq::empty(),
            },
            _ => FlowView { stage: Stage::Failed(no_password_text()), ..flow },
        }
    } else {
        flow
    }
}

/// What one tick does, given whether the exchange has run out of time and whether the
/// retry pause since the last send has passed: the step to write, and the new state.
pub open spec fn spec_tick(flow: FlowView, expired: bool, retry_elapsed: bool) -> (
    Option<PairStep>,
    FlowView,
) {
    if is_finished_stage(flow.stage) {
        (None, flow)
    } else if expired {
        (None, FlowView { stage: Stage::Failed(timed_out_text()), ..flow })
    } else if flow.stage matches Stage::AwaitingApproval && flow.pending is None {
        (None, flow)
    } else if flow.awaiting_retry && !retry_elapsed {
        (None, flow)
    } else {
        let step = match flow.pending {
            Some(step) => Some(step),
            None => step_for_stage(flow.stage),
        };
        match step {
            None => (None, flow),
            Some(PairStep::Wake) => (
                Some(PairStep::Wake),
                FlowView {
                    stage: Stage::Pinning,
                    pending: Some(PairStep::SetPin),
                    awaiting_retry: false,
                    ..flow
                },
            ),
            Some(step) => (Some(step), FlowView { pending: None, awaiting_retry: true, ..flow }),
        }
    }
}

impl PairingFlow {
    pub fn new() -> (pairing: Self)
        ensures
            pairing@.stage matches Stage::Waking,
            pairing@.pending == Some(PairStep::Wake),
            !pairing@.awaiting_retry,
            pairing@.ssid.len() == 0,
            flow_wf(pairing@),
    {
        PairingFlow {
            state: PairState::Waking,
            pending: Some(PairStep::Wake),
            awaiting_retry: false,
            ssid: String::new(),
        }
    }

    pub fn state(&self) -> (state: &PairState)
        ensures
            stage_of(*state) == self@.stage,
    {
        &self.state
    }

    pub fn is_finished(&self) -> (finished: bool)
        ensures
            finished == is_finished_stage(self@.stage),
    {
        match &self.state {
            PairState::Done { .. } | PairState::Failed(_) => true,
            _ => false,
        }
    }

    /// Whether the last step sent is waiting out the retry pause.
    pub fn awaiting_retry(&self) -> (waiting: bool)
        ensures
            waiting == self@.awaiting_retry,
    {
        self.awaiting_retry
    }

    /// The credentials, once there are any.
    pub fn credentials(&self) -> (found: Option<(&str, &str)>)
        ensures
            found matches Some((ssid, password)) ==> self@.stage == (Stage::Done {
                ssid: ssid@,
                password: password@,
            }),
            found is None ==> !(self@.stage matches Stage::Done { .. }),
    {
        match &self.state {
            PairState::Done { ssid, password } => Some((ssid.as_str(), password.as_str())),
            _ => None,
        }
    }

    fn step_for_state(&self) -> (step: Option<PairStep>)
        ensures
            step == step_for_stage(self@.stage),
    {
        match self.state {
            PairState::Waking => Some(PairStep::Wake),
            PairState::Pinning => Some(PairStep::SetPin),
            PairState::WakingAccessPoint => Some(PairStep::WakeAccessPoint),
            PairState::AskingSsid => Some(PairStep::AskSsid),
            PairState::AskingPassword => Some(PairStep::AskPassword),
            _ => None,
        }
    }

    /// What to write now, if anything. Resends a step the camera has not answered once
    /// `retry_elapsed` says the pause has passed; `expired` ends the exchange.
    ///
    /// `0x00/0x2b` opens the session but is not a request/reply gate, so the PIN goes
    /// out on the next tick after the wake without waiting for an answer.
    pub fn tick(&mut self, expired: bool, retry_elapsed: bool) -> (step: Option<PairStep>)
        requires
            flow_wf(old(self)@),
        ensures
            flow_wf(final(self)@),
            (step, final(self)@) == spec_tick(old(self)@, expired, retry_elapsed),
    {
        if self.is_finished() {
            return None;
        }
        if expired {
            self.state = PairState::Failed(
                owned("The camera did not finish pairing. Bring it closer and try again."),
            );
            return None;
        }
        if matches!(self.state, PairState::AwaitingApproval) && self.pending.is_none() {
            return None;
        }
        if self.awaiting_retry && !retry_elapsed {
            return None;
        }
        let step = match self.pending {
            Some(step) => step,
            None => match self.step_for_state() {
                Some(step) => step,
                None => {
                    return None;
                },
            },
        };
        if step == PairStep::Wake {
            self.state = PairState::Pinning;
            self.pending = Some(PairStep::SetPin);
            self.awaiting_retry = false;
        } else {
            self.pending = None;
            self.awaiting_retry = true;
        }
        Some(step)
    }

    /// Folds in one frame from the camera. `text` is the status string read out of the
    /// payload, which the driver supplies for the two credential replies.
    pub fn receive(&mut self, reply: &Reply, text: Option<&str>)
        requires
            flow_wf(old(self)@),
        ensures
            flow_wf(final(self)@),
            final(self)@ == spec_receive(
                old(self)@,
                reply.cmd_set,
                reply.cmd_id,
                reply.seq,
                reply.is_request,
                reply.payload@,
                match text {
                    Some(t) => Some(t@),
                    None => None,
                },
            ),
    {
        let pinning = matches!(self.state, PairState::Pinning);
        if pinning && reply.cmd_set == 0x07 && reply.cmd_id == 0x45 {
            if reply.payload.len() > 1 && reply.payload[1] == 0x01 {
                self.state = PairState::WakingAccessPoint;
                self.advance(PairStep::WakeAccessPoint);
            } else if reply.payload.len() > 1 && reply.payload[1] == 0x02 {
                self.state = PairState::AwaitingApproval;
                self.pending = None;
            } else {
                self.state = PairState::Failed(owned("The camera refused the pairing request."));
            }
            return;
        }
        if reply.cmd_set == 0x07 && reply.cmd_id == 0x46 && reply.is_request {
            self.state = PairState::WakingAccessPoint;
            self.advance(PairStep::ApproveWith(reply.seq));
            return;
        }
        if matches!(self.state, PairState::WakingAccessPoint) && reply.cmd_set == 0x53
            && reply.cmd_id == 0x10 {
            self.state = PairState::AskingSsid;
            self.advance(PairStep::AskSsid);
            return;
        }
        if matches!(self.state, PairState::AskingSsid) && reply.cmd_set == 0x07 && reply.cmd_id
            == 0x07 {
            match text {
                Some(name) if chars_of(name).len() > 0 => {
                    self.ssid = owned(name);
                    self.state = PairState::AskingPassword;
                    self.advance(PairStep::AskPassword);
                },
                _ => {
                    self.state = PairState::Failed(owned("The camera did not give a Wi-Fi name."));
                },
            }
            return;
        }
        if matches!(self.state, PairState::AskingPassword) && reply.cmd_set == 0x07 && reply.cmd_id
            == 0x0E {
            match text {
                Some(password) if chars_of(password).len() > 0 => {
                    let mut ssid = String::new();
                    std::mem::swap(&mut ssid, &mut self.ssid);
                    self.state = PairState::Done { ssid, password: owned(password) };
                    self.pending = None;
                },
                _ => {
                    self.state = PairState::Failed(
                        owned("The camera did not give a Wi-Fi password."),
                    );
                },
            }
        }
    }

    /// Queues the next step and lets it go out immediately rather than after a retry.
    fn advance(&mut self, step: PairStep)
        ensures
            final(self)@ == (FlowView {
                pending: Some(step),
                awaiting_retry: false,
                ..old(self)@
            }),
    {
        self.pending = Some(step);
        self.awaiting_retry = false;
    }
}

/// A finished pairing sends nothing more, whatever the clock says, and stays as it is.
pub proof fn lemma_finished_is_final(flow: FlowView, expired: bool, retry_elapsed: bool)
    requires
        is_finished_stage(flow.stage),
    ensures
        spec_tick(flow, expired, retry_elapsed) == (None::<PairStep>, flow),
{
}

/// While a human is asked to approve, nothing is resent until the camera's own request
/// arrives, unless the exchange runs out of time.
pub proof fn lemma_approval_is_not_retried(flow: FlowView, retry_elapsed: bool)
    requires
        flow.stage matches Stage::AwaitingApproval,
        flow.pending is None,
    ensures
        spec_tick(flow, false, retry_elapsed).0 is None,
{
}

/// Credentials, once handed over, are never empty.
pub proof fn lemma_credentials_not_empty(flow: FlowView)
    requires
        flow_wf(flow),
        flow.stage matches Stage::Done { .. },
    ensures
        flow.stage->ssid.len() > 0,
        flow.stage->password.len() > 0,
{
}

/// Whether the exchange begun at `started` has run out of time at `now`.
pub open spec fn deadline_passed(started: u64, now: u64) -> bool {
    now - started >= PAIR_DEADLINE_MS
}

/// Whether a step sent at `last_sent` may go out again at `now`; one never sent may.
pub open spec fn retry_due(last_sent: Option<u64>, now: u64) -> bool {
    match last_sent {
        None => true,
        Some(sent) => now - sent >= STEP_RETRY_MS,
    }
}

/// The whole of a clocked pairing: the exchange, when it began, and when the step that
/// waits out the retry pause went out.
pub struct PairingView {
    pub flow: FlowView,
    pub started: u64,
    pub last_sent: Option<u64>,
}

/// A send time is held exactly while a step waits out the retry pause.
pub open spec fn clocked_wf(p: PairingView) -> bool {
    &&& flow_wf(p.flow)
    &&& (p.last_sent is Some <==> p.flow.awaiting_retry)
}

/// One tick at `now`: the step to write, and the pairing after it.
pub open spec fn clocked_tick(p: PairingView, now: u64) -> (Option<PairStep>, PairingView) {
    let (step, flow) = spec_tick(
        p.flow,
        deadline_passed(p.started, now),
        retry_due(p.last_sent, now),
    );
    (
        step,
        PairingView {
            flow,
            started: p.started,
            last_sent: if step is Some {
                if flow.awaiting_retry {
                    Some(now)
                } else {
                    None
                }
            } else {
                p.last_sent
            },
        },
    )
}

/// Drives the exchange on a millisecond clock.
#[derive(Debug)]
pub struct Pairing {
    flow: PairingFlow,
    started: u64,
    last_sent: Option<u64>,
}

impl View for Pairing {
    type V = PairingView;

    closed spec fn view(&self) -> PairingView {
        PairingView { flow: self.flow@, started: self.started, last_sent: self.last_sent }
    }
}

impl Pairing {
    /// A pairing begun at `now`, about to wake the session.
    pub fn new(now: u64) -> (pairing: Self)
        ensures
            pairing@.flow.stage matches Stage::Waking,
            pairing@.flow.pending == Some(PairStep::Wake),
            !pairing@.flow.awaiting_retry,
            pairing@.flow.ssid.len() == 0,
            pairing@.started == now,
            pairing@.last_sent is None,
            clocked_wf(pairing@),
    {
        Pairing { flow: PairingFlow::new(), started: now, last_sent: None }
    }

    pub fn state(&self) -> (state: &PairState)
        ensures
            stage_of(*state) == self@.flow.stage,
    {
        self.flow.state()
    }

    pub fn is_finished(&self) -> (finished: bool)
        ensures
            finished == is_finished_stage(self@.flow.stage),
    {
        self.flow.is_finished()
    }

    /// The credentials, once there are any.
    pub fn credentials(&self) -> (found: Option<(&str, &str)>)
        ensures
            found matches Some((ssid, password)) ==> self@.flow.stage == (Stage::Done {
                ssid: ssid@,
                password: password@,
            }),
            found is None ==> !(self@.flow.stage matches Stage::Done { .. }),
    {
        self.flow.credentials()
    }

    /// What to write at `now`, if anything. The exchange fails once
    /// [`PAIR_DEADLINE_MS`] have passed since it began; a step the camera has not
    /// answered goes out again once [`STEP_RETRY_MS`] have passed since it was sent.
    pub fn tick(&mut self, now: u64) -> (step: Option<PairStep>)
        requires
            clocked_wf(old(self)@),
        ensures
            clocked_wf(final(self)@),
            (step, final(self)@) == clocked_tick(old(self)@, now),
    {
        let expired = now >= self.started && now - self.started >= PAIR_DEADLINE_MS;
        let retry_elapsed = match self.last_sent {
            None => true,
            Some(sent) => now >= sent && now - sent >= STEP_RETRY_MS,
        };
        let step = self.flow.tick(expired, retry_elapsed);
        if step.is_some() {
            self.last_sent = if self.flow.awaiting_retry() {
                Some(now)
            } else {
                None
            };
        }
        step
    }

    /// Folds in one frame from the camera. `text` is the status string read out of the
    /// payload, which the driver supplies for the two credential replies. A step the
    /// reply queues goes out on the next tick, without waiting out the retry pause.
    pub fn receive(&mut self, now: u64, reply: &Reply, text: Option<&str>)
        requires
            clocked_wf(old(self)@),
        ensures
            clocked_wf(final(self)@),
            final(self)@.flow == spec_receive(
                old(self)@.flow,
                reply.cmd_set,
                reply.cmd_id,
                reply.seq,
                reply.is_request,
                reply.payload@,
                match text {
                    Some(t) => Some(t@),
                    None => None,
                },
            ),
            final(self)@.started == old(self)@.started,
            final(self)@.last_sent == if final(self)@.flow.awaiting_retry {
                old(self)@.last_sent
            } else {
                None
            },
    {
        self.flow.receive(reply, text);
        if !self.flow.awaiting_retry() {
            self.last_sent = None;
        }
    }
}

/// Once the deadline has passed, an unfinished pairing fails and sends nothing.
pub proof fn lemma_deadline_fails(p: PairingView, now: u64)
    requires
        !is_finished_stage(p.flow.stage),
        now - p.started >= PAIR_DEADLINE_MS,
    ensures
        clocked_tick(p, now).0 is None,
        clocked_tick(p, now).1.flow.stage == Stage::Failed(timed_out_text()),
{
}

/// Before the deadline, a step the camera has not answered is not resent until the
/// retry pause is over, and nothing changes meanwhile.
pub proof fn lemma_no_resend_before_pause(p: PairingView, now: u64)
    requires
        clocked_wf(p),
        now - p.started < PAIR_DEADLINE_MS,
        p.flow.awaiting_retry,
        now - p.last_sent->0 < STEP_RETRY_MS,
    ensures
        clocked_tick(p, now).0 is None,
        clocked_tick(p, now).1 == p,
{
}

/// Before the deadline, a step waiting out the pause goes out again once the pause is
/// over.
pub proof fn lemma_resend_after_pause(p: PairingView, now: u64)
    requires
        clocked_wf(p),
        !is_finished_stage(p.flow.stage),
        now - p.started < PAIR_DEADLINE_MS,
        p.flow.awaiting_retry,
        p.flow.pending is None,
        step_for_stage(p.flow.stage) is Some,
        now - p.last_sent->0 >= STEP_RETRY_MS,
    ensures
        clocked_tick(p, now).0 == step_for_stage(p.flow.stage),
{
}

} // verus!
