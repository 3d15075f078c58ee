//! Listing the library: enter playback, hold it, page the catalogue.
//!
//! A pure state machine. The shell feeds it the clock, every DUML frame and the
//! playback bit, and carries out the commands it asks for; it never touches a socket.
//! The clock is in milliseconds.
//!
//! The page sequence is the one the phones send: list the internal store, the
//! `4a040e10` trigger, then list the card, and collect until the camera goes quiet.

use vstd::prelude::*;
use vstd::slice::slice_to_vec;

use crate::camera::command::Command;
use crate::camera::duml::{spec_is_reply, DumlFrame};
use crate::media::chunks::{
    chunk_kind, has_older_page, is_least_video_below, merged_upto, next_cursor, ChunkAssembler,
    ChunkKind, COUNTERS, INTERNAL_COUNTER, NEWEST_INTERNAL, NEWEST_SD, SD_COUNTER,
};
use crate::media::resume::BrowsePolicy;

verus! {

/// How the body is asked into playback.
#[derive(Debug, Clone, Copy, PartialEq, Eq)]
pub struct BrowseConfig {
    /// A single-microSD body: every `/v2` is `storage=0`.
    pub single_sd: bool,
    /// Fall through to the `0x01/0x01` entry when `0x02/0x0c` is refused or ignored.
    pub special_entry: bool,
}

impl Default for BrowseConfig {
    fn default() -> (config: Self)
        ensures
            !config.single_sd,
            config.special_entry,
    {
        BrowseConfig { single_sd: false, special_entry: true }
    }
}

/// What the shell must do for the browse to progress.
#[derive(Debug, Clone, PartialEq)]
pub enum BrowseStep {
    Send(Command),
    /// A page's chunks are complete: the counter-1 blob, the counter-2 blob, and every
    /// chunk merged. The shell decodes them and answers with [`Browse::page_decoded`].
    PageReady {
        sd: Vec<u8>,
        internal: Vec<u8>,
        merged: Vec<u8>,
        /// The cursor this page was asked with; the newest marker on page one.
        cursor: u32,
    },
    /// The library is listed, or as much of it as this body allows without playback.
    Done,
}

/// A step as a value: the bytes of a page as sequences.
pub enum StepModel {
    Send(Command),
    PageReady { sd: Seq<u8>, internal: Seq<u8>, merged: Seq<u8>, cursor: u32 },
    Done,
}

impl View for BrowseStep {
    type V = StepModel;

    open spec fn view(&self) -> StepModel {
        match self {
            BrowseStep::Send(command) => StepModel::Send(*command),
            BrowseStep::PageReady { sd, internal, merged, cursor } => StepModel::PageReady {
                sd: sd@,
                internal: internal@,
                merged: merged@,
                cursor: *cursor,
            },
            BrowseStep::Done => StepModel::Done,
        }
    }
}

pub open spec fn step_views(steps: Seq<BrowseStep>) -> Seq<StepModel> {
    steps.map_values(|step: BrowseStep| step@)
}

/// What the shell tells the browse.
#[derive(Debug, Clone, PartialEq)]
pub enum BrowseEvent {
    Frame(DumlFrame),
    /// The `0x02/0x80` playback bit as the body last reported it.
    InPlayback(bool),
}

#[derive(Debug, Clone, Copy, PartialEq, Eq, Structural)]
pub enum Phase {
    /// `0x02/0x0c` sent; waiting on the reply and the bit.
    Entering,
    /// `0x01/0x01` step 1, then step 2, at 20 Hz.
    SpecialEntry,
    /// The store is not mounted the instant the bit sets; wait before the first query.
    Settling,
    /// Between the three frames of one page.
    Querying,
    /// Every frame sent; collecting chunks until quiet.
    Collecting,
    /// The shell is decoding the page.
    Decoding,
    Done,
}

pub const ENTER_TIMEOUT_MS: u64 = 900;

pub const ENTER_ATTEMPTS: u32 = 3;

pub const SPECIAL_PERIOD_MS: u64 = 50;

pub const SPECIAL_STEP1_FRAMES: u32 = 6;

pub const SPECIAL_TIMEOUT_MS: u64 = 3000;

pub const SETTLE_MS: u64 = 1700;

pub const QUIET_MS: u64 = 800;

pub const FLOOR_MS: u64 = 800;

pub const PAGE_CAP_MS: u64 = 8000;

pub const PRESENCE_PERIOD_MS: u64 = 1000;

/// When the frame of a page at `step` goes out, after the page began: the internal
/// list at once, the trigger 800 ms on, the card list 400 ms after that.
pub open spec fn query_offset(step: usize) -> u64 {
    if step == 0 {
        0
    } else if step == 1 {
        800
    } else {
        1200
    }
}

/// At least `span` milliseconds have passed from `since` to `now`.
pub open spec fn passed(now: u64, since: u64, span: u64) -> bool {
    now - since >= span
}

pub open spec fn later(a: u64, b: u64) -> u64 {
    if a >= b {
        a
    } else {
        b
    }
}

/// Every field of a browse, the collected chunks as byte sequences.
pub struct BrowseModel {
    pub config: BrowseConfig,
    pub phase: Phase,
    pub started: u64,
    pub phase_since: u64,
    pub entered: bool,
    pub in_playback: bool,
    pub enter_attempts: u32,
    pub enter_refused: bool,
    pub special_frames: u32,
    /// When the last `0x01/0x01` frame went out; `None` before the first.
    pub special_last: Option<u64>,
    pub cursor: u32,
    pub page_step: usize,
    pub buckets: Seq<Seq<u8>>,
    pub chunk_count: nat,
    pub saw_end: bool,
    pub last_chunk_at: u64,
    pub collect_since: u64,
    pub presence_at: u64,
    pub policy: BrowsePolicy,
}

pub open spec fn empty_buckets() -> Seq<Seq<u8>> {
    Seq::new(COUNTERS as nat, |i: int| Seq::<u8>::empty())
}

pub open spec fn start_model(config: BrowseConfig, now: u64) -> BrowseModel {
    BrowseModel {
        config,
        phase: Phase::Entering,
        started: now,
        phase_since: now,
        entered: false,
        in_playback: false,
        enter_attempts: 0,
        enter_refused: false,
        special_frames: 0,
        special_last: None,
        cursor: NEWEST_INTERNAL,
        page_step: 0,
        buckets: empty_buckets(),
        chunk_count: 0,
        saw_end: false,
        last_chunk_at: now,
        collect_since: now,
        presence_at: now,
        policy: BrowsePolicy { list_newest_page: true, list_older_pages: false, keep_browsing: true },
    }
}

pub open spec fn moved_to(m: BrowseModel, phase: Phase, now: u64) -> BrowseModel {
    BrowseModel { phase, phase_since: now, ..m }
}

/// A fresh page: no chunks, the first frame due now.
pub open spec fn page_begun(m: BrowseModel, now: u64) -> BrowseModel {
    BrowseModel {
        buckets: empty_buckets(),
        chunk_count: 0,
        saw_end: false,
        page_step: 0,
        collect_since: now,
        last_chunk_at: now,
        ..moved_to(m, Phase::Querying, now)
    }
}

pub open spec fn special_begun(m: BrowseModel, now: u64) -> BrowseModel {
    BrowseModel { special_frames: 0, ..moved_to(m, Phase::SpecialEntry, now) }
}

pub open spec fn special_due(m: BrowseModel, now: u64) -> bool {
    match m.special_last {
        Some(at) => passed(now, at, SPECIAL_PERIOD_MS),
        None => now >= m.started,
    }
}

/// The card list asks from the card's newest marker on the first page.
pub open spec fn sd_cursor(cursor: u32) -> u32 {
    if cursor == NEWEST_INTERNAL {
        NEWEST_SD
    } else {
        cursor
    }
}

pub open spec fn query_command(m: BrowseModel) -> Command {
    if m.page_step == 0 {
        Command::MediaList { counter: INTERNAL_COUNTER, cursor: m.cursor }
    } else if m.page_step == 1 {
        Command::MediaListTrigger
    } else {
        Command::MediaList { counter: SD_COUNTER, cursor: sd_cursor(m.cursor) }
    }
}

/// One pass of the phase machine at `now`: the new state, the step it asks for, and
/// whether the phase it handed on to runs at once.
pub open spec fn pass(m: BrowseModel, now: u64) -> (BrowseModel, Option<StepModel>, bool) {
    match m.phase {
        Phase::Entering => {
            if m.entered {
                (moved_to(m, Phase::Settling, now), None, false)
            } else if m.enter_refused && m.config.special_entry {
                (special_begun(m, now), None, true)
            } else if m.enter_attempts == 0 || passed(now, m.phase_since, ENTER_TIMEOUT_MS) {
                if m.enter_attempts >= ENTER_ATTEMPTS {
                    if m.config.special_entry {
                        (special_begun(m, now), None, true)
                    } else {
                        (page_begun(m, now), None, true)
                    }
                } else {
                    (
                        BrowseModel {
                            enter_attempts: (m.enter_attempts + 1) as u32,
                            phase_since: now,
                            ..m
                        },
                        Some(StepModel::Send(Command::EnterPlayback)),
                        false,
                    )
                }
            } else {
                (m, None, false)
            }
        },
        Phase::SpecialEntry => {
            if m.entered {
                (moved_to(m, Phase::Settling, now), None, false)
            } else if passed(now, m.phase_since, SPECIAL_TIMEOUT_MS) {
                (page_begun(m, now), None, true)
            } else if special_due(m, now) {
                let step: u8 = if m.special_frames < SPECIAL_STEP1_FRAMES {
                    1
                } else {
                    2
                };
                (
                    BrowseModel {
                        special_last: Some(now),
                        special_frames: if m.special_frames < u32::MAX {
                            (m.special_frames + 1) as u32
                        } else {
                            m.special_frames
                        },
                        ..m
                    },
                    Some(StepModel::Send(Command::PlaybackSpecial(step))),
                    false,
                )
            } else {
                (m, None, false)
            }
        },
        Phase::Settling => {
            if passed(now, m.phase_since, SETTLE_MS) {
                (page_begun(m, now), None, true)
            } else {
                (m, None, false)
            }
        },
        Phase::Querying => {
            if now >= m.phase_since + query_offset(m.page_step) {
                let stepped = BrowseModel { page_step: (m.page_step + 1) as usize, ..m };
                let next = if m.page_step + 1 == 3 {
                    BrowseModel {
                        collect_since: now,
                        last_chunk_at: now,
                        ..moved_to(stepped, Phase::Collecting, now)
                    }
                } else {
                    stepped
                };
                (next, Some(StepModel::Send(query_command(m))), false)
            } else {
                (m, None, false)
            }
        },
        Phase::Collecting => {
            let held = BrowseModel { last_chunk_at: later(m.last_chunk_at, m.collect_since), ..m };
            let quiet = passed(now, held.last_chunk_at, QUIET_MS) && passed(
                now,
                held.collect_since,
                FLOOR_MS,
            );
            let capped = passed(now, held.collect_since, PAGE_CAP_MS);
            if quiet || capped {
                (
                    moved_to(held, Phase::Decoding, now),
                    Some(
                        StepModel::PageReady {
                            sd: held.buckets[SD_COUNTER as int],
                            internal: held.buckets[INTERNAL_COUNTER as int],
                            merged: merged_upto(held.buckets, COUNTERS as int),
                            cursor: held.cursor,
                        },
                    ),
                    false,
                )
            } else {
                (held, None, false)
            }
        },
        Phase::Decoding => (m, None, false),
        Phase::Done => (m, None, false),
    }
}

/// How many phases may still hand on within one tick.
pub open spec fn rank(phase: Phase) -> nat {
    match phase {
        Phase::Entering => 3,
        Phase::SpecialEntry => 2,
        Phase::Settling => 2,
        Phase::Querying => 1,
        _ => 0,
    }
}

pub open spec fn steps_of(step: Option<StepModel>) -> Seq<StepModel> {
    match step {
        Some(s) => seq![s],
        None => Seq::empty(),
    }
}

/// Passes of the phase machine at `now` until one does not hand on.
pub open spec fn run(m: BrowseModel, now: u64) -> (BrowseModel, Seq<StepModel>)
    decreases rank(m.phase),
{
    let (next, step, again) = pass(m, now);
    if again && rank(next.phase) < rank(m.phase) {
        let (last, rest) = run(next, now);
        (last, steps_of(step) + rest)
    } else {
        (next, steps_of(step))
    }
}

/// One tick: the presence beat when a second has passed outside `Done`, the phase
/// machine, and `Done` last once listing is over.
pub open spec fn spec_tick(m: BrowseModel, now: u64) -> (BrowseModel, Seq<StepModel>) {
    let beat = m.phase != Phase::Done && passed(now, m.presence_at, PRESENCE_PERIOD_MS);
    let m0 = if beat {
        BrowseModel { presence_at: now, ..m }
    } else {
        m
    };
    let lead: Seq<StepModel> = if beat {
        seq![StepModel::Send(Command::AppPresence)]
    } else {
        Seq::empty()
    };
    let (last, steps) = run(m0, now);
    if last.phase == Phase::Done {
        (last, lead + steps + seq![StepModel::Done])
    } else {
        (last, lead + steps)
    }
}

/// What a collected frame does to the page: a chunk or the end marker lands and
/// restarts the quiet timer; anything else, or a full counter, leaves it.
pub open spec fn collected(m: BrowseModel, frame: DumlFrame) -> BrowseModel {
    if !(frame.cmd_set == 0x00 && frame.cmd_id == 0x27) || m.chunk_count >= usize::MAX {
        m
    } else {
        let at = later(m.last_chunk_at, m.collect_since);
        match chunk_kind(frame.payload@) {
            ChunkKind::NotAChunk => m,
            ChunkKind::End => BrowseModel { saw_end: true, last_chunk_at: at, ..m },
            ChunkKind::Body { counter, bytes } => BrowseModel {
                buckets: m.buckets.update(counter as int, m.buckets[counter as int] + bytes),
                chunk_count: m.chunk_count + 1,
                last_chunk_at: at,
                ..m
            },
        }
    }
}

/// A `0x02/0x0c` reply with a nonzero code: the body refused playback.
pub open spec fn is_refusal(frame: DumlFrame) -> bool {
    frame.cmd_set == 0x02 && frame.cmd_id == 0x0C && spec_is_reply(frame.flags)
        && frame.payload@.len() > 0 && frame.payload@[0] != 0
}

pub open spec fn spec_event(m: BrowseModel, event: BrowseEvent) -> BrowseModel {
    match event {
        BrowseEvent::InPlayback(on) => {
            if on && !m.entered {
                BrowseModel {
                    in_playback: on,
                    entered: true,
                    policy: BrowsePolicy {
                        list_newest_page: true,
                        list_older_pages: true,
                        keep_browsing: true,
                    },
                    ..m
                }
            } else {
                BrowseModel { in_playback: on, ..m }
            }
        },
        BrowseEvent::Frame(frame) => {
            let m1 = if is_refusal(frame) {
                BrowseModel { enter_refused: true, ..m }
            } else {
                m
            };
            if m1.phase == Phase::Querying || m1.phase == Phase::Collecting {
                collected(m1, frame)
            } else {
                m1
            }
        },
    }
}

/// The bound below which the next page's cursor is sought.
pub open spec fn cursor_bound(cursor: u32) -> int {
    if cursor == NEWEST_SD || cursor == NEWEST_INTERNAL {
        0x1_0000_0000
    } else {
        cursor as int
    }
}

/// After a decoded page: the next page when playback allows older pages and this one
/// was full and moved the cursor; otherwise done.
pub open spec fn after_page(m: BrowseModel, record_count: usize, next: Option<u32>, now: u64) -> BrowseModel {
    if m.policy.list_older_pages && (next matches Some(c) && c > 0 && record_count >= 45) {
        page_begun(BrowseModel { cursor: next->0, ..m }, now)
    } else {
        moved_to(m, Phase::Done, now)
    }
}

/// One listing of the library, from entering playback to the last page.
#[derive(Debug, Clone)]
pub struct Browse {
    config: BrowseConfig,
    phase: Phase,
    started: u64,
    phase_since: u64,
    entered: bool,
    in_playback: bool,
    enter_attempts: u32,
    enter_refused: bool,
    special_frames: u32,
    special_last: Option<u64>,
    cursor: u32,
    page_step: usize,
    chunks: ChunkAssembler,
    last_chunk_at: u64,
    collect_since: u64,
    presence_at: u64,
    policy: BrowsePolicy,
}

fn passed_exec(now: u64, since: u64, span: u64) -> (res: bool)
    ensures
        res == passed(now, since, span),
{
    now >= since && now - since >= span
}

impl Browse {
    pub closed spec fn wf(&self) -> bool {
        &&& self.chunks.wf()
        &&& self.phase == Phase::Querying ==> self.page_step < 3
    }

    pub closed spec fn model(&self) -> BrowseModel {
        BrowseModel {
            config: self.config,
            phase: self.phase,
            started: self.started,
            phase_since: self.phase_since,
            entered: self.entered,
            in_playback: self.in_playback,
            enter_attempts: self.enter_attempts,
            enter_refused: self.enter_refused,
            special_frames: self.special_frames,
            special_last: self.special_last,
            cursor: self.cursor,
            page_step: self.page_step,
            buckets: self.chunks.buckets(),
            chunk_count: self.chunks.spec_chunk_count(),
            saw_end: self.chunks.spec_saw_end(),
            last_chunk_at: self.last_chunk_at,
            collect_since: self.collect_since,
            presence_at: self.presence_at,
            policy: self.policy,
        }
    }

    /// Starts at `now`; the first tick sends the playback entry.
    pub fn start(config: BrowseConfig, now: u64) -> (browse: Self)
        ensures
            browse.wf(),
            browse.model() == start_model(config, now),
    {
        Browse {
            config,
            phase: Phase::Entering,
            started: now,
            phase_since: now,
            entered: false,
            in_playback: false,
            enter_attempts: 0,
            enter_refused: false,
            special_frames: 0,
            special_last: None,
            cursor: NEWEST_INTERNAL,
            page_step: 0,
            chunks: ChunkAssembler::new(),
            last_chunk_at: now,
            collect_since: now,
            presence_at: now,
            policy: BrowsePolicy::after_enter_playback(false),
        }
    }

    pub fn is_done(&self) -> (done: bool)
        ensures
            done == (self.model().phase == Phase::Done),
    {
        self.phase == Phase::Done
    }

    /// Whether the body confirmed playback, which is what older pages need.
    pub fn entered_playback(&self) -> (entered: bool)
        ensures
            entered == self.model().entered,
    {
        self.entered
    }

    pub fn policy(&self) -> (policy: BrowsePolicy)
        ensures
            policy == self.model().policy,
    {
        self.policy
    }

    pub fn started_at(&self) -> (at: u64)
        ensures
            at == self.model().started,
    {
        self.started
    }

    pub fn event(&mut self, event: BrowseEvent)
        requires
            old(self).wf(),
        ensures
            final(self).wf(),
            final(self).model() == spec_event(old(self).model(), event),
    {
        match event {
            BrowseEvent::InPlayback(on) => {
                self.in_playback = on;
                if on && !self.entered {
                    self.entered = true;
                    self.policy = BrowsePolicy::after_enter_playback(true);
                }
            },
            BrowseEvent::Frame(frame) => {
                if frame.cmd_set == 0x02 && frame.cmd_id == 0x0C && frame.is_reply() {
                    if frame.payload.len() > 0 && frame.payload[0] != 0 {
                        self.enter_refused = true;
                    }
                }
                if self.phase == Phase::Querying || self.phase == Phase::Collecting {
                    let at = if self.last_chunk_at >= self.collect_since {
                        self.last_chunk_at
                    } else {
                        self.collect_since
                    };
                    if self.chunks.chunk_count() < usize::MAX {
                        if self.chunks.ingest(&frame) {
                            self.last_chunk_at = at;
                        }
                    }
                }
            },
        }
    }

    /// The shell decoded the page it was handed: how many records, and their handles.
    pub fn page_decoded(&mut self, record_count: usize, handles: &[u32], now: u64)
        requires
            old(self).wf(),
        ensures
            final(self).wf(),
            old(self).model().phase != Phase::Decoding ==> final(self).model() == old(
                self,
            ).model(),
            old(self).model().phase == Phase::Decoding ==> exists|next: Option<u32>|
                is_least_video_below(handles@, cursor_bound(old(self).model().cursor), next)
                    && final(self).model() == after_page(
                    old(self).model(),
                    record_count,
                    next,
                    now,
                ),
    {
        if self.phase != Phase::Decoding {
            return ;
        }
        let ghost before = self.model();
        let next = next_cursor(handles, self.cursor);
        if self.policy.list_older_pages && has_older_page(record_count, next) {
            self.cursor = match next {
                Some(c) => c,
                None => NEWEST_INTERNAL,
            };
            self.begin_page(now);
        } else {
            self.enter(Phase::Done, now);
        }
        proof {
            assert(is_least_video_below(handles@, cursor_bound(before.cursor), next));
            assert(self.model() == after_page(before, record_count, next, now));
        }
    }

    fn enter(&mut self, phase: Phase, now: u64)
        requires
            old(self).wf(),
            phase == Phase::Querying ==> old(self).page_step < 3,
        ensures
            final(self).wf(),
            final(self).model() == moved_to(old(self).model(), phase, now),
    {
        self.phase = phase;
        self.phase_since = now;
    }

    fn begin_page(&mut self, now: u64)
        requires
            old(self).wf(),
        ensures
            final(self).wf(),
            final(self).model() == page_begun(old(self).model(), now),
    {
        self.chunks.reset();
        self.page_step = 0;
        self.collect_since = now;
        self.last_chunk_at = now;
        self.enter(Phase::Querying, now);
    }

    fn begin_special(&mut self, now: u64)
        requires
            old(self).wf(),
        ensures
            final(self).wf(),
            final(self).model() == special_begun(old(self).model(), now),
    {
        self.enter(Phase::SpecialEntry, now);
        self.special_frames = 0;
    }

    fn query_frame(&self) -> (command: Command)
        ensures
            command == query_command(self.model()),
    {
        if self.page_step == 0 {
            Command::MediaList { counter: INTERNAL_COUNTER, cursor: self.cursor }
        } else if self.page_step == 1 {
            Command::MediaListTrigger
        } else {
            let cursor = if self.cursor == NEWEST_INTERNAL {
                NEWEST_SD
            } else {
                self.cursor
            };
            Command::MediaList { counter: SD_COUNTER, cursor }
        }
    }

    /// Waiting on `0x02/0x0c`: settle once in, fall through or retry.
    fn pass_entering(&mut self, now: u64) -> (res: (Option<BrowseStep>, bool))
        requires
            old(self).wf(),
            old(self).model().phase == Phase::Entering,
        ensures
            final(self).wf(),
            ({
                let (m, step, again) = pass(old(self).model(), now);
                &&& final(self).model() == m
                &&& res.1 == again
                &&& match res.0 {
                    Some(s) => step == Some(s@),
                    None => step is None,
                }
            }),
    {
        if self.entered {
            self.enter(Phase::Settling, now);
            (None, false)
        } else if self.enter_refused && self.config.special_entry {
            self.begin_special(now);
            (None, true)
        } else if self.enter_attempts == 0 || passed_exec(now, self.phase_since, ENTER_TIMEOUT_MS) {
            if self.enter_attempts >= ENTER_ATTEMPTS {
                if self.config.special_entry {
                    self.begin_special(now);
                } else {
                    self.begin_page(now);
                }
                (None, true)
            } else {
                self.enter_attempts = self.enter_attempts + 1;
                self.phase_since = now;
                (Some(BrowseStep::Send(Command::EnterPlayback)), false)
            }
        } else {
            (None, false)
        }
    }

    /// The `0x01/0x01` entry: step 1 six times, then step 2, at 20 Hz.
    fn pass_special(&mut self, now: u64) -> (res: (Option<BrowseStep>, bool))
        requires
            old(self).wf(),
            old(self).model().phase == Phase::SpecialEntry,
        ensures
            final(self).wf(),
            ({
                let (m, step, again) = pass(old(self).model(), now);
                &&& final(self).model() == m
                &&& res.1 == again
                &&& match res.0 {
                    Some(s) => step == Some(s@),
                    None => step is None,
                }
            }),
    {
        if self.entered {
            self.enter(Phase::Settling, now);
            (None, false)
        } else if passed_exec(now, self.phase_since, SPECIAL_TIMEOUT_MS) {
            self.begin_page(now);
            (None, true)
        } else {
            let due = match self.special_last {
                Some(at) => passed_exec(now, at, SPECIAL_PERIOD_MS),
                None => now >= self.started,
            };
            if due {
                self.special_last = Some(now);
                let step: u8 = if self.special_frames < SPECIAL_STEP1_FRAMES {
                    1
                } else {
                    2
                };
                if self.special_frames < u32::MAX {
                    self.special_frames = self.special_frames + 1;
                }
                (Some(BrowseStep::Send(Command::PlaybackSpecial(step))), false)
            } else {
                (None, false)
            }
        }
    }

    /// Waiting for the store to mount.
    fn pass_settling(&mut self, now: u64) -> (res: (Option<BrowseStep>, bool))
        requires
            old(self).wf(),
            old(self).model().phase == Phase::Settling,
        ensures
            final(self).wf(),
            ({
                let (m, step, again) = pass(old(self).model(), now);
                &&& final(self).model() == m
                &&& res.1 == again
                &&& match res.0 {
                    Some(s) => step == Some(s@),
                    None => step is None,
                }
            }),
    {
        if passed_exec(now, self.phase_since, SETTLE_MS) {
            self.begin_page(now);
            (None, true)
        } else {
            (None, false)
        }
    }

    /// The three frames of one page, each when due.
    fn pass_querying(&mut self, now: u64) -> (res: (Option<BrowseStep>, bool))
        requires
            old(self).wf(),
            old(self).model().phase == Phase::Querying,
        ensures
            final(self).wf(),
            ({
                let (m, step, again) = pass(old(self).model(), now);
                &&& final(self).model() == m
                &&& res.1 == again
                &&& match res.0 {
                    Some(s) => step == Some(s@),
                    None => step is None,
                }
            }),
    {
        let offset: u64 = if self.page_step == 0 {
            0
        } else if self.page_step == 1 {
            800
        } else {
            1200
        };
        if passed_exec(now, self.phase_since, offset) {
            let command = self.query_frame();
            self.page_step = self.page_step + 1;
            if self.page_step == 3 {
                self.collect_since = now;
                self.last_chunk_at = now;
                self.phase = Phase::Collecting;
                self.phase_since = now;
            }
            (Some(BrowseStep::Send(command)), false)
        } else {
            (None, false)
        }
    }

    /// Collecting until the camera goes quiet, or the cap.
    fn pass_collecting(&mut self, now: u64) -> (res: (Option<BrowseStep>, bool))
        requires
            old(self).wf(),
            old(self).model().phase == Phase::Collecting,
        ensures
            final(self).wf(),
            ({
                let (m, step, again) = pass(old(self).model(), now);
                &&& final(self).model() == m
                &&& res.1 == again
                &&& match res.0 {
                    Some(s) => step == Some(s@),
                    None => step is None,
                }
            }),
    {
        if self.last_chunk_at < self.collect_since {
            self.last_chunk_at = self.collect_since;
        }
        let quiet = passed_exec(now, self.last_chunk_at, QUIET_MS) && passed_exec(
            now,
            self.collect_since,
            FLOOR_MS,
        );
        let capped = passed_exec(now, self.collect_since, PAGE_CAP_MS);
        if quiet || capped {
            let sd = slice_to_vec(self.chunks.assembled(SD_COUNTER));
            let internal = slice_to_vec(self.chunks.assembled(INTERNAL_COUNTER));
            let merged = self.chunks.assembled_merged();
            let cursor = self.cursor;
            self.enter(Phase::Decoding, now);
            (Some(BrowseStep::PageReady { sd, internal, merged, cursor }), false)
        } else {
            (None, false)
        }
    }

    /// One pass of the phase machine.
    fn pass(&mut self, now: u64) -> (res: (Option<BrowseStep>, bool))
        requires
            old(self).wf(),
        ensures
            final(self).wf(),
            ({
                let (m, step, again) = pass(old(self).model(), now);
                &&& final(self).model() == m
                &&& res.1 == again
                &&& match res.0 {
                    Some(s) => step == Some(s@),
                    None => step is None,
                }
            }),
    {
        match self.phase {
            Phase::Entering => self.pass_entering(now),
            Phase::SpecialEntry => self.pass_special(now),
            Phase::Settling => self.pass_settling(now),
            Phase::Querying => self.pass_querying(now),
            Phase::Collecting => self.pass_collecting(now),
            Phase::Decoding => (None, false),
            Phase::Done => (None, false),
        }
    }

    /// Advances the clock. Carry out every step, in order.
    pub fn tick(&mut self, now: u64) -> (steps: Vec<BrowseStep>)
        requires
            old(self).wf(),
        ensures
            final(self).wf(),
            (final(self).model(), step_views(steps@)) == spec_tick(old(self).model(), now),
    {
        let ghost m = self.model();
        let mut steps: Vec<BrowseStep> = Vec::new();
        // Playback drops about a second after entry unless the app keeps announcing itself.
        if self.phase != Phase::Done && passed_exec(now, self.presence_at, PRESENCE_PERIOD_MS) {
            self.presence_at = now;
            steps.push(BrowseStep::Send(Command::AppPresence));
        }
        let ghost m0 = self.model();
        let ghost lead = step_views(steps@);
        let ghost target = run(m0, now);
        proof {
            assert(step_views(steps@) + run(self.model(), now).1 == lead + target.1);
        }
        // A phase that ends this tick hands straight on, so the first frame of a page goes
        // out the moment the settle is over rather than a tick later.
        let mut again = true;
        while again
            invariant
                self.wf(),
                again ==> run(self.model(), now).0 == target.0 && step_views(steps@) + run(
                    self.model(),
                    now,
                ).1 == lead + target.1,
                !again ==> self.model() == target.0 && step_views(steps@) == lead + target.1,
            decreases
                if again {
                    rank(self.model().phase) + 1
                } else {
                    0
                },
        {
            let ghost before = self.model();
            let ghost before_steps = steps@;
            let (step, next) = self.pass(now);
            proof {
                let (m1, s, a) = pass(before, now);
                assert(self.model() == m1);
                assert(a ==> rank(m1.phase) < rank(before.phase));
            }
            match step {
                Some(s) => {
                    steps.push(s);
                },
                None => {},
            }
            again = next;
            proof {
                let (m1, s, a) = pass(before, now);
                assert(step_views(steps@) =~= step_views(before_steps) + steps_of(s));
                if a {
                    assert(run(before, now) == (run(m1, now).0, steps_of(s) + run(m1, now).1));
                    assert(step_views(steps@) + run(self.model(), now).1 =~= step_views(
                        before_steps,
                    ) + run(before, now).1);
                } else {
                    assert(run(before, now) == (m1, steps_of(s)));
                    assert(step_views(steps@) =~= step_views(before_steps) + run(before, now).1);
                    assert(step_views(before_steps) + run(before, now).1 == lead + target.1);
                }
            }
        }
        if self.phase == Phase::Done {
            let ghost before_steps = steps@;
            steps.push(BrowseStep::Done);
            proof {
                assert(step_views(steps@) =~= step_views(before_steps) + seq![StepModel::Done]);
            }
        }
        steps
    }

    /// A chunk arrived at `now`; the collector's quiet timer restarts.
    pub fn note_chunk(&mut self, now: u64)
        requires
            old(self).wf(),
        ensures
            final(self).wf(),
            final(self).model() == (BrowseModel { last_chunk_at: now, ..old(self).model() }),
    {
        self.last_chunk_at = now;
    }
}

/// A finished listing stays finished: a tick changes nothing and reports only `Done`.
pub proof fn lemma_done_is_final(m: BrowseModel, now: u64)
    requires
        m.phase == Phase::Done,
    ensures
        spec_tick(m, now) == (m, seq![StepModel::Done]),
{
    assert(run(m, now) == (m, Seq::<StepModel>::empty()));
    assert(Seq::<StepModel>::empty() + Seq::<StepModel>::empty() + seq![StepModel::Done]
        =~= seq![StepModel::Done]);
}

/// `0x02/0x0c` goes out at most three times over a listing: a tick never takes the
/// attempt count past the limit.
pub proof fn lemma_entry_attempts_bounded(m: BrowseModel, now: u64)
    requires
        m.enter_attempts <= ENTER_ATTEMPTS,
    ensures
        spec_tick(m, now).0.enter_attempts <= ENTER_ATTEMPTS,
{
    let beat = m.phase != Phase::Done && passed(now, m.presence_at, PRESENCE_PERIOD_MS);
    let m0 = if beat {
        BrowseModel { presence_at: now, ..m }
    } else {
        m
    };
    lemma_run_attempts_bounded(m0, now);
}

proof fn lemma_run_attempts_bounded(m: BrowseModel, now: u64)
    requires
        m.enter_attempts <= ENTER_ATTEMPTS,
    ensures
        run(m, now).0.enter_attempts <= ENTER_ATTEMPTS,
    decreases rank(m.phase),
{
    let (next, step, again) = pass(m, now);
    assert(next.enter_attempts <= ENTER_ATTEMPTS);
    if again && rank(next.phase) < rank(m.phase) {
        lemma_run_attempts_bounded(next, now);
    }
}

proof fn lemma_run_keeps_presence(m: BrowseModel, now: u64)
    ensures
        run(m, now).0.presence_at == m.presence_at,
    decreases rank(m.phase),
{
    let (next, step, again) = pass(m, now);
    assert(next.presence_at == m.presence_at);
    if again && rank(next.phase) < rank(m.phase) {
        lemma_run_keeps_presence(next, now);
    }
}

/// Once the body has refused playback and the special entry is on, a tick never sends
/// `0x02/0x0c` again, and the refusal is remembered.
pub proof fn lemma_refusal_never_resends_entry(m: BrowseModel, now: u64)
    requires
        m.enter_refused,
        m.config.special_entry,
    ensures
        spec_tick(m, now).0.enter_refused,
        !spec_tick(m, now).1.contains(StepModel::Send(Command::EnterPlayback)),
{
    let beat = m.phase != Phase::Done && passed(now, m.presence_at, PRESENCE_PERIOD_MS);
    let m0 = if beat {
        BrowseModel { presence_at: now, ..m }
    } else {
        m
    };
    let (last, steps) = run(m0, now);
    let lead: Seq<StepModel> = if beat {
        seq![StepModel::Send(Command::AppPresence)]
    } else {
        Seq::empty()
    };
    lemma_run_sends_no_entry(m0, now);
    let all = if last.phase == Phase::Done {
        lead + steps + seq![StepModel::Done]
    } else {
        lead + steps
    };
    assert(spec_tick(m, now).1 == all);
    if all.contains(StepModel::Send(Command::EnterPlayback)) {
        let i = choose|i: int| 0 <= i < all.len() && all[i] == StepModel::Send(Command::EnterPlayback);
        if i >= lead.len() && i < lead.len() + steps.len() {
            assert(steps[i - lead.len()] == all[i]);
        }
    }
}

proof fn lemma_run_sends_no_entry(m: BrowseModel, now: u64)
    requires
        m.enter_refused,
        m.config.special_entry,
    ensures
        run(m, now).0.enter_refused,
        !run(m, now).1.contains(StepModel::Send(Command::EnterPlayback)),
    decreases rank(m.phase),
{
    let (next, step, again) = pass(m, now);
    assert(next.enter_refused && next.config.special_entry);
    assert(step != Some(StepModel::Send(Command::EnterPlayback)));
    if again && rank(next.phase) < rank(m.phase) {
        lemma_run_sends_no_entry(next, now);
        let rest = run(next, now).1;
        let all = steps_of(step) + rest;
        if all.contains(StepModel::Send(Command::EnterPlayback)) {
            let i = choose|i: int| 0 <= i < all.len() && all[i] == StepModel::Send(Command::EnterPlayback);
            if i >= steps_of(step).len() {
                assert(rest[i - steps_of(step).len()] == all[i]);
            }
        }
    }
}

/// The presence beat leads a tick exactly when the listing is not over and a second has
/// passed since the last one.
pub proof fn lemma_presence_beat(m: BrowseModel, now: u64)
    ensures
        (m.phase != Phase::Done && passed(now, m.presence_at, PRESENCE_PERIOD_MS)) ==> (
        spec_tick(m, now).1.len() > 0 && spec_tick(m, now).1[0] == StepModel::Send(
            Command::AppPresence,
        ) && spec_tick(m, now).0.presence_at == now),
        !(m.phase != Phase::Done && passed(now, m.presence_at, PRESENCE_PERIOD_MS)) ==> spec_tick(
            m,
            now,
        ).0.presence_at == m.presence_at,
{
    let beat = m.phase != Phase::Done && passed(now, m.presence_at, PRESENCE_PERIOD_MS);
    let m0 = if beat {
        BrowseModel { presence_at: now, ..m }
    } else {
        m
    };
    lemma_run_keeps_presence(m0, now);
    let lead: Seq<StepModel> = if beat {
        seq![StepModel::Send(Command::AppPresence)]
    } else {
        Seq::empty()
    };
    let (last, steps) = run(m0, now);
    if beat {
        assert((lead + steps)[0] == StepModel::Send(Command::AppPresence));
        assert((lead + steps + seq![StepModel::Done])[0] == StepModel::Send(Command::AppPresence));
    }
}

} // verus!
