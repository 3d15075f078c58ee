//! Leaving playback and bringing live view back.
//!
//! Enable (`0x09/0xa8`) while still in playback is acknowledged and produces no video,
//! so the shell keeps exiting until the `0x02/0x80` playback bit clears, then enables.

use vstd::prelude::*;

verus! {

pub const MAX_EXIT_ATTEMPTS: u32 = 8;

#[derive(Debug, Clone, Copy, PartialEq, Eq)]
pub enum ResumeAction {
    ExitPlayback,
    EnableLiveView,
    Done,
}

#[derive(Debug, Clone, Copy, PartialEq, Eq)]
pub struct ResumePolicy;

/// One tick of the resume loop: finished once a fresh picture shows outside playback;
/// exit again while the camera is in playback or has not acknowledged leaving it;
/// otherwise ask for live view.
pub open spec fn spec_resume_action(
    in_playback: bool,
    exit_acknowledged: bool,
    picture_fresh: bool,
) -> ResumeAction {
    if picture_fresh && !in_playback {
        ResumeAction::Done
    } else if in_playback || !exit_acknowledged {
        ResumeAction::ExitPlayback
    } else {
        ResumeAction::EnableLiveView
    }
}

impl ResumePolicy {
    /// One tick of the post-media resume loop.
    pub fn action(
        attempt: u32,
        in_playback: bool,
        exit_acknowledged: bool,
        picture_fresh: bool,
    ) -> (action: ResumeAction)
        ensures
            action == spec_resume_action(in_playback, exit_acknowledged, picture_fresh),
    {
        if picture_fresh && !in_playback {
            return ResumeAction::Done;
        }
        if in_playback || !exit_acknowledged {
            return ResumeAction::ExitPlayback;
        }
        if attempt > MAX_EXIT_ATTEMPTS {
            return if picture_fresh {
                ResumeAction::Done
            } else {
                ResumeAction::EnableLiveView
            };
        }
        ResumeAction::EnableLiveView
    }

    /// Keepalive while the operator is on live view but the camera still says playback.
    pub fn stray_playback_action(browsing: bool, in_playback: bool) -> (action: Option<
        ResumeAction,
    >)
        ensures
            action == (if !browsing && in_playback {
                Some(ResumeAction::ExitPlayback)
            } else {
                None
            }),
    {
        if !browsing && in_playback {
            Some(ResumeAction::ExitPlayback)
        } else {
            None
        }
    }

    /// Leftover GOP packets are not a live picture: only a frame presented at or after
    /// the moment the resume started counts. Times are milliseconds on one clock.
    pub fn is_picture_fresh(last_presented_at: Option<u64>, since: u64) -> (fresh: bool)
        ensures
            fresh == (last_presented_at matches Some(at) && at >= since),
    {
        match last_presented_at {
            Some(at) => at >= since,
            None => false,
        }
    }
}

/// Live view is never asked for while the camera still reports playback, and the loop
/// is never done while it does.
pub proof fn lemma_no_enable_during_playback(
    exit_acknowledged: bool,
    picture_fresh: bool,
)
    ensures
        spec_resume_action(true, exit_acknowledged, picture_fresh) == ResumeAction::ExitPlayback,
{
}

/// What to do after `0x02/0x0c` enter-playback. The newest page needs no playback, so a
/// body that refuses entry still lists; only older pages need it.
#[derive(Debug, Clone, Copy, PartialEq, Eq)]
pub struct BrowsePolicy {
    pub list_newest_page: bool,
    pub list_older_pages: bool,
    pub keep_browsing: bool,
}

impl BrowsePolicy {
    pub fn after_enter_playback(entered: bool) -> (policy: Self)
        ensures
            policy.list_newest_page,
            policy.list_older_pages == entered,
            policy.keep_browsing,
    {
        Self { list_newest_page: true, list_older_pages: entered, keep_browsing: true }
    }
}

} // verus!
