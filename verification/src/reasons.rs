//! What the interlock page remembers between frames about the outcome of
//! its operations (one-off reasons, the hold countdown, a conflict, the last
//! rejection, a pending refresh), how each event changes it, and the
//! in-place reason band it shows.
use vstd::prelude::*;

use crate::interlock::{
    dialog_may_open, dialog_may_open_spec, global_block_spec, state_view_spec, StateView, hold_text, hold_text_spec, op_state, opt_text, reject_text, reject_text_spec, section_display_eq,
    section_display_eq_spec, InterlockReject, InterlockSection, OpKind, ReasonSlot, ICON_FAIL,
    ICON_OK, TEXT_AUDIT_UNAVAILABLE, TEXT_CONFLICT, TEXT_NOT_ENABLED, TEXT_REASON_LATCHED,
    TEXT_STATE_UNAVAILABLE, TEXT_TOAST_ACKED, TEXT_TOAST_FAIL, TEXT_TOAST_RELEASED,
};
use crate::text::{
    display_safe_spec, owned, push_display_safe_chars, push_str, string_from_chars, trim_chars,
    trim_spec,
};

verus! {

/// Tone of a toast.
#[derive(Clone, Copy, Debug, PartialEq, Eq, Structural)]
pub enum ToastTone {
    Success,
    Failure,
}

/// A toast the page shows: tone, icon and text.
#[derive(Clone, Debug, PartialEq, Eq)]
pub struct Toast {
    pub tone: ToastTone,
    pub icon: &'static str,
    pub text: String,
}

/// What the backend reports as applied by a successful operation.
#[derive(Clone, Copy, Debug, PartialEq, Eq, Structural)]
pub struct InterlockOpAck {
    /// The latch after the operation.
    pub latched: bool,
    /// Whether the stop was confirmed after the operation.
    pub stopped: bool,
}

/// Why an operation failed, as far as the page tells failures apart.
#[derive(Clone, Copy, Debug, PartialEq, Eq, Structural)]
pub enum FailureKind {
    /// The audit store could not record the operation (nothing was done).
    AuditUnavailable,
    /// A precondition did not hold on the backend.
    RejectedPrecondition,
    /// Any other failure.
    Other,
}

/// The reasons and the countdown the page keeps between frames.
#[derive(Clone, Debug, PartialEq, Eq)]
pub struct ReasonState {
    /// A request is in flight.
    pub submitting: bool,
    /// A one-off reason (a failure message, "audit unavailable").
    pub plain_reason: Option<(String, ReasonSlot)>,
    /// The hold countdown is shown.
    pub countdown_on: bool,
    /// Seconds the backend said were left when the countdown started.
    pub countdown_remaining: u64,
    /// Clock reading (ms) of the first tick after the countdown started.
    pub countdown_base_ms: Option<u64>,
    /// Seconds left, as last shown.
    pub countdown_left: u64,
    /// The "state changed" conflict text is shown.
    pub conflict: bool,
    /// The last structured rejection (the countdown takes the hold one).
    pub last_reject: Option<InterlockReject>,
    /// A state refresh should be fetched.
    pub refresh_requested: bool,
}

/// The two slots of the in-place reason band: the left slot with its colour
/// slot, and the right slot above the M1 button.
#[derive(Clone, Debug, PartialEq, Eq)]
pub struct ReasonBand {
    pub left: Option<(String, ReasonSlot)>,
    pub right: Option<&'static str>,
}

/// Seconds left of a countdown of `remaining` seconds started at `base`,
/// read at `now` (ms); time before the base counts as none elapsed.
pub open spec fn countdown_left_at(remaining: u64, base: u64, now: u64) -> u64 {
    let elapsed: int = if now >= base { (now - base) / 1000 } else { 0 };
    if elapsed >= remaining {
        0
    } else {
        (remaining - elapsed) as u64
    }
}

/// The text of a failure: the trimmed message made screen-safe, or
/// "operation failed" when nothing is left of it.
pub open spec fn failure_text_spec(message: Seq<char>) -> Seq<char> {
    if trim_spec(message).len() == 0 {
        TEXT_TOAST_FAIL@
    } else {
        display_safe_spec(trim_spec(message))
    }
}

/// The left slot of the band, by priority: a global block (unavailable,
/// not enabled), a one-off reason, the countdown, the conflict, the last
/// rejection.
pub open spec fn band_left_spec(s: InterlockSection, st: ReasonState) -> Option<(Seq<char>, ReasonSlot)> {
    if !s.available {
        Some((TEXT_STATE_UNAVAILABLE@, ReasonSlot::Gray))
    } else if !s.enabled {
        Some((TEXT_NOT_ENABLED@, ReasonSlot::Amber))
    } else if st.plain_reason is Some {
        band_left_view(st.plain_reason)
    } else if st.countdown_on {
        Some((hold_text_spec(st.countdown_left as nat), ReasonSlot::Amber))
    } else if st.conflict {
        Some((TEXT_CONFLICT@, ReasonSlot::Red))
    } else {
        match st.last_reject {
            Some(r) => Some((reject_text_spec(r), ReasonSlot::Red)),
            None => None,
        }
    }
}

pub open spec fn band_left_view(left: Option<(String, ReasonSlot)>) -> Option<(Seq<char>, ReasonSlot)> {
    match left {
        Some((t, slot)) => Some((t@, slot)),
        None => None,
    }
}

/// The reasons that do not survive a new request or a success are gone.
pub open spec fn reasons_cleared(st: ReasonState) -> bool {
    &&& st.last_reject is None
    &&& st.plain_reason is None
    &&& !st.conflict
    &&& !st.countdown_on
    &&& st.countdown_base_ms is None
    &&& st.countdown_left == 0
}

/// Applies the backend's acknowledgement to the section: the latch as
/// reported, stop failed unless the stop was confirmed; nothing else changes.
pub fn apply_ack(s: &mut InterlockSection, ack: InterlockOpAck)
    ensures
        final(s).latched == ack.latched,
        final(s).stop_failed == !ack.stopped,
        final(s).ts_ms == old(s).ts_ms,
        final(s).available == old(s).available,
        final(s).enabled == old(s).enabled,
        final(s).sources == old(s).sources,
        final(s).fault_lamp == old(s).fault_lamp,
        final(s).run_lamp == old(s).run_lamp,
        final(s).release_hold_secs == old(s).release_hold_secs,
{
    s.latched = ack.latched;
    s.stop_failed = !ack.stopped;
}

impl ReasonState {
    /// Nothing to say: no request, no reason, no countdown.
    pub fn new() -> (r: ReasonState)
        ensures
            !r.submitting,
            reasons_cleared(r),
            r.countdown_remaining == 0,
            !r.refresh_requested,
    {
        ReasonState {
            submitting: false,
            plain_reason: None,
            countdown_on: false,
            countdown_remaining: 0,
            countdown_base_ms: None,
            countdown_left: 0,
            conflict: false,
            last_reject: None,
            refresh_requested: false,
        }
    }

    /// Drops the countdown (its base no longer holds).
    pub fn clear_countdown(&mut self)
        ensures
            !final(self).countdown_on,
            final(self).countdown_base_ms is None,
            final(self).countdown_left == 0,
            final(self).countdown_remaining == old(self).countdown_remaining,
            final(self).submitting == old(self).submitting,
            final(self).plain_reason == old(self).plain_reason,
            final(self).conflict == old(self).conflict,
            final(self).last_reject == old(self).last_reject,
            final(self).refresh_requested == old(self).refresh_requested,
    {
        self.countdown_on = false;
        self.countdown_base_ms = None;
        self.countdown_left = 0;
    }

    /// Drops every reason (a new request was made, or one succeeded).
    pub fn clear_reason(&mut self)
        ensures
            reasons_cleared(*final(self)),
            final(self).countdown_remaining == old(self).countdown_remaining,
            final(self).submitting == old(self).submitting,
            final(self).refresh_requested == old(self).refresh_requested,
    {
        self.last_reject = None;
        self.plain_reason = None;
        self.conflict = false;
        self.clear_countdown();
    }

    /// A request goes out, or its answer came back.
    pub fn set_submitting(&mut self, on: bool)
        ensures
            final(self).submitting == on,
            final(self).plain_reason == old(self).plain_reason,
            final(self).countdown_on == old(self).countdown_on,
            final(self).countdown_remaining == old(self).countdown_remaining,
            final(self).countdown_base_ms == old(self).countdown_base_ms,
            final(self).countdown_left == old(self).countdown_left,
            final(self).conflict == old(self).conflict,
            final(self).last_reject == old(self).last_reject,
            final(self).refresh_requested == old(self).refresh_requested,
    {
        self.submitting = on;
    }

    /// A new frame arrived: when what it shows differs from the previous
    /// one, the countdown is dropped (a frame that only moved in time keeps
    /// it). Returns whether the frame differs.
    pub fn on_frame(&mut self, prev: &InterlockSection, next: &InterlockSection) -> (changed: bool)
        ensures
            changed == !section_display_eq_spec(*prev, *next),
            changed ==> !final(self).countdown_on && final(self).countdown_base_ms is None
                && final(self).countdown_left == 0,
            !changed ==> *final(self) == *old(self),
            final(self).countdown_remaining == old(self).countdown_remaining,
            final(self).submitting == old(self).submitting,
            final(self).plain_reason == old(self).plain_reason,
            final(self).conflict == old(self).conflict,
            final(self).last_reject == old(self).last_reject,
            final(self).refresh_requested == old(self).refresh_requested,
    {
        let changed = !section_display_eq(prev, next);
        if changed {
            self.clear_countdown();
        }
        changed
    }

    /// A structured rejection: the hold rejection starts the countdown, any
    /// other is kept to be shown; one-off reasons and the conflict go.
    pub fn show_reject(&mut self, r: InterlockReject)
        ensures
            !final(self).submitting,
            final(self).plain_reason is None,
            !final(self).conflict,
            final(self).refresh_requested == old(self).refresh_requested,
            match r {
                InterlockReject::HoldNotElapsed { remaining_secs, .. } => {
                    &&& final(self).countdown_on
                    &&& final(self).countdown_remaining == remaining_secs
                    &&& final(self).countdown_base_ms is None
                    &&& final(self).countdown_left == remaining_secs
                    &&& final(self).last_reject is None
                },
                _ => {
                    &&& !final(self).countdown_on
                    &&& final(self).last_reject == Some(r)
                    &&& final(self).countdown_remaining == old(self).countdown_remaining
                    &&& final(self).countdown_base_ms == old(self).countdown_base_ms
                    &&& final(self).countdown_left == old(self).countdown_left
                },
            },
    {
        self.submitting = false;
        self.plain_reason = None;
        self.conflict = false;
        match r {
            InterlockReject::HoldNotElapsed { remaining_secs, .. } => {
                self.countdown_remaining = remaining_secs;
                self.countdown_base_ms = None;
                self.countdown_left = remaining_secs;
                self.countdown_on = true;
                self.last_reject = None;
            },
            _ => {
                self.countdown_on = false;
                self.last_reject = Some(r);
            },
        }
    }

    /// The state changed under the operation: the conflict text is shown
    /// and a state refresh is requested.
    pub fn show_conflict(&mut self)
        ensures
            !final(self).submitting,
            final(self).last_reject is None,
            final(self).plain_reason is None,
            !final(self).countdown_on,
            final(self).conflict,
            final(self).refresh_requested,
            final(self).countdown_remaining == old(self).countdown_remaining,
            final(self).countdown_base_ms == old(self).countdown_base_ms,
            final(self).countdown_left == old(self).countdown_left,
    {
        self.submitting = false;
        self.last_reject = None;
        self.plain_reason = None;
        self.countdown_on = false;
        self.conflict = true;
        self.refresh_requested = true;
    }

    /// Hands out the refresh request and forgets it.
    pub fn take_refresh_request(&mut self) -> (r: bool)
        ensures
            r == old(self).refresh_requested,
            !final(self).refresh_requested,
            final(self).submitting == old(self).submitting,
            final(self).plain_reason == old(self).plain_reason,
            final(self).countdown_on == old(self).countdown_on,
            final(self).countdown_remaining == old(self).countdown_remaining,
            final(self).countdown_base_ms == old(self).countdown_base_ms,
            final(self).countdown_left == old(self).countdown_left,
            final(self).conflict == old(self).conflict,
            final(self).last_reject == old(self).last_reject,
    {
        let r = self.refresh_requested;
        self.refresh_requested = false;
        r
    }

    /// The operation succeeded: every reason goes and the success toast of
    /// the operation is shown.
    pub fn show_success(&mut self, op: OpKind) -> (t: Toast)
        ensures
            !final(self).submitting,
            reasons_cleared(*final(self)),
            final(self).countdown_remaining == old(self).countdown_remaining,
            final(self).refresh_requested == old(self).refresh_requested,
            t.tone == ToastTone::Success,
            t.icon@ == ICON_OK@,
            op == OpKind::Release ==> t.text@ == TEXT_TOAST_RELEASED@,
            op == OpKind::AckM1 ==> t.text@ == TEXT_TOAST_ACKED@,
    {
        self.submitting = false;
        self.clear_reason();
        Toast { tone: ToastTone::Success, icon: ICON_OK, text: owned(op.toast_ok()) }
    }

    /// The operation failed. When the audit store could not record it, the
    /// fixed "audit unavailable, not executed" text is the reason; otherwise
    /// the trimmed, screen-safe message (or "operation failed" when it is
    /// empty), and a rejected precondition also requests a state refresh.
    /// The toast carries the same text.
    pub fn show_failure(&mut self, kind: FailureKind, message: &str) -> (t: Toast)
        ensures
            !final(self).submitting,
            !final(self).countdown_on,
            !final(self).conflict,
            final(self).last_reject is None,
            final(self).countdown_remaining == old(self).countdown_remaining,
            final(self).countdown_base_ms == old(self).countdown_base_ms,
            final(self).countdown_left == old(self).countdown_left,
            final(self).refresh_requested == (old(self).refresh_requested || kind
                == FailureKind::RejectedPrecondition),
            t.tone == ToastTone::Failure,
            t.icon@ == ICON_FAIL@,
            final(self).plain_reason matches Some((text, slot)) && slot == ReasonSlot::Red
                && text@ == t.text@,
            kind == FailureKind::AuditUnavailable ==> t.text@ == TEXT_AUDIT_UNAVAILABLE@,
            kind != FailureKind::AuditUnavailable ==> t.text@ == failure_text_spec(message@),
    {
        self.submitting = false;
        self.countdown_on = false;
        self.conflict = false;
        self.last_reject = None;
        if kind == FailureKind::AuditUnavailable {
            self.plain_reason = Some((owned(TEXT_AUDIT_UNAVAILABLE), ReasonSlot::Red));
            return Toast { tone: ToastTone::Failure, icon: ICON_FAIL, text: owned(TEXT_AUDIT_UNAVAILABLE) };
        }
        let trimmed = trim_chars(message);
        let mut v: Vec<char> = Vec::new();
        if trimmed.len() == 0 {
            push_str(&mut v, TEXT_TOAST_FAIL);
        } else {
            push_display_safe_chars(&mut v, &trimmed);
        }
        let shown = v.clone();
        self.plain_reason = Some((string_from_chars(v), ReasonSlot::Red));
        if kind == FailureKind::RejectedPrecondition {
            self.refresh_requested = true;
        }
        Toast { tone: ToastTone::Failure, icon: ICON_FAIL, text: string_from_chars(shown) }
    }

    /// The audit store could not record the operation, so nothing was done:
    /// the fixed text is both the reason and the toast.
    pub fn show_audit_unavailable(&mut self) -> (t: Toast)
        ensures
            !final(self).submitting,
            !final(self).countdown_on,
            !final(self).conflict,
            final(self).last_reject is None,
            final(self).refresh_requested == old(self).refresh_requested,
            t.tone == ToastTone::Failure,
            t.icon@ == ICON_FAIL@,
            t.text@ == TEXT_AUDIT_UNAVAILABLE@,
            final(self).plain_reason matches Some((text, slot)) && slot == ReasonSlot::Red
                && text@ == TEXT_AUDIT_UNAVAILABLE@,
    {
        self.show_failure(FailureKind::AuditUnavailable, "")
    }

    /// One tick of the event loop at clock reading `now_ms`: the first tick
    /// of a countdown takes its base, later ones count the whole seconds
    /// since. Returns whether the seconds left changed.
    pub fn tick(&mut self, now_ms: u64) -> (changed: bool)
        ensures
            !old(self).countdown_on ==> *final(self) == *old(self) && !changed,
            old(self).countdown_on ==> {
                let base = match old(self).countdown_base_ms {
                    Some(b) => b,
                    None => now_ms,
                };
                &&& final(self).countdown_base_ms == Some(base)
                &&& final(self).countdown_left == countdown_left_at(
                    old(self).countdown_remaining,
                    base,
                    now_ms,
                )
                &&& changed == (final(self).countdown_left != old(self).countdown_left)
            },
            final(self).countdown_on == old(self).countdown_on,
            final(self).countdown_remaining == old(self).countdown_remaining,
            final(self).submitting == old(self).submitting,
            final(self).plain_reason == old(self).plain_reason,
            final(self).conflict == old(self).conflict,
            final(self).last_reject == old(self).last_reject,
            final(self).refresh_requested == old(self).refresh_requested,
    {
        if !self.countdown_on {
            return false;
        }
        let base = match self.countdown_base_ms {
            Some(b) => b,
            None => {
                self.countdown_base_ms = Some(now_ms);
                now_ms
            },
        };
        let elapsed: u64 = if now_ms >= base { (now_ms - base) / 1000 } else { 0 };
        let left: u64 = if elapsed >= self.countdown_remaining { 0 } else { self.countdown_remaining - elapsed };
        if left != self.countdown_left {
            self.countdown_left = left;
            true
        } else {
            false
        }
    }

    /// The seconds left of the countdown, when one is shown.
    pub fn countdown_secs(&self) -> (r: Option<u64>)
        ensures
            r == (if self.countdown_on { Some(self.countdown_left) } else { None }),
    {
        if self.countdown_on {
            Some(self.countdown_left)
        } else {
            None
        }
    }

    /// The in-place reason band for a section: the left slot by priority
    /// (see [`band_left_spec`]); the right slot holds the latch reason
    /// above the M1 button only while no global block applies and no request
    /// is in flight.
    pub fn reason_band(&self, s: &InterlockSection) -> (b: ReasonBand)
        ensures
            band_left_view(b.left) == band_left_spec(*s, *self),
            opt_text(b.right) == (if s.available && s.enabled && s.latched && !self.submitting {
                Some(TEXT_REASON_LATCHED@)
            } else {
                None
            }),
    {
        let st = op_state(s, self.submitting);
        let right: Option<&'static str> = if s.available && s.enabled {
            st.restart_reason
        } else {
            None
        };
        let left: Option<(String, ReasonSlot)> = if !s.available {
            Some((owned(TEXT_STATE_UNAVAILABLE), ReasonSlot::Gray))
        } else if !s.enabled {
            Some((owned(TEXT_NOT_ENABLED), ReasonSlot::Amber))
        } else if let Some((t, slot)) = &self.plain_reason {
            Some((t.clone(), *slot))
        } else if self.countdown_on {
            Some((hold_text(self.countdown_left), ReasonSlot::Amber))
        } else if self.conflict {
            Some((owned(TEXT_CONFLICT), ReasonSlot::Red))
        } else {
            match &self.last_reject {
                Some(r) => Some((reject_text(r), ReasonSlot::Red)),
                None => None,
            }
        };
        ReasonBand { left, right }
    }
}

/// A countdown only runs down: a later reading never shows more seconds
/// than an earlier one, and never more than the backend said were left.
pub proof fn lemma_countdown_never_rises(remaining: u64, base: u64, now1: u64, now2: u64)
    requires
        now1 <= now2,
    ensures
        countdown_left_at(remaining, base, now2) <= countdown_left_at(remaining, base, now1),
        countdown_left_at(remaining, base, now1) <= remaining,
        countdown_left_at(remaining, base, base) == remaining,
{
    if now1 >= base {
        assert((now1 - base) / 1000 <= (now2 - base) / 1000) by (nonlinear_arith)
            requires
                now1 >= base,
                now1 <= now2,
        ;
    }
}

/// A global block always owns the left slot, whatever reason is kept:
/// an unavailable state reads "unavailable", a disabled interlock "not
/// enabled".
pub proof fn lemma_global_block_wins(s: InterlockSection, st: ReasonState)
    ensures
        !s.available ==> band_left_spec(s, st) == Some((TEXT_STATE_UNAVAILABLE@, ReasonSlot::Gray)),
        s.available && !s.enabled ==> band_left_spec(s, st) == Some(
            (TEXT_NOT_ENABLED@, ReasonSlot::Amber),
        ),
{
}

/// After a success, or once a new request is made, the band shows nothing
/// but a global block.
pub proof fn lemma_cleared_band_is_global_only(s: InterlockSection, st: ReasonState)
    requires
        reasons_cleared(st),
    ensures
        s.available && s.enabled ==> band_left_spec(s, st) is None,
{
}

// ── Dialog and toast ───────────────────────────────────────────────────────

/// The confirmation dialog and the toast of the page: which operation's
/// dialog is open, whether a cancelled dialog waits to be closed at the next
/// tick (a dialog cannot be closed from inside its own event), and whether a
/// toast is up.
#[derive(Clone, Copy, Debug, PartialEq, Eq, Structural)]
pub struct Overlay {
    pub dialog: Option<OpKind>,
    pub pending_close: bool,
    pub toast_on: bool,
}

impl Overlay {
    /// No dialog, nothing pending, no toast.
    pub fn new() -> (r: Overlay)
        ensures
            r == (Overlay { dialog: None, pending_close: false, toast_on: false }),
    {
        Overlay { dialog: None, pending_close: false, toast_on: false }
    }

    /// A confirmation dialog is on screen (a cancelled one stays until the
    /// next tick).
    pub fn dialog_open(&self) -> (r: bool)
        ensures
            r == self.dialog is Some,
    {
        self.dialog.is_some()
    }

    /// The user asks for the dialog of `op`: it opens only when no dialog is
    /// open and the operation is not blocked locally. Returns whether it
    /// opened.
    pub fn open_dialog(&mut self, s: &InterlockSection, submitting: bool, op: OpKind) -> (opened: bool)
        ensures
            opened == dialog_may_open_spec(*s, submitting, op, old(self).dialog is Some),
            final(self).dialog == (if opened { Some(op) } else { old(self).dialog }),
            final(self).pending_close == old(self).pending_close,
            final(self).toast_on == old(self).toast_on,
    {
        let opened = dialog_may_open(s, submitting, op, self.dialog.is_some());
        if opened {
            self.dialog = Some(op);
        }
        opened
    }

    /// The user cancelled the dialog: it closes at the next tick.
    pub fn cancel_dialog(&mut self)
        ensures
            *final(self) == (Overlay { pending_close: true, ..*old(self) }),
    {
        self.pending_close = true;
    }

    /// The answer to an operation came back, with a toast either way: a
    /// success closes the dialog, a failure leaves it open so its reason can
    /// be read and the operation retried.
    pub fn show_result(&mut self, ok: bool)
        ensures
            final(self).dialog == (if ok { None } else { old(self).dialog }),
            final(self).pending_close == old(self).pending_close,
            final(self).toast_on,
    {
        if ok {
            self.dialog = None;
        }
        self.toast_on = true;
    }

    /// One tick of the event loop: a pending close is carried out, and the
    /// toast goes once it has expired (`toast_expired`, as the toast's own
    /// clock tells).
    pub fn tick(&mut self, toast_expired: bool)
        ensures
            !final(self).pending_close,
            final(self).dialog == (if old(self).pending_close { None } else { old(self).dialog }),
            final(self).toast_on == (old(self).toast_on && !toast_expired),
    {
        if self.pending_close {
            self.pending_close = false;
            self.dialog = None;
        }
        if self.toast_on && toast_expired {
            self.toast_on = false;
        }
    }
}

/// What the interlock page holds: the last section, the reasons and the
/// dialog and toast.
#[derive(Clone, Debug, PartialEq, Eq)]
pub struct InterlockPageState {
    pub section: InterlockSection,
    pub reasons: ReasonState,
    pub overlay: Overlay,
}

impl InterlockPageState {
    /// The page before any frame: the contract default section (state
    /// unavailable, no source), nothing to say, no dialog, no toast.
    pub fn new() -> (r: InterlockPageState)
        ensures
            !r.section.available,
            !r.section.enabled,
            !r.section.latched,
            r.section.sources@.len() == 0,
            !r.reasons.submitting,
            reasons_cleared(r.reasons),
            !r.reasons.refresh_requested,
            r.overlay == (Overlay { dialog: None, pending_close: false, toast_on: false }),
    {
        InterlockPageState {
            section: InterlockSection::default(),
            reasons: ReasonState::new(),
            overlay: Overlay::new(),
        }
    }
}

/// Before any frame the page shows the unavailable state, not an unlatched
/// one: the unavailable placeholder and not the empty one in the source
/// card, both buttons blocked (no dialog can open), no dialog open and no
/// countdown.
pub proof fn lemma_fresh_page_is_unavailable(p: InterlockPageState)
    requires
        !p.section.available,
        !p.reasons.submitting,
        reasons_cleared(p.reasons),
        p.overlay == (Overlay { dialog: None, pending_close: false, toast_on: false }),
    ensures
        state_view_spec(p.section.available, p.section.latched) == StateView::Unavailable,
        !(p.section.available && p.section.sources@.len() == 0),
        !p.section.available,
        global_block_spec(p.section.available, p.section.enabled) is Some,
        !dialog_may_open_spec(p.section, p.reasons.submitting, OpKind::Release, false),
        !dialog_may_open_spec(p.section, p.reasons.submitting, OpKind::AckM1, false),
        p.overlay.dialog is None,
        !p.reasons.countdown_on,
{
}

} // verus!
