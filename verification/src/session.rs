//! The reading of one drive as a state machine.
//!
//! A session tries the three strategies on one drive, in the order of the
//! rights they need: elevated access, SMART, zero rights. For each it asks for
//! a handle, steps the strategy on what the transport reports, records what
//! the strategy came to, and asks for the handle to be closed before it goes
//! on. The caller performs each action and hands back the event that answers
//! it. An event of another kind is read as the failure of the action: a handle
//! that was not opened, a request that came to nothing, an error code of
//! zero, a close without a time.

use std::time::Duration;
use vstd::prelude::*;
use crate::ioctl_operations::{
    admin_step, create_file_with_admin_rights, create_file_with_smart_rights,
    create_file_with_zero_rights, get_drive_serial_with_admin_rights,
    get_drive_serial_with_smart, get_drive_serial_with_zero_rights, smart_step, zero_step,
    ActionView, AdminStage, ControlEvent, ControlRequest, OpenRequest, SmartStage,
    StrategyAction, ZeroStage, FILE_FLAG_OVERLAPPED, FILE_SHARE_DELETE, FILE_SHARE_READ,
    FILE_SHARE_WRITE, GENERIC_READ, GENERIC_WRITE, OPEN_EXISTING,
};
use crate::{
    drive_path, noted, physical_drive_path, recorded, skipped, Attempt, AttemptView,
    Finding, FindingView, HardDriveSerial, Report, Strategy,
};

verus! {

/// Where a session stands.
#[derive(Clone, Copy, Debug, PartialEq, Eq, Structural)]
pub enum SessionStage {
    /// A handle for the strategy was asked for.
    Opening(Strategy),
    /// The elevated-access strategy runs on an open handle.
    Admin(AdminStage),
    /// The SMART strategy runs on an open handle.
    Smart(SmartStage),
    /// The zero-rights strategy runs on an open handle.
    Zero(ZeroStage),
    /// The elevated-access strategy found nothing, and the last error code
    /// was asked for.
    AwaitingLastError,
    /// The strategy has finished, and its handle was asked to be closed.
    Closing(Strategy),
    /// All strategies were tried.
    Done,
}

/// What the caller reports to a session.
#[derive(Debug)]
pub enum SessionEvent {
    /// The handle was opened.
    Opened,
    /// The handle could not be opened.
    Denied,
    /// What the transport reported of a control request or of a wait.
    Control(ControlEvent),
    /// The last error code of the platform.
    LastError { error_code: u32 },
    /// The handle was closed, `elapsed` after it was asked for.
    Closed { elapsed: Duration },
}

/// What a session asks the caller to do.
#[derive(Debug)]
pub enum SessionAction {
    /// Open a handle and report whether it was opened.
    Open(OpenRequest),
    /// Issue a control request on the open handle and report how it went.
    Control(ControlRequest),
    /// Wait until the pending request completes and report how the wait ended.
    AwaitCompletion,
    /// Report the last error code of the platform.
    QueryLastError,
    /// Close the handle and report the time since it was asked for.
    Close,
    /// Nothing: the session is over.
    Done,
}

/// What a session asks the caller to do, as plain values.
pub enum SessionActionView {
    Open {
        path: Seq<char>,
        desired_access: u32,
        share_mode: u32,
        creation_disposition: u32,
        flags_and_attributes: u32,
    },
    Control { control_code: u32, input: Seq<u8>, output_size: u32 },
    AwaitCompletion,
    QueryLastError,
    Close,
    Done,
}

impl View for SessionAction {
    type V = SessionActionView;

    open spec fn view(&self) -> SessionActionView {
        match *self {
            SessionAction::Open(request) => SessionActionView::Open {
                path: request.path@,
                desired_access: request.desired_access,
                share_mode: request.share_mode,
                creation_disposition: request.creation_disposition,
                flags_and_attributes: request.flags_and_attributes,
            },
            SessionAction::Control(request) => SessionActionView::Control {
                control_code: request.control_code,
                input: request.input@,
                output_size: request.output_size,
            },
            SessionAction::AwaitCompletion => SessionActionView::AwaitCompletion,
            SessionAction::QueryLastError => SessionActionView::QueryLastError,
            SessionAction::Close => SessionActionView::Close,
            SessionAction::Done => SessionActionView::Done,
        }
    }
}

/// A session, as plain values: the drive, the stage, what the strategy that
/// is being closed came to, and what was recorded.
pub struct SessionView {
    pub b_drive_num: u8,
    pub stage: SessionStage,
    pub pending: FindingView,
    pub record: Report,
}

/// The reading of one drive: the state between two actions.
#[derive(Debug)]
pub struct DriveSession {
    b_drive_num: u8,
    stage: SessionStage,
    pending: Finding,
    record: HardDriveSerial,
}

impl View for DriveSession {
    type V = SessionView;

    closed spec fn view(&self) -> SessionView {
        SessionView {
            b_drive_num: self.b_drive_num,
            stage: self.stage,
            pending: self.pending@,
            record: self.record@,
        }
    }
}

/// The strategy that is tried after `strategy`, if there is one.
pub open spec fn next_strategy(strategy: Strategy) -> Option<Strategy> {
    match strategy {
        Strategy::Admin => Some(Strategy::Smart),
        Strategy::Smart => Some(Strategy::Zero),
        Strategy::Zero => None,
    }
}

/// The action that asks for a handle to the drive at the access level of
/// `strategy`.
pub open spec fn open_action(b_drive_num: u8, strategy: Strategy) -> SessionActionView {
    SessionActionView::Open {
        path: drive_path(b_drive_num),
        desired_access: match strategy {
            Strategy::Zero => 0,
            _ => GENERIC_READ | GENERIC_WRITE,
        },
        share_mode: match strategy {
            Strategy::Smart => FILE_SHARE_DELETE | FILE_SHARE_READ | FILE_SHARE_WRITE,
            _ => FILE_SHARE_READ | FILE_SHARE_WRITE,
        },
        creation_disposition: OPEN_EXISTING,
        flags_and_attributes: FILE_FLAG_OVERLAPPED,
    }
}

/// What no strategy has come to yet.
pub open spec fn nothing_pending() -> FindingView {
    FindingView::NoData { error_code: 0 }
}

/// The session at its start, and its first action: a handle for the
/// elevated-access strategy.
pub open spec fn session_start(b_drive_num: u8, record: Report) -> (SessionView, SessionActionView) {
    (
        SessionView {
            b_drive_num,
            stage: SessionStage::Opening(Strategy::Admin),
            pending: nothing_pending(),
            record,
        },
        open_action(b_drive_num, Strategy::Admin),
    )
}

/// The session after `strategy` is over and left `record`: it asks for a
/// handle for the next strategy, or is done after the last.
pub open spec fn advance(pre: SessionView, strategy: Strategy, record: Report) -> (
    SessionView,
    SessionActionView,
) {
    match next_strategy(strategy) {
        Some(next) => (
            SessionView {
                stage: SessionStage::Opening(next),
                pending: nothing_pending(),
                record,
                ..pre
            },
            open_action(pre.b_drive_num, next),
        ),
        None => (
            SessionView { stage: SessionStage::Done, pending: nothing_pending(), record, ..pre },
            SessionActionView::Done,
        ),
    }
}

/// The session after `strategy` asked for `action` and went to the stage
/// `running`: a request and a wait are passed on to the caller. A strategy
/// that has finished has its handle closed; before that, the last error code
/// is asked for where the elevated-access strategy found nothing.
pub open spec fn follow(
    pre: SessionView,
    strategy: Strategy,
    running: SessionStage,
    action: ActionView,
) -> (SessionView, SessionActionView) {
    match action {
        ActionView::Issue { control_code, input, output_size } => (
            SessionView { stage: running, ..pre },
            SessionActionView::Control { control_code, input, output_size },
        ),
        ActionView::AwaitCompletion => (
            SessionView { stage: running, ..pre },
            SessionActionView::AwaitCompletion,
        ),
        ActionView::Finish { serial: Some(serial) } => (
            SessionView {
                stage: SessionStage::Closing(strategy),
                pending: FindingView::Candidate { serial },
                ..pre
            },
            SessionActionView::Close,
        ),
        ActionView::Finish { serial: None } => if strategy == Strategy::Admin {
            (
                SessionView { stage: SessionStage::AwaitingLastError, ..pre },
                SessionActionView::QueryLastError,
            )
        } else {
            (
                SessionView {
                    stage: SessionStage::Closing(strategy),
                    pending: nothing_pending(),
                    ..pre
                },
                SessionActionView::Close,
            )
        },
    }
}

/// The step of `strategy` from its start, on a handle that was just opened.
pub open spec fn first_step(pre: SessionView, strategy: Strategy) -> (
    SessionView,
    SessionActionView,
) {
    match strategy {
        Strategy::Admin => {
            let step = admin_step(AdminStage::Start, ControlEvent::Ready, pre.b_drive_num);
            follow(pre, strategy, SessionStage::Admin(step.0), step.1)
        },
        Strategy::Smart => {
            let step = smart_step(SmartStage::Start, ControlEvent::Ready);
            follow(pre, strategy, SessionStage::Smart(step.0), step.1)
        },
        Strategy::Zero => {
            let step = zero_step(ZeroStage::Start, ControlEvent::Ready);
            follow(pre, strategy, SessionStage::Zero(step.0), step.1)
        },
    }
}

/// What the transport reported, as a strategy reads it. An event that is none
/// of the transport says that nothing is outstanding.
pub open spec fn control_event(event: SessionEvent) -> ControlEvent {
    match event {
        SessionEvent::Control(control) => control,
        _ => ControlEvent::Ready,
    }
}

/// The step of a session from the state `pre` on `event`: the state that
/// follows, and the action to take.
pub open spec fn session_step(pre: SessionView, event: SessionEvent) -> (
    SessionView,
    SessionActionView,
) {
    match pre.stage {
        SessionStage::Opening(strategy) => if event is Opened {
            first_step(pre, strategy)
        } else {
            advance(pre, strategy, skipped(pre.record, pre.b_drive_num, strategy))
        },
        SessionStage::Admin(stage) => {
            let step = admin_step(stage, control_event(event), pre.b_drive_num);
            follow(pre, Strategy::Admin, SessionStage::Admin(step.0), step.1)
        },
        SessionStage::Smart(stage) => {
            let step = smart_step(stage, control_event(event));
            follow(pre, Strategy::Smart, SessionStage::Smart(step.0), step.1)
        },
        SessionStage::Zero(stage) => {
            let step = zero_step(stage, control_event(event));
            follow(pre, Strategy::Zero, SessionStage::Zero(step.0), step.1)
        },
        SessionStage::AwaitingLastError => (
            SessionView {
                stage: SessionStage::Closing(Strategy::Admin),
                pending: FindingView::NoData {
                    error_code: match event {
                        SessionEvent::LastError { error_code } => error_code,
                        _ => 0,
                    },
                },
                ..pre
            },
            SessionActionView::Close,
        ),
        SessionStage::Closing(strategy) => advance(
            pre,
            strategy,
            match event {
                SessionEvent::Closed { elapsed } => recorded(
                    pre.record,
                    pre.b_drive_num,
                    strategy,
                    AttemptView::Ran { finding: pre.pending, elapsed },
                ),
                _ => noted(pre.record, pre.b_drive_num, strategy, pre.pending),
            },
        ),
        SessionStage::Done => (pre, SessionActionView::Done),
    }
}

/// Whether a handle is open in this stage.
pub open spec fn holds_handle(stage: SessionStage) -> bool {
    match stage {
        SessionStage::Admin(_) | SessionStage::Smart(_) | SessionStage::Zero(_) => true,
        SessionStage::AwaitingLastError => true,
        _ => false,
    }
}

/// The handle discipline of a session. A request, a wait and the question
/// for the last error code are only asked for while a handle is open. A handle
/// is only asked for, and the session only ends, while none is open. The
/// handle is closed exactly when the session leaves the stages in which it is
/// open, whatever event ends them.
pub proof fn lemma_handle_discipline(pre: SessionView, event: SessionEvent)
    ensures
        ({
            let (post, action) = session_step(pre, event);
            &&& (action is Control || action is AwaitCompletion || action is QueryLastError)
                ==> holds_handle(post.stage)
            &&& (action is Open || action is Done) ==> !holds_handle(pre.stage) && !holds_handle(
                post.stage,
            )
            &&& action is Close <==> holds_handle(pre.stage) && !holds_handle(post.stage)
            &&& action is Close ==> post.stage is Closing
            &&& pre.stage is Opening && event !is Opened ==> !holds_handle(post.stage)
        }),
{
}

/// A session tries the strategies in the order of the rights they need, each
/// once: after the handle of one is closed or denied, the next is asked for,
/// and after the last the session is done.
pub proof fn lemma_strategy_order(pre: SessionView, event: SessionEvent)
    requires
        pre.stage matches SessionStage::Closing(_) || (pre.stage is Opening && event !is Opened),
    ensures
        ({
            let (post, action) = session_step(pre, event);
            let strategy = match pre.stage {
                SessionStage::Closing(s) => s,
                SessionStage::Opening(s) => s,
                _ => Strategy::Admin,
            };
            match strategy {
                Strategy::Admin => post.stage == SessionStage::Opening(Strategy::Smart) && action
                    == open_action(pre.b_drive_num, Strategy::Smart),
                Strategy::Smart => post.stage == SessionStage::Opening(Strategy::Zero) && action
                    == open_action(pre.b_drive_num, Strategy::Zero),
                Strategy::Zero => post.stage == SessionStage::Done && action
                    == SessionActionView::Done,
            }
        }),
{
}

/// The request that opens the drive at the access level of `strategy`.
fn open_request(b_drive_num: u8, strategy: Strategy) -> (action: SessionAction)
    ensures
        action@ == open_action(b_drive_num, strategy),
{
    let drive_name = physical_drive_path(b_drive_num);
    SessionAction::Open(
        match strategy {
            Strategy::Admin => create_file_with_admin_rights(drive_name.as_str()),
            Strategy::Smart => create_file_with_smart_rights(drive_name.as_str()),
            Strategy::Zero => create_file_with_zero_rights(drive_name.as_str()),
        },
    )
}

impl DriveSession {
    /// Starts the reading of the drive `b_drive_num` with nothing recorded.
    /// The first action asks for a handle for the elevated-access strategy.
    pub fn begin(b_drive_num: u8) -> (r: (DriveSession, SessionAction))
        ensures
            r.0@.b_drive_num == b_drive_num,
            r.0@.record.serial_numbers.len() == 0,
            r.0@.record.errors.len() == 0,
            r.0@.record.skips.len() == 0,
            r.0@.record.timings.len() == 0,
            (r.0@, r.1@) == session_start(b_drive_num, r.0@.record),
    {
        (
            DriveSession {
                b_drive_num,
                stage: SessionStage::Opening(Strategy::Admin),
                pending: Finding::NoData { error_code: 0 },
                record: HardDriveSerial::new(),
            },
            open_request(b_drive_num, Strategy::Admin),
        )
    }

    /// The stage of the session.
    pub fn stage(&self) -> (stage: SessionStage)
        ensures
            stage == self@.stage,
    {
        self.stage
    }

    /// Whether all strategies were tried.
    pub fn is_done(&self) -> (done: bool)
        ensures
            done == (self@.stage is Done),
    {
        match self.stage {
            SessionStage::Done => true,
            _ => false,
        }
    }

    /// Ends the session and hands out what it recorded.
    pub fn into_record(self) -> (record: HardDriveSerial)
        ensures
            record@ == self@.record,
    {
        self.record
    }

    /// Goes on to the strategy after `strategy`.
    fn advance(&mut self, strategy: Strategy) -> (action: SessionAction)
        ensures
            (final(self)@, action@) == advance(old(self)@, strategy, old(self)@.record),
    {
        self.pending = Finding::NoData { error_code: 0 };
        match strategy {
            Strategy::Admin => {
                self.stage = SessionStage::Opening(Strategy::Smart);
                open_request(self.b_drive_num, Strategy::Smart)
            },
            Strategy::Smart => {
                self.stage = SessionStage::Opening(Strategy::Zero);
                open_request(self.b_drive_num, Strategy::Zero)
            },
            Strategy::Zero => {
                self.stage = SessionStage::Done;
                SessionAction::Done
            },
        }
    }

    /// Passes on what `strategy` asked for.
    fn follow(&mut self, strategy: Strategy, running: SessionStage, action: StrategyAction) -> (r:
        SessionAction)
        ensures
            (final(self)@, r@) == follow(old(self)@, strategy, running, action@),
    {
        match action {
            StrategyAction::Issue(request) => {
                self.stage = running;
                SessionAction::Control(request)
            },
            StrategyAction::AwaitCompletion => {
                self.stage = running;
                SessionAction::AwaitCompletion
            },
            StrategyAction::Finish(Some(serial)) => {
                self.stage = SessionStage::Closing(strategy);
                self.pending = Finding::Candidate { serial };
                SessionAction::Close
            },
            StrategyAction::Finish(None) => match strategy {
                Strategy::Admin => {
                    self.stage = SessionStage::AwaitingLastError;
                    SessionAction::QueryLastError
                },
                _ => {
                    self.stage = SessionStage::Closing(strategy);
                    self.pending = Finding::NoData { error_code: 0 };
                    SessionAction::Close
                },
            },
        }
    }

    /// Steps the strategy that runs, on what the transport reported.
    fn run(&mut self, strategy: Strategy, event: ControlEvent) -> (r: SessionAction)
        requires
            match old(self)@.stage {
                SessionStage::Admin(_) => strategy == Strategy::Admin,
                SessionStage::Smart(_) => strategy == Strategy::Smart,
                SessionStage::Zero(_) => strategy == Strategy::Zero,
                SessionStage::Opening(s) => strategy == s,
                _ => false,
            },
        ensures
            (final(self)@, r@) == (match old(self)@.stage {
                SessionStage::Admin(stage) => {
                    let step = admin_step(stage, event, old(self)@.b_drive_num);
                    follow(old(self)@, strategy, SessionStage::Admin(step.0), step.1)
                },
                SessionStage::Smart(stage) => {
                    let step = smart_step(stage, event);
                    follow(old(self)@, strategy, SessionStage::Smart(step.0), step.1)
                },
                SessionStage::Zero(stage) => {
                    let step = zero_step(stage, event);
                    follow(old(self)@, strategy, SessionStage::Zero(step.0), step.1)
                },
                _ => match strategy {
                    Strategy::Admin => {
                        let step = admin_step(AdminStage::Start, event, old(self)@.b_drive_num);
                        follow(old(self)@, strategy, SessionStage::Admin(step.0), step.1)
                    },
                    Strategy::Smart => {
                        let step = smart_step(SmartStage::Start, event);
                        follow(old(self)@, strategy, SessionStage::Smart(step.0), step.1)
                    },
                    Strategy::Zero => {
                        let step = zero_step(ZeroStage::Start, event);
                        follow(old(self)@, strategy, SessionStage::Zero(step.0), step.1)
                    },
                },
            }),
    {
        match strategy {
            Strategy::Admin => {
                let stage = match self.stage {
                    SessionStage::Admin(stage) => stage,
                    _ => AdminStage::Start,
                };
                let (next, action) = get_drive_serial_with_admin_rights(
                    stage,
                    event,
                    self.b_drive_num,
                );
                self.follow(strategy, SessionStage::Admin(next), action)
            },
            Strategy::Smart => {
                let stage = match self.stage {
                    SessionStage::Smart(stage) => stage,
                    _ => SmartStage::Start,
                };
                let (next, action) = get_drive_serial_with_smart(stage, event, self.b_drive_num);
                self.follow(strategy, SessionStage::Smart(next), action)
            },
            Strategy::Zero => {
                let stage = match self.stage {
                    SessionStage::Zero(stage) => stage,
                    _ => ZeroStage::Start,
                };
                let (next, action) = get_drive_serial_with_zero_rights(stage, event);
                self.follow(strategy, SessionStage::Zero(next), action)
            },
        }
    }

    /// Records an attempt with `strategy`.
    fn record(&mut self, strategy: Strategy, attempt: Attempt)
        ensures
            final(self)@ == (SessionView {
                record: recorded(old(self)@.record, old(self)@.b_drive_num, strategy, attempt@),
                ..old(self)@
            }),
    {
        match strategy {
            Strategy::Admin => self.record.read_physical_drive_in_nt_with_admin_rights(
                self.b_drive_num,
                attempt,
            ),
            Strategy::Smart => self.record.read_physical_drive_in_nt_using_smart(
                self.b_drive_num,
                attempt,
            ),
            Strategy::Zero => self.record.read_physical_drive_in_nt_with_zero_rights(
                self.b_drive_num,
                attempt,
            ),
        }
    }

    /// Steps the session on `event` and returns the action to take next.
    ///
    /// A handle that was opened starts its strategy, and one that was not is
    /// recorded as a skip. What the transport reports steps the strategy that
    /// runs. A strategy that has finished has its handle closed, and what it
    /// came to is recorded with the time that the close reports. Then the next
    /// strategy is tried, whether or not a serial number was found.
    pub fn step(&mut self, event: SessionEvent) -> (action: SessionAction)
        ensures
            (final(self)@, action@) == session_step(old(self)@, event),
    {
        match self.stage {
            SessionStage::Opening(strategy) => match event {
                SessionEvent::Opened => self.run(strategy, ControlEvent::Ready),
                _ => {
                    self.record(strategy, Attempt::Denied);
                    self.advance(strategy)
                },
            },
            SessionStage::Admin(_) => match event {
                SessionEvent::Control(control) => self.run(Strategy::Admin, control),
                _ => self.run(Strategy::Admin, ControlEvent::Ready),
            },
            SessionStage::Smart(_) => match event {
                SessionEvent::Control(control) => self.run(Strategy::Smart, control),
                _ => self.run(Strategy::Smart, ControlEvent::Ready),
            },
            SessionStage::Zero(_) => match event {
                SessionEvent::Control(control) => self.run(Strategy::Zero, control),
                _ => self.run(Strategy::Zero, ControlEvent::Ready),
            },
            SessionStage::AwaitingLastError => {
                let error_code = match event {
                    SessionEvent::LastError { error_code } => error_code,
                    _ => 0,
                };
                self.stage = SessionStage::Closing(Strategy::Admin);
                self.pending = Finding::NoData { error_code };
                SessionAction::Close
            },
            SessionStage::Closing(strategy) => {
                let mut finding = Finding::NoData { error_code: 0 };
                core::mem::swap(&mut self.pending, &mut finding);
                match event {
                    SessionEvent::Closed { elapsed } => {
                        self.record(strategy, Attempt::Ran { finding, elapsed });
                    },
                    _ => {
                        self.record.note(self.b_drive_num, strategy, finding);
                    },
                }
                self.advance(strategy)
            },
            SessionStage::Done => SessionAction::Done,
        }
    }
}

} // verus!
