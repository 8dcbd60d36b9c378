//! The connect/disconnect lifecycle: decode, evict, announce, install,
//! tear down.  The host spawns the asynchronous task and delivers the
//! disconnect signal; every decision about slot contents and events is made
//! here, and the race between the two disconnect listeners is proved safe
//! for both orders.

use vstd::prelude::*;

use crate::activity::ActivityDescriptor;
use crate::activity::create_activity;
use crate::activity::create_model;
use crate::errors::DecodeError;
use crate::events::Event;
use crate::events::EventKind;
use crate::session::ClientSlot;
use crate::session::Session;

verus! {

/// Phase of the in-flight connect task.
#[derive(Clone, Copy, Debug, PartialEq, Eq, Structural)]
pub enum TaskPhase {
    /// Spawned, connection not yet installed.
    Pending,
    /// The session was installed in the slot.
    Installed,
    /// Cancelled before it could install.
    Aborted,
}

/// Combined model of the lifecycle: the slot contents and the task phase.
pub struct LifeModel {
    pub slot: Option<Session>,
    pub phase: TaskPhase,
}

/// The outer disconnect listener: cancel the task if it has not completed.
/// Cancelling a completed task is a no-op.
pub open spec fn step_cancel(m: LifeModel) -> LifeModel {
    if m.phase is Pending {
        LifeModel { phase: TaskPhase::Aborted, ..m }
    } else {
        m
    }
}

/// The connect task reaching its installation step: only a still-pending
/// task installs its session.
pub open spec fn step_install(m: LifeModel, s: Session) -> LifeModel {
    if m.phase is Pending {
        LifeModel { slot: Some(s), phase: TaskPhase::Installed }
    } else {
        m
    }
}

/// The inner disconnect listener: seize the slot; whatever was installed is
/// handed back for closing.  Seizing an empty slot is a no-op.
pub open spec fn step_teardown(m: LifeModel) -> (LifeModel, Option<Session>) {
    (LifeModel { slot: None, ..m }, m.slot)
}

/// Law: if the disconnect signal fires before the connect task installs its
/// session, then whichever listener wins the race, the lifecycle ends idle:
/// the slot stays empty, nothing needs closing, and the cancelled task can
/// no longer install.
pub proof fn lemma_disconnect_before_install(m: LifeModel, s: Session)
    requires
        m.slot is None,
        m.phase is Pending,
    ensures
        ({
            let a1 = step_cancel(m);
            let (a2, closed_a) = step_teardown(a1);
            &&& a2.slot is None
            &&& closed_a is None
            &&& step_install(a2, s) == a2
        }),
        ({
            let (b1, closed_b) = step_teardown(m);
            let b2 = step_cancel(b1);
            &&& b2.slot is None
            &&& closed_b is None
            &&& step_install(b2, s) == b2
        }),
{
}

/// Law: if the disconnect signal fires after the session was installed,
/// then whichever listener runs first, the installed session is the one
/// handed back for closing and the slot ends empty.
pub proof fn lemma_disconnect_after_install(m: LifeModel, s: Session)
    requires
        m.phase is Installed,
        m.slot == Some(s),
    ensures
        ({
            let a1 = step_cancel(m);
            let (a2, closed_a) = step_teardown(a1);
            &&& closed_a == Some(s)
            &&& a2.slot is None
        }),
        ({
            let (b1, closed_b) = step_teardown(m);
            let b2 = step_cancel(b1);
            &&& closed_b == Some(s)
            &&& b2.slot is None
        }),
{
}

/// Everything the host needs to run a connect attempt: the validated
/// descriptor, the id, the session evicted from the slot (to be closed),
/// and the event announcing the attempt.
pub struct ConnectStart {
    pub descriptor: ActivityDescriptor,
    pub app_id: u64,
    pub evicted: Option<Session>,
    pub connecting: Event,
}

/// The connect command: decodes the payload, evicts any current session
/// from the slot, and announces the attempt.  On a decode failure the
/// command returns the error synchronously and the slot is untouched; no
/// event is emitted.  The host closes `evicted`, publishes `connecting`,
/// and spawns the task that builds the connection.  The `action` string
/// rides along from the UI for process titling and is otherwise inert
/// here.
pub fn connect_command(slot: &mut ClientSlot, activity_json: String, action: String) -> (r: Result<
    ConnectStart,
    DecodeError,
>)
    ensures
        match r {
            Ok(cs) => {
                &&& create_model(activity_json@) == Ok::<(crate::activity::DescriptorModel, int), DecodeError>(
                    (cs.descriptor@, cs.app_id as int),
                )
                &&& cs.evicted == old(slot)@
                &&& final(slot)@ is None
                &&& cs.connecting == (Event {
                    kind: EventKind::ClientConnecting,
                    application_id: cs.app_id,
                })
            },
            Err(e) => {
                &&& create_model(activity_json@) == Err::<(crate::activity::DescriptorModel, int), DecodeError>(e)
                &&& final(slot)@ == old(slot)@
            },
        },
{
    let _ = action;
    let created = match create_activity(activity_json) {
        Err(e) => {
            return Err(e);
        },
        Ok(c) => c,
    };
    let evicted = slot.take();
    let connecting = Event { kind: EventKind::ClientConnecting, application_id: created.app_id };
    Ok(
        ConnectStart {
            descriptor: created.activity,
            app_id: created.app_id,
            evicted,
            connecting,
        },
    )
}

/// The successful end of the connect task: installs the new session and
/// announces it.  The `connected` event is only produced once the slot
/// holds the session.
pub fn on_connect_success(slot: &mut ClientSlot, session: Session) -> (ev: Event)
    ensures
        final(slot)@ == Some(session),
        ev == (Event {
            kind: EventKind::ClientConnected,
            application_id: session.application_id,
        }),
{
    let application_id = session.application_id;
    slot.replace(session);
    Event { kind: EventKind::ClientConnected, application_id }
}

/// The inner disconnect listener: seizes the slot and hands back whatever
/// session was installed, for the host to close.  Seizing an empty slot is
/// a no-op, exactly as `step_teardown` describes for every task phase.
pub fn on_disconnect_signal(slot: &mut ClientSlot) -> (r: Option<Session>)
    ensures
        r == old(slot)@,
        final(slot)@ is None,
        forall|p: TaskPhase|
            #[trigger] step_teardown(LifeModel { slot: old(slot)@, phase: p }) == (
            LifeModel { slot: final(slot)@, phase: p },
            r,
            ),
{
    slot.take()
}

} // verus!
