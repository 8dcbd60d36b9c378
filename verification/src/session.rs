//! The presence session and the single shared slot that owns it.
//!
//! The slot holds at most one live session.  `take` and `replace` are its
//! only operations; the host serialises access to the one slot instance
//! behind a lock, so every access the library reasons about is exclusive.

use vstd::prelude::*;

verus! {

/// One live presence session: the resolved remote identity and an opaque
/// handle under which the host keeps the real connection.
pub struct Session {
    /// The application id the session was connected for.
    pub application_id: u64,
    /// Host-chosen token identifying the underlying connection.
    pub connection: u64,
    /// The resolved remote user identity.
    pub user: String,
}

/// The process-wide slot holding at most one session.  The host constructs
/// exactly one and passes it, behind its lock, to every command; the slot is
/// the only piece of shared mutable state in the subsystem.
pub struct ClientSlot {
    session: Option<Session>,
}

impl View for ClientSlot {
    type V = Option<Session>;

    closed spec fn view(&self) -> Option<Session> {
        self.session
    }
}

impl ClientSlot {
    /// Atomically removes and returns the current session, leaving the slot
    /// empty.  Used both to evict a session before a new connect and to
    /// seize one for teardown.
    pub fn take(&mut self) -> (r: Option<Session>)
        ensures
            r == old(self)@,
            final(self)@ is None,
    {
        self.session.take()
    }

    /// Atomically installs a new session.  Callers must have taken and
    /// closed any prior session first, or its connection is leaked.
    pub fn replace(&mut self, session: Session)
        ensures
            final(self)@ == Some(session),
    {
        self.session = Some(session);
    }

    /// Whether a session is currently installed.
    pub fn is_occupied(&self) -> (r: bool)
        ensures
            r == (self@ is Some),
    {
        self.session.is_some()
    }
}

/// Creates the shared slot, empty.  The host calls this once at startup and
/// owns the single instance for the life of the process.
pub fn get_discord_client() -> (r: ClientSlot)
    ensures
        r@ is None,
{
    ClientSlot { session: None }
}

/// One operation on the slot, for reasoning about histories of concurrent
/// slot accesses after the lock has linearised them into a sequence.
pub enum SlotOp {
    Take,
    Replace(Session),
}

/// The slot contents after a linearised sequence of operations.
pub open spec fn slot_after(init: Option<Session>, ops: Seq<SlotOp>) -> Option<Session>
    decreases ops.len(),
{
    if ops.len() == 0 {
        init
    } else {
        match ops.last() {
            SlotOp::Take => None,
            SlotOp::Replace(s) => Some(s),
        }
    }
}

/// What the operation at position `i` observes: the slot contents after the
/// operations before it.  A `take` returns exactly this value.
pub open spec fn observed(init: Option<Session>, ops: Seq<SlotOp>, i: int) -> Option<Session> {
    slot_after(init, ops.take(i))
}

/// Law: in any linearised history, two `take` operations never both observe
/// a non-empty slot unless a `replace` stands between them.  Stated
/// contrapositively: with no intervening `replace`, the later of two takes
/// observes an empty slot, so no two tasks can seize the same installed
/// session.
pub proof fn lemma_no_double_take(init: Option<Session>, ops: Seq<SlotOp>, i: int, j: int)
    requires
        0 <= i < j < ops.len(),
        ops[i] is Take,
        ops[j] is Take,
        forall|k: int| i < k < j ==> !(ops[k] is Replace),
    ensures
        observed(init, ops, j) is None,
{
    let before = ops.take(j);
    assert(before.last() == ops[j - 1]);
    if j - 1 == i {
        assert(ops[j - 1] is Take);
    } else {
        assert(i < j - 1 < j);
        assert(!(ops[j - 1] is Replace));
    }
}

/// Law, stated the other way round: if two `take` operations in one history
/// both observe a non-empty slot, some `replace` stands between them — the
/// two can never have seized the same installed session.
pub proof fn lemma_double_take_needs_replace(
    init: Option<Session>,
    ops: Seq<SlotOp>,
    i: int,
    j: int,
)
    requires
        0 <= i < j < ops.len(),
        ops[i] is Take,
        ops[j] is Take,
        observed(init, ops, i) is Some,
        observed(init, ops, j) is Some,
    ensures
        exists|k: int| i < k < j && (#[trigger] ops[k]) is Replace,
{
    if !(exists|k: int| i < k < j && (#[trigger] ops[k]) is Replace) {
        assert(forall|k: int| i < k < j ==> !((#[trigger] ops[k]) is Replace));
        lemma_no_double_take(init, ops, i, j);
    }
}

} // verus!
