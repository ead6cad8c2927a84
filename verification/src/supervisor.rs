//! The slot that holds the handle of the one listener that may be running.
//!
//! A switch to another stream takes the handle of the running listener out
//! of the slot, cancels it, starts a listener for the new stream and stores
//! its handle. The slot is not kept locked while the new listener starts, so
//! [`Supervisor::store`] hands back whatever it displaces: no handle leaves
//! the slot but into the hands of a caller, who cancels it.

use vstd::prelude::*;

verus! {

/// The handles, none or one, that a call hands back.
pub open spec fn handed_back<H>(handle: Option<H>) -> Seq<H> {
    match handle {
        Some(handle) => seq![handle],
        None => seq![],
    }
}

/// What a supervisor holds and what has passed through it.
pub struct Account<H> {
    /// The handle in the slot.
    pub slot: Option<H>,
    /// The handles stored so far, in the order of their storing.
    pub started: Seq<H>,
    /// The handles handed back so far, to be cancelled, in the order of
    /// their handing back.
    pub cancelled: Seq<H>,
}

impl<H> Account<H> {
    /// Every handle stored has been handed back, but for the one in the
    /// slot: at most one listener is left that nobody was asked to cancel.
    pub open spec fn balanced(self) -> bool {
        self.started == self.cancelled + handed_back(self.slot)
    }

    /// The account after the handle in the slot is taken out.
    pub open spec fn taken(self) -> Account<H> {
        Account {
            slot: None,
            started: self.started,
            cancelled: self.cancelled + handed_back(self.slot),
        }
    }

    /// The account after `handle` is stored.
    pub open spec fn stored(self, handle: H) -> Account<H> {
        Account {
            slot: Some(handle),
            started: self.started.push(handle),
            cancelled: self.cancelled + handed_back(self.slot),
        }
    }

    /// The account after one switch after the other has started the
    /// listeners `handles`, each switch taking out the running listener and
    /// then storing the new one.
    pub open spec fn switched(self, handles: Seq<H>) -> Account<H>
        decreases handles.len(),
    {
        if handles.len() == 0 {
            self
        } else {
            self.switched(handles.drop_last()).taken().stored(handles.last())
        }
    }
}

/// Holds the handle of the running listener, if there is one.
///
/// Besides the slot the supervisor keeps, in ghost state, the account of
/// every handle it was given and of every handle it handed back. The account
/// of a supervisor is balanced at all times.
pub struct Supervisor<H> {
    slot: Option<H>,
    started: Ghost<Seq<H>>,
    cancelled: Ghost<Seq<H>>,
}

impl<H> View for Supervisor<H> {
    type V = Account<H>;

    closed spec fn view(&self) -> Account<H> {
        Account { slot: self.slot, started: self.started@, cancelled: self.cancelled@ }
    }
}

impl<H> Supervisor<H> {
    #[verifier::type_invariant]
    spec fn inv(self) -> bool {
        self.started@ =~= self.cancelled@ + handed_back(self.slot)
    }

    /// A supervisor with no listener running.
    pub fn new() -> (supervisor: Self)
        ensures
            supervisor@ == (Account::<H> { slot: None, started: seq![], cancelled: seq![] }),
            supervisor@.balanced(),
    {
        Supervisor { slot: None, started: Ghost(Seq::empty()), cancelled: Ghost(Seq::empty()) }
    }

    /// Takes the handle of the running listener out of the slot, for the
    /// caller to cancel.
    pub fn take(&mut self) -> (running: Option<H>)
        ensures
            running == old(self)@.slot,
            final(self)@ == old(self)@.taken(),
            old(self)@.balanced(),
            final(self)@.balanced(),
    {
        proof {
            use_type_invariant(&*self);
        }
        // The slot and the account change in one step, so that the account
        // is balanced throughout.
        let mut taken = Supervisor {
            slot: None,
            started: Ghost(self.started@),
            cancelled: Ghost(self.started@),
        };
        std::mem::swap(self, &mut taken);
        taken.slot
    }

    /// Stores the handle of a listener that was just started, and hands back
    /// the handle it displaces, if any, for the caller to cancel.
    pub fn store(&mut self, handle: H) -> (displaced: Option<H>)
        ensures
            displaced == old(self)@.slot,
            final(self)@ == old(self)@.stored(handle),
            old(self)@.balanced(),
            final(self)@.balanced(),
    {
        proof {
            use_type_invariant(&*self);
        }
        let mut stored = Supervisor {
            slot: Some(handle),
            started: Ghost(self.started@.push(handle)),
            cancelled: Ghost(self.started@),
        };
        std::mem::swap(self, &mut stored);
        stored.slot
    }
}

/// Taking and storing keep a balanced account balanced.
pub proof fn balance_is_kept<H>(account: Account<H>, handle: H)
    requires
        account.balanced(),
    ensures
        account.taken().balanced(),
        account.stored(handle).balanced(),
{
    assert(account.taken().cancelled + handed_back(account.taken().slot) =~= account.started);
    assert(account.stored(handle).cancelled + handed_back(account.stored(handle).slot)
        =~= account.started.push(handle));
}

/// After one or more switches the slot holds the handle of the listener
/// started last, and every listener started before it, those from before the
/// switches too, has been handed back to be cancelled: at most one listener
/// is left that nobody was asked to cancel.
pub proof fn one_listener_survives<H>(account: Account<H>, handles: Seq<H>)
    requires
        account.balanced(),
        handles.len() >= 1,
    ensures
        account.switched(handles).slot == Some(handles.last()),
        account.switched(handles).started == account.started + handles,
        account.switched(handles).cancelled == account.started + handles.drop_last(),
        account.switched(handles).balanced(),
    decreases handles.len(),
{
    let earlier = handles.drop_last();
    let before = account.switched(earlier);
    let after = account.switched(handles);
    if earlier.len() == 0 {
        assert(account.started + earlier =~= account.started);
    } else {
        one_listener_survives(account, earlier);
        assert(earlier.drop_last().push(earlier.last()) =~= earlier);
    }
    assert(before.started =~= account.started + earlier);
    assert(before.cancelled + handed_back(before.slot) =~= before.started);
    assert(after.started =~= account.started + handles);
    assert(after.cancelled =~= account.started + earlier);
    assert(after.cancelled + handed_back(after.slot) =~= after.started);
}

} // verus!
