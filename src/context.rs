use vstd::prelude::*;
use crate::slave::{Slave, SlaveContext};

verus! {

/// Why the context refused an operation.
#[derive(Debug, Clone, Copy, PartialEq, Eq, Structural)]
pub enum ContextError {
    /// No live connection is held.
    NotConnected,
    /// The connection is out on a lease.
    Busy,
    /// No lease is outstanding.
    NotLeased,
}

/// Why a reconnect did not leave a new connection in the slot.
#[derive(Debug, PartialEq, Eq)]
pub enum ReconnectError<E> {
    /// Meanwhile the slot's connection went out on a lease; the new
    /// connection was dropped.
    Busy,
    /// The attempt to connect failed.
    Connect(E),
}

/// What the context holds.
pub enum ContextState<C> {
    /// No live connection: never connected, or discarded for a reconnect.
    Disconnected,
    /// One live connection in the slot, with the slave address it routes to.
    Idle(C, Slave),
    /// The one live connection is out on an exclusive lease.
    Leased,
}

pub open spec fn is_connected_state<C>(s: ContextState<C>) -> bool {
    !(s is Disconnected)
}

/// The connection that a shared handle reaches.
pub open spec fn shared_connection<C>(s: ContextState<C>) -> Option<C> {
    match s {
        ContextState::Idle(c, _) => Some(c),
        _ => None,
    }
}

/// The first half of a reconnect: a held connection is dropped, unless it is
/// out on a lease, in which case nothing changes.
pub open spec fn begin_reconnect_step<C>(s: ContextState<C>) -> ContextState<C> {
    match s {
        ContextState::Leased => s,
        _ => ContextState::Disconnected,
    }
}

/// The second half of a reconnect: the outcome of one attempt to connect
/// takes the slot, in place of whatever another reconnect put there
/// meanwhile, unless the slot's connection is out on a lease.
pub open spec fn finish_reconnect_step<C, E>(
    s: ContextState<C>,
    attempt: Result<C, E>,
    target: Slave,
) -> ContextState<C> {
    match s {
        ContextState::Leased => s,
        _ => match attempt {
            Ok(c) => ContextState::Idle(c, target),
            Err(_) => ContextState::Disconnected,
        },
    }
}

/// The ticket of the next lease.
pub open spec fn next_ticket(t: u64) -> u64 {
    if t == u64::MAX {
        0
    } else {
        (t + 1) as u64
    }
}

/// A context that was just made is not connected, and no shared handle
/// reaches a connection.
pub proof fn lemma_fresh_context_disconnected<C>(s: ContextState<C>)
    requires
        s is Disconnected,
    ensures
        !is_connected_state(s),
        shared_connection(s) is None,
{
}

/// After a reconnect whose attempt succeeded the context is connected, and
/// shared handles reach the new connection, whatever was held before.
pub proof fn lemma_successful_reconnect<C, E>(s: ContextState<C>, c: C, target: Slave)
    requires
        !(s is Leased),
    ensures
        begin_reconnect_step(s) is Disconnected,
        is_connected_state(
            finish_reconnect_step::<C, E>(begin_reconnect_step(s), Ok(c), target),
        ),
        shared_connection(finish_reconnect_step::<C, E>(begin_reconnect_step(s), Ok(c), target))
            == Some(c),
{
}

/// After a reconnect whose attempt failed the context is disconnected, also
/// where it held a connection before: the old one was dropped first.
pub proof fn lemma_failed_reconnect<C, E>(s: ContextState<C>, e: E, target: Slave)
    requires
        !(s is Leased),
    ensures
        begin_reconnect_step(s) is Disconnected,
        !is_connected_state(
            finish_reconnect_step::<C, E>(begin_reconnect_step(s), Err(e), target),
        ),
        shared_connection(finish_reconnect_step::<C, E>(begin_reconnect_step(s), Err(e), target))
            is None,
{
}

/// A context that holds at most one live connection and replaces it on
/// demand: the old connection is dropped before a new one is attempted.
pub struct SharedContext<C> {
    state: ContextState<C>,
    ticket: u64,
}

impl<C> View for SharedContext<C> {
    type V = ContextState<C>;

    closed spec fn view(&self) -> ContextState<C> {
        self.state
    }
}

/// Exclusive use of the live connection for the requests of one caller.
pub struct Lease<C> {
    /// The connection on which requests are issued while the lease lasts.
    pub connection: C,
    slave: Slave,
    ticket: u64,
}

impl<C> Lease<C> {
    /// The leased connection.
    pub closed spec fn connection_spec(&self) -> C {
        self.connection
    }

    /// The slave address that the next request goes to.
    pub closed spec fn target_spec(&self) -> Slave {
        self.slave
    }

    /// The ticket of the lease, which the context checks when it is handed
    /// back.
    pub closed spec fn ticket_spec(&self) -> u64 {
        self.ticket
    }

    /// The slave address that the next request goes to.
    pub fn target(&self) -> (r: Slave)
        ensures
            r == self.target_spec(),
    {
        self.slave
    }

    /// Routes the next requests on this lease to `slave`.
    pub fn set_target(&mut self, slave: Slave)
        ensures
            final(self).target_spec() == slave,
            final(self).connection_spec() == old(self).connection_spec(),
            final(self).ticket_spec() == old(self).ticket_spec(),
    {
        self.slave = slave;
    }
}

impl<C> SlaveContext for Lease<C> {
    fn set_slave(&mut self, slave: Slave)
        ensures
            final(self).target_spec() == slave,
            final(self).connection_spec() == old(self).connection_spec(),
            final(self).ticket_spec() == old(self).ticket_spec(),
    {
        self.set_target(slave);
    }
}

impl<C> SharedContext<C> {
    /// The ticket of the last lease that was handed out.
    pub closed spec fn ticket(&self) -> u64 {
        self.ticket
    }

    /// A context that holds no connection yet.
    pub fn new() -> (r: Self)
        ensures
            r@ is Disconnected,
    {
        SharedContext { state: ContextState::Disconnected, ticket: 0 }
    }

    pub fn is_connected(&self) -> (r: bool)
        ensures
            r == is_connected_state(self@),
    {
        match &self.state {
            ContextState::Disconnected => false,
            _ => true,
        }
    }

    pub fn is_leased(&self) -> (r: bool)
        ensures
            r == self@ is Leased,
    {
        match &self.state {
            ContextState::Leased => true,
            _ => false,
        }
    }

    /// The live connection while it is in the slot; none while the context
    /// is disconnected or the connection is out on a lease.
    pub fn share(&self) -> (r: Option<&C>)
        ensures
            r is Some <==> shared_connection(self@) is Some,
            r matches Some(c) ==> shared_connection(self@) == Some(*c),
    {
        match &self.state {
            ContextState::Idle(c, _) => Some(c),
            _ => None,
        }
    }

    /// Drops the held connection before a new one is attempted; refused
    /// while the connection is out on a lease.
    pub fn begin_reconnect(&mut self) -> (r: Result<(), ContextError>)
        ensures
            final(self)@ == begin_reconnect_step(old(self)@),
            final(self).ticket() == old(self).ticket(),
            r is Err <==> old(self)@ is Leased,
            r matches Err(e) ==> e == ContextError::Busy,
    {
        match &self.state {
            ContextState::Leased => Err(ContextError::Busy),
            _ => {
                self.state = ContextState::Disconnected;
                Ok(())
            },
        }
    }

    /// Stores the connection that an attempt produced, routed to `target`,
    /// in place of any that another reconnect stored meanwhile. After a
    /// failed attempt the context is disconnected and the failure is handed
    /// back. While the slot's connection is out on a lease nothing changes
    /// and the new connection is dropped.
    pub fn finish_reconnect<E>(&mut self, attempt: Result<C, E>, target: Slave) -> (r: Result<
        (),
        ReconnectError<E>,
    >)
        ensures
            final(self)@ == finish_reconnect_step(old(self)@, attempt, target),
            final(self).ticket() == old(self).ticket(),
            r is Ok <==> !(old(self)@ is Leased) && attempt is Ok,
            old(self)@ is Leased ==> r matches Err(ReconnectError::Busy),
            !(old(self)@ is Leased) && attempt is Err ==> (r matches Err(ReconnectError::Connect(e))
                && attempt == Err::<C, E>(e)),
    {
        match &self.state {
            ContextState::Leased => Err(ReconnectError::Busy),
            _ => match attempt {
                Ok(c) => {
                    self.state = ContextState::Idle(c, target);
                    Ok(())
                },
                Err(e) => {
                    self.state = ContextState::Disconnected;
                    Err(ReconnectError::Connect(e))
                },
            },
        }
    }

    /// Takes the live connection out for exclusive use, under a new ticket;
    /// refused while the context is disconnected or another lease is
    /// outstanding.
    pub fn lease(&mut self) -> (r: Result<Lease<C>, ContextError>)
        ensures
            old(self)@ is Disconnected ==> r == Err::<Lease<C>, ContextError>(
                ContextError::NotConnected,
            ),
            old(self)@ is Leased ==> r == Err::<Lease<C>, ContextError>(ContextError::Busy),
            r is Err ==> final(self)@ == old(self)@ && final(self).ticket() == old(self).ticket(),
            old(self)@ is Idle <==> r is Ok,
            r matches Ok(l) ==> old(self)@ == ContextState::Idle(l.connection_spec(), l.target_spec())
                && final(self)@ is Leased && final(self).ticket() == next_ticket(old(self).ticket())
                && l.ticket_spec() == final(self).ticket(),
    {
        let mut state = ContextState::Leased;
        core::mem::swap(&mut state, &mut self.state);
        match state {
            ContextState::Idle(connection, slave) => {
                self.ticket = if self.ticket == u64::MAX {
                    0
                } else {
                    self.ticket + 1
                };
                Ok(Lease { connection, slave, ticket: self.ticket })
            },
            ContextState::Disconnected => {
                self.state = ContextState::Disconnected;
                Err(ContextError::NotConnected)
            },
            ContextState::Leased => Err(ContextError::Busy),
        }
    }

    /// Puts a leased connection back in the slot, with the slave address that
    /// the lease last routed to. A lease that is not this context's
    /// outstanding one is handed back unchanged.
    pub fn release(&mut self, lease: Lease<C>) -> (r: Result<(), Lease<C>>)
        ensures
            r is Ok <==> old(self)@ is Leased && lease.ticket_spec() == old(self).ticket(),
            r is Ok ==> final(self)@ == ContextState::Idle(
                lease.connection_spec(),
                lease.target_spec(),
            ),
            r matches Err(l) ==> l == lease && final(self)@ == old(self)@,
            final(self).ticket() == old(self).ticket(),
    {
        match &self.state {
            ContextState::Leased => {
                if lease.ticket == self.ticket {
                    self.state = ContextState::Idle(lease.connection, lease.slave);
                    Ok(())
                } else {
                    Err(lease)
                }
            },
            _ => Err(lease),
        }
    }

    /// Gives up on an outstanding lease that will not come back: its
    /// connection is taken as lost and the context becomes disconnected,
    /// ready for a reconnect. A late return of that lease is refused.
    pub fn abandon_lease(&mut self) -> (r: Result<(), ContextError>)
        ensures
            r is Ok <==> old(self)@ is Leased,
            r is Ok ==> final(self)@ is Disconnected,
            r matches Err(e) ==> e == ContextError::NotLeased && final(self)@ == old(self)@,
            final(self).ticket() == old(self).ticket(),
    {
        match &self.state {
            ContextState::Leased => {
                self.state = ContextState::Disconnected;
                Ok(())
            },
            _ => Err(ContextError::NotLeased),
        }
    }
}

} // verus!
