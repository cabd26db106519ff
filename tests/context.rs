use modbus_slave::context::{ContextError, ReconnectError, SharedContext};
use modbus_slave::slave::{Slave, SlaveContext};

#[derive(Debug, PartialEq)]
struct Conn {
    id: u32,
}

#[test]
fn fresh_context_is_disconnected() {
    let ctx: SharedContext<Conn> = SharedContext::new();
    assert!(!ctx.is_connected());
    assert!(ctx.share().is_none());
    assert!(!ctx.is_leased());
}

#[test]
fn successful_reconnect_routes_to_new_connection() {
    let mut ctx: SharedContext<Conn> = SharedContext::new();
    assert_eq!(ctx.begin_reconnect(), Ok(()));
    assert_eq!(ctx.finish_reconnect::<String>(Ok(Conn { id: 1 }), Slave(1)), Ok(()));
    assert!(ctx.is_connected());
    assert_eq!(ctx.share(), Some(&Conn { id: 1 }));
    assert_eq!(ctx.begin_reconnect(), Ok(()));
    assert!(!ctx.is_connected());
    assert_eq!(ctx.finish_reconnect::<String>(Ok(Conn { id: 2 }), Slave(1)), Ok(()));
    assert_eq!(ctx.share(), Some(&Conn { id: 2 }));
}

#[test]
fn failed_reconnect_discards_old_connection() {
    let mut ctx: SharedContext<Conn> = SharedContext::new();
    ctx.begin_reconnect().unwrap();
    ctx.finish_reconnect::<String>(Ok(Conn { id: 1 }), Slave(1)).unwrap();
    assert!(ctx.is_connected());
    ctx.begin_reconnect().unwrap();
    let r = ctx.finish_reconnect(Err("refused".to_string()), Slave(1));
    assert_eq!(r, Err(ReconnectError::Connect("refused".to_string())));
    assert!(!ctx.is_connected());
    assert!(ctx.share().is_none());
    // A fresh attempt after a failure is independent of it.
    ctx.begin_reconnect().unwrap();
    ctx.finish_reconnect::<String>(Ok(Conn { id: 3 }), Slave(1)).unwrap();
    assert_eq!(ctx.share(), Some(&Conn { id: 3 }));
}

#[test]
fn sequential_leases_route_independently() {
    let mut ctx: SharedContext<Conn> = SharedContext::new();
    ctx.begin_reconnect().unwrap();
    ctx.finish_reconnect::<String>(Ok(Conn { id: 1 }), Slave::broadcast()).unwrap();

    let mut first = ctx.lease().unwrap();
    first.set_slave(Slave(1));
    let in_flight = first.target();
    assert_eq!(first.connection.id, 1);
    assert!(ctx.release(first).is_ok());

    let mut second = ctx.lease().unwrap();
    assert_eq!(second.target(), Slave(1));
    second.set_target(Slave(2));
    assert_eq!(second.target(), Slave(2));
    assert_eq!(in_flight, Slave(1));
    assert!(ctx.release(second).is_ok());
}

#[test]
fn second_lease_is_refused() {
    let mut ctx: SharedContext<Conn> = SharedContext::new();
    assert_eq!(ctx.lease().err(), Some(ContextError::NotConnected));
    ctx.begin_reconnect().unwrap();
    ctx.finish_reconnect::<String>(Ok(Conn { id: 1 }), Slave(1)).unwrap();
    let lease = ctx.lease().unwrap();
    assert!(ctx.is_leased());
    assert!(ctx.is_connected());
    assert!(ctx.share().is_none());
    assert_eq!(ctx.lease().err(), Some(ContextError::Busy));
    assert_eq!(ctx.begin_reconnect(), Err(ContextError::Busy));
    assert!(ctx.release(lease).is_ok());
    assert!(ctx.lease().is_ok());
}

#[test]
fn release_of_a_foreign_lease_is_refused() {
    let mut ctx: SharedContext<Conn> = SharedContext::new();
    ctx.begin_reconnect().unwrap();
    ctx.finish_reconnect::<String>(Ok(Conn { id: 1 }), Slave(1)).unwrap();
    let own = ctx.lease().unwrap();
    assert!(ctx.release(own).is_ok());

    let mut other: SharedContext<Conn> = SharedContext::new();
    other.begin_reconnect().unwrap();
    other.finish_reconnect::<String>(Ok(Conn { id: 9 }), Slave(1)).unwrap();
    let stray = other.lease().unwrap();
    // ctx holds no lease: the stray lease comes back unchanged.
    let back = match ctx.release(stray) {
        Ok(()) => panic!("a foreign lease was accepted"),
        Err(back) => back,
    };
    assert_eq!(back.connection, Conn { id: 9 });
    assert_eq!(ctx.share(), Some(&Conn { id: 1 }));
    assert!(other.release(back).is_ok());
    assert_eq!(other.share(), Some(&Conn { id: 9 }));
}

#[test]
fn stale_lease_is_refused_after_abandon() {
    let mut ctx: SharedContext<Conn> = SharedContext::new();
    assert_eq!(ctx.abandon_lease(), Err(ContextError::NotLeased));
    ctx.begin_reconnect().unwrap();
    ctx.finish_reconnect::<String>(Ok(Conn { id: 1 }), Slave(1)).unwrap();
    let lost = ctx.lease().unwrap();
    assert_eq!(ctx.abandon_lease(), Ok(()));
    assert!(!ctx.is_connected());
    ctx.begin_reconnect().unwrap();
    ctx.finish_reconnect::<String>(Ok(Conn { id: 2 }), Slave(1)).unwrap();
    let current = ctx.lease().unwrap();
    assert!(ctx.release(lost).is_err());
    assert!(ctx.is_leased());
    assert!(ctx.release(current).is_ok());
    assert_eq!(ctx.share(), Some(&Conn { id: 2 }));
}

#[test]
fn reconnect_finishing_during_a_lease_is_refused() {
    let mut ctx: SharedContext<Conn> = SharedContext::new();
    ctx.begin_reconnect().unwrap();
    ctx.finish_reconnect::<String>(Ok(Conn { id: 1 }), Slave(1)).unwrap();
    let lease = ctx.lease().unwrap();
    let r = ctx.finish_reconnect::<String>(Ok(Conn { id: 2 }), Slave(1));
    assert_eq!(r, Err(ReconnectError::Busy));
    assert!(ctx.release(lease).is_ok());
    assert_eq!(ctx.share(), Some(&Conn { id: 1 }));
    // A second connection stored meanwhile is replaced by the later one.
    ctx.begin_reconnect().unwrap();
    ctx.finish_reconnect::<String>(Ok(Conn { id: 3 }), Slave(1)).unwrap();
    ctx.finish_reconnect::<String>(Ok(Conn { id: 4 }), Slave(1)).unwrap();
    assert_eq!(ctx.share(), Some(&Conn { id: 4 }));
}
