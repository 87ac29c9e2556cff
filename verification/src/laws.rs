//! What holds of every enumeration and every lookup, whatever the platform.

use crate::engine::{
    enumerate, find_process, find_process_from, is_on, listener_for, process_for, push_unique,
    Correlation, Endpoint, Resolution,
};
use crate::model::{ListenerView, ProcessView, Protocol, SocketAddr};
use crate::{ports_of_name, ports_of_pid, ports_where, processes_on_port, Snapshot};
use vstd::prelude::*;

verus! {

/// A listener is enumerated exactly if some endpoint stands for it.
pub proof fn lemma_enumerate_contains(
    eps: Seq<Endpoint>,
    corr: Correlation,
    procs: Map<u32, Resolution>,
    l: ListenerView,
)
    ensures
        enumerate(eps, corr, procs).contains(l) <==> exists|i: int|
            0 <= i < eps.len() && #[trigger] listener_for(eps[i], corr, procs) == Some(l),
    decreases eps.len(),
{
    if eps.len() == 0 {
        assert(!enumerate(eps, corr, procs).contains(l));
    } else {
        let init = eps.drop_last();
        let before = enumerate(init, corr, procs);
        lemma_enumerate_contains(init, corr, procs, l);
        let last = listener_for(eps.last(), corr, procs);
        if enumerate(eps, corr, procs).contains(l) {
            if before.contains(l) {
                let i = choose|i: int|
                    0 <= i < init.len() && #[trigger] listener_for(init[i], corr, procs) == Some(
                        l,
                    );
                assert(init[i] == eps[i]);
                assert(listener_for(eps[i], corr, procs) == Some(l));
            } else {
                assert(last is Some);
                let x = last->0;
                let k = choose|k: int|
                    0 <= k < push_unique(before, x).len() && push_unique(before, x)[k] == l;
                if k < before.len() {
                    assert(before[k] == l);
                    assert(before.contains(l));
                }
                assert(x == l);
                assert(listener_for(eps[eps.len() - 1], corr, procs) == Some(l));
            }
        }
        if exists|i: int|
            0 <= i < eps.len() && #[trigger] listener_for(eps[i], corr, procs) == Some(l) {
            let i = choose|i: int|
                0 <= i < eps.len() && #[trigger] listener_for(eps[i], corr, procs) == Some(l);
            if i < init.len() {
                assert(init[i] == eps[i]);
                assert(before.contains(l));
                let k = choose|k: int| 0 <= k < before.len() && before[k] == l;
                assert(enumerate(eps, corr, procs)[k] == l);
            } else {
                assert(last == Some(l));
                if before.contains(l) {
                    let k = choose|k: int| 0 <= k < before.len() && before[k] == l;
                    assert(enumerate(eps, corr, procs)[k] == l);
                } else {
                    assert(before.push(l)[before.len() as int] == l);
                }
            }
        }
    }
}

/// Set semantics: no listener is enumerated twice.
pub proof fn lemma_enumerate_no_duplicates(
    eps: Seq<Endpoint>,
    corr: Correlation,
    procs: Map<u32, Resolution>,
)
    ensures
        enumerate(eps, corr, procs).no_duplicates(),
    decreases eps.len(),
{
    if eps.len() > 0 {
        lemma_enumerate_no_duplicates(eps.drop_last(), corr, procs);
    }
}

/// Every enumerated listener has a PID above zero, a name that is not empty,
/// and the address, port and protocol of an endpoint that was handed in.
pub proof fn lemma_enumerate_sound(
    eps: Seq<Endpoint>,
    corr: Correlation,
    procs: Map<u32, Resolution>,
    l: ListenerView,
)
    requires
        enumerate(eps, corr, procs).contains(l),
    ensures
        l.process.pid > 0,
        l.process.name.len() > 0,
        exists|i: int|
            0 <= i < eps.len() && (#[trigger] eps[i]).local_addr == l.socket.ip
                && eps[i].local_port == l.socket.port && eps[i].protocol == l.protocol,
{
    lemma_enumerate_contains(eps, corr, procs, l);
    let i = choose|i: int|
        0 <= i < eps.len() && #[trigger] listener_for(eps[i], corr, procs) == Some(l);
    assert(eps[i].local_addr == l.socket.ip);
}

/// Set semantics by key: two enumerated listeners with the same PID, socket
/// and protocol are one listener.
pub proof fn lemma_enumerate_unique_by_key(
    eps: Seq<Endpoint>,
    corr: Correlation,
    procs: Map<u32, Resolution>,
    i: int,
    j: int,
)
    requires
        0 <= i < enumerate(eps, corr, procs).len(),
        0 <= j < enumerate(eps, corr, procs).len(),
        enumerate(eps, corr, procs)[i].process.pid == enumerate(eps, corr, procs)[j].process.pid,
        enumerate(eps, corr, procs)[i].socket == enumerate(eps, corr, procs)[j].socket,
        enumerate(eps, corr, procs)[i].protocol == enumerate(eps, corr, procs)[j].protocol,
    ensures
        i == j,
{
    let all = enumerate(eps, corr, procs);
    lemma_enumerate_no_duplicates(eps, corr, procs);
    lemma_enumerate_contains(eps, corr, procs, all[i]);
    lemma_enumerate_contains(eps, corr, procs, all[j]);
    assert(all.contains(all[i]));
    assert(all.contains(all[j]));
    assert(all[i].process == all[j].process);
    assert(all[i] == all[j]);
}

/// Completeness: an endpoint whose owner resolves is enumerated, with its
/// own address, port and protocol.
pub proof fn lemma_enumerate_complete(
    eps: Seq<Endpoint>,
    corr: Correlation,
    procs: Map<u32, Resolution>,
    i: int,
)
    requires
        0 <= i < eps.len(),
        process_for(eps[i], corr, procs) is Some,
    ensures
        enumerate(eps, corr, procs).contains(
            ListenerView {
                process: process_for(eps[i], corr, procs)->0,
                socket: SocketAddr { ip: eps[i].local_addr, port: eps[i].local_port },
                protocol: eps[i].protocol,
            },
        ),
{
    let l = listener_for(eps[i], corr, procs)->0;
    lemma_enumerate_contains(eps, corr, procs, l);
}

/// Protocol discrimination: a port bound under TCP and under UDP, each by a
/// process that resolves, is enumerated twice, once under each protocol.
pub proof fn lemma_enumerate_discriminates_protocols(
    eps: Seq<Endpoint>,
    corr: Correlation,
    procs: Map<u32, Resolution>,
    i: int,
    j: int,
)
    requires
        0 <= i < eps.len(),
        0 <= j < eps.len(),
        eps[i].local_port == eps[j].local_port,
        eps[i].protocol == Protocol::TCP,
        eps[j].protocol == Protocol::UDP,
        process_for(eps[i], corr, procs) is Some,
        process_for(eps[j], corr, procs) is Some,
    ensures
        exists|a: int, b: int|
            0 <= a < enumerate(eps, corr, procs).len() && 0 <= b < enumerate(
                eps,
                corr,
                procs,
            ).len() && a != b && (#[trigger] enumerate(eps, corr, procs)[a]).protocol
                == Protocol::TCP && (#[trigger] enumerate(eps, corr, procs)[b]).protocol
                == Protocol::UDP && enumerate(eps, corr, procs)[a].socket.port
                == eps[i].local_port && enumerate(eps, corr, procs)[b].socket.port
                == eps[i].local_port,
{
    let all = enumerate(eps, corr, procs);
    lemma_enumerate_complete(eps, corr, procs, i);
    lemma_enumerate_complete(eps, corr, procs, j);
    let li = listener_for(eps[i], corr, procs)->0;
    let lj = listener_for(eps[j], corr, procs)->0;
    let a = choose|a: int| 0 <= a < all.len() && all[a] == li;
    let b = choose|b: int| 0 <= b < all.len() && all[b] == lj;
    assert(all[a].protocol == Protocol::TCP && all[b].protocol == Protocol::UDP);
}

/// What a lookup from position `i` on returns: the owner of the first
/// endpoint bound to the port under the protocol whose owner resolves.
pub proof fn lemma_find_process_from(
    eps: Seq<Endpoint>,
    corr: Correlation,
    procs: Map<u32, Resolution>,
    port: u16,
    protocol: Protocol,
    i: int,
)
    requires
        0 <= i <= eps.len(),
    ensures
        match find_process_from(eps, corr, procs, port, protocol, i) {
            Some(p) => exists|k: int|
                i <= k < eps.len() && is_on(#[trigger] eps[k], port, protocol) && process_for(
                    eps[k],
                    corr,
                    procs,
                ) == Some(p),
            None => forall|k: int|
                i <= k < eps.len() ==> !(is_on(#[trigger] eps[k], port, protocol) && process_for(
                    eps[k],
                    corr,
                    procs,
                ) is Some),
        },
    decreases eps.len() - i,
{
    if i < eps.len() {
        if is_on(eps[i], port, protocol) && process_for(eps[i], corr, procs) is Some {
        } else {
            lemma_find_process_from(eps, corr, procs, port, protocol, i + 1);
        }
    }
}

/// A lookup that succeeds returns the process of an enumerated listener on
/// that port and protocol.
pub proof fn lemma_found_is_enumerated(
    eps: Seq<Endpoint>,
    corr: Correlation,
    procs: Map<u32, Resolution>,
    port: u16,
    protocol: Protocol,
)
    requires
        find_process(eps, corr, procs, port, protocol) is Some,
    ensures
        exists|k: int|
            0 <= k < enumerate(eps, corr, procs).len() && (#[trigger] enumerate(
                eps,
                corr,
                procs,
            )[k]).process == find_process(eps, corr, procs, port, protocol)->0 && enumerate(
                eps,
                corr,
                procs,
            )[k].socket.port == port && enumerate(eps, corr, procs)[k].protocol == protocol,
{
    lemma_find_process_from(eps, corr, procs, port, protocol, 0);
    let p = find_process(eps, corr, procs, port, protocol)->0;
    let i = choose|i: int|
        0 <= i < eps.len() && is_on(#[trigger] eps[i], port, protocol) && process_for(
            eps[i],
            corr,
            procs,
        ) == Some(p);
    lemma_enumerate_complete(eps, corr, procs, i);
    let all = enumerate(eps, corr, procs);
    let l = listener_for(eps[i], corr, procs)->0;
    let k = choose|k: int| 0 <= k < all.len() && all[k] == l;
    assert(all[k].process == p);
}

/// Negative lookup: a lookup finds nothing exactly if no enumerated listener
/// is on that port under that protocol.
pub proof fn lemma_not_found_iff_absent(
    eps: Seq<Endpoint>,
    corr: Correlation,
    procs: Map<u32, Resolution>,
    port: u16,
    protocol: Protocol,
)
    ensures
        find_process(eps, corr, procs, port, protocol) is None <==> forall|k: int|
            0 <= k < enumerate(eps, corr, procs).len() ==> !((#[trigger] enumerate(
                eps,
                corr,
                procs,
            )[k]).socket.port == port && enumerate(eps, corr, procs)[k].protocol == protocol),
{
    let all = enumerate(eps, corr, procs);
    lemma_find_process_from(eps, corr, procs, port, protocol, 0);
    if find_process(eps, corr, procs, port, protocol) is Some {
        lemma_found_is_enumerated(eps, corr, procs, port, protocol);
    } else {
        assert forall|k: int| 0 <= k < all.len() implies !((#[trigger] all[k]).socket.port == port
            && all[k].protocol == protocol) by {
            assert(all.contains(all[k]));
            lemma_enumerate_contains(eps, corr, procs, all[k]);
            let i = choose|i: int|
                0 <= i < eps.len() && #[trigger] listener_for(eps[i], corr, procs) == Some(
                    all[k],
                );
            assert(process_for(eps[i], corr, procs) is Some);
            assert(!is_on(eps[i], port, protocol));
        }
    }
}

/// Round trip: looking up the port and protocol of an enumerated listener
/// finds a process, and it is that listener's process whenever every
/// enumerated listener on that port and protocol belongs to one process.
pub proof fn lemma_round_trip(
    eps: Seq<Endpoint>,
    corr: Correlation,
    procs: Map<u32, Resolution>,
    l: ListenerView,
)
    requires
        enumerate(eps, corr, procs).contains(l),
    ensures
        find_process(eps, corr, procs, l.socket.port, l.protocol) is Some,
        (forall|k: int|
            0 <= k < enumerate(eps, corr, procs).len() && (#[trigger] enumerate(
                eps,
                corr,
                procs,
            )[k]).socket.port == l.socket.port && enumerate(eps, corr, procs)[k].protocol
                == l.protocol ==> enumerate(eps, corr, procs)[k].process == l.process)
            ==> find_process(eps, corr, procs, l.socket.port, l.protocol) == Some(l.process),
{
    let all = enumerate(eps, corr, procs);
    lemma_not_found_iff_absent(eps, corr, procs, l.socket.port, l.protocol);
    let k = choose|k: int| 0 <= k < all.len() && all[k] == l;
    assert(all[k].socket.port == l.socket.port && all[k].protocol == l.protocol);
    lemma_found_is_enumerated(eps, corr, procs, l.socket.port, l.protocol);
}

/// Idempotence: enumerating the same endpoints against the same maps gives
/// the same listeners in the same order.
pub proof fn lemma_enumerate_is_a_function(
    eps1: Seq<Endpoint>,
    corr1: Correlation,
    procs1: Map<u32, Resolution>,
    eps2: Seq<Endpoint>,
    corr2: Correlation,
    procs2: Map<u32, Resolution>,
)
    requires
        eps1 =~= eps2,
        corr1.inodes =~= corr2.inodes,
        corr1.kvaddrs =~= corr2.kvaddrs,
        procs1 =~= procs2,
    ensures
        enumerate(eps1, corr1, procs1) == enumerate(eps2, corr2, procs2),
{
}

/// A lookup in endpoints of which none is under `protocol` finds nothing.
pub proof fn lemma_find_other_protocol(
    eps: Seq<Endpoint>,
    corr: Correlation,
    procs: Map<u32, Resolution>,
    port: u16,
    protocol: Protocol,
)
    requires
        forall|k: int| 0 <= k < eps.len() ==> (#[trigger] eps[k]).protocol != protocol,
    ensures
        find_process(eps, corr, procs, port, protocol) is None,
{
    lemma_find_process_from(eps, corr, procs, port, protocol, 0);
}

/// A lookup in two runs of endpoints, one after the other, from position
/// `i` of the first: what the first run gives, or else what the second
/// gives.
pub proof fn lemma_find_append_from(
    a: Seq<Endpoint>,
    b: Seq<Endpoint>,
    corr: Correlation,
    procs: Map<u32, Resolution>,
    port: u16,
    protocol: Protocol,
    i: int,
)
    requires
        0 <= i <= a.len() + b.len(),
    ensures
        find_process_from(a + b, corr, procs, port, protocol, i) == if i <= a.len() {
            match find_process_from(a, corr, procs, port, protocol, i) {
                Some(p) => Some(p),
                None => find_process_from(b, corr, procs, port, protocol, 0),
            }
        } else {
            find_process_from(b, corr, procs, port, protocol, i - a.len())
        },
    decreases a.len() + b.len() - i,
{
    if i < a.len() + b.len() {
        lemma_find_append_from(a, b, corr, procs, port, protocol, i + 1);
        if i < a.len() {
            assert((a + b)[i] == a[i]);
        } else {
            assert((a + b)[i] == b[i - a.len()]);
        }
    }
}

/// A lookup in two runs of endpoints, one after the other: what the first
/// run gives, or else what the second gives.
pub proof fn lemma_find_append(
    a: Seq<Endpoint>,
    b: Seq<Endpoint>,
    corr: Correlation,
    procs: Map<u32, Resolution>,
    port: u16,
    protocol: Protocol,
)
    ensures
        find_process(a + b, corr, procs, port, protocol) == match find_process(
            a,
            corr,
            procs,
            port,
            protocol,
        ) {
            Some(p) => Some(p),
            None => find_process(b, corr, procs, port, protocol),
        },
{
    lemma_find_append_from(a, b, corr, procs, port, protocol, 0);
}

/// Every listener of a snapshot has a PID above zero and a name that is not
/// empty, and stands on the address, port and protocol of one of the
/// snapshot's endpoints.
pub proof fn lemma_listeners_well_formed(snapshot: Snapshot, i: int)
    requires
        0 <= i < snapshot.listeners().len(),
    ensures
        snapshot.listeners()[i].process.pid > 0,
        snapshot.listeners()[i].process.name.len() > 0,
        exists|k: int|
            0 <= k < snapshot.endpoints().len() && (#[trigger] snapshot.endpoints()[k]).local_addr
                == snapshot.listeners()[i].socket.ip && snapshot.endpoints()[k].local_port
                == snapshot.listeners()[i].socket.port && snapshot.endpoints()[k].protocol
                == snapshot.listeners()[i].protocol,
{
    let all = snapshot.listeners();
    assert(all.contains(all[i]));
    lemma_enumerate_sound(snapshot.endpoints(), snapshot.correlation(), snapshot.processes(), all[i]);
}

/// Set semantics: no two listeners of a snapshot have the same PID, socket
/// and protocol.
pub proof fn lemma_listeners_are_a_set(snapshot: Snapshot, i: int, j: int)
    requires
        0 <= i < snapshot.listeners().len(),
        0 <= j < snapshot.listeners().len(),
        i != j,
    ensures
        snapshot.listeners()[i].process.pid != snapshot.listeners()[j].process.pid
            || snapshot.listeners()[i].socket != snapshot.listeners()[j].socket
            || snapshot.listeners()[i].protocol != snapshot.listeners()[j].protocol,
{
    if snapshot.listeners()[i].process.pid == snapshot.listeners()[j].process.pid
        && snapshot.listeners()[i].socket == snapshot.listeners()[j].socket
        && snapshot.listeners()[i].protocol == snapshot.listeners()[j].protocol {
        lemma_enumerate_unique_by_key(
            snapshot.endpoints(),
            snapshot.correlation(),
            snapshot.processes(),
            i,
            j,
        );
    }
}

/// Round trip: for every listener of a snapshot, a lookup of its port and
/// protocol finds a process; it finds the listener's own process unless
/// several processes share that port under that protocol.
pub proof fn lemma_lookup_round_trip(snapshot: Snapshot, i: int)
    requires
        0 <= i < snapshot.listeners().len(),
    ensures
        snapshot.process_on(
            snapshot.listeners()[i].socket.port,
            snapshot.listeners()[i].protocol,
        ) is Some,
        (forall|k: int|
            0 <= k < snapshot.listeners().len() && (#[trigger] snapshot.listeners()[k]).socket.port
                == snapshot.listeners()[i].socket.port && snapshot.listeners()[k].protocol
                == snapshot.listeners()[i].protocol ==> snapshot.listeners()[k].process
                == snapshot.listeners()[i].process) ==> snapshot.process_on(
            snapshot.listeners()[i].socket.port,
            snapshot.listeners()[i].protocol,
        ) == Some(snapshot.listeners()[i].process),
{
    let all = snapshot.listeners();
    assert(all.contains(all[i]));
    lemma_round_trip(snapshot.endpoints(), snapshot.correlation(), snapshot.processes(), all[i]);
}

/// A lookup that finds a process finds the process of one of the
/// snapshot's listeners on that port under that protocol.
pub proof fn lemma_lookup_finds_a_listener(snapshot: Snapshot, port: u16, protocol: Protocol)
    requires
        snapshot.process_on(port, protocol) is Some,
    ensures
        exists|k: int|
            0 <= k < snapshot.listeners().len() && (#[trigger] snapshot.listeners()[k]).process
                == snapshot.process_on(port, protocol)->0 && snapshot.listeners()[k].socket.port
                == port && snapshot.listeners()[k].protocol == protocol,
{
    let eps = snapshot.endpoints();
    let corr = snapshot.correlation();
    let procs = snapshot.processes();
    lemma_found_is_enumerated(eps, corr, procs, port, protocol);
    let all = snapshot.listeners();
    let k = choose|k: int|
        0 <= k < enumerate(eps, corr, procs).len() && (#[trigger] enumerate(
            eps,
            corr,
            procs,
        )[k]).process == find_process(eps, corr, procs, port, protocol)->0 && enumerate(
            eps,
            corr,
            procs,
        )[k].socket.port == port && enumerate(eps, corr, procs)[k].protocol == protocol;
    assert(all[k].process == snapshot.process_on(port, protocol)->0);
}

/// Negative lookup: a lookup finds nothing exactly if no listener of the
/// snapshot is on that port under that protocol.
pub proof fn lemma_lookup_negative(snapshot: Snapshot, port: u16, protocol: Protocol)
    ensures
        snapshot.process_on(port, protocol) is None <==> forall|k: int|
            0 <= k < snapshot.listeners().len() ==> !((
            #[trigger] snapshot.listeners()[k]).socket.port == port
                && snapshot.listeners()[k].protocol == protocol),
{
    lemma_not_found_iff_absent(
        snapshot.endpoints(),
        snapshot.correlation(),
        snapshot.processes(),
        port,
        protocol,
    );
}

/// Completeness: an endpoint of the snapshot whose owner resolves is among
/// its listeners with its own address, port and protocol, never with bytes
/// swapped.
pub proof fn lemma_endpoint_is_listed(snapshot: Snapshot, k: int)
    requires
        0 <= k < snapshot.endpoints().len(),
        process_for(snapshot.endpoints()[k], snapshot.correlation(), snapshot.processes()) is Some,
    ensures
        exists|i: int|
            0 <= i < snapshot.listeners().len() && (#[trigger] snapshot.listeners()[i]).socket.ip
                == snapshot.endpoints()[k].local_addr && snapshot.listeners()[i].socket.port
                == snapshot.endpoints()[k].local_port && snapshot.listeners()[i].protocol
                == snapshot.endpoints()[k].protocol && Some(snapshot.listeners()[i].process)
                == process_for(
                snapshot.endpoints()[k],
                snapshot.correlation(),
                snapshot.processes(),
            ),
{
    let eps = snapshot.endpoints();
    lemma_enumerate_complete(eps, snapshot.correlation(), snapshot.processes(), k);
    let l = listener_for(eps[k], snapshot.correlation(), snapshot.processes())->0;
    let all = snapshot.listeners();
    let i = choose|i: int| 0 <= i < all.len() && all[i] == l;
    assert(all[i].socket.ip == eps[k].local_addr);
}

/// Protocol discrimination: a port that the snapshot holds under TCP and
/// under UDP, each with an owner that resolves, gives two listeners that
/// differ in their protocol.
pub proof fn lemma_protocols_are_told_apart(snapshot: Snapshot, i: int, j: int)
    requires
        0 <= i < snapshot.endpoints().len(),
        0 <= j < snapshot.endpoints().len(),
        snapshot.endpoints()[i].local_port == snapshot.endpoints()[j].local_port,
        snapshot.endpoints()[i].protocol == Protocol::TCP,
        snapshot.endpoints()[j].protocol == Protocol::UDP,
        process_for(snapshot.endpoints()[i], snapshot.correlation(), snapshot.processes()) is Some,
        process_for(snapshot.endpoints()[j], snapshot.correlation(), snapshot.processes()) is Some,
    ensures
        exists|a: int, b: int|
            0 <= a < snapshot.listeners().len() && 0 <= b < snapshot.listeners().len() && a != b
                && (#[trigger] snapshot.listeners()[a]).protocol == Protocol::TCP && (
            #[trigger] snapshot.listeners()[b]).protocol == Protocol::UDP
                && snapshot.listeners()[a].socket.port == snapshot.endpoints()[i].local_port
                && snapshot.listeners()[b].socket.port == snapshot.endpoints()[i].local_port,
{
    let eps = snapshot.endpoints();
    let corr = snapshot.correlation();
    let procs = snapshot.processes();
    lemma_enumerate_discriminates_protocols(eps, corr, procs, i, j);
    let all = snapshot.listeners();
    let (a, b) = choose|a: int, b: int|
        0 <= a < enumerate(eps, corr, procs).len() && 0 <= b < enumerate(eps, corr, procs).len()
            && a != b && (#[trigger] enumerate(eps, corr, procs)[a]).protocol == Protocol::TCP && (
        #[trigger] enumerate(eps, corr, procs)[b]).protocol == Protocol::UDP && enumerate(
            eps,
            corr,
            procs,
        )[a].socket.port == eps[i].local_port && enumerate(eps, corr, procs)[b].socket.port
            == eps[i].local_port;
    assert(all[a].protocol == Protocol::TCP && all[b].protocol == Protocol::UDP);
}

/// Idempotence: two snapshots that hold the same endpoints, owners and
/// processes have the same listeners and answer every lookup alike.
pub proof fn lemma_stable_system_stable_answers(
    first: Snapshot,
    second: Snapshot,
    port: u16,
    protocol: Protocol,
)
    requires
        first.endpoints() =~= second.endpoints(),
        first.correlation().inodes =~= second.correlation().inodes,
        first.correlation().kvaddrs =~= second.correlation().kvaddrs,
        first.processes() =~= second.processes(),
    ensures
        first.listeners() == second.listeners(),
        first.process_on(port, protocol) == second.process_on(port, protocol),
{
}

/// A port is among those that `ports_where` gives exactly if a listener
/// that `keep` accepts is on it.
pub proof fn lemma_ports_where_contains(
    ls: Seq<ListenerView>,
    keep: spec_fn(ListenerView) -> bool,
    port: u16,
)
    ensures
        ports_where(ls, keep).contains(port) <==> exists|i: int|
            0 <= i < ls.len() && keep(#[trigger] ls[i]) && ls[i].socket.port == port,
        ports_where(ls, keep).no_duplicates(),
    decreases ls.len(),
{
    if ls.len() == 0 {
        assert(!ports_where(ls, keep).contains(port));
    } else {
        let init = ls.drop_last();
        let before = ports_where(init, keep);
        let all = ports_where(ls, keep);
        lemma_ports_where_contains(init, keep, port);
        if all.contains(port) {
            if before.contains(port) {
                let i = choose|i: int|
                    0 <= i < init.len() && keep(#[trigger] init[i]) && init[i].socket.port == port;
                assert(ls[i] == init[i]);
            } else {
                let k = choose|k: int| 0 <= k < all.len() && all[k] == port;
                if k < before.len() {
                    assert(before[k] == port);
                }
                assert(keep(ls[ls.len() - 1]) && ls[ls.len() - 1].socket.port == port);
            }
        }
        if exists|i: int| 0 <= i < ls.len() && keep(#[trigger] ls[i]) && ls[i].socket.port == port {
            let i = choose|i: int|
                0 <= i < ls.len() && keep(#[trigger] ls[i]) && ls[i].socket.port == port;
            if i < init.len() {
                assert(init[i] == ls[i]);
                let k = choose|k: int| 0 <= k < before.len() && before[k] == port;
                assert(all[k] == port);
            } else {
                if before.contains(port) {
                    let k = choose|k: int| 0 <= k < before.len() && before[k] == port;
                    assert(all[k] == port);
                } else {
                    assert(before.push(port)[before.len() as int] == port);
                }
            }
        }
    }
}

/// A process is among those that `processes_on_port` gives exactly if a
/// listener on that port belongs to it.
pub proof fn lemma_processes_on_port_contains(ls: Seq<ListenerView>, port: u16, p: ProcessView)
    ensures
        processes_on_port(ls, port).contains(p) <==> exists|i: int|
            0 <= i < ls.len() && (#[trigger] ls[i]).socket.port == port && ls[i].process == p,
        processes_on_port(ls, port).no_duplicates(),
    decreases ls.len(),
{
    if ls.len() == 0 {
        assert(!processes_on_port(ls, port).contains(p));
    } else {
        let init = ls.drop_last();
        let before = processes_on_port(init, port);
        let all = processes_on_port(ls, port);
        lemma_processes_on_port_contains(init, port, p);
        if all.contains(p) {
            if before.contains(p) {
                let i = choose|i: int|
                    0 <= i < init.len() && (#[trigger] init[i]).socket.port == port
                        && init[i].process == p;
                assert(ls[i] == init[i]);
            } else {
                let k = choose|k: int| 0 <= k < all.len() && all[k] == p;
                if k < before.len() {
                    assert(before[k] == p);
                }
                assert(ls[ls.len() - 1].socket.port == port && ls[ls.len() - 1].process == p);
            }
        }
        if exists|i: int|
            0 <= i < ls.len() && (#[trigger] ls[i]).socket.port == port && ls[i].process == p {
            let i = choose|i: int|
                0 <= i < ls.len() && (#[trigger] ls[i]).socket.port == port && ls[i].process == p;
            if i < init.len() {
                assert(init[i] == ls[i]);
                let k = choose|k: int| 0 <= k < before.len() && before[k] == p;
                assert(all[k] == p);
            } else {
                if before.contains(p) {
                    let k = choose|k: int| 0 <= k < before.len() && before[k] == p;
                    assert(all[k] == p);
                } else {
                    assert(before.push(p)[before.len() as int] == p);
                }
            }
        }
    }
}

/// Consistency of the projections: of every listener, the port is among the
/// ports of its PID and among the ports of its name, and the process is
/// among the processes on its port.
pub proof fn lemma_projections_agree(ls: Seq<ListenerView>, i: int)
    requires
        0 <= i < ls.len(),
    ensures
        ports_of_pid(ls, ls[i].process.pid).contains(ls[i].socket.port),
        ports_of_name(ls, ls[i].process.name).contains(ls[i].socket.port),
        processes_on_port(ls, ls[i].socket.port).contains(ls[i].process),
{
    let l = ls[i];
    let by_pid = |x: ListenerView| x.process.pid == l.process.pid;
    let by_name = |x: ListenerView| x.process.name == l.process.name;
    lemma_ports_where_contains(ls, by_pid, l.socket.port);
    assert(by_pid(ls[i]) && ls[i].socket.port == l.socket.port);
    lemma_ports_where_contains(ls, by_name, l.socket.port);
    assert(by_name(ls[i]) && ls[i].socket.port == l.socket.port);
    lemma_processes_on_port_contains(ls, l.socket.port, l.process);
}

} // verus!
