//! The registry of running guests, keyed by their forwarding port.
//!
//! The registry is generic over the process handle `H` of a guest: it owns
//! the handle of every guest it lists, and hands it back when the guest is
//! removed, so that dropping the handle terminates the process exactly once.
use vstd::prelude::*;
use std::collections::HashMap;
use crate::text::texts;
use crate::vmm::{QemuType, command_line_spec, vmm_command_line};

verus! {

broadcast use vstd::std_specs::hash::group_hash_axioms;

/// First port that automatic port selection tries (start of the dynamic range).
pub const AUTO_PORT_FIRST: u16 = 49152;

/// Last port that automatic port selection tries.
pub const AUTO_PORT_LAST: u16 = 65535;

/// Why launching a guest process failed, as the launcher reported it.
#[derive(Debug)]
pub struct LaunchError {
    pub message: String,
}

/// Why a guest could not be started.
#[derive(Debug)]
pub enum SpawnError {
    /// A guest is already registered on the requested port.
    PortInUse,
    /// No port of the automatic range is free.
    ResourceExhausted,
    /// The guest process could not be created.
    Launch(LaunchError),
}

/// One running guest; `instance` is the handle of its process.
pub struct QemuGuard<H> {
    pub port: u16,
    pub typ: QemuType,
    pub shared: Option<String>,
    pub instance: H,
}

/// The characters of an optional string.
pub open spec fn opt_text(o: Option<String>) -> Option<Seq<char>> {
    match o {
        Some(s) => Some(s@),
        None => None,
    }
}

/// The characters of an optional string slice.
pub open spec fn opt_str_text(o: Option<&str>) -> Option<Seq<char>> {
    match o {
        Some(s) => Some(s@),
        None => None,
    }
}

/// `after` is `before` with one guest added on `port`, of kind `typ`, sharing
/// `shared`; nothing else changed.
pub open spec fn added_guest<H>(
    before: Map<u16, QemuGuard<H>>,
    after: Map<u16, QemuGuard<H>>,
    port: u16,
    typ: QemuType,
    shared: Option<Seq<char>>,
) -> bool {
    &&& !before.contains_key(port)
    &&& after.contains_key(port)
    &&& after[port].port == port
    &&& after[port].typ == typ
    &&& opt_text(after[port].shared) == shared
    &&& after.remove(port) == before
}

/// `port` lies in the range that automatic port selection scans.
pub open spec fn in_auto_range(port: u16) -> bool {
    AUTO_PORT_FIRST <= port && port <= AUTO_PORT_LAST
}

/// What a successful automatic spawn did: it chose `port` from the automatic
/// range, which was free, and registered a guest there.
pub open spec fn auto_port_granted<H>(
    before: Map<u16, QemuGuard<H>>,
    after: Map<u16, QemuGuard<H>>,
    port: u16,
) -> bool {
    &&& in_auto_range(port)
    &&& !before.contains_key(port)
    &&& after.contains_key(port)
    &&& after.remove(port) == before
}

/// `launch` reports success for every command line.
pub open spec fn launcher_never_fails<H, F: FnOnce(Vec<String>) -> Result<H, LaunchError>>(launch: F) -> bool {
    forall|a: Vec<String>, res: Result<H, LaunchError>| #[trigger] launch.ensures((a,), res) ==> res is Ok
}

proof fn lemma_granted_port_stays<H>(states: Seq<Map<u16, QemuGuard<H>>>, ports: Seq<u16>, i: int, k: int)
    requires
        states.len() == ports.len() + 1,
        forall|n: int| 0 <= n < ports.len() ==> auto_port_granted(#[trigger] states[n], states[n + 1], ports[n]),
        0 <= i < k <= ports.len(),
    ensures
        states[k].contains_key(ports[i]),
    decreases k - i,
{
    if k > i + 1 {
        lemma_granted_port_stays(states, ports, i, k - 1);
        assert(auto_port_granted(states[k - 1], states[k], ports[k - 1]));
        assert(states[k].remove(ports[k - 1]).contains_key(ports[i]));
    } else {
        assert(auto_port_granted(states[i], states[i + 1], ports[i]));
    }
}

/// Successive automatic spawns hand out pairwise distinct ports: `states`
/// are the registries before and after each spawn, `ports` what each returned.
pub proof fn lemma_auto_ports_distinct<H>(states: Seq<Map<u16, QemuGuard<H>>>, ports: Seq<u16>)
    requires
        states.len() == ports.len() + 1,
        forall|n: int| 0 <= n < ports.len() ==> auto_port_granted(#[trigger] states[n], states[n + 1], ports[n]),
    ensures
        forall|i: int, j: int| 0 <= i < j < ports.len() ==> ports[i] != ports[j],
{
    assert forall|i: int, j: int| 0 <= i < j < ports.len() implies ports[i] != ports[j] by {
        lemma_granted_port_stays(states, ports, i, j);
        assert(auto_port_granted(states[j], states[j + 1], ports[j]));
    }
}

/// `launch` was handed the command line of a guest of kind `typ` on `port`
/// sharing `shared`, and answered `res`.
pub open spec fn launched_with<H, F: FnOnce(Vec<String>) -> Result<H, LaunchError>>(
    launch: F,
    port: u16,
    typ: QemuType,
    shared: Option<Seq<char>>,
    res: Result<H, LaunchError>,
) -> bool {
    exists|a: Vec<String>| texts(a@) == command_line_spec(port, typ, shared) && #[trigger] launch.ensures((a,), res)
}

/// The registry of running guests.
pub struct QemuManager<H> {
    instances: HashMap<u16, QemuGuard<H>>,
}

impl<H> View for QemuManager<H> {
    type V = Map<u16, QemuGuard<H>>;

    closed spec fn view(&self) -> Map<u16, QemuGuard<H>> {
        self.instances@
    }
}

impl<H> QemuManager<H> {
    /// Every guest is listed under its own port.
    pub open spec fn wf(&self) -> bool {
        forall|p: u16| #[trigger] self@.contains_key(p) ==> self@[p].port == p
    }

    /// An empty registry.
    pub fn new() -> (r: QemuManager<H>)
        ensures
            r.wf(),
            r@ == Map::<u16, QemuGuard<H>>::empty(),
    {
        QemuManager { instances: HashMap::new() }
    }

    /// Whether a guest is registered on `port`.
    pub fn contains(&self, port: u16) -> (r: bool)
        ensures
            r == self@.contains_key(port),
    {
        self.instances.contains_key(&port)
    }

    /// Number of registered guests.
    pub fn len(&self) -> (r: usize)
        ensures
            r == self@.len(),
    {
        self.instances.len()
    }

    /// Kind of the guest registered on `port`, if any.
    pub fn kind_of(&self, port: u16) -> (r: Option<QemuType>)
        ensures
            r == (if self@.contains_key(port) { Some(self@[port].typ) } else { None::<QemuType> }),
    {
        match self.instances.get(&port) {
            Some(g) => Some(g.typ),
            None => None,
        }
    }

    /// Launches a guest of kind `typ` forwarded to `port`, sharing the physical
    /// window at `shared` if given, and registers it.
    ///
    /// `launch` starts the process from the complete command line. Nothing is
    /// launched when `port` is already registered.
    pub fn spawn<F>(&mut self, port: u16, typ: QemuType, shared: Option<&str>, launch: F) -> (r: Result<(), SpawnError>)
        where
            F: FnOnce(Vec<String>) -> Result<H, LaunchError>,
        requires
            old(self).wf(),
            forall|a: Vec<String>| #[trigger] launch.requires((a,)),
        ensures
            final(self).wf(),
            old(self)@.contains_key(port) ==> r is Err && r->Err_0 is PortInUse,
            !old(self)@.contains_key(port) ==> (r is Ok || r->Err_0 is Launch),
            !old(self)@.contains_key(port) && launcher_never_fails(launch) ==> r is Ok,
            r is Ok ==> added_guest(old(self)@, final(self)@, port, typ, opt_str_text(shared)),
            r is Ok ==> launched_with(launch, port, typ, opt_str_text(shared), Ok(final(self)@[port].instance)),
            r is Err && r->Err_0 is Launch ==>
                launched_with(launch, port, typ, opt_str_text(shared), Err(r->Err_0->Launch_0)),
            r is Err ==> final(self)@ == old(self)@,
    {
        if self.instances.contains_key(&port) {
            return Err(SpawnError::PortInUse);
        }
        let args = vmm_command_line(port, typ, shared);
        let ghost sent = args;
        match launch(args) {
            Ok(process) => {
                let shared_copy = match shared {
                    Some(s) => Some(String::from_str(s)),
                    None => None,
                };
                let guest = QemuGuard { port, typ, shared: shared_copy, instance: process };
                self.instances.insert(port, guest);
                proof {
                    assert(final(self)@.remove(port) =~= old(self)@);
                    assert(launch.ensures((sent,), Ok(final(self)@[port].instance)));
                }
                Ok(())
            },
            Err(e) => {
                let r: Result<(), SpawnError> = Err(SpawnError::Launch(e));
                proof {
                    assert(launch.ensures((sent,), Err::<H, LaunchError>(r->Err_0->Launch_0)));
                }
                r
            },
        }
    }

    /// Removes the guest registered on `port`, if any, and hands back its
    /// instance; dropping the instance terminates its process. A port with
    /// no guest is left as it is.
    pub fn stop(&mut self, port: u16) -> (r: Option<QemuGuard<H>>)
        requires
            old(self).wf(),
        ensures
            final(self).wf(),
            final(self)@ == old(self)@.remove(port),
            !final(self)@.contains_key(port),
            old(self)@.contains_key(port) ==> r == Some(old(self)@[port]),
            !old(self)@.contains_key(port) ==> r is None,
    {
        self.instances.remove(&port)
    }

    /// Launches a guest on the first port of the automatic range that is
    /// neither registered nor reported as taken by `busy`, and returns that port.
    ///
    /// `busy` stands for an inspection of the processes outside this registry;
    /// `launch` starts the process as for `spawn`.
    pub fn spawn_auto_port<F, G>(&mut self, typ: QemuType, shared: Option<&str>, busy: G, launch: F) -> (r: Result<u16, SpawnError>)
        where
            F: FnOnce(Vec<String>) -> Result<H, LaunchError>,
            G: Fn(u16) -> bool,
        requires
            old(self).wf(),
            forall|a: Vec<String>| #[trigger] launch.requires((a,)),
            forall|p: u16| #[trigger] busy.requires((p,)),
        ensures
            final(self).wf(),
            r is Ok || r->Err_0 is Launch || r->Err_0 is ResourceExhausted,
            launcher_never_fails(launch) && r is Err ==> r->Err_0 is ResourceExhausted,
            r is Ok ==> auto_port_granted(old(self)@, final(self)@, r->Ok_0),
            r is Ok ==> added_guest(old(self)@, final(self)@, r->Ok_0, typ, opt_str_text(shared)),
            r is Ok ==> busy.ensures((r->Ok_0,), false),
            r is Ok ==> forall|p: u16| AUTO_PORT_FIRST <= p < r->Ok_0 ==>
                old(self)@.contains_key(p) || #[trigger] busy.ensures((p,), true),
            r is Ok ==> launched_with(launch, r->Ok_0, typ, opt_str_text(shared), Ok(final(self)@[r->Ok_0].instance)),
            r is Err && r->Err_0 is Launch ==> exists|p: u16|
                in_auto_range(p) && !old(self)@.contains_key(p) && busy.ensures((p,), false)
                && #[trigger] launched_with(launch, p, typ, opt_str_text(shared), Err(r->Err_0->Launch_0)),
            (forall|p: u16| in_auto_range(p) ==> #[trigger] old(self)@.contains_key(p)) ==>
                r is Err && r->Err_0 is ResourceExhausted,
            r is Err && r->Err_0 is ResourceExhausted ==> forall|p: u16| in_auto_range(p) ==>
                old(self)@.contains_key(p) || #[trigger] busy.ensures((p,), true),
            r is Err ==> final(self)@ == old(self)@,
    {
        let mut candidate: u32 = AUTO_PORT_FIRST as u32;
        while candidate <= AUTO_PORT_LAST as u32
            invariant
                AUTO_PORT_FIRST <= candidate <= AUTO_PORT_LAST as u32 + 1,
                self.wf(),
                self@ == old(self)@,
                forall|a: Vec<String>| #[trigger] launch.requires((a,)),
                forall|p: u16| #[trigger] busy.requires((p,)),
                forall|p: u16| AUTO_PORT_FIRST <= p < candidate ==>
                    self@.contains_key(p) || #[trigger] busy.ensures((p,), true),
            decreases AUTO_PORT_LAST as u32 + 1 - candidate,
        {
            let port = candidate as u16;
            if !self.instances.contains_key(&port) {
                let taken = busy(port);
                if !taken {
                    let res = self.spawn(port, typ, shared, launch);
                    return match res {
                        Ok(()) => Ok(port),
                        Err(e) => {
                            let r: Result<u16, SpawnError> = Err(e);
                            proof {
                                if r->Err_0 is Launch {
                                    assert(launched_with(launch, port, typ, opt_str_text(shared), Err(r->Err_0->Launch_0)));
                                    assert(in_auto_range(port));
                                }
                            }
                            r
                        },
                    };
                }
            }
            candidate = candidate + 1;
        }
        Err(SpawnError::ResourceExhausted)
    }
}

} // verus!
