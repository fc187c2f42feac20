//! The command surface of the tool, the isolation scenarios it can run, and
//! the dispatch of guest management commands to the registry.
use vstd::prelude::*;
use crate::client::ClientSub;
use crate::manager::{LaunchError, QemuManager, SpawnError, added_guest, launched_with, launcher_never_fails, opt_text};
use crate::text::{contains_text, occurs_in, same_text, trim_text, trimmed};
use crate::vmm::QemuType;

verus! {

/// Commands on the host's catalogue of executables.
#[derive(Debug)]
pub enum BinarySub {
    List,
    Exec { name: String, args: Vec<String> },
    /// Probe the physical address given as `0x`-prefixed hexadecimal.
    Read { addr: String },
}

/// Commands on the host's catalogue of kernel modules.
#[derive(Debug)]
pub enum ModuleSub {
    List,
    Install { name: String, args: Vec<String> },
    Rm { name: String },
}

/// Commands on the host's catalogue of shell scripts.
#[derive(Debug)]
pub enum ScriptSub {
    List,
    Exec { name: String },
}

/// Commands that run an isolation scenario by its number.
#[derive(Debug)]
pub enum TestSub {
    Run { index: usize, args: Vec<String> },
}

/// Commands that start and stop guests.
#[derive(Debug)]
pub enum QemuSub {
    Start { port: u16, typ: QemuType, shared: Option<String> },
    Stop { port: u16 },
}

/// The top-level commands.
#[derive(Debug)]
pub enum Subcommands {
    Module { sub: ModuleSub },
    Test { sub: TestSub },
    Script { sub: ScriptSub },
    Binary { sub: BinarySub },
    Client { sub: ClientSub, port: u16 },
}

/// The parsed command line.
#[derive(Debug)]
pub struct Args {
    pub sub: Subcommands,
}

/// Carries out a guest management command on `manager`: `Start` spawns a
/// guest as `QemuManager::spawn` does, `Stop` removes the guest on the port,
/// terminating it, and always succeeds.
pub fn handle_qemu_command<H, F>(manager: &mut QemuManager<H>, sub: &QemuSub, launch: F) -> (r: Result<(), SpawnError>)
    where
        F: FnOnce(Vec<String>) -> Result<H, LaunchError>,
    requires
        old(manager).wf(),
        forall|a: Vec<String>| #[trigger] launch.requires((a,)),
    ensures
        final(manager).wf(),
        match sub {
            QemuSub::Start { port, typ, shared } => {
                &&& old(manager)@.contains_key(*port) ==> r is Err && r->Err_0 is PortInUse
                &&& !old(manager)@.contains_key(*port) ==> (r is Ok || r->Err_0 is Launch)
                &&& !old(manager)@.contains_key(*port) && launcher_never_fails(launch) ==> r is Ok
                &&& r is Ok ==> added_guest(old(manager)@, final(manager)@, *port, *typ, opt_text(*shared))
                &&& r is Ok ==> launched_with(launch, *port, *typ, opt_text(*shared), Ok(final(manager)@[*port].instance))
                &&& r is Err && r->Err_0 is Launch ==>
                    launched_with(launch, *port, *typ, opt_text(*shared), Err(r->Err_0->Launch_0))
                &&& r is Err ==> final(manager)@ == old(manager)@
            },
            QemuSub::Stop { port } => r is Ok && final(manager)@ == old(manager)@.remove(*port),
        },
{
    match sub {
        QemuSub::Start { port, typ, shared } => {
            let offset: Option<&str> = match shared {
                Some(s) => Some(s.as_str()),
                None => None,
            };
            manager.spawn(*port, *typ, offset, launch)
        },
        QemuSub::Stop { port } => {
            let _ = manager.stop(*port);
            Ok(())
        },
    }
}

/// PCI address of the shared-memory device inside a guest.
pub const DEFAULT_SHARED_PCI: &'static str = "0000:00:03.0";

/// A physical address that the host kernel normally uses, and that a
/// confidential guest must not reach.
pub const KERNEL_ADDRESS: &'static str = "0xFE940000";

/// Where the probe executable lives inside a guest once uploaded.
pub const GUEST_PROBE_PATH: &'static str = "/test/tt";

/// The isolation scenarios.
#[derive(Debug, Clone, Copy, PartialEq, Eq, Structural)]
pub enum Scenario {
    /// Probe, from the host, the realm address that a helper module reports.
    RealmAddressFromHost,
    /// Load a self-checking module and read its verdict.
    ModuleSelfCheck,
    /// Share the realm address into a normal guest and probe it from there.
    RealmAddressInGuest,
    /// Guest side of `RealmAddressInGuest`: probe the shared window.
    SharedWindowProbe,
    /// Share a kernel address into a confidential guest and probe it there.
    KernelAddressInGuest,
    /// Guest side of `KernelAddressInGuest`: probe the shared window and
    /// print the verdict.
    SharedWindowVerdict,
}

/// The scenario that carries a number, if one does.
pub open spec fn scenario_spec(index: usize) -> Option<Scenario> {
    if index == 44 {
        Some(Scenario::RealmAddressFromHost)
    } else if index == 52 {
        Some(Scenario::ModuleSelfCheck)
    } else if index == 60 {
        Some(Scenario::RealmAddressInGuest)
    } else if index == 601 {
        Some(Scenario::SharedWindowProbe)
    } else if index == 82 {
        Some(Scenario::KernelAddressInGuest)
    } else if index == 821 {
        Some(Scenario::SharedWindowVerdict)
    } else {
        None
    }
}

/// The scenario that carries number `index`.
pub fn scenario_for(index: usize) -> (r: Option<Scenario>)
    ensures
        r == scenario_spec(index),
{
    if index == 44 {
        Some(Scenario::RealmAddressFromHost)
    } else if index == 52 {
        Some(Scenario::ModuleSelfCheck)
    } else if index == 60 {
        Some(Scenario::RealmAddressInGuest)
    } else if index == 601 {
        Some(Scenario::SharedWindowProbe)
    } else if index == 82 {
        Some(Scenario::KernelAddressInGuest)
    } else if index == 821 {
        Some(Scenario::SharedWindowVerdict)
    } else {
        None
    }
}

/// The part of a scenario that the host runs against a guest: the kind of
/// guest, the command that runs the guest side, and the text in its output
/// that reports a pass.
pub struct GuestStage {
    pub typ: QemuType,
    pub command: String,
    pub pass_marker: String,
}

/// What `guest_stage` gives for a scenario: its guest kind, remote command
/// and pass marker, for the two scenarios that drive a guest.
pub open spec fn guest_stage_spec(s: Scenario) -> Option<(QemuType, Seq<char>, Seq<char>)> {
    match s {
        Scenario::RealmAddressInGuest => Some((QemuType::Normal, "/test/tt test run 601"@, "Test 60 passed"@)),
        Scenario::KernelAddressInGuest => Some((QemuType::Confidential, "/test/tt test run 821"@, "passed"@)),
        _ => None,
    }
}

/// The guest stage of a scenario, if it has one.
pub fn guest_stage(s: Scenario) -> (r: Option<GuestStage>)
    ensures
        match (r, guest_stage_spec(s)) {
            (Some(g), Some(t)) => g.typ == t.0 && g.command@ == t.1 && g.pass_marker@ == t.2,
            (None, None) => true,
            _ => false,
        },
{
    match s {
        Scenario::RealmAddressInGuest => Some(GuestStage {
            typ: QemuType::Normal,
            command: String::from_str("/test/tt test run 601"),
            pass_marker: String::from_str("Test 60 passed"),
        }),
        Scenario::KernelAddressInGuest => Some(GuestStage {
            typ: QemuType::Confidential,
            command: String::from_str("/test/tt test run 821"),
            pass_marker: String::from_str("passed"),
        }),
        _ => None,
    }
}

impl GuestStage {
    /// Whether the output of the remote command reports a pass.
    pub fn passed(&self, stdout: &str) -> (r: bool)
        ensures
            r == occurs_in(stdout@, self.pass_marker@),
    {
        contains_text(stdout, self.pass_marker.as_str())
    }
}

/// The name under which a file called `file` is catalogued when its
/// extension is `ext`: the file name without `.` and the extension, if
/// something is left before them.
pub open spec fn catalog_name_spec(file: Seq<char>, ext: Seq<char>) -> Option<Seq<char>> {
    let n = file.len();
    let k = ext.len();
    if n > k + 1 && file.subrange(n - k, n as int) == ext && file[n - k - 1] == '.' {
        Some(file.subrange(0, n - k - 1))
    } else {
        None
    }
}

/// The catalogue name of a file called `file`, if its extension is `ext`.
pub fn catalog_name(file: &str, ext: &str) -> (r: Option<String>)
    ensures
        opt_text(r) == catalog_name_spec(file@, ext@),
{
    let n = file.unicode_len();
    let k = ext.unicode_len();
    if n <= k || n - k <= 1 {
        return None;
    }
    let tail = file.substring_char(n - k, n);
    if !same_text(tail, ext) || file.get_char(n - k - 1) != '.' {
        return None;
    }
    Some(String::from_str(file.substring_char(0, n - k - 1)))
}

/// Whether the result that a self-checking module reports, white space
/// aside, is `ok`.
pub fn self_check_passed(result: &str) -> (r: bool)
    ensures
        r == (trimmed(result@) == "ok"@),
{
    same_text(trim_text(result), "ok")
}

/// Where the resource listing of the PCI device at `pci` is found.
pub fn resource_path(pci: &str) -> (r: String)
    ensures
        r@ == "/sys/bus/pci/devices/"@ + pci@ + "/resource"@,
{
    let mut r = String::from_str("/sys/bus/pci/devices/");
    r.append(pci);
    r.append("/resource");
    r
}

} // verus!
