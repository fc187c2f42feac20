use std::cell::Cell;
use std::rc::Rc;
use tee_tests::commands::{handle_qemu_command, QemuSub};
use tee_tests::manager::{LaunchError, QemuManager, SpawnError, AUTO_PORT_FIRST, AUTO_PORT_LAST};
use tee_tests::vmm::{basic_vmm_args, confidential_vmm_extra_args, forward_rule, shared_vmm_extra_args, unmanaged_vmm_args, vmm_command_line, QemuType};

/// A process handle that counts how often it was terminated.
struct Counted(Rc<Cell<u32>>);

impl Drop for Counted {
    fn drop(&mut self) {
        self.0.set(self.0.get() + 1);
    }
}

#[test]
fn basic_args_forward_the_port() {
    let args = basic_vmm_args(8088);
    assert_eq!(args.len(), 33);
    assert_eq!(args[0], "-nodefaults");
    assert_eq!(args[13], "-netdev");
    assert_eq!(args[14], "user,id=net0,hostfwd=tcp::8088-:8080");
    assert_eq!(args[22], "-smp");
    assert_eq!(args[23], "2");
    assert_eq!(args[32], "console=hvc0");
    assert_eq!(forward_rule(50000), "hostfwd=tcp::50000-:8080");
}

#[test]
fn confidential_and_shared_args() {
    let c = confidential_vmm_extra_args();
    assert_eq!(c.len(), 6);
    assert_eq!(c[1], "confidential-guest-support=rme0");
    assert!(c[3].starts_with("rme-guest,id=rme0,measurement-algorithm=sha512,"));
    assert_eq!(c[5], "/root/qemu-gen.dtb");
    let s = shared_vmm_extra_args("  0x1000\n");
    assert_eq!(
        s,
        vec![
            "-object".to_string(),
            "memory-backend-file,id=physmem,size=4K,mem-path=/dev/mem,offset=0x1000,share=on".to_string(),
            "-device".to_string(),
            "ivshmem-plain,memdev=physmem,id=ivshmem0".to_string(),
        ]
    );
}

#[test]
fn command_line_by_kind() {
    assert_eq!(vmm_command_line(8088, QemuType::Normal, None).len(), 33);
    assert_eq!(vmm_command_line(8088, QemuType::Confidential, None).len(), 39);
    let full = vmm_command_line(8088, QemuType::Confidential, Some("0x1000"));
    assert_eq!(full.len(), 43);
    assert_eq!(full[33], "-M");
    assert_eq!(full[40], "memory-backend-file,id=physmem,size=4K,mem-path=/dev/mem,offset=0x1000,share=on");
}

#[test]
fn kind_from_name() {
    assert_eq!(QemuType::from("confidential".to_string()), QemuType::Confidential);
    assert_eq!(QemuType::from("normal".to_string()), QemuType::Normal);
    assert_eq!(QemuType::from("other".to_string()), QemuType::Normal);
}

#[test]
fn spawn_on_free_port_registers_one_guest() {
    let mut m: QemuManager<u8> = QemuManager::new();
    let mut seen: Vec<String> = Vec::new();
    let r = m.spawn(8088, QemuType::Confidential, Some("0x1000"), |a| {
        seen = a;
        Ok(1u8)
    });
    assert!(r.is_ok());
    assert_eq!(m.len(), 1);
    assert!(m.contains(8088));
    assert_eq!(m.kind_of(8088), Some(QemuType::Confidential));
    assert_eq!(seen, vmm_command_line(8088, QemuType::Confidential, Some("0x1000")));
}

#[test]
fn spawn_on_taken_port_fails_and_keeps_guest() {
    let mut m: QemuManager<u8> = QemuManager::new();
    assert!(m.spawn(8088, QemuType::Confidential, None, |_| Ok(1u8)).is_ok());
    let mut launched = false;
    let r = m.spawn(8088, QemuType::Normal, None, |_| {
        launched = true;
        Ok(2u8)
    });
    assert!(matches!(r, Err(SpawnError::PortInUse)));
    assert!(!launched);
    assert_eq!(m.len(), 1);
    assert_eq!(m.kind_of(8088), Some(QemuType::Confidential));
}

#[test]
fn spawn_launch_failure_is_returned() {
    let mut m: QemuManager<u8> = QemuManager::new();
    let r = m.spawn(8088, QemuType::Normal, None, |_| Err(LaunchError { message: "no binary".to_string() }));
    match r {
        Err(SpawnError::Launch(e)) => assert_eq!(e.message, "no binary"),
        _ => panic!("expected a launch error"),
    }
    assert_eq!(m.len(), 0);
}

#[test]
fn stop_unknown_port_is_noop() {
    let mut m: QemuManager<u8> = QemuManager::new();
    assert!(m.spawn(8088, QemuType::Normal, None, |_| Ok(1u8)).is_ok());
    assert!(m.stop(9000).is_none());
    assert_eq!(m.len(), 1);
}

#[test]
fn stop_terminates_exactly_once() {
    let count = Rc::new(Cell::new(0u32));
    let mut m: QemuManager<Counted> = QemuManager::new();
    let c = count.clone();
    assert!(m.spawn(8088, QemuType::Normal, None, move |_| Ok(Counted(c))).is_ok());
    let removed = m.stop(8088);
    assert!(removed.is_some());
    assert_eq!(removed.as_ref().map(|g| g.port), Some(8088));
    drop(removed);
    assert_eq!(count.get(), 1);
    assert!(m.stop(8088).is_none());
    assert_eq!(count.get(), 1);
    assert!(!m.contains(8088));
}

#[test]
fn auto_ports_are_fresh_and_distinct() {
    let mut m: QemuManager<u8> = QemuManager::new();
    assert!(m.spawn(AUTO_PORT_FIRST, QemuType::Normal, None, |_| Ok(0u8)).is_ok());
    let mut ports: Vec<u16> = Vec::new();
    for _ in 0..5 {
        let p = m.spawn_auto_port(QemuType::Normal, None, |_| false, |_| Ok(1u8)).unwrap();
        assert!(p >= AUTO_PORT_FIRST && p <= AUTO_PORT_LAST);
        assert!(!ports.contains(&p));
        assert_ne!(p, AUTO_PORT_FIRST);
        ports.push(p);
    }
    assert_eq!(ports, vec![49153, 49154, 49155, 49156, 49157]);
    assert_eq!(m.len(), 6);
}

#[test]
fn auto_port_skips_busy_ports() {
    let mut m: QemuManager<u8> = QemuManager::new();
    let p = m.spawn_auto_port(QemuType::Confidential, Some("0x1000"), |p| p < 49160, |_| Ok(1u8)).unwrap();
    assert_eq!(p, 49160);
    assert_eq!(m.kind_of(49160), Some(QemuType::Confidential));
}

#[test]
fn auto_port_exhausted() {
    let mut m: QemuManager<u8> = QemuManager::new();
    let r = m.spawn_auto_port(QemuType::Normal, None, |_| true, |_| Ok(1u8));
    assert!(matches!(r, Err(SpawnError::ResourceExhausted)));
    assert_eq!(m.len(), 0);
}

#[test]
fn qemu_command_start_and_stop() {
    let mut m: QemuManager<u8> = QemuManager::new();
    let start = QemuSub::Start { port: 8090, typ: QemuType::Normal, shared: Some("0x1000".to_string()) };
    assert!(handle_qemu_command(&mut m, &start, |_| Ok(1u8)).is_ok());
    assert!(m.contains(8090));
    assert!(matches!(handle_qemu_command(&mut m, &start, |_| Ok(1u8)), Err(SpawnError::PortInUse)));
    let stop = QemuSub::Stop { port: 8090 };
    assert!(handle_qemu_command(&mut m, &stop, |_| Ok(1u8)).is_ok());
    assert!(!m.contains(8090));
    assert!(handle_qemu_command(&mut m, &stop, |_| Ok(1u8)).is_ok());
}

#[test]
fn unmanaged_start_only_when_absent() {
    assert!(unmanaged_vmm_args(8088, QemuType::Normal, vec!["-x".to_string()], true).is_none());
    let normal = unmanaged_vmm_args(8088, QemuType::Normal, vec!["-x".to_string()], false).unwrap();
    assert_eq!(normal.len(), 34);
    assert_eq!(normal[33], "-x");
    let conf = unmanaged_vmm_args(8088, QemuType::Confidential, vec![], false).unwrap();
    assert_eq!(conf, vmm_command_line(8088, QemuType::Confidential, None));
}

#[test]
fn auto_port_exhausted_when_range_is_registered() {
    let mut m: QemuManager<u8> = QemuManager::new();
    let mut p: u32 = AUTO_PORT_FIRST as u32;
    while p <= AUTO_PORT_LAST as u32 {
        assert!(m.spawn(p as u16, QemuType::Normal, None, |_| Ok(0u8)).is_ok());
        p += 1;
    }
    let before = m.len();
    let mut launched = false;
    let r = m.spawn_auto_port(QemuType::Normal, None, |_| false, |_| {
        launched = true;
        Ok(1u8)
    });
    assert!(matches!(r, Err(SpawnError::ResourceExhausted)));
    assert!(!launched);
    assert_eq!(m.len(), before);
}
