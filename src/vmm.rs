//! Command lines of guest virtual machines.
use vstd::prelude::*;
use crate::text::{decimal, decimal_text, same_text, texts, trim_text, trimmed};

verus! {

/// The two kinds of guest.
#[derive(Debug, Clone, Copy, PartialEq, Eq, Structural)]
pub enum QemuType {
    Normal,
    Confidential,
}

impl QemuType {
    /// The kind a name selects: `confidential` gives a confidential guest,
    /// any other name a normal one.
    pub open spec fn of_name(name: Seq<char>) -> QemuType {
        if name == "confidential"@ {
            QemuType::Confidential
        } else {
            QemuType::Normal
        }
    }

    pub fn from_name(name: &str) -> (r: QemuType)
        ensures
            r == QemuType::of_name(name@),
    {
        if same_text(name, "confidential") {
            QemuType::Confidential
        } else {
            QemuType::Normal
        }
    }
}

impl From<String> for QemuType {
    fn from(value: String) -> (r: QemuType)
        ensures
            r == QemuType::of_name(value@),
    {
        QemuType::from_name(value.as_str())
    }
}

impl vstd::std_specs::convert::FromSpecImpl<String> for QemuType {
    open spec fn obeys_from_spec() -> bool {
        true
    }

    open spec fn from_spec(v: String) -> QemuType {
        QemuType::of_name(v@)
    }
}

/// The rule that forwards the guest's internal port 8080 to `port` on the host.
pub open spec fn forward_rule_spec(port: u16) -> Seq<char> {
    "hostfwd=tcp::"@ + decimal(port as nat) + "-:8080"@
}

/// Arguments that every guest is launched with.
pub open spec fn basic_args_spec(port: u16) -> Seq<Seq<char>> {
    seq![
        "-nodefaults"@,
        "-chardev"@, "stdio,mux=on,id=chr0,signal=off"@,
        "-serial"@, "chardev:chr0"@,
        "-device"@, "virtio-serial-pci"@,
        "-device"@, "virtconsole,chardev=chr0"@,
        "-mon"@, "chardev=chr0,mode=readline"@,
        "-device"@, "virtio-net-pci,netdev=net0,romfile="@,
        "-netdev"@, "user,id=net0,"@ + forward_rule_spec(port),
        "-cpu"@, "host"@,
        "-M"@, "virt"@,
        "-enable-kvm"@,
        "-M"@, "gic-version=3,its=on"@,
        "-smp"@, "2"@,
        "-m"@, "1G"@,
        "-nographic"@,
        "-kernel"@, "/mnt/out/bin/Image"@,
        "-initrd"@, "/mnt/out-br/images/rootfs.cpio"@,
        "-append"@, "console=hvc0"@,
    ]
}

/// Arguments that only a confidential guest gets: the realm object with its
/// measurement settings, and the device tree blob.
pub open spec fn confidential_args_spec() -> Seq<Seq<char>> {
    seq![
        "-M"@, "confidential-guest-support=rme0"@,
        "-object"@, "rme-guest,id=rme0,measurement-algorithm=sha512,personalization-value=ICAgICAgICAgICAgICAgICAgICAgICAgICAgICAgICAgICAgICAgICAgICAgICAgICAgIEknbSBhIHRlYXBvdA==,measurement-log=off"@,
        "-dtb"@, "/root/qemu-gen.dtb"@,
    ]
}

/// Arguments that expose the 4 KiB of host physical memory at `offset` to the guest.
pub open spec fn shared_args_spec(offset: Seq<char>) -> Seq<Seq<char>> {
    seq![
        "-object"@, "memory-backend-file,id=physmem,size=4K,mem-path=/dev/mem,offset="@ + trimmed(offset) + ",share=on"@,
        "-device"@, "ivshmem-plain,memdev=physmem,id=ivshmem0"@,
    ]
}

/// The whole argument list of a guest.
pub open spec fn command_line_spec(port: u16, typ: QemuType, shared: Option<Seq<char>>) -> Seq<Seq<char>> {
    basic_args_spec(port)
        + (if typ == QemuType::Confidential { confidential_args_spec() } else { seq![] })
        + (match shared { Some(offset) => shared_args_spec(offset), None => seq![] })
}

fn push_text(v: &mut Vec<String>, s: &str)
    ensures
        texts(final(v)@) == texts(old(v)@).push(s@),
{
    let t = String::from_str(s);
    v.push(t);
    assert(texts(final(v)@) =~= texts(old(v)@).push(s@));
}

/// The port forwarding rule of a guest on `port`, as it appears on its command line.
pub fn forward_rule(port: u16) -> (r: String)
    ensures
        r@ == forward_rule_spec(port),
{
    let mut r = String::from_str("hostfwd=tcp::");
    let d = decimal_text(port);
    r.append(d.as_str());
    r.append("-:8080");
    r
}

pub fn basic_vmm_args(port: u16) -> (r: Vec<String>)
    ensures
        texts(r@) == basic_args_spec(port),
{
    let mut v: Vec<String> = Vec::new();
    push_text(&mut v, "-nodefaults");
    push_text(&mut v, "-chardev");
    push_text(&mut v, "stdio,mux=on,id=chr0,signal=off");
    push_text(&mut v, "-serial");
    push_text(&mut v, "chardev:chr0");
    push_text(&mut v, "-device");
    push_text(&mut v, "virtio-serial-pci");
    push_text(&mut v, "-device");
    push_text(&mut v, "virtconsole,chardev=chr0");
    push_text(&mut v, "-mon");
    push_text(&mut v, "chardev=chr0,mode=readline");
    push_text(&mut v, "-device");
    push_text(&mut v, "virtio-net-pci,netdev=net0,romfile=");
    push_text(&mut v, "-netdev");
    let mut net = String::from_str("user,id=net0,");
    let rule = forward_rule(port);
    net.append(rule.as_str());
    push_text(&mut v, net.as_str());
    push_text(&mut v, "-cpu");
    push_text(&mut v, "host");
    push_text(&mut v, "-M");
    push_text(&mut v, "virt");
    push_text(&mut v, "-enable-kvm");
    push_text(&mut v, "-M");
    push_text(&mut v, "gic-version=3,its=on");
    push_text(&mut v, "-smp");
    push_text(&mut v, "2");
    push_text(&mut v, "-m");
    push_text(&mut v, "1G");
    push_text(&mut v, "-nographic");
    push_text(&mut v, "-kernel");
    push_text(&mut v, "/mnt/out/bin/Image");
    push_text(&mut v, "-initrd");
    push_text(&mut v, "/mnt/out-br/images/rootfs.cpio");
    push_text(&mut v, "-append");
    push_text(&mut v, "console=hvc0");
    assert(texts(v@) =~= basic_args_spec(port));
    v
}

pub fn confidential_vmm_extra_args() -> (r: Vec<String>)
    ensures
        texts(r@) == confidential_args_spec(),
{
    let mut v: Vec<String> = Vec::new();
    push_text(&mut v, "-M");
    push_text(&mut v, "confidential-guest-support=rme0");
    push_text(&mut v, "-object");
    push_text(&mut v, "rme-guest,id=rme0,measurement-algorithm=sha512,personalization-value=ICAgICAgICAgICAgICAgICAgICAgICAgICAgICAgICAgICAgICAgICAgICAgICAgICAgIEknbSBhIHRlYXBvdA==,measurement-log=off");
    push_text(&mut v, "-dtb");
    push_text(&mut v, "/root/qemu-gen.dtb");
    assert(texts(v@) =~= confidential_args_spec());
    v
}

pub fn shared_vmm_extra_args(offset: &str) -> (r: Vec<String>)
    ensures
        texts(r@) == shared_args_spec(offset@),
{
    let t = trim_text(offset);
    let mut v: Vec<String> = Vec::new();
    push_text(&mut v, "-object");
    let mut mem = String::from_str("memory-backend-file,id=physmem,size=4K,mem-path=/dev/mem,offset=");
    mem.append(t);
    mem.append(",share=on");
    push_text(&mut v, mem.as_str());
    push_text(&mut v, "-device");
    push_text(&mut v, "ivshmem-plain,memdev=physmem,id=ivshmem0");
    assert(texts(v@) =~= shared_args_spec(offset@));
    v
}

fn append_all(v: &mut Vec<String>, w: Vec<String>)
    ensures
        texts(final(v)@) == texts(old(v)@) + texts(w@),
{
    let ghost added = w@;
    let mut w = w;
    v.append(&mut w);
    assert(texts(final(v)@) =~= texts(old(v)@) + texts(added));
}

/// The complete argument list of a guest of kind `typ` forwarded to `port`,
/// sharing the physical window at `shared` if one is given.
pub fn vmm_command_line(port: u16, typ: QemuType, shared: Option<&str>) -> (r: Vec<String>)
    ensures
        texts(r@) == command_line_spec(port, typ, match shared { Some(s) => Some(s@), None => None }),
{
    let mut v = basic_vmm_args(port);
    if typ == QemuType::Confidential {
        append_all(&mut v, confidential_vmm_extra_args());
    } else {
        assert(texts(v@) =~= texts(v@) + seq![]);
    }
    match shared {
        Some(s) => append_all(&mut v, shared_vmm_extra_args(s)),
        None => {
            assert(texts(v@) =~= texts(v@) + seq![]);
        },
    }
    v
}

/// The argument list of a guest started outside the registry: the basic
/// arguments, the confidential ones for a confidential guest, then `extra`.
pub open spec fn unmanaged_args_spec(port: u16, typ: QemuType, extra: Seq<Seq<char>>) -> Seq<Seq<char>> {
    basic_args_spec(port)
        + (if typ == QemuType::Confidential { confidential_args_spec() } else { seq![] })
        + extra
}

/// What to launch for a guest on `port` that is wanted outside the
/// registry: nothing when one already runs there, as `running` reports,
/// and otherwise its full argument list with `extra` at the end.
pub fn unmanaged_vmm_args(port: u16, typ: QemuType, extra: Vec<String>, running: bool) -> (r: Option<Vec<String>>)
    ensures
        running ==> r is None,
        !running ==> r is Some && texts(r->Some_0@) == unmanaged_args_spec(port, typ, texts(extra@)),
{
    if running {
        return None;
    }
    let mut v = basic_vmm_args(port);
    if typ == QemuType::Confidential {
        append_all(&mut v, confidential_vmm_extra_args());
    } else {
        assert(texts(v@) =~= texts(v@) + seq![]);
    }
    append_all(&mut v, extra);
    Some(v)
}

} // verus!
