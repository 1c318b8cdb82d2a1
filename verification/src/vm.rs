//! The VMs on a node: where their files live, the commands that start,
//! probe and stop them, and how the answers of those commands are read.
use vstd::prelude::*;
use crate::text::{
    chars_eq, chars_of, decimal, decimal_chars, push_chars, push_str,
    string_of, trim, trimmed,
};

verus! {

/// Where VM disks and configurations live on a node (its mounted disk).
pub open spec fn images_path() -> Seq<char> {
    "/mnt/cave"@
}

/// Where VM PID files, sockets and logs live on a node.
pub open spec fn run_path() -> Seq<char> {
    "/var/run/cave"@
}

pub open spec fn vm_file(dir: Seq<char>, name: Seq<char>, suffix: Seq<char>) -> Seq<char> {
    dir + "/"@ + name + suffix
}

fn vm_file_exec(dir: &str, name: &str, suffix: &str) -> (r: String)
    ensures
        r@ == vm_file(dir@, name@, suffix@),
{
    let mut v = chars_of(dir);
    push_str(&mut v, "/");
    push_str(&mut v, name);
    push_str(&mut v, suffix);
    string_of(&v)
}

/// The files of a VM on its node.
#[derive(Debug)]
pub struct VmPaths {
    pub disk: String,
    pub pid_file: String,
    pub qmp_socket: String,
    pub serial_log: String,
    pub config: String,
    pub seed_iso: String,
}

pub fn vm_paths(vm_name: &str) -> (p: VmPaths)
    ensures
        p.disk@ == vm_file(images_path(), vm_name@, ".qcow2"@),
        p.pid_file@ == vm_file(run_path(), vm_name@, ".pid"@),
        p.qmp_socket@ == vm_file(run_path(), vm_name@, ".sock"@),
        p.serial_log@ == vm_file(run_path(), vm_name@, ".log"@),
        p.config@ == vm_file(images_path(), vm_name@, ".conf"@),
        p.seed_iso@ == vm_file(images_path(), vm_name@, "-seed.iso"@),
{
    VmPaths {
        disk: vm_file_exec("/mnt/cave", vm_name, ".qcow2"),
        pid_file: vm_file_exec("/var/run/cave", vm_name, ".pid"),
        qmp_socket: vm_file_exec("/var/run/cave", vm_name, ".sock"),
        serial_log: vm_file_exec("/var/run/cave", vm_name, ".log"),
        config: vm_file_exec("/mnt/cave", vm_name, ".conf"),
        seed_iso: vm_file_exec("/mnt/cave", vm_name, "-seed.iso"),
    }
}

// ---------------------------------------------------------------------------
// Probing
// ---------------------------------------------------------------------------

/// The command that prints `running` when the VM's PID file names a live
/// process.
pub open spec fn running_probe(pid_file: Seq<char>) -> Seq<char> {
    "test -f "@ + pid_file + " && kill -0 $(cat "@ + pid_file + ") 2>/dev/null && echo running"@
}

pub fn running_probe_command(pid_file: &str) -> (r: String)
    ensures
        r@ == running_probe(pid_file@),
{
    let mut v: Vec<char> = Vec::new();
    push_str(&mut v, "test -f ");
    push_str(&mut v, pid_file);
    push_str(&mut v, " && kill -0 $(cat ");
    push_str(&mut v, pid_file);
    push_str(&mut v, ") 2>/dev/null && echo running");
    string_of(&v)
}

/// A VM runs when its probe exited with status 0 and printed `running`.
pub fn is_vm_running(exit_status: i32, output: &str) -> (r: bool)
    ensures
        r == (exit_status == 0 && trim(output@) == "running"@),
{
    exit_status == 0 && chars_eq(&trimmed(output), &chars_of("running"))
}

// ---------------------------------------------------------------------------
// Starting
// ---------------------------------------------------------------------------

/// The QEMU drive option of a cloud-init seed, empty without one.
pub open spec fn seed_drive(seed: Option<Seq<char>>) -> Seq<char> {
    match seed {
        Some(p) => "-drive file="@ + p + ",format=raw,if=virtio,readonly=on"@,
        None => seq![],
    }
}

pub fn seed_drive_option(seed: Option<&str>) -> (r: String)
    ensures
        r@ == seed_drive(match seed {
            Some(p) => Some(p@),
            None => None,
        }),
{
    match seed {
        Some(p) => {
            let mut v: Vec<char> = Vec::new();
            push_str(&mut v, "-drive file=");
            push_str(&mut v, p);
            push_str(&mut v, ",format=raw,if=virtio,readonly=on");
            string_of(&v)
        },
        None => String::new(),
    }
}

/// The daemonizing QEMU command line of a VM, line continuations
/// included.
pub open spec fn qemu_command_spec(
    kvm: bool,
    memory_mb: u32,
    cpus: u32,
    disk_path: Seq<char>,
    seed_drive: Seq<char>,
    mac: Seq<char>,
    serial_log: Seq<char>,
    pid_file: Seq<char>,
    qmp_socket: Seq<char>,
) -> Seq<char> {
    "qemu-system-x86_64 \\\n            "@ + (if kvm {
        "-enable-kvm"@
    } else {
        seq![]
    }) + " \\\n            -m "@ + decimal(memory_mb as nat) + " \\\n            -smp "@ + decimal(
        cpus as nat,
    ) + " \\\n            -cpu host \\\n            -drive file="@ + disk_path
        + ",format=qcow2,if=virtio \\\n            "@ + seed_drive
        + " \\\n            -netdev bridge,id=net0,br=br0 \\\n            -device virtio-net-pci,netdev=net0,mac="@
        + mac + " \\\n            -serial file:"@ + serial_log
        + " \\\n            -display none \\\n            -daemonize \\\n            -pidfile "@
        + pid_file + " \\\n            -qmp unix:"@ + qmp_socket + ",server,nowait"@
}

pub fn qemu_command(
    kvm: bool,
    memory_mb: u32,
    cpus: u32,
    disk_path: &str,
    seed_drive: &str,
    mac: &str,
    serial_log: &str,
    pid_file: &str,
    qmp_socket: &str,
) -> (r: String)
    ensures
        r@ == qemu_command_spec(
            kvm,
            memory_mb,
            cpus,
            disk_path@,
            seed_drive@,
            mac@,
            serial_log@,
            pid_file@,
            qmp_socket@,
        ),
{
    let mut v: Vec<char> = Vec::new();
    push_str(&mut v, "qemu-system-x86_64 \\\n            ");
    if kvm {
        push_str(&mut v, "-enable-kvm");
    }
    push_str(&mut v, " \\\n            -m ");
    push_chars(&mut v, &decimal_chars(memory_mb as u64));
    push_str(&mut v, " \\\n            -smp ");
    push_chars(&mut v, &decimal_chars(cpus as u64));
    push_str(&mut v, " \\\n            -cpu host \\\n            -drive file=");
    push_str(&mut v, disk_path);
    push_str(&mut v, ",format=qcow2,if=virtio \\\n            ");
    push_str(&mut v, seed_drive);
    push_str(
        &mut v,
        " \\\n            -netdev bridge,id=net0,br=br0 \\\n            -device virtio-net-pci,netdev=net0,mac=",
    );
    push_str(&mut v, mac);
    push_str(&mut v, " \\\n            -serial file:");
    push_str(&mut v, serial_log);
    push_str(&mut v, " \\\n            -display none \\\n            -daemonize \\\n            -pidfile ");
    push_str(&mut v, pid_file);
    push_str(&mut v, " \\\n            -qmp unix:");
    push_str(&mut v, qmp_socket);
    push_str(&mut v, ",server,nowait");
    proof {
        assert(v@ =~= qemu_command_spec(
            kvm,
            memory_mb,
            cpus,
            disk_path@,
            seed_drive@,
            mac@,
            serial_log@,
            pid_file@,
            qmp_socket@,
        ));
    }
    string_of(&v)
}

/// The MAC a restarted VM gets: the saved one, or the derived one when
/// none was saved.
pub fn restart_mac(vm_name: &str, saved: &str) -> (r: String)
    ensures
        saved@.len() > 0 ==> r@ == saved@,
        saved@.len() == 0 ==> r@ == crate::mac::mac_from_hash(crate::mac::name_hash(vm_name@)),
{
    if saved.is_empty() {
        crate::mac::generate_mac(vm_name)
    } else {
        String::from_str(saved)
    }
}

/// The configuration a node's auto-start script reads for a VM.
pub open spec fn autostart_config(
    vm_name: Seq<char>,
    memory_mb: u32,
    cpus: u32,
    disk_path: Seq<char>,
    seed: Seq<char>,
) -> Seq<char> {
    "VM_NAME="@ + vm_name + "\nMEMORY_MB="@ + decimal(memory_mb as nat) + "\nCPUS="@ + decimal(
        cpus as nat,
    ) + "\nDISK_PATH="@ + disk_path + "\nSEED_ISO="@ + seed + "\n"@
}

pub fn autostart_config_content(vm_name: &str, memory_mb: u32, cpus: u32, disk_path: &str, seed: &str) -> (r:
    String)
    ensures
        r@ == autostart_config(vm_name@, memory_mb, cpus, disk_path@, seed@),
{
    let mut v: Vec<char> = Vec::new();
    push_str(&mut v, "VM_NAME=");
    push_str(&mut v, vm_name);
    push_str(&mut v, "\nMEMORY_MB=");
    push_chars(&mut v, &decimal_chars(memory_mb as u64));
    push_str(&mut v, "\nCPUS=");
    push_chars(&mut v, &decimal_chars(cpus as u64));
    push_str(&mut v, "\nDISK_PATH=");
    push_str(&mut v, disk_path);
    push_str(&mut v, "\nSEED_ISO=");
    push_str(&mut v, seed);
    push_str(&mut v, "\n");
    string_of(&v)
}

// ---------------------------------------------------------------------------
// Reading a running VM
// ---------------------------------------------------------------------------

/// A running VM as its node reports it.
#[derive(Debug)]
pub struct VmInfo {
    pub name: String,
    pub pid: String,
    pub status: String,
}

/// Reads the PID file of a VM.
pub fn pid_read_command(pid_file: &str) -> (r: String)
    ensures
        r@ == "cat "@ + pid_file@,
{
    let mut v: Vec<char> = Vec::new();
    push_str(&mut v, "cat ");
    push_str(&mut v, pid_file);
    string_of(&v)
}

/// Asks for the memory and processor share of a process.
pub fn ps_command(pid: &str) -> (r: String)
    ensures
        r@ == "ps -p "@ + pid@ + " -o %mem,%cpu --no-headers 2>/dev/null || echo '0 0'"@,
{
    let mut v: Vec<char> = Vec::new();
    push_str(&mut v, "ps -p ");
    push_str(&mut v, pid);
    push_str(&mut v, " -o %mem,%cpu --no-headers 2>/dev/null || echo '0 0'");
    string_of(&v)
}

/// The report of a running VM from what its PID file held.
pub fn vm_info_from(vm_name: &str, pid_output: &str) -> (r: VmInfo)
    ensures
        r.name@ == vm_name@,
        r.pid@ == trim(pid_output@),
        r.status@ == "running"@,
{
    VmInfo {
        name: String::from_str(vm_name),
        pid: string_of(&trimmed(pid_output)),
        status: String::from_str("running"),
    }
}

/// The VM name a node's VM gets when `cave node remove` cleans up after it.
pub fn node_vm_name(hostname: &str) -> (r: String)
    ensures
        r@ == hostname@ + "-vm"@,
{
    let mut v = chars_of(hostname);
    push_str(&mut v, "-vm");
    string_of(&v)
}

} // verus!
