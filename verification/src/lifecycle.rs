//! The life of a VM on its node, as procedures over SSH: starting it after a
//! deploy, restarting it after a reboot, stopping it, deleting it, and
//! mounting the disk that holds it. Each is a state machine in the sense of
//! `crate::remote`.
use vstd::prelude::*;
use crate::mac::{generate_mac, mac_from_hash, name_hash};
use crate::remote::{
    cat2, cat3, cat4, cat5, fail, run, say, send, Action, ActionView, Reply, ReplyView,
};
use crate::text::{decimal, decimal_chars, string_of, trim, trimmed};
use crate::vm::{
    autostart_config, autostart_config_content, images_path, is_vm_running, qemu_command,
    qemu_command_spec, run_path, running_probe, running_probe_command, seed_drive,
    seed_drive_option, vm_file, vm_paths, VmPaths,
};

verus! {

// ---------------------------------------------------------------------------
// Shared pieces
// ---------------------------------------------------------------------------

/// Whether a probe's reply says the VM runs.
pub open spec fn runs(rp: ReplyView) -> bool {
    rp.status == 0 && trim(rp.output) == "running"@
}

pub open spec fn disk_of(vm: Seq<char>) -> Seq<char> {
    vm_file(images_path(), vm, ".qcow2"@)
}

pub open spec fn pid_of(vm: Seq<char>) -> Seq<char> {
    vm_file(run_path(), vm, ".pid"@)
}

pub open spec fn socket_of(vm: Seq<char>) -> Seq<char> {
    vm_file(run_path(), vm, ".sock"@)
}

pub open spec fn log_of(vm: Seq<char>) -> Seq<char> {
    vm_file(run_path(), vm, ".log"@)
}

pub open spec fn config_of(vm: Seq<char>) -> Seq<char> {
    vm_file(images_path(), vm, ".conf"@)
}

pub open spec fn seed_of(vm: Seq<char>) -> Seq<char> {
    vm_file(images_path(), vm, "-seed.iso"@)
}

/// The probe for the VM's process.
pub open spec fn probe(vm: Seq<char>) -> ActionView {
    ActionView::Run(running_probe(pid_of(vm)))
}

/// The probe for hardware acceleration.
pub open spec fn kvm_probe() -> ActionView {
    ActionView::Run("test -e /dev/kvm"@)
}

/// `'<vm>'` framed by the words of a message.
pub open spec fn about(before: Seq<char>, vm: Seq<char>, after: Seq<char>) -> Seq<char> {
    before + vm + after
}

fn probe_action(paths: &VmPaths) -> (r: Action)
    ensures
        r@ == ActionView::Run(running_probe(paths.pid_file@)),
{
    run(running_probe_command(paths.pid_file.as_str()))
}

fn kvm_probe_action() -> (r: Action)
    ensures
        r@ == kvm_probe(),
{
    run(String::from_str("test -e /dev/kvm"))
}

fn reply_runs(reply: &Reply) -> (r: bool)
    ensures
        r == runs(reply@),
{
    is_vm_running(reply.status, reply.output.as_str())
}

fn seed_view(seed: &Option<String>) -> (r: Option<&str>)
    ensures
        match r {
            Some(s) => seed matches Some(t) && s@ == t@,
            None => seed is None,
        },
{
    match seed {
        Some(s) => Some(s.as_str()),
        None => None,
    }
}

pub open spec fn opt_view(o: Option<String>) -> Option<Seq<char>> {
    match o {
        Some(s) => Some(s@),
        None => None,
    }
}

// ---------------------------------------------------------------------------
// Starting a freshly deployed VM
// ---------------------------------------------------------------------------

/// What starting a VM after a deploy needs.
#[derive(Debug)]
pub struct StartVm {
    pub vm_name: String,
    /// The image on the node that a new VM disk is copied from.
    pub image_path: String,
    pub seed_iso: Option<String>,
    pub memory_mb: u32,
    pub cpus: u32,
    pub disk_size_gb: Option<u32>,
}

pub struct StartVmView {
    pub vm_name: Seq<char>,
    pub image_path: Seq<char>,
    pub seed_iso: Option<Seq<char>>,
    pub memory_mb: u32,
    pub cpus: u32,
    pub disk_size_gb: Option<u32>,
}

impl View for StartVm {
    type V = StartVmView;

    open spec fn view(&self) -> StartVmView {
        StartVmView {
            vm_name: self.vm_name@,
            image_path: self.image_path@,
            seed_iso: opt_view(self.seed_iso),
            memory_mb: self.memory_mb,
            cpus: self.cpus,
            disk_size_gb: self.disk_size_gb,
        }
    }
}

/// Where starting a VM stands: the stage names what was asked last.
#[derive(Debug, Clone, Copy)]
pub enum StartStage {
    Begin,
    Probed,
    DiskTested,
    Copying,
    Copied,
    Resizing,
    Resized,
    KvmTested,
    Launching { kvm: bool },
    Launched,
    Settled,
    Verified,
    Saved,
    Done,
}

/// The command that writes a file on the node through a here-document.
pub open spec fn write_file(path: Seq<char>, content: Seq<char>) -> Seq<char> {
    "cat > "@ + path + " << 'EOF'\n"@ + content + "EOF"@
}

/// The command that grows a VM disk to `size_gb` GB.
pub open spec fn resize_command(disk: Seq<char>, size_gb: u32) -> Seq<char> {
    "qemu-img resize "@ + disk + " "@ + decimal(size_gb as nat) + "G"@
}

pub fn resize_disk_command(disk: &str, size_gb: u32) -> (r: String)
    ensures
        r@ == resize_command(disk@, size_gb),
{
    let n = string_of(&decimal_chars(size_gb as u64));
    cat5("qemu-img resize ", disk, " ", n.as_str(), "G")
}

/// The configuration a started VM leaves on its node for auto-start.
pub open spec fn start_config(p: StartVmView) -> Seq<char> {
    autostart_config(
        p.vm_name,
        p.memory_mb,
        p.cpus,
        disk_of(p.vm_name),
        match p.seed_iso {
            Some(s) => s,
            None => seq![],
        },
    )
}

/// One step of starting a VM: from a new disk (copied from the image and
/// grown when a size was chosen) or the disk already there, with KVM when
/// the node has it, checked to run, its configuration saved for
/// auto-start.
pub open spec fn start_next(p: StartVmView, st: StartStage, rp: ReplyView) -> (StartStage, ActionView) {
    let vm = p.vm_name;
    let disk = disk_of(vm);
    match st {
        StartStage::Begin => (StartStage::Probed, probe(vm)),
        StartStage::Probed => if runs(rp) {
            (StartStage::Done, ActionView::Fail(about("VM '"@, vm, "' is already running"@)))
        } else {
            (StartStage::DiskTested, ActionView::Run("test -f "@ + disk))
        },
        StartStage::DiskTested => if rp.status != 0 {
            (StartStage::Copying, ActionView::Say("  Creating VM disk from image..."@))
        } else {
            (StartStage::KvmTested, kvm_probe())
        },
        StartStage::Copying => (
            StartStage::Copied,
            ActionView::Run("cp "@ + p.image_path + " "@ + disk),
        ),
        StartStage::Copied => if rp.status != 0 {
            (StartStage::Done, ActionView::Fail("Failed to copy image to VM storage"@))
        } else {
            match p.disk_size_gb {
                Some(g) => (
                    StartStage::Resizing,
                    ActionView::Say("  Resizing disk to "@ + decimal(g as nat) + "GB..."@),
                ),
                None => (StartStage::KvmTested, kvm_probe()),
            }
        },
        StartStage::Resizing => match p.disk_size_gb {
            Some(g) => (StartStage::Resized, ActionView::Run(resize_command(disk, g))),
            None => (StartStage::KvmTested, kvm_probe()),
        },
        StartStage::Resized => if rp.status != 0 {
            (StartStage::Done, ActionView::Fail("Failed to resize disk: "@ + rp.output))
        } else {
            (StartStage::KvmTested, kvm_probe())
        },
        StartStage::KvmTested => (
            StartStage::Launching { kvm: rp.status == 0 },
            ActionView::Say("  Starting VM..."@),
        ),
        StartStage::Launching { kvm } => (
            StartStage::Launched,
            ActionView::Run(
                qemu_command_spec(
                    kvm,
                    p.memory_mb,
                    p.cpus,
                    disk,
                    seed_drive(p.seed_iso),
                    mac_from_hash(name_hash(vm)),
                    log_of(vm),
                    pid_of(vm),
                    socket_of(vm),
                ),
            ),
        ),
        StartStage::Launched => if rp.status != 0 {
            (StartStage::Done, ActionView::Fail("Failed to start VM: "@ + rp.output))
        } else {
            (StartStage::Settled, ActionView::Sleep(1))
        },
        StartStage::Settled => (StartStage::Verified, probe(vm)),
        StartStage::Verified => if !runs(rp) {
            (StartStage::Done, ActionView::Fail("VM started but is not running - check logs"@))
        } else {
            (StartStage::Saved, ActionView::Send(write_file(config_of(vm), start_config(p))))
        },
        StartStage::Saved => (StartStage::Done, ActionView::Say(about("  VM '"@, vm, "' started"@))),
        StartStage::Done => (StartStage::Done, ActionView::Finish),
    }
}

fn write_file_command(path: &str, content: &str) -> (r: String)
    ensures
        r@ == write_file(path@, content@),
{
    cat5("cat > ", path, " << 'EOF'\n", content, "EOF")
}

/// Takes one step of starting a VM.
pub fn start_vm_step(p: &StartVm, stage: StartStage, reply: &Reply) -> (r: (StartStage, Action))
    ensures
        (r.0, r.1@) == start_next(p@, stage, reply@),
{
    let vm = p.vm_name.as_str();
    let paths = vm_paths(vm);
    match stage {
        StartStage::Begin => (StartStage::Probed, probe_action(&paths)),
        StartStage::Probed => if reply_runs(reply) {
            (StartStage::Done, fail(cat3("VM '", vm, "' is already running")))
        } else {
            (StartStage::DiskTested, run(cat2("test -f ", paths.disk.as_str())))
        },
        StartStage::DiskTested => if reply.status != 0 {
            (StartStage::Copying, say(String::from_str("  Creating VM disk from image...")))
        } else {
            (StartStage::KvmTested, kvm_probe_action())
        },
        StartStage::Copying => (
            StartStage::Copied,
            run(cat4("cp ", p.image_path.as_str(), " ", paths.disk.as_str())),
        ),
        StartStage::Copied => if reply.status != 0 {
            (StartStage::Done, fail(String::from_str("Failed to copy image to VM storage")))
        } else {
            match p.disk_size_gb {
                Some(g) => {
                    let n = string_of(&decimal_chars(g as u64));
                    (StartStage::Resizing, say(cat3("  Resizing disk to ", n.as_str(), "GB...")))
                },
                None => (StartStage::KvmTested, kvm_probe_action()),
            }
        },
        StartStage::Resizing => match p.disk_size_gb {
            Some(g) => (StartStage::Resized, run(resize_disk_command(paths.disk.as_str(), g))),
            None => (StartStage::KvmTested, kvm_probe_action()),
        },
        StartStage::Resized => if reply.status != 0 {
            (StartStage::Done, fail(cat2("Failed to resize disk: ", reply.output.as_str())))
        } else {
            (StartStage::KvmTested, kvm_probe_action())
        },
        StartStage::KvmTested => (
            StartStage::Launching { kvm: reply.status == 0 },
            say(String::from_str("  Starting VM...")),
        ),
        StartStage::Launching { kvm } => {
            let drive = seed_drive_option(seed_view(&p.seed_iso));
            let mac = generate_mac(vm);
            let cmd = qemu_command(
                kvm,
                p.memory_mb,
                p.cpus,
                paths.disk.as_str(),
                drive.as_str(),
                mac.as_str(),
                paths.serial_log.as_str(),
                paths.pid_file.as_str(),
                paths.qmp_socket.as_str(),
            );
            (StartStage::Launched, run(cmd))
        },
        StartStage::Launched => if reply.status != 0 {
            (StartStage::Done, fail(cat2("Failed to start VM: ", reply.output.as_str())))
        } else {
            (StartStage::Settled, Action::Sleep { seconds: 1 })
        },
        StartStage::Settled => (StartStage::Verified, probe_action(&paths)),
        StartStage::Verified => if !reply_runs(reply) {
            (StartStage::Done, fail(String::from_str("VM started but is not running - check logs")))
        } else {
            let seed: &str = match &p.seed_iso {
                Some(s) => s.as_str(),
                None => "",
            };
            proof {
                reveal_strlit("");
            }
            let content = autostart_config_content(vm, p.memory_mb, p.cpus, paths.disk.as_str(), seed);
            (StartStage::Saved, send(write_file_command(paths.config.as_str(), content.as_str())))
        },
        StartStage::Saved => (StartStage::Done, say(cat3("  VM '", vm, "' started"))),
        StartStage::Done => (StartStage::Done, Action::Finish),
    }
}

// ---------------------------------------------------------------------------
// Restarting a VM after its node rebooted
// ---------------------------------------------------------------------------

/// What restarting a VM needs: the disk already on the node and the MAC
/// it had (empty for the one derived from its name).
#[derive(Debug)]
pub struct RestartVm {
    pub vm_name: String,
    pub disk_path: String,
    pub seed_iso: Option<String>,
    pub memory_mb: u32,
    pub cpus: u32,
    pub mac: String,
}

pub struct RestartVmView {
    pub vm_name: Seq<char>,
    pub disk_path: Seq<char>,
    pub seed_iso: Option<Seq<char>>,
    pub memory_mb: u32,
    pub cpus: u32,
    pub mac: Seq<char>,
}

impl View for RestartVm {
    type V = RestartVmView;

    open spec fn view(&self) -> RestartVmView {
        RestartVmView {
            vm_name: self.vm_name@,
            disk_path: self.disk_path@,
            seed_iso: opt_view(self.seed_iso),
            memory_mb: self.memory_mb,
            cpus: self.cpus,
            mac: self.mac@,
        }
    }
}

#[derive(Debug, Clone, Copy)]
pub enum RestartStage {
    Begin,
    DirMade,
    Probed,
    KvmTested,
    Launched,
    Settled,
    Verified,
    Done,
}

/// The MAC a restarted VM gets: the saved one, else the one derived from
/// its name.
pub open spec fn restart_mac_of(p: RestartVmView) -> Seq<char> {
    if p.mac.len() == 0 {
        mac_from_hash(name_hash(p.vm_name))
    } else {
        p.mac
    }
}

/// One step of restarting a VM: nothing when it already runs, else
/// launched with its saved MAC and checked to run.
pub open spec fn restart_next(p: RestartVmView, st: RestartStage, rp: ReplyView) -> (RestartStage, ActionView) {
    let vm = p.vm_name;
    match st {
        RestartStage::Begin => (RestartStage::DirMade, ActionView::Send("mkdir -p "@ + run_path())),
        RestartStage::DirMade => (RestartStage::Probed, probe(vm)),
        RestartStage::Probed => if runs(rp) {
            (RestartStage::Done, ActionView::Finish)
        } else {
            (RestartStage::KvmTested, kvm_probe())
        },
        RestartStage::KvmTested => (
            RestartStage::Launched,
            ActionView::Run(
                qemu_command_spec(
                    rp.status == 0,
                    p.memory_mb,
                    p.cpus,
                    p.disk_path,
                    seed_drive(p.seed_iso),
                    restart_mac_of(p),
                    log_of(vm),
                    pid_of(vm),
                    socket_of(vm),
                ),
            ),
        ),
        RestartStage::Launched => if rp.status != 0 {
            (RestartStage::Done, ActionView::Fail("Failed to start VM: "@ + rp.output))
        } else {
            (RestartStage::Settled, ActionView::Sleep(1))
        },
        RestartStage::Settled => (RestartStage::Verified, probe(vm)),
        RestartStage::Verified => if !runs(rp) {
            (RestartStage::Done, ActionView::Fail("VM started but is not running - check logs"@))
        } else {
            (RestartStage::Done, ActionView::Finish)
        },
        RestartStage::Done => (RestartStage::Done, ActionView::Finish),
    }
}

/// Takes one step of restarting a VM.
pub fn restart_vm_step(p: &RestartVm, stage: RestartStage, reply: &Reply) -> (r: (RestartStage, Action))
    ensures
        (r.0, r.1@) == restart_next(p@, stage, reply@),
{
    let vm = p.vm_name.as_str();
    let paths = vm_paths(vm);
    match stage {
        RestartStage::Begin => (RestartStage::DirMade, send(cat2("mkdir -p ", "/var/run/cave"))),
        RestartStage::DirMade => (RestartStage::Probed, probe_action(&paths)),
        RestartStage::Probed => if reply_runs(reply) {
            (RestartStage::Done, Action::Finish)
        } else {
            (RestartStage::KvmTested, kvm_probe_action())
        },
        RestartStage::KvmTested => {
            let drive = seed_drive_option(seed_view(&p.seed_iso));
            let mac = crate::vm::restart_mac(vm, p.mac.as_str());
            let cmd = qemu_command(
                reply.status == 0,
                p.memory_mb,
                p.cpus,
                p.disk_path.as_str(),
                drive.as_str(),
                mac.as_str(),
                paths.serial_log.as_str(),
                paths.pid_file.as_str(),
                paths.qmp_socket.as_str(),
            );
            (RestartStage::Launched, run(cmd))
        },
        RestartStage::Launched => if reply.status != 0 {
            (RestartStage::Done, fail(cat2("Failed to start VM: ", reply.output.as_str())))
        } else {
            (RestartStage::Settled, Action::Sleep { seconds: 1 })
        },
        RestartStage::Settled => (RestartStage::Verified, probe_action(&paths)),
        RestartStage::Verified => if !reply_runs(reply) {
            (RestartStage::Done, fail(String::from_str("VM started but is not running - check logs")))
        } else {
            (RestartStage::Done, Action::Finish)
        },
        RestartStage::Done => (RestartStage::Done, Action::Finish),
    }
}

// ---------------------------------------------------------------------------
// Stopping
// ---------------------------------------------------------------------------

/// How many one-second waits a graceful shutdown gets.
pub const GRACE_POLLS: u64 = 30;

#[derive(Debug, Clone, Copy)]
pub enum StopStage {
    Begin,
    Probed,
    Signalling,
    Signalled,
    /// Waited `polls` seconds for the VM to go.
    Waiting { polls: u64 },
    Polled { polls: u64 },
    Graceful,
    Forcing,
    PidRead,
    Killed,
    Cleaned,
    Done,
}

/// The QMP request that asks the guest to power down.
pub open spec fn powerdown_command(socket: Seq<char>) -> Seq<char> {
    "echo '{\"execute\":\"qmp_capabilities\"}{\"execute\":\"system_powerdown\"}' | nc -U "@ + socket
        + " 2>/dev/null"@
}

/// Removing the VM's run files (not its disk).
pub open spec fn cleanup_command(vm: Seq<char>) -> Seq<char> {
    "rm -f "@ + pid_of(vm) + " "@ + socket_of(vm)
}

/// One step of stopping a VM: a power-down request first, up to thirty
/// one-second checks, then `kill -9` of the saved PID; its run files are
/// removed either way.
pub open spec fn stop_next(vm: Seq<char>, st: StopStage, rp: ReplyView) -> (StopStage, ActionView) {
    match st {
        StopStage::Begin => (StopStage::Probed, probe(vm)),
        StopStage::Probed => if !runs(rp) {
            (StopStage::Done, ActionView::Say(about("  VM '"@, vm, "' is not running"@)))
        } else {
            (StopStage::Signalling, ActionView::Say("  Sending shutdown signal..."@))
        },
        StopStage::Signalling => (StopStage::Signalled, ActionView::Run(powerdown_command(socket_of(vm)))),
        StopStage::Signalled => if rp.status == 0 {
            (StopStage::Waiting { polls: 1 }, ActionView::Sleep(1))
        } else {
            (StopStage::Forcing, ActionView::Say("  Force stopping VM..."@))
        },
        StopStage::Waiting { polls } => (StopStage::Polled { polls }, probe(vm)),
        StopStage::Polled { polls } => if !runs(rp) {
            (StopStage::Graceful, ActionView::Say(about("  VM '"@, vm, "' stopped gracefully"@)))
        } else if polls < GRACE_POLLS {
            (StopStage::Waiting { polls: (polls + 1) as u64 }, ActionView::Sleep(1))
        } else {
            (StopStage::Forcing, ActionView::Say("  Force stopping VM..."@))
        },
        StopStage::Graceful => (StopStage::Done, ActionView::Send(cleanup_command(vm))),
        StopStage::Forcing => (StopStage::PidRead, ActionView::Run("cat "@ + pid_of(vm) + " 2>/dev/null"@)),
        StopStage::PidRead => if trim(rp.output).len() > 0 {
            (
                StopStage::Killed,
                ActionView::Send("kill -9 "@ + trim(rp.output) + " 2>/dev/null || true"@),
            )
        } else {
            (StopStage::Cleaned, ActionView::Send(cleanup_command(vm)))
        },
        StopStage::Killed => (StopStage::Cleaned, ActionView::Send(cleanup_command(vm))),
        StopStage::Cleaned => (StopStage::Done, ActionView::Say(about("  VM '"@, vm, "' stopped"@))),
        StopStage::Done => (StopStage::Done, ActionView::Finish),
    }
}

/// A stage of stopping that can be reached: the wait count stays between
/// one and the grace period.
pub open spec fn stop_stage_ok(st: StopStage) -> bool {
    match st {
        StopStage::Waiting { polls } => 1 <= polls <= GRACE_POLLS,
        StopStage::Polled { polls } => 1 <= polls <= GRACE_POLLS,
        _ => true,
    }
}

/// How far stopping is from its end, in steps at most.
pub open spec fn stop_rank(st: StopStage) -> int {
    match st {
        StopStage::Begin => 68,
        StopStage::Probed => 67,
        StopStage::Signalling => 66,
        StopStage::Signalled => 65,
        StopStage::Waiting { polls } => 6 + 2 * (GRACE_POLLS - polls),
        StopStage::Polled { polls } => 5 + 2 * (GRACE_POLLS - polls),
        StopStage::Forcing => 4,
        StopStage::PidRead => 3,
        StopStage::Killed => 2,
        StopStage::Graceful => 1,
        StopStage::Cleaned => 1,
        StopStage::Done => 0,
    }
}

/// Stopping a VM always comes to an end, whatever the node answers: each
/// step before the end brings it closer, so it finishes within 68 steps;
/// at the end it only reports success.
pub proof fn lemma_stop_ends(vm: Seq<char>, st: StopStage, rp: ReplyView)
    requires
        stop_stage_ok(st),
    ensures
        stop_stage_ok(stop_next(vm, st, rp).0),
        st is Done ==> stop_next(vm, st, rp).1 is Finish,
        !(st is Done) ==> 0 <= stop_rank(stop_next(vm, st, rp).0) < stop_rank(st) <= 68,
{
}

fn cleanup_action(paths: &VmPaths) -> (r: Action)
    ensures
        r@ == ActionView::Send("rm -f "@ + paths.pid_file@ + " "@ + paths.qmp_socket@),
{
    send(cat4("rm -f ", paths.pid_file.as_str(), " ", paths.qmp_socket.as_str()))
}

/// Takes one step of stopping a VM.
pub fn stop_vm_step(vm_name: &str, stage: StopStage, reply: &Reply) -> (r: (StopStage, Action))
    ensures
        (r.0, r.1@) == stop_next(vm_name@, stage, reply@),
{
    let paths = vm_paths(vm_name);
    match stage {
        StopStage::Begin => (StopStage::Probed, probe_action(&paths)),
        StopStage::Probed => if !reply_runs(reply) {
            (StopStage::Done, say(cat3("  VM '", vm_name, "' is not running")))
        } else {
            (StopStage::Signalling, say(String::from_str("  Sending shutdown signal...")))
        },
        StopStage::Signalling => (
            StopStage::Signalled,
            run(
                cat3(
                    "echo '{\"execute\":\"qmp_capabilities\"}{\"execute\":\"system_powerdown\"}' | nc -U ",
                    paths.qmp_socket.as_str(),
                    " 2>/dev/null",
                ),
            ),
        ),
        StopStage::Signalled => if reply.status == 0 {
            (StopStage::Waiting { polls: 1 }, Action::Sleep { seconds: 1 })
        } else {
            (StopStage::Forcing, say(String::from_str("  Force stopping VM...")))
        },
        StopStage::Waiting { polls } => (StopStage::Polled { polls }, probe_action(&paths)),
        StopStage::Polled { polls } => if !reply_runs(reply) {
            (StopStage::Graceful, say(cat3("  VM '", vm_name, "' stopped gracefully")))
        } else if polls < GRACE_POLLS {
            (StopStage::Waiting { polls: polls + 1 }, Action::Sleep { seconds: 1 })
        } else {
            (StopStage::Forcing, say(String::from_str("  Force stopping VM...")))
        },
        StopStage::Graceful => (StopStage::Done, cleanup_action(&paths)),
        StopStage::Forcing => (
            StopStage::PidRead,
            run(cat3("cat ", paths.pid_file.as_str(), " 2>/dev/null")),
        ),
        StopStage::PidRead => {
            let pid = string_of(&trimmed(reply.output.as_str()));
            if !pid.as_str().is_empty() {
                (StopStage::Killed, send(cat3("kill -9 ", pid.as_str(), " 2>/dev/null || true")))
            } else {
                (StopStage::Cleaned, cleanup_action(&paths))
            }
        },
        StopStage::Killed => (StopStage::Cleaned, cleanup_action(&paths)),
        StopStage::Cleaned => (StopStage::Done, say(cat3("  VM '", vm_name, "' stopped"))),
        StopStage::Done => (StopStage::Done, Action::Finish),
    }
}

// ---------------------------------------------------------------------------
// Deleting
// ---------------------------------------------------------------------------

#[derive(Debug, Clone, Copy)]
pub enum DeleteStage {
    Begin,
    Probed,
    /// Stopping the VM first.
    Stopping { stop: StopStage },
    Removed,
    Done,
}

/// Removing the VM's disk, configuration and seed.
pub open spec fn remove_command(vm: Seq<char>) -> Seq<char> {
    "rm -f "@ + disk_of(vm) + " "@ + config_of(vm) + " "@ + seed_of(vm)
}

/// One step of deleting a VM: stopped first when it runs, then its disk,
/// configuration and seed removed.
pub open spec fn delete_next(vm: Seq<char>, st: DeleteStage, rp: ReplyView) -> (DeleteStage, ActionView) {
    match st {
        DeleteStage::Begin => (DeleteStage::Probed, probe(vm)),
        DeleteStage::Probed => if runs(rp) {
            let (s, a) = stop_next(vm, StopStage::Begin, rp);
            (DeleteStage::Stopping { stop: s }, a)
        } else {
            (DeleteStage::Removed, ActionView::Send(remove_command(vm)))
        },
        DeleteStage::Stopping { stop } => {
            let (s, a) = stop_next(vm, stop, rp);
            if a is Finish {
                (DeleteStage::Removed, ActionView::Send(remove_command(vm)))
            } else {
                (DeleteStage::Stopping { stop: s }, a)
            }
        },
        DeleteStage::Removed => (DeleteStage::Done, ActionView::Say(about("  VM '"@, vm, "' deleted"@))),
        DeleteStage::Done => (DeleteStage::Done, ActionView::Finish),
    }
}

fn remove_action(paths: &VmPaths) -> (r: Action)
    ensures
        r@ == ActionView::Send(
            "rm -f "@ + paths.disk@ + " "@ + paths.config@ + " "@ + paths.seed_iso@,
        ),
{
    let a = cat5("rm -f ", paths.disk.as_str(), " ", paths.config.as_str(), " ");
    send(cat2(a.as_str(), paths.seed_iso.as_str()))
}

/// Takes one step of deleting a VM.
pub fn delete_vm_step(vm_name: &str, stage: DeleteStage, reply: &Reply) -> (r: (DeleteStage, Action))
    ensures
        (r.0, r.1@) == delete_next(vm_name@, stage, reply@),
{
    let paths = vm_paths(vm_name);
    match stage {
        DeleteStage::Begin => (DeleteStage::Probed, probe_action(&paths)),
        DeleteStage::Probed => if reply_runs(reply) {
            let (s, a) = stop_vm_step(vm_name, StopStage::Begin, reply);
            (DeleteStage::Stopping { stop: s }, a)
        } else {
            (DeleteStage::Removed, remove_action(&paths))
        },
        DeleteStage::Stopping { stop } => {
            let (s, a) = stop_vm_step(vm_name, stop, reply);
            match a {
                Action::Finish => (DeleteStage::Removed, remove_action(&paths)),
                _ => (DeleteStage::Stopping { stop: s }, a),
            }
        },
        DeleteStage::Removed => (DeleteStage::Done, say(cat3("  VM '", vm_name, "' deleted"))),
        DeleteStage::Done => (DeleteStage::Done, Action::Finish),
    }
}

// ---------------------------------------------------------------------------
// Mounting the VM disk
// ---------------------------------------------------------------------------

/// Where mounting the storage disk stands; the later stages carry the
/// partition or disk being formatted.
#[derive(Debug)]
pub enum MountStage {
    Begin,
    DirMade,
    Checked,
    ToolsReady,
    Found,
    TriedExisting,
    Sized,
    Formatting { target: String },
    LongTimeout { target: String },
    Formatted { target: String },
    FormatFailed { target: String, output: String },
    Restored { target: String },
    Mounted { target: String },
    Done,
}

pub enum MountStageView {
    Begin,
    DirMade,
    Checked,
    ToolsReady,
    Found,
    TriedExisting,
    Sized,
    Formatting(Seq<char>),
    LongTimeout(Seq<char>),
    Formatted(Seq<char>),
    FormatFailed(Seq<char>, Seq<char>),
    Restored(Seq<char>),
    Mounted(Seq<char>),
    Done,
}

impl View for MountStage {
    type V = MountStageView;

    open spec fn view(&self) -> MountStageView {
        match self {
            MountStage::Begin => MountStageView::Begin,
            MountStage::DirMade => MountStageView::DirMade,
            MountStage::Checked => MountStageView::Checked,
            MountStage::ToolsReady => MountStageView::ToolsReady,
            MountStage::Found => MountStageView::Found,
            MountStage::TriedExisting => MountStageView::TriedExisting,
            MountStage::Sized => MountStageView::Sized,
            MountStage::Formatting { target } => MountStageView::Formatting(target@),
            MountStage::LongTimeout { target } => MountStageView::LongTimeout(target@),
            MountStage::Formatted { target } => MountStageView::Formatted(target@),
            MountStage::FormatFailed { target, output } => MountStageView::FormatFailed(target@, output@),
            MountStage::Restored { target } => MountStageView::Restored(target@),
            MountStage::Mounted { target } => MountStageView::Mounted(target@),
            MountStage::Done => MountStageView::Done,
        }
    }
}

/// The search for an ext4 partition of the disk, printing the first.
pub open spec fn ext4_search(disk: Seq<char>) -> Seq<char> {
    "for p in /dev/"@ + disk + "*; do\n            if [ -b \"$p\" ] && blkid -o value -s TYPE \"$p\" 2>/dev/null | grep -q ext4; then\n                echo \"$p\"\n                break\n            fi\n        done"@
}

/// The search for the disk's largest partition, printing it.
pub open spec fn largest_search(disk: Seq<char>) -> Seq<char> {
    "ls /dev/"@ + disk + "* 2>/dev/null | grep -E '"@ + disk + "p?[0-9]+$' | while read p; do\n            size=$(cat /sys/class/block/$(basename $p)/size 2>/dev/null || echo 0)\n            echo \"$size $p\"\n        done | sort -rn | head -1 | awk '{print $2}'"@
}

/// What gets formatted: the largest partition found, else the whole disk.
pub open spec fn format_target(disk: Seq<char>, found: Seq<char>) -> Seq<char> {
    if trim(found).len() == 0 {
        "/dev/"@ + disk
    } else {
        trim(found)
    }
}

pub open spec fn mount_command(device: Seq<char>) -> Seq<char> {
    "mount "@ + device + " "@ + images_path()
}

/// One step of mounting the disk that holds the VMs: nothing when
/// something is mounted already; else an existing ext4 partition of the
/// disk; else its largest partition (or the whole disk) formatted as ext4,
/// with five minutes for that, and mounted.
pub open spec fn mount_next(disk: Seq<char>, st: MountStageView, rp: ReplyView) -> (MountStageView, ActionView) {
    match st {
        MountStageView::Begin => (MountStageView::DirMade, ActionView::Send("mkdir -p "@ + images_path())),
        MountStageView::DirMade => (MountStageView::Checked, ActionView::Run("mountpoint -q "@ + images_path())),
        MountStageView::Checked => if rp.status == 0 {
            (MountStageView::Done, ActionView::Finish)
        } else {
            (
                MountStageView::ToolsReady,
                ActionView::Send(
                    "modprobe ext4 2>/dev/null; apk add --no-cache e2fsprogs >/dev/null 2>&1"@,
                ),
            )
        },
        MountStageView::ToolsReady => (MountStageView::Found, ActionView::Run(ext4_search(disk))),
        MountStageView::Found => if trim(rp.output).len() > 0 {
            (MountStageView::TriedExisting, ActionView::Run(mount_command(trim(rp.output))))
        } else {
            (MountStageView::Sized, ActionView::Run(largest_search(disk)))
        },
        MountStageView::TriedExisting => if rp.status == 0 {
            (MountStageView::Done, ActionView::Finish)
        } else {
            (MountStageView::Sized, ActionView::Run(largest_search(disk)))
        },
        MountStageView::Sized => {
            let t = format_target(disk, rp.output);
            (MountStageView::Formatting(t), ActionView::Say("  Formatting "@ + t + " as ext4..."@))
        },
        MountStageView::Formatting(t) => (MountStageView::LongTimeout(t), ActionView::Timeout(300)),
        MountStageView::LongTimeout(t) => (
            MountStageView::Formatted(t),
            ActionView::Run("mkfs.ext4 -F "@ + t + " 2>&1"@),
        ),
        MountStageView::Formatted(t) => if rp.status != 0 {
            (MountStageView::FormatFailed(t, rp.output), ActionView::Timeout(10))
        } else {
            (MountStageView::Restored(t), ActionView::Timeout(10))
        },
        MountStageView::FormatFailed(t, out) => (
            MountStageView::Done,
            ActionView::Fail("Failed to format disk "@ + t + ": "@ + out),
        ),
        MountStageView::Restored(t) => (MountStageView::Mounted(t), ActionView::Run(mount_command(t))),
        MountStageView::Mounted(t) => if rp.status != 0 {
            (MountStageView::Done, ActionView::Fail("Failed to mount storage disk "@ + t))
        } else {
            (MountStageView::Done, ActionView::Finish)
        },
        MountStageView::Done => (MountStageView::Done, ActionView::Finish),
    }
}

fn mount_action(device: &str) -> (r: Action)
    ensures
        r@ == ActionView::Run(mount_command(device@)),
{
    run(cat4("mount ", device, " ", "/mnt/cave"))
}

fn largest_action(disk: &str) -> (r: Action)
    ensures
        r@ == ActionView::Run(largest_search(disk@)),
{
    let a = cat4("ls /dev/", disk, "* 2>/dev/null | grep -E '", disk);
    run(cat2(a.as_str(), "p?[0-9]+$' | while read p; do\n            size=$(cat /sys/class/block/$(basename $p)/size 2>/dev/null || echo 0)\n            echo \"$size $p\"\n        done | sort -rn | head -1 | awk '{print $2}'"))
}

/// Takes one step of mounting the VM disk `disk` (a device name such as
/// `sda`).
pub fn mount_storage_step(disk: &str, stage: MountStage, reply: &Reply) -> (r: (MountStage, Action))
    ensures
        (r.0@, r.1@) == mount_next(disk@, stage@, reply@),
{
    match stage {
        MountStage::Begin => (MountStage::DirMade, send(cat2("mkdir -p ", "/mnt/cave"))),
        MountStage::DirMade => (MountStage::Checked, run(cat2("mountpoint -q ", "/mnt/cave"))),
        MountStage::Checked => if reply.status == 0 {
            (MountStage::Done, Action::Finish)
        } else {
            (
                MountStage::ToolsReady,
                send(
                    String::from_str(
                        "modprobe ext4 2>/dev/null; apk add --no-cache e2fsprogs >/dev/null 2>&1",
                    ),
                ),
            )
        },
        MountStage::ToolsReady => (MountStage::Found, run(cat3("for p in /dev/", disk, "*; do\n            if [ -b \"$p\" ] && blkid -o value -s TYPE \"$p\" 2>/dev/null | grep -q ext4; then\n                echo \"$p\"\n                break\n            fi\n        done"))),
        MountStage::Found => {
            let found = string_of(&trimmed(reply.output.as_str()));
            if !found.as_str().is_empty() {
                (MountStage::TriedExisting, mount_action(found.as_str()))
            } else {
                (MountStage::Sized, largest_action(disk))
            }
        },
        MountStage::TriedExisting => if reply.status == 0 {
            (MountStage::Done, Action::Finish)
        } else {
            (MountStage::Sized, largest_action(disk))
        },
        MountStage::Sized => {
            let found = string_of(&trimmed(reply.output.as_str()));
            let target = if found.as_str().is_empty() {
                cat2("/dev/", disk)
            } else {
                found
            };
            let text = cat3("  Formatting ", target.as_str(), " as ext4...");
            (MountStage::Formatting { target }, say(text))
        },
        MountStage::Formatting { target } => (MountStage::LongTimeout { target }, Action::Timeout { seconds: 300 }),
        MountStage::LongTimeout { target } => {
            let cmd = cat3("mkfs.ext4 -F ", target.as_str(), " 2>&1");
            (MountStage::Formatted { target }, run(cmd))
        },
        MountStage::Formatted { target } => if reply.status != 0 {
            let output = String::from_str(reply.output.as_str());
            (MountStage::FormatFailed { target, output }, Action::Timeout { seconds: 10 })
        } else {
            (MountStage::Restored { target }, Action::Timeout { seconds: 10 })
        },
        MountStage::FormatFailed { target, output } => (
            MountStage::Done,
            fail(cat4("Failed to format disk ", target.as_str(), ": ", output.as_str())),
        ),
        MountStage::Restored { target } => {
            let a = mount_action(target.as_str());
            (MountStage::Mounted { target }, a)
        },
        MountStage::Mounted { target } => if reply.status != 0 {
            (MountStage::Done, fail(cat2("Failed to mount storage disk ", target.as_str())))
        } else {
            (MountStage::Done, Action::Finish)
        },
        MountStage::Done => (MountStage::Done, Action::Finish),
    }
}

} // verus!
