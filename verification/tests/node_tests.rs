use cave::hypervisor::{firewall_rule, setup_hypervisor_step, subnet_for, HypervisorStage};
use cave::lifecycle::{
    delete_vm_step, mount_storage_step, resize_disk_command, restart_vm_step, start_vm_step,
    stop_vm_step, DeleteStage, MountStage, RestartStage, RestartVm, StartStage, StartVm, StopStage,
};
use cave::mac::generate_mac;
use cave::probes;
use cave::remote::{Action, Reply};
use cave::vm::{
    autostart_config_content, is_vm_running, node_vm_name, pid_read_command, ps_command, qemu_command,
    restart_mac, running_probe_command, seed_drive_option, vm_info_from, vm_paths,
};
use cave::watcher::{parse_saved_vm, saved_vm_config, SavedVm};
use cave::wipe::{disk_scan_command, disks_in, wipe_actions, wipe_summary_text};

fn reply(output: &str, status: i32) -> Reply {
    Reply { output: output.to_string(), status }
}

fn command(a: &Action) -> &str {
    match a {
        Action::Run { command } | Action::Send { command } => command,
        other => panic!("not a command: {:?}", other),
    }
}

fn text(a: &Action) -> &str {
    match a {
        Action::Say { text } | Action::Warn { text } => text,
        other => panic!("not a message: {:?}", other),
    }
}

#[test]
fn vm_files_on_the_node() {
    let p = vm_paths("vm1");
    assert_eq!(p.disk, "/mnt/cave/vm1.qcow2");
    assert_eq!(p.pid_file, "/var/run/cave/vm1.pid");
    assert_eq!(p.qmp_socket, "/var/run/cave/vm1.sock");
    assert_eq!(p.serial_log, "/var/run/cave/vm1.log");
    assert_eq!(p.config, "/mnt/cave/vm1.conf");
    assert_eq!(p.seed_iso, "/mnt/cave/vm1-seed.iso");
}

#[test]
fn running_probe_and_its_answer() {
    assert_eq!(
        running_probe_command("/var/run/cave/vm1.pid"),
        "test -f /var/run/cave/vm1.pid && kill -0 $(cat /var/run/cave/vm1.pid) 2>/dev/null && echo running"
    );
    assert!(is_vm_running(0, "running\n"));
    assert!(!is_vm_running(1, "running\n"));
    assert!(!is_vm_running(0, ""));
}

#[test]
fn qemu_command_line() {
    let c = qemu_command(true, 2048, 2, "/mnt/cave/vm1.qcow2", "", "02:00:00:00:00:01", "/l", "/p", "/s");
    assert_eq!(
        c,
        "qemu-system-x86_64 \\\n            -enable-kvm \\\n            -m 2048 \\\n            -smp 2 \\\n            -cpu host \\\n            -drive file=/mnt/cave/vm1.qcow2,format=qcow2,if=virtio \\\n             \\\n            -netdev bridge,id=net0,br=br0 \\\n            -device virtio-net-pci,netdev=net0,mac=02:00:00:00:00:01 \\\n            -serial file:/l \\\n            -display none \\\n            -daemonize \\\n            -pidfile /p \\\n            -qmp unix:/s,server,nowait"
    );
    assert_eq!(
        seed_drive_option(Some("/mnt/cave/vm1-seed.iso")),
        "-drive file=/mnt/cave/vm1-seed.iso,format=raw,if=virtio,readonly=on"
    );
    assert_eq!(seed_drive_option(None), "");
    assert_eq!(restart_mac("vm1", "02:aa:bb:cc:dd:ee"), "02:aa:bb:cc:dd:ee");
    assert_eq!(restart_mac("vm1", ""), generate_mac("vm1"));
    assert_eq!(
        autostart_config_content("vm1", 2048, 2, "/mnt/cave/vm1.qcow2", ""),
        "VM_NAME=vm1\nMEMORY_MB=2048\nCPUS=2\nDISK_PATH=/mnt/cave/vm1.qcow2\nSEED_ISO=\n"
    );
}

fn start_params(size: Option<u32>) -> StartVm {
    StartVm {
        vm_name: "vm1".to_string(),
        image_path: "/mnt/cave/vm1.qcow2".to_string(),
        seed_iso: None,
        memory_mb: 2048,
        cpus: 2,
        disk_size_gb: size,
    }
}

#[test]
fn start_vm_refuses_running_vm() {
    let p = start_params(None);
    let (s, a) = start_vm_step(&p, StartStage::Begin, &Reply::none());
    assert!(command(&a).starts_with("test -f /var/run/cave/vm1.pid"));
    let (_, a) = start_vm_step(&p, s, &reply("running\n", 0));
    match a {
        Action::Fail { message } => assert_eq!(message, "VM 'vm1' is already running"),
        other => panic!("{:?}", other),
    }
}

#[test]
fn start_vm_full_run() {
    let p = start_params(Some(40));
    let (s, _) = start_vm_step(&p, StartStage::Begin, &Reply::none());
    let (s, a) = start_vm_step(&p, s, &reply("", 1));
    assert_eq!(command(&a), "test -f /mnt/cave/vm1.qcow2");
    let (s, a) = start_vm_step(&p, s, &reply("", 1));
    assert_eq!(text(&a), "  Creating VM disk from image...");
    let (s, a) = start_vm_step(&p, s, &Reply::none());
    assert_eq!(command(&a), "cp /mnt/cave/vm1.qcow2 /mnt/cave/vm1.qcow2");
    let (s, a) = start_vm_step(&p, s, &reply("", 0));
    assert_eq!(text(&a), "  Resizing disk to 40GB...");
    let (s, a) = start_vm_step(&p, s, &Reply::none());
    assert_eq!(command(&a), "qemu-img resize /mnt/cave/vm1.qcow2 40G");
    let (s, a) = start_vm_step(&p, s, &reply("", 0));
    assert_eq!(command(&a), "test -e /dev/kvm");
    let (s, a) = start_vm_step(&p, s, &reply("", 0));
    assert_eq!(text(&a), "  Starting VM...");
    let (s, a) = start_vm_step(&p, s, &Reply::none());
    assert!(command(&a).contains("-enable-kvm"));
    assert!(command(&a).contains(&generate_mac("vm1")));
    let (s, a) = start_vm_step(&p, s, &reply("", 0));
    assert!(matches!(a, Action::Sleep { seconds: 1 }));
    let (s, a) = start_vm_step(&p, s, &Reply::none());
    assert!(command(&a).contains("echo running"));
    let (s, a) = start_vm_step(&p, s, &reply("running", 0));
    assert_eq!(
        command(&a),
        "cat > /mnt/cave/vm1.conf << 'EOF'\nVM_NAME=vm1\nMEMORY_MB=2048\nCPUS=2\nDISK_PATH=/mnt/cave/vm1.qcow2\nSEED_ISO=\nEOF"
    );
    let (s, a) = start_vm_step(&p, s, &Reply::none());
    assert_eq!(text(&a), "  VM 'vm1' started");
    let (_, a) = start_vm_step(&p, s, &Reply::none());
    assert!(matches!(a, Action::Finish));
}

#[test]
fn start_vm_reports_failures() {
    let p = start_params(Some(40));
    let (_, a) = start_vm_step(&p, StartStage::Copied, &reply("", 1));
    assert!(matches!(a, Action::Fail { ref message } if message == "Failed to copy image to VM storage"));
    let (_, a) = start_vm_step(&p, StartStage::Resized, &reply("no space", 1));
    assert!(matches!(a, Action::Fail { ref message } if message == "Failed to resize disk: no space"));
    let (_, a) = start_vm_step(&p, StartStage::Launched, &reply("boom", 1));
    assert!(matches!(a, Action::Fail { ref message } if message == "Failed to start VM: boom"));
    let (_, a) = start_vm_step(&p, StartStage::Verified, &reply("", 1));
    assert!(matches!(a, Action::Fail { ref message } if message == "VM started but is not running - check logs"));
    let (s, a) = start_vm_step(&p, StartStage::DiskTested, &reply("", 0));
    assert_eq!(command(&a), "test -e /dev/kvm");
    let (_, a) = start_vm_step(&p, s, &reply("", 1));
    assert_eq!(text(&a), "  Starting VM...");
    assert_eq!(resize_disk_command("/d.qcow2", 7), "qemu-img resize /d.qcow2 7G");
}

#[test]
fn restart_uses_saved_mac_and_skips_running_vm() {
    let p = RestartVm {
        vm_name: "vm1".to_string(),
        disk_path: "/mnt/cave/vm1.qcow2".to_string(),
        seed_iso: Some("/mnt/cave/vm1-seed.iso".to_string()),
        memory_mb: 1024,
        cpus: 1,
        mac: "02:11:22:33:44:55".to_string(),
    };
    let (s, a) = restart_vm_step(&p, RestartStage::Begin, &Reply::none());
    assert_eq!(command(&a), "mkdir -p /var/run/cave");
    let (s, _) = restart_vm_step(&p, s, &Reply::none());
    let (_, a) = restart_vm_step(&p, s, &reply("running", 0));
    assert!(matches!(a, Action::Finish));
    let (s, a) = restart_vm_step(&p, RestartStage::Probed, &reply("", 1));
    assert_eq!(command(&a), "test -e /dev/kvm");
    let (_, a) = restart_vm_step(&p, s, &reply("", 1));
    let c = command(&a);
    assert!(c.contains("mac=02:11:22:33:44:55"));
    assert!(c.contains("-drive file=/mnt/cave/vm1-seed.iso,format=raw,if=virtio,readonly=on"));
    assert!(!c.contains("-enable-kvm"));
}

#[test]
fn stop_vm_waits_then_forces() {
    let (s, _) = stop_vm_step("vm1", StopStage::Begin, &Reply::none());
    let (s, a) = stop_vm_step("vm1", s, &reply("running", 0));
    assert_eq!(text(&a), "  Sending shutdown signal...");
    let (s, a) = stop_vm_step("vm1", s, &Reply::none());
    assert!(command(&a).ends_with("| nc -U /var/run/cave/vm1.sock 2>/dev/null"));
    let mut s = s;
    let (n, a) = stop_vm_step("vm1", s, &reply("", 0));
    assert!(matches!(a, Action::Sleep { seconds: 1 }));
    s = n;
    let mut polls = 0;
    loop {
        let (n, a) = stop_vm_step("vm1", s, &Reply::none());
        assert!(command(&a).contains("echo running"));
        polls += 1;
        let (n2, a2) = stop_vm_step("vm1", n, &reply("running", 0));
        s = n2;
        match a2 {
            Action::Sleep { .. } => continue,
            Action::Say { text } => {
                assert_eq!(text, "  Force stopping VM...");
                break;
            }
            other => panic!("{:?}", other),
        }
    }
    assert_eq!(polls, 30);
    let (s, a) = stop_vm_step("vm1", s, &Reply::none());
    assert_eq!(command(&a), "cat /var/run/cave/vm1.pid 2>/dev/null");
    let (s, a) = stop_vm_step("vm1", s, &reply(" 4242\n", 0));
    assert_eq!(command(&a), "kill -9 4242 2>/dev/null || true");
    let (s, a) = stop_vm_step("vm1", s, &Reply::none());
    assert_eq!(command(&a), "rm -f /var/run/cave/vm1.pid /var/run/cave/vm1.sock");
    let (s, a) = stop_vm_step("vm1", s, &Reply::none());
    assert_eq!(text(&a), "  VM 'vm1' stopped");
    let (_, a) = stop_vm_step("vm1", s, &Reply::none());
    assert!(matches!(a, Action::Finish));
}

#[test]
fn stop_vm_graceful_and_not_running() {
    let (_, a) = stop_vm_step("vm1", StopStage::Probed, &reply("", 1));
    assert_eq!(text(&a), "  VM 'vm1' is not running");
    let (s, a) = stop_vm_step("vm1", StopStage::Polled { polls: 3 }, &reply("", 1));
    assert_eq!(text(&a), "  VM 'vm1' stopped gracefully");
    let (_, a) = stop_vm_step("vm1", s, &Reply::none());
    assert_eq!(command(&a), "rm -f /var/run/cave/vm1.pid /var/run/cave/vm1.sock");
}

#[test]
fn delete_vm_stops_then_removes() {
    let (s, _) = delete_vm_step("vm1", DeleteStage::Begin, &Reply::none());
    let (s, a) = delete_vm_step("vm1", s, &reply("", 1));
    assert_eq!(command(&a), "rm -f /mnt/cave/vm1.qcow2 /mnt/cave/vm1.conf /mnt/cave/vm1-seed.iso");
    let (_, a) = delete_vm_step("vm1", s, &Reply::none());
    assert_eq!(text(&a), "  VM 'vm1' deleted");
    let (s, a) = delete_vm_step("vm1", DeleteStage::Probed, &reply("running", 0));
    assert!(command(&a).contains("echo running"));
    assert!(matches!(s, DeleteStage::Stopping { .. }));
}

#[test]
fn mount_storage_formats_largest_partition() {
    let (s, a) = mount_storage_step("sda", MountStage::Begin, &Reply::none());
    assert_eq!(command(&a), "mkdir -p /mnt/cave");
    let (s, a) = mount_storage_step("sda", s, &Reply::none());
    assert_eq!(command(&a), "mountpoint -q /mnt/cave");
    let (s, _) = mount_storage_step("sda", s, &reply("", 1));
    let (s, a) = mount_storage_step("sda", s, &Reply::none());
    assert!(command(&a).starts_with("for p in /dev/sda*; do"));
    let (s, a) = mount_storage_step("sda", s, &reply("\n", 0));
    assert!(command(&a).starts_with("ls /dev/sda* 2>/dev/null | grep -E 'sdap?[0-9]+$'"));
    let (s, a) = mount_storage_step("sda", s, &reply("/dev/sda2\n", 0));
    assert_eq!(text(&a), "  Formatting /dev/sda2 as ext4...");
    let (s, a) = mount_storage_step("sda", s, &Reply::none());
    assert!(matches!(a, Action::Timeout { seconds: 300 }));
    let (s, a) = mount_storage_step("sda", s, &Reply::none());
    assert_eq!(command(&a), "mkfs.ext4 -F /dev/sda2 2>&1");
    let (s, a) = mount_storage_step("sda", s, &reply("ok", 0));
    assert!(matches!(a, Action::Timeout { seconds: 10 }));
    let (s, a) = mount_storage_step("sda", s, &Reply::none());
    assert_eq!(command(&a), "mount /dev/sda2 /mnt/cave");
    let (_, a) = mount_storage_step("sda", s, &reply("", 32));
    assert!(matches!(a, Action::Fail { ref message } if message == "Failed to mount storage disk /dev/sda2"));
}

#[test]
fn mount_storage_whole_disk_and_existing_partition() {
    let (_, a) = mount_storage_step("sdb", MountStage::Sized, &reply("", 0));
    assert_eq!(text(&a), "  Formatting /dev/sdb as ext4...");
    let (_, a) = mount_storage_step("sdb", MountStage::Found, &reply(" /dev/sdb1 \n", 0));
    assert_eq!(command(&a), "mount /dev/sdb1 /mnt/cave");
    let (_, a) = mount_storage_step("sdb", MountStage::Checked, &reply("", 0));
    assert!(matches!(a, Action::Finish));
    let (s, a) = mount_storage_step(
        "sdb",
        MountStage::Formatted { target: "/dev/sdb".to_string() },
        &reply("bad", 1),
    );
    assert!(matches!(a, Action::Timeout { seconds: 10 }));
    let (_, a) = mount_storage_step("sdb", s, &Reply::none());
    assert!(matches!(a, Action::Fail { ref message } if message == "Failed to format disk /dev/sdb: bad"));
}

#[test]
fn firewall_subnet_from_bridge_address() {
    assert_eq!(subnet_for("192.168.1.5/24"), "192.168.1.0/24");
    assert_eq!(subnet_for("10.1.2.3"), "10.1.2.0/24");
    assert_eq!(subnet_for("fe80::1/64"), "192.168.0.0/16");
    assert_eq!(firewall_rule("192.168.1.0/24", 4), "iptables -A CAVE_VM_ISOLATION -d 192.168.1.0/24 -j DROP");
    assert_eq!(firewall_rule("x", 0), "iptables -A CAVE_VM_ISOLATION -m state --state ESTABLISHED,RELATED -j ACCEPT");
}

#[test]
fn hypervisor_setup_walkthrough() {
    let mut stage = HypervisorStage::Begin;
    let mut commands: Vec<String> = Vec::new();
    let mut messages: Vec<String> = Vec::new();
    let mut finished = false;
    for _ in 0..100 {
        let r = match &stage {
            HypervisorStage::QemuChecked => reply("", 1),
            HypervisorStage::Installed => reply("", 0),
            HypervisorStage::KvmChecked => reply("", 0),
            HypervisorStage::BridgeShown => reply("", 1),
            HypervisorStage::IfaceFound => reply("eth0\n", 0),
            HypervisorStage::AddressFound { .. } => reply("192.168.1.5/24\n", 0),
            HypervisorStage::GatewayFound { .. } => reply("192.168.1.1\n", 0),
            HypervisorStage::Bridged { .. } => reply("", 0),
            HypervisorStage::FirewallChecked => reply("", 1),
            HypervisorStage::SubnetFound => reply("192.168.1.5/24\n", 0),
            _ => Reply::none(),
        };
        let (next, a) = setup_hypervisor_step(stage, &r);
        stage = next;
        match a {
            Action::Run { command } | Action::Send { command } => commands.push(command),
            Action::Say { text } | Action::Warn { text } => messages.push(text),
            Action::Finish => {
                finished = true;
                break;
            }
            Action::Fail { message } => panic!("{}", message),
            _ => {}
        }
    }
    assert!(finished);
    assert_eq!(messages[0], "Setting up hypervisor...");
    assert!(messages.contains(&"  Primary interface: eth0".to_string()));
    assert!(messages.contains(&"  Current IP: 192.168.1.5/24, Gateway: 192.168.1.1".to_string()));
    assert_eq!(messages.last().unwrap(), "  Hypervisor ready");
    assert!(commands.contains(&"iptables -A CAVE_VM_ISOLATION -d 192.168.1.0/24 -j DROP".to_string()));
    let rules = commands.iter().filter(|c| c.starts_with("iptables -A CAVE_VM_ISOLATION") || c.starts_with("iptables -I")).count();
    assert_eq!(rules, 11);
    assert!(commands.iter().any(|c| c.contains("ip link set eth0 master br0")));
    assert!(commands.iter().any(|c| c.starts_with("cat > /usr/local/bin/cave-autostart << 'SCRIPT'\n#!/bin/sh")));
}

#[test]
fn hypervisor_install_failure() {
    let (s, a) = setup_hypervisor_step(HypervisorStage::Installed, &reply("no network", 1));
    match a {
        Action::Warn { text } => assert_eq!(text, "  Install output: no network"),
        other => panic!("{:?}", other),
    }
    let (_, a) = setup_hypervisor_step(s, &Reply::none());
    assert!(matches!(a, Action::Fail { ref message } if message == "Failed to install QEMU packages"));
    let (_, a) = setup_hypervisor_step(HypervisorStage::IfaceFound, &reply("  \n", 0));
    assert!(matches!(a, Action::Fail { ref message } if message == "Could not determine primary network interface"));
}

#[test]
fn hypervisor_bridge_recovery() {
    let stage = HypervisorStage::Bridged {
        iface: "eth0".to_string(),
        ip: "10.0.0.2/24".to_string(),
        gateway: "10.0.0.1".to_string(),
    };
    let (s, a) = setup_hypervisor_step(stage, &reply("", 2));
    assert_eq!(command(&a), "ip addr add 10.0.0.2/24 dev eth0");
    let (s, a) = setup_hypervisor_step(s, &Reply::none());
    assert_eq!(command(&a), "ip route add default via 10.0.0.1");
    let (_, a) = setup_hypervisor_step(s, &Reply::none());
    assert!(matches!(a, Action::Fail { ref message } if message == "Failed to set up bridge, attempted recovery"));
}

fn saved() -> SavedVm {
    SavedVm {
        node_ip: "192.168.1.20".to_string(),
        vm_name: "node1-vm".to_string(),
        memory_mb: 4096,
        cpus: 4,
        disk_path: "/mnt/cave/node1-vm.qcow2".to_string(),
        seed_iso: String::new(),
        disk_name: "sda".to_string(),
        mac: "02:01:02:03:04:05".to_string(),
    }
}

#[test]
fn saved_vm_file_text() {
    assert_eq!(
        saved_vm_config(&saved()),
        "NODE_IP=192.168.1.20\nVM_NAME=node1-vm\nMEMORY_MB=4096\nCPUS=4\nDISK_PATH=/mnt/cave/node1-vm.qcow2\nSEED_ISO=\nDISK_NAME=sda\nMAC=02:01:02:03:04:05\n"
    );
}

#[test]
fn saved_vm_reads_back() {
    let c = saved();
    let r = parse_saved_vm(&saved_vm_config(&c));
    assert_eq!(r.node_ip, c.node_ip);
    assert_eq!(r.vm_name, c.vm_name);
    assert_eq!(r.memory_mb, 4096);
    assert_eq!(r.cpus, 4);
    assert_eq!(r.disk_path, c.disk_path);
    assert_eq!(r.seed_iso, "");
    assert_eq!(r.disk_name, "sda");
    assert_eq!(r.mac, c.mac);
    assert!(r.is_startable());
    assert!(r.seed_path().is_none());
}

#[test]
fn saved_vm_defaults_and_last_value() {
    let r = parse_saved_vm("MEMORY_MB=lots\nCPUS=8\nCPUS=x\nVM_NAME=a=b\r\njunk\nNODE_IP=1\nNODE_IP=2\n");
    assert_eq!(r.memory_mb, 2048);
    assert_eq!(r.cpus, 2);
    assert_eq!(r.vm_name, "a=b");
    assert_eq!(r.node_ip, "2");
    assert!(!r.is_startable());
    let e = parse_saved_vm("");
    assert_eq!(e.memory_mb, 2048);
    assert_eq!(e.cpus, 2);
    assert_eq!(e.mac, "");
    let s = parse_saved_vm("SEED_ISO=/mnt/cave/x-seed.iso");
    assert_eq!(s.seed_path().unwrap(), "/mnt/cave/x-seed.iso");
}

#[test]
fn disks_to_wipe_and_plan() {
    assert!(disk_scan_command().starts_with("for d in /sys/block/*; do"));
    let disks = disks_in("\nsda\n\nnvme0n1\n");
    assert_eq!(disks, vec!["sda", "nvme0n1"]);
    assert!(disks_in("   ").is_empty());
    let plan = wipe_actions(&disks);
    assert_eq!(plan.len(), 8);
    assert!(matches!(plan[0], Action::Timeout { seconds: 300 }));
    assert_eq!(text(&plan[1]), "  Wiping /dev/sda...");
    assert_eq!(command(&plan[2]), "dd if=/dev/zero of=/dev/sda bs=1M count=100 2>/dev/null");
    assert_eq!(
        command(&plan[3]),
        "dd if=/dev/zero of=/dev/sda bs=1M seek=$(($(cat /sys/block/sda/size) * 512 / 1048576 - 10)) count=10 2>/dev/null"
    );
    assert!(matches!(plan[7], Action::Timeout { seconds: 10 }));
    assert!(wipe_actions(&Vec::new()).is_empty());
    assert_eq!(wipe_summary_text(&disks), "2 disk(s) wiped: sda, nvme0n1");
}

#[test]
fn node_probe_commands() {
    assert_eq!(probes::ram_mb_probe_text(), "free -m | grep Mem | awk '{print $2}'");
    assert_eq!(probes::nproc_probe_text(), "nproc");
    assert!(probes::disk_probe_text().contains("echo \"$name|$size|$rot|$model\""));
    assert_eq!(
        probes::mount_probe_text("sda"),
        "df -B1 2>/dev/null | grep '/dev/sda' | head -1 | awk '{print $4\"|\"$6}'"
    );
    assert!(probes::any_vm_probe_text().starts_with("for pid in /var/run/cave/*.pid; do"));
    assert_eq!(probes::gpu_probe_text(), "lspci 2>/dev/null | grep -i 'vga\\|3d\\|display' | head -1 | cut -d':' -f3");
    assert_eq!(probes::host_ram_probe_text(), "free -m | awk '/Mem:/ {print $2\"|\"$3}'");
    assert!(probes::poll_vm_probe_text().contains("echo \"$vm|$ip|$mem|$cpus\""));
    assert!(probes::list_vm_probe_text().contains("awk '{print $1}')"));
    assert_eq!(probes::poweroff_command_text(), "nohup poweroff &");
    assert_eq!(probes::file_probe_text("/mnt/cave/a.qcow2"), "test -f '/mnt/cave/a.qcow2' && echo yes");
    assert!(probes::file_present(" yes\n"));
    assert!(!probes::file_present(""));
}

#[test]
fn vm_report_and_names() {
    let info = vm_info_from("vm1", " 1234\n");
    assert_eq!(info.name, "vm1");
    assert_eq!(info.pid, "1234");
    assert_eq!(info.status, "running");
    assert_eq!(pid_read_command("/var/run/cave/vm1.pid"), "cat /var/run/cave/vm1.pid");
    assert_eq!(ps_command("1234"), "ps -p 1234 -o %mem,%cpu --no-headers 2>/dev/null || echo '0 0'");
    assert_eq!(node_vm_name("node1"), "node1-vm");
    assert_eq!(cave::watcher::saved_vm_path("/home/u/cave/vms", "node1"), "/home/u/cave/vms/node1.conf");
}
