use cave::config::Node;
use cave::list::{format_disk_summary, get_vm_info as list_vm_info, status_counts, truncate};
use cave::poll::{
    cached_node, get_host_ram_usage, get_vm_info as poll_vm_info, get_vm_memory_usage, known_macs,
    unknown_machines, verified_ip, verified_ip_entries,
};
use cave::server::{
    alpine_downloads, http_serve_arguments, pid_file_content, pixiecore_arguments,
    pixiecore_fallback_paths, pxe_cmdline_text, read_pids, root_required, served_file_names,
    watcher_files, watcher_script_text,
};
use cave::status::{
    disk_sizes_fit_exec, get_disk_mount_info, get_node_info, get_node_resources, get_node_specs,
    get_node_status, get_vm_status, parse_disk_listing, sort_disks_by_size, DiskInfo, NodeSpecs,
    NodeStatus,
};
use cave::ui::{box_layout, round_to_physical_ram, BoxLayout};

fn disk(name: &str, size: u64, kind: &str) -> DiskInfo {
    DiskInfo {
        name: name.to_string(),
        size_bytes: size,
        available_bytes: None,
        disk_type: kind.to_string(),
        model: String::new(),
        mount_point: None,
    }
}

#[test]
fn node_resources_fall_back() {
    assert_eq!(get_node_resources(Some(" 16000\n"), Some("8\n")), (16000, 8));
    assert_eq!(get_node_resources(Some("n/a"), None), (8192, 4));
    assert_eq!(get_node_resources(None, Some("")), (8192, 4));
}

#[test]
fn disk_listing_keeps_large_disks() {
    let out = "sda|976773168|0|Samsung SSD 860 \nsdb|1000|1|tiny\nnvme0n1|2000409264|1|WD\nbroken|x";
    assert!(disk_sizes_fit_exec(out));
    let d = parse_disk_listing(out);
    assert_eq!(d.len(), 2);
    assert_eq!(d[0].name, "sda");
    assert_eq!(d[0].size_bytes, 976773168 * 512);
    assert_eq!(d[0].disk_type, "SSD");
    assert_eq!(d[0].model, "Samsung SSD 860");
    assert_eq!(d[1].disk_type, "HDD");
    assert!(!disk_sizes_fit_exec("huge|18446744073709551615|0|m"));
}

#[test]
fn disks_sorted_largest_first_stably() {
    let sorted = sort_disks_by_size(vec![
        disk("a", 10, "SSD"),
        disk("b", 30, "HDD"),
        disk("c", 10, "HDD"),
        disk("d", 20, "SSD"),
    ]);
    let names: Vec<&str> = sorted.iter().map(|d| d.name.as_str()).collect();
    assert_eq!(names, vec!["b", "d", "a", "c"]);
}

#[test]
fn mount_info_of_disk() {
    let (m, a) = get_disk_mount_info(Some("123456|/mnt/cave\n"));
    assert_eq!(m.as_deref(), Some("/mnt/cave"));
    assert_eq!(a, Some(123456));
    assert_eq!(get_disk_mount_info(Some("  ")), (None, None));
    assert_eq!(get_disk_mount_info(None), (None, None));
    assert_eq!(get_disk_mount_info(Some("x|/m")), (Some("/m".to_string()), Some(0)));
}

#[test]
fn node_status_from_probes() {
    assert!(get_node_status(false, Some("running")) == NodeStatus::Offline);
    assert!(get_node_status(true, Some(" running\n")) == NodeStatus::Active);
    assert!(get_node_status(true, Some("")) == NodeStatus::Standby);
    assert!(get_node_status(true, None) == NodeStatus::Standby);
    assert_eq!(NodeStatus::Active.name(), "active");
    assert_eq!(NodeStatus::Offline.name(), "offline");
}

#[test]
fn node_specs_from_probes() {
    let s = get_node_specs(true, Some("Xeon\n"), Some("8"), Some(" 32G "), Some(""), Vec::new());
    assert_eq!(s.cpu, "Xeon");
    assert_eq!(s.cores, "8 cores");
    assert_eq!(s.ram, "32G");
    assert_eq!(s.gpu, "None");
    let u = get_node_specs(true, None, Some(""), None, None, Vec::new());
    assert_eq!(u.cpu, "N/A");
    assert_eq!(u.cores, "N/A");
    assert_eq!(u.gpu, "N/A");
    let off = get_node_specs(false, Some("x"), Some("1"), Some("1G"), Some("gpu"), vec![disk("a", 1, "SSD")]);
    assert_eq!(off.cpu, "N/A");
    assert!(off.disks.is_empty());
    let d = NodeSpecs::default();
    assert_eq!(d.ram, "N/A");
}

#[test]
fn vm_status_and_node_info() {
    assert!(get_vm_status(false, Some(Some("1"))).is_none());
    assert!(get_vm_status(true, None).is_none());
    let v = get_vm_status(true, Some(Some("42"))).unwrap();
    assert!(v.running);
    assert_eq!(v.pid.as_deref(), Some("42"));
    let v = get_vm_status(true, Some(None)).unwrap();
    assert!(!v.running && v.pid.is_none());
    let node = Node { hostname: "n".to_string(), ip: "1.2.3.4".to_string(), mac: "m".to_string() };
    let specs = get_node_specs(true, Some("cpu"), None, None, None, Vec::new());
    let info = get_node_info(&node, NodeStatus::Offline, specs, get_vm_status(true, Some(None)));
    assert_eq!(info.specs.cpu, "N/A");
    assert!(info.vm_info.is_none());
    let specs = get_node_specs(true, Some("cpu"), None, None, None, Vec::new());
    let info = get_node_info(&node, NodeStatus::Standby, specs, None);
    assert_eq!(info.specs.cpu, "cpu");
    assert_eq!(info.hostname, "n");
}

#[test]
fn poll_parses_probe_outputs() {
    assert_eq!(get_host_ram_usage(Some("15800|4200\n")), (Some(15800), Some(4200)));
    assert_eq!(get_host_ram_usage(Some("15800")), (None, None));
    assert_eq!(get_host_ram_usage(Some("x|7")), (None, Some(7)));
    assert_eq!(get_vm_memory_usage(Some(" 900\n")), Some(900));
    assert_eq!(get_vm_memory_usage(None), None);
    let vm = poll_vm_info(Some("web|10.0.0.9|2048|2\n")).unwrap();
    assert_eq!(vm.name, "web");
    assert_eq!(vm.ip, "10.0.0.9");
    assert_eq!(vm.memory, "2048M");
    assert_eq!(vm.cpus, "2");
    assert!(poll_vm_info(Some("|1|2|3")).is_none());
    assert!(poll_vm_info(Some("a|b")).is_none());
    let l = list_vm_info(Some("web||512|1")).unwrap();
    assert_eq!(l.ip, "");
    assert_eq!(l.memory, "512M");
}

#[test]
fn poll_addresses_and_unknown_machines() {
    assert_eq!(verified_ip(NodeStatus::Active, Some("1.2.3.4")).as_deref(), Some("1.2.3.4"));
    assert!(verified_ip(NodeStatus::Offline, Some("1.2.3.4")).is_none());
    let known = known_macs(&vec!["AA:BB:CC:DD:EE:FF".to_string()], &vec!["vm1".to_string()]);
    assert_eq!(known[0], "aa:bb:cc:dd:ee:ff");
    assert_eq!(known[1], cave::mac::generate_mac("vm1"));
    let seen: Vec<(String, String)> = (0..30)
        .map(|i| (format!("02:00:00:00:00:{:02x}", i), format!("10.0.0.{}", i)))
        .collect();
    let unknown = unknown_machines(&vec!["02:00:00:00:00:00".to_string()], &seen);
    assert_eq!(unknown.len(), 20);
    assert_eq!(unknown[0].1, "10.0.0.1");
}

#[test]
fn poll_cache_entries() {
    let node = Node { hostname: "n".to_string(), ip: String::new(), mac: "AA:BB".to_string() };
    let specs = get_node_specs(true, Some("cpu"), Some("4"), Some("8G"), None, vec![disk("sda", 5, "SSD")]);
    let info = get_node_info(&node, NodeStatus::Standby, specs, None);
    let c = cached_node("n", "AA:BB", Some("10.0.0.2".to_string()), &info, (Some(8000), Some(100)), None);
    assert_eq!(c.status, "standby");
    assert_eq!(c.cores, "4 cores");
    assert_eq!(c.disks.len(), 1);
    assert_eq!(c.disks[0].name, "sda");
    let entries = verified_ip_entries(&vec![c]);
    assert_eq!(entries, vec![("aa:bb".to_string(), "10.0.0.2".to_string())]);
}

#[test]
fn list_columns() {
    assert_eq!(truncate("short", 10), "short");
    assert_eq!(truncate("a-very-long-hostname", 10), "a-very-...");
    assert_eq!(
        format_disk_summary(&vec![disk("a", 1, "SSD"), disk("b", 1, "HDD")], &vec!["500G".to_string(), "2.0T".to_string()]),
        "500G SSD + 2.0T HDD"
    );
    assert_eq!(format_disk_summary(&Vec::new(), &Vec::new()), "no disks");
    assert_eq!(
        status_counts(&vec![NodeStatus::Active, NodeStatus::Offline, NodeStatus::Active, NodeStatus::Standby]),
        (2, 1, 1)
    );
}

#[test]
fn summary_box_layout() {
    assert_eq!(box_layout(120, "Deployment Summary"), BoxLayout { width: 60, left_pad: 19, right_pad: 19 });
    assert_eq!(box_layout(30, "Node Details"), BoxLayout { width: 30, left_pad: 7, right_pad: 7 });
    assert_eq!(box_layout(10, "A long title"), BoxLayout { width: 10, left_pad: 0, right_pad: 0 });
    assert_eq!(box_layout(60, "ab"), BoxLayout { width: 60, left_pad: 27, right_pad: 27 });
    assert_eq!(box_layout(61, "abc"), BoxLayout { width: 60, left_pad: 26, right_pad: 27 });
}

fn float_round(reported_mb: u64) -> u64 {
    const SIZES: &[u64] = &[2048, 4096, 8192, 16384, 32768, 65536, 131072, 262144];
    for &size in SIZES {
        if reported_mb <= size && reported_mb as f64 >= size as f64 * 0.90 {
            return size;
        }
    }
    ((reported_mb + 1023) / 1024) * 1024
}

#[test]
fn physical_ram_rounding() {
    assert_eq!(round_to_physical_ram(15800), 16384);
    assert_eq!(round_to_physical_ram(7900), 8192);
    assert_eq!(round_to_physical_ram(1000), 1024);
    assert_eq!(round_to_physical_ram(5000), 5120);
    assert_eq!(round_to_physical_ram(0), 0);
    for r in (0..300_000u64).step_by(7).chain(1843..1845).chain(14745..14747) {
        assert_eq!(round_to_physical_ram(r), float_round(r), "{}", r);
    }
}

#[test]
fn pxe_server_files_and_cmdline() {
    let d = alpine_downloads();
    assert_eq!(d[0].0, "vmlinuz-lts");
    assert_eq!(
        d[0].1,
        "https://dl-cdn.alpinelinux.org/alpine/v3.21/releases/x86_64/netboot/vmlinuz-lts"
    );
    assert_eq!(d[2].0, "modloop-lts");
    assert_eq!(served_file_names(), vec!["vmlinuz-lts", "initramfs-lts", "modloop-lts", "cave.pub"]);
    assert_eq!(
        pxe_cmdline_text("192.168.1.2", 8080, "3.21"),
        "ip=dhcp ssh_key=http://192.168.1.2:8080/cave.pub modloop=http://192.168.1.2:8080/modloop-lts alpine_repo=https://dl-cdn.alpinelinux.org/alpine/v3.21/main"
    );
    assert_eq!(
        pixiecore_arguments("/a/vmlinuz-lts", "/a/initramfs-lts", "c"),
        vec!["boot", "/a/vmlinuz-lts", "/a/initramfs-lts", "--cmdline", "c", "--dhcp-no-bind", "--port", "8081", "--debug"]
    );
    assert_eq!(
        pixiecore_fallback_paths(Some("bob"), Some("/root")),
        vec!["/home/bob/go/bin/pixiecore", "/root/go/bin/pixiecore"]
    );
    assert!(pixiecore_fallback_paths(None, None).is_empty());
    assert_eq!(http_serve_arguments(8080, "/a"), vec!["http-serve", "8080", "/a"]);
}

#[test]
fn pid_file_reads_back() {
    let content = pid_file_content(&vec![101, 202, 303]);
    assert_eq!(content, "101\n202\n303");
    assert_eq!(read_pids(&content), vec!["101", "202", "303"]);
    assert_eq!(read_pids(" 7 \n\n8\n"), vec!["7", "8"]);
    assert_eq!(pid_file_content(&Vec::new()), "");
    assert!(read_pids("").is_empty());
}

#[test]
fn watcher_script_and_root_messages() {
    let s = watcher_script_text("/usr/bin/cave", "/home/u/cave/vms", "/home/u/cave/watcher.log");
    assert!(s.starts_with("#!/bin/sh\n# Cave VM Watcher"));
    assert!(s.contains("CAVE=\"/usr/bin/cave\"\nVMS_DIR=\"/home/u/cave/vms\"\nLOG=\"/home/u/cave/watcher.log\"\n"));
    assert!(s.contains("log() {\n    echo \"$(date '+%Y-%m-%d %H:%M:%S') [watcher] $1\" >> \"$LOG\"\n}"));
    assert!(s.ends_with("    sleep 10\ndone\n"));
    let (log, script) = watcher_files("/home/u/cave");
    assert_eq!(log, "/home/u/cave/watcher.log");
    assert_eq!(script, "/home/u/cave/watcher.sh");
    let (e, hint) = root_required("start");
    assert_eq!(e, "'cave server start' requires root privileges");
    assert_eq!(hint, "sudo cave server start");
}

#[test]
fn compact_cores_and_memory() {
    assert_eq!(cave::list::cores_ram_text("8 cores", "32G"), "8c/32G");
    assert_eq!(cave::list::cores_ram_text("N/A", "N/A"), "N/Ac/N/A");
    let s: Vec<char> = "a cores b cores".chars().collect();
    let p: Vec<char> = " cores".chars().collect();
    let r: String = cave::text::remove_all_chars(&s, &p).into_iter().collect();
    assert_eq!(r, "a cores b cores".replace(" cores", ""));
    let s: Vec<char> = "aaa".chars().collect();
    let p: Vec<char> = "aa".chars().collect();
    let r: String = cave::text::remove_all_chars(&s, &p).into_iter().collect();
    assert_eq!(r, "aaa".replace("aa", ""));
}
