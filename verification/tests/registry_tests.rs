use cave::config::{join_path_str, Config, ConfigError};
use cave::mac::{
    generate_mac, generate_mac_for_lookup, magic_packet, mac_for_hash, normalize_mac, parse_mac,
    MacError,
};
use cave::ssh_config::{
    keygen_arguments, remove_cave_entry, remove_ssh_config, scp_arguments, ssh_host_entry,
    update_ssh_config, wol_setup_command,
};
use std::hash::{Hash, Hasher};

#[test]
fn default_config_has_server_defaults() {
    let c = Config::new_default();
    assert_eq!(c.server.port, 8080);
    assert_eq!(c.server.alpine_version, "3.21");
    assert!(!c.server.initialized);
    assert!(c.nodes.is_empty());
    let d = Config::default();
    assert_eq!(d.server.port, 8080);
    assert!(d.nodes.is_empty());
}

#[test]
fn add_then_get_node() {
    let mut c = Config::new_default();
    assert!(c.add_node("node1", "10.0.0.5", "aa:bb:cc:dd:ee:ff").is_ok());
    let n = c.get_node("node1").expect("registered");
    assert_eq!(n.hostname, "node1");
    assert_eq!(n.ip, "10.0.0.5");
    assert_eq!(n.mac, "aa:bb:cc:dd:ee:ff");
    assert!(c.get_node("node2").is_none());
}

#[test]
fn add_keeps_other_nodes() {
    let mut c = Config::new_default();
    c.add_node("a", "", "00:00:00:00:00:01").unwrap();
    c.add_node("b", "", "00:00:00:00:00:02").unwrap();
    assert_eq!(c.nodes.len(), 2);
    assert_eq!(c.get_node("a").unwrap().mac, "00:00:00:00:00:01");
    assert_eq!(c.nodes[1].hostname, "b");
}

#[test]
fn add_duplicate_node_is_refused() {
    let mut c = Config::new_default();
    c.add_node("node1", "", "aa:bb:cc:dd:ee:ff").unwrap();
    match c.add_node("node1", "1.2.3.4", "11:22:33:44:55:66") {
        Err(e) => {
            assert!(matches!(e, ConfigError::NodeAlreadyExists { .. }));
            assert_eq!(e.message(), "Node 'node1' already exists");
        }
        Ok(()) => panic!("duplicate accepted"),
    }
    assert_eq!(c.nodes.len(), 1);
    assert_eq!(c.get_node("node1").unwrap().mac, "aa:bb:cc:dd:ee:ff");
}

#[test]
fn remove_node_then_absent() {
    let mut c = Config::new_default();
    c.add_node("a", "", "m1").unwrap();
    c.add_node("b", "", "m2").unwrap();
    assert!(c.remove_node("a").is_ok());
    assert!(c.get_node("a").is_none());
    assert!(c.get_node("b").is_some());
    assert_eq!(c.nodes.len(), 1);
}

#[test]
fn remove_missing_node_is_refused() {
    let mut c = Config::new_default();
    c.add_node("a", "", "m1").unwrap();
    match c.remove_node("zzz") {
        Err(e) => {
            assert!(matches!(e, ConfigError::NodeNotFound { .. }));
            assert_eq!(e.message(), "Node 'zzz' not found");
        }
        Ok(()) => panic!("missing node removed"),
    }
    assert_eq!(c.nodes.len(), 1);
}

#[test]
fn add_then_remove_restores_registry() {
    let mut c = Config::new_default();
    c.add_node("a", "", "m1").unwrap();
    c.add_node("x", "", "m9").unwrap();
    c.remove_node("x").unwrap();
    assert_eq!(c.nodes.len(), 1);
    assert_eq!(c.nodes[0].hostname, "a");
}

#[test]
fn data_directory_follows_sudo_user() {
    assert_eq!(Config::cave_dir(Some("bob"), Some("/root")).unwrap(), "/home/bob/cave");
    assert_eq!(Config::cave_dir(None, Some("/home/al")).unwrap(), "/home/al/cave");
    assert_eq!(Config::cave_dir(None, Some("/home/al/")).unwrap(), "/home/al/cave");
    assert!(Config::cave_dir(None, None).is_none());
}

#[test]
fn files_under_the_data_directory() {
    let d = "/home/al/cave";
    assert_eq!(Config::config_path(d), "/home/al/cave/config.toml");
    assert_eq!(Config::images_dir(d), "/home/al/cave/images");
    assert_eq!(Config::alpine_dir(d), "/home/al/cave/alpine");
    assert_eq!(Config::ssh_dir(d), "/home/al/cave/ssh");
    assert_eq!(Config::ssh_private_key(d), "/home/al/cave/ssh/cave");
    assert_eq!(Config::ssh_public_key(d), "/home/al/cave/ssh/cave.pub");
    assert_eq!(Config::pixiecore_pid_file(d), "/home/al/cave/pixiecore.pid");
    assert_eq!(Config::server_log_file(d), "/home/al/cave/server.log");
    assert_eq!(Config::vms_dir(d), "/home/al/cave/vms");
    assert_eq!(join_path_str("", "x"), "x");
    assert_eq!(join_path_str("/", "x"), "/x");
}

#[test]
fn normalize_mac_accepts_separators_and_case() {
    assert_eq!(normalize_mac("AA:BB:CC:DD:EE:FF").unwrap(), "aa:bb:cc:dd:ee:ff");
    assert_eq!(normalize_mac("aa-bb-cc-dd-ee-0f").unwrap(), "aa:bb:cc:dd:ee:0f");
    assert_eq!(normalize_mac("aabb.ccdd.eeff").unwrap(), "aa:bb:cc:dd:ee:ff");
}

#[test]
fn normalize_mac_rejects_wrong_digit_count() {
    match normalize_mac("aa:bb:cc") {
        Err(e) => {
            assert!(matches!(&e, MacError::InvalidMac { mac } if mac == "aa:bb:cc"));
            assert_eq!(e.message(), "Invalid MAC address: aa:bb:cc. Expected 12 hex digits.");
        }
        Ok(m) => panic!("accepted {}", m),
    }
    assert!(normalize_mac("aa:bb:cc:dd:ee:ff:00").is_err());
}

#[test]
fn parse_mac_reads_six_bytes() {
    assert_eq!(parse_mac("aa:bb:cc:dd:ee:ff").unwrap(), [0xaa, 0xbb, 0xcc, 0xdd, 0xee, 0xff]);
    assert_eq!(parse_mac("0:1:2:3:4:5").unwrap(), [0, 1, 2, 3, 4, 5]);
}

#[test]
fn parse_mac_errors() {
    match parse_mac("zz:bb:cc:dd:ee:ff") {
        Err(e) => {
            assert!(matches!(e, MacError::InvalidFormat));
            assert_eq!(e.message(), "Invalid MAC address format");
        }
        Ok(_) => panic!("accepted bad hex"),
    }
    match parse_mac("aa:bb:cc:dd:ee") {
        Err(e) => {
            assert!(matches!(e, MacError::WrongLength));
            assert_eq!(e.message(), "MAC address must have 6 bytes");
        }
        Ok(_) => panic!("accepted five bytes"),
    }
    assert!(matches!(parse_mac("aa:bb:cc:dd:ee:ff:00"), Err(MacError::WrongLength)));
    assert!(matches!(parse_mac("aa::cc:dd:ee:ff"), Err(MacError::InvalidFormat)));
}

#[test]
fn normalized_mac_parses_back() {
    let m = normalize_mac("DE-AD-BE-EF-00-01").unwrap();
    let bytes = parse_mac(&m).unwrap();
    assert_eq!(bytes, [0xde, 0xad, 0xbe, 0xef, 0x00, 0x01]);
}

#[test]
fn magic_packet_layout() {
    let mac = [1u8, 2, 3, 4, 5, 6];
    let p = magic_packet(&mac);
    assert_eq!(p.len(), 102);
    assert_eq!(&p[..6], &[0xff; 6]);
    for k in 0..16 {
        assert_eq!(&p[6 + 6 * k..12 + 6 * k], &mac);
    }
}

fn std_mac(name: &str) -> String {
    let mut h = std::collections::hash_map::DefaultHasher::new();
    name.hash(&mut h);
    let x = h.finish();
    format!(
        "02:{:02x}:{:02x}:{:02x}:{:02x}:{:02x}",
        (x >> 8) as u8,
        (x >> 16) as u8,
        (x >> 24) as u8,
        (x >> 32) as u8,
        (x >> 40) as u8
    )
}

#[test]
fn generated_mac_matches_std_hash_of_name() {
    for name in ["vm1", "node-a-vm", "", "ünïcode"] {
        assert_eq!(generate_mac(name), std_mac(name));
        assert_eq!(generate_mac_for_lookup(name), std_mac(name));
    }
}

#[test]
fn mac_from_hash_takes_bytes_one_to_five() {
    assert_eq!(mac_for_hash(0x0000_0504_0302_0100), "02:01:02:03:04:05");
    assert_eq!(mac_for_hash(0), "02:00:00:00:00:00");
}

#[test]
fn ssh_block_is_written_and_replaced() {
    let entry = ssh_host_entry("node1", "10.0.0.5", "/k/cave");
    assert_eq!(
        entry,
        "\n# Cave managed node: node1\nHost node1\n    HostName 10.0.0.5\n    User root\n    IdentityFile /k/cave\n    StrictHostKeyChecking no\n    UserKnownHostsFile /dev/null\n"
    );
    let first = update_ssh_config("Host other\n    HostName 1.1.1.1", "node1", "10.0.0.5", "/k/cave");
    assert!(first.starts_with("Host other\n    HostName 1.1.1.1"));
    assert!(first.ends_with(&entry));
    let second = update_ssh_config(&first, "node1", "10.0.0.6", "/k/cave");
    assert_eq!(second.matches("# Cave managed node: node1").count(), 1);
    assert!(second.contains("HostName 10.0.0.6"));
    assert!(!second.contains("HostName 10.0.0.5"));
}

#[test]
fn removing_a_written_block_finds_it() {
    let written = update_ssh_config("", "node1", "10.0.0.5", "/k/cave");
    let (rest, found) = remove_ssh_config(&written, "node1");
    assert!(found);
    assert!(!rest.contains("node1"));
    let (same, found_again) = remove_ssh_config("Host x\n", "node1");
    assert!(!found_again);
    assert_eq!(same, "Host x");
}

#[test]
fn remove_cave_entry_keeps_other_hosts() {
    let content = "# Cave managed node: a\nHost a\n    HostName 1\nHost b\n    HostName 2";
    assert_eq!(remove_cave_entry(content, "a"), "Host b\n    HostName 2");
}

#[test]
fn ssh_tool_arguments() {
    assert_eq!(
        keygen_arguments("/k/cave"),
        vec!["-t", "ed25519", "-f", "/k/cave", "-N", "", "-C", "cave@localhost"]
    );
    assert_eq!(
        scp_arguments("/k/cave", "/img/a.qcow2", "10.0.0.5", "/mnt/cave/vm.qcow2"),
        vec![
            "-i",
            "/k/cave",
            "-o",
            "StrictHostKeyChecking=no",
            "-o",
            "UserKnownHostsFile=/dev/null",
            "/img/a.qcow2",
            "root@10.0.0.5:/mnt/cave/vm.qcow2"
        ]
    );
    assert!(wol_setup_command().contains("ethtool -s \"$iface\" wol g"));
}
