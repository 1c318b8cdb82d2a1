use cave::deploy::{
    deploy_step, DeployAction, DeployEvent, DeployStage,
    cloud_init_meta_data, cloud_init_user_data, cpu_options, default_disk_choice, disk_display_text,
    find_image_candidates, generate_disk_options, image_choice_label, iso_tool, iso_tool_args,
    labelled_text, memory_options, seed_paths,
};
use cave::images::{
    cloud_images, deployable_images, get_image_display_name, images_matching, is_dashboard_image,
    is_deployable_image, is_listed_image, listed_images, needs_cloud_init, sort_by_file_name,
    url_filename,
};
use cave::order::lex_le_chars;
use cave::tui::dashboard_images;
use cave::status::NodeStatus;

fn pairs(names: &[(&str, u64)]) -> Vec<(String, u64)> {
    names.iter().map(|(n, s)| (n.to_string(), *s)).collect()
}

#[test]
fn display_name_of_catalogue_file() {
    assert_eq!(
        get_image_display_name("noble-server-cloudimg-amd64.img"),
        "Ubuntu 24.04 LTS (amd64, ~700 MB)"
    );
    assert_eq!(
        get_image_display_name("debian-12-generic-amd64.qcow2"),
        "Debian 12 (Bookworm) (amd64, ~350 MB)"
    );
    assert_eq!(get_image_display_name("my-own.img"), "my-own.img");
}

#[test]
fn catalogue_has_eleven_entries() {
    let c = cloud_images();
    assert_eq!(c.len(), 11);
    assert_eq!(c[0].name, "Ubuntu");
    assert_eq!(c[10].name, "Alpine");
    assert_eq!(url_filename(&c[3].url), "debian-12-generic-amd64.qcow2");
}

#[test]
fn url_filename_after_last_slash() {
    assert_eq!(url_filename("https://a/b/c.img"), "c.img");
    assert_eq!(url_filename("c.img"), "c.img");
    assert_eq!(url_filename("https://a/b/"), "");
}

#[test]
fn search_lowercases_both_sides() {
    let r = images_matching("UBUNTU");
    assert_eq!(r.len(), 3);
    assert!(r.iter().all(|c| c.name == "Ubuntu"));
    let r = images_matching("bookworm");
    assert_eq!(r.len(), 1);
    assert_eq!(r[0].version, "12 (Bookworm)");
    assert_eq!(images_matching("").len(), 11);
    assert_eq!(images_matching("nothing-like-this").len(), 0);
}

#[test]
fn image_file_kinds() {
    assert!(!is_listed_image("vm1-seed.iso"));
    assert!(!is_listed_image("vm1-seed"));
    assert!(is_listed_image("a.cave.img"));
    assert!(!is_dashboard_image("a.cave.img"));
    assert!(is_dashboard_image("disk.qcow2"));
    assert!(!is_deployable_image("disk.qcow2"));
    assert!(is_deployable_image("noble-server-cloudimg-amd64.img"));
}

#[test]
fn cloud_init_needed_for_cloud_images() {
    assert!(needs_cloud_init("noble-server-cloudimg-amd64.img"));
    assert!(needs_cloud_init("debian-12-generic-amd64.qcow2"));
    assert!(needs_cloud_init("plain.img"));
    assert!(!needs_cloud_init("disk.img"));
    assert!(needs_cloud_init("ubuntu-custom.qcow2"));
    assert!(!needs_cloud_init("custom.qcow2"));
    assert!(!needs_cloud_init("installer.iso"));
}

#[test]
fn name_order_matches_string_order() {
    let names = ["b", "a", "ab", "", "B", "é", "z", "aa"];
    for x in names {
        for y in names {
            let xv: Vec<char> = x.chars().collect();
            let yv: Vec<char> = y.chars().collect();
            assert_eq!(lex_le_chars(&xv, &yv), x <= y, "{} {}", x, y);
        }
    }
}

#[test]
fn sort_by_file_name_is_stable_sort() {
    let input = pairs(&[("c", 1), ("a", 2), ("b", 3), ("a", 4)]);
    let mut expected = input.clone();
    expected.sort_by(|a, b| a.0.cmp(&b.0));
    assert_eq!(sort_by_file_name(input), expected);
}

#[test]
fn listing_filters_and_sorts() {
    let entries = pairs(&[
        ("zeta.img", 1),
        ("vm-seed.iso", 2),
        ("alpha.qcow2", 3),
        ("x.cave.img", 4),
        ("vm-seed", 5),
        ("beta.img", 6),
    ]);
    assert_eq!(
        listed_images(entries.clone()),
        pairs(&[("alpha.qcow2", 3), ("beta.img", 6), ("x.cave.img", 4), ("zeta.img", 1)])
    );
    assert_eq!(deployable_images(entries), pairs(&[("beta.img", 6), ("zeta.img", 1)]));
}

#[test]
fn dashboard_images_sorted_by_display_name() {
    let entries = pairs(&[
        ("noble-server-cloudimg-amd64.img", 10),
        ("debian-12-generic-amd64.qcow2", 20),
        ("a-seed.iso", 1),
        ("custom.img", 30),
    ]);
    let r = dashboard_images(entries);
    let names: Vec<&str> = r.iter().map(|i| i.display_name.as_str()).collect();
    assert_eq!(
        names,
        vec!["Debian 12 (Bookworm) (amd64, ~350 MB)", "Ubuntu 24.04 LTS (amd64, ~700 MB)", "custom.img"]
    );
    assert_eq!(r[0].filename, "debian-12-generic-amd64.qcow2");
    assert_eq!(r[0].size, 20);
}

#[test]
fn memory_choices_leave_room_for_host() {
    let (opts, d) = memory_options(8192);
    let vals: Vec<u32> = opts.iter().map(|o| o.0).collect();
    assert_eq!(vals, vec![1024, 2048, 4096]);
    assert_eq!(opts[1].1, "2048 MB (2 GB)");
    assert_eq!(d, 1);
    let (opts, d) = memory_options(1600);
    assert_eq!(opts.len(), 1);
    assert_eq!(d, 0);
    let (opts, _) = memory_options(300);
    assert!(opts.is_empty());
}

#[test]
fn cpu_choices_up_to_cores() {
    let (opts, d) = cpu_options(6);
    let vals: Vec<u32> = opts.iter().map(|o| o.0).collect();
    assert_eq!(vals, vec![1, 2, 4]);
    assert_eq!(opts[0].1, "1 CPU");
    assert_eq!(d, 1);
    let (opts, d) = cpu_options(1);
    assert_eq!(opts.len(), 1);
    assert_eq!(d, 0);
    assert!(cpu_options(0).0.is_empty());
}

#[test]
fn disk_choices_for_disk_sizes() {
    let (labels, values) = generate_disk_options(Some(256_000_000_000));
    assert_eq!(values, vec![None, Some(10), Some(20), Some(50), Some(100), Some(200), Some(256)]);
    assert_eq!(labels[0], "Default (image size)");
    assert_eq!(labels[1], "10 GB");
    assert_eq!(labels[6], "256 GB (max)");
    let (_, values) = generate_disk_options(None);
    assert_eq!(values, vec![None, Some(10), Some(20), Some(50), Some(100), Some(200), Some(500)]);
    let (_, values) = generate_disk_options(Some(5_000_000_000));
    assert_eq!(values, vec![None]);
    let (_, values) = generate_disk_options(Some(2_000_000_000_000));
    assert_eq!(values.len(), 8);
    assert_eq!(default_disk_choice(7), 2);
    assert_eq!(default_disk_choice(2), 1);
    assert_eq!(default_disk_choice(1), 0);
    assert_eq!(default_disk_choice(0), 0);
}

#[test]
fn image_arguments_and_labels() {
    assert_eq!(
        find_image_candidates("/home/u/cave/images", "ubuntu"),
        vec![
            "/home/u/cave/images/ubuntu",
            "/home/u/cave/images/ubuntu.qcow2",
            "/home/u/cave/images/ubuntu.img",
            "/home/u/cave/images/ubuntu.iso"
        ]
    );
    assert_eq!(find_image_candidates("/d", "/abs/x.img"), vec!["/abs/x.img"]);
    assert_eq!(labelled_text("node1", "aa:bb"), "node1 (aa:bb)");
    assert_eq!(image_choice_label("own.img", "1.0 GB"), "own.img (1.0 GB)");
    assert_eq!(
        image_choice_label("noble-server-cloudimg-amd64.img", "700 MB"),
        "Ubuntu 24.04 LTS (amd64, ~700 MB)"
    );
    assert_eq!(disk_display_text(Some(50)), "50 GB");
    assert_eq!(disk_display_text(None), "Default");
}

#[test]
fn cloud_init_user_data_with_password() {
    let u = cloud_init_user_data("  ssh-ed25519 AAAA cave@localhost\n", true, "secret");
    assert_eq!(
        u,
        "#cloud-config\nusers:\n  - name: root\n    lock_passwd: false\n    ssh_authorized_keys:\n      - ssh-ed25519 AAAA cave@localhost\nssh_pwauth: true\nchpasswd:\n  list: |\n    root:secret\n  expire: false\nruncmd:\n  - touch /etc/cloud/cloud-init.disabled\n"
    );
}

#[test]
fn cloud_init_user_data_without_password() {
    let u = cloud_init_user_data("key", false, "ignored");
    assert_eq!(
        u,
        "#cloud-config\nusers:\n  - name: root\n    lock_passwd: false\n    ssh_authorized_keys:\n      - key\nssh_pwauth: false\nruncmd:\n  - touch /etc/cloud/cloud-init.disabled\n"
    );
    let v = cloud_init_user_data("key", true, "");
    assert!(v.contains("ssh_pwauth: true\n"));
    assert!(!v.contains("chpasswd"));
}

#[test]
fn cloud_init_seed_files() {
    assert_eq!(cloud_init_meta_data("vm1"), "instance-id: vm1\nlocal-hostname: vm1\n");
    let p = seed_paths("/home/u/cave/images", "vm1");
    assert_eq!(p.dir, "/home/u/cave/images/vm1-seed");
    assert_eq!(p.user_data, "/home/u/cave/images/vm1-seed/user-data");
    assert_eq!(p.meta_data, "/home/u/cave/images/vm1-seed/meta-data");
    assert_eq!(p.iso, "/home/u/cave/images/vm1-seed.iso");
    assert_eq!(iso_tool(true, true), Some("genisoimage"));
    assert_eq!(iso_tool(false, true), Some("mkisofs"));
    assert_eq!(iso_tool(false, false), None);
    assert_eq!(
        iso_tool_args("s.iso", "ud", "md"),
        vec!["-output", "s.iso", "-volid", "CIDATA", "-joliet", "-rock", "ud", "md"]
    );
}

fn stopped_with(a: DeployAction) -> Option<String> {
    match a {
        DeployAction::Stop { message } => Some(message),
        _ => None,
    }
}

#[test]
fn deploy_decisions_in_order() {
    let (st, a) = deploy_step(DeployStage::Nodes, &DeployEvent::Registry { nodes: 0, requested: None, found: false });
    assert_eq!(st, DeployStage::Ended);
    assert_eq!(stopped_with(a).as_deref(), Some("No nodes registered"));

    let ev = DeployEvent::Registry { nodes: 2, requested: Some("ghost".to_string()), found: false };
    match deploy_step(DeployStage::Nodes, &ev) {
        (DeployStage::Ended, DeployAction::Fail { message }) => assert_eq!(message, "Node 'ghost' not found"),
        _ => panic!("unknown node must fail"),
    }
    let ev = DeployEvent::Registry { nodes: 2, requested: None, found: false };
    assert!(matches!(deploy_step(DeployStage::Nodes, &ev), (DeployStage::Images, DeployAction::AskNode)));
    let ev = DeployEvent::Registry { nodes: 2, requested: Some("n1".to_string()), found: true };
    assert!(matches!(deploy_step(DeployStage::Nodes, &ev), (DeployStage::Images, DeployAction::Next)));

    let (st, a) = deploy_step(DeployStage::Images, &DeployEvent::Images { count: 0 });
    assert_eq!(st, DeployStage::Ended);
    assert_eq!(stopped_with(a).as_deref(), Some("No images available"));
    assert!(matches!(deploy_step(DeployStage::Images, &DeployEvent::Images { count: 3 }), (DeployStage::Disks, DeployAction::Next)));

    assert!(matches!(deploy_step(DeployStage::Disks, &DeployEvent::Disks { count: 0 }), (DeployStage::Memory, DeployAction::NoDisk)));
    assert!(matches!(deploy_step(DeployStage::Disks, &DeployEvent::Disks { count: 1 }), (DeployStage::Memory, DeployAction::OnlyDisk)));
    assert!(matches!(deploy_step(DeployStage::Disks, &DeployEvent::Disks { count: 2 }), (DeployStage::Memory, DeployAction::AskDisk)));

    let (st, a) = deploy_step(DeployStage::Memory, &DeployEvent::Memory { node_ram_mb: 1000 });
    assert_eq!(st, DeployStage::Ended);
    assert_eq!(stopped_with(a).as_deref(), Some("Node has insufficient RAM (488 MB available)"));
    let (st, a) = deploy_step(DeployStage::Memory, &DeployEvent::Memory { node_ram_mb: 100 });
    assert_eq!(st, DeployStage::Ended);
    assert_eq!(stopped_with(a).as_deref(), Some("Node has insufficient RAM (0 MB available)"));
    assert!(matches!(deploy_step(DeployStage::Memory, &DeployEvent::Memory { node_ram_mb: 4096 }), (DeployStage::Cpus, DeployAction::Next)));

    let (st, a) = deploy_step(DeployStage::Cpus, &DeployEvent::Cpus { node_cpu_cores: 0 });
    assert_eq!(st, DeployStage::Ended);
    assert_eq!(stopped_with(a).as_deref(), Some("Node has no CPU cores available"));
    assert!(matches!(deploy_step(DeployStage::Cpus, &DeployEvent::Cpus { node_cpu_cores: 4 }), (DeployStage::Confirm, DeployAction::Next)));

    assert!(matches!(deploy_step(DeployStage::Confirm, &DeployEvent::Answer { proceed: false }), (DeployStage::Ended, DeployAction::Cancel)));
    assert!(matches!(deploy_step(DeployStage::Confirm, &DeployEvent::Answer { proceed: true }), (DeployStage::NodeState, DeployAction::Next)));

    let ev = DeployEvent::NodeState { hostname: "n1".to_string(), status: NodeStatus::Offline };
    let (st, a) = deploy_step(DeployStage::NodeState, &ev);
    assert_eq!(st, DeployStage::Ended);
    assert_eq!(stopped_with(a).as_deref(), Some("Node 'n1' is offline"));
    let ev = DeployEvent::NodeState { hostname: "n1".to_string(), status: NodeStatus::Active };
    match deploy_step(DeployStage::NodeState, &ev) {
        (DeployStage::Transfer, DeployAction::Warn { message }) => {
            assert_eq!(message, "Node 'n1' has an active VM - stopping it first")
        }
        _ => panic!("active node must warn"),
    }
    let ev = DeployEvent::NodeState { hostname: "n1".to_string(), status: NodeStatus::Standby };
    match deploy_step(DeployStage::NodeState, &ev) {
        (DeployStage::Transfer, DeployAction::Ready { message }) => assert_eq!(message, "Node 'n1' is ready"),
        _ => panic!("standby node must be ready"),
    }

    // A fact the stage does not wait for changes nothing.
    assert!(matches!(deploy_step(DeployStage::Cpus, &DeployEvent::Images { count: 0 }), (DeployStage::Cpus, DeployAction::Next)));
}
