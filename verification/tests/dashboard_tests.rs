use cave::poll::{CachedDisk, CachedNode, CachedVm};
use cave::tui::{cluster_stats, node_actions, node_status_label, vm_status_label, App, CommandOutcome, Effect, ImageInfo, Key, Screen};

fn node(name: &str) -> CachedNode {
    CachedNode {
        hostname: name.to_string(),
        mac: "aa:bb:cc:dd:ee:ff".to_string(),
        ip: None,
        status: "standby".to_string(),
        cpu: "N/A".to_string(),
        cores: "N/A".to_string(),
        ram: "N/A".to_string(),
        ram_total_mb: None,
        ram_used_mb: None,
        disks: Vec::new(),
        vm: None,
    }
}

fn image(file: &str, shown: &str) -> ImageInfo {
    ImageInfo { filename: file.to_string(), display_name: shown.to_string(), size: 1 }
}

fn app() -> App {
    App::new(
        vec![node("n1"), node("n2"), node("n3")],
        vec![image("ubuntu.img", "Ubuntu 24.04"), image("debian.qcow2", "Debian 12"), image("x.iso", "x.iso")],
        false,
        1_000,
    )
}

#[test]
fn fresh_dashboard_state() {
    let a = app();
    assert!(a.running);
    assert_eq!(a.screen, Screen::Dashboard);
    assert_eq!(a.selected_node_idx, 0);
    assert!(a.status_message.is_none());
    assert_eq!(node_actions().len(), 6);
    assert_eq!(node_actions()[2].0, "wake");
}

#[test]
fn node_selection_stays_in_list() {
    let mut a = app();
    a.handle_key(Key::Up, 0);
    assert_eq!(a.selected_node_idx, 0);
    for _ in 0..5 {
        a.handle_key(Key::Down, 0);
    }
    assert_eq!(a.selected_node_idx, 2);
    a.handle_key(Key::Char('k'), 0);
    assert_eq!(a.selected_node_idx, 1);
    assert_eq!(a.selected_node().unwrap().hostname, "n2");
}

#[test]
fn dashboard_keys() {
    let mut a = app();
    assert!(matches!(a.handle_key(Key::Char('r'), 0), Effect::Refresh { delay_ms: 0 }));
    a.handle_key(Key::Char('?'), 0);
    assert_eq!(a.screen, Screen::Help);
    a.handle_key(Key::Esc, 0);
    assert_eq!(a.screen, Screen::Dashboard);
    a.handle_key(Key::Char('i'), 0);
    assert_eq!(a.screen, Screen::Images);
    a.handle_key(Key::Char('q'), 0);
    assert_eq!(a.screen, Screen::Dashboard);
    a.handle_key(Key::Char('q'), 0);
    assert!(!a.running);
}

#[test]
fn details_run_node_actions() {
    let mut a = app();
    a.handle_key(Key::Down, 0);
    a.handle_key(Key::Enter, 0);
    assert_eq!(a.screen, Screen::NodeDetails);
    assert_eq!(a.selected_action_idx, 0);
    match a.handle_key(Key::Char('w'), 5) {
        Effect::NodeCommand { action, hostname } => {
            assert_eq!(action, "wake");
            assert_eq!(hostname, "n2");
        }
        other => panic!("{:?}", other),
    }
    assert!(matches!(a.handle_key(Key::Char('d'), 7), Effect::Stay));
    assert_eq!(a.status_message.as_ref().unwrap().0, "Use CLI for deploy: cave node deploy");
    assert_eq!(a.status_message.as_ref().unwrap().1, 7);
    for _ in 0..10 {
        a.handle_key(Key::Down, 0);
    }
    assert_eq!(a.selected_action_idx, 5);
    match a.handle_key(Key::Enter, 9) {
        Effect::NodeCommand { action, .. } => assert_eq!(action, "remove"),
        other => panic!("{:?}", other),
    }
}

#[test]
fn image_search_filters_list() {
    let mut a = app();
    a.handle_key(Key::Char('i'), 0);
    a.handle_key(Key::Char('/'), 0);
    assert!(a.image_search_active);
    a.handle_key(Key::Char('D'), 0);
    a.handle_key(Key::Char('e'), 0);
    assert_eq!(a.image_search, "De");
    let f = a.filtered_images();
    assert_eq!(f.len(), 1);
    assert_eq!(f[0].filename, "debian.qcow2");
    a.handle_key(Key::Backspace, 0);
    assert_eq!(a.image_search, "D");
    a.handle_key(Key::Enter, 0);
    assert!(!a.image_search_active);
    a.handle_key(Key::Char('x'), 0);
    assert_eq!(a.image_search, "Dx");
    a.handle_key(Key::Char('!'), 0);
    assert_eq!(a.image_search, "Dx");
    a.handle_key(Key::Esc, 0);
    assert_eq!(a.screen, Screen::Dashboard);
    assert_eq!(a.image_search, "");
}

#[test]
fn download_screen_pulls_selected_image() {
    let mut a = app();
    a.handle_key(Key::Char('i'), 0);
    a.handle_key(Key::Char('d'), 0);
    assert_eq!(a.screen, Screen::ImageDownload);
    assert_eq!(a.filtered_cloud_images().len(), 11);
    for c in "debian".chars() {
        a.handle_key(Key::Char(c), 0);
    }
    assert_eq!(a.filtered_cloud_images().len(), 2);
    a.handle_key(Key::Down, 0);
    a.handle_key(Key::Down, 0);
    assert_eq!(a.cloud_search_idx, 1);
    match a.handle_key(Key::Enter, 42) {
        Effect::PullImage { url, name, version } => {
            assert_eq!(name, "Debian");
            assert_eq!(version, "11 (Bullseye)");
            assert!(url.ends_with("debian-11-generic-amd64.qcow2"));
        }
        other => panic!("{:?}", other),
    }
    assert_eq!(a.status_message.as_ref().unwrap().0, "Downloading Debian 11 (Bullseye)...");
    a.handle_key(Key::Esc, 0);
    assert_eq!(a.screen, Screen::Images);
}

#[test]
fn time_clears_status_and_refreshes() {
    let mut a = app();
    a.set_status("hello", 2_000);
    assert!(matches!(a.tick(4_000), Effect::Stay));
    assert!(a.status_message.is_some());
    a.tick(5_001);
    assert!(a.status_message.is_none());
    assert!(matches!(a.tick(11_001), Effect::Refresh { delay_ms: 0 }));
    a.refresh(vec![node("n1")], Vec::new(), true, 12_000);
    assert_eq!(a.status_message.as_ref().unwrap().0, "Refreshed");
    assert!(a.server_running);
    assert!(matches!(a.tick(12_500), Effect::Stay));
}

#[test]
fn command_outcomes_reach_status_line() {
    let mut a = app();
    let e = a.node_command_finished("wake", "n1", CommandOutcome::Succeeded, 10);
    assert!(matches!(e, Effect::Refresh { delay_ms: 500 }));
    assert_eq!(a.status_message.as_ref().unwrap().0, "wake executed on n1");
    a.node_command_finished("wake", "n1", CommandOutcome::Failed { stderr: "no route\nmore".to_string() }, 11);
    assert_eq!(a.status_message.as_ref().unwrap().0, "Failed: no route");
    a.node_command_finished("wake", "n1", CommandOutcome::Failed { stderr: String::new() }, 12);
    assert_eq!(a.status_message.as_ref().unwrap().0, "Failed: error");
    a.node_command_finished("wake", "n1", CommandOutcome::NotStarted { error: "missing".to_string() }, 13);
    assert_eq!(a.status_message.as_ref().unwrap().0, "Error: missing");
    let e = a.pull_finished("Debian", "12", CommandOutcome::Succeeded, 14);
    assert!(matches!(e, Effect::Refresh { delay_ms: 0 }));
    assert_eq!(a.screen, Screen::Images);
    assert_eq!(a.status_message.as_ref().unwrap().0, "Downloaded Debian 12");
}

fn disk(size: u64) -> CachedDisk {
    CachedDisk {
        name: "sda".to_string(),
        size_bytes: size,
        disk_type: "SSD".to_string(),
        model: "m".to_string(),
    }
}

#[test]
fn cluster_overview_counts_and_totals() {
    let mut a = node("a");
    a.status = "active".to_string();
    a.cores = "8".to_string();
    a.disks = vec![disk(1_000), disk(2_000)];
    a.vm = Some(CachedVm {
        name: "cave-a".to_string(),
        ip: "".to_string(),
        memory: "2048M".to_string(),
        memory_used_mb: None,
        cpus: "2".to_string(),
    });
    let mut b = node("b");
    b.cores = "4".to_string();
    b.disks = vec![disk(500)];
    let mut c = node("c");
    c.status = "offline".to_string();
    c.cores = "N/A".to_string();
    let mut d = node("d");
    d.status = "rebooting".to_string();
    d.cores = "+2".to_string();
    let nodes = vec![a, b, c, d];
    assert_eq!(cluster_stats(&nodes), (1, 1, 1, 1, 3_500, 14));
    assert_eq!(cluster_stats(&Vec::new()), (0, 0, 0, 0, 0, 0));
}

#[test]
fn status_labels() {
    assert_eq!(node_status_label("active"), "Online");
    assert_eq!(node_status_label("standby"), "Standby");
    assert_eq!(node_status_label("offline"), "Offline");
    assert_eq!(node_status_label("unknown"), "Offline");
    assert_eq!(vm_status_label(""), "Starting");
    assert_eq!(vm_status_label("10.0.0.5"), "Online");
}
