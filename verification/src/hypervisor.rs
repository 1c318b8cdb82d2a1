//! Turning a freshly booted node into a hypervisor: QEMU installed, KVM
//! loaded, a network bridge for the VMs, a firewall that keeps the VMs off
//! the LAN and the host, and a boot service that restarts saved VMs. A
//! state machine in the sense of `crate::remote`.
use vstd::prelude::*;
use crate::remote::{cat2, cat3, cat4, fail, run, say, send, Action, ActionView, Reply, ReplyView};
use crate::text::{
    chars_of, contains, contains_chars, find_char, index_of, lemma_index_of, string_of, subvec, trim,
    trimmed,
};

verus! {

/// Where setting up the hypervisor stands: the stage names what was asked
/// last and carries what was learnt of the node's network.
#[derive(Debug)]
pub enum HypervisorStage {
    Begin,
    Announced,
    QemuChecked,
    Installing,
    RepoAdded,
    Updated,
    Installed,
    InstallFailed,
    QemuPresent,
    KvmLoading,
    KvmModule,
    CpuModule,
    TunModule,
    KvmChecked,
    KvmReported,
    DirsMade,
    BridgeAllowed,
    BridgeShown,
    BridgeNeeded,
    IfaceFound,
    IfaceShown { iface: String },
    AddressFound { iface: String },
    GatewayFound { iface: String, ip: String },
    NetworkShown { iface: String, ip: String, gateway: String },
    Bridged { iface: String, ip: String, gateway: String },
    Recovering { gateway: String },
    Recovered,
    BridgeReady,
    FirewallTools,
    FirewallChecked,
    ChainMade,
    SubnetFound,
    /// `sent` of the isolation rules for `subnet` were sent.
    Rules { subnet: String, sent: usize },
    FirewallReady,
    ScriptWritten,
    ServiceWritten,
    ServiceEnabled,
    Done,
}

pub enum HypervisorStageView {
    Begin,
    Announced,
    QemuChecked,
    Installing,
    RepoAdded,
    Updated,
    Installed,
    InstallFailed,
    QemuPresent,
    KvmLoading,
    KvmModule,
    CpuModule,
    TunModule,
    KvmChecked,
    KvmReported,
    DirsMade,
    BridgeAllowed,
    BridgeShown,
    BridgeNeeded,
    IfaceFound,
    IfaceShown(Seq<char>),
    AddressFound(Seq<char>),
    GatewayFound(Seq<char>, Seq<char>),
    NetworkShown(Seq<char>, Seq<char>, Seq<char>),
    Bridged(Seq<char>, Seq<char>, Seq<char>),
    Recovering(Seq<char>),
    Recovered,
    BridgeReady,
    FirewallTools,
    FirewallChecked,
    ChainMade,
    SubnetFound,
    Rules(Seq<char>, nat),
    FirewallReady,
    ScriptWritten,
    ServiceWritten,
    ServiceEnabled,
    Done,
}

impl View for HypervisorStage {
    type V = HypervisorStageView;

    open spec fn view(&self) -> HypervisorStageView {
        match self {
            HypervisorStage::Begin => HypervisorStageView::Begin,
            HypervisorStage::Announced => HypervisorStageView::Announced,
            HypervisorStage::QemuChecked => HypervisorStageView::QemuChecked,
            HypervisorStage::Installing => HypervisorStageView::Installing,
            HypervisorStage::RepoAdded => HypervisorStageView::RepoAdded,
            HypervisorStage::Updated => HypervisorStageView::Updated,
            HypervisorStage::Installed => HypervisorStageView::Installed,
            HypervisorStage::InstallFailed => HypervisorStageView::InstallFailed,
            HypervisorStage::QemuPresent => HypervisorStageView::QemuPresent,
            HypervisorStage::KvmLoading => HypervisorStageView::KvmLoading,
            HypervisorStage::KvmModule => HypervisorStageView::KvmModule,
            HypervisorStage::CpuModule => HypervisorStageView::CpuModule,
            HypervisorStage::TunModule => HypervisorStageView::TunModule,
            HypervisorStage::KvmChecked => HypervisorStageView::KvmChecked,
            HypervisorStage::KvmReported => HypervisorStageView::KvmReported,
            HypervisorStage::DirsMade => HypervisorStageView::DirsMade,
            HypervisorStage::BridgeAllowed => HypervisorStageView::BridgeAllowed,
            HypervisorStage::BridgeShown => HypervisorStageView::BridgeShown,
            HypervisorStage::BridgeNeeded => HypervisorStageView::BridgeNeeded,
            HypervisorStage::IfaceFound => HypervisorStageView::IfaceFound,
            HypervisorStage::IfaceShown { iface } => HypervisorStageView::IfaceShown(iface@),
            HypervisorStage::AddressFound { iface } => HypervisorStageView::AddressFound(iface@),
            HypervisorStage::GatewayFound { iface, ip } => HypervisorStageView::GatewayFound(iface@, ip@),
            HypervisorStage::NetworkShown { iface, ip, gateway } => HypervisorStageView::NetworkShown(
                iface@,
                ip@,
                gateway@,
            ),
            HypervisorStage::Bridged { iface, ip, gateway } => HypervisorStageView::Bridged(
                iface@,
                ip@,
                gateway@,
            ),
            HypervisorStage::Recovering { gateway } => HypervisorStageView::Recovering(gateway@),
            HypervisorStage::Recovered => HypervisorStageView::Recovered,
            HypervisorStage::BridgeReady => HypervisorStageView::BridgeReady,
            HypervisorStage::FirewallTools => HypervisorStageView::FirewallTools,
            HypervisorStage::FirewallChecked => HypervisorStageView::FirewallChecked,
            HypervisorStage::ChainMade => HypervisorStageView::ChainMade,
            HypervisorStage::SubnetFound => HypervisorStageView::SubnetFound,
            HypervisorStage::Rules { subnet, sent } => HypervisorStageView::Rules(subnet@, *sent as nat),
            HypervisorStage::FirewallReady => HypervisorStageView::FirewallReady,
            HypervisorStage::ScriptWritten => HypervisorStageView::ScriptWritten,
            HypervisorStage::ServiceWritten => HypervisorStageView::ServiceWritten,
            HypervisorStage::ServiceEnabled => HypervisorStageView::ServiceEnabled,
            HypervisorStage::Done => HypervisorStageView::Done,
        }
    }
}

// ---------------------------------------------------------------------------
// The firewall's subnet and rules
// ---------------------------------------------------------------------------

/// `str::rfind(c)`: the position of the last `c`.
pub open spec fn rfind(s: Seq<char>, c: char) -> Option<int>
    decreases s.len(),
{
    if s.len() == 0 {
        None
    } else if s.last() == c {
        Some(s.len() - 1)
    } else {
        rfind(s.drop_last(), c)
    }
}

/// The LAN the VMs are kept off, from the bridge's address in CIDR form:
/// the last byte of the address set to 0 (`192.168.1.5/24` gives
/// `192.168.1.0/24`), `/24` when no prefix length is given, and
/// `192.168.0.0/16` for an address without a dot.
pub open spec fn subnet_of(cidr: Seq<char>) -> Seq<char> {
    match rfind(cidr, '.') {
        Some(p) => if index_of(cidr, '/') < cidr.len() {
            cidr.take(p) + ".0"@ + cidr.skip(index_of(cidr, '/') as int)
        } else {
            cidr.take(p) + ".0/24"@
        },
        None => "192.168.0.0/16"@,
    }
}

fn rfind_char(v: &Vec<char>, c: char) -> (r: Option<usize>)
    ensures
        match r {
            Some(i) => rfind(v@, c) == Some(i as int),
            None => rfind(v@, c) is None,
        },
{
    let mut i: usize = v.len();
    assert(v@.take(i as int) =~= v@);
    while i > 0
        invariant
            i <= v.len(),
            rfind(v@, c) == rfind(v@.take(i as int), c),
        decreases i,
    {
        assert(v@.take(i as int).drop_last() =~= v@.take(i - 1));
        if v[i - 1] == c {
            return Some(i - 1);
        }
        i = i - 1;
    }
    assert(v@.take(0) =~= Seq::<char>::empty());
    None
}

proof fn lemma_rfind_bound(s: Seq<char>, c: char)
    ensures
        rfind(s, c) matches Some(p) ==> 0 <= p < s.len(),
    decreases s.len(),
{
    if s.len() > 0 && s.last() != c {
        lemma_rfind_bound(s.drop_last(), c);
    }
}

/// The LAN of the bridge address `cidr`.
pub fn subnet_for(cidr: &str) -> (r: String)
    ensures
        r@ == subnet_of(cidr@),
{
    let v = chars_of(cidr);
    proof {
        lemma_rfind_bound(v@, '.');
        lemma_index_of(v@, '/');
    }
    match rfind_char(&v, '.') {
        Some(p) => {
            let mut out = subvec(&v, 0, p);
            let slash = find_char(&v, '/');
            if slash < v.len() {
                out.push('.');
                out.push('0');
                let rest = subvec(&v, slash, v.len());
                let ghost before = out@;
                crate::text::push_chars(&mut out, &rest);
                assert(out@ =~= v@.take(p as int) + ".0"@ + v@.skip(slash as int)) by {
                    reveal_strlit(".0");
                }
            } else {
                let ghost before = out@;
                crate::text::push_str(&mut out, ".0/24");
                assert(out@ =~= v@.take(p as int) + ".0/24"@);
            }
            string_of(&out)
        },
        None => String::from_str("192.168.0.0/16"),
    }
}

/// The isolation rules, in the order they are added: replies and DNS and
/// DHCP pass, the LAN and the private ranges are dropped, the rest (the
/// internet) passes; traffic from the VMs' taps goes through the chain,
/// and new connections from them to the host are dropped.
pub open spec fn firewall_rules(subnet: Seq<char>) -> Seq<Seq<char>> {
    seq![
        "iptables -A CAVE_VM_ISOLATION -m state --state ESTABLISHED,RELATED -j ACCEPT"@,
        "iptables -A CAVE_VM_ISOLATION -p udp --dport 53 -j ACCEPT"@,
        "iptables -A CAVE_VM_ISOLATION -p tcp --dport 53 -j ACCEPT"@,
        "iptables -A CAVE_VM_ISOLATION -p udp --dport 67:68 -j ACCEPT"@,
        "iptables -A CAVE_VM_ISOLATION -d "@ + subnet + " -j DROP"@,
        "iptables -A CAVE_VM_ISOLATION -d 10.0.0.0/8 -j DROP"@,
        "iptables -A CAVE_VM_ISOLATION -d 172.16.0.0/12 -j DROP"@,
        "iptables -A CAVE_VM_ISOLATION -d 192.168.0.0/16 -j DROP"@,
        "iptables -A CAVE_VM_ISOLATION -j ACCEPT"@,
        "iptables -I FORWARD -m physdev --physdev-in tap+ -j CAVE_VM_ISOLATION"@,
        "iptables -I INPUT -m physdev --physdev-in tap+ -m state ! --state ESTABLISHED,RELATED -j DROP"@
    ]
}

pub fn firewall_rule(subnet: &str, k: usize) -> (r: String)
    requires
        k < 11,
    ensures
        r@ == firewall_rules(subnet@)[k as int],
{
    if k == 0 {
        String::from_str("iptables -A CAVE_VM_ISOLATION -m state --state ESTABLISHED,RELATED -j ACCEPT")
    } else if k == 1 {
        String::from_str("iptables -A CAVE_VM_ISOLATION -p udp --dport 53 -j ACCEPT")
    } else if k == 2 {
        String::from_str("iptables -A CAVE_VM_ISOLATION -p tcp --dport 53 -j ACCEPT")
    } else if k == 3 {
        String::from_str("iptables -A CAVE_VM_ISOLATION -p udp --dport 67:68 -j ACCEPT")
    } else if k == 4 {
        cat3("iptables -A CAVE_VM_ISOLATION -d ", subnet, " -j DROP")
    } else if k == 5 {
        String::from_str("iptables -A CAVE_VM_ISOLATION -d 10.0.0.0/8 -j DROP")
    } else if k == 6 {
        String::from_str("iptables -A CAVE_VM_ISOLATION -d 172.16.0.0/12 -j DROP")
    } else if k == 7 {
        String::from_str("iptables -A CAVE_VM_ISOLATION -d 192.168.0.0/16 -j DROP")
    } else if k == 8 {
        String::from_str("iptables -A CAVE_VM_ISOLATION -j ACCEPT")
    } else if k == 9 {
        String::from_str("iptables -I FORWARD -m physdev --physdev-in tap+ -j CAVE_VM_ISOLATION")
    } else {
        String::from_str(
            "iptables -I INPUT -m physdev --physdev-in tap+ -m state ! --state ESTABLISHED,RELATED -j DROP",
        )
    }
}

// ---------------------------------------------------------------------------
// The bridge
// ---------------------------------------------------------------------------

/// The commands that move the node's address from its interface to the
/// bridge `br0`.
pub open spec fn bridge_commands(iface: Seq<char>, ip: Seq<char>, gateway: Seq<char>) -> Seq<char> {
    "\n        ip link add name br0 type bridge\n        ip link set br0 up\n        ip link set "@ + iface
        + " master br0\n        ip addr del "@ + ip + " dev "@ + iface + "\n        ip addr add "@ + ip
        + " dev br0\n        ip route add default via "@ + gateway + "\n        "@
}

fn bridge_commands_text(iface: &str, ip: &str, gateway: &str) -> (r: String)
    ensures
        r@ == bridge_commands(iface@, ip@, gateway@),
{
    let a = cat4(
        "\n        ip link add name br0 type bridge\n        ip link set br0 up\n        ip link set ",
        iface,
        " master br0\n        ip addr del ",
        ip,
    );
    let b = cat4(a.as_str(), " dev ", iface, "\n        ip addr add ");
    let c = cat4(b.as_str(), ip, " dev br0\n        ip route add default via ", gateway);
    cat2(c.as_str(), "\n        ")
}

// ---------------------------------------------------------------------------
// The steps
// ---------------------------------------------------------------------------

pub open spec fn autostart_install() -> Seq<char> {
    "cat > /usr/local/bin/cave-autostart << 'SCRIPT'\n#!/bin/sh\n# Cave VM auto-start script\n# Starts all VMs with saved configurations\n\nVM_PATH=\"/var/lib/cave\"\nRUN_PATH=\"/var/run/cave\"\n\n# Ensure directories exist\nmkdir -p \"$RUN_PATH\"\n\n# Wait for network bridge to be ready\nsleep 2\n\n# Start each VM that has a config file\nfor conf in \"$VM_PATH\"/*.conf; do\n    [ -f \"$conf\" ] || continue\n\n    # Source the config\n    . \"$conf\"\n\n    # Check if disk exists\n    [ -f \"$DISK_PATH\" ] || continue\n\n    # Check if already running\n    PID_FILE=\"$RUN_PATH/$VM_NAME.pid\"\n    if [ -f \"$PID_FILE\" ] && kill -0 $(cat \"$PID_FILE\") 2>/dev/null; then\n        echo \"VM $VM_NAME already running\"\n        continue\n    fi\n\n    echo \"Starting VM: $VM_NAME\"\n\n    # Build seed drive option if seed ISO exists\n    SEED_DRIVE=\"\"\n    if [ -n \"$SEED_ISO\" ] && [ -f \"$SEED_ISO\" ]; then\n        SEED_DRIVE=\"-drive file=$SEED_ISO,format=raw,if=virtio,readonly=on\"\n    fi\n\n    # Determine acceleration\n    ACCEL=\"\"\n    [ -e /dev/kvm ] && ACCEL=\"-enable-kvm\"\n\n    # Generate MAC from VM name (simple hash)\n    MAC=$(echo -n \"$VM_NAME\" | md5sum | sed 's/^\\(..\\)\\(..\\)\\(..\\)\\(..\\)\\(..\\).*$/02:\\1:\\2:\\3:\\4:\\5/')\n\n    # Start the VM\n    qemu-system-x86_64 \\\n        $ACCEL \\\n        -m \"$MEMORY_MB\" \\\n        -smp \"$CPUS\" \\\n        -cpu host \\\n        -drive \"file=$DISK_PATH,format=qcow2,if=virtio\" \\\n        $SEED_DRIVE \\\n        -netdev bridge,id=net0,br=br0 \\\n        -device \"virtio-net-pci,netdev=net0,mac=$MAC\" \\\n        -serial \"file:$RUN_PATH/$VM_NAME.log\" \\\n        -display none \\\n        -daemonize \\\n        -pidfile \"$PID_FILE\" \\\n        -qmp \"unix:$RUN_PATH/$VM_NAME.sock,server,nowait\"\n\n    if [ $? -eq 0 ]; then\n        echo \"  Started $VM_NAME\"\n    else\n        echo \"  Failed to start $VM_NAME\"\n    fi\ndone\nSCRIPT\nchmod +x /usr/local/bin/cave-autostart"@
}

pub open spec fn service_install() -> Seq<char> {
    "cat > /etc/init.d/cave-vms << 'INIT'\n#!/sbin/openrc-run\n\nname=\"cave-vms\"\ndescription=\"Cave VM Auto-start\"\ncommand=\"/usr/local/bin/cave-autostart\"\ncommand_background=\"no\"\n\ndepend() {\n    need net\n    after bridge\n}\nINIT\nchmod +x /etc/init.d/cave-vms"@
}

/// Whether QEMU has to be installed: `which` failed or printed nothing.
pub open spec fn qemu_missing(rp: ReplyView) -> bool {
    rp.status != 0 || trim(rp.output).len() == 0
}

/// One step of setting up the hypervisor.
pub open spec fn hypervisor_next(st: HypervisorStageView, rp: ReplyView) -> (HypervisorStageView, ActionView) {
    match st {
        HypervisorStageView::Begin => (HypervisorStageView::Announced, ActionView::Say("Setting up hypervisor..."@)),
        HypervisorStageView::Announced => (
            HypervisorStageView::QemuChecked,
            ActionView::Run("which qemu-system-x86_64 2>/dev/null"@),
        ),
        HypervisorStageView::QemuChecked => if qemu_missing(rp) {
            (HypervisorStageView::Installing, ActionView::Say("  Installing QEMU packages..."@))
        } else {
            (HypervisorStageView::QemuPresent, ActionView::Say("  QEMU already installed"@))
        },
        HypervisorStageView::Installing => (HypervisorStageView::RepoAdded, ActionView::Send("grep -q community /etc/apk/repositories || echo 'https://dl-cdn.alpinelinux.org/alpine/v3.21/community' >> /etc/apk/repositories"@)),
        HypervisorStageView::RepoAdded => (HypervisorStageView::Updated, ActionView::Send("apk update"@)),
        HypervisorStageView::Updated => (
            HypervisorStageView::Installed,
            ActionView::Run("apk add --no-cache qemu-system-x86_64 qemu-img bridge"@),
        ),
        HypervisorStageView::Installed => if rp.status != 0 {
            (HypervisorStageView::InstallFailed, ActionView::Warn("  Install output: "@ + rp.output))
        } else {
            (HypervisorStageView::KvmLoading, ActionView::Say("  Loading KVM modules..."@))
        },
        HypervisorStageView::InstallFailed => (
            HypervisorStageView::Done,
            ActionView::Fail("Failed to install QEMU packages"@),
        ),
        HypervisorStageView::QemuPresent => (HypervisorStageView::KvmLoading, ActionView::Say("  Loading KVM modules..."@)),
        HypervisorStageView::KvmLoading => (
            HypervisorStageView::KvmModule,
            ActionView::Send("modprobe kvm 2>/dev/null || true"@),
        ),
        HypervisorStageView::KvmModule => (
            HypervisorStageView::CpuModule,
            ActionView::Send("modprobe kvm_intel 2>/dev/null || modprobe kvm_amd 2>/dev/null || true"@),
        ),
        HypervisorStageView::CpuModule => (
            HypervisorStageView::TunModule,
            ActionView::Send("modprobe tun 2>/dev/null || true"@),
        ),
        HypervisorStageView::TunModule => (HypervisorStageView::KvmChecked, ActionView::Run("test -e /dev/kvm"@)),
        HypervisorStageView::KvmChecked => if rp.status != 0 {
            (
                HypervisorStageView::KvmReported,
                ActionView::Say(
                    "  WARNING: KVM not available, VMs will run without hardware acceleration"@,
                ),
            )
        } else {
            (HypervisorStageView::KvmReported, ActionView::Say("  KVM acceleration available"@))
        },
        HypervisorStageView::KvmReported => (
            HypervisorStageView::DirsMade,
            ActionView::Send("mkdir -p /mnt/cave /var/run/cave"@),
        ),
        HypervisorStageView::DirsMade => (
            HypervisorStageView::BridgeAllowed,
            ActionView::Send("mkdir -p /etc/qemu && echo 'allow br0' > /etc/qemu/bridge.conf"@),
        ),
        HypervisorStageView::BridgeAllowed => (
            HypervisorStageView::BridgeShown,
            ActionView::Run("ip link show br0 2>/dev/null"@),
        ),
        HypervisorStageView::BridgeShown => if contains(rp.output, "br0"@) {
            (HypervisorStageView::BridgeReady, ActionView::Say("  Bridge br0 already exists"@))
        } else {
            (HypervisorStageView::BridgeNeeded, ActionView::Say("  Setting up network bridge..."@))
        },
        HypervisorStageView::BridgeNeeded => (
            HypervisorStageView::IfaceFound,
            ActionView::Run("ip route | grep default | awk '{print $5}' | head -1"@),
        ),
        HypervisorStageView::IfaceFound => {
            let iface = trim(rp.output);
            if iface.len() == 0 {
                (
                    HypervisorStageView::Done,
                    ActionView::Fail("Could not determine primary network interface"@),
                )
            } else {
                (HypervisorStageView::IfaceShown(iface), ActionView::Say("  Primary interface: "@ + iface))
            }
        },
        HypervisorStageView::IfaceShown(iface) => (
            HypervisorStageView::AddressFound(iface),
            ActionView::Run("ip -4 addr show "@ + iface + " | grep inet | awk '{print $2}'"@),
        ),
        HypervisorStageView::AddressFound(iface) => (
            HypervisorStageView::GatewayFound(iface, trim(rp.output)),
            ActionView::Run("ip route | grep default | awk '{print $3}'"@),
        ),
        HypervisorStageView::GatewayFound(iface, ip) => {
            let gateway = trim(rp.output);
            if ip.len() == 0 || gateway.len() == 0 {
                (HypervisorStageView::Done, ActionView::Fail("Could not determine IP configuration"@))
            } else {
                (
                    HypervisorStageView::NetworkShown(iface, ip, gateway),
                    ActionView::Say("  Current IP: "@ + ip + ", Gateway: "@ + gateway),
                )
            }
        },
        HypervisorStageView::NetworkShown(iface, ip, gateway) => (
            HypervisorStageView::Bridged(iface, ip, gateway),
            ActionView::Run(bridge_commands(iface, ip, gateway)),
        ),
        HypervisorStageView::Bridged(iface, ip, gateway) => if rp.status != 0 {
            (
                HypervisorStageView::Recovering(gateway),
                ActionView::Send("ip addr add "@ + ip + " dev "@ + iface),
            )
        } else {
            (HypervisorStageView::BridgeReady, ActionView::Say("  Bridge br0 configured"@))
        },
        HypervisorStageView::Recovering(gateway) => (
            HypervisorStageView::Recovered,
            ActionView::Send("ip route add default via "@ + gateway),
        ),
        HypervisorStageView::Recovered => (
            HypervisorStageView::Done,
            ActionView::Fail("Failed to set up bridge, attempted recovery"@),
        ),
        HypervisorStageView::BridgeReady => (
            HypervisorStageView::FirewallTools,
            ActionView::Send(
                "which iptables >/dev/null 2>&1 || apk add --no-cache iptables >/dev/null 2>&1"@,
            ),
        ),
        HypervisorStageView::FirewallTools => (
            HypervisorStageView::FirewallChecked,
            ActionView::Run("iptables -L CAVE_VM_ISOLATION -n >/dev/null 2>&1"@),
        ),
        HypervisorStageView::FirewallChecked => if rp.status != 0 {
            (HypervisorStageView::ChainMade, ActionView::Send("iptables -N CAVE_VM_ISOLATION 2>/dev/null"@))
        } else {
            (HypervisorStageView::FirewallReady, ActionView::Say("  VM firewall already configured"@))
        },
        HypervisorStageView::ChainMade => (
            HypervisorStageView::SubnetFound,
            ActionView::Run("ip -4 addr show br0 | grep inet | awk '{print $2}' | head -1"@),
        ),
        HypervisorStageView::SubnetFound => {
            let cidr = trim(rp.output);
            if cidr.len() == 0 {
                (HypervisorStageView::FirewallReady, ActionView::Say("  VM network isolation configured"@))
            } else {
                let subnet = subnet_of(cidr);
                (HypervisorStageView::Rules(subnet, 1), ActionView::Send(firewall_rules(subnet)[0]))
            }
        },
        HypervisorStageView::Rules(subnet, sent) => if sent < 11 {
            (HypervisorStageView::Rules(subnet, sent + 1), ActionView::Send(firewall_rules(subnet)[sent as int]))
        } else {
            (HypervisorStageView::FirewallReady, ActionView::Say("  VM network isolation configured"@))
        },
        HypervisorStageView::FirewallReady => (HypervisorStageView::ScriptWritten, ActionView::Send(autostart_install())),
        HypervisorStageView::ScriptWritten => (HypervisorStageView::ServiceWritten, ActionView::Send(service_install())),
        HypervisorStageView::ServiceWritten => (
            HypervisorStageView::ServiceEnabled,
            ActionView::Send("rc-update add cave-vms default 2>/dev/null || true"@),
        ),
        HypervisorStageView::ServiceEnabled => (HypervisorStageView::Done, ActionView::Say("  Hypervisor ready"@)),
        HypervisorStageView::Done => (HypervisorStageView::Done, ActionView::Finish),
    }
}

fn text(s: &str) -> (r: String)
    ensures
        r@ == s@,
{
    String::from_str(s)
}

fn trimmed_string(s: &str) -> (r: String)
    ensures
        r@ == trim(s@),
{
    string_of(&trimmed(s))
}

/// The stages while the isolation rules are being added never count past
/// the eleven rules.
pub open spec fn stage_ok(st: HypervisorStageView) -> bool {
    st matches HypervisorStageView::Rules(_, sent) ==> sent <= 11
}

/// Takes one step of setting up the hypervisor.
pub fn setup_hypervisor_step(stage: HypervisorStage, reply: &Reply) -> (r: (HypervisorStage, Action))
    requires
        stage_ok(stage@),
    ensures
        (r.0@, r.1@) == hypervisor_next(stage@, reply@),
        stage_ok(r.0@),
{
    match stage {
        HypervisorStage::Begin => (HypervisorStage::Announced, say(text("Setting up hypervisor..."))),
        HypervisorStage::Announced => (
            HypervisorStage::QemuChecked,
            run(text("which qemu-system-x86_64 2>/dev/null")),
        ),
        HypervisorStage::QemuChecked => if reply.status != 0 || trimmed(reply.output.as_str()).len() == 0 {
            (HypervisorStage::Installing, say(text("  Installing QEMU packages...")))
        } else {
            (HypervisorStage::QemuPresent, say(text("  QEMU already installed")))
        },
        HypervisorStage::Installing => (HypervisorStage::RepoAdded, send(text("grep -q community /etc/apk/repositories || echo 'https://dl-cdn.alpinelinux.org/alpine/v3.21/community' >> /etc/apk/repositories"))),
        HypervisorStage::RepoAdded => (HypervisorStage::Updated, send(text("apk update"))),
        HypervisorStage::Updated => (
            HypervisorStage::Installed,
            run(text("apk add --no-cache qemu-system-x86_64 qemu-img bridge")),
        ),
        HypervisorStage::Installed => if reply.status != 0 {
            (
                HypervisorStage::InstallFailed,
                Action::Warn { text: cat2("  Install output: ", reply.output.as_str()) },
            )
        } else {
            (HypervisorStage::KvmLoading, say(text("  Loading KVM modules...")))
        },
        HypervisorStage::InstallFailed => (HypervisorStage::Done, fail(text("Failed to install QEMU packages"))),
        HypervisorStage::QemuPresent => (HypervisorStage::KvmLoading, say(text("  Loading KVM modules..."))),
        HypervisorStage::KvmLoading => (HypervisorStage::KvmModule, send(text("modprobe kvm 2>/dev/null || true"))),
        HypervisorStage::KvmModule => (
            HypervisorStage::CpuModule,
            send(text("modprobe kvm_intel 2>/dev/null || modprobe kvm_amd 2>/dev/null || true")),
        ),
        HypervisorStage::CpuModule => (HypervisorStage::TunModule, send(text("modprobe tun 2>/dev/null || true"))),
        HypervisorStage::TunModule => (HypervisorStage::KvmChecked, run(text("test -e /dev/kvm"))),
        HypervisorStage::KvmChecked => if reply.status != 0 {
            (
                HypervisorStage::KvmReported,
                say(text("  WARNING: KVM not available, VMs will run without hardware acceleration")),
            )
        } else {
            (HypervisorStage::KvmReported, say(text("  KVM acceleration available")))
        },
        HypervisorStage::KvmReported => (HypervisorStage::DirsMade, send(text("mkdir -p /mnt/cave /var/run/cave"))),
        HypervisorStage::DirsMade => (
            HypervisorStage::BridgeAllowed,
            send(text("mkdir -p /etc/qemu && echo 'allow br0' > /etc/qemu/bridge.conf")),
        ),
        HypervisorStage::BridgeAllowed => (HypervisorStage::BridgeShown, run(text("ip link show br0 2>/dev/null"))),
        HypervisorStage::BridgeShown => if contains_chars(&chars_of(reply.output.as_str()), &chars_of("br0")) {
            (HypervisorStage::BridgeReady, say(text("  Bridge br0 already exists")))
        } else {
            (HypervisorStage::BridgeNeeded, say(text("  Setting up network bridge...")))
        },
        HypervisorStage::BridgeNeeded => (
            HypervisorStage::IfaceFound,
            run(text("ip route | grep default | awk '{print $5}' | head -1")),
        ),
        HypervisorStage::IfaceFound => {
            let iface = trimmed_string(reply.output.as_str());
            if iface.as_str().is_empty() {
                (HypervisorStage::Done, fail(text("Could not determine primary network interface")))
            } else {
                let msg = cat2("  Primary interface: ", iface.as_str());
                (HypervisorStage::IfaceShown { iface }, say(msg))
            }
        },
        HypervisorStage::IfaceShown { iface } => {
            let cmd = cat3("ip -4 addr show ", iface.as_str(), " | grep inet | awk '{print $2}'");
            (HypervisorStage::AddressFound { iface }, run(cmd))
        },
        HypervisorStage::AddressFound { iface } => {
            let ip = trimmed_string(reply.output.as_str());
            (
                HypervisorStage::GatewayFound { iface, ip },
                run(text("ip route | grep default | awk '{print $3}'")),
            )
        },
        HypervisorStage::GatewayFound { iface, ip } => {
            let gateway = trimmed_string(reply.output.as_str());
            if ip.as_str().is_empty() || gateway.as_str().is_empty() {
                (HypervisorStage::Done, fail(text("Could not determine IP configuration")))
            } else {
                let msg = cat4("  Current IP: ", ip.as_str(), ", Gateway: ", gateway.as_str());
                (HypervisorStage::NetworkShown { iface, ip, gateway }, say(msg))
            }
        },
        HypervisorStage::NetworkShown { iface, ip, gateway } => {
            let cmd = bridge_commands_text(iface.as_str(), ip.as_str(), gateway.as_str());
            (HypervisorStage::Bridged { iface, ip, gateway }, run(cmd))
        },
        HypervisorStage::Bridged { iface, ip, gateway } => if reply.status != 0 {
            let cmd = cat4("ip addr add ", ip.as_str(), " dev ", iface.as_str());
            (HypervisorStage::Recovering { gateway }, send(cmd))
        } else {
            (HypervisorStage::BridgeReady, say(text("  Bridge br0 configured")))
        },
        HypervisorStage::Recovering { gateway } => (
            HypervisorStage::Recovered,
            send(cat2("ip route add default via ", gateway.as_str())),
        ),
        HypervisorStage::Recovered => (
            HypervisorStage::Done,
            fail(text("Failed to set up bridge, attempted recovery")),
        ),
        HypervisorStage::BridgeReady => (
            HypervisorStage::FirewallTools,
            send(text("which iptables >/dev/null 2>&1 || apk add --no-cache iptables >/dev/null 2>&1")),
        ),
        HypervisorStage::FirewallTools => (
            HypervisorStage::FirewallChecked,
            run(text("iptables -L CAVE_VM_ISOLATION -n >/dev/null 2>&1")),
        ),
        HypervisorStage::FirewallChecked => if reply.status != 0 {
            (HypervisorStage::ChainMade, send(text("iptables -N CAVE_VM_ISOLATION 2>/dev/null")))
        } else {
            (HypervisorStage::FirewallReady, say(text("  VM firewall already configured")))
        },
        HypervisorStage::ChainMade => (
            HypervisorStage::SubnetFound,
            run(text("ip -4 addr show br0 | grep inet | awk '{print $2}' | head -1")),
        ),
        HypervisorStage::SubnetFound => {
            let cidr = trimmed_string(reply.output.as_str());
            if cidr.as_str().is_empty() {
                (HypervisorStage::FirewallReady, say(text("  VM network isolation configured")))
            } else {
                let subnet = subnet_for(cidr.as_str());
                let rule = firewall_rule(subnet.as_str(), 0);
                (HypervisorStage::Rules { subnet, sent: 1 }, send(rule))
            }
        },
        HypervisorStage::Rules { subnet, sent } => if sent < 11 {
            let rule = firewall_rule(subnet.as_str(), sent);
            (HypervisorStage::Rules { subnet, sent: sent + 1 }, send(rule))
        } else {
            (HypervisorStage::FirewallReady, say(text("  VM network isolation configured")))
        },
        HypervisorStage::FirewallReady => (HypervisorStage::ScriptWritten, send(text("cat > /usr/local/bin/cave-autostart << 'SCRIPT'\n#!/bin/sh\n# Cave VM auto-start script\n# Starts all VMs with saved configurations\n\nVM_PATH=\"/var/lib/cave\"\nRUN_PATH=\"/var/run/cave\"\n\n# Ensure directories exist\nmkdir -p \"$RUN_PATH\"\n\n# Wait for network bridge to be ready\nsleep 2\n\n# Start each VM that has a config file\nfor conf in \"$VM_PATH\"/*.conf; do\n    [ -f \"$conf\" ] || continue\n\n    # Source the config\n    . \"$conf\"\n\n    # Check if disk exists\n    [ -f \"$DISK_PATH\" ] || continue\n\n    # Check if already running\n    PID_FILE=\"$RUN_PATH/$VM_NAME.pid\"\n    if [ -f \"$PID_FILE\" ] && kill -0 $(cat \"$PID_FILE\") 2>/dev/null; then\n        echo \"VM $VM_NAME already running\"\n        continue\n    fi\n\n    echo \"Starting VM: $VM_NAME\"\n\n    # Build seed drive option if seed ISO exists\n    SEED_DRIVE=\"\"\n    if [ -n \"$SEED_ISO\" ] && [ -f \"$SEED_ISO\" ]; then\n        SEED_DRIVE=\"-drive file=$SEED_ISO,format=raw,if=virtio,readonly=on\"\n    fi\n\n    # Determine acceleration\n    ACCEL=\"\"\n    [ -e /dev/kvm ] && ACCEL=\"-enable-kvm\"\n\n    # Generate MAC from VM name (simple hash)\n    MAC=$(echo -n \"$VM_NAME\" | md5sum | sed 's/^\\(..\\)\\(..\\)\\(..\\)\\(..\\)\\(..\\).*$/02:\\1:\\2:\\3:\\4:\\5/')\n\n    # Start the VM\n    qemu-system-x86_64 \\\n        $ACCEL \\\n        -m \"$MEMORY_MB\" \\\n        -smp \"$CPUS\" \\\n        -cpu host \\\n        -drive \"file=$DISK_PATH,format=qcow2,if=virtio\" \\\n        $SEED_DRIVE \\\n        -netdev bridge,id=net0,br=br0 \\\n        -device \"virtio-net-pci,netdev=net0,mac=$MAC\" \\\n        -serial \"file:$RUN_PATH/$VM_NAME.log\" \\\n        -display none \\\n        -daemonize \\\n        -pidfile \"$PID_FILE\" \\\n        -qmp \"unix:$RUN_PATH/$VM_NAME.sock,server,nowait\"\n\n    if [ $? -eq 0 ]; then\n        echo \"  Started $VM_NAME\"\n    else\n        echo \"  Failed to start $VM_NAME\"\n    fi\ndone\nSCRIPT\nchmod +x /usr/local/bin/cave-autostart"))),
        HypervisorStage::ScriptWritten => (HypervisorStage::ServiceWritten, send(text("cat > /etc/init.d/cave-vms << 'INIT'\n#!/sbin/openrc-run\n\nname=\"cave-vms\"\ndescription=\"Cave VM Auto-start\"\ncommand=\"/usr/local/bin/cave-autostart\"\ncommand_background=\"no\"\n\ndepend() {\n    need net\n    after bridge\n}\nINIT\nchmod +x /etc/init.d/cave-vms"))),
        HypervisorStage::ServiceWritten => (
            HypervisorStage::ServiceEnabled,
            send(text("rc-update add cave-vms default 2>/dev/null || true")),
        ),
        HypervisorStage::ServiceEnabled => (HypervisorStage::Done, say(text("  Hypervisor ready"))),
        HypervisorStage::Done => (HypervisorStage::Done, Action::Finish),
    }
}

/// How far setting up the hypervisor is from its end, in steps at most.
pub open spec fn hypervisor_rank(st: HypervisorStageView) -> int {
    match st {
        HypervisorStageView::Begin => 48,
        HypervisorStageView::Announced => 47,
        HypervisorStageView::QemuChecked => 46,
        HypervisorStageView::Installing => 45,
        HypervisorStageView::RepoAdded => 44,
        HypervisorStageView::Updated => 43,
        HypervisorStageView::Installed => 42,
        HypervisorStageView::InstallFailed => 41,
        HypervisorStageView::QemuPresent => 40,
        HypervisorStageView::KvmLoading => 39,
        HypervisorStageView::KvmModule => 38,
        HypervisorStageView::CpuModule => 37,
        HypervisorStageView::TunModule => 36,
        HypervisorStageView::KvmChecked => 35,
        HypervisorStageView::KvmReported => 34,
        HypervisorStageView::DirsMade => 33,
        HypervisorStageView::BridgeAllowed => 32,
        HypervisorStageView::BridgeShown => 31,
        HypervisorStageView::BridgeNeeded => 30,
        HypervisorStageView::IfaceFound => 29,
        HypervisorStageView::IfaceShown(_) => 28,
        HypervisorStageView::AddressFound(_) => 27,
        HypervisorStageView::GatewayFound(_, _) => 26,
        HypervisorStageView::NetworkShown(_, _, _) => 25,
        HypervisorStageView::Bridged(_, _, _) => 24,
        HypervisorStageView::Recovering(_) => 23,
        HypervisorStageView::Recovered => 22,
        HypervisorStageView::BridgeReady => 21,
        HypervisorStageView::FirewallTools => 20,
        HypervisorStageView::FirewallChecked => 19,
        HypervisorStageView::ChainMade => 18,
        HypervisorStageView::SubnetFound => 17,
        HypervisorStageView::FirewallReady => 4,
        HypervisorStageView::ScriptWritten => 3,
        HypervisorStageView::ServiceWritten => 2,
        HypervisorStageView::ServiceEnabled => 1,
        HypervisorStageView::Done => 0,
        HypervisorStageView::Rules(_, sent) => 5 + (11 - sent),
    }
}

/// Setting up the hypervisor always comes to an end, whatever the node
/// answers: each step before the end brings it closer, so it finishes
/// within 48 steps; at the end it only reports success.
pub proof fn lemma_hypervisor_ends(st: HypervisorStageView, rp: ReplyView)
    requires
        stage_ok(st),
    ensures
        stage_ok(hypervisor_next(st, rp).0),
        st is Done ==> hypervisor_next(st, rp).1 is Finish,
        !(st is Done) ==> 0 <= hypervisor_rank(hypervisor_next(st, rp).0) < hypervisor_rank(st) <= 48,
{
}

} // verus!
