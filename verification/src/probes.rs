//! The commands the tool runs on a node to learn about it: its memory,
//! processors, disks and VMs. What they print is read by `crate::status`,
//! `crate::poll` and `crate::list`.
use vstd::prelude::*;
use crate::remote::cat3;

verus! {

/// How much memory a node has, in MB.
pub open spec fn ram_mb_probe() -> Seq<char> {
    "free -m | grep Mem | awk '{print $2}'"@
}

pub fn ram_mb_probe_text() -> (r: String)
    ensures
        r@ == ram_mb_probe(),
{
    String::from_str("free -m | grep Mem | awk '{print $2}'")
}

/// How many processors a node has.
pub open spec fn nproc_probe() -> Seq<char> {
    "nproc"@
}

pub fn nproc_probe_text() -> (r: String)
    ensures
        r@ == nproc_probe(),
{
    String::from_str("nproc")
}

/// The disks of a node, one `NAME|SIZE_BLOCKS|ROTATIONAL|MODEL` line each (loop, RAM and device-mapper devices left out).
pub open spec fn disk_probe() -> Seq<char> {
    "\n        for disk in /sys/block/*/; do\n            name=$(basename \"$disk\")\n            # Skip loop, ram, dm devices\n            case \"$name\" in\n                loop*|ram*|dm-*) continue ;;\n            esac\n            # Get size in 512-byte blocks\n            size=$(cat \"$disk/size\" 2>/dev/null || echo 0)\n            # Get rotational (0=SSD, 1=HDD)\n            rot=$(cat \"$disk/queue/rotational\" 2>/dev/null || echo 1)\n            # Get model\n            model=$(cat \"$disk/device/model\" 2>/dev/null | tr -d '\\n' || echo \"Unknown\")\n            echo \"$name|$size|$rot|$model\"\n        done\n    "@
}

pub fn disk_probe_text() -> (r: String)
    ensures
        r@ == disk_probe(),
{
    String::from_str("\n        for disk in /sys/block/*/; do\n            name=$(basename \"$disk\")\n            # Skip loop, ram, dm devices\n            case \"$name\" in\n                loop*|ram*|dm-*) continue ;;\n            esac\n            # Get size in 512-byte blocks\n            size=$(cat \"$disk/size\" 2>/dev/null || echo 0)\n            # Get rotational (0=SSD, 1=HDD)\n            rot=$(cat \"$disk/queue/rotational\" 2>/dev/null || echo 1)\n            # Get model\n            model=$(cat \"$disk/device/model\" 2>/dev/null | tr -d '\\n' || echo \"Unknown\")\n            echo \"$name|$size|$rot|$model\"\n        done\n    ")
}

/// Whether any VM runs on a node: `running` or `stopped`.
pub open spec fn any_vm_probe() -> Seq<char> {
    "for pid in /var/run/cave/*.pid; do [ -f \"$pid\" ] && kill -0 $(cat \"$pid\") 2>/dev/null && echo running && exit 0; done; echo stopped"@
}

pub fn any_vm_probe_text() -> (r: String)
    ensures
        r@ == any_vm_probe(),
{
    String::from_str("for pid in /var/run/cave/*.pid; do [ -f \"$pid\" ] && kill -0 $(cat \"$pid\") 2>/dev/null && echo running && exit 0; done; echo stopped")
}

/// The processor model of a node.
pub open spec fn cpu_probe() -> Seq<char> {
    "cat /proc/cpuinfo | grep 'model name' | head -1 | cut -d':' -f2"@
}

pub fn cpu_probe_text() -> (r: String)
    ensures
        r@ == cpu_probe(),
{
    String::from_str("cat /proc/cpuinfo | grep 'model name' | head -1 | cut -d':' -f2")
}

/// The number of cores of a node, for its specs.
pub open spec fn cores_probe() -> Seq<char> {
    "nproc 2>/dev/null || grep -c processor /proc/cpuinfo"@
}

pub fn cores_probe_text() -> (r: String)
    ensures
        r@ == cores_probe(),
{
    String::from_str("nproc 2>/dev/null || grep -c processor /proc/cpuinfo")
}

/// The memory of a node, as `free -h` writes it.
pub open spec fn ram_text_probe() -> Seq<char> {
    "free -h | grep Mem | awk '{print $2}'"@
}

pub fn ram_text_probe_text() -> (r: String)
    ensures
        r@ == ram_text_probe(),
{
    String::from_str("free -h | grep Mem | awk '{print $2}'")
}

/// The graphics adapter of a node.
pub open spec fn gpu_probe() -> Seq<char> {
    "lspci 2>/dev/null | grep -i 'vga\\|3d\\|display' | head -1 | cut -d':' -f3"@
}

pub fn gpu_probe_text() -> (r: String)
    ensures
        r@ == gpu_probe(),
{
    String::from_str("lspci 2>/dev/null | grep -i 'vga\\|3d\\|display' | head -1 | cut -d':' -f3")
}

/// Total and used memory of a host in MB: `TOTAL|USED`.
pub open spec fn host_ram_probe() -> Seq<char> {
    "free -m | awk '/Mem:/ {print $2\"|\"$3}'"@
}

pub fn host_ram_probe_text() -> (r: String)
    ensures
        r@ == host_ram_probe(),
{
    String::from_str("free -m | awk '/Mem:/ {print $2\"|\"$3}'")
}

/// The running VM of a node, for the poller: `VM|IP|MEM|CPUS`.
pub open spec fn poll_vm_probe() -> Seq<char> {
    "for pid in /var/run/cave/*.pid; do\n            [ -f \"$pid\" ] && kill -0 $(cat \"$pid\") 2>/dev/null && {\n                vm=$(basename \"$pid\" .pid)\n                qemu_args=$(cat /proc/$(cat \"$pid\")/cmdline 2>/dev/null | tr '\\0' ' ')\n                mac=$(echo \"$qemu_args\" | grep -o 'mac=[^, ]*' | cut -d= -f2)\n                which arp-scan >/dev/null 2>&1 || apk add --no-cache arp-scan >/dev/null 2>&1\n                ip=$(arp-scan -I br0 -l 2>/dev/null | grep -i \"$mac\" | awk '{print $1}' | head -1)\n                mem=$(echo \"$qemu_args\" | sed -n 's/.*-m \\([0-9]*\\).*/\\1/p')\n                cpus=$(echo \"$qemu_args\" | sed -n 's/.*-smp \\([0-9]*\\).*/\\1/p')\n                echo \"$vm|$ip|$mem|$cpus\"\n                exit 0\n            }\n        done"@
}

pub fn poll_vm_probe_text() -> (r: String)
    ensures
        r@ == poll_vm_probe(),
{
    String::from_str("for pid in /var/run/cave/*.pid; do\n            [ -f \"$pid\" ] && kill -0 $(cat \"$pid\") 2>/dev/null && {\n                vm=$(basename \"$pid\" .pid)\n                qemu_args=$(cat /proc/$(cat \"$pid\")/cmdline 2>/dev/null | tr '\\0' ' ')\n                mac=$(echo \"$qemu_args\" | grep -o 'mac=[^, ]*' | cut -d= -f2)\n                which arp-scan >/dev/null 2>&1 || apk add --no-cache arp-scan >/dev/null 2>&1\n                ip=$(arp-scan -I br0 -l 2>/dev/null | grep -i \"$mac\" | awk '{print $1}' | head -1)\n                mem=$(echo \"$qemu_args\" | sed -n 's/.*-m \\([0-9]*\\).*/\\1/p')\n                cpus=$(echo \"$qemu_args\" | sed -n 's/.*-smp \\([0-9]*\\).*/\\1/p')\n                echo \"$vm|$ip|$mem|$cpus\"\n                exit 0\n            }\n        done")
}

/// The running VM of a node, for `cave node list`: `VM|IP|MEM|CPUS`.
pub open spec fn list_vm_probe() -> Seq<char> {
    "for pid in /var/run/cave/*.pid; do\n            [ -f \"$pid\" ] && kill -0 $(cat \"$pid\") 2>/dev/null && {\n                vm=$(basename \"$pid\" .pid)\n                qemu_args=$(cat /proc/$(cat \"$pid\")/cmdline 2>/dev/null | tr '\\0' ' ')\n                # Extract MAC from QEMU args and scan network to find its IP\n                mac=$(echo \"$qemu_args\" | grep -o 'mac=[^, ]*' | cut -d= -f2)\n                # Install arp-scan if needed, then scan for the MAC\n                which arp-scan >/dev/null 2>&1 || apk add --no-cache arp-scan >/dev/null 2>&1\n                ip=$(arp-scan -I br0 -l 2>/dev/null | grep -i \"$mac\" | awk '{print $1}')\n                mem=$(echo \"$qemu_args\" | sed -n 's/.*-m \\([0-9]*\\).*/\\1/p')\n                cpus=$(echo \"$qemu_args\" | sed -n 's/.*-smp \\([0-9]*\\).*/\\1/p')\n                echo \"$vm|$ip|$mem|$cpus\"\n                exit 0\n            }\n        done"@
}

pub fn list_vm_probe_text() -> (r: String)
    ensures
        r@ == list_vm_probe(),
{
    String::from_str("for pid in /var/run/cave/*.pid; do\n            [ -f \"$pid\" ] && kill -0 $(cat \"$pid\") 2>/dev/null && {\n                vm=$(basename \"$pid\" .pid)\n                qemu_args=$(cat /proc/$(cat \"$pid\")/cmdline 2>/dev/null | tr '\\0' ' ')\n                # Extract MAC from QEMU args and scan network to find its IP\n                mac=$(echo \"$qemu_args\" | grep -o 'mac=[^, ]*' | cut -d= -f2)\n                # Install arp-scan if needed, then scan for the MAC\n                which arp-scan >/dev/null 2>&1 || apk add --no-cache arp-scan >/dev/null 2>&1\n                ip=$(arp-scan -I br0 -l 2>/dev/null | grep -i \"$mac\" | awk '{print $1}')\n                mem=$(echo \"$qemu_args\" | sed -n 's/.*-m \\([0-9]*\\).*/\\1/p')\n                cpus=$(echo \"$qemu_args\" | sed -n 's/.*-smp \\([0-9]*\\).*/\\1/p')\n                echo \"$vm|$ip|$mem|$cpus\"\n                exit 0\n            }\n        done")
}

/// The memory in use inside a VM, in MB.
pub open spec fn vm_memory_probe() -> Seq<char> {
    "free -m | awk '/Mem:/ {print $3}'"@
}

pub fn vm_memory_probe_text() -> (r: String)
    ensures
        r@ == vm_memory_probe(),
{
    String::from_str("free -m | awk '/Mem:/ {print $3}'")
}

/// Powers a node off in the background.
pub open spec fn poweroff_command() -> Seq<char> {
    "nohup poweroff &"@
}

pub fn poweroff_command_text() -> (r: String)
    ensures
        r@ == poweroff_command(),
{
    String::from_str("nohup poweroff &")
}

/// Where a disk is mounted and how much of it is free: `AVAILABLE|MOUNT`.
pub open spec fn mount_probe(disk: Seq<char>) -> Seq<char> {
    "df -B1 2>/dev/null | grep '/dev/"@ + disk + "' | head -1 | awk '{print $4\"|\"$6}'"@
}

pub fn mount_probe_text(disk: &str) -> (r: String)
    ensures
        r@ == mount_probe(disk@),
{
    cat3("df -B1 2>/dev/null | grep '/dev/", disk, "' | head -1 | awk '{print $4\"|\"$6}'")
}

/// Whether a file exists on the node: prints `yes` if it does.
pub open spec fn file_probe(path: Seq<char>) -> Seq<char> {
    "test -f '"@ + path + "' && echo yes"@
}

pub fn file_probe_text(path: &str) -> (r: String)
    ensures
        r@ == file_probe(path@),
{
    cat3("test -f '", path, "' && echo yes")
}

/// What `file_probe` printed says the file exists.
pub fn file_present(output: &str) -> (r: bool)
    ensures
        r == (crate::text::trim(output@) == "yes"@),
{
    crate::text::chars_eq(&crate::text::trimmed(output), &crate::text::chars_of("yes"))
}

} // verus!
