//! The node cache the background poller writes and the dashboard reads,
//! and the parsing of what the poller's probes print.
use vstd::prelude::*;
use crate::mac::generate_mac;
use crate::status::{NodeInfo, NodeStatus, status_name};
use crate::text::{
    chars_eq, chars_of, parse_u64, parse_unsigned, push_str, split_chars, split_on, string_of,
    to_lowercase, lowercase, trim, trimmed, has_char, index_of, lemma_index_of_at,
};

verus! {

/// A disk as cached.
#[derive(Debug)]
pub struct CachedDisk {
    pub name: String,
    pub size_bytes: u64,
    pub disk_type: String,
    pub model: String,
}

/// The VM running on a node, as cached.
#[derive(Debug)]
pub struct CachedVm {
    pub name: String,
    pub ip: String,
    /// Allocated memory, such as `2048M`.
    pub memory: String,
    pub memory_used_mb: Option<u64>,
    pub cpus: String,
}

/// A node as cached: registered nodes carry their hostname, discovered
/// ones an empty hostname.
#[derive(Debug)]
pub struct CachedNode {
    pub hostname: String,
    pub mac: String,
    pub ip: Option<String>,
    pub status: String,
    pub cpu: String,
    pub cores: String,
    pub ram: String,
    pub ram_total_mb: Option<u64>,
    pub ram_used_mb: Option<u64>,
    pub disks: Vec<CachedDisk>,
    pub vm: Option<CachedVm>,
}

/// A field parsed as `u64`, if it parses.
pub open spec fn u64_field(s: Seq<char>) -> Option<nat> {
    parse_unsigned(s, 10, u64::MAX as nat)
}

pub open spec fn opt_u64(o: Option<u64>) -> Option<nat> {
    match o {
        Some(n) => Some(n as nat),
        None => None,
    }
}

/// Total and used RAM in MB of a host, from the output of
/// `free -m | awk '/Mem:/ {print $2"|"$3}'` (`None` when the host could
/// not be asked).
pub open spec fn host_ram_spec(output: Option<Seq<char>>) -> (Option<nat>, Option<nat>) {
    match output {
        Some(o) => {
            let p = split_on(trim(o), '|');
            if p.len() >= 2 {
                (u64_field(p[0]), u64_field(p[1]))
            } else {
                (None, None)
            }
        },
        None => (None, None),
    }
}

pub fn get_host_ram_usage(output: Option<&str>) -> (r: (Option<u64>, Option<u64>))
    ensures
        (opt_u64(r.0), opt_u64(r.1)) == host_ram_spec(match output {
            Some(o) => Some(o@),
            None => None,
        }),
{
    match output {
        Some(o) => {
            let parts = split_chars(&trimmed(o), '|');
            if parts.len() >= 2 {
                (parse_u64(&parts[0]), parse_u64(&parts[1]))
            } else {
                (None, None)
            }
        },
        None => (None, None),
    }
}

/// Memory in use inside a VM, from the output of
/// `free -m | awk '/Mem:/ {print $3}'` (`None` when the VM could not be
/// asked).
pub fn get_vm_memory_usage(output: Option<&str>) -> (r: Option<u64>)
    ensures
        opt_u64(r) == match output {
            Some(o) => u64_field(trim(o@)),
            None => None,
        },
{
    match output {
        Some(o) => parse_u64(&trimmed(o)),
        None => None,
    }
}

/// The four fields `VM|IP|MEM|CPUS` of a VM probe, when it printed a VM.
pub open spec fn vm_fields(output: Seq<char>) -> Option<Seq<Seq<char>>> {
    let p = split_on(trim(output), '|');
    if p.len() >= 4 && p[0].len() > 0 {
        Some(p)
    } else {
        None
    }
}

pub struct CachedVmView {
    pub name: Seq<char>,
    pub ip: Seq<char>,
    pub memory: Seq<char>,
    pub memory_used_mb: Option<u64>,
    pub cpus: Seq<char>,
}

impl View for CachedVm {
    type V = CachedVmView;

    open spec fn view(&self) -> CachedVmView {
        CachedVmView {
            name: self.name@,
            ip: self.ip@,
            memory: self.memory@,
            memory_used_mb: self.memory_used_mb,
            cpus: self.cpus@,
        }
    }
}

/// The running VM a probe printed (`None` when the probe failed or found
/// no VM); its memory use is not known yet.
pub open spec fn vm_from_probe(output: Option<Seq<char>>) -> Option<CachedVmView> {
    match output {
        Some(o) => match vm_fields(o) {
            Some(p) => Some(
                CachedVmView {
                    name: p[0],
                    ip: p[1],
                    memory: p[2] + "M"@,
                    memory_used_mb: None,
                    cpus: p[3],
                },
            ),
            None => None,
        },
        None => None,
    }
}

/// A field without `|` followed by `|` splits off as the first field.
proof fn lemma_split_field(a: Seq<char>, rest: Seq<char>)
    requires
        !has_char(a, '|'),
    ensures
        split_on(a + seq!['|'] + rest, '|') == seq![a] + split_on(rest, '|'),
{
    let s = a + seq!['|'] + rest;
    assert forall|j: int| 0 <= j < a.len() implies s[j] != '|' by {
        assert(s[j] == a[j]);
    }
    lemma_index_of_at(s, '|', a.len() as int);
    assert(s.take(a.len() as int) =~= a);
    assert(s.skip(a.len() + 1 as int) =~= rest);
}

/// A text without `|` is one field.
proof fn lemma_split_last(c: Seq<char>)
    requires
        !has_char(c, '|'),
    ensures
        split_on(c, '|') == seq![c],
{
    lemma_index_of_at(c, '|', c.len() as int);
}

/// A probe line `name|ip|memory|cpus` reports the VM `name` at `ip`, with
/// `memory` MB and `cpus` CPUs, whatever the address field holds: a VM
/// whose address is not known yet (an empty field) is still reported.
/// A probe with no VM name, one that printed nothing, or one that failed
/// reports no VM.
pub proof fn lemma_vm_probe_line(
    o: Seq<char>,
    name: Seq<char>,
    ip: Seq<char>,
    mem: Seq<char>,
    cpus: Seq<char>,
)
    requires
        !has_char(name, '|'),
        !has_char(ip, '|'),
        !has_char(mem, '|'),
        !has_char(cpus, '|'),
    ensures
        trim(o) == name + seq!['|'] + ip + seq!['|'] + mem + seq!['|'] + cpus && name.len() > 0
            ==> vm_from_probe(Some(o)) == Some(
            CachedVmView { name, ip, memory: mem + "M"@, memory_used_mb: None, cpus },
        ),
        trim(o) == name + seq!['|'] + ip + seq!['|'] + mem + seq!['|'] + cpus && name.len() == 0
            ==> vm_from_probe(Some(o)) is None,
        trim(o).len() == 0 ==> vm_from_probe(Some(o)) is None,
        vm_from_probe(None) is None,
{
    let r3 = cpus;
    let r2 = mem + seq!['|'] + cpus;
    let r1 = ip + seq!['|'] + r2;
    let line = name + seq!['|'] + r1;
    assert(name + seq!['|'] + ip + seq!['|'] + mem + seq!['|'] + cpus =~= line);
    lemma_split_last(r3);
    lemma_split_field(mem, r3);
    lemma_split_field(ip, r2);
    lemma_split_field(name, r1);
    assert(split_on(line, '|') =~= seq![name, ip, mem, cpus]);
    lemma_index_of_at(Seq::<char>::empty(), '|', 0);
    assert(split_on(Seq::<char>::empty(), '|') =~= seq![Seq::<char>::empty()]);
    if trim(o).len() == 0 {
        assert(trim(o) =~= Seq::<char>::empty());
    }
}

pub fn get_vm_info(output: Option<&str>) -> (r: Option<CachedVm>)
    ensures
        match r {
            Some(v) => vm_from_probe(match output {
                Some(o) => Some(o@),
                None => None,
            }) == Some(v@),
            None => vm_from_probe(match output {
                Some(o) => Some(o@),
                None => None,
            }) is None,
        },
{
    match output {
        Some(o) => {
            let parts = split_chars(&trimmed(o), '|');
            if parts.len() >= 4 && parts[0].len() > 0 {
                let mut mem = parts[2].clone();
                push_str(&mut mem, "M");
                Some(
                    CachedVm {
                        name: string_of(&parts[0]),
                        ip: string_of(&parts[1]),
                        memory: string_of(&mem),
                        memory_used_mb: None,
                        cpus: string_of(&parts[3]),
                    },
                )
            } else {
                None
            }
        },
        None => None,
    }
}

/// A probe line `total|used` reports the two numbers, each when it parses
/// as `u64`; a probe that failed reports neither.
pub proof fn lemma_host_ram_line(o: Seq<char>, total: Seq<char>, used: Seq<char>)
    requires
        !has_char(total, '|'),
        !has_char(used, '|'),
        trim(o) == total + seq!['|'] + used,
    ensures
        host_ram_spec(Some(o)) == (u64_field(total), u64_field(used)),
        host_ram_spec(None) == (None::<nat>, None::<nat>),
{
    lemma_split_last(used);
    lemma_split_field(total, used);
}

/// The address the poller trusts for a node: the scanned one, unless the
/// node did not answer.
pub fn verified_ip(status: NodeStatus, scanned: Option<&str>) -> (r: Option<String>)
    ensures
        match r {
            Some(ip) => status != NodeStatus::Offline && scanned is Some && ip@ == scanned->0@,
            None => status == NodeStatus::Offline || scanned is None,
        },
{
    match status {
        NodeStatus::Offline => None,
        _ => match scanned {
            Some(ip) => Some(String::from_str(ip)),
            None => None,
        },
    }
}

/// The cache entry of a node from what was learned about it.
pub fn cached_node(
    hostname: &str,
    mac: &str,
    ip: Option<String>,
    info: &NodeInfo,
    ram: (Option<u64>, Option<u64>),
    vm: Option<CachedVm>,
) -> (r: CachedNode)
    ensures
        r.hostname@ == hostname@,
        r.mac@ == mac@,
        r.ip == ip,
        r.status@ == status_name(info.status),
        r.cpu@ == info.specs.cpu@,
        r.cores@ == info.specs.cores@,
        r.ram@ == info.specs.ram@,
        r.ram_total_mb == ram.0,
        r.ram_used_mb == ram.1,
        r.disks@.len() == info.specs.disks@.len(),
        forall|i: int|
            0 <= i < r.disks@.len() ==> {
                let c = #[trigger] r.disks@[i];
                let d = info.specs.disks@[i];
                &&& c.name@ == d.name@
                &&& c.size_bytes == d.size_bytes
                &&& c.disk_type@ == d.disk_type@
                &&& c.model@ == d.model@
            },
        r.vm == vm,
{
    let mut disks: Vec<CachedDisk> = Vec::new();
    for i in 0..info.specs.disks.len()
        invariant
            disks@.len() == i,
            forall|k: int|
                0 <= k < i ==> {
                    let c = #[trigger] disks@[k];
                    let d = info.specs.disks@[k];
                    &&& c.name@ == d.name@
                    &&& c.size_bytes == d.size_bytes
                    &&& c.disk_type@ == d.disk_type@
                    &&& c.model@ == d.model@
                },
    {
        let d = &info.specs.disks[i];
        disks.push(
            CachedDisk {
                name: d.name.clone(),
                size_bytes: d.size_bytes,
                disk_type: d.disk_type.clone(),
                model: d.model.clone(),
            },
        );
    }
    CachedNode {
        hostname: String::from_str(hostname),
        mac: String::from_str(mac),
        ip,
        status: info.status.name(),
        cpu: info.specs.cpu.clone(),
        cores: info.specs.cores.clone(),
        ram: info.specs.ram.clone(),
        ram_total_mb: ram.0,
        ram_used_mb: ram.1,
        disks,
        vm,
    }
}

// ---------------------------------------------------------------------------
// Discovering unknown machines
// ---------------------------------------------------------------------------

/// The MACs the poller already knows: those of the registered nodes, then
/// those generated for their VMs, all lower-cased.
pub fn known_macs(node_macs: &Vec<String>, vm_names: &Vec<String>) -> (r: Vec<String>)
    ensures
        r@.len() == node_macs@.len() + vm_names@.len(),
        forall|i: int| 0 <= i < node_macs@.len() ==> #[trigger] r@[i]@ == lowercase(node_macs@[i]@),
        forall|i: int|
            0 <= i < vm_names@.len() ==> #[trigger] r@[node_macs@.len() + i]@ == lowercase(
                crate::mac::mac_from_hash(crate::mac::name_hash(vm_names@[i]@)),
            ),
{
    let mut out: Vec<String> = Vec::new();
    for i in 0..node_macs.len()
        invariant
            out@.len() == i,
            forall|k: int| 0 <= k < i ==> #[trigger] out@[k]@ == lowercase(node_macs@[k]@),
    {
        out.push(to_lowercase(node_macs[i].as_str()));
    }
    let base = node_macs.len();
    for j in 0..vm_names.len()
        invariant
            base == node_macs@.len(),
            out@.len() == base + j,
            forall|k: int| 0 <= k < base ==> #[trigger] out@[k]@ == lowercase(node_macs@[k]@),
            forall|k: int|
                0 <= k < j ==> #[trigger] out@[base + k]@ == lowercase(
                    crate::mac::mac_from_hash(crate::mac::name_hash(vm_names@[k]@)),
                ),
    {
        let m = generate_mac(vm_names[j].as_str());
        out.push(to_lowercase(m.as_str()));
    }
    out
}

fn is_known(known: &Vec<String>, mac: &String) -> (r: bool)
    ensures
        r == string_views(known@).contains(mac@),
{
    let m = chars_of(mac.as_str());
    for i in 0..known.len()
        invariant
            m@ == mac@,
            forall|k: int| 0 <= k < i ==> #[trigger] known@[k]@ != mac@,
    {
        if chars_eq(&chars_of(known[i].as_str()), &m) {
            assert(string_views(known@)[i as int] == mac@);
            return true;
        }
    }
    assert forall|k: int| 0 <= k < string_views(known@).len() implies string_views(known@)[k] != mac@ by {
        assert(string_views(known@)[k] == known@[k]@);
    }
    false
}

pub open spec fn string_views(s: Seq<String>) -> Seq<Seq<char>> {
    s.map_values(|x: String| x@)
}

pub open spec fn pair_views(s: Seq<(String, String)>) -> Seq<(Seq<char>, Seq<char>)> {
    s.map_values(|p: (String, String)| (p.0@, p.1@))
}

/// The (MAC, IP) pairs of `seen` whose MAC is not among `known`, in order.
pub open spec fn unknown_all(known: Seq<Seq<char>>, seen: Seq<(Seq<char>, Seq<char>)>) -> Seq<
    (Seq<char>, Seq<char>),
>
    decreases seen.len(),
{
    if seen.len() == 0 {
        seq![]
    } else if known.contains(seen.last().0) {
        unknown_all(known, seen.drop_last())
    } else {
        unknown_all(known, seen.drop_last()).push(seen.last())
    }
}

proof fn lemma_unknown_all_members(known: Seq<Seq<char>>, seen: Seq<(Seq<char>, Seq<char>)>)
    ensures
        forall|i: int| 0 <= i < unknown_all(known, seen).len() ==> seen.contains(#[trigger] unknown_all(known, seen)[i])
            && !known.contains(unknown_all(known, seen)[i].0),
        forall|j: int| 0 <= j < seen.len() && !known.contains(#[trigger] seen[j].0) ==> unknown_all(known, seen).contains(seen[j]),
    decreases seen.len(),
{
    if seen.len() > 0 {
        let t = seen.drop_last();
        lemma_unknown_all_members(known, t);
        let u = unknown_all(known, seen);
        let ut = unknown_all(known, t);
        assert forall|i: int| 0 <= i < u.len() implies seen.contains(#[trigger] u[i]) && !known.contains(u[i].0) by {
            if i < ut.len() {
                assert(u[i] == ut[i]);
                let k = choose|k: int| 0 <= k < t.len() && t[k] == ut[i];
                assert(seen[k] == t[k]);
            } else {
                assert(u[i] == seen.last());
                assert(seen[seen.len() - 1] == seen.last());
            }
        }
        assert forall|j: int| 0 <= j < seen.len() && !known.contains(#[trigger] seen[j].0) implies u.contains(seen[j]) by {
            if j < seen.len() - 1 {
                assert(t[j] == seen[j]);
                let k = choose|k: int| 0 <= k < ut.len() && ut[k] == t[j];
                assert(u[k] == ut[k]);
            } else {
                assert(u[u.len() - 1] == seen[j]);
            }
        }
    }
}

/// The machines the poller probes were all seen on the network and none
/// of them is known; there are at most twenty, and when no more than
/// twenty unknown machines were seen, every one of them is probed.
pub proof fn lemma_unknown_machines(known: Seq<Seq<char>>, seen: Seq<(Seq<char>, Seq<char>)>)
    ensures
        at_most_20(unknown_all(known, seen)).len() <= 20,
        forall|i: int| 0 <= i < at_most_20(unknown_all(known, seen)).len() ==> seen.contains(
            #[trigger] at_most_20(unknown_all(known, seen))[i],
        ) && !known.contains(at_most_20(unknown_all(known, seen))[i].0),
        unknown_all(known, seen).len() <= 20 ==> forall|j: int| 0 <= j < seen.len() && !known.contains(
            #[trigger] seen[j].0,
        ) ==> at_most_20(unknown_all(known, seen)).contains(seen[j]),
{
    lemma_unknown_all_members(known, seen);
    let u = unknown_all(known, seen);
    let r = at_most_20(u);
    assert forall|i: int| 0 <= i < r.len() implies seen.contains(#[trigger] r[i]) && !known.contains(r[i].0) by {
        assert(r[i] == u[i]);
    }
}

/// At most the first twenty items.
pub open spec fn at_most_20<T>(s: Seq<T>) -> Seq<T> {
    if s.len() > 20 {
        s.take(20)
    } else {
        s
    }
}

/// The machines seen on the network (MAC, IP) whose MAC is not known, in
/// the order given, at most twenty of them: those the poller probes.
pub fn unknown_machines(known: &Vec<String>, seen: &Vec<(String, String)>) -> (r: Vec<(String, String)>)
    ensures
        pair_views(r@) == at_most_20(unknown_all(string_views(known@), pair_views(seen@))),
{
    let ghost kv = string_views(known@);
    let ghost sv = pair_views(seen@);
    let mut out: Vec<(String, String)> = Vec::new();
    for j in 0..seen.len()
        invariant
            kv == string_views(known@),
            sv == pair_views(seen@),
            pair_views(out@) == at_most_20(unknown_all(kv, sv.take(j as int))),
    {
        assert(sv.take(j + 1).drop_last() =~= sv.take(j as int));
        assert(sv.take(j + 1).last() == (seen@[j as int].0@, seen@[j as int].1@));
        let ghost prev = unknown_all(kv, sv.take(j as int));
        if !is_known(known, &seen[j].0) {
            if out.len() < 20 {
                let ghost before = pair_views(out@);
                out.push((seen[j].0.clone(), seen[j].1.clone()));
                assert(pair_views(out@) =~= before.push(sv[j as int]));
                assert(prev.len() < 20);
                assert(at_most_20(prev.push(sv[j as int])) =~= prev.push(sv[j as int]));
            } else {
                assert(prev.len() >= 20);
                assert(prev.push(sv[j as int]).take(20) =~= at_most_20(prev));
            }
        }
    }
    assert(sv.take(seen.len() as int) =~= sv);
    out
}

/// (lower-cased MAC, IP) of the cached nodes that have an address.
pub open spec fn ip_entries(ns: Seq<CachedNode>) -> Seq<(Seq<char>, Seq<char>)>
    decreases ns.len(),
{
    if ns.len() == 0 {
        seq![]
    } else {
        match ns.last().ip {
            Some(ip) => ip_entries(ns.drop_last()).push((lowercase(ns.last().mac@), ip@)),
            None => ip_entries(ns.drop_last()),
        }
    }
}

/// The verified address cache the poller saves.
pub fn verified_ip_entries(nodes: &Vec<CachedNode>) -> (r: Vec<(String, String)>)
    ensures
        pair_views(r@) == ip_entries(nodes@),
{
    let mut out: Vec<(String, String)> = Vec::new();
    for j in 0..nodes.len()
        invariant
            pair_views(out@) == ip_entries(nodes@.take(j as int)),
    {
        assert(nodes@.take(j + 1).drop_last() =~= nodes@.take(j as int));
        assert(nodes@.take(j + 1).last() == nodes@[j as int]);
        match &nodes[j].ip {
            Some(ip) => {
                let ghost before = pair_views(out@);
                out.push((to_lowercase(nodes[j].mac.as_str()), ip.clone()));
                assert(pair_views(out@) =~= before.push((lowercase(nodes@[j as int].mac@), ip@)));
            },
            None => {},
        }
    }
    assert(nodes@.take(nodes.len() as int) =~= nodes@);
    out
}

} // verus!
