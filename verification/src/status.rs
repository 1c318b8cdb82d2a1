//! What a node reports about itself: its status, hardware and disks, read
//! from the text its commands print.
use vstd::prelude::*;
use crate::config::Node;
use crate::text::{
    chars_eq, chars_of, lines, lines_of, parse_u32, parse_u64, parse_unsigned, push_str,
    split_chars, split_on, string_of, trim, trim_chars, trimmed,
};

verus! {

/// Whether a node answers, and whether a VM runs on it.
#[derive(Debug, Clone, Copy, PartialEq, Eq, Structural)]
pub enum NodeStatus {
    Offline,
    Standby,
    Active,
}

impl NodeStatus {
    /// The lower-case name the tool prints and caches.
    pub fn name(&self) -> (s: String)
        ensures
            s@ == status_name(*self),
    {
        match self {
            NodeStatus::Offline => String::from_str("offline"),
            NodeStatus::Standby => String::from_str("standby"),
            NodeStatus::Active => String::from_str("active"),
        }
    }
}

pub open spec fn status_name(s: NodeStatus) -> Seq<char> {
    match s {
        NodeStatus::Offline => "offline"@,
        NodeStatus::Standby => "standby"@,
        NodeStatus::Active => "active"@,
    }
}

/// A disk of a node.
#[derive(Debug)]
pub struct DiskInfo {
    /// Device name, such as `nvme0n1` or `sda`.
    pub name: String,
    pub size_bytes: u64,
    /// Free space of its mounted partition, if one is mounted.
    pub available_bytes: Option<u64>,
    /// `SSD` or `HDD`.
    pub disk_type: String,
    pub model: String,
    pub mount_point: Option<String>,
}

pub struct DiskView {
    pub name: Seq<char>,
    pub size_bytes: u64,
    pub available_bytes: Option<u64>,
    pub disk_type: Seq<char>,
    pub model: Seq<char>,
    pub mount_point: Option<Seq<char>>,
}

pub open spec fn opt_string_view(o: Option<String>) -> Option<Seq<char>> {
    match o {
        Some(s) => Some(s@),
        None => None,
    }
}

impl View for DiskInfo {
    type V = DiskView;

    open spec fn view(&self) -> DiskView {
        DiskView {
            name: self.name@,
            size_bytes: self.size_bytes,
            available_bytes: self.available_bytes,
            disk_type: self.disk_type@,
            model: self.model@,
            mount_point: opt_string_view(self.mount_point),
        }
    }
}

pub open spec fn disk_views(ds: Seq<DiskInfo>) -> Seq<DiskView> {
    ds.map_values(|d: DiskInfo| d@)
}

/// The hardware summary of a node.
#[derive(Debug)]
pub struct NodeSpecs {
    pub cpu: String,
    pub cores: String,
    pub ram: String,
    pub gpu: String,
    pub disks: Vec<DiskInfo>,
}

pub struct SpecsView {
    pub cpu: Seq<char>,
    pub cores: Seq<char>,
    pub ram: Seq<char>,
    pub gpu: Seq<char>,
    pub disks: Seq<DiskView>,
}

impl View for NodeSpecs {
    type V = SpecsView;

    open spec fn view(&self) -> SpecsView {
        SpecsView {
            cpu: self.cpu@,
            cores: self.cores@,
            ram: self.ram@,
            gpu: self.gpu@,
            disks: disk_views(self.disks@),
        }
    }
}

/// Specs of a node that could not be asked: every field `N/A`, no disks.
pub open spec fn unknown_specs() -> SpecsView {
    SpecsView { cpu: "N/A"@, cores: "N/A"@, ram: "N/A"@, gpu: "N/A"@, disks: seq![] }
}

impl Default for NodeSpecs {
    fn default() -> (s: NodeSpecs)
        ensures
            s@ == unknown_specs(),
    {
        let s = NodeSpecs {
            cpu: String::from_str("N/A"),
            cores: String::from_str("N/A"),
            ram: String::from_str("N/A"),
            gpu: String::from_str("N/A"),
            disks: Vec::new(),
        };
        assert(s@.disks =~= Seq::<DiskView>::empty());
        s
    }
}

/// Whether the VM of a node is running, and its process id.
#[derive(Debug)]
pub struct VmStatus {
    pub running: bool,
    pub pid: Option<String>,
}

/// Everything the tool shows about a node.
#[derive(Debug)]
pub struct NodeInfo {
    pub hostname: String,
    pub ip: String,
    pub mac: String,
    pub status: NodeStatus,
    pub specs: NodeSpecs,
    pub vm_info: Option<VmStatus>,
}

// ---------------------------------------------------------------------------
// Numbers printed by commands
// ---------------------------------------------------------------------------

/// The number a command printed (surrounding whitespace ignored), if it
/// printed one that fits; `max` is the type's largest value.
pub open spec fn number_in(out: Seq<char>, max: nat) -> Option<nat> {
    parse_unsigned(trim(out), 10, max)
}

/// RAM in MB and CPU cores of a node, from the outputs of
/// `free -m | grep Mem | awk '{print $2}'` and `nproc` (`None` where the
/// command failed). Each falls back to 8192 MB and 4 cores.
pub fn get_node_resources(ram_output: Option<&str>, cores_output: Option<&str>) -> (r: (u32, u32))
    ensures
        r.0 == (match ram_output {
            Some(o) => match number_in(o@, u32::MAX as nat) {
                Some(n) => n as u32,
                None => 8192u32,
            },
            None => 8192u32,
        }),
        r.1 == (match cores_output {
            Some(o) => match number_in(o@, u32::MAX as nat) {
                Some(n) => n as u32,
                None => 4u32,
            },
            None => 4u32,
        }),
{
    let mut ram_mb: u32 = 8192;
    let mut cpu_cores: u32 = 4;
    if let Some(o) = ram_output {
        if let Some(n) = parse_u32(&trimmed(o)) {
            ram_mb = n;
        }
    }
    if let Some(o) = cores_output {
        if let Some(n) = parse_u32(&trimmed(o)) {
            cpu_cores = n;
        }
    }
    (ram_mb, cpu_cores)
}

// ---------------------------------------------------------------------------
// The disk listing
// ---------------------------------------------------------------------------

/// A field parsed as `u64`, or `d` when it does not parse.
pub open spec fn u64_or(s: Seq<char>, d: nat) -> nat {
    match parse_unsigned(s, 10, u64::MAX as nat) {
        Some(n) => n,
        None => d,
    }
}

/// The size in bytes a listing line gives (512-byte blocks).
pub open spec fn line_size(l: Seq<char>) -> nat {
    u64_or(split_on(l, '|')[1], 0) * 512
}

/// The size of no line with four fields overflows `u64` (the listing
/// commands's arithmetic would stop the tool on such a line).
pub open spec fn disk_sizes_fit(out: Seq<char>) -> bool {
    forall|i: int|
        0 <= i < lines(out).len() && split_on(#[trigger] lines(out)[i], '|').len() >= 4 ==> line_size(
            lines(out)[i],
        ) <= u64::MAX
}

/// The disk a line `NAME|SIZE_BLOCKS|ROTATIONAL|MODEL` describes, unless
/// the line has fewer fields or the disk is smaller than 1 GB.
pub open spec fn disk_from_line(l: Seq<char>) -> Option<DiskView> {
    let p = split_on(l, '|');
    if p.len() >= 4 && line_size(l) >= 1_000_000_000 {
        Some(
            DiskView {
                name: p[0],
                size_bytes: line_size(l) as u64,
                available_bytes: None,
                disk_type: if parse_unsigned(p[2], 10, u32::MAX as nat) == Some(0nat) {
                    "SSD"@
                } else {
                    "HDD"@
                },
                model: trim(p[3]),
                mount_point: None,
            },
        )
    } else {
        None
    }
}

/// The disks of a listing, in the order of its lines.
pub open spec fn disks_of(ls: Seq<Seq<char>>) -> Seq<DiskView>
    decreases ls.len(),
{
    if ls.len() == 0 {
        seq![]
    } else {
        match disk_from_line(ls.last()) {
            Some(d) => disks_of(ls.drop_last()).push(d),
            None => disks_of(ls.drop_last()),
        }
    }
}

/// Whether the listing's sizes fit, so that `parse_disk_listing` may be
/// called on it.
pub fn disk_sizes_fit_exec(output: &str) -> (r: bool)
    ensures
        r == disk_sizes_fit(output@),
{
    let v = chars_of(output);
    let ls = lines_of(&v);
    let ghost all = lines(output@);
    for i in 0..ls.len()
        invariant
            ls@.len() == all.len(),
            all == lines(output@),
            forall|k: int| 0 <= k < ls@.len() ==> #[trigger] ls@[k]@ == all[k],
            forall|k: int|
                0 <= k < i && split_on(#[trigger] all[k], '|').len() >= 4 ==> line_size(all[k])
                    <= u64::MAX,
    {
        let parts = split_chars(&ls[i], '|');
        if parts.len() >= 4 {
            let blocks: u64 = match parse_u64(&parts[1]) {
                Some(n) => n,
                None => 0,
            };
            if blocks > u64::MAX / 512 {
                assert(line_size(all[i as int]) > u64::MAX);
                return false;
            }
        }
    }
    true
}

/// The disks listed by the `/sys/block` scan (lines
/// `NAME|SIZE_BLOCKS|ROTATIONAL|MODEL`): disks of at least 1 GB, with
/// rotational `0` counted as SSD. Mount information is filled in later.
pub fn parse_disk_listing(output: &str) -> (r: Vec<DiskInfo>)
    requires
        disk_sizes_fit(output@),
    ensures
        disk_views(r@) == disks_of(lines(output@)),
{
    let v = chars_of(output);
    let ls = lines_of(&v);
    let ghost all = lines(output@);
    let mut out: Vec<DiskInfo> = Vec::new();
    for i in 0..ls.len()
        invariant
            ls@.len() == all.len(),
            all == lines(output@),
            disk_sizes_fit(output@),
            forall|k: int| 0 <= k < ls@.len() ==> #[trigger] ls@[k]@ == all[k],
            disk_views(out@) == disks_of(all.take(i as int)),
    {
        assert(all.take(i + 1).drop_last() =~= all.take(i as int));
        assert(all.take(i + 1).last() == all[i as int]);
        let line = &ls[i];
        let parts = split_chars(line, '|');
        if parts.len() >= 4 {
            let blocks: u64 = match parse_u64(&parts[1]) {
                Some(n) => n,
                None => 0,
            };
            assert(line_size(all[i as int]) == blocks * 512);
            assert(blocks * 512 <= u64::MAX);
            let size_bytes = blocks * 512;
            if size_bytes >= 1_000_000_000 {
                let rot: u32 = match parse_u32(&parts[2]) {
                    Some(n) => n,
                    None => 1,
                };
                let disk_type = if rot == 0 {
                    String::from_str("SSD")
                } else {
                    String::from_str("HDD")
                };
                let d = DiskInfo {
                    name: string_of(&parts[0]),
                    size_bytes,
                    available_bytes: None,
                    disk_type,
                    model: string_of(&trim_chars(&parts[3])),
                    mount_point: None,
                };
                let ghost before = disk_views(out@);
                out.push(d);
                assert(disk_views(out@) =~= before.push(d@));
            }
        }
        assert(disk_views(out@) == disks_of(all.take(i + 1)));
    }
    assert(all.take(ls.len() as int) =~= all);
    out
}

/// Mount point and free bytes of a disk, from the output of the `df`
/// query (`AVAILABLE|MOUNT`); both `None` when the query failed or found
/// nothing.
pub open spec fn mount_info_spec(output: Option<Seq<char>>) -> (Option<Seq<char>>, Option<nat>) {
    match output {
        Some(o) => {
            let t = trim(o);
            let p = split_on(t, '|');
            if t.len() > 0 && p.len() >= 2 {
                (Some(p[1]), Some(u64_or(p[0], 0)))
            } else {
                (None, None)
            }
        },
        None => (None, None),
    }
}

pub fn get_disk_mount_info(output: Option<&str>) -> (r: (Option<String>, Option<u64>))
    ensures
        ({
            let s = mount_info_spec(match output {
                Some(o) => Some(o@),
                None => None,
            });
            &&& opt_string_view(r.0) == s.0
            &&& (match r.1 {
                Some(n) => s.1 == Some(n as nat),
                None => s.1 is None,
            })
        }),
{
    if let Some(o) = output {
        let t = trimmed(o);
        if t.len() > 0 {
            let parts = split_chars(&t, '|');
            if parts.len() >= 2 {
                let available: u64 = match parse_u64(&parts[0]) {
                    Some(n) => n,
                    None => 0,
                };
                return (Some(string_of(&parts[1])), Some(available));
            }
        }
    }
    (None, None)
}

// ---------------------------------------------------------------------------
// Ordering disks by size
// ---------------------------------------------------------------------------

/// The number of leading disks of `s` at least as large as `x`.
pub open spec fn insert_pos(s: Seq<DiskView>, size: u64) -> nat
    decreases s.len(),
{
    if s.len() > 0 && s[0].size_bytes >= size {
        1 + insert_pos(s.drop_first(), size)
    } else {
        0
    }
}

/// `s` with `x` placed after the disks at least as large as it.
pub open spec fn insert_desc(s: Seq<DiskView>, x: DiskView) -> Seq<DiskView> {
    let p = insert_pos(s, x.size_bytes) as int;
    s.take(p).push(x) + s.skip(p)
}

/// The disks from largest to smallest, equal sizes in their given order
/// (the result of a stable sort by descending size).
pub open spec fn sorted_desc(s: Seq<DiskView>) -> Seq<DiskView>
    decreases s.len(),
{
    if s.len() == 0 {
        seq![]
    } else {
        insert_desc(sorted_desc(s.drop_last()), s.last())
    }
}

proof fn lemma_insert_pos(s: Seq<DiskView>, size: u64)
    ensures
        insert_pos(s, size) <= s.len(),
        forall|k: int| 0 <= k < insert_pos(s, size) ==> s[k].size_bytes >= size,
        insert_pos(s, size) < s.len() ==> s[insert_pos(s, size) as int].size_bytes < size,
    decreases s.len(),
{
    if s.len() > 0 && s[0].size_bytes >= size {
        lemma_insert_pos(s.drop_first(), size);
        assert forall|k: int| 0 <= k < insert_pos(s, size) implies s[k].size_bytes >= size by {
            if k > 0 {
                assert(s[k] == s.drop_first()[k - 1]);
            }
        }
    }
}

proof fn lemma_insert_pos_at(s: Seq<DiskView>, size: u64, p: int)
    requires
        0 <= p <= s.len(),
        forall|k: int| 0 <= k < p ==> s[k].size_bytes >= size,
        p < s.len() ==> s[p].size_bytes < size,
    ensures
        insert_pos(s, size) == p,
    decreases s.len(),
{
    if p > 0 {
        assert forall|k: int| 0 <= k < p - 1 implies s.drop_first()[k].size_bytes >= size by {
            assert(s.drop_first()[k] == s[k + 1]);
        }
        lemma_insert_pos_at(s.drop_first(), size, p - 1);
    }
}

/// Orders disks from largest to smallest, keeping the given order among
/// disks of equal size.
pub fn sort_disks_by_size(disks: Vec<DiskInfo>) -> (r: Vec<DiskInfo>)
    ensures
        disk_views(r@) == sorted_desc(disk_views(disks@)),
{
    let ghost input = disk_views(disks@);
    let mut out: Vec<DiskInfo> = Vec::new();
    let ghost n = disks@.len();
    for d in it: disks.into_iter()
        invariant
            it.seq() == disks@,
            input == disk_views(disks@),
            n == disks@.len(),
            disk_views(out@) == sorted_desc(input.take(it.index() as int)),
    {
        let ghost i = it.index();
        let size = d.size_bytes;
        let mut p: usize = 0;
        while p < out.len() && out[p].size_bytes >= size
            invariant
                p <= out.len(),
                forall|k: int| 0 <= k < p ==> out@[k].size_bytes >= size,
            decreases out.len() - p,
        {
            p = p + 1;
        }
        let ghost before = disk_views(out@);
        proof {
            assert forall|k: int| 0 <= k < p implies before[k].size_bytes >= size by {}
            lemma_insert_pos_at(before, size, p as int);
            assert(input.take(i + 1).drop_last() =~= input.take(i as int));
            assert(input.take(i + 1).last() == d@);
        }
        out.insert(p, d);
        assert(disk_views(out@) =~= insert_desc(before, input[i as int]));
        assert(input.take(i + 1).drop_last() =~= input.take(i as int));
    }
    assert(input.take(n as int) =~= input);
    out
}

// ---------------------------------------------------------------------------
// Status, specs and VM of a node
// ---------------------------------------------------------------------------

/// The status of a node: offline when it cannot be reached, active when
/// the VM probe printed `running`, standby otherwise (also when the probe
/// failed, `vm_probe == None`).
pub open spec fn node_status_spec(reached: bool, vm_probe: Option<Seq<char>>) -> NodeStatus {
    if !reached {
        NodeStatus::Offline
    } else {
        match vm_probe {
            Some(o) => if trim(o) == "running"@ {
                NodeStatus::Active
            } else {
                NodeStatus::Standby
            },
            None => NodeStatus::Standby,
        }
    }
}

/// A node is offline exactly when it cannot be reached, and active
/// exactly when it was reached and its VM probe printed `running`
/// (surrounding whitespace aside).
pub proof fn lemma_node_status(reached: bool, vm_probe: Option<Seq<char>>)
    ensures
        (node_status_spec(reached, vm_probe) == NodeStatus::Offline) <==> !reached,
        (node_status_spec(reached, vm_probe) == NodeStatus::Active) <==> (reached && vm_probe is Some
            && trim(vm_probe->0) == "running"@),
{
}

pub open spec fn opt_str(o: Option<&str>) -> Option<Seq<char>> {
    match o {
        Some(s) => Some(s@),
        None => None,
    }
}

pub fn get_node_status(reached: bool, vm_probe: Option<&str>) -> (r: NodeStatus)
    ensures
        r == node_status_spec(reached, opt_str(vm_probe)),
{
    if !reached {
        return NodeStatus::Offline;
    }
    match vm_probe {
        Some(o) => {
            let t = trimmed(o);
            let running = chars_of("running");
            if chars_eq(&t, &running) {
                NodeStatus::Active
            } else {
                NodeStatus::Standby
            }
        },
        None => NodeStatus::Standby,
    }
}

/// A trimmed command output, or `fallback` when it is missing or blank.
pub open spec fn field_or(out: Option<Seq<char>>, fallback: Seq<char>) -> Seq<char> {
    match out {
        Some(o) => if trim(o).len() > 0 {
            trim(o)
        } else {
            fallback
        },
        None => fallback,
    }
}

/// The specs of a node from its command outputs (`None` where a command
/// failed). Cores read `<n> cores`; a GPU query that ran but printed
/// nothing reads `None`. A node that cannot be reached has unknown specs.
pub open spec fn node_specs_spec(
    reached: bool,
    cpu: Option<Seq<char>>,
    cores: Option<Seq<char>>,
    ram: Option<Seq<char>>,
    gpu: Option<Seq<char>>,
    disks: Seq<DiskView>,
) -> SpecsView {
    if !reached {
        unknown_specs()
    } else {
        SpecsView {
            cpu: field_or(cpu, "N/A"@),
            cores: match cores {
                Some(o) => if trim(o).len() > 0 {
                    trim(o) + " cores"@
                } else {
                    "N/A"@
                },
                None => "N/A"@,
            },
            ram: field_or(ram, "N/A"@),
            gpu: match gpu {
                Some(o) => if trim(o).len() > 0 {
                    trim(o)
                } else {
                    "None"@
                },
                None => "N/A"@,
            },
            disks,
        }
    }
}

/// What a reachable node's specs report of each query: a query that ran
/// and printed text gives that text without its surrounding whitespace
/// (cores with ` cores` after it); one that printed only whitespace gives
/// `N/A`, or `None` for the GPU (there is none); one that failed gives
/// `N/A`. Each field depends on its own query alone, and the disks are
/// those found. A node that cannot be reached reports `N/A` throughout and
/// no disks.
pub proof fn lemma_node_specs_fields(
    cpu: Option<Seq<char>>,
    cores: Option<Seq<char>>,
    ram: Option<Seq<char>>,
    gpu: Option<Seq<char>>,
    disks: Seq<DiskView>,
    cpu2: Option<Seq<char>>,
    cores2: Option<Seq<char>>,
    ram2: Option<Seq<char>>,
    gpu2: Option<Seq<char>>,
    disks2: Seq<DiskView>,
)
    ensures
        ({
            let sp = node_specs_spec(true, cpu, cores, ram, gpu, disks);
            &&& gpu is Some && trim(gpu->0).len() > 0 ==> sp.gpu == trim(gpu->0)
            &&& gpu is Some && trim(gpu->0).len() == 0 ==> sp.gpu == "None"@
            &&& gpu is None ==> sp.gpu == "N/A"@
            &&& cores is Some && trim(cores->0).len() > 0 ==> sp.cores == trim(cores->0) + " cores"@
            &&& !(cores is Some && trim(cores->0).len() > 0) ==> sp.cores == "N/A"@
            &&& cpu is Some && trim(cpu->0).len() > 0 ==> sp.cpu == trim(cpu->0)
            &&& !(cpu is Some && trim(cpu->0).len() > 0) ==> sp.cpu == "N/A"@
            &&& ram is Some && trim(ram->0).len() > 0 ==> sp.ram == trim(ram->0)
            &&& !(ram is Some && trim(ram->0).len() > 0) ==> sp.ram == "N/A"@
            &&& sp.disks == disks
        }),
        node_specs_spec(true, cpu, cores, ram, gpu, disks).gpu == node_specs_spec(true, cpu2, cores2, ram2, gpu, disks2).gpu,
        node_specs_spec(true, cpu, cores, ram, gpu, disks).cpu == node_specs_spec(true, cpu, cores2, ram2, gpu2, disks2).cpu,
        node_specs_spec(true, cpu, cores, ram, gpu, disks).cores == node_specs_spec(true, cpu2, cores, ram2, gpu2, disks2).cores,
        node_specs_spec(true, cpu, cores, ram, gpu, disks).ram == node_specs_spec(true, cpu2, cores2, ram, gpu2, disks2).ram,
        node_specs_spec(false, cpu, cores, ram, gpu, disks) == (SpecsView {
            cpu: "N/A"@,
            cores: "N/A"@,
            ram: "N/A"@,
            gpu: "N/A"@,
            disks: seq![],
        }),
{
}

fn field_or_exec(out: Option<&str>, fallback: &str) -> (r: String)
    ensures
        r@ == field_or(opt_str(out), fallback@),
{
    match out {
        Some(o) => {
            let t = trimmed(o);
            if t.len() > 0 {
                string_of(&t)
            } else {
                String::from_str(fallback)
            }
        },
        None => String::from_str(fallback),
    }
}

pub fn get_node_specs(
    reached: bool,
    cpu: Option<&str>,
    cores: Option<&str>,
    ram: Option<&str>,
    gpu: Option<&str>,
    disks: Vec<DiskInfo>,
) -> (r: NodeSpecs)
    ensures
        r@ == node_specs_spec(
            reached,
            opt_str(cpu),
            opt_str(cores),
            opt_str(ram),
            opt_str(gpu),
            disk_views(disks@),
        ),
{
    if !reached {
        return NodeSpecs::default();
    }
    let cores_s = match cores {
        Some(o) => {
            let mut t = trimmed(o);
            if t.len() > 0 {
                push_str(&mut t, " cores");
                string_of(&t)
            } else {
                String::from_str("N/A")
            }
        },
        None => String::from_str("N/A"),
    };
    let gpu_s = match gpu {
        Some(_) => field_or_exec(gpu, "None"),
        None => String::from_str("N/A"),
    };
    NodeSpecs {
        cpu: field_or_exec(cpu, "N/A"),
        cores: cores_s,
        ram: field_or_exec(ram, "N/A"),
        gpu: gpu_s,
        disks,
    }
}

/// The VM of a node: unknown (`None`) when the node cannot be reached or
/// the query failed; running with its process id when the query found
/// one (`Some(Some(pid))`), stopped otherwise.
pub fn get_vm_status(reached: bool, query: Option<Option<&str>>) -> (r: Option<VmStatus>)
    ensures
        match r {
            None => !reached || query is None,
            Some(v) => reached && match query {
                Some(Some(pid)) => v.running && v.pid is Some && v.pid->0@ == pid@,
                Some(None) => !v.running && v.pid is None,
                None => false,
            },
        },
{
    if !reached {
        return None;
    }
    match query {
        Some(Some(pid)) => Some(VmStatus { running: true, pid: Some(String::from_str(pid)) }),
        Some(None) => Some(VmStatus { running: false, pid: None }),
        None => None,
    }
}

/// Everything shown about a node. Specs and VM are those given, except
/// for an offline node, which has unknown specs and no VM.
pub fn get_node_info(node: &Node, status: NodeStatus, specs: NodeSpecs, vm_info: Option<VmStatus>) -> (r:
    NodeInfo)
    ensures
        r.hostname@ == node.hostname@,
        r.ip@ == node.ip@,
        r.mac@ == node.mac@,
        r.status == status,
        status == NodeStatus::Offline ==> r.specs@ == unknown_specs() && r.vm_info is None,
        status != NodeStatus::Offline ==> r.specs@ == specs@ && r.vm_info == vm_info,
{
    let offline = match status {
        NodeStatus::Offline => true,
        _ => false,
    };
    NodeInfo {
        hostname: node.hostname.clone(),
        ip: node.ip.clone(),
        mac: node.mac.clone(),
        status,
        specs: if offline {
            NodeSpecs::default()
        } else {
            specs
        },
        vm_info: if offline {
            None
        } else {
            vm_info
        },
    }
}

// ---------------------------------------------------------------------------
// Laws of the disk order
// ---------------------------------------------------------------------------

/// Sizes never increase along `s`.
pub open spec fn is_desc(s: Seq<DiskView>) -> bool {
    forall|i: int, j: int| 0 <= i < j < s.len() ==> #[trigger] s[i].size_bytes >= #[trigger] s[j].size_bytes
}

/// The disks of `s` of size `k`, in order.
pub open spec fn with_size(s: Seq<DiskView>, k: u64) -> Seq<DiskView>
    decreases s.len(),
{
    if s.len() == 0 {
        seq![]
    } else if s.last().size_bytes == k {
        with_size(s.drop_last(), k).push(s.last())
    } else {
        with_size(s.drop_last(), k)
    }
}

proof fn lemma_with_size_add(a: Seq<DiskView>, b: Seq<DiskView>, k: u64)
    ensures
        with_size(a + b, k) == with_size(a, k) + with_size(b, k),
    decreases b.len(),
{
    if b.len() == 0 {
        assert(a + b =~= a);
        assert(with_size(a, k) + with_size(b, k) =~= with_size(a, k));
    } else {
        lemma_with_size_add(a, b.drop_last(), k);
        assert((a + b).drop_last() =~= a + b.drop_last());
        assert((a + b).last() == b.last());
        if b.last().size_bytes == k {
            assert(with_size(a, k) + with_size(b, k) =~= (with_size(a, k) + with_size(b.drop_last(), k)).push(b.last()));
        }
    }
}

proof fn lemma_with_size_none(s: Seq<DiskView>, k: u64)
    requires
        forall|i: int| 0 <= i < s.len() ==> s[i].size_bytes != k,
    ensures
        with_size(s, k) == Seq::<DiskView>::empty(),
    decreases s.len(),
{
    if s.len() > 0 {
        lemma_with_size_none(s.drop_last(), k);
    }
}

proof fn lemma_insert_desc_sorted(s: Seq<DiskView>, x: DiskView)
    requires
        is_desc(s),
    ensures
        is_desc(insert_desc(s, x)),
        forall|i: int| insert_pos(s, x.size_bytes) <= i < s.len() ==> s[i].size_bytes < x.size_bytes,
{
    lemma_insert_pos(s, x.size_bytes);
    let p = insert_pos(s, x.size_bytes) as int;
    let r = insert_desc(s, x);
    assert forall|i: int| p <= i < s.len() implies s[i].size_bytes < x.size_bytes by {
        if i > p {
            assert(s[p].size_bytes >= s[i].size_bytes);
        }
    }
    assert(r.len() == s.len() + 1);
    assert forall|i: int| 0 <= i < r.len() implies #[trigger] r[i] == (if i < p {
        s[i]
    } else if i == p {
        x
    } else {
        s[i - 1]
    }) by {}
    assert forall|i: int, j: int| 0 <= i < j < r.len() implies #[trigger] r[i].size_bytes >= #[trigger] r[j].size_bytes by {
        if j < p {
        } else if j == p {
        } else if i < p {
            assert(s[i].size_bytes >= s[j - 1].size_bytes);
        } else if i == p {
        } else {
            assert(s[i - 1].size_bytes >= s[j - 1].size_bytes);
        }
    }
}

/// The disk order puts larger disks first.
pub proof fn lemma_sorted_desc_is_desc(s: Seq<DiskView>)
    ensures
        is_desc(sorted_desc(s)),
        sorted_desc(s).len() == s.len(),
    decreases s.len(),
{
    if s.len() > 0 {
        lemma_sorted_desc_is_desc(s.drop_last());
        lemma_insert_desc_sorted(sorted_desc(s.drop_last()), s.last());
        lemma_insert_pos(sorted_desc(s.drop_last()), s.last().size_bytes);
    }
}

/// The disk order is stable: the disks of each size keep their order,
/// and none is lost or added.
pub proof fn lemma_sorted_desc_stable(s: Seq<DiskView>, k: u64)
    ensures
        with_size(sorted_desc(s), k) == with_size(s, k),
    decreases s.len(),
{
    if s.len() > 0 {
        let init = s.drop_last();
        let x = s.last();
        let t = sorted_desc(init);
        lemma_sorted_desc_stable(init, k);
        lemma_sorted_desc_is_desc(init);
        lemma_insert_desc_sorted(t, x);
        lemma_insert_pos(t, x.size_bytes);
        let p = insert_pos(t, x.size_bytes) as int;
        assert(t =~= t.take(p) + t.skip(p));
        lemma_with_size_add(t.take(p).push(x), t.skip(p), k);
        lemma_with_size_add(t.take(p), t.skip(p), k);
        assert(t.take(p).push(x).drop_last() =~= t.take(p));
        if k == x.size_bytes {
            assert forall|i: int| 0 <= i < t.skip(p).len() implies t.skip(p)[i].size_bytes != k by {
                assert(t.skip(p)[i] == t[p + i]);
            }
            lemma_with_size_none(t.skip(p), k);
            assert(with_size(t.take(p) + t.skip(p), k) =~= with_size(t.take(p), k));
            assert(with_size(t.take(p).push(x), k) + with_size(t.skip(p), k) =~= with_size(t.take(p), k).push(x));
        }
    }
}

} // verus!
