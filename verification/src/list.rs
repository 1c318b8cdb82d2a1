//! What `cave node list` computes from its probes: the VM line of a node,
//! column text, and the status summary.
use vstd::prelude::*;
use vstd::string::StringSliceAdditionalSpecFns;
use vstd::utf8::{encode_utf8, is_char_boundary};
use crate::poll::vm_fields;
use crate::status::{DiskInfo, NodeStatus};
use crate::text::{chars_of, push_str, split_chars, string_of, trimmed, join, views, join_chars};

verus! {

/// The VM a node runs, as the list shows it.
#[derive(Debug)]
pub struct VmInfo {
    pub name: String,
    /// Empty while the VM has no address yet.
    pub ip: String,
    /// Allocated memory, such as `2048M`.
    pub memory: String,
    pub cpus: String,
}

/// The VM a probe (`VM|IP|MEM|CPUS`) printed, if any (`None` also when
/// the node could not be asked).
pub fn get_vm_info(output: Option<&str>) -> (r: Option<VmInfo>)
    ensures
        match output {
            Some(o) => match vm_fields(o@) {
                Some(p) => r matches Some(v) && v.name@ == p[0] && v.ip@ == p[1] && v.memory@ == p[2]
                    + "M"@ && v.cpus@ == p[3],
                None => r is None,
            },
            None => r is None,
        },
{
    match output {
        Some(o) => {
            let parts = split_chars(&trimmed(o), '|');
            if parts.len() >= 4 && parts[0].len() > 0 {
                let mut mem = parts[2].clone();
                push_str(&mut mem, "M");
                Some(
                    VmInfo {
                        name: string_of(&parts[0]),
                        ip: string_of(&parts[1]),
                        memory: string_of(&mem),
                        cpus: string_of(&parts[3]),
                    },
                )
            } else {
                None
            }
        },
        None => None,
    }
}

/// Shortens text longer than `max_len` bytes to its first `max_len - 3`
/// bytes followed by `...`.
pub fn truncate(s: &str, max_len: usize) -> (r: String)
    requires
        s.spec_bytes().len() <= usize::MAX,
        s.spec_bytes().len() > max_len ==> max_len >= 3 && is_char_boundary(
            s.spec_bytes(),
            max_len - 3,
        ),
    ensures
        s.spec_bytes().len() <= max_len ==> r@ == s@,
        s.spec_bytes().len() > max_len ==> r@.len() >= 3 && encode_utf8(r@.take(r@.len() - 3))
            == s.spec_bytes().take(max_len - 3) && r@.skip(r@.len() - 3) == "..."@,
{
    if s.len() <= max_len {
        String::from_str(s)
    } else {
        let (head, _) = s.split_at(max_len - 3);
        let mut v = chars_of(head);
        let ghost h = v@;
        push_str(&mut v, "...");
        proof {
            reveal_strlit("...");
            assert(v@.take(v@.len() - 3) =~= h);
            assert(v@.skip(v@.len() - 3) =~= "..."@);
            assert(head.spec_bytes() =~= s.spec_bytes().take(max_len - 3));
            assert(h == head@);
            assert(encode_utf8(v@.take(v@.len() - 3)) == encode_utf8(h));
            assert(encode_utf8(h) == head.spec_bytes());
        }
        string_of(&v)
    }
}

/// The kind a disk is listed as: `SSD` for an SSD, `HDD` for anything else.
pub open spec fn disk_kind(disk_type: Seq<char>) -> Seq<char> {
    if disk_type == "SSD"@ {
        "SSD"@
    } else {
        "HDD"@
    }
}

/// The disk column: `no disks`, or `<size> <kind>` per disk joined with
/// ` + `, the sizes written by the caller (one per disk).
pub open spec fn disk_summary(kinds: Seq<Seq<char>>, sizes: Seq<Seq<char>>) -> Seq<char> {
    if kinds.len() == 0 {
        "no disks"@
    } else {
        join(Seq::new(kinds.len(), |i: int| sizes[i] + " "@ + disk_kind(kinds[i])), " + "@)
    }
}

pub fn format_disk_summary(disks: &Vec<DiskInfo>, sizes: &Vec<String>) -> (r: String)
    requires
        sizes@.len() == disks@.len(),
    ensures
        r@ == disk_summary(disks@.map_values(|d: DiskInfo| d.disk_type@), sizes@.map_values(|s: String| s@)),
{
    if disks.len() == 0 {
        return String::from_str("no disks");
    }
    let ghost kinds = disks@.map_values(|d: DiskInfo| d.disk_type@);
    let ghost szs = sizes@.map_values(|s: String| s@);
    let mut parts: Vec<Vec<char>> = Vec::new();
    let ssd = chars_of("SSD");
    for i in 0..disks.len()
        invariant
            sizes@.len() == disks@.len(),
            kinds == disks@.map_values(|d: DiskInfo| d.disk_type@),
            szs == sizes@.map_values(|s: String| s@),
            ssd@ == "SSD"@,
            parts@.len() == i,
            forall|k: int| 0 <= k < i ==> #[trigger] parts@[k]@ == szs[k] + " "@ + disk_kind(kinds[k]),
    {
        let mut p = chars_of(sizes[i].as_str());
        push_str(&mut p, " ");
        if crate::text::chars_eq(&chars_of(disks[i].disk_type.as_str()), &ssd) {
            push_str(&mut p, "SSD");
        } else {
            push_str(&mut p, "HDD");
        }
        parts.push(p);
    }
    let sep = chars_of(" + ");
    let out = join_chars(&parts, &sep);
    assert(views(parts@) =~= Seq::new(kinds.len(), |i: int| szs[i] + " "@ + disk_kind(kinds[i])));
    string_of(&out)
}

/// How many nodes have the given status.
pub open spec fn count_status(ss: Seq<NodeStatus>, s: NodeStatus) -> nat
    decreases ss.len(),
{
    if ss.len() == 0 {
        0
    } else {
        count_status(ss.drop_last(), s) + if ss.last() == s {
            1nat
        } else {
            0nat
        }
    }
}

/// The counts of active, standby and offline nodes for the summary line.
pub fn status_counts(ss: &Vec<NodeStatus>) -> (r: (usize, usize, usize))
    ensures
        r.0 == count_status(ss@, NodeStatus::Active),
        r.1 == count_status(ss@, NodeStatus::Standby),
        r.2 == count_status(ss@, NodeStatus::Offline),
{
    let mut a: usize = 0;
    let mut b: usize = 0;
    let mut c: usize = 0;
    for i in 0..ss.len()
        invariant
            a == count_status(ss@.take(i as int), NodeStatus::Active),
            b == count_status(ss@.take(i as int), NodeStatus::Standby),
            c == count_status(ss@.take(i as int), NodeStatus::Offline),
            a + b + c == i,
    {
        assert(ss@.take(i + 1).drop_last() =~= ss@.take(i as int));
        assert(ss@.take(i + 1).last() == ss@[i as int]);
        match ss[i] {
            NodeStatus::Active => a = a + 1,
            NodeStatus::Standby => b = b + 1,
            NodeStatus::Offline => c = c + 1,
        }
    }
    assert(ss@.take(ss.len() as int) =~= ss@);
    (a, b, c)
}

/// The compact cores and memory column: `8 cores` and `32G` give `8c/32G`.
pub open spec fn cores_ram(cores: Seq<char>, ram: Seq<char>) -> Seq<char> {
    crate::text::remove_all(cores, " cores"@) + "c/"@ + ram
}

pub fn cores_ram_text(cores: &str, ram: &str) -> (r: String)
    ensures
        r@ == cores_ram(cores@, ram@),
{
    let mut v = crate::text::remove_all_chars(&chars_of(cores), &chars_of(" cores"));
    push_str(&mut v, "c/");
    push_str(&mut v, ram);
    string_of(&v)
}

} // verus!
