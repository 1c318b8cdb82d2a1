//! Wiping a newly registered node's disks, so that the first deploy
//! starts from blank disks: which disks, and the commands for each.
use vstd::prelude::*;
use crate::remote::{cat3, cat5, say, send, Action, ActionView};
use crate::text::{
    chars_of, decimal, decimal_chars, join, join_chars, lines, lines_of, push_chars, push_str,
    string_of, trim, trimmed, views,
};

verus! {

/// The command that lists the node's fixed disks (SATA, NVMe and virtio
/// disks that are not removable), one name per line.
pub open spec fn disk_scan() -> Seq<char> {
    "for d in /sys/block/*; do\n                    name=$(basename \"$d\")\n                    case \"$name\" in sd*|nvme*|vd*) ;; *) continue ;; esac\n                    removable=$(cat \"$d/removable\" 2>/dev/null || echo 1)\n                    [ \"$removable\" = \"0\" ] && echo \"$name\"\n                done"@
}

pub fn disk_scan_command() -> (r: String)
    ensures
        r@ == disk_scan(),
{
    String::from_str("for d in /sys/block/*; do\n                    name=$(basename \"$d\")\n                    case \"$name\" in sd*|nvme*|vd*) ;; *) continue ;; esac\n                    removable=$(cat \"$d/removable\" 2>/dev/null || echo 1)\n                    [ \"$removable\" = \"0\" ] && echo \"$name\"\n                done")
}

/// The lines that are not empty.
pub open spec fn nonblank(ls: Seq<Seq<char>>) -> Seq<Seq<char>> {
    ls.filter(|l: Seq<char>| l.len() > 0)
}

/// The disks named by the scan's output.
pub open spec fn disks_to_wipe(output: Seq<char>) -> Seq<Seq<char>> {
    nonblank(lines(trim(output)))
}

pub fn disks_in(output: &str) -> (r: Vec<String>)
    ensures
        r@.len() == disks_to_wipe(output@).len(),
        forall|i: int| 0 <= i < r@.len() ==> #[trigger] r@[i]@ == disks_to_wipe(output@)[i],
{
    let ls = lines_of(&trimmed(output));
    let ghost lv = lines(trim(output@));
    let mut r: Vec<String> = Vec::new();
    for i in 0..ls.len()
        invariant
            ls@.len() == lv.len(),
            forall|k: int| 0 <= k < ls@.len() ==> #[trigger] ls@[k]@ == lv[k],
            r@.len() == nonblank(lv.take(i as int)).len(),
            forall|k: int| 0 <= k < r@.len() ==> #[trigger] r@[k]@ == nonblank(lv.take(i as int))[k],
    {
        proof {
            assert(lv.take(i + 1).drop_last() =~= lv.take(i as int));
            assert(lv.take(i + 1).last() == ls@[i as int]@);
            reveal(Seq::filter);
        }
        if ls[i].len() > 0 {
            r.push(string_of(&ls[i]));
        }
    }
    assert(lv.take(ls.len() as int) =~= lv);
    r
}

/// Zeroes the first 100 MB of a disk (partition table and all).
pub open spec fn wipe_head(disk: Seq<char>) -> Seq<char> {
    "dd if=/dev/zero of=/dev/"@ + disk + " bs=1M count=100 2>/dev/null"@
}

/// Zeroes the last 10 MB of a disk (the backup GPT header).
pub open spec fn wipe_tail(disk: Seq<char>) -> Seq<char> {
    "dd if=/dev/zero of=/dev/"@ + disk + " bs=1M seek=$(($(cat /sys/block/"@ + disk
        + "/size) * 512 / 1048576 - 10)) count=10 2>/dev/null"@
}

/// What is done for each disk, in order.
pub open spec fn disk_actions(disks: Seq<Seq<char>>) -> Seq<ActionView>
    decreases disks.len(),
{
    if disks.len() == 0 {
        seq![]
    } else {
        let d = disks.last();
        disk_actions(disks.drop_last()) + seq![
            ActionView::Say("  Wiping /dev/"@ + d + "..."@),
            ActionView::Send(wipe_head(d)),
            ActionView::Send(wipe_tail(d))
        ]
    }
}

/// The wipe of the disks the scan found: nothing when there is none; else
/// five minutes for each command, both ends of each disk zeroed, and the
/// ten-second limit back.
pub open spec fn wipe_plan(disks: Seq<Seq<char>>) -> Seq<ActionView> {
    if disks.len() == 0 {
        seq![]
    } else {
        seq![ActionView::Timeout(300)] + disk_actions(disks) + seq![ActionView::Timeout(10)]
    }
}

pub open spec fn action_views(s: Seq<Action>) -> Seq<ActionView> {
    s.map_values(|a: Action| a@)
}

pub fn wipe_actions(disks: &Vec<String>) -> (r: Vec<Action>)
    ensures
        action_views(r@) == wipe_plan(disks@.map_values(|d: String| d@)),
{
    let ghost dv = disks@.map_values(|d: String| d@);
    let mut r: Vec<Action> = Vec::new();
    if disks.len() == 0 {
        assert(action_views(r@) =~= wipe_plan(dv));
        return r;
    }
    r.push(Action::Timeout { seconds: 300 });
    assert(dv.take(0) =~= Seq::<Seq<char>>::empty());
    for i in 0..disks.len()
        invariant
            dv == disks@.map_values(|d: String| d@),
            action_views(r@) == seq![ActionView::Timeout(300)] + disk_actions(dv.take(i as int)),
    {
        let d = disks[i].as_str();
        let ghost before = action_views(r@);
        r.push(say(cat3("  Wiping /dev/", d, "...")));
        r.push(send(cat3("dd if=/dev/zero of=/dev/", d, " bs=1M count=100 2>/dev/null")));
        r.push(
            send(
                cat5(
                    "dd if=/dev/zero of=/dev/",
                    d,
                    " bs=1M seek=$(($(cat /sys/block/",
                    d,
                    "/size) * 512 / 1048576 - 10)) count=10 2>/dev/null",
                ),
            ),
        );
        proof {
            assert(dv.take(i + 1).drop_last() =~= dv.take(i as int));
            assert(dv.take(i + 1).last() == d@);
            assert(action_views(r@) =~= before + seq![
                ActionView::Say("  Wiping /dev/"@ + d@ + "..."@),
                ActionView::Send(wipe_head(d@)),
                ActionView::Send(wipe_tail(d@))
            ]);
        }
    }
    let ghost before = action_views(r@);
    r.push(Action::Timeout { seconds: 10 });
    assert(dv.take(disks.len() as int) =~= dv);
    assert(action_views(r@) =~= before.push(ActionView::Timeout(10)));
    r
}

/// The report after the wipe: how many disks, and which.
pub open spec fn wipe_summary(disks: Seq<Seq<char>>) -> Seq<char> {
    decimal(disks.len()) + " disk(s) wiped: "@ + join(disks, ", "@)
}

pub fn wipe_summary_text(disks: &Vec<String>) -> (r: String)
    ensures
        r@ == wipe_summary(disks@.map_values(|d: String| d@)),
{
    let mut parts: Vec<Vec<char>> = Vec::new();
    for i in 0..disks.len()
        invariant
            parts@.len() == i,
            forall|k: int| 0 <= k < i ==> #[trigger] parts@[k]@ == disks@[k]@,
    {
        parts.push(chars_of(disks[i].as_str()));
    }
    assert(views(parts@) =~= disks@.map_values(|d: String| d@));
    let mut v = decimal_chars(disks.len() as u64);
    push_str(&mut v, " disk(s) wiped: ");
    push_chars(&mut v, &join_chars(&parts, &chars_of(", ")));
    string_of(&v)
}

} // verus!
