//! Display helpers: the layout of the boxes the command line prints around
//! summaries, and the physical memory size a node's reported memory stands
//! for.
use vstd::prelude::*;
use vstd::string::StringSliceAdditionalSpecFns;

verus! {

/// How a box is drawn: its width, and the rule lengths left and right of
/// its title.
#[derive(Debug, Clone, Copy, PartialEq, Eq, Structural)]
pub struct BoxLayout {
    pub width: usize,
    pub left_pad: usize,
    pub right_pad: usize,
}

/// A box is as wide as the terminal, at most 60 columns; the title, with a
/// space on each side, sits in the top rule, which leaves two more columns
/// out and splits what remains, the odd column going right.
pub open spec fn box_layout_spec(term_width: usize, title_bytes: nat) -> BoxLayout {
    let width = if term_width < 60 { term_width } else { 60 };
    let used = title_bytes + 2 + 2;
    let padding: nat = if width >= used { (width - used) as nat } else { 0 };
    BoxLayout { width, left_pad: (padding / 2) as usize, right_pad: (padding - padding / 2) as usize }
}

/// When the title fits, the top rule is exactly as wide as the box: the two
/// rules, the title with its spaces and the two columns left out add up to
/// the width, and the rules differ by at most one column, the longer on the
/// right.
pub proof fn lemma_box_rule_fits(term_width: usize, title_bytes: nat)
    requires
        title_bytes + 4 <= (if term_width < 60 { term_width as nat } else { 60 }),
    ensures
        ({
            let b = box_layout_spec(term_width, title_bytes);
            &&& b.left_pad + b.right_pad + title_bytes + 4 == b.width
            &&& b.left_pad <= b.right_pad <= b.left_pad + 1
            &&& b.width <= 60
        }),
{
}

/// The layout of a box for the terminal width and title (its length in
/// bytes, as the terminal is assumed to show one column per byte).
pub fn box_layout(term_width: usize, title: &str) -> (r: BoxLayout)
    requires
        title.spec_bytes().len() + 4 <= usize::MAX,
    ensures
        r == box_layout_spec(term_width, title.spec_bytes().len()),
{
    let width: usize = if term_width < 60 {
        term_width
    } else {
        60
    };
    let used: usize = title.len() + 4;
    let padding: usize = if width >= used {
        width - used
    } else {
        0
    };
    let left = padding / 2;
    BoxLayout { width, left_pad: left, right_pad: padding - left }
}

/// The memory module sizes a node may have, in MB: 2 GB to 256 GB.
pub open spec fn ram_sizes() -> Seq<u64> {
    seq![2048u64, 4096, 8192, 16384, 32768, 65536, 131072, 262144]
}

/// Whether the operating system's figure `reported` (MB) stands for a
/// module size `size`: at most that size and more than 90% of it.
pub open spec fn fits_size(reported: u64, size: u64) -> bool {
    reported <= size && 10 * reported > 9 * size
}

/// The first module size in `sizes` that `reported` stands for.
pub open spec fn first_fit(sizes: Seq<u64>, reported: u64) -> Option<u64>
    decreases sizes.len(),
{
    if sizes.len() == 0 {
        None
    } else if fits_size(reported, sizes[0]) {
        Some(sizes[0])
    } else {
        first_fit(sizes.drop_first(), reported)
    }
}

/// The physical memory behind a reported size: the module size it stands
/// for, else the size rounded up to a whole GB.
pub open spec fn physical_ram(reported: u64) -> u64 {
    match first_fit(ram_sizes(), reported) {
        Some(s) => s,
        None => (((reported + 1023) / 1024) * 1024) as u64,
    }
}

proof fn lemma_first_fit(sizes: Seq<u64>, reported: u64)
    ensures
        first_fit(sizes, reported) matches Some(s) ==> fits_size(reported, s),
    decreases sizes.len(),
{
    if sizes.len() > 0 && !fits_size(reported, sizes[0]) {
        lemma_first_fit(sizes.drop_first(), reported);
    }
}

/// The installed memory is never less than what was reported.
pub proof fn lemma_physical_ram_covers(reported: u64)
    requires
        reported <= u64::MAX - 1023,
    ensures
        physical_ram(reported) >= reported,
{
    lemma_first_fit(ram_sizes(), reported);
    let r = reported as int;
    assert((r + 1023) / 1024 * 1024 >= r && (r + 1023) / 1024 * 1024 <= r + 1023) by (nonlinear_arith)
        requires
            r >= 0,
    ;
}

/// Rounds the memory the operating system reports (MB) to the memory
/// installed.
pub fn round_to_physical_ram(reported_mb: u64) -> (r: u64)
    requires
        reported_mb <= u64::MAX - 1023,
    ensures
        r == physical_ram(reported_mb),
{
    let mut sizes: Vec<u64> = Vec::new();
    sizes.push(2048);
    sizes.push(4096);
    sizes.push(8192);
    sizes.push(16384);
    sizes.push(32768);
    sizes.push(65536);
    sizes.push(131072);
    sizes.push(262144);
    assert(sizes@ =~= ram_sizes());
    let ghost all = sizes@;
    let mut i: usize = 0;
    assert(all.skip(0) =~= all);
    while i < sizes.len()
        invariant
            i <= sizes.len(),
            sizes@ == all,
            all == ram_sizes(),
            first_fit(all, reported_mb) == first_fit(all.skip(i as int), reported_mb),
        decreases sizes.len() - i,
    {
        let size = sizes[i];
        assert(all.skip(i as int).drop_first() =~= all.skip(i + 1));
        assert(all.skip(i as int)[0] == size);
        if reported_mb <= size && reported_mb as u128 * 10 > size as u128 * 9 {
            return size;
        }
        i = i + 1;
    }
    assert(all.skip(i as int) =~= Seq::<u64>::empty());
    ((reported_mb + 1023) / 1024) * 1024
}

} // verus!
