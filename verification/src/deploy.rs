//! The choices `cave node deploy` offers, the decisions it takes and the
//! files it writes: memory, CPU and disk-size options, when it stops, the
//! saved VM configuration that the watcher reads back, and the cloud-init
//! seed.
use vstd::prelude::*;
use crate::config::{join_path, join_path_str};
use crate::images::{catalogue, display_name, get_image_display_name};
use crate::remote::cat3;
use crate::status::NodeStatus;
use crate::text::{chars_eq, chars_of, decimal, decimal_chars, push_chars, push_str, string_of, trim, trimmed};

verus! {

// ---------------------------------------------------------------------------
// Memory and CPUs
// ---------------------------------------------------------------------------

/// The memory sizes offered, in MB, with their labels.
pub open spec fn memory_table() -> Seq<(u32, Seq<char>)> {
    seq![
        (1024u32, "1024 MB (1 GB)"@),
        (2048u32, "2048 MB (2 GB)"@),
        (4096u32, "4096 MB (4 GB)"@),
        (8192u32, "8192 MB (8 GB)"@),
        (16384u32, "16384 MB (16 GB)"@),
        (32768u32, "32768 MB (32 GB)"@),
        (65536u32, "65536 MB (64 GB)"@)
    ]
}

/// The CPU counts offered, with their labels.
pub open spec fn cpu_table() -> Seq<(u32, Seq<char>)> {
    seq![
        (1u32, "1 CPU"@),
        (2u32, "2 CPUs"@),
        (4u32, "4 CPUs"@),
        (8u32, "8 CPUs"@),
        (16u32, "16 CPUs"@),
        (32u32, "32 CPUs"@)
    ]
}

/// The entries of a table whose value is at most `limit`, in order.
pub open spec fn options_up_to(t: Seq<(u32, Seq<char>)>, limit: u32) -> Seq<(u32, Seq<char>)>
    decreases t.len(),
{
    if t.len() == 0 {
        seq![]
    } else if t.last().0 <= limit {
        options_up_to(t.drop_last(), limit).push(t.last())
    } else {
        options_up_to(t.drop_last(), limit)
    }
}

/// The index of the first value at least `at_least`, else 0.
pub open spec fn default_index(t: Seq<(u32, Seq<char>)>, at_least: u32) -> nat
    decreases t.len(),
{
    if t.len() == 0 {
        0
    } else if t[0].0 >= at_least {
        0
    } else if default_index(t.drop_first(), at_least) == 0 && !(exists|i: int|
        0 <= i < t.drop_first().len() && #[trigger] t.drop_first()[i].0 >= at_least) {
        0
    } else {
        1 + default_index(t.drop_first(), at_least)
    }
}

pub open spec fn option_views(v: Seq<(u32, String)>) -> Seq<(u32, Seq<char>)> {
    v.map_values(|p: (u32, String)| (p.0, p.1@))
}

fn filter_table(t: &Vec<(u32, String)>, limit: u32) -> (r: Vec<(u32, String)>)
    ensures
        option_views(r@) == options_up_to(option_views(t@), limit),
{
    let ghost tv = option_views(t@);
    let mut out: Vec<(u32, String)> = Vec::new();
    for i in 0..t.len()
        invariant
            tv == option_views(t@),
            option_views(out@) == options_up_to(tv.take(i as int), limit),
    {
        assert(tv.take(i + 1).drop_last() =~= tv.take(i as int));
        assert(tv.take(i + 1).last() == (t@[i as int].0, t@[i as int].1@));
        if t[i].0 <= limit {
            let ghost before = option_views(out@);
            out.push((t[i].0, t[i].1.clone()));
            assert(option_views(out@) =~= before.push((t@[i as int].0, t@[i as int].1@)));
        }
    }
    assert(tv.take(t.len() as int) =~= tv);
    out
}

fn row(v: &mut Vec<(u32, String)>, value: u32, label: &str)
    ensures
        option_views(final(v)@) == option_views(old(v)@).push((value, label@)),
{
    let ghost before = option_views(v@);
    v.push((value, String::from_str(label)));
    assert(option_views(v@) =~= before.push((value, label@)));
}

fn memory_table_exec() -> (r: Vec<(u32, String)>)
    ensures
        option_views(r@) == memory_table(),
{
    let mut v: Vec<(u32, String)> = Vec::new();
    row(&mut v, 1024, "1024 MB (1 GB)");
    row(&mut v, 2048, "2048 MB (2 GB)");
    row(&mut v, 4096, "4096 MB (4 GB)");
    row(&mut v, 8192, "8192 MB (8 GB)");
    row(&mut v, 16384, "16384 MB (16 GB)");
    row(&mut v, 32768, "32768 MB (32 GB)");
    row(&mut v, 65536, "65536 MB (64 GB)");
    assert(option_views(v@) =~= memory_table());
    v
}

fn cpu_table_exec() -> (r: Vec<(u32, String)>)
    ensures
        option_views(r@) == cpu_table(),
{
    let mut v: Vec<(u32, String)> = Vec::new();
    row(&mut v, 1, "1 CPU");
    row(&mut v, 2, "2 CPUs");
    row(&mut v, 4, "4 CPUs");
    row(&mut v, 8, "8 CPUs");
    row(&mut v, 16, "16 CPUs");
    row(&mut v, 32, "32 CPUs");
    assert(option_views(v@) =~= cpu_table());
    v
}

fn first_at_least(v: &Vec<(u32, String)>, at_least: u32) -> (r: usize)
    ensures
        r == default_index(option_views(v@), at_least),
{
    let ghost t = option_views(v@);
    let mut i: usize = 0;
    while i < v.len()
        invariant
            i <= v.len(),
            t == option_views(v@),
            forall|k: int| 0 <= k < i ==> v@[k].0 < at_least,
        decreases v.len() - i,
    {
        if v[i].0 >= at_least {
            proof {
                lemma_default_index(t, at_least, i as int);
            }
            return i;
        }
        i = i + 1;
    }
    proof {
        lemma_default_index_none(t, at_least);
    }
    0
}

proof fn lemma_default_index(t: Seq<(u32, Seq<char>)>, at_least: u32, i: int)
    requires
        0 <= i < t.len(),
        t[i].0 >= at_least,
        forall|k: int| 0 <= k < i ==> t[k].0 < at_least,
    ensures
        default_index(t, at_least) == i,
    decreases t.len(),
{
    if i > 0 {
        let r = t.drop_first();
        assert(r[i - 1].0 >= at_least);
        lemma_default_index(r, at_least, i - 1);
    }
}

proof fn lemma_default_index_none(t: Seq<(u32, Seq<char>)>, at_least: u32)
    requires
        forall|k: int| 0 <= k < t.len() ==> t[k].0 < at_least,
    ensures
        default_index(t, at_least) == 0,
    decreases t.len(),
{
    if t.len() > 0 {
        lemma_default_index_none(t.drop_first(), at_least);
    }
}

/// The memory options for a node with `node_ram_mb` MB (512 MB stay with
/// the host), and the one selected first: the first of at least 2 GB.
pub fn memory_options(node_ram_mb: u32) -> (r: (Vec<(u32, String)>, usize))
    ensures
        option_views(r.0@) == options_up_to(
            memory_table(),
            if node_ram_mb >= 512 { (node_ram_mb - 512) as u32 } else { 0u32 },
        ),
        r.1 == default_index(option_views(r.0@), 2048),
{
    let limit: u32 = if node_ram_mb >= 512 {
        node_ram_mb - 512
    } else {
        0
    };
    let v = filter_table(&memory_table_exec(), limit);
    let d = first_at_least(&v, 2048);
    (v, d)
}

/// The CPU options for a node with `node_cpu_cores` cores, and the one
/// selected first: the first of at least two.
pub fn cpu_options(node_cpu_cores: u32) -> (r: (Vec<(u32, String)>, usize))
    ensures
        option_views(r.0@) == options_up_to(cpu_table(), node_cpu_cores),
        r.1 == default_index(option_views(r.0@), 2),
{
    let limit = node_cpu_cores;
    let v = filter_table(&cpu_table_exec(), limit);
    let d = first_at_least(&v, 2);
    (v, d)
}

proof fn lemma_options_up_to(t: Seq<(u32, Seq<char>)>, limit: u32)
    ensures
        forall|i: int| 0 <= i < options_up_to(t, limit).len() ==> #[trigger] options_up_to(t, limit)[i].0 <= limit,
    decreases t.len(),
{
    if t.len() > 0 {
        lemma_options_up_to(t.drop_last(), limit);
        let o = options_up_to(t, limit);
        let p = options_up_to(t.drop_last(), limit);
        assert forall|i: int| 0 <= i < o.len() implies #[trigger] o[i].0 <= limit by {
            if i < p.len() {
                assert(o[i] == p[i]);
            }
        }
    }
}

proof fn lemma_default_index_first(t: Seq<(u32, Seq<char>)>, at_least: u32)
    ensures
        t.len() > 0 ==> default_index(t, at_least) < t.len(),
        (exists|i: int| 0 <= i < t.len() && #[trigger] t[i].0 >= at_least) ==> {
            &&& t[default_index(t, at_least) as int].0 >= at_least
            &&& forall|k: int| 0 <= k < default_index(t, at_least) ==> #[trigger] t[k].0 < at_least
        },
    decreases t.len(),
{
    if t.len() > 0 && t[0].0 < at_least {
        let r = t.drop_first();
        lemma_default_index_first(r, at_least);
        if exists|i: int| 0 <= i < t.len() && #[trigger] t[i].0 >= at_least {
            let i = choose|i: int| 0 <= i < t.len() && #[trigger] t[i].0 >= at_least;
            assert(r[i - 1].0 >= at_least);
            let d = default_index(r, at_least);
            assert(default_index(t, at_least) == 1 + d);
            assert(t[1 + d as int] == r[d as int]);
            assert forall|k: int| 0 <= k < default_index(t, at_least) implies #[trigger] t[k].0 < at_least by {
                if k > 0 {
                    assert(t[k] == r[k - 1]);
                }
            }
        }
    }
}

/// Every memory size offered leaves 512 MB to the node's host, and the size
/// selected first is the first offered of at least 2 GB, or the first
/// offered when none is that large.
pub proof fn lemma_memory_choices(node_ram_mb: u32)
    ensures
        ({
            let opts = options_up_to(
                memory_table(),
                if node_ram_mb >= 512 { (node_ram_mb - 512) as u32 } else { 0u32 },
            );
            &&& forall|i: int| 0 <= i < opts.len() ==> #[trigger] opts[i].0 + 512 <= node_ram_mb
            &&& opts.len() > 0 ==> default_index(opts, 2048) < opts.len()
            &&& (exists|i: int| 0 <= i < opts.len() && #[trigger] opts[i].0 >= 2048) ==> opts[default_index(
                opts,
                2048,
            ) as int].0 >= 2048
        }),
{
    let limit: u32 = if node_ram_mb >= 512 { (node_ram_mb - 512) as u32 } else { 0u32 };
    let opts = options_up_to(memory_table(), limit);
    lemma_options_up_to(memory_table(), limit);
    lemma_default_index_first(opts, 2048);
    assert forall|i: int| 0 <= i < opts.len() implies #[trigger] opts[i].0 + 512 <= node_ram_mb by {
        assert(opts[i].0 <= limit);
        if node_ram_mb < 512 {
            assert(memory_table()[0].0 == 1024);
            assert(opts[i].0 >= 1024) by {
                lemma_options_from_table(memory_table(), limit, i);
            }
        }
    }
}

proof fn lemma_options_from_table(t: Seq<(u32, Seq<char>)>, limit: u32, i: int)
    requires
        0 <= i < options_up_to(t, limit).len(),
    ensures
        exists|j: int| 0 <= j < t.len() && #[trigger] t[j] == options_up_to(t, limit)[i],
    decreases t.len(),
{
    let o = options_up_to(t, limit);
    if t.last().0 <= limit && i == o.len() - 1 {
        assert(t[t.len() - 1] == o[i]);
    } else {
        lemma_options_from_table(t.drop_last(), limit, i);
        let j = choose|j: int| 0 <= j < t.drop_last().len() && #[trigger] t.drop_last()[j] == options_up_to(t.drop_last(), limit)[i];
        assert(t[j] == t.drop_last()[j]);
    }
}

// ---------------------------------------------------------------------------
// Disk sizes
// ---------------------------------------------------------------------------

/// The largest disk size offered, in GB: that of the chosen disk (decimal
/// gigabytes, truncated to its low 32 bits), or 500 without one.
pub open spec fn max_gb(disk_size_bytes: Option<u64>) -> u32 {
    match disk_size_bytes {
        Some(b) => (b / 1_000_000_000) as u32,
        None => 500u32,
    }
}

pub open spec fn size_steps() -> Seq<u32> {
    seq![10u32, 20, 50, 100, 200, 500, 1000]
}

/// The disk sizes offered: the image's own size first (`None`), then the
/// standard sizes that fit, then the maximum when it is not one of them
/// and lies strictly between 10 and 1000 GB.
pub open spec fn disk_choices(m: u32) -> Seq<Option<u32>> {
    seq![None::<u32>] + size_steps().filter(|s: u32| s <= m).map_values(|s: u32| Some(s)) + (if m > 10
        && !size_steps().contains(m) && m < 1000 {
        seq![Some(m)]
    } else {
        seq![]
    })
}

/// The label of a disk size choice.
pub open spec fn disk_choice_label(c: Option<u32>, m: u32) -> Seq<char> {
    match c {
        None => "Default (image size)"@,
        Some(s) => if size_steps().contains(s) {
            decimal(s as nat) + " GB"@
        } else {
            decimal(s as nat) + " GB (max)"@
        },
    }
}

fn in_steps(m: u32) -> (r: bool)
    ensures
        r == size_steps().contains(m),
{
    let r = m == 10 || m == 20 || m == 50 || m == 100 || m == 200 || m == 500 || m == 1000;
    proof {
        let s = size_steps();
        if r {
            if m == 10 { assert(s[0] == m); }
            else if m == 20 { assert(s[1] == m); }
            else if m == 50 { assert(s[2] == m); }
            else if m == 100 { assert(s[3] == m); }
            else if m == 200 { assert(s[4] == m); }
            else if m == 500 { assert(s[5] == m); }
            else { assert(s[6] == m); }
        }
    }
    r
}

/// The disk size choices and their labels for the chosen disk's size.
pub fn generate_disk_options(disk_size_bytes: Option<u64>) -> (r: (Vec<String>, Vec<Option<u32>>))
    ensures
        r.1@ == disk_choices(max_gb(disk_size_bytes)),
        r.0@.len() == r.1@.len(),
        forall|i: int|
            0 <= i < r.0@.len() ==> #[trigger] r.0@[i]@ == disk_choice_label(
                r.1@[i],
                max_gb(disk_size_bytes),
            ),
{
    let m: u32 = match disk_size_bytes {
        Some(b) => (b / 1_000_000_000) as u32,
        None => 500,
    };
    let mut options: Vec<String> = Vec::new();
    let mut values: Vec<Option<u32>> = Vec::new();
    options.push(String::from_str("Default (image size)"));
    values.push(None);
    let mut steps: Vec<u32> = Vec::new();
    steps.push(10);
    steps.push(20);
    steps.push(50);
    steps.push(100);
    steps.push(200);
    steps.push(500);
    steps.push(1000);
    assert(steps@ =~= size_steps());
    let ghost st = size_steps();
    for i in 0..steps.len()
        invariant
            steps@ == st,
            st == size_steps(),
            m == max_gb(disk_size_bytes),
            values@ == seq![None::<u32>] + st.take(i as int).filter(|s: u32| s <= m).map_values(
                |s: u32| Some(s),
            ),
            options@.len() == values@.len(),
            forall|k: int|
                0 <= k < options@.len() ==> #[trigger] options@[k]@ == disk_choice_label(values@[k], m),
    {
        let s = steps[i];
        proof {
            assert(st.take(i + 1).drop_last() =~= st.take(i as int));
            assert(st.take(i + 1).last() == s);
            reveal(Seq::filter);
        }
        if s <= m {
            let mut l = decimal_chars(s as u64);
            push_str(&mut l, " GB");
            options.push(string_of(&l));
            values.push(Some(s));
            assert(st.contains(s)) by {
                assert(st[i as int] == s);
            }
        }
        assert(values@ =~= seq![None::<u32>] + st.take(i + 1).filter(|s: u32| s <= m).map_values(
            |s: u32| Some(s),
        ));
    }
    assert(st.take(7) =~= st);
    if m > 10 && !in_steps(m) && m < 1000 {
        let mut l = decimal_chars(m as u64);
        push_str(&mut l, " GB (max)");
        options.push(string_of(&l));
        values.push(Some(m));
    }
    assert(values@ =~= disk_choices(m));
    (options, values)
}

/// The first disk size choice keeps the image's own size, and every size
/// offered fits the chosen disk: at most its size in GB.
pub proof fn lemma_disk_choices_fit(m: u32)
    ensures
        disk_choices(m).len() >= 1,
        disk_choices(m)[0] is None,
        forall|i: int| 1 <= i < disk_choices(m).len() ==> ((#[trigger] disk_choices(m)[i]) matches Some(s) && s <= m),
{
    let f = size_steps().filter(|s: u32| s <= m);
    let mid = f.map_values(|s: u32| Some(s));
    let tail: Seq<Option<u32>> = if m > 10 && !size_steps().contains(m) && m < 1000 {
        seq![Some(m)]
    } else {
        seq![]
    };
    assert(disk_choices(m) == seq![None::<u32>] + mid + tail);
    assert forall|i: int| 1 <= i < disk_choices(m).len() implies ((#[trigger] disk_choices(m)[i]) matches Some(s) && s <= m) by {
        if i <= mid.len() {
            size_steps().lemma_filter_pred(|s: u32| s <= m, i - 1);
            assert(disk_choices(m)[i] == mid[i - 1]);
        } else {
            assert(disk_choices(m)[i] == tail[i - 1 - mid.len()]);
        }
    }
}

/// The disk size selected first: the third choice, or the last when
/// there are fewer.
pub fn default_disk_choice(n: usize) -> (r: usize)
    ensures
        r == (if n < 3 { if n > 0 { n - 1 } else { 0 } } else { 2 }),
{
    let k = if n < 3 {
        n
    } else {
        3
    };
    if k > 0 {
        k - 1
    } else {
        0
    }
}

// ---------------------------------------------------------------------------
// Choosing the node and the image
// ---------------------------------------------------------------------------

/// `"{a} ({b})"`: how a node is offered (host name and MAC) and summed up
/// (host name and address).
pub open spec fn labelled(a: Seq<char>, b: Seq<char>) -> Seq<char> {
    a + " ("@ + b + ")"@
}

pub fn labelled_text(a: &str, b: &str) -> (r: String)
    ensures
        r@ == labelled(a@, b@),
{
    let mut v = chars_of(a);
    push_str(&mut v, " (");
    push_str(&mut v, b);
    push_str(&mut v, ")");
    string_of(&v)
}

/// How a local image is offered: its catalogue name when it has one (that
/// name tells its size), else the file name with its size.
pub open spec fn image_choice(name: Seq<char>, size_text: Seq<char>) -> Seq<char> {
    if display_name(catalogue(), name) == name {
        labelled(name, size_text)
    } else {
        display_name(catalogue(), name)
    }
}

pub fn image_choice_label(name: &str, size_text: &str) -> (r: String)
    ensures
        r@ == image_choice(name@, size_text@),
{
    let shown = get_image_display_name(name);
    if chars_eq(&chars_of(shown.as_str()), &chars_of(name)) {
        labelled_text(name, size_text)
    } else {
        shown
    }
}

/// The files tried for an image argument, in order: an absolute path
/// alone; else the name in the images directory, then with `.qcow2`,
/// `.img` and `.iso` appended.
pub open spec fn image_candidates(images_dir: Seq<char>, image: Seq<char>) -> Seq<Seq<char>> {
    if image.len() > 0 && image[0] == '/' {
        seq![image]
    } else {
        seq![
            join_path(images_dir, image),
            join_path(images_dir, image + ".qcow2"@),
            join_path(images_dir, image + ".img"@),
            join_path(images_dir, image + ".iso"@)
        ]
    }
}

fn with_suffix(dir: &str, image: &str, suffix: &str) -> (r: String)
    ensures
        r@ == join_path(dir@, image@ + suffix@),
{
    let mut v = chars_of(image);
    push_str(&mut v, suffix);
    join_path_str(dir, string_of(&v).as_str())
}

/// The paths to look for, first existing one wins.
pub fn find_image_candidates(images_dir: &str, image: &str) -> (r: Vec<String>)
    ensures
        r@.len() == image_candidates(images_dir@, image@).len(),
        forall|i: int| 0 <= i < r@.len() ==> #[trigger] r@[i]@ == image_candidates(images_dir@, image@)[i],
{
    let v = chars_of(image);
    let mut r: Vec<String> = Vec::new();
    if v.len() > 0 && v[0] == '/' {
        r.push(String::from_str(image));
    } else {
        r.push(join_path_str(images_dir, image));
        r.push(with_suffix(images_dir, image, ".qcow2"));
        r.push(with_suffix(images_dir, image, ".img"));
        r.push(with_suffix(images_dir, image, ".iso"));
    }
    r
}

/// The disk size in the summary: `Default` or `N GB`.
pub open spec fn disk_display(size_gb: Option<u32>) -> Seq<char> {
    match size_gb {
        Some(g) => decimal(g as nat) + " GB"@,
        None => "Default"@,
    }
}

pub fn disk_display_text(size_gb: Option<u32>) -> (r: String)
    ensures
        r@ == disk_display(size_gb),
{
    match size_gb {
        Some(g) => {
            let mut v = decimal_chars(g as u64);
            push_str(&mut v, " GB");
            string_of(&v)
        },
        None => String::from_str("Default"),
    }
}

// ---------------------------------------------------------------------------
// The cloud-init seed
// ---------------------------------------------------------------------------

/// The `user-data` of the seed: root may log in with the server's key,
/// password login is switched on or off, a password is set only when
/// password login is on and one was given, and cloud-init turns itself
/// off after the first boot.
pub open spec fn user_data(public_key: Seq<char>, enable_password: bool, password: Seq<char>) -> Seq<char> {
    "#cloud-config\nusers:\n  - name: root\n    lock_passwd: false\n    ssh_authorized_keys:\n      - "@
        + public_key + "\n"@ + (if enable_password {
        "ssh_pwauth: true\n"@
    } else {
        "ssh_pwauth: false\n"@
    }) + (if enable_password && password.len() > 0 {
        "chpasswd:\n  list: |\n    root:"@ + password + "\n  expire: false\n"@
    } else {
        seq![]
    }) + "runcmd:\n  - touch /etc/cloud/cloud-init.disabled\n"@
}

/// The `user-data` for the server's public key file (surrounding white
/// space dropped).
pub fn cloud_init_user_data(public_key_file: &str, enable_password: bool, password: &str) -> (r: String)
    ensures
        r@ == user_data(trim(public_key_file@), enable_password, password@),
{
    let mut v: Vec<char> = Vec::new();
    push_str(
        &mut v,
        "#cloud-config\nusers:\n  - name: root\n    lock_passwd: false\n    ssh_authorized_keys:\n      - ",
    );
    push_chars(&mut v, &trimmed(public_key_file));
    push_str(&mut v, "\n");
    if enable_password {
        push_str(&mut v, "ssh_pwauth: true\n");
    } else {
        push_str(&mut v, "ssh_pwauth: false\n");
    }
    let ghost before = v@;
    if enable_password && !password.is_empty() {
        push_str(&mut v, "chpasswd:\n  list: |\n    root:");
        push_str(&mut v, password);
        push_str(&mut v, "\n  expire: false\n");
    } else {
        assert(v@ =~= before + Seq::<char>::empty());
    }
    push_str(&mut v, "runcmd:\n  - touch /etc/cloud/cloud-init.disabled\n");
    string_of(&v)
}

/// The `meta-data` of the seed.
pub open spec fn meta_data(hostname: Seq<char>) -> Seq<char> {
    "instance-id: "@ + hostname + "\nlocal-hostname: "@ + hostname + "\n"@
}

pub fn cloud_init_meta_data(hostname: &str) -> (r: String)
    ensures
        r@ == meta_data(hostname@),
{
    let mut v: Vec<char> = Vec::new();
    push_str(&mut v, "instance-id: ");
    push_str(&mut v, hostname);
    push_str(&mut v, "\nlocal-hostname: ");
    push_str(&mut v, hostname);
    push_str(&mut v, "\n");
    string_of(&v)
}

/// Where the seed of a VM is built: its directory and files, and the ISO.
pub struct SeedPaths {
    pub dir: String,
    pub user_data: String,
    pub meta_data: String,
    pub iso: String,
}

pub fn seed_paths(images_dir: &str, hostname: &str) -> (r: SeedPaths)
    ensures
        r.dir@ == join_path(images_dir@, hostname@ + "-seed"@),
        r.user_data@ == join_path(r.dir@, "user-data"@),
        r.meta_data@ == join_path(r.dir@, "meta-data"@),
        r.iso@ == join_path(images_dir@, hostname@ + "-seed.iso"@),
{
    let dir = with_suffix(images_dir, hostname, "-seed");
    let user_data = join_path_str(dir.as_str(), "user-data");
    let meta_data = join_path_str(dir.as_str(), "meta-data");
    let iso = with_suffix(images_dir, hostname, "-seed.iso");
    SeedPaths { dir, user_data, meta_data, iso }
}

/// The tool that builds the seed when `cloud-localds` did not: the first of
/// `genisoimage` and `mkisofs` that runs, or none.
pub fn iso_tool(genisoimage_runs: bool, mkisofs_runs: bool) -> (r: Option<&'static str>)
    ensures
        genisoimage_runs ==> r is Some && r->0@ == "genisoimage"@,
        !genisoimage_runs && mkisofs_runs ==> r is Some && r->0@ == "mkisofs"@,
        !genisoimage_runs && !mkisofs_runs ==> r is None,
{
    if genisoimage_runs {
        Some("genisoimage")
    } else if mkisofs_runs {
        Some("mkisofs")
    } else {
        None
    }
}

/// The arguments of that tool.
pub open spec fn iso_args(iso: Seq<char>, user_data: Seq<char>, meta_data: Seq<char>) -> Seq<Seq<char>> {
    seq!["-output"@, iso, "-volid"@, "CIDATA"@, "-joliet"@, "-rock"@, user_data, meta_data]
}

pub fn iso_tool_args(iso: &str, user_data: &str, meta_data: &str) -> (r: Vec<String>)
    ensures
        r@.len() == 8,
        forall|i: int| 0 <= i < 8 ==> #[trigger] r@[i]@ == iso_args(iso@, user_data@, meta_data@)[i],
{
    let mut r: Vec<String> = Vec::new();
    r.push(String::from_str("-output"));
    r.push(String::from_str(iso));
    r.push(String::from_str("-volid"));
    r.push(String::from_str("CIDATA"));
    r.push(String::from_str("-joliet"));
    r.push(String::from_str("-rock"));
    r.push(String::from_str(user_data));
    r.push(String::from_str(meta_data));
    r
}


// ---------------------------------------------------------------------------
// The decisions of a deployment
// ---------------------------------------------------------------------------

/// Where a deployment stands: each stage waits for one fact, gathered by
/// the caller (the registry, the local images, the node's disks, memory and
/// cores, the user's answer, the node's state), before the transfer.
#[derive(Debug, Clone, Copy, PartialEq, Eq, Structural)]
pub enum DeployStage {
    Nodes,
    Images,
    Disks,
    Memory,
    Cpus,
    Confirm,
    NodeState,
    Transfer,
    Ended,
}

/// A fact gathered for a deployment.
pub enum DeployEvent {
    /// How many nodes are registered, the hostname asked for if any, and
    /// whether a node of that name is registered.
    Registry { nodes: usize, requested: Option<String>, found: bool },
    /// How many deployable images there are.
    Images { count: usize },
    /// How many disks the node has.
    Disks { count: usize },
    /// The node's memory in MB.
    Memory { node_ram_mb: u32 },
    /// The node's CPU cores.
    Cpus { node_cpu_cores: u32 },
    /// Whether the user confirmed the deployment.
    Answer { proceed: bool },
    /// The state of the node of that name.
    NodeState { hostname: String, status: NodeStatus },
}

pub enum DeployEventView {
    Registry { nodes: nat, requested: Option<Seq<char>>, found: bool },
    Images { count: nat },
    Disks { count: nat },
    Memory { node_ram_mb: u32 },
    Cpus { node_cpu_cores: u32 },
    Answer { proceed: bool },
    NodeState { hostname: Seq<char>, status: NodeStatus },
}

impl View for DeployEvent {
    type V = DeployEventView;

    open spec fn view(&self) -> DeployEventView {
        match self {
            DeployEvent::Registry { nodes, requested, found } => DeployEventView::Registry {
                nodes: *nodes as nat,
                requested: match requested {
                    Some(h) => Some(h@),
                    None => None,
                },
                found: *found,
            },
            DeployEvent::Images { count } => DeployEventView::Images { count: *count as nat },
            DeployEvent::Disks { count } => DeployEventView::Disks { count: *count as nat },
            DeployEvent::Memory { node_ram_mb } => DeployEventView::Memory { node_ram_mb: *node_ram_mb },
            DeployEvent::Cpus { node_cpu_cores } => DeployEventView::Cpus { node_cpu_cores: *node_cpu_cores },
            DeployEvent::Answer { proceed } => DeployEventView::Answer { proceed: *proceed },
            DeployEvent::NodeState { hostname, status } => DeployEventView::NodeState {
                hostname: hostname@,
                status: *status,
            },
        }
    }
}

/// What the caller does next.
pub enum DeployAction {
    /// Gather the next fact.
    Next,
    /// Let the user pick one of the registered nodes.
    AskNode,
    /// Warn that no disk was found and use the default storage.
    NoDisk,
    /// Use the node's only disk.
    OnlyDisk,
    /// Let the user pick one of the node's disks.
    AskDisk,
    /// Warn, and go on.
    Warn { message: String },
    /// Report that the node is ready, and go on.
    Ready { message: String },
    /// Report the error and end, without failing.
    Stop { message: String },
    /// End without deploying, as the user asked.
    Cancel,
    /// End with the error.
    Fail { message: String },
}

pub enum DeployActionView {
    Next,
    AskNode,
    NoDisk,
    OnlyDisk,
    AskDisk,
    Warn { message: Seq<char> },
    Ready { message: Seq<char> },
    Stop { message: Seq<char> },
    Cancel,
    Fail { message: Seq<char> },
}

impl View for DeployAction {
    type V = DeployActionView;

    open spec fn view(&self) -> DeployActionView {
        match self {
            DeployAction::Next => DeployActionView::Next,
            DeployAction::AskNode => DeployActionView::AskNode,
            DeployAction::NoDisk => DeployActionView::NoDisk,
            DeployAction::OnlyDisk => DeployActionView::OnlyDisk,
            DeployAction::AskDisk => DeployActionView::AskDisk,
            DeployAction::Warn { message } => DeployActionView::Warn { message: message@ },
            DeployAction::Ready { message } => DeployActionView::Ready { message: message@ },
            DeployAction::Stop { message } => DeployActionView::Stop { message: message@ },
            DeployAction::Cancel => DeployActionView::Cancel,
            DeployAction::Fail { message } => DeployActionView::Fail { message: message@ },
        }
    }
}

/// The memory left for VMs: all but 512 MB.
pub open spec fn available_ram(node_ram_mb: u32) -> u32 {
    if node_ram_mb >= 512 {
        (node_ram_mb - 512) as u32
    } else {
        0
    }
}

/// The next stage and action of a deployment at `st` on the fact `ev`. A
/// fact the stage does not wait for changes nothing.
pub open spec fn deploy_next(st: DeployStage, ev: DeployEventView) -> (DeployStage, DeployActionView) {
    match (st, ev) {
        (DeployStage::Nodes, DeployEventView::Registry { nodes, requested, found }) => {
            if nodes == 0 {
                (DeployStage::Ended, DeployActionView::Stop { message: "No nodes registered"@ })
            } else {
                match requested {
                    Some(h) => if found {
                        (DeployStage::Images, DeployActionView::Next)
                    } else {
                        (DeployStage::Ended, DeployActionView::Fail { message: "Node '"@ + h + "' not found"@ })
                    },
                    None => (DeployStage::Images, DeployActionView::AskNode),
                }
            }
        },
        (DeployStage::Images, DeployEventView::Images { count }) => {
            if count == 0 {
                (DeployStage::Ended, DeployActionView::Stop { message: "No images available"@ })
            } else {
                (DeployStage::Disks, DeployActionView::Next)
            }
        },
        (DeployStage::Disks, DeployEventView::Disks { count }) => {
            if count == 0 {
                (DeployStage::Memory, DeployActionView::NoDisk)
            } else if count == 1 {
                (DeployStage::Memory, DeployActionView::OnlyDisk)
            } else {
                (DeployStage::Memory, DeployActionView::AskDisk)
            }
        },
        (DeployStage::Memory, DeployEventView::Memory { node_ram_mb }) => {
            if options_up_to(memory_table(), available_ram(node_ram_mb)).len() == 0 {
                (
                    DeployStage::Ended,
                    DeployActionView::Stop {
                        message: "Node has insufficient RAM ("@ + decimal(available_ram(node_ram_mb) as nat)
                            + " MB available)"@,
                    },
                )
            } else {
                (DeployStage::Cpus, DeployActionView::Next)
            }
        },
        (DeployStage::Cpus, DeployEventView::Cpus { node_cpu_cores }) => {
            if options_up_to(cpu_table(), node_cpu_cores).len() == 0 {
                (DeployStage::Ended, DeployActionView::Stop { message: "Node has no CPU cores available"@ })
            } else {
                (DeployStage::Confirm, DeployActionView::Next)
            }
        },
        (DeployStage::Confirm, DeployEventView::Answer { proceed }) => {
            if proceed {
                (DeployStage::NodeState, DeployActionView::Next)
            } else {
                (DeployStage::Ended, DeployActionView::Cancel)
            }
        },
        (DeployStage::NodeState, DeployEventView::NodeState { hostname, status }) => match status {
            NodeStatus::Offline => (
                DeployStage::Ended,
                DeployActionView::Stop { message: "Node '"@ + hostname + "' is offline"@ },
            ),
            NodeStatus::Active => (
                DeployStage::Transfer,
                DeployActionView::Warn { message: "Node '"@ + hostname + "' has an active VM - stopping it first"@ },
            ),
            NodeStatus::Standby => (
                DeployStage::Transfer,
                DeployActionView::Ready { message: "Node '"@ + hostname + "' is ready"@ },
            ),
        },
        _ => (st, DeployActionView::Next),
    }
}

/// Takes one decision of a deployment.
pub fn deploy_step(st: DeployStage, ev: &DeployEvent) -> (r: (DeployStage, DeployAction))
    ensures
        (r.0, r.1@) == deploy_next(st, ev@),
{
    match (st, ev) {
        (DeployStage::Nodes, DeployEvent::Registry { nodes, requested, found }) => {
            if *nodes == 0 {
                (DeployStage::Ended, DeployAction::Stop { message: String::from_str("No nodes registered") })
            } else {
                match requested {
                    Some(h) => if *found {
                        (DeployStage::Images, DeployAction::Next)
                    } else {
                        (
                            DeployStage::Ended,
                            DeployAction::Fail { message: cat3("Node '", h.as_str(), "' not found") },
                        )
                    },
                    None => (DeployStage::Images, DeployAction::AskNode),
                }
            }
        },
        (DeployStage::Images, DeployEvent::Images { count }) => {
            if *count == 0 {
                (DeployStage::Ended, DeployAction::Stop { message: String::from_str("No images available") })
            } else {
                (DeployStage::Disks, DeployAction::Next)
            }
        },
        (DeployStage::Disks, DeployEvent::Disks { count }) => {
            if *count == 0 {
                (DeployStage::Memory, DeployAction::NoDisk)
            } else if *count == 1 {
                (DeployStage::Memory, DeployAction::OnlyDisk)
            } else {
                (DeployStage::Memory, DeployAction::AskDisk)
            }
        },
        (DeployStage::Memory, DeployEvent::Memory { node_ram_mb }) => {
            let (choices, _) = memory_options(*node_ram_mb);
            assert(option_views(choices@).len() == choices@.len());
            if choices.len() == 0 {
                let avail: u32 = if *node_ram_mb >= 512 {
                    *node_ram_mb - 512
                } else {
                    0
                };
                let mut m = chars_of("Node has insufficient RAM (");
                let d = decimal_chars(avail as u64);
                push_chars(&mut m, &d);
                push_str(&mut m, " MB available)");
                (DeployStage::Ended, DeployAction::Stop { message: string_of(&m) })
            } else {
                (DeployStage::Cpus, DeployAction::Next)
            }
        },
        (DeployStage::Cpus, DeployEvent::Cpus { node_cpu_cores }) => {
            let (choices, _) = cpu_options(*node_cpu_cores);
            assert(option_views(choices@).len() == choices@.len());
            if choices.len() == 0 {
                (DeployStage::Ended, DeployAction::Stop { message: String::from_str("Node has no CPU cores available") })
            } else {
                (DeployStage::Confirm, DeployAction::Next)
            }
        },
        (DeployStage::Confirm, DeployEvent::Answer { proceed }) => {
            if *proceed {
                (DeployStage::NodeState, DeployAction::Next)
            } else {
                (DeployStage::Ended, DeployAction::Cancel)
            }
        },
        (DeployStage::NodeState, DeployEvent::NodeState { hostname, status }) => match status {
            NodeStatus::Offline => (
                DeployStage::Ended,
                DeployAction::Stop { message: cat3("Node '", hostname.as_str(), "' is offline") },
            ),
            NodeStatus::Active => (
                DeployStage::Transfer,
                DeployAction::Warn {
                    message: cat3("Node '", hostname.as_str(), "' has an active VM - stopping it first"),
                },
            ),
            NodeStatus::Standby => (
                DeployStage::Transfer,
                DeployAction::Ready { message: cat3("Node '", hostname.as_str(), "' is ready") },
            ),
        },
        _ => (st, DeployAction::Next),
    }
}

/// How far a deployment has come.
pub open spec fn deploy_rank(st: DeployStage) -> nat {
    match st {
        DeployStage::Nodes => 0,
        DeployStage::Images => 1,
        DeployStage::Disks => 2,
        DeployStage::Memory => 3,
        DeployStage::Cpus => 4,
        DeployStage::Confirm => 5,
        DeployStage::NodeState => 6,
        DeployStage::Transfer => 7,
        DeployStage::Ended => 8,
    }
}

/// Whether `ev` is the fact that stage `st` waits for.
pub open spec fn awaited(st: DeployStage, ev: DeployEventView) -> bool {
    match (st, ev) {
        (DeployStage::Nodes, DeployEventView::Registry { .. }) => true,
        (DeployStage::Images, DeployEventView::Images { .. }) => true,
        (DeployStage::Disks, DeployEventView::Disks { .. }) => true,
        (DeployStage::Memory, DeployEventView::Memory { .. }) => true,
        (DeployStage::Cpus, DeployEventView::Cpus { .. }) => true,
        (DeployStage::Confirm, DeployEventView::Answer { .. }) => true,
        (DeployStage::NodeState, DeployEventView::NodeState { .. }) => true,
        _ => false,
    }
}

/// A deployment only moves forward: the fact a stage waits for always
/// takes it to a later stage, so the decisions end after at most seven
/// facts; and it ends exactly when it stops, is cancelled or fails.
pub proof fn lemma_deploy_moves_forward(st: DeployStage, ev: DeployEventView)
    requires
        awaited(st, ev),
    ensures
        deploy_rank(deploy_next(st, ev).0) > deploy_rank(st),
        (deploy_next(st, ev).0 == DeployStage::Ended) <==> (deploy_next(st, ev).1 is Stop
            || deploy_next(st, ev).1 is Cancel || deploy_next(st, ev).1 is Fail),
{
}

/// A table offers nothing up to `limit` exactly when all its values
/// exceed `limit`.
proof fn lemma_options_empty(t: Seq<(u32, Seq<char>)>, limit: u32)
    ensures
        options_up_to(t, limit).len() == 0 <==> (forall|j: int| 0 <= j < t.len() ==> #[trigger] t[j].0 > limit),
    decreases t.len(),
{
    if t.len() > 0 {
        lemma_options_empty(t.drop_last(), limit);
        if options_up_to(t, limit).len() == 0 {
            assert forall|j: int| 0 <= j < t.len() implies #[trigger] t[j].0 > limit by {
                if j < t.len() - 1 {
                    assert(t[j] == t.drop_last()[j]);
                }
            }
        } else if forall|j: int| 0 <= j < t.len() ==> #[trigger] t[j].0 > limit {
            assert forall|j: int| 0 <= j < t.drop_last().len() implies #[trigger] t.drop_last()[j].0 > limit by {
                assert(t[j] == t.drop_last()[j]);
            }
            assert(t[t.len() - 1].0 > limit);
        }
    }
}

/// When a deployment goes on and when it ends. With nodes registered it
/// asks for a node unless one is named, fails on a name that is not
/// registered and goes on with one that is; with no node it stops. It goes
/// on with any number of images but none, with a node of at least 1536 MB
/// (the smallest VM, 1 GB, plus the 512 MB kept for the host) and with at
/// least one core, when the user confirms, and when the node is not
/// offline; otherwise it ends there.
pub proof fn lemma_deploy_gates(
    nodes: nat,
    requested: Option<Seq<char>>,
    found: bool,
    images: nat,
    node_ram_mb: u32,
    node_cpu_cores: u32,
    proceed: bool,
    hostname: Seq<char>,
    status: NodeStatus,
)
    ensures
        ({
            let r = deploy_next(DeployStage::Nodes, DeployEventView::Registry { nodes, requested, found });
            &&& nodes == 0 ==> r == (DeployStage::Ended, DeployActionView::Stop { message: "No nodes registered"@ })
            &&& nodes > 0 && requested is None ==> r == (DeployStage::Images, DeployActionView::AskNode)
            &&& nodes > 0 && requested is Some && found ==> r == (DeployStage::Images, DeployActionView::Next)
            &&& nodes > 0 && requested is Some && !found ==> r == (
                DeployStage::Ended,
                DeployActionView::Fail { message: "Node '"@ + requested->0 + "' not found"@ },
            )
        }),
        ({
            let r = deploy_next(DeployStage::Images, DeployEventView::Images { count: images });
            &&& images > 0 ==> r == (DeployStage::Disks, DeployActionView::Next)
            &&& images == 0 ==> r == (DeployStage::Ended, DeployActionView::Stop { message: "No images available"@ })
        }),
        ({
            let r = deploy_next(DeployStage::Memory, DeployEventView::Memory { node_ram_mb });
            &&& node_ram_mb >= 1536 ==> r == (DeployStage::Cpus, DeployActionView::Next)
            &&& node_ram_mb < 1536 ==> r == (
                DeployStage::Ended,
                DeployActionView::Stop {
                    message: "Node has insufficient RAM ("@ + decimal(available_ram(node_ram_mb) as nat)
                        + " MB available)"@,
                },
            )
        }),
        ({
            let r = deploy_next(DeployStage::Cpus, DeployEventView::Cpus { node_cpu_cores });
            &&& node_cpu_cores >= 1 ==> r == (DeployStage::Confirm, DeployActionView::Next)
            &&& node_cpu_cores == 0 ==> r == (
                DeployStage::Ended,
                DeployActionView::Stop { message: "Node has no CPU cores available"@ },
            )
        }),
        ({
            let r = deploy_next(DeployStage::Confirm, DeployEventView::Answer { proceed });
            &&& proceed ==> r == (DeployStage::NodeState, DeployActionView::Next)
            &&& !proceed ==> r == (DeployStage::Ended, DeployActionView::Cancel)
        }),
        ({
            let r = deploy_next(DeployStage::NodeState, DeployEventView::NodeState { hostname, status });
            &&& status != NodeStatus::Offline ==> r.0 == DeployStage::Transfer
            &&& status == NodeStatus::Active ==> r.1 == DeployActionView::Warn {
                message: "Node '"@ + hostname + "' has an active VM - stopping it first"@,
            }
            &&& status == NodeStatus::Standby ==> r.1 == DeployActionView::Ready {
                message: "Node '"@ + hostname + "' is ready"@,
            }
            &&& status == NodeStatus::Offline ==> r == (
                DeployStage::Ended,
                DeployActionView::Stop { message: "Node '"@ + hostname + "' is offline"@ },
            )
        }),
{
    let avail = available_ram(node_ram_mb);
    lemma_options_empty(memory_table(), avail);
    lemma_options_empty(cpu_table(), node_cpu_cores);
    if node_ram_mb < 1536 {
        assert forall|j: int| 0 <= j < memory_table().len() implies #[trigger] memory_table()[j].0 > avail by {}
    } else {
        assert(memory_table()[0].0 <= avail);
    }
    if node_cpu_cores == 0 {
        assert forall|j: int| 0 <= j < cpu_table().len() implies #[trigger] cpu_table()[j].0 > node_cpu_cores by {}
    } else {
        assert(cpu_table()[0].0 <= node_cpu_cores);
    }
}

} // verus!
