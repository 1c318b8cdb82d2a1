//! The PXE server: the Alpine netboot files it serves, the kernel command
//! line it hands to booting nodes, the PID file that ties its processes
//! together, and the watcher script that restarts VMs.
use vstd::prelude::*;
use crate::config::{join_path, join_path_str};
use crate::remote::{cat2, cat3, cat4};
use crate::text::{
    chars_of, decimal, decimal_chars, join, join_chars, lines, lines_of, string_of, trim, trim_chars, views,
};

verus! {

/// The Alpine mirror the netboot files and packages come from.
pub open spec fn alpine_mirror() -> Seq<char> {
    "https://dl-cdn.alpinelinux.org/alpine"@
}

/// The Alpine release the nodes boot.
pub open spec fn alpine_version() -> Seq<char> {
    "3.21"@
}

pub fn alpine_version_text() -> (r: String)
    ensures
        r@ == alpine_version(),
{
    String::from_str("3.21")
}

/// Where a netboot file of the kernel flavor is downloaded from.
pub open spec fn netboot_url(file: Seq<char>, flavor: Seq<char>) -> Seq<char> {
    alpine_mirror() + "/v"@ + alpine_version() + "/releases/x86_64/netboot/"@ + file + "-"@ + flavor
}

/// The netboot files of the `lts` kernel (file name, URL): kernel,
/// initramfs and modules.
pub open spec fn netboot_files() -> Seq<(Seq<char>, Seq<char>)> {
    seq![
        ("vmlinuz-lts"@, netboot_url("vmlinuz"@, "lts"@)),
        ("initramfs-lts"@, netboot_url("initramfs"@, "lts"@)),
        ("modloop-lts"@, netboot_url("modloop"@, "lts"@))
    ]
}

fn netboot_entry(file: &str) -> (r: (String, String))
    ensures
        r.0@ == file@ + "-"@ + "lts"@,
        r.1@ == netboot_url(file@, "lts"@),
{
    let name = cat3(file, "-", "lts");
    let a = cat4("https://dl-cdn.alpinelinux.org/alpine", "/v", "3.21", "/releases/x86_64/netboot/");
    let url = cat4(a.as_str(), file, "-", "lts");
    (name, url)
}

/// The files `cave server init` downloads, in order.
pub fn alpine_downloads() -> (r: Vec<(String, String)>)
    ensures
        r@.len() == 3,
        forall|i: int| 0 <= i < 3 ==> (#[trigger] r@[i]).0@ == netboot_files()[i].0 && r@[i].1@
            == netboot_files()[i].1,
{
    proof {
        reveal_strlit("vmlinuz-lts");
        reveal_strlit("initramfs-lts");
        reveal_strlit("modloop-lts");
        reveal_strlit("vmlinuz");
        reveal_strlit("initramfs");
        reveal_strlit("modloop");
        reveal_strlit("-");
        reveal_strlit("lts");
    }
    let mut r: Vec<(String, String)> = Vec::new();
    let a = netboot_entry("vmlinuz");
    assert(a.0@ =~= "vmlinuz-lts"@);
    r.push(a);
    let b = netboot_entry("initramfs");
    assert(b.0@ =~= "initramfs-lts"@);
    r.push(b);
    let c = netboot_entry("modloop");
    assert(c.0@ =~= "modloop-lts"@);
    r.push(c);
    r
}

/// The files `cave server status` checks in the Alpine directory.
pub open spec fn served_files() -> Seq<Seq<char>> {
    seq!["vmlinuz-lts"@, "initramfs-lts"@, "modloop-lts"@, "cave.pub"@]
}

pub fn served_file_names() -> (r: Vec<String>)
    ensures
        r@.len() == 4,
        forall|i: int| 0 <= i < 4 ==> #[trigger] r@[i]@ == served_files()[i],
{
    let mut r: Vec<String> = Vec::new();
    r.push(String::from_str("vmlinuz-lts"));
    r.push(String::from_str("initramfs-lts"));
    r.push(String::from_str("modloop-lts"));
    r.push(String::from_str("cave.pub"));
    r
}

/// The package repository booted nodes use.
pub open spec fn alpine_repo(version: Seq<char>) -> Seq<char> {
    alpine_mirror() + "/v"@ + version + "/main"@
}

/// `http://<ip>:<port>/<file>`.
pub open spec fn served_url(ip: Seq<char>, port: u16, file: Seq<char>) -> Seq<char> {
    "http://"@ + ip + ":"@ + decimal(port as nat) + "/"@ + file
}

/// The kernel command line of a booting node: DHCP, the server's SSH key
/// and module loop over HTTP, and the package repository.
pub open spec fn pxe_cmdline(local_ip: Seq<char>, port: u16, version: Seq<char>) -> Seq<char> {
    "ip=dhcp ssh_key="@ + served_url(local_ip, port, "cave.pub"@) + " modloop="@ + served_url(
        local_ip,
        port,
        "modloop-lts"@,
    ) + " alpine_repo="@ + alpine_repo(version)
}

fn served_url_text(ip: &str, port: u16, file: &str) -> (r: String)
    ensures
        r@ == served_url(ip@, port, file@),
{
    let p = string_of(&decimal_chars(port as u64));
    let a = cat4("http://", ip, ":", p.as_str());
    cat3(a.as_str(), "/", file)
}

pub fn pxe_cmdline_text(local_ip: &str, port: u16, version: &str) -> (r: String)
    ensures
        r@ == pxe_cmdline(local_ip@, port, version@),
{
    let key = served_url_text(local_ip, port, "cave.pub");
    let modloop = served_url_text(local_ip, port, "modloop-lts");
    let repo = cat4("https://dl-cdn.alpinelinux.org/alpine", "/v", version, "/main");
    let a = cat4("ip=dhcp ssh_key=", key.as_str(), " modloop=", modloop.as_str());
    cat3(a.as_str(), " alpine_repo=", repo.as_str())
}

/// The arguments pixiecore is started with.
pub open spec fn pixiecore_args(vmlinuz: Seq<char>, initramfs: Seq<char>, cmdline: Seq<char>) -> Seq<Seq<char>> {
    seq![
        "boot"@,
        vmlinuz,
        initramfs,
        "--cmdline"@,
        cmdline,
        "--dhcp-no-bind"@,
        "--port"@,
        "8081"@,
        "--debug"@
    ]
}

pub fn pixiecore_arguments(vmlinuz: &str, initramfs: &str, cmdline: &str) -> (r: Vec<String>)
    ensures
        r@.len() == 9,
        forall|i: int| 0 <= i < 9 ==> #[trigger] r@[i]@ == pixiecore_args(vmlinuz@, initramfs@, cmdline@)[i],
{
    let mut r: Vec<String> = Vec::new();
    r.push(String::from_str("boot"));
    r.push(String::from_str(vmlinuz));
    r.push(String::from_str(initramfs));
    r.push(String::from_str("--cmdline"));
    r.push(String::from_str(cmdline));
    r.push(String::from_str("--dhcp-no-bind"));
    r.push(String::from_str("--port"));
    r.push(String::from_str("8081"));
    r.push(String::from_str("--debug"));
    r
}

/// Where else pixiecore may be when it is not on the path: under the Go
/// binaries of the user who ran sudo, then of the home directory.
pub open spec fn pixiecore_fallbacks(sudo_user: Option<Seq<char>>, home: Option<Seq<char>>) -> Seq<Seq<char>> {
    (match sudo_user {
        Some(u) => seq!["/home/"@ + u + "/go/bin/pixiecore"@],
        None => seq![],
    }) + (match home {
        Some(h) => seq![join_path(join_path(join_path(h, "go"@), "bin"@), "pixiecore"@)],
        None => seq![],
    })
}

pub fn pixiecore_fallback_paths(sudo_user: Option<&str>, home: Option<&str>) -> (r: Vec<String>)
    ensures
        r@.len() == pixiecore_fallbacks(
            crate::config::opt_view(sudo_user),
            crate::config::opt_view(home),
        ).len(),
        forall|i: int| 0 <= i < r@.len() ==> #[trigger] r@[i]@ == pixiecore_fallbacks(
            crate::config::opt_view(sudo_user),
            crate::config::opt_view(home),
        )[i],
{
    let mut r: Vec<String> = Vec::new();
    match sudo_user {
        Some(u) => r.push(cat3("/home/", u, "/go/bin/pixiecore")),
        None => {},
    }
    match home {
        Some(h) => {
            let go = join_path_str(h, "go");
            let bin = join_path_str(go.as_str(), "bin");
            r.push(join_path_str(bin.as_str(), "pixiecore"));
        },
        None => {},
    }
    r
}

/// The arguments that start the HTTP file server of the Alpine directory.
pub fn http_serve_arguments(port: u16, dir: &str) -> (r: Vec<String>)
    ensures
        r@.len() == 3,
        r@[0]@ == "http-serve"@,
        r@[1]@ == decimal(port as nat),
        r@[2]@ == dir@,
{
    let mut r: Vec<String> = Vec::new();
    r.push(String::from_str("http-serve"));
    r.push(string_of(&decimal_chars(port as u64)));
    r.push(String::from_str(dir));
    r
}

// ---------------------------------------------------------------------------
// The PID file
// ---------------------------------------------------------------------------

/// The PID file: the server's process IDs, one per line, no final line
/// break.
pub open spec fn pid_file(pids: Seq<u32>) -> Seq<char> {
    join(pids.map_values(|p: u32| decimal(p as nat)), "\n"@)
}

pub fn pid_file_content(pids: &Vec<u32>) -> (r: String)
    ensures
        r@ == pid_file(pids@),
{
    let mut parts: Vec<Vec<char>> = Vec::new();
    for i in 0..pids.len()
        invariant
            parts@.len() == i,
            forall|k: int| 0 <= k < i ==> #[trigger] parts@[k]@ == decimal(pids@[k] as nat),
    {
        parts.push(decimal_chars(pids[i] as u64));
    }
    assert(views(parts@) =~= pids@.map_values(|p: u32| decimal(p as nat)));
    let sep = chars_of("\n");
    string_of(&join_chars(&parts, &sep))
}

/// The non-blank lines of a text, each trimmed.
pub open spec fn trimmed_entries(ls: Seq<Seq<char>>) -> Seq<Seq<char>>
    decreases ls.len(),
{
    if ls.len() == 0 {
        seq![]
    } else if trim(ls.last()).len() > 0 {
        trimmed_entries(ls.drop_last()).push(trim(ls.last()))
    } else {
        trimmed_entries(ls.drop_last())
    }
}

/// The process IDs `cave server stop` and `status` read from the PID file:
/// its non-blank lines, trimmed.
pub open spec fn pids_in(content: Seq<char>) -> Seq<Seq<char>> {
    trimmed_entries(lines(content))
}

pub fn read_pids(content: &str) -> (r: Vec<String>)
    ensures
        r@.len() == pids_in(content@).len(),
        forall|i: int| 0 <= i < r@.len() ==> #[trigger] r@[i]@ == pids_in(content@)[i],
{
    let ls = lines_of(&chars_of(content));
    let ghost lv = lines(content@);
    let mut r: Vec<String> = Vec::new();
    for i in 0..ls.len()
        invariant
            ls@.len() == lv.len(),
            forall|k: int| 0 <= k < ls@.len() ==> #[trigger] ls@[k]@ == lv[k],
            r@.len() == trimmed_entries(lv.take(i as int)).len(),
            forall|k: int| 0 <= k < r@.len() ==> #[trigger] r@[k]@ == trimmed_entries(lv.take(i as int))[k],
    {
        assert(lv.take(i + 1).drop_last() =~= lv.take(i as int));
        assert(lv.take(i + 1).last() == ls@[i as int]@);
        let t = trim_chars(&ls[i]);
        if t.len() > 0 {
            r.push(string_of(&t));
        }
    }
    assert(lv.take(ls.len() as int) =~= lv);
    r
}

proof fn lemma_join_front(a: Seq<char>, r: Seq<Seq<char>>, sep: Seq<char>)
    requires
        r.len() > 0,
    ensures
        join(seq![a] + r, sep) == a + sep + join(r, sep),
    decreases r.len(),
{
    let s = seq![a] + r;
    assert(s.drop_last() =~= seq![a] + r.drop_last());
    assert(s.last() == r.last());
    if r.len() == 1 {
        assert(seq![a] + r.drop_last() =~= seq![a]);
        assert(join(seq![a], sep) == a);
        assert(join(r, sep) == r[0]);
        assert(join(s, sep) =~= a + sep + join(r, sep));
    } else {
        lemma_join_front(a, r.drop_last(), sep);
        assert(join(s, sep) =~= a + sep + join(r, sep));
    }
}

proof fn lemma_lines_join(ds: Seq<Seq<char>>)
    requires
        ds.len() > 0,
        forall|i: int| 0 <= i < ds.len() ==> (#[trigger] ds[i]).len() > 0 && crate::watcher::one_line(ds[i]),
    ensures
        lines(join(ds, "\n"@)) == ds,
    decreases ds.len(),
{
    reveal_strlit("\n");
    let a = ds[0];
    assert(a.len() > 0 && crate::watcher::one_line(a));
    assert forall|k: int| 0 <= k < a.len() implies a[k] != '\n' by {}
    if ds.len() == 1 {
        assert(join(ds, "\n"@) == a);
        crate::text::lemma_index_of_at(a, '\n', a.len() as int);
        assert(lines(a) =~= ds);
    } else {
        let r = ds.drop_first();
        assert(ds =~= seq![a] + r);
        lemma_join_front(a, r, "\n"@);
        let s = join(ds, "\n"@);
        let rest = join(r, "\n"@);
        assert(s == a + seq!['\n'] + rest);
        assert forall|k: int| 0 <= k < a.len() implies s[k] != '\n' by {
            assert(s[k] == a[k]);
        }
        crate::text::lemma_index_of_at(s, '\n', a.len() as int);
        assert(s.take(a.len() as int) =~= a);
        assert(s.skip(a.len() + 1 as int) =~= rest);
        assert forall|i: int| 0 <= i < r.len() implies (#[trigger] r[i]).len() > 0 && crate::watcher::one_line(r[i]) by {
            assert(r[i] == ds[i + 1]);
        }
        lemma_lines_join(r);
        assert(lines(s) =~= seq![a] + r);
    }
}

proof fn lemma_trimmed_entries_plain(ds: Seq<Seq<char>>)
    requires
        forall|i: int| 0 <= i < ds.len() ==> (#[trigger] ds[i]).len() > 0 && trim(ds[i]) == ds[i],
    ensures
        trimmed_entries(ds) == ds,
    decreases ds.len(),
{
    if ds.len() > 0 {
        assert(ds[ds.len() - 1].len() > 0);
        lemma_trimmed_entries_plain(ds.drop_last());
        assert(ds.drop_last().push(ds.last()) =~= ds);
    }
}

proof fn lemma_trim_digits(d: Seq<char>)
    requires
        forall|i: int| 0 <= i < d.len() ==> crate::text::is_digit(#[trigger] d[i]),
    ensures
        trim(d) == d,
{
    if d.len() > 0 {
        assert(crate::text::is_digit(d[0]));
        assert(crate::text::is_digit(d[d.len() - 1]));
        assert(crate::text::trim_start(d) == d);
    }
}

/// The process IDs read back from a PID file are those written to it.
pub proof fn lemma_pid_file_roundtrip(pids: Seq<u32>)
    ensures
        pids_in(pid_file(pids)) == pids.map_values(|p: u32| decimal(p as nat)),
{
    let ds = pids.map_values(|p: u32| decimal(p as nat));
    assert forall|i: int| 0 <= i < ds.len() implies (#[trigger] ds[i]).len() > 0 && crate::watcher::one_line(ds[i]) && trim(ds[i]) == ds[i] by {
        crate::text::lemma_decimal_digits(pids[i] as nat);
        crate::watcher::lemma_decimal_one_line(pids[i] as nat);
        lemma_trim_digits(ds[i]);
    }
    if ds.len() > 0 {
        lemma_lines_join(ds);
    } else {
        assert(pid_file(pids) =~= Seq::<char>::empty());
        assert(lines(pid_file(pids)) =~= Seq::<Seq<char>>::empty());
    }
    lemma_trimmed_entries_plain(ds);
}

// ---------------------------------------------------------------------------
// The VM watcher
// ---------------------------------------------------------------------------

/// The watcher script: every ten seconds it polls the network, then runs
/// `cave watcher-start` for each saved VM configuration, logging each VM
/// it started.
pub open spec fn watcher_script(cave_bin: Seq<char>, vms_dir: Seq<char>, log: Seq<char>) -> Seq<char> {
    "#!/bin/sh\n# Cave VM Watcher - auto-starts VMs, updates IP cache and SSH config\nCAVE=\""@ + cave_bin + "\"\nVMS_DIR=\""@ + vms_dir + "\"\nLOG=\""@ + log + "\"\n\nlog() {\n    echo \"$(date '+%Y-%m-%d %H:%M:%S') [watcher] $1\" >> \"$LOG\"\n}\n\nlog \"Watcher started, configs in $VMS_DIR\"\n\nwhile true; do\n    # Poll network to update IP cache and SSH config\n    \"$CAVE\" poll 2>/dev/null\n\n    for conf in \"$VMS_DIR\"/*.conf; do\n        [ -f \"$conf\" ] || continue\n        hostname=$(basename \"$conf\" .conf)\n        # Call cave watcher-start which uses the same code as deploy\n        if \"$CAVE\" watcher-start \"$hostname\" 2>/dev/null; then\n            log \"Started VM on $hostname\"\n        fi\n    done\n    sleep 10\ndone\n"@
}

pub fn watcher_script_text(cave_bin: &str, vms_dir: &str, log: &str) -> (r: String)
    ensures
        r@ == watcher_script(cave_bin@, vms_dir@, log@),
{
    let a = cat4("#!/bin/sh\n# Cave VM Watcher - auto-starts VMs, updates IP cache and SSH config\nCAVE=\"", cave_bin, "\"\nVMS_DIR=\"", vms_dir);
    let b = cat4(a.as_str(), "\"\nLOG=\"", log, "\"\n\nlog() {\n    echo \"$(date '+%Y-%m-%d %H:%M:%S') [watcher] $1\" >> \"$LOG\"\n}\n\nlog \"Watcher started, configs in $VMS_DIR\"\n\nwhile true; do\n    # Poll network to update IP cache and SSH config\n    \"$CAVE\" poll 2>/dev/null\n\n    for conf in \"$VMS_DIR\"/*.conf; do\n        [ -f \"$conf\" ] || continue\n        hostname=$(basename \"$conf\" .conf)\n        # Call cave watcher-start which uses the same code as deploy\n        if \"$CAVE\" watcher-start \"$hostname\" 2>/dev/null; then\n            log \"Started VM on $hostname\"\n        fi\n    done\n    sleep 10\ndone\n");
    b
}

/// Where the watcher logs and where its script is written, in the data
/// directory.
pub fn watcher_files(cave_dir: &str) -> (r: (String, String))
    ensures
        r.0@ == join_path(cave_dir@, "watcher.log"@),
        r.1@ == join_path(cave_dir@, "watcher.sh"@),
{
    (join_path_str(cave_dir, "watcher.log"), join_path_str(cave_dir, "watcher.sh"))
}

// ---------------------------------------------------------------------------
// Root
// ---------------------------------------------------------------------------

/// What `cave server <action>` prints when it does not run as root: the
/// error and the command to run instead.
pub fn root_required(action: &str) -> (r: (String, String))
    ensures
        r.0@ == "'cave server "@ + action@ + "' requires root privileges"@,
        r.1@ == "sudo cave server "@ + action@,
{
    (cat3("'cave server ", action, "' requires root privileges"), cat2("sudo cave server ", action))
}

} // verus!
