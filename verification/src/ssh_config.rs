//! SSH on the server side: editing the user's `~/.ssh/config` (the block
//! written for each managed host, and the removal of such blocks), and the
//! arguments of the `ssh-keygen` and `scp` runs.
use vstd::prelude::*;
use crate::text::{
    chars_of, contains, contains_chars, has_char, index_of, lemma_index_of, lemma_index_of_at,
    occurs_at, strip_cr, join, join_chars, lines, lines_of, push_str,
    starts_with, starts_with_chars, string_of, views,
};

verus! {

/// The comment line that opens a managed block.
pub open spec fn marker_prefix() -> Seq<char> {
    "# Cave managed node:"@
}

/// A line that opens the managed block of `h` (or of any host whose
/// name contains `h`).
pub open spec fn is_marker(line: Seq<char>, h: Seq<char>) -> bool {
    starts_with(line, marker_prefix()) && contains(line, h)
}

/// A line that ends a block being skipped. When updating, a `Host ` line
/// or a `# ` comment that does not mention `h`; when removing, a `Host `
/// line or any `#` comment that does not mention `h`.
pub open spec fn resumes(line: Seq<char>, h: Seq<char>, updating: bool) -> bool {
    if updating {
        (starts_with(line, "Host "@) || starts_with(line, "# "@)) && !contains(line, h)
    } else {
        (starts_with(line, "Host "@) && !contains(line, h)) || (starts_with(line, "#"@)
            && !contains(line, h))
    }
}

/// The lines kept when the managed blocks of `h` are dropped, `skipping`
/// telling whether a block is being dropped at the start of `ls`.
pub open spec fn kept_lines(ls: Seq<Seq<char>>, h: Seq<char>, skipping: bool, updating: bool) -> Seq<
    Seq<char>,
>
    decreases ls.len(),
{
    if ls.len() == 0 {
        seq![]
    } else if is_marker(ls[0], h) {
        kept_lines(ls.drop_first(), h, true, updating)
    } else if skipping && !resumes(ls[0], h, updating) {
        kept_lines(ls.drop_first(), h, true, updating)
    } else {
        seq![ls[0]] + kept_lines(ls.drop_first(), h, false, updating)
    }
}

/// Some line of `ls` opens a block of `h`.
pub open spec fn has_marker(ls: Seq<Seq<char>>, h: Seq<char>) -> bool {
    exists|i: int| 0 <= i < ls.len() && is_marker(#[trigger] ls[i], h)
}

/// The block written for a managed host.
pub open spec fn host_entry(h: Seq<char>, ip: Seq<char>, key: Seq<char>) -> Seq<char> {
    "\n# Cave managed node: "@ + h + "\nHost "@ + h + "\n    HostName "@ + ip
        + "\n    User root\n    IdentityFile "@ + key
        + "\n    StrictHostKeyChecking no\n    UserKnownHostsFile /dev/null\n"@
}

/// The configuration without the blocks of `h`, as written before a new
/// block is appended.
pub open spec fn cleaned_config(content: Seq<char>, h: Seq<char>) -> Seq<char> {
    join(kept_lines(lines(content), h, false, true), "\n"@)
}

/// The configuration after the block of `h` is replaced.
pub open spec fn updated_config(content: Seq<char>, h: Seq<char>, ip: Seq<char>, key: Seq<char>) -> Seq<
    char,
> {
    cleaned_config(content, h) + host_entry(h, ip, key)
}

struct Patterns {
    marker: Vec<char>,
    host: Vec<char>,
    hash_space: Vec<char>,
    hash: Vec<char>,
}

impl Patterns {
    spec fn wf(&self) -> bool {
        &&& self.marker@ == marker_prefix()
        &&& self.host@ == "Host "@
        &&& self.hash_space@ == "# "@
        &&& self.hash@ == "#"@
    }

    fn new() -> (p: Patterns)
        ensures
            p.wf(),
    {
        Patterns {
            marker: chars_of("# Cave managed node:"),
            host: chars_of("Host "),
            hash_space: chars_of("# "),
            hash: chars_of("#"),
        }
    }
}

fn is_marker_exec(p: &Patterns, line: &Vec<char>, h: &Vec<char>) -> (r: bool)
    requires
        p.wf(),
    ensures
        r == is_marker(line@, h@),
{
    starts_with_chars(line, &p.marker) && contains_chars(line, h)
}

fn resumes_exec(p: &Patterns, line: &Vec<char>, h: &Vec<char>, updating: bool) -> (r: bool)
    requires
        p.wf(),
    ensures
        r == resumes(line@, h@, updating),
{
    let mentions = contains_chars(line, h);
    if updating {
        (starts_with_chars(line, &p.host) || starts_with_chars(line, &p.hash_space)) && !mentions
    } else {
        (starts_with_chars(line, &p.host) && !mentions) || (starts_with_chars(line, &p.hash)
            && !mentions)
    }
}

/// Drops the managed blocks of `h` from the lines of `content`; also
/// tells whether a block was found.
fn drop_blocks(content: &str, hostname: &str, updating: bool) -> (r: (Vec<char>, bool))
    ensures
        r.0@ == join(kept_lines(lines(content@), hostname@, false, updating), "\n"@),
        r.1 == has_marker(lines(content@), hostname@),
{
    let p = Patterns::new();
    let v = chars_of(content);
    let h = chars_of(hostname);
    let ls = lines_of(&v);
    let ghost all = lines(content@);
    let mut kept: Vec<Vec<char>> = Vec::new();
    let mut skipping = false;
    let mut found = false;
    let n = ls.len();
    assert(all.skip(0) =~= all);
    for i in 0..n
        invariant
            p.wf(),
            h@ == hostname@,
            n == ls@.len() == all.len(),
            all == lines(content@),
            forall|k: int| 0 <= k < ls@.len() ==> #[trigger] ls@[k]@ == all[k],
            views(kept@) + kept_lines(all.skip(i as int), hostname@, skipping, updating)
                == kept_lines(all, hostname@, false, updating),
            found == has_marker(all.take(i as int), hostname@),
    {
        let line = &ls[i];
        let ghost rest = all.skip(i as int);
        assert(rest[0] == line@);
        assert(rest.drop_first() =~= all.skip(i + 1));
        let ghost before = views(kept@);
        let marker = is_marker_exec(&p, line, &h);
        if marker {
            skipping = true;
            found = true;
            assert(all.take(i + 1)[i as int] == line@);
        } else {
            if skipping && !resumes_exec(&p, line, &h, updating) {
            } else {
                skipping = false;
                kept.push(line.clone());
                assert(views(kept@) =~= before + seq![line@]);
            }
        }
        assert(has_marker(all.take(i + 1), hostname@) == (has_marker(all.take(i as int), hostname@)
            || marker)) by {
            if has_marker(all.take(i + 1), hostname@) {
                let k = choose|k: int|
                    0 <= k < all.take(i + 1).len() && is_marker(#[trigger] all.take(i + 1)[k], hostname@);
                if k < i {
                    assert(all.take(i as int)[k] == all.take(i + 1)[k]);
                }
            }
            if has_marker(all.take(i as int), hostname@) {
                let k = choose|k: int|
                    0 <= k < all.take(i as int).len() && is_marker(#[trigger] all.take(i as int)[k], hostname@);
                assert(all.take(i + 1)[k] == all.take(i as int)[k]);
            }
        }
    }
    assert(all.take(n as int) =~= all);
    assert(all.skip(n as int) =~= Seq::<Seq<char>>::empty());
    assert(views(kept@) =~= kept_lines(all, hostname@, false, updating));
    let mut sep: Vec<char> = Vec::new();
    sep.push('\n');
    assert(sep@ =~= "\n"@) by {
        reveal_strlit("\n");
    }
    (join_chars(&kept, &sep), found)
}

/// The existing configuration without the blocks of `hostname`: lines
/// from a marker that names it up to the next `Host ` line or `# `
/// comment that does not. Lines are joined with `\n`, without a final one.
pub fn remove_cave_entry(content: &str, hostname: &str) -> (r: String)
    ensures
        r@ == cleaned_config(content@, hostname@),
{
    let (v, _) = drop_blocks(content, hostname, true);
    string_of(&v)
}

/// The block written for `hostname`, reached at `ip` with the key `key_path`.
pub fn ssh_host_entry(hostname: &str, ip: &str, key_path: &str) -> (r: String)
    ensures
        r@ == host_entry(hostname@, ip@, key_path@),
{
    let mut v: Vec<char> = Vec::new();
    push_str(&mut v, "\n# Cave managed node: ");
    push_str(&mut v, hostname);
    push_str(&mut v, "\nHost ");
    push_str(&mut v, hostname);
    push_str(&mut v, "\n    HostName ");
    push_str(&mut v, ip);
    push_str(&mut v, "\n    User root\n    IdentityFile ");
    push_str(&mut v, key_path);
    push_str(&mut v, "\n    StrictHostKeyChecking no\n    UserKnownHostsFile /dev/null\n");
    string_of(&v)
}

/// The new text of `~/.ssh/config` when `hostname` is (re)pointed at `ip`:
/// its old blocks dropped, the new block appended.
pub fn update_ssh_config(existing: &str, hostname: &str, ip: &str, key_path: &str) -> (r: String)
    ensures
        r@ == updated_config(existing@, hostname@, ip@, key_path@),
{
    let (mut v, _) = drop_blocks(existing, hostname, true);
    let entry = ssh_host_entry(hostname, ip, key_path);
    push_str(&mut v, entry.as_str());
    string_of(&v)
}

/// The text of `~/.ssh/config` without the blocks of `hostname`, and
/// whether there was one; the file is rewritten only in that case.
pub fn remove_ssh_config(content: &str, hostname: &str) -> (r: (String, bool))
    ensures
        r.0@ == join(kept_lines(lines(content@), hostname@, false, false), "\n"@),
        r.1 == has_marker(lines(content@), hostname@),
{
    let (v, found) = drop_blocks(content, hostname, false);
    (string_of(&v), found)
}

// ---------------------------------------------------------------------------
// Laws
// ---------------------------------------------------------------------------

/// No kept line opens a block of the host being dropped.
pub proof fn lemma_kept_has_no_marker(ls: Seq<Seq<char>>, h: Seq<char>, skipping: bool, updating: bool)
    ensures
        !has_marker(kept_lines(ls, h, skipping, updating), h),
    decreases ls.len(),
{
    if ls.len() > 0 {
        lemma_kept_has_no_marker(ls.drop_first(), h, true, updating);
        lemma_kept_has_no_marker(ls.drop_first(), h, false, updating);
        let k = kept_lines(ls, h, skipping, updating);
        if !is_marker(ls[0], h) && !(skipping && !resumes(ls[0], h, updating)) {
            let rest = kept_lines(ls.drop_first(), h, false, updating);
            assert(k == seq![ls[0]] + rest);
            if has_marker(k, h) {
                let i = choose|i: int| 0 <= i < k.len() && is_marker(#[trigger] k[i], h);
                assert(k[i] == rest[i - 1]);
            }
        }
    }
}

/// Dropping the blocks of a host that has none, outside a block, keeps
/// every line.
pub proof fn lemma_kept_without_marker(ls: Seq<Seq<char>>, h: Seq<char>, updating: bool)
    requires
        !has_marker(ls, h),
    ensures
        kept_lines(ls, h, false, updating) == ls,
    decreases ls.len(),
{
    if ls.len() > 0 {
        assert(!is_marker(ls[0], h));
        assert(!has_marker(ls.drop_first(), h)) by {
            if has_marker(ls.drop_first(), h) {
                let i = choose|i: int|
                    0 <= i < ls.drop_first().len() && is_marker(#[trigger] ls.drop_first()[i], h);
                assert(ls[i + 1] == ls.drop_first()[i]);
            }
        }
        lemma_kept_without_marker(ls.drop_first(), h, updating);
        assert(seq![ls[0]] + ls.drop_first() =~= ls);
    }
}

proof fn lemma_lines_keep_tail(a: Seq<char>, x: Seq<char>, l: Seq<char>)
    requires
        lines(x).contains(l),
    ensures
        lines(a + seq!['\n'] + x).contains(l),
    decreases a.len(),
{
    let s = a + seq!['\n'] + x;
    lemma_index_of(a, '\n');
    let j = index_of(a, '\n');
    if j < a.len() {
        assert forall|k: int| 0 <= k < j implies s[k] != '\n' by {
            assert(s[k] == a[k]);
        }
        lemma_index_of_at(s, '\n', j as int);
        let a2 = a.skip(j + 1 as int);
        assert(s.skip(j + 1 as int) =~= a2 + seq!['\n'] + x);
        lemma_lines_keep_tail(a2, x, l);
        let t = lines(s.skip(j + 1 as int));
        let i = choose|i: int| 0 <= i < t.len() && t[i] == l;
        assert(lines(s) == seq![strip_cr(s.take(j as int))] + t);
        assert(lines(s)[i + 1] == l);
    } else {
        assert forall|k: int| 0 <= k < a.len() implies s[k] != '\n' by {
            assert(s[k] == a[k]);
        }
        lemma_index_of_at(s, '\n', a.len() as int);
        assert(s.skip(a.len() + 1 as int) =~= x);
        let t = lines(x);
        let i = choose|i: int| 0 <= i < t.len() && t[i] == l;
        assert(lines(s) == seq![strip_cr(s.take(a.len() as int))] + t);
        assert(lines(s)[i + 1] == l);
    }
}

proof fn lemma_lines_head(m: Seq<char>, r: Seq<char>)
    requires
        !has_char(m, '\n'),
        m.len() > 0,
        m.last() != '\r',
    ensures
        lines(m + seq!['\n'] + r).contains(m),
{
    let s = m + seq!['\n'] + r;
    assert forall|k: int| 0 <= k < m.len() implies s[k] != '\n' by {
        assert(s[k] == m[k]);
    }
    lemma_index_of_at(s, '\n', m.len() as int);
    assert(s.take(m.len() as int) =~= m);
    assert(lines(s)[0] == m);
}

/// After the block of a host is written, removing the host finds it, for
/// host names without line breaks.
pub proof fn lemma_update_then_remove_finds(
    existing: Seq<char>,
    h: Seq<char>,
    ip: Seq<char>,
    key: Seq<char>,
)
    requires
        !has_char(h, '\n'),
        !has_char(h, '\r'),
    ensures
        has_marker(lines(updated_config(existing, h, ip, key)), h),
{
    reveal_strlit("\n# Cave managed node: ");
    reveal_strlit("# Cave managed node:");
    reveal_strlit("\nHost ");
    let lit = "# Cave managed node: "@;
    let m = lit + h;
    let rest = "Host "@ + h + "\n    HostName "@ + ip + "\n    User root\n    IdentityFile "@ + key
        + "\n    StrictHostKeyChecking no\n    UserKnownHostsFile /dev/null\n"@;
    reveal_strlit("Host ");
    assert("\nHost "@ =~= seq!['\n'] + "Host "@);
    assert("\n# Cave managed node: "@ =~= seq!['\n'] + lit) by {
        reveal_strlit("# Cave managed node: ");
    }
    reveal_strlit("# Cave managed node: ");
    let full = cleaned_config(existing, h) + seq!['\n'] + (m + seq!['\n'] + rest);
    assert(updated_config(existing, h, ip, key) =~= full);
    assert(!has_char(m, '\n')) by {
        if has_char(m, '\n') {
            let k = choose|k: int| 0 <= k < m.len() && m[k] == '\n';
            if k >= lit.len() {
                assert(h[k - lit.len()] == '\n');
            }
        }
    }
    assert(m.last() != '\r') by {
        if h.len() > 0 {
            assert(m.last() == h[h.len() - 1]);
        }
    }
    lemma_lines_head(m, rest);
    lemma_lines_keep_tail(cleaned_config(existing, h), m + seq!['\n'] + rest, m);
    assert(starts_with(m, marker_prefix())) by {
        assert(m.take(20) =~= marker_prefix());
    }
    assert(occurs_at(m, h, lit.len() as int)) by {
        assert(m.subrange(lit.len() as int, (lit.len() + h.len()) as int) =~= h);
    }
    assert(is_marker(m, h));
    let ls = lines(updated_config(existing, h, ip, key));
    let i = choose|i: int| 0 <= i < ls.len() && ls[i] == m;
    assert(is_marker(ls[i], h));
}

/// A `Host ` line or a comment line (`# ...`) that does not mention `h`
/// is never dropped with the blocks of `h`, whether a block is being
/// dropped there or not.
pub proof fn lemma_kept_keeps_other_entries(
    ls: Seq<Seq<char>>,
    h: Seq<char>,
    skipping: bool,
    updating: bool,
    j: int,
)
    requires
        0 <= j < ls.len(),
        starts_with(ls[j], "# "@) || starts_with(ls[j], "Host "@),
        !contains(ls[j], h),
    ensures
        kept_lines(ls, h, skipping, updating).contains(ls[j]),
    decreases ls.len(),
{
    reveal_strlit("# ");
    reveal_strlit("#");
    let k = kept_lines(ls, h, skipping, updating);
    if j == 0 {
        assert(!is_marker(ls[0], h));
        if starts_with(ls[0], "# "@) {
            assert(starts_with(ls[0], "#"@)) by {
                assert("# "@ =~= seq!['#', ' ']);
                assert("#"@ =~= seq!['#']);
                assert(ls[0].take(2)[0] == '#');
                assert(ls[0].take(1) =~= seq!['#']);
            }
        }
        assert(resumes(ls[0], h, updating));
        assert(k[0] == ls[0]);
    } else {
        let t = ls.drop_first();
        assert(t[j - 1] == ls[j]);
        lemma_kept_keeps_other_entries(t, h, true, updating, j - 1);
        lemma_kept_keeps_other_entries(t, h, false, updating, j - 1);
        if is_marker(ls[0], h) || (skipping && !resumes(ls[0], h, updating)) {
        } else {
            let rest = kept_lines(t, h, false, updating);
            assert(k == seq![ls[0]] + rest);
            let i = choose|i: int| 0 <= i < rest.len() && rest[i] == ls[j];
            assert(k[i + 1] == ls[j]);
        }
    }
}

/// Once a block of `h` is being dropped, every following line up to the
/// next `Host ` line or comment that does not mention `h` goes with it:
/// lines that do not end the block leave nothing behind.
pub proof fn lemma_block_lines_dropped(ls: Seq<Seq<char>>, h: Seq<char>, updating: bool)
    requires
        forall|j: int| 0 <= j < ls.len() ==> !resumes(#[trigger] ls[j], h, updating),
    ensures
        kept_lines(ls, h, true, updating) == Seq::<Seq<char>>::empty(),
    decreases ls.len(),
{
    if ls.len() > 0 {
        assert(!resumes(ls[0], h, updating));
        assert forall|j: int| 0 <= j < ls.drop_first().len() implies !resumes(#[trigger] ls.drop_first()[j], h, updating) by {
            assert(ls.drop_first()[j] == ls[j + 1]);
        }
        lemma_block_lines_dropped(ls.drop_first(), h, updating);
    }
}

/// No line of a text holds a line break.
proof fn lemma_lines_no_break(s: Seq<char>, i: int)
    requires
        0 <= i < lines(s).len(),
    ensures
        !has_char(lines(s)[i], '\n'),
    decreases s.len(),
{
    let j = index_of(s, '\n');
    lemma_index_of(s, '\n');
    if j < s.len() {
        if i == 0 {
            let l = strip_cr(s.take(j as int));
            assert forall|k: int| 0 <= k < l.len() implies l[k] != '\n' by {
                assert(l[k] == s[k]);
            }
        } else {
            lemma_lines_no_break(s.skip(j + 1 as int), i - 1);
        }
    }
}

/// Joining with `sep` a list cut in two non-empty parts joins the parts
/// with `sep` between them.
proof fn lemma_join_split(a: Seq<Seq<char>>, b: Seq<Seq<char>>, sep: Seq<char>)
    requires
        a.len() > 0,
        b.len() > 0,
    ensures
        join(a + b, sep) == join(a, sep) + sep + join(b, sep),
    decreases b.len(),
{
    if b.len() == 1 {
        assert((a + b).drop_last() =~= a);
    } else {
        lemma_join_split(a, b.drop_last(), sep);
        assert((a + b).drop_last() =~= a + b.drop_last());
        assert(join(a + b, sep) == join(a + b.drop_last(), sep) + sep + b.last());
    }
}

/// A line without a break and without a final carriage return, joined
/// with others by line breaks, is read back as one of the lines.
proof fn lemma_joined_line_read_back(ks: Seq<Seq<char>>, i: int)
    requires
        0 <= i < ks.len(),
        ks[i].len() > 0,
        !has_char(ks[i], '\n'),
        ks[i].last() != '\r',
    ensures
        lines(join(ks, "\n"@)).contains(ks[i]),
    decreases i,
{
    reveal_strlit("\n");
    assert("\n"@ =~= seq!['\n']);
    let l = ks[i];
    if i == 0 {
        if ks.len() == 1 {
            lemma_index_of_at(l, '\n', l.len() as int);
            assert(lines(l) == seq![l]);
            assert(lines(l)[0] == l);
        } else {
            let post = ks.skip(1);
            assert(ks =~= seq![l] + post);
            lemma_join_split(seq![l], post, "\n"@);
            assert(join(seq![l], "\n"@) == l);
            lemma_lines_head(l, join(post, "\n"@));
        }
    } else {
        let pre = ks.take(i);
        let post = ks.skip(i);
        assert(ks =~= pre + post);
        assert(post[0] == l);
        lemma_joined_line_read_back(post, 0);
        lemma_join_split(pre, post, "\n"@);
        lemma_lines_keep_tail(join(pre, "\n"@), join(post, "\n"@), l);
    }
}

/// Dropping the blocks of `h`, to rewrite them or to remove them, keeps the
/// managed blocks of every other host: a marker line for `h2` that does not
/// mention `h` is still there to be found afterwards (a line ending in a
/// carriage return of its own aside, which reading lines shortens).
pub proof fn lemma_drop_keeps_other_markers(content: Seq<char>, h: Seq<char>, h2: Seq<char>, i: int, updating: bool)
    requires
        0 <= i < lines(content).len(),
        is_marker(lines(content)[i], h2),
        !contains(lines(content)[i], h),
        lines(content)[i].last() != '\r',
    ensures
        has_marker(lines(join(kept_lines(lines(content), h, false, updating), "\n"@)), h2),
        updating ==> has_marker(lines(cleaned_config(content, h)), h2),
{
    let ls = lines(content);
    let l = ls[i];
    reveal_strlit("# Cave managed node:");
    reveal_strlit("# ");
    assert(starts_with(l, "# "@)) by {
        assert("# "@ =~= seq!['#', ' ']);
        assert(marker_prefix()[0] == '#' && marker_prefix()[1] == ' ');
        assert(l.take(20)[0] == '#' && l.take(20)[1] == ' ');
        assert(l.take(2) =~= seq!['#', ' ']);
    }
    lemma_kept_keeps_other_entries(ls, h, false, updating, i);
    let k = kept_lines(ls, h, false, updating);
    let j = choose|j: int| 0 <= j < k.len() && k[j] == l;
    lemma_lines_no_break(content, i);
    lemma_joined_line_read_back(k, j);
    let out = lines(join(k, "\n"@));
    let m = choose|m: int| 0 <= m < out.len() && out[m] == l;
    assert(is_marker(out[m], h2));
}

// ---------------------------------------------------------------------------
// Keys, copies and Wake-on-LAN
// ---------------------------------------------------------------------------

/// The `ssh-keygen` arguments for the server's key: ed25519, no
/// passphrase, comment `cave@localhost`.
pub open spec fn keygen_args(private_key: Seq<char>) -> Seq<Seq<char>> {
    seq!["-t"@, "ed25519"@, "-f"@, private_key, "-N"@, ""@, "-C"@, "cave@localhost"@]
}

pub fn keygen_arguments(private_key: &str) -> (r: Vec<String>)
    ensures
        r@.len() == 8,
        forall|i: int| 0 <= i < 8 ==> #[trigger] r@[i]@ == keygen_args(private_key@)[i],
{
    let mut r: Vec<String> = Vec::new();
    r.push(String::from_str("-t"));
    r.push(String::from_str("ed25519"));
    r.push(String::from_str("-f"));
    r.push(String::from_str(private_key));
    r.push(String::from_str("-N"));
    r.push(String::from_str(""));
    r.push(String::from_str("-C"));
    r.push(String::from_str("cave@localhost"));
    r
}

/// The `scp` arguments that copy a local file to `root@<ip>:<remote>`
/// with the server's key, without host key checks.
pub open spec fn scp_args(private_key: Seq<char>, local: Seq<char>, ip: Seq<char>, remote: Seq<char>) -> Seq<Seq<char>> {
    seq![
        "-i"@,
        private_key,
        "-o"@,
        "StrictHostKeyChecking=no"@,
        "-o"@,
        "UserKnownHostsFile=/dev/null"@,
        local,
        "root@"@ + ip + ":"@ + remote
    ]
}

pub fn scp_arguments(private_key: &str, local: &str, ip: &str, remote: &str) -> (r: Vec<String>)
    ensures
        r@.len() == 8,
        forall|i: int| 0 <= i < 8 ==> #[trigger] r@[i]@ == scp_args(private_key@, local@, ip@, remote@)[i],
{
    let mut r: Vec<String> = Vec::new();
    r.push(String::from_str("-i"));
    r.push(String::from_str(private_key));
    r.push(String::from_str("-o"));
    r.push(String::from_str("StrictHostKeyChecking=no"));
    r.push(String::from_str("-o"));
    r.push(String::from_str("UserKnownHostsFile=/dev/null"));
    r.push(String::from_str(local));
    r.push(crate::remote::cat4("root@", ip, ":", remote));
    r
}

/// The command that turns Wake-on-LAN on for the node's first wired
/// interface, installing `ethtool` when needed.
pub open spec fn wol_setup() -> Seq<char> {
    "\n        if ! which ethtool >/dev/null 2>&1; then\n            apk add --no-cache ethtool >/dev/null 2>&1\n        fi\n        # Find the main ethernet interface (not lo, not br*, not tap*)\n        iface=$(ip -o link show | awk -F': ' '$2 !~ /^(lo|br|tap|veth)/ {print $2; exit}')\n        if [ -n \"$iface\" ]; then\n            ethtool -s \"$iface\" wol g 2>/dev/null || true\n        fi\n    "@
}

pub fn wol_setup_command() -> (r: String)
    ensures
        r@ == wol_setup(),
{
    String::from_str("\n        if ! which ethtool >/dev/null 2>&1; then\n            apk add --no-cache ethtool >/dev/null 2>&1\n        fi\n        # Find the main ethernet interface (not lo, not br*, not tap*)\n        iface=$(ip -o link show | awk -F': ' '$2 !~ /^(lo|br|tap|veth)/ {print $2; exit}')\n        if [ -n \"$iface\" ]; then\n            ethtool -s \"$iface\" wol g 2>/dev/null || true\n        fi\n    ")
}

} // verus!
