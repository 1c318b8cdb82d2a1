//! The VM configuration the server keeps for each node after a deploy, and
//! how the watcher reads it back to restart the VM when the node reboots.
use vstd::prelude::*;
use crate::text::{
    chars_eq, chars_of, decimal, decimal_chars, find_char, has_char, index_of, lemma_index_of,
    lemma_index_of_at, lines, lines_of, parse_u32, parse_unsigned, push_chars, push_str,
    strip_cr, string_of, subvec, };

verus! {

/// What the server remembers of a deployed VM (`vms/<hostname>.conf`).
#[derive(Debug)]
pub struct SavedVm {
    pub node_ip: String,
    pub vm_name: String,
    pub memory_mb: u32,
    pub cpus: u32,
    pub disk_path: String,
    pub seed_iso: String,
    pub disk_name: String,
    pub mac: String,
}

pub struct SavedVmView {
    pub node_ip: Seq<char>,
    pub vm_name: Seq<char>,
    pub memory_mb: u32,
    pub cpus: u32,
    pub disk_path: Seq<char>,
    pub seed_iso: Seq<char>,
    pub disk_name: Seq<char>,
    pub mac: Seq<char>,
}

impl View for SavedVm {
    type V = SavedVmView;

    open spec fn view(&self) -> SavedVmView {
        SavedVmView {
            node_ip: self.node_ip@,
            vm_name: self.vm_name@,
            memory_mb: self.memory_mb,
            cpus: self.cpus,
            disk_path: self.disk_path@,
            seed_iso: self.seed_iso@,
            disk_name: self.disk_name@,
            mac: self.mac@,
        }
    }
}

// ---------------------------------------------------------------------------
// The file: one `KEY=value` line per field
// ---------------------------------------------------------------------------

/// The keys of the file, in the order they are written.
pub open spec fn saved_keys() -> Seq<Seq<char>> {
    seq![
        "NODE_IP"@,
        "VM_NAME"@,
        "MEMORY_MB"@,
        "CPUS"@,
        "DISK_PATH"@,
        "SEED_ISO"@,
        "DISK_NAME"@,
        "MAC"@
    ]
}

/// The values written for each key.
pub open spec fn saved_values(c: SavedVmView) -> Seq<Seq<char>> {
    seq![
        c.node_ip,
        c.vm_name,
        decimal(c.memory_mb as nat),
        decimal(c.cpus as nat),
        c.disk_path,
        c.seed_iso,
        c.disk_name,
        c.mac
    ]
}

/// The line `key=value`.
pub open spec fn entry(key: Seq<char>, value: Seq<char>) -> Seq<char> {
    key + seq!['='] + value
}

pub open spec fn entries(keys: Seq<Seq<char>>, values: Seq<Seq<char>>) -> Seq<Seq<char>> {
    Seq::new(keys.len(), |i: int| entry(keys[i], values[i]))
}

/// Lines, each followed by a line break.
pub open spec fn terminated(ls: Seq<Seq<char>>) -> Seq<char>
    decreases ls.len(),
{
    if ls.len() == 0 {
        seq![]
    } else {
        ls[0] + seq!['\n'] + terminated(ls.drop_first())
    }
}

/// The text of the saved configuration.
pub open spec fn saved_vm_text(c: SavedVmView) -> Seq<char> {
    terminated(entries(saved_keys(), saved_values(c)))
}

proof fn lemma_terminated_push(ls: Seq<Seq<char>>, l: Seq<char>)
    ensures
        terminated(ls.push(l)) == terminated(ls) + l + seq!['\n'],
    decreases ls.len(),
{
    if ls.len() > 0 {
        assert(ls.push(l).drop_first() =~= ls.drop_first().push(l));
        lemma_terminated_push(ls.drop_first(), l);
        assert(terminated(ls.push(l)) =~= terminated(ls) + l + seq!['\n']);
    } else {
        assert(ls.push(l).drop_first() =~= Seq::<Seq<char>>::empty());
        assert(terminated(Seq::<Seq<char>>::empty()) == Seq::<char>::empty());
        assert(ls.push(l)[0] == l);
        assert(terminated(ls.push(l)) =~= terminated(ls) + l + seq!['\n']);
    }
}

fn saved_key(i: usize) -> (r: &'static str)
    requires
        i < 8,
    ensures
        r@ == saved_keys()[i as int],
{
    if i == 0 {
        "NODE_IP"
    } else if i == 1 {
        "VM_NAME"
    } else if i == 2 {
        "MEMORY_MB"
    } else if i == 3 {
        "CPUS"
    } else if i == 4 {
        "DISK_PATH"
    } else if i == 5 {
        "SEED_ISO"
    } else if i == 6 {
        "DISK_NAME"
    } else {
        "MAC"
    }
}

fn saved_value_chars(c: &SavedVm) -> (r: Vec<Vec<char>>)
    ensures
        r@.len() == 8,
        forall|i: int| 0 <= i < 8 ==> #[trigger] r@[i]@ == saved_values(c@)[i],
{
    let mut r: Vec<Vec<char>> = Vec::new();
    r.push(chars_of(&c.node_ip));
    r.push(chars_of(&c.vm_name));
    r.push(decimal_chars(c.memory_mb as u64));
    r.push(decimal_chars(c.cpus as u64));
    r.push(chars_of(&c.disk_path));
    r.push(chars_of(&c.seed_iso));
    r.push(chars_of(&c.disk_name));
    r.push(chars_of(&c.mac));
    r
}

/// The file the server writes for a deployed VM, as `cave node deploy`
/// writes it: `NODE_IP`, `VM_NAME`, `MEMORY_MB`, `CPUS`, `DISK_PATH`,
/// `SEED_ISO`, `DISK_NAME` and `MAC`, one `KEY=value` line each.
pub fn saved_vm_config(c: &SavedVm) -> (r: String)
    ensures
        r@ == saved_vm_text(c@),
{
    let values = saved_value_chars(c);
    let ghost es = entries(saved_keys(), saved_values(c@));
    let mut v: Vec<char> = Vec::new();
    for i in 0..8usize
        invariant
            values@.len() == 8,
            forall|k: int| 0 <= k < 8 ==> #[trigger] values@[k]@ == saved_values(c@)[k],
            es == entries(saved_keys(), saved_values(c@)),
            v@ == terminated(es.take(i as int)),
    {
        let ghost before = v@;
        push_str(&mut v, saved_key(i));
        v.push('=');
        push_chars(&mut v, &values[i]);
        v.push('\n');
        proof {
            assert(es.take(i + 1) =~= es.take(i as int).push(es[i as int]));
            lemma_terminated_push(es.take(i as int), es[i as int]);
            assert(v@ =~= before + es[i as int] + seq!['\n']);
        }
    }
    assert(es.take(8) =~= es);
    string_of(&v)
}

// ---------------------------------------------------------------------------
// Reading it back
// ---------------------------------------------------------------------------

/// `str::split_once('=')`.
pub open spec fn split_once_eq(l: Seq<char>) -> Option<(Seq<char>, Seq<char>)> {
    let i = index_of(l, '=');
    if i < l.len() {
        Some((l.take(i as int), l.skip(i + 1 as int)))
    } else {
        None
    }
}

/// The value of the last line whose key is `key`.
pub open spec fn last_value(ls: Seq<Seq<char>>, key: Seq<char>) -> Option<Seq<char>>
    decreases ls.len(),
{
    if ls.len() == 0 {
        None
    } else {
        match split_once_eq(ls.last()) {
            Some(kv) => if kv.0 == key {
                Some(kv.1)
            } else {
                last_value(ls.drop_last(), key)
            },
            None => last_value(ls.drop_last(), key),
        }
    }
}

/// A text field: its last value, or empty.
pub open spec fn text_field(ls: Seq<Seq<char>>, key: Seq<char>) -> Seq<char> {
    match last_value(ls, key) {
        Some(v) => v,
        None => seq![],
    }
}

/// A number field: its last value as a `u32`, or `default` when there is
/// none or it is not a number.
pub open spec fn number_field(ls: Seq<Seq<char>>, key: Seq<char>, default: u32) -> u32 {
    match last_value(ls, key) {
        Some(v) => match parse_unsigned(v, 10, u32::MAX as nat) {
            Some(n) => n as u32,
            None => default,
        },
        None => default,
    }
}

/// What the watcher reads from a saved configuration: later lines win,
/// unknown keys and lines without `=` are ignored, memory defaults to
/// 2048 MB and CPUs to 2.
pub open spec fn parsed_saved_vm(content: Seq<char>) -> SavedVmView {
    let ls = lines(content);
    SavedVmView {
        node_ip: text_field(ls, "NODE_IP"@),
        vm_name: text_field(ls, "VM_NAME"@),
        memory_mb: number_field(ls, "MEMORY_MB"@, 2048),
        cpus: number_field(ls, "CPUS"@, 2),
        disk_path: text_field(ls, "DISK_PATH"@),
        seed_iso: text_field(ls, "SEED_ISO"@),
        disk_name: text_field(ls, "DISK_NAME"@),
        mac: text_field(ls, "MAC"@),
    }
}

pub open spec fn opt_view(o: Option<Vec<char>>) -> Option<Seq<char>> {
    match o {
        Some(v) => Some(v@),
        None => None,
    }
}

proof fn lemma_last_value_step(ls: Seq<Seq<char>>, i: int, key: Seq<char>)
    requires
        0 <= i < ls.len(),
    ensures
        last_value(ls.take(i + 1), key) == (match split_once_eq(ls[i]) {
            Some(kv) => if kv.0 == key {
                Some(kv.1)
            } else {
                last_value(ls.take(i), key)
            },
            None => last_value(ls.take(i), key),
        }),
{
    assert(ls.take(i + 1).drop_last() =~= ls.take(i));
    assert(ls.take(i + 1).last() == ls[i]);
}

fn text_of(o: &Option<Vec<char>>) -> (r: String)
    ensures
        r@ == (match opt_view(*o) {
            Some(v) => v,
            None => seq![],
        }),
{
    match o {
        Some(v) => string_of(v),
        None => String::new(),
    }
}

fn number_of(o: &Option<Vec<char>>, default: u32) -> (r: u32)
    ensures
        r == (match opt_view(*o) {
            Some(v) => match parse_unsigned(v, 10, u32::MAX as nat) {
                Some(n) => n as u32,
                None => default,
            },
            None => default,
        }),
{
    match o {
        Some(v) => match parse_u32(v) {
            Some(n) => n,
            None => default,
        },
        None => default,
    }
}

/// Reads a saved configuration as the watcher does.
pub fn parse_saved_vm(content: &str) -> (r: SavedVm)
    ensures
        r@ == parsed_saved_vm(content@),
{
    let text = chars_of(content);
    let ls = lines_of(&text);
    let ghost lv = lines(content@);
    let ghost keys = saved_keys();
    let mut found: Vec<Option<Vec<char>>> = Vec::new();
    for j in 0..8usize
        invariant
            found@.len() == j,
            forall|k: int| 0 <= k < j ==> #[trigger] opt_view(found@[k]) == None::<Seq<char>>,
    {
        found.push(None);
    }
    for i in 0..ls.len()
        invariant
            ls@.len() == lv.len(),
            forall|k: int| 0 <= k < ls@.len() ==> #[trigger] ls@[k]@ == lv[k],
            keys == saved_keys(),
            found@.len() == 8,
            forall|k: int| 0 <= k < 8 ==> #[trigger] opt_view(found@[k]) == last_value(
                lv.take(i as int),
                keys[k],
            ),
    {
        let line = &ls[i];
        let e = find_char(line, '=');
        proof {
            lemma_index_of(line@, '=');
            assert(line@ == lv[i as int]);
        }
        if e < line.len() {
            let key = subvec(line, 0, e);
            let value = subvec(line, e + 1, line.len());
            assert(key@ =~= line@.take(e as int));
            assert(value@ =~= line@.skip(e + 1));
            for j in 0..8usize
                invariant
                    0 <= i < lv.len(),
                    keys == saved_keys(),
                    line@ == lv[i as int],
                    split_once_eq(line@) == Some((key@, value@)),
                    found@.len() == 8,
                    forall|k: int|
                        0 <= k < j ==> #[trigger] opt_view(found@[k]) == last_value(
                            lv.take(i + 1),
                            keys[k],
                        ),
                    forall|k: int|
                        j <= k < 8 ==> #[trigger] opt_view(found@[k]) == last_value(
                            lv.take(i as int),
                            keys[k],
                        ),
            {
                proof {
                    lemma_last_value_step(lv, i as int, keys[j as int]);
                }
                let k = chars_of(saved_key(j));
                if chars_eq(&key, &k) {
                    found.set(j, Some(subvec(&value, 0, value.len())));
                    assert(value@.subrange(0, value@.len() as int) =~= value@);
                }
            }
        } else {
            proof {
                assert forall|k: int| 0 <= k < 8 implies #[trigger] opt_view(found@[k])
                    == last_value(lv.take(i + 1), keys[k]) by {
                    lemma_last_value_step(lv, i as int, keys[k]);
                }
            }
        }
    }
    assert(lv.take(ls.len() as int) =~= lv);
    SavedVm {
        node_ip: text_of(&found[0]),
        vm_name: text_of(&found[1]),
        memory_mb: number_of(&found[2], 2048),
        cpus: number_of(&found[3], 2),
        disk_path: text_of(&found[4]),
        seed_iso: text_of(&found[5]),
        disk_name: text_of(&found[6]),
        mac: text_of(&found[7]),
    }
}

// ---------------------------------------------------------------------------
// Writing then reading
// ---------------------------------------------------------------------------

/// A field that stays on its line: no line break in it, and no carriage
/// return at its end (reading takes that for half of a `\r\n`).
pub open spec fn one_line(s: Seq<char>) -> bool {
    !has_char(s, '\n') && !(s.len() > 0 && s.last() == '\r')
}

proof fn lemma_lines_terminated(ls: Seq<Seq<char>>)
    requires
        forall|i: int| 0 <= i < ls.len() ==> one_line(#[trigger] ls[i]),
    ensures
        lines(terminated(ls)) == ls,
    decreases ls.len(),
{
    if ls.len() == 0 {
        assert(terminated(ls) =~= Seq::<char>::empty());
        assert(lines(terminated(ls)) =~= ls);
    } else {
        let l = ls[0];
        assert(one_line(l));
        let tail = ls.drop_first();
        let rest = terminated(tail);
        let s = terminated(ls);
        assert(s == l + seq!['\n'] + rest);
        assert forall|k: int| 0 <= k < l.len() implies s[k] != '\n' by {
            assert(s[k] == l[k]);
        }
        assert(s[l.len() as int] == '\n');
        lemma_index_of_at(s, '\n', l.len() as int);
        assert(s.take(l.len() as int) =~= l);
        assert(s.skip(l.len() + 1 as int) =~= rest);
        assert forall|i: int| 0 <= i < tail.len() implies one_line(#[trigger] tail[i]) by {
            assert(tail[i] == ls[i + 1]);
        }
        lemma_lines_terminated(tail);
        assert(strip_cr(l) == l);
        assert(lines(s) =~= seq![l] + tail);
        assert(ls =~= seq![l] + tail);
    }
}

proof fn lemma_split_entry(k: Seq<char>, v: Seq<char>)
    requires
        !has_char(k, '='),
    ensures
        split_once_eq(entry(k, v)) == Some((k, v)),
{
    let e = entry(k, v);
    assert forall|j: int| 0 <= j < k.len() implies e[j] != '=' by {
        assert(e[j] == k[j]);
    }
    lemma_index_of_at(e, '=', k.len() as int);
    assert(e.take(k.len() as int) =~= k);
    assert(e.skip(k.len() + 1 as int) =~= v);
}

proof fn lemma_last_value_entries(ks: Seq<Seq<char>>, vs: Seq<Seq<char>>, j: int)
    requires
        ks.len() == vs.len(),
        0 <= j < ks.len(),
        forall|i: int| 0 <= i < ks.len() ==> !has_char(#[trigger] ks[i], '='),
        forall|i: int| j < i < ks.len() ==> #[trigger] ks[i] != ks[j],
    ensures
        last_value(entries(ks, vs), ks[j]) == Some(vs[j]),
    decreases ks.len(),
{
    let n = ks.len() - 1;
    let es = entries(ks, vs);
    assert(!has_char(ks[n], '='));
    lemma_split_entry(ks[n], vs[n]);
    assert(es.last() == entry(ks[n], vs[n]));
    if j < n {
        assert(ks[n] != ks[j]);
        assert(es.drop_last() =~= entries(ks.drop_last(), vs.drop_last()));
        assert forall|i: int| 0 <= i < ks.drop_last().len() implies !has_char(
            #[trigger] ks.drop_last()[i],
            '=',
        ) by {
            assert(ks.drop_last()[i] == ks[i]);
        }
        assert forall|i: int| j < i < ks.drop_last().len() implies #[trigger] ks.drop_last()[i]
            != ks.drop_last()[j] by {
            assert(ks.drop_last()[i] == ks[i]);
        }
        lemma_last_value_entries(ks.drop_last(), vs.drop_last(), j);
        assert(ks.drop_last()[j] == ks[j]);
        assert(vs.drop_last()[j] == vs[j]);
    }
}

pub(crate) proof fn lemma_decimal_one_line(n: nat)
    ensures
        one_line(decimal(n)),
{
    crate::text::lemma_decimal_digits(n);
    let d = decimal(n);
    assert(!has_char(d, '\n')) by {
        if has_char(d, '\n') {
            let k = choose|k: int| 0 <= k < d.len() && d[k] == '\n';
            assert(crate::text::is_digit(d[k]));
        }
    }
    assert(crate::text::is_digit(d[d.len() - 1]));
}

proof fn lemma_entry_one_line(k: Seq<char>, v: Seq<char>)
    requires
        !has_char(k, '\n'),
        one_line(v),
    ensures
        one_line(entry(k, v)),
{
    let e = entry(k, v);
    if has_char(e, '\n') {
        let i = choose|i: int| 0 <= i < e.len() && e[i] == '\n';
        if i < k.len() {
            assert(e[i] == k[i]);
        } else if i > k.len() {
            assert(e[i] == v[i - k.len() - 1]);
        }
    }
    if v.len() > 0 {
        assert(e.last() == v.last());
    }
}

/// Reading back a saved configuration gives the VM that was saved, as long
/// as each text field stays on its line.
pub proof fn lemma_saved_vm_roundtrip(c: SavedVmView)
    requires
        one_line(c.node_ip),
        one_line(c.vm_name),
        one_line(c.disk_path),
        one_line(c.seed_iso),
        one_line(c.disk_name),
        one_line(c.mac),
    ensures
        parsed_saved_vm(saved_vm_text(c)) == c,
{
    reveal_strlit("NODE_IP");
    reveal_strlit("VM_NAME");
    reveal_strlit("MEMORY_MB");
    reveal_strlit("CPUS");
    reveal_strlit("DISK_PATH");
    reveal_strlit("SEED_ISO");
    reveal_strlit("DISK_NAME");
    reveal_strlit("MAC");
    let ks = saved_keys();
    let vs = saved_values(c);
    let es = entries(ks, vs);
    assert forall|i: int| 0 <= i < ks.len() implies !has_char(#[trigger] ks[i], '=') && !has_char(
        ks[i],
        '\n',
    ) by {
        let k = ks[i];
        assert forall|j: int| 0 <= j < k.len() implies k[j] != '=' && k[j] != '\n' by {
            assert(k[j] == '_' || ('A' <= k[j] && k[j] <= 'Z'));
        }
    }
    lemma_decimal_one_line(c.memory_mb as nat);
    lemma_decimal_one_line(c.cpus as nat);
    assert forall|i: int| 0 <= i < es.len() implies one_line(#[trigger] es[i]) by {
        assert(one_line(vs[i]));
        lemma_entry_one_line(ks[i], vs[i]);
    }
    lemma_lines_terminated(es);
    assert forall|j: int| 0 <= j < 8 implies last_value(es, #[trigger] ks[j]) == Some(vs[j]) by {
        assert forall|i: int| j < i < ks.len() implies #[trigger] ks[i] != ks[j] by {
            assert(ks[i].len() != ks[j].len() || ks[i][0] != ks[j][0] || ks[i][5] != ks[j][5]);
        }
        lemma_last_value_entries(ks, vs, j);
    }
    assert(last_value(es, ks[0]) == Some(vs[0]));
    assert(last_value(es, ks[1]) == Some(vs[1]));
    assert(last_value(es, ks[2]) == Some(vs[2]));
    assert(last_value(es, ks[3]) == Some(vs[3]));
    assert(last_value(es, ks[4]) == Some(vs[4]));
    assert(last_value(es, ks[5]) == Some(vs[5]));
    assert(last_value(es, ks[6]) == Some(vs[6]));
    assert(last_value(es, ks[7]) == Some(vs[7]));
    crate::text::lemma_decimal_parses(c.memory_mb as nat, u32::MAX as nat);
    crate::text::lemma_decimal_parses(c.cpus as nat, u32::MAX as nat);
}

/// Whether the watcher can restart the VM: node address, VM name and disk
/// path must all be present.
pub open spec fn startable(c: SavedVmView) -> bool {
    c.node_ip.len() > 0 && c.vm_name.len() > 0 && c.disk_path.len() > 0
}

impl SavedVm {
    pub fn is_startable(&self) -> (r: bool)
        ensures
            r == startable(self@),
    {
        !self.node_ip.as_str().is_empty() && !self.vm_name.as_str().is_empty()
            && !self.disk_path.as_str().is_empty()
    }

    /// The seed ISO to attach, if one was saved.
    pub fn seed_path(&self) -> (r: Option<String>)
        ensures
            self@.seed_iso.len() == 0 ==> r is None,
            self@.seed_iso.len() > 0 ==> r is Some && r->0@ == self@.seed_iso,
    {
        if self.seed_iso.as_str().is_empty() {
            None
        } else {
            Some(self.seed_iso.clone())
        }
    }
}

/// Where the server keeps the saved VM of a node: `<hostname>.conf` in the
/// VM directory.
pub fn saved_vm_path(vms_dir: &str, hostname: &str) -> (r: String)
    ensures
        r@ == crate::config::join_path(vms_dir@, hostname@ + ".conf"@),
{
    let mut v = chars_of(hostname);
    crate::text::push_str(&mut v, ".conf");
    crate::config::join_path_str(vms_dir, string_of(&v).as_str())
}

} // verus!
