//! The node registry (`config.toml`) and the locations of the files that
//! the tool keeps under its data directory.
use vstd::prelude::*;
use crate::text::{chars_eq, chars_of, push_str, string_of};

verus! {

/// Settings of the PXE server.
#[derive(Debug)]
pub struct ServerConfig {
    pub port: u16,
    pub alpine_version: String,
    pub initialized: bool,
}

/// A registered physical node.
#[derive(Debug)]
pub struct Node {
    pub hostname: String,
    pub ip: String,
    pub mac: String,
}

/// The whole registry.
#[derive(Debug)]
pub struct Config {
    pub server: ServerConfig,
    pub nodes: Vec<Node>,
}

pub struct ServerView {
    pub port: u16,
    pub alpine_version: Seq<char>,
    pub initialized: bool,
}

pub struct NodeView {
    pub hostname: Seq<char>,
    pub ip: Seq<char>,
    pub mac: Seq<char>,
}

pub struct ConfigView {
    pub server: ServerView,
    pub nodes: Seq<NodeView>,
}

impl View for ServerConfig {
    type V = ServerView;

    open spec fn view(&self) -> ServerView {
        ServerView {
            port: self.port,
            alpine_version: self.alpine_version@,
            initialized: self.initialized,
        }
    }
}

impl View for Node {
    type V = NodeView;

    open spec fn view(&self) -> NodeView {
        NodeView { hostname: self.hostname@, ip: self.ip@, mac: self.mac@ }
    }
}

/// The views of a list of nodes.
pub open spec fn node_views(ns: Seq<Node>) -> Seq<NodeView> {
    ns.map_values(|n: Node| n@)
}

impl View for Config {
    type V = ConfigView;

    open spec fn view(&self) -> ConfigView {
        ConfigView { server: self.server@, nodes: node_views(self.nodes@) }
    }
}

/// Why a registry operation was refused.
#[derive(Debug)]
pub enum ConfigError {
    /// `add_node` with a hostname that is registered already.
    NodeAlreadyExists { hostname: String },
    /// `remove_node` with a hostname that is not registered.
    NodeNotFound { hostname: String },
}

impl ConfigError {
    /// The message the command line prints for this error.
    pub fn message(&self) -> (s: String)
        ensures
            s@ == match self {
                ConfigError::NodeAlreadyExists { hostname } => "Node '"@ + hostname@
                    + "' already exists"@,
                ConfigError::NodeNotFound { hostname } => "Node '"@ + hostname@ + "' not found"@,
            },
    {
        let mut v: Vec<char> = Vec::new();
        push_str(&mut v, "Node '");
        match self {
            ConfigError::NodeAlreadyExists { hostname } => {
                push_str(&mut v, hostname.as_str());
                push_str(&mut v, "' already exists");
            },
            ConfigError::NodeNotFound { hostname } => {
                push_str(&mut v, hostname.as_str());
                push_str(&mut v, "' not found");
            },
        }
        string_of(&v)
    }
}

// ---------------------------------------------------------------------------
// The registry as a sequence of nodes
// ---------------------------------------------------------------------------

/// Some node in `ns` has hostname `h`.
pub open spec fn has_host(ns: Seq<NodeView>, h: Seq<char>) -> bool {
    exists|i: int| 0 <= i < ns.len() && #[trigger] ns[i].hostname == h
}

/// The first node of `ns` with hostname `h`.
pub open spec fn find_node(ns: Seq<NodeView>, h: Seq<char>) -> Option<NodeView>
    decreases ns.len(),
{
    if ns.len() == 0 {
        None
    } else if ns[0].hostname == h {
        Some(ns[0])
    } else {
        find_node(ns.drop_first(), h)
    }
}

/// `ns` without the nodes whose hostname is `h`, in the same order.
pub open spec fn without_host(ns: Seq<NodeView>, h: Seq<char>) -> Seq<NodeView>
    decreases ns.len(),
{
    if ns.len() == 0 {
        seq![]
    } else if ns.last().hostname == h {
        without_host(ns.drop_last(), h)
    } else {
        without_host(ns.drop_last(), h).push(ns.last())
    }
}

/// No two nodes of `ns` share a hostname.
pub open spec fn unique_hosts(ns: Seq<NodeView>) -> bool {
    forall|i: int, j: int|
        0 <= i < ns.len() && 0 <= j < ns.len() && i != j ==> #[trigger] ns[i].hostname
            != #[trigger] ns[j].hostname
}

/// The node that `add_node` appends.
pub open spec fn new_node(h: Seq<char>, ip: Seq<char>, mac: Seq<char>) -> NodeView {
    NodeView { hostname: h, ip, mac }
}

fn copy_string(s: &String) -> (r: String)
    ensures
        r@ == s@,
{
    s.clone()
}

fn is_host(n: &Node, h: &Vec<char>) -> (r: bool)
    ensures
        r == (n@.hostname == h@),
{
    let nh = chars_of(n.hostname.as_str());
    chars_eq(&nh, h)
}

impl Config {
    /// The registry of a fresh installation: port 8080, Alpine 3.21, not
    /// initialized, no nodes.
    pub fn new_default() -> (c: Config)
        ensures
            c@.server.port == 8080,
            c@.server.alpine_version == "3.21"@,
            !c@.server.initialized,
            c@.nodes.len() == 0,
    {
        Config {
            server: ServerConfig {
                port: 8080,
                alpine_version: String::from_str("3.21"),
                initialized: false,
            },
            nodes: Vec::new(),
        }
    }

    /// Registers a node. Refused when a node with this hostname exists.
    pub fn add_node(&mut self, hostname: &str, ip: &str, mac: &str) -> (r: Result<(), ConfigError>)
        ensures
            has_host(old(self)@.nodes, hostname@) ==> (r matches Err(
                ConfigError::NodeAlreadyExists { hostname: h },
            ) && h@ == hostname@ && final(self)@ == old(self)@),
            !has_host(old(self)@.nodes, hostname@) ==> (r is Ok && final(self)@.server == old(
                self,
            )@.server && final(self)@.nodes == old(self)@.nodes.push(
                new_node(hostname@, ip@, mac@),
            )),
    {
        let h = chars_of(hostname);
        for i in 0..self.nodes.len()
            invariant
                h@ == hostname@,
                forall|k: int| 0 <= k < i ==> (#[trigger] self@.nodes[k]).hostname != hostname@,
        {
            if is_host(&self.nodes[i], &h) {
                assert(self@.nodes[i as int].hostname == hostname@);
                return Err(ConfigError::NodeAlreadyExists { hostname: String::from_str(hostname) });
            }
        }
        let ghost before = self.nodes@;
        self.nodes.push(
            Node {
                hostname: String::from_str(hostname),
                ip: String::from_str(ip),
                mac: String::from_str(mac),
            },
        );
        assert(node_views(self.nodes@) =~= node_views(before).push(new_node(hostname@, ip@, mac@)));
        Ok(())
    }

    /// Unregisters every node with this hostname. Refused, with the registry
    /// unchanged, when there is none.
    pub fn remove_node(&mut self, hostname: &str) -> (r: Result<(), ConfigError>)
        ensures
            !has_host(old(self)@.nodes, hostname@) ==> (r matches Err(
                ConfigError::NodeNotFound { hostname: h },
            ) && h@ == hostname@ && final(self)@ == old(self)@),
            has_host(old(self)@.nodes, hostname@) ==> (r is Ok && final(self)@.server == old(
                self,
            )@.server && final(self)@.nodes == without_host(old(self)@.nodes, hostname@)),
    {
        let h = chars_of(hostname);
        let ghost ns = self@.nodes;
        let mut kept: Vec<Node> = Vec::new();
        let mut removed = false;
        let n = self.nodes.len();
        for i in 0..n
            invariant
                h@ == hostname@,
                n == self.nodes.len(),
                ns == self@.nodes,
                node_views(kept@) == without_host(ns.take(i as int), hostname@),
                removed == has_host(ns.take(i as int), hostname@),
        {
            let node = &self.nodes[i];
            assert(ns.take(i + 1).drop_last() =~= ns.take(i as int));
            assert(ns.take(i + 1).last() == node@);
            if is_host(node, &h) {
                removed = true;
                assert(ns.take(i + 1)[i as int].hostname == hostname@);
            } else {
                let ghost kv = kept@;
                kept.push(
                    Node {
                        hostname: copy_string(&node.hostname),
                        ip: copy_string(&node.ip),
                        mac: copy_string(&node.mac),
                    },
                );
                assert(node_views(kept@) =~= node_views(kv).push(node@));
                assert(has_host(ns.take(i + 1), hostname@) ==> has_host(ns.take(i as int), hostname@))
                    by {
                    if has_host(ns.take(i + 1), hostname@) {
                        let k = choose|k: int|
                            0 <= k < i + 1 && #[trigger] ns.take(i + 1)[k].hostname == hostname@;
                        assert(k < i);
                        assert(ns.take(i as int)[k].hostname == hostname@);
                    }
                }
            }
            assert(has_host(ns.take(i as int), hostname@) ==> has_host(ns.take(i + 1), hostname@))
                by {
                if has_host(ns.take(i as int), hostname@) {
                    let k = choose|k: int|
                        0 <= k < i && #[trigger] ns.take(i as int)[k].hostname == hostname@;
                    assert(ns.take(i + 1)[k].hostname == hostname@);
                }
            }
        }
        assert(ns.take(n as int) =~= ns);
        if !removed {
            return Err(ConfigError::NodeNotFound { hostname: String::from_str(hostname) });
        }
        self.nodes = kept;
        Ok(())
    }

    /// The first registered node with this hostname.
    pub fn get_node(&self, hostname: &str) -> (r: Option<&Node>)
        ensures
            match r {
                Some(n) => find_node(self@.nodes, hostname@) == Some(n@),
                None => find_node(self@.nodes, hostname@) is None,
            },
    {
        let h = chars_of(hostname);
        let ghost ns = self@.nodes;
        assert(ns.skip(0) =~= ns);
        for i in 0..self.nodes.len()
            invariant
                h@ == hostname@,
                ns == self@.nodes,
                find_node(ns.skip(i as int), hostname@) == find_node(ns, hostname@),
        {
            assert(ns.skip(i as int).drop_first() =~= ns.skip(i + 1));
            assert(ns.skip(i as int)[0] == self.nodes@[i as int]@);
            if is_host(&self.nodes[i], &h) {
                return Some(&self.nodes[i]);
            }
        }
        None
    }
}

impl Default for Config {
    fn default() -> (c: Config)
        ensures
            c@.server.port == 8080,
            c@.server.alpine_version == "3.21"@,
            !c@.server.initialized,
            c@.nodes.len() == 0,
    {
        Config::new_default()
    }
}

// ---------------------------------------------------------------------------
// File locations
// ---------------------------------------------------------------------------

/// `PathBuf::join` of a relative `name` onto `base`: a separator goes
/// between them unless `base` is empty or already ends with one.
pub open spec fn join_path(base: Seq<char>, name: Seq<char>) -> Seq<char> {
    if base.len() == 0 {
        name
    } else if base.last() == '/' {
        base + name
    } else {
        base + seq!['/'] + name
    }
}

/// Joins the relative `name` onto `base`.
pub fn join_path_str(base: &str, name: &str) -> (r: String)
    ensures
        r@ == join_path(base@, name@),
{
    let mut v = chars_of(base);
    if v.len() > 0 && v[v.len() - 1] != '/' {
        v.push('/');
    }
    push_str(&mut v, name);
    string_of(&v)
}

/// The data directory for a user: `/home/<user>/cave` when the tool runs
/// under sudo for `user`, else `cave` under the home directory.
pub open spec fn cave_dir_spec(sudo_user: Option<Seq<char>>, home: Option<Seq<char>>) -> Option<
    Seq<char>,
> {
    match sudo_user {
        Some(u) => Some("/home/"@ + u + "/cave"@),
        None => match home {
            Some(h) => Some(join_path(h, "cave"@)),
            None => None,
        },
    }
}

pub open spec fn opt_view(o: Option<&str>) -> Option<Seq<char>> {
    match o {
        Some(s) => Some(s@),
        None => None,
    }
}

impl Config {
    /// The data directory, from the `SUDO_USER` variable and the home
    /// directory; `None` when neither is known.
    pub fn cave_dir(sudo_user: Option<&str>, home: Option<&str>) -> (r: Option<String>)
        ensures
            match r {
                Some(d) => cave_dir_spec(opt_view(sudo_user), opt_view(home)) == Some(d@),
                None => cave_dir_spec(opt_view(sudo_user), opt_view(home)) is None,
            },
    {
        match sudo_user {
            Some(u) => {
                let mut v: Vec<char> = Vec::new();
                push_str(&mut v, "/home/");
                push_str(&mut v, u);
                push_str(&mut v, "/cave");
                Some(string_of(&v))
            },
            None => match home {
                Some(h) => Some(join_path_str(h, "cave")),
                None => None,
            },
        }
    }

    /// `config.toml` in the data directory.
    pub fn config_path(cave_dir: &str) -> (r: String)
        ensures
            r@ == join_path(cave_dir@, "config.toml"@),
    {
        join_path_str(cave_dir, "config.toml")
    }

    /// `images` in the data directory.
    pub fn images_dir(cave_dir: &str) -> (r: String)
        ensures
            r@ == join_path(cave_dir@, "images"@),
    {
        join_path_str(cave_dir, "images")
    }

    /// `alpine` in the data directory.
    pub fn alpine_dir(cave_dir: &str) -> (r: String)
        ensures
            r@ == join_path(cave_dir@, "alpine"@),
    {
        join_path_str(cave_dir, "alpine")
    }

    /// `ssh` in the data directory.
    pub fn ssh_dir(cave_dir: &str) -> (r: String)
        ensures
            r@ == join_path(cave_dir@, "ssh"@),
    {
        join_path_str(cave_dir, "ssh")
    }

    /// The private key `ssh/cave`.
    pub fn ssh_private_key(cave_dir: &str) -> (r: String)
        ensures
            r@ == join_path(join_path(cave_dir@, "ssh"@), "cave"@),
    {
        let d = Config::ssh_dir(cave_dir);
        join_path_str(d.as_str(), "cave")
    }

    /// The public key `ssh/cave.pub`.
    pub fn ssh_public_key(cave_dir: &str) -> (r: String)
        ensures
            r@ == join_path(join_path(cave_dir@, "ssh"@), "cave.pub"@),
    {
        let d = Config::ssh_dir(cave_dir);
        join_path_str(d.as_str(), "cave.pub")
    }

    /// The PID file of the running server.
    pub fn pixiecore_pid_file(cave_dir: &str) -> (r: String)
        ensures
            r@ == join_path(cave_dir@, "pixiecore.pid"@),
    {
        join_path_str(cave_dir, "pixiecore.pid")
    }

    /// The server's log file.
    pub fn server_log_file(cave_dir: &str) -> (r: String)
        ensures
            r@ == join_path(cave_dir@, "server.log"@),
    {
        join_path_str(cave_dir, "server.log")
    }

    /// `vms` in the data directory: one saved VM configuration per node.
    pub fn vms_dir(cave_dir: &str) -> (r: String)
        ensures
            r@ == join_path(cave_dir@, "vms"@),
    {
        join_path_str(cave_dir, "vms")
    }
}

// ---------------------------------------------------------------------------
// Laws of the registry
// ---------------------------------------------------------------------------

/// A lookup finds a node exactly when one is registered under the
/// hostname, and what it finds carries that hostname.
pub proof fn lemma_find_node_member(ns: Seq<NodeView>, h: Seq<char>)
    ensures
        find_node(ns, h) is Some <==> has_host(ns, h),
        find_node(ns, h) matches Some(n) ==> n.hostname == h && ns.contains(n),
    decreases ns.len(),
{
    if ns.len() > 0 {
        lemma_find_node_member(ns.drop_first(), h);
        if ns[0].hostname != h {
            if has_host(ns, h) {
                let k = choose|k: int| 0 <= k < ns.len() && #[trigger] ns[k].hostname == h;
                assert(ns.drop_first()[k - 1].hostname == h);
            }
            if has_host(ns.drop_first(), h) {
                let k = choose|k: int|
                    0 <= k < ns.drop_first().len() && #[trigger] ns.drop_first()[k].hostname == h;
                assert(ns[k + 1].hostname == h);
            }
            match find_node(ns, h) {
                Some(n) => {
                    let k = choose|k: int|
                        0 <= k < ns.drop_first().len() && ns.drop_first()[k] == n;
                    assert(ns[k + 1] == n);
                },
                None => {},
            }
        } else {
            assert(ns[0].hostname == h);
            assert(ns.contains(ns[0]));
        }
    }
}

/// The first node with hostname `h` is unaffected by appending a node
/// with another hostname, or by appending anything when `h` is present.
proof fn lemma_find_push(ns: Seq<NodeView>, n: NodeView, h: Seq<char>)
    ensures
        has_host(ns, h) ==> find_node(ns.push(n), h) == find_node(ns, h),
        !has_host(ns, h) ==> find_node(ns.push(n), h) == (if n.hostname == h {
            Some(n)
        } else {
            None::<NodeView>
        }),
    decreases ns.len(),
{
    lemma_find_node_member(ns, h);
    if ns.len() == 0 {
        assert(ns.push(n).drop_first() =~= Seq::<NodeView>::empty());
    } else {
        assert(ns.push(n).drop_first() =~= ns.drop_first().push(n));
        lemma_find_push(ns.drop_first(), n, h);
        if ns[0].hostname != h {
            if has_host(ns, h) {
                let k = choose|k: int| 0 <= k < ns.len() && #[trigger] ns[k].hostname == h;
                assert(ns.drop_first()[k - 1].hostname == h);
            }
            if has_host(ns.drop_first(), h) {
                let k = choose|k: int|
                    0 <= k < ns.drop_first().len() && #[trigger] ns.drop_first()[k].hostname == h;
                assert(ns[k + 1].hostname == h);
            }
        }
    }
}

/// After a successful `add_node`, looking the hostname up gives the node
/// that was added.
pub proof fn lemma_add_then_get(ns: Seq<NodeView>, h: Seq<char>, ip: Seq<char>, mac: Seq<char>)
    requires
        !has_host(ns, h),
    ensures
        find_node(ns.push(new_node(h, ip, mac)), h) == Some(new_node(h, ip, mac)),
{
    lemma_find_push(ns, new_node(h, ip, mac), h);
}

/// Adding a node never changes what another hostname looks up to.
pub proof fn lemma_add_keeps_others(
    ns: Seq<NodeView>,
    h: Seq<char>,
    ip: Seq<char>,
    mac: Seq<char>,
    other: Seq<char>,
)
    requires
        !has_host(ns, h),
        other != h,
    ensures
        find_node(ns.push(new_node(h, ip, mac)), other) == find_node(ns, other),
{
    lemma_find_push(ns, new_node(h, ip, mac), other);
    lemma_find_node_member(ns, other);
}

/// The nodes `without_host` keeps are exactly those of `ns` with another
/// hostname.
pub proof fn lemma_without_host_members(ns: Seq<NodeView>, h: Seq<char>)
    ensures
        forall|n: NodeView|
            #![trigger without_host(ns, h).contains(n)]
            #![trigger ns.contains(n)]
            without_host(ns, h).contains(n) <==> (ns.contains(n) && n.hostname != h),
        without_host(ns, h).len() <= ns.len(),
    decreases ns.len(),
{
    if ns.len() > 0 {
        let init = ns.drop_last();
        lemma_without_host_members(init, h);
        assert forall|n: NodeView| without_host(ns, h).contains(n) <==> (ns.contains(n) && n.hostname
            != h) by {
            if ns.contains(n) && n.hostname != h {
                let k = choose|k: int| 0 <= k < ns.len() && ns[k] == n;
                if k < ns.len() - 1 {
                    assert(init[k] == n);
                    assert(init.contains(n));
                    assert(without_host(init, h).contains(n));
                    let j = choose|j: int|
                        0 <= j < without_host(init, h).len() && without_host(init, h)[j] == n;
                    if ns.last().hostname != h {
                        assert(without_host(ns, h)[j] == n);
                    }
                } else {
                    assert(without_host(ns, h) == without_host(init, h).push(ns.last()));
                    assert(without_host(ns, h)[without_host(init, h).len() as int] == n);
                }
            }
            if without_host(ns, h).contains(n) {
                if ns.last().hostname == h {
                    assert(without_host(init, h).contains(n));
                    assert(init.contains(n));
                    let k = choose|k: int| 0 <= k < init.len() && init[k] == n;
                    assert(ns[k] == n);
                } else {
                    let w = without_host(init, h);
                    let k = choose|k: int| 0 <= k < w.push(ns.last()).len() && w.push(ns.last())[k]
                        == n;
                    if k < w.len() {
                        assert(w[k] == n);
                        assert(w.contains(n));
                        assert(init.contains(n));
                        let j = choose|j: int| 0 <= j < init.len() && init[j] == n;
                        assert(ns[j] == n);
                    } else {
                        assert(ns[ns.len() - 1] == n);
                    }
                }
            }
        }
    }
}

/// After `remove_node` the hostname is gone: no node carries it and a
/// lookup finds nothing.
pub proof fn lemma_remove_then_absent(ns: Seq<NodeView>, h: Seq<char>)
    ensures
        !has_host(without_host(ns, h), h),
        find_node(without_host(ns, h), h) is None,
{
    lemma_without_host_members(ns, h);
    let w = without_host(ns, h);
    if has_host(w, h) {
        let k = choose|k: int| 0 <= k < w.len() && #[trigger] w[k].hostname == h;
        assert(w.contains(w[k]));
    }
    lemma_find_node_member(w, h);
}

/// Removing a hostname that was just added gives back the registry as it
/// was before the addition.
pub proof fn lemma_add_then_remove(ns: Seq<NodeView>, h: Seq<char>, ip: Seq<char>, mac: Seq<char>)
    requires
        !has_host(ns, h),
    ensures
        without_host(ns.push(new_node(h, ip, mac)), h) == ns,
{
    lemma_without_absent(ns, h);
    assert(ns.push(new_node(h, ip, mac)).drop_last() =~= ns);
}

/// Removing an absent hostname changes nothing.
pub proof fn lemma_without_absent(ns: Seq<NodeView>, h: Seq<char>)
    requires
        !has_host(ns, h),
    ensures
        without_host(ns, h) == ns,
    decreases ns.len(),
{
    if ns.len() > 0 {
        let init = ns.drop_last();
        if has_host(init, h) {
            let k = choose|k: int| 0 <= k < init.len() && #[trigger] init[k].hostname == h;
            assert(ns[k].hostname == h);
        }
        lemma_without_absent(init, h);
        assert(ns[ns.len() - 1].hostname != h);
        assert(init.push(ns.last()) =~= ns);
    }
}

/// Adding a node under a new hostname keeps hostnames unique.
pub proof fn lemma_add_keeps_unique(ns: Seq<NodeView>, h: Seq<char>, ip: Seq<char>, mac: Seq<char>)
    requires
        unique_hosts(ns),
        !has_host(ns, h),
    ensures
        unique_hosts(ns.push(new_node(h, ip, mac))),
{
    let ms = ns.push(new_node(h, ip, mac));
    assert forall|i: int, j: int|
        0 <= i < ms.len() && 0 <= j < ms.len() && i != j implies #[trigger] ms[i].hostname
        != #[trigger] ms[j].hostname by {
        if i < ns.len() && j < ns.len() {
            assert(ms[i] == ns[i] && ms[j] == ns[j]);
        } else if i < ns.len() {
            assert(ms[i] == ns[i]);
        } else {
            assert(ms[j] == ns[j]);
        }
    }
}

/// The order-preserving removal keeps hostnames unique.
pub proof fn lemma_remove_keeps_unique(ns: Seq<NodeView>, h: Seq<char>)
    requires
        unique_hosts(ns),
    ensures
        unique_hosts(without_host(ns, h)),
    decreases ns.len(),
{
    if ns.len() > 0 {
        let init = ns.drop_last();
        assert(unique_hosts(init)) by {
            assert forall|i: int, j: int|
                0 <= i < init.len() && 0 <= j < init.len() && i != j implies #[trigger] init[i].hostname
                != #[trigger] init[j].hostname by {
                assert(init[i] == ns[i] && init[j] == ns[j]);
            }
        }
        lemma_remove_keeps_unique(init, h);
        if ns.last().hostname != h {
            let w = without_host(init, h);
            lemma_without_host_members(init, h);
            assert forall|i: int| 0 <= i < w.len() implies #[trigger] w[i].hostname != ns.last().hostname by {
                assert(w.contains(w[i]));
                assert(init.contains(w[i]));
                let k = choose|k: int| 0 <= k < init.len() && init[k] == w[i];
                assert(ns[k] == w[i]);
            }
            let ws = w.push(ns.last());
            assert forall|i: int, j: int|
                0 <= i < ws.len() && 0 <= j < ws.len() && i != j implies #[trigger] ws[i].hostname
                != #[trigger] ws[j].hostname by {
                if i < w.len() && j < w.len() {
                    assert(ws[i] == w[i] && ws[j] == w[j]);
                } else if i < w.len() {
                    assert(ws[i] == w[i]);
                } else {
                    assert(ws[j] == w[j]);
                }
            }
        }
    }
}

} // verus!
