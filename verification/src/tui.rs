//! The dashboard's state and how it answers keys and the passing of time.
//! The terminal, the clock and the commands it starts stay outside: they
//! hand in keys, the time in milliseconds and the outcomes of commands,
//! and receive the effect each step asks for.
use vstd::prelude::*;
use crate::images::{
    cloud_filter, cloud_images, catalogue, dashboard_image, display_name, get_image_display_name,
    image_views, is_dashboard_image, CloudImage, CloudImageView,
};
use crate::order::{lemma_insert_pos_by_at, lex_le, lex_le_chars, sorted_by};
use crate::text::{chars_eq, chars_of, parse_u32, parse_unsigned};
use crate::poll::{CachedDisk, CachedNode};
use crate::text::{
    char_is_alphanumeric, drop_last_char, first_line, first_line_exec, is_alphanumeric,
    matches_lower, matches_lower_exec, push_str, string_of, string_push,
};

verus! {

/// The screens of the dashboard.
#[derive(Debug, Clone, Copy, PartialEq, Eq, Structural)]
pub enum Screen {
    Dashboard,
    NodeDetails,
    Images,
    ImageDownload,
    Help,
}

/// A key press, as far as the dashboard tells keys apart.
#[derive(Debug, Clone, Copy, PartialEq, Eq, Structural)]
pub enum Key {
    Char(char),
    Up,
    Down,
    Enter,
    Esc,
    Backspace,
    Other,
}

/// A local image file.
#[derive(Debug)]
pub struct ImageInfo {
    pub filename: String,
    pub display_name: String,
    pub size: u64,
}

pub struct ImageInfoView {
    pub filename: Seq<char>,
    pub display_name: Seq<char>,
    pub size: u64,
}

impl View for ImageInfo {
    type V = ImageInfoView;

    open spec fn view(&self) -> ImageInfoView {
        ImageInfoView { filename: self.filename@, display_name: self.display_name@, size: self.size }
    }
}

pub open spec fn info_views(s: Seq<ImageInfo>) -> Seq<ImageInfoView> {
    s.map_values(|i: ImageInfo| i@)
}

/// The image of a directory entry (file name and size), as the dashboard
/// shows it.
pub open spec fn image_info_of(p: (String, u64)) -> ImageInfoView {
    ImageInfoView { filename: p.0@, display_name: display_name(catalogue(), p.0@), size: p.1 }
}

/// The dashboard orders its images by display name.
pub open spec fn by_display_name() -> spec_fn(ImageInfoView) -> Seq<char> {
    |v: ImageInfoView| v.display_name
}

/// The dashboard's images of a directory's files (name and size): no
/// seeds and no `.cave.` files, each with its display name, ordered by
/// display name.
pub open spec fn dashboard_list(entries: Seq<(String, u64)>) -> Seq<ImageInfoView> {
    sorted_by(
        entries.filter(|p: (String, u64)| dashboard_image(p.0@)).map_values(
            |p: (String, u64)| image_info_of(p),
        ),
        by_display_name(),
    )
}

pub fn dashboard_images(entries: Vec<(String, u64)>) -> (r: Vec<ImageInfo>)
    ensures
        info_views(r@) == dashboard_list(entries@),
{
    let ghost input = entries@;
    let ghost keep = |p: (String, u64)| dashboard_image(p.0@);
    let ghost to_info = |p: (String, u64)| image_info_of(p);
    let ghost n = entries@.len();
    let mut infos: Vec<ImageInfo> = Vec::new();
    for d in it: entries.into_iter()
        invariant
            it.seq() == input,
            n == input.len(),
            keep == (|p: (String, u64)| dashboard_image(p.0@)),
            to_info == (|p: (String, u64)| image_info_of(p)),
            info_views(infos@) == input.take(it.index() as int).filter(keep).map_values(to_info),
    {
        let ghost i = it.index();
        proof {
            assert(input.take(i + 1).drop_last() =~= input.take(i as int));
            assert(input.take(i + 1).last() == d);
            reveal(Seq::filter);
        }
        if is_dashboard_image(d.0.as_str()) {
            let ghost before = info_views(infos@);
            let shown = get_image_display_name(d.0.as_str());
            infos.push(ImageInfo { filename: d.0, display_name: shown, size: d.1 });
            assert(info_views(infos@) =~= before.push(image_info_of(d)));
            assert(input.take(i + 1).filter(keep) == input.take(i as int).filter(keep).push(d));
            assert(input.take(i + 1).filter(keep).map_values(to_info) =~= input.take(i as int).filter(
                keep,
            ).map_values(to_info).push(image_info_of(d)));
        }
    }
    assert(input.take(n as int) =~= input);
    let ghost all = info_views(infos@);
    let ghost key = by_display_name();
    let ghost m = infos@.len();
    let mut out: Vec<ImageInfo> = Vec::new();
    for d in it: infos.into_iter()
        invariant
            all == info_views(it.seq()),
            m == it.seq().len(),
            key == by_display_name(),
            info_views(out@) == sorted_by(all.take(it.index() as int), key),
    {
        let ghost i = it.index();
        let name = chars_of(d.display_name.as_str());
        let mut p: usize = 0;
        while p < out.len() && lex_le_chars(&chars_of(out[p].display_name.as_str()), &name)
            invariant
                p <= out.len(),
                key == by_display_name(),
                name@ == d.display_name@,
                forall|k: int| 0 <= k < p ==> lex_le(key(#[trigger] out@[k]@), key(d@)),
            decreases out.len() - p,
        {
            p = p + 1;
        }
        let ghost before = info_views(out@);
        proof {
            assert forall|k: int| 0 <= k < p implies lex_le(key(#[trigger] before[k]), key(d@)) by {
                assert(before[k] == out@[k]@);
            }
            if p < out.len() {
                assert(before[p as int] == out@[p as int]@);
            }
            lemma_insert_pos_by_at(before, d@, key, p as int);
            assert(all.take(i + 1).drop_last() =~= all.take(i as int));
            assert(all.take(i + 1).last() == d@);
        }
        out.insert(p, d);
        assert(info_views(out@) =~= before.insert(p as int, d@));
    }
    assert(all.take(m as int) =~= all);
    out
}

/// What the surrounding loop should do after a step.
#[derive(Debug)]
pub enum Effect {
    Stay,
    /// Reload nodes, images and the server state, after `delay_ms`
    /// milliseconds, and hand them to `refresh`.
    Refresh { delay_ms: u64 },
    /// Run `cave node <action> <hostname>` and hand the outcome to
    /// `node_command_finished`.
    NodeCommand { action: String, hostname: String },
    /// Run `cave image pull <url>` and hand the outcome to `pull_finished`.
    PullImage { url: String, name: String, version: String },
}

/// How a command started by the dashboard ended.
#[derive(Debug)]
pub enum CommandOutcome {
    Succeeded,
    /// It ran and failed; its standard error.
    Failed { stderr: String },
    /// It could not be started.
    NotStarted { error: String },
}

/// The actions offered on a node: (key, label, description).
pub open spec fn node_action_key(i: int) -> Seq<char> {
    if i == 0 {
        "deploy"@
    } else if i == 1 {
        "destroy"@
    } else if i == 2 {
        "wake"@
    } else if i == 3 {
        "shutdown"@
    } else if i == 4 {
        "restart"@
    } else {
        "remove"@
    }
}

/// The number of node actions.
pub const NODE_ACTION_COUNT: usize = 6;

/// The node actions, as (key, label, description).
pub fn node_actions() -> (r: Vec<(String, String, String)>)
    ensures
        r@.len() == NODE_ACTION_COUNT,
        forall|i: int| 0 <= i < r@.len() ==> #[trigger] r@[i].0@ == node_action_key(i),
{
    let mut v: Vec<(String, String, String)> = Vec::new();
    v.push((String::from_str("deploy"), String::from_str("Deploy VM"), String::from_str("Deploy a VM image to this node")));
    v.push((String::from_str("destroy"), String::from_str("Destroy VM"), String::from_str("Stop and remove the VM")));
    v.push((String::from_str("wake"), String::from_str("Wake"), String::from_str("Send Wake-on-LAN packet")));
    v.push((String::from_str("shutdown"), String::from_str("Shutdown"), String::from_str("Gracefully power off")));
    v.push((String::from_str("restart"), String::from_str("Restart"), String::from_str("Shutdown and wake")));
    v.push((String::from_str("remove"), String::from_str("Remove"), String::from_str("Unregister this node")));
    v
}

fn node_action_key_exec(i: usize) -> (r: String)
    requires
        i < NODE_ACTION_COUNT,
    ensures
        r@ == node_action_key(i as int),
{
    if i == 0 {
        String::from_str("deploy")
    } else if i == 1 {
        String::from_str("destroy")
    } else if i == 2 {
        String::from_str("wake")
    } else if i == 3 {
        String::from_str("shutdown")
    } else if i == 4 {
        String::from_str("restart")
    } else {
        String::from_str("remove")
    }
}

/// The dashboard's state.
pub struct App {
    pub running: bool,
    pub screen: Screen,
    pub nodes: Vec<CachedNode>,
    pub images: Vec<ImageInfo>,
    pub server_running: bool,
    pub selected_node_idx: usize,
    pub selected_image_idx: usize,
    pub selected_action_idx: usize,
    /// Filter of the local image list.
    pub image_search: String,
    pub image_search_active: bool,
    /// Filter of the cloud catalogue.
    pub cloud_search: String,
    pub cloud_search_idx: usize,
    /// When the data was last loaded (milliseconds).
    pub last_refresh: u64,
    /// The status line and when it was set (milliseconds).
    pub status_message: Option<(String, u64)>,
}

/// The local images matching a filter: all when it is empty, else those
/// whose lower-cased display name or file name contains the lower-cased
/// filter.
pub open spec fn image_filter(images: Seq<ImageInfoView>, search: Seq<char>) -> Seq<ImageInfoView>
    decreases images.len(),
{
    if search.len() == 0 {
        images
    } else if images.len() == 0 {
        seq![]
    } else if matches_lower(images.last().display_name, search) || matches_lower(
        images.last().filename,
        search,
    ) {
        image_filter(images.drop_last(), search).push(images.last())
    } else {
        image_filter(images.drop_last(), search)
    }
}

/// The catalogue entries offered for a filter: all when it is empty.
pub open spec fn cloud_offer(search: Seq<char>) -> Seq<CloudImageView> {
    if search.len() == 0 {
        catalogue()
    } else {
        cloud_filter(catalogue(), search)
    }
}

/// `min(i + 1, len - 1)` for a non-empty list.
pub open spec fn down(i: usize, len: nat) -> usize {
    if i + 1 <= len - 1 {
        (i + 1) as usize
    } else {
        (len - 1) as usize
    }
}

/// `i.saturating_sub(1)`.
pub open spec fn up(i: usize) -> usize {
    if i > 0 {
        (i - 1) as usize
    } else {
        0
    }
}

fn down_exec(i: usize, len: usize) -> (r: usize)
    requires
        len > 0,
    ensures
        r == down(i, len as nat),
        r < len,
{
    if i < len - 1 {
        i + 1
    } else {
        len - 1
    }
}

/// A key that runs the selected node action on the details screen.
pub open spec fn runs_action(key: Key) -> bool {
    key == Key::Enter || key == Key::Char('w') || key == Key::Char('s') || key == Key::Char('d')
}

impl App {
    /// The state's invariant: the selected action exists, and the selected
    /// catalogue entry exists or is the first.
    pub open spec fn wf(&self) -> bool {
        &&& self.selected_action_idx < NODE_ACTION_COUNT
        &&& (self.cloud_search_idx == 0 || self.cloud_search_idx < cloud_offer(self.cloud_search@).len())
    }

    /// The dashboard indexes the node list with the selection when it runs
    /// an action; a selection past the end of the list (the list shrank at
    /// a refresh) stops the program at that key.
    pub open spec fn key_faults(&self, key: Key) -> bool {
        &&& self.screen == Screen::NodeDetails
        &&& runs_action(key)
        &&& self.nodes@.len() > 0
        &&& self.selected_node_idx >= self.nodes@.len()
    }

    /// A fresh dashboard on the given data at time `now`.
    pub fn new(nodes: Vec<CachedNode>, images: Vec<ImageInfo>, server_running: bool, now: u64) -> (a: App)
        ensures
            a.wf(),
            a.running,
            a.screen == Screen::Dashboard,
            a.nodes == nodes,
            a.images == images,
            a.server_running == server_running,
            a.selected_node_idx == 0 && a.selected_image_idx == 0 && a.selected_action_idx == 0,
            a.image_search@.len() == 0 && !a.image_search_active,
            a.cloud_search@.len() == 0 && a.cloud_search_idx == 0,
            a.last_refresh == now,
            a.status_message is None,
    {
        App {
            running: true,
            screen: Screen::Dashboard,
            nodes,
            images,
            server_running,
            selected_node_idx: 0,
            selected_image_idx: 0,
            selected_action_idx: 0,
            image_search: String::new(),
            image_search_active: false,
            cloud_search: String::new(),
            cloud_search_idx: 0,
            last_refresh: now,
            status_message: None,
        }
    }

    /// Shows a status line from time `now`.
    pub fn set_status(&mut self, msg: &str, now: u64)
        ensures
            final(self).status_message matches Some((m, t)) && m@ == msg@ && t == now,
            final(self).running == old(self).running,
            final(self).screen == old(self).screen,
            final(self).nodes == old(self).nodes,
            final(self).images == old(self).images,
            final(self).server_running == old(self).server_running,
            final(self).selected_node_idx == old(self).selected_node_idx,
            final(self).selected_image_idx == old(self).selected_image_idx,
            final(self).selected_action_idx == old(self).selected_action_idx,
            final(self).image_search == old(self).image_search,
            final(self).image_search_active == old(self).image_search_active,
            final(self).cloud_search == old(self).cloud_search,
            final(self).cloud_search_idx == old(self).cloud_search_idx,
            final(self).last_refresh == old(self).last_refresh,
    {
        self.status_message = Some((String::from_str(msg), now));
    }

    /// Takes freshly loaded data at time `now`; the status line reads
    /// `Refreshed`. Selections are kept as they are.
    pub fn refresh(&mut self, nodes: Vec<CachedNode>, images: Vec<ImageInfo>, server_running: bool, now: u64)
        requires
            old(self).wf(),
        ensures
            final(self).wf(),
            final(self).nodes == nodes,
            final(self).images == images,
            final(self).server_running == server_running,
            final(self).last_refresh == now,
            final(self).status_message matches Some((m, t)) && m@ == "Refreshed"@ && t == now,
            final(self).running == old(self).running,
            final(self).screen == old(self).screen,
            final(self).selected_node_idx == old(self).selected_node_idx,
            final(self).selected_image_idx == old(self).selected_image_idx,
            final(self).selected_action_idx == old(self).selected_action_idx,
            final(self).image_search == old(self).image_search,
            final(self).image_search_active == old(self).image_search_active,
            final(self).cloud_search == old(self).cloud_search,
            final(self).cloud_search_idx == old(self).cloud_search_idx,
    {
        self.nodes = nodes;
        self.images = images;
        self.server_running = server_running;
        self.last_refresh = now;
        self.set_status("Refreshed", now);
    }

    /// The passing of time: a status line older than three seconds goes
    /// away; data older than ten seconds asks for a refresh.
    pub fn tick(&mut self, now: u64) -> (e: Effect)
        requires
            old(self).wf(),
        ensures
            final(self).wf(),
            match old(self).status_message {
                Some((m, t)) => if now - t > 3000 {
                    final(self).status_message is None
                } else {
                    final(self).status_message == old(self).status_message
                },
                None => final(self).status_message is None,
            },
            (now - old(self).last_refresh > 10000) ==> e matches Effect::Refresh { delay_ms: 0 },
            !(now - old(self).last_refresh > 10000) ==> e is Stay,
            final(self).running == old(self).running,
            final(self).screen == old(self).screen,
            final(self).nodes == old(self).nodes,
            final(self).images == old(self).images,
            final(self).selected_node_idx == old(self).selected_node_idx,
            final(self).selected_action_idx == old(self).selected_action_idx,
            final(self).cloud_search == old(self).cloud_search,
            final(self).cloud_search_idx == old(self).cloud_search_idx,
            final(self).last_refresh == old(self).last_refresh,
            final(self).selected_image_idx == old(self).selected_image_idx,
            final(self).image_search == old(self).image_search,
            final(self).image_search_active == old(self).image_search_active,
            final(self).server_running == old(self).server_running,
    {
        let expired = match &self.status_message {
            Some((_, t)) => now > *t && now - *t > 3000,
            None => false,
        };
        if expired {
            self.status_message = None;
        }
        if now > self.last_refresh && now - self.last_refresh > 10000 {
            Effect::Refresh { delay_ms: 0 }
        } else {
            Effect::Stay
        }
    }

    /// The node the selection points at, if any.
    pub fn selected_node(&self) -> (r: Option<&CachedNode>)
        ensures
            self.selected_node_idx < self.nodes@.len() ==> r == Some(&self.nodes@[self.selected_node_idx as int]),
            self.selected_node_idx >= self.nodes@.len() ==> r is None,
    {
        if self.selected_node_idx < self.nodes.len() {
            Some(&self.nodes[self.selected_node_idx])
        } else {
            None
        }
    }

    /// The local images the filter lets through, in order.
    pub fn filtered_images(&self) -> (r: Vec<&ImageInfo>)
        ensures
            r@.map_values(|i: &ImageInfo| i@) == image_filter(info_views(self.images@), self.image_search@),
    {
        let ghost all = info_views(self.images@);
        let mut out: Vec<&ImageInfo> = Vec::new();
        let empty = self.image_search.as_str().is_empty();
        for i in 0..self.images.len()
            invariant
                all == info_views(self.images@),
                empty == (self.image_search@.len() == 0),
                out@.map_values(|x: &ImageInfo| x@) == image_filter(all.take(i as int), self.image_search@),
        {
            assert(all.take(i + 1).drop_last() =~= all.take(i as int));
            assert(all.take(i + 1).last() == self.images@[i as int]@);
            let img = &self.images[i];
            let keep = empty || matches_lower_exec(img.display_name.as_str(), self.image_search.as_str())
                || matches_lower_exec(img.filename.as_str(), self.image_search.as_str());
            let ghost before = out@.map_values(|x: &ImageInfo| x@);
            if keep {
                out.push(img);
                assert(out@.map_values(|x: &ImageInfo| x@) =~= before.push(img@));
            }
            proof {
                if empty {
                    assert(image_filter(all.take(i as int), self.image_search@) == all.take(i as int));
                    assert(image_filter(all.take(i + 1), self.image_search@) == all.take(i + 1));
                    assert(all.take(i as int).push(img@) =~= all.take(i + 1));
                }
            }
        }
        assert(all.take(self.images.len() as int) =~= all);
        out
    }

    /// The catalogue entries the download filter lets through, in order.
    pub fn filtered_cloud_images(&self) -> (r: Vec<CloudImage>)
        ensures
            image_views(r@) == cloud_offer(self.cloud_search@),
    {
        if self.cloud_search.as_str().is_empty() {
            cloud_images()
        } else {
            crate::images::images_matching(self.cloud_search.as_str())
        }
    }

    fn filtered_images_len(&self) -> (n: usize)
        ensures
            n == image_filter(info_views(self.images@), self.image_search@).len(),
    {
        let f = self.filtered_images();
        assert(f@.map_values(|i: &ImageInfo| i@).len() == f@.len());
        f.len()
    }
}

// ---------------------------------------------------------------------------
// Keys
// ---------------------------------------------------------------------------

/// The state as the specification sees it.
pub struct AppView {
    pub running: bool,
    pub screen: Screen,
    pub nodes: Seq<CachedNode>,
    pub images: Seq<ImageInfoView>,
    pub server_running: bool,
    pub selected_node_idx: usize,
    pub selected_image_idx: usize,
    pub selected_action_idx: usize,
    pub image_search: Seq<char>,
    pub image_search_active: bool,
    pub cloud_search: Seq<char>,
    pub cloud_search_idx: usize,
    pub last_refresh: u64,
    pub status_message: Option<(Seq<char>, u64)>,
}

impl View for App {
    type V = AppView;

    open spec fn view(&self) -> AppView {
        AppView {
            running: self.running,
            screen: self.screen,
            nodes: self.nodes@,
            images: info_views(self.images@),
            server_running: self.server_running,
            selected_node_idx: self.selected_node_idx,
            selected_image_idx: self.selected_image_idx,
            selected_action_idx: self.selected_action_idx,
            image_search: self.image_search@,
            image_search_active: self.image_search_active,
            cloud_search: self.cloud_search@,
            cloud_search_idx: self.cloud_search_idx,
            last_refresh: self.last_refresh,
            status_message: match self.status_message {
                Some((m, t)) => Some((m@, t)),
                None => None,
            },
        }
    }
}

pub enum EffectView {
    Stay,
    Refresh { delay_ms: u64 },
    NodeCommand { action: Seq<char>, hostname: Seq<char> },
    PullImage { url: Seq<char>, name: Seq<char>, version: Seq<char> },
}

impl View for Effect {
    type V = EffectView;

    open spec fn view(&self) -> EffectView {
        match self {
            Effect::Stay => EffectView::Stay,
            Effect::Refresh { delay_ms } => EffectView::Refresh { delay_ms: *delay_ms },
            Effect::NodeCommand { action, hostname } => EffectView::NodeCommand {
                action: action@,
                hostname: hostname@,
            },
            Effect::PullImage { url, name, version } => EffectView::PullImage {
                url: url@,
                name: name@,
                version: version@,
            },
        }
    }
}

pub open spec fn on_screen(a: AppView, s: Screen) -> AppView {
    AppView { screen: s, ..a }
}

pub open spec fn with_status(a: AppView, msg: Seq<char>, now: u64) -> AppView {
    AppView { status_message: Some((msg, now)), ..a }
}

/// Running the selected action on the selected node.
pub open spec fn action_step(a: AppView, now: u64) -> (AppView, EffectView) {
    if a.nodes.len() == 0 {
        (a, EffectView::Stay)
    } else if a.selected_action_idx == 0 {
        (with_status(a, "Use CLI for deploy: cave node deploy"@, now), EffectView::Stay)
    } else {
        (
            a,
            EffectView::NodeCommand {
                action: node_action_key(a.selected_action_idx as int),
                hostname: a.nodes[a.selected_node_idx as int].hostname@,
            },
        )
    }
}

pub open spec fn dashboard_step(a: AppView, key: Key) -> (AppView, EffectView) {
    let n = a.nodes.len();
    if key == Key::Char('q') {
        (AppView { running: false, ..a }, EffectView::Stay)
    } else if key == Key::Char('r') {
        (a, EffectView::Refresh { delay_ms: 0 })
    } else if key == Key::Char('i') {
        (AppView { screen: Screen::Images, ..a }, EffectView::Stay)
    } else if key == Key::Char('?') {
        (AppView { screen: Screen::Help, ..a }, EffectView::Stay)
    } else if key == Key::Up || key == Key::Char('k') {
        (if n > 0 {
            AppView { selected_node_idx: up(a.selected_node_idx), ..a }
        } else {
            a
        }, EffectView::Stay)
    } else if key == Key::Down || key == Key::Char('j') {
        (if n > 0 {
            AppView { selected_node_idx: down(a.selected_node_idx, n), ..a }
        } else {
            a
        }, EffectView::Stay)
    } else if key == Key::Enter {
        (if n > 0 {
            AppView { selected_action_idx: 0, screen: Screen::NodeDetails, ..a }
        } else {
            a
        }, EffectView::Stay)
    } else {
        (a, EffectView::Stay)
    }
}

pub open spec fn details_step(a: AppView, key: Key, now: u64) -> (AppView, EffectView) {
    if key == Key::Esc || key == Key::Char('q') {
        (AppView { screen: Screen::Dashboard, ..a }, EffectView::Stay)
    } else if key == Key::Up || key == Key::Char('k') {
        (AppView { selected_action_idx: up(a.selected_action_idx), ..a }, EffectView::Stay)
    } else if key == Key::Down || key == Key::Char('j') {
        (
            AppView { selected_action_idx: down(a.selected_action_idx, NODE_ACTION_COUNT as nat), ..a },
            EffectView::Stay,
        )
    } else if key == Key::Enter {
        action_step(a, now)
    } else if key == Key::Char('w') {
        action_step(AppView { selected_action_idx: 2, ..a }, now)
    } else if key == Key::Char('s') {
        action_step(AppView { selected_action_idx: 3, ..a }, now)
    } else if key == Key::Char('d') {
        action_step(AppView { selected_action_idx: 0, ..a }, now)
    } else {
        (a, EffectView::Stay)
    }
}

/// The image list moves its selection within the filtered list.
pub open spec fn image_nav(a: AppView, down_key: bool) -> AppView {
    let n = image_filter(a.images, a.image_search).len();
    if n > 0 {
        AppView {
            selected_image_idx: if down_key {
                down(a.selected_image_idx, n)
            } else {
                up(a.selected_image_idx)
            },
            ..a
        }
    } else {
        a
    }
}

pub open spec fn pop_search(s: Seq<char>) -> Seq<char> {
    if s.len() > 0 {
        s.drop_last()
    } else {
        s
    }
}

pub open spec fn images_step(a: AppView, key: Key) -> AppView {
    if a.image_search_active {
        if key == Key::Esc || key == Key::Enter {
            AppView { image_search_active: false, ..a }
        } else if key == Key::Backspace {
            AppView { image_search: pop_search(a.image_search), selected_image_idx: 0, ..a }
        } else if key is Char {
            AppView { image_search: a.image_search.push(key->Char_0), selected_image_idx: 0, ..a }
        } else if key == Key::Up {
            image_nav(a, false)
        } else if key == Key::Down {
            image_nav(a, true)
        } else {
            a
        }
    } else {
        if key == Key::Esc || key == Key::Char('q') {
            AppView { image_search: seq![], screen: Screen::Dashboard, ..a }
        } else if key == Key::Char('/') {
            AppView { image_search_active: true, ..a }
        } else if key == Key::Char('d') {
            AppView {
                cloud_search: seq![],
                cloud_search_idx: 0,
                screen: Screen::ImageDownload,
                ..a
            }
        } else if key == Key::Up || key == Key::Char('k') {
            image_nav(a, false)
        } else if key == Key::Down || key == Key::Char('j') {
            image_nav(a, true)
        } else if key == Key::Backspace {
            if a.image_search.len() > 0 {
                AppView { image_search: a.image_search.drop_last(), selected_image_idx: 0, ..a }
            } else {
                a
            }
        } else if key is Char && (is_alphanumeric(key->Char_0) || key->Char_0 == '-' || key->Char_0
            == '_' || key->Char_0 == '.') {
            AppView { image_search: a.image_search.push(key->Char_0), selected_image_idx: 0, ..a }
        } else {
            a
        }
    }
}

pub open spec fn download_step(a: AppView, key: Key, now: u64) -> (AppView, EffectView) {
    let offer = cloud_offer(a.cloud_search);
    if key == Key::Esc {
        (AppView { screen: Screen::Images, ..a }, EffectView::Stay)
    } else if key == Key::Backspace {
        (AppView { cloud_search: pop_search(a.cloud_search), cloud_search_idx: 0, ..a }, EffectView::Stay)
    } else if key == Key::Up {
        (if offer.len() > 0 {
            AppView { cloud_search_idx: up(a.cloud_search_idx), ..a }
        } else {
            a
        }, EffectView::Stay)
    } else if key == Key::Down {
        (if offer.len() > 0 {
            AppView { cloud_search_idx: down(a.cloud_search_idx, offer.len()), ..a }
        } else {
            a
        }, EffectView::Stay)
    } else if key == Key::Enter {
        if offer.len() == 0 {
            (a, EffectView::Stay)
        } else {
            let img = offer[a.cloud_search_idx as int];
            (
                with_status(a, "Downloading "@ + img.name + " "@ + img.version + "..."@, now),
                EffectView::PullImage { url: img.url, name: img.name, version: img.version },
            )
        }
    } else if key is Char {
        (AppView { cloud_search: a.cloud_search.push(key->Char_0), cloud_search_idx: 0, ..a }, EffectView::Stay)
    } else {
        (a, EffectView::Stay)
    }
}

pub open spec fn help_step(a: AppView, key: Key) -> AppView {
    if key == Key::Esc || key == Key::Char('q') || key == Key::Char('?') {
        AppView { screen: Screen::Dashboard, ..a }
    } else {
        a
    }
}

/// What a key does, on whichever screen is shown.
pub open spec fn key_step(a: AppView, key: Key, now: u64) -> (AppView, EffectView) {
    match a.screen {
        Screen::Dashboard => dashboard_step(a, key),
        Screen::NodeDetails => details_step(a, key, now),
        Screen::Images => (images_step(a, key), EffectView::Stay),
        Screen::ImageDownload => download_step(a, key, now),
        Screen::Help => (help_step(a, key), EffectView::Stay),
    }
}

/// Moving through the node list keeps the selection on a node of the
/// list.
pub proof fn lemma_node_navigation_in_list(a: AppView, key: Key, now: u64)
    requires
        a.screen == Screen::Dashboard,
        a.selected_node_idx < a.nodes.len(),
        key == Key::Up || key == Key::Down || key == Key::Char('j') || key == Key::Char('k'),
    ensures
        key_step(a, key, now).0.selected_node_idx < a.nodes.len(),
        key_step(a, key, now).0.screen == Screen::Dashboard,
{
}

/// Moving through the actions of a node keeps the selection on an action.
pub proof fn lemma_action_navigation_in_list(a: AppView, key: Key, now: u64)
    requires
        a.screen == Screen::NodeDetails,
        a.selected_action_idx < NODE_ACTION_COUNT,
        key == Key::Up || key == Key::Down || key == Key::Char('j') || key == Key::Char('k'),
    ensures
        key_step(a, key, now).0.selected_action_idx < NODE_ACTION_COUNT,
{
}

/// On the details screen of a node, `w` wakes it and `s` shuts it down,
/// Enter runs the selected action (after moving to the third action, `w`
/// and Enter do the same), and `d` only points to the command line, as
/// deploying needs its prompts; Esc and `q` go back to the list.
pub proof fn lemma_detail_shortcuts(a: AppView, now: u64)
    requires
        a.screen == Screen::NodeDetails,
        0 <= a.selected_node_idx < a.nodes.len(),
    ensures
        key_step(a, Key::Char('w'), now).1 == (EffectView::NodeCommand {
            action: "wake"@,
            hostname: a.nodes[a.selected_node_idx as int].hostname@,
        }),
        key_step(a, Key::Char('s'), now).1 == (EffectView::NodeCommand {
            action: "shutdown"@,
            hostname: a.nodes[a.selected_node_idx as int].hostname@,
        }),
        key_step(a, Key::Char('w'), now).0.selected_action_idx == 2,
        key_step(a, Key::Char('s'), now).0.selected_action_idx == 3,
        key_step(a, Key::Char('w'), now) == key_step(AppView { selected_action_idx: 2, ..a }, Key::Enter, now),
        key_step(a, Key::Char('s'), now) == key_step(AppView { selected_action_idx: 3, ..a }, Key::Enter, now),
        key_step(a, Key::Char('d'), now) == (
            AppView { selected_action_idx: 0, status_message: Some(("Use CLI for deploy: cave node deploy"@, now)), ..a },
            EffectView::Stay,
        ),
        key_step(a, Key::Esc, now) == (AppView { screen: Screen::Dashboard, ..a }, EffectView::Stay),
        key_step(a, Key::Char('q'), now) == (AppView { screen: Screen::Dashboard, ..a }, EffectView::Stay),
{
}

/// On the node list, `q` quits, `r` asks for fresh data, `i` opens the
/// images and `?` the help, and Enter opens the details of the selected
/// node with its first action selected; none of these changes anything
/// else.
pub proof fn lemma_dashboard_keys(a: AppView, now: u64)
    requires
        a.screen == Screen::Dashboard,
    ensures
        key_step(a, Key::Char('q'), now) == (AppView { running: false, ..a }, EffectView::Stay),
        key_step(a, Key::Char('r'), now) == (a, EffectView::Refresh { delay_ms: 0 }),
        key_step(a, Key::Char('i'), now) == (AppView { screen: Screen::Images, ..a }, EffectView::Stay),
        key_step(a, Key::Char('?'), now) == (AppView { screen: Screen::Help, ..a }, EffectView::Stay),
        a.nodes.len() > 0 ==> key_step(a, Key::Enter, now) == (
            AppView { screen: Screen::NodeDetails, selected_action_idx: 0, ..a },
            EffectView::Stay,
        ),
        a.nodes.len() == 0 ==> key_step(a, Key::Enter, now) == (a, EffectView::Stay),
{
}

/// On the image list outside search mode, `/` starts a search, `d` opens
/// the catalogue with an empty filter at its first entry, and Esc or `q`
/// clear the filter and go back to the node list. In search mode a typed
/// character extends the filter and Backspace shortens it, both putting
/// the selection on the first image; Esc and Enter end the search mode and
/// keep the filter.
pub proof fn lemma_images_keys(a: AppView, c: char, now: u64)
    requires
        a.screen == Screen::Images,
    ensures
        !a.image_search_active ==> key_step(a, Key::Char('/'), now) == (
            AppView { image_search_active: true, ..a },
            EffectView::Stay,
        ),
        !a.image_search_active ==> key_step(a, Key::Char('d'), now) == (
            AppView { screen: Screen::ImageDownload, cloud_search: seq![], cloud_search_idx: 0, ..a },
            EffectView::Stay,
        ),
        !a.image_search_active ==> key_step(a, Key::Esc, now) == (
            AppView { screen: Screen::Dashboard, image_search: seq![], ..a },
            EffectView::Stay,
        ),
        a.image_search_active ==> key_step(a, Key::Char(c), now) == (
            AppView { image_search: a.image_search.push(c), selected_image_idx: 0, ..a },
            EffectView::Stay,
        ),
        a.image_search_active && a.image_search.len() > 0 ==> key_step(a, Key::Backspace, now) == (
            AppView { image_search: a.image_search.drop_last(), selected_image_idx: 0, ..a },
            EffectView::Stay,
        ),
        a.image_search_active ==> key_step(a, Key::Esc, now) == (
            AppView { image_search_active: false, ..a },
            EffectView::Stay,
        ),
        a.image_search_active ==> key_step(a, Key::Enter, now) == (
            AppView { image_search_active: false, ..a },
            EffectView::Stay,
        ),
{
}

/// A filter keeps no more images than it is given.
proof fn lemma_image_filter_len(images: Seq<ImageInfoView>, search: Seq<char>)
    ensures
        image_filter(images, search).len() <= images.len(),
    decreases images.len(),
{
    if search.len() > 0 && images.len() > 0 {
        lemma_image_filter_len(images.drop_last(), search);
    }
}

/// The selected image is one of the images the filter shows, or the first
/// place when it shows none.
pub open spec fn image_selection_in_list(a: AppView) -> bool {
    a.selected_image_idx == 0 || a.selected_image_idx < image_filter(a.images, a.image_search).len()
}

/// Whatever key is pressed, on whichever screen, the selected image stays
/// within the filtered image list: editing the filter puts the selection on
/// the first place, clearing it shows all images, and moving stays inside.
pub proof fn lemma_image_selection_in_list(a: AppView, key: Key, now: u64)
    requires
        image_selection_in_list(a),
    ensures
        image_selection_in_list(key_step(a, key, now).0),
{
    lemma_image_filter_len(a.images, a.image_search);
}

impl App {
    /// Answers a key at time `now`: the new state and the effect are those
    /// of `key_step`, and the invariant holds again.
    pub fn handle_key(&mut self, key: Key, now: u64) -> (e: Effect)
        requires
            old(self).wf(),
            !old(self).key_faults(key),
        ensures
            final(self).wf(),
            (final(self)@, e@) == key_step(old(self)@, key, now),
    {
        match self.screen {
            Screen::Dashboard => self.handle_dashboard_key(key),
            Screen::NodeDetails => self.handle_node_details_key(key, now),
            Screen::Images => {
                self.handle_images_key(key);
                Effect::Stay
            },
            Screen::ImageDownload => self.handle_image_download_key(key, now),
            Screen::Help => {
                self.handle_help_key(key);
                Effect::Stay
            },
        }
    }

    fn handle_dashboard_key(&mut self, key: Key) -> (e: Effect)
        requires
            old(self).wf(),
        ensures
            final(self).wf(),
            (final(self)@, e@) == dashboard_step(old(self)@, key),
    {
        let n = self.nodes.len();
        if key == Key::Char('q') {
            self.running = false;
            Effect::Stay
        } else if key == Key::Char('r') {
            Effect::Refresh { delay_ms: 0 }
        } else if key == Key::Char('i') {
            self.screen = Screen::Images;
            Effect::Stay
        } else if key == Key::Char('?') {
            self.screen = Screen::Help;
            Effect::Stay
        } else if key == Key::Up || key == Key::Char('k') {
            if n > 0 {
                self.selected_node_idx = if self.selected_node_idx > 0 {
                    self.selected_node_idx - 1
                } else {
                    0
                };
            }
            Effect::Stay
        } else if key == Key::Down || key == Key::Char('j') {
            if n > 0 {
                self.selected_node_idx = down_exec(self.selected_node_idx, n);
            }
            Effect::Stay
        } else if key == Key::Enter {
            if n > 0 {
                self.selected_action_idx = 0;
                self.screen = Screen::NodeDetails;
            }
            Effect::Stay
        } else {
            Effect::Stay
        }
    }

    fn execute_action(&mut self, now: u64) -> (e: Effect)
        requires
            old(self).wf(),
            old(self).nodes@.len() == 0 || old(self).selected_node_idx < old(self).nodes@.len(),
        ensures
            final(self).wf(),
            (final(self)@, e@) == action_step(old(self)@, now),
    {
        if self.nodes.len() == 0 {
            return Effect::Stay;
        }
        if self.selected_action_idx == 0 {
            self.set_status("Use CLI for deploy: cave node deploy", now);
            return Effect::Stay;
        }
        let action = node_action_key_exec(self.selected_action_idx);
        let hostname = self.nodes[self.selected_node_idx].hostname.clone();
        Effect::NodeCommand { action, hostname }
    }

    fn handle_node_details_key(&mut self, key: Key, now: u64) -> (e: Effect)
        requires
            old(self).wf(),
            old(self).screen == Screen::NodeDetails,
            !old(self).key_faults(key),
        ensures
            final(self).wf(),
            (final(self)@, e@) == details_step(old(self)@, key, now),
    {
        if key == Key::Esc || key == Key::Char('q') {
            self.screen = Screen::Dashboard;
            Effect::Stay
        } else if key == Key::Up || key == Key::Char('k') {
            self.selected_action_idx = if self.selected_action_idx > 0 {
                self.selected_action_idx - 1
            } else {
                0
            };
            Effect::Stay
        } else if key == Key::Down || key == Key::Char('j') {
            self.selected_action_idx = down_exec(self.selected_action_idx, NODE_ACTION_COUNT);
            Effect::Stay
        } else if key == Key::Enter {
            self.execute_action(now)
        } else if key == Key::Char('w') {
            self.selected_action_idx = 2;
            self.execute_action(now)
        } else if key == Key::Char('s') {
            self.selected_action_idx = 3;
            self.execute_action(now)
        } else if key == Key::Char('d') {
            self.selected_action_idx = 0;
            self.execute_action(now)
        } else {
            Effect::Stay
        }
    }

    fn nav_images(&mut self, down_key: bool)
        requires
            old(self).wf(),
        ensures
            final(self).wf(),
            final(self)@ == image_nav(old(self)@, down_key),
    {
        let n = self.filtered_images_len();
        if n > 0 {
            self.selected_image_idx = if down_key {
                down_exec(self.selected_image_idx, n)
            } else if self.selected_image_idx > 0 {
                self.selected_image_idx - 1
            } else {
                0
            };
        }
    }

    fn handle_images_key(&mut self, key: Key)
        requires
            old(self).wf(),
        ensures
            final(self).wf(),
            final(self)@ == images_step(old(self)@, key),
    {
        if self.image_search_active {
            if key == Key::Esc || key == Key::Enter {
                self.image_search_active = false;
            } else if key == Key::Backspace {
                self.image_search = drop_last_char(&self.image_search);
                self.selected_image_idx = 0;
            } else if let Key::Char(c) = key {
                string_push(&mut self.image_search, c);
                self.selected_image_idx = 0;
            } else if key == Key::Up {
                self.nav_images(false);
            } else if key == Key::Down {
                self.nav_images(true);
            }
        } else {
            if key == Key::Esc || key == Key::Char('q') {
                self.image_search = String::new();
                self.screen = Screen::Dashboard;
            } else if key == Key::Char('/') {
                self.image_search_active = true;
            } else if key == Key::Char('d') {
                self.cloud_search = String::new();
                self.cloud_search_idx = 0;
                self.screen = Screen::ImageDownload;
            } else if key == Key::Up || key == Key::Char('k') {
                self.nav_images(false);
            } else if key == Key::Down || key == Key::Char('j') {
                self.nav_images(true);
            } else if key == Key::Backspace {
                if !self.image_search.as_str().is_empty() {
                    self.image_search = drop_last_char(&self.image_search);
                    self.selected_image_idx = 0;
                }
            } else if let Key::Char(c) = key {
                if char_is_alphanumeric(c) || c == '-' || c == '_' || c == '.' {
                    string_push(&mut self.image_search, c);
                    self.selected_image_idx = 0;
                }
            }
        }
    }

    fn handle_image_download_key(&mut self, key: Key, now: u64) -> (e: Effect)
        requires
            old(self).wf(),
        ensures
            final(self).wf(),
            (final(self)@, e@) == download_step(old(self)@, key, now),
    {
        if key == Key::Esc {
            self.screen = Screen::Images;
            Effect::Stay
        } else if key == Key::Backspace {
            self.cloud_search = drop_last_char(&self.cloud_search);
            self.cloud_search_idx = 0;
            Effect::Stay
        } else if key == Key::Up {
            let offer = self.filtered_cloud_images();
            if offer.len() > 0 {
                self.cloud_search_idx = if self.cloud_search_idx > 0 {
                    self.cloud_search_idx - 1
                } else {
                    0
                };
            }
            Effect::Stay
        } else if key == Key::Down {
            let offer = self.filtered_cloud_images();
            if offer.len() > 0 {
                self.cloud_search_idx = down_exec(self.cloud_search_idx, offer.len());
            }
            Effect::Stay
        } else if key == Key::Enter {
            self.download_selected_cloud_image(now)
        } else if let Key::Char(c) = key {
            string_push(&mut self.cloud_search, c);
            self.cloud_search_idx = 0;
            Effect::Stay
        } else {
            Effect::Stay
        }
    }

    fn download_selected_cloud_image(&mut self, now: u64) -> (e: Effect)
        requires
            old(self).wf(),
        ensures
            final(self).wf(),
            (final(self)@, e@) == download_step(old(self)@, Key::Enter, now),
    {
        let offer = self.filtered_cloud_images();
        if offer.len() == 0 {
            return Effect::Stay;
        }
        let img = &offer[self.cloud_search_idx];
        assert(img@ == cloud_offer(self.cloud_search@)[self.cloud_search_idx as int]);
        let mut msg: Vec<char> = Vec::new();
        push_str(&mut msg, "Downloading ");
        push_str(&mut msg, img.name.as_str());
        push_str(&mut msg, " ");
        push_str(&mut msg, img.version.as_str());
        push_str(&mut msg, "...");
        let text = string_of(&msg);
        self.set_status(text.as_str(), now);
        Effect::PullImage { url: img.url.clone(), name: img.name.clone(), version: img.version.clone() }
    }

    fn handle_help_key(&mut self, key: Key)
        requires
            old(self).wf(),
        ensures
            final(self).wf(),
            final(self)@ == help_step(old(self)@, key),
    {
        if key == Key::Esc || key == Key::Char('q') || key == Key::Char('?') {
            self.screen = Screen::Dashboard;
        }
    }
}

// ---------------------------------------------------------------------------
// Outcomes of commands
// ---------------------------------------------------------------------------

/// The status line for a command that did not succeed: the first line of
/// its standard error (or `error`) after `Failed: `, or the reason it
/// could not start after `Error: `.
pub open spec fn failure_text(o: CommandOutcome) -> Seq<char> {
    match o {
        CommandOutcome::Failed { stderr } => "Failed: "@ + match first_line(stderr@) {
            Some(l) => l,
            None => "error"@,
        },
        CommandOutcome::NotStarted { error } => "Error: "@ + error@,
        CommandOutcome::Succeeded => seq![],
    }
}

fn failure_text_exec(o: &CommandOutcome) -> (r: String)
    ensures
        r@ == failure_text(*o),
{
    let mut v: Vec<char> = Vec::new();
    match o {
        CommandOutcome::Failed { stderr } => {
            push_str(&mut v, "Failed: ");
            match first_line_exec(stderr.as_str()) {
                Some(l) => push_str(&mut v, l.as_str()),
                None => push_str(&mut v, "error"),
            }
        },
        CommandOutcome::NotStarted { error } => {
            push_str(&mut v, "Error: ");
            push_str(&mut v, error.as_str());
        },
        CommandOutcome::Succeeded => {},
    }
    string_of(&v)
}

impl App {
    /// A node command ended: on success the status line reports it and a
    /// refresh follows after half a second; otherwise the status line
    /// shows the failure.
    pub fn node_command_finished(&mut self, action: &str, hostname: &str, outcome: CommandOutcome, now: u64) -> (e:
        Effect)
        requires
            old(self).wf(),
        ensures
            final(self).wf(),
            (outcome is Succeeded) ==> final(self)@ == with_status(old(self)@, action@ + " executed on "@ + hostname@, now)
                && e@ == (EffectView::Refresh { delay_ms: 500 }),
            !(outcome is Succeeded) ==> final(self)@ == with_status(old(self)@, failure_text(outcome), now)
                && e@ == EffectView::Stay,
    {
        match outcome {
            CommandOutcome::Succeeded => {
                let mut v: Vec<char> = Vec::new();
                push_str(&mut v, action);
                push_str(&mut v, " executed on ");
                push_str(&mut v, hostname);
                let msg = string_of(&v);
                self.set_status(msg.as_str(), now);
                Effect::Refresh { delay_ms: 500 }
            },
            _ => {
                let msg = failure_text_exec(&outcome);
                self.set_status(msg.as_str(), now);
                Effect::Stay
            },
        }
    }

    /// A download ended: on success the status line reports it, the image
    /// list is shown and a refresh follows; otherwise the status line shows
    /// the failure.
    pub fn pull_finished(&mut self, name: &str, version: &str, outcome: CommandOutcome, now: u64) -> (e: Effect)
        requires
            old(self).wf(),
        ensures
            final(self).wf(),
            (outcome is Succeeded) ==> final(self)@ == on_screen(
                with_status(old(self)@, "Downloaded "@ + name@ + " "@ + version@, now),
                Screen::Images,
            ) && e@ == (EffectView::Refresh { delay_ms: 0 }),
            !(outcome is Succeeded) ==> final(self)@ == with_status(old(self)@, failure_text(outcome), now)
                && e@ == EffectView::Stay,
    {
        match outcome {
            CommandOutcome::Succeeded => {
                let mut v: Vec<char> = Vec::new();
                push_str(&mut v, "Downloaded ");
                push_str(&mut v, name);
                push_str(&mut v, " ");
                push_str(&mut v, version);
                let msg = string_of(&v);
                self.set_status(msg.as_str(), now);
                self.screen = Screen::Images;
                Effect::Refresh { delay_ms: 0 }
            },
            _ => {
                let msg = failure_text_exec(&outcome);
                self.set_status(msg.as_str(), now);
                Effect::Stay
            },
        }
    }
}

// ---------------------------------------------------------------------------
// What the dashboard shows
// ---------------------------------------------------------------------------

/// How many nodes carry the given status text.
pub open spec fn count_node_status(ns: Seq<CachedNode>, st: Seq<char>) -> nat
    decreases ns.len(),
{
    if ns.len() == 0 {
        0
    } else {
        count_node_status(ns.drop_last(), st) + if ns.last().status@ == st {
            1nat
        } else {
            0nat
        }
    }
}

/// How many nodes have a VM.
pub open spec fn count_with_vm(ns: Seq<CachedNode>) -> nat
    decreases ns.len(),
{
    if ns.len() == 0 {
        0
    } else {
        count_with_vm(ns.drop_last()) + if ns.last().vm is Some {
            1nat
        } else {
            0nat
        }
    }
}

/// The bytes of a list of disks.
pub open spec fn disk_bytes(ds: Seq<CachedDisk>) -> nat
    decreases ds.len(),
{
    if ds.len() == 0 {
        0
    } else {
        disk_bytes(ds.drop_last()) + ds.last().size_bytes as nat
    }
}

/// The bytes of all disks of all nodes.
pub open spec fn total_disk_bytes(ns: Seq<CachedNode>) -> nat
    decreases ns.len(),
{
    if ns.len() == 0 {
        0
    } else {
        total_disk_bytes(ns.drop_last()) + disk_bytes(ns.last().disks@)
    }
}

/// The core count of a node when its text parses as `u32`, else nothing.
pub open spec fn node_cores(n: CachedNode) -> nat {
    match parse_unsigned(n.cores@, 10, u32::MAX as nat) {
        Some(c) => c,
        None => 0,
    }
}

/// The cores of all nodes whose core count parses.
pub open spec fn total_cores(ns: Seq<CachedNode>) -> nat
    decreases ns.len(),
{
    if ns.len() == 0 {
        0
    } else {
        total_cores(ns.drop_last()) + node_cores(ns.last())
    }
}

proof fn lemma_disk_bytes_prefix(ds: Seq<CachedDisk>, k: int)
    requires
        0 <= k <= ds.len(),
    ensures
        disk_bytes(ds.take(k)) <= disk_bytes(ds),
    decreases ds.len() - k,
{
    if k < ds.len() {
        lemma_disk_bytes_prefix(ds, k + 1);
        assert(ds.take(k + 1).drop_last() =~= ds.take(k));
    } else {
        assert(ds.take(k) =~= ds);
    }
}

proof fn lemma_node_totals_prefix(ns: Seq<CachedNode>, k: int)
    requires
        0 <= k <= ns.len(),
    ensures
        total_disk_bytes(ns.take(k)) <= total_disk_bytes(ns),
        total_cores(ns.take(k)) <= total_cores(ns),
    decreases ns.len() - k,
{
    if k < ns.len() {
        lemma_node_totals_prefix(ns, k + 1);
        assert(ns.take(k + 1).drop_last() =~= ns.take(k));
    } else {
        assert(ns.take(k) =~= ns);
    }
}

/// The bytes of the disks of one node.
fn disk_bytes_exec(ds: &Vec<CachedDisk>) -> (r: u64)
    requires
        disk_bytes(ds@) <= u64::MAX,
    ensures
        r == disk_bytes(ds@),
{
    let mut sum: u64 = 0;
    for i in 0..ds.len()
        invariant
            sum == disk_bytes(ds@.take(i as int)),
            disk_bytes(ds@) <= u64::MAX,
    {
        assert(ds@.take(i + 1).drop_last() =~= ds@.take(i as int));
        proof {
            lemma_disk_bytes_prefix(ds@, i + 1);
        }
        sum = sum + ds[i].size_bytes;
    }
    assert(ds@.take(ds.len() as int) =~= ds@);
    sum
}

/// The cluster overview: the nodes that are active, standby and offline,
/// the nodes with a VM, the bytes of all disks and the cores of all nodes
/// whose core count is a number.
pub fn cluster_stats(nodes: &Vec<CachedNode>) -> (r: (usize, usize, usize, usize, u64, u32))
    requires
        total_disk_bytes(nodes@) <= u64::MAX,
        total_cores(nodes@) <= u32::MAX,
    ensures
        r.0 == count_node_status(nodes@, "active"@),
        r.1 == count_node_status(nodes@, "standby"@),
        r.2 == count_node_status(nodes@, "offline"@),
        r.3 == count_with_vm(nodes@),
        r.4 == total_disk_bytes(nodes@),
        r.5 == total_cores(nodes@),
{
    let active = chars_of("active");
    let standby = chars_of("standby");
    let offline = chars_of("offline");
    let mut a: usize = 0;
    let mut b: usize = 0;
    let mut c: usize = 0;
    let mut v: usize = 0;
    let mut disk: u64 = 0;
    let mut cores: u32 = 0;
    for i in 0..nodes.len()
        invariant
            active@ == "active"@,
            standby@ == "standby"@,
            offline@ == "offline"@,
            a == count_node_status(nodes@.take(i as int), "active"@),
            b == count_node_status(nodes@.take(i as int), "standby"@),
            c == count_node_status(nodes@.take(i as int), "offline"@),
            v == count_with_vm(nodes@.take(i as int)),
            a <= i,
            b <= i,
            c <= i,
            v <= i,
            disk == total_disk_bytes(nodes@.take(i as int)),
            cores == total_cores(nodes@.take(i as int)),
            total_disk_bytes(nodes@) <= u64::MAX,
            total_cores(nodes@) <= u32::MAX,
    {
        let ghost pre = nodes@.take(i as int);
        let ghost next = nodes@.take(i + 1);
        assert(next.drop_last() =~= pre);
        assert(next.last() == nodes@[i as int]);
        proof {
            lemma_node_totals_prefix(nodes@, i + 1);
        }
        let n = &nodes[i];
        let st = chars_of(n.status.as_str());
        if chars_eq(&st, &active) {
            a = a + 1;
        }
        if chars_eq(&st, &standby) {
            b = b + 1;
        }
        if chars_eq(&st, &offline) {
            c = c + 1;
        }
        if n.vm.is_some() {
            v = v + 1;
        }
        let d = disk_bytes_exec(&n.disks);
        disk = disk + d;
        match parse_u32(&chars_of(n.cores.as_str())) {
            Some(k) => {
                cores = cores + k;
            },
            None => {},
        }
    }
    assert(nodes@.take(nodes.len() as int) =~= nodes@);
    (a, b, c, v, disk, cores)
}

/// How a node's status reads on the details screen.
pub open spec fn node_status_text(status: Seq<char>) -> Seq<char> {
    if status == "active"@ {
        "Online"@
    } else if status == "standby"@ {
        "Standby"@
    } else {
        "Offline"@
    }
}

pub fn node_status_label(status: &str) -> (r: String)
    ensures
        r@ == node_status_text(status@),
{
    let st = chars_of(status);
    if chars_eq(&st, &chars_of("active")) {
        String::from_str("Online")
    } else if chars_eq(&st, &chars_of("standby")) {
        String::from_str("Standby")
    } else {
        String::from_str("Offline")
    }
}

/// How a VM's status reads: it is starting until it has an address.
pub open spec fn vm_status_text(ip: Seq<char>) -> Seq<char> {
    if ip.len() == 0 {
        "Starting"@
    } else {
        "Online"@
    }
}

pub fn vm_status_label(ip: &str) -> (r: String)
    ensures
        r@ == vm_status_text(ip@),
{
    if chars_of(ip).len() == 0 {
        String::from_str("Starting")
    } else {
        String::from_str("Online")
    }
}

} // verus!
