//! The catalogue of cloud images and the rules for local image files.
use vstd::prelude::*;
use crate::order::{lemma_insert_pos_by_at, lex_le, lex_le_chars, sorted_by};
use crate::text::{
    chars_eq, chars_of, contains, contains_chars, ends_with, ends_with_chars, matches_lower,
    matches_lower_exec, push_str, string_of,
};

verus! {

/// A downloadable cloud image.
#[derive(Debug)]
pub struct CloudImage {
    pub name: String,
    pub version: String,
    pub arch: String,
    pub format: String,
    pub size: String,
    pub url: String,
}

pub struct CloudImageView {
    pub name: Seq<char>,
    pub version: Seq<char>,
    pub arch: Seq<char>,
    pub format: Seq<char>,
    pub size: Seq<char>,
    pub url: Seq<char>,
}

impl View for CloudImage {
    type V = CloudImageView;

    open spec fn view(&self) -> CloudImageView {
        CloudImageView {
            name: self.name@,
            version: self.version@,
            arch: self.arch@,
            format: self.format@,
            size: self.size@,
            url: self.url@,
        }
    }
}

pub open spec fn image_views(s: Seq<CloudImage>) -> Seq<CloudImageView> {
    s.map_values(|c: CloudImage| c@)
}

pub open spec fn entry(
    name: Seq<char>,
    version: Seq<char>,
    arch: Seq<char>,
    format: Seq<char>,
    size: Seq<char>,
    url: Seq<char>,
) -> CloudImageView {
    CloudImageView { name, version, arch, format, size, url }
}

/// The catalogue, in the order it is offered.
pub open spec fn catalogue() -> Seq<CloudImageView> {
    seq![
        entry("Ubuntu"@, "24.04 LTS"@, "amd64"@, "img"@, "~700 MB"@,
            "https://cloud-images.ubuntu.com/noble/current/noble-server-cloudimg-amd64.img"@),
        entry("Ubuntu"@, "22.04 LTS"@, "amd64"@, "img"@, "~650 MB"@,
            "https://cloud-images.ubuntu.com/jammy/current/jammy-server-cloudimg-amd64.img"@),
        entry("Ubuntu"@, "20.04 LTS"@, "amd64"@, "img"@, "~550 MB"@,
            "https://cloud-images.ubuntu.com/focal/current/focal-server-cloudimg-amd64.img"@),
        entry("Debian"@, "12 (Bookworm)"@, "amd64"@, "qcow2"@, "~350 MB"@,
            "https://cloud.debian.org/images/cloud/bookworm/latest/debian-12-generic-amd64.qcow2"@),
        entry("Debian"@, "11 (Bullseye)"@, "amd64"@, "qcow2"@, "~300 MB"@,
            "https://cloud.debian.org/images/cloud/bullseye/latest/debian-11-generic-amd64.qcow2"@),
        entry("Fedora"@, "41"@, "amd64"@, "qcow2"@, "~450 MB"@,
            "https://download.fedoraproject.org/pub/fedora/linux/releases/41/Cloud/x86_64/images/Fedora-Cloud-Base-Generic-41-1.4.x86_64.qcow2"@),
        entry("Fedora"@, "40"@, "amd64"@, "qcow2"@, "~450 MB"@,
            "https://download.fedoraproject.org/pub/fedora/linux/releases/40/Cloud/x86_64/images/Fedora-Cloud-Base-Generic.x86_64-40-1.14.qcow2"@),
        entry("AlmaLinux"@, "9"@, "amd64"@, "qcow2"@, "~600 MB"@,
            "https://repo.almalinux.org/almalinux/9/cloud/x86_64/images/AlmaLinux-9-GenericCloud-latest.x86_64.qcow2"@),
        entry("Rocky Linux"@, "9"@, "amd64"@, "qcow2"@, "~600 MB"@,
            "https://download.rockylinux.org/pub/rocky/9/images/x86_64/Rocky-9-GenericCloud.latest.x86_64.qcow2"@),
        entry("Arch Linux"@, "latest"@, "amd64"@, "qcow2"@, "~500 MB"@,
            "https://geo.mirror.pkgbuild.com/images/latest/Arch-Linux-x86_64-cloudimg.qcow2"@),
        entry("Alpine"@, "3.21"@, "amd64"@, "qcow2"@, "~150 MB"@,
            "https://dl-cdn.alpinelinux.org/alpine/v3.21/releases/cloud/nocloud_alpine-3.21.3-x86_64-bios-cloudinit-r0.qcow2"@)
    ]
}

fn mk(name: &str, version: &str, arch: &str, format: &str, size: &str, url: &str) -> (c: CloudImage)
    ensures
        c@ == entry(name@, version@, arch@, format@, size@, url@),
{
    CloudImage {
        name: String::from_str(name),
        version: String::from_str(version),
        arch: String::from_str(arch),
        format: String::from_str(format),
        size: String::from_str(size),
        url: String::from_str(url),
    }
}

/// The catalogue of downloadable cloud images.
pub fn cloud_images() -> (r: Vec<CloudImage>)
    ensures
        image_views(r@) == catalogue(),
{
    let mut v: Vec<CloudImage> = Vec::new();
    v.push(mk("Ubuntu", "24.04 LTS", "amd64", "img", "~700 MB",
        "https://cloud-images.ubuntu.com/noble/current/noble-server-cloudimg-amd64.img"));
    v.push(mk("Ubuntu", "22.04 LTS", "amd64", "img", "~650 MB",
        "https://cloud-images.ubuntu.com/jammy/current/jammy-server-cloudimg-amd64.img"));
    v.push(mk("Ubuntu", "20.04 LTS", "amd64", "img", "~550 MB",
        "https://cloud-images.ubuntu.com/focal/current/focal-server-cloudimg-amd64.img"));
    v.push(mk("Debian", "12 (Bookworm)", "amd64", "qcow2", "~350 MB",
        "https://cloud.debian.org/images/cloud/bookworm/latest/debian-12-generic-amd64.qcow2"));
    v.push(mk("Debian", "11 (Bullseye)", "amd64", "qcow2", "~300 MB",
        "https://cloud.debian.org/images/cloud/bullseye/latest/debian-11-generic-amd64.qcow2"));
    v.push(mk("Fedora", "41", "amd64", "qcow2", "~450 MB",
        "https://download.fedoraproject.org/pub/fedora/linux/releases/41/Cloud/x86_64/images/Fedora-Cloud-Base-Generic-41-1.4.x86_64.qcow2"));
    v.push(mk("Fedora", "40", "amd64", "qcow2", "~450 MB",
        "https://download.fedoraproject.org/pub/fedora/linux/releases/40/Cloud/x86_64/images/Fedora-Cloud-Base-Generic.x86_64-40-1.14.qcow2"));
    v.push(mk("AlmaLinux", "9", "amd64", "qcow2", "~600 MB",
        "https://repo.almalinux.org/almalinux/9/cloud/x86_64/images/AlmaLinux-9-GenericCloud-latest.x86_64.qcow2"));
    v.push(mk("Rocky Linux", "9", "amd64", "qcow2", "~600 MB",
        "https://download.rockylinux.org/pub/rocky/9/images/x86_64/Rocky-9-GenericCloud.latest.x86_64.qcow2"));
    v.push(mk("Arch Linux", "latest", "amd64", "qcow2", "~500 MB",
        "https://geo.mirror.pkgbuild.com/images/latest/Arch-Linux-x86_64-cloudimg.qcow2"));
    v.push(mk("Alpine", "3.21", "amd64", "qcow2", "~150 MB",
        "https://dl-cdn.alpinelinux.org/alpine/v3.21/releases/cloud/nocloud_alpine-3.21.3-x86_64-bios-cloudinit-r0.qcow2"));
    assert(image_views(v@) =~= catalogue());
    v
}

// ---------------------------------------------------------------------------
// Names
// ---------------------------------------------------------------------------

/// The text after the last `c` (all of `s` when there is none), the first
/// item of `rsplit(c)`.
pub open spec fn after_last(s: Seq<char>, c: char) -> Seq<char>
    decreases s.len(),
{
    if s.len() == 0 {
        s
    } else if s.last() == c {
        seq![]
    } else {
        after_last(s.drop_last(), c).push(s.last())
    }
}

/// The file name of a download URL: the text after its last `/`.
pub fn url_filename(url: &str) -> (r: String)
    ensures
        r@ == after_last(url@, '/'),
{
    let v = chars_of(url);
    let mut k: usize = v.len();
    assert(v@.take(k as int) =~= v@);
    assert(v@.skip(k as int) =~= Seq::<char>::empty());
    assert(after_last(v@, '/') =~= after_last(v@.take(k as int), '/') + v@.skip(k as int));
    while k > 0 && v[k - 1] != '/'
        invariant
            k <= v.len(),
            after_last(v@, '/') == after_last(v@.take(k as int), '/') + v@.skip(k as int),
        decreases k,
    {
        assert(v@.take(k as int).drop_last() =~= v@.take(k - 1));
        assert(v@.skip(k - 1) =~= seq![v@[k - 1]] + v@.skip(k as int));
        assert(after_last(v@.take(k as int), '/') == after_last(v@.take(k - 1), '/').push(v@[k - 1]));
        k = k - 1;
    }
    let mut out: Vec<char> = Vec::new();
    let mut i: usize = k;
    while i < v.len()
        invariant
            k <= i <= v.len(),
            out@ == v@.subrange(k as int, i as int),
        decreases v.len() - i,
    {
        out.push(v[i]);
        i = i + 1;
        assert(out@ =~= v@.subrange(k as int, i as int));
    }
    proof {
        if k > 0 {
            assert(v@.take(k as int).last() == '/');
        } else {
            assert(v@.take(0) =~= Seq::<char>::empty());
        }
        assert(v@.skip(k as int) =~= v@.subrange(k as int, v.len() as int));
    }
    string_of(&out)
}

/// The friendly label of a catalogue entry: `name version (arch, size)`.
pub open spec fn label(c: CloudImageView) -> Seq<char> {
    c.name + " "@ + c.version + " ("@ + c.arch + ", "@ + c.size + ")"@
}

pub fn image_label(c: &CloudImage) -> (r: String)
    ensures
        r@ == label(c@),
{
    let mut v: Vec<char> = Vec::new();
    push_str(&mut v, c.name.as_str());
    push_str(&mut v, " ");
    push_str(&mut v, c.version.as_str());
    push_str(&mut v, " (");
    push_str(&mut v, c.arch.as_str());
    push_str(&mut v, ", ");
    push_str(&mut v, c.size.as_str());
    push_str(&mut v, ")");
    string_of(&v)
}

/// The name shown for a local image file: the label of the first
/// catalogue entry whose URL ends in this file name, else the file name.
pub open spec fn display_name(cat: Seq<CloudImageView>, filename: Seq<char>) -> Seq<char>
    decreases cat.len(),
{
    if cat.len() == 0 {
        filename
    } else if after_last(cat[0].url, '/') == filename {
        label(cat[0])
    } else {
        display_name(cat.drop_first(), filename)
    }
}

pub fn get_image_display_name(filename: &str) -> (r: String)
    ensures
        r@ == display_name(catalogue(), filename@),
{
    let cat = cloud_images();
    let f = chars_of(filename);
    let ghost cv = image_views(cat@);
    assert(cv.skip(0) =~= cv);
    for i in 0..cat.len()
        invariant
            cv == image_views(cat@),
            cv == catalogue(),
            f@ == filename@,
            display_name(cv.skip(i as int), filename@) == display_name(cv, filename@),
    {
        assert(cv.skip(i as int).drop_first() =~= cv.skip(i + 1));
        assert(cv.skip(i as int)[0] == cat@[i as int]@);
        let name = url_filename(cat[i].url.as_str());
        if chars_eq(&chars_of(name.as_str()), &f) {
            return image_label(&cat[i]);
        }
    }
    String::from_str(filename)
}

// ---------------------------------------------------------------------------
// Local image files
// ---------------------------------------------------------------------------

/// A cloud-init seed (file or directory) that sits beside the images.
pub open spec fn is_seed(name: Seq<char>) -> bool {
    ends_with(name, "-seed.iso"@) || ends_with(name, "-seed"@)
}

/// Files `cave images` lists: all but cloud-init seeds.
pub open spec fn listed_image(name: Seq<char>) -> bool {
    !is_seed(name)
}

/// Files the dashboard shows: also not files with `.cave.` in the name.
pub open spec fn dashboard_image(name: Seq<char>) -> bool {
    !is_seed(name) && !contains(name, ".cave."@)
}

/// Files `cave node deploy` offers: also not `.qcow2` disks.
pub open spec fn deployable_image(name: Seq<char>) -> bool {
    dashboard_image(name) && !ends_with(name, ".qcow2"@)
}

fn is_seed_exec(v: &Vec<char>) -> (r: bool)
    ensures
        r == is_seed(v@),
{
    ends_with_chars(v, &chars_of("-seed.iso")) || ends_with_chars(v, &chars_of("-seed"))
}

pub fn is_listed_image(name: &str) -> (r: bool)
    ensures
        r == listed_image(name@),
{
    !is_seed_exec(&chars_of(name))
}

pub fn is_dashboard_image(name: &str) -> (r: bool)
    ensures
        r == dashboard_image(name@),
{
    let v = chars_of(name);
    !is_seed_exec(&v) && !contains_chars(&v, &chars_of(".cave."))
}

pub fn is_deployable_image(name: &str) -> (r: bool)
    ensures
        r == deployable_image(name@),
{
    let v = chars_of(name);
    !is_seed_exec(&v) && !contains_chars(&v, &chars_of(".cave.")) && !ends_with_chars(
        &v,
        &chars_of(".qcow2"),
    )
}

/// Whether an image needs a cloud-init seed: cloud or generic images,
/// `.img` files that are not disks, and Ubuntu, Debian or Fedora `.qcow2`.
pub open spec fn needs_cloud_init_spec(f: Seq<char>) -> bool {
    ||| contains(f, "cloudimg"@)
    ||| contains(f, "cloud"@)
    ||| contains(f, "generic"@)
    ||| (ends_with(f, ".img"@) && !contains(f, "disk"@))
    ||| (ends_with(f, ".qcow2"@) && (contains(f, "ubuntu"@) || contains(f, "debian"@) || contains(
        f,
        "fedora"@,
    )))
}

/// Decides from the image's file name (empty when it has none).
pub fn needs_cloud_init(filename: &str) -> (r: bool)
    ensures
        r == needs_cloud_init_spec(filename@),
{
    let f = chars_of(filename);
    contains_chars(&f, &chars_of("cloudimg")) || contains_chars(&f, &chars_of("cloud"))
        || contains_chars(&f, &chars_of("generic")) || (ends_with_chars(&f, &chars_of(".img"))
        && !contains_chars(&f, &chars_of("disk"))) || (ends_with_chars(&f, &chars_of(".qcow2")) && (
    contains_chars(&f, &chars_of("ubuntu")) || contains_chars(&f, &chars_of("debian"))
        || contains_chars(&f, &chars_of("fedora"))))
}

// ---------------------------------------------------------------------------
// Searching the catalogue
// ---------------------------------------------------------------------------

/// A catalogue entry matches a query when the lower-cased query occurs in
/// its lower-cased name or version.
pub open spec fn cloud_matches(c: CloudImageView, q: Seq<char>) -> bool {
    matches_lower(c.name, q) || matches_lower(c.version, q)
}

/// The entries matching `q`, in catalogue order.
pub open spec fn cloud_filter(cat: Seq<CloudImageView>, q: Seq<char>) -> Seq<CloudImageView>
    decreases cat.len(),
{
    if cat.len() == 0 {
        seq![]
    } else if cloud_matches(cat.last(), q) {
        cloud_filter(cat.drop_last(), q).push(cat.last())
    } else {
        cloud_filter(cat.drop_last(), q)
    }
}

/// The catalogue entries matching a query, as `cave image search` offers
/// them.
pub fn images_matching(query: &str) -> (r: Vec<CloudImage>)
    ensures
        image_views(r@) == cloud_filter(catalogue(), query@),
{
    let cat = cloud_images();
    let ghost cv = image_views(cat@);
    let n = cat.len();
    let mut out: Vec<CloudImage> = Vec::new();
    for c in it: cat.into_iter()
        invariant
            it.seq() == cat@,
            cv == image_views(cat@),
            cv == catalogue(),
            n == cat@.len(),
            image_views(out@) == cloud_filter(cv.take(it.index() as int), query@),
    {
        let ghost i = it.index();
        assert(cv.take(i + 1).drop_last() =~= cv.take(i as int));
        assert(cv.take(i + 1).last() == c@);
        if matches_lower_exec(c.name.as_str(), query) || matches_lower_exec(c.version.as_str(), query) {
            let ghost before = image_views(out@);
            out.push(c);
            assert(image_views(out@) =~= before.push(cv[i as int]));
        }
    }
    assert(cv.take(n as int) =~= cv);
    out
}

// ---------------------------------------------------------------------------
// Listing local images
// ---------------------------------------------------------------------------

/// The image lists are ordered by file name.
pub open spec fn by_file_name() -> spec_fn((String, u64)) -> Seq<char> {
    |p: (String, u64)| p.0@
}

/// Orders (file name, size) entries by file name, stably.
pub fn sort_by_file_name(items: Vec<(String, u64)>) -> (r: Vec<(String, u64)>)
    ensures
        r@ == sorted_by(items@, by_file_name()),
{
    let ghost input = items@;
    let ghost key = by_file_name();
    let ghost n = items@.len();
    let mut out: Vec<(String, u64)> = Vec::new();
    for d in it: items.into_iter()
        invariant
            it.seq() == input,
            key == by_file_name(),
            n == input.len(),
            out@ == sorted_by(input.take(it.index() as int), key),
    {
        let ghost i = it.index();
        let name = chars_of(d.0.as_str());
        let mut p: usize = 0;
        while p < out.len() && lex_le_chars(&chars_of(out[p].0.as_str()), &name)
            invariant
                p <= out.len(),
                key == by_file_name(),
                name@ == d.0@,
                forall|k: int| 0 <= k < p ==> lex_le(key(#[trigger] out@[k]), key(d)),
            decreases out.len() - p,
        {
            p = p + 1;
        }
        let ghost before = out@;
        proof {
            lemma_insert_pos_by_at(before, d, key, p as int);
            assert(input.take(i + 1).drop_last() =~= input.take(i as int));
            assert(input.take(i + 1).last() == d);
        }
        out.insert(p, d);
    }
    assert(input.take(n as int) =~= input);
    out
}

/// What `cave images` lists of a directory's files (name and size): all
/// but cloud-init seeds, by name.
pub fn listed_images(entries: Vec<(String, u64)>) -> (r: Vec<(String, u64)>)
    ensures
        r@ == sorted_by(entries@.filter(|p: (String, u64)| listed_image(p.0@)), by_file_name()),
{
    let ghost input = entries@;
    let ghost keep = |p: (String, u64)| listed_image(p.0@);
    let ghost n = entries@.len();
    let mut kept: Vec<(String, u64)> = Vec::new();
    for d in it: entries.into_iter()
        invariant
            it.seq() == input,
            n == input.len(),
            keep == (|p: (String, u64)| listed_image(p.0@)),
            kept@ == input.take(it.index() as int).filter(keep),
    {
        let ghost i = it.index();
        proof {
            assert(input.take(i + 1).drop_last() =~= input.take(i as int));
            assert(input.take(i + 1).last() == d);
            reveal(Seq::filter);
        }
        if is_listed_image(d.0.as_str()) {
            kept.push(d);
        }
    }
    assert(input.take(n as int) =~= input);
    sort_by_file_name(kept)
}

/// What `cave node deploy` offers of a directory's files: no seeds, no
/// `.cave.` files and no `.qcow2` disks, by name.
pub fn deployable_images(entries: Vec<(String, u64)>) -> (r: Vec<(String, u64)>)
    ensures
        r@ == sorted_by(entries@.filter(|p: (String, u64)| deployable_image(p.0@)), by_file_name()),
{
    let ghost input = entries@;
    let ghost keep = |p: (String, u64)| deployable_image(p.0@);
    let ghost n = entries@.len();
    let mut kept: Vec<(String, u64)> = Vec::new();
    for d in it: entries.into_iter()
        invariant
            it.seq() == input,
            n == input.len(),
            keep == (|p: (String, u64)| deployable_image(p.0@)),
            kept@ == input.take(it.index() as int).filter(keep),
    {
        let ghost i = it.index();
        proof {
            assert(input.take(i + 1).drop_last() =~= input.take(i as int));
            assert(input.take(i + 1).last() == d);
            reveal(Seq::filter);
        }
        if is_deployable_image(d.0.as_str()) {
            kept.push(d);
        }
    }
    assert(input.take(n as int) =~= input);
    sort_by_file_name(kept)
}

} // verus!
