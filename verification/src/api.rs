//! The decisions behind the HTTP endpoints: uploads, background images, remote fetches and
//! the clipboard history.
use vstd::prelude::*;
use vstd::string::StringSliceAdditionalSpecFns;
use crate::models::{
    ApiError, ClipboardItem, ClipboardItemView, RecordClipboardRequest, is_api_error, opt_view,
    STATUS_BAD_REQUEST, STATUS_FORBIDDEN,
};
use crate::config::{join_path, path_join};
use crate::text::{
    ascii_lowercase, chars_of, concat3, concat_str, has_prefix, i64_to_decimal, last_segment, lemma_signed_decimal,
    last_segment_of, signed_decimal, split_char, split_string, str_eq, str_starts_with,
    to_ascii_lowercase, join_with, lemma_split_join,
};
use crate::fresh::{is_uuid_text, unix_millis, unix_seconds, uuid_text};

verus! {

// ─── Terminal sizes ─────────────────────────────────────────────────────

/// A reported terminal dimension, limited to 1..=1000 cells for tmux.
pub open spec fn clamp_axis_spec(value: u32) -> u16 {
    if value < 1 {
        1
    } else if value > 1000 {
        1000
    } else {
        value as u16
    }
}

/// A reported terminal dimension, limited to 1..=1000 cells.
pub fn clamp_axis(value: u32) -> (r: u16)
    ensures
        r == clamp_axis_spec(value),
        1 <= r <= 1000,
        1 <= value <= 1000 ==> r == value,
        value < 1 ==> r == 1,
        value > 1000 ==> r == 1000,
{
    if value < 1 {
        1
    } else if value > 1000 {
        1000
    } else {
        value as u16
    }
}

// ─── Pasted files ───────────────────────────────────────────────────────

/// The extension an image type maps to, for the types the clipboard bridge knows.
pub open spec fn extension_of_type(t: Seq<char>) -> Option<Seq<char>> {
    if t == "image/png"@ {
        Some("png"@)
    } else if t == "image/jpeg"@ || t == "image/jpg"@ {
        Some("jpg"@)
    } else if t == "image/gif"@ {
        Some("gif"@)
    } else if t == "image/webp"@ {
        Some("webp"@)
    } else if t == "image/bmp"@ {
        Some("bmp"@)
    } else if t == "image/tiff"@ {
        Some("tiff"@)
    } else {
        None
    }
}

/// The extension a file-name extension maps to, for the image extensions known.
pub open spec fn extension_of_suffix(e: Seq<char>) -> Option<Seq<char>> {
    if e == "png"@ {
        Some("png"@)
    } else if e == "jpg"@ || e == "jpeg"@ {
        Some("jpg"@)
    } else if e == "gif"@ {
        Some("gif"@)
    } else if e == "webp"@ {
        Some("webp"@)
    } else if e == "bmp"@ {
        Some("bmp"@)
    } else if e == "tif"@ || e == "tiff"@ {
        Some("tiff"@)
    } else {
        None
    }
}

/// The extension a pasted file is stored under: from its content type (ASCII case
/// ignored), else from the part of its file name after the last dot, else `bin`.
pub open spec fn clipboard_extension_spec(
    content_type: Option<Seq<char>>,
    file_name: Option<Seq<char>>,
) -> Seq<char> {
    let t = ascii_lowercase(
        match content_type {
            Some(c) => c,
            None => Seq::<char>::empty(),
        },
    );
    match extension_of_type(t) {
        Some(e) => e,
        None => match file_name {
            Some(n) => match extension_of_suffix(ascii_lowercase(last_segment(n, '.'))) {
                Some(e) => e,
                None => "bin"@,
            },
            None => "bin"@,
        },
    }
}

/// A pasted file is stored as a known image type or as `bin`: the content type (in any
/// ASCII case) decides when it names one (`image/png` gives `png`, `image/jpeg` and
/// `image/jpg` give `jpg`), else the file name's last extension, else `bin`.
pub proof fn lemma_clipboard_extension_meaning(content_type: Option<Seq<char>>, file_name: Option<Seq<char>>)
    ensures
        ({
            let e = clipboard_extension_spec(content_type, file_name);
            e == "png"@ || e == "jpg"@ || e == "gif"@ || e == "webp"@ || e == "bmp"@ || e == "tiff"@
                || e == "bin"@
        }),
        content_type matches Some(c) && ascii_lowercase(c) == "image/png"@ ==> clipboard_extension_spec(
            content_type,
            file_name,
        ) == "png"@,
        content_type matches Some(c) && (ascii_lowercase(c) == "image/jpeg"@ || ascii_lowercase(c)
            == "image/jpg"@) ==> clipboard_extension_spec(content_type, file_name) == "jpg"@,
        content_type is None && file_name is None ==> clipboard_extension_spec(content_type, file_name)
            == "bin"@,
{
    reveal_strlit("image/png");
    reveal_strlit("image/jpeg");
    reveal_strlit("image/jpg");
    reveal_strlit("image/gif");
    reveal_strlit("image/webp");
    reveal_strlit("image/bmp");
    reveal_strlit("image/tiff");
    reveal_strlit("png");
    reveal_strlit("jpg");
    reveal_strlit("gif");
    reveal_strlit("webp");
    reveal_strlit("bmp");
    reveal_strlit("tiff");
    reveal_strlit("bin");
    reveal_strlit("jpeg");
    reveal_strlit("tif");
    assert("image/png"@[6] != "image/jpg"@[6]);
    assert("image/png"@[6] != "image/gif"@[6]);
    assert("image/png"@[6] != "image/bmp"@[6]);
    assert("image/jpg"@[6] != "image/gif"@[6]);
    assert("image/jpg"@[6] != "image/bmp"@[6]);
    assert("image/jpeg"@[6] != "image/webp"@[6]);
    assert("image/jpeg"@[6] != "image/tiff"@[6]);
    assert(ascii_lowercase(Seq::<char>::empty()) =~= Seq::<char>::empty());
}

fn extension_of_type_exec(t: &str) -> (r: Option<String>)
    ensures
        opt_view(r) == extension_of_type(t@),
{
    if str_eq(t, "image/png") {
        Some(String::from_str("png"))
    } else if str_eq(t, "image/jpeg") || str_eq(t, "image/jpg") {
        Some(String::from_str("jpg"))
    } else if str_eq(t, "image/gif") {
        Some(String::from_str("gif"))
    } else if str_eq(t, "image/webp") {
        Some(String::from_str("webp"))
    } else if str_eq(t, "image/bmp") {
        Some(String::from_str("bmp"))
    } else if str_eq(t, "image/tiff") {
        Some(String::from_str("tiff"))
    } else {
        None
    }
}

fn extension_of_suffix_exec(e: &str) -> (r: Option<String>)
    ensures
        opt_view(r) == extension_of_suffix(e@),
{
    if str_eq(e, "png") {
        Some(String::from_str("png"))
    } else if str_eq(e, "jpg") || str_eq(e, "jpeg") {
        Some(String::from_str("jpg"))
    } else if str_eq(e, "gif") {
        Some(String::from_str("gif"))
    } else if str_eq(e, "webp") {
        Some(String::from_str("webp"))
    } else if str_eq(e, "bmp") {
        Some(String::from_str("bmp"))
    } else if str_eq(e, "tif") || str_eq(e, "tiff") {
        Some(String::from_str("tiff"))
    } else {
        None
    }
}

/// The extension a pasted file is stored under.
pub fn clipboard_extension(content_type: Option<&str>, file_name: Option<&str>) -> (r: String)
    ensures
        r@ == clipboard_extension_spec(
            match content_type {
                Some(c) => Some(c@),
                None => None,
            },
            match file_name {
                Some(n) => Some(n@),
                None => None,
            },
        ),
{
    let t = match content_type {
        Some(c) => to_ascii_lowercase(c),
        None => {
            proof {
                reveal_strlit("");
                assert(""@ =~= Seq::<char>::empty());
            }
            to_ascii_lowercase("")
        },
    };
    match extension_of_type_exec(t.as_str()) {
        Some(e) => e,
        None => match file_name {
            Some(n) => {
                let last = last_segment_of(n, '.');
                let lower = to_ascii_lowercase(last.as_str());
                match extension_of_suffix_exec(lower.as_str()) {
                    Some(e) => e,
                    None => String::from_str("bin"),
                }
            },
            None => String::from_str("bin"),
        },
    }
}

/// The name a pasted file is stored under, under a fresh random UUID: `paste-<uuid>.<ext>`
/// with the extension that the content type or file name gives.
pub fn new_clipboard_file_name(content_type: Option<&str>, file_name: Option<&str>) -> (r: String)
    ensures
        exists|u: Seq<char>|
            is_uuid_text(u) && r@ == "paste-"@ + u + "."@ + clipboard_extension_spec(
                match content_type {
                    Some(c) => Some(c@),
                    None => None,
                },
                match file_name {
                    Some(n) => Some(n@),
                    None => None,
                },
            ),
{
    let ext = clipboard_extension(content_type, file_name);
    let u = uuid_text();
    let r = clipboard_file_name(u.as_str(), ext.as_str());
    assert(is_uuid_text(u@) && r@ == "paste-"@ + u@ + "."@ + ext@);
    r
}

/// The name a pasted file is stored under: `paste-<unique>.<ext>`.
pub fn clipboard_file_name(unique: &str, ext: &str) -> (r: String)
    ensures
        r@ == "paste-"@ + unique@ + "."@ + ext@,
{
    let head = concat3("paste-", unique, ".");
    concat_str(head.as_str(), ext)
}

// ─── Paths ──────────────────────────────────────────────────────────────

/// One component of a Unix path, as `Path::components` yields it.
pub enum PathComponent {
    RootDir,
    CurDir,
    ParentDir,
    Normal(Seq<char>),
}

/// The component a `/`-separated segment stands for; empty and `.` segments stand for none.
pub open spec fn segment_component(seg: Seq<char>) -> Option<PathComponent> {
    if seg.len() == 0 || seg == "."@ {
        None
    } else if seg == ".."@ {
        Some(PathComponent::ParentDir)
    } else {
        Some(PathComponent::Normal(seg))
    }
}

/// The components the segments stand for, in order.
pub open spec fn segments_components(segs: Seq<Seq<char>>) -> Seq<PathComponent>
    decreases segs.len(),
{
    if segs.len() == 0 {
        seq![]
    } else {
        let prev = segments_components(segs.drop_last());
        match segment_component(segs.last()) {
            Some(c) => prev.push(c),
            None => prev,
        }
    }
}

/// `Path::components` on Unix: a leading `/` gives the root; a leading `.` segment of a
/// relative path gives the current directory; then every segment except empty and `.`
/// ones, `..` as the parent directory.
pub open spec fn path_components(p: Seq<char>) -> Seq<PathComponent> {
    let segs = split_char(p, '/');
    if p.len() > 0 && p[0] == '/' {
        seq![PathComponent::RootDir] + segments_components(segs)
    } else if segs.len() > 0 && segs[0] == "."@ {
        seq![PathComponent::CurDir] + segments_components(segs.drop_first())
    } else {
        segments_components(segs)
    }
}

/// One component of a path.
#[derive(Debug)]
pub enum Component {
    RootDir,
    CurDir,
    ParentDir,
    Normal(String),
}

impl View for Component {
    type V = PathComponent;

    open spec fn view(&self) -> PathComponent {
        match self {
            Component::RootDir => PathComponent::RootDir,
            Component::CurDir => PathComponent::CurDir,
            Component::ParentDir => PathComponent::ParentDir,
            Component::Normal(s) => PathComponent::Normal(s@),
        }
    }
}

/// The views of a list of components.
pub open spec fn components_view(c: Seq<Component>) -> Seq<PathComponent> {
    c.map_values(|x: Component| x@)
}

fn push_segment(out: &mut Vec<Component>, seg: &str)
    ensures
        components_view(final(out)@) == (match segment_component(seg@) {
            Some(c) => components_view(old(out)@).push(c),
            None => components_view(old(out)@),
        }),
{
    let ghost before = components_view(out@);
    if seg.is_empty() || str_eq(seg, ".") {
        return;
    }
    if str_eq(seg, "..") {
        out.push(Component::ParentDir);
    } else {
        out.push(Component::Normal(String::from_str(seg)));
    }
    assert(components_view(out@) =~= before.push(out@.last()@));
}

/// The components of a path (`Path::components`).
pub fn components_of(p: &str) -> (r: Vec<Component>)
    ensures
        components_view(r@) == path_components(p@),
{
    let segs = split_string(p, '/');
    let ghost sv = segs.deep_view();
    let v = chars_of(p);
    let mut out: Vec<Component> = Vec::new();
    let rooted = v.len() > 0 && v[0] == '/';
    let mut start: usize = 0;
    if rooted {
        out.push(Component::RootDir);
    } else if segs.len() > 0 && str_eq(segs[0].as_str(), ".") {
        out.push(Component::CurDir);
        start = 1;
    }
    let ghost head = components_view(out@);
    assert(sv.subrange(start as int, start as int) =~= Seq::<Seq<char>>::empty());
    let mut i: usize = start;
    while i < segs.len()
        invariant
            sv == segs.deep_view(),
            start <= i <= segs@.len(),
            components_view(out@) == head + segments_components(sv.subrange(
                start as int,
                i as int,
            )),
        decreases segs.len() - i,
    {
        push_segment(&mut out, segs[i].as_str());
        proof {
            let t = sv.subrange(start as int, i + 1);
            assert(t.drop_last() =~= sv.subrange(start as int, i as int));
            assert(t.last() == segs[i as int]@);
            match segment_component(segs[i as int]@) {
                Some(c) => assert(head + segments_components(t) =~= (head + segments_components(
                    sv.subrange(start as int, i as int),
                )).push(c)),
                None => {},
            }
        }
        i = i + 1;
    }
    proof {
        if rooted {
            assert(sv.subrange(0, sv.len() as int) =~= sv);
        } else if start == 1 {
            assert(sv.subrange(1, sv.len() as int) =~= sv.drop_first());
        } else {
            assert(sv.subrange(0, sv.len() as int) =~= sv);
        }
    }
    out
}

/// Two components are the same.
fn same_component(a: &Component, b: &Component) -> (r: bool)
    ensures
        r == (a@ == b@),
{
    match (a, b) {
        (Component::RootDir, Component::RootDir) => true,
        (Component::CurDir, Component::CurDir) => true,
        (Component::ParentDir, Component::ParentDir) => true,
        (Component::Normal(x), Component::Normal(y)) => str_eq(x.as_str(), y.as_str()),
        _ => false,
    }
}

/// `Path::starts_with`: the components of `base` begin the components of `path`.
pub open spec fn path_starts_with(path: Seq<char>, base: Seq<char>) -> bool {
    let p = path_components(path);
    let b = path_components(base);
    b.len() <= p.len() && p.take(b.len() as int) == b
}

/// Whether `path` lies under `base`, compared by components.
pub fn path_starts_with_exec(path: &str, base: &str) -> (r: bool)
    ensures
        r == path_starts_with(path@, base@),
{
    let p = components_of(path);
    let b = components_of(base);
    let ghost pv = components_view(p@);
    let ghost bv = components_view(b@);
    assert(pv.len() == p@.len() && bv.len() == b@.len());
    if b.len() > p.len() {
        return false;
    }
    let mut i: usize = 0;
    while i < b.len()
        invariant
            pv == components_view(p@),
            bv == components_view(b@),
            pv == path_components(path@),
            bv == path_components(base@),
            pv.len() == p@.len(),
            bv.len() == b@.len(),
            b@.len() <= p@.len(),
            i <= b@.len(),
            forall|j: int| 0 <= j < i ==> pv[j] == bv[j],
        decreases b.len() - i,
    {
        if !same_component(&p[i], &b[i]) {
            assert(pv.take(bv.len() as int)[i as int] != bv[i as int]);
            return false;
        }
        i = i + 1;
    }
    assert(pv.take(bv.len() as int) =~= bv);
    true
}

/// The file name a background request may read: exactly one ordinary component that does
/// not start with a dot. Separators, `..`, a root, a leading `.` and the empty name are
/// refused.
pub open spec fn background_name(filename: Seq<char>) -> Option<Seq<char>> {
    let c = path_components(filename);
    if c.len() == 1 {
        match c[0] {
            PathComponent::Normal(n) => if n.len() > 0 && n[0] == '.' {
                None
            } else {
                Some(n)
            },
            _ => None,
        }
    } else {
        None
    }
}

/// The background image file a request names, inside the backgrounds directory.
pub fn resolve_background_path(backgrounds_dir: &str, filename: &str) -> (r: Option<String>)
    ensures
        opt_view(r) == (match background_name(filename@) {
            Some(n) => Some(path_join(backgrounds_dir@, n)),
            None => None,
        }),
{
    let comps = components_of(filename);
    if comps.len() != 1 {
        return None;
    }
    assert(components_view(comps@)[0] == comps@[0]@);
    match &comps[0] {
        Component::Normal(name) => {
            let v = chars_of(name.as_str());
            if v.len() > 0 && v[0] == '.' {
                None
            } else {
                Some(join_path(backgrounds_dir, name.as_str()))
            }
        },
        _ => None,
    }
}

proof fn lemma_segments_normal(segs: Seq<Seq<char>>)
    ensures
        forall|i: int|
            0 <= i < segments_components(segs).len() ==> (#[trigger] segments_components(segs)[i]
                matches PathComponent::Normal(n) ==> n.len() > 0),
    decreases segs.len(),
{
    if segs.len() > 0 {
        lemma_segments_normal(segs.drop_last());
    }
}

/// A name `resolve_background_path` accepts is a single ordinary name: not empty, no `/`,
/// not `..`, no leading dot; so the path it gives is that name directly inside the
/// backgrounds directory.
pub proof fn lemma_background_name_is_plain(filename: Seq<char>)
    requires
        background_name(filename) is Some,
    ensures
        ({
            let n = background_name(filename)->0;
            &&& n.len() > 0
            &&& n[0] != '.'
            &&& n != ".."@
        }),
{
    let c = path_components(filename);
    let n = background_name(filename)->0;
    let segs = split_char(filename, '/');
    assert(c[0] == PathComponent::Normal(n));
    if filename.len() > 0 && filename[0] == '/' {
        assert(c[0] == PathComponent::RootDir);
    } else if segs.len() > 0 && segs[0] == "."@ {
        assert(c[0] == PathComponent::CurDir);
    } else {
        lemma_segments_normal(segs);
        assert(c[0] matches PathComponent::Normal(m) && m.len() > 0);
    }
    reveal_strlit("..");
    if n == ".."@ {
        assert(n[0] == '.');
    }
}

/// Every plain file name is accepted as itself: a non-empty name with no `/` that does not
/// start with a dot names that file inside the backgrounds directory.
pub proof fn lemma_plain_name_accepted(name: Seq<char>)
    requires
        name.len() > 0,
        !name.contains('/'),
        name[0] != '.',
    ensures
        background_name(name) == Some(name),
{
    reveal_strlit(".");
    reveal_strlit("..");
    assert(forall|i: int| 0 <= i < seq![name].len() ==> !(#[trigger] seq![name][i]).contains('/'));
    lemma_split_join(seq![name], '/');
    assert(join_with(seq![name], '/') == name);
    let segs = split_char(name, '/');
    assert(segs == seq![name]);
    assert(name != "."@) by {
        if name == "."@ {
            assert(name[0] == '.');
        }
    }
    assert(name != ".."@) by {
        if name == ".."@ {
            assert(name[0] == '.');
        }
    }
    assert(name[0] != '/') by {
        if name[0] == '/' {
            assert(name.contains('/'));
        }
    }
    assert(segs.drop_last() =~= Seq::<Seq<char>>::empty());
    assert(segments_components(segs) == segments_components(Seq::<Seq<char>>::empty()).push(
        PathComponent::Normal(name),
    ));
    assert(path_components(name) =~= seq![PathComponent::Normal(name)]);
}

// ─── Background images ──────────────────────────────────────────────────

/// The prefix that marks a user's background files: `<uid>_`.
pub open spec fn owner_prefix(uid: i64) -> Seq<char> {
    signed_decimal(uid as int) + "_"@
}

/// Whether a background file belongs to `uid` (its name starts with `<uid>_`).
pub fn owns_background(uid: i64, file_name: &str) -> (r: bool)
    ensures
        r == has_prefix(file_name@, owner_prefix(uid)),
{
    let d = i64_to_decimal(uid);
    let prefix = concat_str(d.as_str(), "_");
    str_starts_with(file_name, prefix.as_str())
}

/// The name an uploaded background is stored under: `<uid>_<timestamp>.png`, or
/// `<uid>_<timestamp>_url.png` when it was fetched from a URL.
pub fn background_file_name(uid: i64, timestamp: i64, from_url: bool) -> (r: String)
    ensures
        r@ == owner_prefix(uid) + signed_decimal(timestamp as int) + (if from_url {
            "_url.png"@
        } else {
            ".png"@
        }),
{
    let u = i64_to_decimal(uid);
    let t = i64_to_decimal(timestamp);
    let head = concat3(u.as_str(), "_", t.as_str());
    if from_url {
        concat_str(head.as_str(), "_url.png")
    } else {
        concat_str(head.as_str(), ".png")
    }
}

/// The name a background stored now is kept under, the clock giving the timestamp.
pub fn new_background_file_name(uid: i64, from_url: bool) -> (r: String)
    ensures
        exists|t: i64|
            t >= 0 && r@ == owner_prefix(uid) + signed_decimal(t as int) + (if from_url {
                "_url.png"@
            } else {
                ".png"@
            }),
{
    let t = unix_seconds();
    let r = background_file_name(uid, t, from_url);
    assert(t >= 0 && r@ == owner_prefix(uid) + signed_decimal(t as int) + (if from_url {
        "_url.png"@
    } else {
        ".png"@
    }));
    r
}

/// A user's stored backgrounds carry the user's prefix, so the user's purge removes them
/// and no other user's purge does.
pub proof fn lemma_background_owner(uid: i64, other: i64, timestamp: i64, suffix: Seq<char>)
    ensures
        has_prefix(owner_prefix(uid) + signed_decimal(timestamp as int) + suffix, owner_prefix(uid)),
        other != uid ==> !has_prefix(
            owner_prefix(uid) + signed_decimal(timestamp as int) + suffix,
            owner_prefix(other),
        ),
{
    let whole = owner_prefix(uid) + signed_decimal(timestamp as int) + suffix;
    assert(whole.take(owner_prefix(uid).len() as int) =~= owner_prefix(uid));
    reveal_strlit("_");
    lemma_signed_decimal(uid as int, other as int);
    lemma_signed_decimal(other as int, uid as int);
    if other != uid && has_prefix(whole, owner_prefix(other)) {
        let d = signed_decimal(uid as int);
        let e = signed_decimal(other as int);
        let p = owner_prefix(other);
        assert(whole.take(p.len() as int) == p);
        assert(p.len() == e.len() + 1 && p[e.len() as int] == '_');
        assert(whole[d.len() as int] == '_');
        assert(forall|i: int| 0 <= i < p.len() ==> whole.take(p.len() as int)[i] == whole[i]);
        if e.len() < d.len() {
            assert(whole[e.len() as int] == p[e.len() as int]);
            assert(whole[e.len() as int] == d[e.len() as int]);
        } else if e.len() > d.len() {
            assert(whole[d.len() as int] == p[d.len() as int]);
            assert(p[d.len() as int] == e[d.len() as int]);
        } else {
            assert(e =~= d) by {
                assert forall|i: int| 0 <= i < e.len() implies e[i] == d[i] by {
                    assert(whole[i] == p[i]);
                }
            }
        }
    }
}

// ─── Remote images ──────────────────────────────────────────────────────

/// An address that a remote fetch must not reach.
#[derive(Debug)]
pub enum IpAddress {
    V4(u8, u8, u8, u8),
    V6([u16; 8]),
}

/// Loopback (127/8), link-local (169.254/16), broadcast, unspecified and multicast
/// (224/4) IPv4 addresses are refused; private ranges are not.
pub open spec fn v4_blocked(a: u8, b: u8, c: u8, d: u8) -> bool {
    ||| a == 127
    ||| (a == 169 && b == 254)
    ||| (a == 255 && b == 255 && c == 255 && d == 255)
    ||| (a == 0 && b == 0 && c == 0 && d == 0)
    ||| (224 <= a && a <= 239)
}

/// The IPv4 address an IPv4-mapped IPv6 address (`::ffff:a.b.c.d`) carries.
pub open spec fn v4_mapped(s: Seq<u16>) -> Option<(u8, u8, u8, u8)> {
    if s[0] == 0 && s[1] == 0 && s[2] == 0 && s[3] == 0 && s[4] == 0 && s[5] == 0xffff {
        Some(((s[6] / 256) as u8, (s[6] % 256) as u8, (s[7] / 256) as u8, (s[7] % 256) as u8))
    } else {
        None
    }
}

/// Loopback (`::1`), unspecified, multicast (ff00::/8) and link-local (fe80::/10) IPv6
/// addresses are refused, and mapped IPv4 addresses by the IPv4 rule.
pub open spec fn v6_blocked(s: Seq<u16>) -> bool {
    ||| (s[0] == 0 && s[1] == 0 && s[2] == 0 && s[3] == 0 && s[4] == 0 && s[5] == 0 && s[6] == 0
        && s[7] == 1)
    ||| (s[0] == 0 && s[1] == 0 && s[2] == 0 && s[3] == 0 && s[4] == 0 && s[5] == 0 && s[6] == 0
        && s[7] == 0)
    ||| s[0] >= 0xff00
    ||| (0xfe80 <= s[0] && s[0] <= 0xfebf)
    ||| (v4_mapped(s) matches Some((a, b, c, d)) && v4_blocked(a, b, c, d))
}

/// Whether an address is refused.
pub open spec fn ip_blocked(ip: IpAddress) -> bool {
    match ip {
        IpAddress::V4(a, b, c, d) => v4_blocked(a, b, c, d),
        IpAddress::V6(s) => v6_blocked(s@),
    }
}

fn v4_blocked_exec(a: u8, b: u8, c: u8, d: u8) -> (r: bool)
    ensures
        r == v4_blocked(a, b, c, d),
{
    a == 127 || (a == 169 && b == 254) || (a == 255 && b == 255 && c == 255 && d == 255) || (a
        == 0 && b == 0 && c == 0 && d == 0) || (224 <= a && a <= 239)
}

/// Whether a fetch may not reach this address.
pub fn is_blocked_ip(ip: &IpAddress) -> (r: bool)
    ensures
        r == ip_blocked(*ip),
        *ip matches IpAddress::V4(a, b, c, d) ==> (r <==> (a == 127 || (a == 169 && b == 254) || (a
            == 255 && b == 255 && c == 255 && d == 255) || (a == 0 && b == 0 && c == 0 && d == 0)
            || (224 <= a && a <= 239))),
        *ip matches IpAddress::V6(s) ==> (s@[0] >= 0xff00 || (0xfe80 <= s@[0] && s@[0] <= 0xfebf)
            ==> r),
        *ip matches IpAddress::V6(s) ==> (s@[0] == 0 && s@[1] == 0 && s@[2] == 0 && s@[3] == 0
            && s@[4] == 0 && s@[5] == 0 && s@[6] == 0 && s@[7] <= 1 ==> r),
{
    match ip {
        IpAddress::V4(a, b, c, d) => v4_blocked_exec(*a, *b, *c, *d),
        IpAddress::V6(s) => {
            let zero_prefix = s[0] == 0 && s[1] == 0 && s[2] == 0 && s[3] == 0 && s[4] == 0
                && s[5] == 0 && s[6] == 0;
            if zero_prefix && (s[7] == 1 || s[7] == 0) {
                return true;
            }
            if s[0] >= 0xff00 || (0xfe80 <= s[0] && s[0] <= 0xfebf) {
                return true;
            }
            if s[0] == 0 && s[1] == 0 && s[2] == 0 && s[3] == 0 && s[4] == 0 && s[5] == 0xffff {
                let a = (s[6] / 256) as u8;
                let b = (s[6] % 256) as u8;
                let c = (s[7] / 256) as u8;
                let d = (s[7] % 256) as u8;
                return v4_blocked_exec(a, b, c, d);
            }
            false
        },
    }
}

/// An IPv4 address written as an IPv4-mapped IPv6 address is refused exactly when the
/// IPv4 address is.
pub proof fn lemma_mapped_like_v4(a: u8, b: u8, c: u8, d: u8, s: Seq<u16>)
    requires
        s.len() == 8,
        s[0] == 0 && s[1] == 0 && s[2] == 0 && s[3] == 0 && s[4] == 0,
        s[5] == 0xffff,
        s[6] == a as int * 256 + b as int,
        s[7] == c as int * 256 + d as int,
    ensures
        v6_blocked(s) == v4_blocked(a, b, c, d),
{
    assert(v4_mapped(s) == Some((a, b, c, d)));
}

/// What `reqwest::Url::parse` finds in a URL: its scheme, host and port (the scheme's
/// default port when none is written), or `None` when it does not parse.
pub uninterp spec fn url_parts(input: Seq<char>) -> Option<(Seq<char>, Option<Seq<char>>, Option<u16>)>;

/// The parts of a URL that a fetch needs.
#[derive(Debug)]
pub struct UrlParts {
    pub scheme: String,
    pub host: Option<String>,
    pub port: Option<u16>,
}

/// `reqwest::Url::parse`, then the URL's `scheme()`, `host_str()` and
/// `port_or_known_default()`. For `http` and `https` the port is never missing (80 and 443
/// are their defaults). How a URL is parsed is not stated.
#[verifier::external_body]
fn parse_url(input: &str) -> (r: Option<UrlParts>)
    ensures
        match r {
            Some(p) => url_parts(input@) == Some((p.scheme@, opt_view(p.host), p.port)),
            None => url_parts(input@) is None,
        },
        r matches Some(p) ==> ((p.scheme@ == "http"@ || p.scheme@ == "https"@) ==> p.port
            is Some),
{
    match reqwest::Url::parse(input) {
        Ok(u) => Some(
            UrlParts {
                scheme: u.scheme().to_string(),
                host: u.host_str().map(|h| h.to_string()),
                port: u.port_or_known_default(),
            },
        ),
        Err(_) => None,
    }
}

/// Where a fetch connects.
#[derive(Debug)]
pub struct FetchTarget {
    pub host: String,
    pub port: u16,
}

/// What a URL for a background image allows: an `http` or `https` URL with a host.
pub open spec fn image_url_post(parts: Option<(Seq<char>, Option<Seq<char>>, Option<u16>)>, r: Result<
    FetchTarget,
    ApiError,
>) -> bool {
    match parts {
        None => r matches Err(e) && is_api_error(e, STATUS_BAD_REQUEST, "URL 格式无效"@),
        Some((scheme, host, port)) => if scheme != "http"@ && scheme != "https"@ {
            r matches Err(e) && is_api_error(e, STATUS_BAD_REQUEST, "仅支持 http/https 链接"@)
        } else {
            match host {
                None => r matches Err(e) && is_api_error(
                    e,
                    STATUS_BAD_REQUEST,
                    "URL 缺少主机名"@,
                ),
                Some(h) => r matches Ok(t) && t.host@ == h && t.port == (match port {
                    Some(p) => p,
                    None => 80,
                }),
            }
        },
    }
}

/// The parts a URL parse found, as plain values.
pub open spec fn url_parts_view(p: Option<UrlParts>) -> Option<(Seq<char>, Option<Seq<char>>, Option<u16>)> {
    match p {
        Some(x) => Some((x.scheme@, opt_view(x.host), x.port)),
        None => None,
    }
}

/// Where a background-image URL with these parts may be fetched from (`None` when the URL
/// did not parse): an `http` or `https` URL with a host.
pub fn fetch_target(parts: Option<UrlParts>) -> (r: Result<FetchTarget, ApiError>)
    ensures
        image_url_post(url_parts_view(parts), r),
{
    match parts {
        None => Err(ApiError::new(String::from_str("URL 格式无效"))),
        Some(p) => {
            if !str_eq(p.scheme.as_str(), "http") && !str_eq(p.scheme.as_str(), "https") {
                return Err(ApiError::new(String::from_str("仅支持 http/https 链接")));
            }
            match p.host {
                None => Err(ApiError::new(String::from_str("URL 缺少主机名"))),
                Some(h) => Ok(
                    FetchTarget {
                        host: h,
                        port: match p.port {
                            Some(x) => x,
                            None => 80,
                        },
                    },
                ),
            }
        },
    }
}

/// A background image is fetched only from an `http` or `https` URL with a host, at the
/// URL's port (80 when none is known); every other URL is refused, and a URL that does not
/// parse is reported as such.
pub proof fn lemma_image_url_meaning(
    parts: Option<(Seq<char>, Option<Seq<char>>, Option<u16>)>,
    r: Result<FetchTarget, ApiError>,
)
    requires
        image_url_post(parts, r),
    ensures
        parts is None ==> (r matches Err(e) && e.message@ == "URL 格式无效"@),
        r matches Ok(t) ==> (parts matches Some((scheme, host, port)) && (scheme == "http"@ || scheme
            == "https"@) && host == Some(t.host@) && (port matches Some(p) ==> t.port == p) && (
        port is None ==> t.port == 80)),
        parts matches Some((scheme, host, port)) ==> ((scheme == "http"@ || scheme == "https"@)
            && host is Some <==> r is Ok),
        parts matches Some((scheme, host, port)) ==> (scheme != "http"@ && scheme != "https"@ ==> (
        r matches Err(e) && e.message@ == "仅支持 http/https 链接"@)),
{
}

/// Checks a background-image URL and gives the host and port to resolve.
pub fn check_image_url(url: &str) -> (r: Result<FetchTarget, ApiError>)
    ensures
        image_url_post(url_parts(url@), r),
{
    fetch_target(parse_url(url))
}

/// Checks the addresses a host resolved to: there must be some, and none may be refused
/// (a host name is judged by every address it resolves to, not by how it is written).
pub fn check_resolved_addresses(addrs: &Vec<IpAddress>) -> (r: Result<(), ApiError>)
    ensures
        addrs@.len() == 0 ==> (r matches Err(e) && is_api_error(
            e,
            STATUS_BAD_REQUEST,
            "无法解析该主机"@,
        )),
        addrs@.len() > 0 ==> (r is Ok <==> forall|i: int|
            0 <= i < addrs@.len() ==> !ip_blocked(#[trigger] addrs@[i])),
        addrs@.len() > 0 && r is Err ==> (r matches Err(e) && is_api_error(
            e,
            STATUS_FORBIDDEN,
            "不允许访问该地址"@,
        )),
{
    if addrs.len() == 0 {
        return Err(ApiError::new(String::from_str("无法解析该主机")));
    }
    let mut i: usize = 0;
    while i < addrs.len()
        invariant
            i <= addrs@.len(),
            forall|j: int| 0 <= j < i ==> !ip_blocked(#[trigger] addrs@[j]),
        decreases addrs.len() - i,
    {
        if is_blocked_ip(&addrs[i]) {
            return Err(ApiError::forbidden(String::from_str("不允许访问该地址")));
        }
        i = i + 1;
    }
    Ok(())
}

/// The refusal for a host that could not be resolved.
pub fn unresolvable_host() -> (r: ApiError)
    ensures
        is_api_error(r, STATUS_BAD_REQUEST, "无法解析该主机"@),
{
    ApiError::new(String::from_str("无法解析该主机"))
}

/// The refusal for a download that did not succeed; `status` is the HTTP status as text.
pub fn download_failed(status: &str) -> (r: ApiError)
    ensures
        is_api_error(r, STATUS_BAD_REQUEST, "下载失败: HTTP "@ + status@),
{
    ApiError::new(concat_str("下载失败: HTTP ", status))
}

/// The most a fetched background may hold, in bytes.
pub const BACKGROUND_URL_LIMIT: usize = 16777216;

/// Adds a received chunk to a download, refusing to grow it past the limit (the limit is
/// checked on the bytes received, whatever length the server announced).
pub fn append_chunk(body: &mut Vec<u8>, chunk: &[u8]) -> (r: Result<(), ApiError>)
    ensures
        old(body)@.len() + chunk@.len() > BACKGROUND_URL_LIMIT ==> (final(body)@ == old(body)@
            && (r matches Err(e) && is_api_error(e, STATUS_BAD_REQUEST, "图片超过 16MB 限制"@))),
        old(body)@.len() + chunk@.len() <= BACKGROUND_URL_LIMIT ==> (final(body)@ == old(body)@
            + chunk@ && r is Ok),
{
    if body.len() > BACKGROUND_URL_LIMIT || chunk.len() > BACKGROUND_URL_LIMIT - body.len() {
        return Err(ApiError::new(String::from_str("图片超过 16MB 限制")));
    }
    let mut i: usize = 0;
    let ghost start = body@;
    while i < chunk.len()
        invariant
            i <= chunk@.len(),
            body@ == start + chunk@.take(i as int),
        decreases chunk.len() - i,
    {
        body.push(chunk[i]);
        assert(start + chunk@.take(i + 1) =~= (start + chunk@.take(i as int)).push(chunk@[i as int]));
        i = i + 1;
    }
    assert(chunk@.take(chunk@.len() as int) =~= chunk@);
    Ok(())
}

/// A download never holds more than the limit: starting empty, every accepted chunk keeps
/// it within the limit.
pub proof fn lemma_download_bounded(before: Seq<u8>, chunk: Seq<u8>, after: Seq<u8>, accepted: bool)
    requires
        before.len() <= BACKGROUND_URL_LIMIT,
        before.len() + chunk.len() > BACKGROUND_URL_LIMIT ==> after == before && !accepted,
        before.len() + chunk.len() <= BACKGROUND_URL_LIMIT ==> after == before + chunk && accepted,
    ensures
        after.len() <= BACKGROUND_URL_LIMIT,
{
}

// ─── Clipboard history ──────────────────────────────────────────────────

/// The checks on a request to record a clipboard item: the kind is `text` or `image`, a
/// text item has a non-empty text, an image item a non-empty path.
pub open spec fn record_check(
    kind: Seq<char>,
    text: Option<Seq<char>>,
    path: Option<Seq<char>>,
) -> Option<Seq<char>> {
    if kind != "text"@ && kind != "image"@ {
        Some("kind 必须为 text 或 image"@)
    } else if kind == "text"@ && (match text {
        Some(t) => t.len() == 0,
        None => true,
    }) {
        Some("文本内容为空"@)
    } else if kind == "image"@ && (match path {
        Some(p) => p.len() == 0,
        None => true,
    }) {
        Some("图片路径为空"@)
    } else {
        None
    }
}

fn missing_or_empty(s: &Option<String>) -> (r: bool)
    ensures
        r == (match opt_view(*s) {
            Some(t) => t.len() == 0,
            None => true,
        }),
{
    match s {
        Some(t) => t.as_str().is_empty(),
        None => true,
    }
}

/// Checks a request to record a clipboard item.
pub fn validate_clipboard_record(req: &RecordClipboardRequest) -> (r: Result<(), ApiError>)
    ensures
        match record_check(req.kind@, opt_view(req.text), opt_view(req.path)) {
            Some(m) => r matches Err(e) && is_api_error(e, STATUS_BAD_REQUEST, m),
            None => r is Ok,
        },
        req.kind@ == "image"@ && (opt_view(req.path) matches Some(p) && p.len() > 0) ==> r is Ok,
        req.kind@ == "text"@ && (opt_view(req.text) matches Some(t) && t.len() > 0) ==> r is Ok,
        req.kind@ == "image"@ && (opt_view(req.path) matches Some(p) ==> p.len() == 0) ==> (
        r matches Err(e) && e.status == 400 && e.message@ == "图片路径为空"@),
        req.kind@ == "text"@ && (opt_view(req.text) matches Some(t) ==> t.len() == 0) ==> (
        r matches Err(e) && e.status == 400 && e.message@ == "文本内容为空"@),
        req.kind@ != "text"@ && req.kind@ != "image"@ ==> (r matches Err(e) && e.status == 400
            && e.message@ == "kind 必须为 text 或 image"@),
{
    proof {
        lemma_record_check_meaning(req.kind@, opt_view(req.text), opt_view(req.path));
    }
    let is_text = str_eq(req.kind.as_str(), "text");
    let is_image = str_eq(req.kind.as_str(), "image");
    if !is_text && !is_image {
        return Err(ApiError::new(String::from_str("kind 必须为 text 或 image")));
    }
    if is_text && missing_or_empty(&req.text) {
        return Err(ApiError::new(String::from_str("文本内容为空")));
    }
    if is_image && missing_or_empty(&req.path) {
        return Err(ApiError::new(String::from_str("图片路径为空")));
    }
    Ok(())
}

/// What may be recorded: an image item with a non-empty path (whatever its text), a text
/// item with a non-empty text (whatever its path); any other kind is refused, as is an
/// image without a path or a text item without text.
pub proof fn lemma_record_check_meaning(kind: Seq<char>, text: Option<Seq<char>>, path: Option<Seq<char>>)
    ensures
        kind == "image"@ && (path matches Some(p) && p.len() > 0) ==> record_check(kind, text, path)
            is None,
        kind == "text"@ && (text matches Some(t) && t.len() > 0) ==> record_check(kind, text, path)
            is None,
        kind == "image"@ && (path matches Some(p) ==> p.len() == 0) ==> record_check(kind, text, path)
            == Some("图片路径为空"@),
        kind == "text"@ && (text matches Some(t) ==> t.len() == 0) ==> record_check(kind, text, path)
            == Some("文本内容为空"@),
        kind != "text"@ && kind != "image"@ ==> record_check(kind, text, path) == Some(
            "kind 必须为 text 或 image"@,
        ),
{
    reveal_strlit("text");
    reveal_strlit("image");
    assert("text"@.len() != "image"@.len());
}

/// The history entry a recorded request becomes, under a fresh id and time.
pub fn clipboard_item(req: RecordClipboardRequest, id: String, created_at: i64) -> (r:
    ClipboardItem)
    ensures
        r@ == (ClipboardItemView {
            id: id@,
            kind: req.kind@,
            text: opt_view(req.text),
            path: opt_view(req.path),
            content_type: opt_view(req.content_type),
            size: req.size,
            created_at,
        }),
{
    ClipboardItem {
        id,
        kind: req.kind,
        text: req.text,
        path: req.path,
        content_type: req.content_type,
        size: req.size,
        created_at,
    }
}

/// The history entry a recorded request becomes now: a fresh random UUID as its id, the
/// clock's milliseconds as its time.
pub fn new_clipboard_item(req: RecordClipboardRequest) -> (r: ClipboardItem)
    ensures
        is_uuid_text(r@.id),
        r@.created_at >= 0,
        r@ == (ClipboardItemView {
            id: r@.id,
            kind: req.kind@,
            text: opt_view(req.text),
            path: opt_view(req.path),
            content_type: opt_view(req.content_type),
            size: req.size,
            created_at: r@.created_at,
        }),
{
    let id = uuid_text();
    let created_at = unix_millis();
    clipboard_item(req, id, created_at)
}

/// Whether a listed history entry is kept: an image entry whose file is gone is dropped
/// (and deleted), so that pasting it cannot insert a dead path.
pub fn keep_clipboard_entry(kind: &str, path: &Option<String>, path_exists: bool) -> (r: bool)
    ensures
        r == !(kind@ == "image"@ && opt_view(*path) is Some && !path_exists),
{
    !(str_eq(kind, "image") && path.is_some() && !path_exists)
}

/// Whether a stored image may be deleted along with its history entry: only files under
/// the clipboard directory, compared by path components.
pub fn is_clipboard_file(path: &str, clipboard_dir: &str) -> (r: bool)
    ensures
        r == path_starts_with(path@, clipboard_dir@),
{
    path_starts_with_exec(path, clipboard_dir)
}

/// The largest number of history entries kept per user.
pub const CLIPBOARD_HISTORY_LIMIT: i64 = 20;

/// One stored history entry, as far as keeping it is concerned.
#[derive(Debug)]
pub struct HistoryRow {
    pub id: String,
    pub created_at: i64,
    pub kind: String,
    pub path: Option<String>,
}

/// Entry `j` comes before entry `i` in the history: it is newer, or as new and listed
/// earlier.
pub open spec fn ahead(rows: Seq<HistoryRow>, j: int, i: int) -> bool {
    rows[j].created_at > rows[i].created_at || (rows[j].created_at == rows[i].created_at && j < i)
}

/// How many of the first `k` entries come before entry `i`.
pub open spec fn rank_upto(rows: Seq<HistoryRow>, i: int, k: int) -> nat
    decreases k,
{
    if k <= 0 {
        0
    } else {
        rank_upto(rows, i, k - 1) + (if ahead(rows, k - 1, i) {
            1nat
        } else {
            0nat
        })
    }
}

/// Entry `i` is kept: fewer than `CLIPBOARD_HISTORY_LIMIT` entries come before it.
pub open spec fn kept(rows: Seq<HistoryRow>, i: int) -> bool {
    rank_upto(rows, i, rows.len() as int) < CLIPBOARD_HISTORY_LIMIT
}

/// The ids of the entries among the first `n` that are not kept, in order.
pub open spec fn evicted_ids(rows: Seq<HistoryRow>, n: int) -> Seq<Seq<char>>
    decreases n,
{
    if n <= 0 {
        seq![]
    } else if !kept(rows, n - 1) {
        evicted_ids(rows, n - 1).push(rows[n - 1].id@)
    } else {
        evicted_ids(rows, n - 1)
    }
}

/// An evicted entry whose image file is deleted with it: an image whose path lies under
/// the clipboard directory.
pub open spec fn has_stale_file(row: HistoryRow, clipboard_dir: Seq<char>) -> bool {
    row.kind@ == "image"@ && (match opt_view(row.path) {
        Some(p) => path_starts_with(p, clipboard_dir),
        None => false,
    })
}

/// The image files of the entries among the first `n` that are not kept, in order.
pub open spec fn stale_files(rows: Seq<HistoryRow>, clipboard_dir: Seq<char>, n: int) -> Seq<
    Seq<char>,
>
    decreases n,
{
    if n <= 0 {
        seq![]
    } else if !kept(rows, n - 1) && has_stale_file(rows[n - 1], clipboard_dir) {
        stale_files(rows, clipboard_dir, n - 1).push(opt_view(rows[n - 1].path)->0)
    } else {
        stale_files(rows, clipboard_dir, n - 1)
    }
}

/// What trimming a user's history removes: the entries to delete and the image files to
/// delete with them.
#[derive(Debug)]
pub struct Retention {
    pub evicted_ids: Vec<String>,
    pub stale_files: Vec<String>,
}

fn rank_of(rows: &Vec<HistoryRow>, i: usize) -> (r: usize)
    requires
        i < rows@.len(),
    ensures
        r == rank_upto(rows@, i as int, rows@.len() as int),
{
    let mut count: usize = 0;
    let mut j: usize = 0;
    while j < rows.len()
        invariant
            i < rows@.len(),
            j <= rows@.len(),
            count == rank_upto(rows@, i as int, j as int),
            count <= j,
        decreases rows.len() - j,
    {
        if rows[j].created_at > rows[i].created_at || (rows[j].created_at == rows[i].created_at
            && j < i) {
            count = count + 1;
        }
        j = j + 1;
    }
    count
}

/// Trims a user's clipboard history to its `CLIPBOARD_HISTORY_LIMIT` newest entries
/// (ties go to the one listed first): the others are evicted, and the image files among
/// them that lie under the clipboard directory are deleted with them.
pub fn clipboard_retention(rows: &Vec<HistoryRow>, clipboard_dir: &str) -> (r: Retention)
    ensures
        r.evicted_ids.deep_view() == evicted_ids(rows@, rows@.len() as int),
        r.stale_files.deep_view() == stale_files(rows@, clipboard_dir@, rows@.len() as int),
{
    let mut ids: Vec<String> = Vec::new();
    let mut files: Vec<String> = Vec::new();
    let mut i: usize = 0;
    while i < rows.len()
        invariant
            i <= rows@.len(),
            ids.deep_view() == evicted_ids(rows@, i as int),
            files.deep_view() == stale_files(rows@, clipboard_dir@, i as int),
        decreases rows.len() - i,
    {
        let rank = rank_of(rows, i);
        if rank >= 20 {
            let ghost before = ids.deep_view();
            ids.push(rows[i].id.clone());
            assert(ids.deep_view() =~= before.push(rows@[i as int].id@));
            let stale = match &rows[i].path {
                Some(p) => str_eq(rows[i].kind.as_str(), "image") && is_clipboard_file(
                    p.as_str(),
                    clipboard_dir,
                ),
                None => false,
            };
            if stale {
                let p = match &rows[i].path {
                    Some(p) => p.clone(),
                    None => String::new(),
                };
                let ghost fb = files.deep_view();
                files.push(p);
                assert(files.deep_view() =~= fb.push(opt_view(rows@[i as int].path)->0));
            }
        }
        i = i + 1;
    }
    Retention { evicted_ids: ids, stale_files: files }
}

/// `ahead` is transitive.
proof fn lemma_ahead_trans(rows: Seq<HistoryRow>, x: int, j: int, i: int)
    requires
        ahead(rows, x, j),
        ahead(rows, j, i),
    ensures
        ahead(rows, x, i),
{
}

proof fn lemma_rank_order(rows: Seq<HistoryRow>, j: int, i: int, k: int)
    requires
        0 <= j < rows.len(),
        0 <= i < rows.len(),
        ahead(rows, j, i),
        0 <= k <= rows.len(),
    ensures
        rank_upto(rows, i, k) >= rank_upto(rows, j, k) + (if j < k {
            1nat
        } else {
            0nat
        }),
    decreases k,
{
    if k > 0 {
        lemma_rank_order(rows, j, i, k - 1);
        let x = k - 1;
        if ahead(rows, x, j) {
            lemma_ahead_trans(rows, x, j, i);
        }
    }
}

/// The history keeps its newest entries: a kept entry is never older than an evicted one.
pub proof fn lemma_retention_keeps_newest(rows: Seq<HistoryRow>, i: int, j: int)
    requires
        0 <= i < rows.len(),
        0 <= j < rows.len(),
        kept(rows, i),
        !kept(rows, j),
    ensures
        rows[i].created_at >= rows[j].created_at,
{
    if rows[j].created_at > rows[i].created_at {
        lemma_rank_order(rows, j, i, rows.len() as int);
    }
}

proof fn lemma_rank_bound(rows: Seq<HistoryRow>, i: int, k: int)
    requires
        0 <= i < rows.len(),
        k <= rows.len(),
    ensures
        rank_upto(rows, i, k) <= (if k <= 0 {
            0
        } else if i < k {
            k - 1
        } else {
            k
        }),
    decreases k,
{
    if k > 0 {
        lemma_rank_bound(rows, i, k - 1);
    }
}

proof fn lemma_all_kept_evicts_nothing(rows: Seq<HistoryRow>, dir: Seq<char>, n: int)
    requires
        n <= rows.len(),
        forall|i: int| 0 <= i < rows.len() ==> #[trigger] kept(rows, i),
    ensures
        evicted_ids(rows, n) == Seq::<Seq<char>>::empty(),
        stale_files(rows, dir, n) == Seq::<Seq<char>>::empty(),
    decreases n,
{
    if n > 0 {
        assert(kept(rows, n - 1));
        lemma_all_kept_evicts_nothing(rows, dir, n - 1);
    }
}

/// A history of at most `CLIPBOARD_HISTORY_LIMIT` entries is left whole: nothing is
/// evicted and no file is deleted. In any history the newest entry (the first listed among
/// the newest) is kept.
pub proof fn lemma_short_history_kept(rows: Seq<HistoryRow>, dir: Seq<char>, i: int)
    ensures
        rows.len() <= CLIPBOARD_HISTORY_LIMIT ==> evicted_ids(rows, rows.len() as int)
            == Seq::<Seq<char>>::empty() && stale_files(rows, dir, rows.len() as int)
            == Seq::<Seq<char>>::empty(),
        0 <= i < rows.len() && (forall|j: int| 0 <= j < rows.len() ==> !ahead(rows, j, i))
            ==> kept(rows, i),
{
    if rows.len() <= CLIPBOARD_HISTORY_LIMIT {
        assert forall|k: int| 0 <= k < rows.len() implies #[trigger] kept(rows, k) by {
            lemma_rank_bound(rows, k, rows.len() as int);
        }
        lemma_all_kept_evicts_nothing(rows, dir, rows.len() as int);
    }
    if 0 <= i < rows.len() && (forall|j: int| 0 <= j < rows.len() ==> !ahead(rows, j, i)) {
        lemma_rank_zero(rows, i, rows.len() as int);
    }
}

proof fn lemma_rank_zero(rows: Seq<HistoryRow>, i: int, k: int)
    requires
        k <= rows.len(),
        forall|j: int| 0 <= j < rows.len() ==> !ahead(rows, j, i),
    ensures
        rank_upto(rows, i, k) == 0,
    decreases k,
{
    if k > 0 {
        lemma_rank_zero(rows, i, k - 1);
        assert(!ahead(rows, k - 1, i));
    }
}

// ─── Static files ───────────────────────────────────────────────────────

/// The `Cache-Control` a static file is served with: `no-cache` for HTML, so that a new
/// front end is picked up at once; none for other files.
pub fn static_cache_control(content_type: &str) -> (r: Option<String>)
    ensures
        r is Some <==> has_prefix(content_type@, "text/html"@),
        r matches Some(v) ==> v@ == "no-cache"@,
{
    if str_starts_with(content_type, "text/html") {
        Some(String::from_str("no-cache"))
    } else {
        None
    }
}

// ─── Theme ──────────────────────────────────────────────────────────────

/// A user's theme settings. `component_customization` is JSON text.
#[derive(Debug)]
pub struct ThemeSettings {
    pub theme: String,
    pub font_size: i64,
    pub background_opacity: i64,
    pub background_image: String,
    pub background_image_type: String,
    pub saved_url_image: String,
    pub saved_upload_image: String,
    pub tab_style: String,
    pub cursor_style: String,
    pub component_customization: String,
}

/// The default component customization: default interface, button and selection colours.
pub open spec fn default_components() -> Seq<char> {
    "{\"button\":{\"color\":\"#0e639c\",\"mode\":\"default\",\"opacity\":100},\"interface\":{\"color\":\"#282c34\",\"mode\":\"default\"},\"textSelection\":{\"color\":\"#0ea5e9\",\"mode\":\"default\",\"opacity\":40}}"@
}

/// The settings a theme field takes: the given value, else the default.
pub open spec fn or_else(v: Option<Seq<char>>, default: Seq<char>) -> Seq<char> {
    match v {
        Some(x) => x,
        None => default,
    }
}

/// The fields a theme save carries, each `None` when missing or not of the right type.
#[derive(Debug)]
pub struct ThemeFields {
    pub theme: Option<String>,
    pub font_size: Option<i64>,
    pub background_opacity: Option<i64>,
    pub background_image: Option<String>,
    pub background_image_type: Option<String>,
    pub saved_url_image: Option<String>,
    pub saved_upload_image: Option<String>,
    pub tab_style: Option<String>,
    pub cursor_style: Option<String>,
    pub component_customization: Option<String>,
}

/// The stored settings are the defaults with every given field in place, except that a
/// missing component customization is stored as the empty text.
pub open spec fn stored_theme(f: ThemeFields, r: ThemeSettings) -> bool {
    &&& r.theme@ == or_else(opt_view(f.theme), "onedark"@)
    &&& r.font_size == (match f.font_size { Some(v) => v, None => 14 })
    &&& r.background_opacity == (match f.background_opacity { Some(v) => v, None => 0 })
    &&& r.background_image@ == or_else(opt_view(f.background_image), ""@)
    &&& r.background_image_type@ == or_else(opt_view(f.background_image_type), "none"@)
    &&& r.saved_url_image@ == or_else(opt_view(f.saved_url_image), ""@)
    &&& r.saved_upload_image@ == or_else(opt_view(f.saved_upload_image), ""@)
    &&& r.tab_style@ == or_else(opt_view(f.tab_style), "modern"@)
    &&& r.cursor_style@ == or_else(opt_view(f.cursor_style), "block"@)
    &&& r.component_customization@ == or_else(opt_view(f.component_customization), ""@)
}

fn text_or(v: Option<String>, default: &str) -> (r: String)
    ensures
        r@ == or_else(opt_view(v), default@),
{
    match v {
        Some(x) => x,
        None => String::from_str(default),
    }
}

/// A theme save stores every field it was given as given, and the default for each
/// field it was not.
pub proof fn lemma_stored_theme_meaning(f: ThemeFields, r: ThemeSettings)
    requires
        stored_theme(f, r),
    ensures
        f.theme matches Some(v) ==> r.theme@ == v@,
        f.theme is None ==> r.theme@ == "onedark"@,
        f.font_size matches Some(v) ==> r.font_size == v,
        f.font_size is None ==> r.font_size == 14,
        f.background_opacity matches Some(v) ==> r.background_opacity == v,
        f.background_opacity is None ==> r.background_opacity == 0,
        f.background_image matches Some(v) ==> r.background_image@ == v@,
        f.background_image is None ==> r.background_image@ == ""@,
        f.background_image_type matches Some(v) ==> r.background_image_type@ == v@,
        f.background_image_type is None ==> r.background_image_type@ == "none"@,
        f.saved_url_image matches Some(v) ==> r.saved_url_image@ == v@,
        f.saved_url_image is None ==> r.saved_url_image@ == ""@,
        f.saved_upload_image matches Some(v) ==> r.saved_upload_image@ == v@,
        f.saved_upload_image is None ==> r.saved_upload_image@ == ""@,
        f.tab_style matches Some(v) ==> r.tab_style@ == v@,
        f.tab_style is None ==> r.tab_style@ == "modern"@,
        f.cursor_style matches Some(v) ==> r.cursor_style@ == v@,
        f.cursor_style is None ==> r.cursor_style@ == "block"@,
        f.component_customization matches Some(v) ==> r.component_customization@ == v@,
        f.component_customization is None ==> r.component_customization@ == ""@,
{
    reveal_strlit("onedark");
    reveal_strlit("");
    reveal_strlit("none");
    reveal_strlit("modern");
    reveal_strlit("block");
}

/// The settings a theme save stores.
pub fn theme_to_store(f: ThemeFields) -> (r: ThemeSettings)
    ensures
        stored_theme(f, r),
        f.theme matches Some(v) ==> r.theme@ == v@,
        f.theme is None ==> r.theme@ == "onedark"@,
        f.font_size matches Some(v) ==> r.font_size == v,
        f.font_size is None ==> r.font_size == 14,
        f.background_opacity matches Some(v) ==> r.background_opacity == v,
        f.background_opacity is None ==> r.background_opacity == 0,
        f.background_image matches Some(v) ==> r.background_image@ == v@,
        f.background_image is None ==> r.background_image@ == ""@,
        f.background_image_type matches Some(v) ==> r.background_image_type@ == v@,
        f.background_image_type is None ==> r.background_image_type@ == "none"@,
        f.saved_url_image matches Some(v) ==> r.saved_url_image@ == v@,
        f.saved_url_image is None ==> r.saved_url_image@ == ""@,
        f.saved_upload_image matches Some(v) ==> r.saved_upload_image@ == v@,
        f.saved_upload_image is None ==> r.saved_upload_image@ == ""@,
        f.tab_style matches Some(v) ==> r.tab_style@ == v@,
        f.tab_style is None ==> r.tab_style@ == "modern"@,
        f.cursor_style matches Some(v) ==> r.cursor_style@ == v@,
        f.cursor_style is None ==> r.cursor_style@ == "block"@,
        f.component_customization matches Some(v) ==> r.component_customization@ == v@,
        f.component_customization is None ==> r.component_customization@ == ""@,
{
    let ThemeFields {
        theme,
        font_size,
        background_opacity,
        background_image,
        background_image_type,
        saved_url_image,
        saved_upload_image,
        tab_style,
        cursor_style,
        component_customization,
    } = f;
    ThemeSettings {
        theme: text_or(theme, "onedark"),
        font_size: match font_size {
            Some(v) => v,
            None => 14,
        },
        background_opacity: match background_opacity {
            Some(v) => v,
            None => 0,
        },
        background_image: text_or(background_image, ""),
        background_image_type: text_or(background_image_type, "none"),
        saved_url_image: text_or(saved_url_image, ""),
        saved_upload_image: text_or(saved_upload_image, ""),
        tab_style: text_or(tab_style, "modern"),
        cursor_style: text_or(cursor_style, "block"),
        component_customization: text_or(component_customization, ""),
    }
}

impl Default for ThemeSettings {
    /// The settings of a user who saved none: the `onedark` theme at 14 points, no
    /// background, modern tabs, a block cursor and the default component colours.
    fn default() -> (r: Self)
        ensures
            r.theme@ == "onedark"@ && r.font_size == 14 && r.background_opacity == 0,
            r.background_image@ == ""@ && r.background_image_type@ == "none"@,
            r.saved_url_image@ == ""@ && r.saved_upload_image@ == ""@,
            r.tab_style@ == "modern"@ && r.cursor_style@ == "block"@,
            r.component_customization@ == default_components(),
    {
        ThemeSettings {
            theme: String::from_str("onedark"),
            font_size: 14,
            background_opacity: 0,
            background_image: String::from_str(""),
            background_image_type: String::from_str("none"),
            saved_url_image: String::from_str(""),
            saved_upload_image: String::from_str(""),
            tab_style: String::from_str("modern"),
            cursor_style: String::from_str("block"),
            component_customization: String::from_str(
                "{\"button\":{\"color\":\"#0e639c\",\"mode\":\"default\",\"opacity\":100},\"interface\":{\"color\":\"#282c34\",\"mode\":\"default\"},\"textSelection\":{\"color\":\"#0ea5e9\",\"mode\":\"default\",\"opacity\":40}}",
            ),
        }
    }
}

} // verus!
