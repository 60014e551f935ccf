//! Capture sources: how their ids name monitors and windows, and how the
//! source list describes them.
use vstd::prelude::*;
use crate::models::CaptureSource;
use crate::text::{chars_of, same_text, decimal, decimal_text, is_white_space, push_char, lowercase, lowercase_of};
use crate::sort::{alphabetical, is_alphabetical, texts};
use crate::http::{parse_usize, trimmed};

verus! {

/// Why a capture source cannot be used.
#[derive(Debug, Clone, Copy, PartialEq, Eq, Structural)]
pub enum SourceError {
    /// The id of a monitor source is not `monitor:` and a positive number.
    InvalidMonitorId,
    /// The id of a window source is not `window:` and a non-zero number.
    InvalidWindowId,
    /// The kind of source is unknown.
    InvalidKind,
}

/// The message shown for each [`SourceError`].
pub open spec fn source_error_text(e: SourceError) -> Seq<char> {
    match e {
        SourceError::InvalidMonitorId => "モニターIDが不正です。"@,
        SourceError::InvalidWindowId => "ウィンドウIDが不正です。"@,
        SourceError::InvalidKind => "録画対象の種類が不正です。"@,
    }
}

impl SourceError {
    pub fn message(&self) -> (r: String)
        ensures
            r@ == source_error_text(*self),
    {
        match self {
            SourceError::InvalidMonitorId => String::from_str("モニターIDが不正です。"),
            SourceError::InvalidWindowId => String::from_str("ウィンドウIDが不正です。"),
            SourceError::InvalidKind => String::from_str("録画対象の種類が不正です。"),
        }
    }
}

/// The monitor or window that a source names.
#[derive(Debug, Clone, Copy, PartialEq, Eq, Structural)]
pub enum SourceTarget {
    /// A monitor, by its one-based index.
    Monitor(usize),
    /// A window, by its handle.
    Window(usize),
}

/// The number after `prefix` in `id`, as `usize::from_str` reads it.
pub open spec fn number_after(id: Seq<char>, prefix: Seq<char>) -> Option<nat> {
    if prefix.len() <= id.len() && id.subrange(0, prefix.len() as int) == prefix {
        parse_usize(id.subrange(prefix.len() as int, id.len() as int))
    } else {
        None
    }
}

/// The target of a source, or why it has none.
pub open spec fn target_of(kind: Seq<char>, id: Seq<char>) -> Result<SourceTarget, SourceError> {
    if kind == "monitor"@ {
        match number_after(id, "monitor:"@) {
            Some(n) => if n > 0 {
                Ok(SourceTarget::Monitor(n as usize))
            } else {
                Err(SourceError::InvalidMonitorId)
            },
            None => Err(SourceError::InvalidMonitorId),
        }
    } else if kind == "window"@ {
        match number_after(id, "window:"@) {
            Some(n) => if n != 0 {
                Ok(SourceTarget::Window(n as usize))
            } else {
                Err(SourceError::InvalidWindowId)
            },
            None => Err(SourceError::InvalidWindowId),
        }
    } else {
        Err(SourceError::InvalidKind)
    }
}

fn number_after_exec(id: &str, prefix: &str) -> (r: Option<usize>)
    ensures
        match r {
            Some(v) => number_after(id@, prefix@) == Some(v as nat),
            None => number_after(id@, prefix@) is None,
        },
{
    if !crate::text::starts_with_text(id, prefix) {
        return None;
    }
    let all = chars_of(id);
    let p = chars_of(prefix);
    let mut rest: Vec<char> = Vec::new();
    let mut i = p.len();
    while i < all.len()
        invariant
            p@.len() <= i <= all@.len(),
            rest@ == all@.subrange(p@.len() as int, i as int),
        decreases all@.len() - i,
    {
        rest.push(all[i]);
        i = i + 1;
    }
    crate::http::parse_usize_text(&rest)
}

/// The monitor or window that a capture source names.
pub fn source_target(source: &CaptureSource) -> (r: Result<SourceTarget, SourceError>)
    ensures
        r == target_of(source.kind@, source.id@),
{
    if same_text(source.kind.as_str(), "monitor") {
        match number_after_exec(source.id.as_str(), "monitor:") {
            Some(n) => if n > 0 {
                Ok(SourceTarget::Monitor(n))
            } else {
                Err(SourceError::InvalidMonitorId)
            },
            None => Err(SourceError::InvalidMonitorId),
        }
    } else if same_text(source.kind.as_str(), "window") {
        proof {
            reveal_strlit("monitor");
            reveal_strlit("window");
            assert("monitor"@[0] != "window"@[0]);
        }
        match number_after_exec(source.id.as_str(), "window:") {
            Some(n) => if n != 0 {
                Ok(SourceTarget::Window(n))
            } else {
                Err(SourceError::InvalidWindowId)
            },
            None => Err(SourceError::InvalidWindowId),
        }
    } else {
        Err(SourceError::InvalidKind)
    }
}

/// The kinds of source that the user picks from.
#[derive(Debug, Clone, Copy, PartialEq, Eq, Structural)]
pub enum SourceKind {
    Monitor,
    Window,
    Browser,
}

/// The kind of source that `kind` names.
pub fn source_kind(kind: &str) -> (r: Result<SourceKind, SourceError>)
    ensures
        kind@ == "monitor"@ ==> r == Ok::<SourceKind, SourceError>(SourceKind::Monitor),
        kind@ == "window"@ ==> r == Ok::<SourceKind, SourceError>(SourceKind::Window),
        kind@ == "browser"@ ==> r == Ok::<SourceKind, SourceError>(SourceKind::Browser),
        !(kind@ == "monitor"@ || kind@ == "window"@ || kind@ == "browser"@) ==> r == Err::<
            SourceKind,
            SourceError,
        >(SourceError::InvalidKind),
{
    proof {
        reveal_strlit("monitor");
        reveal_strlit("window");
        reveal_strlit("browser");
        assert("monitor"@[0] != "window"@[0]);
        assert("monitor"@[0] != "browser"@[0]);
        assert("window"@[0] != "browser"@[0]);
    }
    if same_text(kind, "monitor") {
        Ok(SourceKind::Monitor)
    } else if same_text(kind, "window") {
        Ok(SourceKind::Window)
    } else if same_text(kind, "browser") {
        Ok(SourceKind::Browser)
    } else {
        Err(SourceError::InvalidKind)
    }
}

/// The source list entry of a monitor.
pub open spec fn monitor_entry(
    s: CaptureSource,
    index: usize,
    width: u32,
    height: u32,
    name: Option<String>,
    refresh: u32,
) -> bool {
    &&& s.id@ == "monitor:"@ + decimal_text(index as nat)
    &&& s.kind@ == "monitor"@
    &&& s.name@ == match name {
        Some(n) => n@,
        None => "モニター "@ + decimal_text(index as nat),
    }
    &&& s.detail@ == decimal_text(width as nat) + " × "@ + decimal_text(height as nat) + " · "@
        + decimal_text(refresh as nat) + " Hz"@
}

/// Describes the monitor with the given index, size, name (if the system
/// reports one) and refresh rate.
pub fn monitor_source(index: usize, width: u32, height: u32, name: Option<String>, refresh: u32) -> (s: CaptureSource)
    ensures
        monitor_entry(s, index, width, height, name, refresh),
{
    let number = decimal(index as u64);
    let id = String::from_str("monitor:").concat(number.as_str());
    let shown = match name {
        Some(n) => n,
        None => String::from_str("モニター ").concat(number.as_str()),
    };
    let mut detail = decimal(width as u64);
    detail.append(" × ");
    detail.append(decimal(height as u64).as_str());
    detail.append(" · ");
    detail.append(decimal(refresh as u64).as_str());
    detail.append(" Hz");
    CaptureSource { id, kind: String::from_str("monitor"), name: shown, detail }
}

/// The source list entry of a window, or nothing for a window without a title.
pub open spec fn window_entry(
    s: Option<CaptureSource>,
    handle: usize,
    title: Seq<char>,
    process_name: Option<String>,
    width: i32,
    height: i32,
) -> bool {
    let w: nat = if width < 0 { 0 } else { width as nat };
    let h: nat = if height < 0 { 0 } else { height as nat };
    if trimmed(title).len() == 0 {
        s is None
    } else {
        s matches Some(e) && {
            &&& e.id@ == "window:"@ + decimal_text(handle as nat)
            &&& e.kind@ == "window"@
            &&& e.name@ == trimmed(title)
            &&& e.detail@ == match process_name {
                Some(p) => p@,
                None => "アプリ"@,
            } + " · "@ + decimal_text(w) + " × "@ + decimal_text(h)
        }
    }
}

/// Describes a window by its handle, title, process name (if known) and size.
pub fn window_source(handle: usize, title: &str, process_name: Option<String>, width: i32, height: i32) -> (s: Option<CaptureSource>)
    ensures
        window_entry(s, handle, title@, process_name, width, height),
{
    let chars = chars_of(title);
    let t = crate::http::trimmed_text(&chars);
    if t.len() == 0 {
        return None;
    }
    let mut name = String::new();
    let mut i: usize = 0;
    while i < t.len()
        invariant
            i <= t@.len(),
            name@ == t@.subrange(0, i as int),
        decreases t@.len() - i,
    {
        push_char(&mut name, t[i]);
        assert(t@.subrange(0, i as int + 1) =~= t@.subrange(0, i as int).push(t@[i as int]));
        i = i + 1;
    }
    assert(t@.subrange(0, t@.len() as int) =~= t@);
    let w: u32 = if width < 0 { 0 } else { width as u32 };
    let h: u32 = if height < 0 { 0 } else { height as u32 };
    let mut detail = match process_name {
        Some(p) => p,
        None => String::from_str("アプリ"),
    };
    detail.append(" · ");
    detail.append(decimal(w as u64).as_str());
    detail.append(" × ");
    detail.append(decimal(h as u64).as_str());
    let id = String::from_str("window:").concat(decimal(handle as u64).as_str());
    Some(CaptureSource { id, kind: String::from_str("window"), name, detail })
}

/// The lowercase names of a list of sources.
pub open spec fn lowercase_names(v: Seq<CaptureSource>) -> Seq<Seq<char>> {
    v.map_values(|s: CaptureSource| lowercase_of(s.name@))
}

fn copy_source(s: &CaptureSource) -> (r: CaptureSource)
    ensures
        r == *s,
{
    CaptureSource { id: s.id.clone(), kind: s.kind.clone(), name: s.name.clone(), detail: s.detail.clone() }
}

/// The window list in the order the user sees it: by name, ignoring case;
/// windows of the same name keep their order.
pub fn alphabetical_sources(sources: &Vec<CaptureSource>) -> (r: Vec<CaptureSource>)
    ensures
        exists|order: Seq<usize>|
            #![trigger is_alphabetical(lowercase_names(sources@), order)]
            is_alphabetical(lowercase_names(sources@), order) && r@.len() == order.len() && forall|
                i: int,
            |
                0 <= i < order.len() ==> #[trigger] r@[i] == sources@[order[i] as int],
{
    let mut keys: Vec<String> = Vec::new();
    let mut j: usize = 0;
    while j < sources.len()
        invariant
            j <= sources@.len(),
            keys@.len() == j,
            forall|t: int| 0 <= t < j ==> #[trigger] keys@[t]@ == lowercase_of(sources@[t].name@),
        decreases sources@.len() - j,
    {
        keys.push(lowercase(sources[j].name.as_str()));
        j = j + 1;
    }
    assert(texts(keys@) =~= lowercase_names(sources@));
    let order = alphabetical(&keys);
    let mut r: Vec<CaptureSource> = Vec::new();
    let mut t: usize = 0;
    while t < order.len()
        invariant
            is_alphabetical(lowercase_names(sources@), order@),
            t <= order@.len(),
            r@.len() == t,
            forall|q: int| 0 <= q < t ==> #[trigger] r@[q] == sources@[order@[q] as int],
        decreases order@.len() - t,
    {
        assert(order@[t as int] < sources@.len());
        r.push(copy_source(&sources[order[t]]));
        t = t + 1;
    }
    r
}

/// The size at which a window is captured: its reported size, at least one
/// pixel on each side.
pub fn capture_size(width: i32, height: i32) -> (r: (u32, u32))
    ensures
        r.0 == (if width < 1 { 1 } else { width as int }),
        r.1 == (if height < 1 { 1 } else { height as int }),
{
    let w: u32 = if width < 1 { 1 } else { width as u32 };
    let h: u32 = if height < 1 { 1 } else { height as u32 };
    (w, h)
}

} // verus!
