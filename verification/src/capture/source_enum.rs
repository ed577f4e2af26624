use vstd::prelude::*;

use crate::model::source::{CaptureSource, SourceKind};
use crate::text::{decimal, decimal_text};

verus! {

/// A capturable source as offered to (and received from) the frontend.
/// `rect` is `[x, y, width, height]` in logical pixels.
#[derive(Debug, Clone, PartialEq)]
pub struct SourceOption {
    pub id: String,
    pub name: String,
    pub kind: String,
    pub rect: [i64; 4],
}

/// The mathematical view of a [`SourceOption`].
pub struct SourceView {
    pub id: Seq<char>,
    pub name: Seq<char>,
    pub kind: Seq<char>,
    pub rect: [i64; 4],
}

impl View for SourceOption {
    type V = SourceView;

    open spec fn view(&self) -> SourceView {
        SourceView { id: self.id@, name: self.name@, kind: self.kind@, rect: self.rect }
    }
}

pub open spec fn source_views(opts: Seq<SourceOption>) -> Seq<SourceView> {
    opts.map_values(|o: SourceOption| o@)
}

/// The kind that a frontend kind name selects: "window" and "region" select
/// themselves, anything else a display.
pub open spec fn kind_from_name(name: Seq<char>) -> SourceKind {
    if name == "window"@ {
        SourceKind::Window
    } else if name == "region"@ {
        SourceKind::Region
    } else {
        SourceKind::Display
    }
}

/// Converts a [`SourceOption`] from the frontend into the [`CaptureSource`] used by
/// the capture pipeline.
pub fn to_capture_source(opt: &SourceOption) -> (cs: CaptureSource)
    ensures
        cs.kind == kind_from_name(opt.kind@),
        cs.id@ == opt.id@,
        cs.rect == opt.rect,
{
    let kind = if opt.kind == String::from_str("window") {
        SourceKind::Window
    } else if opt.kind == String::from_str("region") {
        SourceKind::Region
    } else {
        SourceKind::Display
    };
    CaptureSource { kind, id: opt.id.clone(), rect: opt.rect }
}

/// The label of a display: "Display <id> (<width>x<height>)".
pub open spec fn display_label(id: u32, width: u32, height: u32) -> Seq<char> {
    "Display "@ + decimal_text(id as nat) + " ("@ + decimal_text(width as nat) + "x"@
        + decimal_text(height as nat) + ")"@
}

/// The source offered for a display with the given id and geometry.
pub fn display_option(id: u32, x: i32, y: i32, width: u32, height: u32) -> (o: SourceOption)
    ensures
        o@.id == decimal_text(id as nat),
        o@.name == display_label(id, width, height),
        o@.kind == "display"@,
        o@.rect == [x as i64, y as i64, width as i64, height as i64],
{
    let mut name = String::from_str("Display ");
    name.append(decimal(id as u64).as_str());
    name.append(" (");
    name.append(decimal(width as u64).as_str());
    name.append("x");
    name.append(decimal(height as u64).as_str());
    name.append(")");
    SourceOption {
        id: decimal(id as u64),
        name,
        kind: String::from_str("display"),
        rect: [x as i64, y as i64, width as i64, height as i64],
    }
}

/// What the window server reports of one on-screen window; a field is `None` when
/// the window's dictionary lacks it.
pub struct WindowRecord {
    pub layer: Option<i32>,
    pub number: Option<i32>,
    pub owner: Option<String>,
    pub title: Option<String>,
    /// `[x, y, width, height]`, already truncated to whole pixels.
    pub bounds: Option<[i64; 4]>,
}

pub open spec fn text_or_empty(s: Option<String>) -> Seq<char> {
    match s {
        Some(t) => t@,
        None => Seq::empty(),
    }
}

/// The window's id: its number read as unsigned, or 0 when missing.
pub open spec fn window_id(r: WindowRecord) -> u32 {
    match r.number {
        Some(n) => n as u32,
        None => 0,
    }
}

pub open spec fn window_rect(r: WindowRecord) -> [i64; 4] {
    match r.bounds {
        Some(b) => b,
        None => [0, 0, 0, 0],
    }
}

/// The label of a window: its owner, followed by " — " and its title when it has one.
pub open spec fn window_label(owner: Seq<char>, title: Seq<char>) -> Seq<char> {
    if title.len() == 0 {
        owner
    } else {
        owner + " \u{2014} "@ + title
    }
}

/// The source offered for a window, or `None` when it is skipped: windows off the
/// normal layer (a missing layer counts as not normal), without an id, without an
/// owner, or smaller than 40 pixels in either direction.
pub open spec fn window_source(r: WindowRecord) -> Option<SourceView> {
    let layer = match r.layer {
        Some(l) => l,
        None => 1,
    };
    let owner = text_or_empty(r.owner);
    let rect = window_rect(r);
    if layer != 0 || window_id(r) == 0 || owner.len() == 0 || rect[2] < 40 || rect[3] < 40 {
        None
    } else {
        Some(
            SourceView {
                id: decimal_text(window_id(r) as nat),
                name: window_label(owner, text_or_empty(r.title)),
                kind: "window"@,
                rect,
            },
        )
    }
}

/// The sources offered for a list of windows, in order.
pub open spec fn window_sources(rs: Seq<WindowRecord>) -> Seq<SourceView>
    decreases rs.len(),
{
    if rs.len() == 0 {
        seq![]
    } else {
        match window_source(rs.last()) {
            Some(v) => window_sources(rs.drop_last()).push(v),
            None => window_sources(rs.drop_last()),
        }
    }
}

/// A window the list offers: on the normal layer, with a non-zero id, a named
/// owner, and reported bounds at least 40 pixels wide and 40 pixels high.
pub open spec fn offered(r: WindowRecord) -> bool {
    &&& r.layer == Some(0i32)
    &&& r.number is Some && r.number.unwrap() as u32 != 0
    &&& r.owner is Some && r.owner.unwrap()@.len() > 0
    &&& r.bounds is Some && r.bounds.unwrap()[2] >= 40 && r.bounds.unwrap()[3] >= 40
}

proof fn lemma_window_source_offered(r: WindowRecord)
    ensures
        window_source(r) is Some <==> offered(r),
        window_source(r) is Some ==> window_source(r).unwrap().rect == r.bounds.unwrap(),
{
}

/// The windows offered are exactly those on the normal layer with a non-zero id, a
/// named owner and bounds of at least 40 by 40 pixels, in the order reported: the
/// `i`-th source is the `i`-th such window, a "window" source with that window's
/// id and bounds, named by its owner and, when it has one, " — " and its title. No smaller window is ever offered.
pub proof fn lemma_offered_windows(rs: Seq<WindowRecord>)
    ensures
        window_sources(rs).len() == rs.filter(|r: WindowRecord| offered(r)).len(),
        forall|i: int| 0 <= i < window_sources(rs).len() ==> {
            let v = #[trigger] window_sources(rs)[i];
            let r = rs.filter(|r: WindowRecord| offered(r))[i];
            &&& v.rect[2] >= 40 && v.rect[3] >= 40
            &&& v.kind == "window"@
            &&& v.rect == r.bounds.unwrap()
            &&& v.id == decimal_text(window_id(r) as nat)
            &&& v.name == if r.title is Some && r.title.unwrap()@.len() > 0 {
                r.owner.unwrap()@ + " \u{2014} "@ + r.title.unwrap()@
            } else {
                r.owner.unwrap()@
            }
        },
    decreases rs.len(),
{
    if rs.len() > 0 {
        let init = rs.drop_last();
        lemma_offered_windows(init);
        lemma_window_source_offered(rs.last());
        let f = rs.filter(|r: WindowRecord| offered(r));
        let fi = init.filter(|r: WindowRecord| offered(r));
        reveal_with_fuel(Seq::filter, 1);
        assert(rs.drop_last() == init);
        assert(f == if offered(rs.last()) { fi.push(rs.last()) } else { fi });
        let ws = window_sources(rs);
        let wi = window_sources(init);
        assert forall|i: int| 0 <= i < ws.len() implies {
            let v = #[trigger] ws[i];
            let r = f[i];
            &&& v.rect[2] >= 40 && v.rect[3] >= 40
            &&& v.kind == "window"@
            &&& v.rect == r.bounds.unwrap()
            &&& v.id == decimal_text(window_id(r) as nat)
            &&& v.name == if r.title is Some && r.title.unwrap()@.len() > 0 {
                r.owner.unwrap()@ + " \u{2014} "@ + r.title.unwrap()@
            } else {
                r.owner.unwrap()@
            }
        } by {
            if i < wi.len() {
                assert(ws[i] == wi[i]);
                assert(f[i] == fi[i]);
            } else {
                assert(f[i] == rs.last());
            }
        }
    }
}

fn text_of(s: &Option<String>) -> (t: String)
    ensures
        t@ == text_or_empty(*s),
{
    match s {
        Some(t) => t.clone(),
        None => String::new(),
    }
}

fn window_to_source(r: &WindowRecord) -> (o: Option<SourceOption>)
    ensures
        match o {
            Some(s) => window_source(*r) == Some(s@),
            None => window_source(*r) is None,
        },
{
    let layer = match r.layer {
        Some(l) => l,
        None => 1,
    };
    if layer != 0 {
        return None;
    }
    let win_id: u32 = match r.number {
        Some(n) => n as u32,
        None => 0,
    };
    if win_id == 0 {
        return None;
    }
    let owner = text_of(&r.owner);
    if owner.as_str().unicode_len() == 0 {
        return None;
    }
    let title = text_of(&r.title);
    let rect = match r.bounds {
        Some(b) => b,
        None => [0, 0, 0, 0],
    };
    if rect[2] < 40 || rect[3] < 40 {
        return None;
    }
    let name = if title.as_str().unicode_len() == 0 {
        owner
    } else {
        let mut label = owner;
        label.append(" \u{2014} ");
        label.append(title.as_str());
        label
    };
    Some(SourceOption { id: decimal(win_id as u64), name, kind: String::from_str("window"), rect })
}

/// The sources offered for the on-screen windows, in the order reported.
pub fn collect_windows(records: &Vec<WindowRecord>) -> (out: Vec<SourceOption>)
    ensures
        source_views(out@) == window_sources(records@),
        out@.len() == records@.filter(|r: WindowRecord| offered(r)).len(),
        forall|i: int| 0 <= i < out@.len() ==> #[trigger] out@[i].rect[2] >= 40 && out@[i].rect[3] >= 40
            && out@[i].kind@ == "window"@,
{
    let mut out: Vec<SourceOption> = Vec::new();
    let mut i: usize = 0;
    while i < records.len()
        invariant
            i <= records@.len(),
            source_views(out@) == window_sources(records@.take(i as int)),
        decreases records@.len() - i,
    {
        assert(records@.take(i + 1).drop_last() =~= records@.take(i as int));
        assert(records@.take(i + 1).last() == records@[i as int]);
        let ghost before = out@;
        match window_to_source(&records[i]) {
            Some(o) => {
                out.push(o);
                assert(source_views(out@) =~= source_views(before).push(out@.last()@));
            },
            None => {},
        }
        i = i + 1;
    }
    assert(records@.take(records@.len() as int) =~= records@);
    proof {
        lemma_offered_windows(records@);
        assert forall|i: int| 0 <= i < out@.len() implies #[trigger] out@[i].rect[2] >= 40 && out@[i].rect[3] >= 40
            && out@[i].kind@ == "window"@ by {
            assert(source_views(out@)[i] == out@[i]@);
        }
    }
    out
}

/// The sources offered from the portable window list: an error when screen
/// recording is not permitted, otherwise one source per window (id and title),
/// with an unknown (zero) rectangle.
pub fn portable_windows(permitted: bool, windows: &Vec<(u32, String)>) -> (res: Result<Vec<SourceOption>, String>)
    ensures
        match res {
            Err(e) => !permitted && e@ == "Screen recording permission not granted"@,
            Ok(out) => permitted && out@.len() == windows@.len() && forall|i: int|
                0 <= i < out@.len() ==> {
                    &&& #[trigger] out@[i]@.id == decimal_text(windows@[i].0 as nat)
                    &&& out@[i]@.name == windows@[i].1@
                    &&& out@[i]@.kind == "window"@
                    &&& out@[i]@.rect == [0i64, 0, 0, 0]
                },
        },
{
    if !permitted {
        return Err(String::from_str("Screen recording permission not granted"));
    }
    let mut out: Vec<SourceOption> = Vec::new();
    let mut i: usize = 0;
    while i < windows.len()
        invariant
            i <= windows@.len(),
            out@.len() == i,
            forall|j: int| 0 <= j < i ==> {
                &&& #[trigger] out@[j]@.id == decimal_text(windows@[j].0 as nat)
                &&& out@[j]@.name == windows@[j].1@
                &&& out@[j]@.kind == "window"@
                &&& out@[j]@.rect == [0i64, 0, 0, 0]
            },
        decreases windows@.len() - i,
    {
        out.push(SourceOption {
            id: decimal(windows[i].0 as u64),
            name: windows[i].1.clone(),
            kind: String::from_str("window"),
            rect: [0, 0, 0, 0],
        });
        i = i + 1;
    }
    Ok(out)
}

} // verus!
