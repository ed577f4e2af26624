use vstd::prelude::*;

use crate::capture::ffmpeg::texts;
use crate::text::{
    decimal, decimal_text, find_char, first_index_of, parse_unsigned, parse_unsigned_text, trim, trimmed,
};

verus! {

/// `"if(" + cond + "," + value + ","` for each branch, then the fallback, then one
/// closing parenthesis per branch: the first branch whose condition holds decides.
/// One branch of a piecewise expression, up to its else part.
pub open spec fn piece(b: (Seq<char>, Seq<char>)) -> Seq<char> {
    "if("@ + b.0 + ","@ + b.1 + ","@
}

pub open spec fn nested_if_text(branches: Seq<(Seq<char>, Seq<char>)>, fallback: Seq<char>) -> Seq<char>
    decreases branches.len(),
{
    if branches.len() == 0 {
        fallback
    } else {
        piece(branches[0]) + nested_if_text(branches.drop_first(), fallback) + ")"@
    }
}

pub open spec fn branch_texts(branches: Seq<(String, String)>) -> Seq<(Seq<char>, Seq<char>)> {
    branches.map_values(|b: (String, String)| (b.0@, b.1@))
}

pub open spec fn closing(n: nat) -> Seq<char>
    decreases n,
{
    if n == 0 { seq![] } else { closing((n - 1) as nat) + ")"@ }
}

pub open spec fn opening(branches: Seq<(Seq<char>, Seq<char>)>) -> Seq<char>
    decreases branches.len(),
{
    if branches.len() == 0 {
        seq![]
    } else {
        opening(branches.drop_last()) + piece(branches.last())
    }
}

proof fn lemma_closing_split(n: nat)
    requires
        n > 0,
    ensures
        closing(n) == ")"@ + closing((n - 1) as nat),
    decreases n,
{
    if n > 1 {
        lemma_closing_split((n - 1) as nat);
        assert(closing(n) =~= ")"@ + closing((n - 1) as nat));
    } else {
        assert(closing(n) =~= ")"@ + closing((n - 1) as nat));
    }
}

proof fn lemma_nested_if_flat(branches: Seq<(Seq<char>, Seq<char>)>, fallback: Seq<char>)
    ensures
        nested_if_text(branches, fallback) == opening(branches) + fallback + closing(branches.len()),
    decreases branches.len(),
{
    if branches.len() > 0 {
        let rest = branches.drop_first();
        lemma_nested_if_flat(rest, fallback);
        lemma_opening_first(branches);
        lemma_closing_split(branches.len());
        assert(nested_if_text(branches, fallback) =~= opening(branches) + fallback + closing(branches.len()));
    } else {
        assert(nested_if_text(branches, fallback) =~= opening(branches) + fallback + closing(branches.len()));
    }
}

proof fn lemma_opening_first(branches: Seq<(Seq<char>, Seq<char>)>)
    requires
        branches.len() > 0,
    ensures
        opening(branches) == piece(branches[0]) + opening(branches.drop_first()),
    decreases branches.len(),
{
    if branches.len() > 1 {
        let init = branches.drop_last();
        lemma_opening_first(init);
        assert(init.drop_first() =~= branches.drop_first().drop_last());
        assert(branches.drop_first().last() == branches.last());
        assert(init[0] == branches[0]);
        let df = branches.drop_first();
        let a = piece(branches[0]);
        let b = opening(df.drop_last());
        let c = piece(branches.last());
        assert(opening(df) == b + c);
        assert(opening(init) == a + b);
        assert(opening(branches) == opening(init) + c);
        assert((a + b) + c =~= a + (b + c));
    } else {
        assert(branches.drop_first().len() == 0);
        assert(branches.drop_last().len() == 0);
        assert(opening(branches.drop_first()) == Seq::<char>::empty());
        assert(opening(branches.drop_last()) == Seq::<char>::empty());
        assert(branches.last() == branches[0]);
        assert(opening(branches) == Seq::<char>::empty() + piece(branches[0]));
        assert(opening(branches) =~= piece(branches[0]) + opening(branches.drop_first()));
    }
}

/// Builds a piecewise ffmpeg expression: the value of the first branch whose
/// condition holds, else the fallback.
pub fn nested_if(branches: &Vec<(String, String)>, fallback: &str) -> (e: String)
    ensures
        e@ == nested_if_text(branch_texts(branches@), fallback@),
{
    let ghost bs = branch_texts(branches@);
    let mut e = String::new();
    let mut i: usize = 0;
    while i < branches.len()
        invariant
            i <= branches@.len(),
            bs == branch_texts(branches@),
            e@ == opening(bs.take(i as int)),
        decreases branches@.len() - i,
    {
        assert(bs.take(i + 1).drop_last() =~= bs.take(i as int));
        assert(bs.take(i + 1).last() == bs[i as int]);
        assert(bs[i as int] == (branches@[i as int].0@, branches@[i as int].1@));
        e.append("if(");
        e.append(branches[i].0.as_str());
        e.append(",");
        e.append(branches[i].1.as_str());
        e.append(",");
        i = i + 1;
    }
    assert(bs.take(branches@.len() as int) =~= bs);
    e.append(fallback);
    let mut k: usize = 0;
    while k < branches.len()
        invariant
            k <= branches@.len(),
            e@ == opening(bs) + fallback@ + closing(k as nat),
        decreases branches@.len() - k,
    {
        e.append(")");
        k = k + 1;
    }
    proof {
        lemma_nested_if_flat(bs, fallback@);
    }
    e
}

/// The pan expression along one axis (`dim` is "iw" or "ih"): the centre clamped so
/// the zoomed view stays inside the frame, turned into the top-left offset.
pub open spec fn pan_text(center: Seq<char>, dim: Seq<char>) -> Seq<char> {
    dim + "*max(0.5/zoom,min("@ + center + ",1-0.5/zoom))-("@ + dim + "/zoom/2)"@
}

pub fn pan_expr(center: &str, dim: &str) -> (e: String)
    ensures
        e@ == pan_text(center@, dim@),
{
    let mut e = String::from_str(dim);
    e.append("*max(0.5/zoom,min(");
    e.append(center);
    e.append(",1-0.5/zoom))-(");
    e.append(dim);
    e.append("/zoom/2)");
    e
}

/// The webcam overlay part of the filter graph: the webcam input scaled to `s`x`s`,
/// mirrored when asked, masked to a circle (or, for the "rounded" shape, to a
/// square with corners of radius `rounded_radius`), and laid over the zoomed video
/// at (`x`, `y`).
pub open spec fn overlay_graph_text(s: u32, x: u32, y: u32, mirror: bool, shape: Seq<char>, rounded_radius: u32) -> Seq<char> {
    let st = decimal_text(s as nat);
    let hflip = if mirror { "hflip,"@ } else { ""@ };
    let mask = if shape == "rounded"@ {
        let w1 = st + "-1-"@;
        let rad = decimal_text(rounded_radius as nat);
        "geq=lum='p(X,Y)':a='if(gt(min(min(X,"@ + w1 + "X),min(Y,"@ + w1 + "Y)),"@ + rad
            + "),255,if(lte(hypot(max("@ + rad + "-X,0)+max(X-("@ + w1 + rad + "),0),max("@ + rad
            + "-Y,0)+max(Y-("@ + w1 + rad + "),0)),"@ + rad + "),255,0))'"@
    } else {
        let r = decimal_text((s / 2) as nat);
        "geq=lum='p(X,Y)':a='if(lte(hypot(X-"@ + r + ",Y-"@ + r + "),"@ + r + "),255,0)'"@
    };
    "[1:v]scale="@ + st + ":"@ + st + ","@ + hflip + "format=rgba,"@ + mask + "[fg];[bg][fg]overlay="@
        + decimal_text(x as nat) + ":"@ + decimal_text(y as nat) + ":format=auto[outv]"@
}

/// The webcam is flipped exactly when it is mirrored, whatever the mask's shape: the
/// mirrored graph is the unmirrored one with "hflip," inserted right after the
/// scaling, and the unmirrored graph goes straight from the scaling to the pixel
/// format, with no flip. Either way the webcam is laid over at (`x`, `y`).
pub proof fn lemma_overlay_mirror(s: u32, x: u32, y: u32, shape: Seq<char>, rounded_radius: u32)
    ensures
        ({
            let head = "[1:v]scale="@ + decimal_text(s as nat) + ":"@ + decimal_text(s as nat) + ","@;
            let on = overlay_graph_text(s, x, y, true, shape, rounded_radius);
            let off = overlay_graph_text(s, x, y, false, shape, rounded_radius);
            let place = "[fg];[bg][fg]overlay="@ + decimal_text(x as nat) + ":"@ + decimal_text(y as nat)
                + ":format=auto[outv]"@;
            &&& off.len() >= head.len() + 12
            &&& off.take(head.len() + 12int) == head + "format=rgba,"@
            &&& on == head + "hflip,"@ + off.skip(head.len() as int)
            &&& off.len() >= place.len()
            &&& off.skip(off.len() - place.len()) == place
        }),
{
    let st = decimal_text(s as nat);
    let head = "[1:v]scale="@ + st + ":"@ + st + ","@;
    let mask = if shape == "rounded"@ {
        let w1 = st + "-1-"@;
        let rad = decimal_text(rounded_radius as nat);
        "geq=lum='p(X,Y)':a='if(gt(min(min(X,"@ + w1 + "X),min(Y,"@ + w1 + "Y)),"@ + rad
            + "),255,if(lte(hypot(max("@ + rad + "-X,0)+max(X-("@ + w1 + rad + "),0),max("@ + rad
            + "-Y,0)+max(Y-("@ + w1 + rad + "),0)),"@ + rad + "),255,0))'"@
    } else {
        let r = decimal_text((s / 2) as nat);
        "geq=lum='p(X,Y)':a='if(lte(hypot(X-"@ + r + ",Y-"@ + r + "),"@ + r + "),255,0)'"@
    };
    let body = "format=rgba,"@ + mask + "[fg];[bg][fg]overlay="@ + decimal_text(x as nat) + ":"@
        + decimal_text(y as nat) + ":format=auto[outv]"@;
    let on = overlay_graph_text(s, x, y, true, shape, rounded_radius);
    let off = overlay_graph_text(s, x, y, false, shape, rounded_radius);
    reveal_strlit("");
    reveal_strlit("format=rgba,");
    assert(off =~= head + body);
    assert(on =~= head + "hflip,"@ + body);
    assert((head + body).skip(head.len() as int) =~= body);
    assert((head + body).take(head.len() + 12int) =~= head + "format=rgba,"@);
    let place = "[fg];[bg][fg]overlay="@ + decimal_text(x as nat) + ":"@ + decimal_text(y as nat)
        + ":format=auto[outv]"@;
    let pre = head + "format=rgba,"@ + mask;
    assert(off =~= pre + place);
    assert((pre + place).skip((pre + place).len() - place.len()) =~= place);
}

/// Builds the webcam overlay part of the export filter graph from the overlay's
/// pixel geometry.
pub fn overlay_filter_graph(s: u32, x: u32, y: u32, mirror: bool, shape: &str, rounded_radius: u32) -> (f: String)
    ensures
        f@ == overlay_graph_text(s, x, y, mirror, shape@, rounded_radius),
{
    let st = decimal(s as u64);
    let mask = if String::from_str(shape) == String::from_str("rounded") {
        let mut w1 = st.clone();
        w1.append("-1-");
        let rad = decimal(rounded_radius as u64);
        let mut m = String::from_str("geq=lum='p(X,Y)':a='if(gt(min(min(X,");
        m.append(w1.as_str());
        m.append("X),min(Y,");
        m.append(w1.as_str());
        m.append("Y)),");
        m.append(rad.as_str());
        m.append("),255,if(lte(hypot(max(");
        m.append(rad.as_str());
        m.append("-X,0)+max(X-(");
        m.append(w1.as_str());
        m.append(rad.as_str());
        m.append("),0),max(");
        m.append(rad.as_str());
        m.append("-Y,0)+max(Y-(");
        m.append(w1.as_str());
        m.append(rad.as_str());
        m.append("),0)),");
        m.append(rad.as_str());
        m.append("),255,0))'");
        m
    } else {
        let r = decimal((s / 2) as u64);
        let mut m = String::from_str("geq=lum='p(X,Y)':a='if(lte(hypot(X-");
        m.append(r.as_str());
        m.append(",Y-");
        m.append(r.as_str());
        m.append("),");
        m.append(r.as_str());
        m.append("),255,0)'");
        m
    };
    let mut f = String::from_str("[1:v]scale=");
    f.append(st.as_str());
    f.append(":");
    f.append(st.as_str());
    f.append(",");
    if mirror {
        f.append("hflip,");
    }
    f.append("format=rgba,");
    f.append(mask.as_str());
    f.append("[fg];[bg][fg]overlay=");
    f.append(decimal(x as u64).as_str());
    f.append(":");
    f.append(decimal(y as u64).as_str());
    f.append(":format=auto[outv]");
    proof {
        reveal_strlit("");
    }
    assert(f@ =~= overlay_graph_text(s, x, y, mirror, shape@, rounded_radius));
    f
}


/// The numbers of one zoom segment, already written out as ffmpeg expression
/// literals: times in seconds, the ramp lengths, the segment length, the scale and
/// the `(x, y)` fractions of each of its targets, in order.
pub struct SegmentTexts {
    pub start: String,
    pub end: String,
    pub ease_in: String,
    pub ease_out: String,
    pub dur: String,
    pub scale: String,
    pub targets: Vec<(String, String)>,
}

/// The pan centre a segment holds on one axis (`across`: x, else y): that of its
/// first target, or the middle (`0.5`) when it has none.
pub open spec fn centre_text(t: SegmentTexts, across: bool) -> Seq<char> {
    if t.targets@.len() == 0 {
        "0.5"@
    } else if across {
        t.targets@[0].0@
    } else {
        t.targets@[0].1@
    }
}

/// Picks the pan centre of a segment on one axis.
fn centre(t: &SegmentTexts, across: bool) -> (c: String)
    ensures
        c@ == centre_text(*t, across),
{
    if t.targets.len() == 0 {
        String::from_str("0.5")
    } else if across {
        t.targets[0].0.clone()
    } else {
        t.targets[0].1.clone()
    }
}

/// The segment is showing at output frame `on` (time `on/fps`).
pub open spec fn showing_text(t: SegmentTexts, fps: Seq<char>) -> Seq<char> {
    "between(on/"@ + fps + ","@ + t.start@ + ","@ + t.end@ + ")"@
}

/// ffmpeg's form of the cubic smoothstep `r * r * (3 - 2 * r)`.
pub open spec fn smooth_text(r: Seq<char>) -> Seq<char> {
    "("@ + r + ")*("@ + r + ")*(3-2*("@ + r + "))"@
}

/// The zoom factor inside a segment: 1 + (scale - 1) times the ease-in factor on the
/// ease-in ramp, the ease-out factor on the ease-out ramp, 1 on the plateau.
pub open spec fn zoom_value_text(t: SegmentTexts, fps: Seq<char>) -> Seq<char> {
    let now = "on/"@ + fps;
    let r_in = "min(1,max(0,("@ + now + "-"@ + t.start@ + ")/"@ + t.ease_in@ + "))"@;
    let r_out = "min(1,max(0,("@ + t.end@ + "-"@ + now + ")/"@ + t.ease_out@ + "))"@;
    "1+("@ + t.scale@ + "-1)*"@ + nested_if_text(
        seq![
            ("lt("@ + now + "-"@ + t.start@ + ","@ + t.ease_in@ + ")"@, smooth_text(r_in)),
            ("gt("@ + now + "-"@ + t.start@ + ","@ + t.dur@ + "-"@ + t.ease_out@ + ")"@, smooth_text(r_out)),
        ],
        "1"@,
    )
}

/// The zoompan expressions `(z, x, y)` for the segments: the zoom factor of the first
/// segment showing (1 elsewhere), and the pan that keeps the first target of the
/// first segment showing (else the middle) centred as far as the frame allows.
/// Without segments, the identity view.
pub open spec fn zoompan_texts(segs: Seq<SegmentTexts>, fps: u32) -> (Seq<char>, Seq<char>, Seq<char>) {
    let f = decimal_text(fps as nat);
    if segs.len() == 0 {
        ("1"@, "iw/2-(iw/zoom/2)"@, "ih/2-(ih/zoom/2)"@)
    } else {
        let z = nested_if_text(segs.map_values(|t: SegmentTexts| (showing_text(t, f), zoom_value_text(t, f))), "1"@);
        let cx = nested_if_text(segs.map_values(|t: SegmentTexts| (showing_text(t, f), centre_text(t, true))), "0.5"@);
        let cy = nested_if_text(segs.map_values(|t: SegmentTexts| (showing_text(t, f), centre_text(t, false))), "0.5"@);
        (z, pan_text(cx, "iw"@), pan_text(cy, "ih"@))
    }
}

/// Each segment's zoom is its own: the zoom expression for a list of segments first
/// tests whether the first segment is showing and, if so, zooms by that segment's
/// own scale, easing in from its own start over its own ease-in and out to its own
/// end over its own ease-out; otherwise it is the zoom expression of the remaining
/// segments.
pub proof fn lemma_zoom_layers(segs: Seq<SegmentTexts>, fps: u32)
    requires
        segs.len() > 0,
    ensures
        ({
            let a = segs[0];
            let f = decimal_text(fps as nat);
            let now = "on/"@ + f;
            let r_in = "min(1,max(0,("@ + now + "-"@ + a.start@ + ")/"@ + a.ease_in@ + "))"@;
            let r_out = "min(1,max(0,("@ + a.end@ + "-"@ + now + ")/"@ + a.ease_out@ + "))"@;
            let s_in = "("@ + r_in + ")*("@ + r_in + ")*(3-2*("@ + r_in + "))"@;
            let s_out = "("@ + r_out + ")*("@ + r_out + ")*(3-2*("@ + r_out + "))"@;
            let easing_in = "lt("@ + now + "-"@ + a.start@ + ","@ + a.ease_in@ + ")"@;
            let easing_out = "gt("@ + now + "-"@ + a.start@ + ","@ + a.dur@ + "-"@ + a.ease_out@ + ")"@;
            let ramp = "if("@ + easing_in + ","@ + s_in + ","@ + ("if("@ + easing_out + ","@ + s_out + ","@ + "1"@
                + ")"@) + ")"@;
            let showing = "between(on/"@ + f + ","@ + a.start@ + ","@ + a.end@ + ")"@;
            let value = "1+("@ + a.scale@ + "-1)*"@ + ramp;
            zoompan_texts(segs, fps).0 == "if("@ + showing + ","@ + value + ","@ + zoompan_texts(segs.drop_first(), fps).0
                + ")"@
        }),
{
    let f = decimal_text(fps as nat);
    let g = |t: SegmentTexts| (showing_text(t, f), zoom_value_text(t, f));
    let rest = segs.drop_first();
    assert(segs.map_values(g).drop_first() =~= rest.map_values(g));
    if rest.len() == 0 {
        assert(rest.map_values(g) =~= Seq::<(Seq<char>, Seq<char>)>::empty());
    }
    let a = segs[0];
    let now = "on/"@ + f;
    let r_in = "min(1,max(0,("@ + now + "-"@ + a.start@ + ")/"@ + a.ease_in@ + "))"@;
    let r_out = "min(1,max(0,("@ + a.end@ + "-"@ + now + ")/"@ + a.ease_out@ + "))"@;
    let easing_in = "lt("@ + now + "-"@ + a.start@ + ","@ + a.ease_in@ + ")"@;
    let easing_out = "gt("@ + now + "-"@ + a.start@ + ","@ + a.dur@ + "-"@ + a.ease_out@ + ")"@;
    let ramps = seq![(easing_in, smooth_text(r_in)), (easing_out, smooth_text(r_out))];
    assert(ramps.drop_first().drop_first() =~= Seq::<(Seq<char>, Seq<char>)>::empty());
    assert(ramps.drop_first()[0] == ramps[1]);
    reveal_with_fuel(nested_if_text, 3);
}

/// Each segment pans to its own first target (the middle when it has none): the
/// horizontal pan tests the segments in order, and while segment `i` shows it
/// centres on the `x` of segment `i`'s first target; likewise vertically with `y`.
/// Outside every segment the centre is the middle.
pub proof fn lemma_pan_layers(segs: Seq<SegmentTexts>, fps: u32)
    requires
        segs.len() > 0,
    ensures
        ({
            let f = decimal_text(fps as nat);
            let xs = Seq::new(segs.len(), |i: int| (
                "between(on/"@ + f + ","@ + segs[i].start@ + ","@ + segs[i].end@ + ")"@,
                if segs[i].targets@.len() > 0 { segs[i].targets@[0].0@ } else { "0.5"@ },
            ));
            let ys = Seq::new(segs.len(), |i: int| (
                "between(on/"@ + f + ","@ + segs[i].start@ + ","@ + segs[i].end@ + ")"@,
                if segs[i].targets@.len() > 0 { segs[i].targets@[0].1@ } else { "0.5"@ },
            ));
            &&& zoompan_texts(segs, fps).1 == "iw"@ + "*max(0.5/zoom,min("@ + nested_if_text(xs, "0.5"@)
                + ",1-0.5/zoom))-("@ + "iw"@ + "/zoom/2)"@
            &&& zoompan_texts(segs, fps).2 == "ih"@ + "*max(0.5/zoom,min("@ + nested_if_text(ys, "0.5"@)
                + ",1-0.5/zoom))-("@ + "ih"@ + "/zoom/2)"@
        }),
{
    let f = decimal_text(fps as nat);
    let xs = Seq::new(segs.len(), |i: int| (
        "between(on/"@ + f + ","@ + segs[i].start@ + ","@ + segs[i].end@ + ")"@,
        if segs[i].targets@.len() > 0 { segs[i].targets@[0].0@ } else { "0.5"@ },
    ));
    let ys = Seq::new(segs.len(), |i: int| (
        "between(on/"@ + f + ","@ + segs[i].start@ + ","@ + segs[i].end@ + ")"@,
        if segs[i].targets@.len() > 0 { segs[i].targets@[0].1@ } else { "0.5"@ },
    ));
    assert(segs.map_values(|t: SegmentTexts| (showing_text(t, f), centre_text(t, true))) =~= xs);
    assert(segs.map_values(|t: SegmentTexts| (showing_text(t, f), centre_text(t, false))) =~= ys);
}

fn showing(t: &SegmentTexts, fps: &str) -> (s: String)
    ensures
        s@ == showing_text(*t, fps@),
{
    let mut s = String::from_str("between(on/");
    s.append(fps);
    s.append(",");
    s.append(t.start.as_str());
    s.append(",");
    s.append(t.end.as_str());
    s.append(")");
    s
}

fn smooth(r: &str) -> (s: String)
    ensures
        s@ == smooth_text(r@),
{
    let mut s = String::from_str("(");
    s.append(r);
    s.append(")*(");
    s.append(r);
    s.append(")*(3-2*(");
    s.append(r);
    s.append("))");
    s
}

fn zoom_value(t: &SegmentTexts, fps: &str) -> (v: String)
    ensures
        v@ == zoom_value_text(*t, fps@),
{
    let mut now = String::from_str("on/");
    now.append(fps);
    let mut r_in = String::from_str("min(1,max(0,(");
    r_in.append(now.as_str());
    r_in.append("-");
    r_in.append(t.start.as_str());
    r_in.append(")/");
    r_in.append(t.ease_in.as_str());
    r_in.append("))");
    let mut r_out = String::from_str("min(1,max(0,(");
    r_out.append(t.end.as_str());
    r_out.append("-");
    r_out.append(now.as_str());
    r_out.append(")/");
    r_out.append(t.ease_out.as_str());
    r_out.append("))");
    let mut lt = String::from_str("lt(");
    lt.append(now.as_str());
    lt.append("-");
    lt.append(t.start.as_str());
    lt.append(",");
    lt.append(t.ease_in.as_str());
    lt.append(")");
    let mut gt = String::from_str("gt(");
    gt.append(now.as_str());
    gt.append("-");
    gt.append(t.start.as_str());
    gt.append(",");
    gt.append(t.dur.as_str());
    gt.append("-");
    gt.append(t.ease_out.as_str());
    gt.append(")");
    let mut ramps: Vec<(String, String)> = Vec::new();
    ramps.push((lt, smooth(r_in.as_str())));
    ramps.push((gt, smooth(r_out.as_str())));
    let ramp = nested_if(&ramps, "1");
    let mut v = String::from_str("1+(");
    v.append(t.scale.as_str());
    v.append("-1)*");
    v.append(ramp.as_str());
    proof {
        let f = fps@;
        let nw = "on/"@ + f;
        let rin = "min(1,max(0,("@ + nw + "-"@ + t.start@ + ")/"@ + t.ease_in@ + "))"@;
        let rout = "min(1,max(0,("@ + t.end@ + "-"@ + nw + ")/"@ + t.ease_out@ + "))"@;
        assert(branch_texts(ramps@) =~= seq![
            ("lt("@ + nw + "-"@ + t.start@ + ","@ + t.ease_in@ + ")"@, smooth_text(rin)),
            ("gt("@ + nw + "-"@ + t.start@ + ","@ + t.dur@ + "-"@ + t.ease_out@ + ")"@, smooth_text(rout)),
        ]);
    }
    v
}

/// Builds the zoompan expressions `(z, x, y)` for a zoom model's segments.
pub fn zoompan_exprs(segs: &Vec<SegmentTexts>, fps: u32) -> (e: (String, String, String))
    ensures
        (e.0@, e.1@, e.2@) == zoompan_texts(segs@, fps),
{
    if segs.len() == 0 {
        return (String::from_str("1"), String::from_str("iw/2-(iw/zoom/2)"), String::from_str("ih/2-(ih/zoom/2)"));
    }
    let f = decimal(fps as u64);
    let ghost fv = f@;
    let mut zb: Vec<(String, String)> = Vec::new();
    let mut xb: Vec<(String, String)> = Vec::new();
    let mut yb: Vec<(String, String)> = Vec::new();
    let mut i: usize = 0;
    while i < segs.len()
        invariant
            i <= segs@.len(),
            fv == f@,
            zb@.len() == i && xb@.len() == i && yb@.len() == i,
            forall|j: int| 0 <= j < i ==> {
                &&& (#[trigger] zb@[j]).0@ == showing_text(segs@[j], fv)
                &&& zb@[j].1@ == zoom_value_text(segs@[j], fv)
            },
            forall|j: int| 0 <= j < i ==> {
                &&& (#[trigger] xb@[j]).0@ == showing_text(segs@[j], fv)
                &&& xb@[j].1@ == centre_text(segs@[j], true)
            },
            forall|j: int| 0 <= j < i ==> {
                &&& (#[trigger] yb@[j]).0@ == showing_text(segs@[j], fv)
                &&& yb@[j].1@ == centre_text(segs@[j], false)
            },
        decreases segs@.len() - i,
    {
        let t = &segs[i];
        zb.push((showing(t, f.as_str()), zoom_value(t, f.as_str())));
        xb.push((showing(t, f.as_str()), centre(t, true)));
        yb.push((showing(t, f.as_str()), centre(t, false)));
        i = i + 1;
    }
    assert(branch_texts(zb@) =~= segs@.map_values(|t: SegmentTexts| (showing_text(t, fv), zoom_value_text(t, fv))));
    assert(branch_texts(xb@) =~= segs@.map_values(|t: SegmentTexts| (showing_text(t, fv), centre_text(t, true))));
    assert(branch_texts(yb@) =~= segs@.map_values(|t: SegmentTexts| (showing_text(t, fv), centre_text(t, false))));
    let z = nested_if(&zb, "1");
    let cx = nested_if(&xb, "0.5");
    let cy = nested_if(&yb, "0.5");
    (z, pan_expr(cx.as_str(), "iw"), pan_expr(cy.as_str(), "ih"))
}


/// The zoompan filter: one output frame per input frame (`d=1`) at `fps`, of size
/// `size` (`WxH`, or `iw:ih` to keep the input's).
pub open spec fn zoompan_filter_text(z: Seq<char>, x: Seq<char>, y: Seq<char>, fps: u32, size: Seq<char>) -> Seq<char> {
    "zoompan=z='"@ + z + "':x='"@ + x + "':y='"@ + y + "':d=1:fps="@ + decimal_text(fps as nat) + ":s="@ + size
}

pub fn zoompan_filter(z: &str, x: &str, y: &str, fps: u32, size: &str) -> (f: String)
    ensures
        f@ == zoompan_filter_text(z@, x@, y@, fps, size@),
{
    let mut f = String::from_str("zoompan=z='");
    f.append(z);
    f.append("':x='");
    f.append(x);
    f.append("':y='");
    f.append(y);
    f.append("':d=1:fps=");
    f.append(decimal(fps as u64).as_str());
    f.append(":s=");
    f.append(size);
    f
}

/// The ffmpeg arguments of an export: with a webcam track, its file as second input
/// and the zoompan output labelled `[bg]` beneath the overlay graph in a
/// filter_complex; without one, the zoompan as the video filter. Both re-encode
/// the video, copy the audio and report progress on stdout.
pub open spec fn export_args_text(
    video: Seq<char>,
    zoompan: Seq<char>,
    overlay: Option<(Seq<char>, Seq<char>)>,
    out: Seq<char>,
) -> Seq<Seq<char>> {
    let tail = seq![
        "-c:v"@, "libx264"@,
        "-preset"@, "fast"@,
        "-pix_fmt"@, "yuv420p"@,
        "-c:a"@, "copy"@,
        "-progress"@, "pipe:1"@,
        "-nostats"@,
        out,
    ];
    match overlay {
        Some((webcam, graph)) => seq![
            "-y"@,
            "-i"@, video,
            "-i"@, webcam,
            "-filter_complex"@, zoompan + "[bg];"@ + graph,
            "-map"@, "[outv]"@,
            "-map"@, "0:a?"@,
        ] + tail,
        None => seq!["-y"@, "-i"@, video, "-vf"@, zoompan] + tail,
    }
}

fn push_text(args: &mut Vec<String>, a: &str)
    ensures
        texts(final(args)@) == texts(old(args)@).push(a@),
{
    args.push(String::from_str(a));
    assert(texts(args@) =~= texts(old(args)@).push(a@));
}

/// The webcam is composited when the model has an overlay, the overlay is enabled,
/// and the webcam recording exists beside the video.
pub open spec fn composites_webcam(overlay_enabled: Option<bool>, webcam_file_exists: bool) -> bool {
    overlay_enabled == Some(true) && webcam_file_exists
}

/// Decides whether an export composites the webcam: `overlay_enabled` is the
/// model's overlay switch (`None` without an overlay), `webcam_file_exists` whether
/// the webcam recording was found on disk.
pub fn use_webcam(overlay_enabled: Option<bool>, webcam_file_exists: bool) -> (b: bool)
    ensures
        b == composites_webcam(overlay_enabled, webcam_file_exists),
{
    match overlay_enabled {
        Some(true) => webcam_file_exists,
        _ => false,
    }
}

/// Builds the ffmpeg arguments of an export. `overlay` is the webcam file and the
/// overlay graph, when the webcam is composited.
pub fn export_args(video: &str, zoompan: &str, overlay: Option<(&str, &str)>, out: &str) -> (args: Vec<String>)
    ensures
        texts(args@) == export_args_text(
            video@,
            zoompan@,
            match overlay { Some((w, g)) => Some((w@, g@)), None => None },
            out@,
        ),
{
    let mut a: Vec<String> = Vec::new();
    push_text(&mut a, "-y");
    push_text(&mut a, "-i");
    push_text(&mut a, video);
    match overlay {
        Some((webcam, graph)) => {
            push_text(&mut a, "-i");
            push_text(&mut a, webcam);
            push_text(&mut a, "-filter_complex");
            let mut fc = String::from_str(zoompan);
            fc.append("[bg];");
            fc.append(graph);
            push_text(&mut a, fc.as_str());
            push_text(&mut a, "-map");
            push_text(&mut a, "[outv]");
            push_text(&mut a, "-map");
            push_text(&mut a, "0:a?");
        },
        None => {
            push_text(&mut a, "-vf");
            push_text(&mut a, zoompan);
        },
    }
    push_text(&mut a, "-c:v");
    push_text(&mut a, "libx264");
    push_text(&mut a, "-preset");
    push_text(&mut a, "fast");
    push_text(&mut a, "-pix_fmt");
    push_text(&mut a, "yuv420p");
    push_text(&mut a, "-c:a");
    push_text(&mut a, "copy");
    push_text(&mut a, "-progress");
    push_text(&mut a, "pipe:1");
    push_text(&mut a, "-nostats");
    push_text(&mut a, out);
    assert(texts(a@) =~= export_args_text(
        video@,
        zoompan@,
        match overlay { Some((w, g)) => Some((w@, g@)), None => None },
        out@,
    ));
    a
}

pub open spec fn parsed_or(s: Seq<char>, default: nat) -> nat {
    match parse_unsigned(s, u32::MAX as nat) {
        Some(v) => v,
        None => default,
    }
}

/// What the export makes of ffprobe's `WxH` answer (raw text): the size argument
/// for zoompan (the trimmed answer, or `iw:ih` when it holds no `x`), and the frame
/// width and height, each 1280 and 720 respectively when unreadable.
pub open spec fn probed_size(raw: Seq<char>) -> (Seq<char>, nat, nat) {
    let d = trimmed(raw);
    let k = first_index_of(d, 'x');
    if k < 0 {
        ("iw:ih"@, 1280, 720)
    } else {
        (d, parsed_or(trimmed(d.take(k)), 1280), parsed_or(trimmed(d.skip(k + 1)), 720))
    }
}

fn parse_or(s: &str, default: u32) -> (v: u32)
    ensures
        v == parsed_or(s@, default as nat),
{
    match parse_unsigned_text(s, u32::MAX as u64) {
        Some(v) => v as u32,
        None => default,
    }
}

/// Reads ffprobe's frame size answer.
pub fn probe_frame_size(raw: &str) -> (res: (String, u32, u32))
    ensures
        (res.0@, res.1 as nat, res.2 as nat) == probed_size(raw@),
{
    let d = trim(raw);
    match find_char(d.as_str(), 'x') {
        None => (String::from_str("iw:ih"), 1280, 720),
        Some(k) => {
            let n = d.as_str().unicode_len();
            assert(k < n);
            let w = trim(d.as_str().substring_char(0, k));
            let h = trim(d.as_str().substring_char(k + 1, n));
            assert(d@.subrange(0, k as int) =~= d@.take(k as int));
            assert(d@.subrange(k + 1, n as int) =~= d@.skip(k + 1));
            let wv = parse_or(w.as_str(), 1280);
            let hv = parse_or(h.as_str(), 720);
            (d, wv, hv)
        },
    }
}

/// The milliseconds of output written so far, from one line of ffmpeg's progress
/// report: the `out_time_ms=` value (in microseconds, despite its name) divided by
/// 1000; `None` for other lines or an unreadable value.
pub open spec fn progress_text_ms(line: Seq<char>) -> Option<nat> {
    let key = "out_time_ms="@;
    if line.len() >= key.len() && line.take(key.len() as int) == key {
        match parse_unsigned(trimmed(line.skip(key.len() as int)), u64::MAX as nat) {
            Some(us) => Some(us / 1000),
            None => None,
        }
    } else {
        None
    }
}

pub fn progress_ms(line: &str) -> (ms: Option<u64>)
    ensures
        match ms {
            Some(v) => progress_text_ms(line@) == Some(v as nat),
            None => progress_text_ms(line@) is None,
        },
{
    proof {
        reveal_strlit("out_time_ms=");
    }
    let n = line.unicode_len();
    if n < 12 {
        return None;
    }
    let head = line.substring_char(0, 12);
    assert(line@.subrange(0, 12) =~= line@.take(12));
    if String::from_str(head) != String::from_str("out_time_ms=") {
        return None;
    }
    let rest = trim(line.substring_char(12, n));
    assert(line@.subrange(12, n as int) =~= line@.skip(12));
    match parse_unsigned_text(rest.as_str(), u64::MAX) {
        Some(us) => Some(us / 1000),
        None => None,
    }
}

} // verus!
