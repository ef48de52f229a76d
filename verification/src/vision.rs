//! Finding fixed-scale templates in a frame, and placing what a text reader found in a crop.
use crate::automation::{Error, ErrorModel};
use crate::copy::Dup;
use crate::json::{Json, JsonModel};
use crate::recognition::{
    Detection, DetectionModel, Frame, FrameModel, Real, RecognitionResult, RecognitionResultModel,
    Rect,
};
use crate::text;
use crate::text::Text;
use vstd::prelude::*;

verus! {

/// How opaque a pixel has to be to count.
pub const MASK: u8 = 128;

/// How many results can be asked for at most.
pub const MAX_RESULTS: usize = 100;

/// How many results there are unless more are asked for.
pub open spec fn default_results() -> usize {
    1
}

/// How many results there are unless more are asked for.
pub fn max_results() -> (r: usize)
    ensures
        r == default_results(),
{
    1
}

/// A picture of a control, with an opacity for each pixel.
#[derive(Debug)]
pub struct Template {
    width: u32,
    height: u32,
    rgba: Vec<u8>,
}

#[verifier::ext_equal]
pub struct TemplateModel {
    pub width: u32,
    pub height: u32,
    pub rgba: Seq<u8>,
}

impl View for Template {
    type V = TemplateModel;

    closed spec fn view(&self) -> TemplateModel {
        TemplateModel { width: self.width, height: self.height, rgba: self.rgba@ }
    }
}

/// The distance of two bytes.
pub open spec fn apart(a: u8, b: u8) -> nat {
    if a > b {
        (a - b) as nat
    } else {
        (b - a) as nat
    }
}

fn distance(a: u8, b: u8) -> (r: u128)
    ensures
        r == apart(a, b),
        r <= 255,
{
    if a > b {
        (a - b) as u128
    } else {
        (b - a) as u128
    }
}

impl TemplateModel {
    /// How many pixels there are.
    pub open spec fn area(self) -> int {
        self.width * self.height
    }

    /// Whether a pixel counts.
    pub open spec fn counts(self, p: int) -> bool {
        self.rgba[p * 4 + 3] >= MASK
    }

    /// A picture of some size with a pixel that counts.
    pub open spec fn sound(self) -> bool {
        &&& self.width > 0
        &&& self.height > 0
        &&& self.rgba.len() == self.area() * 4
        &&& exists|p: int| 0 <= p < self.area() && #[trigger] self.counts(p)
    }

    /// How many of the first pixels count.
    pub open spec fn samples(self, n: int) -> nat
        decreases n,
    {
        if n <= 0 {
            0
        } else {
            self.samples(n - 1) + (if self.counts(n - 1) {
                1nat
            } else {
                0nat
            })
        }
    }

    /// How far a pixel is from the frame's pixel under it, over the three channels.
    pub open spec fn pixel_error(self, frame: FrameModel, x: int, y: int, p: int) -> nat {
        let at = frame.offset(x + p % (self.width as int), y + p / (self.width as int));
        apart(frame.rgb[at], self.rgba[p * 4]) + apart(frame.rgb[at + 1], self.rgba[p * 4 + 1])
            + apart(frame.rgb[at + 2], self.rgba[p * 4 + 2])
    }

    /// How far the first pixels that count are from the frame under them.
    pub open spec fn error(self, frame: FrameModel, x: int, y: int, n: int) -> nat
        decreases n,
    {
        if n <= 0 {
            0
        } else {
            self.error(frame, x, y, n - 1) + (if self.counts(n - 1) {
                self.pixel_error(frame, x, y, n - 1)
            } else {
                0nat
            })
        }
    }
}

proof fn lemma_pixel(template: TemplateModel, frame: FrameModel, x: int, y: int, p: int)
    requires
        template.sound(),
        frame.sound(),
        0 <= x,
        0 <= y,
        x + template.width <= frame.width,
        y + template.height <= frame.height,
        0 <= p < template.area(),
    ensures
        0 <= p % (template.width as int) < template.width,
        0 <= p / (template.width as int) < template.height,
        ({
            let at = frame.offset(
                x + p % (template.width as int),
                y + p / (template.width as int),
            );
            0 <= at && at + 2 < frame.rgb.len()
        }),
        p * 4 + 3 < template.rgba.len(),
{
    let w = template.width as int;
    let h = template.height as int;
    assert(0 <= p % w < w && 0 <= p / w < h) by (nonlinear_arith)
        requires
            0 <= p < w * h,
            0 < w,
            0 < h,
    ;
    let px = x + p % w;
    let py = y + p / w;
    let fw = frame.width as int;
    let fh = frame.height as int;
    assert(0 <= py * fw + px < fw * fh) by (nonlinear_arith)
        requires
            0 <= px < fw,
            0 <= py < fh,
    ;
}

impl Template {
    /// A picture of some size with a pixel that counts.
    pub fn new(width: u32, height: u32, rgba: Vec<u8>) -> (r: Result<Template, Error>)
        ensures
            match r {
                Ok(template) => template@ == (TemplateModel { width, height, rgba: rgba@ })
                    && template@.sound(),
                Err(error) => !(TemplateModel { width, height, rgba: rgba@ }).sound() && error@
                    == ErrorModel::Invalid("empty/duplicate template or empty mask"@),
            },
    {
        let ghost model = TemplateModel { width, height, rgba: rgba@ };
        let length: usize = rgba.len();
        proof {
            assert(width * height <= 0xffff_ffff * 0xffff_ffff) by (nonlinear_arith)
                requires
                    width <= 0xffff_ffff,
                    height <= 0xffff_ffff,
            ;
        }
        let area: u128 = (width as u64 * height as u64) as u128;
        if width == 0 || height == 0 || area * 4 != length as u128 {
            return Err(Error::Invalid("empty/duplicate template or empty mask".to_owned()));
        }
        let pixels: usize = length / 4;
        let mut p: usize = 0;
        while p < pixels
            invariant
                p <= pixels,
                pixels == model.area(),
                model == (TemplateModel { width, height, rgba: rgba@ }),
                rgba@.len() == pixels * 4,
                rgba@.len() <= usize::MAX,
                width > 0,
                height > 0,
                forall|q: int| 0 <= q < p ==> !#[trigger] model.counts(q),
            decreases pixels - p,
        {
            if rgba[p * 4 + 3] >= MASK {
                assert(model.counts(p as int));
                return Ok(Template { width, height, rgba });
            }
            p += 1;
        }
        Err(Error::Invalid("empty/duplicate template or empty mask".to_owned()))
    }

    pub fn width(&self) -> (r: u32)
        ensures
            r == self@.width,
    {
        self.width
    }

    pub fn height(&self) -> (r: u32)
        ensures
            r == self@.height,
    {
        self.height
    }

    /// How many pixels count.
    pub fn samples(&self) -> (r: usize)
        requires
            self@.sound(),
        ensures
            r == self@.samples(self@.area()),
    {
        let ghost model = self@;
        let length: usize = self.rgba.len();
        let pixels: usize = length / 4;
        let mut count: usize = 0;
        let mut p: usize = 0;
        while p < pixels
            invariant
                p <= pixels,
                model == self@,
                pixels == model.area(),
                self.rgba@.len() == pixels * 4,
                self.rgba@.len() <= usize::MAX,
                count == model.samples(p as int),
                count <= p,
            decreases pixels - p,
        {
            if self.rgba[p * 4 + 3] >= MASK {
                count += 1;
            }
            p += 1;
        }
        count
    }

    /// How far the picture is from the frame at a place.
    pub fn error(&self, frame: &Frame, x: u32, y: u32) -> (r: u128)
        requires
            self@.sound(),
            frame@.sound(),
            x + self@.width <= frame@.width,
            y + self@.height <= frame@.height,
        ensures
            r == self@.error(frame@, x as int, y as int, self@.area()),
    {
        let ghost model = self@;
        let ghost seen = frame@;
        let length: usize = self.rgba.len();
        let rgb = frame.rgb();
        let rgb_length: usize = rgb.len();
        let pixels: usize = length / 4;
        let width: usize = self.width as usize;
        let mut error: u128 = 0;
        let mut p: usize = 0;
        while p < pixels
            invariant
                p <= pixels,
                model == self@,
                seen == frame@,
                model.sound(),
                seen.sound(),
                pixels == model.area(),
                width == model.width,
                rgb@ == seen.rgb,
                rgb@.len() <= usize::MAX,
                self.rgba@ == model.rgba,
                self.rgba@.len() == pixels * 4,
                self.rgba@.len() <= usize::MAX,
                x + model.width <= seen.width,
                y + model.height <= seen.height,
                error == model.error(seen, x as int, y as int, p as int),
                error <= p * 765,
            decreases pixels - p,
        {
            proof {
                lemma_pixel(model, seen, x as int, y as int, p as int);
            }
            if self.rgba[p * 4 + 3] >= MASK {
                let px: u64 = x as u64 + (p % width) as u64;
                let py: u64 = y as u64 + (p / width) as u64;
                proof {
                    let at = seen.offset(px as int, py as int);
                    assert(at == (py * seen.width + px) * 3);
                    assert(0 <= py * seen.width) by (nonlinear_arith)
                        requires
                            0 <= py,
                            0 <= seen.width,
                    ;
                }
                let at: usize = ((py * frame.width() as u64 + px) * 3) as usize;
                let e: u128 = distance(rgb[at], self.rgba[p * 4]) + distance(
                    rgb[at + 1],
                    self.rgba[p * 4 + 1],
                ) + distance(rgb[at + 2], self.rgba[p * 4 + 2]);
                error += e;
            }
            p += 1;
        }
        error
    }
}

/// Whether two rectangles share a pixel.
pub open spec fn overlapping(a: Rect, b: Rect) -> bool {
    a.x < b.x + b.width && b.x < a.x + a.width && a.y < b.y + b.height && b.y < a.y + a.height
}

/// Whether two rectangles share a pixel.
pub fn overlaps(a: Rect, b: Rect) -> (r: bool)
    ensures
        r == overlapping(a, b),
{
    (a.x as i64) < b.x as i64 + b.width as i64 && (b.x as i64) < a.x as i64 + a.width as i64 && (
    a.y as i64) < b.y as i64 + b.height as i64 && (b.y as i64) < a.y as i64 + a.height as i64
}

/// Two rectangles share a pixel exactly if some pixel is in both.
pub proof fn overlaps_share_a_pixel(a: Rect, b: Rect)
    requires
        a.width > 0,
        a.height > 0,
        b.width > 0,
        b.height > 0,
    ensures
        overlapping(a, b) <==> exists|x: int, y: int| #[trigger]
            covers(a, x, y) && covers(b, x, y),
{
    if overlapping(a, b) {
        let x = if a.x > b.x {
            a.x as int
        } else {
            b.x as int
        };
        let y = if a.y > b.y {
            a.y as int
        } else {
            b.y as int
        };
        assert(covers(a, x, y) && covers(b, x, y));
    }
}

/// Whether a pixel is in a rectangle.
pub open spec fn covers(rect: Rect, x: int, y: int) -> bool {
    rect.x <= x < rect.x + rect.width && rect.y <= y < rect.y + rect.height
}

/// A place where a template was found, and how far it is from the frame there.
#[derive(Debug, Clone, Copy, PartialEq, Eq, Structural)]
pub struct Hit {
    pub bounds: Rect,
    pub error: u128,
}

/// Whether some hit that overlaps a new one is as good.
pub open spec fn covered(hits: Seq<Hit>, new: Hit) -> bool {
    exists|i: int|
        0 <= i < hits.len() && overlapping((#[trigger] hits[i]).bounds, new.bounds) && hits[i].error
            <= new.error
}

/// The hits that do not overlap a new one.
pub open spec fn clear_of(hits: Seq<Hit>, new: Hit) -> Seq<Hit>
    decreases hits.len(),
{
    if hits.len() == 0 {
        hits
    } else {
        let rest = clear_of(hits.drop_last(), new);
        if overlapping(hits.last().bounds, new.bounds) {
            rest
        } else {
            rest.push(hits.last())
        }
    }
}

/// Ordered hits with a new one behind those that are as good.
pub open spec fn ranked(hits: Seq<Hit>, new: Hit) -> Seq<Hit>
    decreases hits.len(),
{
    if hits.len() == 0 || hits.last().error <= new.error {
        hits.push(new)
    } else {
        ranked(hits.drop_last(), new).push(hits.last())
    }
}

/// The first of the hits.
pub open spec fn best(hits: Seq<Hit>, max: usize) -> Seq<Hit> {
    if hits.len() > max {
        hits.take(max as int)
    } else {
        hits
    }
}

/// The hits after one more: of two that overlap the better stays, the earlier of two that are
/// as good, and the best come first.
pub open spec fn kept(hits: Seq<Hit>, new: Hit, max: usize) -> Seq<Hit> {
    if covered(hits, new) {
        hits
    } else {
        best(ranked(clear_of(hits, new), new), max)
    }
}

/// Hits as they are reported: the best first, none overlapping another, no more than asked for.
pub open spec fn reportable(hits: Seq<Hit>, limit: u128, max: usize) -> bool {
    &&& hits.len() <= max
    &&& forall|i: int| 0 <= i < hits.len() ==> (#[trigger] hits[i]).error <= limit
    &&& forall|i: int, j: int|
        0 <= i < j < hits.len() ==> (#[trigger] hits[i]).error <= (#[trigger] hits[j]).error
    &&& forall|i: int, j: int|
        0 <= i < j < hits.len() ==> !overlapping(
            (#[trigger] hits[i]).bounds,
            (#[trigger] hits[j]).bounds,
        )
}

proof fn lemma_clear_of(hits: Seq<Hit>, new: Hit, limit: u128, max: usize)
    requires
        reportable(hits, limit, max),
    ensures
        reportable(clear_of(hits, new), limit, max),
        clear_of(hits, new).len() <= hits.len(),
        forall|i: int|
            0 <= i < clear_of(hits, new).len() ==> !overlapping(
                (#[trigger] clear_of(hits, new)[i]).bounds,
                new.bounds,
            ) && hits.contains(clear_of(hits, new)[i]),
    decreases hits.len(),
{
    if hits.len() > 0 {
        let init = hits.drop_last();
        lemma_clear_of(init, new, limit, max);
        let rest = clear_of(init, new);
        let out = clear_of(hits, new);
        assert forall|i: int| 0 <= i < rest.len() implies hits.contains(#[trigger] rest[i]) by {
            let k = init.index_of(rest[i]);
            assert(hits[k] == rest[i]);
        }
        if !overlapping(hits.last().bounds, new.bounds) {
            assert(hits[hits.len() - 1] == hits.last());
            assert forall|i: int| 0 <= i < rest.len() implies (#[trigger] rest[i]).error
                <= hits.last().error && !overlapping(rest[i].bounds, hits.last().bounds) by {
                let k = init.index_of(rest[i]);
                assert(hits[k] == rest[i]);
                assert(k < hits.len() - 1);
                assert(hits[k].error <= hits[hits.len() - 1].error);
            }
        }
    }
}

proof fn lemma_ranked(hits: Seq<Hit>, new: Hit, limit: u128, max: usize)
    requires
        reportable(hits, limit, max),
        new.error <= limit,
        forall|i: int|
            0 <= i < hits.len() ==> !overlapping((#[trigger] hits[i]).bounds, new.bounds),
    ensures
        ranked(hits, new).len() == hits.len() + 1,
        forall|i: int|
            0 <= i < ranked(hits, new).len() ==> (#[trigger] ranked(hits, new)[i] == new
                || hits.contains(ranked(hits, new)[i])),
        forall|i: int|
            0 <= i < ranked(hits, new).len() ==> (#[trigger] ranked(hits, new)[i]).error <= limit,
        forall|i: int, j: int|
            0 <= i < j < ranked(hits, new).len() ==> (#[trigger] ranked(hits, new)[i]).error <= (
            #[trigger] ranked(hits, new)[j]).error,
        forall|i: int, j: int|
            0 <= i < j < ranked(hits, new).len() ==> !overlapping(
                (#[trigger] ranked(hits, new)[i]).bounds,
                (#[trigger] ranked(hits, new)[j]).bounds,
            ),
    decreases hits.len(),
{
    if hits.len() == 0 || hits.last().error <= new.error {
        let out = hits.push(new);
        assert forall|i: int| 0 <= i < hits.len() implies hits.contains(#[trigger] out[i]) by {
            assert(hits[i] == out[i]);
        }
        assert forall|i: int, j: int| 0 <= i < j < out.len() implies (#[trigger] out[i]).error <= (
        #[trigger] out[j]).error by {
            if j == hits.len() {
                assert(hits[i].error <= hits[hits.len() - 1].error || i == hits.len() - 1);
            }
        }
    } else {
        let init = hits.drop_last();
        let last = hits.last();
        assert(hits[hits.len() - 1] == last);
        lemma_ranked(init, new, limit, max);
        let inner = ranked(init, new);
        let out = inner.push(last);
        assert forall|i: int| 0 <= i < inner.len() implies (#[trigger] inner[i]).error <= last.error
            && !overlapping(inner[i].bounds, last.bounds) && (inner[i] == new || hits.contains(
            inner[i],
        )) by {
            if inner[i] != new {
                let k = init.index_of(inner[i]);
                assert(hits[k] == inner[i]);
                assert(hits[k].error <= hits[hits.len() - 1].error);
            }
        }
        assert(hits.contains(last));
    }
}

/// Whatever is found next, the hits stay as they are reported.
pub proof fn kept_hits_are_reportable(hits: Seq<Hit>, new: Hit, limit: u128, max: usize)
    requires
        reportable(hits, limit, max),
        new.error <= limit,
        max > 0,
    ensures
        reportable(kept(hits, new, max), limit, max),
{
    if !covered(hits, new) {
        lemma_clear_of(hits, new, limit, max);
        lemma_ranked(clear_of(hits, new), new, limit, max);
        let all = ranked(clear_of(hits, new), new);
        if all.len() > max {
            assert forall|i: int| 0 <= i < max implies all.take(max as int)[i] == all[i] by {}
        }
    }
}

proof fn lemma_clear_of_keeps(hits: Seq<Hit>, new: Hit, i: int)
    requires
        0 <= i < hits.len(),
        !overlapping(hits[i].bounds, new.bounds),
    ensures
        clear_of(hits, new).contains(hits[i]),
    decreases hits.len(),
{
    let rest = clear_of(hits.drop_last(), new);
    if i == hits.len() - 1 {
        assert(rest.push(hits.last())[rest.len() as int] == hits[i]);
    } else {
        lemma_clear_of_keeps(hits.drop_last(), new, i);
        let k = rest.index_of(hits[i]);
        assert(clear_of(hits, new)[k] == hits[i]);
    }
}

proof fn lemma_ranked_keeps(hits: Seq<Hit>, new: Hit)
    ensures
        ranked(hits, new).contains(new),
        forall|hit: Hit| #[trigger] hits.contains(hit) ==> ranked(hits, new).contains(hit),
    decreases hits.len(),
{
    let out = ranked(hits, new);
    if hits.len() == 0 || hits.last().error <= new.error {
        assert(out[hits.len() as int] == new);
        assert forall|hit: Hit| #[trigger] hits.contains(hit) implies out.contains(hit) by {
            assert(out[hits.index_of(hit)] == hit);
        }
    } else {
        let init = hits.drop_last();
        let inner = ranked(init, new);
        lemma_ranked_keeps(init, new);
        assert(out[inner.index_of(new)] == new);
        assert forall|hit: Hit| #[trigger] hits.contains(hit) implies out.contains(hit) by {
            let k = hits.index_of(hit);
            if k == hits.len() - 1 {
                assert(out[inner.len() as int] == hit);
            } else {
                assert(init[k] == hit);
                assert(init.contains(hit));
                assert(out[inner.index_of(hit)] == hit);
            }
        }
    }
}

/// The best of the hits, and of a new one, comes first among those that are kept, and every one
/// that is kept is one of them.
pub proof fn the_best_hit_is_kept(hits: Seq<Hit>, new: Hit, limit: u128, max: usize)
    requires
        reportable(hits, limit, max),
        new.error <= limit,
        max > 0,
    ensures
        kept(hits, new, max).len() > 0,
        kept(hits, new, max)[0].error <= new.error,
        hits.len() > 0 ==> kept(hits, new, max)[0].error <= hits[0].error,
        forall|i: int|
            0 <= i < kept(hits, new, max).len() ==> (#[trigger] kept(hits, new, max)[i] == new
                || hits.contains(kept(hits, new, max)[i])),
{
    if covered(hits, new) {
        let i = choose|i: int|
            0 <= i < hits.len() && overlapping((#[trigger] hits[i]).bounds, new.bounds)
                && hits[i].error <= new.error;
        assert(hits[0].error <= hits[i].error);
    } else {
        lemma_clear_of(hits, new, limit, max);
        let clear = clear_of(hits, new);
        lemma_ranked(clear, new, limit, max);
        lemma_ranked_keeps(clear, new);
        let all = ranked(clear, new);
        let k = all.index_of(new);
        assert(all[0].error <= all[k].error);
        if hits.len() > 0 && !overlapping(hits[0].bounds, new.bounds) {
            lemma_clear_of_keeps(hits, new, 0);
            let j = all.index_of(hits[0]);
            assert(all[0].error <= all[j].error);
        }
        let out = kept(hits, new, max);
        assert(out[0] == all[0]);
        assert forall|i: int| 0 <= i < out.len() implies (#[trigger] out[i] == new
            || hits.contains(out[i])) by {
            assert(out[i] == all[i]);
            if all[i] != new {
                let m = clear.index_of(all[i]);
                assert(clear[m] == all[i]);
            }
        }
    }
}

fn find_covered(hits: &Vec<Hit>, new: Hit) -> (r: bool)
    ensures
        r == covered(hits@, new),
{
    let mut i: usize = 0;
    while i < hits.len()
        invariant
            i <= hits@.len(),
            forall|j: int|
                0 <= j < i ==> !(overlapping((#[trigger] hits@[j]).bounds, new.bounds)
                    && hits@[j].error <= new.error),
        decreases hits@.len() - i,
    {
        if overlaps(hits[i].bounds, new.bounds) && hits[i].error <= new.error {
            return true;
        }
        i += 1;
    }
    false
}

fn keep_clear(hits: &Vec<Hit>, new: Hit) -> (r: Vec<Hit>)
    ensures
        r@ == clear_of(hits@, new),
{
    let ghost all = hits@;
    let mut out: Vec<Hit> = Vec::new();
    let mut i: usize = 0;
    assert(all.take(0) =~= Seq::<Hit>::empty());
    while i < hits.len()
        invariant
            i <= hits@.len(),
            all == hits@,
            out@ == clear_of(all.take(i as int), new),
        decreases hits@.len() - i,
    {
        assert(all.take(i + 1).drop_last() =~= all.take(i as int));
        assert(all.take(i + 1).last() == all[i as int]);
        if !overlaps(hits[i].bounds, new.bounds) {
            out.push(hits[i]);
        }
        i += 1;
    }
    assert(all.take(all.len() as int) =~= all);
    out
}

proof fn lemma_ranked_at(hits: Seq<Hit>, new: Hit, at: int)
    requires
        0 <= at <= hits.len(),
        at > 0 ==> hits[at - 1].error <= new.error,
        forall|j: int| at <= j < hits.len() ==> (#[trigger] hits[j]).error > new.error,
    ensures
        ranked(hits, new) == hits.insert(at, new),
    decreases hits.len(),
{
    if at == hits.len() {
        assert(hits.insert(at, new) =~= hits.push(new));
    } else {
        assert(hits[hits.len() - 1] == hits.last());
        let init = hits.drop_last();
        lemma_ranked_at(init, new, at);
        assert(init.insert(at, new).push(hits.last()) =~= hits.insert(at, new));
    }
}

/// Adds a hit to those found before.
pub fn keep(hits: &mut Vec<Hit>, new: Hit, max: usize)
    ensures
        final(hits)@ == kept(old(hits)@, new, max),
{
    if find_covered(hits, new) {
        return;
    }
    let mut rest = keep_clear(hits, new);
    let ghost clear = rest@;
    let mut at: usize = rest.len();
    while at > 0 && rest[at - 1].error > new.error
        invariant
            at <= rest@.len(),
            rest@ == clear,
            forall|j: int| at <= j < clear.len() ==> (#[trigger] clear[j]).error > new.error,
        decreases at,
    {
        at -= 1;
    }
    proof {
        lemma_ranked_at(clear, new, at as int);
    }
    rest.insert(at, new);
    if rest.len() > max {
        rest.truncate(max);
    }
    *hits = rest;
}

/// The place of a template that begins at a pixel.
pub open spec fn place(template: TemplateModel, x: int, y: int) -> Rect {
    Rect { x: x as i32, y: y as i32, width: template.width, height: template.height }
}

/// Whether a template that begins at a pixel lies in a region.
pub open spec fn fits(template: TemplateModel, roi: Rect, x: int, y: int) -> bool {
    &&& roi.x <= x
    &&& x + template.width <= roi.x + roi.width
    &&& roi.y <= y
    &&& y + template.height <= roi.y + roi.height
}

/// How far a template that begins at a pixel is from the frame.
pub open spec fn place_error(template: TemplateModel, frame: FrameModel, x: int, y: int) -> nat {
    template.error(frame, x, y, template.area())
}

/// Whether a hit says how far the template is from the frame at a place in a region.
pub open spec fn found_at(
    hit: Hit,
    template: TemplateModel,
    frame: FrameModel,
    roi: Rect,
    x: int,
    y: int,
) -> bool {
    &&& fits(template, roi, x, y)
    &&& hit.bounds == place(template, x, y)
    &&& hit.error == place_error(template, frame, x, y)
}

/// Whether a hit is a place in a region, with how far the template is from the frame there.
pub open spec fn found_in(
    hit: Hit,
    template: TemplateModel,
    frame: FrameModel,
    roi: Rect,
) -> bool {
    exists|x: int, y: int| #[trigger] found_at(hit, template, frame, roi, x, y)
}

/// Whether every hit is a place in a region, with how far the template is from the frame there.
pub open spec fn genuine(
    hits: Seq<Hit>,
    template: TemplateModel,
    frame: FrameModel,
    roi: Rect,
) -> bool {
    forall|i: int|
        0 <= i < hits.len() ==> found_in(#[trigger] hits[i], template, frame, roi)
}

/// The hits after the first places of a row.
pub open spec fn row_hits(
    hits: Seq<Hit>,
    template: TemplateModel,
    frame: FrameModel,
    roi: Rect,
    y: int,
    n: int,
    limit: u128,
    max: usize,
) -> Seq<Hit>
    decreases n,
{
    if n <= 0 {
        hits
    } else {
        let before = row_hits(hits, template, frame, roi, y, n - 1, limit, max);
        let x = roi.x + n - 1;
        let error = template.error(frame, x, y, template.area());
        if error > limit {
            before
        } else {
            kept(before, Hit { bounds: place(template, x, y), error: error as u128 }, max)
        }
    }
}

/// The hits after the first rows of a region, from the top, each from the left.
pub open spec fn region_hits(
    template: TemplateModel,
    frame: FrameModel,
    roi: Rect,
    rows: int,
    limit: u128,
    max: usize,
) -> Seq<Hit>
    decreases rows,
{
    if rows <= 0 || template.width > roi.width {
        Seq::empty()
    } else {
        row_hits(
            region_hits(template, frame, roi, rows - 1, limit, max),
            template,
            frame,
            roi,
            roi.y + rows - 1,
            roi.width - template.width + 1,
            limit,
            max,
        )
    }
}

/// The rows of a region at which a template can begin.
pub open spec fn template_rows(template: TemplateModel, roi: Rect) -> int {
    if template.width > roi.width || template.height > roi.height {
        0
    } else {
        roi.height - template.height + 1
    }
}

/// The rows of a region at which a template can begin.
pub fn find_rows(template: &Template, roi: Rect) -> (r: u32)
    requires
        roi.sound(),
        template@.height > 0,
    ensures
        r == template_rows(template@, roi),
{
    if template.width() > roi.width || template.height() > roi.height {
        0
    } else {
        roi.height - template.height() + 1
    }
}

/// Searches one row of a region. A template is found where it is no further from the frame than
/// the limit.
pub fn search_row(
    hits: &mut Vec<Hit>,
    template: &Template,
    frame: &Frame,
    roi: Rect,
    row: u32,
    limit: u128,
    max: usize,
)
    requires
        template@.sound(),
        frame@.sound(),
        frame@.holds(roi),
        row < template_rows(template@, roi),
    ensures
        final(hits)@ == row_hits(
            old(hits)@,
            template@,
            frame@,
            roi,
            roi.y + row,
            roi.width - template@.width + 1,
            limit,
            max,
        ),
{
    let ghost before = hits@;
    let y: u32 = roi.y as u32 + row;
    let places: u32 = roi.width - template.width() + 1;
    let mut n: u32 = 0;
    while n < places
        invariant
            n <= places,
            places == roi.width - template@.width + 1,
            template@.sound(),
            frame@.sound(),
            frame@.holds(roi),
            template@.width <= roi.width,
            row < template_rows(template@, roi),
            y == roi.y + row,
            hits@ == row_hits(
                before,
                template@,
                frame@,
                roi,
                y as int,
                n as int,
                limit,
                max,
            ),
        decreases places - n,
    {
        let x: u32 = roi.x as u32 + n;
        let error: u128 = template.error(frame, x, y);
        if error <= limit {
            keep(
                hits,
                Hit {
                    bounds: Rect {
                        x: x as i32,
                        y: y as i32,
                        width: template.width(),
                        height: template.height(),
                    },
                    error,
                },
                max,
            );
        }
        n += 1;
    }
}

proof fn lemma_row_hits(
    hits: Seq<Hit>,
    template: TemplateModel,
    frame: FrameModel,
    roi: Rect,
    y: int,
    n: int,
    limit: u128,
    max: usize,
)
    requires
        reportable(hits, limit, max),
        max > 0,
    ensures
        reportable(row_hits(hits, template, frame, roi, y, n, limit, max), limit, max),
    decreases n,
{
    if n > 0 {
        lemma_row_hits(hits, template, frame, roi, y, n - 1, limit, max);
        let before = row_hits(hits, template, frame, roi, y, n - 1, limit, max);
        let x = roi.x + n - 1;
        let error = template.error(frame, x, y, template.area());
        if error <= limit {
            kept_hits_are_reportable(
                before,
                Hit { bounds: place(template, x, y), error: error as u128 },
                limit,
                max,
            );
        }
    }
}

proof fn lemma_row_best(
    hits: Seq<Hit>,
    template: TemplateModel,
    frame: FrameModel,
    roi: Rect,
    y: int,
    n: int,
    limit: u128,
    max: usize,
)
    requires
        reportable(hits, limit, max),
        genuine(hits, template, frame, roi),
        max > 0,
        n <= roi.width - template.width + 1,
        roi.y <= y,
        y + template.height <= roi.y + roi.height,
    ensures
        ({
            let after = row_hits(hits, template, frame, roi, y, n, limit, max);
            &&& genuine(after, template, frame, roi)
            &&& hits.len() > 0 ==> after.len() > 0 && after[0].error <= hits[0].error
            &&& forall|x: int|
                roi.x <= x < roi.x + n && #[trigger] place_error(template, frame, x, y) <= limit
                    ==> after.len() > 0 && after[0].error <= place_error(template, frame, x, y)
        }),
    decreases n,
{
    if n > 0 {
        lemma_row_best(hits, template, frame, roi, y, n - 1, limit, max);
        lemma_row_hits(hits, template, frame, roi, y, n - 1, limit, max);
        let before = row_hits(hits, template, frame, roi, y, n - 1, limit, max);
        let x = roi.x + n - 1;
        let error = place_error(template, frame, x, y);
        if error <= limit {
            let new = Hit { bounds: place(template, x, y), error: error as u128 };
            let after = row_hits(hits, template, frame, roi, y, n, limit, max);
            the_best_hit_is_kept(before, new, limit, max);
            assert(after == kept(before, new, max));
            assert forall|i: int| 0 <= i < after.len() implies found_in(
                #[trigger] after[i],
                template,
                frame,
                roi,
            ) by {
                if after[i] == new {
                    assert(found_at(after[i], template, frame, roi, x, y));
                } else {
                    let k = before.index_of(after[i]);
                    assert(before[k] == after[i]);
                }
            }
            assert forall|at: int|
                roi.x <= at < roi.x + n && #[trigger] place_error(template, frame, at, y)
                    <= limit implies after.len() > 0 && after[0].error <= place_error(
                template,
                frame,
                at,
                y,
            ) by {
                if at < x {
                    assert(before[0].error <= place_error(template, frame, at, y));
                }
            }
        }
    }
}

proof fn lemma_region_best(
    template: TemplateModel,
    frame: FrameModel,
    roi: Rect,
    rows: int,
    limit: u128,
    max: usize,
)
    requires
        max > 0,
        rows <= template_rows(template, roi),
    ensures
        ({
            let found = region_hits(template, frame, roi, rows, limit, max);
            &&& genuine(found, template, frame, roi)
            &&& forall|x: int, y: int|
                fits(template, roi, x, y) && y < roi.y + rows && #[trigger] place_error(
                    template,
                    frame,
                    x,
                    y,
                ) <= limit ==> found.len() > 0 && found[0].error <= place_error(template, frame, x, y)
        }),
    decreases rows,
{
    if rows > 0 && template.width <= roi.width {
        lemma_region_best(template, frame, roi, rows - 1, limit, max);
        found_templates_are_reportable(template, frame, roi, rows - 1, limit, max);
        let before = region_hits(template, frame, roi, rows - 1, limit, max);
        let y = roi.y + rows - 1;
        let n = roi.width - template.width + 1;
        lemma_row_best(before, template, frame, roi, y, n, limit, max);
    }
}

/// Whether hits are led by the best place of a template in a region: there is none exactly if the
/// template is further from the frame than the limit everywhere, and else the first is no further
/// from it than any place is.
pub open spec fn led_by_the_best(
    hits: Seq<Hit>,
    template: TemplateModel,
    frame: FrameModel,
    roi: Rect,
    limit: u128,
) -> bool {
    &&& hits.len() == 0 <==> forall|x: int, y: int|
        fits(template, roi, x, y) ==> #[trigger] place_error(template, frame, x, y) > limit
    &&& hits.len() > 0 ==> forall|x: int, y: int|
        fits(template, roi, x, y) ==> hits[0].error <= #[trigger] place_error(template, frame, x, y)
}

/// A search finds a template wherever in a region it is closest to the frame, unless it is
/// further from it than the limit everywhere. What it finds are places in the region, each with
/// its own distance.
pub proof fn searches_find_the_best_place(
    template: TemplateModel,
    frame: FrameModel,
    roi: Rect,
    limit: u128,
    max: usize,
)
    requires
        max > 0,
    ensures
        ({
            let found = region_hits(
                template,
                frame,
                roi,
                template_rows(template, roi),
                limit,
                max,
            );
            &&& genuine(found, template, frame, roi)
            &&& led_by_the_best(found, template, frame, roi, limit)
        }),
{
    let rows = template_rows(template, roi);
    let found = region_hits(template, frame, roi, rows, limit, max);
    lemma_region_best(template, frame, roi, rows, limit, max);
    found_templates_are_reportable(template, frame, roi, rows, limit, max);
    if found.len() > 0 {
        assert(found_in(found[0], template, frame, roi));
        let (x, y) = choose|x: int, y: int| found_at(found[0], template, frame, roi, x, y);
        assert(found[0].error <= limit);
        assert(place_error(template, frame, x, y) <= limit);
        assert forall|x: int, y: int| fits(template, roi, x, y) implies found[0].error
            <= #[trigger] place_error(template, frame, x, y) by {
            assert(found[0].error <= limit);
        }
    } else {
        assert forall|x: int, y: int| fits(template, roi, x, y) implies #[trigger] place_error(
            template,
            frame,
            x,
            y,
        ) > limit by {}
    }
}

/// What is found in a region: the best first, none overlapping another, none further from the
/// frame than the limit, no more than asked for.
pub proof fn found_templates_are_reportable(
    template: TemplateModel,
    frame: FrameModel,
    roi: Rect,
    rows: int,
    limit: u128,
    max: usize,
)
    requires
        max > 0,
    ensures
        reportable(region_hits(template, frame, roi, rows, limit, max), limit, max),
    decreases rows,
{
    if rows > 0 && template.width <= roi.width {
        found_templates_are_reportable(template, frame, roi, rows - 1, limit, max);
        lemma_row_hits(
            region_hits(template, frame, roi, rows - 1, limit, max),
            template,
            frame,
            roi,
            roi.y + rows - 1,
            roi.width - template.width + 1,
            limit,
            max,
        );
    }
}

/// Searches a region for a template.
pub fn search(template: &Template, frame: &Frame, roi: Rect, limit: u128, max: usize) -> (r: Vec<
    Hit,
>)
    requires
        template@.sound(),
        frame@.sound(),
        frame@.holds(roi),
        max > 0,
    ensures
        r@ == region_hits(
            template@,
            frame@,
            roi,
            template_rows(template@, roi),
            limit,
            max,
        ),
        reportable(r@, limit, max),
        genuine(r@, template@, frame@, roi),
        led_by_the_best(r@, template@, frame@, roi, limit),
{
    let rows: u32 = find_rows(template, roi);
    let mut hits: Vec<Hit> = Vec::new();
    let mut row: u32 = 0;
    while row < rows
        invariant
            row <= rows,
            rows == template_rows(template@, roi),
            template@.sound(),
            frame@.sound(),
            frame@.holds(roi),
            hits@ == region_hits(template@, frame@, roi, row as int, limit, max),
        decreases rows - row,
    {
        search_row(&mut hits, template, frame, roi, row, limit, max);
        row += 1;
    }
    proof {
        found_templates_are_reportable(
            template@,
            frame@,
            roi,
            template_rows(template@, roi),
            limit,
            max,
        );
        searches_find_the_best_place(template@, frame@, roi, limit, max);
    }
    hits
}

/// Templates that were loaded, by name.
#[derive(Debug)]
pub struct Templates {
    names: Vec<String>,
    images: Vec<Template>,
}

#[verifier::ext_equal]
pub struct TemplatesModel {
    pub names: Seq<Text>,
    pub images: Seq<TemplateModel>,
}

impl View for Templates {
    type V = TemplatesModel;

    closed spec fn view(&self) -> TemplatesModel {
        TemplatesModel {
            names: self.names.deep_view(),
            images: Seq::new(self.images@.len(), |i: int| self.images@[i]@),
        }
    }
}

impl TemplatesModel {
    /// Each name has a picture, and no name two.
    pub open spec fn wf(self) -> bool {
        &&& self.names.len() == self.images.len()
        &&& forall|i: int, j: int|
            0 <= i < j < self.names.len() ==> #[trigger] self.names[i] != #[trigger] self.names[j]
        &&& forall|i: int| 0 <= i < self.images.len() ==> (#[trigger] self.images[i]).sound()
    }
}

/// What is searched for has a threshold from zero to one, and up to a hundred results.
pub open spec fn acceptable(threshold: Real, max: usize) -> bool {
    threshold.unit() && 1 <= max <= MAX_RESULTS
}

impl Templates {
    /// No templates.
    pub fn new() -> (r: Self)
        ensures
            r@ == (TemplatesModel { names: Seq::empty(), images: Seq::empty() }),
            r@.wf(),
    {
        let r = Templates { names: Vec::new(), images: Vec::new() };
        assert(r@.names =~= Seq::<Text>::empty());
        assert(r@.images =~= Seq::<TemplateModel>::empty());
        r
    }

    /// Adds a template under a name that is not empty and not taken.
    pub fn insert(&mut self, name: &str, template: Template) -> (r: Result<(), Error>)
        requires
            old(self)@.wf(),
            template@.sound(),
        ensures
            final(self)@.wf(),
            match r {
                Ok(()) => name@.len() > 0 && !old(self)@.names.contains(name@) && final(self)@ == (
                TemplatesModel {
                    names: old(self)@.names.push(name@),
                    images: old(self)@.images.push(template@),
                }),
                Err(error) => (name@.len() == 0 || old(self)@.names.contains(name@))
                    && final(self)@ == old(self)@ && error@ == ErrorModel::Invalid(
                    "empty/duplicate template or empty mask"@,
                ),
            },
    {
        proof {
            reveal_strlit("");
            assert(name@.len() == 0 ==> name@ =~= ""@);
        }
        if text::same(name, "") || text::holds(&self.names, name) {
            return Err(Error::Invalid("empty/duplicate template or empty mask".to_owned()));
        }
        let ghost before = self@;
        let ghost image = template@;
        self.names.push(name.to_owned());
        self.images.push(template);
        proof {
            assert(self@.names =~= before.names.push(name@));
            assert(self@.images =~= before.images.push(image));
        }
        Ok(())
    }

    /// The template to be searched for, once the search is in order.
    pub fn prepare(
        &self,
        frame: &Frame,
        roi: Rect,
        name: &str,
        threshold: Real,
        max: usize,
    ) -> (r: Result<&Template, Error>)
        requires
            self@.wf(),
        ensures
            match r {
                Ok(template) => acceptable(threshold, max) && frame@.holds(roi)
                    && self@.names.contains(name@) && template@ == self@.images[self@.names.index_of(
                    name@,
                )],
                Err(error) => error@ == (if !acceptable(threshold, max) {
                    ErrorModel::Invalid("invalid template threshold or result limit"@)
                } else if !self@.names.contains(name@) {
                    ErrorModel::Unsupported("template "@ + name@ + " not loaded"@)
                } else {
                    frame@.region(Some(roi))->Err_0
                }) && !(acceptable(threshold, max) && self@.names.contains(name@) && frame@.holds(
                    roi,
                )),
            },
    {
        if !threshold.is_unit() || max < 1 || max > MAX_RESULTS {
            return Err(Error::Invalid("invalid template threshold or result limit".to_owned()));
        }
        let ghost names = self@.names;
        let mut i: usize = 0;
        while i < self.names.len()
            invariant
                i <= self.names@.len(),
                names == self@.names,
                self@.wf(),
                acceptable(threshold, max),
                forall|j: int| 0 <= j < i ==> #[trigger] names[j] != name@,
            decreases self.names@.len() - i,
        {
            assert(names[i as int] == self.names@[i as int]@);
            if text::same(self.names[i].as_str(), name) {
                proof {
                    assert(names.contains(name@));
                    assert(names.index_of(name@) == i);
                    assert(self@.images.len() == self.images@.len());
                }
                return match frame.region(Some(roi)) {
                    Ok(_) => Ok(&self.images[i]),
                    Err(error) => Err(error),
                };
            }
            i += 1;
        }
        Err(Error::Unsupported(text::cat3("template ", name, " not loaded")))
    }
}

/// What is reported of a hit.
pub open spec fn detected(hit: Hit, score: Real, name: Text) -> DetectionModel {
    DetectionModel {
        bounds: Some(hit.bounds),
        score: Some(score),
        text: None,
        label: Some(name),
        detail: JsonModel::Null,
    }
}

/// What is reported of hits, with the scores that the host computes of their errors.
pub fn report(hits: &Vec<Hit>, scores: &Vec<Real>, name: &str) -> (r: RecognitionResult)
    requires
        hits@.len() == scores@.len(),
    ensures
        r@ == (RecognitionResultModel {
            matches: Seq::new(hits@.len(), |i: int| detected(hits@[i], scores@[i], name@)),
            children: Seq::empty(),
        }),
{
    let mut matches: Vec<Detection> = Vec::new();
    let mut i: usize = 0;
    while i < hits.len()
        invariant
            i == matches@.len(),
            i <= hits@.len(),
            hits@.len() == scores@.len(),
            forall|j: int|
                0 <= j < i ==> (#[trigger] matches@[j])@ == detected(
                    hits@[j],
                    scores@[j],
                    name@,
                ),
        decreases hits@.len() - i,
    {
        matches.push(
            Detection {
                bounds: Some(hits[i].bounds),
                score: Some(scores[i]),
                text: None,
                label: Some(name.to_owned()),
                detail: Json::Null,
            },
        );
        i += 1;
    }
    let r = RecognitionResult { matches, children: Vec::new() };
    assert(r@.matches =~= Seq::new(
        hits@.len(),
        |i: int| detected(hits@[i], scores@[i], name@),
    ));
    assert(r@.children =~= Seq::<RecognitionResultModel>::empty());
    r
}

/// The first bytes of a region, row by row.
pub open spec fn cropped(frame: FrameModel, roi: Rect, n: int) -> Seq<u8>
    recommends
        frame.holds(roi),
{
    Seq::new(
        n as nat,
        |i: int|
            frame.rgb[frame.offset(roi.x as int, roi.y + i / (roi.width * 3)) + i % (roi.width
                * 3)],
    )
}

proof fn lemma_crop(frame: FrameModel, roi: Rect, i: int)
    requires
        frame.sound(),
        frame.holds(roi),
        0 <= i < roi.width * 3 * roi.height,
    ensures
        0 <= i / (roi.width * 3) < roi.height,
        0 <= i % (roi.width * 3) < roi.width * 3,
        ({
            let at = frame.offset(roi.x as int, roi.y + i / (roi.width * 3)) + i % (roi.width * 3);
            0 <= at < frame.rgb.len()
        }),
{
    let w = roi.width * 3;
    let h = roi.height as int;
    assert(0 <= i / w < h && 0 <= i % w < w) by (nonlinear_arith)
        requires
            0 <= i < w * h,
            0 < w,
            0 < h,
    ;
    let y = roi.y + i / w;
    let c = i % w;
    let fw = frame.width as int;
    let fh = frame.height as int;
    let x = roi.x as int;
    assert((y * fw + x) * 3 + c < fw * fh * 3) by (nonlinear_arith)
        requires
            0 <= y < fh,
            0 <= x,
            x * 3 + c < fw * 3,
            0 < fw,
    ;
    assert(0 <= y * fw) by (nonlinear_arith)
        requires
            0 <= y,
            0 < fw,
    ;
}

/// The bytes of a region, row by row.
pub fn crop(frame: &Frame, roi: Rect) -> (r: Vec<u8>)
    requires
        frame@.sound(),
        frame@.holds(roi),
    ensures
        r@ == cropped(frame@, roi, roi.width * roi.height * 3),
{
    let ghost seen = frame@;
    let rgb = frame.rgb();
    let bytes: usize = rgb.len();
    proof {
        assert(roi.width * roi.height <= seen.width * seen.height) by (nonlinear_arith)
            requires
                0 <= roi.width <= seen.width,
                0 <= roi.height <= seen.height,
        ;
        assert(roi.width * 3 * roi.height == roi.width * roi.height * 3) by (nonlinear_arith);
    }
    let size: usize = (roi.width as u64 * roi.height as u64 * 3) as usize;
    let line: u64 = roi.width as u64 * 3;
    let mut out: Vec<u8> = Vec::new();
    let mut i: usize = 0;
    while i < size
        invariant
            i <= size,
            size == roi.width * roi.height * 3,
            size == roi.width * 3 * roi.height,
            line == roi.width * 3,
            seen == frame@,
            seen.sound(),
            seen.holds(roi),
            rgb@ == seen.rgb,
            rgb@.len() <= usize::MAX,
            out@ == cropped(seen, roi, i as int),
        decreases size - i,
    {
        proof {
            lemma_crop(seen, roi, i as int);
        }
        let row: u64 = i as u64 / line;
        let column: u64 = i as u64 % line;
        let y: u64 = roi.y as u64 + row;
        proof {
            assert(y * seen.width + roi.x <= seen.offset(roi.x as int, y as int)) by {
                assert(0 <= y * seen.width) by (nonlinear_arith)
                    requires
                        0 <= y,
                        0 <= seen.width,
                ;
            }
        }
        let at: usize = ((y * frame.width() as u64 + roi.x as u64) * 3 + column) as usize;
        let ghost before = out@;
        out.push(rgb[at]);
        assert(out@ =~= cropped(seen, roi, i + 1));
        i += 1;
    }
    out
}

/// What a text reader found, as it counts for a search.
#[derive(Debug)]
pub struct OcrParameters {
    pub min_confidence: Real,
    pub contains: Option<String>,
}

#[verifier::ext_equal]
pub struct OcrParametersModel {
    pub min_confidence: Real,
    pub contains: Option<Text>,
}

impl View for OcrParameters {
    type V = OcrParametersModel;

    open spec fn view(&self) -> OcrParametersModel {
        OcrParametersModel {
            min_confidence: self.min_confidence,
            contains: self.contains.deep_view(),
        }
    }
}

/// Accepts a confidence from zero to one and a time to wait.
pub fn check_ocr(parameters: &OcrParameters, timeout: u64) -> (r: Result<(), Error>)
    ensures
        match r {
            Ok(()) => parameters@.min_confidence.unit() && timeout > 0,
            Err(error) => !(parameters@.min_confidence.unit() && timeout > 0) && error@
                == ErrorModel::Invalid("invalid OCR confidence or timeout"@),
        },
{
    if !parameters.min_confidence.is_unit() || timeout == 0 {
        return Err(Error::Invalid("invalid OCR confidence or timeout".to_owned()));
    }
    Ok(())
}

impl OcrParametersModel {
    /// What is wrong with something that was found in a crop.
    pub open spec fn flaw(self, item: DetectionModel, roi: Rect) -> Option<ErrorModel> {
        match item.bounds {
            None => Some(ErrorModel::Backend("OCR result missing bounds"@)),
            Some(bounds) => if (item.score matches Some(score) && score.unit()) && bounds.x >= 0
                && bounds.y >= 0 && bounds.width > 0 && bounds.height > 0 && bounds.x
                + bounds.width <= roi.width && bounds.y + bounds.height <= roi.height {
                None
            } else {
                Some(ErrorModel::Backend("invalid OCR result geometry or confidence"@))
            },
        }
    }

    /// Whether something that was found counts: a text, not less confident than it must be, with
    /// what is looked for in it.
    pub open spec fn wanted(self, item: DetectionModel) -> bool {
        let read = match item.text {
            Some(read) => text::trimmed(read),
            None => Seq::empty(),
        };
        &&& read.len() > 0
        &&& !item.score->0.below(self.min_confidence)
        &&& self.contains matches Some(needle) ==> text::occurs(read, needle)
    }

    /// What was found in a crop, where it is in the frame.
    pub open spec fn moved(self, item: DetectionModel, roi: Rect) -> DetectionModel {
        let bounds = item.bounds->0;
        DetectionModel {
            bounds: Some(
                Rect { x: (bounds.x + roi.x) as i32, y: (bounds.y + roi.y) as i32, ..bounds },
            ),
            ..item
        }
    }

    /// What counts of the first things that were found, where it is in the frame.
    pub open spec fn converted(self, items: Seq<DetectionModel>, roi: Rect) -> Result<
        Seq<DetectionModel>,
        ErrorModel,
    >
        decreases items.len(),
    {
        if items.len() == 0 {
            Ok(Seq::empty())
        } else {
            match self.converted(items.drop_last(), roi) {
                Err(error) => Err(error),
                Ok(before) => match self.flaw(items.last(), roi) {
                    Some(error) => Err(error),
                    None => if self.wanted(items.last()) {
                        Ok(before.push(self.moved(items.last(), roi)))
                    } else {
                        Ok(before)
                    },
                },
            }
        }
    }
}

proof fn lemma_conversion_fails(
    parameters: OcrParametersModel,
    items: Seq<DetectionModel>,
    roi: Rect,
    n: int,
)
    requires
        0 <= n <= items.len(),
        parameters.converted(items.take(n), roi) is Err,
    ensures
        parameters.converted(items, roi) == parameters.converted(items.take(n), roi),
    decreases items.len(),
{
    if n < items.len() {
        assert(items.drop_last().take(n) =~= items.take(n));
        lemma_conversion_fails(parameters, items.drop_last(), roi, n);
    } else {
        assert(items.take(n) =~= items);
    }
}

fn find_flaw(item: &Detection, roi: Rect, parameters: &OcrParameters) -> (r: Result<Rect, Error>)
    ensures
        match r {
            Ok(bounds) => parameters@.flaw(item@, roi) is None && item@.bounds == Some(bounds),
            Err(error) => parameters@.flaw(item@, roi) == Some(error@),
        },
{
    let bounds = match item.bounds {
        Some(bounds) => bounds,
        None => {
            return Err(Error::Backend("OCR result missing bounds".to_owned()));
        },
    };
    let confident = match item.score {
        Some(score) => score.is_unit(),
        None => false,
    };
    if !confident || bounds.x < 0 || bounds.y < 0 || bounds.width == 0 || bounds.height == 0
        || bounds.x as u64 + bounds.width as u64 > roi.width as u64 || bounds.y as u64
        + bounds.height as u64 > roi.height as u64 {
        return Err(Error::Backend("invalid OCR result geometry or confidence".to_owned()));
    }
    Ok(bounds)
}

fn is_wanted(item: &Detection, parameters: &OcrParameters) -> (r: bool)
    requires
        item@.score is Some,
    ensures
        r == parameters@.wanted(item@),
{
    let read: &str = match &item.text {
        Some(read) => text::trim(read.as_str()),
        None => "",
    };
    proof {
        reveal_strlit("");
        assert(""@ =~= Seq::<char>::empty());
        assert(read@.len() == 0 ==> read@ =~= ""@);
    }
    let confident = match item.score {
        Some(score) => !score.is_below(parameters.min_confidence),
        None => false,
    };
    let found = match &parameters.contains {
        Some(needle) => text::has_part(read, needle.as_str()),
        None => true,
    };
    !text::same(read, "") && confident && found
}

/// What counts of the things that were found in a crop, where it is in the frame.
pub fn convert(matches: &Vec<Detection>, roi: Rect, parameters: &OcrParameters) -> (r: Result<
    RecognitionResult,
    Error,
>)
    requires
        roi.sound(),
    ensures
        match r {
            Ok(result) => parameters@.converted(matches.deep_view(), roi) == Ok::<
                Seq<DetectionModel>,
                ErrorModel,
            >(result@.matches) && result@.children == Seq::<RecognitionResultModel>::empty(),
            Err(error) => parameters@.converted(matches.deep_view(), roi) == Err::<
                Seq<DetectionModel>,
                ErrorModel,
            >(error@),
        },
{
    let ghost all = matches.deep_view();
    let mut found: Vec<Detection> = Vec::new();
    let mut i: usize = 0;
    assert(all.take(0) =~= Seq::<DetectionModel>::empty());
    assert(found.deep_view() =~= Seq::<DetectionModel>::empty());
    while i < matches.len()
        invariant
            i <= matches@.len(),
            all == matches.deep_view(),
            roi.sound(),
            parameters@.converted(all.take(i as int), roi) == Ok::<
                Seq<DetectionModel>,
                ErrorModel,
            >(found.deep_view()),
        decreases matches@.len() - i,
    {
        let item = &matches[i];
        proof {
            assert(all.take(i + 1).drop_last() =~= all.take(i as int));
            assert(all.take(i + 1).last() == item@);
        }
        let bounds = match find_flaw(item, roi, parameters) {
            Ok(bounds) => bounds,
            Err(error) => {
                proof {
                    lemma_conversion_fails(parameters@, all, roi, i + 1);
                }
                return Err(error);
            },
        };
        if is_wanted(item, parameters) {
            let ghost before = found.deep_view();
            let moved = Detection {
                bounds: Some(
                    Rect {
                        x: bounds.x + roi.x,
                        y: bounds.y + roi.y,
                        width: bounds.width,
                        height: bounds.height,
                    },
                ),
                score: item.score,
                text: item.text.dup(),
                label: item.label.dup(),
                detail: item.detail.dup(),
            };
            let ghost owed = parameters@.moved(item@, roi);
            assert(moved@ == owed);
            found.push(moved);
            assert(found.deep_view() =~= before.push(owed));
        }
        i += 1;
    }
    assert(all.take(all.len() as int) =~= all);
    let r = RecognitionResult { matches: found, children: Vec::new() };
    assert(r@.children =~= Seq::<RecognitionResultModel>::empty());
    Ok(r)
}

/// What counts lies in the region that was cropped, and so in the frame.
pub proof fn converted_texts_lie_in_the_region(
    parameters: OcrParametersModel,
    items: Seq<DetectionModel>,
    roi: Rect,
    i: int,
)
    requires
        roi.sound(),
        parameters.converted(items, roi) is Ok,
        0 <= i < parameters.converted(items, roi)->Ok_0.len(),
    ensures
        ({
            let found = parameters.converted(items, roi)->Ok_0[i];
            &&& found.bounds is Some
            &&& roi.x <= found.bounds->0.x
            &&& roi.y <= found.bounds->0.y
            &&& found.bounds->0.x + found.bounds->0.width <= roi.x + roi.width
            &&& found.bounds->0.y + found.bounds->0.height <= roi.y + roi.height
        }),
    decreases items.len(),
{
    if items.len() > 0 {
        let before = parameters.converted(items.drop_last(), roi);
        if i < before->Ok_0.len() {
            converted_texts_lie_in_the_region(parameters, items.drop_last(), roi, i);
        }
    }
}

/// How far two bytes are from each other.
pub open spec fn difference(a: u8, b: u8) -> int {
    if a >= b {
        a - b
    } else {
        b - a
    }
}

/// A channel of a pixel of a frame: red, green or blue.
pub open spec fn frame_channel(frame: FrameModel, x: int, y: int, c: int) -> u8 {
    frame.rgb[(y * frame.width + x) * 3 + c]
}

/// A channel of a pixel of a template: red, green, blue, or how opaque it is.
pub open spec fn template_channel(template: TemplateModel, x: int, y: int, c: int) -> u8 {
    template.rgba[(y * template.width + x) * 4 + c]
}

/// Whether the frame shows at a pixel what the template shows there, in every channel.
pub open spec fn same_color(
    template: TemplateModel,
    frame: FrameModel,
    x: int,
    y: int,
    tx: int,
    ty: int,
) -> bool {
    &&& frame_channel(frame, x + tx, y + ty, 0) == template_channel(template, tx, ty, 0)
    &&& frame_channel(frame, x + tx, y + ty, 1) == template_channel(template, tx, ty, 1)
    &&& frame_channel(frame, x + tx, y + ty, 2) == template_channel(template, tx, ty, 2)
}

proof fn lemma_error_is_zero(template: TemplateModel, frame: FrameModel, x: int, y: int, n: int)
    requires
        0 <= n,
    ensures
        template.error(frame, x, y, n) == 0 <==> forall|p: int|
            0 <= p < n && template.counts(p) ==> #[trigger] template.pixel_error(frame, x, y, p)
                == 0,
    decreases n,
{
    if n > 0 {
        lemma_error_is_zero(template, frame, x, y, n - 1);
        if template.error(frame, x, y, n) == 0 {
            assert forall|p: int| 0 <= p < n && template.counts(p) implies #[trigger]
                template.pixel_error(frame, x, y, p) == 0 by {
                if p == n - 1 {
                    assert(template.counts(n - 1));
                }
            }
        }
    }
}

proof fn lemma_template_pixel(template: TemplateModel, tx: int, ty: int)
    requires
        0 <= tx < template.width,
        0 <= ty < template.height,
    ensures
        ({
            let p = ty * template.width + tx;
            &&& 0 <= p < template.area()
            &&& p % (template.width as int) == tx
            &&& p / (template.width as int) == ty
        }),
{
    let w = template.width as int;
    let h = template.height as int;
    assert(0 <= ty * w + tx < w * h) by (nonlinear_arith)
        requires
            0 <= tx < w,
            0 <= ty < h,
    ;
    vstd::arithmetic::div_mod::lemma_fundamental_div_mod_converse(ty * w + tx, w, ty, tx);
}

/// A template is at no distance from the frame exactly where each of its pixels that is opaque
/// has the color of the pixel under it, in all three channels.
pub proof fn only_the_same_colors_are_at_no_distance(
    template: TemplateModel,
    frame: FrameModel,
    x: int,
    y: int,
)
    requires
        template.sound(),
    ensures
        place_error(template, frame, x, y) == 0 <==> forall|tx: int, ty: int|
            #![trigger template_channel(template, tx, ty, 3)]
            0 <= tx < template.width && 0 <= ty < template.height && template_channel(
                template,
                tx,
                ty,
                3,
            ) >= 128 ==> same_color(template, frame, x, y, tx, ty),
{
    let w = template.width as int;
    lemma_error_is_zero(template, frame, x, y, template.area());
    if place_error(template, frame, x, y) == 0 {
        assert forall|tx: int, ty: int|
            #![trigger template_channel(template, tx, ty, 3)]
            0 <= tx < template.width && 0 <= ty < template.height && template_channel(
                template,
                tx,
                ty,
                3,
            ) >= 128 implies same_color(template, frame, x, y, tx, ty) by {
            lemma_template_pixel(template, tx, ty);
            let p = ty * w + tx;
            assert(template.counts(p));
            assert(template.pixel_error(frame, x, y, p) == 0);
        }
    }
    if forall|tx: int, ty: int|
        #![trigger template_channel(template, tx, ty, 3)]
        0 <= tx < template.width && 0 <= ty < template.height && template_channel(
            template,
            tx,
            ty,
            3,
        ) >= 128 ==> same_color(template, frame, x, y, tx, ty) {
        assert forall|p: int| 0 <= p < template.area() && template.counts(p) implies #[trigger]
            template.pixel_error(frame, x, y, p) == 0 by {
            let tx = p % w;
            let ty = p / w;
            let h = template.height as int;
            assert(0 <= p % w < w && 0 <= p / w < h) by (nonlinear_arith)
                requires
                    0 <= p < w * h,
                    0 < w,
                    0 < h,
            ;
            vstd::arithmetic::div_mod::lemma_fundamental_div_mod(p, w);
            assert(ty * w + tx == p) by (nonlinear_arith)
                requires
                    p == w * (p / w) + p % w,
                    tx == p % w,
                    ty == p / w,
            ;
            assert(template_channel(template, tx, ty, 3) >= 128);
        }
    }
}

proof fn lemma_error_of_another(
    template: TemplateModel,
    other: TemplateModel,
    frame: FrameModel,
    x: int,
    y: int,
    p: int,
    c: int,
    n: int,
)
    requires
        template.rgba.len() == template.area() * 4,
        0 <= p < template.area(),
        0 <= c < 3,
        0 <= n <= template.area(),
        other.width == template.width,
        other.height == template.height,
        other.rgba == template.rgba.update(p * 4 + c, other.rgba[p * 4 + c]),
    ensures
        ({
            let at = (y + p / (template.width as int)) * frame.width + x + p % (
            template.width as int);
            let under = frame.rgb[at * 3 + c];
            other.error(frame, x, y, n) - template.error(frame, x, y, n) == if p < n
                && template.counts(p) {
                difference(under, other.rgba[p * 4 + c]) - difference(
                    under,
                    template.rgba[p * 4 + c],
                )
            } else {
                0
            }
        }),
    decreases n,
{
    if n > 0 {
        lemma_error_of_another(template, other, frame, x, y, p, c, n - 1);
        let q = n - 1;
        assert(other.counts(q) == template.counts(q));
        if q != p {
            assert(other.rgba[q * 4] == template.rgba[q * 4]);
            assert(other.rgba[q * 4 + 1] == template.rgba[q * 4 + 1]);
            assert(other.rgba[q * 4 + 2] == template.rgba[q * 4 + 2]);
            assert(other.pixel_error(frame, x, y, q) == template.pixel_error(frame, x, y, q));
        } else {
            assert(c != 0 ==> other.rgba[q * 4] == template.rgba[q * 4]);
            assert(c != 1 ==> other.rgba[q * 4 + 1] == template.rgba[q * 4 + 1]);
            assert(c != 2 ==> other.rgba[q * 4 + 2] == template.rgba[q * 4 + 2]);
            assert(c == 0 || c == 1 || c == 2);
        }
    }
}

/// The distance of a template adds up over its channels: another color in one channel of one
/// pixel changes it by exactly what that channel is further from, or closer to, the frame. Where
/// the pixel is not opaque it changes nothing.
pub proof fn every_channel_counts_alike(
    template: TemplateModel,
    other: TemplateModel,
    frame: FrameModel,
    x: int,
    y: int,
    tx: int,
    ty: int,
    c: int,
)
    requires
        template.rgba.len() == template.area() * 4,
        0 <= tx < template.width,
        0 <= ty < template.height,
        0 <= c < 3,
        other.width == template.width,
        other.height == template.height,
        other.rgba == template.rgba.update(
            (ty * template.width + tx) * 4 + c,
            template_channel(other, tx, ty, c),
        ),
    ensures
        place_error(other, frame, x, y) - place_error(template, frame, x, y)
            == if template_channel(template, tx, ty, 3) >= 128 {
            difference(
                frame_channel(frame, x + tx, y + ty, c),
                template_channel(other, tx, ty, c),
            ) - difference(
                frame_channel(frame, x + tx, y + ty, c),
                template_channel(template, tx, ty, c),
            )
        } else {
            0
        },
{
    lemma_template_pixel(template, tx, ty);
    let p = ty * template.width + tx;
    lemma_error_of_another(template, other, frame, x, y, p, c, template.area());
}

/// As many samples are taken as there are pixels that are opaque.
pub proof fn opaque_pixels_are_sampled(template: TemplateModel, n: int)
    requires
        0 <= n,
    ensures
        template.samples(n) == vstd::set_lib::set_int_range(0, n).filter(
            |p: int| template.rgba[p * 4 + 3] >= 128,
        ).len(),
    decreases n,
{
    let p = |p: int| template.rgba[p * 4 + 3] >= 128;
    vstd::set_lib::lemma_int_range(0, n);
    if n == 0 {
        assert(vstd::set_lib::set_int_range(0, 0).filter(p) =~= Set::empty());
    } else {
        opaque_pixels_are_sampled(template, n - 1);
        vstd::set_lib::lemma_int_range(0, n - 1);
        let less = vstd::set_lib::set_int_range(0, n - 1);
        let all = vstd::set_lib::set_int_range(0, n);
        assert(all =~= less.insert(n - 1));
        less.lemma_len_filter(p);
        if p(n - 1) {
            assert(all.filter(p) =~= less.filter(p).insert(n - 1));
        } else {
            assert(all.filter(p) =~= less.filter(p));
        }
    }
}

/// A crop shows what the frame shows in the region, pixel for pixel.
pub proof fn crops_show_the_region(frame: FrameModel, roi: Rect, x: int, y: int, c: int)
    requires
        roi.width > 0,
        0 <= x < roi.width,
        0 <= y < roi.height,
        0 <= c < 3,
    ensures
        ({
            let all = cropped(frame, roi, roi.width * roi.height * 3);
            let at = (y * roi.width + x) * 3 + c;
            &&& all.len() == roi.width * roi.height * 3
            &&& 0 <= at < all.len()
            &&& all[at] == frame_channel(frame, roi.x + x, roi.y + y, c)
        }),
{
    let w = roi.width as int;
    let h = roi.height as int;
    let at = (y * w + x) * 3 + c;
    assert(0 <= at < w * h * 3) by (nonlinear_arith)
        requires
            0 <= x < w,
            0 <= y < h,
            0 <= c < 3,
            at == (y * w + x) * 3 + c,
    ;
    assert(at == y * (w * 3) + (x * 3 + c)) by (nonlinear_arith)
        requires
            at == (y * w + x) * 3 + c,
    ;
    vstd::arithmetic::div_mod::lemma_fundamental_div_mod_converse(at, w * 3, y, x * 3 + c);
}

proof fn lemma_clear_keeps(hits: Seq<Hit>, new: Hit, hit: Hit)
    requires
        hits.contains(hit),
        !overlapping(hit.bounds, new.bounds),
    ensures
        clear_of(hits, new).contains(hit),
    decreases hits.len(),
{
    let init = hits.drop_last();
    let at = choose|i: int| 0 <= i < hits.len() && hits[i] == hit;
    let rest = clear_of(init, new);
    if at < hits.len() - 1 {
        assert(init[at] == hit);
        lemma_clear_keeps(init, new, hit);
        let k = choose|k: int| 0 <= k < rest.len() && rest[k] == hit;
        assert(clear_of(hits, new)[k] == hit);
    } else {
        assert(clear_of(hits, new)[rest.len() as int] == hit);
    }
}

proof fn lemma_clear_is_shorter(hits: Seq<Hit>, new: Hit)
    ensures
        clear_of(hits, new).len() <= hits.len(),
    decreases hits.len(),
{
    if hits.len() > 0 {
        lemma_clear_is_shorter(hits.drop_last(), new);
    }
}

proof fn lemma_ranked_length(hits: Seq<Hit>, new: Hit)
    ensures
        ranked(hits, new).len() == hits.len() + 1,
    decreases hits.len(),
{
    if hits.len() > 0 && hits.last().error > new.error {
        lemma_ranked_length(hits.drop_last(), new);
    }
}

/// With room for it, a new hit that no overlapping one covers is kept, and so is every hit that it
/// does not overlap.
proof fn lemma_kept_with_room(hits: Seq<Hit>, new: Hit, max: usize)
    requires
        hits.len() < max,
    ensures
        kept(hits, new, max).len() <= hits.len() + 1,
        !covered(hits, new) ==> kept(hits, new, max).contains(new),
        forall|hit: Hit|
            hits.contains(hit) && (covered(hits, new) || !overlapping(hit.bounds, new.bounds))
                ==> #[trigger] kept(hits, new, max).contains(hit),
{
    lemma_clear_is_shorter(hits, new);
    lemma_ranked_length(clear_of(hits, new), new);
    lemma_ranked_keeps(clear_of(hits, new), new);
    assert forall|hit: Hit|
        hits.contains(hit) && (covered(hits, new) || !overlapping(
            hit.bounds,
            new.bounds,
        )) implies #[trigger] kept(hits, new, max).contains(hit) by {
        if !covered(hits, new) {
            lemma_clear_keeps(hits, new, hit);
            assert(clear_of(hits, new).contains(hit));
        }
    }
}

/// Whether a template is closer to the frame at a place than at every other place that overlaps it.
pub open spec fn isolated(
    template: TemplateModel,
    frame: FrameModel,
    roi: Rect,
    px: int,
    py: int,
) -> bool {
    forall|x: int, y: int|
        {
            &&& roi.x <= x
            &&& x + template.width <= roi.x + roi.width
            &&& roi.y <= y
            &&& y + template.height <= roi.y + roi.height
            &&& px - template.width < x < px + template.width
            &&& py - template.height < y < py + template.height
            &&& (x != px || y != py)
        } ==> #[trigger] place_error(template, frame, x, y) > place_error(template, frame, px, py)
}

/// What is taken as given of a search for an isolated place.
spec fn sought(
    template: TemplateModel,
    frame: FrameModel,
    roi: Rect,
    limit: u128,
    px: int,
    py: int,
) -> bool {
    &&& template.width > 0
    &&& template.height > 0
    &&& roi.sound()
    &&& roi.x <= px
    &&& px + template.width <= roi.x + roi.width
    &&& roi.y <= py
    &&& py + template.height <= roi.y + roi.height
    &&& place_error(template, frame, px, py) <= limit
    &&& isolated(template, frame, roi, px, py)
}

proof fn lemma_row_finds(
    hits: Seq<Hit>,
    template: TemplateModel,
    frame: FrameModel,
    roi: Rect,
    y: int,
    n: int,
    limit: u128,
    max: usize,
    px: int,
    py: int,
)
    requires
        sought(template, frame, roi, limit, px, py),
        0 <= n <= roi.width - template.width + 1,
        roi.y <= y,
        y + template.height <= roi.y + roi.height,
        genuine(hits, template, frame, roi),
        reportable(hits, limit, max),
        hits.len() + n <= max,
        max > 0,
        py < y ==> hits.contains(
            Hit {
                bounds: place(template, px, py),
                error: place_error(template, frame, px, py) as u128,
            },
        ),
    ensures
        ({
            let after = row_hits(hits, template, frame, roi, y, n, limit, max);
            &&& after.len() <= hits.len() + n
            &&& py < y || (py == y && px < roi.x + n) ==> after.contains(
                Hit {
                    bounds: place(template, px, py),
                    error: place_error(template, frame, px, py) as u128,
                },
            )
        }),
    decreases n,
{
    if n > 0 {
        lemma_row_finds(hits, template, frame, roi, y, n - 1, limit, max, px, py);
        lemma_row_best(hits, template, frame, roi, y, n - 1, limit, max);
        let before = row_hits(hits, template, frame, roi, y, n - 1, limit, max);
        let x = roi.x + n - 1;
        let error = place_error(template, frame, x, y);
        let target = Hit {
            bounds: place(template, px, py),
            error: place_error(template, frame, px, py) as u128,
        };
        if error <= limit {
            let new = Hit { bounds: place(template, x, y), error: error as u128 };
            lemma_kept_with_room(before, new, max);
            if x == px && y == py {
                assert(new == target);
                if covered(before, new) {
                    let k = choose|k: int|
                        0 <= k < before.len() && overlapping(
                            (#[trigger] before[k]).bounds,
                            new.bounds,
                        ) && before[k].error <= new.error;
                    assert(found_in(before[k], template, frame, roi));
                    let (qx, qy) = choose|qx: int, qy: int|
                        found_at(before[k], template, frame, roi, qx, qy);
                    assert(place_error(template, frame, qx, qy) <= place_error(
                        template,
                        frame,
                        px,
                        py,
                    ));
                    assert(qx == px && qy == py);
                    assert(before[k] == target);
                }
            } else if py < y || (py == y && px < roi.x + n) {
                assert(before.contains(target));
                if overlapping(target.bounds, new.bounds) {
                    assert(place_error(template, frame, x, y) > place_error(
                        template,
                        frame,
                        px,
                        py,
                    ));
                    let k = choose|k: int| 0 <= k < before.len() && before[k] == target;
                    assert(overlapping(before[k].bounds, new.bounds));
                    assert(covered(before, new));
                }
            }
        }
    }
}

proof fn lemma_region_finds(
    template: TemplateModel,
    frame: FrameModel,
    roi: Rect,
    rows: int,
    limit: u128,
    max: usize,
    px: int,
    py: int,
)
    requires
        sought(template, frame, roi, limit, px, py),
        0 <= rows <= roi.height - template.height + 1,
        max >= roi.width * roi.height,
    ensures
        ({
            let found = region_hits(template, frame, roi, rows, limit, max);
            &&& found.len() <= rows * roi.width
            &&& py < roi.y + rows ==> found.contains(
                Hit {
                    bounds: place(template, px, py),
                    error: place_error(template, frame, px, py) as u128,
                },
            )
        }),
    decreases rows,
{
    if rows > 0 {
        lemma_region_finds(template, frame, roi, rows - 1, limit, max, px, py);
        let w = roi.width as int;
        let h = roi.height as int;
        assert((rows - 1) * w + w == rows * w) by (nonlinear_arith);
        assert(rows * w <= h * w) by (nonlinear_arith)
            requires
                rows <= h,
                0 <= w,
        ;
        assert(h * w == w * h) by (nonlinear_arith);
        assert(w * h > 0) by (nonlinear_arith)
            requires
                w > 0,
                h > 0,
        ;
        found_templates_are_reportable(template, frame, roi, rows - 1, limit, max);
        lemma_region_best(template, frame, roi, rows - 1, limit, max);
        lemma_row_finds(
            region_hits(template, frame, roi, rows - 1, limit, max),
            template,
            frame,
            roi,
            roi.y + rows - 1,
            w - template.width + 1,
            limit,
            max,
            px,
            py,
        );
    } else {
        assert(rows * roi.width == 0) by (nonlinear_arith)
            requires
                rows == 0,
        ;
    }
}

/// A search with room for all places finds every place of the region at which the template is
/// within the limit and closer to the frame than at every place that overlaps it, with its
/// distance. So no second picture of a control is lost for a better one elsewhere.
pub proof fn isolated_places_are_found(
    template: TemplateModel,
    frame: FrameModel,
    roi: Rect,
    limit: u128,
    max: usize,
    px: int,
    py: int,
)
    requires
        template.width > 0,
        template.height > 0,
        roi.sound(),
        max >= roi.width * roi.height,
        roi.x <= px,
        px + template.width <= roi.x + roi.width,
        roi.y <= py,
        py + template.height <= roi.y + roi.height,
        place_error(template, frame, px, py) <= limit,
        isolated(template, frame, roi, px, py),
    ensures
        region_hits(template, frame, roi, template_rows(template, roi), limit, max).contains(
            Hit {
                bounds: Rect {
                    x: px as i32,
                    y: py as i32,
                    width: template.width,
                    height: template.height,
                },
                error: place_error(template, frame, px, py) as u128,
            },
        ),
{
    lemma_region_finds(
        template,
        frame,
        roi,
        template_rows(template, roi),
        limit,
        max,
        px,
        py,
    );
}

/// Every place that is found lies in the region and has the size of the template; it says how far
/// the template is from the frame there, which is no more than the limit, and no place of the
/// region is closer than the first.
pub proof fn found_places_lie_in_the_region(
    template: TemplateModel,
    frame: FrameModel,
    roi: Rect,
    limit: u128,
    max: usize,
)
    requires
        roi.sound(),
        max > 0,
    ensures
        ({
            let found = region_hits(
                template,
                frame,
                roi,
                template_rows(template, roi),
                limit,
                max,
            );
            &&& found.len() <= max
            &&& forall|i: int|
                0 <= i < found.len() ==> {
                    let at = (#[trigger] found[i]).bounds;
                    &&& roi.x <= at.x
                    &&& roi.y <= at.y
                    &&& at.x + at.width <= roi.x + roi.width
                    &&& at.y + at.height <= roi.y + roi.height
                    &&& at.width == template.width
                    &&& at.height == template.height
                    &&& found[i].error == place_error(template, frame, at.x as int, at.y as int)
                    &&& found[i].error <= limit
                }
            &&& forall|x: int, y: int|
                roi.x <= x && x + template.width <= roi.x + roi.width && roi.y <= y && y
                    + template.height <= roi.y + roi.height && #[trigger] place_error(
                    template,
                    frame,
                    x,
                    y,
                ) <= limit ==> found.len() > 0 && found[0].error <= place_error(
                    template,
                    frame,
                    x,
                    y,
                )
        }),
{
    let rows = template_rows(template, roi);
    let found = region_hits(template, frame, roi, rows, limit, max);
    searches_find_the_best_place(template, frame, roi, limit, max);
    found_templates_are_reportable(template, frame, roi, rows, limit, max);
    assert forall|i: int| 0 <= i < found.len() implies {
        let at = (#[trigger] found[i]).bounds;
        &&& roi.x <= at.x
        &&& roi.y <= at.y
        &&& at.x + at.width <= roi.x + roi.width
        &&& at.y + at.height <= roi.y + roi.height
        &&& at.width == template.width
        &&& at.height == template.height
        &&& found[i].error == place_error(template, frame, at.x as int, at.y as int)
        &&& found[i].error <= limit
    } by {
        assert(found_in(found[i], template, frame, roi));
        let (x, y) = choose|x: int, y: int| found_at(found[i], template, frame, roi, x, y);
        assert(fits(template, roi, x, y));
    }
    assert forall|x: int, y: int|
        roi.x <= x && x + template.width <= roi.x + roi.width && roi.y <= y && y + template.height
            <= roi.y + roi.height && #[trigger] place_error(template, frame, x, y)
            <= limit implies found.len() > 0 && found[0].error <= place_error(
        template,
        frame,
        x,
        y,
    ) by {
        assert(fits(template, roi, x, y));
    }
}

/// Whether a text that was read in a crop is one that is looked for: not blank, with what is
/// looked for in it, and not less certain than it must be.
pub open spec fn sought_text(parameters: OcrParametersModel, item: DetectionModel) -> bool {
    &&& item.text matches Some(read) && {
        &&& exists|i: int| 0 <= i < read.len() && !text::white(#[trigger] read[i])
        &&& parameters.contains matches Some(needle) ==> text::occurs(text::trimmed(read), needle)
    }
    &&& item.score matches Some(score) && !score.below(parameters.min_confidence)
}

/// Every text that is looked for is reported, in the order in which they were read and moved from
/// the crop to its place in the frame, and nothing else is.
pub proof fn sought_texts_are_reported(
    parameters: OcrParametersModel,
    items: Seq<DetectionModel>,
    roi: Rect,
)
    requires
        roi.sound(),
        parameters.converted(items, roi) is Ok,
    ensures
        ({
            let found = parameters.converted(items, roi)->Ok_0;
            let wanted = items.filter(|item: DetectionModel| sought_text(parameters, item));
            &&& found.len() == wanted.len()
            &&& forall|i: int|
                0 <= i < found.len() ==> {
                    let at = wanted[i].bounds->0;
                    &&& (#[trigger] found[i]).text == wanted[i].text
                    &&& found[i].score == wanted[i].score
                    &&& found[i].label == wanted[i].label
                    &&& found[i].detail == wanted[i].detail
                    &&& found[i].bounds matches Some(bounds) && bounds.x == roi.x + at.x && bounds.y
                        == roi.y + at.y && bounds.width == at.width && bounds.height == at.height
                }
        }),
    decreases items.len(),
{
    let keep = |item: DetectionModel| sought_text(parameters, item);
    reveal(Seq::filter);
    if items.len() > 0 {
        let less = items.drop_last();
        let last = items.last();
        sought_texts_are_reported(parameters, less, roi);
        text::blank_texts_are_trimmed_away(last.text->0);
        assert(parameters.wanted(last) == sought_text(parameters, last));
    }
}

/// A search is accepted exactly with a share as its threshold and for one to a hundred results;
/// one result is looked for unless more are asked for.
pub proof fn searches_are_bounded(threshold: Real, max: usize)
    ensures
        acceptable(threshold, max) <==> threshold.unit() && 1 <= max <= 100,
        default_results() == 1,
{
}

/// What is reported of a hit is its place, its score and the name of the template.
pub proof fn hits_are_reported(hit: Hit, score: Real, name: Text)
    ensures
        detected(hit, score, name).bounds == Some(hit.bounds),
        detected(hit, score, name).score == Some(score),
        detected(hit, score, name).label == Some(name),
        detected(hit, score, name).text is None,
{
}

} // verus!
