//! What is seen in a frame: numbers, regions, colors, and what recognitions make of them.
use crate::automation::ErrorModel;
use crate::recognition::{
    color_found, detection_flaw, look_of, matches_flaw, region_of, DetectionModel, Evaluated,
    FrameModel, Look, Real, RecognitionModel, RecognitionResultModel, RecognizersModel, Rect, Roi,
};
use crate::text;
use vstd::prelude::*;

verus! {

/// The number with the other sign.
pub open spec fn negated(a: Real) -> Real {
    Real {
        bits: if a.bits < 0x8000_0000_0000_0000 {
            (a.bits + 0x8000_0000_0000_0000) as u64
        } else {
            (a.bits - 0x8000_0000_0000_0000) as u64
        },
    }
}

/// Zero.
pub open spec fn zero() -> Real {
    Real { bits: 0 }
}

/// One.
pub open spec fn one() -> Real {
    Real { bits: 0x3ff0_0000_0000_0000 }
}

/// The bits of numbers without a sign are ordered as the numbers are, and a sign reverses the
/// order. One of two numbers is less unless they are the same, and the two zeros are.
pub proof fn numbers_are_ordered(a: Real, b: Real)
    ensures
        a.bits <= 0x7ff0_0000_0000_0000 && b.bits <= 0x7ff0_0000_0000_0000 ==> (a.below(b)
            <==> a.bits < b.bits),
        a.below(b) <==> negated(b).below(negated(a)),
        a.bits <= 0x7ff0_0000_0000_0000 && 0 < b.bits <= 0x7ff0_0000_0000_0000 ==> negated(b).below(
            a,
        ),
        !zero().below(negated(zero())) && !negated(zero()).below(zero()),
        a.reaches(b) ==> !a.below(b),
        a.below(b) ==> !b.below(a) && b.reaches(a),
        a.reaches(a) && b.reaches(b) ==> (a.below(b) || a.reaches(b)),
        a.reaches(a) <==> a.bits <= 0x7ff0_0000_0000_0000 || 0x8000_0000_0000_0000 <= a.bits
            <= 0xfff0_0000_0000_0000,
        a.below(b) || a.reaches(b) ==> a.reaches(a) && b.reaches(b),
{
}

/// A share is a number from zero to one, both included.
pub proof fn shares_are_from_zero_to_one(a: Real)
    ensures
        a.unit() <==> a.reaches(zero()) && one().reaches(a),
{
}

/// A region of a frame is accepted exactly if it has pixels and all of them are in the frame. Where
/// none is named, it is the whole frame.
pub proof fn regions_lie_in_the_frame(frame: FrameModel, rect: Rect)
    requires
        frame.sound(),
    ensures
        frame.region(Some(rect)) is Ok <==> {
            &&& 0 <= rect.x
            &&& 0 <= rect.y
            &&& 0 < rect.width
            &&& 0 < rect.height
            &&& rect.x + rect.width <= frame.width
            &&& rect.y + rect.height <= frame.height
        },
        frame.region(Some(rect)) is Ok ==> frame.region(Some(rect))->Ok_0 == rect,
        frame.region(None) is Ok,
        frame.region(None)->Ok_0 == (Rect {
            x: 0,
            y: 0,
            width: frame.width,
            height: frame.height,
        }),
{
}

/// A recognition looks at the whole frame, at the rectangle that it names, or at the pixels that
/// its fractions come to.
pub proof fn recognitions_look_at_their_region(
    frame: FrameModel,
    rect: Rect,
    x: Real,
    y: Real,
    width: Real,
    height: Real,
    pixels: Rect,
)
    requires
        frame.sound(),
    ensures
        region_of(frame, None, pixels) == frame.region(None),
        region_of(frame, Some(Roi::Fixed { rect }), pixels) == frame.region(Some(rect)),
        ({
            let roi = Roi::Relative { x, y, width, height };
            let fractions = {
                &&& x.unit() && y.unit() && width.unit() && height.unit()
                &&& zero().below(width)
                &&& zero().below(height)
            };
            if fractions {
                region_of(frame, Some(roi), pixels) == frame.region(Some(pixels))
            } else {
                region_of(frame, Some(roi), pixels) is Err
            }
        }),
{
}

proof fn lemma_row_splits(
    frame: FrameModel,
    rect: Rect,
    left: Rect,
    right: Rect,
    y: int,
    n: int,
    lower: [u8; 3],
    upper: [u8; 3],
)
    requires
        left.x == rect.x,
        right.x == rect.x + left.width,
        0 <= n,
    ensures
        frame.row_count(left, y, left.width as int, lower, upper) + frame.row_count(
            right,
            y,
            n,
            lower,
            upper,
        ) == frame.row_count(rect, y, left.width + n, lower, upper),
    decreases n,
{
    if n > 0 {
        lemma_row_splits(frame, rect, left, right, y, n - 1, lower, upper);
    } else {
        lemma_row_begins(frame, rect, left, y, left.width as int, lower, upper);
    }
}

proof fn lemma_row_begins(
    frame: FrameModel,
    a: Rect,
    b: Rect,
    y: int,
    n: int,
    lower: [u8; 3],
    upper: [u8; 3],
)
    requires
        a.x == b.x,
    ensures
        frame.row_count(a, y, n, lower, upper) == frame.row_count(b, y, n, lower, upper),
    decreases n,
{
    if n > 0 {
        lemma_row_begins(frame, a, b, y, n - 1, lower, upper);
    }
}

proof fn lemma_rows_split(
    frame: FrameModel,
    rect: Rect,
    left: Rect,
    right: Rect,
    rows: int,
    lower: [u8; 3],
    upper: [u8; 3],
)
    requires
        left.x == rect.x,
        right.x == rect.x + left.width,
        left.width + right.width == rect.width,
        left.y == rect.y,
        right.y == rect.y,
    ensures
        frame.color_count(left, rows, lower, upper) + frame.color_count(right, rows, lower, upper)
            == frame.color_count(rect, rows, lower, upper),
    decreases rows,
{
    if rows > 0 {
        lemma_rows_split(frame, rect, left, right, rows - 1, lower, upper);
        lemma_row_splits(
            frame,
            rect,
            left,
            right,
            rect.y + rows - 1,
            right.width as int,
            lower,
            upper,
        );
    }
}

proof fn lemma_rows_stack(
    frame: FrameModel,
    rect: Rect,
    top: Rect,
    bottom: Rect,
    rows: int,
    lower: [u8; 3],
    upper: [u8; 3],
)
    requires
        0 <= rows,
        top.x == rect.x,
        bottom.x == rect.x,
        top.width == rect.width,
        bottom.width == rect.width,
        top.y == rect.y,
        bottom.y == rect.y + top.height,
    ensures
        frame.color_count(top, top.height as int, lower, upper) + frame.color_count(
            bottom,
            rows,
            lower,
            upper,
        ) == frame.color_count(rect, top.height + rows, lower, upper),
    decreases rows,
{
    if rows > 0 {
        lemma_rows_stack(frame, rect, top, bottom, rows - 1, lower, upper);
        lemma_row_begins(
            frame,
            bottom,
            rect,
            bottom.y + rows - 1,
            rect.width as int,
            lower,
            upper,
        );
    } else {
        lemma_rows_begin(frame, rect, top, top.height as int, lower, upper);
    }
}

proof fn lemma_rows_begin(
    frame: FrameModel,
    a: Rect,
    b: Rect,
    rows: int,
    lower: [u8; 3],
    upper: [u8; 3],
)
    requires
        a.x == b.x,
        a.y == b.y,
        a.width == b.width,
    ensures
        frame.color_count(a, rows, lower, upper) == frame.color_count(b, rows, lower, upper),
    decreases rows,
{
    if rows > 0 {
        lemma_rows_begin(frame, a, b, rows - 1, lower, upper);
        lemma_row_begins(frame, a, b, a.y + rows - 1, a.width as int, lower, upper);
    }
}

/// How many pixels of a region have a color within bounds.
pub open spec fn colored(frame: FrameModel, rect: Rect, lower: [u8; 3], upper: [u8; 3]) -> nat {
    frame.color_count(rect, rect.height as int, lower, upper)
}

/// A region has as many pixels of a color as its parts have together, however it is cut.
pub proof fn colors_add_up(
    frame: FrameModel,
    rect: Rect,
    first: Rect,
    second: Rect,
    lower: [u8; 3],
    upper: [u8; 3],
)
    requires
        first.x == rect.x,
        first.y == rect.y,
        ({
            ||| second.y == rect.y && second.x == rect.x + first.width && first.height
                == rect.height && second.height == rect.height && first.width + second.width
                == rect.width
            ||| second.x == rect.x && second.y == rect.y + first.height && first.width == rect.width
                && second.width == rect.width && first.height + second.height == rect.height
        }),
    ensures
        colored(frame, rect, lower, upper) == colored(frame, first, lower, upper) + colored(
            frame,
            second,
            lower,
            upper,
        ),
{
    if second.y == rect.y && second.x == rect.x + first.width && first.height == rect.height
        && second.height == rect.height && first.width + second.width == rect.width {
        lemma_rows_split(frame, rect, first, second, rect.height as int, lower, upper);
    } else {
        lemma_rows_stack(frame, rect, first, second, second.height as int, lower, upper);
    }
}

/// A pixel has a color within bounds exactly if red, green and blue all are, the bounds included.
pub proof fn pixels_are_judged_by_all_channels(
    frame: FrameModel,
    x: i32,
    y: i32,
    lower: [u8; 3],
    upper: [u8; 3],
)
    ensures
        ({
            let pixel = Rect { x, y, width: 1, height: 1 };
            let at = (y * frame.width + x) * 3;
            colored(frame, pixel, lower, upper) == if lower@[0] <= frame.rgb[at] <= upper@[0]
                && lower@[1] <= frame.rgb[at + 1] <= upper@[1] && lower@[2] <= frame.rgb[at + 2]
                <= upper@[2] {
                1nat
            } else {
                0nat
            }
        }),
{
    let pixel = Rect { x, y, width: 1, height: 1 };
    reveal_with_fuel(FrameModel::color_count, 2);
    reveal_with_fuel(FrameModel::row_count, 2);
    let at = (y * frame.width + x) * 3;
    assert(frame.offset(x as int, y as int) == at);
    if frame.in_range(x as int, y as int, lower, upper) {
        assert(lower@[0] <= frame.rgb[at + 0] && frame.rgb[at + 0] <= upper@[0]);
        assert(lower@[1] <= frame.rgb[at + 1] && frame.rgb[at + 1] <= upper@[1]);
        assert(lower@[2] <= frame.rgb[at + 2] && frame.rgb[at + 2] <= upper@[2]);
    }
    if lower@[0] <= frame.rgb[at] <= upper@[0] && lower@[1] <= frame.rgb[at + 1] <= upper@[1]
        && lower@[2] <= frame.rgb[at + 2] <= upper@[2] {
        assert forall|c: int| 0 <= c < 3 implies lower@[c] <= #[trigger] frame.rgb[at + c]
            && frame.rgb[at + c] <= upper@[c] by {
            assert(c == 0 || c == 1 || c == 2);
        }
    }
}

/// A color is found in a region exactly if the share of its pixels reaches the one that is asked
/// for; the region is then what was found, with that share.
pub proof fn colors_are_found_by_their_share(rect: Rect, ratio: Real, min_ratio: Real)
    ensures
        color_found(rect, ratio, min_ratio).matches.len() == if ratio.reaches(min_ratio) {
            1nat
        } else {
            0nat
        },
        ratio.reaches(min_ratio) ==> color_found(rect, ratio, min_ratio).matches[0].bounds == Some(
            rect,
        ) && color_found(rect, ratio, min_ratio).matches[0].score == Some(ratio),
{
}

/// What is done for a leaf: a direct hit is the region itself, for a color the pixels of the
/// region are counted, and every other leaf is looked at by its backend, which must be there.
pub proof fn leaves_are_looked_at(
    leaf: RecognitionModel,
    frame: FrameModel,
    pixels: Rect,
    recognizers: RecognizersModel,
)
    requires
        leaf.leaf(),
    ensures
        match leaf {
            RecognitionModel::DirectHit { roi } => match region_of(frame, roi, pixels) {
                Ok(rect) => look_of(leaf, frame, pixels, recognizers) == Ok::<Look, ErrorModel>(
                    Look::Hit(rect),
                ),
                Err(error) => look_of(leaf, frame, pixels, recognizers) == Err::<Look, ErrorModel>(
                    error,
                ),
            },
            RecognitionModel::ColorMatch { roi, lower, upper, .. } => match region_of(
                frame,
                roi,
                pixels,
            ) {
                Ok(rect) => look_of(leaf, frame, pixels, recognizers) matches Ok(Look::Color {
                    rect: seen,
                    count,
                }) && seen == rect && count == colored(frame, rect, lower, upper) as u64,
                Err(error) => look_of(leaf, frame, pixels, recognizers) == Err::<Look, ErrorModel>(
                    error,
                ),
            },
            RecognitionModel::Algorithm { algorithm, roi, .. } => {
                if !recognizers.algorithms.contains(algorithm) {
                    look_of(leaf, frame, pixels, recognizers) matches Err(error) && error
                        is Unsupported
                } else {
                    match region_of(frame, roi, pixels) {
                        Ok(rect) => look_of(leaf, frame, pixels, recognizers) == Ok::<
                            Look,
                            ErrorModel,
                        >(Look::Backend(rect)),
                        Err(error) => look_of(leaf, frame, pixels, recognizers) == Err::<
                            Look,
                            ErrorModel,
                        >(error),
                    }
                }
            },
            RecognitionModel::Custom { name, roi, .. } => {
                if !recognizers.custom.contains(name) {
                    look_of(leaf, frame, pixels, recognizers) matches Err(error) && error
                        is Unsupported
                } else {
                    match region_of(frame, roi, pixels) {
                        Ok(rect) => look_of(leaf, frame, pixels, recognizers) == Ok::<
                            Look,
                            ErrorModel,
                        >(Look::Backend(rect)),
                        Err(error) => look_of(leaf, frame, pixels, recognizers) == Err::<
                            Look,
                            ErrorModel,
                        >(error),
                    }
                }
            },
            _ => true,
        },
{
}

/// What backends find is accepted exactly if every place lies in the frame and every score is
/// neither infinite nor no number.
pub proof fn findings_are_accepted_in_the_frame(
    frame: FrameModel,
    matches: Seq<DetectionModel>,
    i: int,
)
    requires
        0 <= i,
    ensures
        matches_flaw(frame, matches, i) is None <==> forall|j: int|
            i <= j < matches.len() ==> {
                &&& (#[trigger] matches[j]).bounds matches Some(bounds) ==> frame.region(
                    Some(bounds),
                ) is Ok
                &&& matches[j].score matches Some(score) ==> score.bits
                    % 0x8000_0000_0000_0000 < 0x7ff0_0000_0000_0000
            },
    decreases matches.len() - i,
{
    if i < matches.len() {
        findings_are_accepted_in_the_frame(frame, matches, i + 1);
        if matches_flaw(frame, matches, i) is None {
            assert(detection_flaw(frame, matches[i]) is None);
            assert forall|j: int| i <= j < matches.len() implies {
                &&& (#[trigger] matches[j]).bounds matches Some(bounds) ==> frame.region(
                    Some(bounds),
                ) is Ok
                &&& matches[j].score matches Some(score) ==> score.bits
                    % 0x8000_0000_0000_0000 < 0x7ff0_0000_0000_0000
            } by {
                if j > i {
                    assert(i + 1 <= j);
                }
            }
        }
    }
}

/// A leaf is accepted exactly if its region can lie in a frame, a color has bounds that are not
/// crossed and a share, and a custom recognition has a name.
pub proof fn leaves_are_accepted(leaf: RecognitionModel)
    requires
        leaf.leaf(),
    ensures
        leaf.flaw() is None <==> {
            &&& match leaf {
                RecognitionModel::ColorMatch { lower, upper, min_ratio, .. } => min_ratio.unit()
                    && lower@[0] <= upper@[0] && lower@[1] <= upper@[1] && lower@[2] <= upper@[2],
                RecognitionModel::Custom { name, .. } => exists|i: int|
                    0 <= i < name.len() && !text::white(#[trigger] name[i]),
                _ => true,
            }
            &&& match leaf {
                RecognitionModel::DirectHit { roi } => accepted(roi),
                RecognitionModel::ColorMatch { roi, .. } => accepted(roi),
                RecognitionModel::Algorithm { roi, .. } => accepted(roi),
                RecognitionModel::Custom { roi, .. } => accepted(roi),
                _ => true,
            }
        },
{
}

/// Whether a region can lie in a frame.
pub open spec fn accepted(roi: Option<Roi>) -> bool {
    match roi {
        None => true,
        Some(Roi::Fixed { rect }) => {
            &&& 0 <= rect.x
            &&& 0 <= rect.y
            &&& 0 < rect.width
            &&& 0 < rect.height
            &&& rect.x + rect.width <= i32::MAX
            &&& rect.y + rect.height <= i32::MAX
        },
        Some(Roi::Relative { x, y, width, height }) => {
            &&& x.unit() && y.unit() && width.unit() && height.unit()
            &&& zero().below(width)
            &&& zero().below(height)
        },
    }
}

proof fn lemma_parts_flaw(composite: RecognitionModel, i: int)
    requires
        0 <= i,
        !composite.leaf(),
    ensures
        composite.parts_flaw(i) is None <==> forall|j: int|
            i <= j < composite.parts().len() ==> (#[trigger] composite.parts()[j]).flaw() is None,
    decreases composite.parts().len() - i,
{
    if i < composite.parts().len() {
        lemma_parts_flaw(composite, i + 1);
        assert(composite.part(i) == composite.parts()[i]);
        if composite.parts_flaw(i) is None {
            assert forall|j: int| i <= j < composite.parts().len() implies (
            #[trigger] composite.parts()[j]).flaw() is None by {
                if j > i {
                    assert(i + 1 <= j);
                }
            }
        }
    }
}

/// A composite is accepted exactly if it has parts and all of them are.
pub proof fn composites_are_accepted(conditions: Seq<RecognitionModel>)
    ensures
        (RecognitionModel::And { conditions }).flaw() is None <==> conditions.len() > 0 && forall|
            j: int,
        | 0 <= j < conditions.len() ==> (#[trigger] conditions[j]).flaw() is None,
        (RecognitionModel::Or { conditions }).flaw() is None <==> conditions.len() > 0 && forall|
            j: int,
        | 0 <= j < conditions.len() ==> (#[trigger] conditions[j]).flaw() is None,
{
    lemma_parts_flaw(RecognitionModel::And { conditions }, 0);
    lemma_parts_flaw(RecognitionModel::Or { conditions }, 0);
}

/// A recognition can be served exactly if every leaf in it has the backend that it needs.
pub proof fn recognitions_need_their_backends(
    recognizers: RecognizersModel,
    recognition: RecognitionModel,
)
    ensures
        recognizers.supports(recognition) <==> match recognition {
            RecognitionModel::DirectHit { .. } => true,
            RecognitionModel::ColorMatch { .. } => true,
            RecognitionModel::Algorithm { algorithm, .. } => recognizers.algorithms.contains(
                algorithm,
            ),
            RecognitionModel::Custom { name, .. } => recognizers.custom.contains(name),
            RecognitionModel::And { conditions } => forall|i: int|
                0 <= i < conditions.len() ==> recognizers.supports(#[trigger] conditions[i]),
            RecognitionModel::Or { conditions } => forall|i: int|
                0 <= i < conditions.len() ==> recognizers.supports(#[trigger] conditions[i]),
        },
{
}

proof fn lemma_asked(
    composite: RecognitionModel,
    i: int,
    answers: Seq<RecognitionResultModel>,
    from: nat,
    used: nat,
    so_far: RecognitionResultModel,
)
    requires
        !composite.leaf(),
        forall|j: int|
            0 <= j < composite.parts().len() ==> (#[trigger] composite.parts()[j]).leaf(),
        0 <= i <= composite.parts().len(),
        used == from + i,
        used <= answers.len(),
        so_far.children == answers.subrange(from as int, used as int),
    ensures
        match composite.evaluated_parts(i, answers, used, so_far) {
            Evaluated::Done(result, end) => from <= end <= answers.len() && result.children
                == answers.subrange(from as int, end as int),
            Evaluated::Ask(leaf) => answers.len() - from < composite.parts().len() && leaf
                == composite.parts()[answers.len() - from],
        },
    decreases composite.parts().len() - i,
{
    if i < composite.parts().len() {
        let part = composite.parts()[i];
        assert(composite.part(i) == part && part.leaf());
        assert(part.evaluated(answers, used) == if used < answers.len() {
            Evaluated::Done(answers[used as int], used + 1)
        } else {
            Evaluated::Ask(part)
        });
        if used < answers.len() {
            let child = answers[used as int];
            let next = so_far.with(child, composite is And);
            assert(next.children =~= answers.subrange(from as int, used as int + 1));
            if child.matched() == (composite is And) {
                lemma_asked(composite, i + 1, answers, from, used + 1, next);
            }
        }
    }
}

/// The parts of a composite are looked at in their order, and their results are kept in it.
pub proof fn parts_are_looked_at_in_order(
    composite: RecognitionModel,
    answers: Seq<RecognitionResultModel>,
    from: nat,
)
    requires
        !composite.leaf(),
        forall|j: int|
            0 <= j < composite.parts().len() ==> (#[trigger] composite.parts()[j]).leaf(),
        from <= answers.len(),
    ensures
        match composite.evaluated(answers, from) {
            Evaluated::Done(result, end) => from <= end <= answers.len() && result.children
                == answers.subrange(from as int, end as int),
            Evaluated::Ask(leaf) => answers.len() - from < composite.parts().len() && leaf
                == composite.parts()[answers.len() - from],
        },
{
    assert(RecognitionResultModel::none().children =~= answers.subrange(from as int, from as int));
    lemma_asked(composite, 0, answers, from, from, RecognitionResultModel::none());
}

} // verus!
