//! Structured recognition on one immutable frame. Model-backed algorithms are opt-in.
use crate::automation::{Error, ErrorModel};
use crate::copy::Dup;
use crate::json::{Json, JsonModel};
use crate::text;
use crate::text::Text;
use vstd::prelude::*;

verus! {

/// A number of double precision, held by its bits: no arithmetic is done on it here.
#[derive(Debug, Clone, Copy, PartialEq, Eq, Structural)]
pub struct Real {
    pub bits: u64,
}

impl DeepView for Real {
    type V = Real;

    open spec fn deep_view(&self) -> Real {
        *self
    }
}

impl Dup for Real {
    fn dup(&self) -> (r: Self) {
        *self
    }
}

/// The bits of one.
pub const ONE: u64 = 0x3ff0_0000_0000_0000;

impl Real {
    /// The bits without the sign.
    pub open spec fn magnitude(self) -> u64 {
        (self.bits % 0x8000_0000_0000_0000) as u64
    }

    /// Neither infinite nor no number.
    pub open spec fn finite(self) -> bool {
        self.magnitude() < 0x7ff0_0000_0000_0000
    }

    /// Not below zero: without a sign, or a zero.
    pub open spec fn nonnegative(self) -> bool {
        self.bits < 0x8000_0000_0000_0000 || self.magnitude() == 0
    }

    /// From zero to one.
    pub open spec fn unit(self) -> bool {
        self.nonnegative() && self.magnitude() <= ONE
    }

    /// Whether the number is finite.
    pub fn is_finite(&self) -> (r: bool)
        ensures
            r == self.finite(),
    {
        self.bits % 0x8000_0000_0000_0000 < 0x7ff0_0000_0000_0000
    }

    /// Whether the number is from zero to one.
    pub fn is_unit(&self) -> (r: bool)
        ensures
            r == self.unit(),
    {
        let magnitude: u64 = self.bits % 0x8000_0000_0000_0000;
        (self.bits < 0x8000_0000_0000_0000 || magnitude == 0) && magnitude <= ONE
    }

    /// Whether the number is zero.
    pub fn is_zero(&self) -> (r: bool)
        ensures
            r == (self.magnitude() == 0),
    {
        self.bits % 0x8000_0000_0000_0000 == 0
    }

    /// Finite or infinite, but a number.
    pub open spec fn number(self) -> bool {
        self.magnitude() <= 0x7ff0_0000_0000_0000
    }

    /// Numbers are ordered as their bits without the sign are, taken below zero where there is
    /// a sign. The two zeros are the same.
    pub open spec fn rank(self) -> int {
        if self.bits < 0x8000_0000_0000_0000 {
            self.magnitude() as int
        } else {
            -(self.magnitude() as int)
        }
    }

    /// Whether this is less than a bound. What is no number is less than nothing, and nothing is
    /// less than that.
    pub open spec fn below(self, bound: Real) -> bool {
        self.number() && bound.number() && self.rank() < bound.rank()
    }

    /// Whether this is a bound or more than that. What is no number reaches nothing, and nothing
    /// reaches that.
    pub open spec fn reaches(self, bound: Real) -> bool {
        self.number() && bound.number() && self.rank() >= bound.rank()
    }

    fn is_number(&self) -> (r: bool)
        ensures
            r == self.number(),
    {
        self.bits % 0x8000_0000_0000_0000 <= 0x7ff0_0000_0000_0000
    }

    fn find_rank(&self) -> (r: i64)
        ensures
            r == self.rank(),
    {
        let magnitude: i64 = (self.bits % 0x8000_0000_0000_0000) as i64;
        if self.bits < 0x8000_0000_0000_0000 {
            magnitude
        } else {
            -magnitude
        }
    }

    /// Whether this is less than a bound.
    pub fn is_below(&self, bound: Real) -> (r: bool)
        ensures
            r == self.below(bound),
    {
        self.is_number() && bound.is_number() && self.find_rank() < bound.find_rank()
    }

    /// Whether this is a bound or more than that.
    pub fn does_reach(&self, bound: Real) -> (r: bool)
        ensures
            r == self.reaches(bound),
    {
        self.is_number() && bound.is_number() && self.find_rank() >= bound.find_rank()
    }
}

/// All geometry uses target client-area pixels, with an exclusive right and bottom edge.
#[derive(Debug, Clone, Copy, PartialEq, Eq, Structural)]
pub struct Rect {
    pub x: i32,
    pub y: i32,
    pub width: u32,
    pub height: u32,
}

impl DeepView for Rect {
    type V = Rect;

    open spec fn deep_view(&self) -> Rect {
        *self
    }
}

impl Dup for Rect {
    fn dup(&self) -> (r: Self) {
        *self
    }
}

impl Rect {
    /// Not empty, and within the coordinates that a frame can have.
    pub open spec fn sound(self) -> bool {
        &&& self.x >= 0
        &&& self.y >= 0
        &&& self.width > 0
        &&& self.height > 0
        &&& self.x + self.width <= i32::MAX
        &&& self.y + self.height <= i32::MAX
    }

    /// Accepts a rectangle that is not empty and within the coordinates of frames.
    pub fn validate(&self) -> (r: Result<(), Error>)
        ensures
            match r {
                Ok(()) => self.sound(),
                Err(error) => !self.sound() && error@ == ErrorModel::Invalid("invalid rectangle"@),
            },
    {
        if self.x < 0 || self.y < 0 || self.width == 0 || self.height == 0 || self.x as i64
            + self.width as i64 > i32::MAX as i64 || self.y as i64 + self.height as i64
            > i32::MAX as i64 {
            return Err(Error::Invalid("invalid rectangle".to_owned()));
        }
        Ok(())
    }

    /// The pixel of a rectangle that its middle falls on.
    pub open spec fn center_x(self) -> int {
        self.x + self.width / 2
    }

    pub open spec fn center_y(self) -> int {
        self.y + self.height / 2
    }
}

/// Packed RGB8 screenshot; construction validates the buffer dimensions.
#[derive(Debug)]
pub struct Frame {
    width: u32,
    height: u32,
    rgb: Vec<u8>,
}

#[verifier::ext_equal]
pub struct FrameModel {
    pub width: u32,
    pub height: u32,
    pub rgb: Seq<u8>,
}

impl View for Frame {
    type V = FrameModel;

    closed spec fn view(&self) -> FrameModel {
        FrameModel { width: self.width, height: self.height, rgb: self.rgb@ }
    }
}

impl FrameModel {
    /// Three bytes for each pixel, and an extent within the coordinates of rectangles.
    pub open spec fn sound(self) -> bool {
        &&& 0 < self.width <= i32::MAX
        &&& 0 < self.height <= i32::MAX
        &&& self.rgb.len() == self.width * self.height * 3
    }

    /// The whole frame.
    pub open spec fn whole(self) -> Rect {
        Rect { x: 0, y: 0, width: self.width, height: self.height }
    }

    /// Whether a rectangle lies in the frame.
    pub open spec fn holds(self, rect: Rect) -> bool {
        rect.sound() && rect.x + rect.width <= self.width && rect.y + rect.height <= self.height
    }

    /// The region that an optional rectangle names.
    pub open spec fn region(self, roi: Option<Rect>) -> Result<Rect, ErrorModel> {
        let rect = match roi {
            Some(rect) => rect,
            None => self.whole(),
        };
        if !rect.sound() {
            Err(ErrorModel::Invalid("invalid rectangle"@))
        } else if !self.holds(rect) {
            Err(ErrorModel::Invalid("ROI outside frame"@))
        } else {
            Ok(rect)
        }
    }

    /// The index of the first byte of a pixel.
    pub open spec fn offset(self, x: int, y: int) -> int {
        (y * self.width + x) * 3
    }

    /// Whether every channel of a pixel is within its bounds.
    pub open spec fn in_range(self, x: int, y: int, lower: [u8; 3], upper: [u8; 3]) -> bool {
        let at = self.offset(x, y);
        forall|c: int|
            0 <= c < 3 ==> lower@[c] <= #[trigger] self.rgb[at + c] && self.rgb[at + c] <= upper@[c]
    }

    /// How many of the first pixels of a row of a rectangle are within bounds.
    pub open spec fn row_count(
        self,
        rect: Rect,
        y: int,
        n: int,
        lower: [u8; 3],
        upper: [u8; 3],
    ) -> nat
        decreases n,
    {
        if n <= 0 {
            0
        } else {
            self.row_count(rect, y, n - 1, lower, upper) + (if self.in_range(
                rect.x + n - 1,
                y,
                lower,
                upper,
            ) {
                1nat
            } else {
                0nat
            })
        }
    }

    /// How many pixels of the first rows of a rectangle are within bounds.
    pub open spec fn color_count(
        self,
        rect: Rect,
        rows: int,
        lower: [u8; 3],
        upper: [u8; 3],
    ) -> nat
        decreases rows,
    {
        if rows <= 0 {
            0
        } else {
            self.color_count(rect, rows - 1, lower, upper) + self.row_count(
                rect,
                rect.y + rows - 1,
                rect.width as int,
                lower,
                upper,
            )
        }
    }
}

proof fn lemma_offset(width: int, height: int, x: int, y: int)
    requires
        0 <= x < width,
        0 <= y < height,
    ensures
        0 <= y * width + x < width * height,
        (y * width + x) * 3 + 2 < width * height * 3,
{
    assert(y * width + x < width * height) by (nonlinear_arith)
        requires
            0 <= x < width,
            0 <= y < height,
    ;
    assert(0 <= y * width) by (nonlinear_arith)
        requires
            0 <= y,
            0 < width,
    ;
}

impl Frame {
    /// A frame of the given extent.
    pub fn new(width: u32, height: u32, rgb: Vec<u8>) -> (r: Result<Frame, Error>)
        ensures
            match r {
                Ok(frame) => frame@ == (FrameModel { width, height, rgb: rgb@ })
                    && frame@.sound(),
                Err(error) => !(FrameModel { width, height, rgb: rgb@ }).sound() && error@
                    == ErrorModel::Invalid("invalid RGB frame"@),
            },
    {
        let length: usize = rgb.len();
        if width == 0 || height == 0 || width > i32::MAX as u32 || height > i32::MAX as u32 {
            return Err(Error::Invalid("invalid RGB frame".to_owned()));
        }
        proof {
            assert(width * height <= 0x7fff_ffff * 0x7fff_ffff) by (nonlinear_arith)
                requires
                    width <= 0x7fff_ffff,
                    height <= 0x7fff_ffff,
            ;
        }
        let size: u128 = (width as u64 * height as u64) as u128 * 3;
        if size != length as u128 {
            return Err(Error::Invalid("invalid RGB frame".to_owned()));
        }
        Ok(Frame { width, height, rgb })
    }

    pub fn width(&self) -> (r: u32)
        ensures
            r == self@.width,
    {
        self.width
    }

    pub fn height(&self) -> (r: u32)
        ensures
            r == self@.height,
    {
        self.height
    }

    pub fn rgb(&self) -> (r: &[u8])
        ensures
            r@ == self@.rgb,
    {
        self.rgb.as_slice()
    }

    /// The region that an optional rectangle names, if it lies in the frame.
    pub fn region(&self, roi: Option<Rect>) -> (r: Result<Rect, Error>)
        ensures
            match r {
                Ok(rect) => self@.region(roi) == Ok::<Rect, ErrorModel>(rect),
                Err(error) => self@.region(roi) == Err::<Rect, ErrorModel>(error@),
            },
    {
        let rect: Rect = match roi {
            Some(rect) => rect,
            None => Rect { x: 0, y: 0, width: self.width, height: self.height },
        };
        match rect.validate() {
            Ok(()) => {},
            Err(error) => {
                return Err(error);
            },
        }
        if rect.x as u64 + rect.width as u64 > self.width as u64 || rect.y as u64
            + rect.height as u64 > self.height as u64 {
            return Err(Error::Invalid("ROI outside frame".to_owned()));
        }
        Ok(rect)
    }

    /// How many pixels of a region are within bounds in every channel.
    pub fn count_color(&self, rect: Rect, lower: [u8; 3], upper: [u8; 3]) -> (r: u64)
        requires
            self@.sound(),
            self@.holds(rect),
        ensures
            r == self@.color_count(rect, rect.height as int, lower, upper),
            r <= rect.width * rect.height,
    {
        let ghost frame = self@;
        let mut count: u64 = 0;
        let mut row: u32 = 0;
        while row < rect.height
            invariant
                row <= rect.height,
                frame == self@,
                frame.sound(),
                frame.holds(rect),
                count == frame.color_count(rect, row as int, lower, upper),
                count <= rect.width * row,
            decreases rect.height - row,
        {
            let y: u32 = rect.y as u32 + row;
            let mut inside: u32 = 0;
            let mut n: u32 = 0;
            while n < rect.width
                invariant
                    n <= rect.width,
                    row < rect.height,
                    y == rect.y + row,
                    frame == self@,
                    frame.sound(),
                    frame.holds(rect),
                    inside <= n,
                    inside == frame.row_count(rect, y as int, n as int, lower, upper),
                decreases rect.width - n,
            {
                let x: u32 = rect.x as u32 + n;
                proof {
                    lemma_offset(
                        frame.width as int,
                        frame.height as int,
                        x as int,
                        y as int,
                    );
                    assert(frame.rgb.len() == self.rgb@.len());
                }
                let length: usize = self.rgb.len();
                let at: usize = ((y as u64 * self.width as u64 + x as u64) * 3) as usize;
                assert(at == frame.offset(x as int, y as int));
                let (a, b, c): (u8, u8, u8) = (self.rgb[at], self.rgb[at + 1], self.rgb[at + 2]);
                if lower[0] <= a && a <= upper[0] && lower[1] <= b && b <= upper[1] && lower[2] <= c
                    && c <= upper[2] {
                    assert(frame.in_range(x as int, y as int, lower, upper));
                    inside += 1;
                } else {
                    assert(!frame.in_range(x as int, y as int, lower, upper)) by {
                        assert(frame.rgb[at as int] == a && frame.rgb[at + 1] == b && frame.rgb[at
                            + 2] == c);
                        let base = frame.offset(x as int, y as int);
                        assert(frame.rgb[base + 0] == a);
                    }
                }
                n += 1;
            }
            proof {
                assert(rect.width * (row + 1) == rect.width * row + rect.width)
                    by (nonlinear_arith);
                assert(rect.width * (row + 1) <= 0x7fff_ffff * 0x7fff_ffff) by (nonlinear_arith)
                    requires
                        rect.width <= 0x7fff_ffff,
                        row + 1 <= 0x7fff_ffff,
                ;
            }
            count += inside as u64;
            row += 1;
        }
        count
    }
}

/// A region of interest: in pixels, or as fractions of the frame.
#[derive(Debug, Clone, Copy, PartialEq, Eq, Structural)]
pub enum Roi {
    Fixed { rect: Rect },
    Relative { x: Real, y: Real, width: Real, height: Real },
}

impl DeepView for Roi {
    type V = Roi;

    open spec fn deep_view(&self) -> Roi {
        *self
    }
}

impl Dup for Roi {
    fn dup(&self) -> (r: Self) {
        *self
    }
}

impl Roi {
    /// A rectangle that can lie in a frame, or fractions that can.
    pub open spec fn flaw(self) -> Option<ErrorModel> {
        match self {
            Roi::Fixed { rect } => if rect.sound() {
                None
            } else {
                Some(ErrorModel::Invalid("invalid rectangle"@))
            },
            Roi::Relative { x, y, width, height } => if x.unit() && y.unit() && width.unit()
                && height.unit() && width.magnitude() > 0 && height.magnitude() > 0 {
                None
            } else {
                Some(ErrorModel::Invalid("invalid relative region"@))
            },
        }
    }

    /// Accepts a region that can lie in a frame.
    pub fn validate(&self) -> (r: Result<(), Error>)
        ensures
            match r {
                Ok(()) => self.flaw() is None,
                Err(error) => self.flaw() == Some(error@),
            },
    {
        match self {
            Roi::Fixed { rect } => rect.validate(),
            Roi::Relative { x, y, width, height } => if x.is_unit() && y.is_unit()
                && width.is_unit() && height.is_unit() && !width.is_zero() && !height.is_zero() {
                Ok(())
            } else {
                Err(Error::Invalid("invalid relative region".to_owned()))
            },
        }
    }
}

/// The region that a recognition looks at. What fractions come to in pixels, rounded outward,
/// the host computes.
pub open spec fn region_of(frame: FrameModel, roi: Option<Roi>, pixels: Rect) -> Result<
    Rect,
    ErrorModel,
> {
    match roi {
        None => frame.region(None),
        Some(roi) => match roi.flaw() {
            Some(error) => Err(error),
            None => match roi {
                Roi::Fixed { rect } => frame.region(Some(rect)),
                Roi::Relative { .. } => frame.region(Some(pixels)),
            },
        },
    }
}

/// The region that a recognition looks at.
pub fn find_region(frame: &Frame, roi: Option<Roi>, pixels: Rect) -> (r: Result<Rect, Error>)
    ensures
        match r {
            Ok(rect) => region_of(frame@, roi, pixels) == Ok::<Rect, ErrorModel>(rect),
            Err(error) => region_of(frame@, roi, pixels) == Err::<Rect, ErrorModel>(error@),
        },
{
    match roi {
        None => frame.region(None),
        Some(roi) => match roi.validate() {
            Err(error) => Err(error),
            Ok(()) => match roi {
                Roi::Fixed { rect } => frame.region(Some(rect)),
                Roi::Relative { .. } => frame.region(Some(pixels)),
            },
        },
    }
}

/// What was found, and where.
#[derive(Debug)]
pub struct Detection {
    pub bounds: Option<Rect>,
    pub score: Option<Real>,
    pub text: Option<String>,
    pub label: Option<String>,
    pub detail: Json,
}

#[verifier::ext_equal]
pub struct DetectionModel {
    pub bounds: Option<Rect>,
    pub score: Option<Real>,
    pub text: Option<Text>,
    pub label: Option<Text>,
    pub detail: JsonModel,
}

impl View for Detection {
    type V = DetectionModel;

    open spec fn view(&self) -> DetectionModel {
        DetectionModel {
            bounds: self.bounds,
            score: self.score,
            text: self.text.deep_view(),
            label: self.label.deep_view(),
            detail: self.detail@,
        }
    }
}

impl DeepView for Detection {
    type V = DetectionModel;

    open spec fn deep_view(&self) -> DetectionModel {
        self@
    }
}

impl Dup for Detection {
    fn dup(&self) -> (r: Self) {
        Detection {
            bounds: self.bounds,
            score: self.score,
            text: self.text.dup(),
            label: self.label.dup(),
            detail: self.detail.dup(),
        }
    }
}

/// What a recognition found. No matches are a normal result, not an operational failure.
#[derive(Debug)]
pub struct RecognitionResult {
    pub matches: Vec<Detection>,
    /// Composite recognitions keep the evidence of their parts.
    pub children: Vec<RecognitionResult>,
}

#[verifier::ext_equal]
pub struct RecognitionResultModel {
    pub matches: Seq<DetectionModel>,
    pub children: Seq<RecognitionResultModel>,
}

/// What a result says.
pub open spec fn result_model(result: RecognitionResult) -> RecognitionResultModel
    decreases result,
{
    RecognitionResultModel {
        matches: result.matches.deep_view(),
        children: Seq::new(
            result.children@.len(),
            |i: int|
                if 0 <= i < result.children@.len() {
                    result_model(result.children@[i])
                } else {
                    RecognitionResultModel { matches: Seq::empty(), children: Seq::empty() }
                },
        ),
    }
}

impl View for RecognitionResult {
    type V = RecognitionResultModel;

    open spec fn view(&self) -> RecognitionResultModel {
        result_model(*self)
    }
}

impl DeepView for RecognitionResult {
    type V = RecognitionResultModel;

    open spec fn deep_view(&self) -> RecognitionResultModel {
        result_model(*self)
    }
}

impl RecognitionResultModel {
    /// Nothing was found.
    pub open spec fn none() -> Self {
        RecognitionResultModel { matches: Seq::empty(), children: Seq::empty() }
    }

    /// Something was found.
    pub open spec fn matched(self) -> bool {
        self.matches.len() > 0
    }

    /// A region was found, with a score.
    pub open spec fn region(rect: Rect, score: Real) -> Self {
        RecognitionResultModel {
            matches: seq![
                DetectionModel {
                    bounds: Some(rect),
                    score: Some(score),
                    text: None,
                    label: None,
                    detail: JsonModel::Null,
                },
            ],
            children: Seq::empty(),
        }
    }
}

impl RecognitionResult {
    /// Nothing was found.
    pub fn none() -> (r: Self)
        ensures
            r@ == RecognitionResultModel::none(),
    {
        let r = RecognitionResult { matches: Vec::new(), children: Vec::new() };
        assert(r@.matches =~= Seq::empty());
        assert(r@.children =~= Seq::empty());
        r
    }

    /// Whether something was found.
    pub fn matched(&self) -> (r: bool)
        ensures
            r == self@.matched(),
    {
        self.matches.len() > 0
    }

    /// A region was found, with a score.
    pub fn region(rect: Rect, score: Real) -> (r: Self)
        ensures
            r@ == RecognitionResultModel::region(rect, score),
    {
        let mut matches: Vec<Detection> = Vec::new();
        matches.push(
            Detection {
                bounds: Some(rect),
                score: Some(score),
                text: None,
                label: None,
                detail: Json::Null,
            },
        );
        let r = RecognitionResult { matches, children: Vec::new() };
        assert(r@.matches =~= RecognitionResultModel::region(rect, score).matches);
        assert(r@.children =~= Seq::empty());
        r
    }

    /// A copy.
    pub fn copy(&self) -> (r: Self)
        ensures
            r@ == self@,
        decreases self,
    {
        let mut children: Vec<RecognitionResult> = Vec::new();
        let mut i: usize = 0;
        while i < self.children.len()
            invariant
                i == children@.len(),
                i <= self.children@.len(),
                forall|j: int|
                    0 <= j < i ==> result_model(#[trigger] children@[j]) == result_model(
                        self.children@[j],
                    ),
            decreases self.children@.len() - i,
        {
            assert(decreases_to!(*self => self.children@[i as int]));
            children.push(self.children[i].copy());
            i += 1;
        }
        let r = RecognitionResult { matches: self.matches.dup(), children };
        assert(r@.children =~= self@.children);
        r
    }
}

impl Dup for RecognitionResult {
    fn dup(&self) -> (r: Self) {
        self.copy()
    }
}

/// Kinds of recognition that a host may install a backend for.
#[derive(Debug, Clone, Copy, PartialEq, Eq, Structural)]
pub enum Algorithm {
    TemplateMatch,
    FeatureMatch,
    Ocr,
    NeuralNetworkClassify,
    NeuralNetworkDetect,
}

impl DeepView for Algorithm {
    type V = Algorithm;

    open spec fn deep_view(&self) -> Algorithm {
        *self
    }
}

impl Dup for Algorithm {
    fn dup(&self) -> (r: Self) {
        *self
    }
}

impl Algorithm {
    /// The name of a kind in messages.
    pub open spec fn shown(self) -> Text {
        match self {
            Algorithm::TemplateMatch => "TemplateMatch"@,
            Algorithm::FeatureMatch => "FeatureMatch"@,
            Algorithm::Ocr => "Ocr"@,
            Algorithm::NeuralNetworkClassify => "NeuralNetworkClassify"@,
            Algorithm::NeuralNetworkDetect => "NeuralNetworkDetect"@,
        }
    }

    /// The name of a kind in messages.
    pub fn show(&self) -> (r: &'static str)
        ensures
            r@ == self.shown(),
    {
        match self {
            Algorithm::TemplateMatch => "TemplateMatch",
            Algorithm::FeatureMatch => "FeatureMatch",
            Algorithm::Ocr => "Ocr",
            Algorithm::NeuralNetworkClassify => "NeuralNetworkClassify",
            Algorithm::NeuralNetworkDetect => "NeuralNetworkDetect",
        }
    }
}

/// What to look for.
#[derive(Debug)]
pub enum Recognition {
    DirectHit { roi: Option<Roi> },
    ColorMatch { roi: Option<Roi>, lower: [u8; 3], upper: [u8; 3], min_ratio: Real },
    /// Parameters are owned and validated by the registered backend.
    Algorithm { algorithm: Algorithm, roi: Option<Roi>, parameters: Json },
    Custom { name: String, roi: Option<Roi>, parameters: Json },
    And { conditions: Vec<Recognition> },
    Or { conditions: Vec<Recognition> },
}

#[verifier::ext_equal]
pub enum RecognitionModel {
    DirectHit { roi: Option<Roi> },
    ColorMatch { roi: Option<Roi>, lower: [u8; 3], upper: [u8; 3], min_ratio: Real },
    Algorithm { algorithm: Algorithm, roi: Option<Roi>, parameters: JsonModel },
    Custom { name: Text, roi: Option<Roi>, parameters: JsonModel },
    And { conditions: Seq<RecognitionModel> },
    Or { conditions: Seq<RecognitionModel> },
}

/// What a recognition says.
pub open spec fn recognition_model(recognition: Recognition) -> RecognitionModel
    decreases recognition,
{
    match recognition {
        Recognition::DirectHit { roi } => RecognitionModel::DirectHit { roi },
        Recognition::ColorMatch { roi, lower, upper, min_ratio } => RecognitionModel::ColorMatch {
            roi,
            lower,
            upper,
            min_ratio,
        },
        Recognition::Algorithm { algorithm, roi, parameters } => RecognitionModel::Algorithm {
            algorithm,
            roi,
            parameters: parameters@,
        },
        Recognition::Custom { name, roi, parameters } => RecognitionModel::Custom {
            name: name@,
            roi,
            parameters: parameters@,
        },
        Recognition::And { conditions } => RecognitionModel::And {
            conditions: Seq::new(
                conditions@.len(),
                |i: int|
                    if 0 <= i < conditions@.len() {
                        recognition_model(conditions@[i])
                    } else {
                        RecognitionModel::DirectHit { roi: None }
                    },
            ),
        },
        Recognition::Or { conditions } => RecognitionModel::Or {
            conditions: Seq::new(
                conditions@.len(),
                |i: int|
                    if 0 <= i < conditions@.len() {
                        recognition_model(conditions@[i])
                    } else {
                        RecognitionModel::DirectHit { roi: None }
                    },
            ),
        },
    }
}

impl View for Recognition {
    type V = RecognitionModel;

    open spec fn view(&self) -> RecognitionModel {
        recognition_model(*self)
    }
}

impl DeepView for Recognition {
    type V = RecognitionModel;

    open spec fn deep_view(&self) -> RecognitionModel {
        recognition_model(*self)
    }
}

impl RecognitionModel {
    /// A recognition that is not made of others.
    pub open spec fn leaf(self) -> bool {
        !(self is And || self is Or)
    }

    /// The parts of a composite recognition.
    pub open spec fn parts(self) -> Seq<RecognitionModel> {
        match self {
            RecognitionModel::And { conditions } => conditions,
            RecognitionModel::Or { conditions } => conditions,
            _ => Seq::empty(),
        }
    }

    /// The region that a leaf looks at.
    pub open spec fn roi(self) -> Option<Roi> {
        match self {
            RecognitionModel::DirectHit { roi } => roi,
            RecognitionModel::ColorMatch { roi, .. } => roi,
            RecognitionModel::Algorithm { roi, .. } => roi,
            RecognitionModel::Custom { roi, .. } => roi,
            _ => None,
        }
    }

    /// What is wrong with a leaf itself, if anything is.
    pub open spec fn leaf_flaw(self) -> Option<ErrorModel> {
        let own = match self {
            RecognitionModel::ColorMatch { lower, upper, min_ratio, .. } => if !min_ratio.unit()
                || lower@[0] > upper@[0] || lower@[1] > upper@[1] || lower@[2] > upper@[2] {
                Some(ErrorModel::Invalid("invalid color range or ratio"@))
            } else {
                None
            },
            RecognitionModel::Custom { name, .. } => if text::blank(name) {
                Some(ErrorModel::Invalid("empty recognition name"@))
            } else {
                None
            },
            _ => None,
        };
        match own {
            Some(error) => Some(error),
            None => match self.roi() {
                Some(roi) => roi.flaw(),
                None => None,
            },
        }
    }

    /// What is wrong with a recognition, if anything is.
    pub open spec fn flaw(self) -> Option<ErrorModel>
        decreases self, self.parts().len() + 2,
    {
        if self.leaf() {
            self.leaf_flaw()
        } else if self.parts().len() == 0 {
            Some(ErrorModel::Invalid("empty composite recognition"@))
        } else {
            self.parts_flaw(0)
        }
    }

    /// What is wrong with the first part, from an index on, with which something is wrong.
    pub open spec fn parts_flaw(self, i: int) -> Option<ErrorModel>
        decreases self, self.parts().len() - i + 1,
    {
        if i < 0 || i >= self.parts().len() {
            None
        } else {
            match self.part(i).flaw() {
                Some(error) => Some(error),
                None => self.parts_flaw(i + 1),
            }
        }
    }

    /// The part at an index.
    pub open spec fn part(self, i: int) -> RecognitionModel
        recommends
            0 <= i < self.parts().len(),
    {
        match self {
            RecognitionModel::And { conditions } => conditions[i],
            RecognitionModel::Or { conditions } => conditions[i],
            _ => self,
        }
    }
}

impl Recognition {
    /// The region that a leaf looks at.
    pub fn roi(&self) -> (r: Option<Roi>)
        ensures
            r == self@.roi(),
    {
        match self {
            Recognition::DirectHit { roi } => *roi,
            Recognition::ColorMatch { roi, .. } => *roi,
            Recognition::Algorithm { roi, .. } => *roi,
            Recognition::Custom { roi, .. } => *roi,
            _ => None,
        }
    }

    /// Accepts a recognition with whose parts nothing is wrong.
    pub fn validate(&self) -> (r: Result<(), Error>)
        ensures
            match r {
                Ok(()) => self@.flaw() is None,
                Err(error) => self@.flaw() == Some(error@),
            },
        decreases self,
    {
        let ghost model = self@;
        match self {
            Recognition::And { conditions } | Recognition::Or { conditions } => {
                assert(model.parts().len() == conditions@.len());
                if conditions.len() == 0 {
                    return Err(Error::Invalid("empty composite recognition".to_owned()));
                }
                let mut i: usize = 0;
                while i < conditions.len()
                    invariant
                        i <= conditions@.len(),
                        *self is And || *self is Or,
                        *conditions == (match *self {
                            Recognition::And { conditions } => conditions,
                            Recognition::Or { conditions } => conditions,
                            _ => *conditions,
                        }),
                        model == self@,
                        model.parts().len() == conditions@.len(),
                        model.parts_flaw(0) == model.parts_flaw(i as int),
                    decreases conditions@.len() - i,
                {
                    assert(decreases_to!(*self => conditions@[i as int]));
                    assert(model.part(i as int) == conditions@[i as int]@);
                    match conditions[i].validate() {
                        Ok(()) => {},
                        Err(error) => {
                            return Err(error);
                        },
                    }
                    i += 1;
                }
                return Ok(());
            },
            Recognition::ColorMatch { lower, upper, min_ratio, .. } => {
                if !min_ratio.is_unit() || lower[0] > upper[0] || lower[1] > upper[1] || lower[2]
                    > upper[2] {
                    return Err(Error::Invalid("invalid color range or ratio".to_owned()));
                }
            },
            Recognition::Custom { name, .. } => {
                if text::is_blank(name.as_str()) {
                    return Err(Error::Invalid("empty recognition name".to_owned()));
                }
            },
            _ => {},
        }
        match self.roi() {
            Some(roi) => roi.validate(),
            None => Ok(()),
        }
    }
}

/// What is wrong with a detection in a frame, if anything is.
pub open spec fn detection_flaw(frame: FrameModel, detection: DetectionModel) -> Option<
    ErrorModel,
> {
    match detection.bounds {
        Some(bounds) if frame.region(Some(bounds)) is Err => Some(
            frame.region(Some(bounds))->Err_0,
        ),
        _ => match detection.score {
            Some(score) if !score.finite() => Some(
                ErrorModel::Backend("non-finite recognition score"@),
            ),
            _ => None,
        },
    }
}

/// What is wrong with the first detection, from an index on, with which something is wrong.
pub open spec fn matches_flaw(frame: FrameModel, matches: Seq<DetectionModel>, i: int) -> Option<
    ErrorModel,
>
    decreases matches.len() - i,
{
    if i < 0 || i >= matches.len() {
        None
    } else {
        match detection_flaw(frame, matches[i]) {
            Some(error) => Some(error),
            None => matches_flaw(frame, matches, i + 1),
        }
    }
}

/// Detections with which nothing is wrong lie in the frame.
pub proof fn flawless_detections_lie_in_the_frame(
    frame: FrameModel,
    matches: Seq<DetectionModel>,
    i: int,
)
    requires
        0 <= i,
        matches_flaw(frame, matches, i) is None,
    ensures
        forall|j: int|
            i <= j < matches.len() ==> detection_flaw(frame, #[trigger] matches[j]) is None,
        forall|j: int|
            i <= j < matches.len() ==> (#[trigger] matches[j].bounds matches Some(bounds)
                ==> frame.holds(bounds)),
    decreases matches.len() - i,
{
    if i < matches.len() {
        flawless_detections_lie_in_the_frame(frame, matches, i + 1);
        assert(detection_flaw(frame, matches[i]) is None);
    }
}

/// Accepts a result whose detections lie in the frame and have finite scores.
pub fn check_result(frame: &Frame, result: RecognitionResult) -> (r: Result<
    RecognitionResult,
    Error,
>)
    ensures
        match r {
            Ok(checked) => checked@ == result@ && matches_flaw(frame@, result@.matches, 0) is None,
            Err(error) => matches_flaw(frame@, result@.matches, 0) == Some(error@),
        },
{
    let mut i: usize = 0;
    while i < result.matches.len()
        invariant
            i <= result.matches@.len(),
            matches_flaw(frame@, result@.matches, 0) == matches_flaw(
                frame@,
                result@.matches,
                i as int,
            ),
        decreases result.matches@.len() - i,
    {
        let detection = &result.matches[i];
        assert(result@.matches[i as int] == detection@);
        match detection.bounds {
            Some(bounds) => {
                match frame.region(Some(bounds)) {
                    Ok(_) => {},
                    Err(error) => {
                        return Err(error);
                    },
                }
            },
            None => {},
        }
        match detection.score {
            Some(score) => {
                if !score.is_finite() {
                    return Err(Error::Backend("non-finite recognition score".to_owned()));
                }
            },
            None => {},
        }
        i += 1;
    }
    Ok(result)
}

/// The recognitions that a host has backends for.
#[derive(Debug)]
pub struct Recognizers {
    pub algorithms: Vec<Algorithm>,
    pub custom: Vec<String>,
}

#[verifier::ext_equal]
pub struct RecognizersModel {
    pub algorithms: Seq<Algorithm>,
    pub custom: Seq<Text>,
}

impl View for Recognizers {
    type V = RecognizersModel;

    open spec fn view(&self) -> RecognizersModel {
        RecognizersModel { algorithms: self.algorithms@, custom: self.custom.deep_view() }
    }
}

impl RecognizersModel {
    /// Whether every leaf has a backend that it needs.
    pub open spec fn supports(self, recognition: RecognitionModel) -> bool
        decreases recognition,
    {
        match recognition {
            RecognitionModel::Algorithm { algorithm, .. } => self.algorithms.contains(algorithm),
            RecognitionModel::Custom { name, .. } => self.custom.contains(name),
            RecognitionModel::And { conditions } => forall|i: int|
                0 <= i < conditions.len() ==> self.supports(#[trigger] conditions[i]),
            RecognitionModel::Or { conditions } => forall|i: int|
                0 <= i < conditions.len() ==> self.supports(#[trigger] conditions[i]),
            _ => true,
        }
    }
}

impl Recognizers {
    /// No backends.
    pub fn new() -> (r: Self)
        ensures
            r@ == (RecognizersModel { algorithms: Seq::empty(), custom: Seq::empty() }),
    {
        let r = Recognizers { algorithms: Vec::new(), custom: Vec::new() };
        assert(r@.custom =~= Seq::empty());
        r
    }

    fn has_algorithm(&self, kind: Algorithm) -> (r: bool)
        ensures
            r == self@.algorithms.contains(kind),
    {
        let mut i: usize = 0;
        while i < self.algorithms.len()
            invariant
                i <= self.algorithms@.len(),
                forall|j: int| 0 <= j < i ==> self.algorithms@[j] != kind,
            decreases self.algorithms@.len() - i,
        {
            if self.algorithms[i] == kind {
                assert(self.algorithms@[i as int] == kind);
                return true;
            }
            i += 1;
        }
        false
    }

    /// Adds a backend for a kind that has none yet.
    pub fn register_algorithm(&mut self, kind: Algorithm) -> (r: Result<(), Error>)
        ensures
            match r {
                Ok(()) => !old(self)@.algorithms.contains(kind) && final(self)@ == (
                RecognizersModel {
                    algorithms: old(self)@.algorithms.push(kind),
                    ..old(self)@
                }),
                Err(error) => old(self)@.algorithms.contains(kind) && final(self)@ == old(self)@
                    && error@ == ErrorModel::Invalid("duplicate algorithm: "@ + kind.shown()),
            },
    {
        if self.has_algorithm(kind) {
            return Err(Error::Invalid(text::cat2("duplicate algorithm: ", kind.show())));
        }
        self.algorithms.push(kind);
        Ok(())
    }

    /// Adds a backend under a name that is not blank and has none yet.
    pub fn register_custom(&mut self, name: String) -> (r: Result<(), Error>)
        ensures
            match r {
                Ok(()) => !text::blank(name@) && !old(self)@.custom.contains(name@)
                    && final(self)@ == (RecognizersModel {
                    custom: old(self)@.custom.push(name@),
                    ..old(self)@
                }),
                Err(error) => (text::blank(name@) || old(self)@.custom.contains(name@))
                    && final(self)@ == old(self)@ && error@ == ErrorModel::Invalid(
                    "duplicate or empty recognizer: "@ + name@,
                ),
            },
    {
        if text::is_blank(name.as_str()) || text::holds(&self.custom, name.as_str()) {
            return Err(
                Error::Invalid(text::cat2("duplicate or empty recognizer: ", name.as_str())),
            );
        }
        let ghost before = self.custom.deep_view();
        let ghost added = name@;
        self.custom.push(name);
        assert(self.custom.deep_view() =~= before.push(added));
        Ok(())
    }

    /// Whether every leaf has a backend that it needs.
    pub fn supports(&self, recognition: &Recognition) -> (r: bool)
        ensures
            r == self@.supports(recognition@),
        decreases recognition,
    {
        let ghost model = recognition@;
        match recognition {
            Recognition::Algorithm { algorithm, .. } => self.has_algorithm(*algorithm),
            Recognition::Custom { name, .. } => text::holds(&self.custom, name.as_str()),
            Recognition::And { conditions } | Recognition::Or { conditions } => {
                let mut i: usize = 0;
                while i < conditions.len()
                    invariant
                        i <= conditions@.len(),
                        *recognition is And || *recognition is Or,
                        *conditions == (match *recognition {
                            Recognition::And { conditions } => conditions,
                            Recognition::Or { conditions } => conditions,
                            _ => *conditions,
                        }),
                        model == recognition@,
                        model.parts().len() == conditions@.len(),
                        forall|j: int|
                            0 <= j < i ==> self@.supports(#[trigger] model.parts()[j]),
                    decreases conditions@.len() - i,
                {
                    assert(decreases_to!(*recognition => conditions@[i as int]));
                    assert(model.parts()[i as int] == conditions@[i as int]@);
                    if !self.supports(&conditions[i]) {
                        return false;
                    }
                    i += 1;
                }
                true
            },
            _ => true,
        }
    }
}

/// What is to be done for a leaf on a frame.
#[derive(Debug, Clone, Copy, PartialEq, Eq, Structural)]
pub enum Look {
    /// The region itself is found.
    Hit(Rect),
    /// This many pixels of the region are within bounds.
    Color { rect: Rect, count: u64 },
    /// The backend of the leaf looks at the region.
    Backend(Rect),
}

/// What is to be done for a leaf on a frame.
pub open spec fn look_of(
    leaf: RecognitionModel,
    frame: FrameModel,
    pixels: Rect,
    recognizers: RecognizersModel,
) -> Result<Look, ErrorModel> {
    match leaf {
        RecognitionModel::Algorithm { algorithm, .. } if !recognizers.algorithms.contains(
            algorithm,
        ) => Err(ErrorModel::Unsupported(algorithm.shown())),
        RecognitionModel::Custom { name, .. } if !recognizers.custom.contains(name) => Err(
            ErrorModel::Unsupported(name),
        ),
        _ => match region_of(frame, leaf.roi(), pixels) {
            Err(error) => Err(error),
            Ok(rect) => Ok(
                match leaf {
                    RecognitionModel::DirectHit { .. } => Look::Hit(rect),
                    RecognitionModel::ColorMatch { lower, upper, .. } => Look::Color {
                        rect,
                        count: frame.color_count(rect, rect.height as int, lower, upper) as u64,
                    },
                    _ => Look::Backend(rect),
                },
            ),
        },
    }
}

impl Recognition {
    /// Decides what is to be done for a leaf on a frame.
    pub fn look(&self, frame: &Frame, pixels: Rect, recognizers: &Recognizers) -> (r: Result<
        Look,
        Error,
    >)
        requires
            frame@.sound(),
            self@.leaf(),
        ensures
            match r {
                Ok(look) => look_of(self@, frame@, pixels, recognizers@) == Ok::<Look, ErrorModel>(
                    look,
                ),
                Err(error) => look_of(self@, frame@, pixels, recognizers@) == Err::<
                    Look,
                    ErrorModel,
                >(error@),
            },
    {
        match self {
            Recognition::Algorithm { algorithm, .. } => {
                if !recognizers.has_algorithm(*algorithm) {
                    return Err(Error::Unsupported(algorithm.show().to_owned()));
                }
            },
            Recognition::Custom { name, .. } => {
                if !text::holds(&recognizers.custom, name.as_str()) {
                    return Err(Error::Unsupported(name.dup()));
                }
            },
            _ => {},
        }
        let rect = match find_region(frame, self.roi(), pixels) {
            Ok(rect) => rect,
            Err(error) => {
                return Err(error);
            },
        };
        match self {
            Recognition::DirectHit { .. } => Ok(Look::Hit(rect)),
            Recognition::ColorMatch { lower, upper, .. } => Ok(
                Look::Color { rect, count: frame.count_color(rect, *lower, *upper) },
            ),
            _ => Ok(Look::Backend(rect)),
        }
    }
}

/// What a color match finds when the matching share of the region is known.
pub open spec fn color_found(rect: Rect, ratio: Real, min_ratio: Real) -> RecognitionResultModel {
    if ratio.reaches(min_ratio) {
        RecognitionResultModel::region(rect, ratio)
    } else {
        RecognitionResultModel::none()
    }
}

/// What a color match finds when the matching share of the region is known.
pub fn color_result(rect: Rect, ratio: Real, min_ratio: Real) -> (r: RecognitionResult)
    ensures
        r@ == color_found(rect, ratio, min_ratio),
{
    if ratio.does_reach(min_ratio) {
        RecognitionResult::region(rect, ratio)
    } else {
        RecognitionResult::none()
    }
}

impl RecognitionResultModel {
    /// The result of a composite after one more part.
    pub open spec fn with(self, child: RecognitionResultModel, all: bool) -> Self {
        RecognitionResultModel {
            matches: if all && !child.matched() {
                Seq::empty()
            } else if child.matched() && self.matches.len() == 0 {
                child.matches
            } else {
                self.matches
            },
            children: self.children.push(child),
        }
    }
}

/// How far a recognition can be evaluated with the answers for its leaves that are there.
#[verifier::ext_equal]
pub enum Evaluated {
    /// The answer for this leaf is missing.
    Ask(RecognitionModel),
    /// The result, and how many answers are used up.
    Done(RecognitionResultModel, nat),
}

impl RecognitionModel {
    /// Evaluates a recognition with answers for its leaves, in order, from an index on.
    /// A part is looked at only if the parts before it leave the result open.
    pub open spec fn evaluated(self, answers: Seq<RecognitionResultModel>, from: nat) -> Evaluated
        decreases self, self.parts().len() + 2,
    {
        if self.leaf() {
            if from < answers.len() {
                Evaluated::Done(answers[from as int], from + 1)
            } else {
                Evaluated::Ask(self)
            }
        } else {
            self.evaluated_parts(0, answers, from, RecognitionResultModel::none())
        }
    }

    /// Evaluates a composite from a part on, with what the parts before it gave.
    pub open spec fn evaluated_parts(
        self,
        i: int,
        answers: Seq<RecognitionResultModel>,
        from: nat,
        so_far: RecognitionResultModel,
    ) -> Evaluated
        decreases self, self.parts().len() - i + 1,
    {
        if i < 0 || i >= self.parts().len() {
            Evaluated::Done(so_far, from)
        } else {
            match self.part(i).evaluated(answers, from) {
                Evaluated::Ask(leaf) => Evaluated::Ask(leaf),
                Evaluated::Done(child, used) => {
                    let next = so_far.with(child, self is And);
                    if child.matched() == (self is And) {
                        self.evaluated_parts(i + 1, answers, used, next)
                    } else {
                        Evaluated::Done(next, used)
                    }
                },
            }
        }
    }
}

/// How far a recognition can be evaluated with the answers for its leaves that are there.
#[derive(Debug)]
pub enum Evaluation<'a> {
    Ask(&'a Recognition),
    Done(RecognitionResult, usize),
}

impl<'a> Evaluation<'a> {
    pub open spec fn model(self) -> Evaluated {
        match self {
            Evaluation::Ask(leaf) => Evaluated::Ask(leaf@),
            Evaluation::Done(result, used) => Evaluated::Done(result@, used as nat),
        }
    }
}

impl Recognition {
    /// Evaluates a recognition with answers for its leaves, in order, from an index on.
    pub fn evaluate<'a>(&'a self, answers: &Vec<RecognitionResult>, from: usize) -> (r:
        Evaluation<'a>)
        requires
            from <= answers@.len(),
        ensures
            r.model() == self@.evaluated(answers.deep_view(), from as nat),
            r matches Evaluation::Done(_, used) ==> from <= used <= answers@.len(),
            r matches Evaluation::Ask(leaf) ==> leaf@.leaf(),
        decreases self,
    {
        let ghost model = self@;
        let ghost all_answers = answers.deep_view();
        let all = match self {
            Recognition::And { .. } => true,
            _ => false,
        };
        match self {
            Recognition::And { conditions } | Recognition::Or { conditions } => {
                let mut used: usize = from;
                let mut result = RecognitionResult::none();
                let mut i: usize = 0;
                while i < conditions.len()
                    invariant
                        i <= conditions@.len(),
                        *self is And || *self is Or,
                        all == (*self is And),
                        all == (model is And),
                        !model.leaf(),
                        *conditions == (match *self {
                            Recognition::And { conditions } => conditions,
                            Recognition::Or { conditions } => conditions,
                            _ => *conditions,
                        }),
                        model == self@,
                        all_answers == answers.deep_view(),
                        model.parts().len() == conditions@.len(),
                        from <= used <= answers@.len(),
                        model.evaluated(all_answers, from as nat) == model.evaluated_parts(
                            i as int,
                            all_answers,
                            used as nat,
                            result@,
                        ),
                    decreases conditions@.len() - i,
                {
                    assert(decreases_to!(*self => conditions@[i as int]));
                    assert(model.part(i as int) == conditions@[i as int]@);
                    match conditions[i].evaluate(answers, used) {
                        Evaluation::Ask(leaf) => {
                            return Evaluation::Ask(leaf);
                        },
                        Evaluation::Done(child, count) => {
                            let ghost before = result@;
                            let ghost found = child@;
                            let matched = child.matched();
                            if matched && result.matches.len() == 0 {
                                result.matches = child.matches.dup();
                            }
                            if all && !matched {
                                result.matches = Vec::new();
                            }
                            let ghost children = result.children@;
                            result.children.push(child);
                            proof {
                                assert(result@.children =~= before.children.push(found));
                                assert(result@.matches =~= before.with(found, all).matches);
                            }
                            used = count;
                            if all != matched {
                                return Evaluation::Done(result, used);
                            }
                        },
                    }
                    i += 1;
                }
                Evaluation::Done(result, used)
            },
            _ => {
                assert(model.leaf());
                if from < answers.len() {
                    assert(all_answers[from as int] == answers@[from as int]@);
                    Evaluation::Done(answers[from].copy(), from + 1)
                } else {
                    Evaluation::Ask(self)
                }
            },
        }
    }
}

/// What holds of a composite whose first parts left its result open.
pub open spec fn open_result(composite: RecognitionModel, so_far: RecognitionResultModel) -> bool {
    &&& forall|j: int|
        0 <= j < so_far.children.len() ==> (#[trigger] so_far.children[j]).matched() == (composite
            is And)
    &&& so_far.matches == (if composite is And && so_far.children.len() > 0 {
        so_far.children[0].matches
    } else {
        Seq::empty()
    })
}

/// What holds of the evaluated result of a composite: a conjunction is found if every part
/// is, and has the matches of the first; an alternative if some part is, and has the matches
/// of the last one looked at, behind which no part was looked at.
pub open spec fn combined(composite: RecognitionModel, result: RecognitionResultModel) -> bool {
    let n = result.children.len() as int;
    &&& n <= composite.parts().len()
    &&& forall|j: int|
        0 <= j < n - 1 ==> (#[trigger] result.children[j]).matched() == (composite is And)
    &&& n < composite.parts().len() ==> n > 0 && result.children[n - 1].matched() != (composite
        is And)
    &&& result.matched() == (n > 0 && result.children[n - 1].matched())
    &&& result.matched() ==> result.matches == result.children[if composite is And {
        0
    } else {
        n - 1
    }].matches
}

proof fn lemma_combined(
    composite: RecognitionModel,
    i: int,
    answers: Seq<RecognitionResultModel>,
    from: nat,
    so_far: RecognitionResultModel,
)
    requires
        !composite.leaf(),
        0 <= i <= composite.parts().len(),
        so_far.children.len() == i,
        open_result(composite, so_far),
    ensures
        composite.evaluated_parts(i, answers, from, so_far) matches Evaluated::Done(result, _)
            ==> combined(composite, result),
    decreases composite.parts().len() - i,
{
    if i < composite.parts().len() {
        match composite.part(i).evaluated(answers, from) {
            Evaluated::Ask(_) => {},
            Evaluated::Done(child, used) => {
                let next = so_far.with(child, composite is And);
                assert(next.children[i] == child);
                assert(forall|j: int| 0 <= j < i ==> next.children[j] == so_far.children[j]);
                if child.matched() == (composite is And) {
                    if composite is And && i > 0 {
                        assert(so_far.children[0].matched());
                    }
                    lemma_combined(composite, i + 1, answers, used, next);
                }
            },
        }
    } else if i > 0 {
        assert(so_far.children[i - 1].matched() == (composite is And));
        if composite is And {
            assert(so_far.children[0].matched());
        }
    }
}

/// A conjunction is found if and only if every part is, an alternative if and only if some
/// part is; parts behind the one that settles the result are not looked at, and the results
/// of those that were are kept.
pub proof fn composites_combine_their_parts(
    composite: RecognitionModel,
    answers: Seq<RecognitionResultModel>,
    from: nat,
)
    requires
        !composite.leaf(),
    ensures
        composite.evaluated(answers, from) matches Evaluated::Done(result, _) ==> combined(
            composite,
            result,
        ),
{
    lemma_combined(composite, 0, answers, from, RecognitionResultModel::none());
}

proof fn lemma_parts_settled(
    composite: RecognitionModel,
    i: int,
    answers: Seq<RecognitionResultModel>,
    from: nat,
    so_far: RecognitionResultModel,
    answer: RecognitionResultModel,
)
    requires
        from <= answers.len(),
    ensures
        composite.evaluated_parts(i, answers, from, so_far) matches Evaluated::Done(_, used)
            ==> from <= used <= answers.len() && composite.evaluated_parts(
            i,
            answers.push(answer),
            from,
            so_far,
        ) == composite.evaluated_parts(i, answers, from, so_far),
        composite.evaluated_parts(i, answers, from, so_far) matches Evaluated::Ask(leaf)
            ==> leaf.leaf(),
    decreases composite, composite.parts().len() - i + 1,
{
    if 0 <= i < composite.parts().len() {
        assert(decreases_to!(composite => composite.part(i)));
        evaluations_are_settled_by_their_answers(composite.part(i), answers, from, answer);
        match composite.part(i).evaluated(answers, from) {
            Evaluated::Ask(_) => {},
            Evaluated::Done(child, used) => {
                if child.matched() == (composite is And) {
                    lemma_parts_settled(
                        composite,
                        i + 1,
                        answers,
                        used,
                        so_far.with(child, composite is And),
                        answer,
                    );
                }
            },
        }
    }
}

/// An evaluation that is done stays as it is when more answers come, and one that is not
/// asks about a leaf.
pub proof fn evaluations_are_settled_by_their_answers(
    recognition: RecognitionModel,
    answers: Seq<RecognitionResultModel>,
    from: nat,
    answer: RecognitionResultModel,
)
    requires
        from <= answers.len(),
    ensures
        recognition.evaluated(answers, from) matches Evaluated::Done(_, used) ==> from <= used
            <= answers.len() && recognition.evaluated(answers.push(answer), from)
            == recognition.evaluated(answers, from),
        recognition.evaluated(answers, from) matches Evaluated::Ask(leaf) ==> leaf.leaf(),
    decreases recognition, recognition.parts().len() + 2,
{
    if recognition.leaf() {
        if from < answers.len() {
            assert(answers.push(answer)[from as int] == answers[from as int]);
        }
    } else {
        lemma_parts_settled(
            recognition,
            0,
            answers,
            from,
            RecognitionResultModel::none(),
            answer,
        );
    }
}

proof fn lemma_flawless(frame: FrameModel, matches: Seq<DetectionModel>, i: int)
    requires
        0 <= i,
        forall|j: int|
            i <= j < matches.len() ==> detection_flaw(frame, #[trigger] matches[j]) is None,
    ensures
        matches_flaw(frame, matches, i) is None,
    decreases matches.len() - i,
{
    if i < matches.len() {
        lemma_flawless(frame, matches, i + 1);
    }
}

proof fn lemma_parts_stay_in_the_frame(
    frame: FrameModel,
    composite: RecognitionModel,
    i: int,
    answers: Seq<RecognitionResultModel>,
    from: nat,
    so_far: RecognitionResultModel,
)
    requires
        forall|j: int|
            0 <= j < answers.len() ==> matches_flaw(frame, (#[trigger] answers[j]).matches, 0)
                is None,
        matches_flaw(frame, so_far.matches, 0) is None,
    ensures
        composite.evaluated_parts(i, answers, from, so_far) matches Evaluated::Done(result, _)
            ==> matches_flaw(frame, result.matches, 0) is None,
    decreases composite, composite.parts().len() - i + 1,
{
    if 0 <= i < composite.parts().len() {
        assert(decreases_to!(composite => composite.part(i)));
        composites_stay_in_the_frame(frame, composite.part(i), answers, from);
        match composite.part(i).evaluated(answers, from) {
            Evaluated::Ask(_) => {},
            Evaluated::Done(child, used) => {
                let next = so_far.with(child, composite is And);
                if composite is And && !child.matched() {
                    lemma_flawless(frame, next.matches, 0);
                }
                if child.matched() == (composite is And) {
                    lemma_parts_stay_in_the_frame(
                        frame,
                        composite,
                        i + 1,
                        answers,
                        used,
                        next,
                    );
                }
            },
        }
    }
}

/// Where nothing is wrong with the answers for its leaves, nothing is wrong with the result
/// of a recognition.
pub proof fn composites_stay_in_the_frame(
    frame: FrameModel,
    recognition: RecognitionModel,
    answers: Seq<RecognitionResultModel>,
    from: nat,
)
    requires
        forall|j: int|
            0 <= j < answers.len() ==> matches_flaw(frame, (#[trigger] answers[j]).matches, 0)
                is None,
    ensures
        recognition.evaluated(answers, from) matches Evaluated::Done(result, _) ==> matches_flaw(
            frame,
            result.matches,
            0,
        ) is None,
    decreases recognition, recognition.parts().len() + 2,
{
    if !recognition.leaf() {
        lemma_flawless(frame, RecognitionResultModel::none().matches, 0);
        lemma_parts_stay_in_the_frame(
            frame,
            recognition,
            0,
            answers,
            from,
            RecognitionResultModel::none(),
        );
    }
}

} // verus!
