//! The tray icon: what is drawn, in which order.
//!
//! Lengths are in halves of a unit; the picture is one hundred units wide and high.

use vstd::prelude::*;

verus! {

/// The width and height of the bitmap, in pixels.
pub const CANVAS: u32 = 64;

/// The width and height of the picture.
pub const VIEW_BOX: u32 = 200;

/// How many lengths make a unit.
pub const LENGTHS_PER_UNIT: u32 = 2;

const LEFT_EYE_CX: u32 = 60;

const RIGHT_EYE_CX: u32 = 140;

const EYE_CY: u32 = 40;

const EYE_HALF: u32 = 13;

/// How thick the lines of closed eyes are.
pub const EYE_STROKE: u32 = 11;

#[derive(Clone, Copy, Debug, PartialEq, Eq)]
pub struct Point {
    pub x: u32,
    pub y: u32,
}

#[derive(Clone, Copy, Debug, PartialEq, Eq)]
pub struct Rect {
    pub x0: u32,
    pub y0: u32,
    pub x1: u32,
    pub y1: u32,
}

#[derive(Clone, Copy, Debug, PartialEq, Eq)]
pub struct Rgba {
    pub r: u8,
    pub g: u8,
    pub b: u8,
    pub a: u8,
}

/// A step of drawing: rectangles filled by the even-odd rule, or lines with round ends and joins.
#[derive(Debug, PartialEq, Eq)]
pub enum Layer {
    Fill { color: Rgba, rects: Vec<Rect> },
    Stroke { color: Rgba, width: u32, lines: Vec<Vec<Point>> },
}

pub enum LayerView {
    Fill { color: Rgba, rects: Seq<Rect> },
    Stroke { color: Rgba, width: u32, lines: Seq<Seq<Point>> },
}

impl View for Layer {
    type V = LayerView;

    open spec fn view(&self) -> LayerView {
        match *self {
            Layer::Fill { color, rects } => LayerView::Fill { color, rects: rects@ },
            Layer::Stroke { color, width, lines } => LayerView::Stroke {
                color,
                width,
                lines: line_views(lines@),
            },
        }
    }
}

pub open spec fn line_views(lines: Seq<Vec<Point>>) -> Seq<Seq<Point>> {
    lines.map_values(|l: Vec<Point>| l@)
}

pub open spec fn layer_views(layers: Seq<Layer>) -> Seq<LayerView> {
    layers.map_values(|l: Layer| l@)
}

pub open spec fn rect(x0: u32, y0: u32, x1: u32, y1: u32) -> Rect {
    Rect { x0, y0, x1, y1 }
}

pub open spec fn point(x: u32, y: u32) -> Point {
    Point { x, y }
}

/// The mascot: a band for the top of the head, a wider one for the ears, one for the body, and
/// four legs.
pub open spec fn mascot() -> Seq<Rect> {
    seq![
        rect(18, 20, 182, 56),
        rect(2, 56, 198, 96),
        rect(18, 96, 182, 138),
        rect(18, 138, 36, 180),
        rect(54, 138, 72, 180),
        rect(128, 138, 146, 180),
        rect(164, 138, 182, 180),
    ]
}

/// Open eyes: two squares.
pub open spec fn open_eyes() -> Seq<Rect> {
    seq![rect(47, 27, 73, 53), rect(127, 27, 153, 53)]
}

/// Closed eyes: a chevron that points right, and one that points left.
pub open spec fn closed_eyes() -> Seq<Seq<Point>> {
    seq![
        seq![point(47, 27), point(73, 40), point(47, 53)],
        seq![point(153, 27), point(127, 40), point(153, 53)],
    ]
}

pub open spec fn mascot_orange() -> Rgba {
    Rgba { r: 0xd9, g: 0x77, b: 0x57, a: 0xff }
}

pub open spec fn eye_black() -> Rgba {
    Rgba { r: 0, g: 0, b: 0, a: 0xff }
}

/// The whole picture: the mascot, then the eyes on top of it.
pub open spec fn layers(eyes_open: bool) -> Seq<LayerView> {
    seq![
        LayerView::Fill { color: mascot_orange(), rects: mascot() },
        if eyes_open {
            LayerView::Fill { color: eye_black(), rects: open_eyes() }
        } else {
            LayerView::Stroke { color: eye_black(), width: EYE_STROKE, lines: closed_eyes() }
        },
    ]
}

fn new_rect(x0: u32, y0: u32, x1: u32, y1: u32) -> (r: Rect)
    ensures
        r == rect(x0, y0, x1, y1),
{
    Rect { x0, y0, x1, y1 }
}

fn new_point(x: u32, y: u32) -> (r: Point)
    ensures
        r == point(x, y),
{
    Point { x, y }
}

/// The rectangles of the mascot.
pub fn mascot_rects() -> (r: Vec<Rect>)
    ensures
        r@ == mascot(),
{
    let r = vec![
        new_rect(18, 20, 182, 56),
        new_rect(2, 56, 198, 96),
        new_rect(18, 96, 182, 138),
        new_rect(18, 138, 36, 180),
        new_rect(54, 138, 72, 180),
        new_rect(128, 138, 146, 180),
        new_rect(164, 138, 182, 180),
    ];
    assert(r@ == mascot());
    r
}

/// The squares of the open eyes.
pub fn eyes_open_rects() -> (r: Vec<Rect>)
    ensures
        r@ == open_eyes(),
{
    let mut r: Vec<Rect> = Vec::new();
    let centers: [u32; 2] = [LEFT_EYE_CX, RIGHT_EYE_CX];
    let mut i: usize = 0;
    while i < 2
        invariant
            i <= 2,
            centers@ == seq![LEFT_EYE_CX, RIGHT_EYE_CX],
            r@ == open_eyes().take(i as int),
        decreases 2 - i,
    {
        let cx: u32 = centers[i];
        r.push(
            new_rect(cx - EYE_HALF, EYE_CY - EYE_HALF, cx + EYE_HALF, EYE_CY + EYE_HALF),
        );
        i = i + 1;
    }
    assert(r@ == open_eyes());
    r
}

/// An eye closed to a chevron that is open at `open_x` and comes together at `tip_x`.
fn chevron(open_x: u32, tip_x: u32) -> (r: Vec<Point>)
    ensures
        r@ == seq![point(open_x, 27), point(tip_x, 40), point(open_x, 53)],
{
    let top: u32 = EYE_CY - EYE_HALF;
    let bottom: u32 = EYE_CY + EYE_HALF;
    let r = vec![new_point(open_x, top), new_point(tip_x, EYE_CY), new_point(open_x, bottom)];
    assert(r@ == seq![point(open_x, 27), point(tip_x, 40), point(open_x, 53)]);
    r
}

/// The lines of the closed eyes.
pub fn eyes_closed_lines() -> (r: Vec<Vec<Point>>)
    ensures
        line_views(r@) == closed_eyes(),
{
    let left = chevron(LEFT_EYE_CX - EYE_HALF, LEFT_EYE_CX + EYE_HALF);
    let right = chevron(RIGHT_EYE_CX + EYE_HALF, RIGHT_EYE_CX - EYE_HALF);
    assert(left@ == closed_eyes()[0]);
    assert(right@ == closed_eyes()[1]);
    let r = vec![left, right];
    assert(line_views(r@) == closed_eyes());
    r
}

/// The color of the mascot.
pub fn mascot_color() -> (r: Rgba)
    ensures
        r == mascot_orange(),
{
    Rgba { r: 0xd9, g: 0x77, b: 0x57, a: 0xff }
}

/// The color of the eyes.
pub fn eye_color() -> (r: Rgba)
    ensures
        r == eye_black(),
{
    Rgba { r: 0, g: 0, b: 0, a: 0xff }
}

/// What to draw, in order.
pub fn icon_layers(eyes_open: bool) -> (r: Vec<Layer>)
    ensures
        layer_views(r@) == layers(eyes_open),
{
    let mut r: Vec<Layer> = Vec::new();
    r.push(Layer::Fill { color: mascot_color(), rects: mascot_rects() });
    if eyes_open {
        r.push(Layer::Fill { color: eye_color(), rects: eyes_open_rects() });
    } else {
        r.push(
            Layer::Stroke {
                color: eye_color(),
                width: EYE_STROKE,
                lines: eyes_closed_lines(),
            },
        );
    }
    assert(layer_views(r@) == layers(eyes_open));
    r
}

/// Two rectangles share at most an edge.
pub open spec fn are_apart(a: Rect, b: Rect) -> bool {
    a.x1 <= b.x0 || b.x1 <= a.x0 || a.y1 <= b.y0 || b.y1 <= a.y0
}

/// `inner` lies in `outer`.
pub open spec fn lies_in(inner: Rect, outer: Rect) -> bool {
    outer.x0 <= inner.x0 && inner.x1 <= outer.x1 && outer.y0 <= inner.y0 && inner.y1 <= outer.y1
}

/// `r` is the smallest rectangle around the points of `line`.
pub open spec fn bounds(line: Seq<Point>, r: Rect) -> bool {
    &&& forall|i: int|
        0 <= i < line.len() ==> r.x0 <= (#[trigger] line[i]).x <= r.x1 && r.y0 <= line[i].y <= r.y1
    &&& exists|i: int| 0 <= i < line.len() && (#[trigger] line[i]).x == r.x0
    &&& exists|i: int| 0 <= i < line.len() && (#[trigger] line[i]).x == r.x1
    &&& exists|i: int| 0 <= i < line.len() && (#[trigger] line[i]).y == r.y0
    &&& exists|i: int| 0 <= i < line.len() && (#[trigger] line[i]).y == r.y1
}

/// A blink changes the shape of the eyes and not their size: closed, each reaches exactly as far
/// as open.
pub proof fn blinking_keeps_the_eyes_in_place()
    ensures
        closed_eyes().len() == open_eyes().len(),
        forall|i: int|
            0 <= i < open_eyes().len() ==> bounds(
                #[trigger] closed_eyes()[i],
                #[trigger] open_eyes()[i],
            ),
{
    assert forall|i: int| 0 <= i < open_eyes().len() implies bounds(
        #[trigger] closed_eyes()[i],
        #[trigger] open_eyes()[i],
    ) by {
        let line = closed_eyes()[i];
        let r = open_eyes()[i];
        assert(line.len() == 3);
        assert(line[0].y == r.y0);
        assert(line[2].y == r.y1);
        if i == 0 {
            assert(line[0].x == r.x0);
            assert(line[1].x == r.x1);
        } else {
            assert(line[0].x == r.x1);
            assert(line[1].x == r.x0);
        }
    }
}

/// The parts of the mascot share no more than edges, so the even-odd rule leaves no hole in it.
pub proof fn the_mascot_has_no_holes()
    ensures
        forall|i: int, j: int|
            0 <= i < j < mascot().len() ==> are_apart(
                #[trigger] mascot()[i],
                #[trigger] mascot()[j],
            ),
{
}

/// Everything lies in the picture, and the eyes lie in the top of the head.
pub proof fn everything_lies_in_the_picture()
    ensures
        forall|i: int|
            0 <= i < mascot().len() ==> lies_in(
                #[trigger] mascot()[i],
                rect(0, 0, VIEW_BOX, VIEW_BOX),
            ),
        forall|i: int|
            0 <= i < open_eyes().len() ==> lies_in(#[trigger] open_eyes()[i], mascot()[0]),
{
}

} // verus!
