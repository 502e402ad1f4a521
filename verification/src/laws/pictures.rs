//! What the tray icon looks like.

use vstd::prelude::*;

use crate::icon::{
    closed_eyes, layers, mascot, open_eyes, LayerView, Rect, Rgba, CANVAS, EYE_STROKE,
    LENGTHS_PER_UNIT, VIEW_BOX,
};

verus! {

/// The point lies in one of the rectangles; of the edges, the left and the upper one count.
pub open spec fn covers(rects: Seq<Rect>, x: int, y: int) -> bool {
    exists|i: int|
        0 <= i < rects.len() && (#[trigger] rects[i]).x0 <= x < rects[i].x1 && rects[i].y0 <= y
            < rects[i].y1
}

/// The mascot, point by point: a head, wider at the ears, a body, and below it four legs of one
/// size, two on each side.
pub proof fn the_mascot_has_head_ears_and_legs(x: int, y: int)
    ensures
        covers(mascot(), x, y) <==> {
            ||| 20 <= y < 138 && 18 <= x < 182
            ||| 56 <= y < 96 && 2 <= x < 198
            ||| 138 <= y < 180 && (18 <= x < 36 || 54 <= x < 72 || 128 <= x < 146 || 164 <= x < 182)
        },
{
    let m = mascot();
    assert(m[0].x0 == 18 && m[0].y0 == 20 && m[0].x1 == 182 && m[0].y1 == 56);
    assert(m[1].x0 == 2 && m[1].y0 == 56 && m[1].x1 == 198 && m[1].y1 == 96);
    assert(m[2].x0 == 18 && m[2].y0 == 96 && m[2].x1 == 182 && m[2].y1 == 138);
    assert(m[3].x0 == 18 && m[3].x1 == 36);
    assert(m[4].x0 == 54 && m[4].x1 == 72);
    assert(m[5].x0 == 128 && m[5].x1 == 146);
    assert(m[6].x0 == 164 && m[6].x1 == 182);
}

/// The mascot is the same seen in a mirror.
pub proof fn the_mascot_is_symmetric(x: int, y: int)
    ensures
        covers(mascot(), x, y) <==> covers(mascot(), 199 - x, y),
{
    the_mascot_has_head_ears_and_legs(x, y);
    the_mascot_has_head_ears_and_legs(199 - x, y);
}

/// The eyes are two squares when they are open, and chevrons that point at each other when they
/// are closed.
pub proof fn the_eyes_are_squares_or_chevrons()
    ensures
        open_eyes().len() == 2,
        open_eyes()[0] == (Rect { x0: 47, y0: 27, x1: 73, y1: 53 }),
        open_eyes()[1] == (Rect { x0: 127, y0: 27, x1: 153, y1: 53 }),
        closed_eyes().len() == 2,
        forall|i: int| 0 <= i < 2 ==> (#[trigger] closed_eyes()[i]).len() == 3,
        closed_eyes()[0][0].x == 47 && closed_eyes()[0][0].y == 27,
        closed_eyes()[0][1].x == 73 && closed_eyes()[0][1].y == 40,
        closed_eyes()[0][2].x == 47 && closed_eyes()[0][2].y == 53,
        closed_eyes()[1][0].x == 153 && closed_eyes()[1][0].y == 27,
        closed_eyes()[1][1].x == 127 && closed_eyes()[1][1].y == 40,
        closed_eyes()[1][2].x == 153 && closed_eyes()[1][2].y == 53,
{
}

/// The icon is the mascot in orange with black eyes over it; a blink changes the eyes alone.
pub proof fn the_eyes_are_drawn_over_the_mascot(eyes_open: bool)
    ensures
        layers(eyes_open).len() == 2,
        layers(eyes_open)[0] == (LayerView::Fill {
            color: Rgba { r: 0xd9, g: 0x77, b: 0x57, a: 0xff },
            rects: mascot(),
        }),
        layers(true)[1] == (LayerView::Fill {
            color: Rgba { r: 0, g: 0, b: 0, a: 0xff },
            rects: open_eyes(),
        }),
        layers(false)[1] == (LayerView::Stroke {
            color: Rgba { r: 0, g: 0, b: 0, a: 0xff },
            width: 11,
            lines: closed_eyes(),
        }),
        CANVAS == 64,
        EYE_STROKE == 11,
        VIEW_BOX == 100 * LENGTHS_PER_UNIT,
{
}

} // verus!
