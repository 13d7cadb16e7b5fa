//! Where the surfaces of the Wayland client appear on the screen.
//!
//! A surface is placed relative to the client area and clipped to its rows, so
//! that decorations which a client draws above its window stay hidden and
//! nothing covers the panel's own bars.

use crate::touch::{APPS_TAB, CLIENT_Y_END, CLIENT_Y_START};
use vstd::prelude::*;

verus! {

/// A texture imported from a client surface, with its size and its offset in
/// the client area. `T` is the renderer's texture.
#[derive(Debug, PartialEq)]
pub struct ClientTexture<T> {
    pub texture: T,
    pub width: i32,
    pub height: i32,
    pub x: i32,
    pub y: i32,
}

/// The rows of a texture that are drawn, and where on the screen they go.
#[derive(Clone, Copy, Debug, PartialEq, Eq, Structural)]
pub struct LayerRect {
    /// The first row of the texture that is drawn.
    pub src_y: i32,
    /// The left edge on the screen.
    pub dst_x: i32,
    /// The top edge on the screen.
    pub dst_y: i32,
    /// The width, the same in the texture and on the screen.
    pub width: i32,
    /// The number of rows drawn, the same in the texture and on the screen.
    pub height: i32,
}

/// The larger of two numbers.
pub open spec fn larger(a: int, b: int) -> int {
    if a >= b {
        a
    } else {
        b
    }
}

/// The smaller of two numbers.
pub open spec fn smaller(a: int, b: int) -> int {
    if a <= b {
        a
    } else {
        b
    }
}

/// The screen row that the top of a surface at offset `y` lies on.
pub open spec fn surface_top(y: int) -> int {
    CLIENT_Y_START + y
}

/// The first screen row that a surface at offset `y` may be drawn to.
pub open spec fn visible_top(y: int) -> int {
    larger(surface_top(y), CLIENT_Y_START as int)
}

/// The row after the last one that a surface at offset `y` and of height
/// `height` may be drawn to.
pub open spec fn visible_bottom(y: int, height: int) -> int {
    smaller(surface_top(y) + height, CLIENT_Y_END as int)
}

/// The part of a surface that lies in the client area, if any does.
pub open spec fn visible_part(x: i32, y: i32, width: i32, height: i32) -> Option<LayerRect> {
    let top = visible_top(y as int);
    let bottom = visible_bottom(y as int, height as int);
    if top < bottom {
        Some(
            LayerRect {
                src_y: (top - surface_top(y as int)) as i32,
                dst_x: x,
                dst_y: top as i32,
                width,
                height: (bottom - top) as i32,
            },
        )
    } else {
        None
    }
}

/// Whether a surface lies where its edges can be computed in 32 bits.
pub open spec fn placeable(y: int, height: int) -> bool {
    let top = CLIENT_Y_START + y;
    let bottom = top + height;
    let clip_top = larger(CLIENT_Y_START - top, 0);
    let clip_bottom = larger(bottom - CLIENT_Y_END, 0);
    &&& top <= i32::MAX
    &&& CLIENT_Y_START - top <= i32::MAX
    &&& i32::MIN <= bottom <= i32::MAX
    &&& i32::MIN <= bottom - CLIENT_Y_END
    &&& i32::MIN <= height - clip_top
    &&& i32::MIN <= height - clip_top - clip_bottom
}

/// Tells whether a surface lies where its edges can be computed in 32 bits.
pub fn is_placeable(y: i32, height: i32) -> (yes: bool)
    ensures
        yes == placeable(y as int, height as int),
{
    let top: i64 = CLIENT_Y_START as i64 + y as i64;
    let bottom: i64 = top + height as i64;
    let above: i64 = CLIENT_Y_START as i64 - top;
    let below: i64 = bottom - CLIENT_Y_END as i64;
    let clip_top: i64 = if above >= 0 {
        above
    } else {
        0
    };
    let clip_bottom: i64 = if below >= 0 {
        below
    } else {
        0
    };
    let low: i64 = i32::MIN as i64;
    let high: i64 = i32::MAX as i64;
    top <= high && above <= high && low <= bottom && bottom <= high && low <= below && low
        <= height as i64 - clip_top && low <= height as i64 - clip_top - clip_bottom
}

/// Clips a surface to the client area.
pub fn clip_layer(x: i32, y: i32, width: i32, height: i32) -> (rect: Option<LayerRect>)
    requires
        placeable(y as int, height as int),
    ensures
        rect == visible_part(x, y, width, height),
{
    let top: i32 = CLIENT_Y_START + y;
    let bottom: i32 = top + height;
    let above: i32 = CLIENT_Y_START - top;
    let below: i32 = bottom - CLIENT_Y_END;
    let clip_top: i32 = if above >= 0 {
        above
    } else {
        0
    };
    let clip_bottom: i32 = if below >= 0 {
        below
    } else {
        0
    };
    let visible: i32 = height - clip_top - clip_bottom;
    if visible <= 0 {
        None
    } else {
        Some(
            LayerRect { src_y: clip_top, dst_x: x, dst_y: top + clip_top, width, height: visible },
        )
    }
}

/// What is drawn of a surface lies in the client area on the screen and inside
/// the surface; rows keep their place relative to the surface's top.
pub proof fn drawn_part_stays_in_the_client_area(x: i32, y: i32, width: i32, height: i32)
    requires
        placeable(y as int, height as int),
    ensures
        visible_part(x, y, width, height) matches Some(r) ==> {
            &&& CLIENT_Y_START <= r.dst_y
            &&& r.dst_y + r.height <= CLIENT_Y_END
            &&& 0 < r.height
            &&& 0 <= r.src_y
            &&& r.src_y + r.height <= height
            &&& r.dst_y - r.src_y == CLIENT_Y_START + y
            &&& r.dst_x == x
            &&& r.width == width
        },
{
}

/// Every row of a surface that lies in the client area is drawn: row `row` of
/// the surface is among those drawn exactly when it exists and its place on the
/// screen is in the client area.
pub proof fn every_row_in_the_client_area_is_drawn(
    x: i32,
    y: i32,
    width: i32,
    height: i32,
    row: int,
)
    requires
        placeable(y as int, height as int),
    ensures
        (0 <= row < height && CLIENT_Y_START <= CLIENT_Y_START + y + row < CLIENT_Y_END) == (
        visible_part(x, y, width, height) matches Some(r) && r.src_y <= row < r.src_y + r.height),
{
}

/// One draw call: which of the textures, and which part of it.
#[derive(Clone, Copy, Debug, PartialEq, Eq, Structural)]
pub struct DrawOp {
    pub index: usize,
    pub rect: LayerRect,
}

/// The draw calls for `textures`: the visible part of each, in order.
pub open spec fn draw_ops<T>(textures: Seq<ClientTexture<T>>) -> Seq<DrawOp>
    decreases textures.len(),
{
    if textures.len() == 0 {
        seq![]
    } else {
        let before = draw_ops(textures.drop_last());
        let t = textures.last();
        match visible_part(t.x, t.y, t.width, t.height) {
            Some(rect) => before.push(DrawOp { index: (textures.len() - 1) as usize, rect }),
            None => before,
        }
    }
}

/// The draw calls for a frame on tab `active_tab`: none but on the Apps tab.
pub open spec fn frame_draw_ops<T>(textures: Seq<ClientTexture<T>>, active_tab: i32) -> Seq<DrawOp> {
    if active_tab == APPS_TAB {
        draw_ops(textures)
    } else {
        seq![]
    }
}

/// Plans the draw calls for the client's textures.
pub fn plan_draws<T>(textures: &Vec<ClientTexture<T>>, active_tab: i32) -> (ops: Vec<DrawOp>)
    requires
        active_tab == APPS_TAB ==> forall|i: int|
            0 <= i < textures@.len() ==> placeable(
                (#[trigger] textures@[i]).y as int,
                textures@[i].height as int,
            ),
    ensures
        ops@ == frame_draw_ops(textures@, active_tab),
{
    let mut ops: Vec<DrawOp> = Vec::new();
    if active_tab != APPS_TAB {
        return ops;
    }
    let mut i: usize = 0;
    while i < textures.len()
        invariant
            i <= textures@.len(),
            forall|k: int|
                0 <= k < textures@.len() ==> placeable(
                    (#[trigger] textures@[k]).y as int,
                    textures@[k].height as int,
                ),
            ops@ == draw_ops(textures@.take(i as int)),
        decreases textures@.len() - i,
    {
        proof {
            assert(textures@.take(i + 1).drop_last() == textures@.take(i as int));
            assert(textures@.take(i + 1).last() == textures@[i as int]);
        }
        let t = &textures[i];
        match clip_layer(t.x, t.y, t.width, t.height) {
            Some(rect) => {
                ops.push(DrawOp { index: i, rect });
            },
            None => {},
        }
        i += 1;
    }
    proof {
        assert(textures@.take(textures@.len() as int) == textures@);
    }
    ops
}

/// Every draw call names a texture that is there and draws its visible part;
/// every texture with a visible part is drawn once; the order of the textures
/// is kept.
pub proof fn draws_are_the_visible_textures<T>(textures: Seq<ClientTexture<T>>)
    requires
        textures.len() <= usize::MAX,
    ensures
        forall|k: int|
            0 <= k < draw_ops(textures).len() ==> {
                let op = #[trigger] draw_ops(textures)[k];
                let t = textures[op.index as int];
                &&& op.index < textures.len()
                &&& visible_part(t.x, t.y, t.width, t.height) == Some(op.rect)
            },
        forall|j: int, k: int|
            0 <= j < k < draw_ops(textures).len() ==> (#[trigger] draw_ops(textures)[j]).index < (
            #[trigger] draw_ops(textures)[k]).index,
        forall|i: int|
            0 <= i < textures.len() && visible_part(
                (#[trigger] textures[i]).x,
                textures[i].y,
                textures[i].width,
                textures[i].height,
            ) is Some ==> exists|k: int|
                0 <= k < draw_ops(textures).len() && (#[trigger] draw_ops(textures)[k]).index == i,
    decreases textures.len(),
{
    if textures.len() == 0 {
        assert(draw_ops(textures) == Seq::<DrawOp>::empty());
    } else {
        let prefix = textures.drop_last();
        draws_are_the_visible_textures(prefix);
        let before = draw_ops(prefix);
        let all = draw_ops(textures);
        let last = textures.last();
        let part = visible_part(last.x, last.y, last.width, last.height);
        assert forall|k: int| 0 <= k < all.len() implies {
            let op = #[trigger] all[k];
            let t = textures[op.index as int];
            &&& op.index < textures.len()
            &&& visible_part(t.x, t.y, t.width, t.height) == Some(op.rect)
        } by {
            if k < before.len() {
                assert(all[k] == before[k]);
                assert(prefix[before[k].index as int] == textures[before[k].index as int]);
            }
        }
        assert forall|j: int, k: int| 0 <= j < k < all.len() implies (#[trigger] all[j]).index < (
        #[trigger] all[k]).index by {
            assert(all[j] == before[j]);
            if k < before.len() {
                assert(all[k] == before[k]);
            }
        }
        assert forall|i: int|
            0 <= i < textures.len() && visible_part(
                (#[trigger] textures[i]).x,
                textures[i].y,
                textures[i].width,
                textures[i].height,
            ) is Some implies exists|k: int|
            0 <= k < all.len() && (#[trigger] all[k]).index == i by {
            if i < prefix.len() {
                assert(prefix[i] == textures[i]);
                let k = choose|k: int| 0 <= k < before.len() && (#[trigger] before[k]).index == i;
                assert(all[k] == before[k]);
            } else {
                assert(all[all.len() - 1].index == i);
            }
        }
    }
}

/// The client's textures are drawn on the Apps tab (number 2), all that are
/// visible, and on no other tab.
pub proof fn client_is_drawn_on_the_apps_tab_only<T>(
    textures: Seq<ClientTexture<T>>,
    active_tab: i32,
)
    ensures
        active_tab == 2 ==> frame_draw_ops(textures, active_tab) == draw_ops(textures),
        active_tab != 2 ==> frame_draw_ops(textures, active_tab).len() == 0,
{
}

/// Of a surface, exactly the rows that lie in screen rows 40 to 1023 are drawn,
/// from the first to the last, at its own offset and in its full width.
pub proof fn surface_is_cut_to_screen_rows_40_to_1023(x: i32, y: i32, width: i32, height: i32)
    requires
        placeable(y as int, height as int),
    ensures
        visible_part(x, y, width, height) is None <==> height <= 0 || y + height <= 0 || y >= 984,
        visible_part(x, y, width, height) matches Some(r) ==> {
            &&& r.dst_x == x
            &&& r.width == width
            &&& r.dst_y == r.src_y + 40 + y
            &&& r.src_y == 0 || r.dst_y == 40
            &&& r.src_y + r.height == height || r.dst_y + r.height == 1024
            &&& 0 <= r.src_y && 0 < r.height && r.src_y + r.height <= height
            &&& 40 <= r.dst_y && r.dst_y + r.height <= 1024
        },
{
}

/// Any surface within a thousand million rows of the client area can be placed,
/// and one that can be placed has both edges among the 32-bit numbers.
pub proof fn ordinary_surfaces_can_be_placed(y: int, height: int)
    ensures
        -1_000_000_000 <= y <= 1_000_000_000 && 0 <= height <= 1_000_000_000 ==> placeable(
            y,
            height,
        ),
        placeable(y, height) ==> 40 + y <= 0x7fff_ffff && -0x8000_0000 <= 40 + y + height
            <= 0x7fff_ffff,
{
}

} // verus!
