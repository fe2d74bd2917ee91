use vstd::prelude::*;

use crate::bitmap::{lemma_raster_ext, over, Image, Raster, Rgba};
use crate::modules::text::{click_of, tile_background, tiled};
use crate::modules::{Alignment, Block, BlockId, RenderInput, RenderStep};
use crate::mouse::MouseEvent;
use crate::parse_input::Config;

verus! {

/// Why a group has no bitmap of its own.
#[derive(Copy, Clone, Debug, PartialEq, Eq, Structural)]
pub enum BarError {
    /// The blocks of one group are together wider than any bitmap can be.
    TooWide,
}

/// `base` with `top` blended onto it, the left edge of `top` at column
/// `offset`. What of `top` falls outside `base` is cut off.
pub open spec fn overlay(base: Raster, top: Raster, offset: int) -> Raster {
    Raster::build(
        base.width,
        base.height,
        |x: int, y: int|
            if offset <= x < offset + top.width && y < top.height {
                over(base.at(x, y), top.at(x - offset, y))
            } else {
                base.at(x, y)
            },
    )
}

/// Blends `second` onto `first`, moved `offset` columns to the right.
pub fn combine_images(first: &mut Image, second: &Image, offset: u32)
    ensures
        final(first)@ == overlay(old(first)@, second@, offset as int),
{
    let ghost before = first@;
    let ghost want = overlay(before, second@, offset as int);
    proof {
        first.lemma_view_wf();
        second.lemma_view_wf();
    }
    let width: u32 = first.width();
    let end: u64 = offset as u64 + second.width() as u64;
    let right: u32 = if end < width as u64 { end as u32 } else { width };
    let bottom: u32 = if second.height() < first.height() { second.height() } else { first.height() };
    let mut x: u32 = offset;
    while x < right
        invariant
            offset <= x,
            x <= right || right < offset,
            right <= width,
            right <= offset + second@.width,
            right == width || right == offset + second@.width,
            bottom <= second@.height,
            bottom <= before.height,
            bottom == second@.height || bottom == before.height,
            before.wf(),
            first@.wf(),
            first@.width == before.width == width,
            first@.height == before.height,
            want == overlay(before, second@, offset as int),
            forall|i: int, j: int|
                before.contains(i, j) ==> first@.rows[j][i] == (if i < x {
                    want.rows[j][i]
                } else {
                    before.rows[j][i]
                }),
        decreases right - x,
    {
        let mut y: u32 = 0;
        while y < bottom
            invariant
                offset <= x < right,
                y <= bottom,
                right <= width,
                right <= offset + second@.width,
                bottom <= second@.height,
                bottom <= before.height,
                bottom == second@.height || bottom == before.height,
                before.wf(),
                first@.wf(),
                first@.width == before.width == width,
                first@.height == before.height,
                want == overlay(before, second@, offset as int),
                forall|i: int, j: int|
                    before.contains(i, j) ==> first@.rows[j][i] == (if i < x || (i == x && j < y) {
                        want.rows[j][i]
                    } else {
                        before.rows[j][i]
                    }),
            decreases bottom - y,
        {
            let mut pixel = first.get_pixel(x, y);
            let top = second.get_pixel(x - offset, y);
            pixel.blend(&top);
            first.put_pixel(x, y, pixel);
            y += 1;
        }
        x += 1;
    }
    proof {
        assert forall|i: int, j: int| first@.contains(i, j) implies first@.at(i, j) == want.at(
            i,
            j,
        ) by {
            assert(before.contains(i, j));
            assert(first@.rows[j][i] == (if i < x {
                want.rows[j][i]
            } else {
                before.rows[j][i]
            }));
        }
        lemma_raster_ext(first@, want);
    }
}

/// The width of a group: the widths of what its blocks show, added up.
pub open spec fn group_width(blocks: Seq<Block>) -> nat
    decreases blocks.len(),
{
    if blocks.len() == 0 {
        0
    } else {
        group_width(blocks.drop_last()) + blocks.last().shown().width
    }
}

/// The blocks' bitmaps blended one after the other onto a transparent black
/// canvas of the given size, each block's left edge where the block before it
/// ends.
pub open spec fn row_of(blocks: Seq<Block>, width: nat, height: nat) -> Raster
    decreases blocks.len(),
{
    if blocks.len() == 0 {
        Raster::filled(width, height, Rgba::transparent())
    } else {
        overlay(
            row_of(blocks.drop_last(), width, height),
            blocks.last().shown(),
            group_width(blocks.drop_last()) as int,
        )
    }
}

/// The bitmap of a group: its blocks side by side without gaps, on a canvas as
/// wide as all of them and as high as the bar.
pub open spec fn group_raster(blocks: Seq<Block>, height: nat) -> Raster {
    row_of(blocks, group_width(blocks), height)
}

/// A group's bitmap has the size of its canvas, and all its rows.
pub proof fn lemma_row_of_size(blocks: Seq<Block>, width: nat, height: nat)
    ensures
        row_of(blocks, width, height).width == width,
        row_of(blocks, width, height).height == height,
        row_of(blocks, width, height).wf(),
    decreases blocks.len(),
{
    if blocks.len() > 0 {
        lemma_row_of_size(blocks.drop_last(), width, height);
    }
}

/// The first `i + 1` blocks are as wide as the first `i` and block `i`.
pub proof fn lemma_group_width_step(blocks: Seq<Block>, i: int)
    requires
        0 <= i < blocks.len(),
    ensures
        group_width(blocks.take(i + 1)) == group_width(blocks.take(i)) + blocks[i].shown().width,
{
    assert(blocks.take(i + 1).drop_last() =~= blocks.take(i));
}

/// A group is at least as wide as any of its beginnings.
pub proof fn lemma_group_width_grows(blocks: Seq<Block>, i: int)
    requires
        0 <= i <= blocks.len(),
    ensures
        group_width(blocks.take(i)) <= group_width(blocks),
    decreases blocks.len() - i,
{
    if i < blocks.len() {
        lemma_group_width_step(blocks, i);
        lemma_group_width_grows(blocks, i + 1);
    } else {
        assert(blocks.take(i) =~= blocks);
    }
}

/// No group width above this bound is told apart from the bound itself: it is
/// beyond every bar and every pointer position.
pub const WIDTH_CAP: u64 = 0x2_0000_0000;

/// A width, cut off at `WIDTH_CAP`.
pub open spec fn capped(width: nat) -> u64 {
    if width < WIDTH_CAP {
        width as u64
    } else {
        WIDTH_CAP
    }
}

/// Adds up the widths of what the blocks show, up to `WIDTH_CAP`.
pub fn measure_group(blocks: &Vec<Block>) -> (total: u64)
    ensures
        total == capped(group_width(blocks@)),
{
    let n: usize = blocks.len();
    let mut total: u64 = 0;
    let mut i: usize = 0;
    while i < n
        invariant
            i <= n,
            n == blocks@.len(),
            total == capped(group_width(blocks@.take(i as int))),
        decreases n - i,
    {
        proof {
            lemma_group_width_step(blocks@, i as int);
        }
        let width: u32 = blocks[i].shown_width();
        total = if total + width as u64 >= WIDTH_CAP {
            WIDTH_CAP
        } else {
            total + width as u64
        };
        i += 1;
    }
    assert(blocks@.take(n as int) =~= blocks@);
    total
}

/// Blending a bitmap without pixels onto a raster changes nothing.
proof fn lemma_overlay_nothing(base: Raster, top: Raster, offset: int)
    requires
        base.wf(),
        top.width == 0 || top.height == 0,
    ensures
        overlay(base, top, offset) == base,
{
    lemma_raster_ext(overlay(base, top, offset), base);
}

/// Blending a bitmap onto a raster from a column on that the raster does not
/// have changes nothing.
proof fn lemma_overlay_beyond(base: Raster, top: Raster, offset: int)
    requires
        base.wf(),
        offset >= base.width,
    ensures
        overlay(base, top, offset) == base,
{
    lemma_raster_ext(overlay(base, top, offset), base);
}

/// A column of a group's bitmap is the same on every canvas that has it: what
/// a narrower canvas cuts off lies to its right.
pub proof fn lemma_row_of_same(
    blocks: Seq<Block>,
    width: nat,
    other: nat,
    height: nat,
    x: int,
    y: int,
)
    requires
        0 <= x < width,
        x < other,
        0 <= y < height,
    ensures
        row_of(blocks, width, height).at(x, y) == row_of(blocks, other, height).at(x, y),
    decreases blocks.len(),
{
    if blocks.len() > 0 {
        lemma_row_of_same(blocks.drop_last(), width, other, height, x, y);
        lemma_row_of_size(blocks.drop_last(), width, height);
        lemma_row_of_size(blocks.drop_last(), other, height);
    }
}

/// For blending a group onto a raster, the group's bitmap need be no wider
/// than the raster: what lies further right is cut off either way.
pub proof fn lemma_overlay_cut(base: Raster, blocks: Seq<Block>, height: nat, origin: int, cut: nat)
    requires
        base.wf(),
        0 <= origin,
        cut == (if group_width(blocks) < base.width {
            group_width(blocks)
        } else {
            base.width
        }),
    ensures
        overlay(base, row_of(blocks, cut, height), origin) == overlay(
            base,
            group_raster(blocks, height),
            origin,
        ),
{
    let narrow = row_of(blocks, cut, height);
    let full = group_raster(blocks, height);
    lemma_row_of_size(blocks, cut, height);
    lemma_row_of_size(blocks, group_width(blocks), height);
    let a = overlay(base, narrow, origin);
    let b = overlay(base, full, origin);
    assert forall|x: int, y: int| a.contains(x, y) implies a.at(x, y) == b.at(x, y) by {
        if origin <= x < origin + cut && y < height {
            lemma_row_of_same(blocks, cut, group_width(blocks), height, x - origin, y);
        }
    }
    lemma_raster_ext(a, b);
}

/// Puts the bitmaps of a group's blocks side by side, in their order, on a
/// transparent black canvas of the given size. What does not fit the canvas
/// is cut off.
pub fn group_image(blocks: &Vec<Block>, width: u32, bar_height: u32) -> (canvas: Image)
    ensures
        canvas@ == row_of(blocks@, width as nat, bar_height as nat),
{
    let n: usize = blocks.len();
    let mut canvas = Image::new(width, bar_height);
    let mut offset: u64 = 0;
    let mut i: usize = 0;
    while i < n
        invariant
            i <= n,
            n == blocks@.len(),
            offset == capped(group_width(blocks@.take(i as int))),
            canvas@ == row_of(blocks@.take(i as int), width as nat, bar_height as nat),
        decreases n - i,
    {
        proof {
            lemma_group_width_step(blocks@, i as int);
            assert(blocks@.take(i + 1).drop_last() =~= blocks@.take(i as int));
            canvas.lemma_view_wf();
            lemma_row_of_size(blocks@.take(i as int), width as nat, bar_height as nat);
        }
        match blocks[i].cached() {
            Some(img) => {
                if offset < width as u64 {
                    combine_images(&mut canvas, img, offset as u32);
                } else {
                    proof {
                        lemma_overlay_beyond(
                            canvas@,
                            img@,
                            group_width(blocks@.take(i as int)) as int,
                        );
                    }
                }
                offset = if offset + img.width() as u64 >= WIDTH_CAP {
                    WIDTH_CAP
                } else {
                    offset + img.width() as u64
                };
            },
            None => {
                proof {
                    lemma_overlay_nothing(
                        canvas@,
                        blocks@[i as int].shown(),
                        group_width(blocks@.take(i as int)) as int,
                    );
                }
            },
        }
        i += 1;
    }
    assert(blocks@.take(n as int) =~= blocks@);
    canvas
}

/// Puts the bitmaps of a group's blocks side by side, in their order.
///
/// A group without blocks has no bitmap. A group whose blocks are together
/// wider than a bitmap can be is refused.
pub fn combine_elements(blocks: &Vec<Block>, bar_height: u32) -> (res: Result<
    Option<Image>,
    BarError,
>)
    ensures
        match res {
            Ok(None) => blocks@.len() == 0,
            Ok(Some(img)) => {
                &&& blocks@.len() > 0
                &&& group_width(blocks@) <= u32::MAX
                &&& img@ == group_raster(blocks@, bar_height as nat)
                &&& img@.width == group_width(blocks@)
                &&& img@.height == bar_height
            },
            Err(_) => blocks@.len() > 0 && group_width(blocks@) > u32::MAX,
        },
{
    if blocks.len() == 0 {
        return Ok(None);
    }
    let total: u64 = measure_group(blocks);
    if total > u32::MAX as u64 {
        return Err(BarError::TooWide);
    }
    proof {
        lemma_row_of_size(blocks@, total as nat, bar_height as nat);
    }
    Ok(Some(group_image(blocks, total as u32, bar_height)))
}

/// Blends a group onto the bar from column `origin` on. `total` is the
/// group's width as `measure_group` gives it.
pub fn add_group(bar: &mut Image, blocks: &Vec<Block>, bar_height: u32, origin: u32, total: u64)
    requires
        total == capped(group_width(blocks@)),
    ensures
        final(bar)@ == with_group(old(bar)@, blocks@, bar_height as nat, origin as int),
{
    if blocks.len() == 0 {
        return ;
    }
    let cut: u32 = if total < bar.width() as u64 {
        total as u32
    } else {
        bar.width()
    };
    let img = group_image(blocks, cut, bar_height);
    proof {
        bar.lemma_view_wf();
        lemma_overlay_cut(bar@, blocks@, bar_height as nat, origin as int, cut as nat);
    }
    combine_images(bar, &img, origin);
}

/// The column at which a centred group of the given width starts on a bar of
/// width `bar_width`: half the bar's width less half the group's, both halves
/// rounded down, and 0 where that would lie left of the bar.
pub open spec fn center_origin(bar_width: u32, group_width: nat) -> nat {
    if group_width / 2 <= bar_width / 2 {
        (bar_width / 2 - group_width / 2) as nat
    } else {
        0
    }
}

/// The column at which a right-aligned group of the given width starts on a bar
/// of width `bar_width`: the group ends where the bar ends, and starts at 0
/// where it is wider than the bar.
pub open spec fn right_origin(bar_width: u32, group_width: nat) -> nat {
    if group_width <= bar_width {
        (bar_width - group_width) as nat
    } else {
        0
    }
}

/// Computes `center_origin` for a width that may have been cut off at
/// `WIDTH_CAP`.
pub fn center_offset(bar_width: u32, group_width: u64) -> (origin: u32)
    ensures
        origin == center_origin(bar_width, group_width as nat),
        forall|width: nat| capped(width) == group_width ==> origin == center_origin(bar_width, width),
{
    let half_bar: u32 = bar_width / 2;
    let half_group: u64 = group_width / 2;
    if half_group <= half_bar as u64 {
        half_bar - half_group as u32
    } else {
        0
    }
}

/// Computes `right_origin` for a width that may have been cut off at
/// `WIDTH_CAP`.
pub fn right_offset(bar_width: u32, group_width: u64) -> (origin: u32)
    ensures
        origin == right_origin(bar_width, group_width as nat),
        forall|width: nat| capped(width) == group_width ==> origin == right_origin(bar_width, width),
{
    if group_width <= bar_width as u64 {
        bar_width - group_width as u32
    } else {
        0
    }
}

/// `base` with the bitmap of a group blended onto it at `origin`; a group
/// without blocks leaves it as it is.
pub open spec fn with_group(base: Raster, blocks: Seq<Block>, height: nat, origin: int) -> Raster {
    if blocks.len() == 0 {
        base
    } else {
        overlay(base, group_raster(blocks, height), origin)
    }
}

/// The bar: onto the background go the left group at column 0, then the centre
/// group at `center_origin`, then the right group at `right_origin`. Later
/// groups are blended over earlier ones, and what does not fit the background
/// is cut off.
pub open spec fn bar_raster(
    bg: Raster,
    left: Seq<Block>,
    center: Seq<Block>,
    right: Seq<Block>,
    bar_height: u32,
    bar_width: u32,
) -> Raster {
    let with_left = with_group(bg, left, bar_height as nat, 0);
    let with_center = with_group(
        with_left,
        center,
        bar_height as nat,
        center_origin(bar_width, group_width(center)) as int,
    );
    with_group(
        with_center,
        right,
        bar_height as nat,
        right_origin(bar_width, group_width(right)) as int,
    )
}

/// The bar has the size of its background, and all its rows, whatever the
/// groups are.
pub proof fn lemma_bar_size(
    bg: Raster,
    left: Seq<Block>,
    center: Seq<Block>,
    right: Seq<Block>,
    bar_height: u32,
    bar_width: u32,
)
    requires
        bg.wf(),
    ensures
        bar_raster(bg, left, center, right, bar_height, bar_width).width == bg.width,
        bar_raster(bg, left, center, right, bar_height, bar_width).height == bg.height,
        bar_raster(bg, left, center, right, bar_height, bar_width).wf(),
{
}

/// Draws the bar from what the blocks of the three groups show, on the
/// background `bg_img`, for an output that is `bar_width` pixels wide. The bar
/// has the size of the background.
pub fn create_bar_from_config(config: &Config, bg_img: Image, bar_width: u32) -> (bar: Image)
    ensures
        bar@ == bar_raster(
            bg_img@,
            config.left_blocks@,
            config.center_blocks@,
            config.right_blocks@,
            config.bar_height,
            bar_width,
        ),
        bar@.width == bg_img@.width,
        bar@.height == bg_img@.height,
{
    proof {
        bg_img.lemma_view_wf();
        lemma_bar_size(
            bg_img@,
            config.left_blocks@,
            config.center_blocks@,
            config.right_blocks@,
            config.bar_height,
            bar_width,
        );
    }
    let mut bar = bg_img;
    let left_width: u64 = measure_group(&config.left_blocks);
    add_group(&mut bar, &config.left_blocks, config.bar_height, 0, left_width);
    let center_width: u64 = measure_group(&config.center_blocks);
    add_group(
        &mut bar,
        &config.center_blocks,
        config.bar_height,
        center_offset(bar_width, center_width),
        center_width,
    );
    let right_width: u64 = measure_group(&config.right_blocks);
    add_group(
        &mut bar,
        &config.right_blocks,
        config.bar_height,
        right_offset(bar_width, right_width),
        right_width,
    );
    bar
}

/// The four bytes that a pixel is sent as: blue, green, red, alpha.
pub open spec fn bgra(pixel: Rgba) -> Seq<u8> {
    seq![pixel.b, pixel.g, pixel.r, pixel.a]
}

/// The bytes of a row of pixels, from left to right.
pub open spec fn row_bytes(row: Seq<Rgba>) -> Seq<u8>
    decreases row.len(),
{
    if row.len() == 0 {
        Seq::empty()
    } else {
        row_bytes(row.drop_last()) + bgra(row.last())
    }
}

/// The bytes of rows of pixels, from top to bottom.
pub open spec fn frame_bytes(rows: Seq<Seq<Rgba>>) -> Seq<u8>
    decreases rows.len(),
{
    if rows.len() == 0 {
        Seq::empty()
    } else {
        frame_bytes(rows.drop_last()) + row_bytes(rows.last())
    }
}

/// A row of `n` pixels takes `4 * n` bytes.
pub proof fn lemma_row_bytes_len(row: Seq<Rgba>)
    ensures
        row_bytes(row).len() == 4 * row.len(),
    decreases row.len(),
{
    if row.len() > 0 {
        lemma_row_bytes_len(row.drop_last());
    }
}

/// The frame of a bitmap takes four bytes for each of its pixels, and nothing
/// besides.
pub proof fn lemma_frame_bytes_len(raster: Raster)
    requires
        raster.wf(),
    ensures
        frame_bytes(raster.rows).len() == 4 * raster.width * raster.height,
    decreases raster.height,
{
    let w = raster.width as int;
    let h = raster.height as int;
    if raster.height > 0 {
        let above = Raster {
            width: raster.width,
            height: (raster.height - 1) as nat,
            rows: raster.rows.drop_last(),
        };
        assert(above.wf()) by {
            assert forall|y: int| 0 <= y < above.height implies (#[trigger] above.rows[y]).len()
                == above.width by {
                assert(above.rows[y] == raster.rows[y]);
            }
        }
        lemma_frame_bytes_len(above);
        lemma_row_bytes_len(raster.rows.last());
        assert(raster.rows.last() == raster.rows[h - 1]);
        assert(4 * w * (h - 1) + 4 * w == 4 * w * h) by (nonlinear_arith);
    } else {
        assert(4 * w * h == 0) by (nonlinear_arith)
            requires
                h == 0,
        ;
    }
}

/// The width that is read off a frame is the width of the bitmap that the frame
/// was made of, for a bitmap that has rows.
pub proof fn lemma_frame_width(raster: Raster)
    requires
        raster.wf(),
        raster.height > 0,
    ensures
        frame_bytes(raster.rows).len() as int / raster.height as int / 4 == raster.width,
{
    lemma_frame_bytes_len(raster);
    let w = raster.width as int;
    let h = raster.height as int;
    assert(4 * w * h == (4 * w) * h) by (nonlinear_arith);
    assert(((4 * w) * h) / h == 4 * w) by (nonlinear_arith)
        requires
            h > 0,
    ;
}

/// Lays a bitmap out as the frame that the display takes: row after row from
/// the top, four bytes a pixel in the order blue, green, red, alpha, nothing
/// between the rows.
pub fn img_to_bytes(img: &Image) -> (bytes: Vec<u8>)
    ensures
        bytes@ == frame_bytes(img@.rows),
{
    proof {
        img.lemma_view_wf();
    }
    let width: u32 = img.width();
    let height: u32 = img.height();
    let mut bytes: Vec<u8> = Vec::new();
    let mut y: u32 = 0;
    while y < height
        invariant
            y <= height,
            img@.wf(),
            width == img@.width,
            height == img@.height,
            bytes@ == frame_bytes(img@.rows.take(y as int)),
        decreases height - y,
    {
        let ghost done = bytes@;
        let mut x: u32 = 0;
        while x < width
            invariant
                x <= width,
                y < height,
                img@.wf(),
                width == img@.width,
                height == img@.height,
                done == frame_bytes(img@.rows.take(y as int)),
                bytes@ == done + row_bytes(img@.rows[y as int].take(x as int)),
            decreases width - x,
        {
            let pixel = img.get_pixel(x, y);
            proof {
                let row = img@.rows[y as int];
                assert(row.take(x + 1).drop_last() =~= row.take(x as int));
                assert(row.take(x + 1).last() == pixel);
            }
            bytes.push(pixel.b);
            bytes.push(pixel.g);
            bytes.push(pixel.r);
            bytes.push(pixel.a);
            assert(bytes@ =~= done + row_bytes(img@.rows[y as int].take(x + 1)));
            x += 1;
        }
        proof {
            let row = img@.rows[y as int];
            assert(row.take(width as int) =~= row);
            assert(img@.rows.take(y + 1).drop_last() =~= img@.rows.take(y as int));
        }
        y += 1;
    }
    assert(img@.rows.take(height as int) =~= img@.rows);
    bytes
}

/// The column at which block `k` of a group starts, for a group that starts at
/// `origin`: the blocks before it lie between.
pub open spec fn block_origin(blocks: Seq<Block>, origin: int, k: int) -> int {
    origin + group_width(blocks.take(k))
}

/// The pointer is over block `k` of the group: it is on the surface, and its
/// column is neither left of the block's first column nor right of the column
/// after its last.
pub open spec fn aimed_at(event: MouseEvent, blocks: Seq<Block>, origin: int, k: int) -> bool {
    let left = block_origin(blocks, origin, k);
    !event.left_surface() && left <= event.x <= left + blocks[k].shown().width
}

/// What a block that starts at column `left` and shows `width` columns is
/// told of an event: where the pointer is over it, the event with its column
/// counted from the block's own first column, and its row, its button and
/// the button's state as they came; else nothing.
pub open spec fn message_of(event: MouseEvent, left: int, width: nat) -> Option<MouseEvent> {
    if !event.left_surface() && left <= event.x <= left + width {
        Some(
            MouseEvent {
                state: event.state,
                button: event.button,
                x: (event.x - left) as i32,
                y: event.y,
            },
        )
    } else {
        None
    }
}

/// Makes what a block that starts at column `left` and shows `width` columns
/// is told of an event.
pub fn message_for(event: &MouseEvent, left: u64, width: u32) -> (message: Option<MouseEvent>)
    ensures
        message == message_of(*event, left as int, width as nat),
{
    if !event.has_left_surface() && left <= event.x as u64 && event.x as u64 - left <= width as u64 {
        Some(
            MouseEvent {
                state: event.state,
                button: event.button,
                x: (event.x as u64 - left) as i32,
                y: event.y,
            },
        )
    } else {
        None
    }
}

/// What block `k` of the group is told of the event: the event with its
/// column counted from the block's own first column, or nothing.
pub open spec fn told(event: MouseEvent, blocks: Seq<Block>, origin: int, k: int) -> Option<
    MouseEvent,
> {
    message_of(event, block_origin(blocks, origin, k), blocks[k].shown().width)
}

/// The group after each of its blocks has been told of the event.
pub open spec fn group_after(blocks: Seq<Block>, event: MouseEvent, origin: int) -> Seq<Block> {
    Seq::new(blocks.len(), |k: int| blocks[k].after_mouse(aimed_at(event, blocks, origin, k)))
}

/// One of the first `count` blocks of the group changes its hover state on the
/// event.
pub open spec fn group_redraw(blocks: Seq<Block>, event: MouseEvent, origin: int, count: int) -> bool {
    exists|k: int|
        0 <= k < count && #[trigger] blocks[k].hover() != aimed_at(event, blocks, origin, k)
}

/// The commands that the event starts in the first `count` blocks of the group,
/// in the blocks' order.
pub open spec fn group_clicks(blocks: Seq<Block>, event: MouseEvent, origin: int, count: int) -> Seq<
    String,
>
    decreases count,
{
    if count <= 0 {
        Seq::empty()
    } else {
        let before = group_clicks(blocks, event, origin, count - 1);
        match click_of(blocks[count - 1].click_command(), told(event, blocks, origin, count - 1)) {
            Some(command) => before.push(command),
            None => before,
        }
    }
}

/// Column positions from this bound on are not told apart: no pointer event
/// reaches them.
pub const COLUMN_CAP: u64 = 0x1_0000_0000;

/// A column, cut off at `COLUMN_CAP`.
pub open spec fn capped_column(column: int) -> u64 {
    if column < COLUMN_CAP {
        column as u64
    } else {
        COLUMN_CAP
    }
}

/// Tells each block of a group of the event, from left to right, and collects
/// the commands to start. Returns whether a block asked for a redraw.
pub fn dispatch_group(
    blocks: &mut Vec<Block>,
    origin: u32,
    event: &MouseEvent,
    spawn: &mut Vec<String>,
) -> (redraw: bool)
    ensures
        final(blocks)@ == group_after(old(blocks)@, *event, origin as int),
        redraw == group_redraw(old(blocks)@, *event, origin as int, old(blocks)@.len() as int),
        final(spawn)@ == old(spawn)@ + group_clicks(
            old(blocks)@,
            *event,
            origin as int,
            old(blocks)@.len() as int,
        ),
{
    let ghost before = blocks@;
    let ghost started = spawn@;
    let n: usize = blocks.len();
    let mut redraw: bool = false;
    let mut left: u64 = origin as u64;
    let mut i: usize = 0;
    while i < n
        invariant
            i <= n,
            n == before.len(),
            blocks@.len() == n,
            left == capped_column(block_origin(before, origin as int, i as int)),
            forall|k: int|
                0 <= k < i ==> blocks@[k] == before[k].after_mouse(
                    aimed_at(*event, before, origin as int, k),
                ),
            forall|k: int| i <= k < n ==> blocks@[k] == before[k],
            redraw == group_redraw(before, *event, origin as int, i as int),
            spawn@ == started + group_clicks(before, *event, origin as int, i as int),
        decreases n - i,
    {
        proof {
            lemma_group_width_step(before, i as int);
        }
        let width: u32 = blocks[i].shown_width();
        let message: Option<MouseEvent> = message_for(event, left, width);
        assert(message == told(*event, before, origin as int, i as int));
        assert(message is Some == aimed_at(*event, before, origin as int, i as int));
        let out = blocks[i].mouse_event(message);
        if out.redraw {
            redraw = true;
        }
        match out.spawn {
            Some(command) => {
                spawn.push(command);
            },
            None => {},
        }
        left = if left + width as u64 >= COLUMN_CAP {
            COLUMN_CAP
        } else {
            left + width as u64
        };
        proof {
            if group_redraw(before, *event, origin as int, i + 1) {
                let k = choose|k: int|
                    0 <= k < i + 1 && #[trigger] before[k].hover() != aimed_at(
                        *event,
                        before,
                        origin as int,
                        k,
                    );
                assert(k == i || group_redraw(before, *event, origin as int, i as int));
            }
            assert(redraw == group_redraw(before, *event, origin as int, i + 1));
        }
        i += 1;
    }
    assert(blocks@ =~= group_after(before, *event, origin as int));
    redraw
}

/// What a pointer event did to the bar.
#[derive(Debug)]
pub struct Dispatch {
    /// A block looks different now and the bar has to be drawn again.
    pub redraw: bool,
    /// The shell commands to start, each without waiting for it.
    pub spawn: Vec<String>,
}

/// The column at which the centre group of the bar starts.
pub open spec fn center_start(config: Config, bar_width: u32) -> int {
    center_origin(bar_width, group_width(config.center_blocks@)) as int
}

/// The column at which the right group of the bar starts.
pub open spec fn right_start(config: Config, bar_width: u32) -> int {
    right_origin(bar_width, group_width(config.right_blocks@)) as int
}

/// Routes a pointer event to the blocks of the bar.
///
/// Every block is told of the event, the left group first, then the centre,
/// then the right: a block that the pointer is over is handed the event, every
/// other block is told that the pointer is elsewhere. The blocks lie where
/// drawing the bar puts them, and are as wide as what they showed before the
/// event. An event that says that the pointer has left the surface is over no
/// block.
pub fn propagate_mouse_events(config: &mut Config, bar_width: u32, mouse_event: MouseEvent) -> (out:
    Dispatch)
    ensures
        final(config).left_blocks@ == group_after(old(config).left_blocks@, mouse_event, 0),
        final(config).center_blocks@ == group_after(
            old(config).center_blocks@,
            mouse_event,
            center_start(*old(config), bar_width),
        ),
        final(config).right_blocks@ == group_after(
            old(config).right_blocks@,
            mouse_event,
            right_start(*old(config), bar_width),
        ),
        *final(config) == (Config {
            left_blocks: final(config).left_blocks,
            center_blocks: final(config).center_blocks,
            right_blocks: final(config).right_blocks,
            ..*old(config)
        }),
        out.redraw == (group_redraw(
            old(config).left_blocks@,
            mouse_event,
            0,
            old(config).left_blocks@.len() as int,
        ) || group_redraw(
            old(config).center_blocks@,
            mouse_event,
            center_start(*old(config), bar_width),
            old(config).center_blocks@.len() as int,
        ) || group_redraw(
            old(config).right_blocks@,
            mouse_event,
            right_start(*old(config), bar_width),
            old(config).right_blocks@.len() as int,
        )),
        out.spawn@ == group_clicks(
            old(config).left_blocks@,
            mouse_event,
            0,
            old(config).left_blocks@.len() as int,
        ) + group_clicks(
            old(config).center_blocks@,
            mouse_event,
            center_start(*old(config), bar_width),
            old(config).center_blocks@.len() as int,
        ) + group_clicks(
            old(config).right_blocks@,
            mouse_event,
            right_start(*old(config), bar_width),
            old(config).right_blocks@.len() as int,
        ),
{
    let center_width: u64 = measure_group(&config.center_blocks);
    let right_width: u64 = measure_group(&config.right_blocks);
    let center: u32 = center_offset(bar_width, center_width);
    let right: u32 = right_offset(bar_width, right_width);
    let mut spawn: Vec<String> = Vec::new();
    let redraw_left: bool = dispatch_group(&mut config.left_blocks, 0, &mouse_event, &mut spawn);
    let redraw_center: bool = dispatch_group(
        &mut config.center_blocks,
        center,
        &mouse_event,
        &mut spawn,
    );
    let redraw_right: bool = dispatch_group(
        &mut config.right_blocks,
        right,
        &mouse_event,
        &mut spawn,
    );
    Dispatch { redraw: redraw_left || redraw_center || redraw_right, spawn }
}

/// An event that says that the pointer has left the surface is over no block,
/// whatever the blocks are and wherever they lie.
pub proof fn lemma_pointer_left(event: MouseEvent, blocks: Seq<Block>, origin: int, k: int)
    requires
        event.left_surface(),
    ensures
        !aimed_at(event, blocks, origin, k),
        told(event, blocks, origin, k) is None,
{
}

/// An event that says that the pointer has left the surface starts no
/// command in a group.
pub proof fn lemma_pointer_left_clicks(
    event: MouseEvent,
    blocks: Seq<Block>,
    origin: int,
    count: int,
)
    requires
        event.left_surface(),
    ensures
        group_clicks(blocks, event, origin, count) == Seq::<String>::empty(),
    decreases count,
{
    if count > 0 {
        lemma_pointer_left_clicks(event, blocks, origin, count - 1);
    }
}

/// After an event that says that the pointer has left the surface, the
/// pointer is over no block of the bar, wherever it was before, and no
/// command is started.
pub proof fn lemma_pointer_left_bar(
    before: Config,
    bar_width: u32,
    event: MouseEvent,
    after: Config,
    id: BlockId,
)
    requires
        event.left_surface(),
        mouse_propagated(before, bar_width, event, after),
        before.has_block(id),
    ensures
        after.has_block(id),
        after.block(id) == before.block(id).after_mouse(false),
        !after.block(id).hover(),
        bar_clicks(before, bar_width, event) == Seq::<String>::empty(),
{
    lemma_pointer_left_clicks(event, before.left_blocks@, 0, before.left_blocks@.len() as int);
    lemma_pointer_left_clicks(
        event,
        before.center_blocks@,
        center_start(before, bar_width),
        before.center_blocks@.len() as int,
    );
    lemma_pointer_left_clicks(
        event,
        before.right_blocks@,
        right_start(before, bar_width),
        before.right_blocks@.len() as int,
    );
}

/// A block of a group starts no further left than the blocks before it end.
pub proof fn lemma_blocks_in_order(blocks: Seq<Block>, origin: int, j: int, k: int)
    requires
        0 <= j < k <= blocks.len(),
    ensures
        block_origin(blocks, origin, j) + blocks[j].shown().width <= block_origin(blocks, origin, k),
    decreases k - j,
{
    lemma_group_width_step(blocks, j);
    if j + 1 < k {
        lemma_group_width_step(blocks, k - 1);
        if j + 1 < k - 1 {
            lemma_blocks_in_order(blocks, origin, j, k - 1);
        }
    }
}

/// A pointer between the first and the last column of a block of a group, and
/// on neither of the two, is over that block and over no other block of the
/// group.
pub proof fn lemma_one_block_hit(
    event: MouseEvent,
    blocks: Seq<Block>,
    origin: int,
    k: int,
    other: int,
)
    requires
        0 <= k < blocks.len(),
        0 <= other < blocks.len(),
        other != k,
        !event.left_surface(),
        block_origin(blocks, origin, k) < event.x < block_origin(blocks, origin, k)
            + blocks[k].shown().width,
    ensures
        aimed_at(event, blocks, origin, k),
        told(event, blocks, origin, k) is Some,
        !aimed_at(event, blocks, origin, other),
        told(event, blocks, origin, other) is None,
{
    if other < k {
        lemma_blocks_in_order(blocks, origin, other, k);
    } else {
        lemma_blocks_in_order(blocks, origin, k, other);
    }
}

/// Two blocks of a group are both under the pointer only where the one ends
/// and the other starts: the pointer is then on the column after the last of
/// the one, which is the first of the other.
pub proof fn lemma_two_blocks_hit(
    event: MouseEvent,
    blocks: Seq<Block>,
    origin: int,
    j: int,
    k: int,
)
    requires
        0 <= j < k < blocks.len(),
        aimed_at(event, blocks, origin, j),
        aimed_at(event, blocks, origin, k),
    ensures
        event.x == block_origin(blocks, origin, j) + blocks[j].shown().width,
        event.x == block_origin(blocks, origin, k),
{
    lemma_blocks_in_order(blocks, origin, j, k);
}

/// The width in pixels of a frame of `byte_len` bytes that is `bar_height` rows
/// high, at four bytes a pixel; what is left over of a row does not count. A
/// frame without rows has no width.
pub fn frame_width(byte_len: u64, bar_height: u32) -> (width: u64)
    ensures
        width == (if bar_height == 0 {
            0
        } else {
            byte_len as int / bar_height as int / 4
        }),
{
    if bar_height == 0 {
        0
    } else {
        byte_len / (bar_height as u64) / 4
    }
}

/// What the bar is told: the three kinds of event that reach it, each from a
/// source of its own.
#[derive(Copy, Clone, Debug)]
pub enum Event {
    /// The output is this many pixels wide. A width of 0 means that the width
    /// is not known.
    Resize(u32),
    /// The pointer moved, a button changed, or the pointer left.
    Mouse(MouseEvent),
    /// The refresh interval of this block has passed.
    Tick(BlockId),
}

/// The state of a running bar: its settings and blocks, the width of the output
/// as far as it is known, and the background cut to that width.
#[derive(Debug)]
pub struct BarCreator {
    pub config: Config,
    /// The width of the output in pixels; 0 while it is not known.
    pub output_width: u32,
    pub bg_img: Image,
}

/// A refresh timer to start: a tick for `block` every `period` milliseconds.
#[derive(Copy, Clone, Debug)]
pub struct Timer {
    pub block: BlockId,
    pub period: u32,
}

/// The first block of the group, from place `from` on, that has no bitmap.
pub open spec fn first_unrendered(blocks: Seq<Block>, from: int) -> Option<int>
    decreases blocks.len() - from,
{
    if from < 0 || from >= blocks.len() {
        None
    } else if blocks[from].cache() is None {
        Some(from)
    } else {
        first_unrendered(blocks, from + 1)
    }
}

/// `first_unrendered` finds the first block without a bitmap from `from` on,
/// and finds none only where every block from there on has one.
pub proof fn lemma_first_unrendered(blocks: Seq<Block>, from: int)
    requires
        0 <= from,
    ensures
        match first_unrendered(blocks, from) {
            Some(i) => {
                &&& from <= i < blocks.len()
                &&& blocks[i].cache() is None
                &&& forall|j: int| from <= j < i ==> (#[trigger] blocks[j]).cache() is Some
            },
            None => forall|j: int|
                from <= j < blocks.len() ==> (#[trigger] blocks[j]).cache() is Some,
        },
    decreases blocks.len() - from,
{
    if from < blocks.len() && blocks[from].cache() is Some {
        lemma_first_unrendered(blocks, from + 1);
    }
}

/// Looks for the first block of a group, from place `from` on, that has no
/// bitmap.
pub fn find_unrendered(blocks: &Vec<Block>, from: usize) -> (found: Option<usize>)
    ensures
        match found {
            Some(i) => first_unrendered(blocks@, from as int) == Some(i as int),
            None => first_unrendered(blocks@, from as int) is None,
        },
{
    let n: usize = blocks.len();
    let mut i: usize = from;
    while i < n
        invariant
            from <= i,
            n == blocks@.len(),
            first_unrendered(blocks@, from as int) == first_unrendered(blocks@, i as int),
        decreases n - i,
    {
        if blocks[i].cached().is_none() {
            return Some(i);
        }
        i += 1;
    }
    None
}

/// The refresh timers of the first `count` blocks of a group, in the blocks'
/// order: one for each block that refreshes itself.
pub open spec fn group_timers(blocks: Seq<Block>, alignment: Alignment, count: int) -> Seq<Timer>
    decreases count,
{
    if count <= 0 {
        Seq::empty()
    } else {
        let before = group_timers(blocks, alignment, count - 1);
        match blocks[count - 1].period() {
            Some(period) => before.push(
                Timer { block: BlockId { alignment, index: (count - 1) as usize }, period },
            ),
            None => before,
        }
    }
}

/// Collects the refresh timers of a group's blocks.
fn start_group_intervals(blocks: &Vec<Block>, alignment: Alignment, timers: &mut Vec<Timer>)
    ensures
        final(timers)@ == old(timers)@ + group_timers(blocks@, alignment, blocks@.len() as int),
{
    let ghost started = timers@;
    let n: usize = blocks.len();
    let mut i: usize = 0;
    while i < n
        invariant
            i <= n,
            n == blocks@.len(),
            timers@ == started + group_timers(blocks@, alignment, i as int),
        decreases n - i,
    {
        match blocks[i].start_interval() {
            Some(period) => {
                timers.push(Timer { block: BlockId { alignment, index: i }, period });
            },
            None => {},
        }
        i += 1;
        assert(timers@ =~= started + group_timers(blocks@, alignment, i as int));
    }
}

impl BarCreator {
    /// The refresh timers that the bar needs: one for each block that refreshes
    /// itself, the left group first and the right group last.
    pub open spec fn timers(self) -> Seq<Timer> {
        group_timers(
            self.config.left_blocks@,
            Alignment::LEFT,
            self.config.left_blocks@.len() as int,
        ) + group_timers(
            self.config.center_blocks@,
            Alignment::CENTER,
            self.config.center_blocks@.len() as int,
        ) + group_timers(
            self.config.right_blocks@,
            Alignment::RIGHT,
            self.config.right_blocks@.len() as int,
        )
    }

    /// Lists the refresh timers to start when the bar starts.
    pub fn start_intervals(&self) -> (timers: Vec<Timer>)
        ensures
            timers@ == self.timers(),
    {
        let mut timers: Vec<Timer> = Vec::new();
        start_group_intervals(&self.config.left_blocks, Alignment::LEFT, &mut timers);
        start_group_intervals(&self.config.center_blocks, Alignment::CENTER, &mut timers);
        start_group_intervals(&self.config.right_blocks, Alignment::RIGHT, &mut timers);
        timers
    }

    /// The bar can be drawn: the width of the output is known and there is a
    /// block to show.
    pub open spec fn can_draw(self) -> bool {
        self.output_width > 0 && self.config.block_count() > 0
    }

    /// The background after the output's width was reported as `width`: for
    /// a positive width it is the settings' background brought to that width
    /// and the height of the bar, cut where it is larger and repeated where
    /// it is smaller; a width of 0 leaves it as it is.
    pub open spec fn resized(self, width: u32, bg_img: Image) -> bool {
        if width == 0 {
            bg_img == self.bg_img
        } else {
            bg_img@ == tiled(self.config.bg@, width as nat, self.config.bar_height as nat)
        }
    }

    /// The background that the bar is drawn on fits the output: while the
    /// width of the output is known, it is the settings' background brought
    /// to that width and the height of the bar.
    pub open spec fn wf(self) -> bool {
        self.output_width > 0 ==> self.bg_img@ == tiled(
            self.config.bg@,
            self.output_width as nat,
            self.config.bar_height as nat,
        )
    }

    /// The first block without a bitmap from place `index` of the group
    /// `alignment` on, in the order in which the blocks are rendered: the
    /// left group before the centre and the centre before the right, each
    /// from left to right.
    pub open spec fn pending_from(self, alignment: Alignment, index: int) -> Option<BlockId> {
        let in_left = first_unrendered(
            self.config.left_blocks@,
            if alignment == Alignment::LEFT {
                index
            } else {
                self.config.left_blocks@.len() as int
            },
        );
        let in_center = first_unrendered(
            self.config.center_blocks@,
            if alignment == Alignment::CENTER {
                index
            } else if alignment == Alignment::LEFT {
                0
            } else {
                self.config.center_blocks@.len() as int
            },
        );
        let in_right = first_unrendered(
            self.config.right_blocks@,
            if alignment == Alignment::RIGHT {
                index
            } else {
                0
            },
        );
        match in_left {
            Some(i) => Some(BlockId { alignment: Alignment::LEFT, index: i as usize }),
            None => match in_center {
                Some(i) => Some(BlockId { alignment: Alignment::CENTER, index: i as usize }),
                None => match in_right {
                    Some(i) => Some(BlockId { alignment: Alignment::RIGHT, index: i as usize }),
                    None => None,
                },
            },
        }
    }

    /// The block that a rendering of the bar starts with: the first one
    /// without a bitmap.
    pub open spec fn next_pending(self) -> Option<BlockId> {
        self.pending_from(Alignment::LEFT, 0)
    }

    /// The blocks are to be rendered before the event is taken in: a pointer
    /// event is matched against what the blocks show, and a block without a
    /// bitmap shows nothing and is found nowhere.
    pub open spec fn renders_first(event: Event) -> bool {
        event is Mouse
    }

    /// Tells whether the blocks without a bitmap are to be rendered before
    /// the event is handed to `handle`.
    pub fn render_first(&self, event: &Event) -> (first: bool)
        ensures
            first == (BarCreator::renders_first(*event) && self.next_pending() is Some),
    {
        match event {
            Event::Mouse(_) => self.pending().is_some(),
            _ => false,
        }
    }

    /// Tells whether the bar can be drawn.
    pub fn ready(&self) -> (ready: bool)
        ensures
            ready == self.can_draw(),
    {
        self.output_width > 0 && (self.config.left_blocks.len() > 0
            || self.config.center_blocks.len() > 0 || self.config.right_blocks.len() > 0)
    }

    /// Takes one event in.
    ///
    /// A report of the output's width updates the width and the background. A
    /// pointer event is routed to the blocks, for the width known so far; the
    /// blocks are found by what they show, so `render_first` asks for them to
    /// be rendered before. A
    /// tick empties the cache of the block it names. The bar is to be drawn
    /// again after a width report and after a tick whenever it can be drawn,
    /// and after a pointer event when, besides, a block asked for it.
    pub fn handle(&mut self, event: Event) -> (out: Dispatch)
        ensures
            old(self).wf() ==> final(self).wf(),
            event matches Event::Resize(width) ==> width > 0 ==> final(self).wf(),
            match event {
                Event::Resize(width) => {
                    &&& final(self).config == old(self).config
                    &&& final(self).output_width == (if width > 0 {
                        width
                    } else {
                        old(self).output_width
                    })
                    &&& old(self).resized(width, final(self).bg_img)
                    &&& width > 0 ==> final(self).bg_img@.width == width
                        && final(self).bg_img@.height == old(self).config.bar_height
                    &&& out.redraw == final(self).can_draw()
                    &&& out.spawn@.len() == 0
                },
                Event::Mouse(mouse_event) => {
                    &&& final(self).output_width == old(self).output_width
                    &&& final(self).bg_img == old(self).bg_img
                    &&& mouse_propagated(
                        old(self).config,
                        old(self).output_width,
                        mouse_event,
                        final(self).config,
                    )
                    &&& out.redraw == (old(self).can_draw() && bar_redraw(
                        old(self).config,
                        old(self).output_width,
                        mouse_event,
                    ))
                    &&& out.spawn@ == bar_clicks(old(self).config, old(self).output_width, mouse_event)
                },
                Event::Tick(id) => {
                    &&& final(self).output_width == old(self).output_width
                    &&& final(self).bg_img == old(self).bg_img
                    &&& ticked(old(self).config, id, final(self).config)
                    &&& out.redraw == old(self).can_draw()
                    &&& out.spawn@.len() == 0
                },
            },
    {
        match event {
            Event::Resize(width) => {
                if width > 0 {
                    self.bg_img = tile_background(&self.config.bg, width, self.config.bar_height);
                    self.output_width = width;
                }
                Dispatch { redraw: self.ready(), spawn: Vec::new() }
            },
            Event::Mouse(mouse_event) => {
                let ready: bool = self.ready();
                let out = propagate_mouse_events(&mut self.config, self.output_width, mouse_event);
                Dispatch { redraw: ready && out.redraw, spawn: out.spawn }
            },
            Event::Tick(id) => {
                let ready: bool = self.ready();
                invalidate_block(&mut self.config, id);
                Dispatch { redraw: ready, spawn: Vec::new() }
            },
        }
    }

    /// The block that a rendering of the bar starts with, or `None` when
    /// every block has its bitmap.
    pub fn pending(&self) -> (next: Option<BlockId>)
        ensures
            next == self.next_pending(),
    {
        self.pending_at(Alignment::LEFT, 0)
    }

    /// The block that a rendering of the bar goes on with after the block
    /// `id`: the next one without a bitmap. A block that is left without a
    /// bitmap, as one whose command failed is, is not come back to, so that
    /// a rendering of the bar visits each block once.
    pub fn pending_after(&self, id: BlockId) -> (next: Option<BlockId>)
        ensures
            next == self.pending_from(id.alignment, id.index + 1),
    {
        if id.index < usize::MAX {
            self.pending_at(id.alignment, id.index + 1)
        } else {
            proof {
                let _ = self.config.left_blocks.len();
                let _ = self.config.center_blocks.len();
                let _ = self.config.right_blocks.len();
            }
            match id.alignment {
                Alignment::LEFT => self.pending_at(Alignment::CENTER, 0),
                Alignment::CENTER => self.pending_at(Alignment::RIGHT, 0),
                Alignment::RIGHT => None,
            }
        }
    }

    /// Looks for the first block without a bitmap from a place on.
    fn pending_at(&self, alignment: Alignment, index: usize) -> (next: Option<BlockId>)
        ensures
            next == self.pending_from(alignment, index as int),
    {
        let in_left = match alignment {
            Alignment::LEFT => find_unrendered(&self.config.left_blocks, index),
            _ => None,
        };
        if let Some(index) = in_left {
            return Some(BlockId { alignment: Alignment::LEFT, index });
        }
        let in_center = match alignment {
            Alignment::LEFT => find_unrendered(&self.config.center_blocks, 0),
            Alignment::CENTER => find_unrendered(&self.config.center_blocks, index),
            Alignment::RIGHT => None,
        };
        if let Some(index) = in_center {
            return Some(BlockId { alignment: Alignment::CENTER, index });
        }
        let in_right = match alignment {
            Alignment::RIGHT => find_unrendered(&self.config.right_blocks, index),
            _ => find_unrendered(&self.config.right_blocks, 0),
        };
        match in_right {
            Some(index) => Some(BlockId { alignment: Alignment::RIGHT, index }),
            None => None,
        }
    }

    /// One step of rendering the block of the given name; `None` where the bar
    /// has no such block.
    pub fn render(&mut self, id: BlockId, input: RenderInput) -> (step: Option<RenderStep>)
        ensures
            old(self).wf() ==> final(self).wf(),
            final(self).output_width == old(self).output_width,
            final(self).bg_img == old(self).bg_img,
            match step {
                Some(step) => {
                    &&& old(self).config.has_block(id)
                    &&& block_replaced(old(self).config, id, final(self).config)
                    &&& Block::rendered(
                        old(self).config.block(id),
                        input,
                        final(self).config.block(id),
                        step,
                    )
                },
                None => !old(self).config.has_block(id) && final(self).config == old(self).config,
            },
    {
        match id.alignment {
            Alignment::LEFT => render_in_group(&mut self.config.left_blocks, id.index, input),
            Alignment::CENTER => render_in_group(&mut self.config.center_blocks, id.index, input),
            Alignment::RIGHT => render_in_group(&mut self.config.right_blocks, id.index, input),
        }
    }

    /// Draws the bar as the blocks show it right now.
    pub fn draw(&self) -> (bar: Image)
        ensures
            bar@ == bar_raster(
                self.bg_img@,
                self.config.left_blocks@,
                self.config.center_blocks@,
                self.config.right_blocks@,
                self.config.bar_height,
                self.output_width,
            ),
            bar@.width == self.bg_img@.width,
            bar@.height == self.bg_img@.height,
    {
        create_bar_from_config(&self.config, self.bg_img.clone(), self.output_width)
    }
}

/// The settings `after` are the settings `before` with, at most, the block of
/// the given name replaced by another.
pub open spec fn block_replaced(before: Config, id: BlockId, after: Config) -> bool {
    &&& before.has_block(id)
    &&& after.group(id.alignment) == before.group(id.alignment).update(
        id.index as int,
        after.block(id),
    )
    &&& after == before.with_group(
        id.alignment,
        match id.alignment {
            Alignment::LEFT => after.left_blocks,
            Alignment::CENTER => after.center_blocks,
            Alignment::RIGHT => after.right_blocks,
        },
    )
}

/// What a tick for the block of the given name makes of the settings: the
/// block's cache is emptied and nothing else changes. A tick for a block that
/// the bar does not have changes nothing.
pub open spec fn ticked(before: Config, id: BlockId, after: Config) -> bool {
    if before.has_block(id) {
        block_replaced(before, id, after) && after.block(id) == before.block(id).invalidated()
    } else {
        after == before
    }
}

/// What routing a pointer event makes of the settings.
pub open spec fn mouse_propagated(
    before: Config,
    bar_width: u32,
    mouse_event: MouseEvent,
    after: Config,
) -> bool {
    &&& after.left_blocks@ == group_after(before.left_blocks@, mouse_event, 0)
    &&& after.center_blocks@ == group_after(
        before.center_blocks@,
        mouse_event,
        center_start(before, bar_width),
    )
    &&& after.right_blocks@ == group_after(
        before.right_blocks@,
        mouse_event,
        right_start(before, bar_width),
    )
    &&& after == (Config {
        left_blocks: after.left_blocks,
        center_blocks: after.center_blocks,
        right_blocks: after.right_blocks,
        ..before
    })
}

/// A block of the bar changes its hover state on the event.
pub open spec fn bar_redraw(config: Config, bar_width: u32, mouse_event: MouseEvent) -> bool {
    ||| group_redraw(config.left_blocks@, mouse_event, 0, config.left_blocks@.len() as int)
    ||| group_redraw(
        config.center_blocks@,
        mouse_event,
        center_start(config, bar_width),
        config.center_blocks@.len() as int,
    )
    ||| group_redraw(
        config.right_blocks@,
        mouse_event,
        right_start(config, bar_width),
        config.right_blocks@.len() as int,
    )
}

/// The commands that the event starts, in the order of the blocks on the bar.
pub open spec fn bar_clicks(config: Config, bar_width: u32, mouse_event: MouseEvent) -> Seq<String> {
    group_clicks(config.left_blocks@, mouse_event, 0, config.left_blocks@.len() as int)
        + group_clicks(
        config.center_blocks@,
        mouse_event,
        center_start(config, bar_width),
        config.center_blocks@.len() as int,
    ) + group_clicks(
        config.right_blocks@,
        mouse_event,
        right_start(config, bar_width),
        config.right_blocks@.len() as int,
    )
}

/// Empties the cache of one block of a group.
fn invalidate_in_group(blocks: &mut Vec<Block>, index: usize)
    ensures
        index < old(blocks)@.len() ==> final(blocks)@ == old(blocks)@.update(
            index as int,
            old(blocks)@[index as int].invalidated(),
        ),
        index >= old(blocks)@.len() ==> *final(blocks) == *old(blocks),
{
    if index < blocks.len() {
        blocks[index].invalidate();
    }
}

/// Empties the cache of the block of the given name.
pub fn invalidate_block(config: &mut Config, id: BlockId)
    ensures
        ticked(*old(config), id, *final(config)),
{
    match id.alignment {
        Alignment::LEFT => invalidate_in_group(&mut config.left_blocks, id.index),
        Alignment::CENTER => invalidate_in_group(&mut config.center_blocks, id.index),
        Alignment::RIGHT => invalidate_in_group(&mut config.right_blocks, id.index),
    }
}

/// One step of rendering one block of a group.
fn render_in_group(blocks: &mut Vec<Block>, index: usize, input: RenderInput) -> (step: Option<
    RenderStep,
>)
    ensures
        match step {
            Some(step) => {
                &&& index < old(blocks)@.len()
                &&& final(blocks)@ == old(blocks)@.update(index as int, final(blocks)@[index as int])
                &&& Block::rendered(
                    old(blocks)@[index as int],
                    input,
                    final(blocks)@[index as int],
                    step,
                )
            },
            None => index >= old(blocks)@.len() && *final(blocks) == *old(blocks),
        },
{
    if index < blocks.len() {
        Some(blocks[index].render(input))
    } else {
        None
    }
}

/// Sets the bar up from its settings. The width of the output is not known yet
/// and there is no background to draw on.
pub fn start_bar_creator(config: Config) -> (bar: BarCreator)
    ensures
        bar.config == config,
        bar.output_width == 0,
        bar.bg_img@ == Raster::filled(0, 0, Rgba::transparent()),
        !bar.can_draw(),
        bar.wf(),
{
    BarCreator { config, output_width: 0, bg_img: Image::new(0, 0) }
}

/// A group with a block that has no bitmap has a first such block.
pub proof fn lemma_unrendered_found(blocks: Seq<Block>, k: int)
    requires
        0 <= k < blocks.len(),
        blocks[k].cache() is None,
    ensures
        first_unrendered(blocks, 0) is Some,
{
    lemma_first_unrendered(blocks, 0);
}

/// A tick for a block of the bar empties that block's cache and no other, and
/// leaves the bar with a block to render: the tick alone, with no report of a
/// width and no pointer event, makes the next rendering start afresh.
pub proof fn lemma_tick_needs_render(before: BarCreator, id: BlockId, after: BarCreator)
    requires
        before.config.has_block(id),
        ticked(before.config, id, after.config),
    ensures
        after.config.block(id).cache() is None,
        after.next_pending() is Some,
        forall|other: BlockId|
            before.config.has_block(other) && other != id ==> after.config.block(other)
                == before.config.block(other),
{
    lemma_unrendered_found(after.config.group(id.alignment), id.index as int);
}

/// Right of its last block a group's canvas is transparent black.
pub proof fn lemma_group_rest(blocks: Seq<Block>, width: nat, height: nat, x: int, y: int)
    requires
        group_width(blocks) <= x < width,
        0 <= y < height,
    ensures
        row_of(blocks, width, height).at(x, y) == Rgba::transparent(),
    decreases blocks.len(),
{
    if blocks.len() > 0 {
        lemma_group_rest(blocks.drop_last(), width, height, x, y);
        lemma_row_of_size(blocks.drop_last(), width, height);
    }
}

/// In a group's bitmap, block `k` fills the columns from where the blocks
/// before it end, as many as it is wide: there the bitmap holds the block's own
/// pixels, blended onto transparent black, as far down as the block reaches.
pub proof fn lemma_group_pixel(
    blocks: Seq<Block>,
    width: nat,
    height: nat,
    k: int,
    x: int,
    y: int,
)
    requires
        0 <= k < blocks.len(),
        group_width(blocks) <= width,
        block_origin(blocks, 0, k) <= x < block_origin(blocks, 0, k) + blocks[k].shown().width,
        0 <= y < height,
    ensures
        row_of(blocks, width, height).at(x, y) == (if y < blocks[k].shown().height {
            over(Rgba::transparent(), blocks[k].shown().at(x - block_origin(blocks, 0, k), y))
        } else {
            Rgba::transparent()
        }),
    decreases blocks.len(),
{
    let before = blocks.drop_last();
    lemma_row_of_size(before, width, height);
    assert(blocks.take(blocks.len() as int) =~= blocks);
    lemma_group_width_step(blocks, blocks.len() - 1);
    assert(blocks.take(blocks.len() - 1) =~= before);
    if k == blocks.len() - 1 {
        lemma_group_rest(before, width, height, x, y);
    } else {
        lemma_blocks_in_order(blocks, 0, k, blocks.len() - 1);
        assert(before.take(k) =~= blocks.take(k));
        lemma_group_pixel(before, width, height, k, x, y);
    }
}

/// The right group starts at the column where a pointer event finds its first
/// block, and on the bar nothing lies over it: left of that column the bar is
/// what the background, the left and the centre group make of it, and from that
/// column on, as far as the group and the background reach, the group's bitmap
/// is blended over that.
pub proof fn lemma_right_group_on_bar(
    bg: Raster,
    left: Seq<Block>,
    center: Seq<Block>,
    right: Seq<Block>,
    bar_height: u32,
    bar_width: u32,
    x: int,
    y: int,
)
    requires
        bg.contains(x, y),
        right.len() > 0,
    ensures
        ({
            let origin = right_origin(bar_width, group_width(right)) as int;
            let under = with_group(
                with_group(bg, left, bar_height as nat, 0),
                center,
                bar_height as nat,
                center_origin(bar_width, group_width(center)) as int,
            );
            let bar = bar_raster(bg, left, center, right, bar_height, bar_width);
            &&& origin == block_origin(right, origin, 0)
            &&& group_width(right) <= bar_width ==> origin + group_width(right) == bar_width
            &&& bar.at(x, y) == (if origin <= x < origin + group_width(right) && y < bar_height {
                over(under.at(x, y), group_raster(right, bar_height as nat).at(x - origin, y))
            } else {
                under.at(x, y)
            })
        }),
{
    lemma_row_of_size(right, group_width(right), bar_height as nat);
    assert(right.take(0) =~= Seq::<Block>::empty());
}


/// Once the width of the output is known, every bar that is drawn is as wide
/// as the output and as high as the settings say, whatever the settings'
/// background is, and its frame holds four bytes for each of these pixels:
/// this is so for the bar drawn after a report of the width, after a tick and
/// after a pointer event alike.
pub proof fn lemma_frame_fits_output(bar: BarCreator, img: Raster)
    requires
        bar.wf(),
        bar.output_width > 0,
        img == bar_raster(
            bar.bg_img@,
            bar.config.left_blocks@,
            bar.config.center_blocks@,
            bar.config.right_blocks@,
            bar.config.bar_height,
            bar.output_width,
        ),
    ensures
        img.width == bar.output_width,
        img.height == bar.config.bar_height,
        frame_bytes(img.rows).len() == 4 * bar.output_width * bar.config.bar_height,
{
    lemma_bar_size(
        bar.bg_img@,
        bar.config.left_blocks@,
        bar.config.center_blocks@,
        bar.config.right_blocks@,
        bar.config.bar_height,
        bar.output_width,
    );
    lemma_frame_bytes_len(img);
}


/// The place of a group among the groups, in the order in which the blocks are
/// rendered.
pub open spec fn rank(alignment: Alignment) -> int {
    match alignment {
        Alignment::LEFT => 0,
        Alignment::CENTER => 1,
        Alignment::RIGHT => 2,
    }
}

/// The block `id` comes at or after place `index` of the group `alignment`,
/// in the order in which the blocks are rendered.
pub open spec fn at_or_after(id: BlockId, alignment: Alignment, index: int) -> bool {
    rank(id.alignment) > rank(alignment) || (id.alignment == alignment && id.index >= index)
}

/// A rendering of the bar moves on: the block that it goes on with has no
/// bitmap and comes at or after the place asked for, and where there is no
/// such block, every block from that place on has its bitmap. Going on after
/// a block therefore never comes back to that block, whether the block got
/// its bitmap or not.
pub proof fn lemma_pending_moves_on(bar: BarCreator, alignment: Alignment, index: int, id: BlockId)
    requires
        0 <= index,
    ensures
        bar.pending_from(alignment, index) matches Some(next) ==> {
            &&& bar.config.has_block(next)
            &&& bar.config.block(next).cache() is None
            &&& at_or_after(next, alignment, index)
        },
        bar.pending_from(alignment, index) is None && bar.config.has_block(id) && at_or_after(
            id,
            alignment,
            index,
        ) ==> bar.config.block(id).cache() is Some,
{
    let left = bar.config.left_blocks@;
    let center = bar.config.center_blocks@;
    let right = bar.config.right_blocks@;
    assert(left.len() == bar.config.left_blocks.len());
    assert(center.len() == bar.config.center_blocks.len());
    assert(right.len() == bar.config.right_blocks.len());
    lemma_first_unrendered(left, if alignment == Alignment::LEFT { index } else { left.len() as int });
    lemma_first_unrendered(
        center,
        if alignment == Alignment::CENTER {
            index
        } else if alignment == Alignment::LEFT {
            0
        } else {
            center.len() as int
        },
    );
    lemma_first_unrendered(right, if alignment == Alignment::RIGHT { index } else { 0 });
}

/// The column at which a group of the bar starts.
pub open spec fn group_start(config: Config, bar_width: u32, alignment: Alignment) -> int {
    match alignment {
        Alignment::LEFT => 0,
        Alignment::CENTER => center_start(config, bar_width),
        Alignment::RIGHT => right_start(config, bar_width),
    }
}

/// What the block `id` of the bar is told of a pointer event.
pub open spec fn bar_told(config: Config, bar_width: u32, event: MouseEvent, id: BlockId) -> Option<
    MouseEvent,
> {
    told(event, config.group(id.alignment), group_start(config, bar_width, id.alignment), id.index as int)
}

/// Each block of the bar is told of a pointer event on its own: the block
/// whose columns hold the pointer is handed the event, with the column
/// counted from the block's own first column and the row, the button and its
/// state as they came; every block whose columns do not hold the pointer is
/// told that the pointer is elsewhere. The block's state afterwards follows
/// from what it was told and from nothing else.
pub proof fn lemma_block_told(
    before: Config,
    bar_width: u32,
    event: MouseEvent,
    after: Config,
    id: BlockId,
)
    requires
        mouse_propagated(before, bar_width, event, after),
        before.has_block(id),
    ensures
        ({
            let blocks = before.group(id.alignment);
            let left = block_origin(
                blocks,
                group_start(before, bar_width, id.alignment),
                id.index as int,
            );
            let inside = 0 <= event.x && left <= event.x <= left + before.block(id).shown().width;
            &&& after.has_block(id)
            &&& after.block(id) == before.block(id).after_mouse(inside)
            &&& inside ==> bar_told(before, bar_width, event, id) == Some(
                MouseEvent {
                    state: event.state,
                    button: event.button,
                    x: (event.x - left) as i32,
                    y: event.y,
                },
            )
            &&& !inside ==> bar_told(before, bar_width, event, id) is None
            &&& 0 <= left
        }),
{
}


/// The point `(x, y)` of the bar lies under the group that starts at column
/// `origin`.
pub open spec fn group_covers(blocks: Seq<Block>, height: nat, origin: int, x: int, y: int) -> bool {
    blocks.len() > 0 && origin <= x < origin + group_width(blocks) && y < height
}

/// What a group that starts at column `origin` makes of the pixel `under` at
/// `(x, y)`: under the group, the group's pixel is blended over it.
pub open spec fn group_layer(
    under: Rgba,
    blocks: Seq<Block>,
    height: nat,
    origin: int,
    x: int,
    y: int,
) -> Rgba {
    if group_covers(blocks, height, origin, x, y) {
        over(under, group_raster(blocks, height).at(x - origin, y))
    } else {
        under
    }
}

/// Every pixel of the bar is the background's pixel with the left group, then
/// the centre group, then the right group blended over it, each where it
/// lies: the left group from column 0, the centre group from half the bar's
/// width less half its own, the right group so that it ends with the bar.
/// Where groups lie over each other the later one is on top.
pub proof fn lemma_bar_pixel(
    bg: Raster,
    left: Seq<Block>,
    center: Seq<Block>,
    right: Seq<Block>,
    bar_height: u32,
    bar_width: u32,
    x: int,
    y: int,
)
    requires
        bg.wf(),
        bg.contains(x, y),
    ensures
        bar_raster(bg, left, center, right, bar_height, bar_width).at(x, y) == group_layer(
            group_layer(
                group_layer(bg.at(x, y), left, bar_height as nat, 0, x, y),
                center,
                bar_height as nat,
                center_origin(bar_width, group_width(center)) as int,
                x,
                y,
            ),
            right,
            bar_height as nat,
            right_origin(bar_width, group_width(right)) as int,
            x,
            y,
        ),
{
    lemma_row_of_size(left, group_width(left), bar_height as nat);
    lemma_row_of_size(center, group_width(center), bar_height as nat);
    lemma_row_of_size(right, group_width(right), bar_height as nat);
}

/// A pixel of the bar under no group is the background's.
pub proof fn lemma_uncovered_pixel(
    bg: Raster,
    left: Seq<Block>,
    center: Seq<Block>,
    right: Seq<Block>,
    bar_height: u32,
    bar_width: u32,
    x: int,
    y: int,
)
    requires
        bg.wf(),
        bg.contains(x, y),
        !group_covers(left, bar_height as nat, 0, x, y),
        !group_covers(
            center,
            bar_height as nat,
            center_origin(bar_width, group_width(center)) as int,
            x,
            y,
        ),
        !group_covers(
            right,
            bar_height as nat,
            right_origin(bar_width, group_width(right)) as int,
            x,
            y,
        ),
    ensures
        bar_raster(bg, left, center, right, bar_height, bar_width).at(x, y) == bg.at(x, y),
{
    lemma_bar_pixel(bg, left, center, right, bar_height, bar_width, x, y);
}

/// One of the three groups.
pub open spec fn group_of(
    left: Seq<Block>,
    center: Seq<Block>,
    right: Seq<Block>,
    alignment: Alignment,
) -> Seq<Block> {
    match alignment {
        Alignment::LEFT => left,
        Alignment::CENTER => center,
        Alignment::RIGHT => right,
    }
}

/// The column at which one of the three groups starts on a bar of width
/// `bar_width`.
pub open spec fn origin_of(
    center: Seq<Block>,
    right: Seq<Block>,
    bar_width: u32,
    alignment: Alignment,
) -> int {
    match alignment {
        Alignment::LEFT => 0,
        Alignment::CENTER => center_origin(bar_width, group_width(center)) as int,
        Alignment::RIGHT => right_origin(bar_width, group_width(right)) as int,
    }
}

/// An opaque pixel of a block is seen on the bar as it is, at the place where
/// pointer events find the block: the block's column `c` is the bar's column
/// `c` plus the column at which the block starts, which is the group's
/// first column plus the widths of the blocks before it. This holds wherever
/// the background reaches and no later group lies over the point.
pub proof fn lemma_block_on_bar(
    bg: Raster,
    left: Seq<Block>,
    center: Seq<Block>,
    right: Seq<Block>,
    bar_height: u32,
    bar_width: u32,
    alignment: Alignment,
    k: int,
    x: int,
    y: int,
)
    requires
        bg.wf(),
        bg.contains(x, y),
        y < bar_height,
        0 <= k < group_of(left, center, right, alignment).len(),
        ({
            let blocks = group_of(left, center, right, alignment);
            let start = block_origin(blocks, origin_of(center, right, bar_width, alignment), k);
            &&& start <= x < start + blocks[k].shown().width
            &&& y < blocks[k].shown().height
            &&& blocks[k].shown().at(x - start, y).a == 255
        }),
        alignment == Alignment::LEFT ==> !group_covers(
            center,
            bar_height as nat,
            origin_of(center, right, bar_width, Alignment::CENTER),
            x,
            y,
        ),
        alignment != Alignment::RIGHT ==> !group_covers(
            right,
            bar_height as nat,
            origin_of(center, right, bar_width, Alignment::RIGHT),
            x,
            y,
        ),
    ensures
        ({
            let blocks = group_of(left, center, right, alignment);
            let start = block_origin(blocks, origin_of(center, right, bar_width, alignment), k);
            bar_raster(bg, left, center, right, bar_height, bar_width).at(x, y)
                == blocks[k].shown().at(x - start, y)
        }),
{
    let blocks = group_of(left, center, right, alignment);
    let origin = origin_of(center, right, bar_width, alignment);
    lemma_bar_pixel(bg, left, center, right, bar_height, bar_width, x, y);
    lemma_group_width_step(blocks, k);
    lemma_group_width_grows(blocks, k + 1);
    lemma_group_pixel(blocks, group_width(blocks), bar_height as nat, k, x - origin, y);
    assert(group_covers(blocks, bar_height as nat, origin, x, y));
}

/// Where the groups start: a centred group that is no wider than the bar
/// starts at half the bar's width less half its own width, each half rounded
/// down on its own; a right group that is no wider than the bar ends with
/// the bar. A group that is wider starts at column 0.
pub proof fn lemma_group_edges(bar_width: u32, width: nat)
    ensures
        width <= bar_width ==> center_origin(bar_width, width) == bar_width / 2 - width / 2,
        width <= bar_width ==> right_origin(bar_width, width) + width == bar_width,
        width > bar_width ==> right_origin(bar_width, width) == 0,
        width / 2 > bar_width / 2 ==> center_origin(bar_width, width) == 0,
{
}

} // verus!
