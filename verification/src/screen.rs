use vstd::prelude::*;
use crate::colour::Colour;
use crate::error::Error;
use crate::text::chars_of;

verus! {

/// Width of the screen in pixels.
pub const SCREEN_WIDTH: usize = 160;

/// Height of the screen in pixels.
pub const SCREEN_HEIGHT: usize = 128;

/// Number of pixels on the screen.
pub const SCREEN_SIZE: usize = SCREEN_WIDTH * SCREEN_HEIGHT;

/// The framebuffer keeps the pixels column by column: pixel `(x, y)` is at
/// this index.
pub open spec fn pixel_index(x: int, y: int) -> int {
    x * SCREEN_HEIGHT + y
}

/// The bounds check that drawing makes: a position passes when neither
/// coordinate is past the screen's width or height. (The check lets the
/// coordinates equal the width or height.)
pub open spec fn passes_bounds_check(x: int, y: int) -> bool {
    x <= SCREEN_WIDTH && y <= SCREEN_HEIGHT
}

/// A position that passes the bounds check lands inside the framebuffer.
/// (It does not for `x == 160`, nor for `(159, 128)`: writing there panics.)
pub open spec fn pixel_writable(x: int, y: int) -> bool {
    passes_bounds_check(x, y) ==> pixel_index(x, y) < SCREEN_SIZE
}

/// Message of the error for a position that fails the bounds check.
pub open spec fn position_error() -> Seq<char> {
    "Position out of screen bounds"@
}

/// Message of the error for a rectangle that reaches past the screen.
pub open spec fn rectangle_error() -> Seq<char> {
    "Rectangle out of screen bounds"@
}

/// Message of the error for a rectangle of zero width or height.
pub open spec fn size_error() -> Seq<char> {
    "Rectangle size out of bounds"@
}

/// Message of the error for a character the font has no glyph for.
pub open spec fn ordinal_error() -> Seq<char> {
    "Ordinal out of range"@
}

/// The message of a failed result, `None` for success.
pub open spec fn error_of(r: Result<(), Error>) -> Option<Seq<char>> {
    match r {
        Ok(_) => None,
        Err(e) => Some(e@),
    }
}

/// The pixels after setting pixel `(x, y)` to `c`, and the error, if any.
pub open spec fn set_pixel_outcome(px: Seq<u16>, c: u16, x: int, y: int) -> (Seq<u16>, Option<Seq<char>>) {
    if !passes_bounds_check(x, y) {
        (px, Some(position_error()))
    } else {
        (px.update(pixel_index(x, y), c), None)
    }
}

/// Pixel index `i` lies in the rectangle with corner `(x, y)`, width `w`
/// and height `h`.
pub open spec fn in_rect(i: int, x: int, y: int, w: int, h: int) -> bool {
    &&& x <= i / (SCREEN_HEIGHT as int) < x + w
    &&& y <= i % (SCREEN_HEIGHT as int) < y + h
}

/// The pixels `px` with the rectangle at `(x, y)` of width `w` and height
/// `h` filled with `c`.
pub open spec fn filled_rect(px: Seq<u16>, c: u16, x: int, y: int, w: int, h: int) -> Seq<u16> {
    Seq::new(px.len(), |i: int| if in_rect(i, x, y, w, h) { c } else { px[i] })
}

/// The error that drawing the rectangle gives, if any.
pub open spec fn rect_error(x: int, y: int, w: int, h: int) -> Option<Seq<char>> {
    if !passes_bounds_check(x, y) {
        Some(position_error())
    } else if x + w > SCREEN_WIDTH || y + h > SCREEN_HEIGHT {
        Some(rectangle_error())
    } else if w == 0 || h == 0 {
        Some(size_error())
    } else {
        None
    }
}

/// The pixels after drawing a rectangle, and the error, if any. Nothing is
/// drawn when there is an error.
pub open spec fn rect_outcome(px: Seq<u16>, c: u16, x: int, y: int, w: int, h: int) -> (Seq<u16>, Option<Seq<char>>) {
    match rect_error(x, y, w, h) {
        Some(e) => (px, Some(e)),
        None => (filled_rect(px, c, x, y, w, h), None),
    }
}

/// The sums the rectangle's bounds checks compute do not overflow.
pub open spec fn rect_arith_fits(x: int, y: int, w: int, h: int) -> bool {
    passes_bounds_check(x, y) ==> {
        &&& x + w <= usize::MAX
        &&& x + w <= SCREEN_WIDTH ==> y + h <= usize::MAX
    }
}

/// Bit `i` of a glyph is set. A glyph is 4 columns by 6 rows of bits.
pub open spec fn glyph_bit(glyph: u32, i: int) -> bool {
    (glyph >> (i as u32)) & 1u32 == 1u32
}

/// The column of bit `i` of a glyph drawn at `x`.
pub open spec fn glyph_x(x: int, i: int) -> int {
    x + 4 - i % 4
}

/// The row of bit `i` of a glyph drawn at `y`.
pub open spec fn glyph_y(y: int, i: int) -> int {
    y + 6 - i / 4
}

/// Every set bit of the glyph from bit `i` on, drawn at `(x, y)`, passes
/// the bounds check.
pub open spec fn glyph_fits(glyph: u32, x: int, y: int, i: int) -> bool
    decreases 24 - i,
{
    if i >= 24 {
        true
    } else if glyph_bit(glyph, i) {
        passes_bounds_check(glyph_x(x, i), glyph_y(y, i)) && glyph_fits(glyph, x, y, i + 1)
    } else {
        glyph_fits(glyph, x, y, i + 1)
    }
}

/// The pixels after drawing the set bits of the glyph from bit `i` on in
/// colour `c`, stopping at the first set bit that fails the bounds check.
pub open spec fn glyph_pixels(px: Seq<u16>, glyph: u32, c: u16, x: int, y: int, i: int) -> Seq<u16>
    decreases 24 - i,
{
    if i >= 24 {
        px
    } else if glyph_bit(glyph, i) {
        if passes_bounds_check(glyph_x(x, i), glyph_y(y, i)) {
            glyph_pixels(
                px.update(pixel_index(glyph_x(x, i), glyph_y(y, i)), c),
                glyph,
                c,
                x,
                y,
                i + 1,
            )
        } else {
            px
        }
    } else {
        glyph_pixels(px, glyph, c, x, y, i + 1)
    }
}

/// Drawing the glyph from bit `i` on does not panic: the coordinates it
/// computes fit in `usize`, and every pixel it writes before a bounds error
/// lies inside the framebuffer.
pub open spec fn glyph_safe(glyph: u32, x: int, y: int, i: int) -> bool
    decreases 24 - i,
{
    if i >= 24 {
        true
    } else if glyph_bit(glyph, i) {
        &&& x + 4 <= usize::MAX
        &&& y + 6 <= usize::MAX
        &&& pixel_writable(glyph_x(x, i), glyph_y(y, i))
        &&& passes_bounds_check(glyph_x(x, i), glyph_y(y, i)) ==> glyph_safe(glyph, x, y, i + 1)
    } else {
        glyph_safe(glyph, x, y, i + 1)
    }
}

/// The font has a glyph for character `ord`: it holds the glyphs of the
/// characters from 32 on, so none below 32 and none past its end.
pub open spec fn has_glyph(font: Seq<u32>, ord: int) -> bool {
    32 <= ord && ord - 32 < font.len()
}

/// The error that drawing character `ord` at `(x, y)` gives, if any.
pub open spec fn character_error(font: Seq<u32>, ord: int, x: int, y: int) -> Option<Seq<char>> {
    if !has_glyph(font, ord) {
        Some(ordinal_error())
    } else if !glyph_fits(font[ord - 32], x, y, 0) {
        Some(position_error())
    } else {
        None
    }
}

/// The pixels after drawing character `ord` at `(x, y)` in colour `c`, and
/// the error, if any. The font holds the glyphs of characters 32 onwards.
pub open spec fn character_outcome(px: Seq<u16>, font: Seq<u32>, c: u16, ord: int, x: int, y: int) -> (Seq<u16>, Option<Seq<char>>) {
    if !has_glyph(font, ord) {
        (px, Some(ordinal_error()))
    } else {
        (glyph_pixels(px, font[ord - 32], c, x, y, 0), character_error(font, ord, x, y))
    }
}

/// Drawing character `ord` at `(x, y)` does not panic.
pub open spec fn character_safe(font: Seq<u32>, ord: int, x: int, y: int) -> bool {
    has_glyph(font, ord) ==> glyph_safe(font[ord - 32], x, y, 0)
}

/// The number of bytes that `c` takes in UTF-8, as `char::len_utf8`
/// documents it.
pub open spec fn utf8_width(c: char) -> int {
    if (c as u32) < 0x80 {
        1
    } else if (c as u32) < 0x800 {
        2
    } else if (c as u32) < 0x10000 {
        3
    } else {
        4
    }
}

/// The byte offset in the UTF-8 encoding of `chars` at which character `k`
/// starts.
pub open spec fn byte_offset(chars: Seq<char>, k: int) -> int
    decreases k,
{
    if k <= 0 {
        0
    } else {
        byte_offset(chars, k - 1) + utf8_width(chars[k - 1])
    }
}

/// Where character `k` of a text drawn at `x` is drawn: four pixels per
/// byte of the text before it.
pub open spec fn text_char_x(chars: Seq<char>, x: int, k: int) -> int {
    x + byte_offset(chars, k) * 4
}

/// The error that drawing the characters from `k` on gives, if any.
pub open spec fn text_error(font: Seq<u32>, chars: Seq<char>, x: int, y: int, k: int) -> Option<Seq<char>>
    decreases chars.len() - k,
{
    if k >= chars.len() {
        None
    } else {
        match character_error(font, chars[k] as int, text_char_x(chars, x, k), y) {
            Some(e) => Some(e),
            None => text_error(font, chars, x, y, k + 1),
        }
    }
}

/// The pixels after drawing the characters from `k` on, stopping after the
/// first character that gives an error.
pub open spec fn text_pixels(px: Seq<u16>, font: Seq<u32>, c: u16, chars: Seq<char>, x: int, y: int, k: int) -> Seq<u16>
    decreases chars.len() - k,
{
    if k >= chars.len() {
        px
    } else {
        let (p, e) = character_outcome(px, font, c, chars[k] as int, text_char_x(chars, x, k), y);
        if e is Some {
            p
        } else {
            text_pixels(p, font, c, chars, x, y, k + 1)
        }
    }
}

/// Drawing the characters from `k` on does not panic.
pub open spec fn text_safe(font: Seq<u32>, chars: Seq<char>, x: int, y: int, k: int) -> bool
    decreases chars.len() - k,
{
    if k >= chars.len() {
        true
    } else {
        let cx = text_char_x(chars, x, k);
        &&& byte_offset(chars, k) * 4 <= usize::MAX
        &&& cx <= usize::MAX
        &&& character_safe(font, chars[k] as int, cx, y)
        &&& character_error(font, chars[k] as int, cx, y) is None ==> text_safe(
            font,
            chars,
            x,
            y,
            k + 1,
        )
    }
}

/// The UTF-8 width of `c`, as `char::len_utf8` gives it.
fn utf8_width_of(c: char) -> (n: usize)
    ensures
        n == utf8_width(c),
{
    let v: u32 = c as u32;
    if v < 0x80 {
        1
    } else if v < 0x800 {
        2
    } else if v < 0x10000 {
        3
    } else {
        4
    }
}

/// One drawing step, as the layouts built on the framebuffer describe what
/// they draw.
pub enum DrawOp {
    /// `draw_rectangle` in the packed colour.
    Rect { colour: u16, x: int, y: int, w: int, h: int },
    /// `draw_text` of the characters in the packed colour.
    Text { colour: u16, chars: Seq<char>, x: int, y: int },
}

/// The coordinates of the step are values of `usize`.
pub open spec fn op_coords_fit(op: DrawOp) -> bool {
    match op {
        DrawOp::Rect { x, y, w, h, .. } => 0 <= x <= usize::MAX && 0 <= y <= usize::MAX && 0 <= w
            <= usize::MAX && 0 <= h <= usize::MAX,
        DrawOp::Text { x, y, .. } => 0 <= x <= usize::MAX && 0 <= y <= usize::MAX,
    }
}

/// The error the step gives, if any.
pub open spec fn op_error(font: Seq<u32>, op: DrawOp) -> Option<Seq<char>> {
    match op {
        DrawOp::Rect { x, y, w, h, .. } => rect_error(x, y, w, h),
        DrawOp::Text { chars, x, y, .. } => text_error(font, chars, x, y, 0),
    }
}

/// The pixels after the step, and its error, if any.
pub open spec fn op_outcome(px: Seq<u16>, font: Seq<u32>, op: DrawOp) -> (Seq<u16>, Option<Seq<char>>) {
    match op {
        DrawOp::Rect { colour, x, y, w, h } => rect_outcome(px, colour, x, y, w, h),
        DrawOp::Text { colour, chars, x, y } => (
            text_pixels(px, font, colour, chars, x, y, 0),
            text_error(font, chars, x, y, 0),
        ),
    }
}

/// The step does not panic.
pub open spec fn op_safe(font: Seq<u32>, op: DrawOp) -> bool {
    &&& op_coords_fit(op)
    &&& match op {
        DrawOp::Rect { x, y, w, h, .. } => rect_arith_fits(x, y, w, h),
        DrawOp::Text { chars, x, y, .. } => text_safe(font, chars, x, y, 0),
    }
}

/// The pixels after the steps, stopping after the first that fails, and
/// that step's error, if any.
pub open spec fn run_ops(px: Seq<u16>, font: Seq<u32>, ops: Seq<DrawOp>) -> (Seq<u16>, Option<Seq<char>>)
    decreases ops.len(),
{
    if ops.len() == 0 {
        (px, None)
    } else {
        let (p, e) = op_outcome(px, font, ops[0]);
        if e is Some {
            (p, e)
        } else {
            run_ops(p, font, ops.drop_first())
        }
    }
}

/// No step panics before the first that fails.
pub open spec fn ops_safe(font: Seq<u32>, ops: Seq<DrawOp>) -> bool
    decreases ops.len(),
{
    ops.len() == 0 || (op_safe(font, ops[0]) && (op_error(font, ops[0]) is None ==> ops_safe(
        font,
        ops.drop_first(),
    )))
}

/// Running the steps from `n` on: the first of them, then the rest.
pub proof fn lemma_run_ops_step(px: Seq<u16>, font: Seq<u32>, ops: Seq<DrawOp>, n: int)
    requires
        0 <= n < ops.len(),
    ensures
        ops.skip(n)[0] == ops[n],
        ops.skip(n).drop_first() == ops.skip(n + 1),
        run_ops(px, font, ops.skip(n)) == ({
            let (p, e) = op_outcome(px, font, ops[n]);
            if e is Some {
                (p, e)
            } else {
                run_ops(p, font, ops.skip(n + 1))
            }
        }),
        ops_safe(font, ops.skip(n)) == (op_safe(font, ops[n]) && (op_error(font, ops[n]) is None
            ==> ops_safe(font, ops.skip(n + 1)))),
{
    assert(ops.skip(n).drop_first() =~= ops.skip(n + 1));
}

/// A glyph drawn where all of its 4 by 6 cells lie strictly inside the
/// screen is drawn without error or panic.
pub proof fn lemma_glyph_inside(glyph: u32, x: int, y: int, i: int)
    requires
        0 <= x,
        0 <= y,
        0 <= i,
        x + 4 < SCREEN_WIDTH,
        y + 6 < SCREEN_HEIGHT,
    ensures
        glyph_safe(glyph, x, y, i),
        glyph_fits(glyph, x, y, i),
    decreases 24 - i,
{
    if i < 24 {
        lemma_glyph_inside(glyph, x, y, i + 1);
    }
}

/// Every character of `chars` is a printable ASCII character.
pub open spec fn printable_ascii(chars: Seq<char>) -> bool {
    forall|k: int| 0 <= k < chars.len() ==> 32 <= (#[trigger] chars[k] as int) < 128
}

/// In an ASCII text, character `k` starts at byte `k`.
pub proof fn lemma_ascii_byte_offset(chars: Seq<char>, k: int)
    requires
        printable_ascii(chars),
        0 <= k <= chars.len(),
    ensures
        byte_offset(chars, k) == k,
    decreases k,
{
    if k > 0 {
        lemma_ascii_byte_offset(chars, k - 1);
        assert(32 <= (chars[k - 1] as int) < 128);
    }
}

/// A printable ASCII text drawn where all of its glyphs lie strictly inside
/// the screen is drawn without panic.
pub proof fn lemma_ascii_text_inside(font: Seq<u32>, chars: Seq<char>, x: int, y: int, k: int)
    requires
        printable_ascii(chars),
        0 <= x,
        0 <= y,
        0 <= k <= chars.len(),
        x + 4 * chars.len() < SCREEN_WIDTH,
        y + 6 < SCREEN_HEIGHT,
    ensures
        text_safe(font, chars, x, y, k),
    decreases chars.len() - k,
{
    if k < chars.len() {
        lemma_ascii_byte_offset(chars, k);
        let ord = chars[k] as int;
        assert(32 <= (chars[k] as int) < 128);
        if ord - 32 < font.len() {
            lemma_glyph_inside(font[ord - 32], x + 4 * k, y, 0);
        }
        lemma_ascii_text_inside(font, chars, x, y, k + 1);
    }
}

/// Pixel `k` lies in the box of columns `x0 ..= x1` and rows `y0 ..= y1`.
pub open spec fn in_box(k: int, x0: int, x1: int, y0: int, y1: int) -> bool {
    &&& x0 <= k / (SCREEN_HEIGHT as int) <= x1
    &&& y0 <= k % (SCREEN_HEIGHT as int) <= y1
}

/// A printable ASCII text drawn at `(x, y)` with all of its glyphs strictly
/// inside the screen changes only pixels in its box: the columns `x + 1 ..=
/// x + 4 * len` and the rows `y + 1 ..= y + 6`.
pub proof fn lemma_text_stays_in_box(
    px: Seq<u16>,
    font: Seq<u32>,
    c: u16,
    chars: Seq<char>,
    x: int,
    y: int,
    kk: int,
    k: int,
)
    requires
        printable_ascii(chars),
        px.len() == SCREEN_SIZE,
        0 <= x,
        0 <= y,
        x + 4 * chars.len() < SCREEN_WIDTH,
        y + 6 < SCREEN_HEIGHT,
        0 <= kk <= chars.len(),
        0 <= k < SCREEN_SIZE,
        !in_box(k, x + 1, x + 4 * chars.len(), y + 1, y + 6),
    ensures
        text_pixels(px, font, c, chars, x, y, kk).len() == SCREEN_SIZE,
        text_pixels(px, font, c, chars, x, y, kk)[k] == px[k],
    decreases chars.len() - kk,
{
    if kk < chars.len() {
        lemma_ascii_byte_offset(chars, kk);
        let ord = chars[kk] as int;
        let cx = x + 4 * kk;
        assert(text_char_x(chars, x, kk) == cx);
        if ord - 32 < font.len() {
            lemma_glyph_stays_in_box(px, font[ord - 32], c, cx, y, 0, k);
            let p = glyph_pixels(px, font[ord - 32], c, cx, y, 0);
            lemma_text_stays_in_box(p, font, c, chars, x, y, kk + 1, k);
        }
    }
}

/// Step `op` leaves pixel `k` alone, on any framebuffer: a rectangle that
/// does not cover it, or a printable ASCII text inside the screen whose box
/// does not cover it.
pub open spec fn op_avoids(op: DrawOp, k: int) -> bool {
    match op {
        DrawOp::Rect { x, y, w, h, .. } => !in_rect(k, x, y, w, h),
        DrawOp::Text { chars, x, y, .. } => {
            &&& printable_ascii(chars)
            &&& 0 <= x
            &&& 0 <= y
            &&& x + 4 * chars.len() < SCREEN_WIDTH
            &&& y + 6 < SCREEN_HEIGHT
            &&& !in_box(k, x + 1, x + 4 * chars.len(), y + 1, y + 6)
        },
    }
}

/// Every step that runs, up to the first that fails, leaves pixel `k`
/// alone.
pub open spec fn ops_avoid(font: Seq<u32>, ops: Seq<DrawOp>, k: int) -> bool
    decreases ops.len(),
{
    ops.len() == 0 || (op_avoids(ops[0], k) && (op_error(font, ops[0]) is None ==> ops_avoid(
        font,
        ops.drop_first(),
        k,
    )))
}

/// `ops_avoid` of the steps from `n` on: the first of them, then the rest.
pub proof fn lemma_ops_avoid_step(font: Seq<u32>, ops: Seq<DrawOp>, n: int, k: int)
    requires
        0 <= n < ops.len(),
    ensures
        ops_avoid(font, ops.skip(n), k) == (op_avoids(ops[n], k) && (op_error(font, ops[n]) is None
            ==> ops_avoid(font, ops.skip(n + 1), k))),
{
    assert(ops.skip(n).drop_first() =~= ops.skip(n + 1));
}

/// Running steps that each leave pixel `k` alone leaves it alone.
pub proof fn lemma_run_ops_avoid(px: Seq<u16>, font: Seq<u32>, ops: Seq<DrawOp>, k: int)
    requires
        px.len() == SCREEN_SIZE,
        0 <= k < SCREEN_SIZE,
        ops_avoid(font, ops, k),
    ensures
        run_ops(px, font, ops).0.len() == SCREEN_SIZE,
        run_ops(px, font, ops).0[k] == px[k],
    decreases ops.len(),
{
    if ops.len() > 0 {
        let op = ops[0];
        match op {
            DrawOp::Rect { colour, x, y, w, h } => {},
            DrawOp::Text { colour, chars, x, y } => {
                lemma_text_stays_in_box(px, font, colour, chars, x, y, 0, k);
            },
        }
        let p = op_outcome(px, font, op).0;
        if op_outcome(px, font, op).1 is None {
            lemma_run_ops_avoid(p, font, ops.drop_first(), k);
        }
    }
}

/// The code point of `c`.
fn char_ordinal(c: char) -> (n: usize)
    ensures
        n as int == c as int,
{
    let v: u32 = c as u32;
    v as usize
}

/// The byte offset of the character after `c`, which starts at `offset`.
fn offset_after(offset: usize, c: char, Ghost(next): Ghost<int>) -> (n: usize)
    requires
        next == offset + utf8_width(c),
        next <= usize::MAX,
    ensures
        n == next,
{
    offset + utf8_width_of(c)
}

/// Reading a pixel back gives what was set there, and setting a pixel
/// leaves every other pixel as it was.
pub proof fn lemma_set_pixel_reads_back(px: Seq<u16>, c: u16, x: int, y: int, i: int)
    requires
        px.len() == SCREEN_SIZE,
        0 <= x,
        0 <= y,
        passes_bounds_check(x, y),
        pixel_index(x, y) < SCREEN_SIZE,
        0 <= i < SCREEN_SIZE,
    ensures
        set_pixel_outcome(px, c, x, y).0[pixel_index(x, y)] == c,
        i != pixel_index(x, y) ==> set_pixel_outcome(px, c, x, y).0[i] == px[i],
{
}

/// A rectangle that draws colours exactly the pixels inside it; one that
/// fails draws nothing.
pub proof fn lemma_rect_frame(px: Seq<u16>, c: u16, x: int, y: int, w: int, h: int, i: int)
    requires
        0 <= i < px.len(),
    ensures
        rect_outcome(px, c, x, y, w, h).0.len() == px.len(),
        rect_error(x, y, w, h) is None && in_rect(i, x, y, w, h) ==> rect_outcome(
            px,
            c,
            x,
            y,
            w,
            h,
        ).0[i] == c,
        !(rect_error(x, y, w, h) is None && in_rect(i, x, y, w, h)) ==> rect_outcome(
            px,
            c,
            x,
            y,
            w,
            h,
        ).0[i] == px[i],
{
}

/// Drawing the same rectangle twice draws what drawing it once does.
pub proof fn lemma_rect_idempotent(px: Seq<u16>, c: u16, x: int, y: int, w: int, h: int)
    ensures
        rect_outcome(rect_outcome(px, c, x, y, w, h).0, c, x, y, w, h) == rect_outcome(
            px,
            c,
            x,
            y,
            w,
            h,
        ),
{
    if rect_error(x, y, w, h) is None {
        assert(filled_rect(filled_rect(px, c, x, y, w, h), c, x, y, w, h) =~= filled_rect(
            px,
            c,
            x,
            y,
            w,
            h,
        ));
    }
}

/// Drawing a glyph whose 4 by 6 box lies on the screen changes only pixels
/// in that box: the columns `x + 1 ..= x + 4` and rows `y + 1 ..= y + 6`.
pub proof fn lemma_glyph_stays_in_box(px: Seq<u16>, glyph: u32, c: u16, x: int, y: int, i: int, k: int)
    requires
        0 <= i <= 24,
        0 <= x,
        0 <= y,
        px.len() == SCREEN_SIZE,
        x + 4 < SCREEN_WIDTH,
        y + 6 < SCREEN_HEIGHT,
        0 <= k < px.len(),
        !(x + 1 <= k / (SCREEN_HEIGHT as int) <= x + 4 && y + 1 <= k % (SCREEN_HEIGHT as int) <= y + 6),
    ensures
        glyph_pixels(px, glyph, c, x, y, i).len() == px.len(),
        glyph_pixels(px, glyph, c, x, y, i)[k] == px[k],
    decreases 24 - i,
{
    if i < 24 {
        if glyph_bit(glyph, i) && passes_bounds_check(glyph_x(x, i), glyph_y(y, i)) {
            let cx = glyph_x(x, i);
            let cy = glyph_y(y, i);
            let j = pixel_index(cx, cy);
            let p2 = px.update(j, c);
            assert(j / 128 == cx && j % 128 == cy);
            lemma_glyph_stays_in_box(p2, glyph, c, x, y, i + 1, k);
        } else {
            lemma_glyph_stays_in_box(px, glyph, c, x, y, i + 1, k);
        }
    }
}

/// Drawing from bit `j` on a glyph whose only set bit is `i`: the pixel of
/// bit `i` is set when `j <= i`, and nothing is drawn after it.
proof fn lemma_single_bit_from(px: Seq<u16>, i: u32, c: u16, x: int, y: int, j: int)
    requires
        i < 24,
        0 <= j <= 24,
        0 <= x,
        0 <= y,
        x + 4 < 160,
        y + 6 < 128,
    ensures
        glyph_pixels(px, 1u32 << i, c, x, y, j) == (if j <= i {
            px.update((x + 4 - i % 4) * 128 + (y + 6 - i / 4), c)
        } else {
            px
        }),
        glyph_fits(1u32 << i, x, y, j),
    decreases 24 - j,
{
    if j < 24 {
        lemma_single_bit_from(px, i, c, x, y, j + 1);
        let jj = j as u32;
        assert(((1u32 << i) >> jj) & 1u32 == 1u32 <==> jj == i) by (bit_vector)
            requires
                i < 24,
                jj < 24,
        ;
        if jj == i {
            lemma_single_bit_from(px.update((x + 4 - i % 4) * 128 + (y + 6 - i / 4), c), i, c, x, y, j + 1);
        }
    }
}

/// A glyph is six rows of four bits, read from its bottom right: bit `i`
/// alone, drawn at `(x, y)` inside the screen, lights exactly the pixel in
/// column `x + 4 - i % 4` and row `y + 6 - i / 4`, and the character of
/// that glyph is drawn without error.
pub proof fn lemma_single_bit_glyph(px: Seq<u16>, font: Seq<u32>, i: u32, c: u16, ord: int, x: int, y: int)
    requires
        i < 24,
        0 <= x,
        0 <= y,
        x + 4 < 160,
        y + 6 < 128,
        32 <= ord < 32 + font.len(),
        font[ord - 32] == 1u32 << i,
    ensures
        character_outcome(px, font, c, ord, x, y) == (
            px.update((x + 4 - i % 4) * 128 + (y + 6 - i / 4), c),
            None::<Seq<char>>,
        ),
{
    lemma_single_bit_from(px, i, c, x, y, 0);
}

/// Whether drawing the glyph at `(x, y)` is free of panics.
fn glyph_is_safe(glyph: u32, x: usize, y: usize) -> (b: bool)
    ensures
        b == glyph_safe(glyph, x as int, y as int, 0),
{
    let mut i: u32 = 0;
    while i < 24
        invariant
            i <= 24,
            glyph_safe(glyph, x as int, y as int, 0) == glyph_safe(glyph, x as int, y as int, i as int),
        decreases 24 - i,
    {
        if (glyph >> i) & 1 == 1 {
            if x > usize::MAX - 4 || y > usize::MAX - 6 {
                return false;
            }
            let cx: usize = x + 4 - (i % 4) as usize;
            let cy: usize = y + 6 - (i / 4) as usize;
            if cx > SCREEN_WIDTH || cy > SCREEN_HEIGHT {
                return true;
            }
            if cx * SCREEN_HEIGHT + cy >= SCREEN_SIZE {
                return false;
            }
        }
        i = i + 1;
    }
    true
}

/// Whether every lit bit of the glyph drawn at `(x, y)` passes the bounds
/// check.
fn glyph_is_on_screen(glyph: u32, x: usize, y: usize) -> (b: bool)
    ensures
        b == glyph_fits(glyph, x as int, y as int, 0),
{
    let mut i: u32 = 0;
    while i < 24
        invariant
            i <= 24,
            glyph_fits(glyph, x as int, y as int, 0) == glyph_fits(glyph, x as int, y as int, i as int),
        decreases 24 - i,
    {
        if (glyph >> i) & 1 == 1 {
            let col_slack: usize = (i % 4) as usize;
            let row_slack: usize = (i / 4) as usize;
            if x > 156 + col_slack || y > 122 + row_slack {
                return false;
            }
        }
        i = i + 1;
    }
    true
}

/// A framebuffer of 160 by 128 pixels of 16 bits each, with the 4-by-6
/// glyphs of the font that text is drawn in.
pub struct Screen {
    pixels: Vec<u16>,
    font: Vec<u32>,
}

impl View for Screen {
    type V = Seq<u16>;

    /// The pixels, column by column.
    closed spec fn view(&self) -> Seq<u16> {
        self.pixels@
    }
}

impl Screen {
    /// The glyphs, for characters 32 onwards.
    pub closed spec fn glyphs(&self) -> Seq<u32> {
        self.font@
    }

    /// The framebuffer holds every pixel of the screen. This holds of every
    /// `Screen`; `use_type_invariant` brings it into a proof.
    #[verifier::type_invariant]
    pub open spec fn inv(&self) -> bool {
        self@.len() == SCREEN_SIZE
    }

    /// A blank (all zero) framebuffer that draws text with the given glyphs,
    /// the glyph of character `32 + i` at index `i`.
    pub fn new(font: Vec<u32>) -> (s: Self)
        ensures
            s@ == Seq::new(SCREEN_SIZE as nat, |i: int| 0u16),
            s.glyphs() == font@,
    {
        let pixels: Vec<u16> = vec![0u16; SCREEN_SIZE];
        let s = Self { pixels, font };
        assert(s@ =~= Seq::new(SCREEN_SIZE as nat, |i: int| 0u16));
        s
    }

    /// The colour of pixel `(x, y)`.
    pub fn pixel(&self, x: usize, y: usize) -> (c: u16)
        requires
            x < SCREEN_WIDTH,
            y < SCREEN_HEIGHT,
        ensures
            c == self@[pixel_index(x as int, y as int)],
    {
        proof {
            use_type_invariant(&*self);
        }
        self.pixels[x * SCREEN_HEIGHT + y]
    }

    /// Sets pixel `(x, y)`. Fails, drawing nothing, when the position is past
    /// the screen's width or height.
    pub fn set_pixel(&mut self, colour: &Colour, x: usize, y: usize) -> (r: Result<(), Error>)
        requires
            pixel_writable(x as int, y as int),
        ensures
            final(self).glyphs() == old(self).glyphs(),
            (final(self)@, error_of(r)) == set_pixel_outcome(
                old(self)@,
                colour.spec_as_16bit(),
                x as int,
                y as int,
            ),
    {
        proof {
            use_type_invariant(&*self);
        }
        if x > SCREEN_WIDTH || y > SCREEN_HEIGHT {
            return Err(Error::new("Position out of screen bounds"));
        }
        let c = colour.as_16bit();
        self.pixels[x * SCREEN_HEIGHT + y] = c;
        Ok(())
    }

    /// Fills the whole screen.
    pub fn draw_flood(&mut self, colour: &Colour)
        ensures
            final(self).glyphs() == old(self).glyphs(),
            final(self)@ == Seq::new(SCREEN_SIZE as nat, |i: int| colour.spec_as_16bit()),
    {
        proof {
            use_type_invariant(&*self);
        }
        let c = colour.as_16bit();
        let mut i: usize = 0;
        while i < SCREEN_SIZE
            invariant
                self.glyphs() == old(self).glyphs(),
                self.pixels@.len() == SCREEN_SIZE,
                i <= SCREEN_SIZE,
                c == colour.spec_as_16bit(),
                forall|k: int| 0 <= k < i ==> self.pixels@[k] == c,
            decreases SCREEN_SIZE - i,
        {
            self.pixels[i] = c;
            i = i + 1;
        }
        assert(self@ =~= Seq::new(SCREEN_SIZE as nat, |i: int| colour.spec_as_16bit()));
    }

    /// Fills the rectangle with corner `(x, y)`, width `w` and height `h`.
    /// Fails, drawing nothing, when the corner is past the screen's width or
    /// height, when the rectangle reaches past the screen, or when it is
    /// empty, checked in that order.
    pub fn draw_rectangle(&mut self, colour: &Colour, x: usize, y: usize, w: usize, h: usize) -> (r: Result<(), Error>)
        requires
            rect_arith_fits(x as int, y as int, w as int, h as int),
        ensures
            final(self).glyphs() == old(self).glyphs(),
            (final(self)@, error_of(r)) == rect_outcome(
                old(self)@,
                colour.spec_as_16bit(),
                x as int,
                y as int,
                w as int,
                h as int,
            ),
    {
        self.fill_rect(colour.as_16bit(), x, y, w, h)
    }

    /// `draw_rectangle` with the colour already packed.
    fn fill_rect(&mut self, c: u16, x: usize, y: usize, w: usize, h: usize) -> (r: Result<(), Error>)
        requires
            rect_arith_fits(x as int, y as int, w as int, h as int),
        ensures
            final(self).glyphs() == old(self).glyphs(),
            (final(self)@, error_of(r)) == rect_outcome(
                old(self)@,
                c,
                x as int,
                y as int,
                w as int,
                h as int,
            ),
    {
        proof {
            use_type_invariant(&*self);
        }
        if x > SCREEN_WIDTH || y > SCREEN_HEIGHT {
            return Err(Error::new("Position out of screen bounds"));
        } else if x + w > SCREEN_WIDTH || y + h > SCREEN_HEIGHT {
            return Err(Error::new("Rectangle out of screen bounds"));
        } else if w == 0 || h == 0 {
            return Err(Error::new("Rectangle size out of bounds"));
        }
        let ghost old_px = self.pixels@;
        let mut col: usize = x;
        while col < x + w
            invariant
                self.glyphs() == old(self).glyphs(),
                old_px == old(self)@,
                self.pixels@.len() == SCREEN_SIZE,
                old_px.len() == SCREEN_SIZE,
                x <= col <= x + w,
                x + w <= SCREEN_WIDTH,
                y + h <= SCREEN_HEIGHT,
                self.pixels@ == filled_rect(old_px, c, x as int, y as int, col - x, h as int),
            decreases x + w - col,
        {
            let base: usize = col * SCREEN_HEIGHT + y;
            let mut row: usize = 0;
            while row < h
                invariant
                    self.glyphs() == old(self).glyphs(),
                    self.pixels@.len() == SCREEN_SIZE,
                    old_px.len() == SCREEN_SIZE,
                    x <= col < x + w,
                    x + w <= SCREEN_WIDTH,
                    y + h <= SCREEN_HEIGHT,
                    base == col * SCREEN_HEIGHT + y,
                    row <= h,
                    self.pixels@ == Seq::new(
                        SCREEN_SIZE as nat,
                        |i: int|
                            if in_rect(i, x as int, y as int, col - x, h as int) || in_rect(
                                i,
                                col as int,
                                y as int,
                                1,
                                row as int,
                            ) {
                                c
                            } else {
                                old_px[i]
                            },
                    ),
                decreases h - row,
            {
                let ghost before = self.pixels@;
                self.pixels[base + row] = c;
                proof {
                    let k = base + row;
                    assert(k / 128 == col && k % 128 == y + row);
                    assert(self.pixels@ =~= Seq::new(
                        SCREEN_SIZE as nat,
                        |i: int|
                            if in_rect(i, x as int, y as int, col - x, h as int) || in_rect(
                                i,
                                col as int,
                                y as int,
                                1,
                                row + 1,
                            ) {
                                c
                            } else {
                                old_px[i]
                            },
                    ));
                }
                row = row + 1;
            }
            proof {
                assert(self.pixels@ =~= filled_rect(old_px, c, x as int, y as int, col + 1 - x, h as int));
            }
            col = col + 1;
        }
        Ok(())
    }

    /// Draws character `ord` with its top left at `(x, y)`: bit `i` of its
    /// glyph, when set, lights pixel `(x + 4 - i % 4, y + 6 - i / 4)`.
    /// Fails when the font has no glyph for `ord` (none below 32), drawing
    /// nothing, or at the first lit pixel that fails the bounds check,
    /// keeping the pixels drawn before it.
    pub fn draw_character(&mut self, colour: &Colour, ord: usize, x: usize, y: usize) -> (r: Result<(), Error>)
        requires
            character_safe(old(self).glyphs(), ord as int, x as int, y as int),
        ensures
            final(self).glyphs() == old(self).glyphs(),
            (final(self)@, error_of(r)) == character_outcome(
                old(self)@,
                old(self).glyphs(),
                colour.spec_as_16bit(),
                ord as int,
                x as int,
                y as int,
            ),
    {
        proof {
            use_type_invariant(&*self);
        }
        if ord < 32 || ord - 32 >= self.font.len() {
            return Err(Error::new("Ordinal out of range"));
        }
        let character: u32 = self.font[ord - 32];
        let ghost c = colour.spec_as_16bit();
        let mut i: u32 = 0;
        while i < 24
            invariant
                self@.len() == SCREEN_SIZE,
                self.glyphs() == old(self).glyphs(),
                ord >= 32,
                ord - 32 < self.font@.len(),
                character == self.font@[ord - 32],
                c == colour.spec_as_16bit(),
                i <= 24,
                glyph_pixels(old(self)@, character, c, x as int, y as int, 0) == glyph_pixels(
                    self@,
                    character,
                    c,
                    x as int,
                    y as int,
                    i as int,
                ),
                glyph_fits(character, x as int, y as int, 0) == glyph_fits(
                    character,
                    x as int,
                    y as int,
                    i as int,
                ),
                glyph_safe(character, x as int, y as int, i as int),
            decreases 24 - i,
        {
            if (character >> i) & 1 == 1 {
                let cx: usize = x + 4 - (i % 4) as usize;
                let cy: usize = y + 6 - (i / 4) as usize;
                match self.set_pixel(colour, cx, cy) {
                    Ok(()) => {},
                    Err(e) => {
                        return Err(e);
                    },
                }
            }
            i = i + 1;
        }
        Ok(())
    }

    /// Draws `chars` left to right from `(x, y)`, character `k` at four
    /// pixels per UTF-8 byte of the characters before it. Stops at the first
    /// character that fails, keeping what was drawn.
    pub(crate) fn draw_chars(&mut self, colour: &Colour, chars: &[char], x: usize, y: usize) -> (r: Result<(), Error>)
        requires
            text_safe(old(self).glyphs(), chars@, x as int, y as int, 0),
        ensures
            final(self).glyphs() == old(self).glyphs(),
            final(self)@ == text_pixels(
                old(self)@,
                old(self).glyphs(),
                colour.spec_as_16bit(),
                chars@,
                x as int,
                y as int,
                0,
            ),
            error_of(r) == text_error(old(self).glyphs(), chars@, x as int, y as int, 0),
    {
        proof {
            use_type_invariant(&*self);
        }
        let ghost c = colour.spec_as_16bit();
        let ghost font = self.glyphs();
        let mut k: usize = 0;
        let mut offset: usize = 0;
        while k < chars.len()
            invariant
                self.glyphs() == font,
                font == old(self).glyphs(),
                c == colour.spec_as_16bit(),
                k <= chars@.len(),
                k > 0 ==> offset == byte_offset(chars@, k - 1),
                k == 0 ==> offset == 0,
                text_pixels(old(self)@, font, c, chars@, x as int, y as int, 0) == text_pixels(
                    self@,
                    font,
                    c,
                    chars@,
                    x as int,
                    y as int,
                    k as int,
                ),
                text_error(font, chars@, x as int, y as int, 0) == text_error(
                    font,
                    chars@,
                    x as int,
                    y as int,
                    k as int,
                ),
                text_safe(font, chars@, x as int, y as int, k as int),
            decreases chars@.len() - k,
        {
            if k > 0 {
                proof {
                    assert(byte_offset(chars@, k as int) == byte_offset(chars@, k - 1) + utf8_width(
                        chars@[k - 1],
                    ));
                }
                offset = offset_after(offset, chars[k - 1], Ghost(byte_offset(chars@, k as int)));
            }
            assert(offset == byte_offset(chars@, k as int));
            let cx: usize = x + offset * 4;
            let ord: usize = char_ordinal(chars[k]);
            match self.draw_character(colour, ord, cx, y) {
                Ok(()) => {},
                Err(e) => {
                    return Err(e);
                },
            }
            k = k + 1;
        }
        Ok(())
    }

    /// Draws `content` left to right from `(x, y)`: each character at four
    /// pixels per byte of the text before it. Stops at the first character
    /// that fails, keeping what was drawn.
    pub fn draw_text(&mut self, colour: &Colour, content: &str, x: usize, y: usize) -> (r: Result<(), Error>)
        requires
            text_safe(old(self).glyphs(), content@, x as int, y as int, 0),
        ensures
            final(self).glyphs() == old(self).glyphs(),
            final(self)@ == text_pixels(
                old(self)@,
                old(self).glyphs(),
                colour.spec_as_16bit(),
                content@,
                x as int,
                y as int,
                0,
            ),
            error_of(r) == text_error(old(self).glyphs(), content@, x as int, y as int, 0),
    {
        let chars = chars_of(content);
        self.draw_chars(colour, chars.as_slice(), x, y)
    }

    /// The bytes that go to the display's memory: every pixel in order, low
    /// byte first, as the pixels lie in the (little-endian) memory of the
    /// RP2040.
    pub fn frame_bytes(&self) -> (bytes: Vec<u8>)
        ensures
            bytes@.len() == 2 * SCREEN_SIZE,
            forall|k: int|
                0 <= k < SCREEN_SIZE ==> #[trigger] bytes@[2 * k] == self@[k] % 256 && bytes@[2 * k
                    + 1] == self@[k] / 256,
    {
        proof {
            use_type_invariant(&*self);
        }
        let mut bytes: Vec<u8> = Vec::new();
        let mut k: usize = 0;
        while k < SCREEN_SIZE
            invariant
                self@.len() == SCREEN_SIZE,
                k <= SCREEN_SIZE,
                bytes@.len() == 2 * k,
                forall|m: int|
                    0 <= m < k ==> #[trigger] bytes@[2 * m] == self@[m] % 256 && bytes@[2 * m + 1]
                        == self@[m] / 256,
            decreases SCREEN_SIZE - k,
        {
            let p: u16 = self.pixels[k];
            let lo: u8 = (p % 256) as u8;
            let hi: u8 = (p / 256) as u8;
            let ghost before = bytes@;
            bytes.push(lo);
            bytes.push(hi);
            proof {
                assert(bytes@ == before.push(lo).push(hi));
                assert forall|m: int| 0 <= m < k + 1 implies #[trigger] bytes@[2 * m] == self@[m]
                    % 256 && bytes@[2 * m + 1] == self@[m] / 256 by {
                    if m < k {
                        assert(bytes@[2 * m] == before[2 * m]);
                        assert(bytes@[2 * m + 1] == before[2 * m + 1]);
                    }
                }
            }
            k = k + 1;
        }
        bytes
    }

    /// Whether drawing character `ord` at `(x, y)` is free of panics.
    pub fn character_is_safe(&self, ord: usize, x: usize, y: usize) -> (b: bool)
        ensures
            b == character_safe(self.glyphs(), ord as int, x as int, y as int),
    {
        if ord < 32 || ord - 32 >= self.font.len() {
            return true;
        }
        glyph_is_safe(self.font[ord - 32], x, y)
    }

    /// Whether drawing `content` at `(x, y)` is free of panics.
    pub fn text_is_safe(&self, content: &str, x: usize, y: usize) -> (b: bool)
        ensures
            b == text_safe(self.glyphs(), content@, x as int, y as int, 0),
    {
        let chars = chars_of(content);
        let ghost font = self.glyphs();
        let mut k: usize = 0;
        let mut offset: usize = 0;
        while k < chars.len()
            invariant
                font == self.glyphs(),
                chars@ == content@,
                k <= chars@.len(),
                k > 0 ==> offset == byte_offset(chars@, k - 1),
                k > 0 ==> offset <= usize::MAX / 4,
                k == 0 ==> offset == 0,
                text_safe(font, chars@, x as int, y as int, 0) == text_safe(
                    font,
                    chars@,
                    x as int,
                    y as int,
                    k as int,
                ),
            decreases chars@.len() - k,
        {
            if k > 0 {
                proof {
                    assert(byte_offset(chars@, k as int) == byte_offset(chars@, k - 1) + utf8_width(
                        chars@[k - 1],
                    ));
                }
                offset = offset_after(offset, chars[k - 1], Ghost(byte_offset(chars@, k as int)));
            }
            assert(offset == byte_offset(chars@, k as int));
            if offset > usize::MAX / 4 {
                assert(offset * 4 > usize::MAX) by (nonlinear_arith)
                    requires
                        offset > usize::MAX / 4,
                ;
                assert(!text_safe(font, chars@, x as int, y as int, k as int));
                return false;
            }
            if x > usize::MAX - offset * 4 {
                assert(!text_safe(font, chars@, x as int, y as int, k as int));
                return false;
            }
            let cx: usize = x + offset * 4;
            assert(cx == text_char_x(chars@, x as int, k as int));
            let ord: usize = char_ordinal(chars[k]);
            if !self.character_is_safe(ord, cx, y) {
                assert(!text_safe(font, chars@, x as int, y as int, k as int));
                return false;
            }
            if ord < 32 || ord - 32 >= self.font.len() {
                assert(character_error(font, chars@[k as int] as int, cx as int, y as int) is Some);
                assert(text_safe(font, chars@, x as int, y as int, k as int));
                return true;
            }
            if !glyph_is_on_screen(self.font[ord - 32], cx, y) {
                assert(character_error(font, chars@[k as int] as int, cx as int, y as int) is Some);
                assert(text_safe(font, chars@, x as int, y as int, k as int));
                return true;
            }
            assert(character_error(font, chars@[k as int] as int, cx as int, y as int) is None);
            k = k + 1;
        }
        true
    }
}

} // verus!
