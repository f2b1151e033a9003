use vstd::prelude::*;
use crate::colour::Colour;
use crate::error::Error;
use crate::keyboard::grey;
use crate::screen::{
    DrawOp, SCREEN_SIZE, Screen, error_of, in_rect, lemma_ops_avoid_step, lemma_run_ops_avoid,
    lemma_run_ops_step, op_safe, ops_avoid, ops_safe, run_ops,
};

verus! {

/// Part `s` (`0..3`) of the arrow for direction `d` (`0..4`: up, right,
/// down, left), as `(dx, dy, w, h)`: a box at offset `(dx, dy)` from the
/// indicator's corner, `w` wide and `h` high. Each arrow is a wide bar and
/// two narrowing steps pointing at the centre.
pub open spec fn arrow_part(d: int, s: int) -> (int, int, int, int) {
    if d == 0 {
        if s == 0 { (15, 0, 15, 12) } else if s == 1 { (18, 12, 9, 3) } else { (21, 15, 3, 3) }
    } else if d == 1 {
        if s == 0 { (32, 15, 12, 15) } else if s == 1 { (30, 18, 3, 9) } else { (27, 21, 3, 3) }
    } else if d == 2 {
        if s == 0 { (15, 33, 15, 12) } else if s == 1 { (18, 30, 9, 3) } else { (21, 27, 3, 3) }
    } else {
        if s == 0 { (0, 15, 12, 15) } else if s == 1 { (12, 18, 3, 9) } else { (15, 21, 3, 3) }
    }
}

fn arrow_part_of(d: usize, s: usize) -> (r: (usize, usize, usize, usize))
    requires
        d < 4,
        s < 3,
    ensures
        (r.0 as int, r.1 as int, r.2 as int, r.3 as int) == arrow_part(d as int, s as int),
{
    if d == 0 {
        if s == 0 { (15, 0, 15, 12) } else if s == 1 { (18, 12, 9, 3) } else { (21, 15, 3, 3) }
    } else if d == 1 {
        if s == 0 { (32, 15, 12, 15) } else if s == 1 { (30, 18, 3, 9) } else { (27, 21, 3, 3) }
    } else if d == 2 {
        if s == 0 { (15, 33, 15, 12) } else if s == 1 { (18, 30, 9, 3) } else { (21, 27, 3, 3) }
    } else {
        if s == 0 { (0, 15, 12, 15) } else if s == 1 { (12, 18, 3, 9) } else { (15, 21, 3, 3) }
    }
}

/// The abstract state of a direction-pad indicator.
pub struct DPadView {
    /// Left edge on screen.
    pub x: usize,
    /// Top edge on screen.
    pub y: usize,
    /// Which directions are shown pressed: up, right, down, left.
    pub pressed: (bool, bool, bool, bool),
    /// The packed colour of a pressed direction.
    pub light: u16,
    /// The packed colour of a direction that is not pressed.
    pub neutral: u16,
}

impl DPadView {
    /// Direction `d` (`0..4`: up, right, down, left) is shown pressed.
    pub open spec fn is_pressed(self, d: int) -> bool {
        if d == 0 {
            self.pressed.0
        } else if d == 1 {
            self.pressed.1
        } else if d == 2 {
            self.pressed.2
        } else {
            self.pressed.3
        }
    }

    /// What drawing the indicator draws, in order: the three boxes of each
    /// arrow, up, right, down, left, in the light colour when the direction
    /// is pressed and in the neutral one when it is not.
    pub open spec fn blit_ops(self) -> Seq<DrawOp> {
        Seq::new(
            12,
            |n: int|
                {
                    let d = n / 3;
                    let (dx, dy, w, h) = arrow_part(d, n % 3);
                    DrawOp::Rect {
                        colour: if self.is_pressed(d) {
                            self.light
                        } else {
                            self.neutral
                        },
                        x: self.x + dx,
                        y: self.y + dy,
                        w,
                        h,
                    }
                },
        )
    }
}

/// Shows which directions of a d-pad are pressed, as four arrows around a
/// centre, 45 pixels square.
pub struct DPadIndicator {
    x: usize,
    y: usize,
    up_pressed: bool,
    right_pressed: bool,
    down_pressed: bool,
    left_pressed: bool,
    light_color: Colour,
    neutral_color: Colour,
}

impl View for DPadIndicator {
    type V = DPadView;

    closed spec fn view(&self) -> DPadView {
        DPadView {
            x: self.x,
            y: self.y,
            pressed: (self.up_pressed, self.right_pressed, self.down_pressed, self.left_pressed),
            light: self.light_color.spec_as_16bit(),
            neutral: self.neutral_color.spec_as_16bit(),
        }
    }
}

impl DPadIndicator {
    /// An indicator at `(x, y)` with nothing pressed, lit in light grey
    /// (231) and dark grey (66) otherwise.
    pub fn new(x: usize, y: usize) -> (d: Self)
        ensures
            d@ == (DPadView {
                x,
                y,
                pressed: (false, false, false, false),
                light: grey(231),
                neutral: grey(66),
            }),
    {
        Self {
            x,
            y,
            up_pressed: false,
            right_pressed: false,
            down_pressed: false,
            left_pressed: false,
            light_color: Colour::new(231, 231, 231),
            neutral_color: Colour::new(66, 66, 66),
        }
    }

    /// Sets which directions are shown pressed.
    pub fn set_pressed(&mut self, up_pressed: bool, right_pressed: bool, down_pressed: bool, left_pressed: bool)
        ensures
            final(self)@ == (DPadView {
                pressed: (up_pressed, right_pressed, down_pressed, left_pressed),
                ..old(self)@
            }),
    {
        self.up_pressed = up_pressed;
        self.right_pressed = right_pressed;
        self.down_pressed = down_pressed;
        self.left_pressed = left_pressed;
    }

    /// Draws the indicator onto `screen`. Stops at the first box that
    /// fails, keeping what was drawn, and returns its error. Drawing does
    /// not overflow when the 44 by 45 pixels from the indicator's corner lie
    /// within the range of `usize`.
    pub fn blit(&self, screen: &mut Screen) -> (r: Result<(), Error>)
        requires
            ops_safe(old(screen).glyphs(), self@.blit_ops()) || (self@.x + 44 <= usize::MAX
                && self@.y + 45 <= usize::MAX),
        ensures
            final(screen).glyphs() == old(screen).glyphs(),
            (final(screen)@, error_of(r)) == run_ops(
                old(screen)@,
                old(screen).glyphs(),
                self@.blit_ops(),
            ),
    {
        proof {
            if !ops_safe(screen.glyphs(), self@.blit_ops()) {
                lemma_dpad_blit_safe(self@, screen.glyphs());
            }
        }
        let ghost font = screen.glyphs();
        let ghost ops = self@.blit_ops();
        assert(ops.skip(0) =~= ops);
        let mut d: usize = 0;
        while d < 4
            invariant
                screen.glyphs() == font,
                font == old(screen).glyphs(),
                ops == self@.blit_ops(),
                d <= 4,
                run_ops(old(screen)@, font, ops) == run_ops(screen@, font, ops.skip(3 * d)),
                ops_safe(font, ops.skip(3 * d)),
            decreases 4 - d,
        {
            let pressed = if d == 0 {
                self.up_pressed
            } else if d == 1 {
                self.right_pressed
            } else if d == 2 {
                self.down_pressed
            } else {
                self.left_pressed
            };
            let color = if pressed {
                &self.light_color
            } else {
                &self.neutral_color
            };
            let mut s: usize = 0;
            while s < 3
                invariant
                    screen.glyphs() == font,
                    font == old(screen).glyphs(),
                    ops == self@.blit_ops(),
                    d < 4,
                    s <= 3,
                    pressed == self@.is_pressed(d as int),
                    color.spec_as_16bit() == (if pressed {
                        self@.light
                    } else {
                        self@.neutral
                    }),
                    run_ops(old(screen)@, font, ops) == run_ops(
                        screen@,
                        font,
                        ops.skip(3 * d + s),
                    ),
                    ops_safe(font, ops.skip(3 * d + s)),
                decreases 3 - s,
            {
                let (dx, dy, w, h) = arrow_part_of(d, s);
                proof {
                    lemma_run_ops_step(screen@, font, ops, 3 * d + s);
                    assert((3 * d + s) / 3 == d && (3 * d + s) % 3 == s);
                }
                match screen.draw_rectangle(color, self.x + dx, self.y + dy, w, h) {
                    Ok(()) => {},
                    Err(e) => {
                        return Err(e);
                    },
                }
                s = s + 1;
            }
            d = d + 1;
        }
        assert(ops.skip(12).len() == 0);
        Ok(())
    }
}

/// What an indicator draws after `set_pressed(up, right, down, left)`:
/// twelve boxes, three per arrow, the up arrow above the centre, the right
/// arrow to its right, the down arrow below and the left arrow to its left;
/// each arrow in the light colour exactly when its own direction was set.
pub proof fn lemma_dpad_arrows(dp: DPadView, up: bool, right: bool, down: bool, left: bool)
    ensures
        ({
            let v = DPadView { pressed: (up, right, down, left), ..dp };
            let ops = v.blit_ops();
            let lit = |on: bool| if on { dp.light } else { dp.neutral };
            &&& ops.len() == 12
            &&& ops[0] == (DrawOp::Rect { colour: lit(up), x: dp.x + 15, y: dp.y + 0, w: 15, h: 12 })
            &&& ops[1] == (DrawOp::Rect { colour: lit(up), x: dp.x + 18, y: dp.y + 12, w: 9, h: 3 })
            &&& ops[2] == (DrawOp::Rect { colour: lit(up), x: dp.x + 21, y: dp.y + 15, w: 3, h: 3 })
            &&& ops[3] == (DrawOp::Rect { colour: lit(right), x: dp.x + 32, y: dp.y + 15, w: 12, h: 15 })
            &&& ops[4] == (DrawOp::Rect { colour: lit(right), x: dp.x + 30, y: dp.y + 18, w: 3, h: 9 })
            &&& ops[5] == (DrawOp::Rect { colour: lit(right), x: dp.x + 27, y: dp.y + 21, w: 3, h: 3 })
            &&& ops[6] == (DrawOp::Rect { colour: lit(down), x: dp.x + 15, y: dp.y + 33, w: 15, h: 12 })
            &&& ops[7] == (DrawOp::Rect { colour: lit(down), x: dp.x + 18, y: dp.y + 30, w: 9, h: 3 })
            &&& ops[8] == (DrawOp::Rect { colour: lit(down), x: dp.x + 21, y: dp.y + 27, w: 3, h: 3 })
            &&& ops[9] == (DrawOp::Rect { colour: lit(left), x: dp.x + 0, y: dp.y + 15, w: 12, h: 15 })
            &&& ops[10] == (DrawOp::Rect { colour: lit(left), x: dp.x + 12, y: dp.y + 18, w: 3, h: 9 })
            &&& ops[11] == (DrawOp::Rect { colour: lit(left), x: dp.x + 15, y: dp.y + 21, w: 3, h: 3 })
        }),
{
}

/// Drawing the boxes from box `n` on does not panic.
proof fn lemma_dpad_ops_safe(dp: DPadView, font: Seq<u32>, n: int)
    requires
        dp.x + 44 <= usize::MAX,
        dp.y + 45 <= usize::MAX,
        0 <= n <= 12,
    ensures
        ops_safe(font, dp.blit_ops().skip(n)),
    decreases 12 - n,
{
    let ops = dp.blit_ops();
    if n < 12 {
        lemma_dpad_ops_safe(dp, font, n + 1);
        lemma_run_ops_step(Seq::empty(), font, ops, n);
        assert(op_safe(font, ops[n]));
    } else {
        assert(ops.skip(12).len() == 0);
    }
}

/// An indicator whose corner leaves room for its 44 by 45 pixels within the
/// range of `usize` is drawn without panic.
pub proof fn lemma_dpad_blit_safe(dp: DPadView, font: Seq<u32>)
    requires
        dp.x + 44 <= usize::MAX,
        dp.y + 45 <= usize::MAX,
    ensures
        ops_safe(font, dp.blit_ops()),
{
    lemma_dpad_ops_safe(dp, font, 0);
    assert(dp.blit_ops().skip(0) =~= dp.blit_ops());
}

/// The boxes from box `n` on leave pixel `k` alone when it lies outside
/// the indicator's 44 by 45 area.
proof fn lemma_dpad_ops_avoid(dp: DPadView, font: Seq<u32>, n: int, k: int)
    requires
        0 <= n <= 12,
        !in_rect(k, dp.x as int, dp.y as int, 44, 45),
    ensures
        ops_avoid(font, dp.blit_ops().skip(n), k),
    decreases 12 - n,
{
    let ops = dp.blit_ops();
    if n < 12 {
        lemma_dpad_ops_avoid(dp, font, n + 1, k);
        lemma_ops_avoid_step(font, ops, n, k);
    } else {
        assert(ops.skip(12).len() == 0);
    }
}

/// Drawing an indicator changes no pixel outside its area: the 44 columns
/// and 45 rows from its corner.
pub proof fn lemma_dpad_blit_stays_in_area(dp: DPadView, font: Seq<u32>, px: Seq<u16>, k: int)
    requires
        px.len() == SCREEN_SIZE,
        0 <= k < SCREEN_SIZE,
        !in_rect(k, dp.x as int, dp.y as int, 44, 45),
    ensures
        run_ops(px, font, dp.blit_ops()).0[k] == px[k],
{
    lemma_dpad_ops_avoid(dp, font, 0, k);
    assert(dp.blit_ops().skip(0) =~= dp.blit_ops());
    lemma_run_ops_avoid(px, font, dp.blit_ops(), k);
}

} // verus!
