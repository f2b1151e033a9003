use vstd::prelude::*;
use crate::colour::{packed_rgb, Colour};
use crate::error::Error;
use crate::screen::{
    DrawOp, SCREEN_SIZE, Screen, error_of, in_rect, lemma_ascii_text_inside, lemma_ops_avoid_step,
    lemma_run_ops_avoid, lemma_run_ops_step, op_error, op_safe, ops_avoid, ops_safe,
    printable_ascii, run_ops,
};
use crate::text::{ascii_chars, lemma_ascii_decode, str_from_utf8};

verus! {

/// How many characters the keyboard's text buffer holds.
pub const MAX_CONTENT: usize = 256;

/// How many keys the keyboard has: 4 rows of 10.
pub const KEY_COUNT: usize = 40;

/// The label of key `k`, counting row by row from the top left: the rows
/// read `1234567890`, `QWERTYUIOP`, `ASDFGHJKL-` and `ZXCVBNM .+`.
pub open spec fn key_label(k: int) -> char {
    if k == 0 {
        '1'
    } else if k == 1 {
        '2'
    } else if k == 2 {
        '3'
    } else if k == 3 {
        '4'
    } else if k == 4 {
        '5'
    } else if k == 5 {
        '6'
    } else if k == 6 {
        '7'
    } else if k == 7 {
        '8'
    } else if k == 8 {
        '9'
    } else if k == 9 {
        '0'
    } else if k == 10 {
        'Q'
    } else if k == 11 {
        'W'
    } else if k == 12 {
        'E'
    } else if k == 13 {
        'R'
    } else if k == 14 {
        'T'
    } else if k == 15 {
        'Y'
    } else if k == 16 {
        'U'
    } else if k == 17 {
        'I'
    } else if k == 18 {
        'O'
    } else if k == 19 {
        'P'
    } else if k == 20 {
        'A'
    } else if k == 21 {
        'S'
    } else if k == 22 {
        'D'
    } else if k == 23 {
        'F'
    } else if k == 24 {
        'G'
    } else if k == 25 {
        'H'
    } else if k == 26 {
        'J'
    } else if k == 27 {
        'K'
    } else if k == 28 {
        'L'
    } else if k == 29 {
        '-'
    } else if k == 30 {
        'Z'
    } else if k == 31 {
        'X'
    } else if k == 32 {
        'C'
    } else if k == 33 {
        'V'
    } else if k == 34 {
        'B'
    } else if k == 35 {
        'N'
    } else if k == 36 {
        'M'
    } else if k == 37 {
        ' '
    } else if k == 38 {
        '.'
    } else {
        '+'
    }
}

/// The byte that pressing key `k` types.
pub open spec fn key_byte(k: int) -> u8 {
    key_label(k) as u8
}

/// Every key types a non-zero ASCII byte.
pub proof fn lemma_key_bytes_ascii(k: int)
    requires
        0 <= k < KEY_COUNT,
    ensures
        32 <= (key_label(k) as int) < 128,
        0 < key_byte(k) < 128,
        key_byte(k) as char == key_label(k),
{
}

/// The label of key `k`.
fn label_of(k: usize) -> (c: char)
    requires
        k < KEY_COUNT,
    ensures
        c == key_label(k as int),
{
    match k {
        0 => '1',
        1 => '2',
        2 => '3',
        3 => '4',
        4 => '5',
        5 => '6',
        6 => '7',
        7 => '8',
        8 => '9',
        9 => '0',
        10 => 'Q',
        11 => 'W',
        12 => 'E',
        13 => 'R',
        14 => 'T',
        15 => 'Y',
        16 => 'U',
        17 => 'I',
        18 => 'O',
        19 => 'P',
        20 => 'A',
        21 => 'S',
        22 => 'D',
        23 => 'F',
        24 => 'G',
        25 => 'H',
        26 => 'J',
        27 => 'K',
        28 => 'L',
        29 => '-',
        30 => 'Z',
        31 => 'X',
        32 => 'C',
        33 => 'V',
        34 => 'B',
        35 => 'N',
        36 => 'M',
        37 => ' ',
        38 => '.',
        _ => '+',
    }
}

/// The abstract state of a keyboard.
pub struct KeyboardView {
    /// Left edge on screen.
    pub x: usize,
    /// Top edge on screen.
    pub y: usize,
    /// The selected key, `0..40`, row by row.
    pub target: nat,
    /// Whether the selected key is drawn as held down.
    pub pressed: bool,
    /// What has been typed so far.
    pub text: Seq<u8>,
}

impl KeyboardView {
    /// The state after the selected key is pressed.
    pub open spec fn press(self) -> KeyboardView {
        KeyboardView { pressed: true, text: self.text.push(key_byte(self.target as int)), ..self }
    }

    /// The state after the selected key is let go.
    pub open spec fn unpress(self) -> KeyboardView {
        KeyboardView { pressed: false, ..self }
    }

    /// The state after the last typed character is removed, if there is one.
    pub open spec fn delete(self) -> KeyboardView {
        KeyboardView {
            text: if self.text.len() > 0 { self.text.drop_last() } else { self.text },
            ..self
        }
    }

    /// The state after the selection moves by `diff` keys, which it does only
    /// where the new position is one of the 40 keys.
    pub open spec fn moved(self, diff: int) -> KeyboardView {
        let t = self.target + diff;
        if 0 <= t < KEY_COUNT {
            KeyboardView { target: t as nat, ..self }
        } else {
            self
        }
    }

    /// The background of key `k`: lighter when selected, lightest when
    /// selected and held down.
    pub open spec fn key_background(self, k: int) -> u16 {
        if k == self.target {
            if self.pressed {
                grey(230)
            } else {
                grey(140)
            }
        } else {
            grey(115)
        }
    }

    /// The part of the typed text that is shown: its last 14 characters.
    pub open spec fn shown_text(self) -> Seq<char> {
        let t = ascii_chars(self.text);
        if t.len() >= 14 {
            t.subrange(t.len() - 14, t.len() as int)
        } else {
            t
        }
    }

    /// What drawing the keyboard draws, in order: for each key, row by row,
    /// a 6 by 8 box in its background and its label in white inside it; the
    /// keys start 8 pixels below the keyboard's corner. Then a 60 by 8 box
    /// at the corner and the shown text in white inside it.
    pub open spec fn blit_ops(self) -> Seq<DrawOp> {
        Seq::new(
            80,
            |n: int|
                {
                    let k = n / 2;
                    let i = k % 10;
                    let j = k / 10;
                    if n % 2 == 0 {
                        DrawOp::Rect {
                            colour: self.key_background(k),
                            x: self.x + i * 6,
                            y: self.y + j * 8 + 8,
                            w: 6,
                            h: 8,
                        }
                    } else {
                        DrawOp::Text {
                            colour: grey(255),
                            chars: seq![key_label(k)],
                            x: self.x + i * 6 + 1,
                            y: self.y + j * 8 + 9,
                        }
                    }
                },
        ) + seq![
            DrawOp::Rect { colour: grey(140), x: self.x as int, y: self.y as int, w: 60, h: 8 },
            DrawOp::Text { colour: grey(255), chars: self.shown_text(), x: self.x + 1, y: self.y + 1 },
        ]
    }

    /// What a keyboard in this state holds at all times.
    pub open spec fn valid(self) -> bool {
        &&& self.target < KEY_COUNT
        &&& self.text.len() <= MAX_CONTENT
        &&& forall|i: int| 0 <= i < self.text.len() ==> is_key_byte(#[trigger] self.text[i])
    }
}

/// The packed colour of the grey with all three channels `v`.
pub open spec fn grey(v: u8) -> u16 {
    packed_rgb(v, v, v) as u16
}

/// `b` is the byte of one of the keys.
pub open spec fn is_key_byte(b: u8) -> bool {
    exists|k: int| 0 <= k < KEY_COUNT && b == key_byte(k)
}

/// The first `len` bytes of `buffer` are typed keys and the rest are zero.
pub open spec fn buffer_holds_text(buffer: Seq<u8>, len: int) -> bool {
    &&& forall|i: int| 0 <= i < len ==> is_key_byte(#[trigger] buffer[i])
    &&& forall|i: int| len <= i < buffer.len() ==> #[trigger] buffer[i] == 0
}

/// Every change to a keyboard keeps it valid: typing into a buffer with
/// room, letting go, deleting, and moving the selection by any amount.
pub proof fn lemma_changes_keep_valid(s: KeyboardView, diff: int)
    requires
        s.valid(),
    ensures
        s.text.len() < MAX_CONTENT ==> s.press().valid(),
        s.unpress().valid(),
        s.delete().valid(),
        s.moved(diff).valid(),
{
    if s.text.len() < MAX_CONTENT {
        let t = s.press().text;
        assert forall|i: int| 0 <= i < t.len() implies is_key_byte(#[trigger] t[i]) by {
            if i == s.text.len() {
                assert(t[i] == key_byte(s.target as int));
            } else {
                assert(t[i] == s.text[i]);
            }
        }
    }
    let d = s.delete().text;
    assert forall|i: int| 0 <= i < d.len() implies is_key_byte(#[trigger] d[i]) by {
        assert(d[i] == s.text[i]);
    }
}

/// Deleting right after typing takes the typed character back out.
pub proof fn lemma_delete_undoes_press(s: KeyboardView)
    requires
        s.valid(),
        s.text.len() < MAX_CONTENT,
    ensures
        s.press().delete() == (KeyboardView { pressed: true, ..s }),
{
    assert(s.press().delete().text =~= s.text);
}

/// Typing appends the selected key's character and nothing else; moving
/// and letting go leave the text alone.
pub proof fn lemma_only_typing_changes_text(s: KeyboardView, diff: int)
    ensures
        s.press().text == s.text.push(key_byte(s.target as int)),
        s.moved(diff).text == s.text,
        s.unpress().text == s.text,
        s.press().target == s.target,
        s.delete().target == s.target,
{
}

/// A move that happened is undone by the opposite move: left then right,
/// right then left, up then down, down then up.
pub proof fn lemma_moves_undo(s: KeyboardView)
    requires
        s.valid(),
    ensures
        s.target >= 1 ==> s.moved(-1).moved(1) == s,
        s.target + 1 < KEY_COUNT ==> s.moved(1).moved(-1) == s,
        s.target >= 10 ==> s.moved(-10).moved(10) == s,
        s.target + 10 < KEY_COUNT ==> s.moved(10).moved(-10) == s,
{
}

/// A move that would leave the keys leaves the selection where it is: left
/// on the first key, right on the last, up on the top row, down on the
/// bottom row.
pub proof fn lemma_moves_stop_at_edges(s: KeyboardView)
    requires
        s.valid(),
    ensures
        s.target == 0 ==> s.moved(-1) == s,
        s.target == KEY_COUNT - 1 ==> s.moved(1) == s,
        s.target < 10 ==> s.moved(-10) == s,
        s.target >= 30 ==> s.moved(10) == s,
{
}

/// The text a keyboard shows is printable ASCII of at most 14 characters.
pub proof fn lemma_shown_text(kb: KeyboardView)
    requires
        kb.valid(),
    ensures
        printable_ascii(kb.shown_text()),
        kb.shown_text().len() <= 14,
{
    let t = ascii_chars(kb.text);
    assert forall|k: int| 0 <= k < t.len() implies 32 <= (#[trigger] t[k] as int) < 128 by {
        assert(is_key_byte(kb.text[k]));
        let kk = choose|kk: int| 0 <= kk < KEY_COUNT && kb.text[k] == key_byte(kk);
        lemma_key_bytes_ascii(kk);
    }
    let s = kb.shown_text();
    assert forall|k: int| 0 <= k < s.len() implies 32 <= (#[trigger] s[k] as int) < 128 by {
        if t.len() >= 14 {
            assert(s[k] == t[t.len() - 14 + k]);
        } else {
            assert(s[k] == t[k]);
        }
    }
}

/// The keys are laid out in four rows of ten, `1234567890`, `QWERTYUIOP`,
/// `ASDFGHJKL-` and `ZXCVBNM .+`: key `k` is the key in row `k / 10` and
/// column `k % 10`, and pressing it types that character as a byte.
pub proof fn lemma_key_layout(k: int)
    requires
        0 <= k < KEY_COUNT,
    ensures
        key_label(k) == seq!["1234567890"@, "QWERTYUIOP"@, "ASDFGHJKL-"@, "ZXCVBNM .+"@][k
            / 10][k % 10],
        key_byte(k) as char == key_label(k),
{
    reveal_strlit("1234567890");
    reveal_strlit("QWERTYUIOP");
    reveal_strlit("ASDFGHJKL-");
    reveal_strlit("ZXCVBNM .+");
    lemma_key_bytes_ascii(k);
}

/// The text line shows the end of what was typed: the last 14 characters,
/// or all of them when fewer were typed, so the newest character is always
/// shown last.
pub proof fn lemma_shown_text_is_suffix(kb: KeyboardView)
    ensures
        kb.shown_text().len() == (if kb.text.len() < 14 { kb.text.len() as int } else { 14 }),
        forall|i: int|
            0 <= i < kb.shown_text().len() ==> #[trigger] kb.shown_text()[i] == kb.text[kb.text.len()
                - kb.shown_text().len() + i] as char,
{
}

/// Letting go changes nothing but the held-down look: the selection, the
/// position and the text stay, so pressing again types the same key again.
pub proof fn lemma_unpress_keeps_selection(s: KeyboardView)
    ensures
        !s.unpress().pressed,
        s.unpress().target == s.target,
        s.unpress().x == s.x,
        s.unpress().y == s.y,
        s.unpress().text == s.text,
        s.press().unpress().press().text == s.text.push(key_byte(s.target as int)).push(
            key_byte(s.target as int),
        ),
{
}

/// Drawing the keys from key `n / 2` on does not panic.
proof fn lemma_key_ops_safe(kb: KeyboardView, font: Seq<u32>, n: int)
    requires
        kb.valid(),
        kb.x + 60 <= usize::MAX,
        kb.y + 40 <= usize::MAX,
        0 <= n <= 80,
        n % 2 == 0,
    ensures
        ops_safe(font, kb.blit_ops().skip(n)),
    decreases 80 - n,
{
    let ops = kb.blit_ops();
    if n < 80 {
        lemma_key_ops_safe(kb, font, n + 2);
        lemma_run_ops_step(Seq::empty(), font, ops, n);
        lemma_run_ops_step(Seq::empty(), font, ops, n + 1);
        let k = n / 2;
        let i = k % 10;
        let j = k / 10;
        assert((n + 1) / 2 == k && (n + 1) % 2 == 1);
        assert(ops[n] == DrawOp::Rect {
            colour: kb.key_background(k),
            x: kb.x + i * 6,
            y: kb.y + j * 8 + 8,
            w: 6,
            h: 8,
        });
        assert(op_safe(font, ops[n]));
        if op_error(font, ops[n]) is None {
            lemma_key_bytes_ascii(k);
            let label = seq![key_label(k)];
            assert(printable_ascii(label));
            lemma_ascii_text_inside(font, label, kb.x + i * 6 + 1, kb.y + j * 8 + 9, 0);
        }
    } else {
        lemma_run_ops_step(Seq::empty(), font, ops, 80);
        lemma_run_ops_step(Seq::empty(), font, ops, 81);
        assert(ops.skip(82).len() == 0);
        if op_error(font, ops[80]) is None {
            lemma_shown_text(kb);
            lemma_ascii_text_inside(font, kb.shown_text(), kb.x + 1, kb.y + 1, 0);
        }
    }
}

/// A keyboard whose corner leaves room for its 60 by 40 pixels within the
/// range of `usize` is drawn without panic, whatever the font.
pub proof fn lemma_blit_safe(kb: KeyboardView, font: Seq<u32>)
    requires
        kb.valid(),
        kb.x + 60 <= usize::MAX,
        kb.y + 40 <= usize::MAX,
    ensures
        ops_safe(font, kb.blit_ops()),
{
    lemma_key_ops_safe(kb, font, 0);
    assert(kb.blit_ops().skip(0) =~= kb.blit_ops());
}

/// The steps for the keys from key `n / 2` on leave pixel `k` alone when
/// it lies outside the keyboard's 60 by 40 area.
proof fn lemma_key_ops_avoid(kb: KeyboardView, font: Seq<u32>, n: int, k: int)
    requires
        kb.valid(),
        0 <= n <= 80,
        n % 2 == 0,
        0 <= k < SCREEN_SIZE,
        !in_rect(k, kb.x as int, kb.y as int, 60, 40),
    ensures
        ops_avoid(font, kb.blit_ops().skip(n), k),
    decreases 80 - n,
{
    let ops = kb.blit_ops();
    if n < 80 {
        lemma_key_ops_avoid(kb, font, n + 2, k);
        lemma_run_ops_step(Seq::empty(), font, ops, n);
        lemma_run_ops_step(Seq::empty(), font, ops, n + 1);
        lemma_ops_avoid_step(font, ops, n, k);
        lemma_ops_avoid_step(font, ops, n + 1, k);
        let kk = n / 2;
        let i = kk % 10;
        let j = kk / 10;
        assert((n + 1) / 2 == kk && (n + 1) % 2 == 1);
        if op_error(font, ops[n]) is None {
            lemma_key_bytes_ascii(kk);
            assert(printable_ascii(seq![key_label(kk)]));
        }
    } else {
        lemma_ops_avoid_step(font, ops, 80, k);
        lemma_ops_avoid_step(font, ops, 81, k);
        assert(ops.skip(82).len() == 0);
        if op_error(font, ops[80]) is None {
            lemma_shown_text(kb);
        }
    }
}

/// Drawing a keyboard changes no pixel outside its area: the 60 columns
/// and 40 rows from its corner.
pub proof fn lemma_blit_stays_in_area(kb: KeyboardView, font: Seq<u32>, px: Seq<u16>, k: int)
    requires
        kb.valid(),
        px.len() == SCREEN_SIZE,
        0 <= k < SCREEN_SIZE,
        !in_rect(k, kb.x as int, kb.y as int, 60, 40),
    ensures
        run_ops(px, font, kb.blit_ops()).0[k] == px[k],
{
    lemma_key_ops_avoid(kb, font, 0, k);
    assert(kb.blit_ops().skip(0) =~= kb.blit_ops());
    lemma_run_ops_avoid(px, font, kb.blit_ops(), k);
}

/// An on-screen keyboard of 40 keys with a line of typed text above it.
pub struct Keyboard {
    x: usize,
    y: usize,
    target: usize,
    pressed: bool,
    pointer: usize,
    content: [u8; 256],
}

impl View for Keyboard {
    type V = KeyboardView;

    closed spec fn view(&self) -> KeyboardView {
        KeyboardView {
            x: self.x,
            y: self.y,
            target: self.target as nat,
            pressed: self.pressed,
            text: self.content@.subrange(0, self.pointer as int),
        }
    }
}

impl Keyboard {
    /// The fields agree with each other: the text occupies the front of the
    /// buffer and the rest of the buffer is zero. This holds of every
    /// `Keyboard`; `use_type_invariant` brings it into a proof.
    #[verifier::type_invariant]
    pub closed spec fn inv(&self) -> bool {
        &&& self.target < KEY_COUNT
        &&& self.pointer <= MAX_CONTENT
        &&& buffer_holds_text(self.content@, self.pointer as int)
    }

    /// A keyboard's state is valid: `use_type_invariant` on it, then this.
    pub proof fn lemma_inv_valid(&self)
        requires
            self.inv(),
        ensures
            self@.valid(),
    {
        assert forall|i: int| 0 <= i < self@.text.len() implies is_key_byte(
            #[trigger] self@.text[i],
        ) by {
            assert(self@.text[i] == self.content@[i]);
        }
    }

    /// A keyboard at `(x, y)` with the first key selected and nothing typed.
    pub fn new(x: usize, y: usize) -> (k: Self)
        ensures
            k@.valid(),
            k@ == (KeyboardView { x, y, target: 0, pressed: false, text: Seq::empty() }),
    {
        let k = Self { x, y, target: 0, pressed: false, pointer: 0, content: [0u8; 256] };
        assert(k@.text =~= Seq::<u8>::empty());
        k
    }

    /// How many characters have been typed.
    pub fn len(&self) -> (n: usize)
        ensures
            n == self@.text.len(),
            self@.valid(),
    {
        proof {
            use_type_invariant(self);
            self.lemma_inv_valid();
        }
        self.pointer
    }

    /// Types the selected key and shows it held down. The buffer must have
    /// room left: pressing with a full buffer panics.
    pub fn press(&mut self)
        requires
            old(self)@.text.len() < MAX_CONTENT,
        ensures
            final(self)@ == old(self)@.press(),
            final(self)@.valid(),
    {
        proof {
            use_type_invariant(&*self);
        }
        let label = label_of(self.target);
        proof {
            lemma_key_bytes_ascii(self.target as int);
        }
        let byte: u8 = label as u8;
        let mut content: [u8; 256] = self.content;
        let p: usize = self.pointer;
        content[p] = byte;
        let pointer: usize = if p < MAX_CONTENT {
            p + 1
        } else {
            p
        };
        proof {
            assert(content@ == self.content@.update(p as int, byte));
            assert(byte == key_byte(self.target as int));
            assert forall|i: int| 0 <= i < pointer implies is_key_byte(#[trigger] content@[i]) by {
                if i == p {
                    assert(content@[i] == key_byte(self.target as int));
                } else {
                    assert(content@[i] == self.content@[i]);
                }
            }
            assert forall|i: int| pointer <= i < content@.len() implies #[trigger] content@[i]
                == 0 by {
                assert(content@[i] == self.content@[i]);
            }
        }
        *self = Keyboard { x: self.x, y: self.y, target: self.target, pressed: true, pointer, content };
        proof {
            assert(self@.text =~= old(self)@.text.push(key_byte(old(self).target as int)));
            self.lemma_inv_valid();
        }
    }

    /// Shows the selected key as not held down.
    pub fn unpress(&mut self)
        ensures
            final(self)@ == old(self)@.unpress(),
    {
        proof {
            use_type_invariant(&*self);
        }
        self.pressed = false;
    }

    /// Removes the last typed character, if there is one.
    pub fn delete(&mut self)
        ensures
            final(self)@ == old(self)@.delete(),
    {
        proof {
            use_type_invariant(&*self);
        }
        let pointer: usize = if self.pointer > 0 {
            self.pointer - 1
        } else {
            self.pointer
        };
        let mut content: [u8; 256] = self.content;
        content[pointer] = 0;
        proof {
            assert(content@ == self.content@.update(pointer as int, 0u8));
            assert forall|i: int| 0 <= i < pointer implies is_key_byte(#[trigger] content@[i]) by {
                assert(content@[i] == self.content@[i]);
            }
            assert forall|i: int| pointer <= i < content@.len() implies #[trigger] content@[i]
                == 0 by {
                if i != pointer {
                    assert(content@[i] == self.content@[i]);
                }
            }
        }
        *self = Keyboard { x: self.x, y: self.y, target: self.target, pressed: self.pressed, pointer, content };
        proof {
            assert(self@.text =~= old(self)@.delete().text);
        }
    }

    /// Moves the selection by `diff` keys, unless that would leave the keys.
    fn mutate_target(&mut self, diff: isize)
        requires
            isize::MIN <= diff + old(self).target <= isize::MAX,
        ensures
            final(self)@ == old(self)@.moved(diff as int),
    {
        proof {
            use_type_invariant(&*self);
        }
        let res: isize = diff + self.target as isize;
        if res < 0 || res >= 40 {
            return;
        }
        self.target = res as usize;
    }

    /// Moves the selection one key left, onto the end of the row above when
    /// it is at the start of a row; stays on the first key.
    pub fn left(&mut self)
        ensures
            final(self)@ == old(self)@.moved(-1),
    {
        proof {
            use_type_invariant(&*self);
        }
        self.mutate_target(-1);
    }

    /// Moves the selection one key right, onto the start of the row below
    /// when it is at the end of a row; stays on the last key.
    pub fn right(&mut self)
        ensures
            final(self)@ == old(self)@.moved(1),
    {
        proof {
            use_type_invariant(&*self);
        }
        self.mutate_target(1);
    }

    /// Moves the selection one row up; stays put on the top row.
    pub fn up(&mut self)
        ensures
            final(self)@ == old(self)@.moved(-10),
    {
        proof {
            use_type_invariant(&*self);
        }
        self.mutate_target(-10);
    }

    /// Moves the selection one row down; stays put on the bottom row.
    pub fn down(&mut self)
        ensures
            final(self)@ == old(self)@.moved(10),
    {
        proof {
            use_type_invariant(&*self);
        }
        self.mutate_target(10);
    }

    /// The typed text.
    pub fn get_content(&self) -> (s: &str)
        ensures
            s@ == ascii_chars(self@.text),
    {
        proof {
            use_type_invariant(self);
        }
        // the text ends after the last non-zero byte
        let mut end: usize = MAX_CONTENT;
        while end > 0 && self.content[end - 1] == 0
            invariant
                self.inv(),
                self.pointer <= end <= MAX_CONTENT,
            decreases end,
        {
            proof {
                if end - 1 < self.pointer {
                    let i = end - 1;
                    let k = choose|k: int| 0 <= k < KEY_COUNT && self.content@[i] == key_byte(k);
                    lemma_key_bytes_ascii(k);
                }
            }
            end = end - 1;
        }
        proof {
            if end > self.pointer {
                assert(self.content@[end - 1] == 0);
            }
        }
        let bytes = vstd::slice::slice_subrange(self.content.as_slice(), 0, end);
        proof {
            assert(bytes@ == self@.text);
            assert forall|i: int| 0 <= i < bytes@.len() implies #[trigger] bytes@[i] < 128 by {
                let k = choose|k: int| 0 <= k < KEY_COUNT && self.content@[i] == key_byte(k);
                lemma_key_bytes_ascii(k);
            }
            lemma_ascii_decode(bytes@);
        }
        str_from_utf8(bytes).unwrap()
    }

    /// Draws the keyboard onto `screen`. Stops at the first drawing step that
    /// fails, keeping what was drawn, and returns its error. Drawing does
    /// not overflow when the 60 by 40 pixels from the keyboard's corner lie
    /// within the range of `usize`.
    pub fn blit(&self, screen: &mut Screen) -> (r: Result<(), Error>)
        requires
            ops_safe(old(screen).glyphs(), self@.blit_ops()) || (self@.x + 60 <= usize::MAX
                && self@.y + 40 <= usize::MAX),
        ensures
            final(screen).glyphs() == old(screen).glyphs(),
            (final(screen)@, error_of(r)) == run_ops(
                old(screen)@,
                old(screen).glyphs(),
                self@.blit_ops(),
            ),
    {
        proof {
            use_type_invariant(self);
            self.lemma_inv_valid();
            if !ops_safe(screen.glyphs(), self@.blit_ops()) {
                lemma_blit_safe(self@, screen.glyphs());
            }
        }
        let ghost font = screen.glyphs();
        let ghost ops = self@.blit_ops();
        let bg = Colour::new(115, 115, 115);
        let hover = Colour::new(140, 140, 140);
        let press = Colour::new(230, 230, 230);
        let text = Colour::new(255, 255, 255);
        assert(ops.skip(0) =~= ops);
        let mut k: usize = 0;
        while k < KEY_COUNT
            invariant
                self.inv(),
                screen.glyphs() == font,
                font == old(screen).glyphs(),
                ops == self@.blit_ops(),
                ops.len() == 82,
                k <= KEY_COUNT,
                bg@ == (115u8, 115u8, 115u8),
                hover@ == (140u8, 140u8, 140u8),
                press@ == (230u8, 230u8, 230u8),
                text@ == (255u8, 255u8, 255u8),
                run_ops(old(screen)@, font, ops) == run_ops(screen@, font, ops.skip(2 * k)),
                ops_safe(font, ops.skip(2 * k)),
            decreases KEY_COUNT - k,
        {
            let i: usize = k % 10;
            let j: usize = k / 10;
            let colour = if k == self.target {
                if self.pressed {
                    &press
                } else {
                    &hover
                }
            } else {
                &bg
            };
            proof {
                lemma_run_ops_step(screen@, font, ops, 2 * k);
                assert((2 * k) / 2 == k && (2 * k) % 2 == 0);
            }
            match screen.draw_rectangle(colour, self.x + i * 6, self.y + j * 8 + 8, 6, 8) {
                Ok(()) => {},
                Err(e) => {
                    return Err(e);
                },
            }
            proof {
                lemma_run_ops_step(screen@, font, ops, 2 * k + 1);
                assert((2 * k + 1) / 2 == k && (2 * k + 1) % 2 == 1);
            }
            let label: [char; 1] = [label_of(k)];
            assert(label@ =~= seq![key_label(k as int)]);
            match screen.draw_chars(&text, label.as_slice(), self.x + i * 6 + 1, self.y + j * 8 + 9) {
                Ok(()) => {},
                Err(e) => {
                    return Err(e);
                },
            }
            k = k + 1;
        }
        let shown = self.shown_chars();
        proof {
            lemma_run_ops_step(screen@, font, ops, 80);
        }
        match screen.draw_rectangle(&hover, self.x, self.y, 60, 8) {
            Ok(()) => {},
            Err(e) => {
                return Err(e);
            },
        }
        proof {
            lemma_run_ops_step(screen@, font, ops, 81);
            assert(ops.skip(82).len() == 0);
        }
        screen.draw_chars(&text, shown.as_slice(), self.x + 1, self.y + 1)
    }

    /// The last 14 typed characters, or all of them when there are fewer.
    fn shown_chars(&self) -> (v: Vec<char>)
        ensures
            v@ == self@.shown_text(),
    {
        proof {
            use_type_invariant(self);
        }
        let start: usize = if self.pointer >= 14 {
            self.pointer - 14
        } else {
            0
        };
        let mut v: Vec<char> = Vec::new();
        let mut i: usize = start;
        while i < self.pointer
            invariant
                self.inv(),
                start <= i <= self.pointer,
                start == (if self.pointer >= 14 { self.pointer - 14 } else { 0 }),
                v@ == ascii_chars(self@.text).subrange(start as int, i as int),
            decreases self.pointer - i,
        {
            let b: u8 = self.content[i];
            v.push(b as char);
            proof {
                assert(v@ =~= ascii_chars(self@.text).subrange(start as int, i + 1));
            }
            i = i + 1;
        }
        proof {
            if self.pointer < 14 {
                assert(v@ =~= ascii_chars(self@.text));
            }
        }
        v
    }
}

} // verus!
