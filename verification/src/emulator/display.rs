use vstd::prelude::*;

verus! {

/// Width of the screen in pixels.
pub const PIXEL_WIDTH: usize = 64;

/// Height of the screen in pixels.
pub const PIXEL_HEIGHT: usize = 32;

/// Address at which the built-in hexadecimal font is stored.
pub const FONT_START_ADDRESS: u16 = 0x50;

/// Number of bytes (rows) of one font character.
pub const FONT_BYTES_PER_CHARACTER: usize = 5;

/// The 16 hexadecimal digit sprites, five rows of one byte each, 0 to F.
pub open spec fn font_sprites() -> Seq<u8> {
    seq![
        0xF0u8, 0x90, 0x90, 0x90, 0xF0,  // 0
        0x20, 0x60, 0x20, 0x20, 0x70,  // 1
        0xF0, 0x10, 0xF0, 0x80, 0xF0,  // 2
        0xF0, 0x10, 0xF0, 0x10, 0xF0,  // 3
        0x90, 0x90, 0xF0, 0x10, 0x10,  // 4
        0xF0, 0x80, 0xF0, 0x10, 0xF0,  // 5
        0xF0, 0x80, 0xF0, 0x90, 0xF0,  // 6
        0xF0, 0x10, 0x20, 0x40, 0x40,  // 7
        0xF0, 0x90, 0xF0, 0x90, 0xF0,  // 8
        0xF0, 0x90, 0xF0, 0x10, 0xF0,  // 9
        0xF0, 0x90, 0xF0, 0x90, 0x90,  // A
        0xE0, 0x90, 0xE0, 0x90, 0xE0,  // B
        0xF0, 0x80, 0x80, 0x80, 0xF0,  // C
        0xE0, 0x90, 0x90, 0x90, 0xE0,  // D
        0xF0, 0x80, 0xF0, 0x80, 0xF0,  // E
        0xF0, 0x80, 0xF0, 0x80, 0x80,  // F
    ]
}

/// The font as bytes, in the order in which it is stored in memory.
pub fn font() -> (bytes: [u8; 80])
    ensures
        bytes@ == font_sprites(),
{
    let bytes: [u8; 80] = [
        0xF0, 0x90, 0x90, 0x90, 0xF0,  // 0
        0x20, 0x60, 0x20, 0x20, 0x70,  // 1
        0xF0, 0x10, 0xF0, 0x80, 0xF0,  // 2
        0xF0, 0x10, 0xF0, 0x10, 0xF0,  // 3
        0x90, 0x90, 0xF0, 0x10, 0x10,  // 4
        0xF0, 0x80, 0xF0, 0x10, 0xF0,  // 5
        0xF0, 0x80, 0xF0, 0x90, 0xF0,  // 6
        0xF0, 0x10, 0x20, 0x40, 0x40,  // 7
        0xF0, 0x90, 0xF0, 0x90, 0xF0,  // 8
        0xF0, 0x90, 0xF0, 0x10, 0xF0,  // 9
        0xF0, 0x90, 0xF0, 0x90, 0x90,  // A
        0xE0, 0x90, 0xE0, 0x90, 0xE0,  // B
        0xF0, 0x80, 0x80, 0x80, 0xF0,  // C
        0xE0, 0x90, 0x90, 0x90, 0xE0,  // D
        0xF0, 0x80, 0xF0, 0x80, 0xF0,  // E
        0xF0, 0x80, 0xF0, 0x80, 0x80,  // F
    ];
    assert(bytes@ =~= font_sprites());
    bytes
}

/// Whether bit `offset` of `byte`, counted from the most significant bit, is set.
pub open spec fn bit_set(byte: u8, offset: usize) -> bool {
    byte & (0x80u8 >> offset) != 0u8
}

/// Whether `(px, py)` lies on the screen.
pub open spec fn on_screen(px: int, py: int) -> bool {
    0 <= px < PIXEL_WIDTH && 0 <= py < PIXEL_HEIGHT
}

/// Whether a set bit of `sprite`, drawn with its top-left corner at
/// `(x mod 64, y mod 32)`, lands on pixel `(px, py)`. The sprite is clipped at
/// the right and bottom edges: nothing wraps around.
pub open spec fn covers(x: usize, y: usize, sprite: Seq<u8>, px: int, py: int) -> bool {
    let row = py - (y % PIXEL_HEIGHT) as int;
    let column = px - (x % PIXEL_WIDTH) as int;
    &&& 0 <= row < sprite.len()
    &&& 0 <= column < 8
    &&& bit_set(sprite[row], column as usize)
}

/// A screen with every pixel off.
pub open spec fn blank_screen() -> Seq<Seq<bool>> {
    Seq::new(PIXEL_HEIGHT as nat, |py: int| Seq::new(PIXEL_WIDTH as nat, |px: int| false))
}

/// The screen after drawing `sprite` at `(x, y)`: each covered pixel flips.
pub open spec fn drawn(screen: Seq<Seq<bool>>, x: usize, y: usize, sprite: Seq<u8>) -> Seq<
    Seq<bool>,
> {
    Seq::new(
        PIXEL_HEIGHT as nat,
        |py: int|
            Seq::new(PIXEL_WIDTH as nat, |px: int| screen[py][px] != covers(x, y, sprite, px, py)),
    )
}

/// Whether drawing `sprite` at `(x, y)` flips at least one pixel.
pub open spec fn touches(x: usize, y: usize, sprite: Seq<u8>) -> bool {
    exists|px: int, py: int| on_screen(px, py) && #[trigger] covers(x, y, sprite, px, py)
}

/// The screen that a pixel array shows, row by row.
pub open spec fn screen_of(pixels: [[bool; PIXEL_WIDTH]; PIXEL_HEIGHT]) -> Seq<Seq<bool>> {
    Seq::new(PIXEL_HEIGHT as nat, |py: int| pixels@[py]@)
}

/// Whether `screen` has the shape of the display: 32 rows of 64 pixels.
pub open spec fn well_shaped(screen: Seq<Seq<bool>>) -> bool {
    &&& screen.len() == PIXEL_HEIGHT
    &&& forall|py: int| 0 <= py < PIXEL_HEIGHT ==> #[trigger] screen[py].len() == PIXEL_WIDTH
}

/// Bit `offset` of a sprite row is counted from the most significant bit:
/// offset 0 is the 128s place, offset 7 the 1s place.
pub proof fn law_bit_positions(byte: u8)
    ensures
        bit_set(byte, 0) == (byte / 128 % 2 == 1),
        bit_set(byte, 1) == (byte / 64 % 2 == 1),
        bit_set(byte, 2) == (byte / 32 % 2 == 1),
        bit_set(byte, 3) == (byte / 16 % 2 == 1),
        bit_set(byte, 4) == (byte / 8 % 2 == 1),
        bit_set(byte, 5) == (byte / 4 % 2 == 1),
        bit_set(byte, 6) == (byte / 2 % 2 == 1),
        bit_set(byte, 7) == (byte % 2 == 1),
{
    assert((byte & (0x80u8 >> 0usize) != 0u8) == (byte / 128 % 2 == 1)) by (bit_vector);
    assert((byte & (0x80u8 >> 1usize) != 0u8) == (byte / 64 % 2 == 1)) by (bit_vector);
    assert((byte & (0x80u8 >> 2usize) != 0u8) == (byte / 32 % 2 == 1)) by (bit_vector);
    assert((byte & (0x80u8 >> 3usize) != 0u8) == (byte / 16 % 2 == 1)) by (bit_vector);
    assert((byte & (0x80u8 >> 4usize) != 0u8) == (byte / 8 % 2 == 1)) by (bit_vector);
    assert((byte & (0x80u8 >> 5usize) != 0u8) == (byte / 4 % 2 == 1)) by (bit_vector);
    assert((byte & (0x80u8 >> 6usize) != 0u8) == (byte / 2 % 2 == 1)) by (bit_vector);
    assert((byte & (0x80u8 >> 7usize) != 0u8) == (byte % 2 == 1)) by (bit_vector);
}

/// Drawing `sprite` at `(x, y)` flips exactly the on-screen pixels
/// `(x mod 64 + c, y mod 32 + r)` for which bit `c` (from the left) of row
/// `r` of the sprite is set; every other pixel keeps its value.
pub proof fn law_drawn_pixels(screen: Seq<Seq<bool>>, x: usize, y: usize, sprite: Seq<u8>)
    ensures
        well_shaped(drawn(screen, x, y, sprite)),
        forall|px: int, py: int|
            on_screen(px, py) ==> #[trigger] drawn(screen, x, y, sprite)[py][px] == (screen[py][px]
                != ({
                let row = py - (y % 32) as int;
                let column = px - (x % 64) as int;
                0 <= row < sprite.len() && 0 <= column < 8 && sprite[row] & (0x80u8 >> (column as usize))
                    != 0u8
            })),
{
    assert forall|px: int, py: int| on_screen(px, py) implies #[trigger] drawn(
        screen,
        x,
        y,
        sprite,
    )[py][px] == (screen[py][px] != covers(x, y, sprite, px, py)) by {}
}

/// The flag that drawing reports says whether some pixel changed.
pub proof fn law_touches_iff_changed(screen: Seq<Seq<bool>>, x: usize, y: usize, sprite: Seq<u8>)
    ensures
        touches(x, y, sprite) == exists|px: int, py: int|
            on_screen(px, py) && #[trigger] drawn(screen, x, y, sprite)[py][px] != screen[py][px],
{
    if touches(x, y, sprite) {
        let (px, py) = choose|px: int, py: int|
            on_screen(px, py) && #[trigger] covers(x, y, sprite, px, py);
        assert(drawn(screen, x, y, sprite)[py][px] != screen[py][px]);
    }
    if exists|px: int, py: int|
        on_screen(px, py) && #[trigger] drawn(screen, x, y, sprite)[py][px] != screen[py][px] {
        let (px, py) = choose|px: int, py: int|
            on_screen(px, py) && #[trigger] drawn(screen, x, y, sprite)[py][px] != screen[py][px];
        assert(covers(x, y, sprite, px, py));
    }
}

/// Drawing the same sprite twice at the same place restores the screen.
pub proof fn law_draw_twice_restores(screen: Seq<Seq<bool>>, x: usize, y: usize, sprite: Seq<u8>)
    requires
        well_shaped(screen),
    ensures
        drawn(drawn(screen, x, y, sprite), x, y, sprite) == screen,
{
    let twice = drawn(drawn(screen, x, y, sprite), x, y, sprite);
    assert forall|py: int| 0 <= py < PIXEL_HEIGHT implies #[trigger] twice[py] =~= screen[py] by {}
    assert(twice =~= screen);
}

/// Drawing never changes the shape of the screen.
pub proof fn law_drawn_well_shaped(screen: Seq<Seq<bool>>, x: usize, y: usize, sprite: Seq<u8>)
    ensures
        well_shaped(drawn(screen, x, y, sprite)),
{
}

/// A monochrome 64 x 32 screen.
pub struct Display {
    pixels: [[bool; PIXEL_WIDTH]; PIXEL_HEIGHT],
}

impl View for Display {
    type V = Seq<Seq<bool>>;

    closed spec fn view(&self) -> Seq<Seq<bool>> {
        screen_of(self.pixels)
    }
}

/// The screen always has 32 rows of 64 pixels.
pub proof fn law_display_is_well_shaped(display: &Display)
    ensures
        well_shaped(display@),
{
    assert forall|py: int| 0 <= py < PIXEL_HEIGHT implies #[trigger] display@[py].len()
        == PIXEL_WIDTH by {
        let row = display.pixels@[py];
        assert(row@.len() == PIXEL_WIDTH);
    }
}

/// All pixels off.
fn blank_pixels() -> (pixels: [[bool; PIXEL_WIDTH]; PIXEL_HEIGHT])
    ensures
        screen_of(pixels) == blank_screen(),
{
    let pixels = [[false; PIXEL_WIDTH]; PIXEL_HEIGHT];
    assert forall|py: int| 0 <= py < PIXEL_HEIGHT implies pixels@[py]@ =~= blank_screen()[py] by {
        assert(pixels@[py] == [false; PIXEL_WIDTH]);
    }
    assert(screen_of(pixels) =~= blank_screen());
    pixels
}

/// When the rows drawn so far are all the rows that can reach the screen,
/// the pixels and the returned flag are those that `drawn` and `touches` give.
proof fn lemma_draw_finished(
    before: [[bool; PIXEL_WIDTH]; PIXEL_HEIGHT],
    after: [[bool; PIXEL_WIDTH]; PIXEL_HEIGHT],
    x: usize,
    y: usize,
    sprite: Seq<u8>,
    row: int,
    updated: bool,
)
    requires
        row == sprite.len() || (y % PIXEL_HEIGHT) as int + row >= PIXEL_HEIGHT,
        forall|py: int, px: int|
            on_screen(px, py) ==> #[trigger] after@[py]@[px] == (before@[py]@[px] != (py < (y
                % PIXEL_HEIGHT) as int + row && covers(x, y, sprite, px, py))),
        updated == exists|px: int, py: int|
            on_screen(px, py) && py < (y % PIXEL_HEIGHT) as int + row && #[trigger] covers(
                x,
                y,
                sprite,
                px,
                py,
            ),
    ensures
        screen_of(after) == drawn(screen_of(before), x, y, sprite),
        updated == touches(x, y, sprite),
{
    let start_y = (y % PIXEL_HEIGHT) as int;
    assert forall|px: int, py: int| on_screen(px, py) && #[trigger] covers(x, y, sprite, px, py)
        implies py < start_y + row by {}
    assert forall|py: int| 0 <= py < PIXEL_HEIGHT implies #[trigger] screen_of(after)[py] =~= drawn(
        screen_of(before),
        x,
        y,
        sprite,
    )[py] by {
        let a = after@[py];
        let b = before@[py];
        assert(a@.len() == PIXEL_WIDTH);
        assert forall|px: int| 0 <= px < PIXEL_WIDTH implies a@[px] == (b@[px] != covers(
            x,
            y,
            sprite,
            px,
            py,
        )) by {
            assert(after@[py]@[px] == (before@[py]@[px] != (py < start_y + row && covers(
                x,
                y,
                sprite,
                px,
                py,
            ))));
        }
    }
    assert(screen_of(after) =~= drawn(screen_of(before), x, y, sprite));
}

impl Display {
    /// A screen with every pixel off.
    pub fn new() -> (display: Self)
        ensures
            display@ == blank_screen(),
    {
        Self { pixels: blank_pixels() }
    }

    /// Back to a screen with every pixel off.
    pub fn reset(&mut self)
        ensures
            final(self)@ == blank_screen(),
    {
        *self = Self::new();
    }

    /// Turns every pixel off.
    pub fn clear(&mut self)
        ensures
            final(self)@ == blank_screen(),
    {
        self.pixels = blank_pixels();
    }

    /// A copy of the pixels, indexed by row then column.
    pub fn pixels(&self) -> (pixels: [[bool; PIXEL_WIDTH]; PIXEL_HEIGHT])
        ensures
            screen_of(pixels) == self@,
    {
        self.pixels
    }

    /// XORs `sprite` onto the screen with its top-left corner at
    /// `(x mod 64, y mod 32)`, one byte per row, most significant bit leftmost,
    /// clipped at the right and bottom edges. Returns whether any pixel flipped.
    pub fn draw_sprite(&mut self, x: usize, y: usize, sprite: &[u8]) -> (updated: bool)
        ensures
            final(self)@ == drawn(old(self)@, x, y, sprite@),
            updated == touches(x, y, sprite@),
    {
        let mut updated = false;
        let start_x = x % PIXEL_WIDTH;
        let start_y = y % PIXEL_HEIGHT;
        let mut row: usize = 0;
        while row < sprite.len()
            invariant
                start_x == x % PIXEL_WIDTH,
                start_y == y % PIXEL_HEIGHT,
                row <= sprite@.len(),
                forall|py: int, px: int|
                    on_screen(px, py) ==> #[trigger] self.pixels@[py]@[px] == (old(self).pixels@[py]@[px]
                        != (py < start_y + row && covers(x, y, sprite@, px, py))),
                updated == exists|px: int, py: int|
                    on_screen(px, py) && py < start_y + row && #[trigger] covers(x, y, sprite@, px, py),
            decreases sprite@.len() - row,
        {
            if row >= PIXEL_HEIGHT - start_y {
                proof {
                    lemma_draw_finished(old(self).pixels, self.pixels, x, y, sprite@, row as int, updated);
                }
                return updated;
            }
            let current_y = start_y + row;
            let bits = Self::byte_to_bits(sprite[row]);
            let ghost before = self.pixels;
            let ghost updated_before = updated;
            let mut pixel_row = self.pixels[current_y];
            let mut index: usize = 0;
            while index < 8
                invariant
                    start_x == x % PIXEL_WIDTH,
                    start_y == y % PIXEL_HEIGHT,
                    current_y == start_y + row,
                    current_y < PIXEL_HEIGHT,
                    row < sprite@.len(),
                    index <= 8,
                    forall|i: int| 0 <= i < 8 ==> bits@[i] == bit_set(sprite@[row as int], i as usize),
                    forall|px: int|
                        0 <= px < PIXEL_WIDTH ==> #[trigger] pixel_row@[px] == (before@[current_y as int]@[px]
                            != (px < start_x + index && covers(x, y, sprite@, px, current_y as int))),
                    updated == (updated_before || exists|px: int|
                        0 <= px < PIXEL_WIDTH && px < start_x + index && #[trigger] covers(
                            x,
                            y,
                            sprite@,
                            px,
                            current_y as int,
                        )),
                decreases 8 - index,
            {
                let current_x = start_x + index;
                if current_x < PIXEL_WIDTH {
                    if bits[index] {
                        pixel_row[current_x] = !pixel_row[current_x];
                        updated = true;
                        assert(covers(x, y, sprite@, current_x as int, current_y as int));
                    }
                }
                index = index + 1;
            }
            self.pixels[current_y] = pixel_row;
            proof {
                assert forall|py: int, px: int|
                    on_screen(px, py) && py < start_y + row + 1 && #[trigger] covers(x, y, sprite@, px, py)
                    implies (py < start_y + row || (py == current_y && px < start_x + 8)) by {}
                assert(updated == exists|px: int, py: int|
                    on_screen(px, py) && py < start_y + row + 1 && #[trigger] covers(x, y, sprite@, px, py)) by {
                    if updated && !updated_before {
                        let px = choose|px: int|
                            0 <= px < PIXEL_WIDTH && px < start_x + 8 && #[trigger] covers(
                                x,
                                y,
                                sprite@,
                                px,
                                current_y as int,
                            );
                        assert(on_screen(px, current_y as int));
                    }
                }
            }
            row = row + 1;
        }
        proof {
            lemma_draw_finished(old(self).pixels, self.pixels, x, y, sprite@, row as int, updated);
        }
        updated
    }

    /// The eight bits of `byte`, most significant first.
    fn byte_to_bits(byte: u8) -> (bits: [bool; 8])
        ensures
            forall|offset: int| 0 <= offset < 8 ==> bits@[offset] == bit_set(byte, offset as usize),
    {
        let mut bits = [false; 8];
        let mut offset: usize = 0;
        while offset < 8
            invariant
                offset <= 8,
                forall|i: int| 0 <= i < offset ==> bits@[i] == bit_set(byte, i as usize),
            decreases 8 - offset,
        {
            bits[offset] = byte & (0x80u8 >> offset) != 0;
            offset = offset + 1;
        }
        bits
    }
}

} // verus!
