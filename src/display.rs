use vstd::prelude::*;

verus! {

/// Width of the screen in pixels.
pub const DISPLAY_WIDTH: usize = 64;

/// Height of the screen in pixels.
pub const DISPLAY_HEIGHT: usize = 32;

/// Bit `c` of a sprite row, counted from the most significant bit (`c` in 0..8).
pub open spec fn sprite_bit(b: u8, c: int) -> bool {
    (b >> ((7 - c) as u8)) & 1u8 == 1u8
}

/// Whether the rows of `data`, drawn from screen row `y` on, flip the pixel at
/// column offset `c` of screen row `py`: rows that wrap onto the same screen row
/// flip it once each.
pub open spec fn toggles(data: Seq<u8>, y: int, py: int, c: int) -> bool
    decreases data.len(),
{
    if data.len() == 0 {
        false
    } else {
        let k = data.len() - 1;
        toggles(data.drop_last(), y, py, c) != ((y + k) % (DISPLAY_HEIGHT as int) == py
            && sprite_bit(data[k], c))
    }
}

/// The column offset of screen column `px` from a sprite drawn at column `x`.
pub open spec fn column_offset(x: int, px: int) -> int {
    (px - x) % (DISPLAY_WIDTH as int)
}

/// Whether drawing `data` at (`x`, `y`) flips the pixel (`px`, `py`).
pub open spec fn flips(data: Seq<u8>, x: int, y: int, px: int, py: int) -> bool {
    column_offset(x, px) < 8 && toggles(data, y, py, column_offset(x, px))
}

/// A grid of `DISPLAY_WIDTH` columns of `DISPLAY_HEIGHT` pixels each.
pub open spec fn is_grid(g: Seq<Seq<bool>>) -> bool {
    &&& g.len() == DISPLAY_WIDTH
    &&& forall|px: int| 0 <= px < DISPLAY_WIDTH ==> (#[trigger] g[px]).len() == DISPLAY_HEIGHT
}

/// The grid after drawing `data` at (`x`, `y`) by exclusive or, wrapping on both axes.
pub open spec fn blit(g: Seq<Seq<bool>>, data: Seq<u8>, x: int, y: int) -> Seq<Seq<bool>> {
    Seq::new(
        DISPLAY_WIDTH as nat,
        |px: int| Seq::new(DISPLAY_HEIGHT as nat, |py: int| g[px][py] != flips(data, x, y, px, py)),
    )
}

/// Whether a set bit of row `r`, column `c` of the sprite meets a lit pixel when
/// it is drawn, the rows before it having been drawn already.
pub open spec fn collides_at(g: Seq<Seq<bool>>, data: Seq<u8>, x: int, y: int, r: int, c: int) -> bool {
    let px = (x + c) % (DISPLAY_WIDTH as int);
    let py = (y + r) % (DISPLAY_HEIGHT as int);
    sprite_bit(data[r], c) && (g[px][py] != toggles(data.take(r), y, py, c))
}

/// Whether one of the first `n` rows of the sprite meets a lit pixel.
pub open spec fn collides_within(g: Seq<Seq<bool>>, data: Seq<u8>, x: int, y: int, n: int) -> bool {
    exists|r: int, c: int| 0 <= r < n && 0 <= c < 8 && #[trigger] collides_at(g, data, x, y, r, c)
}

/// Whether drawing `data` at (`x`, `y`) turns some lit pixel off.
pub open spec fn collides(g: Seq<Seq<bool>>, data: Seq<u8>, x: int, y: int) -> bool {
    collides_within(g, data, x, y, data.len() as int)
}

proof fn lemma_column_offset(x: int, c: int, px: int)
    requires
        0 <= x,
        0 <= c < 8,
        0 <= px < DISPLAY_WIDTH,
    ensures
        column_offset(x, px) == c <==> px == (x + c) % (DISPLAY_WIDTH as int),
        0 <= column_offset(x, px) < DISPLAY_WIDTH,
{
}

proof fn lemma_toggles_step(data: Seq<u8>, y: int, py: int, c: int, r: int)
    requires
        0 <= r < data.len(),
    ensures
        toggles(data.take(r + 1), y, py, c) == (toggles(data.take(r), y, py, c) != ((y + r)
            % (DISPLAY_HEIGHT as int) == py && sprite_bit(data[r], c))),
{
    assert(data.take(r + 1).drop_last() =~= data.take(r));
}

/// The all-off grid.
pub open spec fn blank() -> Seq<Seq<bool>> {
    Seq::new(DISPLAY_WIDTH as nat, |px: int| Seq::new(DISPLAY_HEIGHT as nat, |py: int| false))
}

/// Drawing the same sprite twice at the same place leaves the grid as it was.
pub proof fn lemma_draw_twice_restores(g: Seq<Seq<bool>>, data: Seq<u8>, x: int, y: int)
    requires
        is_grid(g),
    ensures
        blit(blit(g, data, x, y), data, x, y) == g,
{
    let twice = blit(blit(g, data, x, y), data, x, y);
    assert forall|px: int| 0 <= px < DISPLAY_WIDTH implies #[trigger] twice[px] =~= g[px] by {}
    assert(twice =~= g);
}

/// A sprite with no set bit never reports a collision, so in particular not on
/// the second of two equal draws.
pub proof fn lemma_blank_sprite_never_collides(g: Seq<Seq<bool>>, data: Seq<u8>, x: int, y: int)
    requires
        forall|r: int, c: int| 0 <= r < data.len() && 0 <= c < 8 ==> !#[trigger] sprite_bit(data[r], c),
    ensures
        !collides(g, data, x, y),
        !collides(blit(g, data, x, y), data, x, y),
{
}

proof fn lemma_toggles_single_row(data: Seq<u8>, y: int, r: int, c: int, n: int)
    requires
        0 <= y,
        0 <= r < DISPLAY_HEIGHT,
        0 <= n <= data.len(),
        n <= DISPLAY_HEIGHT,
    ensures
        toggles(data.take(n), y, (y + r) % (DISPLAY_HEIGHT as int), c) == (r < n && sprite_bit(data[r], c)),
    decreases n,
{
    if n > 0 {
        assert(data.take(n).drop_last() =~= data.take(n - 1));
        lemma_toggles_single_row(data, y, r, c, n - 1);
    }
}

/// A sprite of at most `DISPLAY_HEIGHT` rows that met no lit pixel when it was
/// drawn meets one when it is drawn again at the same place exactly where it
/// has a set bit: the second draw turns off what the first turned on.
pub proof fn lemma_redraw_collides_on_set_bits(g: Seq<Seq<bool>>, data: Seq<u8>, x: int, y: int)
    requires
        is_grid(g),
        0 <= x,
        0 <= y,
        data.len() <= DISPLAY_HEIGHT,
        !collides(g, data, x, y),
    ensures
        forall|r: int, c: int| 0 <= r < data.len() && 0 <= c < 8 ==>
            #[trigger] collides_at(blit(g, data, x, y), data, x, y, r, c) == sprite_bit(data[r], c),
        collides(blit(g, data, x, y), data, x, y) <==> exists|r: int, c: int|
            0 <= r < data.len() && 0 <= c < 8 && #[trigger] sprite_bit(data[r], c),
{
    let h = blit(g, data, x, y);
    assert(data.take(data.len() as int) =~= data);
    assert forall|r: int, c: int| 0 <= r < data.len() && 0 <= c < 8 implies
        #[trigger] collides_at(h, data, x, y, r, c) == sprite_bit(data[r], c) by {
        let px = (x + c) % (DISPLAY_WIDTH as int);
        let py = (y + r) % (DISPLAY_HEIGHT as int);
        lemma_column_offset(x, c, px);
        lemma_toggles_single_row(data, y, r, c, r);
        lemma_toggles_single_row(data, y, r, c, data.len() as int);
        assert(!collides_at(g, data, x, y, r, c));
    }
    if collides(h, data, x, y) {
        let (r, c) = choose|r: int, c: int| 0 <= r < data.len() && 0 <= c < 8 && #[trigger] collides_at(h, data, x, y, r, c);
        assert(sprite_bit(data[r], c));
    }
    if exists|r: int, c: int| 0 <= r < data.len() && 0 <= c < 8 && #[trigger] sprite_bit(data[r], c) {
        let (r, c) = choose|r: int, c: int| 0 <= r < data.len() && 0 <= c < 8 && #[trigger] sprite_bit(data[r], c);
        assert(collides_at(h, data, x, y, r, c));
    }
}

/// A cleared screen has every pixel off.
pub proof fn lemma_blank_is_dark()
    ensures
        is_grid(blank()),
        forall|px: int, py: int| 0 <= px < DISPLAY_WIDTH && 0 <= py < DISPLAY_HEIGHT ==> !#[trigger] blank()[px][py],
{
}

/// The monochrome screen, indexed by column then row, and whether it changed
/// since it was last rendered.
pub struct Display {
    pub pixel_states: [[bool; DISPLAY_HEIGHT]; DISPLAY_WIDTH],
    pub dirty: bool,
}

impl View for Display {
    type V = Seq<Seq<bool>>;

    open spec fn view(&self) -> Seq<Seq<bool>> {
        Seq::new(DISPLAY_WIDTH as nat, |px: int| self.pixel_states@[px]@)
    }
}

impl Default for Display {
    fn default() -> (r: Display)
        ensures
            r@ == blank(),
            !r.dirty,
    {
        let r = Display { pixel_states: [[false; DISPLAY_HEIGHT]; DISPLAY_WIDTH], dirty: false };
        assert(r@ =~~= blank());
        r
    }
}

impl Display {
    /// The screen is always a full grid.
    pub proof fn lemma_grid(&self)
        ensures
            is_grid(self@),
    {
    }

    /// Turns every pixel off.
    pub fn clear(&mut self)
        ensures
            final(self)@ == blank(),
            final(self).dirty,
    {
        let mut px: usize = 0;
        while px < DISPLAY_WIDTH
            invariant
                px <= DISPLAY_WIDTH,
                forall|i: int| 0 <= i < px ==> self.pixel_states@[i] == [false; DISPLAY_HEIGHT],
            decreases DISPLAY_WIDTH - px,
        {
            self.pixel_states[px] = [false; DISPLAY_HEIGHT];
            px = px + 1;
        }
        self.dirty = true;
        assert(self@ =~~= blank());
    }

    /// Draws `sprite_data` with its top left corner at (`x`, `y`), one byte per
    /// row, most significant bit leftmost, by exclusive or and wrapping on both
    /// axes. Returns whether a lit pixel was turned off.
    pub fn draw_sprite(&mut self, x: u8, y: u8, sprite_data: &[u8]) -> (collision: bool)
        ensures
            final(self)@ == blit(old(self)@, sprite_data@, x as int, y as int),
            collision == collides(old(self)@, sprite_data@, x as int, y as int),
            final(self).dirty,
    {
        let ghost g = self@;
        let ghost data = sprite_data@;
        let ghost xi = x as int;
        let ghost yi = y as int;
        let mut collision = false;
        let mut r: usize = 0;
        let mut py: usize = (y as usize) % DISPLAY_HEIGHT;
        while r < sprite_data.len()
            invariant
                r <= data.len(),
                data == sprite_data@,
                g == old(self)@,
                xi == x as int,
                yi == y as int,
                py == (yi + r) % (DISPLAY_HEIGHT as int),
                forall|px: int, qy: int|
                    0 <= px < DISPLAY_WIDTH && 0 <= qy < DISPLAY_HEIGHT ==> #[trigger] self.pixel_states@[px]@[qy]
                        == (g[px][qy] != flips(data.take(r as int), xi, yi, px, qy)),
                collision == collides_within(g, data, xi, yi, r as int),
            decreases data.len() - r,
        {
            let row = sprite_data[r];
            let mut c: usize = 0;
            while c < 8
                invariant
                    r < data.len(),
                    row == data[r as int],
                    c <= 8,
                    data == sprite_data@,
                    g == old(self)@,
                    xi == x as int,
                    yi == y as int,
                    py == (yi + r) % (DISPLAY_HEIGHT as int),
                    forall|px: int, qy: int|
                        0 <= px < DISPLAY_WIDTH && 0 <= qy < DISPLAY_HEIGHT ==> #[trigger] self.pixel_states@[px]@[qy]
                            == ((g[px][qy] != flips(data.take(r as int), xi, yi, px, qy)) != (qy == py
                            && column_offset(xi, px) < c && sprite_bit(row, column_offset(xi, px)))),
                    collision == (collides_within(g, data, xi, yi, r as int) || exists|k: int|
                        0 <= k < c && #[trigger] collides_at(g, data, xi, yi, r as int, k)),
                decreases 8 - c,
            {
                let px: usize = (x as usize + c) % DISPLAY_WIDTH;
                let bit = (row >> (7 - c as u8)) & 1u8 == 1u8;
                let cur = self.pixel_states[px][py];
                proof {
                    assert forall|q: int| 0 <= q < DISPLAY_WIDTH implies (column_offset(xi, q) == c <==> q == px)
                        && 0 <= column_offset(xi, q) < DISPLAY_WIDTH by {
                        lemma_column_offset(xi, c as int, q);
                    }
                }
                if cur && bit {
                    collision = true;
                }
                self.pixel_states[px][py] = cur != bit;
                proof {
                    if collision && !(cur && bit) {
                        let w = choose|k: int| 0 <= k < c && #[trigger] collides_at(g, data, xi, yi, r as int, k);
                        if !collides_within(g, data, xi, yi, r as int) {
                            assert(collides_at(g, data, xi, yi, r as int, w));
                        }
                    }
                    if cur && bit {
                        assert(collides_at(g, data, xi, yi, r as int, c as int));
                    }
                }
                c = c + 1;
            }
            proof {
                assert forall|px: int, qy: int|
                    0 <= px < DISPLAY_WIDTH && 0 <= qy < DISPLAY_HEIGHT implies #[trigger] self.pixel_states@[px]@[qy]
                        == (g[px][qy] != flips(data.take(r + 1), xi, yi, px, qy)) by {
                    lemma_column_offset(xi, 0, px);
                    lemma_toggles_step(data, yi, qy, column_offset(xi, px), r as int);
                }
                if collision {
                    if !collides_within(g, data, xi, yi, r as int) {
                        let w = choose|k: int| 0 <= k < 8 && #[trigger] collides_at(g, data, xi, yi, r as int, k);
                        assert(collides_at(g, data, xi, yi, r as int, w));
                    }
                }
            }
            r = r + 1;
            py = (py + 1) % DISPLAY_HEIGHT;
        }
        self.dirty = true;
        assert(data.take(data.len() as int) =~= data);
        assert(self@ =~~= blit(g, data, xi, yi));
        collision
    }

    /// The pixels, for rendering.
    pub fn borrow_display(&self) -> (r: &[[bool; DISPLAY_HEIGHT]; DISPLAY_WIDTH])
        ensures
            forall|px: int, py: int|
                0 <= px < DISPLAY_WIDTH && 0 <= py < DISPLAY_HEIGHT ==> #[trigger] r@[px]@[py] == self@[px][py],
    {
        &self.pixel_states
    }
}

} // verus!
