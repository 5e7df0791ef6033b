use vstd::arithmetic::div_mod::lemma_fundamental_div_mod_converse_mod;
use vstd::prelude::*;

verus! {

/// A monochrome screen of `width` by `height` pixels, stored row by row.
pub struct Display {
    pub pixels: Vec<bool>,
    width: usize,
    height: usize,
}

/// Whether the pixel of column `col` (0 is the leftmost) is set in a sprite row.
pub open spec fn sprite_bit(row: u8, col: int) -> bool {
    (row >> ((7 - col) as u8)) & 1u8 == 1u8
}

/// The offset in the pixel grid on which cell `k` of a sprite lands, the cells being
/// taken row by row, eight to a row. `None` where the cell is not set or falls off screen.
/// (`x`, `y`) is the top left corner of the sprite, already inside the screen.
pub open spec fn sprite_target(
    width: nat,
    height: nat,
    x: nat,
    y: nat,
    sprite: Seq<u8>,
    wrap: bool,
    k: nat,
) -> Option<nat> {
    let row = k / 8;
    let col = k % 8;
    let tx = if wrap {
        (x + col) % width
    } else {
        x + col
    };
    let ty = if wrap {
        (y + row) % height
    } else {
        y + row
    };
    if sprite_bit(sprite[row as int], col as int) && tx < width && ty < height {
        Some(ty * width + tx)
    } else {
        None
    }
}

/// The pixels after the first `k` cells of a sprite are composited by XOR, and whether
/// any of those cells turned a set pixel off.
pub open spec fn draw_cells(
    pixels: Seq<bool>,
    width: nat,
    height: nat,
    x: nat,
    y: nat,
    sprite: Seq<u8>,
    wrap: bool,
    k: nat,
) -> (Seq<bool>, bool)
    decreases k,
{
    if k == 0 {
        (pixels, false)
    } else {
        let (p, collided) = draw_cells(pixels, width, height, x, y, sprite, wrap, (k - 1) as nat);
        match sprite_target(width, height, x, y, sprite, wrap, (k - 1) as nat) {
            Some(o) => (p.update(o as int, !p[o as int]), collided || p[o as int]),
            None => (p, collided),
        }
    }
}

/// The pixels after drawing `sprite` (one byte per row) at (`pos_x`, `pos_y`), each
/// coordinate taken modulo the screen size, and whether a set pixel was turned off.
/// With `wrap`, cells past an edge come back on the other side; without it they are
/// not drawn.
pub open spec fn draw_result(
    pixels: Seq<bool>,
    width: nat,
    height: nat,
    pos_x: u8,
    pos_y: u8,
    sprite: Seq<u8>,
    wrap: bool,
) -> (Seq<bool>, bool) {
    draw_cells(
        pixels,
        width,
        height,
        (pos_x as nat) % width,
        (pos_y as nat) % height,
        sprite,
        wrap,
        8 * sprite.len(),
    )
}

proof fn lemma_offset_in_grid(x: int, y: int, width: int, height: int)
    requires
        0 <= x < width,
        0 <= y < height,
    ensures
        0 <= y * width + x < width * height,
{
    assert(y * width + x < width * height) by (nonlinear_arith)
        requires
            0 <= x < width,
            0 <= y < height,
    ;
    assert(0 <= y * width) by (nonlinear_arith)
        requires
            0 <= x < width,
            0 <= y,
    ;
}

/// Drawing touches only offsets inside the grid, so the grid keeps its size.
proof fn lemma_draw_cells_len(
    pixels: Seq<bool>,
    width: nat,
    height: nat,
    x: nat,
    y: nat,
    sprite: Seq<u8>,
    wrap: bool,
    k: nat,
)
    requires
        pixels.len() == width * height,
        width > 0,
        height > 0,
        k <= 8 * sprite.len(),
    ensures
        draw_cells(pixels, width, height, x, y, sprite, wrap, k).0.len() == pixels.len(),
    decreases k,
{
    if k > 0 {
        lemma_draw_cells_len(pixels, width, height, x, y, sprite, wrap, (k - 1) as nat);
        let t = sprite_target(width, height, x, y, sprite, wrap, (k - 1) as nat);
        if let Some(o) = t {
            let row = (k - 1) / 8;
            let col = (k - 1) % 8;
            let tx: int = if wrap { ((x + col) % width as int) } else { x + col };
            let ty: int = if wrap { ((y + row) % height as int) } else { y + row };
            lemma_offset_in_grid(tx, ty, width as int, height as int);
        }
    }
}

/// Column of the screen on which column `col` of a sprite drawn from column `x` lands,
/// before clipping.
pub open spec fn target_column(width: nat, x: nat, col: nat, wrap: bool) -> nat {
    if wrap {
        (x + col) % width
    } else {
        x + col
    }
}

/// Whether one of the first `k` cells of `sprite` lands on offset `i`.
pub open spec fn covered(
    width: nat,
    height: nat,
    x: nat,
    y: nat,
    sprite: Seq<u8>,
    wrap: bool,
    k: nat,
    i: nat,
) -> bool
    decreases k,
{
    k > 0 && (sprite_target(width, height, x, y, sprite, wrap, (k - 1) as nat) == Some(i)
        || covered(width, height, x, y, sprite, wrap, (k - 1) as nat, i))
}

/// Where each cell of a one-row sprite with all eight bits set lands.
proof fn lemma_full_row_target(width: nat, height: nat, x: nat, y: nat, wrap: bool, k: nat)
    requires
        width >= 8,
        height > 0,
        x < width,
        y < height,
        k < 8,
    ensures
        sprite_target(width, height, x, y, seq![0xFFu8], wrap, k) == (if target_column(
            width,
            x,
            k,
            wrap,
        ) < width {
            Some(y * width + target_column(width, x, k, wrap))
        } else {
            None
        }),
        target_column(width, x, k, wrap) < width ==> y * width + target_column(width, x, k, wrap)
            < width * height,
        k == 0 ==> target_column(width, x, k, wrap) < width,
        target_column(width, x, k, wrap) == (if wrap && x + k >= width {
            x + k - width
        } else {
            x + k as int
        }),
{
    let b = k as u8;
    assert(b < 8 ==> (0xFFu8 >> ((7 - b) as u8)) & 1u8 == 1u8) by (bit_vector);
    assert(k / 8 == 0 && k % 8 == k);
    assert(seq![0xFFu8][0] == 0xFFu8);
    assert(y % height == y) by {
        lemma_fundamental_div_mod_converse_mod(y as int, height as int, 0, y as int);
    }
    if x + k >= width {
        lemma_fundamental_div_mod_converse_mod(
            (x + k) as int,
            width as int,
            1,
            (x + k - width) as int,
        );
    } else {
        lemma_fundamental_div_mod_converse_mod((x + k) as int, width as int, 0, (x + k) as int);
    }
    let tx = target_column(width, x, k, wrap);
    if tx < width {
        lemma_offset_in_grid(tx as int, y as int, width as int, height as int);
    }
}

/// A cell that lands on `o` was not preceded by another landing there: the eight
/// cells of one row land on distinct pixels.
proof fn lemma_full_row_not_covered_before(
    width: nat,
    height: nat,
    x: nat,
    y: nat,
    wrap: bool,
    k: nat,
    m: nat,
    o: nat,
)
    requires
        width >= 8,
        height > 0,
        x < width,
        y < height,
        k < 8,
        m <= k,
        sprite_target(width, height, x, y, seq![0xFFu8], wrap, k) == Some(o),
    ensures
        !covered(width, height, x, y, seq![0xFFu8], wrap, m, o),
    decreases m,
{
    if m > 0 {
        let j = (m - 1) as nat;
        lemma_full_row_not_covered_before(width, height, x, y, wrap, k, j, o);
        lemma_full_row_target(width, height, x, y, wrap, j);
        lemma_full_row_target(width, height, x, y, wrap, k);
        let tj = target_column(width, x, j, wrap);
        let tk = target_column(width, x, k, wrap);
        if tj < width {
            assert(tj != tk);
            assert(y * width + tj != y * width + tk);
        }
    }
}

/// A cell that lands on `o` covers it for every longer prefix of cells.
proof fn lemma_covered_after(
    width: nat,
    height: nat,
    x: nat,
    y: nat,
    sprite: Seq<u8>,
    wrap: bool,
    j: nat,
    m: nat,
    o: nat,
)
    requires
        j < m,
        sprite_target(width, height, x, y, sprite, wrap, j) == Some(o),
    ensures
        covered(width, height, x, y, sprite, wrap, m, o),
    decreases m,
{
    if j < m - 1 {
        lemma_covered_after(width, height, x, y, sprite, wrap, j, (m - 1) as nat, o);
    }
}

/// Drawing the row on a blank screen turns on exactly the pixels it covers, with no
/// collision.
proof fn lemma_full_row_on_blank(width: nat, height: nat, x: nat, y: nat, wrap: bool, k: nat)
    requires
        width >= 8,
        height > 0,
        x < width,
        y < height,
        k <= 8,
    ensures
        ({
            let blank = Seq::new(width * height, |i: int| false);
            let (p, c) = draw_cells(blank, width, height, x, y, seq![0xFFu8], wrap, k);
            &&& p.len() == width * height
            &&& !c
            &&& forall|i: nat|
                i < width * height ==> p[i as int] == covered(
                    width,
                    height,
                    x,
                    y,
                    seq![0xFFu8],
                    wrap,
                    k,
                    i,
                )
        }),
    decreases k,
{
    if k > 0 {
        let j = (k - 1) as nat;
        lemma_full_row_on_blank(width, height, x, y, wrap, j);
        lemma_full_row_target(width, height, x, y, wrap, j);
        let t = sprite_target(width, height, x, y, seq![0xFFu8], wrap, j);
        if let Some(o) = t {
            lemma_full_row_not_covered_before(width, height, x, y, wrap, j, j, o);
        }
    }
}

/// Drawing the row again over `first` turns off, one by one, the pixels it covers, and
/// collides from its first cell on.
proof fn lemma_full_row_again(
    width: nat,
    height: nat,
    x: nat,
    y: nat,
    wrap: bool,
    first: Seq<bool>,
    k: nat,
)
    requires
        width >= 8,
        height > 0,
        x < width,
        y < height,
        k <= 8,
        first.len() == width * height,
        forall|i: nat|
            i < width * height ==> first[i as int] == covered(
                width,
                height,
                x,
                y,
                seq![0xFFu8],
                wrap,
                8,
                i,
            ),
    ensures
        ({
            let (p, c) = draw_cells(first, width, height, x, y, seq![0xFFu8], wrap, k);
            &&& p.len() == width * height
            &&& c == (k > 0)
            &&& forall|i: nat|
                i < width * height ==> p[i as int] == (covered(
                    width,
                    height,
                    x,
                    y,
                    seq![0xFFu8],
                    wrap,
                    8,
                    i,
                ) && !covered(width, height, x, y, seq![0xFFu8], wrap, k, i))
        }),
    decreases k,
{
    if k > 0 {
        let j = (k - 1) as nat;
        lemma_full_row_again(width, height, x, y, wrap, first, j);
        lemma_full_row_target(width, height, x, y, wrap, j);
        let t = sprite_target(width, height, x, y, seq![0xFFu8], wrap, j);
        if let Some(o) = t {
            lemma_full_row_not_covered_before(width, height, x, y, wrap, j, j, o);
            lemma_covered_after(width, height, x, y, seq![0xFFu8], wrap, j, 8, o);
        }
    }
}

/// Drawing a one-row sprite with all eight bits set twice at the same place on a blank
/// screen: the first draw turns on every cell that lands on screen and does not collide;
/// the second turns them all off again, leaving the screen blank, and collides.
pub proof fn lemma_draw_full_row_twice(width: nat, height: nat, x: u8, y: u8, wrap: bool)
    requires
        width > 0,
        width % 8 == 0,
        height > 0,
    ensures
        ({
            let blank = Seq::new(width * height, |i: int| false);
            let sprite = seq![0xFFu8];
            let (first, first_collided) = draw_result(blank, width, height, x, y, sprite, wrap);
            let (second, second_collided) = draw_result(
                first,
                width,
                height,
                x,
                y,
                sprite,
                wrap,
            );
            &&& !first_collided
            &&& forall|k: nat|
                k < 8 ==> (#[trigger] sprite_target(
                    width,
                    height,
                    (x as nat) % width,
                    (y as nat) % height,
                    sprite,
                    wrap,
                    k,
                ) matches Some(o) ==> first[o as int])
            &&& second_collided
            &&& second == blank
        }),
{
    let x0 = (x as nat) % width;
    let y0 = (y as nat) % height;
    let sprite = seq![0xFFu8];
    let blank = Seq::new(width * height, |i: int| false);
    lemma_full_row_on_blank(width, height, x0, y0, wrap, 8);
    let (first, c1) = draw_cells(blank, width, height, x0, y0, sprite, wrap, 8);
    lemma_full_row_again(width, height, x0, y0, wrap, first, 8);
    let (second, c2) = draw_cells(first, width, height, x0, y0, sprite, wrap, 8);
    assert forall|k: nat|
        k < 8 implies (#[trigger] sprite_target(width, height, x0, y0, sprite, wrap, k) matches Some(
        o,
    ) ==> first[o as int]) by {
        lemma_full_row_target(width, height, x0, y0, wrap, k);
        if let Some(o) = sprite_target(width, height, x0, y0, sprite, wrap, k) {
            lemma_covered_after(width, height, x0, y0, sprite, wrap, k, 8, o);
        }
    }
    assert(second =~= blank);
}

/// How many of the first `k` cells of `sprite` land on offset `i`.
pub open spec fn hit_count(
    width: nat,
    height: nat,
    x: nat,
    y: nat,
    sprite: Seq<u8>,
    wrap: bool,
    k: nat,
    i: nat,
) -> nat
    decreases k,
{
    if k == 0 {
        0
    } else {
        hit_count(width, height, x, y, sprite, wrap, (k - 1) as nat, i) + if sprite_target(
            width,
            height,
            x,
            y,
            sprite,
            wrap,
            (k - 1) as nat,
        ) == Some(i) {
            1nat
        } else {
            0nat
        }
    }
}

/// Compositing is XOR: after the first `k` cells, each pixel of the grid is flipped
/// exactly when an odd number of those cells landed on it.
pub proof fn lemma_draw_cells_is_xor(
    pixels: Seq<bool>,
    width: nat,
    height: nat,
    x: nat,
    y: nat,
    sprite: Seq<u8>,
    wrap: bool,
    k: nat,
)
    requires
        pixels.len() == width * height,
        width > 0,
        height > 0,
        k <= 8 * sprite.len(),
    ensures
        ({
            let p = draw_cells(pixels, width, height, x, y, sprite, wrap, k).0;
            &&& p.len() == pixels.len()
            &&& forall|i: nat|
                i < pixels.len() ==> #[trigger] p[i as int] == (pixels[i as int] != (hit_count(
                    width,
                    height,
                    x,
                    y,
                    sprite,
                    wrap,
                    k,
                    i,
                ) % 2 == 1))
        }),
    decreases k,
{
    lemma_draw_cells_len(pixels, width, height, x, y, sprite, wrap, k);
    if k > 0 {
        let j = (k - 1) as nat;
        lemma_draw_cells_is_xor(pixels, width, height, x, y, sprite, wrap, j);
        lemma_draw_cells_len(pixels, width, height, x, y, sprite, wrap, j);
        let prev = draw_cells(pixels, width, height, x, y, sprite, wrap, j).0;
        let p = draw_cells(pixels, width, height, x, y, sprite, wrap, k).0;
        let t = sprite_target(width, height, x, y, sprite, wrap, j);
        if let Some(o) = t {
            let row = (j / 8) as int;
            let col = (j % 8) as int;
            let tx: int = if wrap { ((x + col) % width as int) } else { x + col };
            let ty: int = if wrap { ((y + row) % height as int) } else { y + row };
            lemma_offset_in_grid(tx, ty, width as int, height as int);
            assert(o < prev.len());
        }
        assert forall|i: nat| i < pixels.len() implies #[trigger] p[i as int] == (pixels[i as int]
            != (hit_count(width, height, x, y, sprite, wrap, k, i) % 2 == 1)) by {
            let before = hit_count(width, height, x, y, sprite, wrap, j, i);
            assert(prev[i as int] == (pixels[i as int] != (before % 2 == 1)));
            if t == Some(i) {
                assert(hit_count(width, height, x, y, sprite, wrap, k, i) == before + 1);
                assert((before + 1) % 2 == 1 <==> before % 2 != 1);
                assert(p[i as int] == !prev[i as int]);
            } else {
                assert(hit_count(width, height, x, y, sprite, wrap, k, i) == before);
                if let Some(o) = t {
                    assert(p == prev.update(o as int, !prev[o as int]));
                }
                assert(p[i as int] == prev[i as int]);
            }
        }
    }
}

/// Drawing a sprite is XOR: each pixel is flipped exactly when an odd number of the
/// sprite's cells land on it.
pub proof fn lemma_draw_is_xor(
    pixels: Seq<bool>,
    width: nat,
    height: nat,
    pos_x: u8,
    pos_y: u8,
    sprite: Seq<u8>,
    wrap: bool,
)
    requires
        pixels.len() == width * height,
        width > 0,
        height > 0,
    ensures
        ({
            let p = draw_result(pixels, width, height, pos_x, pos_y, sprite, wrap).0;
            &&& p.len() == pixels.len()
            &&& forall|i: nat|
                i < pixels.len() ==> #[trigger] p[i as int] == (pixels[i as int] != (hit_count(
                    width,
                    height,
                    (pos_x as nat) % width,
                    (pos_y as nat) % height,
                    sprite,
                    wrap,
                    8 * sprite.len(),
                    i,
                ) % 2 == 1))
        }),
{
    lemma_draw_cells_is_xor(
        pixels,
        width,
        height,
        (pos_x as nat) % width,
        (pos_y as nat) % height,
        sprite,
        wrap,
        8 * sprite.len(),
    );
}

/// Drawing the same sprite at the same place twice gives back the screen as it was.
pub proof fn lemma_draw_twice_restores(
    pixels: Seq<bool>,
    width: nat,
    height: nat,
    pos_x: u8,
    pos_y: u8,
    sprite: Seq<u8>,
    wrap: bool,
)
    requires
        pixels.len() == width * height,
        width > 0,
        height > 0,
    ensures
        draw_result(
            draw_result(pixels, width, height, pos_x, pos_y, sprite, wrap).0,
            width,
            height,
            pos_x,
            pos_y,
            sprite,
            wrap,
        ).0 == pixels,
{
    let once = draw_result(pixels, width, height, pos_x, pos_y, sprite, wrap).0;
    lemma_draw_is_xor(pixels, width, height, pos_x, pos_y, sprite, wrap);
    lemma_draw_is_xor(once, width, height, pos_x, pos_y, sprite, wrap);
    let twice = draw_result(once, width, height, pos_x, pos_y, sprite, wrap).0;
    assert forall|j: int| 0 <= j < pixels.len() implies twice[j] == pixels[j] by {
        let i = j as nat;
        assert(twice[i as int] == once[i as int] != (hit_count(
            width,
            height,
            (pos_x as nat) % width,
            (pos_y as nat) % height,
            sprite,
            wrap,
            8 * sprite.len(),
            i,
        ) % 2 == 1));
    }
    assert(twice =~= pixels);
}

impl View for Display {
    type V = Seq<bool>;

    /// The pixels, row by row.
    closed spec fn view(&self) -> Seq<bool> {
        self.pixels@
    }
}

impl Display {
    /// Number of columns.
    pub closed spec fn spec_width(&self) -> nat {
        self.width as nat
    }

    /// Number of rows.
    pub closed spec fn spec_height(&self) -> nat {
        self.height as nat
    }

    /// The grid holds one pixel for each column of each row, and the width is a
    /// positive multiple of 8.
    pub closed spec fn wf(&self) -> bool {
        &&& self.width > 0
        &&& self.height > 0
        &&& self.width % 8 == 0
        &&& self.width * self.height <= isize::MAX
        &&& self@.len() == self.width * self.height
    }

    /// What well-formedness gives callers: a positive width that is a multiple of 8, a
    /// positive height, and one pixel for each column of each row.
    pub proof fn lemma_wf(&self)
        requires
            self.wf(),
        ensures
            self.spec_width() > 0,
            self.spec_width() % 8 == 0,
            self.spec_height() > 0,
            self@.len() == self.spec_width() * self.spec_height(),
    {
    }

    /// A blank screen of `width` by `height` pixels.
    pub fn new(width: usize, height: usize) -> (r: Self)
        requires
            width > 0,
            height > 0,
            width % 8 == 0,
            width * height <= isize::MAX,
        ensures
            r.wf(),
            r.spec_width() == width,
            r.spec_height() == height,
            r@ == Seq::new((width * height) as nat, |i: int| false),
    {
        let pixels = vec![false; width * height];
        let r = Display { pixels, width, height };
        assert(r@ =~= Seq::new((width * height) as nat, |i: int| false));
        r
    }

    fn get_offset(&self, x: usize, y: usize) -> (r: usize)
        requires
            self.wf(),
            x < self.width,
            y < self.height,
        ensures
            r == y * self.width + x,
            r < self@.len(),
    {
        proof {
            lemma_offset_in_grid(x as int, y as int, self.width as int, self.height as int);
        }
        (y * self.width) + x
    }

    /// Flips the pixel at (`x`, `y`) and returns its new value.
    fn flip_pixel(&mut self, x: usize, y: usize) -> (r: bool)
        requires
            old(self).wf(),
            x < old(self).width,
            y < old(self).height,
        ensures
            final(self).wf(),
            final(self).width == old(self).width,
            final(self).height == old(self).height,
            final(self)@ == old(self)@.update(
                y * old(self).width + x,
                !old(self)@[y * old(self).width + x],
            ),
            r == !old(self)@[y * old(self).width + x],
    {
        let offset = self.get_offset(x, y);
        let flipped = !self.pixels[offset];
        self.pixels.set(offset, flipped);
        flipped
    }

    /// Draws an 8-pixel-wide sprite of `sprite_height` rows, read from the start of
    /// `memory`, at (`pos_x`, `pos_y`), by XOR. Returns whether a set pixel was turned off.
    pub fn draw_sprite(
        &mut self,
        pos_x: u8,
        pos_y: u8,
        sprite_height: u8,
        memory: &[u8],
        wrap_sprite: bool,
    ) -> (collided: bool)
        requires
            old(self).wf(),
            memory@.len() >= sprite_height,
        ensures
            final(self).wf(),
            final(self).spec_width() == old(self).spec_width(),
            final(self).spec_height() == old(self).spec_height(),
            final(self)@.len() == old(self)@.len(),
            (final(self)@, collided) == draw_result(
                old(self)@,
                old(self).spec_width(),
                old(self).spec_height(),
                pos_x,
                pos_y,
                memory@.subrange(0, sprite_height as int),
                wrap_sprite,
            ),
    {
        let ghost start = self@;
        let ghost sprite = memory@.subrange(0, sprite_height as int);
        let sprite_height = sprite_height as usize;
        let pos_x = pos_x as usize % self.width;
        let pos_y = pos_y as usize % self.height;
        let mut collide_check = false;
        let mut row_index: usize = 0;
        proof {
            let (w, h) = (self.width as int, self.height as int);
            assert(w <= w * h && h <= w * h) by (nonlinear_arith)
                requires
                    w > 0,
                    h > 0,
            ;
        }
        while row_index < sprite_height
            invariant
                self.wf(),
                self.width == old(self).width,
                self.height == old(self).height,
                row_index <= sprite_height,
                sprite_height <= memory@.len(),
                sprite == memory@.subrange(0, sprite_height as int),
                pos_x < self.width,
                pos_y < self.height,
                sprite_height < 256,
                self.width <= isize::MAX,
                self.height <= isize::MAX,
                start.len() == self.width * self.height,
                (self@, collide_check) == draw_cells(
                    start,
                    self.width as nat,
                    self.height as nat,
                    pos_x as nat,
                    pos_y as nat,
                    sprite,
                    wrap_sprite,
                    (8 * row_index) as nat,
                ),
            decreases sprite_height - row_index,
        {
            let row: u8 = memory[row_index];
            let mut mask: u8 = 0b1000_0000;
            let mut col: usize = 0;
            assert(0x80u8 >> 0u8 == 0x80u8) by (bit_vector);
            while col < 8
                invariant
                    self.wf(),
                    self.width == old(self).width,
                    self.height == old(self).height,
                    row_index < sprite_height,
                    sprite_height < 256,
                    sprite_height <= memory@.len(),
                    sprite == memory@.subrange(0, sprite_height as int),
                    row == sprite[row_index as int],
                    col <= 8,
                    mask == 0x80u8 >> (col as u8),
                    pos_x < self.width,
                    pos_y < self.height,
                    self.width <= isize::MAX,
                    self.height <= isize::MAX,
                    start.len() == self.width * self.height,
                    (self@, collide_check) == draw_cells(
                        start,
                        self.width as nat,
                        self.height as nat,
                        pos_x as nat,
                        pos_y as nat,
                        sprite,
                        wrap_sprite,
                        (8 * row_index + col) as nat,
                    ),
                decreases 8 - col,
            {
                let ghost k: nat = (8 * row_index + col) as nat;
                assert(k / 8 == row_index && k % 8 == col) by (nonlinear_arith)
                    requires
                        k == 8 * row_index + col,
                        col < 8,
                ;
                proof {
                    let c = col as u8;
                    assert(c < 8 ==> ((row & (0x80u8 >> c)) != 0 <==> (row >> (7 - c) as u8)
                        & 1u8 == 1u8)) by (bit_vector);
                    assert(c < 8 ==> (0x80u8 >> c) >> 1u8 == 0x80u8 >> (c + 1) as u8)
                        by (bit_vector);
                    assert(start.len() == (self.width as nat) * (self.height as nat));
                    lemma_draw_cells_len(
                        start,
                        self.width as nat,
                        self.height as nat,
                        pos_x as nat,
                        pos_y as nat,
                        sprite,
                        wrap_sprite,
                        k,
                    );
                }
                if (row & mask) != 0 {
                    let mut x = pos_x + col;
                    let mut y = pos_y + row_index;
                    if wrap_sprite {
                        x = x % self.width;
                        y = y % self.height;
                    }
                    if x < self.width && y < self.height {
                        let result = self.flip_pixel(x, y);
                        if !result {
                            collide_check = true;
                        }
                    }
                }
                mask = mask >> 1;
                col += 1;
            }
            row_index += 1;
        }
        collide_check
    }

    pub fn get_width(&self) -> (r: usize)
        ensures
            r == self.spec_width(),
    {
        self.width
    }

    pub fn get_height(&self) -> (r: usize)
        ensures
            r == self.spec_height(),
    {
        self.height
    }

    /// Turns every pixel off.
    pub fn clear(&mut self)
        requires
            old(self).wf(),
        ensures
            final(self).wf(),
            final(self).spec_width() == old(self).spec_width(),
            final(self).spec_height() == old(self).spec_height(),
            final(self)@ == Seq::new(old(self)@.len(), |i: int| false),
    {
        let mut i: usize = 0;
        while i < self.pixels.len()
            invariant
                self.wf(),
                self.width == old(self).width,
                self.height == old(self).height,
                self@.len() == old(self)@.len(),
                i <= self@.len(),
                forall|j: int| 0 <= j < i ==> !self@[j],
            decreases self@.len() - i,
        {
            self.pixels.set(i, false);
            i += 1;
        }
        assert(self@ =~= Seq::new(old(self)@.len(), |i: int| false));
    }

    /// The pixels as bytes, 1 for on and 0 for off.
    pub fn pixels(&self) -> (r: Vec<u8>)
        ensures
            r@.len() == self@.len(),
            forall|i: int| 0 <= i < r@.len() ==> r@[i] == if self@[i] { 1u8 } else { 0u8 },
    {
        let mut r: Vec<u8> = Vec::new();
        let mut i: usize = 0;
        while i < self.pixels.len()
            invariant
                i <= self@.len(),
                r@.len() == i,
                forall|j: int| 0 <= j < i ==> r@[j] == if self@[j] { 1u8 } else { 0u8 },
            decreases self@.len() - i,
        {
            r.push(if self.pixels[i] { 1u8 } else { 0u8 });
            i += 1;
        }
        r
    }
}

impl Default for Display {
    /// The standard 64 by 32 screen, blank.
    fn default() -> (r: Self)
        ensures
            r.wf(),
            r.spec_width() == 64,
            r.spec_height() == 32,
            r@ == Seq::new(2048, |i: int| false),
    {
        Display::new(64, 32)
    }
}

} // verus!
