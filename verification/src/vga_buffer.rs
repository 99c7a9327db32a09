//! The console writer: a fixed 25x80 grid of character/attribute cells,
//! written left to right on the bottom row, with automatic wrap, whole-grid
//! scroll on overflow or newline, and substitution of non-printable bytes.

use vstd::prelude::*;
use vstd::string::StringSliceAdditionalSpecFns;

verus! {

/// Number of rows of the visible display grid.
pub const BUFFER_HEIGHT: usize = 25;
/// Number of columns of the visible display grid.
pub const BUFFER_WIDTH: usize = 80;

/// The sixteen display colors, in their hardware numbering (`Black` is 0,
/// `White` is 15).
#[derive(Debug, Clone, Copy, PartialEq, Eq, Structural)]
pub enum Color {
    Black,
    Blue,
    Green,
    Cyan,
    Red,
    Magenta,
    Brown,
    LightGray,
    DarkGray,
    LightBlue,
    LightGreen,
    LightCyan,
    LightRed,
    Pink,
    Yellow,
    White,
}

/// The hardware number of a color: its position in the palette.
pub open spec fn color_number(c: Color) -> u8 {
    match c {
        Color::Black => 0,
        Color::Blue => 1,
        Color::Green => 2,
        Color::Cyan => 3,
        Color::Red => 4,
        Color::Magenta => 5,
        Color::Brown => 6,
        Color::LightGray => 7,
        Color::DarkGray => 8,
        Color::LightBlue => 9,
        Color::LightGreen => 10,
        Color::LightCyan => 11,
        Color::LightRed => 12,
        Color::Pink => 13,
        Color::Yellow => 14,
        Color::White => 15,
    }
}

/// A packed style byte: background color in the high four bits, foreground
/// color in the low four bits.
#[derive(Debug, Clone, Copy, PartialEq, Eq, Structural)]
pub struct ColorCode(u8);

impl ColorCode {
    /// The packed byte value.
    pub closed spec fn code(self) -> u8 {
        self.0
    }

    /// Packs a foreground and a background color into one style byte.
    pub fn new(foreground: Color, background: Color) -> (r: ColorCode)
        ensures
            r.code() == (color_number(background) << 4) | color_number(foreground),
    {
        let fg: u8 = Self::color_as_u8(foreground);
        let bg: u8 = Self::color_as_u8(background);
        ColorCode((bg << 4) | fg)
    }

    /// The packed byte, for writing into an attribute cell.
    pub fn to_byte(&self) -> (r: u8)
        ensures
            r == self.code(),
    {
        self.0
    }

    fn color_as_u8(c: Color) -> (r: u8)
        ensures
            r == color_number(c),
    {
        match c {
            Color::Black => 0,
            Color::Blue => 1,
            Color::Green => 2,
            Color::Cyan => 3,
            Color::Red => 4,
            Color::Magenta => 5,
            Color::Brown => 6,
            Color::LightGray => 7,
            Color::DarkGray => 8,
            Color::LightBlue => 9,
            Color::LightGreen => 10,
            Color::LightCyan => 11,
            Color::LightRed => 12,
            Color::Pink => 13,
            Color::Yellow => 14,
            Color::White => 15,
        }
    }
}

/// One cell of the grid: a character byte and its style byte.
#[derive(Debug, Clone, Copy, PartialEq, Eq, Structural)]
pub struct ScreenChar {
    pub ascii_character: u8,
    pub color_code: ColorCode,
}

/// The byte that stands for a line break in the input stream.
pub const NEWLINE: u8 = 0x0a;

/// The glyph substituted for any byte outside the printable range.
pub const PLACEHOLDER: u8 = 0xfe;

/// The byte written into cleared cells.
pub const BLANK: u8 = 0x20;

/// A byte that may appear verbatim in a cell: the printable range.
pub open spec fn printable(b: u8) -> bool {
    0x20 <= b <= 0x7e
}

/// What the console substitutes for each input byte: printable bytes and
/// newline pass through, everything else becomes the placeholder glyph.
pub open spec fn sanitize(b: u8) -> u8 {
    if printable(b) || b == NEWLINE {
        b
    } else {
        PLACEHOLDER
    }
}

/// The mathematical state of the console: the grid contents, the cursor
/// column on the bottom row, and the current style byte.
pub ghost struct WriterView {
    pub grid: Seq<Seq<ScreenChar>>,
    pub col: int,
    pub color: ColorCode,
}

/// A cleared cell in the given style.
pub open spec fn blank_char(color: ColorCode) -> ScreenChar {
    ScreenChar { ascii_character: BLANK, color_code: color }
}

/// A whole cleared row in the given style.
pub open spec fn blank_row(color: ColorCode) -> Seq<ScreenChar> {
    Seq::new(BUFFER_WIDTH as nat, |i: int| blank_char(color))
}

/// A fully cleared grid in the given style.
pub open spec fn blank_grid(color: ColorCode) -> Seq<Seq<ScreenChar>> {
    Seq::new(BUFFER_HEIGHT as nat, |r: int| blank_row(color))
}

/// A grid of the fixed shape: full height, every row full width.
pub open spec fn grid_wf(g: Seq<Seq<ScreenChar>>) -> bool {
    &&& g.len() == BUFFER_HEIGHT
    &&& (forall|r: int| 0 <= r < g.len() ==> (#[trigger] g[r]).len() == BUFFER_WIDTH)
}

impl WriterView {
    /// Well-formedness: a grid of the fixed shape, and the cursor always
    /// within the row — filling the last cell scrolls at once, so the
    /// cursor never rests at the width.
    pub open spec fn wf(self) -> bool {
        &&& grid_wf(self.grid)
        &&& 0 <= self.col < BUFFER_WIDTH
    }

    /// The scroll step: every row moves up one place, the oldest row is
    /// discarded, the bottom row is cleared, and the cursor returns to
    /// column zero.
    pub open spec fn scrolled(self) -> WriterView {
        WriterView {
            grid: self.grid.subrange(1, BUFFER_HEIGHT as int).push(blank_row(self.color)),
            col: 0,
            color: self.color,
        }
    }

    /// One raw byte placed on the grid: a newline scrolls; any other byte
    /// lands at the cursor on the bottom row and advances the cursor, and
    /// the grid scrolls at once when that byte fills the row.
    pub open spec fn with_byte(self, b: u8) -> WriterView {
        if b == NEWLINE {
            self.scrolled()
        } else {
            let cell = ScreenChar { ascii_character: b, color_code: self.color };
            let placed = WriterView {
                grid: self.grid.update(
                    BUFFER_HEIGHT - 1,
                    self.grid[BUFFER_HEIGHT - 1].update(self.col, cell),
                ),
                col: self.col + 1,
                color: self.color,
            };
            if self.col + 1 >= BUFFER_WIDTH {
                placed.scrolled()
            } else {
                placed
            }
        }
    }

    /// A whole byte sequence written through the console interface: each
    /// byte is sanitized, then placed.
    pub open spec fn with_bytes(self, s: Seq<u8>) -> WriterView
        decreases s.len(),
    {
        if s.len() == 0 {
            self
        } else {
            self.with_byte(sanitize(s[0])).with_bytes(s.drop_first())
        }
    }
}

/// The console writer. It owns the grid model; every operation keeps the
/// grid at its fixed size and the cursor within the bottom row.
pub struct Writer {
    column_position: usize,
    color_code: ColorCode,
    grid: Vec<Vec<ScreenChar>>,
}

impl View for Writer {
    type V = WriterView;

    closed spec fn view(&self) -> WriterView {
        WriterView {
            grid: self.grid@.map_values(|row: Vec<ScreenChar>| row@),
            col: self.column_position as int,
            color: self.color_code,
        }
    }
}

impl Writer {
    /// A writer over a fully cleared grid, with the cursor at column zero.
    pub fn new(foreground: Color, background: Color) -> (w: Writer)
        ensures
            w@.wf(),
            w@.color.code() == (color_number(background) << 4) | color_number(foreground),
            w@.col == 0,
            w@.grid =~~= blank_grid(w@.color),
    {
        let color_code = ColorCode::new(foreground, background);
        let blank = ScreenChar { ascii_character: BLANK, color_code };
        let mut grid: Vec<Vec<ScreenChar>> = Vec::new();
        for r in 0..BUFFER_HEIGHT
            invariant
                blank == blank_char(color_code),
                grid@.len() == r,
                forall|i: int| 0 <= i < r ==> (#[trigger] grid@[i])@ =~= blank_row(color_code),
        {
            let mut row: Vec<ScreenChar> = Vec::new();
            for c in 0..BUFFER_WIDTH
                invariant
                    blank == blank_char(color_code),
                    row@.len() == c,
                    forall|j: int| 0 <= j < c ==> (#[trigger] row@[j]) == blank_char(color_code),
            {
                row.push(blank);
            }
            assert(row@ =~= blank_row(color_code));
            grid.push(row);
        }
        let w = Writer { column_position: 0, color_code, grid };
        assert(w@.grid =~~= blank_grid(color_code));
        w
    }

    /// The cell at the given position.
    pub fn char_at(&self, row: usize, col: usize) -> (c: ScreenChar)
        requires
            self@.wf(),
            row < BUFFER_HEIGHT,
            col < BUFFER_WIDTH,
        ensures
            c == self@.grid[row as int][col as int],
    {
        proof {
            assert(self.grid@.len() == self@.grid.len());
            assert(self.grid@[row as int]@ == self@.grid[row as int]);
        }
        self.grid[row][col]
    }

    /// The cursor column on the bottom row.
    pub fn cursor(&self) -> (c: usize)
        ensures
            c == self@.col,
    {
        self.column_position
    }

    /// Fills one row with blank cells in the current style.
    fn clear_row(&mut self, row: usize)
        requires
            old(self)@.wf(),
            row < BUFFER_HEIGHT,
        ensures
            final(self)@.wf(),
            final(self)@.grid == old(self)@.grid.update(row as int, blank_row(old(self)@.color)),
            final(self)@.col == old(self)@.col,
            final(self)@.color == old(self)@.color,
    {
        proof {
            assert forall|i: int| 0 <= i < BUFFER_HEIGHT implies (#[trigger] self.grid@[i])@
                == self@.grid[i] by {}
        }
        let blank = ScreenChar { ascii_character: BLANK, color_code: self.color_code };
        for col in 0..BUFFER_WIDTH
            invariant
                old(self)@.wf(),
                row < BUFFER_HEIGHT,
                blank == blank_char(old(self)@.color),
                self.grid@.len() == BUFFER_HEIGHT,
                self.color_code == old(self)@.color,
                self.column_position == old(self)@.col,
                forall|i: int|
                    0 <= i < BUFFER_HEIGHT && i != row ==> (#[trigger] self.grid@[i])@
                        == old(self)@.grid[i],
                self.grid@[row as int]@.len() == BUFFER_WIDTH,
                forall|j: int|
                    0 <= j < col ==> #[trigger] self.grid@[row as int]@[j] == blank_char(
                        old(self)@.color,
                    ),
                forall|j: int|
                    col <= j < BUFFER_WIDTH ==> #[trigger] self.grid@[row as int]@[j] == old(
                        self,
                    )@.grid[row as int][j],
        {
            self.grid[row][col] = blank;
        }
        proof {
            assert(self.grid@[row as int]@ =~= blank_row(old(self)@.color));
            assert(self@.grid =~~= old(self)@.grid.update(
                row as int,
                blank_row(old(self)@.color),
            ));
        }
    }

    /// The scroll step: moves every row up one place, discards the oldest
    /// row, clears the bottom row and resets the cursor.
    fn new_line(&mut self)
        requires
            old(self)@.wf(),
        ensures
            final(self)@.wf(),
            final(self)@ == old(self)@.scrolled(),
    {
        proof {
            assert forall|i: int| 0 <= i < BUFFER_HEIGHT implies (#[trigger] self.grid@[i])@
                == self@.grid[i] by {}
        }
        for row in 1..BUFFER_HEIGHT
            invariant
                old(self)@.wf(),
                self.grid@.len() == BUFFER_HEIGHT,
                self.color_code == old(self)@.color,
                self.column_position == old(self)@.col,
                forall|i: int|
                    0 <= i < row - 1 ==> (#[trigger] self.grid@[i])@ == old(self)@.grid[i + 1],
                forall|i: int|
                    row - 1 <= i < BUFFER_HEIGHT ==> (#[trigger] self.grid@[i])@ == old(
                        self,
                    )@.grid[i],
        {
            for col in 0..BUFFER_WIDTH
                invariant
                    old(self)@.wf(),
                    1 <= row < BUFFER_HEIGHT,
                    self.grid@.len() == BUFFER_HEIGHT,
                    self.color_code == old(self)@.color,
                    self.column_position == old(self)@.col,
                    forall|i: int|
                        0 <= i < row - 1 ==> (#[trigger] self.grid@[i])@ == old(self)@.grid[i + 1],
                    forall|i: int|
                        row <= i < BUFFER_HEIGHT ==> (#[trigger] self.grid@[i])@ == old(
                            self,
                        )@.grid[i],
                    self.grid@[row - 1]@.len() == BUFFER_WIDTH,
                    forall|j: int|
                        0 <= j < col ==> #[trigger] self.grid@[row - 1]@[j]
                            == old(self)@.grid[row as int][j],
                    forall|j: int|
                        col <= j < BUFFER_WIDTH ==> #[trigger] self.grid@[row - 1]@[j] == old(
                            self,
                        )@.grid[row - 1][j],
            {
                let ch = self.grid[row][col];
                self.grid[row - 1][col] = ch;
            }
            proof {
                assert(self.grid@[row - 1]@ =~= old(self)@.grid[row as int]);
            }
        }
        self.clear_row(BUFFER_HEIGHT - 1);
        self.column_position = 0;
        proof {
            assert(self@.grid =~~= old(self)@.scrolled().grid);
            assert(self@ == old(self)@.scrolled());
        }
    }

    /// Places one raw byte: a newline scrolls; any other byte lands at the
    /// cursor on the bottom row, and the grid scrolls at once when that
    /// byte fills the row, so the cursor never rests at the width.
    pub fn write_byte(&mut self, byte: u8)
        requires
            old(self)@.wf(),
        ensures
            final(self)@.wf(),
            final(self)@ == old(self)@.with_byte(byte),
    {
        if byte == NEWLINE {
            self.new_line();
        } else {
            let row = BUFFER_HEIGHT - 1;
            let col = self.column_position;
            let color_code = self.color_code;
            proof {
                assert(self.grid@.len() == self@.grid.len());
                assert(self.grid@[row as int]@ == self@.grid[row as int]);
            }
            self.grid[row][col] = ScreenChar { ascii_character: byte, color_code };
            proof {
                let cell = ScreenChar { ascii_character: byte, color_code: old(self)@.color };
                assert(self@.grid =~~= old(self)@.grid.update(
                    row as int,
                    old(self)@.grid[row as int].update(col as int, cell),
                ));
            }
            if col + 1 >= BUFFER_WIDTH {
                self.new_line();
            } else {
                self.column_position = col + 1;
            }
            proof {
                assert(self@.grid =~~= old(self)@.with_byte(byte).grid);
                assert(self@ == old(self)@.with_byte(byte));
            }
        }
    }

    /// Writes a byte sequence through the console interface: printable
    /// bytes and newlines verbatim, every other byte as the placeholder.
    pub fn write_bytes(&mut self, s: &[u8])
        requires
            old(self)@.wf(),
        ensures
            final(self)@.wf(),
            final(self)@ == old(self)@.with_bytes(s@),
    {
        let n = s.len();
        for i in 0..n
            invariant
                n == s@.len(),
                old(self)@.wf(),
                self@.wf(),
                self@ == old(self)@.with_bytes(s@.take(i as int)),
        {
            let b = s[i];
            if (0x20 <= b && b <= 0x7e) || b == NEWLINE {
                self.write_byte(b);
            } else {
                self.write_byte(PLACEHOLDER);
            }
            proof {
                assert(s@.take(i + 1) =~= s@.take(i as int).push(s@[i as int]));
                lemma_with_bytes_push(old(self)@, s@.take(i as int), s@[i as int]);
            }
        }
        proof {
            assert(s@.take(n as int) =~= s@);
        }
    }

    /// Writes a string through the console interface, byte by byte in its
    /// encoded form.
    pub fn write_string(&mut self, s: &str)
        requires
            old(self)@.wf(),
        ensures
            final(self)@.wf(),
            final(self)@ == old(self)@.with_bytes(s.spec_bytes()),
    {
        let bytes = s.as_bytes();
        self.write_bytes(bytes);
    }
}

/// Writing one more byte at the end of a sequence is one more placement
/// step after writing the sequence.
pub proof fn lemma_with_bytes_push(v: WriterView, s: Seq<u8>, b: u8)
    ensures
        v.with_bytes(s.push(b)) == v.with_bytes(s).with_byte(sanitize(b)),
    decreases s.len(),
{
    if s.len() == 0 {
        assert(s.push(b)[0] == b);
        assert(s.push(b).drop_first() =~= Seq::<u8>::empty());
        assert(v.with_bytes(s.push(b)) == v.with_byte(sanitize(b)).with_bytes(
            Seq::<u8>::empty(),
        ));
        assert(v.with_byte(sanitize(b)).with_bytes(Seq::<u8>::empty()) == v.with_byte(
            sanitize(b),
        ));
        assert(v.with_bytes(s) == v);
    } else {
        assert(s.push(b)[0] == s[0]);
        assert(s.push(b).drop_first() =~= s.drop_first().push(b));
        assert(v.with_bytes(s.push(b)) == v.with_byte(sanitize(s[0])).with_bytes(
            s.drop_first().push(b),
        ));
        lemma_with_bytes_push(v.with_byte(sanitize(s[0])), s.drop_first(), b);
        assert(v.with_bytes(s) == v.with_byte(sanitize(s[0])).with_bytes(s.drop_first()));
    }
}

/// A byte a cell may hold: printable, or the placeholder glyph. In
/// particular never a raw control byte and never a newline.
pub open spec fn displayable(b: u8) -> bool {
    printable(b) || b == PLACEHOLDER
}

/// Every cell of the grid holds a displayable byte.
pub open spec fn grid_displayable(g: Seq<Seq<ScreenChar>>) -> bool {
    forall|r: int, c: int|
        0 <= r < g.len() && 0 <= c < g[r].len() ==> displayable(
            (#[trigger] g[r][c]).ascii_character,
        )
}

/// The scroll step keeps the console well formed.
pub proof fn lemma_scrolled_wf(v: WriterView)
    requires
        v.wf(),
    ensures
        v.scrolled().wf(),
{
}

/// Placing one byte keeps the console well formed.
pub proof fn lemma_with_byte_wf(v: WriterView, b: u8)
    requires
        v.wf(),
    ensures
        v.with_byte(b).wf(),
{
    lemma_scrolled_wf(v);
}

/// Writing any byte sequence keeps the console well formed.
pub proof fn lemma_with_bytes_wf(v: WriterView, s: Seq<u8>)
    requires
        v.wf(),
    ensures
        v.with_bytes(s).wf(),
    decreases s.len(),
{
    if s.len() > 0 {
        lemma_with_byte_wf(v, sanitize(s[0]));
        lemma_with_bytes_wf(v.with_byte(sanitize(s[0])), s.drop_first());
    }
}

/// Whatever byte comes in, what the console places is displayable or a
/// newline.
pub proof fn lemma_sanitize_displayable(b: u8)
    ensures
        displayable(sanitize(b)) || sanitize(b) == NEWLINE,
{
}

/// The scroll step keeps every cell displayable: surviving rows keep
/// their cells and the fresh bottom row is blank.
pub proof fn lemma_scrolled_displayable(v: WriterView)
    requires
        v.wf(),
        grid_displayable(v.grid),
    ensures
        grid_displayable(v.scrolled().grid),
{
}

/// Placing a displayable byte, or a newline, keeps every cell
/// displayable.
pub proof fn lemma_with_byte_displayable(v: WriterView, b: u8)
    requires
        v.wf(),
        grid_displayable(v.grid),
        displayable(b) || b == NEWLINE,
    ensures
        grid_displayable(v.with_byte(b).grid),
{
    lemma_scrolled_displayable(v);
    lemma_scrolled_wf(v);
}

/// Only printable bytes ever appear in the grid: whatever byte sequence is
/// written through the console interface, every cell of a clean grid stays
/// in the printable range (non-printable input having been substituted and
/// newlines having been consumed by scrolling).
pub proof fn lemma_console_keeps_grid_displayable(v: WriterView, s: Seq<u8>)
    requires
        v.wf(),
        grid_displayable(v.grid),
    ensures
        v.with_bytes(s).wf(),
        grid_displayable(v.with_bytes(s).grid),
    decreases s.len(),
{
    lemma_with_bytes_wf(v, s);
    if s.len() > 0 {
        lemma_sanitize_displayable(s[0]);
        lemma_with_byte_displayable(v, sanitize(s[0]));
        lemma_with_byte_wf(v, sanitize(s[0]));
        lemma_console_keeps_grid_displayable(v.with_byte(sanitize(s[0])), s.drop_first());
    }
}

/// The scroll step preserves the most recently written rows in order and
/// discards only the oldest; the cursor is at column zero immediately after.
pub proof fn lemma_scroll_preserves_recent(v: WriterView)
    requires
        v.wf(),
    ensures
        v.scrolled().wf(),
        v.scrolled().col == 0,
        forall|r: int|
            0 <= r < BUFFER_HEIGHT - 1 ==> #[trigger] v.scrolled().grid[r] == v.grid[r + 1],
        v.scrolled().grid[BUFFER_HEIGHT - 1] == blank_row(v.color),
        v.with_byte(NEWLINE) == v.scrolled(),
{
}

/// The number of scroll steps that writing a printable sequence of
/// length `n` from column zero performs: one each time a row fills.
pub open spec fn rows_scrolled(n: int) -> int {
    n / (BUFFER_WIDTH as int)
}

/// The row in which byte `i` of a printable sequence of length `n`,
/// written from column zero, ends up.
pub open spec fn landing_row(n: int, i: int) -> int {
    BUFFER_HEIGHT - 1 - rows_scrolled(n) + i / (BUFFER_WIDTH as int)
}

/// The column in which byte `i` of such a sequence ends up.
pub open spec fn landing_col(i: int) -> int {
    i % (BUFFER_WIDTH as int)
}

proof fn lemma_succ_div_mod(a: int, w: int)
    requires
        0 <= a,
        0 < w,
    ensures
        a % w < w - 1 ==> (a + 1) % w == a % w + 1 && (a + 1) / w == a / w,
        a % w == w - 1 ==> (a + 1) % w == 0 && (a + 1) / w == a / w + 1,
{
    vstd::arithmetic::div_mod::lemma_fundamental_div_mod(a, w);
    vstd::arithmetic::div_mod::lemma_mod_bound(a, w);
    vstd::arithmetic::mul::lemma_mul_is_commutative(w, a / w);
    vstd::arithmetic::mul::lemma_mul_is_commutative(w, a / w + 1);
    vstd::arithmetic::mul::lemma_mul_is_distributive_add_other_way(w, a / w, 1);
    if a % w < w - 1 {
        vstd::arithmetic::div_mod::lemma_fundamental_div_mod_converse(a + 1, w, a / w, a % w + 1);
    } else {
        vstd::arithmetic::div_mod::lemma_fundamental_div_mod_converse(a + 1, w, a / w + 1, 0);
    }
}

proof fn lemma_rows_bound(n: int, w: int, h: int)
    requires
        0 < w,
        0 < h,
        0 <= n < w * h,
    ensures
        0 <= n / w <= h - 1,
{
    vstd::arithmetic::div_mod::lemma_fundamental_div_mod(n, w);
    vstd::arithmetic::div_mod::lemma_mod_bound(n, w);
    vstd::arithmetic::div_mod::lemma_div_pos_is_pos(n, w);
    if n / w >= h {
        vstd::arithmetic::mul::lemma_mul_inequality(h, n / w, w);
        vstd::arithmetic::mul::lemma_mul_is_commutative(w, n / w);
        vstd::arithmetic::mul::lemma_mul_is_commutative(w, h);
        assert(false);
    }
}

/// Writing a printable byte sequence from column zero wraps at the row
/// boundary and loses no byte: byte `i` lands exactly in row
/// `landing_row` at column `landing_col`, and the cursor ends where the
/// next byte would go.
pub proof fn lemma_wrap_no_byte_loss(v: WriterView, s: Seq<u8>)
    requires
        v.wf(),
        v.col == 0,
        1 <= s.len() < BUFFER_WIDTH * BUFFER_HEIGHT,
        forall|i: int| 0 <= i < s.len() ==> printable(#[trigger] s[i]),
    ensures
        v.with_bytes(s).wf(),
        v.with_bytes(s).col == landing_col(s.len() as int),
        forall|i: int|
            0 <= i < s.len() ==> (#[trigger] v.with_bytes(s).grid[landing_row(s.len() as int, i)][landing_col(i)]).ascii_character == s[i],
    decreases s.len(),
{
    let w = BUFFER_WIDTH as int;
    let h = BUFFER_HEIGHT as int;
    let n = s.len() as int;
    lemma_with_bytes_wf(v, s);
    lemma_rows_bound(n, w, h);
    if s.len() == 1 {
        assert(sanitize(s[0]) == s[0]);
        let u = v.with_byte(s[0]);
        assert(s.drop_first().len() == 0);
        assert(v.with_bytes(s) == u.with_bytes(s.drop_first()));
        assert(u.with_bytes(s.drop_first()) == u);
        assert(1int / w == 0 && 1int % w == 1 && 0int / w == 0 && 0int % w == 0) by {
            vstd::arithmetic::div_mod::lemma_fundamental_div_mod_converse(1, w, 0, 1);
            vstd::arithmetic::div_mod::lemma_fundamental_div_mod_converse(0, w, 0, 0);
        }
        assert(u.grid[h - 1][0].ascii_character == s[0]);
    } else {
        let t = s.drop_last();
        let b = s.last();
        let m = n - 1;
        assert(s =~= t.push(b));
        assert(forall|i: int| 0 <= i < t.len() ==> printable(#[trigger] t[i]));
        lemma_wrap_no_byte_loss(v, t);
        lemma_with_bytes_push(v, t, b);
        assert(sanitize(b) == b);
        let u = v.with_bytes(t);
        let fin = u.with_byte(b);
        assert(v.with_bytes(s) == fin);
        lemma_succ_div_mod(m, w);
        vstd::arithmetic::div_mod::lemma_mod_bound(m, w);
        vstd::arithmetic::div_mod::lemma_div_pos_is_pos(m, w);
        lemma_rows_bound(m, w, h);
        if m % w < w - 1 {
            // there is room in the row: the new byte lands beside the last
            assert(u.col < w - 1);
            assert(n % w == m % w + 1 && n / w == m / w);
            assert(fin.col == landing_col(n));
            assert forall|i: int|
                0 <= i < n implies (#[trigger] fin.grid[landing_row(n, i)][landing_col(i)]).ascii_character
                == s[i] by {
                vstd::arithmetic::div_mod::lemma_fundamental_div_mod(i, w);
                vstd::arithmetic::div_mod::lemma_mod_bound(i, w);
                vstd::arithmetic::div_mod::lemma_div_pos_is_pos(i, w);
                vstd::arithmetic::div_mod::lemma_fundamental_div_mod(m, w);
                if i < m {
                    vstd::arithmetic::div_mod::lemma_div_is_ordered(i, m, w);
                    assert(u.grid[landing_row(m, i)][landing_col(i)].ascii_character == t[i]);
                    assert(landing_row(n, i) == landing_row(m, i));
                } else {
                    assert(landing_row(n, m) == h - 1 && landing_col(m) == u.col);
                }
            }
        } else {
            // the byte fills the row: it is placed and the grid scrolls at once
            assert(u.col == w - 1);
            assert(n % w == 0 && n / w == m / w + 1);
            assert(fin.col == 0);
            let cell = ScreenChar { ascii_character: b, color_code: u.color };
            let placed = WriterView {
                grid: u.grid.update(h - 1, u.grid[h - 1].update(u.col, cell)),
                col: u.col + 1,
                color: u.color,
            };
            assert(fin == placed.scrolled());
            assert forall|i: int|
                0 <= i < n implies (#[trigger] fin.grid[landing_row(n, i)][landing_col(i)]).ascii_character
                == s[i] by {
                vstd::arithmetic::div_mod::lemma_fundamental_div_mod(i, w);
                vstd::arithmetic::div_mod::lemma_mod_bound(i, w);
                vstd::arithmetic::div_mod::lemma_div_pos_is_pos(i, w);
                vstd::arithmetic::div_mod::lemma_fundamental_div_mod(m, w);
                if i < m {
                    vstd::arithmetic::div_mod::lemma_div_is_ordered(i, m, w);
                    assert(u.grid[landing_row(m, i)][landing_col(i)].ascii_character == t[i]);
                    assert(placed.grid[landing_row(m, i)][landing_col(i)].ascii_character == t[i]);
                    assert(1 <= landing_row(m, i) <= h - 1);
                    assert(fin.grid[landing_row(m, i) - 1] == placed.grid[landing_row(m, i)]);
                    assert(landing_row(n, i) == landing_row(m, i) - 1);
                } else {
                    // the byte itself moves up with the scroll it caused
                    assert(placed.grid[h - 1][w - 1].ascii_character == b);
                    assert(fin.grid[h - 2] == placed.grid[h - 1]);
                    assert(landing_row(n, m) == h - 2 && landing_col(m) == w - 1);
                }
            }
        }
    }
}

/// Writing a single byte through the console interface is one placement
/// of its substituted form.
pub proof fn lemma_with_bytes_singleton(v: WriterView, b: u8)
    ensures
        v.with_bytes(seq![b]) == v.with_byte(sanitize(b)),
{
    assert(seq![b].drop_first().len() == 0);
    assert(v.with_bytes(seq![b]) == v.with_byte(sanitize(b)).with_bytes(seq![b].drop_first()));
}

/// Console writes compose: writing one sequence after another is writing
/// their concatenation.
pub proof fn lemma_with_bytes_concat(v: WriterView, a: Seq<u8>, b: Seq<u8>)
    ensures
        v.with_bytes(a + b) == v.with_bytes(a).with_bytes(b),
    decreases a.len(),
{
    if a.len() == 0 {
        assert(a + b =~= b);
    } else {
        assert((a + b)[0] == a[0]);
        assert((a + b).drop_first() =~= a.drop_first() + b);
        assert(v.with_bytes(a + b) == v.with_byte(sanitize(a[0])).with_bytes(
            a.drop_first() + b,
        ));
        lemma_with_bytes_concat(v.with_byte(sanitize(a[0])), a.drop_first(), b);
    }
}

/// A single printable byte placed short of the last column touches
/// exactly one cell: every row above stays intact, and so does every
/// other cell of the bottom row.
pub proof fn lemma_byte_touches_one_cell(v: WriterView, b: u8)
    requires
        v.wf(),
        printable(b),
        v.col < BUFFER_WIDTH - 1,
    ensures
        v.with_byte(b).wf(),
        v.with_byte(b).col == v.col + 1,
        forall|r: int|
            0 <= r < BUFFER_HEIGHT - 1 ==> #[trigger] v.with_byte(b).grid[r] == v.grid[r],
        forall|c: int|
            0 <= c < BUFFER_WIDTH && c != v.col ==> #[trigger] v.with_byte(b).grid[BUFFER_HEIGHT
                - 1][c] == v.grid[BUFFER_HEIGHT - 1][c],
        v.with_byte(b).grid[BUFFER_HEIGHT - 1][v.col] == (ScreenChar {
            ascii_character: b,
            color_code: v.color,
        }),
{
}

/// A write that stays short of the last column touches exactly the cells
/// it fills: every row above is unchanged, every other cell of the bottom
/// row is unchanged, and the written bytes stand where the cursor passed,
/// in the writer's color.
pub proof fn lemma_row_write_frame(v: WriterView, s: Seq<u8>)
    requires
        v.wf(),
        forall|i: int| 0 <= i < s.len() ==> printable(#[trigger] s[i]),
        v.col + s.len() < BUFFER_WIDTH,
    ensures
        ({
            let w = v.with_bytes(s);
            &&& w.wf()
            &&& w.col == v.col + s.len()
            &&& w.color == v.color
            &&& forall|r: int| 0 <= r < BUFFER_HEIGHT - 1 ==> #[trigger] w.grid[r] == v.grid[r]
            &&& forall|c: int|
                0 <= c < BUFFER_WIDTH && !(v.col <= c < v.col + s.len())
                    ==> #[trigger] w.grid[BUFFER_HEIGHT - 1][c] == v.grid[BUFFER_HEIGHT - 1][c]
            &&& forall|i: int|
                0 <= i < s.len() ==> (#[trigger] w.grid[BUFFER_HEIGHT - 1][v.col + i])
                    == (ScreenChar { ascii_character: s[i], color_code: v.color })
        }),
    decreases s.len(),
{
    if s.len() == 0 {
    } else {
        let t = s.drop_last();
        let b = s.last();
        assert(s =~= t.push(b));
        assert(forall|i: int| 0 <= i < t.len() ==> printable(#[trigger] t[i]));
        lemma_row_write_frame(v, t);
        lemma_with_bytes_push(v, t, b);
        assert(sanitize(b) == b);
        let u = v.with_bytes(t);
        lemma_byte_touches_one_cell(u, b);
    }
}

/// Writing one newline-terminated line from column zero: the rows move up
/// one place and the oldest is discarded, the finished line comes to rest
/// in the second-to-last row (followed by whatever the bottom row already
/// held past its end), the bottom row is cleared, and the cursor is back
/// at column zero.
pub proof fn lemma_line_write(v: WriterView, s: Seq<u8>)
    requires
        v.wf(),
        v.col == 0,
        forall|i: int| 0 <= i < s.len() ==> printable(#[trigger] s[i]),
        s.len() < BUFFER_WIDTH,
    ensures
        ({
            let w = v.with_bytes(s.push(NEWLINE));
            &&& w.wf()
            &&& w.col == 0
            &&& w.color == v.color
            &&& forall|r: int| 0 <= r < BUFFER_HEIGHT - 2 ==> #[trigger] w.grid[r] == v.grid[r + 1]
            &&& forall|i: int|
                0 <= i < s.len() ==> (#[trigger] w.grid[BUFFER_HEIGHT - 2][i]) == (ScreenChar {
                    ascii_character: s[i],
                    color_code: v.color,
                })
            &&& forall|c: int|
                s.len() <= c < BUFFER_WIDTH ==> #[trigger] w.grid[BUFFER_HEIGHT - 2][c]
                    == v.grid[BUFFER_HEIGHT - 1][c]
            &&& w.grid[BUFFER_HEIGHT - 1] == blank_row(v.color)
        }),
{
    lemma_row_write_frame(v, s);
    lemma_with_bytes_push(v, s, NEWLINE);
    let u = v.with_bytes(s);
    assert(sanitize(NEWLINE) == NEWLINE);
    let w = u.with_byte(NEWLINE);
    assert(w == u.scrolled());
    lemma_scroll_preserves_recent(u);
    assert(forall|r: int| 0 <= r < BUFFER_HEIGHT - 1 ==> #[trigger] w.grid[r] == u.grid[r + 1]);
    assert(w.grid[BUFFER_HEIGHT - 2] == u.grid[BUFFER_HEIGHT - 1]);
    assert forall|i: int|
        0 <= i < s.len() implies (#[trigger] w.grid[BUFFER_HEIGHT - 2][i]) == (ScreenChar {
        ascii_character: s[i],
        color_code: v.color,
    }) by {
        assert(u.grid[BUFFER_HEIGHT - 1][v.col + i] == (ScreenChar {
            ascii_character: s[i],
            color_code: v.color,
        }));
    }
}

/// A row holding a line's bytes from column zero, blank-filled to the
/// width, all in the given style.
pub open spec fn padded_line(s: Seq<u8>, color: ColorCode) -> Seq<ScreenChar> {
    Seq::new(
        BUFFER_WIDTH as nat,
        |c: int|
            if c < s.len() {
                ScreenChar { ascii_character: s[c], color_code: color }
            } else {
                blank_char(color)
            },
    )
}

/// A sequence of lines written in order, each followed by a newline.
pub open spec fn with_lines(v: WriterView, lines: Seq<Seq<u8>>) -> WriterView
    decreases lines.len(),
{
    if lines.len() == 0 {
        v
    } else {
        with_lines(v.with_bytes(lines[0].push(NEWLINE)), lines.drop_first())
    }
}

proof fn lemma_with_lines_push(v: WriterView, lines: Seq<Seq<u8>>, last: Seq<u8>)
    ensures
        with_lines(v, lines.push(last)) == with_lines(v, lines).with_bytes(last.push(NEWLINE)),
    decreases lines.len(),
{
    if lines.len() == 0 {
        assert(lines.push(last)[0] == last);
        assert(lines.push(last).drop_first() =~= Seq::<Seq<u8>>::empty());
        assert(with_lines(v, lines.push(last)) == with_lines(
            v.with_bytes(last.push(NEWLINE)),
            lines.push(last).drop_first(),
        ));
    } else {
        assert(lines.push(last)[0] == lines[0]);
        assert(lines.push(last).drop_first() =~= lines.drop_first().push(last));
        assert(with_lines(v, lines.push(last)) == with_lines(
            v.with_bytes(lines[0].push(NEWLINE)),
            lines.drop_first().push(last),
        ));
        lemma_with_lines_push(v.with_bytes(lines[0].push(NEWLINE)), lines.drop_first(), last);
    }
}

/// Writing any number of newline-terminated printable lines, each shorter
/// than the row width, from a cursor at column zero over a blank bottom
/// row: the grid keeps its fixed shape, the most recent lines stand in
/// write order in consecutive rows ending just above the cleared bottom
/// row, only the oldest content is discarded off the top, and the cursor
/// is back at column zero.
pub proof fn lemma_lines_keep_recent(v: WriterView, lines: Seq<Seq<u8>>)
    requires
        v.wf(),
        v.col == 0,
        v.grid[BUFFER_HEIGHT - 1] == blank_row(v.color),
        forall|j: int| 0 <= j < lines.len() ==> (#[trigger] lines[j]).len() < BUFFER_WIDTH,
        forall|j: int, i: int|
            0 <= j < lines.len() && 0 <= i < lines[j].len() ==> printable(#[trigger] lines[j][i]),
    ensures
        ({
            let w = with_lines(v, lines);
            let k = lines.len() as int;
            &&& w.wf()
            &&& w.col == 0
            &&& w.color == v.color
            &&& w.grid[BUFFER_HEIGHT - 1] == blank_row(v.color)
            &&& forall|j: int|
                0 <= j < k && j < BUFFER_HEIGHT - 1 ==> #[trigger] w.grid[BUFFER_HEIGHT - 2 - j]
                    == padded_line(lines[k - 1 - j], v.color)
            &&& forall|r: int| 0 <= r < BUFFER_HEIGHT - 1 - k ==> #[trigger] w.grid[r] == v.grid[r + k]
        }),
    decreases lines.len(),
{
    if lines.len() > 0 {
        let k = lines.len() as int;
        let l = lines.drop_last();
        let last = lines.last();
        assert(lines =~= l.push(last));
        assert(forall|j: int| 0 <= j < l.len() ==> (#[trigger] l[j]).len() < BUFFER_WIDTH);
        assert(forall|j: int, i: int|
            0 <= j < l.len() && 0 <= i < l[j].len() ==> printable(#[trigger] l[j][i]));
        assert(forall|i: int| 0 <= i < last.len() ==> printable(#[trigger] last[i]));
        lemma_lines_keep_recent(v, l);
        lemma_with_lines_push(v, l, last);
        let u = with_lines(v, l);
        lemma_line_write(u, last);
        let w = u.with_bytes(last.push(NEWLINE));
        assert forall|c: int|
            0 <= c < BUFFER_WIDTH implies #[trigger] w.grid[BUFFER_HEIGHT - 2][c] == padded_line(
            last,
            v.color,
        )[c] by {
            if c >= last.len() {
                assert(w.grid[BUFFER_HEIGHT - 2][c] == u.grid[BUFFER_HEIGHT - 1][c]);
            }
        }
        assert(w.grid[BUFFER_HEIGHT - 2] =~= padded_line(last, v.color));
        assert forall|j: int|
            0 <= j < k && j < BUFFER_HEIGHT - 1 implies #[trigger] w.grid[BUFFER_HEIGHT - 2 - j]
            == padded_line(lines[k - 1 - j], v.color) by {
            if j >= 1 {
                assert(w.grid[BUFFER_HEIGHT - 2 - j] == u.grid[BUFFER_HEIGHT - 1 - j]);
                assert(u.grid[BUFFER_HEIGHT - 2 - (j - 1)] == padded_line(l[k - 1 - j], v.color));
                assert(l[k - 1 - j] == lines[k - 1 - j]);
            } else {
                assert(lines[k - 1] == last);
            }
        }
        assert forall|r: int|
            0 <= r < BUFFER_HEIGHT - 1 - k implies #[trigger] w.grid[r] == v.grid[r + k] by {
            assert(w.grid[r] == u.grid[r + 1]);
            assert(u.grid[r + 1] == v.grid[r + 1 + (k - 1)]);
        }
    }
}

} // verus!
