//! Logic of the placeholder executable: its command-line configuration and
//! the block-glyph text renderer it paints its window with.  The host owns
//! the argument list and the pixel buffer; everything decided about them is
//! decided here.

use vstd::prelude::*;

use crate::text::str_eq_str;
use vstd::arithmetic::mul::lemma_mul_inequality;
use vstd::arithmetic::mul::lemma_mul_is_distributive_add_other_way;
use vstd::arithmetic::mul::lemma_mul_nonnegative;

verus! {

/// The placeholder executable's configuration.
pub struct Config {
    pub title: String,
    pub start_minimized: bool,
}

/// Mathematical model of a configuration.
pub struct ConfigModel {
    pub title: Seq<char>,
    pub start_minimized: bool,
}

impl View for Config {
    type V = ConfigModel;

    open spec fn view(&self) -> ConfigModel {
        ConfigModel { title: self.title@, start_minimized: self.start_minimized }
    }
}

/// The configuration used when no arguments override it.
pub open spec fn default_config_model() -> ConfigModel {
    ConfigModel { title: "Discord Quest Completer"@, start_minimized: false }
}

impl Default for Config {
    /// The default window title, not minimized.
    fn default() -> (r: Self)
        ensures
            r@ == default_config_model(),
    {
        Config { title: String::from_str("Discord Quest Completer"), start_minimized: false }
    }
}

/// How the argument scan proceeds from position `i` with the configuration
/// collected so far: `--title` takes the next argument as the title (and is
/// ignored without one), `--tray` starts minimized, anything else is
/// skipped.
pub open spec fn parse_args_model(args: Seq<Seq<char>>, i: int, cur: ConfigModel) -> ConfigModel
    decreases args.len() - i,
{
    if i < 0 || i >= args.len() {
        cur
    } else if args[i] == "--title"@ {
        if i + 1 < args.len() {
            parse_args_model(args, i + 2, ConfigModel { title: args[i + 1], ..cur })
        } else {
            parse_args_model(args, i + 1, cur)
        }
    } else if args[i] == "--tray"@ {
        parse_args_model(args, i + 1, ConfigModel { start_minimized: true, ..cur })
    } else {
        parse_args_model(args, i + 1, cur)
    }
}

/// Scans the argument list (the first element being the program name) into
/// a configuration.
pub fn parse_args(args: &Vec<String>) -> (r: Config)
    ensures
        r@ == parse_args_model(args.deep_view(), 1, default_config_model()),
{
    let ghost av = args.deep_view();
    let mut config = Config::default();
    let mut i: usize = 1;
    while i < args.len()
        invariant
            1 <= i,
            av == args.deep_view(),
            av.len() == args@.len(),
            forall|t: int| 0 <= t < av.len() ==> av[t] == args@[t]@,
            parse_args_model(av, i as int, config@) == parse_args_model(
                av,
                1,
                default_config_model(),
            ),
        decreases args.len() - i,
    {
        proof {
            assert(av[i as int] == args@[i as int]@);
        }
        if str_eq_str(args[i].as_str(), "--title") {
            if i + 1 < args.len() {
                proof {
                    assert(av[i as int + 1] == args@[i as int + 1]@);
                }
                config.title = args[i + 1].clone();
                i = i + 2;
            } else {
                i = i + 1;
            }
        } else if str_eq_str(args[i].as_str(), "--tray") {
            config.start_minimized = true;
            i = i + 1;
        } else {
            i = i + 1;
        }
    }
    config
}

/// The label width for a measured text extent: the measured width plus
/// padding, or a fallback width when measurement failed.
pub fn padded_width(measured: Option<i32>) -> (r: i32)
    requires
        measured matches Some(cx) ==> cx + 20 <= i32::MAX,
    ensures
        match measured {
            Some(cx) => r == cx + 20,
            None => r == 200,
        },
{
    match measured {
        Some(cx) => cx + 20,
        None => 200,
    }
}

/// Paints fixed-size block glyphs into a row-major pixel buffer.
pub struct TextRenderer {
    pub width: usize,
    pub height: usize,
    pub font_size: usize,
}

impl TextRenderer {
    /// A renderer for a buffer of the given dimensions and font size.
    pub fn new(width: usize, height: usize, font_size: usize) -> (r: Self)
        ensures
            r.width == width,
            r.height == height,
            r.font_size == font_size,
    {
        TextRenderer { width, height, font_size }
    }

    /// The buffer index of pixel `(px, py)` of the glyph cell of character
    /// `i` of a text drawn at `(x, y)`.
    pub open spec fn cell_index(self, x: int, y: int, i: int, py: int, px: int) -> int {
        (y + py) * self.width + x + i * (self.font_size * 6) + px
    }

    /// Whether buffer index `j` lies in some glyph cell of the first `n`
    /// characters of a text drawn at `(x, y)`.
    pub open spec fn cell_drawn(self, x: int, y: int, n: int, j: int) -> bool {
        exists|i: int, py: int, px: int|
            0 <= i < n && 0 <= py < self.font_size * 7 && 0 <= px < self.font_size * 5 && j
                == #[trigger] self.cell_index(x, y, i, py, px)
    }

    /// Whether `j` lies in one of the first `py_max` pixel rows of the
    /// glyph cell of character `i`.
    pub open spec fn rows_drawn(self, x: int, y: int, i: int, py_max: int, j: int) -> bool {
        exists|py: int, px: int|
            0 <= py < py_max && 0 <= px < self.font_size * 5 && j == #[trigger] self.cell_index(
                x,
                y,
                i,
                py,
                px,
            )
    }

    /// Whether `j` lies in one of the first `px_max` pixels of row `py` of
    /// the glyph cell of character `i`.
    pub open spec fn row_cells_drawn(self, x: int, y: int, i: int, py: int, px_max: int, j: int)
        -> bool {
        exists|px: int| 0 <= px < px_max && j == #[trigger] self.cell_index(x, y, i, py, px)
    }

    /// The machine limit under which every glyph-cell index of an `n`
    /// character text drawn at `(x, y)` can be computed.
    pub open spec fn draw_bound(self, x: int, y: int, n: int) -> bool {
        &&& (y + self.font_size * 7) * self.width + x + (n + 1) * (self.font_size * 6)
            <= usize::MAX
        &&& y + self.font_size * 7 <= usize::MAX
    }

    /// Paints the glyph cells of `text` white at `(x, y)`, leaving every
    /// other pixel as it was.  Writes that would fall outside the buffer
    /// are skipped.
    pub fn draw(&self, buffer: &mut Vec<u32>, pos: (usize, usize), text: &str)
        requires
            self.draw_bound(pos.0 as int, pos.1 as int, text@.len() as int),
        ensures
            final(buffer)@.len() == old(buffer)@.len(),
            forall|j: int|
                0 <= j < old(buffer)@.len() ==> final(buffer)@[j] == (if self.cell_drawn(
                    pos.0 as int,
                    pos.1 as int,
                    text@.len() as int,
                    j,
                ) {
                    0xFFFFFFFFu32
                } else {
                    old(buffer)@[j]
                }),
    {
        let (x, y) = pos;
        let size = self.font_size;
        let n = text.unicode_len();
        let ghost orig = buffer@;
        let mut i: usize = 0;
        while i < n
            invariant
                i <= n,
                n == text@.len(),
                size == self.font_size,
                x == pos.0,
                y == pos.1,
                self.draw_bound(x as int, y as int, n as int),
                buffer@.len() == orig.len(),
                forall|j: int|
                    0 <= j < orig.len() ==> buffer@[j] == (if self.cell_drawn(
                        x as int,
                        y as int,
                        i as int,
                        j,
                    ) {
                        0xFFFFFFFFu32
                    } else {
                        orig[j]
                    }),
            decreases n - i,
        {
            proof {
                lemma_mul_nonnegative((y + size * 7) as int, self.width as int);
                lemma_mul_inequality(i as int, n as int, (size * 6) as int);
                lemma_mul_inequality(n as int, (n + 1) as int, (size * 6) as int);
            }
            let char_x = x + i * (size * 6);
            let mut py: usize = 0;
            while py < size * 7
                invariant
                    i < n,
                    py <= size * 7,
                    n == text@.len(),
                    size == self.font_size,
                    x == pos.0,
                    y == pos.1,
                    char_x == x + i * (size * 6),
                    self.draw_bound(x as int, y as int, n as int),
                    buffer@.len() == orig.len(),
                    forall|j: int|
                        0 <= j < orig.len() ==> buffer@[j] == (if self.cell_drawn(
                            x as int,
                            y as int,
                            i as int,
                            j,
                        ) || self.rows_drawn(x as int, y as int, i as int, py as int, j) {
                            0xFFFFFFFFu32
                        } else {
                            orig[j]
                        }),
                decreases size * 7 - py,
            {
                let mut px: usize = 0;
                while px < size * 5
                    invariant
                        i < n,
                        py < size * 7,
                        px <= size * 5,
                        n == text@.len(),
                        size == self.font_size,
                        x == pos.0,
                        y == pos.1,
                        char_x == x + i * (size * 6),
                        self.draw_bound(x as int, y as int, n as int),
                        buffer@.len() == orig.len(),
                        forall|j: int|
                            0 <= j < orig.len() ==> buffer@[j] == (if self.cell_drawn(
                                x as int,
                                y as int,
                                i as int,
                                j,
                            ) || self.rows_drawn(x as int, y as int, i as int, py as int, j)
                                || self.row_cells_drawn(
                                x as int,
                                y as int,
                                i as int,
                                py as int,
                                px as int,
                                j,
                            ) {
                                0xFFFFFFFFu32
                            } else {
                                orig[j]
                            }),
                    decreases size * 5 - px,
                {
                    proof {
                        lemma_mul_nonnegative((y + size * 7) as int, self.width as int);
                        lemma_mul_inequality((y + py) as int, (y + size * 7) as int,
                            self.width as int);
                        lemma_mul_inequality(i as int, n as int, (size * 6) as int);
                        lemma_mul_inequality((i + 1) as int, (n + 1) as int, (size * 6) as int);
                        lemma_mul_is_distributive_add_other_way((size * 6) as int, i as int, 1);
                        assert((i + 1) * (size * 6) == i * (size * 6) + size * 6);
                    }
                    let buffer_pos = (y + py) * self.width + (char_x + px);
                    let ghost p = self.cell_index(
                        x as int,
                        y as int,
                        i as int,
                        py as int,
                        px as int,
                    );
                    proof {
                        assert(buffer_pos as int == p);
                    }
                    if buffer_pos < buffer.len() {
                        buffer[buffer_pos] = 0xFFFFFFFFu32;
                    }
                    proof {
                        assert forall|j: int| 0 <= j < orig.len() implies buffer@[j] == (
                        if self.cell_drawn(x as int, y as int, i as int, j) || self.rows_drawn(
                            x as int,
                            y as int,
                            i as int,
                            py as int,
                            j,
                        ) || self.row_cells_drawn(
                            x as int,
                            y as int,
                            i as int,
                            py as int,
                            px as int + 1,
                            j,
                        ) {
                            0xFFFFFFFFu32
                        } else {
                            orig[j]
                        }) by {
                            if j == p {
                                assert(self.row_cells_drawn(
                                    x as int,
                                    y as int,
                                    i as int,
                                    py as int,
                                    px as int + 1,
                                    j,
                                ));
                            } else if self.row_cells_drawn(
                                x as int,
                                y as int,
                                i as int,
                                py as int,
                                px as int + 1,
                                j,
                            ) {
                                let px0 = choose|px0: int|
                                    0 <= px0 < px as int + 1 && j == #[trigger] self.cell_index(
                                        x as int,
                                        y as int,
                                        i as int,
                                        py as int,
                                        px0,
                                    );
                                if px0 == px as int {
                                    assert(j == p);
                                } else {
                                    assert(self.row_cells_drawn(
                                        x as int,
                                        y as int,
                                        i as int,
                                        py as int,
                                        px as int,
                                        j,
                                    ));
                                }
                            }
                        }
                    }
                    px = px + 1;
                }
                proof {
                    assert forall|j: int| #[trigger] self.rows_drawn(
                        x as int,
                        y as int,
                        i as int,
                        py as int + 1,
                        j,
                    ) implies (
                    self.rows_drawn(x as int, y as int, i as int, py as int, j)
                        || self.row_cells_drawn(
                        x as int,
                        y as int,
                        i as int,
                        py as int,
                        (size * 5) as int,
                        j,
                    )) by {
                        let (py0, px0) = choose|py0: int, px0: int|
                            0 <= py0 < py as int + 1 && 0 <= px0 < self.font_size * 5 && j
                                == #[trigger] self.cell_index(
                                x as int,
                                y as int,
                                i as int,
                                py0,
                                px0,
                            );
                        if py0 == py as int {
                            assert(self.row_cells_drawn(
                                x as int,
                                y as int,
                                i as int,
                                py as int,
                                (size * 5) as int,
                                j,
                            ));
                        } else {
                            assert(self.rows_drawn(x as int, y as int, i as int, py as int, j));
                        }
                    }
                    assert forall|j: int| #[trigger] self.row_cells_drawn(
                        x as int,
                        y as int,
                        i as int,
                        py as int,
                        (size * 5) as int,
                        j,
                    ) implies self.rows_drawn(
                        x as int,
                        y as int,
                        i as int,
                        py as int + 1,
                        j,
                    ) by {
                        let px0 = choose|px0: int|
                            0 <= px0 < (size * 5) as int && j == #[trigger] self.cell_index(
                                x as int,
                                y as int,
                                i as int,
                                py as int,
                                px0,
                            );
                        assert((py as int) < (py as int) + 1);
                    }
                }
                py = py + 1;
            }
            proof {
                assert forall|j: int| #[trigger] self.cell_drawn(
                    x as int,
                    y as int,
                    i as int + 1,
                    j,
                ) implies (self.cell_drawn(
                    x as int,
                    y as int,
                    i as int,
                    j,
                ) || self.rows_drawn(x as int, y as int, i as int, (size * 7) as int, j)) by {
                    let (i0, py0, px0) = choose|i0: int, py0: int, px0: int|
                        0 <= i0 < i as int + 1 && 0 <= py0 < self.font_size * 7 && 0 <= px0
                            < self.font_size * 5 && j == #[trigger] self.cell_index(
                            x as int,
                            y as int,
                            i0,
                            py0,
                            px0,
                        );
                    if i0 == i as int {
                        assert(self.rows_drawn(x as int, y as int, i as int, (size * 7) as int, j));
                    } else {
                        assert(self.cell_drawn(x as int, y as int, i as int, j));
                    }
                }
                assert forall|j: int|
                    #![trigger self.cell_drawn(x as int, y as int, i as int + 1, j)]
                    self.rows_drawn(x as int, y as int, i as int, (size * 7) as int, j)
                        || self.cell_drawn(x as int, y as int, i as int, j) implies self.cell_drawn(
                    x as int,
                    y as int,
                    i as int + 1,
                    j,
                ) by {
                    if self.rows_drawn(x as int, y as int, i as int, (size * 7) as int, j) {
                        let (py0, px0) = choose|py0: int, px0: int|
                            0 <= py0 < (size * 7) as int && 0 <= px0 < self.font_size * 5 && j
                                == #[trigger] self.cell_index(
                                x as int,
                                y as int,
                                i as int,
                                py0,
                                px0,
                            );
                        assert((i as int) < (i as int) + 1);
                    } else {
                        let (i0, py0, px0) = choose|i0: int, py0: int, px0: int|
                            0 <= i0 < i as int && 0 <= py0 < self.font_size * 7 && 0 <= px0
                                < self.font_size * 5 && j == #[trigger] self.cell_index(
                                x as int,
                                y as int,
                                i0,
                                py0,
                                px0,
                            );
                        assert(0 <= i0 < i as int + 1);
                    }
                }
            }
            i = i + 1;
        }
    }
}

} // verus!
