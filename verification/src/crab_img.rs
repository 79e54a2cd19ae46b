//! The crab that the display shows: a picture of 25 by 16 pixels.

use vstd::prelude::*;
use crate::framebuffer::drawn;
use crate::framebuffer::filled;
use crate::framebuffer::is_lit;
use crate::framebuffer::lemma_drawn;
use crate::framebuffer::lemma_filled;
use crate::framebuffer::lemma_last_drawn;
use crate::framebuffer::on_display;
use crate::framebuffer::Color;
use crate::framebuffer::Pixel;
use crate::framebuffer::Point;

verus! {

/// Whether the picture has a lit pixel at the position.
///
/// ```text
///     # # # # # # # #
///     #   # # # #   #
/// # # # # # # # # # # # #
/// # # # # # # # # # # # #
///     # # # # # # # #
///     # # # # # # # #
///     #   #     #   #
///     #   #     #   #
/// ```
///
/// Each mark stands for two by two pixels. The two wide rows reach one
/// pixel further to the right than the grid.
pub open spec fn crab_shape(x: int, y: int) -> bool {
    if 0 <= y < 2 || 8 <= y < 12 {
        4 <= x < 20
    } else if 2 <= y < 4 {
        4 <= x < 6 || 8 <= x < 16 || 18 <= x < 20
    } else if 4 <= y < 8 {
        0 <= x <= 24
    } else if 12 <= y < 16 {
        4 <= x < 6 || 8 <= x < 10 || 14 <= x < 16 || 18 <= x < 20
    } else {
        false
    }
}

/// Whether `pixels` holds a lit pixel at the position.
pub open spec fn holds_lit(pixels: Seq<Pixel>, x: int, y: int) -> bool {
    exists|k: int|
        0 <= k < pixels.len() && (#[trigger] pixels[k]).0.x == x && pixels[k].0.y == y
            && pixels[k].1 == Color::On
}

/// Every pixel of `pixels` is lit and lies in the picture.
pub open spec fn all_in_shape(pixels: Seq<Pixel>) -> bool {
    forall|k: int|
        0 <= k < pixels.len() ==> (#[trigger] pixels[k]).1 == Color::On && crab_shape(
            pixels[k].0.x as int,
            pixels[k].0.y as int,
        )
}

/// Drawn on a dark buffer, pixels that cover the picture and lie in it
/// light the picture and nothing else.
pub proof fn lemma_crab_on_dark_buffer(pixels: Seq<Pixel>, x: int, y: int)
    requires
        all_in_shape(pixels),
        forall|a: int, b: int| crab_shape(a, b) ==> #[trigger] holds_lit(pixels, a, b),
        on_display(x, y),
    ensures
        is_lit(drawn(filled(Color::Off), pixels), x, y) == crab_shape(x, y),
{
    lemma_drawn(filled(Color::Off), pixels, x, y);
    lemma_filled(Color::Off, x, y);
    lemma_last_drawn(pixels, x, y);
    if crab_shape(x, y) {
        assert(holds_lit(pixels, x, y));
    }
}

/// The lit pixel at the position.
pub open spec fn lit(x: int, y: int) -> Pixel {
    Pixel(Point { x: x as i32, y: y as i32 }, Color::On)
}

/// The pixels of one stamp: those of `pattern`, moved `x` to the right.
pub open spec fn stamp(x: int, pattern: Seq<(int, int)>) -> Seq<Pixel> {
    Seq::new(pattern.len(), |j: int| lit(x + pattern[j].0, pattern[j].1))
}

/// The stamps of `pattern` at each of `columns`, one after the other.
pub open spec fn stamps(columns: Seq<int>, pattern: Seq<(int, int)>) -> Seq<Pixel>
    decreases columns.len(),
{
    if columns.len() == 0 {
        Seq::empty()
    } else {
        stamps(columns.drop_last(), pattern) + stamp(columns.last(), pattern)
    }
}

/// The shell: at a column, two by two pixels at the top and two by four
/// further down.
pub open spec fn shell_pattern() -> Seq<(int, int)> {
    seq![
        (0int, 0int),
        (0int, 1int),
        (1int, 0int),
        (1int, 1int),
        (0int, 8int),
        (1int, 8int),
        (0int, 9int),
        (1int, 9int),
        (0int, 10int),
        (1int, 10int),
        (0int, 11int),
        (1int, 11int),
    ]
}

/// The shell stands at every second column from 4 to 18.
pub open spec fn shell_columns() -> Seq<int> {
    Seq::new(8, |n: int| 4 + 2 * n)
}

/// The row of the eyes: two by two pixels at a column.
pub open spec fn eye_pattern() -> Seq<(int, int)> {
    seq![(0int, 2int), (0int, 3int), (1int, 2int), (1int, 3int)]
}

/// The row of the eyes leaves the columns 6 and 16 out: there the eyes are.
pub open spec fn eye_columns() -> Seq<int> {
    seq![4int, 8int, 10int, 12int, 14int, 18int]
}

/// The claws: two by four pixels at a column.
pub open spec fn claw_pattern() -> Seq<(int, int)> {
    seq![
        (0int, 4int),
        (1int, 4int),
        (0int, 5int),
        (1int, 5int),
        (0int, 6int),
        (1int, 6int),
        (0int, 7int),
        (1int, 7int),
    ]
}

/// The claws stand at every column from 0 to 23, each stamp over half of
/// the one before.
pub open spec fn claw_columns() -> Seq<int> {
    Seq::new(24, |n: int| n)
}

/// A leg: two by four pixels at a column.
pub open spec fn leg_pattern() -> Seq<(int, int)> {
    seq![
        (0int, 12int),
        (1int, 12int),
        (0int, 13int),
        (1int, 13int),
        (0int, 14int),
        (1int, 14int),
        (0int, 15int),
        (1int, 15int),
    ]
}

/// The four legs.
pub open spec fn leg_columns() -> Seq<int> {
    seq![4int, 8int, 14int, 18int]
}

/// The pixels of the picture in the order in which they are drawn: the
/// shell, the row of the eyes, the claws, the legs.
pub open spec fn crab_sequence() -> Seq<Pixel> {
    stamps(shell_columns(), shell_pattern()) + stamps(eye_columns(), eye_pattern()) + stamps(
        claw_columns(),
        claw_pattern(),
    ) + stamps(leg_columns(), leg_pattern())
}

/// One more column adds one more stamp.
proof fn lemma_stamps_step(columns: Seq<int>, n: int, pattern: Seq<(int, int)>)
    requires
        0 <= n < columns.len(),
    ensures
        stamps(columns.take(n + 1), pattern) == stamps(columns.take(n), pattern) + stamp(
            columns[n],
            pattern,
        ),
{
    let upto = columns.take(n + 1);
    assert(upto.drop_last() =~= columns.take(n));
    assert(upto.last() == columns[n]);
}

/// Adds a lit pixel behind those that are there.
fn push_on(data: &mut Vec<Pixel>, x: i32, y: i32)
    requires
        all_in_shape(old(data)@),
        crab_shape(x as int, y as int),
    ensures
        final(data)@ == old(data)@.push(lit(x as int, y as int)),
        all_in_shape(final(data)@),
        holds_lit(final(data)@, x as int, y as int),
        forall|a: int, b: int|
            holds_lit(old(data)@, a, b) ==> #[trigger] holds_lit(final(data)@, a, b),
{
    data.push(Pixel(Point { x, y }, Color::On));
    proof {
        let n = old(data)@.len() as int;
        assert(data@[n].0.x == x && data@[n].0.y == y && data@[n].1 == Color::On);
        assert forall|a: int, b: int| holds_lit(old(data)@, a, b) implies #[trigger] holds_lit(
            data@,
            a,
            b,
        ) by {
            let k = choose|k: int|
                0 <= k < old(data)@.len() && (#[trigger] old(data)@[k]).0.x == a && old(
                    data,
                )@[k].0.y == b && old(data)@[k].1 == Color::On;
            assert(data@[k] == old(data)@[k]);
        }
    }
}

/// The lit pixels of the picture, in the order in which they are drawn.
pub fn crab_pixels() -> (data: Vec<Pixel>)
    ensures
        data@ == crab_sequence(),
        data@.len() == 344,
        all_in_shape(data@),
        forall|x: int, y: int| crab_shape(x, y) ==> #[trigger] holds_lit(data@, x, y),
{
    let mut data: Vec<Pixel> = Vec::with_capacity(24 * 16);
    assert(data@ =~= stamps(shell_columns().take(0), shell_pattern()));
    let mut i: i32 = 0;
    while i < 12
        invariant
            0 <= i <= 12,
            all_in_shape(data@),
            data@ == stamps(
                shell_columns().take(
                    if i < 2 {
                        0int
                    } else if i < 10 {
                        i - 2
                    } else {
                        8int
                    },
                ),
                shell_pattern(),
            ),
            data@.len() == 12 * (if i < 2 {
                0
            } else if i < 10 {
                i - 2
            } else {
                8
            }),
            forall|x: int, y: int|
                (0 <= y < 2 || 8 <= y < 12) && 4 <= x < 20 && x < 2 * i ==> holds_lit(data@, x, y),
        decreases 12 - i,
    {
        if i == 0 || i == 1 || i == 10 || i == 11 {
            i += 1;
            continue ;
        }
        let ghost before = data@;
        push_on(&mut data, i * 2, 0);
        push_on(&mut data, i * 2, 1);
        push_on(&mut data, i * 2 + 1, 0);
        push_on(&mut data, i * 2 + 1, 1);

        push_on(&mut data, i * 2, 8);
        push_on(&mut data, i * 2 + 1, 8);
        push_on(&mut data, i * 2, 9);
        push_on(&mut data, i * 2 + 1, 9);

        push_on(&mut data, i * 2, 10);
        push_on(&mut data, i * 2 + 1, 10);
        push_on(&mut data, i * 2, 11);
        push_on(&mut data, i * 2 + 1, 11);
        proof {
            lemma_stamps_step(shell_columns(), i - 2, shell_pattern());
            assert(data@ =~= before + stamp(2 * i, shell_pattern()));
        }
        i += 1;
    }
    assert(shell_columns().take(8) =~= shell_columns());
    let ghost shell = data@;
    assert(data@ =~= shell + stamps(eye_columns().take(0), eye_pattern()));
    let mut i: i32 = 0;
    while i < 12
        invariant
            0 <= i <= 12,
            all_in_shape(data@),
            shell.len() == 96,
            data@ == shell + stamps(
                eye_columns().take(
                    if i < 3 {
                        0int
                    } else if i < 5 {
                        1int
                    } else if i < 9 {
                        i - 3
                    } else if i < 10 {
                        5int
                    } else {
                        6int
                    },
                ),
                eye_pattern(),
            ),
            data@.len() == 96 + 4 * (if i < 3 {
                0int
            } else if i < 5 {
                1int
            } else if i < 9 {
                i - 3
            } else if i < 10 {
                5int
            } else {
                6int
            }),
            forall|x: int, y: int|
                (0 <= y < 2 || 8 <= y < 12) && 4 <= x < 20 ==> holds_lit(data@, x, y),
            forall|x: int, y: int|
                2 <= y < 4 && crab_shape(x, y) && x < 2 * i ==> holds_lit(data@, x, y),
        decreases 12 - i,
    {
        if i == 0 || i == 1 || i == 10 || i == 11 {
            i += 1;
            continue ;
        }
        if i == 3 || i == 8 {
            i += 1;
            continue ;
        }
        let ghost before = data@;
        let ghost n: int = if i == 2 {
            0
        } else if i == 9 {
            5
        } else {
            i - 3
        };
        push_on(&mut data, i * 2, 2);
        push_on(&mut data, i * 2, 3);
        push_on(&mut data, i * 2 + 1, 2);
        push_on(&mut data, i * 2 + 1, 3);
        proof {
            assert(eye_columns()[n] == 2 * i) by {
                assert(eye_columns()[0] == 4);
                assert(eye_columns()[1] == 8);
                assert(eye_columns()[2] == 10);
                assert(eye_columns()[3] == 12);
                assert(eye_columns()[4] == 14);
                assert(eye_columns()[5] == 18);
            }
            lemma_stamps_step(eye_columns(), n, eye_pattern());
            assert(data@ =~= before + stamp(2 * i, eye_pattern()));
            assert(data@ =~= shell + stamps(eye_columns().take(n + 1), eye_pattern()));
        }
        i += 1;
    }
    assert(eye_columns().take(6) =~= eye_columns());
    let ghost eyes = data@;
    assert(data@ =~= eyes + stamps(claw_columns().take(0), claw_pattern()));
    let mut i: i32 = 0;
    while i < 24
        invariant
            0 <= i <= 24,
            all_in_shape(data@),
            eyes.len() == 120,
            data@ == eyes + stamps(claw_columns().take(i as int), claw_pattern()),
            data@.len() == 120 + 8 * i,
            forall|x: int, y: int|
                (0 <= y < 4 || 8 <= y < 12) && crab_shape(x, y) ==> holds_lit(data@, x, y),
            forall|x: int, y: int|
                4 <= y < 8 && 0 <= x <= 24 && (x <= i && i > 0) ==> holds_lit(data@, x, y),
        decreases 24 - i,
    {
        let ghost before = data@;
        push_on(&mut data, i, 4);
        push_on(&mut data, i + 1, 4);
        push_on(&mut data, i, 5);
        push_on(&mut data, i + 1, 5);

        push_on(&mut data, i, 6);
        push_on(&mut data, i + 1, 6);
        push_on(&mut data, i, 7);
        push_on(&mut data, i + 1, 7);
        proof {
            lemma_stamps_step(claw_columns(), i as int, claw_pattern());
            assert(data@ =~= before + stamp(i as int, claw_pattern()));
            assert(data@ =~= eyes + stamps(claw_columns().take(i + 1), claw_pattern()));
        }
        i += 1;
    }
    assert(claw_columns().take(24) =~= claw_columns());
    let ghost claws = data@;
    assert(data@ =~= claws + stamps(leg_columns().take(0), leg_pattern()));
    let columns: [i32; 4] = [2, 4, 7, 9];
    let mut n: usize = 0;
    while n < 4
        invariant
            0 <= n <= 4,
            columns[0] == 2,
            columns[1] == 4,
            columns[2] == 7,
            columns[3] == 9,
            all_in_shape(data@),
            claws.len() == 312,
            data@ == claws + stamps(leg_columns().take(n as int), leg_pattern()),
            data@.len() == 312 + 8 * n,
            forall|x: int, y: int| 0 <= y < 12 && crab_shape(x, y) ==> holds_lit(data@, x, y),
            forall|x: int, y: int|
                12 <= y < 16 && ((n >= 1 && 4 <= x < 6) || (n >= 2 && 8 <= x < 10) || (n >= 3 && 14
                    <= x < 16) || (n >= 4 && 18 <= x < 20)) ==> holds_lit(data@, x, y),
        decreases 4 - n,
    {
        let i: i32 = columns[n];
        let ghost before = data@;
        push_on(&mut data, i * 2, 12);
        push_on(&mut data, i * 2 + 1, 12);
        push_on(&mut data, i * 2, 13);
        push_on(&mut data, i * 2 + 1, 13);

        push_on(&mut data, i * 2, 14);
        push_on(&mut data, i * 2 + 1, 14);
        push_on(&mut data, i * 2, 15);
        push_on(&mut data, i * 2 + 1, 15);
        proof {
            assert(leg_columns()[n as int] == 2 * i) by {
                assert(leg_columns()[0] == 4);
                assert(leg_columns()[1] == 8);
                assert(leg_columns()[2] == 14);
                assert(leg_columns()[3] == 18);
            }
            lemma_stamps_step(leg_columns(), n as int, leg_pattern());
            assert(data@ =~= before + stamp(2 * i, leg_pattern()));
            assert(data@ =~= claws + stamps(leg_columns().take(n + 1), leg_pattern()));
        }
        n += 1;
    }
    assert(leg_columns().take(4) =~= leg_columns());
    data
}

} // verus!
