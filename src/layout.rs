use vstd::prelude::*;
use crate::edit::EditState;
use crate::session::Focus;

verus! {

pub const NOTE_HEIGHT: u16 = 10;
pub const NOTE_WIDTH: u16 = 20;
pub const INNER_MARGIN: u16 = 5;
pub const BAR_HEIGHT: u16 = 3;
pub const BAR_WIDTH: u16 = 8;

/// A rectangle on the terminal grid. The origin may lie off screen.
#[derive(Clone, Copy, PartialEq, Eq, Structural, Debug)]
pub struct Region {
    pub x: i128,
    pub y: i128,
    pub width: u16,
    pub height: u16,
}

/// The left edge of the first stack: the stacks, each a note wide plus a
/// margin, centred in the terminal width (division rounds down).
pub open spec fn spec_first_x(term_width: int, n_stacks: int) -> int {
    (term_width - n_stacks * (INNER_MARGIN + NOTE_WIDTH)) / 2 - NOTE_WIDTH / 2 + INNER_MARGIN
}

/// The height that a stack of `n` notes claims.
pub open spec fn stack_height(n: int) -> int {
    n * (INNER_MARGIN + NOTE_HEIGHT)
}

/// A stack of `n` notes is drawn only when its height fits the terminal.
pub open spec fn stack_fits(term_height: int, n: int) -> bool {
    stack_height(n) <= term_height
}

/// The top edge of a stack of `n` notes.
pub open spec fn spec_first_y(term_height: int, n: int) -> int {
    (term_height - stack_height(n)) / 2 + (INNER_MARGIN / 2) * n + INNER_MARGIN / 2
}

/// The left edge of stack `i`.
pub open spec fn stack_x(first_x: int, i: int) -> int {
    first_x + i * (NOTE_WIDTH + INNER_MARGIN)
}

/// The top edge of note `j` in a stack whose top edge is `first_y`.
pub open spec fn note_y(first_y: int, j: int) -> int {
    first_y + j * (NOTE_HEIGHT / 2 + INNER_MARGIN)
}

/// `r` is a note's rectangle at `(x, y)`.
pub open spec fn is_note_at(r: Region, x: int, y: int) -> bool {
    &&& r.x == x
    &&& r.y == y
    &&& r.width == NOTE_WIDTH
    &&& r.height == NOTE_HEIGHT
}

/// `col` holds the rectangles of a stack of `n` notes at column `x` whose top
/// edge is `first_y`, top to bottom.
pub open spec fn is_column(col: Seq<Region>, x: int, first_y: int, n: int) -> bool {
    &&& col.len() == n
    &&& forall|j: int| 0 <= j < n ==> is_note_at(#[trigger] col[j], x, note_y(first_y, j))
}

/// `d / 2` rounded down, for either sign of `d`.
fn floor_half(d: i128) -> (r: i128)
    requires
        d > i128::MIN,
    ensures
        r == d / 2,
{
    if d >= 0 {
        ((d as u128) / 2) as i128
    } else {
        let e: u128 = (-d) as u128;
        let q: u128 = (e + 1) / 2;
        proof {
            let di = d as int;
            let qi = q as int;
            assert(2 * qi == e + 1 || 2 * qi == e);
            assert(di == 2 * (-qi) + (2 * qi - e)) by (nonlinear_arith)
                requires e == -di;
            assert(0 <= 2 * qi - e < 2);
            vstd::arithmetic::div_mod::lemma_fundamental_div_mod_converse(
                di,
                2,
                -qi,
                2 * qi - e,
            );
        }
        -(q as i128)
    }
}

/// The left edge of the first of `n_stacks` stacks.
pub fn first_x(term_width: u16, n_stacks: usize) -> (r: i128)
    ensures
        r == spec_first_x(term_width as int, n_stacks as int),
        -13 * (usize::MAX as int) <= r <= u16::MAX,
{
    let step: i128 = (INNER_MARGIN + NOTE_WIDTH) as i128;
    proof {
        assert((n_stacks as int) * step <= 25 * (usize::MAX as int)) by (nonlinear_arith)
            requires
                step == 25,
                n_stacks <= usize::MAX,
        ;
    }
    let span: i128 = (n_stacks as i128) * step;
    floor_half(term_width as i128 - span) - (NOTE_WIDTH / 2) as i128 + INNER_MARGIN as i128
}

/// The left edge of stack `i`, given that of the first stack.
fn stack_left(first_x: i128, i: usize) -> (r: i128)
    requires
        -13 * (usize::MAX as int) <= first_x <= u16::MAX,
    ensures
        r == stack_x(first_x as int, i as int),
{
    let step: i128 = (NOTE_WIDTH + INNER_MARGIN) as i128;
    proof {
        assert((i as int) * step <= 25 * (usize::MAX as int)) by (nonlinear_arith)
            requires
                step == 25,
                i <= usize::MAX,
        ;
    }
    first_x + (i as i128) * step
}

/// The top edge of a stack of `n` notes, or `None` when the stack is too
/// tall for the terminal and is left out.
pub fn first_y(term_height: u16, n: usize) -> (r: Option<i128>)
    ensures
        r is Some <==> stack_fits(term_height as int, n as int),
        r matches Some(y) ==> y == spec_first_y(term_height as int, n as int),
        r matches Some(y) ==> 0 <= y <= term_height + 2,
{
    let step: u128 = (INNER_MARGIN + NOTE_HEIGHT) as u128;
    proof {
        assert((n as int) * step <= 15 * (usize::MAX as int)) by (nonlinear_arith)
            requires
                step == 15,
                n <= usize::MAX,
        ;
    }
    let height: u128 = (n as u128) * step;
    if height > term_height as u128 {
        return None;
    }
    let free: u128 = term_height as u128 - height;
    let half_margin: u128 = (INNER_MARGIN / 2) as u128;
    proof {
        assert((half_margin as int) * n + free / 2 + half_margin <= term_height + 2) by (nonlinear_arith)
            requires
                half_margin == 2,
                height == n * 15,
                free == term_height - height,
                0 <= n,
        ;
    }
    let y: u128 = free / 2 + half_margin * (n as u128) + half_margin;
    Some(y as i128)
}

/// The rectangles of every note, stack by stack. A stack too tall for the
/// terminal gets `None`; the others get one rectangle per note.
pub fn layout(term_width: u16, term_height: u16, sizes: &Vec<usize>) -> (r: Vec<Option<Vec<Region>>>)
    ensures
        r@.len() == sizes@.len(),
        forall|i: int|
            0 <= i < r@.len() ==> match #[trigger] r@[i] {
                None => !stack_fits(term_height as int, sizes@[i] as int),
                Some(col) => stack_fits(term_height as int, sizes@[i] as int) && is_column(
                    col@,
                    stack_x(spec_first_x(term_width as int, sizes@.len() as int), i),
                    spec_first_y(term_height as int, sizes@[i] as int),
                    sizes@[i] as int,
                ),
            },
{
    let fx = first_x(term_width, sizes.len());
    let ghost fxi = spec_first_x(term_width as int, sizes@.len() as int);
    let mut r: Vec<Option<Vec<Region>>> = Vec::new();
    let mut i: usize = 0;
    while i < sizes.len()
        invariant
            i <= sizes@.len(),
            r@.len() == i,
            fx == fxi,
            fxi == spec_first_x(term_width as int, sizes@.len() as int),
            forall|k: int|
                0 <= k < i ==> match #[trigger] r@[k] {
                    None => !stack_fits(term_height as int, sizes@[k] as int),
                    Some(col) => stack_fits(term_height as int, sizes@[k] as int) && is_column(
                        col@,
                        stack_x(fxi, k),
                        spec_first_y(term_height as int, sizes@[k] as int),
                        sizes@[k] as int,
                    ),
                },
        decreases sizes@.len() - i,
    {
        let n = sizes[i];
        match first_y(term_height, n) {
            None => r.push(None),
            Some(fy) => {
                let x: i128 = stack_left(fx, i);
                let mut col: Vec<Region> = Vec::new();
                let mut j: usize = 0;
                while j < n
                    invariant
                        j <= n,
                        i < sizes@.len(),
                        n == sizes@[i as int],
                        stack_fits(term_height as int, n as int),
                        fy == spec_first_y(term_height as int, n as int),
                        0 <= fy <= u16::MAX + 2,
                        col@.len() == j,
                        forall|k: int|
                            0 <= k < j ==> is_note_at(#[trigger] col@[k], x as int, note_y(fy as int, k)),
                    decreases n - j,
                {
                    let down: i128 = (NOTE_HEIGHT / 2 + INNER_MARGIN) as i128;
                    proof {
                        assert((j as int) * down <= 10 * (usize::MAX as int)) by (nonlinear_arith)
                            requires
                                down == 10,
                                j <= usize::MAX,
                        ;
                    }
                    let y: i128 = fy + (j as i128) * down;
                    col.push(Region { x, y, width: NOTE_WIDTH, height: NOTE_HEIGHT });
                    j = j + 1;
                }
                r.push(Some(col));
            },
        }
        i = i + 1;
    }
    r
}

/// The status bar: centred near the top, wide enough for a state label.
pub fn status_bar(term_width: u16) -> (r: Region)
    ensures
        r.x == term_width / 2 - BAR_WIDTH / 2,
        r.y == 1,
        r.width == BAR_WIDTH,
        r.height == BAR_HEIGHT,
{
    Region {
        x: (term_width / 2) as i128 - (BAR_WIDTH / 2) as i128,
        y: 1,
        width: BAR_WIDTH,
        height: BAR_HEIGHT,
    }
}

/// Where the text cursor stands while editing: one cell inside the top-left
/// corner of the focused note. `None` when browsing, or when the focused
/// note is not drawn or does not exist.
pub fn edit_cursor(
    term_width: u16,
    term_height: u16,
    sizes: &Vec<usize>,
    state: EditState,
    focus: Focus,
) -> (r: Option<(i128, i128)>)
    ensures
        r is Some <==> (state is Editing && focus.stack_index < sizes@.len() && focus.note_index
            < sizes@[focus.stack_index as int] && stack_fits(
            term_height as int,
            sizes@[focus.stack_index as int] as int,
        )),
        r matches Some(p) ==> p.0 == stack_x(
            spec_first_x(term_width as int, sizes@.len() as int),
            focus.stack_index as int,
        ) + 1 && p.1 == note_y(
            spec_first_y(term_height as int, sizes@[focus.stack_index as int] as int),
            focus.note_index as int,
        ) + 1,
{
    if state == EditState::Browsing {
        return None;
    }
    let si = focus.stack_index;
    let ni = focus.note_index;
    if si >= sizes.len() || ni >= sizes[si] {
        return None;
    }
    match first_y(term_height, sizes[si]) {
        None => None,
        Some(fy) => {
            let fx = first_x(term_width, sizes.len());
            let x: i128 = stack_left(fx, si) + 1;
            let down: i128 = (NOTE_HEIGHT / 2 + INNER_MARGIN) as i128;
            proof {
                assert((ni as int) * down <= 10 * (usize::MAX as int)) by (nonlinear_arith)
                    requires
                        down == 10,
                        ni <= usize::MAX,
                ;
            }
            let y: i128 = fy + (ni as i128) * down + 1;
            Some((x, y))
        },
    }
}

} // verus!
