//! Rectangle arithmetic for popups, and tab expansion for rendered text.

use ratatui::layout::{Constraint, Direction, Layout};
use ratatui::widgets::{Block, Padding};
use vstd::prelude::*;

verus! {

/// A rectangle of terminal cells: its top-left corner and its size.
#[derive(Clone, Copy, Debug, PartialEq, Eq)]
pub struct Rect {
    pub x: u16,
    pub y: u16,
    pub width: u16,
    pub height: u16,
}

/// Where a rectangle of `size` cells starts when centered in a span that starts
/// at `start` and has `span` cells (as `saturating_sub` and integer halving give it).
pub open spec fn centered_start(start: u16, span: u16, size: u16) -> int {
    start + (if span >= size {
        span - size
    } else {
        0
    }) / 2
}

/// A rect of `width` by `height` cells (shrunk to `area`'s size where that is
/// smaller) centered in `area`.
pub open spec fn centered_fixed(area: Rect, width: u16, height: u16) -> Rect {
    Rect {
        x: centered_start(area.x, area.width, width) as u16,
        y: centered_start(area.y, area.height, height) as u16,
        width: if width < area.width {
            width
        } else {
            area.width
        },
        height: if height < area.height {
            height
        } else {
            area.height
        },
    }
}

/// Center a rect of fixed width and height within an outside rect.
///
/// The result is `width` by `height` cells, shrunk to the outside rect's size
/// where that is smaller, and placed so that the margins on either side differ
/// by at most one cell.
pub fn centered_rect_fixed(area: Rect, width: u16, height: u16) -> (r: Rect)
    requires
        centered_start(area.x, area.width, width) <= u16::MAX,
        centered_start(area.y, area.height, height) <= u16::MAX,
    ensures
        r == centered_fixed(area, width, height),
        r.x == centered_start(area.x, area.width, width),
        r.y == centered_start(area.y, area.height, height),
        r.width == if width < area.width {
            width
        } else {
            area.width
        },
        r.height == if height < area.height {
            height
        } else {
            area.height
        },
{
    let x = area.x + (area.width.saturating_sub(width)) / 2;
    let y = area.y + (area.height.saturating_sub(height)) / 2;

    Rect { x, y, width: width.min(area.width), height: height.min(area.height) }
}

/// A centered rect lies within the outside rect.
pub proof fn lemma_centered_rect_fixed_inside(area: Rect, width: u16, height: u16, r: Rect)
    requires
        r.x == centered_start(area.x, area.width, width),
        r.y == centered_start(area.y, area.height, height),
        r.width == (if width < area.width {
            width
        } else {
            area.width
        }),
        r.height == (if height < area.height {
            height
        } else {
            area.height
        }),
    ensures
        area.x <= r.x,
        r.x + r.width <= area.x + area.width,
        area.y <= r.y,
        r.y + r.height <= area.y + area.height,
{
}

// ---------------------------------------------------------------------------
// Layouts

/// A constraint on the size of one area of a layout.
#[derive(Clone, Copy, Debug, PartialEq, Eq)]
pub enum LayoutConstraint {
    /// This percentage of the space.
    Percentage(u16),
    /// Exactly this many cells.
    Length(u16),
    /// A share, of this weight, of the space left over.
    Fill(u16),
}

/// The direction in which a layout splits its area.
#[derive(Clone, Copy, Debug, PartialEq, Eq)]
pub enum LayoutDirection {
    Horizontal,
    Vertical,
}

/// Whether `inner` lies within `outer`.
pub open spec fn within(inner: Rect, outer: Rect) -> bool {
    &&& outer.x <= inner.x
    &&& inner.x + inner.width <= outer.x + outer.width
    &&& outer.y <= inner.y
    &&& inner.y + inner.height <= outer.y + outer.height
}

/// Whether `part` is an area that a split of `area` in `direction` can give: it
/// lies within `area` and spans all of it across the direction of the split.
pub open spec fn split_part(part: Rect, area: Rect, direction: LayoutDirection) -> bool {
    &&& within(part, area)
    &&& match direction {
        LayoutDirection::Horizontal => part.y == area.y && part.height == area.height,
        LayoutDirection::Vertical => part.x == area.x && part.width == area.width,
    }
}

/// Where the cells of `area` start in `direction`.
pub open spec fn axis_start(area: Rect, direction: LayoutDirection) -> int {
    match direction {
        LayoutDirection::Horizontal => area.x as int,
        LayoutDirection::Vertical => area.y as int,
    }
}

/// How many cells `area` has in `direction`, its end taken as `Rect::right` and
/// `Rect::bottom` take it (clamped to the last coordinate).
pub open spec fn axis_len(area: Rect, direction: LayoutDirection) -> int {
    let (start, size) = match direction {
        LayoutDirection::Horizontal => (area.x as int, area.width as int),
        LayoutDirection::Vertical => (area.y as int, area.height as int),
    };
    if start + size > u16::MAX {
        u16::MAX - start
    } else {
        size
    }
}

/// The part of `area` that runs `len` cells in `direction` from cell `begin`,
/// spanning `area` across it.
pub open spec fn part(area: Rect, direction: LayoutDirection, begin: int, len: int) -> Rect {
    match direction {
        LayoutDirection::Horizontal => Rect {
            x: begin as u16,
            y: area.y,
            width: len as u16,
            height: area.height,
        },
        LayoutDirection::Vertical => Rect {
            x: area.x,
            y: begin as u16,
            width: area.width,
            height: len as u16,
        },
    }
}

/// A position in hundredths of a cell, rounded to the nearest cell (halves up).
pub open spec fn round_cells(hundredths: int) -> int {
    (hundredths + 50) / 100
}

/// The sum of the first `k` percentages of `cs` (other constraints count 0).
pub open spec fn percent_sum(cs: Seq<LayoutConstraint>, k: int) -> int
    decreases k,
{
    if k <= 0 {
        0
    } else {
        percent_sum(cs, k - 1) + match cs[k - 1] {
            LayoutConstraint::Percentage(p) => p as int,
            _ => 0,
        }
    }
}

/// Whether every constraint of `cs` is a percentage, and they add up to at most 100.
pub open spec fn percentages_fit(cs: Seq<LayoutConstraint>) -> bool {
    &&& forall|i: int| 0 <= i < cs.len() ==> #[trigger] cs[i] is Percentage
    &&& percent_sum(cs, cs.len() as int) <= 100
}

/// Part `i` of a split into percentages: it runs from the rounded sum of the
/// percentages before it to the rounded sum up to and including its own.
pub open spec fn percent_part(area: Rect, direction: LayoutDirection, cs: Seq<LayoutConstraint>, i: int) -> Rect {
    let n = axis_len(area, direction);
    let begin = round_cells(n * percent_sum(cs, i));
    let end = round_cells(n * percent_sum(cs, i + 1));
    part(area, direction, axis_start(area, direction) + begin, end - begin)
}

/// The length of a `Length` constraint; 0 for the others.
pub open spec fn length_of(c: LayoutConstraint) -> int {
    match c {
        LayoutConstraint::Length(l) => l as int,
        _ => 0,
    }
}

/// The sum of the lengths of the first `k` constraints of `cs`.
pub open spec fn length_sum(cs: Seq<LayoutConstraint>, k: int) -> int
    decreases k,
{
    if k <= 0 {
        0
    } else {
        length_sum(cs, k - 1) + length_of(cs[k - 1])
    }
}

/// The number of `Fill` constraints among the first `k` of `cs`.
pub open spec fn fill_count(cs: Seq<LayoutConstraint>, k: int) -> int
    decreases k,
{
    if k <= 0 {
        0
    } else {
        fill_count(cs, k - 1) + if cs[k - 1] is Fill {
            1int
        } else {
            0
        }
    }
}

/// Whether `cs` is made of lengths and at most one `Fill`, and its lengths fit
/// in `n` cells.
pub open spec fn lengths_fit(cs: Seq<LayoutConstraint>, n: int) -> bool {
    &&& forall|i: int| 0 <= i < cs.len() ==> #[trigger] cs[i] is Length || cs[i] is Fill
    &&& fill_count(cs, cs.len() as int) <= 1
    &&& length_sum(cs, cs.len() as int) <= n
}

/// Part `i` of a split into lengths and at most one `Fill`: each length gets its
/// cells, the `Fill` gets the cells left over, one after the other from the start.
pub open spec fn length_part(area: Rect, direction: LayoutDirection, cs: Seq<LayoutConstraint>, i: int) -> Rect {
    let n = axis_len(area, direction);
    let free = n - length_sum(cs, cs.len() as int);
    let begin = length_sum(cs, i) + fill_count(cs, i) * free;
    let len = if cs[i] is Fill {
        free
    } else {
        length_of(cs[i])
    };
    part(area, direction, axis_start(area, direction) + begin, len)
}

/// Two equal `Fill`s around a `Length` of `lines` cells.
pub open spec fn centered_lines(lines: u16) -> Seq<LayoutConstraint> {
    seq![
        LayoutConstraint::Fill(1),
        LayoutConstraint::Length(lines),
        LayoutConstraint::Fill(1),
    ]
}

/// The middle part of a split into `centered_lines(lines)`: `lines` cells (all
/// of them when there are fewer), with the cells left over shared by the two
/// `Fill`s, the one before it getting the odd cell.
pub open spec fn lines_part(area: Rect, direction: LayoutDirection, lines: u16) -> Rect {
    let n = axis_len(area, direction);
    if lines <= n {
        part(area, direction, axis_start(area, direction) + (n - lines + 1) / 2, lines as int)
    } else {
        part(area, direction, axis_start(area, direction), n)
    }
}

/// Splits `area` with ratatui's `Layout` (no margin, no spacing, the default
/// `Flex::Start`).
///
/// Claims of `Layout::split` what its source fixes of every solution: one area
/// per constraint, each between the area's start and end in the direction of the
/// split (the solver's required bounds, rounded to whole cells) and spanning the
/// area across it. For the shapes below the solver's weighted objective has a
/// single optimum, which is claimed:
/// - percentages adding up to at most 100: each part gets its share exactly
///   (percentage targets outweigh the last spacer that takes what is left), and
///   the bounds are rounded in hundredths of a cell, halves up;
/// - lengths and at most one `Fill`, the lengths fitting: each length exactly
///   (length targets outweigh everything else), the `Fill` taking what is left
///   (its growth outweighs the last spacer's);
/// - `Fill(1)`, `Length(l)`, `Fill(1)`: the length exactly when it fits, else all
///   the cells; the two fills share the rest equally (their equality outweighs
///   the last spacer), the middle's bounds rounded halves up.
/// For other shapes where each part lands is the solver's choice and is left
/// unsaid: its pivots follow the order of hash maps seeded per process.
#[verifier::external_body]
pub(crate) fn split_area(area: Rect, direction: LayoutDirection, constraints: &Vec<LayoutConstraint>) -> (r:
    Vec<Rect>)
    ensures
        r@.len() == constraints@.len(),
        forall|i: int| 0 <= i < r@.len() ==> split_part(#[trigger] r@[i], area, direction),
        percentages_fit(constraints@) ==> forall|i: int|
            0 <= i < r@.len() ==> #[trigger] r@[i] == percent_part(area, direction, constraints@, i),
        lengths_fit(constraints@, axis_len(area, direction)) ==> forall|i: int|
            0 <= i < r@.len() ==> #[trigger] r@[i] == length_part(area, direction, constraints@, i),
        forall|l: u16|
            constraints@ == #[trigger] centered_lines(l) ==> r@[1] == lines_part(area, direction, l),
{
    let direction = match direction {
        LayoutDirection::Horizontal => Direction::Horizontal,
        LayoutDirection::Vertical => Direction::Vertical,
    };
    let constraints: Vec<Constraint> = constraints.iter().map(|c| match *c {
        LayoutConstraint::Percentage(p) => Constraint::Percentage(p),
        LayoutConstraint::Length(n) => Constraint::Length(n),
        LayoutConstraint::Fill(n) => Constraint::Fill(n),
    }).collect();
    let area = ratatui::layout::Rect { x: area.x, y: area.y, width: area.width, height: area.height };
    let areas = Layout::default().direction(direction).constraints(constraints).split(area);
    areas.iter().map(|r| Rect { x: r.x, y: r.y, width: r.width, height: r.height }).collect()
}

/// `a + b`, saturating at `u16::MAX`.
pub open spec fn sat_add(a: int, b: int) -> int {
    if a + b > u16::MAX {
        u16::MAX as int
    } else {
        a + b
    }
}

/// `a - b`, saturating at 0.
pub open spec fn sat_sub(a: int, b: int) -> int {
    if a < b {
        0
    } else {
        a - b
    }
}

/// The area inside a bordered block with `padding` columns of padding on the
/// left and on the right, as `Block::inner` computes it: one cell off each side
/// for the border (the left and top edges not moving past the right and bottom
/// ones), then the padding.
pub open spec fn bordered_inner(area: Rect, padding: u16) -> Rect {
    let right = sat_add(area.x as int, area.width as int);
    let bottom = sat_add(area.y as int, area.height as int);
    let x1 = if sat_add(area.x as int, 1) < right {
        sat_add(area.x as int, 1)
    } else {
        right
    };
    let y1 = if sat_add(area.y as int, 1) < bottom {
        sat_add(area.y as int, 1)
    } else {
        bottom
    };
    Rect {
        x: sat_add(x1, padding as int) as u16,
        y: y1 as u16,
        width: sat_sub(sat_sub(area.width as int, 2), 2 * padding) as u16,
        height: sat_sub(area.height as int, 2) as u16,
    }
}

/// The inside of ratatui's `Block::bordered()` with `padding` columns of
/// horizontal padding, by `Block::inner`.
///
/// Claims of `Block::inner` what its source computes for a block with all four
/// borders, its title on the top border, and horizontal padding only.
#[verifier::external_body]
pub(crate) fn block_inner(area: Rect, padding: u16) -> (r: Rect)
    requires
        padding <= 1000,
    ensures
        r == bordered_inner(area, padding),
{
    let block = Block::bordered().padding(Padding::horizontal(padding));
    let area = ratatui::layout::Rect { x: area.x, y: area.y, width: area.width, height: area.height };
    let inner = block.inner(area);
    Rect { x: inner.x, y: inner.y, width: inner.width, height: inner.height }
}

/// Three areas: `(100 - percent) / 2` percent, `percent` percent, and
/// `(100 - percent) / 2` percent again.
pub open spec fn centered_percentages(percent: u16) -> Seq<LayoutConstraint> {
    let side = ((100 - percent) / 2) as u16;
    seq![
        LayoutConstraint::Percentage(side),
        LayoutConstraint::Percentage(percent),
        LayoutConstraint::Percentage(side),
    ]
}

/// The percentages of `centered_percentages` fit.
proof fn lemma_centered_percentages_fit(percent: u16)
    requires
        percent <= 100,
    ensures
        percentages_fit(centered_percentages(percent)),
        percent_sum(centered_percentages(percent), 1) == (100 - percent) / 2,
        percent_sum(centered_percentages(percent), 2) == (100 - percent) / 2 + percent,
{
    let cs = centered_percentages(percent);
    assert(percent_sum(cs, 0) == 0);
    assert(percent_sum(cs, 1) == (100 - percent) / 2);
    assert(percent_sum(cs, 2) == (100 - percent) / 2 + percent);
    assert(percent_sum(cs, 3) == 2 * ((100 - percent) / 2) + percent);
}

/// The three constraints that center `percent` percent of the space.
fn centered_percent_constraints(percent: u16) -> (c: Vec<LayoutConstraint>)
    requires
        percent <= 100,
    ensures
        c@ == centered_percentages(percent),
        percentages_fit(c@),
{
    proof {
        lemma_centered_percentages_fit(percent);
    }
    let side = (100 - percent) / 2;
    vec![
        LayoutConstraint::Percentage(side),
        LayoutConstraint::Percentage(percent),
        LayoutConstraint::Percentage(side),
    ]
}

/// The middle of a split of `area` into `centered_percentages(percent)`.
pub open spec fn percent_middle(area: Rect, direction: LayoutDirection, percent: u16) -> Rect {
    percent_part(area, direction, centered_percentages(percent), 1)
}

/// The rect that `centered_rect` gives.
pub open spec fn centered_percent_rect(r: Rect, percent_x: u16, percent_y: u16) -> Rect {
    percent_middle(
        percent_middle(r, LayoutDirection::Vertical, percent_y),
        LayoutDirection::Horizontal,
        percent_x,
    )
}

/// The rect that `centered_rect_line_height` gives.
pub open spec fn centered_lines_rect(r: Rect, percent_x: u16, lines_y: u16) -> Rect {
    percent_middle(lines_part(r, LayoutDirection::Vertical, lines_y), LayoutDirection::Horizontal, percent_x)
}

/// A rect of `percent_x` percent of the width and `percent_y` percent of the
/// height of `r`, centered in it (by ratatui's layout).
pub fn centered_rect(r: Rect, percent_x: u16, percent_y: u16) -> (c: Rect)
    requires
        percent_x <= 100,
        percent_y <= 100,
    ensures
        c == centered_percent_rect(r, percent_x, percent_y),
        within(c, r),
{
    let popup_layout = split_area(
        r,
        LayoutDirection::Vertical,
        &centered_percent_constraints(percent_y),
    );
    let columns = split_area(
        popup_layout[1],
        LayoutDirection::Horizontal,
        &centered_percent_constraints(percent_x),
    );
    assert(split_part(popup_layout@[1], r, LayoutDirection::Vertical));
    assert(split_part(columns@[1], popup_layout@[1], LayoutDirection::Horizontal));
    columns[1]
}

/// A rect of `percent_x` percent of the width and `lines_y` lines of `r`,
/// centered in it (by ratatui's layout: a row of `lines_y` lines between two
/// rows that share what is left over, then the middle `percent_x` percent of it).
pub fn centered_rect_line_height(r: Rect, percent_x: u16, lines_y: u16) -> (c: Rect)
    requires
        percent_x <= 100,
    ensures
        c == centered_lines_rect(r, percent_x, lines_y),
        within(c, r),
{
    let rows = vec![
        LayoutConstraint::Fill(1),
        LayoutConstraint::Length(lines_y),
        LayoutConstraint::Fill(1),
    ];
    assert(rows@ == centered_lines(lines_y));
    let popup_layout = split_area(r, LayoutDirection::Vertical, &rows);
    let columns = split_area(
        popup_layout[1],
        LayoutDirection::Horizontal,
        &centered_percent_constraints(percent_x),
    );
    assert(split_part(popup_layout@[1], r, LayoutDirection::Vertical));
    assert(split_part(columns@[1], popup_layout@[1], LayoutDirection::Horizontal));
    columns[1]
}

/// Where `r` begins in `direction`.
pub open spec fn begin_in(r: Rect, direction: LayoutDirection) -> int {
    match direction {
        LayoutDirection::Horizontal => r.x as int,
        LayoutDirection::Vertical => r.y as int,
    }
}

/// How many cells `r` spans in `direction`.
pub open spec fn size_in(r: Rect, direction: LayoutDirection) -> int {
    match direction {
        LayoutDirection::Horizontal => r.width as int,
        LayoutDirection::Vertical => r.height as int,
    }
}

/// The middle of a `Fill`, `Length(lines)`, `Fill` split is `lines` cells long, or
/// all the cells when there are fewer, and is centered: the cells before it and
/// after it differ by at most one (the one before gets the odd cell).
pub proof fn lemma_lines_part_centered(area: Rect, direction: LayoutDirection, lines: u16)
    ensures
        ({
            let n = axis_len(area, direction);
            let m = lines_part(area, direction, lines);
            let before = begin_in(m, direction) - axis_start(area, direction);
            let after = n - before - size_in(m, direction);
            &&& size_in(m, direction) == if lines <= n {
                lines as int
            } else {
                n
            }
            &&& 0 <= after <= before <= after + 1
        }),
{
}

/// The middle of a `centered_percentages(percent)` split spans `percent` percent
/// of the cells to within one cell, and, for an even `percent`, is centered: the
/// cells before it and after it differ by at most one.
pub proof fn lemma_percent_middle_centered(area: Rect, direction: LayoutDirection, percent: u16)
    requires
        percent <= 100,
    ensures
        ({
            let n = axis_len(area, direction);
            let m = percent_middle(area, direction, percent);
            let before = begin_in(m, direction) - axis_start(area, direction);
            let after = n - before - size_in(m, direction);
            &&& n * percent - 100 < 100 * size_in(m, direction) < n * percent + 100
            &&& 0 <= before
            &&& 0 <= after
            &&& percent % 2 == 0 ==> after <= before <= after + 1
        }),
{
    lemma_centered_percentages_fit(percent);
    let n = axis_len(area, direction);
    let side = (100 - percent) / 2;
    let lo = n * side;
    let hi = n * (side + percent);
    assert(hi == lo + n * percent) by (nonlinear_arith)
        requires
            lo == n * side,
            hi == n * (side + percent),
    ;
    assert(0 <= lo && lo + n * percent <= 100 * n) by (nonlinear_arith)
        requires
            n >= 0,
            0 <= side,
            2 * side + percent <= 100,
            lo == n * side,
    ;
    assert(0 <= n * percent) by (nonlinear_arith)
        requires
            n >= 0,
    ;
    if percent % 2 == 0 {
        assert(2 * lo + n * percent == 100 * n) by (nonlinear_arith)
            requires
                2 * side + percent == 100,
                lo == n * side,
        ;
    }
    let begin = round_cells(lo);
    let end = round_cells(hi);
    assert(0 <= begin <= end <= n);
}

// ---------------------------------------------------------------------------
// Tab expansion

/// The number of columns between two tab stops.
pub const TAB_WIDTH: usize = 4;

/// Where `tabs_to_spaces` is within an ANSI escape sequence.
#[derive(Clone, Copy, Debug, PartialEq, Eq)]
pub enum AnsiState {
    /// Ordinary text.
    Neutral,
    /// Just after an `ESC`.
    Escape,
    /// Inside a control sequence (`ESC [` up to its final byte).
    Csi,
}

/// `n` spaces.
pub open spec fn spaces(n: nat) -> Seq<char> {
    Seq::new(n, |i: int| ' ')
}

/// Whether `c` ends a control sequence (a final byte in `@` to `DEL`).
pub open spec fn is_csi_final(c: char) -> bool {
    '\x40' <= c <= '\x7f'
}

/// One step of tab expansion: what is emitted for `c` at visible column `x` in
/// state `st`, the next column, and the next state.
pub open spec fn expand_step(c: char, x: nat, st: AnsiState) -> (Seq<char>, nat, AnsiState) {
    match st {
        AnsiState::Neutral => {
            if c == '\t' {
                let n = (TAB_WIDTH - x % (TAB_WIDTH as nat)) as nat;
                (spaces(n), x + n, AnsiState::Neutral)
            } else if c == '\x1b' {
                (seq![c], x, AnsiState::Escape)
            } else if c == '\r' || c == '\n' {
                (seq![c], 0, AnsiState::Neutral)
            } else {
                (seq![c], x + 1, AnsiState::Neutral)
            }
        },
        AnsiState::Escape => (seq![c], x, if c == '[' {
            AnsiState::Csi
        } else {
            AnsiState::Neutral
        }),
        AnsiState::Csi => (seq![c], x, if is_csi_final(c) {
            AnsiState::Neutral
        } else {
            AnsiState::Csi
        }),
    }
}

/// Tab expansion of `s` from the start of a line: the text emitted, the visible
/// column reached, and the escape state reached.
pub open spec fn expand_tabs(s: Seq<char>) -> (Seq<char>, nat, AnsiState)
    decreases s.len(),
{
    if s.len() == 0 {
        (seq![], 0, AnsiState::Neutral)
    } else {
        let prev = expand_tabs(s.drop_last());
        let step = expand_step(s.last(), prev.1, prev.2);
        (prev.0 + step.0, step.1, step.2)
    }
}

/// `s` with each tab replaced by the spaces up to the next tab stop, four
/// columns apart; ANSI escape sequences take no columns, and `\r` and `\n`
/// return to the first column.
pub open spec fn tabs_expanded(s: Seq<char>) -> Seq<char> {
    expand_tabs(s).0
}

/// Replaces tabs in a string by spaces.
///
/// ratatui doesn't work well displaying tabs, so any string that is rendered and
/// might contain tabs needs to have the tabs converted to spaces.
///
/// This function aligns tabs in the input string to virtual tab stops 4 spaces
/// apart, taking care to count ANSI control sequences as zero width.
pub fn tabs_to_spaces(line: &str) -> (out: String)
    ensures
        out@ == tabs_expanded(line@),
{
    let chars = crate::text::chars_of(line);
    let mut out = String::new();
    // The visible column modulo the tab width: only that decides where a tab ends.
    let mut col: usize = 0;
    let mut ansi_state = AnsiState::Neutral;
    let mut i: usize = 0;
    while i < chars.len()
        invariant
            i <= chars.len(),
            chars@ == line@,
            col < TAB_WIDTH,
            out@ == expand_tabs(chars@.take(i as int)).0,
            col == expand_tabs(chars@.take(i as int)).1 % (TAB_WIDTH as nat),
            ansi_state == expand_tabs(chars@.take(i as int)).2,
        decreases chars.len() - i,
    {
        let c = chars[i];
        let ghost prefix = chars@.take(i as int);
        let ghost x = expand_tabs(prefix).1;
        assert(chars@.take(i + 1).drop_last() == prefix);
        assert(chars@.take(i + 1).last() == c);
        let ghost step = expand_step(c, x, ansi_state);
        match ansi_state {
            AnsiState::Neutral => {
                if c == '\t' {
                    let n = TAB_WIDTH - col;
                    let mut k: usize = 0;
                    while k < n
                        invariant
                            k <= n <= TAB_WIDTH,
                            out@ == expand_tabs(prefix).0 + spaces(k as nat),
                        decreases n - k,
                    {
                        out.push(' ');
                        k += 1;
                        assert(spaces(k as nat) == spaces((k - 1) as nat).push(' '));
                    }
                    assert(n == step.0.len());
                    col = 0;
                } else {
                    out.push(c);
                    if c == '\x1b' {
                        ansi_state = AnsiState::Escape;
                    } else {
                        col = (col + 1) % TAB_WIDTH;
                    }
                    if c == '\r' || c == '\n' {
                        col = 0;
                    }
                }
            },
            AnsiState::Escape => {
                out.push(c);
                ansi_state = if c == '[' {
                    AnsiState::Csi
                } else {
                    AnsiState::Neutral
                };
            },
            AnsiState::Csi => {
                out.push(c);
                if '\x40' <= c && c <= '\x7f' {
                    ansi_state = AnsiState::Neutral;
                }
            },
        }
        i += 1;
    }
    assert(chars@.take(chars.len() as int) == chars@);
    out
}

/// Text without tabs comes out of tab expansion unchanged.
pub proof fn lemma_tabs_expanded_no_tabs(s: Seq<char>)
    requires
        forall|i: int| 0 <= i < s.len() ==> s[i] != '\t',
    ensures
        tabs_expanded(s) == s,
    decreases s.len(),
{
    if s.len() > 0 {
        lemma_tabs_expanded_no_tabs(s.drop_last());
        assert(s.drop_last().push(s.last()) == s);
    }
}

/// Tab expansion of `s` from column `x` in state `st`: the text emitted, the
/// visible column reached, and the escape state reached.
pub open spec fn expand_from(s: Seq<char>, x: nat, st: AnsiState) -> (Seq<char>, nat, AnsiState)
    decreases s.len(),
{
    if s.len() == 0 {
        (seq![], x, st)
    } else {
        let prev = expand_from(s.drop_last(), x, st);
        let step = expand_step(s.last(), prev.1, prev.2);
        (prev.0 + step.0, step.1, step.2)
    }
}

/// Expansion from the start of a line is expansion from column 0 in ordinary text.
proof fn lemma_expand_tabs_from_start(s: Seq<char>)
    ensures
        expand_tabs(s) == expand_from(s, 0, AnsiState::Neutral),
    decreases s.len(),
{
    if s.len() > 0 {
        lemma_expand_tabs_from_start(s.drop_last());
    }
}

/// Expanding `a + b` is expanding `a`, then `b` from where `a` ended.
proof fn lemma_expand_from_concat(a: Seq<char>, b: Seq<char>, x: nat, st: AnsiState)
    ensures
        ({
            let p = expand_from(a, x, st);
            let q = expand_from(b, p.1, p.2);
            expand_from(a + b, x, st) == (p.0 + q.0, q.1, q.2)
        }),
    decreases b.len(),
{
    if b.len() == 0 {
        assert(a + b == a);
    } else {
        assert((a + b).drop_last() == a + b.drop_last());
        assert((a + b).last() == b.last());
        lemma_expand_from_concat(a, b.drop_last(), x, st);
        let p = expand_from(a, x, st);
        let q = expand_from(b.drop_last(), p.1, p.2);
        let step = expand_step(b.last(), q.1, q.2);
        assert(p.0 + q.0 + step.0 == p.0 + (q.0 + step.0));
    }
}

/// Spaces in ordinary text are emitted as they are, a column each.
proof fn lemma_expand_spaces(n: nat, x: nat)
    ensures
        expand_from(spaces(n), x, AnsiState::Neutral) == (spaces(n), x + n, AnsiState::Neutral),
    decreases n,
{
    if n > 0 {
        let s = spaces(n);
        assert(s.drop_last() == spaces((n - 1) as nat));
        lemma_expand_spaces((n - 1) as nat, x);
        assert(spaces((n - 1) as nat) + seq![' '] == s);
    }
}

/// What one step emits comes out of expansion unchanged, reaching the same
/// column and state.
proof fn lemma_expand_step_stable(c: char, x: nat, st: AnsiState)
    ensures
        ({
            let step = expand_step(c, x, st);
            expand_from(step.0, x, st) == step
        }),
{
    let step = expand_step(c, x, st);
    if st == AnsiState::Neutral && c == '\t' {
        let n = (TAB_WIDTH - x % (TAB_WIDTH as nat)) as nat;
        assert(step.0 == spaces(n));
        assert(spaces(n).len() == n);
        lemma_expand_spaces(n, x);
    } else {
        assert(step.0 == seq![c]);
        assert(step.0.drop_last() == Seq::<char>::empty());
        assert(expand_from(Seq::<char>::empty(), x, st) == (Seq::<char>::empty(), x, st));
        assert(step.0.last() == c);
        assert(Seq::<char>::empty() + seq![c] == seq![c]);
    }
}

/// Expanding the expansion of `s` from the same column and state gives it back.
proof fn lemma_expand_from_stable(s: Seq<char>, x: nat, st: AnsiState)
    ensures
        expand_from(expand_from(s, x, st).0, x, st) == expand_from(s, x, st),
    decreases s.len(),
{
    if s.len() > 0 {
        lemma_expand_from_stable(s.drop_last(), x, st);
        let p = expand_from(s.drop_last(), x, st);
        let step = expand_step(s.last(), p.1, p.2);
        lemma_expand_from_concat(p.0, step.0, x, st);
        lemma_expand_step_stable(s.last(), p.1, p.2);
    }
}

/// Tab expansion is idempotent: expanding expanded text changes nothing, with
/// or without escape sequences in it.
pub proof fn lemma_tabs_expanded_idempotent(s: Seq<char>)
    ensures
        tabs_expanded(tabs_expanded(s)) == tabs_expanded(s),
{
    lemma_expand_tabs_from_start(s);
    lemma_expand_tabs_from_start(tabs_expanded(s));
    lemma_expand_from_stable(s, 0, AnsiState::Neutral);
}

/// Ordinary characters (no tab, escape, or line end) move one column each.
proof fn lemma_expand_plain(a: Seq<char>, x: nat)
    requires
        forall|i: int|
            0 <= i < a.len() ==> #[trigger] a[i] != '\t' && a[i] != '\x1b' && a[i] != '\r' && a[i]
                != '\n',
    ensures
        expand_from(a, x, AnsiState::Neutral) == (a, x + a.len(), AnsiState::Neutral),
    decreases a.len(),
{
    if a.len() > 0 {
        lemma_expand_plain(a.drop_last(), x);
        assert(a.last() == a[a.len() - 1]);
        assert(a.drop_last() + seq![a.last()] == a);
    }
}

/// The parameters of a control sequence pass through without moving the column.
proof fn lemma_expand_csi_params(p: Seq<char>, x: nat)
    requires
        forall|i: int| 0 <= i < p.len() ==> #[trigger] p[i] < '\x40' || p[i] > '\x7f',
    ensures
        expand_from(p, x, AnsiState::Csi) == (p, x, AnsiState::Csi),
    decreases p.len(),
{
    if p.len() > 0 {
        lemma_expand_csi_params(p.drop_last(), x);
        assert(p.last() == p[p.len() - 1]);
        assert(p.drop_last() + seq![p.last()] == p);
    }
}

/// Expansion of a single character.
proof fn lemma_expand_one(c: char, x: nat, st: AnsiState)
    ensures
        expand_from(seq![c], x, st) == expand_step(c, x, st),
{
    assert(seq![c].drop_last() == Seq::<char>::empty());
    assert(expand_from(Seq::<char>::empty(), x, st) == (Seq::<char>::empty(), x, st));
    assert(seq![c].last() == c);
    assert(Seq::<char>::empty() + expand_step(c, x, st).0 == expand_step(c, x, st).0);
}

/// Escape sequences take no columns: after text `a` without tabs, escapes or
/// line ends and a complete control sequence (`ESC [`, parameters, and a final
/// byte in `@` to `DEL`), a tab fills the spaces up to the next stop, four
/// columns apart, counted from the start of `a` alone.
pub proof fn lemma_tab_after_escape_sequence(a: Seq<char>, params: Seq<char>, final_byte: char)
    requires
        forall|i: int|
            0 <= i < a.len() ==> #[trigger] a[i] != '\t' && a[i] != '\x1b' && a[i] != '\r' && a[i]
                != '\n',
        forall|i: int| 0 <= i < params.len() ==> #[trigger] params[i] < '\x40' || params[i] > '\x7f',
        '\x40' <= final_byte <= '\x7f',
    ensures
        ({
            let e = seq!['\x1b', '['] + params + seq![final_byte];
            tabs_expanded(a + e + seq!['\t']) == a + e + Seq::new(
                (4 - a.len() % 4) as nat,
                |i: int| ' ',
            )
        }),
{
    let e = seq!['\x1b', '['] + params + seq![final_byte];
    let x = a.len();
    lemma_expand_tabs_from_start(a + e + seq!['\t']);
    lemma_expand_plain(a, 0);
    lemma_expand_one('\x1b', x, AnsiState::Neutral);
    lemma_expand_one('[', x, AnsiState::Escape);
    lemma_expand_from_concat(seq!['\x1b'], seq!['['], x, AnsiState::Neutral);
    assert(seq!['\x1b'] + seq!['['] == seq!['\x1b', '[']);
    lemma_expand_csi_params(params, x);
    lemma_expand_from_concat(seq!['\x1b', '['], params, x, AnsiState::Neutral);
    lemma_expand_one(final_byte, x, AnsiState::Csi);
    lemma_expand_from_concat(seq!['\x1b', '['] + params, seq![final_byte], x, AnsiState::Neutral);
    assert(expand_from(e, x, AnsiState::Neutral) == (e, x, AnsiState::Neutral));
    lemma_expand_one('\t', x, AnsiState::Neutral);
    lemma_expand_from_concat(a, e, 0, AnsiState::Neutral);
    lemma_expand_from_concat(a + e, seq!['\t'], 0, AnsiState::Neutral);
    assert(spaces((4 - a.len() % 4) as nat) =~= Seq::new((4 - a.len() % 4) as nat, |i: int| ' '));
}

/// Text without escape sequences has no tab left after expansion.
pub proof fn lemma_tabs_expanded_removes_tabs(s: Seq<char>)
    requires
        forall|i: int| 0 <= i < s.len() ==> s[i] != '\x1b',
    ensures
        forall|i: int| 0 <= i < tabs_expanded(s).len() ==> tabs_expanded(s)[i] != '\t',
        expand_tabs(s).2 == AnsiState::Neutral,
    decreases s.len(),
{
    if s.len() > 0 {
        lemma_tabs_expanded_removes_tabs(s.drop_last());
        let prev = expand_tabs(s.drop_last());
        let step = expand_step(s.last(), prev.1, prev.2);
        assert(s.last() == s[s.len() - 1]);
        assert forall|j: int| 0 <= j < step.0.len() implies step.0[j] != '\t' by {
            if s.last() == '\t' {
                assert(step.0[j] == ' ');
            }
        }
        assert forall|i: int| 0 <= i < tabs_expanded(s).len() implies tabs_expanded(s)[i]
            != '\t' by {
            assert(tabs_expanded(s) == prev.0 + step.0);
            if i < prev.0.len() {
                assert(tabs_expanded(s)[i] == tabs_expanded(s.drop_last())[i]);
            } else {
                assert(tabs_expanded(s)[i] == step.0[i - prev.0.len()]);
            }
        }
    }
}

// ---------------------------------------------------------------------------
// Diff tinting

/// How a line of a `jj diff --git` text is tinted.
#[derive(Clone, Copy, Debug, PartialEq, Eq)]
pub enum DiffLineKind {
    /// An added line (`+`, but not a `+++` header): white on green.
    Added,
    /// A removed line (`-`, but not a `---` header): white on red.
    Removed,
    /// A context line (` `): white.
    Context,
    /// Anything else (`---`/`+++` and `@@` headers, other text): left untouched.
    Untouched,
}

/// Whether a line is kept: `diff --git` and `index` header lines are dropped.
pub open spec fn diff_line_kept(line: Seq<char>) -> bool {
    !(crate::text::starts_with(line, "diff --git "@) || crate::text::starts_with(line, "index "@))
}

/// How a kept line is tinted, by its first character.
pub open spec fn diff_line_kind(line: Seq<char>) -> DiffLineKind {
    if line.len() == 0 {
        DiffLineKind::Untouched
    } else if line[0] == '+' && !crate::text::starts_with(line, "+++"@) {
        DiffLineKind::Added
    } else if line[0] == '-' && !crate::text::starts_with(line, "---"@) {
        DiffLineKind::Removed
    } else if line[0] == ' ' {
        DiffLineKind::Context
    } else {
        DiffLineKind::Untouched
    }
}

/// What becomes of each line: `None` when it is dropped, else its tint.
pub open spec fn diff_tints(ls: Seq<Seq<char>>) -> Seq<Option<DiffLineKind>> {
    Seq::new(
        ls.len(),
        |i: int|
            if diff_line_kept(ls[i]) {
                Some(diff_line_kind(ls[i]))
            } else {
                None
            },
    )
}

/// The number of lines tinted as `kind`.
pub open spec fn count_kind(tints: Seq<Option<DiffLineKind>>, kind: DiffLineKind) -> nat
    decreases tints.len(),
{
    if tints.len() == 0 {
        0
    } else {
        count_kind(tints.drop_last(), kind) + if tints.last() == Some(kind) {
            1nat
        } else {
            0nat
        }
    }
}

/// The tinting of a diff: what becomes of each line, how many lines were added
/// and removed, and the `+N -M` summary shown above the text when it has any
/// changes (its two parts, `+N` in green and `-M` in red, with a space between).
pub struct DiffTint {
    pub tints: Vec<Option<DiffLineKind>>,
    pub added: u32,
    pub removed: u32,
    pub summary: Option<(String, String)>,
}

/// Whether `line` begins with the characters of `prefix`, compared one by one.
pub open spec fn begins_with_chars(line: Seq<char>, prefix: Seq<char>) -> bool {
    prefix.len() <= line.len() && forall|k: int| 0 <= k < prefix.len() ==> line[k] == prefix[k]
}

/// How each line of a diff is tinted, by its characters: `diff --git ` and
/// `index ` lines are dropped; a line beginning `+` but not `+++` is added, one
/// beginning `-` but not `---` is removed, one beginning with a space is context;
/// `+++`/`---` headers, hunk headers (`@@`), empty lines and anything else are
/// left untouched.
pub proof fn lemma_diff_tints_by_first_characters(ls: Seq<Seq<char>>, i: int)
    requires
        0 <= i < ls.len(),
    ensures
        ({
            let l = ls[i];
            let dropped = begins_with_chars(
                l,
                seq!['d', 'i', 'f', 'f', ' ', '-', '-', 'g', 'i', 't', ' '],
            ) || begins_with_chars(l, seq!['i', 'n', 'd', 'e', 'x', ' ']);
            let triple = |c: char| l.len() >= 3 && l[0] == c && l[1] == c && l[2] == c;
            &&& diff_tints(ls).len() == ls.len()
            &&& dropped <==> diff_tints(ls)[i] is None
            &&& (l.len() > 0 && l[0] == '-' && !triple('-')) ==> diff_tints(ls)[i] == Some(
                DiffLineKind::Removed,
            )
            &&& (l.len() > 0 && l[0] == '+' && !triple('+')) ==> diff_tints(ls)[i] == Some(
                DiffLineKind::Added,
            )
            &&& (l.len() > 0 && l[0] == ' ') ==> diff_tints(ls)[i] == Some(DiffLineKind::Context)
            &&& (!dropped && (l.len() == 0 || triple('-') || triple('+') || (l[0] != '-' && l[0]
                != '+' && l[0] != ' '))) ==> diff_tints(ls)[i] == Some(DiffLineKind::Untouched)
        }),
{
    let l = ls[i];
    reveal_strlit("diff --git ");
    reveal_strlit("index ");
    reveal_strlit("+++");
    reveal_strlit("---");
    let d = seq!['d', 'i', 'f', 'f', ' ', '-', '-', 'g', 'i', 't', ' '];
    let x = seq!['i', 'n', 'd', 'e', 'x', ' '];
    assert("diff --git "@ == d);
    assert("index "@ == x);
    assert("+++"@ == seq!['+', '+', '+']);
    assert("---"@ == seq!['-', '-', '-']);
    assert(crate::text::starts_with(l, d) <==> begins_with_chars(l, d)) by {
        if begins_with_chars(l, d) {
            assert(l.take(d.len() as int) =~= d);
        }
        if crate::text::starts_with(l, d) {
            assert forall|k: int| 0 <= k < d.len() implies l[k] == d[k] by {
                assert(l.take(d.len() as int)[k] == l[k]);
            }
        }
    }
    assert(crate::text::starts_with(l, x) <==> begins_with_chars(l, x)) by {
        if begins_with_chars(l, x) {
            assert(l.take(x.len() as int) =~= x);
        }
        if crate::text::starts_with(l, x) {
            assert forall|k: int| 0 <= k < x.len() implies l[k] == x[k] by {
                assert(l.take(x.len() as int)[k] == l[k]);
            }
        }
    }
    let m = seq!['-', '-', '-'];
    let p = seq!['+', '+', '+'];
    assert(crate::text::starts_with(l, m) <==> (l.len() >= 3 && l[0] == '-' && l[1] == '-' && l[2]
        == '-')) by {
        if l.len() >= 3 && l[0] == '-' && l[1] == '-' && l[2] == '-' {
            assert(l.take(3) =~= m);
        }
        if crate::text::starts_with(l, m) {
            assert(l.take(3)[0] == l[0] && l.take(3)[1] == l[1] && l.take(3)[2] == l[2]);
        }
    }
    assert(crate::text::starts_with(l, p) <==> (l.len() >= 3 && l[0] == '+' && l[1] == '+' && l[2]
        == '+')) by {
        if l.len() >= 3 && l[0] == '+' && l[1] == '+' && l[2] == '+' {
            assert(l.take(3) =~= p);
        }
        if crate::text::starts_with(l, p) {
            assert(l.take(3)[0] == l[0] && l.take(3)[1] == l[1] && l.take(3)[2] == l[2]);
        }
    }
    if begins_with_chars(l, d) {
        assert(l[0] == 'd');
    }
    if begins_with_chars(l, x) {
        assert(l[0] == 'i');
    }
}

/// The number of lines tinted as `kind` is the number of entries equal to
/// `Some(kind)`: the length of the tints kept by that test.
pub proof fn lemma_count_kind_counts(tints: Seq<Option<DiffLineKind>>, kind: DiffLineKind)
    ensures
        count_kind(tints, kind) == tints.filter(|t: Option<DiffLineKind>| t == Some(kind)).len(),
    decreases tints.len(),
{
    reveal(Seq::filter);
    if tints.len() > 0 {
        lemma_count_kind_counts(tints.drop_last(), kind);
    }
}

/// A line count is no more than the number of lines.
proof fn lemma_count_kind_le(tints: Seq<Option<DiffLineKind>>, kind: DiffLineKind)
    ensures
        count_kind(tints, kind) <= tints.len(),
    decreases tints.len(),
{
    if tints.len() > 0 {
        lemma_count_kind_le(tints.drop_last(), kind);
    }
}

/// Whether the characters of `line` begin with `prefix`.
fn line_starts_with(line: &Vec<char>, prefix: &str) -> (r: bool)
    ensures
        r == crate::text::starts_with(line@, prefix@),
{
    crate::text::has_prefix(line, &crate::text::chars_of(prefix))
}

/// GitHub-style tinting of a `jj diff --git` text, given the text of each line
/// (its spans' contents joined): added lines get a light green background,
/// removed lines a light red one, and all diff body lines (added, removed and
/// context) render in white. `diff --git` and `index` header lines are dropped;
/// `---`/`+++` and hunk headers (`@@`) are left untouched. A `+N -M` summary
/// line is prepended when the text contains any body changes.
pub fn tint_git_diff(lines: &Vec<String>) -> (t: DiffTint)
    requires
        lines@.len() <= u32::MAX,
    ensures
        t.tints@ == diff_tints(crate::commander::string_views(lines@)),
        t.added == count_kind(t.tints@, DiffLineKind::Added),
        t.removed == count_kind(t.tints@, DiffLineKind::Removed),
        (t.added > 0 || t.removed > 0) ==> (t.summary matches Some(s) && s.0@ == seq!['+']
            + crate::text::decimal(t.added as nat) && s.1@ == seq!['-'] + crate::text::decimal(
            t.removed as nat,
        )),
        !(t.added > 0 || t.removed > 0) ==> t.summary is None,
{
    let ghost ls = crate::commander::string_views(lines@);
    let mut tints: Vec<Option<DiffLineKind>> = Vec::new();
    let mut added: u32 = 0;
    let mut removed: u32 = 0;
    let mut i: usize = 0;
    while i < lines.len()
        invariant
            i <= lines@.len() <= u32::MAX,
            ls == crate::commander::string_views(lines@),
            tints@ == diff_tints(ls).take(i as int),
            added == count_kind(tints@, DiffLineKind::Added),
            removed == count_kind(tints@, DiffLineKind::Removed),
        decreases lines@.len() - i,
    {
        let line = crate::text::chars_of(lines[i].as_str());
        assert(line@ == ls[i as int]);
        let tint = if line_starts_with(&line, "diff --git ") || line_starts_with(&line, "index ") {
            None
        } else if line.len() == 0 {
            Some(DiffLineKind::Untouched)
        } else if line[0] == '+' && !line_starts_with(&line, "+++") {
            Some(DiffLineKind::Added)
        } else if line[0] == '-' && !line_starts_with(&line, "---") {
            Some(DiffLineKind::Removed)
        } else if line[0] == ' ' {
            Some(DiffLineKind::Context)
        } else {
            Some(DiffLineKind::Untouched)
        };
        proof {
            lemma_count_kind_le(tints@, DiffLineKind::Added);
            lemma_count_kind_le(tints@, DiffLineKind::Removed);
        }
        let ghost before = tints@;
        tints.push(tint);
        assert(tints@.drop_last() == before);
        assert(tints@ =~= diff_tints(ls).take(i + 1));
        match tint {
            Some(DiffLineKind::Added) => {
                added += 1;
            },
            Some(DiffLineKind::Removed) => {
                removed += 1;
            },
            _ => {},
        }
        i += 1;
    }
    assert(diff_tints(ls).take(i as int) == diff_tints(ls));
    let summary = if added > 0 || removed > 0 {
        let mut plus = String::from_str("+");
        crate::text::push_decimal(&mut plus, added);
        let mut minus = String::from_str("-");
        crate::text::push_decimal(&mut minus, removed);
        proof {
            reveal_strlit("+");
            reveal_strlit("-");
        }
        Some((plus, minus))
    } else {
        None
    };
    DiffTint { tints, added, removed, summary }
}

} // verus!
