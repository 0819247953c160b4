//! The help popup: two tables of keys and what they do, scrolled together.

use vstd::prelude::*;
use vstd::utf8::encode_utf8;

use crate::ui::utils::{
    axis_len, block_inner, bordered_inner, centered_fixed, centered_rect_fixed, centered_start, length_part,
    lengths_fit, split_area, split_part, LayoutConstraint, LayoutDirection, Rect,
};
use crate::ui::{ComponentInputResult, InputEvent, KeyCode};

verus! {

/// Spacing between the key column and description column inside each help table.
pub const KEY_DESC_GAP: u16 = 2;

/// The gap between the two tables.
pub const COLUMN_GAP: u16 = 2;

/// One cell on each side for the popup's border.
pub const BORDER_PADDING: u16 = 2;

pub struct HelpPopup {
    pub left_items: Vec<(String, String)>,
    pub right_items: Vec<(String, String)>,
    height: u16,
    scroll: usize,
}

/// The length in bytes of the UTF-8 encoding of `s`, as `str::len` gives it.
pub open spec fn byte_len(s: Seq<char>) -> usize {
    encode_utf8(s).len() as usize
}

/// The greatest byte length among the keys (`keys`) or the descriptions of `items`.
pub open spec fn max_len(items: Seq<(String, String)>, keys: bool) -> usize
    decreases items.len(),
{
    if items.len() == 0 {
        0
    } else {
        let rest = max_len(items.drop_last(), keys);
        let last = if keys {
            byte_len(items.last().0@)
        } else {
            byte_len(items.last().1@)
        };
        if last > rest {
            last
        } else {
            rest
        }
    }
}

/// The width of a table: the widest key, the gap, and the widest description,
/// each width taken as a `u16` (cut to its low 16 bits, as `as u16` does).
pub open spec fn table_width(items: Seq<(String, String)>) -> int {
    (max_len(items, true) as u16) + KEY_DESC_GAP + (max_len(items, false) as u16)
}

/// The byte length of a row's key (`keys`) or description.
pub open spec fn row_len(row: (String, String), keys: bool) -> usize {
    if keys {
        byte_len(row.0@)
    } else {
        byte_len(row.1@)
    }
}

/// `max_len` is the greatest length among the rows: no row is longer, and, when
/// there are rows, one of them has that length (0 when there are none).
pub proof fn lemma_max_len_is_maximum(items: Seq<(String, String)>, keys: bool)
    ensures
        forall|k: int| 0 <= k < items.len() ==> row_len(#[trigger] items[k], keys) <= max_len(items, keys),
        items.len() == 0 ==> max_len(items, keys) == 0,
        items.len() > 0 ==> exists|k: int|
            0 <= k < items.len() && max_len(items, keys) == row_len(#[trigger] items[k], keys),
    decreases items.len(),
{
    if items.len() > 0 {
        let rest = items.drop_last();
        lemma_max_len_is_maximum(rest, keys);
        assert forall|k: int| 0 <= k < items.len() implies row_len(#[trigger] items[k], keys)
            <= max_len(items, keys) by {
            if k < items.len() - 1 {
                assert(items[k] == rest[k]);
            }
        }
        if row_len(items.last(), keys) > max_len(rest, keys) {
            assert(max_len(items, keys) == row_len(items[items.len() - 1], keys));
        } else {
            let k = choose|k: int|
                0 <= k < rest.len() && max_len(rest, keys) == row_len(#[trigger] rest[k], keys);
            if rest.len() > 0 {
                assert(items[k] == rest[k]);
                assert(max_len(items, keys) == row_len(items[k], keys));
            } else {
                assert(max_len(items, keys) == row_len(items[items.len() - 1], keys));
            }
        }
    }
}

/// Executable `max_len`.
fn max_len_of(items: &[(String, String)], keys: bool) -> (m: usize)
    ensures
        m == max_len(items@, keys),
{
    let mut m: usize = 0;
    let mut i: usize = 0;
    while i < items.len()
        invariant
            i <= items@.len(),
            m == max_len(items@.take(i as int), keys),
        decreases items@.len() - i,
    {
        assert(items@.take(i + 1).drop_last() == items@.take(i as int));
        assert(items@.take(i + 1).last() == items@[i as int]);
        let len = if keys {
            items[i].0.as_str().len()
        } else {
            items[i].1.as_str().len()
        };
        if len > m {
            m = len;
        }
        i += 1;
    }
    assert(items@.take(items@.len() as int) == items@);
    m
}

/// The view of a help popup: its two lists of items, the height of its table
/// area, and how far it is scrolled.
pub struct HelpPopupView {
    pub left_items: Seq<(String, String)>,
    pub right_items: Seq<(String, String)>,
    pub height: u16,
    pub scroll: usize,
}

impl View for HelpPopup {
    type V = HelpPopupView;

    closed spec fn view(&self) -> HelpPopupView {
        HelpPopupView {
            left_items: self.left_items@,
            right_items: self.right_items@,
            height: self.height,
            scroll: self.scroll,
        }
    }
}

/// How far the help can scroll: the longer list's length less the rows shown.
pub open spec fn max_scroll(v: HelpPopupView) -> int {
    let n = if v.left_items.len() > v.right_items.len() {
        v.left_items.len()
    } else {
        v.right_items.len()
    };
    if n > v.height {
        n - v.height
    } else {
        0
    }
}

/// The number of rows of the longer list.
pub open spec fn max_rows(v: HelpPopupView) -> int {
    if v.left_items.len() > v.right_items.len() {
        v.left_items.len() as int
    } else {
        v.right_items.len() as int
    }
}

/// The width the popup asks for: both tables, the gap between them, and the border.
pub open spec fn desired_width(v: HelpPopupView) -> int {
    table_width(v.left_items) + COLUMN_GAP + table_width(v.right_items) + BORDER_PADDING
}

/// The height the popup asks for: the longer list (its length taken as a `u16`),
/// the tables' title row, and the border.
pub open spec fn desired_height(v: HelpPopupView) -> int {
    (max_rows(v) as u16) + 1 + BORDER_PADDING
}

/// The popup's sizes fit in a `u16`.
pub open spec fn help_fits(v: HelpPopupView) -> bool {
    &&& table_width(v.left_items) <= u16::MAX
    &&& table_width(v.right_items) <= u16::MAX
    &&& desired_width(v) <= u16::MAX
    &&& desired_height(v) <= u16::MAX
}

/// The columns inside the popup: the left table, the gap, and the right table
/// taking what is left.
pub open spec fn help_columns(left_width: u16) -> Seq<LayoutConstraint> {
    seq![
        LayoutConstraint::Length(left_width),
        LayoutConstraint::Length(COLUMN_GAP),
        LayoutConstraint::Fill(1),
    ]
}

/// Where the help popup is drawn: its area, the area inside its border and
/// padding, and the areas of its two tables.
pub struct HelpAreas {
    pub popup: Rect,
    pub inner: Rect,
    pub left: Rect,
    pub right: Rect,
}

impl HelpPopup {
    pub fn new(left_items: Vec<(String, String)>, right_items: Vec<(String, String)>) -> (p: Self)
        ensures
            p@.left_items == left_items@,
            p@.right_items == right_items@,
            p@.height == 0,
            p@.scroll == 0,
    {
        Self {
            left_items,
            right_items,
            height: 0,
            scroll: 0,
        }
    }

    /// The width of a table of `items`: its widest key, the gap, and its widest
    /// description.
    pub fn column_width(items: &[(String, String)]) -> (w: u16)
        requires
            table_width(items@) <= u16::MAX,
        ensures
            w == table_width(items@),
    {
        let max_key = max_len_of(items, true) as u16;
        let max_desc = max_len_of(items, false) as u16;
        max_key + KEY_DESC_GAP + max_desc
    }

    /// The width of the key column of a table of `items` as it is shown: the
    /// widest key among the rows from the scroll position on, and the gap.
    pub fn key_column_width(&self, items: &[(String, String)]) -> (w: u16)
        requires
            self@.scroll <= items@.len() ==> (max_len(items@.skip(self@.scroll as int), true) as u16)
                + KEY_DESC_GAP <= u16::MAX,
        ensures
            self@.scroll <= items@.len() ==> w == (max_len(items@.skip(self@.scroll as int), true)
                as u16) + KEY_DESC_GAP,
            self@.scroll > items@.len() ==> w == KEY_DESC_GAP,
    {
        let mut rows: Vec<(String, String)> = Vec::new();
        let mut i = self.scroll;
        while i < items.len()
            invariant
                self@.scroll <= i <= items@.len() || (i == self@.scroll && i > items@.len()),
                rows@.len() == if i >= self@.scroll {
                    i - self@.scroll
                } else {
                    0
                },
                forall|j: int| 0 <= j < rows@.len() ==> #[trigger] rows@[j] == items@[self@.scroll + j],
            decreases items@.len() - i,
        {
            rows.push((items[i].0.clone(), items[i].1.clone()));
            i += 1;
        }
        proof {
            if self@.scroll <= items@.len() {
                assert(rows@ =~= items@.skip(self@.scroll as int));
            } else {
                assert(rows@.len() == 0);
            }
        }
        let max_key = max_len_of(rows.as_slice(), true) as u16;
        max_key + KEY_DESC_GAP
    }

    /// How far the help is scrolled: the first row shown in each table.
    pub fn scroll(&self) -> (s: usize)
        ensures
            s == self@.scroll,
    {
        self.scroll
    }

    /// Records the number of rows that the tables have on screen, which bounds
    /// the scrolling.
    pub fn set_height(&mut self, height: u16)
        ensures
            final(self)@ == (HelpPopupView { height, ..old(self)@ }),
    {
        self.height = height;
    }

    /// The size that the popup asks for: both tables side by side with a gap and
    /// a border, and as many rows as the longer list, a title row, and the border.
    pub fn desired_size(&self) -> (size: (u16, u16))
        requires
            table_width(self@.left_items) + COLUMN_GAP + table_width(self@.right_items)
                + BORDER_PADDING <= u16::MAX,
            table_width(self@.left_items) <= u16::MAX,
            table_width(self@.right_items) <= u16::MAX,
            (if self@.left_items.len() > self@.right_items.len() {
                self@.left_items.len()
            } else {
                self@.right_items.len()
            }) as u16 + 1 + BORDER_PADDING <= u16::MAX,
        ensures
            size.0 == table_width(self@.left_items) + COLUMN_GAP + table_width(self@.right_items)
                + BORDER_PADDING,
            size.1 == (if self@.left_items.len() > self@.right_items.len() {
                self@.left_items.len()
            } else {
                self@.right_items.len()
            }) as u16 + 1 + BORDER_PADDING,
    {
        let left_width = Self::column_width(self.left_items.as_slice());
        let right_width = Self::column_width(self.right_items.as_slice());
        let desired_width = left_width + COLUMN_GAP + right_width + BORDER_PADDING;
        let max_rows = if self.left_items.len() > self.right_items.len() {
            self.left_items.len()
        } else {
            self.right_items.len()
        } as u16;
        let desired_height = max_rows + 1 + BORDER_PADDING;
        (desired_width, desired_height)
    }

    /// Lays the popup out in `area`: its desired size centered in it, with a
    /// bordered block of one column of padding, the left table as wide as its
    /// widest row, a gap, and the right table. Records the number of rows inside
    /// the border, which bounds the scrolling.
    pub fn layout(&mut self, area: Rect) -> (r: HelpAreas)
        requires
            help_fits(old(self)@),
            centered_start(area.x, area.width, desired_width(old(self)@) as u16) <= u16::MAX,
            centered_start(area.y, area.height, desired_height(old(self)@) as u16) <= u16::MAX,
        ensures
            r.popup == centered_fixed(
                area,
                desired_width(old(self)@) as u16,
                desired_height(old(self)@) as u16,
            ),
            r.inner == bordered_inner(r.popup, 1),
            final(self)@ == (HelpPopupView { height: r.inner.height, ..old(self)@ }),
            split_part(r.left, r.inner, LayoutDirection::Horizontal),
            split_part(r.right, r.inner, LayoutDirection::Horizontal),
            lengths_fit(
                help_columns(table_width(old(self)@.left_items) as u16),
                axis_len(r.inner, LayoutDirection::Horizontal),
            )
                ==> {
                &&& r.left == length_part(
                    r.inner,
                    LayoutDirection::Horizontal,
                    help_columns(table_width(old(self)@.left_items) as u16),
                    0,
                )
                &&& r.right == length_part(
                    r.inner,
                    LayoutDirection::Horizontal,
                    help_columns(table_width(old(self)@.left_items) as u16),
                    2,
                )
            },
    {
        let left_width = Self::column_width(self.left_items.as_slice());
        let (width, height) = self.desired_size();
        let popup = centered_rect_fixed(area, width, height);
        let inner = block_inner(popup, 1);
        self.height = inner.height;
        let columns = vec![
            LayoutConstraint::Length(left_width),
            LayoutConstraint::Length(COLUMN_GAP),
            LayoutConstraint::Fill(1),
        ];
        assert(columns@ == help_columns(left_width));
        let parts = split_area(inner, LayoutDirection::Horizontal, &columns);
        HelpAreas { popup, inner, left: parts[0], right: parts[2] }
    }

    /// Handles a key: `j` scrolls down, up to the last row of the longer list,
    /// and `k` scrolls up, down to the first row. Other input is not handled.
    pub fn input(&mut self, event: InputEvent) -> (r: ComponentInputResult)
        ensures
            final(self)@.left_items == old(self)@.left_items,
            final(self)@.right_items == old(self)@.right_items,
            final(self)@.height == old(self)@.height,
            (event matches InputEvent::Key(k) && k.press && k.code == KeyCode::Char('j')) ==> {
                &&& r is Handled
                &&& final(self)@.scroll == if old(self)@.scroll + 1 < max_scroll(old(self)@) {
                    old(self)@.scroll + 1
                } else {
                    max_scroll(old(self)@)
                }
            },
            (event matches InputEvent::Key(k) && k.press && k.code == KeyCode::Char('k')) ==> {
                &&& r is Handled
                &&& final(self)@.scroll == if old(self)@.scroll > 0 {
                    old(self)@.scroll - 1
                } else {
                    0
                }
            },
            !(event matches InputEvent::Key(k) && k.press && (k.code == KeyCode::Char('j')
                || k.code == KeyCode::Char('k'))) ==> {
                &&& r is NotHandled
                &&& final(self)@ == old(self)@
            },
    {
        if let InputEvent::Key(key) = event {
            if key.press {
                match key.code {
                    KeyCode::Char('j') => {
                        let max = if self.left_items.len() > self.right_items.len() {
                            self.left_items.len()
                        } else {
                            self.right_items.len()
                        };
                        let next = self.scroll.saturating_add(1);
                        let limit = max.saturating_sub(self.height as usize);
                        self.scroll = if next < limit {
                            next
                        } else {
                            limit
                        };
                        return ComponentInputResult::Handled;
                    },
                    KeyCode::Char('k') => {
                        self.scroll = self.scroll.saturating_sub(1);
                        return ComponentInputResult::Handled;
                    },
                    _ => {
                        return ComponentInputResult::NotHandled;
                    },
                }
            }
        }
        ComponentInputResult::NotHandled
    }
}

/// Scrolling down never goes past the last row of the longer list, and
/// scrolling up after scrolling down from a row before that last one returns to
/// the row where it began.
pub proof fn lemma_help_scroll(v: HelpPopupView, down: int, up: int)
    requires
        down == (if v.scroll + 1 < max_scroll(v) {
            v.scroll + 1
        } else {
            max_scroll(v)
        }),
        up == (if down > 0 {
            down - 1
        } else {
            0
        }),
    ensures
        down <= max_scroll(v),
        v.scroll < max_scroll(v) ==> up == v.scroll,
{
}

} // verus!
