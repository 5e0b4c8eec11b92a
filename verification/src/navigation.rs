use vstd::prelude::*;

use crate::document::{EditingViewport, ScreenSize};
use crate::text;

verus! {

/// The cursor's place on the screen.
#[derive(Clone, Copy, Debug)]
pub struct Position {
    pub column: usize,
    pub row: usize,
}

impl Position {
    pub fn move_up(&mut self, by: usize)
        ensures
            final(self).row == text::sat_sub(old(self).row, by),
            final(self).column == old(self).column,
    {
        self.row = self.row.saturating_sub(by);
    }

    pub fn move_down(&mut self, by: usize)
        requires
            old(self).row + by <= usize::MAX,
        ensures
            final(self).row == old(self).row + by,
            final(self).column == old(self).column,
    {
        self.row += by;
    }

    pub fn move_left(&mut self)
        ensures
            final(self).column == text::sat_sub(old(self).column, 1),
            final(self).row == old(self).row,
    {
        self.column = self.column.saturating_sub(1);
    }

    pub fn move_right(&mut self)
        requires
            old(self).column + 1 <= usize::MAX,
        ensures
            final(self).column == old(self).column + 1,
            final(self).row == old(self).row,
    {
        self.column += 1;
    }
}

impl Default for Position {
    fn default() -> (p: Self)
        ensures
            p.column == 0,
            p.row == 0,
    {
        Position { column: 0, row: 0 }
    }
}

/// A key, as far as the editor tells keys apart.
#[derive(Clone, Copy, Debug, PartialEq, Eq, Structural)]
pub enum KeyCode {
    Backspace,
    Enter,
    Left,
    Right,
    Up,
    Down,
    Home,
    End,
    PageUp,
    PageDown,
    Tab,
    BackTab,
    Delete,
    Insert,
    F(u8),
    Char(char),
    Null,
    Esc,
    /// Any other key (media keys, lone modifier keys, ...).
    Other,
}

/// The modifier keys held down with a key.
#[derive(Clone, Copy, Debug, PartialEq, Eq, Structural)]
pub struct Modifiers {
    pub shift: bool,
    pub control: bool,
    pub alt: bool,
    pub super_key: bool,
    pub hyper: bool,
    pub meta: bool,
}

impl Modifiers {
    pub open spec fn spec_is_empty(self) -> bool {
        !self.shift && !self.control && !self.alt && !self.super_key && !self.hyper && !self.meta
    }

    /// No modifier at all.
    pub fn none() -> (m: Self)
        ensures
            m.spec_is_empty(),
    {
        Modifiers {
            shift: false,
            control: false,
            alt: false,
            super_key: false,
            hyper: false,
            meta: false,
        }
    }

    /// Control and nothing else.
    pub fn control_only() -> (m: Self)
        ensures
            m.control,
            !m.shift && !m.alt && !m.super_key && !m.hyper && !m.meta,
    {
        Modifiers { control: true, ..Modifiers::none() }
    }

    pub fn is_empty(&self) -> (b: bool)
        ensures
            b == self.spec_is_empty(),
    {
        !self.shift && !self.control && !self.alt && !self.super_key && !self.hyper && !self.meta
    }

    pub fn is_control_only(&self) -> (b: bool)
        ensures
            b == (self.control && !self.shift && !self.alt && !self.super_key && !self.hyper
                && !self.meta),
    {
        self.control && !self.shift && !self.alt && !self.super_key && !self.hyper && !self.meta
    }
}

/// A key press: the key, the modifiers held with it, and how the key is
/// written in the key history.
#[derive(Debug)]
pub struct KeyStroke {
    pub code: KeyCode,
    pub modifiers: Modifiers,
    pub description: String,
}

impl Clone for KeyStroke {
    fn clone(&self) -> (k: Self)
        ensures
            k == *self,
    {
        KeyStroke {
            code: self.code,
            modifiers: self.modifiers,
            description: self.description.clone(),
        }
    }
}

/// An event from the terminal, as far as the editor tells events apart.
#[derive(Clone, Debug)]
pub enum Event {
    Key(KeyStroke),
    /// The terminal now has this many columns and rows.
    Resize(u16, u16),
    /// Focus changes, mouse events, pasted text.
    Other,
}

/// The keys that move the cursor or the viewport.
pub open spec fn is_navigation_key(key: KeyCode) -> bool {
    key is Up || key is Down || key is Left || key is Right || key is PageUp || key is PageDown
}

/// Where the cursor is and what part of the document the screen shows.
#[derive(Clone, Copy, Debug)]
pub struct NavigationModel {
    pub cursor: Position,
    pub screen_size: ScreenSize,
    pub viewport: EditingViewport,
}

impl NavigationModel {
    /// The document line under the cursor.
    pub open spec fn document_row(self) -> int {
        self.viewport.row_offset + self.cursor.row
    }

    /// The document column under the cursor.
    pub open spec fn document_column(self) -> int {
        self.viewport.column_offset + self.cursor.column
    }

    /// The cursor is inside the screen.
    pub open spec fn cursor_on_screen(self) -> bool {
        self.cursor.row < self.screen_size.rows && self.cursor.column < self.screen_size.columns
    }

    /// The state after `key` was pressed: arrow keys move the cursor one
    /// cell, or scroll the viewport one cell where the cursor is at that
    /// edge of the screen; page keys move by a screen height.
    pub open spec fn navigated(self, key: KeyCode) -> NavigationModel {
        let c = self.cursor;
        let v = self.viewport;
        let rows = self.screen_size.rows;
        let columns = self.screen_size.columns;
        match key {
            KeyCode::Up => if c.row == 0 {
                NavigationModel {
                    viewport: EditingViewport { row_offset: text::sat_sub(v.row_offset, 1), ..v },
                    ..self
                }
            } else {
                NavigationModel { cursor: Position { row: (c.row - 1) as usize, ..c }, ..self }
            },
            KeyCode::Down => if c.row == rows - 1 {
                NavigationModel {
                    viewport: EditingViewport { row_offset: (v.row_offset + 1) as usize, ..v },
                    ..self
                }
            } else {
                NavigationModel { cursor: Position { row: (c.row + 1) as usize, ..c }, ..self }
            },
            KeyCode::Left => if c.column == 0 {
                NavigationModel {
                    viewport: EditingViewport { column_offset: text::sat_sub(v.column_offset, 1), ..v },
                    ..self
                }
            } else {
                NavigationModel {
                    cursor: Position { column: (c.column - 1) as usize, ..c },
                    ..self
                }
            },
            KeyCode::Right => if c.column == columns - 1 {
                NavigationModel {
                    viewport: EditingViewport {
                        column_offset: (v.column_offset + 1) as usize,
                        ..v
                    },
                    ..self
                }
            } else {
                NavigationModel {
                    cursor: Position { column: (c.column + 1) as usize, ..c },
                    ..self
                }
            },
            KeyCode::PageUp => NavigationModel {
                cursor: Position { row: text::sat_sub(c.row, rows), ..c },
                viewport: EditingViewport {
                    row_offset: text::sat_sub(v.row_offset, text::sat_sub(rows, c.row)),
                    ..v
                },
                ..self
            },
            KeyCode::PageDown => NavigationModel {
                cursor: Position { row: (c.row + text::sat_sub(rows, c.row)) as usize, ..c },
                viewport: EditingViewport { row_offset: (v.row_offset + c.row) as usize, ..v },
                ..self
            },
            _ => self,
        }
    }

    /// The keys that `move_intended` handles, in the states where it
    /// neither underflows nor overflows.
    pub open spec fn move_permitted(self, key: KeyCode) -> bool {
        let c = self.cursor;
        let v = self.viewport;
        let rows = self.screen_size.rows;
        let columns = self.screen_size.columns;
        match key {
            KeyCode::Up => true,
            KeyCode::Down => rows > 0 && if c.row == rows - 1 {
                v.row_offset + 1 <= usize::MAX
            } else {
                c.row + 1 <= usize::MAX
            },
            KeyCode::Left => true,
            KeyCode::Right => columns > 0 && if c.column == columns - 1 {
                v.column_offset + 1 <= usize::MAX
            } else {
                c.column + 1 <= usize::MAX
            },
            KeyCode::PageUp => true,
            KeyCode::PageDown => v.row_offset + c.row <= usize::MAX && c.row + text::sat_sub(rows, c.row)
                <= usize::MAX,
            _ => false,
        }
    }

    pub fn is_topmost(&self) -> (b: bool)
        ensures
            b == (self.cursor.row == 0),
    {
        self.cursor.row == 0
    }

    pub fn is_bottommost(&self) -> (b: bool)
        requires
            self.screen_size.rows > 0,
        ensures
            b == (self.cursor.row == self.screen_size.rows - 1),
    {
        self.cursor.row == self.screen_size.rows - 1
    }

    pub fn is_leftmost(&self) -> (b: bool)
        ensures
            b == (self.cursor.column == 0),
    {
        self.cursor.column == 0
    }

    pub fn is_rightmost(&self) -> (b: bool)
        requires
            self.screen_size.columns > 0,
        ensures
            b == (self.cursor.column == self.screen_size.columns - 1),
    {
        self.cursor.column == self.screen_size.columns - 1
    }

    /// Whether `move_intended` handles `direction`.
    pub fn is_recognized(direction: &KeyCode) -> (b: bool)
        ensures
            b == is_navigation_key(*direction),
    {
        match direction {
            KeyCode::Up | KeyCode::Down | KeyCode::Left | KeyCode::Right | KeyCode::PageUp
            | KeyCode::PageDown => true,
            _ => false,
        }
    }

    /// Moves the cursor, or scrolls the viewport, as `direction` asks.
    pub fn move_intended(&mut self, direction: &KeyCode)
        requires
            old(self).move_permitted(*direction),
        ensures
            *final(self) == old(self).navigated(*direction),
    {
        match direction {
            KeyCode::Up => {
                if self.is_topmost() {
                    self.viewport.scroll_up(1)
                } else {
                    self.cursor.move_up(1)
                }
            },
            KeyCode::Down => {
                if self.is_bottommost() {
                    self.viewport.scroll_down(1)
                } else {
                    self.cursor.move_down(1)
                }
            },
            KeyCode::Left => {
                if self.is_leftmost() {
                    self.viewport.scroll_left(1)
                } else {
                    self.cursor.move_left()
                }
            },
            KeyCode::Right => {
                if self.is_rightmost() {
                    self.viewport.scroll_right(1)
                } else {
                    self.cursor.move_right()
                }
            },
            KeyCode::PageUp => {
                let page = self.screen_size.rows;
                let scroll_by = page.saturating_sub(self.cursor.row);
                self.cursor.move_up(page);
                self.viewport.scroll_up(scroll_by);
            },
            KeyCode::PageDown => {
                let page = self.screen_size.rows;
                let scroll_by = self.cursor.row;
                self.viewport.scroll_down(scroll_by);
                let move_by = page.saturating_sub(self.cursor.row);
                self.cursor.move_down(move_by);
            },
            _ => {},
        }
    }
}

impl Default for NavigationModel {
    fn default() -> (n: Self)
        ensures
            n.cursor.row == 0 && n.cursor.column == 0,
            n.screen_size.rows == 0 && n.screen_size.columns == 0,
            n.viewport.row_offset == 0 && n.viewport.column_offset == 0,
    {
        NavigationModel {
            cursor: Position::default(),
            screen_size: ScreenSize::default(),
            viewport: EditingViewport::default(),
        }
    }
}

/// An arrow key moves the document position under the cursor by exactly one
/// line or column (not past the document's first line or column), leaves
/// the other coordinate alone, and never changes the screen size.
pub proof fn lemma_arrow_moves_by_one(n: NavigationModel, key: KeyCode)
    requires
        n.move_permitted(key),
    ensures
        n.navigated(key).screen_size == n.screen_size,
        key is Up ==> n.navigated(key).document_row() == if n.document_row() > 0 {
            n.document_row() - 1
        } else {
            0
        } && n.navigated(key).document_column() == n.document_column(),
        key is Down ==> n.navigated(key).document_row() == n.document_row() + 1
            && n.navigated(key).document_column() == n.document_column(),
        key is Left ==> n.navigated(key).document_column() == if n.document_column() > 0 {
            n.document_column() - 1
        } else {
            0
        } && n.navigated(key).document_row() == n.document_row(),
        key is Right ==> n.navigated(key).document_column() == n.document_column() + 1
            && n.navigated(key).document_row() == n.document_row(),
{
}

/// Down followed by Up, and Right followed by Left, come back to the same
/// place in the document.
pub proof fn lemma_arrow_round_trip(n: NavigationModel)
    ensures
        n.move_permitted(KeyCode::Down) ==> {
            let m = n.navigated(KeyCode::Down).navigated(KeyCode::Up);
            m.document_row() == n.document_row() && m.document_column() == n.document_column()
        },
        n.move_permitted(KeyCode::Right) ==> {
            let m = n.navigated(KeyCode::Right).navigated(KeyCode::Left);
            m.document_row() == n.document_row() && m.document_column() == n.document_column()
        },
{
    if n.move_permitted(KeyCode::Down) {
        lemma_arrow_moves_by_one(n, KeyCode::Down);
        lemma_arrow_moves_by_one(n.navigated(KeyCode::Down), KeyCode::Up);
    }
    if n.move_permitted(KeyCode::Right) {
        lemma_arrow_moves_by_one(n, KeyCode::Right);
        lemma_arrow_moves_by_one(n.navigated(KeyCode::Right), KeyCode::Left);
    }
}

/// Arrow keys keep a cursor that is on the screen on the screen: at an edge
/// the viewport scrolls instead.
pub proof fn lemma_arrow_keeps_cursor_on_screen(n: NavigationModel, key: KeyCode)
    requires
        n.cursor_on_screen(),
        n.move_permitted(key),
        key is Up || key is Down || key is Left || key is Right,
    ensures
        n.navigated(key).cursor_on_screen(),
{
}

impl NavigationModel {
    /// Whether `move_intended(key)` may be called.
    pub fn can_move(&self, key: &KeyCode) -> (b: bool)
        ensures
            b == self.move_permitted(*key),
    {
        let c = self.cursor;
        let v = self.viewport;
        let rows = self.screen_size.rows;
        let columns = self.screen_size.columns;
        match key {
            KeyCode::Up | KeyCode::Left | KeyCode::PageUp => true,
            KeyCode::Down => rows > 0 && if c.row == rows - 1 {
                v.row_offset < usize::MAX
            } else {
                c.row < usize::MAX
            },
            KeyCode::Right => columns > 0 && if c.column == columns - 1 {
                v.column_offset < usize::MAX
            } else {
                c.column < usize::MAX
            },
            KeyCode::PageDown => c.row <= usize::MAX - v.row_offset && rows.saturating_sub(c.row)
                <= usize::MAX - c.row,
            _ => false,
        }
    }
}

/// The page keys move the document position under the cursor by a page.
/// PageUp moves it up by the screen height, stopping at the first line, and
/// puts the cursor that many rows higher (on the top row when it was within
/// a screen height of it); PageDown moves it down by the screen height, or by
/// the cursor's row when the cursor is below the screen, and puts the cursor
/// on the row below the screen's last row, or leaves it where it is below
/// that. Neither changes the column or the screen size.
pub proof fn lemma_page_keys_move_by_a_page(n: NavigationModel)
    ensures
        ({
            let m = n.navigated(KeyCode::PageUp);
            let rows = n.screen_size.rows as int;
            &&& m.document_row() == if n.document_row() >= rows {
                n.document_row() - rows
            } else {
                0
            }
            &&& m.cursor.row == if n.cursor.row >= rows {
                n.cursor.row - rows
            } else {
                0
            }
            &&& m.document_column() == n.document_column()
            &&& m.cursor.column == n.cursor.column
            &&& m.screen_size == n.screen_size
        }),
        n.move_permitted(KeyCode::PageDown) ==> {
            let m = n.navigated(KeyCode::PageDown);
            let rows = n.screen_size.rows as int;
            let row = n.cursor.row as int;
            &&& m.document_row() == n.document_row() + if row < rows {
                rows
            } else {
                row
            }
            &&& m.cursor.row == if row < rows {
                rows
            } else {
                row
            }
            &&& m.document_column() == n.document_column()
            &&& m.cursor.column == n.cursor.column
            &&& m.screen_size == n.screen_size
        },
{
}

} // verus!
