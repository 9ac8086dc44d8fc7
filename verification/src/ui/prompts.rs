//! Sizing and scrolling arithmetic of the prompt screens, and the decision
//! each keystroke of the multi-line editor prompt leads to.

use vstd::prelude::*;
use crate::text::{chars_of, is_empty_str, owned, string_of};
use crate::ui::text_area::{
    cursor_position, key_action, key_cursor, key_text, lemma_wrap_text_laws, string_rows, wrap_spec, wrap_text, wrapped_cursor_position,
    EditorKey, EditorKeyEvent, TextArea, TextAreaAction, TextAreaLayout,
};
use crate::utils::{trim_chars, trim_end_char};
use crate::utils::{lines, lines_of};

verus! {

/// How a prompt screen ended: a value submitted, a step back, or quitting.
#[derive(Debug, Clone, PartialEq, Eq)]
pub enum PromptOutcome<T> {
    /// The user confirmed this value.
    Submitted(T),
    /// The user asked for the previous step.
    Back,
    /// The user asked to quit.
    Quit,
}

/// The height of a prompt's title block: every line of the message plus two
/// border rows, never below 5.
pub open spec fn block_height(line_count: nat) -> int {
    let n: int = if line_count == 0 { 1 } else { line_count as int };
    if n + 2 < 5 { 5 } else { n + 2 }
}

/// Compute the height of a prompt's title block so that every line of the
/// `message` is visible. The result includes the two border rows and is
/// floor-clamped to 5 so a one-line message still has three inner rows.
pub fn prompt_block_height(message: &str) -> (h: u16)
    requires
        lines(message@).len() <= 65533,
    ensures
        h == block_height(lines(message@).len()),
{
    let ls = lines_of(message);
    proof {
        assert(ls@.len() == lines(message@).len());
    }
    let n = if ls.len() == 0 { 1 } else { ls.len() };
    let total = (n as u16) + 2;
    if total < 5 { 5 } else { total }
}

/// Height of the editor block for `line_count` wrapped lines: the lines plus
/// the two borders, saturating at `u16::MAX`, never below a single-line box.
pub open spec fn editor_block_height(line_count: usize) -> int {
    let lines = if line_count > 65535 { 65535 } else { line_count as int };
    let with_borders = if lines + 2 > 65535 { 65535 } else { lines + 2 };
    if with_borders < 3 { 3 } else { with_borders }
}

/// Height of the editor block for `line_count` wrapped lines: the lines
/// themselves plus the block's two borders, never smaller than a single-line
/// input so a short value does not render a cramped box.
pub fn text_area_block_height(line_count: usize) -> (h: u16)
    ensures
        h == editor_block_height(line_count),
{
    let lines: u16 = if line_count > 65535 { 65535 } else { line_count as u16 };
    let with_borders: u16 = if lines > 65533 { 65535 } else { lines + 2 };
    if with_borders < 3 { 3 } else { with_borders }
}

/// The first wrapped row to draw so the cursor's row stays on screen.
pub open spec fn scroll_for(cursor_row: usize, visible_rows: usize) -> int {
    let last_visible = if visible_rows == 0 { 0 } else { visible_rows - 1 };
    let s = if cursor_row < last_visible { 0 } else { cursor_row - last_visible };
    if s > 65535 { 65535 } else { s }
}

/// First wrapped row to draw, so the cursor's row stays on screen when the
/// value is taller than the block. Scrolls the minimum needed rather than
/// centering, which keeps the view still while the user types.
pub fn text_area_scroll(cursor_row: usize, visible_rows: usize) -> (s: u16)
    ensures
        s == scroll_for(cursor_row, visible_rows),
        cursor_row < visible_rows ==> s == 0,
        visible_rows > 0 && cursor_row >= visible_rows && cursor_row - visible_rows < 65535 ==>
            s <= cursor_row < s + visible_rows,
{
    let last_visible = if visible_rows == 0 { 0 } else { visible_rows - 1 };
    let s = if cursor_row < last_visible { 0 } else { cursor_row - last_visible };
    if s > 65535 { 65535 } else { s as u16 }
}

/// What one keystroke of the multi-line editor prompt leads to: the editor
/// updated, and the screen's outcome once the key ends it (the submitted
/// value on Enter, a step back on Esc, quitting on Ctrl+C).
pub fn text_area_prompt_step(editor: &mut TextArea, event: EditorKeyEvent, layout: TextAreaLayout) -> (res: Option<PromptOutcome<String>>)
    ensures
        final(editor).text() == key_text(old(editor).text(), old(editor).at() as int, event, layout.width as int),
        final(editor).at() == key_cursor(old(editor).text(), old(editor).at() as int, event, layout.width as int),
        match key_action(event) {
            TextAreaAction::Submit => res matches Some(PromptOutcome::Submitted(v)) && v@ == final(editor).text(),
            TextAreaAction::Cancel => res == Some(PromptOutcome::<String>::Back),
            TextAreaAction::Quit => res == Some(PromptOutcome::<String>::Quit),
            TextAreaAction::Continue => res is None,
        },
{
    match editor.handle_key(event, layout) {
        TextAreaAction::Submit => Some(PromptOutcome::Submitted(crate::text::owned(editor.value()))),
        TextAreaAction::Cancel => Some(PromptOutcome::Back),
        TextAreaAction::Quit => Some(PromptOutcome::Quit),
        TextAreaAction::Continue => None,
    }
}

/// What one frame of the multi-line editor prompt shows in a screen area
/// `area_width` columns wide: the width text wraps at (inside the block's
/// borders), the rows to draw, and the height the editor block asks for.
pub struct TextAreaFrame {
    /// The layout the next keystroke is handled with.
    pub layout: TextAreaLayout,
    /// The wrapped rows, each without the line break that ended it (drawing
    /// it would show a stray glyph at the end of the row).
    pub rows: Vec<String>,
    /// The editor block's requested height.
    pub block_height: u16,
}

/// The rows of `value` wrapped at `width` as drawn: without line breaks.
pub open spec fn drawn_rows(value: Seq<char>, width: int) -> Seq<Seq<char>> {
    wrap_spec(value, width).map_values(|r: Seq<char>| trim_end_char(r, '\n'))
}

/// The frame of the editor prompt for `value` in an area `area_width`
/// columns wide. The editor spans the full width, so the wrap width is known
/// before the screen is split and the block can be sized from the row count.
pub fn text_area_frame(value: &str, area_width: u16) -> (f: TextAreaFrame)
    ensures
        f.layout.width == (if area_width >= 2 { area_width - 2 } else { 0 }),
        f.block_height == editor_block_height(wrap_spec(value@, f.layout.width as int).len() as usize),
        f.rows@.map_values(|r: String| r@) == drawn_rows(value@, f.layout.width as int),
{
    let width: usize = if area_width >= 2 { (area_width - 2) as usize } else { 0 };
    let lines = wrap_text(value, width);
    let ghost rv = string_rows(lines@);
    let block_height = text_area_block_height(lines.len());
    proof {
        assert(rv.len() == lines@.len());
    }
    let mut rows: Vec<String> = Vec::new();
    let mut i: usize = 0;
    while i < lines.len()
        invariant
            i <= lines.len(),
            rv == string_rows(lines@),
            rows@.map_values(|r: String| r@) == rv.take(i as int).map_values(|r: Seq<char>| trim_end_char(r, '\n')),
        decreases lines.len() - i,
    {
        let v = chars_of(lines[i].as_str());
        let t = trim_chars(&v, false, '\n', false, true);
        let row = string_of(t.as_slice());
        proof {
            assert(rv[i as int] == lines@[i as int]@);
            assert(rows@.push(row).map_values(|r: String| r@) =~= rows@.map_values(|r: String| r@).push(row@));
            assert(rv.take(i + 1).map_values(|r: Seq<char>| trim_end_char(r, '\n'))
                =~= rv.take(i as int).map_values(|r: Seq<char>| trim_end_char(r, '\n')).push(trim_end_char(rv[i as int], '\n')));
        }
        rows.push(row);
        i = i + 1;
    }
    proof {
        assert(rv.take(lines.len() as int) =~= rv);
    }
    TextAreaFrame { layout: TextAreaLayout { width }, rows, block_height }
}

/// Where the terminal cursor goes in an editor block at column `x`, row
/// `y`, `width` by `height` cells, for a cursor on wrapped row `row`,
/// column `column`, with the view scrolled by `scroll` rows: one cell in
/// from the borders, the column held inside the block; none when the block
/// has no room for a row. A cell past the screen's coordinates is not
/// drawn.
pub open spec fn cursor_cell(x: u16, y: u16, width: u16, height: u16, row: usize, column: usize, scroll: u16) -> Option<(int, int)> {
    if height < 3 {
        None
    } else {
        let r = if row > 65535 { 65535 } else { row as int };
        let shown = if r < scroll { 0 } else { r - scroll };
        let c = if column > 65535 { 65535 } else { column as int };
        let room = if width >= 2 { width - 2 } else { 0 };
        Some((x + 1 + (if c < room { c } else { room }), y + 1 + shown))
    }
}

/// Where the editor prompt scrolls to and puts the terminal cursor, for a
/// cursor at `cursor` in `value` wrapped at `wrap_width`, in the editor
/// block the screen actually granted (a short terminal grants less than was
/// asked for, and the cursor has to stay inside it).
pub fn text_area_cursor(value: &str, cursor: usize, wrap_width: usize, x: u16, y: u16, width: u16, height: u16) -> (r: (u16, Option<(u16, u16)>))
    ensures
        ({
            let pos = cursor_position(wrap_spec(value@, wrap_width as int), cursor as int, wrap_width as int);
            let visible = if height >= 2 { (height - 2) as usize } else { 0usize };
            &&& r.0 == scroll_for(pos.0 as usize, visible)
            &&& match cursor_cell(x, y, width, height, pos.0 as usize, pos.1 as usize, r.0) {
                Some((cx, cy)) => if cx <= u16::MAX && cy <= u16::MAX { r.1 == Some((cx as u16, cy as u16)) } else { r.1 is None },
                None => r.1 is None,
            }
        }),
{
    let chars = chars_of(value);
    let lines = wrap_text(value, wrap_width);
    proof {
        lemma_wrap_text_laws(value@, wrap_width as int);
        assert(chars@.len() <= usize::MAX);
    }
    let (row, column) = wrapped_cursor_position(lines.as_slice(), cursor, wrap_width);
    let visible: usize = if height >= 2 { (height - 2) as usize } else { 0 };
    let scroll = text_area_scroll(row, visible);
    if visible == 0 {
        return (scroll, None);
    }
    let r: u16 = if row > 65535 { 65535 } else { row as u16 };
    let shown: u16 = if r < scroll { 0 } else { r - scroll };
    let c: u16 = if column > 65535 { 65535 } else { column as u16 };
    let room: u16 = if width >= 2 { width - 2 } else { 0 };
    let col: u16 = if c < room { c } else { room };
    let cx = (x as u32) + 1 + (col as u32);
    let cy = (y as u32) + 1 + (shown as u32);
    if cx > 65535 || cy > 65535 {
        return (scroll, None);
    }
    (scroll, Some((cx as u16, cy as u16)))
}

/// What a key does on a note screen: Enter continues, Esc goes back,
/// Ctrl+C quits; any other key is ignored.
pub fn note_key(e: EditorKeyEvent) -> (r: Option<PromptOutcome<()>>)
    ensures
        r == (if e.ctrl && e.key == EditorKey::Char('c') {
            Some(PromptOutcome::Quit)
        } else if e.key == EditorKey::Enter {
            Some(PromptOutcome::Submitted(()))
        } else if e.key == EditorKey::Esc {
            Some(PromptOutcome::Back)
        } else {
            None
        }),
{
    if e.ctrl && e.key == EditorKey::Char('c') {
        Some(PromptOutcome::Quit)
    } else if e.key == EditorKey::Enter {
        Some(PromptOutcome::Submitted(()))
    } else if e.key == EditorKey::Esc {
        Some(PromptOutcome::Back)
    } else {
        None
    }
}

/// What the value row of a one-line prompt shows.
#[derive(Debug, Clone, PartialEq, Eq)]
pub enum ValueLine {
    /// The value typed so far.
    Value(String),
    /// The placeholder, shown while nothing is typed.
    Placeholder(String),
    /// Nothing.
    Blank,
}

/// What the value row of a one-line prompt shows: the value, or while it
/// is empty the placeholder when there is one.
pub fn value_line(value: &str, placeholder: Option<&str>) -> (r: ValueLine)
    ensures
        value@.len() > 0 ==> (r matches ValueLine::Value(v) && v@ == value@),
        value@.len() == 0 ==> match placeholder {
            Some(p) => r matches ValueLine::Placeholder(q) && q@ == p@,
            None => r is Blank,
        },
{
    if !is_empty_str(value) {
        ValueLine::Value(owned(value))
    } else {
        match placeholder {
            Some(p) => ValueLine::Placeholder(owned(p)),
            None => ValueLine::Blank,
        }
    }
}

} // verus!
