use vstd::prelude::*;
use vstd::utf8::*;
use crate::framing::utf8_string;
use crate::hover::CursorPos;
use crate::key::Key;
use crate::viewer::ViewerRect;

verus! {

/// The editor's modes: keys move and command, or they type.
#[derive(PartialEq, Eq, Clone, Copy, Debug, Structural)]
pub enum Mode {
    Normal,
    Insert,
}

/// What a key does in normal mode.
#[derive(PartialEq, Eq, Clone, Copy, Debug, Structural)]
pub enum NormalCommand {
    MoveDown,
    MoveUp,
    MoveLeft,
    MoveRight,
    EnterInsert,
    NextViewer,
    Hover,
}

pub open spec fn normal_command_of(key: Key) -> Option<NormalCommand> {
    if key == Key::Character(106) {
        Some(NormalCommand::MoveDown)
    } else if key == Key::Character(107) {
        Some(NormalCommand::MoveUp)
    } else if key == Key::Character(104) {
        Some(NormalCommand::MoveLeft)
    } else if key == Key::Character(108) {
        Some(NormalCommand::MoveRight)
    } else if key == Key::Character(105) {
        Some(NormalCommand::EnterInsert)
    } else if key == Key::Character(23) {
        Some(NormalCommand::NextViewer)
    } else if key == Key::Character(75) {
        Some(NormalCommand::Hover)
    } else {
        None
    }
}

/// The command of a key in normal mode: `hjkl` move, `i` types, control-W
/// goes to the next viewer, `K` asks for hover; other keys do nothing.
pub fn normal_command(key: Key) -> (r: Option<NormalCommand>)
    ensures
        r == normal_command_of(key),
{
    match key {
        Key::Character(106) => Some(NormalCommand::MoveDown),
        Key::Character(107) => Some(NormalCommand::MoveUp),
        Key::Character(104) => Some(NormalCommand::MoveLeft),
        Key::Character(108) => Some(NormalCommand::MoveRight),
        Key::Character(105) => Some(NormalCommand::EnterInsert),
        Key::Character(23) => Some(NormalCommand::NextViewer),
        Key::Character(75) => Some(NormalCommand::Hover),
        _ => None,
    }
}

/// What a key does in insert mode.
#[derive(Debug)]
pub enum InsertAction {
    /// Nothing yet (a byte of a character that is not complete, or a key
    /// with no meaning here).
    Nothing,
    LeaveInsert,
    Backspace,
    Newline,
    DoCompletion,
    CompletionPrev,
    CompletionNext,
    /// A whole character (or several) to type.
    Insert(String),
}

/// A key that is not a byte came in the middle of a character.
#[derive(Debug, Clone, Copy, PartialEq, Eq)]
pub struct BrokenCharacter;

/// Insert mode's keys: bytes of a character are collected until they make
/// UTF-8 text.
pub struct InsertInput {
    pending: Vec<u8>,
}

/// The action of a key in insert mode when no character is being collected.
pub open spec fn command_key(key: Key) -> Option<InsertAction> {
    if key == Key::Character(27) {
        Some(InsertAction::LeaveInsert)
    } else if key == Key::Character(127) {
        Some(InsertAction::Backspace)
    } else if key == Key::Character(13) {
        Some(InsertAction::Newline)
    } else if key == Key::Character(4) {
        Some(InsertAction::DoCompletion)
    } else if key == Key::ArrowUp {
        Some(InsertAction::CompletionPrev)
    } else if key == Key::ArrowDown {
        Some(InsertAction::CompletionNext)
    } else {
        None
    }
}

/// The bytes collected after a key, when it is not a command and breaks
/// nothing: a byte goes on a character begun; a printable byte begins one.
pub open spec fn collected(pending: Seq<u8>, key: Key) -> Option<Seq<u8>> {
    if pending.len() > 0 {
        match key {
            Key::Character(b) => Some(pending.push(b)),
            _ => None,
        }
    } else if command_key(key) is None {
        match key {
            Key::Character(b) => if b >= 32 {
                Some(seq![b])
            } else {
                Some(Seq::<u8>::empty())
            },
            _ => Some(Seq::<u8>::empty()),
        }
    } else {
        None
    }
}

impl InsertInput {
    /// The bytes collected of a character not yet complete.
    pub closed spec fn spec_pending(&self) -> Seq<u8> {
        self.pending@
    }

    pub fn new() -> (r: InsertInput)
        ensures
            r.spec_pending() == Seq::<u8>::empty(),
    {
        InsertInput { pending: Vec::new() }
    }

    /// Takes one key in insert mode. While a character is being collected,
    /// only bytes may come. Otherwise escape leaves insert mode, backspace,
    /// return, control-D and the up and down arrows are commands, and a
    /// printable byte starts a character. Once the collected bytes are UTF-8
    /// they are typed, and the collection starts afresh.
    pub fn feed(&mut self, key: Key) -> (r: Result<InsertAction, BrokenCharacter>)
        ensures
            old(self).spec_pending().len() > 0 && !(key is Character) ==> r is Err
                && final(self).spec_pending() == old(self).spec_pending(),
            old(self).spec_pending().len() == 0 && command_key(key) is Some ==> (r matches Ok(a)
                && Some(a) == command_key(key) && final(self).spec_pending() == Seq::<u8>::empty()),
            collected(old(self).spec_pending(), key) matches Some(c) ==> if c.len() > 0
                && valid_utf8(c) {
                r matches Ok(InsertAction::Insert(s)) && s@ == decode_utf8(c)
                    && final(self).spec_pending() == Seq::<u8>::empty()
            } else {
                r matches Ok(InsertAction::Nothing) && final(self).spec_pending() == c
            },
    {
        if self.pending.len() > 0 {
            match key {
                Key::Character(b) => {
                    self.pending.push(b);
                },
                _ => {
                    return Err(BrokenCharacter);
                },
            }
        } else if key == Key::Character(27) {
            return Ok(InsertAction::LeaveInsert);
        } else if key == Key::Character(127) {
            return Ok(InsertAction::Backspace);
        } else if key == Key::Character(13) {
            return Ok(InsertAction::Newline);
        } else if key == Key::Character(4) {
            return Ok(InsertAction::DoCompletion);
        } else if key == Key::ArrowUp {
            return Ok(InsertAction::CompletionPrev);
        } else if key == Key::ArrowDown {
            return Ok(InsertAction::CompletionNext);
        } else {
            match key {
                Key::Character(b) => {
                    if b >= 32 {
                        self.pending.push(b);
                        assert(self.pending@ =~= seq![b]);
                    }
                },
                _ => {},
            }
        }
        if self.pending.len() == 0 {
            return Ok(InsertAction::Nothing);
        }
        let mut bytes: Vec<u8> = Vec::new();
        let mut i: usize = 0;
        while i < self.pending.len()
            invariant
                0 <= i <= self.pending@.len(),
                bytes@ == self.pending@.subrange(0, i as int),
            decreases self.pending@.len() - i,
        {
            bytes.push(self.pending[i]);
            i = i + 1;
            proof {
                assert(bytes@ =~= self.pending@.subrange(0, i as int));
            }
        }
        proof {
            assert(bytes@ =~= self.pending@);
        }
        match utf8_string(bytes) {
            Some(s) => {
                self.pending.clear();
                Ok(InsertAction::Insert(s))
            },
            None => Ok(InsertAction::Nothing),
        }
    }
}

/// Scrolls as little as it takes to bring the cursor into view: the new top
/// line and left column.
pub fn fix_top_left(top: usize, left: usize, cursor: CursorPos, rect: &ViewerRect) -> (r: (
    usize,
    usize,
))
    requires
        rect.h > 0,
        rect.w > 0,
    ensures
        r.0 <= cursor.0 < r.0 + rect.h,
        r.1 <= cursor.1 < r.1 + rect.w,
        top <= cursor.0 < top + rect.h ==> r.0 == top,
        cursor.0 < top ==> r.0 == cursor.0,
        cursor.0 >= top + rect.h ==> r.0 + rect.h == cursor.0 + 1,
        left <= cursor.1 < left + rect.w ==> r.1 == left,
        cursor.1 < left ==> r.1 == cursor.1,
        cursor.1 >= left + rect.w ==> r.1 + rect.w == cursor.1 + 1,
{
    let mut top = top;
    let mut left = left;
    if top > cursor.0 {
        top = cursor.0;
    }
    if cursor.0 - top >= rect.h {
        top = cursor.0 - rect.h + 1;
    }
    if left > cursor.1 {
        left = cursor.1;
    }
    if cursor.1 - left >= rect.w {
        left = cursor.1 - rect.w + 1;
    }
    (top, left)
}

/// The next item of a list of `len`, round to the first.
pub fn select_next(select: usize, len: usize) -> (r: usize)
    requires
        len > 0,
        select < len,
    ensures
        r == (select + 1) % (len as int),
{
    if select + 1 == len {
        assert((len as int) % (len as int) == 0) by (nonlinear_arith)
            requires
                len > 0,
        ;
        0
    } else {
        proof {
            vstd::arithmetic::div_mod::lemma_small_mod((select + 1) as nat, len as nat);
        }
        select + 1
    }
}

/// The previous item of a list of `len`, round to the last.
pub fn select_prev(select: usize, len: usize) -> (r: usize)
    requires
        len > 0,
        select < len,
    ensures
        r == (select + len - 1) % (len as int),
{
    if select == 0 {
        proof {
            vstd::arithmetic::div_mod::lemma_small_mod((len - 1) as nat, len as nat);
        }
        len - 1
    } else {
        assert((select + len - 1) % (len as int) == select - 1) by (nonlinear_arith)
            requires
                0 < select < len,
        {
            vstd::arithmetic::div_mod::lemma_mod_add_multiples_vanish((select - 1) as int, len as int);
            vstd::arithmetic::div_mod::lemma_small_mod((select - 1) as nat, len as nat);
        }
        select - 1
    }
}

/// Scrolls a list of `h` rows as little as it takes to show the selected item.
pub fn fix_top(x: usize, select: usize, h: usize) -> (r: usize)
    requires
        h > 0,
    ensures
        r <= select < r + h,
        x <= select < x + h ==> r == x,
        select < x ==> r == select,
        select >= x + h ==> r + h == select + 1,
{
    let mut x = x;
    if x > select {
        x = select;
    }
    if select - x >= h {
        x = select - h + 1;
    }
    x
}

/// One column left, where there is one.
pub fn move_left(cursor: CursorPos) -> (r: CursorPos)
    ensures
        r.0 == cursor.0,
        r.1 == if cursor.1 > 0 {
            cursor.1 - 1
        } else {
            0
        },
{
    if cursor.1 > 0 {
        (cursor.0, cursor.1 - 1)
    } else {
        cursor
    }
}

/// One column right, while that stays before the line's last character (its
/// line break).
pub fn move_right(cursor: CursorPos, line_len: usize) -> (r: CursorPos)
    ensures
        r.0 == cursor.0,
        r.1 == if cursor.1 + 1 < line_len {
            cursor.1 + 1
        } else {
            cursor.1 as int
        },
{
    if cursor.1 < line_len && line_len - cursor.1 > 1 {
        (cursor.0, cursor.1 + 1)
    } else {
        cursor
    }
}

/// The row above, where there is one.
pub fn row_above(row: usize) -> (r: usize)
    ensures
        r == if row > 0 {
            row - 1
        } else {
            0
        },
{
    if row > 0 {
        row - 1
    } else {
        0
    }
}

/// The row below, while that stays before the last line of `len_lines`.
pub fn row_below(row: usize, len_lines: usize) -> (r: usize)
    ensures
        r == if row + 2 < len_lines {
            row + 1
        } else {
            row as int
        },
{
    if len_lines >= 2 && row < len_lines - 2 {
        row + 1
    } else {
        row
    }
}

/// The column kept on a line of `line_len` characters: at most the column of
/// its last character.
pub fn clamp_column(col: usize, line_len: usize) -> (r: usize)
    ensures
        line_len == 0 ==> r == 0,
        line_len > 0 ==> r == if col < line_len - 1 {
            col as int
        } else {
            line_len - 1
        },
{
    if line_len == 0 {
        0
    } else if col < line_len - 1 {
        col
    } else {
        line_len - 1
    }
}

/// What a backspace does to a buffer: the characters removed (a range of
/// character indices), where the cursor goes, and the range of the document
/// that the change covers, as the cursor positions before and after.
#[derive(Debug, Clone, Copy, PartialEq, Eq)]
pub struct BackspaceEdit {
    pub remove_start: usize,
    pub remove_end: usize,
    pub cursor: CursorPos,
    pub change_start: CursorPos,
    pub change_end: CursorPos,
}

/// A backspace at `cursor`, where `line_start` is the character index of the
/// cursor's line and `prev_line_len` the length of the line above (with its
/// line break). At a line's start it joins the line to the one above; at the
/// very start it does nothing.
pub fn backspace_edit(cursor: CursorPos, line_start: usize, prev_line_len: usize) -> (r: Option<
    BackspaceEdit,
>)
    requires
        cursor.1 == 0 && cursor.0 > 0 ==> line_start > 0 && prev_line_len > 0,
        line_start + cursor.1 <= usize::MAX,
    ensures
        cursor.1 == 0 && cursor.0 == 0 ==> r is None,
        cursor.1 == 0 && cursor.0 > 0 ==> r == Some(
            BackspaceEdit {
                remove_start: (line_start - 1) as usize,
                remove_end: line_start,
                cursor: ((cursor.0 - 1) as usize, (prev_line_len - 1) as usize),
                change_start: ((cursor.0 - 1) as usize, (prev_line_len - 1) as usize),
                change_end: cursor,
            },
        ),
        cursor.1 > 0 ==> r == Some(
            BackspaceEdit {
                remove_start: (line_start + cursor.1 - 1) as usize,
                remove_end: (line_start + cursor.1) as usize,
                cursor: (cursor.0, (cursor.1 - 1) as usize),
                change_start: (cursor.0, (cursor.1 - 1) as usize),
                change_end: cursor,
            },
        ),
{
    if cursor.1 == 0 {
        if cursor.0 == 0 {
            None
        } else {
            let to = (cursor.0 - 1, prev_line_len - 1);
            Some(
                BackspaceEdit {
                    remove_start: line_start - 1,
                    remove_end: line_start,
                    cursor: to,
                    change_start: to,
                    change_end: cursor,
                },
            )
        }
    } else {
        let at = line_start + cursor.1;
        let to = (cursor.0, cursor.1 - 1);
        Some(BackspaceEdit { remove_start: at - 1, remove_end: at, cursor: to, change_start: to, change_end: cursor })
    }
}

} // verus!
