use vstd::prelude::*;
use vstd::string::StrSliceExecFns;
use vstd::utf8::encode_utf8;
use crate::terminal::{cursor_seq, Terminal};

verus! {

/// The part of the screen a viewer draws in: its size and its top-left corner.
#[derive(Debug, Clone, Copy, PartialEq, Eq, Structural)]
pub struct ViewerRect {
    pub h: usize,
    pub w: usize,
    pub i: usize,
    pub j: usize,
}

/// The lines that ropey splits a text into, each with its line break.
pub uninterp spec fn rope_lines_of(text: Seq<char>) -> Seq<Seq<char>>;

/// Relies on `ropey::Rope::from_str` and `Rope::lines`: the text's lines, as
/// ropey splits them.
#[verifier::external_body]
pub(crate) fn rope_lines(text: &str) -> (r: Vec<String>)
    ensures
        lines_view(r@) == rope_lines_of(text@),
{
    ropey::Rope::from_str(text).lines().map(|l| l.to_string()).collect()
}

/// The window that shows a hover answer's text.
pub struct HoverViewer {
    s: String,
}

impl HoverViewer {
    pub closed spec fn spec_text(&self) -> Seq<char> {
        self.s@
    }

    pub fn new(s: String) -> (r: HoverViewer)
        ensures
            r.spec_text() == s@,
    {
        HoverViewer { s }
    }

    pub fn empty() -> (r: HoverViewer)
        ensures
            r.spec_text() == Seq::<char>::empty(),
    {
        HoverViewer { s: String::new() }
    }

    /// Draws the text's lines into the rect, from its first line and column;
    /// an empty text draws nothing.
    pub fn draw_all(&self, rect: &ViewerRect, terminal: &mut Terminal)
        requires
            rect.i + rect.h < usize::MAX,
            rect.j < usize::MAX,
        ensures
            final(terminal)@ == old(terminal)@ + if self.spec_text().len() == 0 {
                Seq::<u8>::empty()
            } else {
                rows_bytes(rope_lines_of(self.spec_text()), *rect, 0, 0, None, rect.h as nat)
            },
            final(terminal).spec_height() == old(terminal).spec_height(),
            final(terminal).spec_width() == old(terminal).spec_width(),
    {
        if self.s.as_str().unicode_len() == 0 {
            proof {
                assert(terminal@ =~= old(terminal)@ + Seq::<u8>::empty());
            }
            return;
        }
        let lines = rope_lines(self.s.as_str());
        draw_lines(terminal, &lines, rect, 0, 0, None);
    }

    /// The text shown.
    pub fn text(&self) -> (r: &str)
        ensures
            r@ == self.spec_text(),
    {
        self.s.as_str()
    }
}

/// The part of a line shown from column `left` in `w` columns; a line's last
/// character (its line break) is never shown.
pub open spec fn visible_part(line: Seq<char>, left: nat, w: nat) -> Option<Seq<char>> {
    if line.len() > 0 && left <= line.len() - 1 {
        let end: int = if line.len() - 1 < left + w {
            line.len() - 1
        } else {
            (left + w) as int
        };
        Some(line.subrange(left as int, end))
    } else {
        None
    }
}

/// What drawing row `k` of the rect writes: nothing past the last line;
/// else the cursor moved to the row's start, then, where some of the line
/// shows, the selection mark (when there is a selection) and the text.
pub open spec fn row_bytes(
    lines: Seq<Seq<char>>,
    rect: ViewerRect,
    top: nat,
    left: nat,
    selected: Option<nat>,
    k: nat,
) -> Seq<u8> {
    if top + k >= lines.len() {
        Seq::empty()
    } else {
        cursor_seq((rect.i + k) as nat, rect.j as nat) + match visible_part(
            lines[(top + k) as int],
            left,
            rect.w as nat,
        ) {
            None => Seq::empty(),
            Some(part) => match selected {
                None => encode_utf8(part),
                Some(sel) => if sel == top + k {
                    seq![62u8] + encode_utf8(part)
                } else {
                    seq![32u8] + encode_utf8(part)
                },
            },
        }
    }
}

/// What drawing the first `n` rows writes.
pub open spec fn rows_bytes(
    lines: Seq<Seq<char>>,
    rect: ViewerRect,
    top: nat,
    left: nat,
    selected: Option<nat>,
    n: nat,
) -> Seq<u8>
    decreases n,
{
    if n == 0 {
        Seq::empty()
    } else {
        rows_bytes(lines, rect, top, left, selected, (n - 1) as nat) + row_bytes(
            lines,
            rect,
            top,
            left,
            selected,
            (n - 1) as nat,
        )
    }
}

pub open spec fn lines_view(lines: Seq<String>) -> Seq<Seq<char>> {
    lines.map_values(|l: String| l@)
}

pub open spec fn selected_view(selected: Option<usize>) -> Option<nat> {
    match selected {
        Some(s) => Some(s as nat),
        None => None,
    }
}

/// Draws the lines from `top` on into the rect, each from column `left`,
/// marking the selected line when there is a selection.
pub fn draw_lines(
    terminal: &mut Terminal,
    lines: &Vec<String>,
    rect: &ViewerRect,
    top: usize,
    left: usize,
    selected: Option<usize>,
)
    requires
        rect.i + rect.h < usize::MAX,
        rect.j < usize::MAX,
        top + rect.h <= usize::MAX,
        left + rect.w <= usize::MAX,
    ensures
        final(terminal)@ == old(terminal)@ + rows_bytes(
            lines_view(lines@),
            *rect,
            top as nat,
            left as nat,
            selected_view(selected),
            rect.h as nat,
        ),
        final(terminal).spec_height() == old(terminal).spec_height(),
        final(terminal).spec_width() == old(terminal).spec_width(),
{
    let ghost lv = lines_view(lines@);
    let mut k: usize = 0;
    while k < rect.h
        invariant
            0 <= k <= rect.h,
            rect.i + rect.h < usize::MAX,
            rect.j < usize::MAX,
            top + rect.h <= usize::MAX,
            left + rect.w <= usize::MAX,
            lv == lines_view(lines@),
            terminal@ == old(terminal)@ + rows_bytes(lv, *rect, top as nat, left as nat, selected_view(selected), k as nat),
            terminal.spec_height() == old(terminal).spec_height(),
            terminal.spec_width() == old(terminal).spec_width(),
        decreases rect.h - k,
    {
        let ghost before = terminal@;
        let i = top + k;
        if i < lines.len() {
            terminal.set_cursor(rect.i + k, rect.j);
            let line = lines[i].as_str();
            assert(line@ == lv[i as int]);
            let len = line.unicode_len();
            if len > 0 && left <= len - 1 {
                let end = if len - 1 < left + rect.w {
                    len - 1
                } else {
                    left + rect.w
                };
                match selected {
                    None => {},
                    Some(sel) => {
                        let mark: Vec<u8> = if sel == i {
                            vec![62]
                        } else {
                            vec![32]
                        };
                        terminal.write(mark.as_slice());
                    },
                }
                let part = line.substring_char(left, end);
                terminal.write(part.as_bytes());
            }
        }
        proof {
            assert(terminal@ =~= before + row_bytes(lv, *rect, top as nat, left as nat, selected_view(selected), k as nat));
        }
        k = k + 1;
    }
}

} // verus!
