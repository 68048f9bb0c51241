use vstd::prelude::*;
use vstd::string::StrSliceExecFns;
use crate::hover::CursorPos;

verus! {

/// A position as the protocol holds it: line and character.
#[derive(Debug, Clone, Copy, PartialEq, Eq, Structural)]
pub struct Position {
    pub line: u32,
    pub character: u32,
}

/// One change to a document: the range it replaces (the whole document when
/// there is none) and the text put there.
pub struct ContentChange {
    pub range: Option<(Position, Position)>,
    pub text: String,
}

/// Where the cursor ends up after typing `text` at `start`: a line feed goes
/// to the start of the next line, any other character one column on.
pub open spec fn cursor_after(start: (int, int), text: Seq<char>) -> (int, int)
    decreases text.len(),
{
    if text.len() == 0 {
        start
    } else {
        let before = cursor_after(start, text.drop_last());
        if text.last() == '\n' {
            (before.0 + 1, 0)
        } else {
            (before.0, before.1 + 1)
        }
    }
}

proof fn lemma_cursor_after_bounded(start: (int, int), text: Seq<char>)
    requires
        start.1 >= 0,
    ensures
        cursor_after(start, text).0 <= start.0 + text.len(),
        cursor_after(start, text).1 <= start.1 + text.len(),
        cursor_after(start, text).0 >= start.0,
        cursor_after(start, text).1 >= 0,
    decreases text.len(),
{
    if text.len() > 0 {
        lemma_cursor_after_bounded(start, text.drop_last());
    }
}

/// The cursor after `text` is put in at `start`.
pub fn advance_cursor(start: CursorPos, text: &str) -> (r: CursorPos)
    requires
        start.0 + text@.len() <= usize::MAX,
        start.1 + text@.len() <= usize::MAX,
    ensures
        (r.0 as int, r.1 as int) == cursor_after((start.0 as int, start.1 as int), text@),
{
    let ghost s = (start.0 as int, start.1 as int);
    let n = text.unicode_len();
    let mut cur = start;
    let mut i: usize = 0;
    while i < n
        invariant
            n == text@.len(),
            s == (start.0 as int, start.1 as int),
            0 <= i <= n,
            start.0 + n <= usize::MAX,
            start.1 + n <= usize::MAX,
            (cur.0 as int, cur.1 as int) == cursor_after(s, text@.subrange(0, i as int)),
        decreases n - i,
    {
        proof {
            lemma_cursor_after_bounded(s, text@.subrange(0, i as int));
            assert(text@.subrange(0, i + 1).drop_last() =~= text@.subrange(0, i as int));
        }
        let c = text.get_char(i);
        if c == '\n' {
            cur = (cur.0 + 1, 0);
        } else {
            cur = (cur.0, cur.1 + 1);
        }
        i = i + 1;
    }
    proof {
        assert(text@.subrange(0, n as int) =~= text@);
    }
    cur
}

/// The `textDocument/didChange` notification being put together: the
/// document, its new version, and the changes in order.
pub struct DidChangeNotifyBuilder {
    pub uri: String,
    pub version: i32,
    pub changes: Vec<ContentChange>,
}

/// A cursor as a protocol position: each coordinate cut to 32 bits.
pub open spec fn position_of(p: CursorPos) -> Position {
    Position {
        line: (p.0 as int % 0x1_0000_0000) as u32,
        character: (p.1 as int % 0x1_0000_0000) as u32,
    }
}

fn to_position(p: CursorPos) -> (r: Position)
    ensures
        r == position_of(p),
{
    let line = (p.0 as u64 % 0x1_0000_0000) as u32;
    let character = (p.1 as u64 % 0x1_0000_0000) as u32;
    Position { line, character }
}

impl DidChangeNotifyBuilder {
    pub fn new(uri: String, version: i32) -> (r: DidChangeNotifyBuilder)
        ensures
            r.uri == uri,
            r.version == version,
            r.changes@.len() == 0,
    {
        DidChangeNotifyBuilder { uri, version, changes: Vec::new() }
    }

    /// The whole document is now `full_text`.
    pub fn full(self, full_text: String) -> (r: DidChangeNotifyBuilder)
        ensures
            r.uri == self.uri,
            r.version == self.version,
            r.changes@.len() == self.changes@.len() + 1,
            r.changes@.drop_last() == self.changes@,
            r.changes@.last().range is None,
            r.changes@.last().text == full_text,
    {
        let mut b = self;
        b.changes.push(ContentChange { range: None, text: full_text });
        proof {
            assert(b.changes@.drop_last() =~= self.changes@);
        }
        b
    }

    /// The range from `start` to `end` is replaced by `text`.
    pub fn edit(self, start: CursorPos, end: CursorPos, text: String) -> (r: DidChangeNotifyBuilder)
        ensures
            r.uri == self.uri,
            r.version == self.version,
            r.changes@.len() == self.changes@.len() + 1,
            r.changes@.drop_last() == self.changes@,
            r.changes@.last().range == Some((position_of(start), position_of(end))),
            r.changes@.last().text == text,
    {
        let mut b = self;
        let range = Some((to_position(start), to_position(end)));
        b.changes.push(ContentChange { range, text });
        proof {
            assert(b.changes@.drop_last() =~= self.changes@);
        }
        b
    }

    /// `text` is put in at `insert_pos`.
    pub fn insert(self, insert_pos: CursorPos, text: String) -> (r: DidChangeNotifyBuilder)
        ensures
            r.uri == self.uri,
            r.version == self.version,
            r.changes@.len() == self.changes@.len() + 1,
            r.changes@.drop_last() == self.changes@,
            r.changes@.last().range == Some((position_of(insert_pos), position_of(insert_pos))),
            r.changes@.last().text == text,
    {
        self.edit(insert_pos, insert_pos, text)
    }

    /// The text from `delete_start` to `delete_end` is removed.
    pub fn delete(self, delete_start: CursorPos, delete_end: CursorPos) -> (r: DidChangeNotifyBuilder)
        ensures
            r.uri == self.uri,
            r.version == self.version,
            r.changes@.len() == self.changes@.len() + 1,
            r.changes@.drop_last() == self.changes@,
            r.changes@.last().range == Some((position_of(delete_start), position_of(delete_end))),
            r.changes@.last().text@ == Seq::<char>::empty(),
    {
        self.edit(delete_start, delete_end, String::new())
    }
}

} // verus!
