use vstd::prelude::*;
use vstd::string::StringExecFns;
use crate::fetch::LspResult;

verus! {

/// A position in a document: line, then character, both from zero.
pub type CursorPos = (usize, usize);

/// How a request's own params are made from what the editor holds.
pub trait LspParam: Sized {
    type ActualParam;

    spec fn spec_into_param(self) -> Self::ActualParam;

    fn into_param(self) -> (r: Self::ActualParam)
        ensures
            r == self.spec_into_param(),
    ;
}

/// A document and a position in it, as a request names them.
pub struct TextPosition {
    pub uri: String,
    pub line: u32,
    pub character: u32,
}

/// The params of a hover request: the document's URI and the cursor.
pub struct HoverParam {
    pub uri: String,
    pub cursor: CursorPos,
}

/// The params of a completion request: the document's URI and the cursor.
pub struct CompletionParam {
    pub uri: String,
    pub cursor: CursorPos,
}

/// A position as the protocol holds it: each coordinate cut to 32 bits.
pub open spec fn text_position(uri: String, cursor: CursorPos) -> TextPosition {
    TextPosition {
        uri,
        line: (cursor.0 as int % 0x1_0000_0000) as u32,
        character: (cursor.1 as int % 0x1_0000_0000) as u32,
    }
}

fn cut_to_u32(n: usize) -> (r: u32)
    ensures
        r as int == n as int % 0x1_0000_0000,
{
    let wide = n as u64;
    (wide % 0x1_0000_0000) as u32
}

impl HoverParam {
    pub fn new(uri: String, cursor: CursorPos) -> (r: HoverParam)
        ensures
            r.uri == uri,
            r.cursor == cursor,
    {
        HoverParam { uri, cursor }
    }
}

impl CompletionParam {
    pub fn new(uri: String, cursor: CursorPos) -> (r: CompletionParam)
        ensures
            r.uri == uri,
            r.cursor == cursor,
    {
        CompletionParam { uri, cursor }
    }
}

impl LspParam for HoverParam {
    type ActualParam = TextPosition;

    open spec fn spec_into_param(self) -> TextPosition {
        text_position(self.uri, self.cursor)
    }

    fn into_param(self) -> (r: TextPosition) {
        TextPosition { uri: self.uri, line: cut_to_u32(self.cursor.0), character: cut_to_u32(self.cursor.1) }
    }
}

impl LspParam for CompletionParam {
    type ActualParam = TextPosition;

    open spec fn spec_into_param(self) -> TextPosition {
        text_position(self.uri, self.cursor)
    }

    fn into_param(self) -> (r: TextPosition) {
        TextPosition { uri: self.uri, line: cut_to_u32(self.cursor.0), character: cut_to_u32(self.cursor.1) }
    }
}

/// One piece of hover text: plain (markdown) text, or a code block in a language.
pub enum MarkedText {
    Plain(String),
    Code { language: String, value: String },
}

/// The contents of a hover answer, in the three forms the protocol allows.
pub enum HoverContents {
    Scalar(MarkedText),
    Array(Vec<MarkedText>),
    Markup { value: String },
}

/// A hover answer.
pub struct Hover {
    pub contents: HoverContents,
}

/// What the hover window shows, and where the cursor was.
pub struct HoverResult {
    pub text: String,
    pub pos: CursorPos,
}

pub open spec fn marked_text(m: MarkedText) -> Seq<char> {
    match m {
        MarkedText::Plain(s) => s@,
        MarkedText::Code { language, value } => value@,
    }
}

/// The pieces, one per line: joined with line feeds between them.
pub open spec fn join_lines(parts: Seq<Seq<char>>) -> Seq<char>
    decreases parts.len(),
{
    if parts.len() == 0 {
        Seq::empty()
    } else if parts.len() == 1 {
        parts[0]
    } else {
        join_lines(parts.drop_last()) + "\n"@ + parts.last()
    }
}

pub open spec fn hover_text(c: HoverContents) -> Seq<char> {
    match c {
        HoverContents::Markup { value } => value@,
        HoverContents::Scalar(m) => marked_text(m),
        HoverContents::Array(v) => join_lines(v@.map_values(|m: MarkedText| marked_text(m))),
    }
}

fn marked_str(m: &MarkedText) -> (r: &String)
    ensures
        r@ == marked_text(*m),
{
    match m {
        MarkedText::Plain(s) => s,
        MarkedText::Code { language: _, value } => value,
    }
}

fn join_marked(v: &Vec<MarkedText>) -> (r: String)
    ensures
        r@ == join_lines(v@.map_values(|m: MarkedText| marked_text(m))),
{
    let ghost parts = v@.map_values(|m: MarkedText| marked_text(m));
    let mut out = String::new();
    let mut i: usize = 0;
    while i < v.len()
        invariant
            0 <= i <= v@.len(),
            parts == v@.map_values(|m: MarkedText| marked_text(m)),
            out@ == join_lines(parts.subrange(0, i as int)),
        decreases v@.len() - i,
    {
        let ghost before = parts.subrange(0, i as int);
        let ghost after = parts.subrange(0, i + 1);
        assert(after.drop_last() =~= before);
        if i > 0 {
            out.append("\n");
        }
        out.append(marked_str(&v[i]).as_str());
        i = i + 1;
        proof {
            if i == 1 {
                assert(before =~= Seq::<Seq<char>>::empty());
                assert(out@ =~= join_lines(after));
            }
        }
    }
    assert(parts.subrange(0, v@.len() as int) =~= parts);
    out
}

/// The text a hover answer shows: the markup's value, the one piece, or the
/// pieces one per line.
pub fn hover_contents_text(contents: HoverContents) -> (r: String)
    ensures
        r@ == hover_text(contents),
{
    match contents {
        HoverContents::Markup { value } => value,
        HoverContents::Scalar(MarkedText::Plain(s)) => s,
        HoverContents::Scalar(MarkedText::Code { language: _, value }) => value,
        HoverContents::Array(v) => join_marked(&v),
    }
}

impl LspResult for Option<HoverResult> {
    type Response = Option<Hover>;

    type Param = TextPosition;

    open spec fn decodes(resp: Option<Hover>, param: TextPosition, r: Option<HoverResult>) -> bool {
        match resp {
            None => r is None,
            Some(h) => r matches Some(x) && x.text@ == hover_text(h.contents) && x.pos == (
                param.line as usize,
                param.character as usize,
            ),
        }
    }

    fn from_response(resp: Option<Hover>, param: TextPosition) -> (r: Option<HoverResult>) {
        match resp {
            None => None,
            Some(h) => {
                let pos = (param.line as usize, param.character as usize);
                Some(HoverResult { text: hover_contents_text(h.contents), pos })
            },
        }
    }
}

} // verus!
