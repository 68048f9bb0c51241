use vstd::prelude::*;
use vstd::multiset::Multiset;
use vstd::string::StrSliceExecFns;
use crate::editor::{fix_top, select_next, select_prev};
use crate::hover::{join_lines, CursorPos};
use crate::terminal::Terminal;
use crate::viewer::{draw_lines, rope_lines, rope_lines_of, rows_bytes, ViewerRect};
use vstd::string::StringExecFns;

verus! {

broadcast use {vstd::seq_lib::to_multiset_insert, vstd::seq_lib::to_multiset_remove};

/// An edit that a completion makes: the range it replaces and the new text.
pub struct TextEdit {
    pub start: CursorPos,
    pub end: CursorPos,
    pub new_text: String,
}

/// One completion the server offers.
pub struct CompletionItem {
    pub label: String,
    pub sort_text: Option<String>,
    pub edit: Option<TextEdit>,
}

/// Text order from index `i` on: character by character, by code point, a
/// proper prefix first.
pub open spec fn text_le_from(a: Seq<char>, b: Seq<char>, i: int) -> bool
    decreases a.len() - i,
{
    if i < 0 || i >= a.len() {
        true
    } else if i >= b.len() {
        false
    } else if (a[i] as u32) != (b[i] as u32) {
        (a[i] as u32) < (b[i] as u32)
    } else {
        text_le_from(a, b, i + 1)
    }
}

/// The order of strings: by code point, which is the order of their UTF-8
/// bytes.
pub open spec fn text_le(a: Seq<char>, b: Seq<char>) -> bool {
    text_le_from(a, b, 0)
}

/// The order of sort keys: no key comes first.
pub open spec fn key_le(a: Option<Seq<char>>, b: Option<Seq<char>>) -> bool {
    match (a, b) {
        (None, _) => true,
        (Some(_), None) => false,
        (Some(x), Some(y)) => text_le(x, y),
    }
}

pub open spec fn key_of(item: CompletionItem) -> Option<Seq<char>> {
    match item.sort_text {
        Some(s) => Some(s@),
        None => None,
    }
}

pub open spec fn sorted_by_key(s: Seq<CompletionItem>) -> bool {
    forall|i: int, j: int| 0 <= i < j < s.len() ==> key_le(key_of(#[trigger] s[i]), key_of(#[trigger] s[j]))
}

pub open spec fn labels(s: Seq<CompletionItem>) -> Seq<Seq<char>> {
    s.map_values(|it: CompletionItem| it.label@)
}

proof fn lemma_text_le_total(a: Seq<char>, b: Seq<char>, i: int)
    requires
        i >= 0,
    ensures
        text_le_from(a, b, i) || text_le_from(b, a, i),
    decreases a.len() - i,
{
    if i < a.len() && i < b.len() && (a[i] as u32) == (b[i] as u32) {
        lemma_text_le_total(a, b, i + 1);
    }
}

proof fn lemma_text_le_trans(a: Seq<char>, b: Seq<char>, c: Seq<char>, i: int)
    requires
        i >= 0,
        text_le_from(a, b, i),
        text_le_from(b, c, i),
    ensures
        text_le_from(a, c, i),
    decreases a.len() - i,
{
    if i < a.len() && i < b.len() && i < c.len() && (a[i] as u32) == (b[i] as u32) && (b[i] as u32)
        == (c[i] as u32) {
        lemma_text_le_trans(a, b, c, i + 1);
    }
}

proof fn lemma_key_le_total(a: Option<Seq<char>>, b: Option<Seq<char>>)
    ensures
        key_le(a, b) || key_le(b, a),
{
    if let (Some(x), Some(y)) = (a, b) {
        lemma_text_le_total(x, y, 0);
    }
}

proof fn lemma_key_le_trans(a: Option<Seq<char>>, b: Option<Seq<char>>, c: Option<Seq<char>>)
    requires
        key_le(a, b),
        key_le(b, c),
    ensures
        key_le(a, c),
{
    if let (Some(x), Some(y), Some(z)) = (a, b, c) {
        lemma_text_le_trans(x, y, z, 0);
    }
}

fn text_le_exec(a: &str, b: &str) -> (r: bool)
    ensures
        r == text_le(a@, b@),
{
    let la = a.unicode_len();
    let lb = b.unicode_len();
    let mut i: usize = 0;
    while i < la
        invariant
            la == a@.len(),
            lb == b@.len(),
            0 <= i <= la,
            text_le(a@, b@) == text_le_from(a@, b@, i as int),
        decreases la - i,
    {
        if i >= lb {
            return false;
        }
        let x = a.get_char(i);
        let y = b.get_char(i);
        if (x as u32) != (y as u32) {
            return (x as u32) < (y as u32);
        }
        i = i + 1;
    }
    true
}

fn key_le_exec(a: &Option<String>, b: &Option<String>) -> (r: bool)
    ensures
        r == key_le(
            match a {
                Some(s) => Some(s@),
                None => None,
            },
            match b {
                Some(s) => Some(s@),
                None => None,
            },
        ),
{
    match (a, b) {
        (None, _) => true,
        (Some(_), None) => false,
        (Some(x), Some(y)) => text_le_exec(x.as_str(), y.as_str()),
    }
}

/// The items in the order of their sort keys, those with equal keys in the
/// order they came.
pub fn sort_items(items: Vec<CompletionItem>) -> (r: Vec<CompletionItem>)
    ensures
        r@.to_multiset() == items@.to_multiset(),
        sorted_by_key(r@),
{
    let ghost given = items@;
    let mut rest = items;
    let mut out: Vec<CompletionItem> = Vec::new();
    proof {
        assert forall|a: CompletionItem| out@.to_multiset().count(a) == 0 by {
            out@.to_multiset_ensures();
        }
        assert(out@.to_multiset().add(rest@.to_multiset()) =~= rest@.to_multiset());
    }
    while rest.len() > 0
        invariant
            out@.to_multiset().add(rest@.to_multiset()) == given.to_multiset(),
            sorted_by_key(out@),
        decreases rest@.len(),
    {
        let ghost rest_before = rest@;
        let it = rest.remove(0);
        let mut j: usize = 0;
        while j < out.len() && key_le_exec(&out[j].sort_text, &it.sort_text)
            invariant
                0 <= j <= out@.len(),
                forall|k: int| 0 <= k < j ==> key_le(key_of(#[trigger] out@[k]), key_of(it)),
            decreases out@.len() - j,
        {
            j = j + 1;
        }
        let ghost before = out@;
        proof {
            if j < before.len() {
                assert(!key_le(key_of(before[j as int]), key_of(it)));
                lemma_key_le_total(key_of(before[j as int]), key_of(it));
                assert forall|k: int| j <= k < before.len() implies key_le(
                    key_of(it),
                    key_of(#[trigger] before[k]),
                ) by {
                    if k > j {
                        lemma_key_le_trans(key_of(it), key_of(before[j as int]), key_of(before[k]));
                    }
                }
            }
        }
        out.insert(j, it);
        proof {
            let after = out@;
            assert forall|p: int, q: int| 0 <= p < q < after.len() implies key_le(
                key_of(#[trigger] after[p]),
                key_of(#[trigger] after[q]),
            ) by {
                if p < j && q == j {
                } else if p == j && q > j {
                    assert(after[q] == before[q - 1]);
                } else if p < j && q > j {
                    assert(after[q] == before[q - 1]);
                    assert(key_le(key_of(before[p]), key_of(it)));
                    assert(key_le(key_of(it), key_of(before[q - 1])));
                    lemma_key_le_trans(key_of(before[p]), key_of(it), key_of(before[q - 1]));
                } else if p > j {
                    assert(after[p] == before[p - 1]);
                    assert(after[q] == before[q - 1]);
                } else {
                    assert(after[p] == before[p]);
                    assert(after[q] == before[q]);
                }
            }
            assert(rest_before.remove(0) == rest@);
            assert(rest_before[0] == it);
            assert(out@.to_multiset() == before.to_multiset().insert(it));
            assert(rest@.to_multiset() == rest_before.to_multiset().remove(it));
            assert(rest_before.to_multiset().count(it) > 0) by {
                assert(rest_before.contains(it)) by {
                    assert(rest_before[0] == it);
                }
                rest_before.to_multiset_ensures();
            }
            assert(out@.to_multiset().add(rest@.to_multiset()) =~= before.to_multiset().add(
                rest_before.to_multiset(),
            ));
        }
    }
    proof {
        assert forall|a: CompletionItem| rest@.to_multiset().count(a) == 0 by {
            rest@.to_multiset_ensures();
        }
        assert(rest@.to_multiset() =~= Multiset::<CompletionItem>::empty());
        assert(out@.to_multiset().add(rest@.to_multiset()) =~= out@.to_multiset());
    }
    out
}

/// The completion list under the cursor: the items sorted, the list's
/// lines, the first row shown and the selected item.
pub struct CompletionViewer {
    items: Vec<CompletionItem>,
    lines: Vec<String>,
    x: usize,
    select: usize,
    cursor: CursorPos,
}

impl CompletionViewer {
    pub closed spec fn spec_cursor(&self) -> CursorPos {
        self.cursor
    }

    /// Where the cursor was when the list was asked for.
    pub fn cursor(&self) -> (r: CursorPos)
        ensures
            r == self.spec_cursor(),
    {
        self.cursor
    }

    pub closed spec fn spec_items(&self) -> Seq<CompletionItem> {
        self.items@
    }

    pub closed spec fn spec_lines(&self) -> Seq<Seq<char>> {
        self.lines@.map_values(|l: String| l@)
    }

    pub closed spec fn spec_select(&self) -> nat {
        self.select as nat
    }

    pub closed spec fn spec_top(&self) -> nat {
        self.x as nat
    }

    pub closed spec fn wf(&self) -> bool {
        &&& self.items@.len() == 0 ==> self.select == 0
        &&& self.items@.len() > 0 ==> self.select < self.items@.len()
    }

    /// The list of these items at this cursor: sorted by their sort keys,
    /// shown one label per line, the first one selected.
    pub fn new(items: Vec<CompletionItem>, cursor: CursorPos) -> (r: CompletionViewer)
        ensures
            r.wf(),
            r.spec_items().to_multiset() == items@.to_multiset(),
            sorted_by_key(r.spec_items()),
            r.spec_lines() == rope_lines_of(join_lines(labels(r.spec_items()))),
            r.spec_select() == 0,
            r.spec_top() == 0,
            r.spec_cursor() == cursor,
    {
        let items = sort_items(items);
        let mut text = String::new();
        let mut i: usize = 0;
        while i < items.len()
            invariant
                0 <= i <= items@.len(),
                text@ == join_lines(labels(items@).subrange(0, i as int)),
            decreases items@.len() - i,
        {
            let ghost before = labels(items@).subrange(0, i as int);
            let ghost after = labels(items@).subrange(0, i + 1);
            assert(after.drop_last() =~= before);
            if i > 0 {
                text.append("\n");
            }
            text.append(items[i].label.as_str());
            i = i + 1;
            proof {
                if i == 1 {
                    assert(before =~= Seq::<Seq<char>>::empty());
                    assert(text@ =~= join_lines(after));
                }
            }
        }
        assert(labels(items@).subrange(0, items@.len() as int) =~= labels(items@));
        let lines = rope_lines(text.as_str());
        CompletionViewer { items, lines, x: 0, select: 0, cursor }
    }

    /// How many items the list has.
    pub fn len(&self) -> (r: usize)
        ensures
            r == self.spec_items().len(),
    {
        self.items.len()
    }

    /// The selected item, if there is any.
    pub fn selected(&self) -> (r: Option<&CompletionItem>)
        requires
            self.wf(),
        ensures
            self.spec_items().len() == 0 ==> r is None,
            self.spec_items().len() > 0 ==> r == Some(&self.spec_items()[self.spec_select() as int]),
    {
        if self.items.len() == 0 {
            None
        } else {
            Some(&self.items[self.select])
        }
    }

    /// Selects the next item, round to the first; an empty list stays as it is.
    pub fn select_next(&mut self)
        requires
            old(self).wf(),
        ensures
            final(self).wf(),
            final(self).spec_items() == old(self).spec_items(),
            final(self).spec_lines() == old(self).spec_lines(),
            final(self).spec_top() == old(self).spec_top(),
            final(self).spec_cursor() == old(self).spec_cursor(),
            old(self).spec_items().len() > 0 ==> final(self).spec_select() as int == (old(self).spec_select() as int
                + 1) % (old(self).spec_items().len() as int),
            old(self).spec_items().len() == 0 ==> final(self).spec_select() == 0,
    {
        if self.items.len() > 0 {
            self.select = select_next(self.select, self.items.len());
        }
    }

    /// Selects the previous item, round to the last; an empty list stays as it is.
    pub fn select_prev(&mut self)
        requires
            old(self).wf(),
        ensures
            final(self).wf(),
            final(self).spec_items() == old(self).spec_items(),
            final(self).spec_lines() == old(self).spec_lines(),
            final(self).spec_top() == old(self).spec_top(),
            final(self).spec_cursor() == old(self).spec_cursor(),
            old(self).spec_items().len() > 0 ==> final(self).spec_select() as int == (old(self).spec_select() as int
                + old(self).spec_items().len() - 1) % (old(self).spec_items().len() as int),
            old(self).spec_items().len() == 0 ==> final(self).spec_select() == 0,
    {
        if self.items.len() > 0 {
            self.select = select_prev(self.select, self.items.len());
        }
    }

    /// Scrolls so the selected item shows, then draws the list with the
    /// selected line marked.
    pub fn draw_all(&mut self, rect: &ViewerRect, terminal: &mut Terminal)
        requires
            old(self).wf(),
            rect.h > 0,
            rect.i + rect.h < usize::MAX,
            rect.j < usize::MAX,
            old(self).spec_select() + rect.h <= usize::MAX,
        ensures
            final(self).wf(),
            final(self).spec_items() == old(self).spec_items(),
            final(self).spec_lines() == old(self).spec_lines(),
            final(self).spec_select() == old(self).spec_select(),
            final(self).spec_cursor() == old(self).spec_cursor(),
            final(self).spec_top() <= final(self).spec_select() < final(self).spec_top() + rect.h,
            final(terminal)@ == old(terminal)@ + rows_bytes(
                final(self).spec_lines(),
                *rect,
                final(self).spec_top(),
                0,
                Some(final(self).spec_select()),
                rect.h as nat,
            ),
            final(terminal).spec_height() == old(terminal).spec_height(),
            final(terminal).spec_width() == old(terminal).spec_width(),
    {
        self.x = fix_top(self.x, self.select, rect.h);
        draw_lines(terminal, &self.lines, rect, self.x, 0, Some(self.select));
    }
}

} // verus!
