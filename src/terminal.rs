use vstd::prelude::*;
use crate::framing::{decimal, push_decimal};

verus! {

/// A 24-bit colour.
#[derive(Clone, PartialEq, Eq, Debug)]
pub struct Color {
    pub r: u8,
    pub g: u8,
    pub b: u8,
}

impl Default for Color {
    fn default() -> (r: Color)
        ensures
            r.r == 0 && r.g == 0 && r.b == 0,
    {
        Color { r: 0, g: 0, b: 0 }
    }
}

/// `ESC [ 2 J`: clear the screen.
pub open spec fn clear_all_seq() -> Seq<u8> {
    seq![27, 91, 50, 74]
}

/// `ESC [ 2 K`: clear the cursor's line.
pub open spec fn clear_line_seq() -> Seq<u8> {
    seq![27, 91, 50, 75]
}

/// `ESC [ <row> ; <column> H`, both counted from one.
pub open spec fn cursor_seq(i: nat, j: nat) -> Seq<u8> {
    seq![27u8, 91] + decimal(i + 1) + seq![59u8] + decimal(j + 1) + seq![72u8]
}

/// `ESC [ <layer> 8 ; 2 ; <r> ; <g> ; <b> m`, with layer 3 for the
/// foreground and 4 for the background.
pub open spec fn color_seq(layer: u8, c: Color) -> Seq<u8> {
    seq![27u8, 91, layer, 56, 59, 50, 59] + decimal(c.r as nat) + seq![59u8] + decimal(c.g as nat)
        + seq![59u8] + decimal(c.b as nat) + seq![109u8]
}

/// The screen: its size, and the bytes drawn since the last flush, which are
/// still to be written out.
pub struct Terminal {
    out: Vec<u8>,
    h: usize,
    w: usize,
}

impl View for Terminal {
    type V = Seq<u8>;

    closed spec fn view(&self) -> Seq<u8> {
        self.out@
    }
}

impl Terminal {
    pub closed spec fn spec_height(&self) -> usize {
        self.h
    }

    pub closed spec fn spec_width(&self) -> usize {
        self.w
    }

    /// A screen of `h` rows and `w` columns with nothing drawn yet.
    pub fn new(h: usize, w: usize) -> (r: Terminal)
        ensures
            r@ == Seq::<u8>::empty(),
            r.spec_height() == h,
            r.spec_width() == w,
    {
        Terminal { out: Vec::new(), h, w }
    }

    pub fn height(&self) -> (r: usize)
        ensures
            r == self.spec_height(),
    {
        self.h
    }

    pub fn width(&self) -> (r: usize)
        ensures
            r == self.spec_width(),
    {
        self.w
    }

    /// Hands out the bytes drawn so far, to be written to the screen; none
    /// are left.
    pub fn flush(&mut self) -> (r: Vec<u8>)
        ensures
            r@ == old(self)@,
            final(self)@ == Seq::<u8>::empty(),
            final(self).spec_height() == old(self).spec_height(),
            final(self).spec_width() == old(self).spec_width(),
    {
        let mut out: Vec<u8> = Vec::new();
        std::mem::swap(&mut out, &mut self.out);
        out
    }

    pub fn clear_all(&mut self)
        ensures
            final(self)@ == old(self)@ + clear_all_seq(),
            final(self).spec_height() == old(self).spec_height(),
            final(self).spec_width() == old(self).spec_width(),
    {
        self.out.push(27);
        self.out.push(91);
        self.out.push(50);
        self.out.push(74);
        proof {
            assert(self.out@ =~= old(self)@ + clear_all_seq());
        }
    }

    pub fn clear_cursor_line(&mut self)
        ensures
            final(self)@ == old(self)@ + clear_line_seq(),
            final(self).spec_height() == old(self).spec_height(),
            final(self).spec_width() == old(self).spec_width(),
    {
        self.out.push(27);
        self.out.push(91);
        self.out.push(50);
        self.out.push(75);
        proof {
            assert(self.out@ =~= old(self)@ + clear_line_seq());
        }
    }

    /// Moves the cursor to row `i`, column `j`, both from zero.
    pub fn set_cursor(&mut self, i: usize, j: usize)
        requires
            i < usize::MAX,
            j < usize::MAX,
        ensures
            final(self)@ == old(self)@ + cursor_seq(i as nat, j as nat),
            final(self).spec_height() == old(self).spec_height(),
            final(self).spec_width() == old(self).spec_width(),
    {
        self.out.push(27);
        self.out.push(91);
        push_decimal(&mut self.out, i + 1);
        self.out.push(59);
        push_decimal(&mut self.out, j + 1);
        self.out.push(72);
        proof {
            assert(self.out@ =~= old(self)@ + cursor_seq(i as nat, j as nat));
        }
    }

    fn push_color(&mut self, layer: u8, c: &Color)
        ensures
            final(self)@ == old(self)@ + color_seq(layer, *c),
            final(self).spec_height() == old(self).spec_height(),
            final(self).spec_width() == old(self).spec_width(),
    {
        self.out.push(27);
        self.out.push(91);
        self.out.push(layer);
        self.out.push(56);
        self.out.push(59);
        self.out.push(50);
        self.out.push(59);
        push_decimal(&mut self.out, c.r as usize);
        self.out.push(59);
        push_decimal(&mut self.out, c.g as usize);
        self.out.push(59);
        push_decimal(&mut self.out, c.b as usize);
        self.out.push(109);
        proof {
            assert(self.out@ =~= old(self)@ + color_seq(layer, *c));
        }
    }

    pub fn set_fg(&mut self, fg: Color)
        ensures
            final(self)@ == old(self)@ + color_seq(51, fg),
            final(self).spec_height() == old(self).spec_height(),
            final(self).spec_width() == old(self).spec_width(),
    {
        self.push_color(51, &fg);
    }

    pub fn set_bg(&mut self, bg: Color)
        ensures
            final(self)@ == old(self)@ + color_seq(52, bg),
            final(self).spec_height() == old(self).spec_height(),
            final(self).spec_width() == old(self).spec_width(),
    {
        self.push_color(52, &bg);
    }

    pub fn write(&mut self, buf: &[u8])
        ensures
            final(self)@ == old(self)@ + buf@,
            final(self).spec_height() == old(self).spec_height(),
            final(self).spec_width() == old(self).spec_width(),
    {
        let mut i: usize = 0;
        while i < buf.len()
            invariant
                0 <= i <= buf@.len(),
                self.out@ == old(self)@ + buf@.subrange(0, i as int),
                self.h == old(self).h,
                self.w == old(self).w,
            decreases buf@.len() - i,
        {
            self.out.push(buf[i]);
            i = i + 1;
            proof {
                assert(self.out@ =~= old(self)@ + buf@.subrange(0, i as int));
            }
        }
        proof {
            assert(buf@.subrange(0, buf@.len() as int) =~= buf@);
        }
    }
}

} // verus!
