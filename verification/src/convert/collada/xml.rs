//! Helpers to make writing XML less unpleasant.

use vstd::prelude::*;
use crate::util::strings::{string_with_capacity, string_push, string_pop};
use crate::util::fmt::{dec_str, push_dec};

verus! {

/// Spaces of indentation per nesting level.
pub const INDENT_SIZE: u32 = 2;

/// An XML document being written, with the current nesting depth.
pub struct Xml {
    s: String,
    cur_indent: u32,
}

impl Xml {
    /// The text written so far.
    pub closed spec fn text(&self) -> Seq<char> {
        self.s@
    }

    /// The current nesting depth.
    pub closed spec fn indent(&self) -> nat {
        self.cur_indent as nat
    }

    pub fn with_capacity(capacity: usize) -> (x: Xml)
        ensures
            x.text() == Seq::<char>::empty(),
            x.indent() == 0,
    {
        Xml { s: string_with_capacity(capacity), cur_indent: 0 }
    }

    pub fn string(self) -> (s: String)
        ensures
            s@ == self.text(),
    {
        self.s
    }

    /// Writes `<` and nests one level deeper.
    pub fn start_open_tag(&mut self)
        requires
            old(self).indent() < u32::MAX,
        ensures
            final(self).text() == old(self).text() + "<"@,
            final(self).indent() == old(self).indent() + 1,
    {
        self.s.append("<");
        self.cur_indent += 1;
    }

    /// Writes `</` and nests one level shallower.
    pub fn start_close_tag(&mut self)
        requires
            old(self).indent() > 0,
        ensures
            final(self).text() == old(self).text() + "</"@,
            final(self).indent() == old(self).indent() - 1,
    {
        self.s.append("</");
        self.cur_indent -= 1;
    }

    /// Removes one level of indentation (the last two characters written,
    /// or as many as there are), writes `</` and nests one level shallower.
    pub fn deindent_and_start_close_tag(&mut self)
        requires
            old(self).indent() > 0,
        ensures
            final(self).text() == old(self).text().take(
                if old(self).text().len() >= 2 { old(self).text().len() - 2 } else { 0 }) + "</"@,
            final(self).indent() == old(self).indent() - 1,
    {
        let ghost t = self.s@;
        for _i in 0..INDENT_SIZE
            invariant
                self.s@ == t.take(if t.len() >= _i { t.len() - _i } else { 0 }),
                self.cur_indent == old(self).cur_indent,
                _i <= INDENT_SIZE,
        {
            let ghost before = self.s@;
            string_pop(&mut self.s);
            assert(self.s@ =~= t.take(if t.len() >= _i + 1 { t.len() - (_i + 1) } else { 0 }));
        }
        self.s.append("</");
        self.cur_indent -= 1;
    }

    /// Starts a new line, indented to the current depth.
    pub fn nl(&mut self)
        ensures
            final(self).text() == old(self).text() + "\n"@
                + Seq::new((INDENT_SIZE * old(self).indent()) as nat, |i: int| ' '),
            final(self).indent() == old(self).indent(),
    {
        self.s.append("\n");
        let ghost t = self.s@;
        let n = self.cur_indent;
        for _i in 0..n
            invariant
                n == self.cur_indent,
                self.cur_indent == old(self).cur_indent,
                self.s@ == t + Seq::new((INDENT_SIZE * _i) as nat, |i: int| ' '),
        {
            for _j in 0..INDENT_SIZE
                invariant
                    self.s@ == t + Seq::new((INDENT_SIZE * _i + _j) as nat, |i: int| ' '),
                    self.cur_indent == old(self).cur_indent,
                    n == self.cur_indent,
                    _i < n,
            {
                string_push(&mut self.s, ' ');
                assert(self.s@ =~= t + Seq::new((INDENT_SIZE * _i + _j + 1) as nat, |i: int| ' '));
            }
        }
    }

    /// Writes `>`.
    pub fn end_tag(&mut self)
        ensures
            final(self).text() == old(self).text() + ">"@,
            final(self).indent() == old(self).indent(),
    {
        self.s.append(">");
    }

    /// Writes `/>` and nests one level shallower.
    pub fn end_empty_tag(&mut self)
        requires
            old(self).indent() > 0,
        ensures
            final(self).text() == old(self).text() + "/>"@,
            final(self).indent() == old(self).indent() - 1,
    {
        self.s.append("/>");
        self.cur_indent -= 1;
    }

    pub fn push_str(&mut self, s: &str)
        ensures
            final(self).text() == old(self).text() + s@,
            final(self).indent() == old(self).indent(),
    {
        self.s.append(s);
    }

    /// Writes `n` in decimal.
    pub fn push_dec(&mut self, n: u64)
        ensures
            final(self).text() == old(self).text() + dec_str(n as nat),
            final(self).indent() == old(self).indent(),
    {
        push_dec(&mut self.s, n);
    }

    /// Writes the display form of `x`.
    pub fn push_text<T: std::fmt::Display>(&mut self, x: &T)
        ensures
            exists|t: String| vstd::string::to_string_from_display_ensures::<T>(x, t)
                && final(self).text() == old(self).text() + t@,
            final(self).indent() == old(self).indent(),
    {
        let t = x.to_string();
        self.s.append(t.as_str());
    }
}

} // verus!
