//! The scanner: the characters of the source, one at a time, with the line
//! and column of each.

use vstd::prelude::*;
use vstd::std_specs::iter::IteratorSpec;

use crate::text::push_char;

verus! {

/// `n + 1`, or `n` if there is no greater number.
pub open spec fn bump(n: usize) -> usize {
    if n < usize::MAX {
        (n + 1) as usize
    } else {
        n
    }
}

/// The line and column of the character at `pos` of `chars`.
///
/// The first character stands at line 1, column 1. A line feed stands at
/// column 0 of the line it begins, and every other character one column
/// after the character before it. Past the last character the place is
/// that of the last character.
pub open spec fn loc_at(chars: Seq<char>, pos: int) -> (usize, usize)
    decreases pos,
{
    if pos <= 0 {
        if chars.len() > 0 && chars[0] == '\n' {
            (2, 0)
        } else {
            (1, 1)
        }
    } else {
        let before = loc_at(chars, pos - 1);
        if pos >= chars.len() {
            before
        } else if chars[pos] == '\n' {
            (bump(before.0), 0)
        } else {
            (before.0, bump(before.1))
        }
    }
}

pub struct Scanner {
    chars: Vec<char>,
    index: usize,
    cur_char: Option<char>,
    line: usize,
    col: usize,
}

/// What a [`Scanner`] stands for: the characters it walks over, and how
/// many of them lie before the current one.
pub struct ScannerView {
    pub chars: Seq<char>,
    pub index: nat,
}

impl ScannerView {
    /// The current character, if the end has not been reached.
    pub open spec fn cur(self) -> Option<char> {
        if self.index < self.chars.len() {
            Some(self.chars[self.index as int])
        } else {
            None
        }
    }

    /// The scanner one character on; at the end it stays where it is.
    pub open spec fn step(self) -> ScannerView {
        if self.index < self.chars.len() {
            ScannerView { chars: self.chars, index: self.index + 1 }
        } else {
            self
        }
    }

    /// The line and column of the current character.
    pub open spec fn loc(self) -> (usize, usize) {
        loc_at(self.chars, self.index as int)
    }
}

impl View for Scanner {
    type V = ScannerView;

    closed spec fn view(&self) -> ScannerView {
        ScannerView { chars: self.chars@, index: self.index as nat }
    }
}

/// The characters of `s`.
pub fn chars_of(s: &str) -> (v: Vec<char>)
    ensures
        v@ == s@,
{
    let n = s.unicode_len();
    let mut v: Vec<char> = Vec::new();
    let mut it = s.chars();
    let mut i: usize = 0;
    while i < n
        invariant
            i <= n,
            n == s@.len(),
            v@ == s@.take(i as int),
            it.remaining() == s@.skip(i as int),
            it.obeys_prophetic_iter_laws(),
        decreases n - i,
    {
        broadcast use vstd::string::group_string_axioms;

        let ghost before = it;
        match it.next() {
            Some(c) => {
                v.push(c);
                assert(v@ =~= s@.take(i + 1));
                assert(it.remaining() =~= s@.skip(i + 1));
            },
            None => {
                assert(false);
            },
        }
        i = i + 1;
    }
    assert(s@.take(n as int) =~= s@);
    v
}

impl Scanner {
    /// Whether the scanner stands within its characters or at their end,
    /// and its fields agree with each other.
    pub open spec fn wf(&self) -> bool {
        &&& self@.index <= self@.chars.len()
        &&& self.coherent()
    }

    /// Whether the current character and its place are those of the view.
    pub closed spec fn coherent(&self) -> bool {
        &&& self.cur_char == self@.cur()
        &&& (self.line, self.col) == self@.loc()
    }

    /// A scanner at the first character of `chars`.
    pub fn new(chars: &str) -> (s: Scanner)
        ensures
            s.wf(),
            s@ == (ScannerView { chars: chars@, index: 0 }),
    {
        let all = chars_of(chars);
        let cur_char = if all.len() > 0 {
            Some(all[0])
        } else {
            None
        };
        let mut loc: (usize, usize) = (1, 1);
        if all.len() > 0 && all[0] == '\n' {
            loc = (2, 0);
        }
        Scanner { chars: all, index: 0, cur_char, line: loc.0, col: loc.1 }
    }

    /// The number of characters before the current one.
    pub fn index(&self) -> (i: usize)
        requires
            self.wf(),
        ensures
            i == self@.index,
            i <= self@.chars.len(),
    {
        self.index
    }

    /// The current character, if the end has not been reached.
    pub fn peek_char(&mut self) -> (c: Option<char>)
        requires
            old(self).wf(),
        ensures
            *final(self) == *old(self),
            c == old(self)@.cur(),
    {
        self.cur_char
    }

    /// Goes on to the next character.
    pub fn next_char(&mut self)
        requires
            old(self).wf(),
        ensures
            final(self).wf(),
            final(self)@ == old(self)@.step(),
    {
        if self.index < self.chars.len() {
            self.index = self.index + 1;
        }
        if self.index < self.chars.len() {
            let c = self.chars[self.index];
            self.cur_char = Some(c);
            if c == '\n' {
                if self.line < usize::MAX {
                    self.line = self.line + 1;
                }
                self.col = 0;
            } else {
                if self.col < usize::MAX {
                    self.col = self.col + 1;
                }
            }
        } else {
            self.cur_char = None;
        }
    }

    /// The line and column of the current character.
    pub fn loc(&mut self) -> (l: (usize, usize))
        requires
            old(self).wf(),
        ensures
            *final(self) == *old(self),
            l == old(self)@.loc(),
    {
        (self.line, self.col)
    }

    /// The characters from `start` up to `end`, as text.
    pub fn range(&self, start: usize, end: usize) -> (s: String)
        requires
            self.wf(),
            start <= end <= self@.chars.len(),
        ensures
            s@ == self@.chars.subrange(start as int, end as int),
    {
        let mut s = String::new();
        let mut i: usize = start;
        while i < end
            invariant
                start <= i <= end <= self.chars@.len(),
                s@ == self.chars@.subrange(start as int, i as int),
            decreases end - i,
        {
            push_char(&mut s, self.chars[i]);
            i = i + 1;
            assert(s@ =~= self.chars@.subrange(start as int, i as int));
        }
        s
    }
}

} // verus!
