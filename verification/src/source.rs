//! Character sources.

use vstd::prelude::*;

verus! {

/// The characters of an owned string, handed out one at a time.
pub struct OwningChars {
    chars: Vec<char>,
    pos: usize,
}

impl View for OwningChars {
    type V = Seq<char>;

    /// The characters that have not been handed out yet.
    closed spec fn view(&self) -> Seq<char> {
        if self.pos <= self.chars@.len() {
            self.chars@.skip(self.pos as int)
        } else {
            Seq::empty()
        }
    }
}

impl OwningChars {
    /// A source that hands out the characters of `s`, first to last.
    pub fn new(s: String) -> (r: OwningChars)
        ensures
            r@ == s@,
    {
        let mut chars: Vec<char> = Vec::new();
        let text = s.as_str();
        let it = text.chars();
        for c in iter: it
            invariant
                chars@ == iter.seq().take(iter.index()),
        {
            chars.push(c);
        }
        OwningChars { chars: chars, pos: 0 }
    }

    /// Hands out the next character, or `None` when none is left.
    pub fn next(&mut self) -> (r: Option<char>)
        ensures
            old(self)@.len() == 0 ==> r is None && final(self)@ == old(self)@,
            old(self)@.len() > 0 ==> r == Some(old(self)@[0]) && final(self)@ == old(self)@.skip(1),
    {
        if self.pos < self.chars.len() {
            let c = self.chars[self.pos];
            self.pos = self.pos + 1;
            assert(final(self)@ =~= old(self)@.skip(1));
            Some(c)
        } else {
            None
        }
    }

    /// A source never holds more characters than a `usize` can count.
    pub proof fn lemma_len_bounded(&self)
        ensures
            self@.len() <= usize::MAX,
    {
        assert(self.chars@.len() == self.chars.len());
    }
}

} // verus!
