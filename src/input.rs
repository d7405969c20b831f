//! The input queue: pending character codes fed one line at a time, with an
//! interrupt sentinel that breaks into the inspector.

use vstd::prelude::*;

verus! {

/// Bytes a line is trimmed of before it is compared with the sentinel.
pub open spec fn is_space(b: u8) -> bool {
    b == 32 || (9 <= b && b <= 13)
}

pub open spec fn trim_front(s: Seq<u8>) -> Seq<u8>
    decreases s.len(),
{
    if s.len() > 0 && is_space(s[0]) {
        trim_front(s.subrange(1, s.len() as int))
    } else {
        s
    }
}

pub open spec fn trim_back(s: Seq<u8>) -> Seq<u8>
    decreases s.len(),
{
    if s.len() > 0 && is_space(s[s.len() - 1]) {
        trim_back(s.subrange(0, s.len() - 1))
    } else {
        s
    }
}

/// A line without its leading and trailing whitespace.
pub open spec fn trimmed(s: Seq<u8>) -> Seq<u8> {
    trim_back(trim_front(s))
}

/// The word that breaks into the inspector: `debug`.
pub open spec fn sentinel() -> Seq<u8> {
    seq![100u8, 101u8, 98u8, 117u8, 103u8]
}

pub open spec fn is_interrupt_line(s: Seq<u8>) -> bool {
    trimmed(s) == sentinel()
}

/// The character codes a line contributes: each byte, with every
/// carriage-return/line-feed pair folded into a single line feed.
pub open spec fn line_codes(s: Seq<u8>) -> Seq<u16>
    decreases s.len(),
{
    if s.len() == 0 {
        Seq::empty()
    } else if s.len() >= 2 && s[0] == 13 && s[1] == 10 {
        seq![10u16] + line_codes(s.subrange(2, s.len() as int))
    } else {
        seq![s[0] as u16] + line_codes(s.subrange(1, s.len() as int))
    }
}

/// Pending input for the `in` instruction.
pub struct Input {
    /// Character codes not yet consumed, front first.
    pub buffer: Vec<u16>,
    /// Set when the sentinel line was fed; cleared only by the driver.
    pub interrupt: bool,
}

impl View for Input {
    type V = Seq<u16>;

    open spec fn view(&self) -> Seq<u16> {
        self.buffer@
    }
}

fn is_space_byte(b: u8) -> (r: bool)
    ensures
        r == is_space(b),
{
    b == 32 || (9 <= b && b <= 13)
}

/// The bounds of `line[lo..hi]` without its leading and trailing whitespace.
pub fn trim_range(line: &[u8], lo: usize, hi: usize) -> (r: (usize, usize))
    requires
        lo <= hi <= line@.len(),
    ensures
        lo <= r.0 <= r.1 <= hi,
        line@.subrange(r.0 as int, r.1 as int) == trimmed(line@.subrange(lo as int, hi as int)),
{
    let ghost whole = line@.subrange(lo as int, hi as int);
    let mut i: usize = lo;
    assert(line@.subrange(lo as int, hi as int) =~= whole);
    while i < hi && is_space_byte(line[i])
        invariant
            lo <= i <= hi,
            hi <= line@.len(),
            whole == line@.subrange(lo as int, hi as int),
            trim_front(whole) == trim_front(line@.subrange(i as int, hi as int)),
        decreases hi - i,
    {
        let ghost rest = line@.subrange(i as int, hi as int);
        assert(rest.subrange(1, rest.len() as int) =~= line@.subrange(i + 1, hi as int));
        i = i + 1;
    }
    proof {
        let rest = line@.subrange(i as int, hi as int);
        if i < hi {
            assert(rest[0] == line@[i as int]);
        }
        assert(trim_front(rest) == rest);
    }
    let mut j: usize = hi;
    while j > i && is_space_byte(line[j - 1])
        invariant
            lo <= i <= j <= hi,
            hi <= line@.len(),
            trimmed(whole) == trim_back(line@.subrange(i as int, j as int)),
        decreases j,
    {
        let ghost part = line@.subrange(i as int, j as int);
        assert(part[part.len() - 1] == line@[j - 1]);
        assert(part.subrange(0, part.len() - 1) =~= line@.subrange(i as int, j - 1));
        j = j - 1;
    }
    proof {
        let part = line@.subrange(i as int, j as int);
        if j > i {
            assert(part[part.len() - 1] == line@[j - 1]);
        }
    }
    (i, j)
}

/// Whether `line[lo..hi]` is exactly `word`.
pub fn range_equals(line: &[u8], lo: usize, hi: usize, word: &[u8]) -> (r: bool)
    requires
        lo <= hi <= line@.len(),
    ensures
        r == (line@.subrange(lo as int, hi as int) == word@),
{
    if hi - lo != word.len() {
        return false;
    }
    let mut k: usize = 0;
    while k < word.len()
        invariant
            k <= word@.len(),
            hi - lo == word@.len(),
            lo <= hi <= line@.len(),
            line@.subrange(lo as int, lo + k) == word@.subrange(0, k as int),
        decreases word@.len() - k,
    {
        if line[lo + k] != word[k] {
            assert(line@.subrange(lo as int, hi as int)[k as int] == line@[lo + k]);
            return false;
        }
        k = k + 1;
        assert(line@.subrange(lo as int, lo + k) =~= word@.subrange(0, k as int));
    }
    assert(word@.subrange(0, k as int) =~= word@);
    true
}

/// Whether a line, once trimmed, is the interrupt sentinel.
pub fn is_interrupt(line: &[u8]) -> (r: bool)
    ensures
        r == is_interrupt_line(line@),
{
    let (a, b) = trim_range(line, 0, line.len());
    assert(line@.subrange(0, line@.len() as int) =~= line@);
    let word: Vec<u8> = vec![100u8, 101, 98, 117, 103];
    assert(word@ =~= sentinel());
    range_equals(line, a, b, word.as_slice())
}

impl Input {
    /// An empty queue with the interrupt flag clear.
    pub fn new() -> (r: Input)
        ensures
            r@ == Seq::<u16>::empty(),
            !r.interrupt,
    {
        Input { buffer: Vec::new(), interrupt: false }
    }

    /// Appends the codes of `text`, newline-normalised, to the queue. Used
    /// both for console lines and for a saved session loaded before start.
    pub fn preload(&mut self, text: &[u8])
        ensures
            final(self)@ == old(self)@ + line_codes(text@),
            final(self).interrupt == old(self).interrupt,
    {
        let n = text.len();
        let ghost start = self@;
        let mut i: usize = 0;
        assert(text@.subrange(0, n as int) =~= text@);
        while i < n
            invariant
                i <= n,
                n == text@.len(),
                self@ + line_codes(text@.subrange(i as int, n as int)) == start + line_codes(text@),
                self.interrupt == old(self).interrupt,
            decreases n - i,
        {
            let ghost before = self@;
            let ghost rest = text@.subrange(i as int, n as int);
            if i + 1 < n && text[i] == 13 && text[i + 1] == 10 {
                assert(rest.subrange(2, rest.len() as int) =~= text@.subrange(i + 2, n as int));
                self.buffer.push(10);
                i = i + 2;
                assert(self@ + line_codes(text@.subrange(i as int, n as int)) =~= before
                    + line_codes(rest));
            } else {
                assert(rest.subrange(1, rest.len() as int) =~= text@.subrange(i + 1, n as int));
                self.buffer.push(text[i] as u16);
                i = i + 1;
                assert(self@ + line_codes(text@.subrange(i as int, n as int)) =~= before
                    + line_codes(rest));
            }
        }
        assert(text@.subrange(n as int, n as int) =~= Seq::<u8>::empty());
        assert(self@ + line_codes(Seq::<u8>::empty()) =~= self@);
    }

    /// Hands the queue one line read from the console. The sentinel line sets
    /// the interrupt flag and adds nothing; any other line is appended.
    pub fn feed_line(&mut self, line: &[u8])
        ensures
            is_interrupt_line(line@) ==> final(self)@ == old(self)@ && final(self).interrupt,
            !is_interrupt_line(line@) ==> final(self)@ == old(self)@ + line_codes(line@)
                && final(self).interrupt == old(self).interrupt,
    {
        if is_interrupt(line) {
            self.interrupt = true;
        } else {
            self.preload(line);
        }
    }

    /// The next pending code, or `None` when the queue is empty and another
    /// line is needed.
    pub fn next(&mut self) -> (r: Option<u16>)
        ensures
            old(self)@.len() == 0 ==> r is None && final(self)@ == old(self)@,
            old(self)@.len() > 0 ==> r == Some(old(self)@[0]) && final(self)@ == old(self)@.drop_first(),
            final(self).interrupt == old(self).interrupt,
    {
        if self.buffer.len() == 0 {
            None
        } else {
            Some(self.buffer.remove(0))
        }
    }
}

} // verus!
