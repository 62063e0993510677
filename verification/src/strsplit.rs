//! A lazy splitter of a string around a delimiter-search strategy.

use vstd::prelude::*;
use vstd::string::StrSliceExecFns;

verus! {

/// The first position at or after `i` where `c` occurs in `s`.
pub open spec fn char_found_from(s: Seq<char>, c: char, i: int) -> Option<int>
    decreases s.len() - i,
{
    if i < 0 || i >= s.len() {
        None
    } else if s[i] == c {
        Some(i)
    } else {
        char_found_from(s, c, i + 1)
    }
}

/// The first position at or after `i` where `d` occurs in `s` as a
/// contiguous run. An empty `d` occurs everywhere, so it is found at `i`.
pub open spec fn sub_found_from(s: Seq<char>, d: Seq<char>, i: int) -> Option<int>
    decreases s.len() - i + 1,
{
    if i < 0 || i + d.len() > s.len() {
        None
    } else if s.subrange(i, i + d.len() as int) == d {
        Some(i)
    } else {
        sub_found_from(s, d, i + 1)
    }
}

/// A delimiter-search strategy: something that can say where, in a
/// haystack, the next occurrence of the delimiter starts and ends, both as
/// character positions.
pub trait Delimiter {
    /// Where the search finds the next occurrence, stated of the character
    /// sequence alone.
    spec fn found(&self, s: Seq<char>) -> Option<(int, int)>;

    /// The next occurrence of the delimiter in `s`: the character position
    /// where it starts and the position just past it, or nothing when the
    /// delimiter occurs nowhere in `s`.
    fn find_next(&self, s: &str) -> (r: Option<(usize, usize)>)
        ensures
            r is Some <==> self.found(s@) is Some,
            r matches Some(pos) ==> self.found(s@) == Some((pos.0 as int, pos.1 as int))
                && pos.0 <= pos.1 <= s@.len(),
    ;
}

impl Delimiter for char {
    open spec fn found(&self, s: Seq<char>) -> Option<(int, int)> {
        match char_found_from(s, *self, 0) {
            Some(i) => Some((i, i + 1)),
            None => None,
        }
    }

    fn find_next(&self, s: &str) -> (r: Option<(usize, usize)>) {
        let n = s.unicode_len();
        let mut i: usize = 0;
        while i < n
            invariant
                i <= n,
                n == s@.len(),
                char_found_from(s@, *self, 0) == char_found_from(s@, *self, i as int),
            decreases n - i,
        {
            if s.get_char(i) == *self {
                return Some((i, i + 1));
            }
            i = i + 1;
        }
        None
    }
}

/// Whether `d` occurs in `s` as a contiguous run starting at position `i`.
fn matches_at(s: &str, d: &str, i: usize) -> (r: bool)
    requires
        i + d@.len() <= s@.len(),
        s@.len() <= usize::MAX,
    ensures
        r <==> s@.subrange(i as int, i as int + d@.len() as int) == d@,
{
    let m = d.unicode_len();
    let mut j: usize = 0;
    while j < m
        invariant
            j <= m,
            m == d@.len(),
            i + m <= s@.len() <= usize::MAX,
            forall|k: int| 0 <= k < j ==> s@[i + k] == d@[k],
        decreases m - j,
    {
        if s.get_char(i + j) != d.get_char(j) {
            proof {
                assert(s@.subrange(i as int, i as int + m as int)[j as int] == s@[i + j]);
            }
            return false;
        }
        j = j + 1;
    }
    proof {
        assert(s@.subrange(i as int, i as int + m as int) =~= d@);
    }
    true
}

impl Delimiter for &str {
    open spec fn found(&self, s: Seq<char>) -> Option<(int, int)> {
        match sub_found_from(s, self@, 0) {
            Some(i) => Some((i, i + self@.len())),
            None => None,
        }
    }

    fn find_next(&self, s: &str) -> (r: Option<(usize, usize)>) {
        let n = s.unicode_len();
        let m = self.unicode_len();
        if m > n {
            return None;
        }
        if m == 0 {
            proof {
                assert(s@.subrange(0, 0) =~= self@);
            }
            return Some((0, 0));
        }
        let mut i: usize = 0;
        while i <= n - m
            invariant
                1 <= m <= n,
                n == s@.len(),
                m == self@.len(),
                i <= n - m + 1,
                sub_found_from(s@, self@, 0) == sub_found_from(s@, self@, i as int),
            decreases n - m + 1 - i,
        {
            if matches_at(s, *self, i) {
                return Some((i, i + m));
            }
            i = i + 1;
        }
        None
    }
}

/// A lazy, finite splitter: hands the pieces of a haystack out one per
/// call, splitting around the occurrences of a delimiter. The sequence is
/// restarted by constructing a fresh splitter over the same haystack.
pub struct StrSplit<'haystack, D> {
    remainder: Option<&'haystack str>,
    delimiter: D,
}

impl<'haystack, D> StrSplit<'haystack, D> {
    /// What is left to split: the haystack at first, the part after the
    /// last delimiter later, nothing once the last piece is out.
    pub closed spec fn remainder_view(&self) -> Option<Seq<char>> {
        match self.remainder {
            Some(r) => Some(r@),
            None => None,
        }
    }

    /// The delimiter the splitter was built with.
    pub closed spec fn delim(&self) -> D {
        self.delimiter
    }

    /// A splitter over `haystack`, no piece handed out yet.
    pub fn new(haystack: &'haystack str, delimiter: D) -> (split: Self)
        ensures
            split.remainder_view() == Some(haystack@),
            split.delim() == delimiter,
    {
        StrSplit { remainder: Some(haystack), delimiter }
    }
}

impl<'haystack, D: Delimiter> StrSplit<'haystack, D> {
    /// The next piece: what stands before the next occurrence of the
    /// delimiter, which this call consumes. When the delimiter occurs no
    /// more, the whole remainder is the last piece — so a haystack that
    /// ends in a delimiter yields a final empty piece — and after that
    /// there is nothing.
    pub fn next(&mut self) -> (piece: Option<&'haystack str>)
        ensures
            final(self).delim() == old(self).delim(),
            old(self).remainder_view() is None ==> piece is None
                && final(self).remainder_view() is None,
            old(self).remainder_view() matches Some(rem) ==> match old(self).delim().found(rem) {
                Some((start, end)) => piece matches Some(p) && p@ == rem.subrange(0, start)
                    && final(self).remainder_view() == Some(rem.subrange(end, rem.len() as int)),
                None => piece matches Some(p) && p@ == rem
                    && final(self).remainder_view() is None,
            },
    {
        match self.remainder {
            Some(remainder) => match self.delimiter.find_next(remainder) {
                Some((delim_start, delim_end)) => {
                    let until_delimiter = remainder.substring_char(0, delim_start);
                    let len = remainder.unicode_len();
                    self.remainder = Some(remainder.substring_char(delim_end, len));
                    Some(until_delimiter)
                },
                None => {
                    self.remainder = None;
                    Some(remainder)
                },
            },
            None => None,
        }
    }
}

/// The prefix of `s` that stands before the first occurrence of `c`; all of
/// `s` when `c` occurs nowhere in it.
pub fn until_char<'a>(s: &'a str, c: char) -> (prefix: &'a str)
    ensures
        match char_found_from(s@, c, 0) {
            Some(i) => prefix@ == s@.subrange(0, i),
            None => prefix@ == s@,
        },
{
    let mut split = StrSplit::new(s, c);
    let piece = split.next();
    piece.unwrap()
}

} // verus!
