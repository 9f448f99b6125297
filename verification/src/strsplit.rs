//! Splitting a string at a delimiter, lazily: each call to [`StrSplit::next`]
//! hands out the text before the next delimiter occurrence and keeps the
//! rest. Positions are counted in characters. A delimiter knows where its
//! first occurrence in a string lies, through the [`Delimiter`] trait.

use vstd::prelude::*;

verus! {

/// The first position at or after `i` holding `c`, or the length.
pub open spec fn char_index_from(s: Seq<char>, c: char, i: int) -> int
    decreases s.len() - i,
{
    if i < 0 || i >= s.len() {
        s.len() as int
    } else if s[i] == c {
        i
    } else {
        char_index_from(s, c, i + 1)
    }
}

pub proof fn lemma_char_index_from_bounds(s: Seq<char>, c: char, i: int)
    requires
        0 <= i <= s.len(),
    ensures
        i <= char_index_from(s, c, i) <= s.len(),
    decreases s.len() - i,
{
    if i < s.len() && s[i] != c {
        lemma_char_index_from_bounds(s, c, i + 1);
    }
}

/// Whether `pat` occurs in `s` at position `i`.
pub open spec fn match_at(s: Seq<char>, pat: Seq<char>, i: int) -> bool {
    0 <= i && i + pat.len() <= s.len() && s.subrange(i, i + pat.len()) == pat
}

/// The first position at or after `i` where `pat` occurs in `s`, or `-1`.
pub open spec fn substr_index_from(s: Seq<char>, pat: Seq<char>, i: int) -> int
    decreases s.len() + 1 - i,
{
    if i < 0 || i + pat.len() > s.len() {
        -1
    } else if match_at(s, pat, i) {
        i
    } else {
        substr_index_from(s, pat, i + 1)
    }
}

pub proof fn lemma_substr_index_from(s: Seq<char>, pat: Seq<char>, i: int)
    requires
        0 <= i,
    ensures
        substr_index_from(s, pat, i) == -1 || (i <= substr_index_from(s, pat, i)
            && substr_index_from(s, pat, i) + pat.len() <= s.len()),
    decreases s.len() + 1 - i,
{
    if i + pat.len() <= s.len() && !match_at(s, pat, i) {
        lemma_substr_index_from(s, pat, i + 1);
    }
}

/// Something that can locate its first occurrence in a string. `spec_find`
/// names the occurrence — the start and end position, in characters — and
/// `find_next` computes it.
pub trait Delimiter {
    /// Where the first occurrence lies: `Some((start, end))`, both within
    /// the string, or `None` when there is none.
    spec fn spec_find(&self, s: Seq<char>) -> Option<(int, int)>;

    /// The named occurrence is always well-placed.
    proof fn find_in_bounds(&self, s: Seq<char>)
        ensures
            self.spec_find(s) matches Some(p) ==> 0 <= p.0 <= p.1 <= s.len(),
    ;

    /// Locates the first occurrence of `self` in `s`.
    fn find_next(&self, s: &str) -> (r: Option<(usize, usize)>)
        ensures
            match r {
                Some(p) => self.spec_find(s@) == Some((p.0 as int, p.1 as int)),
                None => self.spec_find(s@) is None,
            },
    ;
}

impl Delimiter for char {
    /// A character's first occurrence spans exactly one position.
    open spec fn spec_find(&self, s: Seq<char>) -> Option<(int, int)> {
        let i = char_index_from(s, *self, 0);
        if i < s.len() {
            Some((i, i + 1))
        } else {
            None
        }
    }

    proof fn find_in_bounds(&self, s: Seq<char>) {
        lemma_char_index_from_bounds(s, *self, 0);
    }

    fn find_next(&self, s: &str) -> (r: Option<(usize, usize)>) {
        let n = s.unicode_len();
        let mut i: usize = 0;
        while i < n && s.get_char(i) != *self
            invariant
                i <= n,
                n == s@.len(),
                char_index_from(s@, *self, 0) == char_index_from(s@, *self, i as int),
            decreases n - i,
        {
            i += 1;
        }
        proof {
            assert(char_index_from(s@, *self, i as int) == i);
        }
        if i < n {
            Some((i, i + 1))
        } else {
            None
        }
    }
}

impl<'a> Delimiter for &'a str {
    /// A substring's first occurrence spans its own length; the empty
    /// substring occurs at the start.
    open spec fn spec_find(&self, s: Seq<char>) -> Option<(int, int)> {
        let i = substr_index_from(s, self@, 0);
        if i >= 0 {
            Some((i, i + self@.len()))
        } else {
            None
        }
    }

    proof fn find_in_bounds(&self, s: Seq<char>) {
        lemma_substr_index_from(s, self@, 0);
    }

    fn find_next(&self, s: &str) -> (r: Option<(usize, usize)>) {
        let n = s.unicode_len();
        let k = self.unicode_len();
        if k > n {
            proof {
                assert(substr_index_from(s@, self@, 0) == -1);
            }
            return None;
        }
        let mut i: usize = 0;
        while i <= n - k
            invariant
                k <= n,
                i <= n - k + 1,
                n == s@.len(),
                k == self@.len(),
                substr_index_from(s@, self@, 0) == substr_index_from(s@, self@, i as int),
            decreases n - i,
        {
            let mut j: usize = 0;
            let mut matched = true;
            while j < k
                invariant
                    j <= k,
                    i + k <= n,
                    n == s@.len(),
                    k == self@.len(),
                    matched == (s@.subrange(i as int, i + j) =~= self@.subrange(0, j as int)),
                decreases k - j,
            {
                if s.get_char(i + j) != self.get_char(j) {
                    matched = false;
                    proof {
                        assert(s@.subrange(i as int, i + j + 1)[j as int] != self@.subrange(
                            0,
                            j + 1,
                        )[j as int]);
                    }
                } else {
                    proof {
                        if matched {
                            assert(s@.subrange(i as int, i + j + 1) =~= self@.subrange(0, j + 1));
                        } else {
                            let w = choose|w: int|
                                0 <= w < j && s@.subrange(i as int, i + j as int)[w]
                                    != self@.subrange(0, j as int)[w];
                            assert(s@.subrange(i as int, i + j + 1)[w] != self@.subrange(
                                0,
                                j + 1,
                            )[w]);
                        }
                    }
                }
                j += 1;
            }
            if matched {
                proof {
                    assert(s@.subrange(i as int, i + k) =~= self@);
                    assert(match_at(s@, self@, i as int));
                }
                return Some((i, i + k));
            }
            proof {
                assert(s@.subrange(i as int, i + k) != self@);
                assert(!match_at(s@, self@, i as int));
            }
            i += 1;
        }
        proof {
            assert(substr_index_from(s@, self@, i as int) == -1);
        }
        None
    }
}

/// Splits a haystack lazily at a delimiter.
pub struct StrSplit<'haystack, D> {
    remainder: Option<&'haystack str>,
    delimiter: D,
}

impl<'haystack, D> StrSplit<'haystack, D> {
    /// What is still unsplit, if anything.
    pub closed spec fn spec_remainder(self) -> Option<Seq<char>> {
        match self.remainder {
            Some(r) => Some(r@),
            None => None,
        }
    }

    /// The delimiter the splitter was built with.
    pub closed spec fn spec_delimiter(self) -> D {
        self.delimiter
    }

    /// A splitter over the whole haystack.
    pub fn new(haystack: &'haystack str, delimiter: D) -> (r: Self)
        ensures
            r.spec_remainder() == Some(haystack@),
            r.spec_delimiter() == delimiter,
    {
        Self { remainder: Some(haystack), delimiter }
    }
}

impl<'haystack, D: Delimiter> StrSplit<'haystack, D> {
    /// The next piece: the text before the delimiter's first occurrence in
    /// the remainder, the remainder then continuing after that occurrence —
    /// or the whole remainder when the delimiter no longer occurs, or
    /// nothing once the haystack is spent.
    pub fn next(&mut self) -> (r: Option<&'haystack str>)
        ensures
            match old(self).spec_remainder() {
                None => r is None && final(self).spec_remainder() is None,
                Some(rem) => match old(self).spec_delimiter().spec_find(rem) {
                    Some(p) => (r matches Some(piece) && piece@ == rem.take(p.0)) && final(self)
                        .spec_remainder() == Some(rem.skip(p.1)),
                    None => (r matches Some(piece) && piece@ == rem) && final(self)
                        .spec_remainder() is None,
                },
            },
            final(self).spec_delimiter() == old(self).spec_delimiter(),
    {
        let remainder = match &self.remainder {
            Some(r) => *r,
            None => {
                return None;
            },
        };
        match self.delimiter.find_next(remainder) {
            Some((delim_start, delim_end)) => {
                proof {
                    self.delimiter.find_in_bounds(remainder@);
                }
                let n = remainder.unicode_len();
                let until_delimiter = remainder.substring_char(0, delim_start);
                self.remainder = Some(remainder.substring_char(delim_end, n));
                proof {
                    assert(remainder@.subrange(0, delim_start as int) =~= remainder@.take(
                        delim_start as int,
                    ));
                    assert(remainder@.subrange(delim_end as int, remainder@.len() as int)
                        =~= remainder@.skip(delim_end as int));
                }
                Some(until_delimiter)
            },
            None => {
                self.remainder = None;
                Some(remainder)
            },
        }
    }
}

/// The text before the first occurrence of `c` in `s` — the whole of `s`
/// when `c` does not occur.
pub fn until_char<'s>(s: &'s str, c: char) -> (r: &'s str)
    ensures
        char_index_from(s@, c, 0) < s@.len() ==> r@ == s@.take(char_index_from(s@, c, 0)),
        char_index_from(s@, c, 0) == s@.len() ==> r@ == s@,
{
    proof {
        lemma_char_index_from_bounds(s@, c, 0);
    }
    let mut split = StrSplit::new(s, c);
    match split.next() {
        Some(piece) => piece,
        None => unreached(),
    }
}

} // verus!
