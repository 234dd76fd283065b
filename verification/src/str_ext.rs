//! Searching text for what follows a pattern: the position after its first
//! occurrence, and the token that starts there.
//!
//! Positions count characters, matching the character model the rest of the
//! library uses for text.

use crate::config::is_ws;
use vstd::prelude::*;
use vstd::string::StrSliceExecFns;

verus! {

/// `pat` occurs in `s` at position `i`.
pub open spec fn match_at(s: Seq<char>, pat: Seq<char>, i: int) -> bool {
    0 <= i && i + pat.len() <= s.len() && s.subrange(i, i + pat.len()) == pat
}

/// `pat` occurs somewhere in `s`.
pub open spec fn has_match(s: Seq<char>, pat: Seq<char>) -> bool {
    exists|i: int| match_at(s, pat, i)
}

pub trait StrExt {
    fn find_after(&self, pattern: &str) -> Option<usize>;

    fn find_token_after(&self, pattern: &str) -> Option<core::ops::Range<usize>>;
}

impl StrExt for str {
    /// The position just past the first occurrence of `pattern`, if there is
    /// one.
    fn find_after(&self, pattern: &str) -> (r: Option<usize>)
        ensures
            r matches Some(p) ==> exists|i: int|
                match_at(self@, pattern@, i) && p == i + pattern@.len() && (forall|j: int|
                    0 <= j < i ==> !match_at(self@, pattern@, j)),
            r is None ==> !has_match(self@, pattern@),
    {
        let n: usize = self.unicode_len();
        let m: usize = pattern.unicode_len();
        if m > n {
            return None;
        }
        let mut i: usize = 0;
        while i <= n - m
            invariant
                m <= n,
                n == self@.len(),
                m == pattern@.len(),
                i <= n - m + 1,
                m == 0 ==> i == 0,
                forall|j: int| 0 <= j < i ==> !match_at(self@, pattern@, j),
            decreases n - i,
        {
            let mut k: usize = 0;
            let mut hit: bool = true;
            while k < m
                invariant_except_break
                    k <= m,
                    i + m <= n,
                    n == self@.len(),
                    m == pattern@.len(),
                    hit,
                    forall|q: int| 0 <= q < k ==> self@[i + q] == pattern@[q],
                ensures
                    hit ==> forall|q: int| 0 <= q < m ==> self@[i + q] == pattern@[q],
                    !hit ==> !match_at(self@, pattern@, i as int),
                    !hit ==> m >= 1,
                decreases m - k,
            {
                if self.get_char(i + k) != pattern.get_char(k) {
                    proof {
                        assert(self@.subrange(i as int, i + m as int)[k as int] == self@[i + k]);
                    }
                    hit = false;
                    break ;
                }
                k = k + 1;
            }
            if hit {
                proof {
                    assert(self@.subrange(i as int, i + m as int) =~= pattern@);
                    assert(match_at(self@, pattern@, i as int));
                }
                return Some(i + m);
            }
            i = i + 1;
        }
        proof {
            assert forall|j: int| match_at(self@, pattern@, j) implies false by {
                assert(0 <= j <= n - m);
            }
        }
        None
    }

    /// The span of the token that follows the first occurrence of `pattern`:
    /// from just past the pattern to the first whitespace after it. `None`
    /// when the pattern does not occur or no whitespace follows.
    fn find_token_after(&self, pattern: &str) -> (r: Option<core::ops::Range<usize>>)
        ensures
            r matches Some(rg) ==> {
                &&& exists|i: int|
                    match_at(self@, pattern@, i) && rg.start == i + pattern@.len() && (forall|
                        j: int,
                    |
                        0 <= j < i ==> !match_at(self@, pattern@, j))
                &&& rg.start <= rg.end < self@.len()
                &&& is_ws(self@[rg.end as int])
                &&& forall|q: int| rg.start <= q < rg.end ==> !is_ws(#[trigger] self@[q])
            },
            r is None ==> !has_match(self@, pattern@) || (exists|i: int|
                match_at(self@, pattern@, i) && (forall|q: int|
                    i + pattern@.len() <= q < self@.len() ==> !is_ws(#[trigger] self@[q]))),
    {
        let pos: usize = match self.find_after(pattern) {
            Some(p) => p,
            None => {
                return None;
            },
        };
        let n: usize = self.unicode_len();
        let mut j: usize = pos;
        while j < n
            invariant_except_break
                pos <= j <= n,
                n == self@.len(),
                forall|q: int| pos <= q < j ==> !is_ws(#[trigger] self@[q]),
            ensures
                pos <= j <= n,
                n == self@.len(),
                forall|q: int| pos <= q < j ==> !is_ws(#[trigger] self@[q]),
                j < n ==> is_ws(self@[j as int]),
            decreases n - j,
        {
            let c: char = self.get_char(j);
            if c == ' ' || c == '\t' || c == '\n' || c == '\r' || c as u32 == 0x0b || c as u32
                == 0x0c {
                break ;
            }
            j = j + 1;
        }
        if j >= n {
            return None;
        }
        Some(pos..j)
    }
}

} // verus!
