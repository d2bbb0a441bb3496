//! Character-level string operations: substring search, replacement of the
//! first occurrence of a pattern, whitespace trimming, and equality.

use vstd::prelude::*;
use vstd::string::*;

verus! {

/// `needle` occurs in `hay` starting at position `i`.
pub open spec fn match_at(hay: Seq<char>, needle: Seq<char>, i: int) -> bool {
    0 <= i && i + needle.len() <= hay.len() && hay.subrange(i, i + needle.len()) == needle
}

/// `needle` occurs somewhere in `hay`.
pub open spec fn contains_substring(hay: Seq<char>, needle: Seq<char>) -> bool {
    exists|i: int| match_at(hay, needle, i)
}

/// `i` is the position of the first occurrence of `needle` in `hay`.
pub open spec fn is_first_match(hay: Seq<char>, needle: Seq<char>, i: int) -> bool {
    match_at(hay, needle, i) && forall|j: int| 0 <= j < i ==> !match_at(hay, needle, j)
}

/// The position of the first occurrence of `needle` in `hay`; meaningful
/// only when `contains_substring(hay, needle)` holds.
pub open spec fn first_match(hay: Seq<char>, needle: Seq<char>) -> int {
    choose|i: int| is_first_match(hay, needle, i)
}

/// `hay` with only the first occurrence of `needle` replaced by `repl`;
/// `hay` unchanged when `needle` does not occur.
pub open spec fn with_first_replaced(hay: Seq<char>, needle: Seq<char>, repl: Seq<char>) -> Seq<
    char,
> {
    if contains_substring(hay, needle) {
        let i = first_match(hay, needle);
        hay.subrange(0, i) + repl + hay.subrange(i + needle.len(), hay.len() as int)
    } else {
        hay
    }
}

/// Whitespace characters stripped from the ends of captured tool output.
pub open spec fn is_trim_space(c: char) -> bool {
    c == ' ' || c == '\n' || c == '\r' || c == '\t'
}

/// `s` with leading and trailing whitespace removed.
pub open spec fn trimmed(s: Seq<char>) -> Seq<char>
    decreases s.len(),
{
    if s.len() == 0 {
        s
    } else if is_trim_space(s[0]) {
        trimmed(s.drop_first())
    } else if is_trim_space(s[s.len() - 1]) {
        trimmed(s.drop_last())
    } else {
        s
    }
}

fn chars_match_at(hay: &str, needle: &str, i: usize) -> (r: bool)
    requires
        i + needle@.len() <= hay@.len(),
        hay@.len() <= usize::MAX,
    ensures
        r == match_at(hay@, needle@, i as int),
{
    let n = needle.unicode_len();
    let mut j: usize = 0;
    while j < n
        invariant
            j <= n,
            n == needle@.len(),
            i + n <= hay@.len(),
            hay@.len() <= usize::MAX,
            forall|k: int| 0 <= k < j ==> hay@[i + k] == needle@[k],
        decreases n - j,
    {
        let hc = hay.get_char(i + j);
        let nc = needle.get_char(j);
        if hc != nc {
            proof {
                let sub = hay@.subrange(i as int, i + n);
                assert(sub[j as int] == hay@[i + j]);
                assert(sub != needle@);
            }
            return false;
        }
        j += 1;
    }
    proof {
        assert(hay@.subrange(i as int, i + n) =~= needle@);
    }
    true
}

/// Position of the first occurrence of `needle` in `hay`, if any.
pub fn find_first(hay: &str, needle: &str) -> (r: Option<usize>)
    ensures
        match r {
            Some(i) => is_first_match(hay@, needle@, i as int),
            None => !contains_substring(hay@, needle@),
        },
{
    let h = hay.unicode_len();
    let n = needle.unicode_len();
    if n > h {
        proof {
            assert forall|j: int| !#[trigger] match_at(hay@, needle@, j) by {
                if match_at(hay@, needle@, j) {
                    assert(j + needle@.len() <= hay@.len());
                }
            }
        }
        return None;
    }
    if n == 0 {
        proof {
            assert(hay@.subrange(0, 0) =~= needle@);
            assert(match_at(hay@, needle@, 0));
        }
        return Some(0);
    }
    let mut i: usize = 0;
    while i <= h - n
        invariant
            1 <= n <= h,
            h == hay@.len(),
            n == needle@.len(),
            i <= h - n + 1,
            forall|j: int| 0 <= j < i ==> !match_at(hay@, needle@, j),
        decreases h - n + 1 - i,
    {
        if chars_match_at(hay, needle, i) {
            return Some(i);
        }
        i += 1;
    }
    proof {
        assert forall|j: int| !#[trigger] match_at(hay@, needle@, j) by {
            if match_at(hay@, needle@, j) {
                assert(0 <= j && j + n <= h);
                assert(j < i as int);
            }
        }
    }
    None
}

/// Whether `needle` occurs in `hay`.
pub fn contains_substr(hay: &str, needle: &str) -> (r: bool)
    ensures
        r == contains_substring(hay@, needle@),
{
    match find_first(hay, needle) {
        Some(i) => {
            proof {
                assert(match_at(hay@, needle@, i as int));
            }
            true
        },
        None => false,
    }
}

/// `hay` with only the first occurrence of `needle` replaced by `repl`.
pub fn replace_first(hay: &str, needle: &str, repl: &str) -> (r: String)
    ensures
        r@ == with_first_replaced(hay@, needle@, repl@),
{
    match find_first(hay, needle) {
        Some(i) => {
            let h = hay.unicode_len();
            let n = needle.unicode_len();
            proof {
                assert(match_at(hay@, needle@, i as int));
            }
            let head = hay.substring_char(0, i);
            let tail = hay.substring_char(i + n, h);
            let mut out = head.to_owned();
            out.append(repl);
            out.append(tail);
            proof {
                assert(contains_substring(hay@, needle@)) by {
                    assert(match_at(hay@, needle@, i as int));
                }
                let fm = first_match(hay@, needle@);
                assert(is_first_match(hay@, needle@, fm));
                assert(fm == i as int);
            }
            out
        },
        None => hay.to_owned(),
    }
}

/// Character-by-character equality of two string slices.
pub fn str_eq(a: &str, b: &str) -> (r: bool)
    ensures
        r == (a@ == b@),
{
    let la = a.unicode_len();
    let lb = b.unicode_len();
    if la != lb {
        return false;
    }
    let mut i: usize = 0;
    while i < la
        invariant
            i <= la,
            la == a@.len(),
            la == b@.len(),
            forall|k: int| 0 <= k < i ==> a@[k] == b@[k],
        decreases la - i,
    {
        if a.get_char(i) != b.get_char(i) {
            return false;
        }
        i += 1;
    }
    proof {
        assert(a@ =~= b@);
    }
    true
}

fn is_space_char(c: char) -> (r: bool)
    ensures
        r == is_trim_space(c),
{
    c == ' ' || c == '\n' || c == '\r' || c == '\t'
}

/// `s` with leading and trailing whitespace removed.
pub fn trim(s: &str) -> (r: String)
    ensures
        r@ == trimmed(s@),
{
    let len = s.unicode_len();
    let mut lo: usize = 0;
    let mut hi: usize = len;
    proof {
        assert(s@.subrange(0, len as int) =~= s@);
    }
    loop
        invariant
            lo <= hi <= len,
            len == s@.len(),
            trimmed(s@) == trimmed(s@.subrange(lo as int, hi as int)),
        ensures
            lo <= hi <= len,
            trimmed(s@) == s@.subrange(lo as int, hi as int),
        decreases hi - lo,
    {
        let ghost sub = s@.subrange(lo as int, hi as int);
        if lo == hi {
            proof {
                assert(trimmed(sub) == sub);
            }
            break ;
        }
        let c = s.get_char(lo);
        if is_space_char(c) {
            proof {
                assert(sub[0] == s@[lo as int]);
                assert(trimmed(sub) == trimmed(sub.drop_first()));
                assert(sub.drop_first() =~= s@.subrange(lo as int + 1, hi as int));
            }
            lo += 1;
        } else {
            let d = s.get_char(hi - 1);
            if is_space_char(d) {
                proof {
                    assert(sub[0] == s@[lo as int]);
                    assert(sub[sub.len() - 1] == s@[hi as int - 1]);
                    assert(trimmed(sub) == trimmed(sub.drop_last()));
                    assert(sub.drop_last() =~= s@.subrange(lo as int, hi as int - 1));
                }
                hi -= 1;
            } else {
                proof {
                    assert(sub[0] == s@[lo as int]);
                    assert(sub[sub.len() - 1] == s@[hi as int - 1]);
                    assert(trimmed(sub) == sub);
                }
                break ;
            }
        }
    }
    let kept = s.substring_char(lo, hi);
    kept.to_owned()
}

} // verus!
