//! Verified character-level text utilities: substring search, string
//! equality, parent paths and the trailing segment of a URL.

use vstd::prelude::*;
use vstd::string::StrSliceExecFns;

verus! {

/// Whether `p` occurs in `t` starting exactly at index `i`.
pub open spec fn is_match_at(t: Seq<char>, p: Seq<char>, i: int) -> bool {
    &&& 0 <= i
    &&& i + p.len() <= t.len()
    &&& t.subrange(i, i + p.len() as int) == p
}

/// The first index at or after `i` where `p` occurs in `t`, if any.
pub open spec fn find_from(t: Seq<char>, p: Seq<char>, i: int) -> Option<int>
    recommends
        0 <= i,
    decreases t.len() - i + 1,
{
    if i < 0 || i + p.len() > t.len() {
        None
    } else if t.subrange(i, i + p.len() as int) == p {
        Some(i)
    } else {
        find_from(t, p, i + 1)
    }
}

/// The first index where `p` occurs in `t`, if any.
pub open spec fn find_first(t: Seq<char>, p: Seq<char>) -> Option<int> {
    find_from(t, p, 0)
}

/// A found index really is a match site.
pub proof fn lemma_find_from_is_match(t: Seq<char>, p: Seq<char>, i: int, found: int)
    requires
        0 <= i,
        find_from(t, p, i) == Some(found),
    ensures
        is_match_at(t, p, found),
        i <= found,
    decreases t.len() - i + 1,
{
    if i + p.len() <= t.len() && t.subrange(i, i + p.len() as int) != p {
        lemma_find_from_is_match(t, p, i + 1, found);
    }
}

/// Whether `p` occurs at the start of `t` offset by `i`, decided by
/// character-by-character comparison.
pub fn match_at(text: &str, pat: &str, i: usize) -> (b: bool)
    requires
        i + pat@.len() <= text@.len(),
        text@.len() <= usize::MAX,
    ensures
        b == is_match_at(text@, pat@, i as int),
{
    let m = pat.unicode_len();
    let mut j: usize = 0;
    while j < m
        invariant
            m == pat@.len(),
            i + m <= text@.len(),
            text@.len() <= usize::MAX,
            0 <= j <= m,
            forall|k: int| 0 <= k < j ==> text@[i + k] == pat@[k],
        decreases m - j,
    {
        if text.get_char(i + j) != pat.get_char(j) {
            assert(text@.subrange(i as int, i + m) != pat@) by {
                assert(text@.subrange(i as int, i + m)[j as int] == text@[i + j]);
            }
            return false;
        }
        j += 1;
    }
    assert(text@.subrange(i as int, i + m) =~= pat@);
    true
}

/// Find the first occurrence of `pat` in `text`, as a character index.
pub fn find_sub(text: &str, pat: &str) -> (r: Option<usize>)
    ensures
        match r {
            Some(i) => find_first(text@, pat@) == Some(i as int),
            None => find_first(text@, pat@) is None,
        },
{
    let n = text.unicode_len();
    let m = pat.unicode_len();
    if m > n {
        return None;
    }
    if m == 0 {
        assert(text@.subrange(0, 0) =~= pat@);
        return Some(0);
    }
    let mut i: usize = 0;
    while i <= n - m
        invariant
            n == text@.len(),
            m == pat@.len(),
            0 < m <= n,
            0 <= i <= n - m + 1,
            find_first(text@, pat@) == find_from(text@, pat@, i as int),
        decreases n - i,
    {
        if match_at(text, pat, i) {
            return Some(i);
        }
        i += 1;
    }
    None
}

/// Character-for-character string equality.
pub fn str_eq(a: &str, b: &str) -> (r: bool)
    ensures
        r == (a@ == b@),
{
    let n = a.unicode_len();
    if n != b.unicode_len() {
        return false;
    }
    let r = match_at(a, b, 0);
    proof {
        assert(a@.subrange(0, a@.len() as int) =~= a@);
    }
    r
}

/// The prefix of `p` before its last separator; empty when `p` holds no
/// separator.
pub open spec fn parent_of(p: Seq<char>) -> Seq<char>
    decreases p.len(),
{
    if p.len() == 0 {
        Seq::empty()
    } else if p[p.len() - 1] == '/' {
        p.take(p.len() - 1)
    } else {
        parent_of(p.take(p.len() - 1))
    }
}

/// The parent directory of a joined path: everything before the last `/`.
pub fn parent_dir(path: &str) -> (r: String)
    ensures
        r@ == parent_of(path@),
{
    let n = path.unicode_len();
    proof {
        assert(path@.take(n as int) =~= path@);
    }
    let mut i: usize = n;
    while i > 0
        invariant
            n == path@.len(),
            0 <= i <= n,
            parent_of(path@) == parent_of(path@.take(i as int)),
        decreases i,
    {
        proof {
            assert(path@.take(i as int)[i - 1] == path@[i - 1]);
            assert(path@.take(i as int).take(i - 1) =~= path@.take(i - 1));
        }
        if path.get_char(i - 1) == '/' {
            return path.substring_char(0, i - 1).to_owned();
        }
        i -= 1;
    }
    proof {
        assert(path@.take(0) =~= Seq::<char>::empty());
    }
    String::new()
}

/// The suffix of `u` after its last separator; the whole of `u` when it
/// holds no separator.
pub open spec fn tail_after_slash(u: Seq<char>) -> Seq<char>
    decreases u.len(),
{
    if u.len() == 0 {
        Seq::empty()
    } else if u[u.len() - 1] == '/' {
        Seq::empty()
    } else {
        tail_after_slash(u.take(u.len() - 1)).push(u[u.len() - 1])
    }
}

/// The placeholder filename used when a URL ends in a separator or is empty.
pub open spec fn default_filename() -> Seq<char> {
    "download.zip"@
}

/// The local filename derived from a URL: its trailing path segment, or the
/// fixed placeholder when the URL has no trailing segment.
pub open spec fn spec_download_filename(url: Seq<char>) -> Seq<char> {
    if tail_after_slash(url).len() == 0 {
        default_filename()
    } else {
        tail_after_slash(url)
    }
}

/// Derive the local filename for a download from its source URL.
pub fn filename_from_url(url: &str) -> (r: String)
    ensures
        r@ == spec_download_filename(url@),
{
    let n = url.unicode_len();
    proof {
        assert(url@.take(n as int) =~= url@);
        assert(tail_after_slash(url@.take(n as int)) + url@.skip(n as int) =~= tail_after_slash(
            url@,
        ));
    }
    let mut i: usize = n;
    while i > 0
        invariant
            n == url@.len(),
            0 <= i <= n,
            tail_after_slash(url@) == tail_after_slash(url@.take(i as int)) + url@.skip(i as int),
        decreases i,
    {
        proof {
            assert(url@.take(i as int)[i - 1] == url@[i - 1]);
            assert(url@.take(i as int).take(i - 1) =~= url@.take(i - 1));
        }
        if url.get_char(i - 1) == '/' {
            proof {
                assert(tail_after_slash(url@) =~= url@.skip(i as int));
            }
            if i == n {
                return "download.zip".to_owned();
            }
            return url.substring_char(i, n).to_owned();
        }
        proof {
            assert(tail_after_slash(url@.take(i as int)) == tail_after_slash(
                url@.take(i - 1),
            ).push(url@[i - 1]));
            assert(tail_after_slash(url@.take(i - 1)).push(url@[i - 1]) + url@.skip(i as int)
                =~= tail_after_slash(url@.take(i - 1)) + url@.skip(i - 1));
        }
        i -= 1;
    }
    proof {
        assert(url@.take(0) =~= Seq::<char>::empty());
        assert(tail_after_slash(url@) =~= url@);
    }
    if n == 0 {
        return "download.zip".to_owned();
    }
    url.to_owned()
}

} // verus!
