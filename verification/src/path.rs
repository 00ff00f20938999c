//! Request-path handling: stripping the leading separator and extracting the
//! extension of the final path segment.

use vstd::prelude::*;

verus! {

/// The filesystem path a request path maps to: the request path with a single
/// leading `/` removed, and nothing else changed.
pub open spec fn strip_leading_separator(s: Seq<char>) -> Seq<char> {
    if s.len() > 0 && s[0] == '/' {
        s.subrange(1, s.len() as int)
    } else {
        s
    }
}

/// The extension of a path: the characters after the last `.` of the final
/// path segment, or `None` when the final segment holds no `.` at all.
/// A trailing `.` yields the empty extension, which is distinct from `None`.
pub open spec fn extension_of(p: Seq<char>) -> Option<Seq<char>>
    decreases p.len(),
{
    if p.len() == 0 {
        None
    } else if p.last() == '/' {
        None
    } else if p.last() == '.' {
        Some(Seq::empty())
    } else {
        match extension_of(p.drop_last()) {
            Some(e) => Some(e.push(p.last())),
            None => None,
        }
    }
}

/// A suffix that holds neither `.` nor `/` neither starts nor ends an
/// extension: it extends whatever extension the prefix before it has.
proof fn lemma_extension_clean_suffix(p: Seq<char>, j: int)
    requires
        0 <= j <= p.len(),
        forall|k: int| j <= k < p.len() ==> p[k] != '.' && p[k] != '/',
    ensures
        match extension_of(p.take(j)) {
            Some(e) => extension_of(p) == Some(e + p.skip(j)),
            None => extension_of(p) is None,
        },
    decreases p.len() - j,
{
    if j == p.len() {
        assert(p.take(j) =~= p);
        match extension_of(p) {
            Some(e) => {
                assert(e + p.skip(j) =~= e);
            },
            None => {},
        }
    } else {
        lemma_extension_clean_suffix(p, j + 1);
        assert(p.take(j + 1).drop_last() =~= p.take(j));
        assert(p.take(j + 1).last() == p[j]);
        match extension_of(p.take(j)) {
            Some(e) => {
                assert(extension_of(p.take(j + 1)) == Some(e.push(p[j])));
                assert(e.push(p[j]) + p.skip(j + 1) =~= e + p.skip(j));
            },
            None => {
                assert(extension_of(p.take(j + 1)) is None);
            },
        }
    }
}

/// The extension of the final path segment, as `extension_of` defines it,
/// as a borrowed slice of the path.
pub fn extension_part<'a>(p: &'a str) -> (r: Option<&'a str>)
    ensures
        match extension_of(p@) {
            Some(e) => r matches Some(s) && s@ == e,
            None => r is None,
        },
{
    let n = p.unicode_len();
    let mut j = n;
    while j > 0
        invariant
            j <= n,
            n == p@.len(),
            forall|k: int| j <= k < n ==> p@[k] != '.' && p@[k] != '/',
        decreases j,
    {
        let c = p.get_char(j - 1);
        if c == '.' {
            let ext = p.substring_char(j, n);
            proof {
                lemma_extension_clean_suffix(p@, j as int);
                assert(p@.take(j as int).last() == '.');
                assert(ext@ =~= Seq::<char>::empty() + p@.skip(j as int));
            }
            return Some(ext);
        }
        if c == '/' {
            proof {
                lemma_extension_clean_suffix(p@, j as int);
                assert(p@.take(j as int).last() == '/');
            }
            return None;
        }
        j = j - 1;
    }
    proof {
        lemma_extension_clean_suffix(p@, 0);
        assert(p@.take(0) =~= Seq::<char>::empty());
    }
    None
}

/// Character-for-character string equality, decided without assuming
/// anything about the encoding of either side.
pub fn str_eq(a: &str, b: &str) -> (r: bool)
    ensures
        r == (a@ == b@),
{
    let a_len = a.unicode_len();
    let b_len = b.unicode_len();
    if a_len != b_len {
        return false;
    }
    let mut i: usize = 0;
    while i < a_len
        invariant
            i <= a_len,
            a_len == a@.len(),
            a_len == b@.len(),
            forall|k: int| 0 <= k < i ==> a@[k] == b@[k],
        decreases a_len - i,
    {
        if a.get_char(i) != b.get_char(i) {
            return false;
        }
        i += 1;
    }
    proof {
        assert(a@ =~= b@);
    }
    true
}

} // verus!
