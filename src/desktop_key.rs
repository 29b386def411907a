//! The textual form of a desktop key, `Desktop(Guid(<GUID>))`.
use vstd::prelude::*;

verus! {

/// The marker that opens the GUID part of a key.
pub open spec fn guid_marker() -> Seq<char> {
    seq!['G', 'u', 'i', 'd', '(']
}

/// `pat` occurs in `s` starting at index `i`.
pub open spec fn occurs_at(s: Seq<char>, pat: Seq<char>, i: int) -> bool {
    &&& 0 <= i
    &&& i + pat.len() <= s.len()
    &&& s.subrange(i, i + pat.len()) == pat
}

/// The first index at or after `from` where `pat` occurs in `s`.
pub open spec fn find_from(s: Seq<char>, pat: Seq<char>, from: int) -> Option<int>
    decreases s.len() + 1 - from,
{
    if from < 0 || from + pat.len() > s.len() {
        None
    } else if occurs_at(s, pat, from) {
        Some(from)
    } else {
        find_from(s, pat, from + 1)
    }
}

/// The GUID held by a key: what lies between the first `Guid(` and the next `)`.
pub open spec fn guid_of(key: Seq<char>) -> Option<Seq<char>> {
    match find_from(key, guid_marker(), 0) {
        None => None,
        Some(p) => match find_from(key, seq![')'], p + 5) {
            None => None,
            Some(q) => Some(key.subrange(p + 5, q)),
        },
    }
}

/// The key under which the label of desktop `id` is stored.
pub open spec fn key_of(id: Seq<char>) -> Seq<char> {
    seq!['D', 'e', 's', 'k', 't', 'o', 'p', '(', 'G', 'u', 'i', 'd', '('] + id + seq![')', ')']
}

/// A search that succeeds lands at or after its start, on an occurrence.
proof fn lemma_find_found(s: Seq<char>, pat: Seq<char>, from: int)
    requires
        0 <= from,
        find_from(s, pat, from) is Some,
    ensures
        from <= find_from(s, pat, from)->0,
        occurs_at(s, pat, find_from(s, pat, from)->0),
    decreases s.len() + 1 - from,
{
    if !occurs_at(s, pat, from) {
        lemma_find_found(s, pat, from + 1);
    }
}

/// If `pat` occurs nowhere in `[from, to)`, searching from `from` is searching from `to`.
proof fn lemma_find_skip(s: Seq<char>, pat: Seq<char>, from: int, to: int)
    requires
        0 <= from <= to,
        pat.len() > 0,
        forall|i: int| from <= i < to ==> !occurs_at(s, pat, i),
    ensures
        find_from(s, pat, from) == find_from(s, pat, to),
    decreases to - from,
{
    if from < to {
        lemma_find_skip(s, pat, from + 1, to);
    }
}

/// `s[i..j]` equals `pat` exactly when the characters agree one by one.
fn matches_at(s: &str, n: usize, pat: &str, m: usize, i: usize) -> (r: bool)
    requires
        n == s@.len(),
        m == pat@.len(),
        i + m <= n,
    ensures
        r == occurs_at(s@, pat@, i as int),
{
    let mut k: usize = 0;
    while k < m
        invariant
            n == s@.len(),
            m == pat@.len(),
            i + m <= n,
            k <= m,
            forall|t: int| 0 <= t < k ==> s@[i + t] == pat@[t],
        decreases m - k,
    {
        if s.get_char(i + k) != pat.get_char(k) {
            assert(s@.subrange(i as int, i + m)[k as int] != pat@[k as int]);
            return false;
        }
        k = k + 1;
    }
    assert(s@.subrange(i as int, i + m) =~= pat@);
    true
}

/// The first index at or after `from` where `pat` occurs in `s`.
fn find(s: &str, n: usize, pat: &str, m: usize, from: usize) -> (r: Option<usize>)
    requires
        n == s@.len(),
        m == pat@.len(),
        m > 0,
    ensures
        r matches Some(i) ==> find_from(s@, pat@, from as int) == Some(i as int) && from <= i
            && i + m <= n,
        r is None ==> find_from(s@, pat@, from as int) is None,
{
    if n < m {
        return None;
    }
    let mut i: usize = from;
    while i <= n - m
        invariant
            n == s@.len(),
            m == pat@.len(),
            0 < m <= n,
            from <= i,
            find_from(s@, pat@, from as int) == find_from(s@, pat@, i as int),
        decreases n + 1 - i,
    {
        if matches_at(s, n, pat, m, i) {
            proof {
                lemma_find_found(s@, pat@, from as int);
            }
            return Some(i);
        }
        i = i + 1;
    }
    None
}

/// Returns the GUID part of a desktop key: the text after the first `Guid(`
/// up to the next `)`, or `None` when either marker is missing.
pub fn extract_guid_from_key(key: &str) -> (r: Option<&str>)
    ensures
        r matches Some(g) ==> guid_of(key@) == Some(g@),
        r is None ==> guid_of(key@) is None,
{
    let marker = "Guid(";
    let close = ")";
    proof {
        reveal_strlit("Guid(");
        reveal_strlit(")");
        assert(marker@ =~= guid_marker());
        assert(close@ =~= seq![')']);
    }
    let n = key.unicode_len();
    match find(key, n, marker, 5, 0) {
        None => None,
        Some(p) => {
            let start = p + 5;
            match find(key, n, close, 1, start) {
                None => None,
                Some(q) => Some(key.substring_char(start, q)),
            }
        },
    }
}

/// Formats a desktop identifier into the key under which its label is stored.
pub fn desktop_key(id: &str) -> (r: String)
    ensures
        r@ == key_of(id@),
{
    let mut r = "Desktop(Guid(".to_owned();
    r.append(id);
    r.append("))");
    proof {
        reveal_strlit("Desktop(Guid(");
        reveal_strlit("))");
        assert(r@ =~= key_of(id@));
    }
    r
}

/// Formatting an identifier into a key and extracting the GUID back gives the
/// identifier again, provided it holds no closing parenthesis.
pub proof fn lemma_guid_of_key(id: Seq<char>)
    requires
        !id.contains(')'),
    ensures
        guid_of(key_of(id)) == Some(id),
{
    let key = key_of(id);
    let m = guid_marker();
    assert forall|i: int| 0 <= i < 8 implies !occurs_at(key, m, i) by {
        if occurs_at(key, m, i) {
            assert(key.subrange(i, i + 5)[0] == m[0]);
        }
    }
    lemma_find_skip(key, m, 0, 8);
    assert(key.subrange(8, 13) =~= m);
    let c = seq![')'];
    let end = 13 + id.len() as int;
    assert forall|i: int| 13 <= i < end implies !occurs_at(key, c, i) by {
        if occurs_at(key, c, i) {
            assert(key.subrange(i, i + 1)[0] == c[0]);
            assert(id[i - 13] == ')');
        }
    }
    lemma_find_skip(key, c, 13, end);
    assert(key.subrange(end, end + 1) =~= c);
    assert(key.subrange(13, end) =~= id);
}

} // verus!
