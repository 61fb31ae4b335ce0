//! Character-sequence helpers shared by the library: order, equality and case folding.
use vstd::prelude::*;

verus! {

/// Lexicographic order of `a` and `b` from position `i` on, characters compared by
/// code point. Rust's `str` ordering compares UTF-8 bytes, which orders code points
/// the same way.
pub open spec fn chars_le_from(a: Seq<char>, b: Seq<char>, i: int) -> bool
    decreases a.len() - i,
{
    if i < 0 || i >= a.len() {
        true
    } else if i >= b.len() {
        false
    } else if a[i] as u32 != b[i] as u32 {
        (a[i] as u32) < (b[i] as u32)
    } else {
        chars_le_from(a, b, i + 1)
    }
}

/// `a` sorts before or equal to `b` as strings.
pub open spec fn chars_le(a: Seq<char>, b: Seq<char>) -> bool {
    chars_le_from(a, b, 0)
}

/// Compares two strings character by character.
pub fn str_eq(a: &str, b: &str) -> (r: bool)
    ensures
        r == (a@ == b@),
{
    let na = a.unicode_len();
    let nb = b.unicode_len();
    if na != nb {
        return false;
    }
    let mut i: usize = 0;
    while i < na
        invariant
            na == a@.len(),
            nb == b@.len(),
            na == nb,
            i <= na,
            forall|k: int| 0 <= k < i ==> a@[k] == b@[k],
        decreases na - i,
    {
        if a.get_char(i) != b.get_char(i) {
            return false;
        }
        i = i + 1;
    }
    assert(a@ =~= b@);
    true
}

/// Index of the last `/` among the first `n` characters of `s`, or -1 if there is none.
pub open spec fn last_slash_before(s: Seq<char>, n: int) -> int
    decreases n,
{
    if n <= 0 {
        -1
    } else if s[n - 1] == '/' {
        n - 1
    } else {
        last_slash_before(s, n - 1)
    }
}

/// Index of the last `/` in `s`, or -1.
pub open spec fn last_slash(s: Seq<char>) -> int {
    last_slash_before(s, s.len() as int)
}

/// The directory part of a `/`-separated path: everything before its last `/`
/// (empty where there is none).
pub open spec fn parent_of(s: Seq<char>) -> Seq<char> {
    if last_slash(s) < 0 {
        Seq::empty()
    } else {
        s.subrange(0, last_slash(s))
    }
}

/// The last component of a `/`-separated path.
pub open spec fn file_name_of(s: Seq<char>) -> Seq<char> {
    s.subrange(last_slash(s) + 1, s.len() as int)
}

proof fn lemma_last_slash_bounds(s: Seq<char>, n: int)
    requires
        n <= s.len(),
    ensures
        -1 <= last_slash_before(s, n) < n || (n <= 0 && last_slash_before(s, n) == -1),
        last_slash_before(s, n) >= 0 ==> s[last_slash_before(s, n)] == '/',
        forall|k: int| last_slash_before(s, n) < k < n ==> s[k] != '/',
    decreases n,
{
    if n > 0 && s[n - 1] != '/' {
        lemma_last_slash_bounds(s, n - 1);
    }
}

/// Finds the last `/` in `s`.
pub fn find_last_slash(s: &str) -> (r: Option<usize>)
    ensures
        match r {
            Some(k) => k as int == last_slash(s@),
            None => last_slash(s@) == -1,
        },
{
    let n = s.unicode_len();
    let mut j: usize = n;
    while j > 0
        invariant
            n == s@.len(),
            j <= n,
            last_slash(s@) == last_slash_before(s@, j as int),
        decreases j,
    {
        if s.get_char(j - 1) == '/' {
            return Some(j - 1);
        }
        j = j - 1;
    }
    None
}

/// The directory part of a path, as `parent_of` states it.
pub fn parent_str(s: &str) -> (r: &str)
    ensures
        r@ == parent_of(s@),
{
    proof {
        lemma_last_slash_bounds(s@, s@.len() as int);
    }
    match find_last_slash(s) {
        Some(k) => s.substring_char(0, k),
        None => s.substring_char(0, 0),
    }
}

/// The last component of a path, as `file_name_of` states it.
pub fn file_name_str(s: &str) -> (r: &str)
    ensures
        r@ == file_name_of(s@),
{
    proof {
        lemma_last_slash_bounds(s@, s@.len() as int);
    }
    let n = s.unicode_len();
    match find_last_slash(s) {
        Some(k) => s.substring_char(k + 1, n),
        None => s.substring_char(0, n),
    }
}

/// What `str::to_lowercase` makes of a string.
pub uninterp spec fn lower_of(s: Seq<char>) -> Seq<char>;

/// Relies on `str::to_lowercase`: Unicode lower case mapping, which depends on the
/// characters alone.
#[verifier::external_body]
pub(crate) fn lowercase(s: &str) -> (r: String)
    ensures
        r@ == lower_of(s@),
{
    s.to_lowercase()
}

} // verus!
