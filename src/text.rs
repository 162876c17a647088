//! Small string helpers shared by the path, version and descriptor code.
use vstd::prelude::*;

verus! {

/// `s` with every `'.'` turned into `'/'`.
pub open spec fn slashed(s: Seq<char>) -> Seq<char> {
    s.map_values(|c: char| if c == '.' { '/' } else { c })
}

/// `s` with every dot turned into a slash.
pub fn dots_to_slashes(s: &str) -> (r: String)
    ensures
        r@ == slashed(s@),
{
    let n = s.unicode_len();
    let mut r = String::new();
    let mut i: usize = 0;
    while i < n
        invariant
            n == s@.len(),
            i <= n,
            r@ == slashed(s@.subrange(0, i as int)),
        decreases n - i,
    {
        let piece = if s.get_char(i) == '.' {
            proof {
                reveal_strlit("/");
            }
            "/"
        } else {
            s.substring_char(i, i + 1)
        };
        let ghost before = r@;
        r.append(piece);
        assert(piece@ =~= seq![if s@[i as int] == '.' { '/' } else { s@[i as int] }]);
        assert(slashed(s@.subrange(0, i + 1)) =~= slashed(s@.subrange(0, i as int)) + piece@);
        i = i + 1;
    }
    assert(s@.subrange(0, n as int) =~= s@);
    r
}

/// Whether two strings hold the same characters.
pub fn same_text(a: &str, b: &str) -> (r: bool)
    ensures
        r == (a@ == b@),
{
    let n = a.unicode_len();
    if n != b.unicode_len() {
        return false;
    }
    let mut i: usize = 0;
    while i < n
        invariant
            n == a@.len(),
            n == b@.len(),
            i <= n,
            forall|j: int| 0 <= j < i ==> a@[j] == b@[j],
        decreases n - i,
    {
        if a.get_char(i) != b.get_char(i) {
            return false;
        }
        i = i + 1;
    }
    assert(a@ =~= b@);
    true
}

/// Whether `s` ends with `suffix`.
pub fn ends_with_text(s: &str, suffix: &str) -> (r: bool)
    ensures
        r == suffix@.is_suffix_of(s@),
{
    let n = s.unicode_len();
    let k = suffix.unicode_len();
    if k > n {
        return false;
    }
    let mut i: usize = 0;
    while i < k
        invariant
            n == s@.len(),
            k == suffix@.len(),
            k <= n,
            i <= k,
            forall|j: int| 0 <= j < i ==> suffix@[j] == s@[n - k + j],
        decreases k - i,
    {
        if s.get_char(n - k + i) != suffix.get_char(i) {
            return false;
        }
        i = i + 1;
    }
    assert(s@.subrange(n - k, n as int) =~= suffix@);
    true
}

/// The concatenation of the given pieces, in order.
pub fn joined(a: &str, b: &str) -> (r: String)
    ensures
        r@ == a@ + b@,
{
    let s = a.to_owned();
    s.concat(b)
}

} // verus!
