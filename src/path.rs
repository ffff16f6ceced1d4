use vstd::prelude::*;
use vstd::string::StrSliceExecFns;

verus! {

/// Index of the last `/` among the first `n` characters of `s`, or -1.
pub open spec fn last_slash(s: Seq<char>, n: int) -> int
    decreases n,
{
    if n <= 0 {
        -1
    } else if s[n - 1] == '/' {
        n - 1
    } else {
        last_slash(s, n - 1)
    }
}

/// The directory that holds `s`: everything before its last `/`, the root
/// for a path directly under it, the root itself for the root, and `s`
/// unchanged where it holds no `/`.
pub open spec fn parent_spec(s: Seq<char>) -> Seq<char> {
    let k = last_slash(s, s.len() as int);
    if k < 0 {
        s
    } else if k == 0 {
        s.take(1)
    } else {
        s.take(k)
    }
}

proof fn lemma_last_slash_bounds(s: Seq<char>, n: int)
    requires
        0 <= n <= s.len(),
    ensures
        -1 <= last_slash(s, n) < n,
        last_slash(s, n) >= 0 ==> s[last_slash(s, n)] == '/',
    decreases n,
{
    if n > 0 {
        lemma_last_slash_bounds(s, n - 1);
    }
}

/// The parent of a directory path.
pub fn parent_dir(path: &String) -> (r: String)
    ensures
        r@ == parent_spec(path@),
{
    let s = path.as_str();
    let n: usize = s.unicode_len();
    let mut k: usize = n;
    let mut found: bool = false;
    while k > 0 && !found
        invariant
            k <= n,
            n == path@.len(),
            s@ == path@,
            found ==> k > 0 && last_slash(path@, n as int) == k - 1,
            !found ==> last_slash(path@, n as int) == last_slash(path@, k as int),
        decreases k + (if found { 0int } else { 1int }),
    {
        if s.get_char(k - 1) == '/' {
            found = true;
        } else {
            k = k - 1;
        }
    }
    proof {
        lemma_last_slash_bounds(path@, n as int);
    }
    if !found {
        path.clone()
    } else if k == 1 {
        s.substring_char(0, 1).to_owned()
    } else {
        s.substring_char(0, k - 1).to_owned()
    }
}

} // verus!
