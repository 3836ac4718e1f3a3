use vstd::prelude::*;
use vstd::string::StrSliceExecFns;

verus! {

/// Relies on `String::push`: appends exactly the given character to the
/// string.
#[verifier::external_body]
pub(crate) fn push_char(s: &mut String, c: char)
    ensures
        final(s)@ == old(s)@.push(c),
{
    s.push(c);
}

/// The characters of a string slice, as a vector.
pub fn str_chars(s: &str) -> (r: Vec<char>)
    ensures
        r@ == s@,
{
    let n = s.unicode_len();
    let mut r: Vec<char> = Vec::new();
    let mut i: usize = 0;
    while i < n
        invariant
            i <= n,
            n == s@.len(),
            r@.len() == i,
            forall|j: int| 0 <= j < i ==> r@[j] == s@[j],
        decreases n - i,
    {
        r.push(s.get_char(i));
        i = i + 1;
    }
    proof {
        assert(r@ =~= s@);
    }
    r
}

/// Appends the characters of a string slice to a character vector.
pub fn append_str(dst: &mut Vec<char>, s: &str)
    ensures
        final(dst)@ == old(dst)@ + s@,
{
    let n = s.unicode_len();
    let mut i: usize = 0;
    while i < n
        invariant
            i <= n,
            n == s@.len(),
            dst@.len() == old(dst)@.len() + i,
            forall|j: int| 0 <= j < old(dst)@.len() ==> dst@[j] == old(dst)@[j],
            forall|j: int| 0 <= j < i ==> dst@[old(dst)@.len() + j] == s@[j],
        decreases n - i,
    {
        dst.push(s.get_char(i));
        i = i + 1;
    }
    proof {
        assert(dst@ =~= old(dst)@ + s@);
    }
}

/// Appends a character slice to a character vector.
pub fn append_chars(dst: &mut Vec<char>, s: &[char])
    ensures
        final(dst)@ == old(dst)@ + s@,
{
    let n = s.len();
    let mut i: usize = 0;
    while i < n
        invariant
            i <= n,
            n == s@.len(),
            dst@.len() == old(dst)@.len() + i,
            forall|j: int| 0 <= j < old(dst)@.len() ==> dst@[j] == old(dst)@[j],
            forall|j: int| 0 <= j < i ==> dst@[old(dst)@.len() + j] == s@[j],
        decreases n - i,
    {
        dst.push(s[i]);
        i = i + 1;
    }
    proof {
        assert(dst@ =~= old(dst)@ + s@);
    }
}

/// Whether a character slice holds exactly the characters of a string
/// slice.
pub fn chars_eq_str(a: &[char], s: &str) -> (r: bool)
    ensures
        r == (a@ == s@),
{
    let n = s.unicode_len();
    if a.len() != n {
        return false;
    }
    let mut i: usize = 0;
    while i < n
        invariant
            i <= n,
            n == s@.len(),
            a@.len() == n,
            forall|j: int| 0 <= j < i ==> a@[j] == s@[j],
        decreases n - i,
    {
        if a[i] != s.get_char(i) {
            return false;
        }
        i = i + 1;
    }
    proof {
        assert(a@ =~= s@);
    }
    true
}

} // verus!
