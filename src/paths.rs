//! Paths as text, with `/` as the separator.
use vstd::prelude::*;

verus! {

pub open spec fn is_absolute_path(p: Seq<char>) -> bool {
    p.len() > 0 && p[0] == '/'
}

/// `p` resolved against `base`: an absolute `p` stands as it is, a relative
/// one is appended to `base` after a separator.
pub open spec fn join_path(base: Seq<char>, p: Seq<char>) -> Seq<char> {
    if is_absolute_path(p) || base.len() == 0 {
        p
    } else if base.last() == '/' {
        base + p
    } else {
        base.push('/') + p
    }
}

pub fn is_absolute(p: &str) -> (r: bool)
    ensures
        r == is_absolute_path(p@),
{
    p.unicode_len() > 0 && p.get_char(0) == '/'
}

/// `p` resolved against `base`.
pub fn join(base: &str, p: &str) -> (r: String)
    ensures
        r@ == join_path(base@, p@),
{
    let n = base.unicode_len();
    if is_absolute(p) || n == 0 {
        String::from_str(p)
    } else if base.get_char(n - 1) == '/' {
        String::from_str(base).concat(p)
    } else {
        proof {
            reveal_strlit("/");
        }
        let r = String::from_str(base).concat("/").concat(p);
        assert(r@ =~= base@.push('/') + p@);
        r
    }
}

} // verus!
