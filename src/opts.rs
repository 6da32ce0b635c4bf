use vstd::prelude::*;
use vstd::string::*;
use crate::text::{append, append_char};

verus! {

/// The placeholder in option strings that stands for the SDK root directory.
pub const SDK_ROOT_DIR: &'static str = "SDK_ROOT_DIR";

/// `s` with each occurrence of `pat` replaced by `rep`, matched left to
/// right without overlap.
pub open spec fn replaced(s: Seq<char>, pat: Seq<char>, rep: Seq<char>) -> Seq<char>
    decreases s.len(),
{
    if pat.len() == 0 || s.len() < pat.len() {
        s
    } else if s.take(pat.len() as int) == pat {
        rep + replaced(s.skip(pat.len() as int), pat, rep)
    } else {
        seq![s[0]] + replaced(s.skip(1), pat, rep)
    }
}

/// `s` with every backslash turned into a forward slash.
pub open spec fn forward_slashes(s: Seq<char>) -> Seq<char> {
    s.map_values(|c: char| if c == '\\' { '/' } else { c })
}

/// An option string with the SDK root put in for its placeholder, and
/// forward slashes throughout.
pub open spec fn resolved(s: Seq<char>, sdk_root: Seq<char>) -> Seq<char> {
    forward_slashes(replaced(s, SDK_ROOT_DIR@, sdk_root))
}

/// Whether `pat` occurs in `s` at position `i`.
fn occurs_at(s: &str, i: usize, pat: &str) -> (r: bool)
    requires
        i <= s@.len(),
    ensures
        r == (i + pat@.len() <= s@.len() && s@.subrange(i as int, i + pat@.len()) == pat@),
{
    let n = s.unicode_len();
    let m = pat.unicode_len();
    if m > n - i {
        return false;
    }
    let mut k: usize = 0;
    while k < m
        invariant
            n == s@.len(),
            m == pat@.len(),
            i + m <= n,
            k <= m,
            forall|j: int| 0 <= j < k ==> s@[i + j] == pat@[j],
        decreases m - k,
    {
        if s.get_char(i + k) != pat.get_char(k) {
            return false;
        }
        k = k + 1;
    }
    assert(s@.subrange(i as int, i + m) =~= pat@);
    true
}

/// `s` with each occurrence of `pat` replaced by `rep`.
pub fn replace_text(s: &str, pat: &str, rep: &str) -> (r: String)
    requires
        pat@.len() > 0,
    ensures
        r@ == replaced(s@, pat@, rep@),
{
    let n = s.unicode_len();
    let m = pat.unicode_len();
    let mut out = String::new();
    let mut i: usize = 0;
    assert(s@.skip(0) == s@);
    assert(out@ + replaced(s@, pat@, rep@) == replaced(s@, pat@, rep@));
    while i < n
        invariant
            n == s@.len(),
            m == pat@.len(),
            m > 0,
            i <= n,
            out@ + replaced(s@.skip(i as int), pat@, rep@) == replaced(s@, pat@, rep@),
        decreases n - i,
    {
        let ghost rest = s@.skip(i as int);
        if occurs_at(s, i, pat) {
            assert(rest.take(m as int) == s@.subrange(i as int, i + m));
            assert(rest.skip(m as int) == s@.skip(i + m));
            append(&mut out, rep);
            assert(out@ + replaced(s@.skip(i + m), pat@, rep@) == replaced(s@, pat@, rep@));
            i = i + m;
        } else {
            proof {
                if rest.len() >= m {
                    assert(rest.take(m as int) == s@.subrange(i as int, i + m));
                }
            }
            let c = s.get_char(i);
            assert(rest.skip(1) == s@.skip(i + 1));
            assert(rest.skip(1).len() < m ==> replaced(rest.skip(1), pat@, rep@) == rest.skip(1));
            assert(rest == seq![c] + rest.skip(1));
            append_char(&mut out, c);
            assert(out@ + replaced(s@.skip(i + 1), pat@, rep@) == replaced(s@, pat@, rep@));
            i = i + 1;
        }
    }
    assert(s@.skip(n as int).len() == 0);
    assert(out@ + s@.skip(n as int) == out@);
    out
}

/// `s` with every backslash turned into a forward slash.
pub fn forward_slash_text(s: &str) -> (r: String)
    ensures
        r@ == forward_slashes(s@),
{
    let n = s.unicode_len();
    let mut out = String::new();
    let mut i: usize = 0;
    while i < n
        invariant
            n == s@.len(),
            i <= n,
            out@ == forward_slashes(s@.take(i as int)),
        decreases n - i,
    {
        let c = s.get_char(i);
        if c == '\\' {
            append_char(&mut out, '/');
        } else {
            append_char(&mut out, c);
        }
        assert(forward_slashes(s@.take(i + 1)) =~= forward_slashes(s@.take(i as int)).push(
            if c == '\\' { '/' } else { c },
        ));
        i = i + 1;
    }
    assert(s@.take(n as int) == s@);
    out
}

/// Puts the SDK root in for the placeholder in `s`, and turns backslashes
/// into forward slashes, which the header parser needs on every host.
pub fn resolve_sdk_text(s: &str, sdk_root: &str) -> (r: String)
    ensures
        r@ == resolved(s@, sdk_root@),
{
    proof {
        reveal_strlit("SDK_ROOT_DIR");
    }
    let t = replace_text(s, SDK_ROOT_DIR, sdk_root);
    forward_slash_text(t.as_str())
}

} // verus!
