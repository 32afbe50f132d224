//! Upstream-version extraction from a full changelog version string.
//!
//! A full version may carry a revision suffix after its last hyphen; the
//! upstream version is everything before that hyphen, or the whole string
//! when no hyphen occurs.

use vstd::prelude::*;

verus! {

/// Index of the last `'-'` in `v`, or `-1` when none occurs.
pub open spec fn last_dash(v: Seq<char>) -> int
    decreases v.len(),
{
    if v.len() == 0 {
        -1
    } else if v[v.len() - 1] == '-' {
        v.len() - 1
    } else {
        last_dash(v.drop_last())
    }
}

/// The upstream part of a full version: the prefix before the last hyphen,
/// or the whole string when it holds no hyphen.
pub open spec fn upstream_of(v: Seq<char>) -> Seq<char> {
    if last_dash(v) >= 0 {
        v.subrange(0, last_dash(v))
    } else {
        v
    }
}

proof fn lemma_last_dash_found(v: Seq<char>, i: int)
    requires
        0 <= i < v.len(),
        v[i] == '-',
        forall|j: int| i < j < v.len() ==> v[j] != '-',
    ensures
        last_dash(v) == i,
    decreases v.len(),
{
    if i == v.len() - 1 {
    } else {
        assert(v.drop_last()[i] == '-');
        lemma_last_dash_found(v.drop_last(), i);
    }
}

proof fn lemma_last_dash_none(v: Seq<char>)
    requires
        forall|j: int| 0 <= j < v.len() ==> v[j] != '-',
    ensures
        last_dash(v) == -1,
    decreases v.len(),
{
    if v.len() > 0 {
        lemma_last_dash_none(v.drop_last());
    }
}

/// Strips the revision suffix (text after the last hyphen) from a full
/// version; a version without a hyphen is returned unchanged.
pub fn get_upstream_version(version: &str) -> (r: &str)
    ensures
        r@ == upstream_of(version@),
{
    let len = version.unicode_len();
    let mut i = len;
    while i > 0
        invariant
            i <= len,
            len == version@.len(),
            forall|j: int| i <= j < len ==> version@[j] != '-',
        decreases i,
    {
        i = i - 1;
        if version.get_char(i) == '-' {
            proof {
                lemma_last_dash_found(version@, i as int);
            }
            return version.substring_char(0, i);
        }
    }
    proof {
        lemma_last_dash_none(version@);
    }
    version
}

/// Drops one trailing newline from the raw output of the external
/// changelog-version oracle, as that oracle terminates its answer with one.
pub fn trim_newline(s: &str) -> (r: &str)
    ensures
        r@ == if s@.len() > 0 && s@.last() == '\n' {
            s@.drop_last()
        } else {
            s@
        },
{
    let len = s.unicode_len();
    if len > 0 && s.get_char(len - 1) == '\n' {
        let r = s.substring_char(0, len - 1);
        proof {
            assert(r@ =~= s@.drop_last());
        }
        r
    } else {
        s
    }
}

} // verus!
