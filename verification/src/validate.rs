//! Structural validation of concretized package instances, with
//! source-located diagnostics.
//!
//! A diagnostic identifies the offending file by path, names the violated
//! field, describes the violation in words, and locates the field's
//! spelling inside the original (pre-decode) source text when it occurs
//! there, so line/column context survives decoding.

use vstd::prelude::*;
use crate::package::{PackageInstance, PackageInstanceV};

verus! {

/// Whether pattern `p` matches inside `t` at position `i`.
pub open spec fn matches_at(t: Seq<char>, p: Seq<char>, i: int) -> bool {
    0 <= i && i + p.len() <= t.len() && forall|k: int| 0 <= k < p.len() ==> t[i + k] == p[k]
}

/// First match position of `p` in `t` at or after `i`, or `-1`.
pub open spec fn find_from(t: Seq<char>, p: Seq<char>, i: int) -> int
    decreases t.len() - i + 1,
{
    if i < 0 || i + p.len() > t.len() {
        -1
    } else if matches_at(t, p, i) {
        i
    } else {
        find_from(t, p, i + 1)
    }
}

/// First match position of `p` in `t`, or `-1` when `p` occurs nowhere.
pub open spec fn first_match(t: Seq<char>, p: Seq<char>) -> int {
    find_from(t, p, 0)
}

proof fn lemma_find_from_at(t: Seq<char>, p: Seq<char>, start: int, i: int)
    requires
        0 <= start <= i,
        matches_at(t, p, i),
        forall|j: int| start <= j < i ==> !matches_at(t, p, j),
    ensures
        find_from(t, p, start) == i,
    decreases i - start,
{
    if start < i {
        lemma_find_from_at(t, p, start + 1, i);
    }
}

proof fn lemma_find_from_none(t: Seq<char>, p: Seq<char>, start: int)
    requires
        0 <= start,
        forall|j: int| start <= j ==> !matches_at(t, p, j),
    ensures
        find_from(t, p, start) == -1,
    decreases t.len() - start + 1,
{
    if start + p.len() <= t.len() {
        lemma_find_from_none(t, p, start + 1);
    }
}


/// A non-negative find result is a real match inside the text.
pub proof fn lemma_find_from_matches(t: Seq<char>, p: Seq<char>, start: int)
    requires
        find_from(t, p, start) >= 0,
    ensures
        matches_at(t, p, find_from(t, p, start)),
        find_from(t, p, start) + p.len() <= t.len(),
    decreases t.len() - start + 1,
{
    if !(start < 0 || start + p.len() > t.len()) && !matches_at(t, p, start) {
        lemma_find_from_matches(t, p, start + 1);
    }
}

/// Finds the first occurrence of `pat` inside `text`, by characters.
pub fn find_text(text: &str, pat: &str) -> (r: Option<usize>)
    ensures
        match r {
            Option::Some(i) => first_match(text@, pat@) == i as int,
            Option::None => first_match(text@, pat@) == -1,
        },
{
    let tlen = text.unicode_len();
    let plen = pat.unicode_len();
    if plen > tlen {
        proof {
            lemma_find_from_none(text@, pat@, 0);
        }
        return Option::None;
    }
    let mut i: usize = 0;
    while i <= tlen - plen
        invariant
            0 <= i <= tlen - plen + 1,
            plen <= tlen,
            tlen == text@.len(),
            plen == pat@.len(),
            forall|j: int| 0 <= j < i ==> !matches_at(text@, pat@, j),
        decreases tlen - plen - i + 1,
    {
        let mut k: usize = 0;
        let mut hit = true;
        while k < plen
            invariant
                0 <= k <= plen,
                i + plen <= tlen,
                tlen == text@.len(),
                plen == pat@.len(),
                hit ==> forall|l: int| 0 <= l < k ==> text@[i + l] == pat@[l],
                !hit ==> !matches_at(text@, pat@, i as int),
            decreases plen - k,
        {
            if hit && text.get_char(i + k) != pat.get_char(k) {
                hit = false;
            }
            k = k + 1;
        }
        if hit {
            proof {
                assert(matches_at(text@, pat@, i as int));
                lemma_find_from_at(text@, pat@, 0, i as int);
            }
            return Option::Some(i);
        }
        i = i + 1;
    }
    proof {
        assert forall|j: int| 0 <= j implies !matches_at(text@, pat@, j) by {
            if j < i {
            } else {
                assert(j + pat@.len() > text@.len());
            }
        }
        lemma_find_from_none(text@, pat@, 0);
    }
    Option::None
}

/// A validation failure, meant to be read by the specification author.
#[derive(Debug)]
pub struct Diagnostic {
    /// Path of the offending specification file.
    pub file: String,
    /// Name of the violated field.
    pub field: String,
    /// Human-readable description of the violated invariant.
    pub message: String,
    /// Character position of the field's spelling in the original source
    /// text, when it occurs there.
    pub location: Option<usize>,
}

/// Ghost shape of a [`Diagnostic`].
pub struct DiagnosticV {
    pub file: Seq<char>,
    pub field: Seq<char>,
    pub message: Seq<char>,
    pub location: Option<int>,
}

impl View for Diagnostic {
    type V = DiagnosticV;

    open spec fn view(&self) -> DiagnosticV {
        DiagnosticV {
            file: self.file@,
            field: self.field@,
            message: self.message@,
            location: match self.location {
                Option::Some(i) => Option::Some(i as int),
                Option::None => Option::None,
            },
        }
    }
}

/// A valid package-name character: lower-case letter, digit, or one of
/// `+`, `-`, `.`.
pub open spec fn valid_name_char(c: char) -> bool {
    ('a' <= c && c <= 'z') || ('0' <= c && c <= '9') || c == '+' || c == '-' || c == '.'
}

/// A structurally valid instance: its summary is present and non-empty,
/// and its concrete name is non-empty and made of valid name characters.
pub open spec fn valid_instance(i: PackageInstanceV) -> bool {
    &&& i.summary matches Option::Some(s) && s.len() > 0
    &&& i.name.len() > 0
    &&& forall|k: int| 0 <= k < i.name.len() ==> valid_name_char(i.name[k])
}

/// The location a diagnostic owes: the field's first spelling in the
/// source text, if it occurs.
pub open spec fn location_of(text: Seq<char>, field: Seq<char>) -> Option<int> {
    if first_match(text, field) >= 0 {
        Option::Some(first_match(text, field))
    } else {
        Option::None
    }
}

/// The diagnostic owed for instance `i` of the file at `file` with source
/// text `text`: the first violated invariant in checking order, or none.
pub open spec fn validation_of(
    i: PackageInstanceV,
    file: Seq<char>,
    text: Seq<char>,
) -> Option<DiagnosticV> {
    if !(i.summary matches Option::Some(s) && s.len() > 0) {
        Option::Some(
            DiagnosticV {
                file,
                field: "summary"@,
                message: "missing required field"@,
                location: location_of(text, "summary"@),
            },
        )
    } else if !(i.name.len() > 0 && forall|k: int|
        0 <= k < i.name.len() ==> valid_name_char(i.name[k])) {
        Option::Some(
            DiagnosticV {
                file,
                field: "name"@,
                message: "malformed package name"@,
                location: location_of(text, "name"@),
            },
        )
    } else {
        Option::None
    }
}


/// Validation reports nothing exactly on valid instances: a diagnostic
/// exists if and only if some structural invariant is violated.
pub proof fn lemma_validation_complete(i: PackageInstanceV, file: Seq<char>, text: Seq<char>)
    ensures
        validation_of(i, file, text) is None <==> valid_instance(i),
{
}

fn locate(text: &str, field: &str) -> (r: Option<usize>)
    ensures
        match r {
            Option::Some(i) => location_of(text@, field@) == Option::Some(i as int),
            Option::None => location_of(text@, field@) is None,
        },
{
    find_text(text, field)
}

impl PackageInstance {
    /// Checks the structural invariants of this instance; on failure,
    /// reports the first violated one as a diagnostic locating the field in
    /// the original source text of the file at `file`.
    pub fn validate(&self, file: &str, text: &str) -> (r: Option<Diagnostic>)
        ensures
            match r {
                Option::Some(d) => validation_of(self@, file@, text@) == Option::Some(d@),
                Option::None => validation_of(self@, file@, text@) is None && valid_instance(
                    self@,
                ),
            },
    {
        let summary_ok = match &self.summary {
            Option::Some(s) => s.unicode_len() > 0,
            Option::None => false,
        };
        if !summary_ok {
            return Option::Some(
                Diagnostic {
                    file: String::from_str(file),
                    field: String::from_str("summary"),
                    message: String::from_str("missing required field"),
                    location: locate(text, "summary"),
                },
            );
        }
        let nlen = self.name.as_str().unicode_len();
        let mut name_ok = nlen > 0;
        let mut k: usize = 0;
        while k < nlen
            invariant
                k <= nlen,
                nlen == self.name@.len(),
                name_ok == (nlen > 0 && forall|l: int|
                    0 <= l < k ==> valid_name_char(self.name@[l])),
            decreases nlen - k,
        {
            let c = self.name.as_str().get_char(k);
            if !(('a' <= c && c <= 'z') || ('0' <= c && c <= '9') || c == '+' || c == '-' || c
                == '.') {
                name_ok = false;
            }
            k = k + 1;
        }
        if !name_ok {
            return Option::Some(
                Diagnostic {
                    file: String::from_str(file),
                    field: String::from_str("name"),
                    message: String::from_str("malformed package name"),
                    location: locate(text, "name"),
                },
            );
        }
        Option::None
    }
}

} // verus!
