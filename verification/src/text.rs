//! Character-level string utilities: exact and ASCII-case-insensitive
//! comparison, and a case-insensitive substring test.  The host shells this
//! engine talks to spell protocol tokens in varying letter case, so these
//! are stated over the character sequences of their inputs.

use vstd::prelude::*;
use vstd::string::StrSliceExecFns;

verus! {

/// Compares two strings character for character.
pub fn str_eq(a: &str, b: &str) -> (r: bool)
    ensures
        r == (a@ == b@),
{
    let la = a.unicode_len();
    let lb = b.unicode_len();
    if la != lb {
        return false;
    }
    let mut i: usize = 0;
    while i < la
        invariant
            la == a@.len(),
            la == b@.len(),
            0 <= i <= la,
            forall|j: int| 0 <= j < i ==> a@[j] == b@[j],
        decreases la - i,
    {
        if a.get_char(i) != b.get_char(i) {
            return false;
        }
        i += 1;
    }
    proof {
        assert(a@ =~= b@);
    }
    true
}

/// The ASCII-lowercase code of a character: letters `A`..`Z` fold onto
/// `a`..`z`, every other character keeps its own code.
pub open spec fn lower_code(c: char) -> int {
    if 'A' <= c && c <= 'Z' {
        c as int + 32
    } else {
        c as int
    }
}

/// The sequence of ASCII-lowercase codes of a string.
pub open spec fn lower_codes(s: Seq<char>) -> Seq<int> {
    s.map_values(|c: char| lower_code(c))
}

/// Compares two characters up to ASCII case.
fn char_eq_ci(a: char, b: char) -> (r: bool)
    ensures
        r == (lower_code(a) == lower_code(b)),
{
    let ca: u32 = if 'A' <= a && a <= 'Z' { a as u32 + 32 } else { a as u32 };
    let cb: u32 = if 'A' <= b && b <= 'Z' { b as u32 + 32 } else { b as u32 };
    ca == cb
}

/// Compares two strings up to ASCII case.
pub fn str_eq_ci(a: &str, b: &str) -> (r: bool)
    ensures
        r == (lower_codes(a@) == lower_codes(b@)),
{
    let la = a.unicode_len();
    let lb = b.unicode_len();
    if la != lb {
        proof {
            assert(lower_codes(a@).len() == a@.len());
            assert(lower_codes(b@).len() == b@.len());
        }
        return false;
    }
    let mut i: usize = 0;
    while i < la
        invariant
            la == a@.len(),
            la == b@.len(),
            0 <= i <= la,
            forall|j: int| 0 <= j < i ==> lower_code(a@[j]) == lower_code(b@[j]),
        decreases la - i,
    {
        if !char_eq_ci(a.get_char(i), b.get_char(i)) {
            proof {
                assert(lower_codes(a@)[i as int] != lower_codes(b@)[i as int]);
            }
            return false;
        }
        i += 1;
    }
    proof {
        assert(lower_codes(a@) =~= lower_codes(b@));
    }
    true
}

/// Whether `needle` occurs in `hay` as a contiguous run, up to ASCII case.
pub open spec fn contains_ci(hay: Seq<char>, needle: Seq<char>) -> bool {
    exists|off: int|
        0 <= off <= hay.len() - needle.len() && #[trigger] lower_codes(hay.subrange(
            off,
            off + needle.len(),
        )) == lower_codes(needle)
}

/// Tests whether `needle` occurs in `hay` as a contiguous run, up to
/// ASCII case.
pub fn str_contains_ci(hay: &str, needle: &str) -> (r: bool)
    ensures
        r == contains_ci(hay@, needle@),
{
    let lh = hay.unicode_len();
    let ln = needle.unicode_len();
    if ln > lh {
        return false;
    }
    if ln == 0 {
        proof {
            assert(lower_codes(hay@.subrange(0, 0 + needle@.len() as int)) =~= lower_codes(needle@));
            assert(contains_ci(hay@, needle@));
        }
        return true;
    }
    let mut off: usize = 0;
    while off <= lh - ln
        invariant
            lh == hay@.len(),
            ln == needle@.len(),
            1 <= ln <= lh,
            0 <= off <= lh - ln + 1,
            forall|o: int|
                0 <= o < off ==> #[trigger] lower_codes(hay@.subrange(o, o + needle@.len()))
                    != lower_codes(needle@),
        decreases lh - ln - off + 1,
    {
        let mut i: usize = 0;
        let mut all: bool = true;
        while i < ln
            invariant
                lh == hay@.len(),
                ln == needle@.len(),
                0 <= off <= lh - ln,
                0 <= i <= ln,
                all ==> forall|j: int|
                    0 <= j < i ==> lower_code(hay@[off + j]) == lower_code(needle@[j]),
                !all ==> lower_codes(hay@.subrange(off as int, off as int + needle@.len()))
                    != lower_codes(needle@),
            decreases ln - i,
        {
            if !char_eq_ci(hay.get_char(off + i), needle.get_char(i)) {
                proof {
                    let o = off as int;
                    let sub = hay@.subrange(o, o + needle@.len());
                    assert(sub[i as int] == hay@[o + i]);
                    assert(lower_codes(sub)[i as int] != lower_codes(needle@)[i as int]);
                }
                all = false;
                i = ln;
            } else {
                i += 1;
            }
        }
        if all {
            proof {
                let o = off as int;
                assert(lower_codes(hay@.subrange(o, o + needle@.len())) =~= lower_codes(
                    needle@,
                ));
            }
            return true;
        }
        off += 1;
    }
    proof {
        assert forall|o: int| 0 <= o <= hay@.len() - needle@.len() implies #[trigger] lower_codes(
            hay@.subrange(o, o + needle@.len()),
        ) != lower_codes(needle@) by {}
    }
    false
}

} // verus!
