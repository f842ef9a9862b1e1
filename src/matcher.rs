use vstd::prelude::*;

verus! {

/// `suffix` is a suffix of `s`, character by character.
pub open spec fn is_suffix(s: Seq<char>, suffix: Seq<char>) -> bool {
    suffix.len() <= s.len() && s.subrange(s.len() - suffix.len(), s.len() as int) == suffix
}

/// A process identity satisfies a rule when its executable path or the
/// program name it was invoked by ends with the rule's pattern.
pub open spec fn identity_matches(exe: Seq<char>, cmdline: Seq<char>, pattern: Seq<char>) -> bool {
    is_suffix(exe, pattern) || is_suffix(cmdline, pattern)
}

/// Exact suffix test: no globbing, no path normalisation, no case folding.
pub fn ends_with(s: &str, suffix: &str) -> (r: bool)
    ensures
        r == is_suffix(s@, suffix@),
{
    let n = s.unicode_len();
    let m = suffix.unicode_len();
    if m > n {
        return false;
    }
    let off = n - m;
    let mut i: usize = 0;
    while i < m
        invariant
            n == s@.len(),
            m == suffix@.len(),
            off == n - m,
            i <= m,
            forall|j: int| 0 <= j < i ==> s@[off + j] == suffix@[j],
        decreases m - i,
    {
        if s.get_char(off + i) != suffix.get_char(i) {
            assert(s@.subrange(s@.len() - suffix@.len(), s@.len() as int)[i as int] != suffix@[i as int]);
            return false;
        }
        i = i + 1;
    }
    assert(s@.subrange(s@.len() - suffix@.len(), s@.len() as int) =~= suffix@);
    true
}

/// Whether the identity `(exe, cmdline)` satisfies a rule with `pattern`.
pub fn rule_matches(exe: &str, cmdline: &str, pattern: &str) -> (r: bool)
    ensures
        r == identity_matches(exe@, cmdline@, pattern@),
{
    ends_with(exe, pattern) || ends_with(cmdline, pattern)
}

} // verus!
