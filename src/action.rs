use vstd::prelude::*;
use crate::matcher::{identity_matches, rule_matches};

verus! {

/// The whitespace-separated tokens of a flags string, in order.
pub uninterp spec fn whitespace_tokens(s: Seq<char>) -> Seq<Seq<char>>;

pub open spec fn digit_char(d: nat) -> char {
    seq!['0', '1', '2', '3', '4', '5', '6', '7', '8', '9'][d as int]
}

/// The decimal form of `n`: no sign, no leading zeros.
pub open spec fn decimal(n: nat) -> Seq<char>
    decreases n,
{
    if n < 10 {
        seq![digit_char(n)]
    } else {
        decimal(n / 10).push(digit_char(n % 10))
    }
}

/// The positions of the rules of `items` that the identity `(exe, cmdline)`
/// matches, in the rules' order.
pub open spec fn matching_rules(exe: Seq<char>, cmdline: Seq<char>, items: Seq<(String, String)>) -> Seq<int>
    decreases items.len(),
{
    if items.len() == 0 {
        Seq::empty()
    } else {
        let prev = matching_rules(exe, cmdline, items.drop_last());
        if identity_matches(exe, cmdline, items.last().0@) {
            prev.push(items.len() - 1)
        } else {
            prev
        }
    }
}

/// The arguments the scheduling utility gets for `pid` under a rule with `flags`.
pub open spec fn invocation_of(flags: Seq<char>, pid: u32) -> Seq<Seq<char>> {
    whitespace_tokens(flags).push(decimal(pid as nat))
}

/// The argument lists of the utility runs owed to a new process: one per
/// matching rule, in the rules' order, each with that rule's flags.
pub open spec fn invocations(pid: u32, exe: Seq<char>, cmdline: Seq<char>, items: Seq<(String, String)>) -> Seq<Seq<Seq<char>>> {
    matching_rules(exe, cmdline, items).map_values(|k: int| invocation_of(items[k].1@, pid))
}

/// Relies on `str::split_whitespace`: the whitespace-separated tokens of
/// `flags`, in order; an empty string has none.
#[verifier::external_body]
fn split_flags(flags: &str) -> (r: Vec<String>)
    ensures
        r.deep_view() == whitespace_tokens(flags@),
        flags@.len() == 0 ==> r@.len() == 0,
{
    flags.split_whitespace().map(|t| t.to_string()).collect()
}

/// Relies on `u32`'s `Display`, through `to_string`: plain decimal digits.
#[verifier::external_body]
fn decimal_string(n: u32) -> (r: String)
    ensures
        r@ == decimal(n as nat),
{
    n.to_string()
}

/// The utility's argument list from the flag tokens of a rule: the tokens,
/// then `pid` in decimal as the last argument.
pub fn args_from_tokens(tokens: Vec<String>, pid: u32) -> (r: Vec<String>)
    ensures
        r.deep_view() == tokens.deep_view().push(decimal(pid as nat)),
{
    let mut r = tokens;
    r.push(decimal_string(pid));
    assert(r.deep_view() =~= tokens.deep_view().push(decimal(pid as nat)));
    r
}

/// The utility's argument list for `pid` under a rule with `flags`.
pub fn invocation_args(flags: &str, pid: u32) -> (r: Vec<String>)
    ensures
        r.deep_view() == invocation_of(flags@, pid),
{
    args_from_tokens(split_flags(flags), pid)
}

/// The positions of the rules that the identity `(exe, cmdline)` matches,
/// all of them, in order.
pub fn matching_rule_indices(exe: &str, cmdline: &str, items: &Vec<(String, String)>) -> (r: Vec<usize>)
    ensures
        r@.map_values(|k: usize| k as int) == matching_rules(exe@, cmdline@, items@),
{
    let mut r: Vec<usize> = Vec::new();
    let mut i: usize = 0;
    while i < items.len()
        invariant
            i <= items@.len(),
            r@.map_values(|k: usize| k as int) == matching_rules(exe@, cmdline@, items@.subrange(0, i as int)),
        decreases items.len() - i,
    {
        let ghost pre = items@.subrange(0, i as int);
        let ghost next = items@.subrange(0, i + 1);
        assert(next.drop_last() =~= pre);
        if rule_matches(exe, cmdline, items[i].0.as_str()) {
            r.push(i);
        }
        assert(r@.map_values(|k: usize| k as int) =~= matching_rules(exe@, cmdline@, next));
        i = i + 1;
    }
    assert(items@.subrange(0, items@.len() as int) =~= items@);
    r
}

/// The argument lists of the utility runs owed to the new process `pid`
/// with identity `(exe, cmdline)`: one per rule it matches.
pub fn plan_invocations(pid: u32, exe: &str, cmdline: &str, items: &Vec<(String, String)>) -> (r: Vec<Vec<String>>)
    ensures
        r.deep_view() == invocations(pid, exe@, cmdline@, items@),
{
    let idx = matching_rule_indices(exe, cmdline, items);
    proof {
        lemma_matching_rules_in_range(exe@, cmdline@, items@);
        assert forall|m: int| 0 <= m < idx@.len() implies 0 <= #[trigger] idx@[m] < items@.len() by {
            assert(idx@.map_values(|k: usize| k as int)[m] == idx@[m] as int);
        }
    }
    let mut r: Vec<Vec<String>> = Vec::new();
    let mut j: usize = 0;
    while j < idx.len()
        invariant
            j <= idx@.len(),
            idx@.map_values(|k: usize| k as int) == matching_rules(exe@, cmdline@, items@),
            forall|m: int| 0 <= m < idx@.len() ==> 0 <= #[trigger] idx@[m] < items@.len(),
            r.deep_view() =~= invocations(pid, exe@, cmdline@, items@).subrange(0, j as int),
        decreases idx.len() - j,
    {
        assert(idx@.map_values(|k: usize| k as int)[j as int] == idx@[j as int] as int);
        let args = invocation_args(items[idx[j]].1.as_str(), pid);
        let ghost before = r.deep_view();
        r.push(args);
        assert(invocations(pid, exe@, cmdline@, items@)[j as int] == invocation_of(items@[idx@[j as int] as int].1@, pid));
        assert(r.deep_view() =~= before.push(args.deep_view()));
        assert(r.deep_view() =~= invocations(pid, exe@, cmdline@, items@).subrange(0, j + 1));
        j = j + 1;
    }
    r
}

/// Every position `matching_rules` gives is a rule of `items`.
proof fn lemma_matching_rules_in_range(exe: Seq<char>, cmdline: Seq<char>, items: Seq<(String, String)>)
    ensures
        forall|m: int| 0 <= m < matching_rules(exe, cmdline, items).len()
            ==> 0 <= #[trigger] matching_rules(exe, cmdline, items)[m] < items.len(),
    decreases items.len(),
{
    if items.len() > 0 {
        let prev = matching_rules(exe, cmdline, items.drop_last());
        lemma_matching_rules_in_range(exe, cmdline, items.drop_last());
        assert forall|m: int| 0 <= m < matching_rules(exe, cmdline, items).len()
            implies 0 <= #[trigger] matching_rules(exe, cmdline, items)[m] < items.len() by {
            if m < prev.len() {
                assert(matching_rules(exe, cmdline, items)[m] == prev[m]);
            }
        }
    }
}

} // verus!
