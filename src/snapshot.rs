use vstd::prelude::*;

verus! {

/// The host's root process, never part of a snapshot.
pub const ROOT_PID: u32 = 1;

pub open spec fn is_digit(c: char) -> bool {
    '0' <= c && c <= '9'
}

pub open spec fn digit_value(c: char) -> nat {
    (c as int - '0' as int) as nat
}

pub open spec fn all_digits(s: Seq<char>) -> bool {
    forall|i: int| 0 <= i < s.len() ==> is_digit(#[trigger] s[i])
}

/// The number written by a string of decimal digits.
pub open spec fn digits_value(s: Seq<char>) -> nat
    decreases s.len(),
{
    if s.len() == 0 {
        0
    } else {
        digits_value(s.drop_last()) * 10 + digit_value(s.last())
    }
}

/// The digits of an unsigned decimal: one optional leading `+` is dropped.
pub open spec fn unsigned_body(s: Seq<char>) -> Seq<char> {
    if s.len() > 0 && s[0] == '+' {
        s.drop_first()
    } else {
        s
    }
}

/// The process identifier that a directory entry name denotes, if any:
/// an optional `+`, one or more decimal digits, and a value that fits `u32`.
pub open spec fn parsed_pid(s: Seq<char>) -> Option<u32> {
    let d = unsigned_body(s);
    if d.len() > 0 && all_digits(d) && digits_value(d) <= u32::MAX {
        Some(digits_value(d) as u32)
    } else {
        None
    }
}

/// Whether `pid` belongs in the snapshot taken from the entry `names` while
/// the daemon runs as `own_pid`.
pub open spec fn in_snapshot(names: Seq<String>, own_pid: u32, pid: u32) -> bool {
    &&& pid != ROOT_PID
    &&& pid != own_pid
    &&& exists|i: int| 0 <= i < names.len() && parsed_pid(#[trigger] names[i]@) == Some(pid)
}

/// Reads a directory entry name as a process identifier.
pub fn parse_pid(name: &str) -> (r: Option<u32>)
    ensures
        r == parsed_pid(name@),
{
    let n = name.unicode_len();
    let ghost s = name@;
    let start: usize = if n > 0 && name.get_char(0) == '+' { 1 } else { 0 };
    let ghost d = unsigned_body(s);
    assert(d =~= s.subrange(start as int, n as int));
    if start == n {
        return None;
    }
    let mut acc: u64 = 0;
    let mut overflow = false;
    let mut i: usize = start;
    while i < n
        invariant
            n == s.len(),
            name@ == s,
            start <= i <= n,
            d =~= s.subrange(start as int, n as int),
            d == unsigned_body(s),
            all_digits(d.subrange(0, i - start)),
            overflow ==> digits_value(d.subrange(0, i - start)) > u32::MAX,
            !overflow ==> acc == digits_value(d.subrange(0, i - start)) && acc <= u32::MAX,
        decreases n - i,
    {
        let c = name.get_char(i);
        if !('0' <= c && c <= '9') {
            assert(d[i - start] == c);
            assert(!all_digits(d));
            return None;
        }
        let ghost pre = d.subrange(0, i - start);
        let ghost next = d.subrange(0, i - start + 1);
        assert(next.drop_last() =~= pre);
        assert(next.last() == c);
        assert(all_digits(next)) by {
            assert forall|j: int| 0 <= j < next.len() implies is_digit(#[trigger] next[j]) by {
                if j < pre.len() {
                    assert(next[j] == pre[j]);
                }
            }
        }
        if !overflow {
            let v = acc * 10 + (c as u64 - '0' as u64);
            if v > u32::MAX as u64 {
                overflow = true;
            } else {
                acc = v;
            }
        }
        i = i + 1;
    }
    assert(d.subrange(0, n - start) =~= d);
    if overflow {
        None
    } else {
        Some(acc as u32)
    }
}

/// Whether `pid` occurs in `v`.
pub fn contains_pid(v: &Vec<u32>, pid: u32) -> (r: bool)
    ensures
        r == v@.contains(pid),
{
    let mut i: usize = 0;
    while i < v.len()
        invariant
            i <= v@.len(),
            forall|j: int| 0 <= j < i ==> v@[j] != pid,
        decreases v.len() - i,
    {
        if v[i] == pid {
            return true;
        }
        i = i + 1;
    }
    false
}

/// The live process identifiers named by the entries of the process table:
/// each once, without the root process and without the daemon itself.
/// Entries that are not identifiers are skipped.
pub fn snapshot_from_names(names: &Vec<String>, own_pid: u32) -> (r: Vec<u32>)
    ensures
        r@.no_duplicates(),
        forall|pid: u32| r@.contains(pid) <==> in_snapshot(names@, own_pid, pid),
{
    let mut r: Vec<u32> = Vec::new();
    let mut i: usize = 0;
    while i < names.len()
        invariant
            i <= names@.len(),
            r@.no_duplicates(),
            forall|pid: u32|
                r@.contains(pid) <==> (pid != ROOT_PID && pid != own_pid && exists|j: int|
                    0 <= j < i && parsed_pid(#[trigger] names@[j]@) == Some(pid)),
        decreases names.len() - i,
    {
        let ghost before = r@;
        let p = parse_pid(names[i].as_str());
        if let Some(pid) = p {
            if pid != ROOT_PID && pid != own_pid && !contains_pid(&r, pid) {
                r.push(pid);
            }
        }
        assert forall|q: u32|
            r@.contains(q) <==> (q != ROOT_PID && q != own_pid && exists|j: int|
                0 <= j < i + 1 && parsed_pid(#[trigger] names@[j]@) == Some(q)) by {
            if before.contains(q) {
                let k = before.index_of(q);
                assert(r@[k] == q);
            }
            if r@.contains(q) && !before.contains(q) {
                let k = r@.index_of(q);
                assert(k == before.len());
                assert(parsed_pid(names@[i as int]@) == Some(q));
            }
            if q != ROOT_PID && q != own_pid && parsed_pid(names@[i as int]@) == Some(q)
                && !before.contains(q) {
                assert(r@[r@.len() - 1] == q);
            }
        }
        i = i + 1;
    }
    r
}

} // verus!
