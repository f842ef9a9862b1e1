use vstd::prelude::*;

verus! {

/// The program name a process was invoked by: the zeroth argument of its
/// NUL-separated argument vector `content`. Without a NUL the argument vector
/// was not read whole, and the name is empty.
pub fn cmdline_basename(content: &str) -> (r: String)
    ensures
        content@.contains('\0') ==> {
            &&& r@.len() < content@.len()
            &&& content@[r@.len() as int] == '\0'
            &&& r@ == content@.subrange(0, r@.len() as int)
            &&& !r@.contains('\0')
        },
        !content@.contains('\0') ==> r@.len() == 0,
{
    let n = content.unicode_len();
    let mut i: usize = 0;
    while i < n
        invariant
            n == content@.len(),
            i <= n,
            forall|j: int| 0 <= j < i ==> content@[j] != '\0',
        decreases n - i,
    {
        if content.get_char(i) == '\0' {
            let head = content.substring_char(0, i);
            let r = head.to_owned();
            assert(!r@.contains('\0')) by {
                if r@.contains('\0') {
                    let k = r@.index_of('\0');
                    assert(content@[k] == '\0');
                }
            }
            return r;
        }
        i = i + 1;
    }
    assert(!content@.contains('\0'));
    String::new()
}

/// One field of a process identity: what a best-effort lookup found, or the
/// empty string where it found nothing.
pub fn identity_field(found: Option<String>) -> (r: String)
    ensures
        r@ == match found {
            Some(s) => s@,
            None => Seq::<char>::empty(),
        },
{
    match found {
        Some(s) => s,
        None => String::new(),
    }
}

} // verus!
