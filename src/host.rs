//! The host target triple, as the compiler's verbose version output reports it.
use vstd::prelude::*;
use vstd::string::StrSliceExecFns;
use crate::text::{find_char, index_from, is_prefix, lemma_index_from_bounds, slice, starts_with};

verus! {

/// The value of the first line from position `i` on that starts with `host: `.
pub open spec fn host_line(s: Seq<char>, i: int) -> Option<Seq<char>>
    decreases s.len() - i,
{
    if i < 0 || i > s.len() {
        None
    } else {
        let e = index_from(s, '\n', i);
        let line = s.subrange(i, e);
        if is_prefix("host: "@, line) {
            Some(line.subrange(6, line.len() as int))
        } else if e >= s.len() || e < i {
            None
        } else {
            host_line(s, e + 1)
        }
    }
}

/// The host triple named by the `host: ` line of the output of `rustc -vV`.
pub fn host_triple(output: &str) -> (r: Option<String>)
    ensures
        r is Some <==> host_line(output@, 0) is Some,
        r matches Some(t) ==> Some(t@) == host_line(output@, 0),
{
    let n = output.unicode_len();
    let mut i: usize = 0;
    while i <= n
        invariant
            n == output@.len(),
            i <= n + 1,
            i <= n ==> host_line(output@, 0) == host_line(output@, i as int),
            i > n ==> host_line(output@, 0) is None,
        decreases n + 1 - i,
    {
        let e = find_char(output, '\n', i);
        proof {
            lemma_index_from_bounds(output@, '\n', i as int);
        }
        let line = slice(output, i, e);
        if starts_with(line.as_str(), "host: ") {
            let len = line.as_str().unicode_len();
            proof {
                reveal_strlit("host: ");
            }
            return Some(slice(line.as_str(), 6, len));
        }
        if e >= n {
            return None;
        }
        i = e + 1;
    }
    None
}

} // verus!
