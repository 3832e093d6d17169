use vstd::prelude::*;

use crate::errors::Error;
use crate::errors::malformed_separator_message;

verus! {

/// `p` is a prefix of `s`.
pub open spec fn starts_with_spec(s: Seq<char>, p: Seq<char>) -> bool {
    p.len() <= s.len() && s.subrange(0, p.len() as int) == p
}

/// `p` is a suffix of `s`.
pub open spec fn ends_with_spec(s: Seq<char>, p: Seq<char>) -> bool {
    p.len() <= s.len() && s.subrange(s.len() - p.len(), s.len() as int) == p
}

/// `sep` occurs in `s` starting at position `i`.
pub open spec fn occurs_at(s: Seq<char>, sep: Seq<char>, i: int) -> bool {
    0 <= i && i + sep.len() <= s.len() && s.subrange(i, i + sep.len()) == sep
}

/// The segments of `s` around every occurrence of `sep`, scanning left to
/// right without overlap, with `cur` the segment built so far. A doubled
/// separator yields an empty interior segment; a separator longer than the
/// rest of `s` closes the final segment.
pub open spec fn split_segments(s: Seq<char>, sep: Seq<char>, cur: Seq<char>) -> Seq<Seq<char>>
    decreases s.len(),
{
    if sep.len() == 0 || s.len() < sep.len() {
        seq![cur + s]
    } else if s.subrange(0, sep.len() as int) == sep {
        seq![cur] + split_segments(s.subrange(sep.len() as int, s.len() as int), sep, Seq::empty())
    } else {
        split_segments(s.subrange(1, s.len() as int), sep, cur.push(s[0]))
    }
}

/// The ordered segments of `s` between occurrences of `sep`.
pub open spec fn split_spec(s: Seq<char>, sep: Seq<char>) -> Seq<Seq<char>> {
    split_segments(s, sep, Seq::empty())
}

/// The views of the strings in `v`, in order.
pub open spec fn string_views(v: Seq<String>) -> Seq<Seq<char>> {
    v.map_values(|p: String| p@)
}

/// Whether `sep` occurs in `s` at position `i`, by character comparison.
fn occurs_at_exec(s: &str, sep: &str, i: usize) -> (b: bool)
    requires
        i + sep@.len() <= s@.len(),
    ensures
        b == occurs_at(s@, sep@, i as int),
{
    let n = s.unicode_len();
    let m = sep.unicode_len();
    let mut j: usize = 0;
    while j < m
        invariant
            j <= m,
            n == s@.len(),
            m == sep@.len(),
            i + m <= n,
            forall|k: int| 0 <= k < j ==> s@[i + k] == sep@[k],
        decreases m - j,
    {
        if s.get_char(i + j) != sep.get_char(j) {
            proof {
                assert(s@.subrange(i as int, i + sep@.len())[j as int] == s@[i + j]);
            }
            return false;
        }
        j += 1;
    }
    proof {
        assert(s@.subrange(i as int, i + sep@.len()) =~= sep@);
    }
    true
}

/// Whether `s` starts with `p`.
fn starts_with_exec(s: &str, p: &str) -> (b: bool)
    ensures
        b == starts_with_spec(s@, p@),
{
    let n = s.unicode_len();
    let m = p.unicode_len();
    if m > n {
        false
    } else {
        occurs_at_exec(s, p, 0)
    }
}

/// Whether `s` ends with `p`.
fn ends_with_exec(s: &str, p: &str) -> (b: bool)
    ensures
        b == ends_with_spec(s@, p@),
{
    let n = s.unicode_len();
    let m = p.unicode_len();
    if m > n {
        false
    } else {
        occurs_at_exec(s, p, n - m)
    }
}

/// Appends the segments of `s` to `out`, with `cur` the segment under
/// construction, mirroring `split_segments`.
fn split_append(s: &str, sep: &str, cur: String, out: &mut Vec<String>)
    requires
        sep@.len() >= 1,
    ensures
        string_views(final(out)@) == string_views(old(out)@) + split_segments(s@, sep@, cur@),
    decreases s@.len(),
{
    let n = s.unicode_len();
    let m = sep.unicode_len();
    if n < m {
        let mut seg = cur;
        seg.append(s);
        out.push(seg);
        proof {
            assert(string_views(out@) =~= string_views(old(out)@) + split_segments(s@, sep@, cur@));
        }
    } else if occurs_at_exec(s, sep, 0) {
        out.push(cur);
        let ghost mid = out@;
        let rest = s.substring_char(m, n);
        split_append(rest, sep, String::new(), out);
        proof {
            assert(string_views(mid) =~= string_views(old(out)@) + seq![cur@]);
            assert(string_views(out@) =~= string_views(old(out)@) + split_segments(s@, sep@, cur@));
        }
    } else {
        let mut seg = cur;
        seg.append(s.substring_char(0, 1));
        proof {
            assert(seg@ =~= cur@.push(s@[0]));
        }
        split_append(s.substring_char(1, n), sep, seg, out);
    }
}

/// Splits the captured group on the configured separator into the ordered
/// short codes. A group that begins or ends with the separator is rejected;
/// so is one equal to the separator, or any group when the separator is
/// empty, an empty separator being a prefix of anything.
pub fn extract_shorts(extracted: &str, separator: &str) -> (r: Result<Vec<String>, Error>)
    ensures
        ({
            let malformed = starts_with_spec(extracted@, separator@)
                || ends_with_spec(extracted@, separator@);
            &&& malformed ==> r is Err && r->Err_0.message@ == malformed_separator_message()
            &&& !malformed ==> r is Ok && string_views(r->Ok_0@) == split_spec(
                extracted@,
                separator@,
            )
        }),
{
    if starts_with_exec(extracted, separator) || ends_with_exec(extracted, separator) {
        return Err(Error::malformed_separator());
    }
    proof {
        if separator@.len() == 0 {
            assert(extracted@.subrange(0, 0) =~= separator@);
            assert(starts_with_spec(extracted@, separator@));
        }
    }
    let mut parts: Vec<String> = Vec::new();
    split_append(extracted, separator, String::new(), &mut parts);
    proof {
        assert(string_views(parts@) =~= split_spec(extracted@, separator@));
    }
    Ok(parts)
}

} // verus!
