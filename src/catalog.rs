use vstd::prelude::*;
use vstd::string::StrSliceExecFns;

verus! {

/// `p` occurs in `t` at position `i`.
pub open spec fn occurs_at(t: Seq<char>, p: Seq<char>, i: int) -> bool {
    0 <= i && i + p.len() <= t.len() && t.subrange(i, i + p.len()) == p
}

/// `p` occurs somewhere in `t`.
pub open spec fn contains_spec(t: Seq<char>, p: Seq<char>) -> bool {
    exists|i: int| occurs_at(t, p, i)
}

/// Whether `pattern` occurs in `text`; the empty pattern occurs everywhere.
pub fn contains(text: &str, pattern: &str) -> (r: bool)
    ensures
        r == contains_spec(text@, pattern@),
{
    let n = text.unicode_len();
    let m = pattern.unicode_len();
    if m > n {
        assert forall|i: int| !occurs_at(text@, pattern@, i) by {}
        return false;
    }
    let mut i: usize = 0;
    while i <= n - m
        invariant
            n == text@.len(),
            m == pattern@.len(),
            m <= n,
            i <= n - m + 1,
            forall|k: int| 0 <= k < i ==> !occurs_at(text@, pattern@, k),
        decreases n - m + 1 - i,
    {
        let mut j: usize = 0;
        let mut same = true;
        while j < m
            invariant
                n == text@.len(),
                m == pattern@.len(),
                i + m <= n,
                j <= m,
                same == forall|q: int| 0 <= q < j ==> text@[i + q] == pattern@[q],
            decreases m - j,
        {
            if text.get_char(i + j) != pattern.get_char(j) {
                same = false;
            }
            j += 1;
        }
        if same {
            assert(text@.subrange(i as int, i + m) =~= pattern@);
            assert(occurs_at(text@, pattern@, i as int));
            return true;
        }
        assert(!occurs_at(text@, pattern@, i as int)) by {
            if occurs_at(text@, pattern@, i as int) {
                let q = choose|q: int| 0 <= q < m && text@[i + q] != pattern@[q];
                assert(text@.subrange(i as int, i + m)[q] == text@[i + q]);
            }
        }
        i += 1;
    }
    assert forall|k: int| !occurs_at(text@, pattern@, k) by {
        if 0 <= k && k + m <= n {
            assert(k < i);
        }
    }
    false
}

/// Whether a catalogue entry is listed: thumbnails only when asked for, and
/// only entries whose identifier contains `search` (every entry when
/// `search` is empty).
pub fn include_image(is_thumbnail: bool, include_thumbnails: bool, search: &str, image_id: &str) -> (r: bool)
    ensures
        r == ((!is_thumbnail || include_thumbnails) && (search@.len() == 0 || contains_spec(image_id@, search@))),
{
    if is_thumbnail && !include_thumbnails {
        return false;
    }
    if search.unicode_len() == 0 {
        return true;
    }
    contains(image_id, search)
}

} // verus!
