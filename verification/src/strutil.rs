use vstd::prelude::*;
use vstd::string::StrSliceExecFns;

verus! {

/// The Unicode scalar value of a character, with the ASCII uppercase
/// letters folded to their lowercase counterparts.
pub open spec fn lower_code(c: char) -> int {
    if 65 <= c as int <= 90 {
        c as int + 32
    } else {
        c as int
    }
}

/// Whether `needle` occurs in `hay` starting at offset `k`.
pub open spec fn matches_at(hay: Seq<char>, needle: Seq<char>, k: int) -> bool {
    &&& 0 <= k
    &&& k + needle.len() <= hay.len()
    &&& forall|j: int| 0 <= j < needle.len() ==> hay[k + j] == needle[j]
}

/// Whether `needle` occurs anywhere in `hay`.
pub open spec fn contains_seq(hay: Seq<char>, needle: Seq<char>) -> bool {
    exists|k: int| matches_at(hay, needle, k)
}

/// Whether `needle` occurs in `hay` starting at offset `k`, comparing
/// characters with ASCII case folded.
pub open spec fn matches_at_lower(hay: Seq<char>, needle: Seq<char>, k: int) -> bool {
    &&& 0 <= k
    &&& k + needle.len() <= hay.len()
    &&& forall|j: int| 0 <= j < needle.len() ==> lower_code(hay[k + j]) == lower_code(needle[j])
}

/// Whether `needle` occurs anywhere in `hay`, comparing characters
/// with ASCII case folded.
pub open spec fn contains_seq_lower(hay: Seq<char>, needle: Seq<char>) -> bool {
    exists|k: int| matches_at_lower(hay, needle, k)
}

/// Whether `hay` ends with `needle`.
pub open spec fn ends_with_seq(hay: Seq<char>, needle: Seq<char>) -> bool {
    &&& needle.len() <= hay.len()
    &&& hay.subrange(hay.len() - needle.len(), hay.len() as int) == needle
}

/// The ASCII-folded code of a character, computed.
fn lower_code_of(c: char) -> (r: u32)
    ensures
        r == lower_code(c),
{
    let u = c as u32;
    if 65 <= u && u <= 90 {
        u + 32
    } else {
        u
    }
}

/// Whether `needle` occurs in `hay` as a substring of characters.
pub fn str_contains(hay: &str, needle: &str) -> (r: bool)
    ensures
        r == contains_seq(hay@, needle@),
{
    let hlen = hay.unicode_len();
    let nlen = needle.unicode_len();
    if nlen > hlen {
        return false;
    }
    let mut k: usize = 0;
    while k <= hlen - nlen
        invariant
            hlen == hay@.len(),
            nlen == needle@.len(),
            nlen <= hlen,
            k <= hlen - nlen + 1,
            forall|k2: int| 0 <= k2 < k ==> !matches_at(hay@, needle@, k2),
        decreases hlen - nlen - k + 1,
    {
        let mut j: usize = 0;
        let mut all_match = true;
        while j < nlen
            invariant
                hlen == hay@.len(),
                nlen == needle@.len(),
                k + nlen <= hlen,
                j <= nlen,
                all_match == forall|j2: int| 0 <= j2 < j ==> hay@[k + j2] == needle@[j2],
            decreases nlen - j,
        {
            let hc = hay.get_char(k + j);
            let nc = needle.get_char(j);
            if hc != nc {
                all_match = false;
                proof {
                    assert(!(forall|j2: int| 0 <= j2 < j + 1 ==> hay@[k + j2] == needle@[j2]))
                        by {
                        assert(hay@[k + j] != needle@[j as int]);
                    }
                }
                j = nlen;
            } else {
                proof {
                    if forall|j2: int| 0 <= j2 < j ==> hay@[k + j2] == needle@[j2] {
                        assert forall|j2: int| 0 <= j2 < j + 1 implies hay@[k + j2]
                            == needle@[j2] by {}
                    }
                }
                j = j + 1;
            }
        }
        if all_match {
            proof {
                assert(matches_at(hay@, needle@, k as int));
            }
            return true;
        }
        k = k + 1;
    }
    proof {
        assert forall|k2: int| #![auto] !matches_at(hay@, needle@, k2) by {
            if matches_at(hay@, needle@, k2) {
                assert(0 <= k2 <= hlen - nlen);
            }
        }
    }
    false
}

/// Whether `needle` occurs in `hay`, comparing characters with ASCII
/// case folded. Matches a search over the lowercased text when the
/// needle is already lowercase ASCII.
pub fn str_contains_lower(hay: &str, needle: &str) -> (r: bool)
    ensures
        r == contains_seq_lower(hay@, needle@),
{
    let hlen = hay.unicode_len();
    let nlen = needle.unicode_len();
    if nlen > hlen {
        return false;
    }
    let mut k: usize = 0;
    while k <= hlen - nlen
        invariant
            hlen == hay@.len(),
            nlen == needle@.len(),
            nlen <= hlen,
            k <= hlen - nlen + 1,
            forall|k2: int| 0 <= k2 < k ==> !matches_at_lower(hay@, needle@, k2),
        decreases hlen - nlen - k + 1,
    {
        let mut j: usize = 0;
        let mut all_match = true;
        while j < nlen
            invariant
                hlen == hay@.len(),
                nlen == needle@.len(),
                k + nlen <= hlen,
                j <= nlen,
                all_match == forall|j2: int|
                    0 <= j2 < j ==> lower_code(hay@[k + j2]) == lower_code(needle@[j2]),
            decreases nlen - j,
        {
            let hc = lower_code_of(hay.get_char(k + j));
            let nc = lower_code_of(needle.get_char(j));
            if hc != nc {
                all_match = false;
                proof {
                    assert(!(forall|j2: int|
                        0 <= j2 < j + 1 ==> lower_code(hay@[k + j2]) == lower_code(needle@[j2])))
                        by {
                        assert(lower_code(hay@[k + j]) != lower_code(needle@[j as int]));
                    }
                }
                j = nlen;
            } else {
                proof {
                    if forall|j2: int|
                        0 <= j2 < j ==> lower_code(hay@[k + j2]) == lower_code(needle@[j2]) {
                        assert forall|j2: int| 0 <= j2 < j + 1 implies lower_code(hay@[k + j2])
                            == lower_code(needle@[j2]) by {}
                    }
                }
                j = j + 1;
            }
        }
        if all_match {
            proof {
                assert(matches_at_lower(hay@, needle@, k as int));
            }
            return true;
        }
        k = k + 1;
    }
    proof {
        assert forall|k2: int| #![auto] !matches_at_lower(hay@, needle@, k2) by {
            if matches_at_lower(hay@, needle@, k2) {
                assert(0 <= k2 <= hlen - nlen);
            }
        }
    }
    false
}

/// Whether `hay` ends with `needle`.
pub fn str_ends_with(hay: &str, needle: &str) -> (r: bool)
    ensures
        r == ends_with_seq(hay@, needle@),
{
    let hlen = hay.unicode_len();
    let nlen = needle.unicode_len();
    if nlen > hlen {
        return false;
    }
    let start = hlen - nlen;
    let mut j: usize = 0;
    while j < nlen
        invariant
            hlen == hay@.len(),
            nlen == needle@.len(),
            nlen <= hlen,
            start == hlen - nlen,
            j <= nlen,
            forall|j2: int| 0 <= j2 < j ==> hay@[start + j2] == needle@[j2],
        decreases nlen - j,
    {
        let hc = hay.get_char(start + j);
        let nc = needle.get_char(j);
        if hc != nc {
            proof {
                assert(hay@.subrange(hay@.len() - needle@.len(), hay@.len() as int)[j as int]
                    == hay@[start + j]);
            }
            return false;
        }
        j = j + 1;
    }
    proof {
        assert(hay@.subrange(hay@.len() - needle@.len(), hay@.len() as int) =~= needle@);
    }
    true
}

/// Whether `hay` ends with `needle`, comparing characters with ASCII
/// case folded.
pub open spec fn ends_with_seq_lower(hay: Seq<char>, needle: Seq<char>) -> bool {
    &&& needle.len() <= hay.len()
    &&& forall|j: int|
        0 <= j < needle.len() ==> lower_code(hay[hay.len() - needle.len() + j]) == lower_code(
            needle[j],
        )
}

/// Whether `hay` ends with `needle`, comparing characters with ASCII
/// case folded.
pub fn str_ends_with_lower(hay: &str, needle: &str) -> (r: bool)
    ensures
        r == ends_with_seq_lower(hay@, needle@),
{
    let hlen = hay.unicode_len();
    let nlen = needle.unicode_len();
    if nlen > hlen {
        return false;
    }
    let start = hlen - nlen;
    let mut j: usize = 0;
    while j < nlen
        invariant
            hlen == hay@.len(),
            nlen == needle@.len(),
            nlen <= hlen,
            start == hlen - nlen,
            j <= nlen,
            forall|j2: int|
                0 <= j2 < j ==> lower_code(hay@[start + j2]) == lower_code(needle@[j2]),
        decreases nlen - j,
    {
        let hc = lower_code_of(hay.get_char(start + j));
        let nc = lower_code_of(needle.get_char(j));
        if hc != nc {
            return false;
        }
        j = j + 1;
    }
    true
}

} // verus!
