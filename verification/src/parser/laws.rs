//! The grammar of cgroup names, said without a parser, and what the
//! parser has to do with it.
use vstd::prelude::*;
use crate::parser::{
    is_cgroup_name,
    is_name_char,
    is_name_start,
    lemma_name_chars_end,
    lemma_name_end,
    lemma_segment_end,
    name_chars_end,
    name_end,
    segment_end,
};
use crate::text::is_digit;

verus! {

/// What a cgroup name is, byte by byte, from `from` on, `from` being where
/// a segment starts:
///
/// - every byte is a letter, a digit, `_`, `.` or `/`;
/// - a slash stands between two segments: not first, not last, not before
///   another slash;
/// - a dot is a segment of its own;
/// - no segment starts with a digit.
pub open spec fn well_formed_from(s: Seq<u8>, from: int) -> bool {
    &&& 0 <= from < s.len()
    &&& forall|k: int|
        from <= k < s.len() ==> is_name_char(#[trigger] s[k]) || s[k] == 0x2E || s[k] == 0x2F
    &&& forall|k: int|
        from <= k < s.len() && #[trigger] s[k] == 0x2F ==> from < k < s.len() - 1 && s[k + 1]
            != 0x2F
    &&& forall|k: int|
        from <= k < s.len() && #[trigger] s[k] == 0x2E ==> (k == from || s[k - 1] == 0x2F) && (k
            == s.len() - 1 || s[k + 1] == 0x2F)
    &&& forall|k: int|
        from <= k < s.len() && is_digit(#[trigger] s[k]) ==> k > from && s[k - 1] != 0x2F
}

/// What a cgroup name is, byte by byte.
pub open spec fn well_formed_name(s: Seq<u8>) -> bool {
    well_formed_from(s, 0)
}

proof fn lemma_parsed_is_well_formed(s: Seq<u8>, from: int)
    requires
        0 <= from < s.len(),
        name_end(s, from) == s.len(),
    ensures
        well_formed_from(s, from),
    decreases s.len() - from,
{
    lemma_segment_end(s, from);
    lemma_name_end(s, from);
    let e = segment_end(s, from);
    assert(e > from);
    if s[from] != 0x2E {
        lemma_name_chars_end(s, from + 1);
    }
    if e < s.len() && s[e] == 0x2F && segment_end(s, e + 1) > e + 1 {
        lemma_segment_end(s, e + 1);
        lemma_parsed_is_well_formed(s, e + 1);
        assert forall|k: int| from <= k < s.len() implies is_name_char(#[trigger] s[k]) || s[k]
            == 0x2E || s[k] == 0x2F by {}
        assert forall|k: int| from <= k < s.len() && #[trigger] s[k] == 0x2F implies from < k
            < s.len() - 1 && s[k + 1] != 0x2F by {
            if k == e {
                assert(s[e + 1] != 0x2F) by {
                    if s[e + 1] == 0x2F {
                        assert(e + 1 < e + 1);
                    }
                }
            }
        }
        assert forall|k: int| from <= k < s.len() && #[trigger] s[k] == 0x2E implies (k == from
            || s[k - 1] == 0x2F) && (k == s.len() - 1 || s[k + 1] == 0x2F) by {}
        assert forall|k: int| from <= k < s.len() && is_digit(#[trigger] s[k]) implies k > from
            && s[k - 1] != 0x2F by {
            if k == e + 1 {
                assert(e + 1 < e + 1);
            }
        }
    } else {
        assert(e == s.len());
    }
}

proof fn lemma_well_formed_is_parsed(s: Seq<u8>, from: int)
    requires
        well_formed_from(s, from),
    ensures
        name_end(s, from) == s.len(),
    decreases s.len() - from,
{
    lemma_segment_end(s, from);
    assert(s[from] != 0x2F);
    assert(!is_digit(s[from]));
    let e = segment_end(s, from);
    if s[from] != 0x2E {
        assert(is_name_start(s[from]));
        lemma_name_chars_end(s, from + 1);
    }
    assert(e > from);
    if e < s.len() {
        assert(s[e] == 0x2F) by {
            if s[from] != 0x2E {
                if s[e] == 0x2E {
                    assert(s[e - 1] == 0x2F);
                    assert(is_name_char(s[e - 1]));
                }
            }
        }
        assert(e + 1 < s.len());
        assert(s[e + 1] != 0x2F);
        assert(!is_digit(s[e + 1]));
        lemma_segment_end(s, e + 1);
        if s[e + 1] != 0x2E {
            assert(is_name_start(s[e + 1]));
            lemma_name_chars_end(s, e + 2);
        }
        assert(segment_end(s, e + 1) > e + 1);
        assert(well_formed_from(s, e + 1)) by {
            assert forall|k: int| e + 1 <= k < s.len() && #[trigger] s[k] == 0x2F implies e + 1
                < k < s.len() - 1 && s[k + 1] != 0x2F by {}
            assert forall|k: int| e + 1 <= k < s.len() && #[trigger] s[k] == 0x2E implies (k == e
                + 1 || s[k - 1] == 0x2F) && (k == s.len() - 1 || s[k + 1] == 0x2F) by {}
            assert forall|k: int| e + 1 <= k < s.len() && is_digit(#[trigger] s[k]) implies k > e
                + 1 && s[k - 1] != 0x2F by {}
        }
        lemma_well_formed_is_parsed(s, e + 1);
    }
}

/// The names that the parser takes whole are the cgroup names as they are
/// said above, byte by byte.
pub proof fn law_names_are_well_formed(s: Seq<u8>)
    ensures
        is_cgroup_name(s) <==> well_formed_name(s),
{
    if is_cgroup_name(s) {
        lemma_parsed_is_well_formed(s, 0);
    }
    if well_formed_name(s) {
        lemma_well_formed_is_parsed(s, 0);
    }
}

proof fn lemma_name_chars_end_longer(s: Seq<u8>, i: int, m: int)
    requires
        0 <= i <= m <= s.len(),
    ensures
        name_chars_end(s.take(m), i) <= name_chars_end(s, i),
        name_chars_end(s.take(m), i) < m ==> name_chars_end(s.take(m), i) == name_chars_end(s, i),
    decreases m - i,
{
    let t = s.take(m);
    if i < m {
        assert(t[i] == s[i]);
        if is_name_char(s[i]) {
            lemma_name_chars_end_longer(s, i + 1, m);
        }
    } else {
        lemma_name_chars_end(s, i);
    }
}

proof fn lemma_segment_end_longer(s: Seq<u8>, i: int, m: int)
    requires
        0 <= i <= m <= s.len(),
    ensures
        segment_end(s.take(m), i) <= segment_end(s, i),
        segment_end(s.take(m), i) < m ==> segment_end(s.take(m), i) == segment_end(s, i),
{
    let t = s.take(m);
    lemma_segment_end(s, i);
    if i < m {
        assert(t[i] == s[i]);
        if s[i] != 0x2E && is_name_start(s[i]) {
            lemma_name_chars_end_longer(s, i + 1, m);
        }
    }
}

proof fn lemma_name_end_longer(s: Seq<u8>, i: int, m: int)
    requires
        0 <= i < m <= s.len(),
        name_end(s.take(m), i) == m,
    ensures
        name_end(s, i) >= m,
    decreases m - i,
{
    let t = s.take(m);
    lemma_segment_end(t, i);
    lemma_segment_end(s, i);
    lemma_segment_end_longer(s, i, m);
    lemma_name_end(t, i);
    lemma_name_end(s, i);
    let e = segment_end(t, i);
    assert(e > i);
    if e < m && t[e] == 0x2F && segment_end(t, e + 1) > e + 1 {
        assert(segment_end(s, i) == e);
        assert(s[e] == t[e]);
        lemma_segment_end(t, e + 1);
        lemma_segment_end_longer(s, e + 1, m);
        lemma_name_end_longer(s, e + 1, m);
    } else {
        assert(e == m);
        let f = segment_end(s, i);
        if f < s.len() && s[f] == 0x2F && segment_end(s, f + 1) > f + 1 {
            lemma_name_end(s, f + 1);
        }
    }
}

/// The parser takes the longest name that the text starts with: what it
/// takes is a name, and nothing longer that the text starts with is one.
pub proof fn law_longest_name(s: Seq<u8>)
    ensures
        0 <= name_end(s, 0) <= s.len(),
        name_end(s, 0) > 0 ==> is_cgroup_name(s.take(name_end(s, 0))),
        forall|m: int| name_end(s, 0) < m <= s.len() ==> !is_cgroup_name(#[trigger] s.take(m)),
{
    lemma_name_end(s, 0);
    if name_end(s, 0) > 0 {
        crate::parser::lemma_name_prefix(s, name_end(s, 0));
    }
    assert forall|m: int| name_end(s, 0) < m <= s.len() implies !is_cgroup_name(
        #[trigger] s.take(m),
    ) by {
        if is_cgroup_name(s.take(m)) {
            lemma_name_end_longer(s, 0, m);
        }
    }
}

} // verus!
