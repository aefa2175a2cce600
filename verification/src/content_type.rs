//! Content-type normalization for incoming signalling requests.
//!
//! Some clients send `Content-Type: application/sdp` with trailing
//! parameters or stray whitespace; the HTTP layer replaces such a header
//! with the bare media type.  The decision is made here: take the part
//! before the first `;`, trim ASCII whitespace, and compare with
//! `application/sdp`.

use vstd::prelude::*;

verus! {

/// ASCII whitespace as found around header values.
pub open spec fn is_ws(b: u8) -> bool {
    b == 0x20 || b == 0x09
}

/// Index of the first `;`, or the length when there is none.
pub open spec fn semi_end(s: Seq<u8>) -> int
    decreases s.len(),
{
    if s.len() == 0 {
        0
    } else if s[0] == 0x3b {
        0
    } else {
        semi_end(s.subrange(1, s.len() as int)) + 1
    }
}

/// Last non-whitespace position at or before `until`, scanning backward.
pub open spec fn trim_end(s: Seq<u8>, until: int) -> int
    decreases until,
{
    if until <= 0 || until > s.len() {
        0
    } else if is_ws(s[until - 1]) {
        trim_end(s, until - 1)
    } else {
        until
    }
}

/// First non-whitespace position in `[from, end)`, or `end`.
pub open spec fn trim_start(s: Seq<u8>, from: int, end: int) -> int
    decreases end - from,
{
    if from < 0 || from >= end || end > s.len() {
        end
    } else if is_ws(s[from]) {
        trim_start(s, from + 1, end)
    } else {
        from
    }
}

/// The media type of a content-type header: everything before the first
/// `;`, with surrounding whitespace removed.
pub open spec fn clean_content_type(s: Seq<u8>) -> Seq<u8> {
    let end = trim_end(s, semi_end(s));
    let start = trim_start(s, 0, end);
    s.subrange(start, end)
}

/// The bytes of `application/sdp`.
pub open spec fn sdp_type() -> Seq<u8> {
    seq![
        0x61u8, 0x70u8, 0x70u8, 0x6cu8, 0x69u8, 0x63u8, 0x61u8, 0x74u8, 0x69u8, 0x6fu8, 0x6eu8,
        0x2fu8, 0x73u8, 0x64u8, 0x70u8,
    ]
}

/// `semi_end` points at the first `;`, or at the end.
pub proof fn lemma_semi_end(s: Seq<u8>)
    ensures
        0 <= semi_end(s) <= s.len(),
        semi_end(s) < s.len() ==> s[semi_end(s)] == 0x3b,
        forall|j: int| 0 <= j < semi_end(s) ==> s[j] != 0x3b,
    decreases s.len(),
{
    if s.len() > 0 && s[0] != 0x3b {
        let tail = s.subrange(1, s.len() as int);
        lemma_semi_end(tail);
        assert forall|j: int| 0 <= j < semi_end(s) implies s[j] != 0x3b by {
            if j > 0 {
                assert(tail[j - 1] != 0x3b);
                assert(s[j] == tail[j - 1]);
            }
        }
        if semi_end(s) < s.len() {
            assert(s[semi_end(s)] == tail[semi_end(tail)]);
        }
    }
}

/// `trim_end` stays within bounds.
pub proof fn lemma_trim_end_bounds(s: Seq<u8>, until: int)
    requires
        0 <= until <= s.len(),
    ensures
        0 <= trim_end(s, until) <= until,
    decreases until,
{
    if 0 < until <= s.len() && is_ws(s[until - 1]) {
        lemma_trim_end_bounds(s, until - 1);
    }
}

/// Whether a content-type header means `application/sdp` after
/// normalization, so the HTTP layer should rewrite it to the bare type.
pub fn content_type_is_sdp(header: &[u8]) -> (r: bool)
    ensures
        r == (clean_content_type(header@) == sdp_type()),
{
    let n = header.len();
    proof {
        lemma_semi_end(header@);
    }
    let mut semi: usize = n;
    let mut i: usize = 0;
    while i < n
        invariant_except_break
            semi == n,
        invariant
            i <= n,
            n == header@.len(),
            forall|j: int| 0 <= j < i ==> header@[j] != 0x3b,
            0 <= semi_end(header@) <= n,
            semi_end(header@) < n ==> header@[semi_end(header@)] == 0x3b,
            forall|j: int| 0 <= j < semi_end(header@) ==> header@[j] != 0x3b,
        ensures
            semi <= n,
            n == header@.len(),
            semi as int == semi_end(header@),
        decreases n - i,
    {
        if header[i] == 0x3b {
            semi = i;
            proof {
                assert(header@[i as int] == 0x3b);
                assert(i as int == semi_end(header@)) by {
                    if semi_end(header@) < i as int {
                        assert(header@[semi_end(header@)] != 0x3b);
                    }
                    if (i as int) < semi_end(header@) {
                        assert(header@[i as int] != 0x3b);
                    }
                }
            }
            break ;
        }
        i = i + 1;
    }
    proof {
        lemma_trim_end_bounds(header@, semi as int);
    }
    let mut end: usize = semi;
    while end > 0
        invariant
            end <= semi <= n,
            n == header@.len(),
            semi as int == semi_end(header@),
            trim_end(header@, semi as int) == trim_end(header@, end as int),
        ensures
            end <= semi <= n,
            semi as int == semi_end(header@),
            trim_end(header@, semi as int) == end as int,
        decreases end,
    {
        let b = header[end - 1];
        if b != 0x20 && b != 0x09 {
            proof {
                assert(trim_end(header@, end as int) == end as int);
            }
            break ;
        }
        end = end - 1;
    }
    let ghost tend = end as int;
    let mut start: usize = 0;
    while start < end
        invariant
            start <= end <= n,
            n == header@.len(),
            end as int == tend,
            tend == trim_end(header@, semi_end(header@)),
            trim_start(header@, 0, tend) == trim_start(header@, start as int, tend),
        ensures
            start <= end,
            end as int == tend,
            trim_start(header@, 0, tend) == start as int,
        decreases end - start,
    {
        let b = header[start];
        if b != 0x20 && b != 0x09 {
            proof {
                assert(trim_start(header@, start as int, tend) == start as int);
            }
            break ;
        }
        start = start + 1;
    }
    proof {
        assert(clean_content_type(header@) == header@.subrange(start as int, end as int));
    }
    if end - start != 15 {
        proof {
            assert(clean_content_type(header@).len() == end - start);
            assert(sdp_type().len() == 15);
        }
        return false;
    }
    let expected: [u8; 15] = [
        0x61,
        0x70,
        0x70,
        0x6c,
        0x69,
        0x63,
        0x61,
        0x74,
        0x69,
        0x6f,
        0x6e,
        0x2f,
        0x73,
        0x64,
        0x70,
    ];
    proof {
        assert(expected@ =~= sdp_type());
    }
    let mut k: usize = 0;
    while k < 15
        invariant
            k <= 15,
            n == header@.len(),
            start + 15 == end,
            end <= n,
            expected@ == sdp_type(),
            clean_content_type(header@) == header@.subrange(start as int, end as int),
            forall|j: int| 0 <= j < k ==> header@[start + j] == sdp_type()[j],
        decreases 15 - k,
    {
        if header[start + k] != expected[k] {
            proof {
                assert(clean_content_type(header@) != sdp_type()) by {
                    if clean_content_type(header@) == sdp_type() {
                        assert(header@.subrange(start as int, end as int)[k as int] == sdp_type()[
                            k as int
                        ]);
                        assert(header@.subrange(start as int, end as int)[k as int] == header@[
                            start + k
                        ]);
                    }
                }
            }
            return false;
        }
        proof {
            assert(header@[start + k] == expected@[k as int]);
        }
        k = k + 1;
    }
    proof {
        assert(header@.subrange(start as int, end as int) =~= sdp_type()) by {
            assert(forall|j: int|
                0 <= j < 15 ==> #[trigger] header@.subrange(start as int, end as int)[j] == header@[
                    start + j
                ]);
        }
    }
    true
}

} // verus!
