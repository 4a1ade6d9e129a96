//! Defensive cleanup of one inbound wire frame.
//!
//! A peer writes one UTF-8 JSON document per connection; the reader pulls
//! it out of a fixed-size buffer, so the received bytes may carry padding
//! null bytes around the document and newlines from the sender.  Before
//! parsing, every newline byte is removed and the leading and trailing
//! null bytes are stripped.  (Both bytes stand for whole characters in
//! UTF-8, so dropping them never splits a character.)

use vstd::prelude::*;

verus! {

/// `s` without its leading and trailing zero bytes.
pub open spec fn trim_zeros(s: Seq<u8>) -> Seq<u8>
    decreases s.len(),
{
    if s.len() == 0 {
        s
    } else if s[0] == 0 {
        trim_zeros(s.drop_first())
    } else if s.last() == 0 {
        trim_zeros(s.drop_last())
    } else {
        s
    }
}

/// What sanitizing a frame yields: the bytes with every newline removed
/// and the leading and trailing null bytes stripped.
pub open spec fn spec_sanitize(s: Seq<u8>) -> Seq<u8> {
    trim_zeros(s.filter(|b: u8| b != 10))
}

/// A subrange whose borders carry no zero bytes outside it, and non-zero
/// bytes on its edges, is exactly the zero-trimmed sequence.
proof fn lemma_trim_zeros_subrange(s: Seq<u8>, i: int, j: int)
    requires
        0 <= i <= j <= s.len(),
        forall|t: int| 0 <= t < i ==> s[t] == 0,
        forall|t: int| j <= t < s.len() ==> s[t] == 0,
        i < j ==> s[i] != 0 && s[j - 1] != 0,
    ensures
        trim_zeros(s) == s.subrange(i, j),
    decreases s.len(),
{
    if s.len() == 0 {
        assert(trim_zeros(s) =~= s.subrange(i, j));
    } else if i == j {
        // Everything is zero; trimming empties the sequence.
        if s[0] == 0 {
            let d = s.drop_first();
            assert(forall|t: int| 0 <= t < d.len() ==> d[t] == s[t + 1]);
            lemma_trim_zeros_subrange(d, if i > 0 { i - 1 } else { 0 }, if j > 0 { j - 1 } else { 0 });
            assert(trim_zeros(s) =~= s.subrange(i, j));
        } else {
            assert(i == 0 && j == 0);
            assert(s[0] == 0);
        }
    } else if i > 0 {
        assert(s[0] == 0);
        let d = s.drop_first();
        assert(forall|t: int| 0 <= t < d.len() ==> d[t] == s[t + 1]);
        lemma_trim_zeros_subrange(d, i - 1, j - 1);
        assert(d.subrange(i - 1, j - 1) =~= s.subrange(i, j));
    } else if j < s.len() {
        assert(s[0] != 0);
        assert(s.last() == 0);
        let d = s.drop_last();
        lemma_trim_zeros_subrange(d, i, j);
        assert(d.subrange(i, j) =~= s.subrange(i, j));
    } else {
        assert(trim_zeros(s) == s);
        assert(s.subrange(0, s.len() as int) =~= s);
    }
}

/// Removes every newline byte and strips the leading and trailing null
/// bytes of one received frame.
pub fn sanitize_frame(buffer: &[u8]) -> (r: Vec<u8>)
    ensures
        r@ == spec_sanitize(buffer@),
{
    let mut kept: Vec<u8> = Vec::new();
    proof {
        reveal(Seq::filter);
        assert(buffer@.take(0).filter(|b: u8| b != 10) =~= Seq::<u8>::empty());
    }
    let mut i: usize = 0;
    while i < buffer.len()
        invariant
            i <= buffer@.len(),
            kept@ == buffer@.take(i as int).filter(|b: u8| b != 10),
        decreases buffer@.len() - i,
    {
        let b = buffer[i];
        proof {
            broadcast use vstd::prelude::Seq::lemma_filter_push;

            assert(buffer@.take(i as int + 1) =~= buffer@.take(i as int).push(buffer@[i as int]));
        }
        if b != 10 {
            kept.push(b);
        }
        i = i + 1;
    }
    proof {
        assert(buffer@.take(buffer@.len() as int) =~= buffer@);
    }

    // Strip the zero padding at both ends.
    let ghost full = kept@;
    let mut end: usize = kept.len();
    while end > 0 && kept[end - 1] == 0
        invariant
            end <= kept@.len(),
            kept@ == full,
            forall|t: int| end <= t < full.len() ==> full[t] == 0,
        decreases end,
    {
        end = end - 1;
    }
    let mut start: usize = 0;
    while start < end && kept[start] == 0
        invariant
            start <= end <= kept@.len(),
            kept@ == full,
            forall|t: int| 0 <= t < start ==> full[t] == 0,
        decreases end - start,
    {
        start = start + 1;
    }
    proof {
        lemma_trim_zeros_subrange(full, start as int, end as int);
    }
    kept.truncate(end);
    let r = kept.split_off(start);
    r
}

} // verus!
