//! Incremental frame extraction for the streaming ingestion client. The
//! stream is a growing byte buffer; frames are separated by a blank line,
//! written either as CRLF-CRLF or as LF-LF. The four-byte separator is
//! preferred: only when it occurs nowhere in the buffer is the two-byte one
//! looked for. A found separator splits the buffer into the frame before it
//! and the remainder after it; a buffer without a separator is left unchanged
//! until more bytes arrive.

use vstd::prelude::*;

verus! {

/// The four-byte frame separator: CR LF CR LF.
pub open spec fn crlf_delim() -> Seq<u8> {
    seq![13u8, 10u8, 13u8, 10u8]
}

/// The two-byte frame separator: LF LF.
pub open spec fn lf_delim() -> Seq<u8> {
    seq![10u8, 10u8]
}

/// The pattern `d` occurs in `b` at position `i`.
pub open spec fn delim_at(b: Seq<u8>, d: Seq<u8>, i: int) -> bool {
    &&& 0 <= i
    &&& i + d.len() <= b.len()
    &&& forall|k: int| 0 <= k < d.len() ==> b[i + k] == d[k]
}

/// The position of the first occurrence of `d` in `b` at or after `i`.
pub open spec fn find_from(b: Seq<u8>, d: Seq<u8>, i: nat) -> Option<int>
    decreases b.len() - i,
{
    if i + d.len() > b.len() {
        None
    } else if delim_at(b, d, i as int) {
        Some(i as int)
    } else if i < b.len() {
        find_from(b, d, i + 1)
    } else {
        None
    }
}

/// The position of the first occurrence of `d` in `b`.
pub open spec fn find_first(b: Seq<u8>, d: Seq<u8>) -> Option<int> {
    find_from(b, d, 0)
}

/// How a buffer splits at the first frame separator: the frame before it and
/// the remainder after it, with CRLF-CRLF preferred over LF-LF.
pub open spec fn split_frame(b: Seq<u8>) -> Option<(Seq<u8>, Seq<u8>)> {
    match find_first(b, crlf_delim()) {
        Some(p) => Some((b.subrange(0, p), b.subrange(p + 4, b.len() as int))),
        None => match find_first(b, lf_delim()) {
            Some(p) => Some((b.subrange(0, p), b.subrange(p + 2, b.len() as int))),
            None => None,
        },
    }
}

/// `find_from` returns exactly the first occurrence at or after `i`: a found
/// position is an occurrence preceded by none, and `None` means there is no
/// occurrence at all.
pub proof fn lemma_find_from_characterizes(b: Seq<u8>, d: Seq<u8>, i: nat)
    requires
        d.len() >= 1,
    ensures
        match find_from(b, d, i) {
            Some(p) => delim_at(b, d, p) && i <= p && forall|j: int|
                i <= j < p ==> !delim_at(b, d, j),
            None => forall|j: int| i <= j ==> !delim_at(b, d, j),
        },
    decreases b.len() - i,
{
    if i + d.len() > b.len() {
    } else if delim_at(b, d, i as int) {
    } else {
        lemma_find_from_characterizes(b, d, i + 1);
    }
}

/// Whether `pat` occurs in `buf` at position `i`.
pub(crate) fn match_at(buf: &Vec<u8>, pat: &Vec<u8>, i: usize) -> (r: bool)
    requires
        i + pat@.len() <= buf@.len(),
    ensures
        r <==> delim_at(buf@, pat@, i as int),
{
    let _buf_len = buf.len();
    let mut j: usize = 0;
    while j < pat.len()
        invariant
            i + pat@.len() <= buf@.len(),
            buf@.len() <= usize::MAX,
            0 <= j <= pat@.len(),
            forall|k: int| 0 <= k < j ==> buf@[i + k] == pat@[k],
        decreases pat@.len() - j,
    {
        if buf[i + j] != pat[j] {
            return false;
        }
        j += 1;
    }
    true
}

/// Find the first occurrence of `pat` in `buf`.
pub(crate) fn find_pattern(buf: &Vec<u8>, pat: &Vec<u8>) -> (r: Option<usize>)
    requires
        pat@.len() >= 1,
    ensures
        match r {
            Some(p) => find_first(buf@, pat@) == Some(p as int),
            None => find_first(buf@, pat@) is None,
        },
{
    proof {
        lemma_find_from_characterizes(buf@, pat@, 0);
    }
    if buf.len() < pat.len() {
        return None;
    }
    let end = buf.len() - pat.len();
    let mut i: usize = 0;
    while i <= end
        invariant
            pat@.len() >= 1,
            end + pat@.len() == buf@.len(),
            buf@.len() <= usize::MAX,
            0 <= i <= end + 1,
            forall|k: int| 0 <= k < i ==> !delim_at(buf@, pat@, k),
        decreases end + 1 - i,
    {
        if match_at(buf, pat, i) {
            proof {
                lemma_find_from_characterizes(buf@, pat@, 0);
            }
            return Some(i);
        }
        i += 1;
    }
    proof {
        assert forall|j: int| 0 <= j implies !delim_at(buf@, pat@, j) by {
            if j > end {
                assert(j + pat@.len() > buf@.len());
            }
        }
        lemma_find_from_characterizes(buf@, pat@, 0);
    }
    None
}

/// The four-byte separator is preferred over the two-byte one: whenever
/// CRLF-CRLF occurs anywhere in the buffer — even after an LF-LF — the frame
/// is the prefix before the earliest CRLF-CRLF occurrence; LF-LF is consulted
/// only for buffers in which CRLF-CRLF occurs nowhere, and then the earliest
/// LF-LF occurrence wins.
pub proof fn lemma_crlf_preferred(b: Seq<u8>, p: int)
    requires
        delim_at(b, crlf_delim(), p),
    ensures
        split_frame(b) matches Some(fr) && {
            &&& delim_at(b, crlf_delim(), fr.0.len() as int)
            &&& forall|j: int| 0 <= j < fr.0.len() ==> !delim_at(b, crlf_delim(), j)
            &&& fr.0 == b.subrange(0, fr.0.len() as int)
            &&& fr.1 == b.subrange(fr.0.len() as int + 4, b.len() as int)
        },
{
    lemma_find_from_characterizes(b, crlf_delim(), 0);
}

/// Remove and return the earliest complete frame of `buffer`, removing its
/// separator as well; return `None`, leaving the buffer unchanged, when no
/// separator is present and more bytes are needed. The four-byte separator
/// CRLF-CRLF is preferred: the two-byte LF-LF is looked for only when the
/// four-byte one occurs nowhere.
pub fn extract_event(buffer: &mut Vec<u8>) -> (r: Option<Vec<u8>>)
    ensures
        match split_frame(old(buffer)@) {
            Some(fr) => r matches Some(f) && f@ == fr.0 && final (buffer)@ == fr.1,
            None => r is None && final (buffer)@ == old(buffer)@,
        },
{
    let crlf = vec![13u8, 10u8, 13u8, 10u8];
    let lf = vec![10u8, 10u8];
    proof {
        assert(crlf@ =~= crlf_delim());
        assert(lf@ =~= lf_delim());
    }
    let (pos, dlen): (usize, usize) = if let Some(p) = find_pattern(buffer, &crlf) {
        proof {
            lemma_find_from_characterizes(buffer@, crlf_delim(), 0);
        }
        (p, 4)
    } else if let Some(p) = find_pattern(buffer, &lf) {
        proof {
            lemma_find_from_characterizes(buffer@, lf_delim(), 0);
        }
        (p, 2)
    } else {
        return None;
    };
    let ghost b0 = buffer@;
    let mut tail = buffer.split_off(pos);
    let mut rest = tail.split_off(dlen);
    core::mem::swap(buffer, &mut rest);
    proof {
        assert(buffer@ =~= b0.subrange(pos + dlen, b0.len() as int));
        assert(rest@ =~= b0.subrange(0, pos as int));
    }
    Some(rest)
}

} // verus!
