//! Little-endian field decoding, NUL trimming of fixed name buffers, and the
//! signature scan that anchors every other read in the format.

use vstd::prelude::*;

verus! {

/// Little-endian 16-bit value: the byte at `i` is the low byte.
pub open spec fn spec_le_u16_at(s: Seq<u8>, i: int) -> u16 {
    (s[i] + s[i + 1] * 0x100) as u16
}

/// Little-endian signed 16-bit value at `i` (two's complement).
pub open spec fn spec_le_i16_at(s: Seq<u8>, i: int) -> i16 {
    spec_le_u16_at(s, i) as i16
}

/// Little-endian 32-bit value: the byte at `i` is the lowest byte.
pub open spec fn spec_le_u32_at(s: Seq<u8>, i: int) -> u32 {
    (s[i] + s[i + 1] * 0x100 + s[i + 2] * 0x1_0000 + s[i + 3] * 0x100_0000) as u32
}

/// Little-endian signed 32-bit value at `i` (two's complement).
pub open spec fn spec_le_i32_at(s: Seq<u8>, i: int) -> i32 {
    spec_le_u32_at(s, i) as i32
}

pub fn le_u16_at(s: &Vec<u8>, i: usize) -> (r: u16)
    requires
        i + 2 <= s.len(),
    ensures
        r == spec_le_u16_at(s@, i as int),
{
    let b0 = s[i] as u16;
    let b1 = s[i + 1] as u16;
    b0 + b1 * 0x100
}

pub fn le_i16_at(s: &Vec<u8>, i: usize) -> (r: i16)
    requires
        i + 2 <= s.len(),
    ensures
        r == spec_le_i16_at(s@, i as int),
{
    #[verifier::truncate] (le_u16_at(s, i) as i16)
}

pub fn le_u32_at(s: &Vec<u8>, i: usize) -> (r: u32)
    requires
        i + 4 <= s.len(),
    ensures
        r == spec_le_u32_at(s@, i as int),
{
    let b0 = s[i] as u32;
    let b1 = s[i + 1] as u32;
    let b2 = s[i + 2] as u32;
    let b3 = s[i + 3] as u32;
    b0 + b1 * 0x100 + b2 * 0x1_0000 + b3 * 0x100_0000
}

pub fn le_i32_at(s: &Vec<u8>, i: usize) -> (r: i32)
    requires
        i + 4 <= s.len(),
    ensures
        r == spec_le_i32_at(s@, i as int),
{
    #[verifier::truncate] (le_u32_at(s, i) as i32)
}

/// Index of the first NUL byte of `s`, or `s.len()` if none is present.
pub open spec fn spec_first_nul(s: Seq<u8>) -> int
    decreases s.len(),
{
    if s.len() == 0 {
        0
    } else if s[0] == 0 {
        0
    } else {
        1 + spec_first_nul(s.drop_first())
    }
}

/// The prefix of `s` that precedes its first NUL byte; `s` itself if no NUL
/// is present.
pub open spec fn spec_trim_nul(s: Seq<u8>) -> Seq<u8> {
    s.take(spec_first_nul(s))
}

pub proof fn lemma_first_nul_bounds(s: Seq<u8>)
    ensures
        0 <= spec_first_nul(s) <= s.len(),
        forall|j: int| 0 <= j < spec_first_nul(s) ==> s[j] != 0,
        spec_first_nul(s) < s.len() ==> s[spec_first_nul(s)] == 0,
    decreases s.len(),
{
    if s.len() == 0 {
    } else if s[0] == 0 {
    } else {
        lemma_first_nul_bounds(s.drop_first());
        assert forall|j: int| 0 <= j < spec_first_nul(s) implies s[j] != 0 by {
            if j > 0 {
                assert(s.drop_first()[j - 1] != 0);
            }
        }
    }
}

/// What NUL trimming yields: a prefix of `s` holding no NUL byte, cut
/// immediately before the first NUL; the whole of `s` when no NUL is
/// present.
pub proof fn lemma_trim_nul_characterization(s: Seq<u8>)
    ensures
        spec_trim_nul(s).len() <= s.len(),
        forall|j: int|
            0 <= j < spec_trim_nul(s).len() ==> #[trigger] spec_trim_nul(s)[j] == s[j] && s[j]
                != 0,
        spec_trim_nul(s).len() < s.len() ==> s[spec_trim_nul(s).len() as int] == 0,
        (forall|j: int| 0 <= j < s.len() ==> s[j] != 0) ==> spec_trim_nul(s) == s,
{
    lemma_first_nul_bounds(s);
    if forall|j: int| 0 <= j < s.len() ==> s[j] != 0 {
        lemma_first_nul_is(s, s.len() as int);
        assert(spec_trim_nul(s) =~= s);
    }
}

/// `spec_first_nul` is the only index with no NUL before it and a NUL (or the
/// end of the buffer) at it.
pub proof fn lemma_first_nul_is(s: Seq<u8>, i: int)
    requires
        0 <= i <= s.len(),
        forall|j: int| 0 <= j < i ==> s[j] != 0,
        i < s.len() ==> s[i] == 0,
    ensures
        spec_first_nul(s) == i,
    decreases s.len(),
{
    if s.len() == 0 {
    } else if i == 0 {
    } else {
        assert(s[0] != 0);
        assert forall|j: int| 0 <= j < i - 1 implies s.drop_first()[j] != 0 by {
            assert(s[j + 1] != 0);
        }
        if i - 1 < s.drop_first().len() {
            assert(s.drop_first()[i - 1] == s[i]);
        }
        lemma_first_nul_is(s.drop_first(), i - 1);
    }
}

/// Truncates `v` to the prefix that precedes its first NUL byte.
pub fn trim_nul(v: Vec<u8>) -> (r: Vec<u8>)
    ensures
        r@ == spec_trim_nul(v@),
{
    let mut v = v;
    let mut i: usize = 0;
    while i < v.len() && v[i] != 0
        invariant
            i <= v.len(),
            forall|j: int| 0 <= j < i ==> v@[j] != 0,
        decreases v@.len() - i,
    {
        i = i + 1;
    }
    proof {
        lemma_first_nul_is(v@, i as int);
    }
    v.truncate(i);
    v
}

/// Copies `n` bytes starting at `pos` out of `s`.
pub fn read_bytes(s: &Vec<u8>, pos: usize, n: usize) -> (r: Vec<u8>)
    requires
        pos + n <= s.len(),
    ensures
        r@ == s@.subrange(pos as int, pos + n),
{
    let mut out: Vec<u8> = Vec::new();
    let mut j: usize = 0;
    while j < n
        invariant
            j <= n,
            pos + n <= s.len(),
            out@ == s@.subrange(pos as int, pos + j),
        decreases n - j,
    {
        out.push(s[pos + j]);
        proof {
            assert(out@ =~= s@.subrange(pos as int, pos + j + 1));
        }
        j = j + 1;
    }
    out
}

/// The four signature bytes `"IDP3"` stand at index `i` of `s`.
pub open spec fn spec_sig_at(s: Seq<u8>, i: int) -> bool {
    &&& i + 4 <= s.len()
    &&& s[i] == 73u8
    &&& s[i + 1] == 68u8
    &&& s[i + 2] == 80u8
    &&& s[i + 3] == 51u8
}

/// First index `>= i` where the signature stands, if any.
pub open spec fn spec_find_sig_from(s: Seq<u8>, i: int) -> Option<int>
    decreases s.len() - i,
{
    if i < 0 {
        None
    } else if i + 4 > s.len() {
        None
    } else if spec_sig_at(s, i) {
        Some(i)
    } else {
        spec_find_sig_from(s, i + 1)
    }
}

/// A found signature index is at or after the scan start and is a real
/// signature position.
pub proof fn lemma_find_sig_some(s: Seq<u8>, j: int, i: int)
    requires
        spec_find_sig_from(s, j) == Some(i),
    ensures
        j <= i,
        spec_sig_at(s, i),
    decreases s.len() - j,
{
    if j < 0 {
    } else if j + 4 > s.len() {
    } else if spec_sig_at(s, j) {
    } else {
        lemma_find_sig_some(s, j + 1, i);
    }
}

/// Offset just past the first occurrence of the signature, if any.
pub open spec fn spec_sig_end(s: Seq<u8>) -> Option<int> {
    match spec_find_sig_from(s, 0) {
        Some(i) => Some(i + 4),
        None => None,
    }
}

/// Scans forward byte by byte for the 4-byte signature `"IDP3"` and returns
/// the offset immediately following the match.  A failed partial match
/// restarts at the next byte, so look-alike runs cannot hide a later match.
pub fn find_signature(s: &Vec<u8>) -> (r: Option<usize>)
    ensures
        match r {
            Some(e) => spec_sig_end(s@) == Some(e as int) && 4 <= e <= s@.len(),
            None => spec_sig_end(s@) is None,
        },
{
    if s.len() < 4 {
        return None;
    }
    let end = s.len() - 4;
    let mut i: usize = 0;
    while i <= end
        invariant
            s.len() >= 4,
            end + 4 == s.len(),
            i <= end + 1,
            spec_find_sig_from(s@, 0) == spec_find_sig_from(s@, i as int),
        decreases end + 1 - i,
    {
        if s[i] == 73 && s[i + 1] == 68 && s[i + 2] == 80 && s[i + 3] == 51 {
            assert(spec_sig_at(s@, i as int));
            assert(spec_find_sig_from(s@, i as int) == Some(i as int));
            return Some(i + 4);
        }
        assert(!spec_sig_at(s@, i as int));
        assert(spec_find_sig_from(s@, i as int) == spec_find_sig_from(s@, i + 1));
        i = i + 1;
    }
    assert(spec_find_sig_from(s@, i as int) is None);
    None
}

} // verus!
