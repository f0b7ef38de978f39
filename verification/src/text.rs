//! Byte- and string-level helpers shared by the device-tree, clock and
//! I2C code: equality, UTF-8 decoding, trailing-NUL trimming and
//! NUL-separated string lists (the device-tree `stringlist` encoding).
use vstd::prelude::*;
use vstd::utf8::*;
use vstd::string::StringSliceAdditionalSpecFns;
use vstd::string::StringExecFns;

verus! {

broadcast use {vstd::utf8::encode_utf8_decode_utf8, vstd::utf8::encode_utf8_valid_utf8};

/// Byte-wise equality of two byte slices.
pub fn bytes_eq(a: &[u8], b: &[u8]) -> (r: bool)
    ensures
        r == (a@ == b@),
{
    if a.len() != b.len() {
        return false;
    }
    let mut i: usize = 0;
    while i < a.len()
        invariant
            a.len() == b.len(),
            i <= a.len(),
            forall|j: int| 0 <= j < i ==> a@[j] == b@[j],
        decreases a.len() - i,
    {
        if a[i] != b[i] {
            return false;
        }
        i = i + 1;
    }
    assert(a@ =~= b@);
    true
}

/// Equality of two strings, decided on their UTF-8 encodings.
pub fn str_eq(a: &str, b: &str) -> (r: bool)
    ensures
        r == (a@ == b@),
{
    let r = bytes_eq(a.as_bytes(), b.as_bytes());
    proof {
        if a.spec_bytes() == b.spec_bytes() {
            assert(decode_utf8(encode_utf8(a@)) == a@);
            assert(decode_utf8(encode_utf8(b@)) == b@);
        }
    }
    r
}

/// Two strings are equal exactly when their UTF-8 encodings are.
pub proof fn lemma_str_bytes_eq(a: &str, b: &str)
    ensures
        (a@ == b@) == (a.spec_bytes() == b.spec_bytes()),
{
    if a.spec_bytes() == b.spec_bytes() {
        assert(decode_utf8(encode_utf8(a@)) == a@);
        assert(decode_utf8(encode_utf8(b@)) == b@);
    }
}

/// Decodes `v` as UTF-8 through `core::str::from_utf8`, returning `None`
/// exactly when the bytes are not valid UTF-8.
#[verifier::external_body]
pub(crate) fn utf8_str(v: &[u8]) -> (r: Option<&str>)
    ensures
        r is Some <==> valid_utf8(v@),
        r matches Some(s) ==> s.spec_bytes() == v@,
{
    core::str::from_utf8(v).ok()
}

/// The length of `v` once trailing NUL bytes are removed.
pub open spec fn trim_nul_len(v: Seq<u8>) -> int
    decreases v.len(),
{
    if v.len() == 0 {
        0
    } else if v.last() == 0u8 {
        trim_nul_len(v.drop_last())
    } else {
        v.len() as int
    }
}

/// `v` without its trailing NUL bytes.
pub open spec fn trim_nul(v: Seq<u8>) -> Seq<u8> {
    v.subrange(0, trim_nul_len(v))
}

pub proof fn lemma_trim_nul_len_bounds(v: Seq<u8>)
    ensures
        0 <= trim_nul_len(v) <= v.len(),
    decreases v.len(),
{
    if v.len() > 0 && v.last() == 0u8 {
        lemma_trim_nul_len_bounds(v.drop_last());
    }
}

/// The byte at the trimmed length, if any, is a NUL.
pub proof fn lemma_trim_nul_next(v: Seq<u8>)
    ensures
        trim_nul_len(v) < v.len() ==> v[trim_nul_len(v)] == 0u8,
    decreases v.len(),
{
    if v.len() > 0 && v.last() == 0u8 {
        lemma_trim_nul_next(v.drop_last());
        lemma_trim_nul_len_bounds(v.drop_last());
    }
}

/// Removing trailing NULs keeps a string valid UTF-8.
pub proof fn lemma_valid_utf8_trim_nul(v: Seq<u8>)
    requires
        valid_utf8(v),
    ensures
        valid_utf8(trim_nul(v)),
{
    lemma_trim_nul_len_bounds(v);
    lemma_trim_nul_next(v);
    let n = trim_nul_len(v);
    if n == v.len() {
        assert(trim_nul(v) =~= v);
    } else {
        vstd::utf8::is_char_boundary_iff_not_is_continuation_byte(v, n);
        let b = v[n];
        assert(!is_continuation_byte(b)) by (bit_vector)
            requires
                b == 0u8,
        ;
        vstd::utf8::valid_utf8_split(v, n);
    }
}

/// Computes the length of `v` without its trailing NUL bytes.
pub fn trimmed_len(v: &[u8]) -> (n: usize)
    ensures
        n == trim_nul_len(v@),
{
    let mut n = v.len();
    assert(v@.subrange(0, n as int) =~= v@);
    while n > 0 && v[n - 1] == 0
        invariant
            n <= v.len(),
            trim_nul_len(v@) == trim_nul_len(v@.subrange(0, n as int)),
        decreases n,
    {
        assert(v@.subrange(0, n as int).drop_last() =~= v@.subrange(0, n - 1));
        n = n - 1;
    }
    assert(v@.subrange(0, n as int).len() == n);
    n
}

/// Index of the first NUL byte at or after `off`, or `v.len()` if there is none.
pub open spec fn seg_end(v: Seq<u8>, off: int) -> int
    decreases v.len() - off,
{
    if off < 0 || off >= v.len() {
        v.len() as int
    } else if v[off] == 0u8 {
        off
    } else {
        seg_end(v, off + 1)
    }
}

pub proof fn lemma_seg_end_bounds(v: Seq<u8>, off: int)
    requires
        0 <= off <= v.len(),
    ensures
        off <= seg_end(v, off) <= v.len(),
        forall|k: int| off <= k < seg_end(v, off) ==> v[k] != 0u8,
        seg_end(v, off) < v.len() ==> v[seg_end(v, off)] == 0u8,
    decreases v.len() - off,
{
    if off < v.len() && v[off] != 0u8 {
        lemma_seg_end_bounds(v, off + 1);
    }
}

/// Finds the end of the NUL-terminated segment that starts at `off`.
pub fn find_seg_end(v: &[u8], off: usize) -> (e: usize)
    requires
        off <= v.len(),
    ensures
        e == seg_end(v@, off as int),
        off <= e <= v.len(),
{
    proof {
        lemma_seg_end_bounds(v@, off as int);
    }
    let mut e = off;
    while e < v.len() && v[e] != 0
        invariant
            off <= e <= v.len(),
            seg_end(v@, e as int) == seg_end(v@, off as int),
        decreases v.len() - e,
    {
        e = e + 1;
    }
    e
}

/// Position of `target` in the NUL-separated list `v`, scanning from byte
/// `off` where the segment there has list index `idx`.
pub open spec fn strlist_find(v: Seq<u8>, target: Seq<u8>, off: int, idx: int) -> Option<int>
    decreases v.len() + 1 - off,
{
    if off < 0 || off >= v.len() {
        None
    } else {
        proof {
            lemma_seg_end_bounds(v, off);
        }
        let e = seg_end(v, off);
        if v.subrange(off, e) == target {
            Some(idx)
        } else {
            strlist_find(v, target, e + 1, idx + 1)
        }
    }
}

/// Number of segments the scan of `v` visits, starting at byte `off`.
pub open spec fn strlist_count(v: Seq<u8>, off: int) -> int
    decreases v.len() + 1 - off,
{
    if off < 0 || off >= v.len() {
        0
    } else {
        proof {
            lemma_seg_end_bounds(v, off);
        }
        1 + strlist_count(v, seg_end(v, off) + 1)
    }
}

pub proof fn lemma_strlist_find_bound(v: Seq<u8>, target: Seq<u8>, off: int, idx: int)
    requires
        0 <= off,
        0 <= idx,
    ensures
        strlist_find(v, target, off, idx) matches Some(i) ==> idx <= i < idx + v.len() - off,
    decreases v.len() + 1 - off,
{
    if off < v.len() {
        lemma_seg_end_bounds(v, off);
        lemma_strlist_find_bound(v, target, seg_end(v, off) + 1, idx + 1);
    }
}

/// Index of `target` in the NUL-separated string list `v`, as the device
/// tree encodes `compatible`, `clock-names` or `interrupt-names`.
pub fn strlist_index(v: &[u8], target: &[u8]) -> (r: Option<usize>)
    ensures
        r matches Some(i) ==> strlist_find(v@, target@, 0, 0) == Some(i as int),
        r is None ==> strlist_find(v@, target@, 0, 0) is None,
{
    let mut off: usize = 0;
    let mut idx: usize = 0;
    proof {
        lemma_strlist_find_bound(v@, target@, 0, 0);
    }
    while off < v.len()
        invariant
            idx <= off <= v.len(),
            strlist_find(v@, target@, off as int, idx as int) == strlist_find(v@, target@, 0, 0),
        decreases v.len() - off,
    {
        let e = find_seg_end(v, off);
        let seg = &v[off..e];
        assert(seg@ == v@.subrange(off as int, e as int));
        if bytes_eq(seg, target) {
            return Some(idx);
        }
        if e == v.len() {
            assert(strlist_find(v@, target@, e + 1, idx + 1) is None);
            return None;
        }
        off = e + 1;
        idx = idx + 1;
    }
    None
}

/// The decimal digits of `n`, most significant first.
pub open spec fn decimal(n: nat) -> Seq<char>
    decreases n,
{
    if n < 10 {
        seq![digit_char(n)]
    } else {
        decimal(n / 10) + seq![digit_char(n % 10)]
    }
}

/// The character of a decimal digit.
pub open spec fn digit_char(d: nat) -> char {
    if d == 0 {
        '0'
    } else if d == 1 {
        '1'
    } else if d == 2 {
        '2'
    } else if d == 3 {
        '3'
    } else if d == 4 {
        '4'
    } else if d == 5 {
        '5'
    } else if d == 6 {
        '6'
    } else if d == 7 {
        '7'
    } else if d == 8 {
        '8'
    } else {
        '9'
    }
}

fn push_digit(s: &mut String, d: usize)
    requires
        d < 10,
    ensures
        final(s)@ == old(s)@ + seq![digit_char(d as nat)],
{
    if d == 0 {
        proof {
            reveal_strlit("0");
        }
        s.append("0");
    } else if d == 1 {
        proof {
            reveal_strlit("1");
        }
        s.append("1");
    } else if d == 2 {
        proof {
            reveal_strlit("2");
        }
        s.append("2");
    } else if d == 3 {
        proof {
            reveal_strlit("3");
        }
        s.append("3");
    } else if d == 4 {
        proof {
            reveal_strlit("4");
        }
        s.append("4");
    } else if d == 5 {
        proof {
            reveal_strlit("5");
        }
        s.append("5");
    } else if d == 6 {
        proof {
            reveal_strlit("6");
        }
        s.append("6");
    } else if d == 7 {
        proof {
            reveal_strlit("7");
        }
        s.append("7");
    } else if d == 8 {
        proof {
            reveal_strlit("8");
        }
        s.append("8");
    } else {
        proof {
            reveal_strlit("9");
        }
        s.append("9");
    }
}

/// Appends the decimal digits of `n`.
pub fn push_decimal(s: &mut String, n: usize)
    ensures
        final(s)@ == old(s)@ + decimal(n as nat),
    decreases n,
{
    if n >= 10 {
        push_decimal(s, n / 10);
    }
    push_digit(s, n % 10);
    proof {
        if n >= 10 {
            assert(old(s)@ + decimal((n / 10) as nat) + seq![digit_char((n % 10) as nat)] =~= old(s)@ + decimal(
                n as nat,
            ));
        } else {
            assert(decimal(n as nat) == seq![digit_char(n as nat)]);
        }
    }
}

/// `prefix` followed by the decimal digits of `n` (`reg0`, `irq12`).
pub fn indexed_name(prefix: &str, n: usize) -> (r: String)
    ensures
        r@ == prefix@ + decimal(n as nat),
{
    let mut s = String::from_str(prefix);
    push_decimal(&mut s, n);
    s
}

} // verus!
