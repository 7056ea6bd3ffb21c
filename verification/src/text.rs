//! Byte-string utilities shared by the classifier, the path normalizer and
//! the fast-import writer.  All paths and protocol tokens in this crate are
//! sequences of bytes; contracts are stated over `Seq<u8>`.

use vstd::prelude::*;

verus! {

/// The bytes of an ASCII string slice, one byte per character.
pub open spec fn ascii_of(s: &str) -> Seq<u8> {
    Seq::new(s@.len(), |i: int| s@[i] as u8)
}

/// Materializes an ASCII string literal as a byte vector.
pub fn ascii_bytes(s: &str) -> (r: Vec<u8>)
    requires
        s.is_ascii(),
    ensures
        r@ == ascii_of(s),
{
    broadcast use vstd::string::is_ascii_spec_bytes;

    let r = s.as_bytes_vec();
    assert(r@ =~= ascii_of(s));
    r
}

/// True when `p` occurs in `s` starting at position `i`.
pub open spec fn matches_at(s: Seq<u8>, p: Seq<u8>, i: int) -> bool {
    0 <= i && i + p.len() <= s.len() && s.subrange(i, i + p.len()) == p
}

/// True when `p` is a prefix of `s`.
pub open spec fn starts_with(s: Seq<u8>, p: Seq<u8>) -> bool {
    p.len() <= s.len() && s.take(p.len() as int) == p
}

/// True when `p` is a suffix of `s`.
pub open spec fn ends_with(s: Seq<u8>, p: Seq<u8>) -> bool {
    p.len() <= s.len() && s.skip(s.len() - p.len()) == p
}

/// True when `p` occurs somewhere in `s`.
pub open spec fn contains_seq(s: Seq<u8>, p: Seq<u8>) -> bool {
    exists|i: int| matches_at(s, p, i)
}

/// Whether the bytes of `s` and `p` agree on a window of `p.len()` bytes
/// starting at `i` in `s`.
pub(crate) fn window_eq(s: &Vec<u8>, p: &Vec<u8>, i: usize) -> (r: bool)
    requires
        i + p@.len() <= s@.len(),
    ensures
        r == matches_at(s@, p@, i as int),
{
    let mut j: usize = 0;
    while j < p.len()
        invariant
            i + p.len() <= s.len(),
            j <= p@.len(),
            forall|k: int| 0 <= k < j ==> s@[i + k] == p@[k],
        decreases p@.len() - j,
    {
        if s[i + j] != p[j] {
            assert(s@.subrange(i as int, i + p@.len())[j as int] != p@[j as int]);
            return false;
        }
        j += 1;
    }
    assert(s@.subrange(i as int, i + p@.len()) =~= p@);
    true
}

/// Whether two byte vectors hold the same bytes.
pub fn bytes_eq(a: &Vec<u8>, b: &Vec<u8>) -> (r: bool)
    ensures
        r == (a@ == b@),
{
    if a.len() != b.len() {
        return false;
    }
    let r = window_eq(a, b, 0);
    proof {
        assert(a@.subrange(0, b@.len() as int) =~= a@);
    }
    r
}

/// Whether `p` is a prefix of `s`.
pub fn has_prefix(s: &Vec<u8>, p: &Vec<u8>) -> (r: bool)
    ensures
        r == starts_with(s@, p@),
{
    if p.len() > s.len() {
        assert(!starts_with(s@, p@));
        return false;
    }
    let r = window_eq(s, p, 0);
    assert(s@.subrange(0, p@.len() as int) =~= s@.take(p@.len() as int));
    r
}

/// Whether `p` is a suffix of `s`.
pub fn has_suffix(s: &Vec<u8>, p: &Vec<u8>) -> (r: bool)
    ensures
        r == ends_with(s@, p@),
{
    if p.len() > s.len() {
        assert(!ends_with(s@, p@));
        return false;
    }
    let start = s.len() - p.len();
    let r = window_eq(s, p, start);
    assert(s@.subrange(start as int, start + p@.len()) =~= s@.skip(s@.len() - p@.len()));
    r
}

/// Whether `p` occurs anywhere in `s`.
pub fn contains_bytes(s: &Vec<u8>, p: &Vec<u8>) -> (r: bool)
    ensures
        r == contains_seq(s@, p@),
{
    if p.len() > s.len() {
        assert(forall|i: int| !matches_at(s@, p@, i));
        return false;
    }
    let last = s.len() - p.len();
    let mut i: usize = 0;
    while i <= last
        invariant_except_break
            p.len() <= s.len(),
            last == s.len() - p.len(),
            i <= last + 1,
            forall|k: int| 0 <= k < i ==> !matches_at(s@, p@, k),
        ensures
            forall|k: int| 0 <= k <= last ==> !matches_at(s@, p@, k),
        decreases last + 1 - i,
    {
        if window_eq(s, p, i) {
            assert(matches_at(s@, p@, i as int));
            return true;
        }
        if i == last {
            break;
        }
        i += 1;
    }
    assert(forall|k: int| matches_at(s@, p@, k) ==> 0 <= k <= last);
    false
}

/// The number of occurrences of byte `b` in `s`.
pub open spec fn count_byte(s: Seq<u8>, b: u8) -> nat
    decreases s.len(),
{
    if s.len() == 0 {
        0
    } else {
        count_byte(s.drop_last(), b) + if s.last() == b {
            1nat
        } else {
            0nat
        }
    }
}

/// Counts the occurrences of byte `b` in `s`.
pub fn count_byte_occurrences(s: &Vec<u8>, b: u8) -> (r: usize)
    ensures
        r == count_byte(s@, b),
{
    let mut i: usize = 0;
    let mut n: usize = 0;
    while i < s.len()
        invariant
            i <= s@.len(),
            n <= i,
            n == count_byte(s@.take(i as int), b),
        decreases s@.len() - i,
    {
        proof {
            assert(s@.take(i + 1).drop_last() =~= s@.take(i as int));
            assert(s@.take(i + 1).last() == s@[i as int]);
        }
        if s[i] == b {
            n += 1;
        }
        i += 1;
    }
    proof {
        assert(s@.take(s@.len() as int) =~= s@);
    }
    n
}

/// Result of replacing every occurrence of `from` in `s` by `to`, scanning
/// left to right without overlap, as `str::replace` does.
pub open spec fn replace_all(s: Seq<u8>, from: Seq<u8>, to: Seq<u8>) -> Seq<u8>
    recommends
        from.len() > 0,
    decreases s.len(),
    when from.len() > 0
{
    if s.len() < from.len() {
        s
    } else if starts_with(s, from) {
        to + replace_all(s.skip(from.len() as int), from, to)
    } else {
        seq![s[0]] + replace_all(s.skip(1), from, to)
    }
}

/// Replaces every occurrence of `from` in `s` by `to`, scanning left to
/// right without overlap.
pub fn replace_bytes(s: &Vec<u8>, from: &Vec<u8>, to: &Vec<u8>) -> (r: Vec<u8>)
    requires
        from@.len() > 0,
    ensures
        r@ == replace_all(s@, from@, to@),
{
    let mut out: Vec<u8> = Vec::new();
    let mut i: usize = 0;
    proof {
        assert(s@.skip(0) =~= s@);
        assert(out@ + replace_all(s@, from@, to@) =~= replace_all(s@, from@, to@));
    }
    while from.len() <= s.len() - i
        invariant
            from.len() > 0,
            i <= s.len(),
            replace_all(s@, from@, to@) == out@ + replace_all(s@.skip(i as int), from@, to@),
        decreases s@.len() - i,
    {
        if window_eq(s, from, i) {
            proof {
                assert(starts_with(s@.skip(i as int), from@)) by {
                    assert(s@.skip(i as int).take(from@.len() as int) =~= s@.subrange(
                        i as int,
                        i + from@.len(),
                    ));
                }
                assert(s@.skip(i as int).skip(from@.len() as int) =~= s@.skip(
                    i + from@.len(),
                ));
            }
            let mut piece = to.clone();
            out.append(&mut piece);
            i += from.len();
        } else {
            proof {
                assert(!starts_with(s@.skip(i as int), from@)) by {
                    assert(s@.skip(i as int).take(from@.len() as int) =~= s@.subrange(
                        i as int,
                        i + from@.len(),
                    ));
                }
                assert(s@.skip(i as int).skip(1) =~= s@.skip(i + 1));
                assert(seq![s@.skip(i as int)[0]] =~= seq![s@[i as int]]);
            }
            out.push(s[i]);
            i += 1;
        }
        assert(replace_all(s@, from@, to@) == out@ + replace_all(s@.skip(i as int), from@, to@));
    }
    let ghost out0 = out@;
    let mut j: usize = i;
    while j < s.len()
        invariant
            i <= j <= s.len(),
            out@ == out0 + s@.subrange(i as int, j as int),
            replace_all(s@, from@, to@) == out0 + replace_all(s@.skip(i as int), from@, to@),
            s@.len() - i < from@.len(),
            from@.len() > 0,
        decreases s@.len() - j,
    {
        out.push(s[j]);
        j += 1;
        proof {
            assert(out@ =~= out0 + s@.subrange(i as int, j as int));
        }
    }
    proof {
        assert(replace_all(s@.skip(i as int), from@, to@) == s@.skip(i as int));
        assert(out@ =~= out0 + s@.skip(i as int));
    }
    out
}

/// The decimal digits of `n`, most significant first.
pub open spec fn dec_of(n: nat) -> Seq<u8>
    decreases n,
{
    if n < 10 {
        seq![(48 + n) as u8]
    } else {
        dec_of(n / 10) + seq![(48 + n % 10) as u8]
    }
}

/// The decimal rendering of a possibly negative number: a leading `-` for a
/// negative value, then the digits of its magnitude.
pub open spec fn dec_of_int(n: int) -> Seq<u8> {
    if n < 0 {
        seq![45u8] + dec_of((-n) as nat)
    } else {
        dec_of(n as nat)
    }
}

/// Renders `n` in decimal.
pub fn u64_to_dec(n: u64) -> (r: Vec<u8>)
    ensures
        r@ == dec_of(n as nat),
{
    let mut out: Vec<u8> = Vec::new();
    let mut m: u64 = n;
    let d0: u8 = 48 + (m % 10) as u8;
    out.push(d0);
    m = m / 10;
    proof {
        if n < 10 {
            assert(out@ =~= dec_of(n as nat));
        } else {
            assert(dec_of(n as nat) == dec_of(n as nat / 10) + seq![(48 + n as nat % 10) as u8]);
            assert(dec_of(m as nat) + out@ =~= dec_of(n as nat));
        }
    }
    while m > 0
        invariant
            if m > 0 {
                dec_of(n as nat) == dec_of(m as nat) + out@
            } else {
                dec_of(n as nat) == out@
            },
            out@.len() >= 1,
        decreases m,
    {
        let d: u8 = 48 + (m % 10) as u8;
        out.insert(0, d);
        proof {
            assert(out@ =~= seq![d] + out@.skip(1));
        }
        m = m / 10;
        proof {
            if m > 0 {
                assert(dec_of(n as nat) =~= dec_of(m as nat) + out@);
            } else {
                assert(dec_of(n as nat) =~= out@);
            }
        }
    }
    out
}

/// Renders a signed value in decimal, with a leading `-` when negative.
pub fn i64_to_dec(n: i64) -> (r: Vec<u8>)
    ensures
        r@ == dec_of_int(n as int),
{
    if n >= 0 {
        u64_to_dec(n as u64)
    } else {
        let magnitude: u64 = ((-(n as i128)) as u64);
        let mut out: Vec<u8> = Vec::new();
        out.push(45);
        let mut digits = u64_to_dec(magnitude);
        out.append(&mut digits);
        proof {
            assert(out@ =~= dec_of_int(n as int));
        }
        out
    }
}

/// Copies `v`.
pub fn clone_bytes(v: &Vec<u8>) -> (r: Vec<u8>)
    ensures
        r@ == v@,
{
    let r = v.clone();
    proof {
        assert(forall|i: int| 0 <= i < v@.len() ==> r@[i] == v@[i]);
        assert(r@ =~= v@);
    }
    r
}

/// The first `n` bytes of `v`, or all of `v` when it is shorter.
pub fn take_prefix(v: &Vec<u8>, n: usize) -> (r: Vec<u8>)
    ensures
        r@ == if v@.len() <= n {
            v@
        } else {
            v@.take(n as int)
        },
{
    let end = if v.len() <= n {
        v.len()
    } else {
        n
    };
    let mut r: Vec<u8> = Vec::new();
    let mut i: usize = 0;
    while i < end
        invariant
            end <= v@.len(),
            i <= end,
            r@ == v@.take(i as int),
        decreases end - i,
    {
        r.push(v[i]);
        proof {
            assert(r@ =~= v@.take(i + 1));
        }
        i += 1;
    }
    proof {
        if v@.len() <= n {
            assert(v@.take(v@.len() as int) =~= v@);
        }
    }
    r
}

/// Appends the bytes of an ASCII string literal to `v`.
pub fn append_ascii(v: &mut Vec<u8>, s: &str)
    requires
        s.is_ascii(),
    ensures
        final(v)@ == old(v)@ + ascii_of(s),
{
    let mut b = ascii_bytes(s);
    v.append(&mut b);
}

/// Appends a copy of `tail` to `v`.
pub fn extend_bytes(v: &mut Vec<u8>, tail: &Vec<u8>)
    ensures
        final(v)@ == old(v)@ + tail@,
{
    let mut t = clone_bytes(tail);
    v.append(&mut t);
}

} // verus!
