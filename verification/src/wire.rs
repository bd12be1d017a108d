//! Byte-level building blocks shared by the wire types, the response
//! builder and the request parser: turning ASCII literals into byte
//! vectors, rendering decimal numbers, and prefix tests on byte strings.
use vstd::prelude::*;

verus! {

broadcast use vstd::string::group_string_axioms;

/// The bytes of a sequence of ASCII characters, one byte per character.
pub open spec fn bytes_of_str(s: Seq<char>) -> Seq<u8> {
    Seq::new(s.len(), |i: int| s[i] as u8)
}

/// Turns an ASCII string (in practice: a literal of the protocol, such as
/// a MIME string or a header name) into its byte vector.
pub fn lit_bytes(s: &str) -> (r: Vec<u8>)
    requires
        vstd::string::is_ascii(s),
    ensures
        r@ == bytes_of_str(s@),
{
    let b = s.as_bytes();
    let v = vstd::slice::slice_to_vec(b);
    proof {
        assert(v@ =~= bytes_of_str(s@));
    }
    v
}

/// The ASCII digit for a value below ten.
pub open spec fn digit(n: nat) -> u8
    recommends
        n < 10,
{
    (0x30 + n) as u8
}

/// The decimal rendering of a natural number, most significant digit
/// first, with no leading zeroes (a single `0` for zero).
pub open spec fn dec_of(n: nat) -> Seq<u8>
    decreases n,
{
    if n < 10 {
        seq![digit(n)]
    } else {
        dec_of(n / 10) + seq![digit(n % 10)]
    }
}

/// Renders a number in decimal ASCII.
pub fn dec_bytes(n: usize) -> (r: Vec<u8>)
    ensures
        r@ == dec_of(n as nat),
    decreases n,
{
    if n < 10 {
        let mut r: Vec<u8> = Vec::new();
        r.push(0x30 + (n as u8));
        r
    } else {
        let mut r = dec_bytes(n / 10);
        r.push(0x30 + ((n % 10) as u8));
        proof {
            assert(r@ =~= dec_of(n as nat));
        }
        r
    }
}

/// The two byte strings are equal.
pub fn bytes_eq(a: &Vec<u8>, b: &Vec<u8>) -> (r: bool)
    ensures
        r == (a@ == b@),
{
    if a.len() != b.len() {
        proof {
            assert(a@ != b@);
        }
        return false;
    }
    let mut i: usize = 0;
    while i < a.len()
        invariant
            a@.len() == b@.len(),
            0 <= i <= a@.len(),
            forall|j: int| 0 <= j < i ==> a@[j] == b@[j],
        decreases a@.len() - i,
    {
        if a[i] != b[i] {
            proof {
                assert(a@[i as int] != b@[i as int]);
            }
            return false;
        }
        i += 1;
    }
    proof {
        assert(a@ =~= b@);
    }
    true
}

/// `p` is a prefix of `s`.
pub open spec fn has_prefix(s: Seq<u8>, p: Seq<u8>) -> bool {
    s.len() >= p.len() && s.take(p.len() as int) == p
}

/// Appends every byte of `src` to `dst`.
pub fn push_all(dst: &mut Vec<u8>, src: &Vec<u8>)
    ensures
        final(dst)@ == old(dst)@ + src@,
{
    let mut i: usize = 0;
    while i < src.len()
        invariant
            0 <= i <= src@.len(),
            dst@ == old(dst)@ + src@.take(i as int),
        decreases src@.len() - i,
    {
        dst.push(src[i]);
        proof {
            assert(dst@ =~= old(dst)@ + src@.take(i + 1 as int));
        }
        i += 1;
    }
    proof {
        assert(dst@ =~= old(dst)@ + src@);
    }
}

} // verus!
