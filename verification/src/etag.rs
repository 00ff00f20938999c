//! The cache-validation token: a stable 64-bit hash of a file's modification
//! timestamp, rendered as a decimal string.

use vstd::prelude::*;

verus! {

/// A file's last-modification time, as whole seconds since the Unix epoch
/// together with the sub-second nanoseconds. The caller reads it from the
/// filesystem and hands it over as plain integers.
#[derive(Clone, Copy, Debug, PartialEq, Eq, Structural)]
pub struct Timestamp {
    pub secs: u64,
    pub nanos: u32,
}

/// The low byte of a 64-bit value.
pub open spec fn low_byte(x: u64) -> u8 {
    (x & 0xff) as u8
}

/// The little-endian encoding of a timestamp: eight bytes of seconds, then
/// four bytes of nanoseconds.
pub open spec fn ts_bytes(t: Timestamp) -> Seq<u8> {
    let s = t.secs;
    let n = t.nanos as u64;
    seq![
        low_byte(s),
        low_byte(s >> 8),
        low_byte(s >> 16),
        low_byte(s >> 24),
        low_byte(s >> 32),
        low_byte(s >> 40),
        low_byte(s >> 48),
        low_byte(s >> 56),
        low_byte(n),
        low_byte(n >> 8),
        low_byte(n >> 16),
        low_byte(n >> 24),
    ]
}

/// One round of the FNV-1a hash: xor the byte in, multiply by the prime,
/// wrapping at 64 bits.
pub open spec fn fnv1a_step(h: u64, b: u8) -> u64 {
    vstd::wrapping::u64_specs::wrapping_mul(h ^ (b as u64), 0x100000001b3)
}

/// The 64-bit FNV-1a hash of a byte sequence.
pub open spec fn fnv1a(bytes: Seq<u8>) -> u64
    decreases bytes.len(),
{
    if bytes.len() == 0 {
        0xcbf29ce484222325
    } else {
        fnv1a_step(fnv1a(bytes.drop_last()), bytes.last())
    }
}

/// The decimal digits of a natural number, most significant first, with no
/// leading zeros (zero itself is the single digit `0`).
pub open spec fn decimal_of(n: nat) -> Seq<char>
    decreases n,
{
    if n < 10 {
        seq![digit_char(n)]
    } else {
        decimal_of(n / 10) + seq![digit_char(n % 10)]
    }
}

/// The character for a single decimal digit.
pub open spec fn digit_char(d: nat) -> char {
    if d == 0 {
        '0'
    } else if d == 1 {
        '1'
    } else if d == 2 {
        '2'
    } else if d == 3 {
        '3'
    } else if d == 4 {
        '4'
    } else if d == 5 {
        '5'
    } else if d == 6 {
        '6'
    } else if d == 7 {
        '7'
    } else if d == 8 {
        '8'
    } else {
        '9'
    }
}

/// Whether a character is a decimal digit.
pub open spec fn is_decimal_char(c: char) -> bool {
    c == '0' || c == '1' || c == '2' || c == '3' || c == '4' || c == '5' || c == '6' || c == '7'
        || c == '8' || c == '9'
}

/// The decimal rendering of a number is never empty and holds digits only.
pub proof fn lemma_decimal_shape(n: nat)
    ensures
        decimal_of(n).len() > 0,
        forall|i: int| 0 <= i < decimal_of(n).len() ==> is_decimal_char(#[trigger] decimal_of(n)[i]),
    decreases n,
{
    if n >= 10 {
        lemma_decimal_shape(n / 10);
    }
}

/// Distinct numbers render as distinct decimal strings.
pub proof fn lemma_decimal_injective(a: nat, b: nat)
    requires
        decimal_of(a) == decimal_of(b),
    ensures
        a == b,
    decreases a + b,
{
    lemma_decimal_shape(a);
    lemma_decimal_shape(b);
    assert(decimal_of(a).last() == digit_char(a % 10));
    assert(decimal_of(b).last() == digit_char(b % 10));
    assert(a % 10 == b % 10) by {
        assert(digit_char(a % 10) == digit_char(b % 10));
    }
    if a < 10 && b < 10 {
        assert(a == a % 10 && b == b % 10);
    } else if a >= 10 && b >= 10 {
        assert(decimal_of(a).drop_last() =~= decimal_of(a / 10));
        assert(decimal_of(b).drop_last() =~= decimal_of(b / 10));
        lemma_decimal_injective(a / 10, b / 10);
    } else {
        // One rendering is a single digit, the other at least two.
        lemma_decimal_shape(a / 10);
        lemma_decimal_shape(b / 10);
        assert(decimal_of(a).len() == decimal_of(b).len());
        assert(false);
    }
}

fn low_byte_exec(x: u64) -> (r: u8)
    ensures
        r == low_byte(x),
{
    proof {
        assert(x & 0xff < 256) by (bit_vector);
    }
    (x & 0xff) as u8
}

/// The little-endian bytes of a timestamp, as `ts_bytes` lists them.
pub fn timestamp_bytes(t: &Timestamp) -> (r: Vec<u8>)
    ensures
        r@ == ts_bytes(*t),
{
    let s = t.secs;
    let n = t.nanos as u64;
    let mut r: Vec<u8> = Vec::new();
    r.push(low_byte_exec(s));
    r.push(low_byte_exec(s >> 8));
    r.push(low_byte_exec(s >> 16));
    r.push(low_byte_exec(s >> 24));
    r.push(low_byte_exec(s >> 32));
    r.push(low_byte_exec(s >> 40));
    r.push(low_byte_exec(s >> 48));
    r.push(low_byte_exec(s >> 56));
    r.push(low_byte_exec(n));
    r.push(low_byte_exec(n >> 8));
    r.push(low_byte_exec(n >> 16));
    r.push(low_byte_exec(n >> 24));
    proof {
        assert(r@ =~= ts_bytes(*t));
    }
    r
}

/// The 64-bit FNV-1a hash, computed byte by byte.
pub fn fnv1a_hash(bytes: &Vec<u8>) -> (r: u64)
    ensures
        r == fnv1a(bytes@),
{
    let mut h: u64 = 0xcbf29ce484222325;
    let mut i: usize = 0;
    proof {
        assert(bytes@.take(0) =~= Seq::<u8>::empty());
    }
    while i < bytes.len()
        invariant
            i <= bytes@.len(),
            h == fnv1a(bytes@.take(i as int)),
        decreases bytes@.len() - i,
    {
        h = (h ^ (bytes[i] as u64)).wrapping_mul(0x100000001b3);
        proof {
            assert(bytes@.take(i + 1).drop_last() =~= bytes@.take(i as int));
        }
        i += 1;
    }
    proof {
        assert(bytes@.take(bytes@.len() as int) =~= bytes@);
    }
    h
}

fn digit_str(d: u64) -> (r: &'static str)
    requires
        d < 10,
    ensures
        r@ == seq![digit_char(d as nat)],
{
    proof {
        reveal_strlit("0");
        reveal_strlit("1");
        reveal_strlit("2");
        reveal_strlit("3");
        reveal_strlit("4");
        reveal_strlit("5");
        reveal_strlit("6");
        reveal_strlit("7");
        reveal_strlit("8");
        reveal_strlit("9");
    }
    let r: &'static str = if d == 0 {
        "0"
    } else if d == 1 {
        "1"
    } else if d == 2 {
        "2"
    } else if d == 3 {
        "3"
    } else if d == 4 {
        "4"
    } else if d == 5 {
        "5"
    } else if d == 6 {
        "6"
    } else if d == 7 {
        "7"
    } else if d == 8 {
        "8"
    } else {
        "9"
    };
    proof {
        assert(r@ =~= seq![digit_char(d as nat)]);
    }
    r
}

/// The decimal string of a 64-bit number, exactly `decimal_of`.
pub fn u64_to_decimal(n: u64) -> (r: String)
    ensures
        r@ == decimal_of(n as nat),
{
    let mut x = n;
    let mut r = String::new();
    loop
        invariant_except_break
            r@.len() == 0 ==> x == n,
            r@.len() > 0 ==> x > 0 && decimal_of(n as nat) == decimal_of(x as nat) + r@,
        ensures
            r@ == decimal_of(n as nat),
        decreases x,
    {
        let d = x % 10;
        let rest = String::from_str(digit_str(d)).concat(r.as_str());
        proof {
            if r@.len() == 0 {
                if x < 10 {
                    assert(decimal_of(n as nat) =~= rest@);
                } else {
                    assert(decimal_of(n as nat) =~= decimal_of((x / 10) as nat) + rest@);
                }
            } else if x < 10 {
                assert(decimal_of(x as nat) + r@ =~= rest@);
            } else {
                assert(decimal_of(x as nat) + r@ =~= (decimal_of((x / 10) as nat) + seq![
                    digit_char((x % 10) as nat),
                ]) + r@);
                assert((decimal_of((x / 10) as nat) + seq![digit_char((x % 10) as nat)]) + r@
                    =~= decimal_of((x / 10) as nat) + rest@);
            }
        }
        r = rest;
        x = x / 10;
        if x == 0 {
            break;
        }
    }
    r
}

} // verus!
