//! Hexadecimal encoding and decoding.
//!
//! Encoding emits two lowercase digits per byte; decoding accepts both
//! cases and fails on odd length or a non-hex character, exactly as the
//! wire format of encrypted values requires.

use vstd::prelude::*;
use vstd::arithmetic::div_mod::lemma_fundamental_div_mod;

verus! {

/// The lowercase hex digit for a value below 16.
pub open spec fn hex_digit(n: u8) -> char
    recommends
        n < 16,
{
    if n < 10 {
        ((48 + n) as u8) as char
    } else {
        ((87 + n) as u8) as char
    }
}

/// The two lowercase hex digits of one byte.
pub open spec fn hex_of_byte(b: u8) -> Seq<char> {
    seq![hex_digit(b / 16), hex_digit(b % 16)]
}

/// The lowercase hex rendering of a byte sequence.
pub open spec fn hex_of(bytes: Seq<u8>) -> Seq<char>
    decreases bytes.len(),
{
    if bytes.len() == 0 {
        Seq::<char>::empty()
    } else {
        hex_of_byte(bytes[0]) + hex_of(bytes.skip(1))
    }
}

/// The value of one hex digit, either case; `None` for other characters.
pub open spec fn hex_digit_val(c: char) -> Option<u8> {
    let u = c as u32;
    if 48 <= u <= 57 {
        Some((u - 48) as u8)
    } else if 97 <= u <= 102 {
        Some((u - 87) as u8)
    } else if 65 <= u <= 70 {
        Some((u - 55) as u8)
    } else {
        None
    }
}

/// The bytes denoted by a hex string; `None` on odd length or a non-hex
/// character.
pub open spec fn spec_hex_decode(s: Seq<char>) -> Option<Seq<u8>>
    decreases s.len(),
{
    if s.len() == 0 {
        Some(Seq::<u8>::empty())
    } else if s.len() == 1 {
        None::<Seq<u8>>
    } else {
        match (hex_digit_val(s[0]), hex_digit_val(s[1])) {
            (Some(h), Some(l)) => match spec_hex_decode(s.skip(2)) {
                Some(r) => Some(seq![(16 * h + l) as u8] + r),
                None => None,
            },
            _ => None,
        }
    }
}

/// A hex rendering is twice as long as its bytes.
pub proof fn lemma_hex_len(bytes: Seq<u8>)
    ensures
        hex_of(bytes).len() == 2 * bytes.len(),
    decreases bytes.len(),
{
    if bytes.len() > 0 {
        lemma_hex_len(bytes.skip(1));
    }
}

/// `hex_of` distributes over concatenation.
pub proof fn lemma_hex_of_append(a: Seq<u8>, b: Seq<u8>)
    ensures
        hex_of(a + b) == hex_of(a) + hex_of(b),
    decreases a.len(),
{
    if a.len() == 0 {
        assert(a + b =~= b);
        assert(hex_of(a) + hex_of(b) =~= hex_of(b));
    } else {
        lemma_hex_of_append(a.skip(1), b);
        assert((a + b).skip(1) =~= a.skip(1) + b);
        assert(hex_of(a + b) =~= hex_of(a) + hex_of(b));
    }
}

/// Decoding inverts encoding.
pub proof fn lemma_hex_round_trip(bytes: Seq<u8>)
    ensures
        spec_hex_decode(hex_of(bytes)) == Some(bytes),
    decreases bytes.len(),
{
    if bytes.len() == 0 {
    } else {
        let b = bytes[0];
        lemma_hex_round_trip(bytes.skip(1));
        lemma_fundamental_div_mod(b as int, 16);
        let s = hex_of(bytes);
        assert(s[0] == hex_digit(b / 16));
        assert(s[1] == hex_digit(b % 16));
        assert(hex_digit_val(hex_digit(b / 16)) == Some((b / 16) as u8));
        assert(hex_digit_val(hex_digit(b % 16)) == Some((b % 16) as u8));
        assert(s.skip(2) =~= hex_of(bytes.skip(1)));
        assert(16 * (b / 16) + b % 16 == b);
        assert(spec_hex_decode(s).unwrap() =~= bytes);
    }
}

/// Encode bytes as lowercase hex characters.
pub fn hex_encode_chars(bytes: &[u8]) -> (r: Vec<char>)
    ensures
        r@ == hex_of(bytes@),
{
    let n = bytes.len();
    let mut r: Vec<char> = Vec::new();
    let mut i: usize = 0;
    while i < n
        invariant
            n == bytes@.len(),
            i <= n,
            r@ == hex_of(bytes@.subrange(0, i as int)),
        decreases n - i,
    {
        let b = bytes[i];
        let hi = b / 16;
        let lo = b % 16;
        r.push(if hi < 10 {
            (48 + hi) as char
        } else {
            (87 + hi) as char
        });
        r.push(if lo < 10 {
            (48 + lo) as char
        } else {
            (87 + lo) as char
        });
        proof {
            let pre = bytes@.subrange(0, i as int);
            lemma_hex_of_append(pre, seq![b]);
            assert(pre + seq![b] =~= bytes@.subrange(0, i + 1 as int));
            assert(seq![b].skip(1) =~= Seq::<u8>::empty());
            assert(hex_of(seq![b].skip(1)) == Seq::<char>::empty());
            assert(hex_of(seq![b]) == hex_of_byte(b) + hex_of(seq![b].skip(1)));
            assert(hex_of_byte(b) + Seq::<char>::empty() =~= hex_of_byte(b));
            assert(hex_of(seq![b]) =~= hex_of_byte(b));
            assert(r@ =~= hex_of(bytes@.subrange(0, i + 1 as int)));
        }
        i += 1;
    }
    assert(bytes@.subrange(0, n as int) =~= bytes@);
    r
}

/// Encode bytes as a lowercase hex string.
pub fn hex_encode(bytes: &[u8]) -> (r: String)
    ensures
        r@ == hex_of(bytes@),
{
    let chars = hex_encode_chars(bytes);
    crate::strutil::string_of(&chars)
}

/// The value of one hex digit character, if it is one.
fn digit_val(c: char) -> (r: Option<u8>)
    ensures
        r == hex_digit_val(c),
{
    let u = c as u32;
    if 48 <= u && u <= 57 {
        Some((u - 48) as u8)
    } else if 97 <= u && u <= 102 {
        Some((u - 87) as u8)
    } else if 65 <= u && u <= 70 {
        Some((u - 55) as u8)
    } else {
        None
    }
}

/// Decode a hex character sequence to bytes; `None` on odd length or a
/// non-hex character.
pub fn hex_decode_chars(s: &Vec<char>) -> (r: Option<Vec<u8>>)
    ensures
        match r {
            Some(b) => spec_hex_decode(s@) == Some(b@),
            None => spec_hex_decode(s@) is None,
        },
{
    let n = s.len();
    if n % 2 != 0 {
        proof {
            lemma_odd_hex_fails(s@);
        }
        return None;
    }
    let mut acc: Vec<u8> = Vec::new();
    let mut i: usize = 0;
    proof {
        assert(s@.skip(0) =~= s@);
        let r0 = spec_hex_decode(s@);
        if r0 is Some {
            assert(acc@ + r0.unwrap() =~= r0.unwrap());
        }
    }
    while i < n
        invariant
            n == s@.len(),
            i <= n,
            i % 2 == 0,
            n % 2 == 0,
            spec_hex_decode(s@.skip(i as int)) matches Some(rest) ==> spec_hex_decode(s@)
                == Some(acc@ + rest),
            spec_hex_decode(s@.skip(i as int)) is None ==> spec_hex_decode(s@) is None,
        decreases n - i,
    {
        let h = digit_val(s[i]);
        let l = digit_val(s[i + 1]);
        proof {
            assert(s@.skip(i as int)[0] == s@[i as int]);
            assert(s@.skip(i as int)[1] == s@[i + 1]);
            assert(s@.skip(i as int).skip(2) =~= s@.skip(i + 2));
        }
        match (h, l) {
            (Some(hv), Some(lv)) => {
                acc.push(16 * hv + lv);
                proof {
                    let old_acc = acc@.subrange(0, acc@.len() - 1);
                    assert(forall|rest: Seq<u8>|
                        old_acc + (seq![(16 * hv + lv) as u8] + rest) =~= acc@ + rest);
                }
            },
            _ => {
                return None;
            },
        }
        i += 2;
    }
    assert(s@.skip(n as int) =~= Seq::<char>::empty());
    assert(acc@ + Seq::<u8>::empty() =~= acc@);
    Some(acc)
}

/// A hex string of odd length never decodes.
proof fn lemma_odd_hex_fails(s: Seq<char>)
    requires
        s.len() % 2 == 1,
    ensures
        spec_hex_decode(s) is None,
    decreases s.len(),
{
    if s.len() == 1 {
    } else {
        lemma_odd_hex_fails(s.skip(2));
    }
}

/// Decode a hex string to bytes.
pub fn hex_decode(s: &str) -> (r: Option<Vec<u8>>)
    ensures
        match r {
            Some(b) => spec_hex_decode(s@) == Some(b@),
            None => spec_hex_decode(s@) is None,
        },
{
    let chars = crate::strutil::chars_of(s);
    hex_decode_chars(&chars)
}

} // verus!
