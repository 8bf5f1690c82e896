//! Verified rendering of integers as decimal and hexadecimal text, and the
//! 64-bit FNV-1a digest used for crash signatures and test-case identifiers.

use vstd::prelude::*;

verus! {

/// The character for one digit value below sixteen.
pub open spec fn digit_char(d: int) -> char {
    if d == 0 {
        '0'
    } else if d == 1 {
        '1'
    } else if d == 2 {
        '2'
    } else if d == 3 {
        '3'
    } else if d == 4 {
        '4'
    } else if d == 5 {
        '5'
    } else if d == 6 {
        '6'
    } else if d == 7 {
        '7'
    } else if d == 8 {
        '8'
    } else if d == 9 {
        '9'
    } else if d == 10 {
        'a'
    } else if d == 11 {
        'b'
    } else if d == 12 {
        'c'
    } else if d == 13 {
        'd'
    } else if d == 14 {
        'e'
    } else {
        'f'
    }
}

/// Decimal digits of a non-negative value, most significant first.
pub open spec fn dec_digits(n: int) -> Seq<char>
    decreases n
    when n >= 0
{
    if n < 10 {
        seq![digit_char(n)]
    } else {
        dec_digits(n / 10).push(digit_char(n % 10))
    }
}

/// Decimal rendering of a signed value: a leading minus sign for negatives.
pub open spec fn int_digits(v: int) -> Seq<char> {
    if v < 0 {
        seq!['-'] + dec_digits(-v)
    } else {
        dec_digits(v)
    }
}

/// Hexadecimal digits of `n`, exactly `width` characters, zero padded,
/// most significant first.
pub open spec fn hex_pad(n: int, width: nat) -> Seq<char>
    decreases width
    when n >= 0
{
    if width == 0 {
        Seq::<char>::empty()
    } else {
        hex_pad(n / 16, (width - 1) as nat).push(digit_char(n % 16))
    }
}

pub proof fn lemma_hex_pad_len(n: int, width: nat)
    requires
        n >= 0,
    ensures
        hex_pad(n, width).len() == width,
    decreases width,
{
    if width > 0 {
        lemma_hex_pad_len(n / 16, (width - 1) as nat);
    }
}

/// A lower-case hexadecimal digit character.
pub open spec fn is_hex_char(c: char) -> bool {
    ||| c == '0'
    ||| c == '1'
    ||| c == '2'
    ||| c == '3'
    ||| c == '4'
    ||| c == '5'
    ||| c == '6'
    ||| c == '7'
    ||| c == '8'
    ||| c == '9'
    ||| c == 'a'
    ||| c == 'b'
    ||| c == 'c'
    ||| c == 'd'
    ||| c == 'e'
    ||| c == 'f'
}

pub proof fn lemma_hex_pad_chars(n: int, width: nat)
    requires
        n >= 0,
    ensures
        forall|i: int| 0 <= i < hex_pad(n, width).len() ==> is_hex_char(#[trigger] hex_pad(n, width)[i]),
    decreases width,
{
    lemma_hex_pad_len(n, width);
    if width > 0 {
        lemma_hex_pad_chars(n / 16, (width - 1) as nat);
        lemma_hex_pad_len(n / 16, (width - 1) as nat);
        assert forall|i: int| 0 <= i < hex_pad(n, width).len() implies is_hex_char(
            #[trigger] hex_pad(n, width)[i],
        ) by {
            if i < width - 1 {
                assert(hex_pad(n, width)[i] == hex_pad(n / 16, (width - 1) as nat)[i]);
            } else {
                assert(hex_pad(n, width)[i] == digit_char(n % 16));
            }
        }
    }
}

/// The single-character string for one digit value below sixteen.
pub fn digit_str(d: u64) -> (r: &'static str)
    requires
        d < 16,
    ensures
        r@ =~= seq![digit_char(d as int)],
{
    if d == 0 {
        proof {
            reveal_strlit("0");
        }
        "0"
    } else if d == 1 {
        proof {
            reveal_strlit("1");
        }
        "1"
    } else if d == 2 {
        proof {
            reveal_strlit("2");
        }
        "2"
    } else if d == 3 {
        proof {
            reveal_strlit("3");
        }
        "3"
    } else if d == 4 {
        proof {
            reveal_strlit("4");
        }
        "4"
    } else if d == 5 {
        proof {
            reveal_strlit("5");
        }
        "5"
    } else if d == 6 {
        proof {
            reveal_strlit("6");
        }
        "6"
    } else if d == 7 {
        proof {
            reveal_strlit("7");
        }
        "7"
    } else if d == 8 {
        proof {
            reveal_strlit("8");
        }
        "8"
    } else if d == 9 {
        proof {
            reveal_strlit("9");
        }
        "9"
    } else if d == 10 {
        proof {
            reveal_strlit("a");
        }
        "a"
    } else if d == 11 {
        proof {
            reveal_strlit("b");
        }
        "b"
    } else if d == 12 {
        proof {
            reveal_strlit("c");
        }
        "c"
    } else if d == 13 {
        proof {
            reveal_strlit("d");
        }
        "d"
    } else if d == 14 {
        proof {
            reveal_strlit("e");
        }
        "e"
    } else {
        proof {
            reveal_strlit("f");
        }
        "f"
    }
}

/// Decimal rendering of an unsigned value.
pub fn u64_to_dec(n: u64) -> (r: String)
    ensures
        r@ == dec_digits(n as int),
    decreases n,
{
    if n < 10 {
        String::from_str(digit_str(n))
    } else {
        let mut s = u64_to_dec(n / 10);
        s.append(digit_str(n % 10));
        proof {
            assert(s@ =~= dec_digits(n as int / 10).push(digit_char(n as int % 10)));
        }
        s
    }
}

/// Decimal rendering of a signed value.
pub fn i64_to_dec(v: i64) -> (r: String)
    ensures
        r@ == int_digits(v as int),
{
    if v >= 0 {
        u64_to_dec(v as u64)
    } else {
        let mag: u64 = if v == i64::MIN {
            9223372036854775808u64
        } else {
            (-v) as u64
        };
        proof {
            reveal_strlit("-");
        }
        let mut s = String::from_str("-");
        let digits = u64_to_dec(mag);
        s.append(digits.as_str());
        proof {
            assert(s@ =~= seq!['-'] + dec_digits(-(v as int)));
        }
        s
    }
}

/// Decimal rendering of a machine-size value.
pub fn usize_to_dec(n: usize) -> (r: String)
    ensures
        r@ == dec_digits(n as int),
{
    u64_to_dec(n as u64)
}

/// Fixed-width, zero-padded hexadecimal rendering.
pub fn u64_to_hex_pad(n: u64, width: u64) -> (r: String)
    ensures
        r@ == hex_pad(n as int, width as nat),
    decreases width,
{
    if width == 0 {
        String::new()
    } else {
        let mut s = u64_to_hex_pad(n / 16, width - 1);
        s.append(digit_str(n % 16));
        proof {
            assert(s@ =~= hex_pad(n as int / 16, (width - 1) as nat).push(
                digit_char(n as int % 16),
            ));
        }
        s
    }
}

/// Sixteen-character hexadecimal rendering of a 64-bit value.
pub fn u64_to_hex16(n: u64) -> (r: String)
    ensures
        r@ == hex_pad(n as int, 16),
        r@.len() == 16,
        forall|i: int| 0 <= i < r@.len() ==> is_hex_char(#[trigger] r@[i]),
{
    let r = u64_to_hex_pad(n, 16);
    proof {
        lemma_hex_pad_len(n as int, 16);
        lemma_hex_pad_chars(n as int, 16);
    }
    r
}

/// One step of the 64-bit FNV-1a digest.
pub open spec fn fnv1a_step(h: u64, c: char) -> u64 {
    vstd::wrapping::u64_specs::wrapping_mul(h ^ (c as u64), 0x100000001b3u64)
}

/// The 64-bit FNV-1a digest of a character sequence, from a given state.
pub open spec fn fnv1a_from(h: u64, s: Seq<char>) -> u64
    decreases s.len(),
{
    if s.len() == 0 {
        h
    } else {
        fnv1a_from(fnv1a_step(h, s[0]), s.skip(1))
    }
}

/// The 64-bit FNV-1a digest of a character sequence.
pub open spec fn fnv1a(s: Seq<char>) -> u64 {
    fnv1a_from(0xcbf29ce484222325u64, s)
}

/// Compute the 64-bit FNV-1a digest of a string's characters.
pub fn fnv1a_hash(s: &str) -> (r: u64)
    ensures
        r == fnv1a(s@),
{
    let n = s.unicode_len();
    let mut h: u64 = 0xcbf29ce484222325;
    let mut i: usize = 0;
    proof {
        assert(s@.skip(0) =~= s@);
    }
    while i < n
        invariant
            n == s@.len(),
            i <= n,
            fnv1a(s@) == fnv1a_from(h, s@.skip(i as int)),
        decreases n - i,
    {
        let c = s.get_char(i);
        proof {
            assert(s@.skip(i as int)[0] == s@[i as int]);
            assert(s@.skip(i as int).skip(1) =~= s@.skip(i as int + 1));
        }
        h = (h ^ (c as u64)).wrapping_mul(0x100000001b3);
        i += 1;
    }
    proof {
        assert(s@.skip(n as int) =~= Seq::<char>::empty());
    }
    h
}

} // verus!
