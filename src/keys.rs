use vstd::prelude::*;

verus! {

/// A 20-byte account identifier.
#[derive(Clone, Copy, Debug, PartialEq, Eq)]
pub struct Address {
    pub bytes: [u8; 20],
}

/// A 32-byte digest (block hash, code hash).
#[derive(Clone, Copy, Debug, PartialEq, Eq)]
pub struct B256 {
    pub bytes: [u8; 32],
}

/// An unsigned 256-bit integer as four 64-bit limbs, least significant first.
#[derive(Clone, Copy, Debug, PartialEq, Eq)]
pub struct U256 {
    pub limbs: [u64; 4],
}

impl U256 {
    pub open spec fn value(self) -> int {
        self.limbs[0] as int + self.limbs[1] as int * 0x1_0000_0000_0000_0000
            + self.limbs[2] as int * 0x1_0000_0000_0000_0000 * 0x1_0000_0000_0000_0000
            + self.limbs[3] as int * 0x1_0000_0000_0000_0000 * 0x1_0000_0000_0000_0000
            * 0x1_0000_0000_0000_0000
    }

    pub fn zero() -> (r: U256)
        ensures
            r.value() == 0,
    {
        U256 { limbs: [0u64; 4] }
    }
}

/// The digit of a value below 16: decimal digits, then lower-case hex letters.
pub open spec fn digit_char(d: int) -> char {
    if d < 10 {
        (d + 48) as char
    } else {
        (d + 87) as char
    }
}

/// Two lower-case hex digits for each byte, most significant digit first.
pub open spec fn hex_digits(b: Seq<u8>) -> Seq<char>
    decreases b.len(),
{
    if b.len() == 0 {
        Seq::empty()
    } else {
        hex_digits(b.drop_last()) + seq![digit_char(b.last() as int / 16), digit_char(b.last() as int % 16)]
    }
}

/// The text form of a byte string: `0x` followed by its hex digits.
pub open spec fn hex_text(b: Seq<u8>) -> Seq<char> {
    seq!['0', 'x'] + hex_digits(b)
}

/// The decimal digits of a natural number, without leading zeros.
pub open spec fn decimal_text(n: nat) -> Seq<char>
    decreases n,
{
    if n < 10 {
        seq![digit_char(n as int)]
    } else {
        decimal_text(n / 10) + seq![digit_char((n % 10) as int)]
    }
}

fn digit_str(d: u8) -> (r: &'static str)
    requires
        d < 16,
    ensures
        r@ == seq![digit_char(d as int)],
{
    let digits = "0123456789abcdef";
    proof {
        reveal_strlit("0123456789abcdef");
    }
    assert(digits.is_ascii());
    let r = digits.substring_ascii(d as usize, d as usize + 1);
    assert(r@ =~= seq![digit_char(d as int)]);
    r
}

/// The text form of a byte string, as used for keys in the tables.
pub fn to_hex_text(b: &[u8]) -> (r: String)
    ensures
        r@ == hex_text(b@),
{
    let mut r = String::from_str("0x");
    proof {
        reveal_strlit("0x");
    }
    let mut i: usize = 0;
    while i < b.len()
        invariant
            i <= b@.len(),
            r@ == hex_text(b@.subrange(0, i as int)),
        decreases b@.len() - i,
    {
        let x = b[i];
        r.append(digit_str(x / 16));
        r.append(digit_str(x % 16));
        assert(b@.subrange(0, i + 1).drop_last() =~= b@.subrange(0, i as int));
        i = i + 1;
        assert(r@ =~= hex_text(b@.subrange(0, i as int)));
    }
    assert(b@.subrange(0, b@.len() as int) =~= b@);
    r
}

/// The decimal text of a number, as used for block keys.
pub fn to_decimal_text(n: u64) -> (r: String)
    ensures
        r@ == decimal_text(n as nat),
    decreases n,
{
    if n < 10 {
        String::from_str(digit_str(n as u8))
    } else {
        let mut r = to_decimal_text(n / 10);
        r.append(digit_str((n % 10) as u8));
        r
    }
}

/// The value of a hex digit of either case, or -1 for any other character.
pub open spec fn hex_val(c: char) -> int {
    if '0' <= c && c <= '9' {
        c as int - 48
    } else if 'a' <= c && c <= 'f' {
        c as int - 87
    } else if 'A' <= c && c <= 'F' {
        c as int - 55
    } else {
        -1
    }
}

/// The digits of a hex text, after an optional `0x` prefix.
pub open spec fn hex_body(s: Seq<char>) -> Seq<char> {
    if s.len() >= 2 && s[0] == '0' && s[1] == 'x' {
        s.skip(2)
    } else {
        s
    }
}

/// Whether a sequence is an even number of hex digits.
pub open spec fn is_hex_digits(t: Seq<char>) -> bool {
    t.len() % 2 == 0 && forall|i: int| 0 <= i < t.len() ==> hex_val(#[trigger] t[i]) >= 0
}

/// The bytes that an even number of hex digits stands for, two digits to a byte.
pub open spec fn hex_bytes(t: Seq<char>) -> Seq<u8> {
    Seq::new((t.len() / 2) as nat, |i: int| (hex_val(t[2 * i]) * 16 + hex_val(t[2 * i + 1])) as u8)
}

proof fn lemma_ascii_byte(c: char)
    requires
        c <= '\u{7f}',
    ensures
        c as u8 as int == c as int,
        c as u8 as char == c,
{
    let x = c as u32;
    assert(x < 128 ==> (x as u8) as u32 == x) by (bit_vector);
    assert(c as u8 == x as u8);
}

fn digit_value(b: u8) -> (r: i16)
    ensures
        r == hex_val(b as char),
{
    if 48 <= b && b <= 57 {
        b as i16 - 48
    } else if 97 <= b && b <= 102 {
        b as i16 - 87
    } else if 65 <= b && b <= 70 {
        b as i16 - 55
    } else {
        -1
    }
}

/// Reads a hex text, with or without a `0x` prefix, as bytes.
pub fn from_hex_text(s: &str) -> (r: Option<Vec<u8>>)
    ensures
        r is Some <==> is_hex_digits(hex_body(s@)),
        r matches Some(v) ==> v@ == hex_bytes(hex_body(s@)),
{
    if !s.is_ascii() {
        proof {
            let t = hex_body(s@);
            if is_hex_digits(t) {
                assert forall|i: int| 0 <= i < s@.len() implies '\0' <= #[trigger] s@[i] <= '\u{7f}' by {
                    if s@.len() >= 2 && s@[0] == '0' && s@[1] == 'x' && i >= 2 {
                        assert(t[i - 2] == s@[i]);
                        assert(hex_val(t[i - 2]) >= 0);
                    } else if s@.len() >= 2 && s@[0] == '0' && s@[1] == 'x' {
                    } else {
                        assert(hex_val(t[i]) >= 0);
                    }
                }
            }
        }
        return None;
    }
    let n = s.unicode_len();
    let start: usize = if n >= 2 && s.get_ascii(0) == 48 && s.get_ascii(1) == 120 { 2 } else { 0 };
    let ghost t = hex_body(s@);
    proof {
        if n >= 2 {
            lemma_ascii_byte(s@[0]);
            lemma_ascii_byte(s@[1]);
        }
        assert(t =~= s@.skip(start as int));
    }
    if (n - start) % 2 != 0 {
        return None;
    }
    let mut out: Vec<u8> = Vec::new();
    let mut i: usize = start;
    while i < n
        invariant
            start <= i <= n,
            n == s@.len(),
            (i - start) % 2 == 0,
            (n - start) % 2 == 0,
            s.is_ascii(),
            t == s@.skip(start as int),
            t == hex_body(s@),
            out@.len() == (i - start) / 2,
            forall|j: int| 0 <= j < i - start ==> hex_val(#[trigger] t[j]) >= 0,
            forall|k: int| 0 <= k < out@.len() ==> #[trigger] out@[k] == (hex_val(t[2 * k]) * 16 + hex_val(t[2 * k + 1])) as u8,
        decreases n - i,
    {
        let hi = digit_value(s.get_ascii(i));
        let lo = digit_value(s.get_ascii(i + 1));
        proof {
            assert(t[i - start] == s@[i as int]);
            assert(t[i + 1 - start] == s@[i + 1]);
            lemma_ascii_byte(s@[i as int]);
            lemma_ascii_byte(s@[i + 1]);
        }
        if hi < 0 || lo < 0 {
            assert(hex_val(t[i - start]) < 0 || hex_val(t[i + 1 - start]) < 0);
            return None;
        }
        out.push((hi * 16 + lo) as u8);
        i = i + 2;
    }
    assert(out@ =~= hex_bytes(t));
    Some(out)
}

} // verus!
