pub mod client;
pub mod config;
pub mod queue;
use crate::text::{hex_digit_char, hex_digit_str, hex_value, hex_value_of, str_chars};
use vstd::prelude::*;
use vstd::string::*;

verus! {

/// A wallet: the twenty bytes of an account address.
#[derive(Debug, Clone, Copy, PartialEq, Eq)]
pub struct Address {
    pub bytes: [u8; 20],
}

impl View for Address {
    type V = Seq<u8>;

    open spec fn view(&self) -> Seq<u8> {
        self.bytes@
    }
}

/// Two lower-case hexadecimal digits for each byte.
pub open spec fn hex_text(bytes: Seq<u8>) -> Seq<char>
    decreases bytes.len(),
{
    if bytes.len() == 0 {
        Seq::empty()
    } else {
        hex_text(bytes.drop_last()) + seq![
            hex_digit_char((bytes.last() / 16) as nat),
            hex_digit_char((bytes.last() % 16) as nat),
        ]
    }
}

/// An address as text: `0x` and forty lower-case hexadecimal digits.
pub open spec fn address_text(bytes: Seq<u8>) -> Seq<char> {
    "0x"@ + hex_text(bytes)
}

/// The characters that a hexadecimal text may hold between its digits.
pub open spec fn is_hex_space(c: char) -> bool {
    c == ' ' || c == '\r' || c == '\n' || c == '\t'
}

/// The digits of a hexadecimal text, spaces left out; nothing if another character stands in
/// it.
pub open spec fn hex_nibbles(s: Seq<char>) -> Option<Seq<u8>>
    decreases s.len(),
{
    if s.len() == 0 {
        Some(Seq::empty())
    } else {
        match hex_nibbles(s.drop_last()) {
            None => None,
            Some(front) => if is_hex_space(s.last()) {
                Some(front)
            } else {
                match hex_value(s.last()) {
                    Some(v) => Some(front.push(v)),
                    None => None,
                }
            },
        }
    }
}

/// The text without a leading `0x`.
pub open spec fn without_hex_prefix(s: Seq<char>) -> Seq<char> {
    if s.len() >= 2 && s[0] == '0' && s[1] == 'x' {
        s.skip(2)
    } else {
        s
    }
}

/// The bytes of a row of hexadecimal digits, two digits to the byte.
pub open spec fn bytes_of_nibbles(n: Seq<u8>) -> Seq<u8> {
    Seq::new(n.len() / 2, |i: int| (n[2 * i] * 16 + n[2 * i + 1]) as u8)
}

/// The address that a text stands for: after an optional `0x`, exactly forty hexadecimal
/// digits of either case, with spaces between them left out.
pub open spec fn spec_parse_address(s: Seq<char>) -> Option<Seq<u8>> {
    match hex_nibbles(without_hex_prefix(s)) {
        Some(n) => if n.len() == 40 {
            Some(bytes_of_nibbles(n))
        } else {
            None
        },
        None => None,
    }
}

/// A text with a character that is no digit stays without digits, whatever follows.
proof fn lemma_hex_nibbles_fail(s: Seq<char>, k: int)
    requires
        0 <= k <= s.len(),
        hex_nibbles(s.take(k)) is None,
    ensures
        hex_nibbles(s) is None,
    decreases s.len() - k,
{
    if k < s.len() {
        assert(s.take(k + 1).drop_last() =~= s.take(k));
        lemma_hex_nibbles_fail(s, k + 1);
    } else {
        assert(s.take(k) =~= s);
    }
}

/// The eight bytes of a number, the highest first.
pub open spec fn be_bytes(n: u64) -> Seq<u8> {
    seq![
        (n / 0x100_0000_0000_0000) as u8,
        ((n / 0x1_0000_0000_0000) % 256) as u8,
        ((n / 0x100_0000_0000) % 256) as u8,
        ((n / 0x1_0000_0000) % 256) as u8,
        ((n / 0x100_0000) % 256) as u8,
        ((n / 0x1_0000) % 256) as u8,
        ((n / 0x100) % 256) as u8,
        (n % 256) as u8,
    ]
}

impl Address {
    /// The address of twenty zero bytes.
    pub fn zero() -> (a: Address)
        ensures
            a@ == Seq::new(20, |i: int| 0u8),
    {
        let a = Address { bytes: [0, 0, 0, 0, 0, 0, 0, 0, 0, 0, 0, 0, 0, 0, 0, 0, 0, 0, 0, 0] };
        assert(a@ =~= Seq::new(20, |i: int| 0u8));
        a
    }

    /// The address whose last eight bytes are those of `n`, the highest first, after twelve
    /// zero bytes.
    pub fn from_low_u64_be(n: u64) -> (a: Address)
        ensures
            a@ == Seq::new(12, |i: int| 0u8) + be_bytes(n),
    {
        let a = Address {
            bytes: [
                0,
                0,
                0,
                0,
                0,
                0,
                0,
                0,
                0,
                0,
                0,
                0,
                (n / 0x100_0000_0000_0000) as u8,
                ((n / 0x1_0000_0000_0000) % 256) as u8,
                ((n / 0x100_0000_0000) % 256) as u8,
                ((n / 0x1_0000_0000) % 256) as u8,
                ((n / 0x100_0000) % 256) as u8,
                ((n / 0x1_0000) % 256) as u8,
                ((n / 0x100) % 256) as u8,
                (n % 256) as u8,
            ],
        };
        assert(a@ =~= Seq::new(12, |i: int| 0u8) + be_bytes(n));
        a
    }

    /// The address as text: `0x` and forty lower-case hexadecimal digits.
    pub fn to_hex(&self) -> (s: String)
        ensures
            s@ == address_text(self@),
    {
        let mut s = String::from_str("0x");
        let mut i: usize = 0;
        assert(self@.take(0) =~= Seq::<u8>::empty());
        assert(s@ =~= "0x"@ + hex_text(self@.take(0)));
        while i < 20
            invariant
                i <= 20,
                self@.len() == 20,
                s@ == "0x"@ + hex_text(self@.take(i as int)),
            decreases 20 - i,
        {
            let b = self.bytes[i];
            let ghost before = s@;
            s.append(hex_digit_str(b / 16));
            s.append(hex_digit_str(b % 16));
            proof {
                assert(self@.take(i + 1).drop_last() =~= self@.take(i as int));
                assert(self@.take(i + 1).last() == b);
                assert(s@ =~= "0x"@ + hex_text(self@.take(i + 1)));
            }
            i += 1;
        }
        assert(self@.take(20) =~= self@);
        s
    }
}

/// Reads a wallet address from hexadecimal text, with or without a leading `0x`.
pub fn parse_address(addr: &str) -> (r: Option<Address>)
    ensures
        match r {
            Some(a) => spec_parse_address(addr@) == Some(a@),
            None => spec_parse_address(addr@) is None,
        },
{
    let chars = str_chars(addr);
    let start: usize = if chars.len() >= 2 && chars[0] == '0' && chars[1] == 'x' {
        2
    } else {
        0
    };
    let ghost body = without_hex_prefix(addr@);
    let mut nibbles: Vec<u8> = Vec::new();
    let mut i: usize = start;
    assert(body.take(0) =~= Seq::<char>::empty());
    while i < chars.len()
        invariant
            start <= i <= chars.len(),
            chars@ == addr@,
            body == addr@.skip(start as int),
            body == without_hex_prefix(addr@),
            hex_nibbles(body.take(i - start)) == Some(nibbles@),
            forall|k: int| 0 <= k < nibbles.len() ==> #[trigger] nibbles[k] < 16,
        decreases chars.len() - i,
    {
        let c = chars[i];
        proof {
            assert(body.take(i - start + 1).drop_last() =~= body.take(i - start));
            assert(body.take(i - start + 1).last() == c);
        }
        if !(c == ' ' || c == '\r' || c == '\n' || c == '\t') {
            match hex_value_of(c) {
                Some(v) => {
                    nibbles.push(v);
                },
                None => {
                    proof {
                        lemma_hex_nibbles_fail(body, i - start + 1);
                    }
                    return None;
                },
            }
        }
        i += 1;
    }
    assert(body.take(i - start) =~= body);
    if nibbles.len() != 40 {
        return None;
    }
    let n = &nibbles;
    let a = Address {
        bytes: [
            n[0] * 16 + n[1],
            n[2] * 16 + n[3],
            n[4] * 16 + n[5],
            n[6] * 16 + n[7],
            n[8] * 16 + n[9],
            n[10] * 16 + n[11],
            n[12] * 16 + n[13],
            n[14] * 16 + n[15],
            n[16] * 16 + n[17],
            n[18] * 16 + n[19],
            n[20] * 16 + n[21],
            n[22] * 16 + n[23],
            n[24] * 16 + n[25],
            n[26] * 16 + n[27],
            n[28] * 16 + n[29],
            n[30] * 16 + n[31],
            n[32] * 16 + n[33],
            n[34] * 16 + n[35],
            n[36] * 16 + n[37],
            n[38] * 16 + n[39],
        ],
    };
    assert(a@ =~= bytes_of_nibbles(nibbles@));
    Some(a)
}

} // verus!
