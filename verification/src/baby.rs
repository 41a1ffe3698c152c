//! Assembler for the Manchester Baby (SSEM).
//!
//! A source line holds a label, a mnemonic and, for the mnemonics that take
//! one, a store address from 0 to 31, separated by single spaces. Each line
//! becomes a 32-bit word written as `0`/`1` characters: 16 zero bits, the
//! 3-bit function code, then either 8 zero bits and the 5-bit address, or 13
//! zero bits. The listing writes each word least significant bit first,
//! after its line number.

use vstd::prelude::*;
use crate::text::{
    decimal, equals_literal, extend_with, from_chars, parse_u32, parse_u32_chars, push_decimal,
    split_fields, split_on, to_chars,
};

verus! {

/// Hands back the string it was given.
pub fn hello_world(x: String) -> (r: String)
    ensures
        r@ == x@,
{
    x
}

// ---------------------------------------------------------------------------
// Function codes
// ---------------------------------------------------------------------------

/// The function code of mnemonic `w`, and whether the mnemonic takes a store
/// address; `(None, false)` for an unknown mnemonic.
pub open spec fn op_code_spec(w: Seq<char>) -> (Option<Seq<char>>, bool) {
    if w == seq!['J', 'M', 'P'] {
        (Some(seq!['0', '0', '0']), true)
    } else if w == seq!['J', 'R', 'P'] {
        (Some(seq!['0', '0', '1']), true)
    } else if w == seq!['L', 'D', 'N'] {
        (Some(seq!['0', '1', '0']), true)
    } else if w == seq!['S', 'T', 'O'] {
        (Some(seq!['0', '1', '1']), true)
    } else if w == seq!['S', 'U', 'B'] {
        (Some(seq!['1', '0', '0']), true)
    } else if w == seq!['C', 'M', 'P'] {
        (Some(seq!['1', '1', '0']), false)
    } else if w == seq!['S', 'T', 'P'] {
        (Some(seq!['1', '1', '1']), false)
    } else {
        (None, false)
    }
}

/// Looks up a mnemonic; see [`op_code_spec`].
pub fn op_code(val: &str) -> (r: (Option<&'static str>, bool))
    ensures
        r.1 == op_code_spec(val@).1,
        r.0 is Some <==> op_code_spec(val@).0 is Some,
        r.0 matches Some(code) ==> code@ == op_code_spec(val@).0->Some_0,
{
    let v = to_chars(val);
    proof {
        reveal_strlit("JMP");
        reveal_strlit("JRP");
        reveal_strlit("LDN");
        reveal_strlit("STO");
        reveal_strlit("SUB");
        reveal_strlit("CMP");
        reveal_strlit("STP");
        reveal_strlit("000");
        reveal_strlit("001");
        reveal_strlit("010");
        reveal_strlit("011");
        reveal_strlit("100");
        reveal_strlit("110");
        reveal_strlit("111");
        assert("JMP"@ =~= seq!['J', 'M', 'P']);
        assert("JRP"@ =~= seq!['J', 'R', 'P']);
        assert("LDN"@ =~= seq!['L', 'D', 'N']);
        assert("STO"@ =~= seq!['S', 'T', 'O']);
        assert("SUB"@ =~= seq!['S', 'U', 'B']);
        assert("CMP"@ =~= seq!['C', 'M', 'P']);
        assert("STP"@ =~= seq!['S', 'T', 'P']);
        assert("000"@ =~= seq!['0', '0', '0']);
        assert("001"@ =~= seq!['0', '0', '1']);
        assert("010"@ =~= seq!['0', '1', '0']);
        assert("011"@ =~= seq!['0', '1', '1']);
        assert("100"@ =~= seq!['1', '0', '0']);
        assert("110"@ =~= seq!['1', '1', '0']);
        assert("111"@ =~= seq!['1', '1', '1']);
    }
    if equals_literal(&v, "JMP") {
        (Some("000"), true)
    } else if equals_literal(&v, "JRP") {
        (Some("001"), true)
    } else if equals_literal(&v, "LDN") {
        (Some("010"), true)
    } else if equals_literal(&v, "STO") {
        (Some("011"), true)
    } else if equals_literal(&v, "SUB") {
        (Some("100"), true)
    } else if equals_literal(&v, "CMP") {
        (Some("110"), false)
    } else if equals_literal(&v, "STP") {
        (Some("111"), false)
    } else {
        (None, false)
    }
}

// ---------------------------------------------------------------------------
// Words
// ---------------------------------------------------------------------------

/// `n` zero characters.
pub open spec fn zeros(n: nat) -> Seq<char> {
    Seq::new(n, |i: int| '0')
}

/// The character of bit value `b`.
pub open spec fn bit_char(b: nat) -> char {
    if b == 1 {
        '1'
    } else {
        '0'
    }
}

/// `n` written in 5 binary digits, most significant first, as `{:05b}`
/// formats a number below 32.
pub open spec fn binary5(n: nat) -> Seq<char> {
    seq![
        bit_char((n / 16) % 2),
        bit_char((n / 8) % 2),
        bit_char((n / 4) % 2),
        bit_char((n / 2) % 2),
        bit_char(n % 2),
    ]
}

/// What assembling one source line gives: whether it is well formed, and
/// the content of the word buffer afterwards. On success the buffer holds
/// the whole 32-bit word; on failure it holds the bits settled before the
/// fault was found.
pub open spec fn consume(line: Seq<char>) -> (bool, Seq<char>) {
    let f = split_fields(line, ' ');
    let base = zeros(16);
    if f.len() < 2 {
        (false, base)
    } else {
        match op_code_spec(f[1]).0 {
            None => (false, base),
            Some(code) => {
                let with_code = base + code;
                if op_code_spec(f[1]).1 {
                    if f.len() < 3 {
                        (false, with_code)
                    } else {
                        match parse_u32(f[2]) {
                            Some(n) => if n > 31 {
                                (false, with_code)
                            } else {
                                (true, with_code + zeros(8) + binary5(n as nat))
                            },
                            None => (false, with_code),
                        }
                    }
                } else {
                    (true, with_code + zeros(13))
                }
            },
        }
    }
}

fn push_zeros(v: &mut Vec<char>, n: usize)
    ensures
        final(v)@ == old(v)@ + zeros(n as nat),
{
    let mut i: usize = 0;
    while i < n
        invariant
            i <= n,
            v@ == old(v)@ + zeros(i as nat),
        decreases n - i,
    {
        v.push('0');
        i = i + 1;
        assert(v@ =~= old(v)@ + zeros(i as nat));
    }
}

fn bit_of(b: u32) -> (c: char)
    requires
        b < 2,
    ensures
        c == bit_char(b as nat),
{
    if b == 1 {
        '1'
    } else {
        '0'
    }
}

fn push_binary5(v: &mut Vec<char>, n: u32)
    requires
        n <= 31,
    ensures
        final(v)@ == old(v)@ + binary5(n as nat),
{
    v.push(bit_of((n / 16) % 2));
    v.push(bit_of((n / 8) % 2));
    v.push(bit_of((n / 4) % 2));
    v.push(bit_of((n / 2) % 2));
    v.push(bit_of(n % 2));
    assert(final(v)@ =~= old(v)@ + binary5(n as nat));
}

/// Assembles one source line into `result`; see [`consume`]. Returns whether
/// the line is well formed.
pub fn consume_line(line: &String, result: &mut String) -> (ok: bool)
    ensures
        ok == consume(line@).0,
        final(result)@ == consume(line@).1,
{
    let chars = to_chars(line.as_str());
    let fields = split_on(&chars, ' ');
    let ghost f = split_fields(line@, ' ');
    assert(fields@.len() == f.len());
    let mut word: Vec<char> = Vec::new();
    push_zeros(&mut word, 16);
    assert(word@ =~= zeros(16));
    if fields.len() < 2 {
        *result = from_chars(&word);
        return false;
    }
    assert(fields@[1]@ == f[1]);
    let mnemonic = from_chars(&fields[1]);
    let (code, has_addr) = op_code(mnemonic.as_str());
    match code {
        None => {
            *result = from_chars(&word);
            false
        },
        Some(bits) => {
            extend_with(&mut word, bits);
            if has_addr {
                if fields.len() < 3 {
                    *result = from_chars(&word);
                    return false;
                }
                assert(fields@[2]@ == f[2]);
                match parse_u32_chars(&fields[2]) {
                    Some(n) => {
                        if n > 31 {
                            *result = from_chars(&word);
                            false
                        } else {
                            push_zeros(&mut word, 8);
                            push_binary5(&mut word, n);
                            *result = from_chars(&word);
                            true
                        }
                    },
                    None => {
                        *result = from_chars(&word);
                        false
                    },
                }
            } else {
                push_zeros(&mut word, 13);
                *result = from_chars(&word);
                true
            }
        },
    }
}

/// An assembled word is 32 characters, each `0` or `1`.
pub proof fn lemma_word_is_32_bits(line: Seq<char>)
    requires
        consume(line).0,
    ensures
        consume(line).1.len() == 32,
        forall|i: int|
            0 <= i < 32 ==> (#[trigger] consume(line).1[i] == '0' || consume(line).1[i] == '1'),
{
    let f = split_fields(line, ' ');
    let code = op_code_spec(f[1]).0->Some_0;
    assert(code.len() == 3);
    assert(forall|i: int| 0 <= i < 3 ==> (#[trigger] code[i] == '0' || code[i] == '1'));
}

/// The value of a string of `0`/`1` characters, most significant first.
pub open spec fn binary_value(s: Seq<char>) -> nat
    decreases s.len(),
{
    if s.len() == 0 {
        0
    } else {
        binary_value(s.drop_last()) * 2 + (if s.last() == '1' {
            1nat
        } else {
            0nat
        })
    }
}

proof fn lemma_binary5_value(n: nat)
    requires
        n <= 31,
    ensures
        binary_value(binary5(n)) == n,
{
    let b = binary5(n);
    assert(b.take(0) =~= Seq::<char>::empty());
    assert(b.take(1).drop_last() =~= b.take(0));
    assert(b.take(2).drop_last() =~= b.take(1));
    assert(b.take(3).drop_last() =~= b.take(2));
    assert(b.take(4).drop_last() =~= b.take(3));
    assert(b.take(5) =~= b);
    assert(b.take(5).drop_last() =~= b.take(4));
    assert(binary_value(b.take(0)) == 0);
    assert(b.take(1).last() == bit_char((n / 16) % 2));
    assert(b.take(2).last() == bit_char((n / 8) % 2));
    assert(b.take(3).last() == bit_char((n / 4) % 2));
    assert(b.take(4).last() == bit_char((n / 2) % 2));
    assert(b.take(5).last() == bit_char(n % 2));
    assert(binary_value(b.take(1)) == n / 16);
    assert(binary_value(b.take(2)) == n / 8);
    assert(binary_value(b.take(3)) == n / 4);
    assert(binary_value(b.take(4)) == n / 2);
    assert(binary_value(b.take(5)) == n);
}

/// The last five bits of an assembled word that takes an address read back
/// as that address.
pub proof fn lemma_address_field(line: Seq<char>)
    requires
        consume(line).0,
        op_code_spec(split_fields(line, ' ')[1]).1,
    ensures
        binary_value(consume(line).1.skip(27)) == parse_u32(split_fields(line, ' ')[2])->Some_0,
{
    let f = split_fields(line, ' ');
    let n = parse_u32(f[2])->Some_0 as nat;
    let code = op_code_spec(f[1]).0->Some_0;
    assert(code.len() == 3);
    let w = consume(line).1;
    assert(w == zeros(16) + code + zeros(8) + binary5(n));
    assert(w.skip(27) =~= binary5(n));
    lemma_binary5_value(n);
}

// ---------------------------------------------------------------------------
// Listing
// ---------------------------------------------------------------------------

/// The listing line for word number `index`: the number, `": "`, then the
/// word least significant bit first.
pub open spec fn listing_line_spec(index: nat, word: Seq<char>) -> Seq<char> {
    decimal(index) + seq![':', ' '] + word.reverse()
}

/// Formats the listing line for word number `index`; see
/// [`listing_line_spec`].
pub fn listing_line(index: u32, word: &String) -> (s: String)
    ensures
        s@ == listing_line_spec(index as nat, word@),
{
    let mut out: Vec<char> = Vec::new();
    push_decimal(&mut out, index as u64);
    out.push(':');
    out.push(' ');
    let w = to_chars(word.as_str());
    let ghost before = out@;
    let mut i: usize = w.len();
    while i > 0
        invariant
            i <= w.len(),
            w@ == word@,
            out@ == before + w@.skip(i as int).reverse(),
        decreases i,
    {
        i = i - 1;
        out.push(w[i]);
        assert(out@ =~= before + w@.skip(i as int).reverse());
    }
    assert(w@.skip(0) =~= w@);
    assert(out@ =~= listing_line_spec(index as nat, word@));
    from_chars(&out)
}

/// The first line of every listing: word 0, all zero.
pub fn listing_header() -> (s: String)
    ensures
        s@ == listing_line_spec(0, zeros(32)),
{
    let mut word: Vec<char> = Vec::new();
    push_zeros(&mut word, 32);
    let w = from_chars(&word);
    assert(w@ =~= zeros(32));
    listing_line(0, &w)
}

/// Numbers the words of a listing as the source lines are assembled.
pub struct Assembler {
    /// Number of the last word written.
    pub index: u32,
}

impl Assembler {
    /// An assembler that has written only the header word.
    pub fn new() -> (a: Assembler)
        ensures
            a.index == 0,
    {
        Assembler { index: 0 }
    }

    /// Assembles the next source line: on success, the listing line of the
    /// next word, which it numbers; on a syntax error, nothing, and the
    /// numbering is unchanged.
    pub fn step(&mut self, line: &String) -> (out: Option<String>)
        requires
            old(self).index < i32::MAX,
        ensures
            consume(line@).0 ==> final(self).index == old(self).index + 1 && out is Some
                && out->Some_0@ == listing_line_spec(
                final(self).index as nat,
                consume(line@).1,
            ),
            !consume(line@).0 ==> final(self).index == old(self).index && out is None,
    {
        let mut word = String::new();
        if consume_line(line, &mut word) {
            self.index = self.index + 1;
            Some(listing_line(self.index, &word))
        } else {
            None
        }
    }
}

} // verus!
