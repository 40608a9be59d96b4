//! A model of standard base64 (the alphabet with `+` and `/`, `=` padding),
//! an executable encoder backed by the `base64` crate, and executable
//! padding handling: the service publishes hashes as unpadded base64, and a
//! consumer restores the padding before decoding.
use vstd::prelude::*;
use vstd::arithmetic::div_mod::lemma_fundamental_div_mod;
use vstd::arithmetic::div_mod::lemma_fundamental_div_mod_converse;
use base64::Engine;

verus! {

/// The 64 digits of the standard base64 alphabet, in value order.
pub open spec fn b64_alphabet() -> Seq<char> {
    "ABCDEFGHIJKLMNOPQRSTUVWXYZabcdefghijklmnopqrstuvwxyz0123456789+/"@
}

/// The digit that stands for the six-bit value `v`.
pub open spec fn b64_char(v: int) -> char
    recommends
        0 <= v < 64,
{
    b64_alphabet()[v]
}

/// The six-bit value of a base64 digit, or -1 where `c` is no digit.
pub open spec fn b64_val(c: char) -> int {
    if 'A' <= c && c <= 'Z' {
        c as int - 'A' as int
    } else if 'a' <= c && c <= 'z' {
        26 + c as int - 'a' as int
    } else if '0' <= c && c <= '9' {
        52 + c as int - '0' as int
    } else if c == '+' {
        62
    } else if c == '/' {
        63
    } else {
        -1
    }
}

/// Whether `c` is one of the 64 base64 digits (`=` is not).
pub open spec fn is_b64_digit(c: char) -> bool {
    b64_val(c) >= 0
}

/// The four digits that encode the three bytes `b0 b1 b2`.
pub open spec fn encode3(b0: u8, b1: u8, b2: u8) -> Seq<char> {
    seq![
        b64_char(b0 as int / 4),
        b64_char((b0 as int % 4) * 16 + b1 as int / 16),
        b64_char((b1 as int % 16) * 4 + b2 as int / 64),
        b64_char(b2 as int % 64),
    ]
}

/// The base64 digits of `s`, without any `=` padding.
pub open spec fn b64_digits(s: Seq<u8>) -> Seq<char>
    decreases s.len(),
{
    if s.len() == 0 {
        Seq::empty()
    } else if s.len() == 1 {
        seq![b64_char(s[0] as int / 4), b64_char((s[0] as int % 4) * 16)]
    } else if s.len() == 2 {
        seq![
            b64_char(s[0] as int / 4),
            b64_char((s[0] as int % 4) * 16 + s[1] as int / 16),
            b64_char((s[1] as int % 16) * 4),
        ]
    } else {
        encode3(s[0], s[1], s[2]) + b64_digits(s.skip(3))
    }
}

/// The `=` padding that standard base64 appends for an `n`-byte payload.
pub open spec fn b64_padding(n: nat) -> Seq<char> {
    if n % 3 == 1 {
        seq!['=', '=']
    } else if n % 3 == 2 {
        seq!['=']
    } else {
        Seq::empty()
    }
}

/// Standard, padded base64 encoding of `s`.
pub open spec fn b64_encode(s: Seq<u8>) -> Seq<char> {
    b64_digits(s) + b64_padding(s.len())
}

/// `s` with every trailing `=` removed.
pub open spec fn strip_pad(s: Seq<char>) -> Seq<char>
    decreases s.len(),
{
    if s.len() > 0 && s.last() == '=' {
        strip_pad(s.drop_last())
    } else {
        s
    }
}

/// How many `=` signs extend a string of `n` characters to a multiple of four.
pub open spec fn pad_count(n: nat) -> nat {
    (((4 - n % 4) % 4) as nat)
}

/// `s` extended with `=` signs to the next multiple of four characters.
pub open spec fn pad_restore(s: Seq<char>) -> Seq<char> {
    s + Seq::new(pad_count(s.len()), |i: int| '=')
}

/// The three bytes encoded by the four digits `c0 c1 c2 c3`.
pub open spec fn decode3(c0: char, c1: char, c2: char, c3: char) -> Seq<u8> {
    seq![
        ((b64_val(c0) * 4 + b64_val(c1) / 16) as u8),
        (((b64_val(c1) % 16) * 16 + b64_val(c2) / 4) as u8),
        (((b64_val(c2) % 4) * 64 + b64_val(c3)) as u8),
    ]
}

/// Strict decoding of one final base64 group of four characters, full or
/// `=`-padded: `None` where the group is not something the encoder produces.
pub open spec fn b64_decode_group(g: Seq<char>) -> Option<Seq<u8>>
    recommends
        g.len() == 4,
{
    if !is_b64_digit(g[0]) || !is_b64_digit(g[1]) {
        None
    } else if g[2] == '=' && g[3] == '=' {
        if b64_val(g[1]) % 16 == 0 {
            Some(seq![((b64_val(g[0]) * 4 + b64_val(g[1]) / 16) as u8)])
        } else {
            None
        }
    } else if is_b64_digit(g[2]) && g[3] == '=' {
        if b64_val(g[2]) % 4 == 0 {
            Some(
                seq![
                    ((b64_val(g[0]) * 4 + b64_val(g[1]) / 16) as u8),
                    (((b64_val(g[1]) % 16) * 16 + b64_val(g[2]) / 4) as u8),
                ],
            )
        } else {
            None
        }
    } else if is_b64_digit(g[2]) && is_b64_digit(g[3]) {
        Some(decode3(g[0], g[1], g[2], g[3]))
    } else {
        None
    }
}

/// Strict decoding of padded standard base64: `None` on any string the
/// encoder cannot have produced.
pub open spec fn b64_decode(s: Seq<char>) -> Option<Seq<u8>>
    decreases s.len(),
{
    if s.len() == 0 {
        Some(Seq::empty())
    } else if s.len() < 4 {
        None
    } else if s.len() == 4 {
        b64_decode_group(s)
    } else if is_b64_digit(s[0]) && is_b64_digit(s[1]) && is_b64_digit(s[2]) && is_b64_digit(
        s[3],
    ) {
        match b64_decode(s.skip(4)) {
            Some(rest) => Some(decode3(s[0], s[1], s[2], s[3]) + rest),
            None => None,
        }
    } else {
        None
    }
}

/// Every six-bit value has a digit of its own, and that digit maps back to
/// the value; no digit is the padding sign.
pub proof fn lemma_char_val(v: int)
    requires
        0 <= v < 64,
    ensures
        b64_val(b64_char(v)) == v,
        is_b64_digit(b64_char(v)),
        b64_char(v) != '=',
{
    reveal_strlit("ABCDEFGHIJKLMNOPQRSTUVWXYZabcdefghijklmnopqrstuvwxyz0123456789+/");
}

/// Every character of `b64_digits(s)` is a base64 digit.
pub proof fn lemma_digits_all_digits(s: Seq<u8>)
    ensures
        forall|i: int| 0 <= i < b64_digits(s).len() ==> is_b64_digit(#[trigger] b64_digits(s)[i]),
    decreases s.len(),
{
    if s.len() == 0 {
    } else if s.len() == 1 {
        lemma_char_val(s[0] as int / 4);
        lemma_char_val((s[0] as int % 4) * 16);
    } else if s.len() == 2 {
        lemma_char_val(s[0] as int / 4);
        lemma_char_val((s[0] as int % 4) * 16 + s[1] as int / 16);
        lemma_char_val((s[1] as int % 16) * 4);
    } else {
        lemma_char_val(s[0] as int / 4);
        lemma_char_val((s[0] as int % 4) * 16 + s[1] as int / 16);
        lemma_char_val((s[1] as int % 16) * 4 + s[2] as int / 64);
        lemma_char_val(s[2] as int % 64);
        lemma_digits_all_digits(s.skip(3));
        let g = encode3(s[0], s[1], s[2]);
        let rest = b64_digits(s.skip(3));
        assert forall|i: int| 0 <= i < b64_digits(s).len() implies is_b64_digit(
            #[trigger] b64_digits(s)[i],
        ) by {
            if i < 4 {
                assert(b64_digits(s)[i] == g[i]);
            } else {
                assert(b64_digits(s)[i] == rest[i - 4]);
            }
        }
    }
}

/// The exact number of digits in the unpadded encoding of `s`.
pub proof fn lemma_digits_len(s: Seq<u8>)
    ensures
        b64_digits(s).len() == 4 * (s.len() / 3) + (
        if s.len() % 3 == 0 {
            0int
        } else {
            s.len() % 3 + 1int
        }),
    decreases s.len(),
{
    if s.len() >= 3 {
        lemma_digits_len(s.skip(3));
        lemma_fundamental_div_mod(s.len() as int, 3);
        lemma_fundamental_div_mod_converse(
            s.len() - 3,
            3,
            s.len() as int / 3 - 1,
            s.len() as int % 3,
        );
    }
}

/// Removing one trailing padding sign first does not change the strip.
proof fn lemma_strip_snoc(s: Seq<char>)
    ensures
        strip_pad(s + seq!['=']) == strip_pad(s),
{
    assert((s + seq!['=']).drop_last() =~= s);
}

/// Stripping the padding from a standard base64 encoding leaves exactly its
/// digits, and restoring the padding rebuilds the padded encoding.
pub proof fn lemma_padding_round_trip(s: Seq<u8>)
    ensures
        strip_pad(b64_encode(s)) == b64_digits(s),
        pad_restore(b64_digits(s)) == b64_encode(s),
        pad_restore(strip_pad(b64_encode(s))) == b64_encode(s),
{
    lemma_digits_all_digits(s);
    lemma_digits_len(s);
    let d = b64_digits(s);
    // Stripping: the digits end in a digit, never in '='.
    if d.len() > 0 {
        assert(is_b64_digit(d.last()));
    }
    if s.len() % 3 == 1 {
        assert(b64_encode(s) =~= d + seq!['='] + seq!['=']);
        lemma_strip_snoc(d + seq!['=']);
        lemma_strip_snoc(d);
    } else if s.len() % 3 == 2 {
        assert(b64_encode(s) =~= d + seq!['=']);
        lemma_strip_snoc(d);
    } else {
        assert(b64_encode(s) =~= d);
    }
    // Restoring: the digit count determines the padding that was removed.
    lemma_fundamental_div_mod(s.len() as int, 3);
    if s.len() % 3 == 0 {
        lemma_fundamental_div_mod_converse(d.len() as int, 4, s.len() as int / 3, 0);
    } else if s.len() % 3 == 1 {
        lemma_fundamental_div_mod_converse(d.len() as int, 4, s.len() as int / 3, 2);
    } else {
        lemma_fundamental_div_mod_converse(d.len() as int, 4, s.len() as int / 3, 3);
    }
    assert(pad_restore(d) =~= b64_encode(s));
}

/// The four digits of one three-byte group decode to those three bytes.
proof fn lemma_decode3(b0: u8, b1: u8, b2: u8)
    ensures
        decode3(
            b64_char(b0 as int / 4),
            b64_char((b0 as int % 4) * 16 + b1 as int / 16),
            b64_char((b1 as int % 16) * 4 + b2 as int / 64),
            b64_char(b2 as int % 64),
        ) =~= seq![b0, b1, b2],
{
    let v0 = b0 as int / 4;
    let v1 = (b0 as int % 4) * 16 + b1 as int / 16;
    let v2 = (b1 as int % 16) * 4 + b2 as int / 64;
    let v3 = b2 as int % 64;
    lemma_char_val(v0);
    lemma_char_val(v1);
    lemma_char_val(v2);
    lemma_char_val(v3);
    lemma_fundamental_div_mod_converse(v1, 16, b0 as int % 4, b1 as int / 16);
    lemma_fundamental_div_mod_converse(v2, 4, b1 as int % 16, b2 as int / 64);
    lemma_fundamental_div_mod(b0 as int, 4);
    lemma_fundamental_div_mod(b1 as int, 16);
    lemma_fundamental_div_mod(b2 as int, 64);
}

/// Decoding a standard base64 encoding gives back the encoded bytes.
pub proof fn lemma_decode_encode(s: Seq<u8>)
    ensures
        b64_decode(b64_encode(s)) == Some(s),
    decreases s.len(),
{
    lemma_digits_len(s);
    let e = b64_encode(s);
    if s.len() == 0 {
        assert(e =~= Seq::<char>::empty());
        assert(Seq::<u8>::empty() =~= s);
    } else if s.len() == 1 {
        let b0 = s[0];
        let c0 = b64_char(b0 as int / 4);
        let c1 = b64_char((b0 as int % 4) * 16);
        lemma_char_val(b0 as int / 4);
        lemma_char_val((b0 as int % 4) * 16);
        assert(e =~= seq![c0, c1, '=', '=']);
        lemma_fundamental_div_mod_converse((b0 as int % 4) * 16, 16, b0 as int % 4, 0);
        lemma_fundamental_div_mod(b0 as int, 4);
        assert(b64_decode_group(e) == Some(seq![b0]));
        assert(seq![b0] =~= s);
    } else if s.len() == 2 {
        let b0 = s[0];
        let b1 = s[1];
        let c0 = b64_char(b0 as int / 4);
        let c1 = b64_char((b0 as int % 4) * 16 + b1 as int / 16);
        let c2 = b64_char((b1 as int % 16) * 4);
        lemma_char_val(b0 as int / 4);
        lemma_char_val((b0 as int % 4) * 16 + b1 as int / 16);
        lemma_char_val((b1 as int % 16) * 4);
        assert(e =~= seq![c0, c1, c2, '=']);
        lemma_fundamental_div_mod_converse(
            (b0 as int % 4) * 16 + b1 as int / 16,
            16,
            b0 as int % 4,
            b1 as int / 16,
        );
        lemma_fundamental_div_mod_converse((b1 as int % 16) * 4, 4, b1 as int % 16, 0);
        lemma_fundamental_div_mod(b0 as int, 4);
        lemma_fundamental_div_mod(b1 as int, 16);
        assert(b64_decode_group(e) == Some(seq![b0, b1]));
        assert(seq![b0, b1] =~= s);
    } else {
        let b0 = s[0];
        let b1 = s[1];
        let b2 = s[2];
        let rest = s.skip(3);
        let g = encode3(b0, b1, b2);
        lemma_char_val(b0 as int / 4);
        lemma_char_val((b0 as int % 4) * 16 + b1 as int / 16);
        lemma_char_val((b1 as int % 16) * 4 + b2 as int / 64);
        lemma_char_val(b2 as int % 64);
        lemma_decode3(b0, b1, b2);
        lemma_fundamental_div_mod(s.len() as int, 3);
        lemma_fundamental_div_mod_converse(
            s.len() - 3,
            3,
            s.len() as int / 3 - 1,
            s.len() as int % 3,
        );
        assert(e =~= g + b64_encode(rest));
        lemma_decode_encode(rest);
        lemma_digits_len(rest);
        if rest.len() == 0 {
            assert(e =~= g);
            assert(b64_decode_group(g) == Some(decode3(g[0], g[1], g[2], g[3])));
            assert(decode3(g[0], g[1], g[2], g[3]) =~= s);
        } else {
            assert(e.len() > 4);
            assert(e.skip(4) =~= b64_encode(rest));
            assert(b64_decode(e) == Some(decode3(e[0], e[1], e[2], e[3]) + rest));
            assert(decode3(e[0], e[1], e[2], e[3]) + rest =~= s);
        }
    }
}

/// The round trip the service's consumers make: restore the padding of a
/// published (unpadded) encoding, decode it, and find the original bytes.
pub proof fn lemma_unpadded_round_trip(s: Seq<u8>)
    ensures
        b64_decode(pad_restore(strip_pad(b64_encode(s)))) == Some(s),
{
    lemma_padding_round_trip(s);
    lemma_decode_encode(s);
}

/// No character of a published (unpadded) encoding needs escaping inside a
/// JSON string literal, so framing one in a JSON object's field keeps the
/// body well formed.
pub proof fn lemma_encoding_json_safe(s: Seq<u8>)
    ensures
        forall|i: int| 0 <= i < strip_pad(b64_encode(s)).len() ==> #[trigger] strip_pad(
            b64_encode(s),
        )[i] != '"' && strip_pad(b64_encode(s))[i] != '\\',
{
    lemma_padding_round_trip(s);
    lemma_digits_all_digits(s);
}

/// Relies on the `base64` crate's `STANDARD` engine: RFC 4648 base64 over
/// the standard alphabet, with `=` padding. The engine panics where the
/// encoded size overflows `usize`; the bound on the input keeps that out.
#[verifier::external_body]
fn b64_encode_exec(bytes: &[u8]) -> (r: String)
    requires
        bytes@.len() <= usize::MAX as nat / 4,
    ensures
        r@ == b64_encode(bytes@),
{
    base64::engine::general_purpose::STANDARD.encode(bytes)
}

/// A copy of `s` with every trailing `=` removed.
pub fn strip_padding(s: &str) -> (r: String)
    ensures
        r@ == strip_pad(s@),
{
    let n = s.unicode_len();
    let mut keep = n;
    proof {
        assert(s@.take(n as int) =~= s@);
    }
    while keep > 0 && s.get_char(keep - 1) == '='
        invariant
            keep <= n,
            n == s@.len(),
            strip_pad(s@) == strip_pad(s@.take(keep as int)),
        decreases keep,
    {
        proof {
            assert(s@.take(keep as int).drop_last() =~= s@.take(keep as int - 1));
        }
        keep = keep - 1;
    }
    let r = s.substring_char(0, keep).to_owned();
    proof {
        assert(r@ =~= s@.take(keep as int));
    }
    r
}

/// A copy of `s` extended with `=` signs to the next multiple of four
/// characters.
pub fn restore_padding(s: &str) -> (r: String)
    ensures
        r@ == pad_restore(s@),
{
    let n = s.unicode_len();
    let mut r = s.to_owned();
    let m = n % 4;
    if m == 1 {
        r.append("===");
    } else if m == 2 {
        r.append("==");
    } else if m == 3 {
        r.append("=");
    }
    proof {
        reveal_strlit("===");
        reveal_strlit("==");
        reveal_strlit("=");
        assert(r@ =~= pad_restore(s@));
    }
    r
}

/// Base64 encoding of `bytes` with the trailing `=` padding removed, as the
/// service publishes it: exactly the digits of the encoding, nothing else.
pub fn encode_unpadded(bytes: &[u8]) -> (r: String)
    requires
        bytes@.len() <= usize::MAX as nat / 4,
    ensures
        r@ == strip_pad(b64_encode(bytes@)),
        r@ == b64_digits(bytes@),
        forall|i: int| 0 <= i < r@.len() ==> is_b64_digit(#[trigger] r@[i]),
{
    let padded = b64_encode_exec(bytes);
    proof {
        lemma_padding_round_trip(bytes@);
        lemma_digits_all_digits(bytes@);
    }
    strip_padding(padded.as_str())
}

} // verus!
