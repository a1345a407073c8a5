//! Host-key blobs: the fingerprint of a wire blob, and the check that a blob
//! can be a key at all.
use sha2::Digest;
use vstd::prelude::*;

verus! {

/// The SHA-256 digest of a byte string.
pub uninterp spec fn sha256(data: Seq<u8>) -> Seq<u8>;

/// `sha2::Sha256::digest`: the digest is a function of the bytes alone and is
/// 32 bytes long.
#[verifier::external_body]
fn sha256_digest(data: &[u8]) -> (digest: Vec<u8>)
    ensures
        digest@ == sha256(data@),
        digest@.len() == 32,
{
    sha2::Sha256::digest(data).to_vec()
}

/// The base64 symbol for a value below 64: `A`-`Z`, `a`-`z`, `0`-`9`, `+`, `/`.
pub open spec fn symbol(v: int) -> char {
    if v < 26 {
        ('A' as int + v) as char
    } else if v < 52 {
        ('a' as int + (v - 26)) as char
    } else if v < 62 {
        ('0' as int + (v - 52)) as char
    } else if v == 62 {
        '+'
    } else {
        '/'
    }
}

/// Byte `i` of the data, and zero past its end.
pub open spec fn byte_or_zero(data: Seq<u8>, i: int) -> int {
    if 0 <= i < data.len() {
        data[i] as int
    } else {
        0
    }
}

/// The 24-bit number that the three bytes of group `g` make up.
pub open spec fn group_bits(data: Seq<u8>, g: int) -> int {
    byte_or_zero(data, 3 * g) * 65536 + byte_or_zero(data, 3 * g + 1) * 256 + byte_or_zero(
        data,
        3 * g + 2,
    )
}

/// The `k`-th of the four 6-bit digits of a 24-bit number, highest first.
pub open spec fn sextet(n: int, k: int) -> int {
    if k == 0 {
        n / 262144
    } else if k == 1 {
        n / 4096 % 64
    } else if k == 2 {
        n / 64 % 64
    } else {
        n % 64
    }
}

/// Character `i` of the base64 text: a digit of the group it belongs to, or
/// `=` where the group has no byte for it.
pub open spec fn encoded_char(data: Seq<u8>, i: int) -> char {
    let g = i / 4;
    let k = i % 4;
    if k >= 2 && 3 * g + k - 1 >= data.len() {
        '='
    } else {
        symbol(sextet(group_bits(data, g), k))
    }
}

/// The number of characters of the base64 text of `n` bytes.
pub open spec fn encoded_len(n: nat) -> nat {
    (n + 2) / 3 * 4
}

/// Standard base64 with padding.
pub open spec fn encoded(data: Seq<u8>) -> Seq<char> {
    Seq::new(encoded_len(data.len()), |i: int| encoded_char(data, i))
}

/// `text` without the `=` characters at its end.
pub open spec fn unpadded(text: Seq<char>) -> Seq<char>
    decreases text.len(),
{
    if text.len() > 0 && text.last() == '=' {
        unpadded(text.drop_last())
    } else {
        text
    }
}

fn symbol_char(v: u32) -> (c: char)
    requires
        v < 64,
    ensures
        c == symbol(v as int),
{
    if v < 26 {
        ('A' as u8 + v as u8) as char
    } else if v < 52 {
        ('a' as u8 + (v as u8 - 26)) as char
    } else if v < 62 {
        ('0' as u8 + (v as u8 - 52)) as char
    } else if v == 62 {
        '+'
    } else {
        '/'
    }
}

#[verifier::spinoff_prover]
#[verifier::rlimit(40)]
fn base64_chars(data: &[u8]) -> (out: Vec<char>)
    ensures
        out@ == encoded(data@),
{
    let mut out: Vec<char> = Vec::new();
    let len: usize = data.len();
    let mut at: usize = 0;
    while at < len
        invariant
            len == data@.len(),
            at <= len,
            at % 3 == 0 || at == len,
            out@.len() == encoded_len(at as nat),
            forall|i: int| 0 <= i < out@.len() ==> out@[i] == encoded_char(data@, i),
        decreases len - at,
    {
        let left: usize = len - at;
        let b0: u32 = data[at] as u32;
        let b1: u32 = if left > 1 { data[at + 1] as u32 } else { 0 };
        let b2: u32 = if left > 2 { data[at + 2] as u32 } else { 0 };
        let n: u32 = b0 * 65536 + b1 * 256 + b2;
        let ghost g = at as int / 3;
        assert(n == group_bits(data@, g));
        let ghost before = out@;
        out.push(symbol_char(n / 262144));
        out.push(symbol_char(n / 4096 % 64));
        out.push(if left > 1 { symbol_char(n / 64 % 64) } else { '=' });
        out.push(if left > 2 { symbol_char(n % 64) } else { '=' });
        assert(before.len() == 4 * g);
        assert(forall|i: int| 0 <= i < before.len() ==> out@[i] == before[i]);
        assert(out@[4 * g] == encoded_char(data@, 4 * g));
        assert(out@[4 * g + 1] == encoded_char(data@, 4 * g + 1));
        assert(out@[4 * g + 2] == encoded_char(data@, 4 * g + 2));
        assert(out@[4 * g + 3] == encoded_char(data@, 4 * g + 3));
        at = if left > 3 { at + 3 } else { len };
    }
    assert(out@ =~= encoded(data@));
    out
}

fn append_chars(out: &mut String, chars: &Vec<char>)
    ensures
        final(out)@ == old(out)@ + chars@,
{
    let mut i: usize = 0;
    while i < chars.len()
        invariant
            i <= chars@.len(),
            out@ == old(out)@ + chars@.take(i as int),
        decreases chars@.len() - i,
    {
        out.push(chars[i]);
        i = i + 1;
        assert(out@ =~= old(out)@ + chars@.take(i as int));
    }
    assert(chars@.take(i as int) =~= chars@);
}

/// Standard base64 with padding.
pub fn base64_encode(data: &[u8]) -> (text: String)
    ensures
        text@ == encoded(data@),
{
    let chars = base64_chars(data);
    let mut text = String::new();
    append_chars(&mut text, &chars);
    assert(text@ =~= chars@);
    text
}

/// The fingerprint text of a digest: `SHA256:` and unpadded base64.
pub open spec fn fingerprint(digest: Seq<u8>) -> Seq<char> {
    "SHA256:"@ + unpadded(encoded(digest))
}

/// `SHA256:` and the unpadded standard base64 of a digest.
pub fn digest_fingerprint(digest: &[u8]) -> (text: String)
    ensures
        text@ == fingerprint(digest@),
{
    let mut chars = base64_chars(digest);
    while chars.len() > 0 && chars[chars.len() - 1] == '='
        invariant
            unpadded(chars@) == unpadded(encoded(digest@)),
        ensures
            unpadded(chars@) == unpadded(encoded(digest@)),
            chars@.len() == 0 || chars@.last() != '=',
        decreases chars@.len(),
    {
        let ghost before = chars@;
        chars.pop();
        assert(chars@ =~= before.drop_last());
    }
    let mut text = String::from_str("SHA256:");
    append_chars(&mut text, &chars);
    text
}

/// The value of a base64 symbol, and zero for anything else.
pub open spec fn symbol_value(c: char) -> int {
    if 'A' <= c <= 'Z' {
        c as int - 'A' as int
    } else if 'a' <= c <= 'z' {
        c as int - 'a' as int + 26
    } else if '0' <= c <= '9' {
        c as int - '0' as int + 52
    } else if c == '+' {
        62
    } else if c == '/' {
        63
    } else {
        0
    }
}

/// The 24-bit number that the four characters of group `g` make up.
pub open spec fn text_bits(text: Seq<char>, g: int) -> int {
    symbol_value(text[4 * g]) * 262144 + symbol_value(text[4 * g + 1]) * 4096 + symbol_value(
        text[4 * g + 2],
    ) * 64 + symbol_value(text[4 * g + 3])
}

/// The `k`-th of the three bytes of a 24-bit number, highest first.
pub open spec fn octet(n: int, k: int) -> u8 {
    if k == 0 {
        (n / 65536) as u8
    } else if k == 1 {
        (n / 256 % 256) as u8
    } else {
        (n % 256) as u8
    }
}

/// The bytes that a padded base64 text stands for.
pub open spec fn decoded(text: Seq<char>) -> Seq<u8> {
    let padding = text.len() - unpadded(text).len();
    Seq::new(
        (text.len() / 4 * 3 - padding) as nat,
        |j: int| octet(text_bits(text, j / 3), j % 3),
    )
}

proof fn lemma_symbol(v: int)
    requires
        0 <= v < 64,
    ensures
        symbol(v) != '=',
        symbol_value(symbol(v)) == v,
{
}

proof fn lemma_group_bits(data: Seq<u8>, g: int)
    ensures
        0 <= group_bits(data, g) < 16777216,
        forall|k: int| 0 <= #[trigger] sextet(group_bits(data, g), k) < 64,
{
}

/// The text of `n` bytes has `(4n + 2) / 3` symbols, and then only padding.
proof fn lemma_unpadded(data: Seq<u8>)
    ensures
        unpadded(encoded(data)) == encoded(data).take(((4 * data.len() + 2) / 3) as int),
        forall|i: int|
            0 <= i < (4 * data.len() + 2) / 3 ==> #[trigger] encoded(data)[i] != '=',
{
    let text = encoded(data);
    let n = data.len() as int;
    let m = (4 * n + 2) / 3;
    assert forall|i: int| 0 <= i < m implies #[trigger] text[i] != '=' by {
        lemma_group_bits(data, i / 4);
        lemma_symbol(sextet(group_bits(data, i / 4), i % 4));
    }
    reveal_with_fuel(unpadded, 4);
    if n % 3 == 0 {
        assert(text.take(m) =~= text);
    } else if n % 3 == 2 {
        assert(text.drop_last() =~= text.take(m));
    } else {
        assert(text.drop_last().drop_last() =~= text.take(m));
        assert(text.drop_last().last() == '=');
    }
}

proof fn lemma_octets(b0: int, b1: int, b2: int)
    requires
        0 <= b0 < 256,
        0 <= b1 < 256,
        0 <= b2 < 256,
    ensures
        octet(b0 * 65536 + b1 * 256 + b2, 0) == b0,
        octet(b0 * 65536 + b1 * 256 + b2, 1) == b1,
        octet(b0 * 65536 + b1 * 256 + b2, 2) == b2,
{
    let n = b0 * 65536 + b1 * 256 + b2;
    assert(n / 65536 == b0);
    assert(n / 256 == b0 * 256 + b1);
    assert(n / 256 % 256 == b1);
    assert(n % 256 == b2);
}

proof fn lemma_sextets(n: int)
    requires
        0 <= n < 16777216,
    ensures
        sextet(n, 0) * 262144 + sextet(n, 1) * 4096 + sextet(n, 2) * 64 + sextet(n, 3) == n,
{
    assert(n == 64 * (n / 64) + n % 64);
    assert(n / 64 == 64 * (n / 4096) + n / 64 % 64);
    assert(n / 4096 == 64 * (n / 262144) + n / 4096 % 64);
}

proof fn lemma_last_sextets(b0: int, b1: int, b2: int)
    requires
        0 <= b0 < 256,
        0 <= b1 < 256,
        0 <= b2 < 256,
    ensures
        b2 == 0 ==> sextet(b0 * 65536 + b1 * 256 + b2, 3) == 0,
        b1 == 0 && b2 == 0 ==> sextet(b0 * 65536 + b1 * 256 + b2, 2) == 0,
{
    let n = b0 * 65536 + b1 * 256 + b2;
    if b2 == 0 {
        assert(n == 64 * (b0 * 1024 + b1 * 4));
        if b1 == 0 {
            assert(n / 64 == 64 * (b0 * 16));
        }
    }
}

proof fn lemma_text_bits(data: Seq<u8>, g: int)
    requires
        0 <= g,
        3 * g < data.len(),
    ensures
        text_bits(encoded(data), g) == group_bits(data, g),
{
    let text = encoded(data);
    let bits = group_bits(data, g);
    lemma_group_bits(data, g);
    lemma_sextets(bits);
    lemma_last_sextets(
        byte_or_zero(data, 3 * g),
        byte_or_zero(data, 3 * g + 1),
        byte_or_zero(data, 3 * g + 2),
    );
    lemma_symbol(sextet(bits, 0));
    lemma_symbol(sextet(bits, 1));
    lemma_symbol(sextet(bits, 2));
    lemma_symbol(sextet(bits, 3));
    assert(text[4 * g] == encoded_char(data, 4 * g));
    assert(text[4 * g + 1] == encoded_char(data, 4 * g + 1));
    assert(text[4 * g + 2] == encoded_char(data, 4 * g + 2));
    assert(text[4 * g + 3] == encoded_char(data, 4 * g + 3));
    assert(symbol_value(text[4 * g]) == sextet(bits, 0));
    assert(symbol_value(text[4 * g + 1]) == sextet(bits, 1));
    assert(symbol_value(text[4 * g + 2]) == sextet(bits, 2));
    assert(symbol_value(text[4 * g + 3]) == sextet(bits, 3));
}

/// Decoding gives back what was encoded.
pub proof fn decoding_inverts_encoding(data: Seq<u8>)
    ensures
        decoded(encoded(data)) == data,
{
    let text = encoded(data);
    let n = data.len() as int;
    lemma_unpadded(data);
    assert(text.len() / 4 * 3 - (text.len() - unpadded(text).len()) == n);
    assert forall|j: int| 0 <= j < n implies #[trigger] octet(text_bits(text, j / 3), j % 3)
        == data[j] by {
        let g = j / 3;
        lemma_text_bits(data, g);
        lemma_octets(
            byte_or_zero(data, 3 * g),
            byte_or_zero(data, 3 * g + 1),
            byte_or_zero(data, 3 * g + 2),
        );
        assert(j == 3 * g + j % 3);
    }
    assert(decoded(text) =~= data);
}

/// Different bytes have different base64 texts.
pub proof fn encoding_is_injective(a: Seq<u8>, b: Seq<u8>)
    requires
        encoded(a) == encoded(b),
    ensures
        a == b,
{
    decoding_inverts_encoding(a);
    decoding_inverts_encoding(b);
}

/// A fingerprint holds no padding, and `(4n + 2) / 3` characters after its
/// prefix for a digest of `n` bytes.
pub proof fn fingerprint_has_no_padding(digest: Seq<u8>)
    ensures
        !fingerprint(digest).contains('='),
        fingerprint(digest).len() == 7 + (4 * digest.len() + 2) / 3,
        "SHA256:"@.is_prefix_of(fingerprint(digest)),
{
    reveal_strlit("SHA256:");
    lemma_unpadded(digest);
    let m = ((4 * digest.len() + 2) / 3) as int;
    assert forall|i: int| 0 <= i < fingerprint(digest).len() implies #[trigger] fingerprint(
        digest,
    )[i] != '=' by {
        if i >= 7 {
            assert(fingerprint(digest)[i] == encoded(digest).take(m)[i - 7]);
            assert(encoded(digest).take(m)[i - 7] == encoded(digest)[i - 7]);
        }
    }
}

/// A fingerprint is `SHA256:` and then the base64 text of the digest, character
/// for character, up to its padding.
pub proof fn a_fingerprint_spells_out_the_digest(digest: Seq<u8>)
    ensures
        fingerprint(digest).len() == 7 + (4 * digest.len() + 2) / 3,
        fingerprint(digest).take(7) == "SHA256:"@,
        forall|i: int|
            0 <= i < (4 * digest.len() + 2) / 3 ==> #[trigger] fingerprint(digest)[7 + i]
                == encoded(digest)[i],
{
    reveal_strlit("SHA256:");
    lemma_unpadded(digest);
    let m = ((4 * digest.len() + 2) / 3) as int;
    assert(fingerprint(digest).take(7) =~= "SHA256:"@);
    assert forall|i: int| 0 <= i < m implies #[trigger] fingerprint(digest)[7 + i]
        == encoded(digest)[i] by {
        assert(fingerprint(digest)[7 + i] == encoded(digest).take(m)[i]);
    }
}

/// The symbols of base64: the capital letters, the small letters, the digits,
/// and then `+` and `/`, each in order.
pub proof fn the_base64_alphabet(v: int)
    requires
        0 <= v < 64,
    ensures
        v < 26 ==> symbol(v) as int == 65 + v,
        26 <= v < 52 ==> symbol(v) as int == 97 + (v - 26),
        52 <= v < 62 ==> symbol(v) as int == 48 + (v - 52),
        v == 62 ==> symbol(v) as int == 43,
        v == 63 ==> symbol(v) as int == 47,
{
}

/// The value of a symbol is its place in the alphabet, and different values have
/// different symbols.
pub proof fn symbols_tell_values_apart(v: int, w: int)
    requires
        0 <= v < 64,
        0 <= w < 64,
    ensures
        symbol_value(symbol(v)) == v,
        symbol(v) == symbol(w) <==> v == w,
        symbol(v) != '=',
{
    lemma_symbol(v);
    lemma_symbol(w);
}

proof fn lemma_sextets_of_bytes(b0: int, b1: int, b2: int)
    requires
        0 <= b0 < 256,
        0 <= b1 < 256,
        0 <= b2 < 256,
    ensures
        sextet(b0 * 65536 + b1 * 256 + b2, 0) == b0 / 4,
        sextet(b0 * 65536 + b1 * 256 + b2, 1) == b0 % 4 * 16 + b1 / 16,
        sextet(b0 * 65536 + b1 * 256 + b2, 2) == b1 % 16 * 4 + b2 / 64,
        sextet(b0 * 65536 + b1 * 256 + b2, 3) == b2 % 64,
{
    let n = b0 * 65536 + b1 * 256 + b2;
    assert(n / 64 == b0 * 1024 + b1 * 4 + b2 / 64);
    assert(n / 4096 == b0 * 16 + b1 / 16);
    assert(n / 262144 == b0 / 4);
    assert(n / 4096 % 64 == b0 % 4 * 16 + b1 / 16);
    assert(n / 64 % 64 == b1 % 16 * 4 + b2 / 64);
}

/// Three bytes are written as four symbols: the first six bits, the next six, and
/// so on.
pub proof fn three_bytes_are_four_symbols(data: Seq<u8>, g: int)
    requires
        0 <= g,
        3 * g + 2 < data.len(),
    ensures
        4 * g + 3 < encoded(data).len(),
        encoded(data)[4 * g] == symbol(data[3 * g] as int / 4),
        encoded(data)[4 * g + 1] == symbol(
            data[3 * g] as int % 4 * 16 + data[3 * g + 1] as int / 16,
        ),
        encoded(data)[4 * g + 2] == symbol(
            data[3 * g + 1] as int % 16 * 4 + data[3 * g + 2] as int / 64,
        ),
        encoded(data)[4 * g + 3] == symbol(data[3 * g + 2] as int % 64),
{
    lemma_sextets_of_bytes(data[3 * g] as int, data[3 * g + 1] as int, data[3 * g + 2] as int);
    assert(encoded(data)[4 * g] == encoded_char(data, 4 * g));
    assert(encoded(data)[4 * g + 1] == encoded_char(data, 4 * g + 1));
    assert(encoded(data)[4 * g + 2] == encoded_char(data, 4 * g + 2));
    assert(encoded(data)[4 * g + 3] == encoded_char(data, 4 * g + 3));
}

/// One byte that is left over at the end is written as two symbols and two signs
/// of padding.
pub proof fn one_byte_left_is_two_symbols(data: Seq<u8>, g: int)
    requires
        0 <= g,
        data.len() == 3 * g + 1,
    ensures
        encoded(data).len() == 4 * g + 4,
        encoded(data)[4 * g] == symbol(data[3 * g] as int / 4),
        encoded(data)[4 * g + 1] == symbol(data[3 * g] as int % 4 * 16),
        encoded(data)[4 * g + 2] == '=',
        encoded(data)[4 * g + 3] == '=',
{
    lemma_sextets_of_bytes(data[3 * g] as int, 0, 0);
    assert(encoded(data)[4 * g] == encoded_char(data, 4 * g));
    assert(encoded(data)[4 * g + 1] == encoded_char(data, 4 * g + 1));
    assert(encoded(data)[4 * g + 2] == encoded_char(data, 4 * g + 2));
    assert(encoded(data)[4 * g + 3] == encoded_char(data, 4 * g + 3));
}

/// Two bytes that are left over at the end are written as three symbols and one
/// sign of padding.
pub proof fn two_bytes_left_are_three_symbols(data: Seq<u8>, g: int)
    requires
        0 <= g,
        data.len() == 3 * g + 2,
    ensures
        encoded(data).len() == 4 * g + 4,
        encoded(data)[4 * g] == symbol(data[3 * g] as int / 4),
        encoded(data)[4 * g + 1] == symbol(
            data[3 * g] as int % 4 * 16 + data[3 * g + 1] as int / 16,
        ),
        encoded(data)[4 * g + 2] == symbol(data[3 * g + 1] as int % 16 * 4),
        encoded(data)[4 * g + 3] == '=',
{
    lemma_sextets_of_bytes(data[3 * g] as int, data[3 * g + 1] as int, 0);
    assert(encoded(data)[4 * g] == encoded_char(data, 4 * g));
    assert(encoded(data)[4 * g + 1] == encoded_char(data, 4 * g + 1));
    assert(encoded(data)[4 * g + 2] == encoded_char(data, 4 * g + 2));
    assert(encoded(data)[4 * g + 3] == encoded_char(data, 4 * g + 3));
}

/// A base64 text has four characters for every three bytes begun, and no more.
pub proof fn encoding_takes_four_for_three(data: Seq<u8>)
    ensures
        encoded(data).len() % 4 == 0,
        3 * encoded(data).len() >= 4 * data.len(),
        data.len() > 0 ==> 3 * (encoded(data).len() - 4) < 4 * data.len(),
        data.len() == 0 ==> encoded(data).len() == 0,
{
}

/// A text without padding is the same text up to the first of the `=` signs at
/// its end: what is taken off is padding alone, and all of it.
pub proof fn only_padding_is_taken_off(text: Seq<char>)
    ensures
        unpadded(text).is_prefix_of(text),
        unpadded(text).len() > 0 ==> unpadded(text).last() != '=',
        forall|i: int| unpadded(text).len() <= i < text.len() ==> #[trigger] text[i] == '=',
    decreases text.len(),
{
    if text.len() > 0 && text.last() == '=' {
        let shorter = text.drop_last();
        only_padding_is_taken_off(shorter);
        assert forall|i: int| unpadded(text).len() <= i < text.len() implies #[trigger] text[i]
            == '=' by {
            if i < shorter.len() {
                assert(shorter[i] == '=');
            }
        }
        assert(unpadded(text) =~= text.subrange(0, unpadded(text).len() as int));
    } else {
        assert(text =~= text.subrange(0, text.len() as int));
    }
}

/// Different digests have different fingerprints.
pub proof fn fingerprint_is_injective(a: Seq<u8>, b: Seq<u8>)
    requires
        fingerprint(a) == fingerprint(b),
    ensures
        a == b,
{
    lemma_unpadded(a);
    lemma_unpadded(b);
    assert(unpadded(encoded(a)) =~= fingerprint(a).skip("SHA256:"@.len() as int));
    assert(unpadded(encoded(b)) =~= fingerprint(b).skip("SHA256:"@.len() as int));
    assert(a.len() == b.len());
    assert forall|i: int| 0 <= i < encoded(a).len() implies encoded(a)[i] == encoded(b)[i] by {
        let m = ((4 * a.len() + 2) / 3) as int;
        if i < m {
            assert(encoded(a).take(m)[i] == encoded(b).take(m)[i]);
        } else {
            assert(encoded_char(a, i) == '=');
        }
    }
    assert(encoded(a) =~= encoded(b));
    encoding_is_injective(a, b);
}

/// `SHA256:` and the unpadded standard base64 of the SHA-256 digest of a wire
/// blob.
pub fn blob_fingerprint(blob: &[u8]) -> (text: String)
    ensures
        text@ == fingerprint(sha256(blob@)),
        text@.len() == 50,
        !text@.contains('='),
        text@.take(7) == "SHA256:"@,
        forall|i: int| 0 <= i < 43 ==> #[trigger] text@[7 + i] == encoded(sha256(blob@))[i],
{
    let digest = sha256_digest(blob);
    let text = digest_fingerprint(digest.as_slice());
    proof {
        a_fingerprint_spells_out_the_digest(digest@);
        fingerprint_has_no_padding(digest@);
    }
    text
}

/// The big-endian number in the first four bytes.
pub open spec fn leading_u32(blob: Seq<u8>) -> nat {
    (blob[0] * 16777216 + blob[1] * 65536 + blob[2] * 256 + blob[3]) as nat
}

/// The algorithm name that a blob opens with: an SSH string, that is a
/// four-byte length and that many bytes.
pub open spec fn algorithm_field(blob: Seq<u8>) -> Seq<u8> {
    blob.subrange(4, 4 + leading_u32(blob) as int)
}

/// Whether the bytes begin with the given ASCII text.
pub open spec fn begins_with(bytes: Seq<u8>, prefix: Seq<char>) -> bool {
    &&& prefix.len() <= bytes.len()
    &&& forall|i: int| 0 <= i < prefix.len() ==> #[trigger] bytes[i] as nat == prefix[i] as nat
}

/// Whether an algorithm name belongs to one of the known key families.
pub open spec fn known_family(algorithm: Seq<u8>) -> bool {
    ||| begins_with(algorithm, "ssh-"@)
    ||| begins_with(algorithm, "ecdsa-"@)
    ||| begins_with(algorithm, "sk-ssh-"@)
    ||| begins_with(algorithm, "x509v3-"@)
}

/// Whether every byte is a printable ASCII character.
pub open spec fn printable(bytes: Seq<u8>) -> bool {
    forall|i: int| 0 <= i < bytes.len() ==> 32 <= #[trigger] bytes[i] <= 126
}

/// Whether a blob opens with a complete algorithm name, of at least four
/// bytes, that is printable and of a known family.
pub open spec fn plausible(blob: Seq<u8>) -> bool {
    &&& blob.len() >= 4
    &&& 4 <= leading_u32(blob) <= blob.len() - 4
    &&& known_family(algorithm_field(blob))
    &&& printable(algorithm_field(blob))
}

pub(crate) fn slice_begins_with(bytes: &[u8], prefix: &str) -> (r: bool)
    requires
        prefix.is_ascii(),
    ensures
        r == begins_with(bytes@, prefix@),
{
    broadcast use vstd::string::is_ascii_spec_bytes;

    let wanted = prefix.as_bytes();
    if wanted.len() > bytes.len() {
        return false;
    }
    let mut i: usize = 0;
    while i < wanted.len()
        invariant
            wanted@.len() == prefix@.len(),
            forall|j: int|
                0 <= j < wanted@.len() ==> #[trigger] wanted@[j] as nat == prefix@[j] as nat,
            wanted@.len() <= bytes@.len(),
            i <= wanted@.len(),
            forall|j: int| 0 <= j < i ==> #[trigger] bytes@[j] as nat == prefix@[j] as nat,
        decreases wanted@.len() - i,
    {
        if bytes[i] != wanted[i] {
            assert(bytes@[i as int] as nat != prefix@[i as int] as nat);
            return false;
        }
        i = i + 1;
    }
    true
}

/// Whether a wire blob can be a host key: it must open with an SSH string
/// that names a known key-algorithm family. Only that name is looked at; what
/// follows it, and the algorithm a caller expected, are not.
pub fn is_plausible_blob(blob: &[u8]) -> (r: bool)
    ensures
        r == plausible(blob@),
{
    if blob.len() < 4 {
        return false;
    }
    let field: u32 = blob[0] as u32 * 16777216 + blob[1] as u32 * 65536 + blob[2] as u32 * 256
        + blob[3] as u32;
    let len: usize = field as usize;
    if len < 4 || len > blob.len() - 4 {
        return false;
    }
    let alg = vstd::slice::slice_subrange(blob, 4, 4 + len);
    assert(alg@ == algorithm_field(blob@));
    proof {
        reveal_strlit("ssh-");
        reveal_strlit("ecdsa-");
        reveal_strlit("sk-ssh-");
        reveal_strlit("x509v3-");
    }
    if !(slice_begins_with(alg, "ssh-") || slice_begins_with(alg, "ecdsa-") || slice_begins_with(
        alg,
        "sk-ssh-",
    ) || slice_begins_with(alg, "x509v3-")) {
        return false;
    }
    let mut i: usize = 0;
    while i < alg.len()
        invariant
            i <= alg@.len(),
            alg@ == algorithm_field(blob@),
            forall|j: int| 0 <= j < i ==> 32 <= #[trigger] alg@[j] <= 126,
        decreases alg@.len() - i,
    {
        if alg[i] < 32 || alg[i] > 126 {
            assert(!printable(alg@));
            return false;
        }
        i = i + 1;
    }
    true
}

/// Bytes begin with a text where as many of them as it has characters are those
/// characters.
pub proof fn beginning_with_a_text(bytes: Seq<u8>, prefix: Seq<char>)
    ensures
        begins_with(bytes, prefix) <==> prefix.len() <= bytes.len() && bytes.take(
            prefix.len() as int,
        ).map_values(|b: u8| b as nat) == prefix.map_values(|c: char| c as nat),
{
    if prefix.len() <= bytes.len() {
        let head = bytes.take(prefix.len() as int).map_values(|b: u8| b as nat);
        let wanted = prefix.map_values(|c: char| c as nat);
        if begins_with(bytes, prefix) {
            assert forall|i: int| 0 <= i < prefix.len() implies head[i] == wanted[i] by {
                assert(bytes[i] as nat == prefix[i] as nat);
            }
            assert(head =~= wanted);
        }
        if head == wanted {
            assert forall|i: int| 0 <= i < prefix.len() implies #[trigger] bytes[i] as nat
                == prefix[i] as nat by {
                assert(head[i] == bytes[i] as nat);
                assert(wanted[i] == prefix[i] as nat);
            }
        }
    }
}

/// A blob is a four-byte length, highest byte first, and a name of that length,
/// whatever follows. It is plausible exactly if the name has four bytes or more,
/// is printable ASCII, and begins with `ssh-`, `ecdsa-`, `sk-ssh-` or `x509v3-`.
pub proof fn a_blob_is_plausible_by_its_name(
    length: (u8, u8, u8, u8),
    name: Seq<u8>,
    rest: Seq<u8>,
)
    requires
        name.len() == length.0 * 16777216 + length.1 * 65536 + length.2 * 256 + length.3,
    ensures
        plausible(seq![length.0, length.1, length.2, length.3] + name + rest) <==> {
            &&& name.len() >= 4
            &&& forall|i: int| 0 <= i < name.len() ==> 0x20 <= #[trigger] name[i] <= 0x7e
            &&& {
                ||| seq![115u8, 115, 104, 45].is_prefix_of(name)
                ||| seq![101u8, 99, 100, 115, 97, 45].is_prefix_of(name)
                ||| seq![115u8, 107, 45, 115, 115, 104, 45].is_prefix_of(name)
                ||| seq![120u8, 53, 48, 57, 118, 51, 45].is_prefix_of(name)
            }
        },
{
    reveal_strlit("ssh-");
    reveal_strlit("ecdsa-");
    reveal_strlit("sk-ssh-");
    reveal_strlit("x509v3-");
    let blob = seq![length.0, length.1, length.2, length.3] + name + rest;
    assert(blob[0] == length.0 && blob[1] == length.1 && blob[2] == length.2 && blob[3]
        == length.3);
    assert(algorithm_field(blob) =~= name);
    lemma_begins(name, seq![115u8, 115, 104, 45], "ssh-"@);
    lemma_begins(name, seq![101u8, 99, 100, 115, 97, 45], "ecdsa-"@);
    lemma_begins(name, seq![115u8, 107, 45, 115, 115, 104, 45], "sk-ssh-"@);
    lemma_begins(name, seq![120u8, 53, 48, 57, 118, 51, 45], "x509v3-"@);
}

proof fn lemma_begins(bytes: Seq<u8>, prefix: Seq<u8>, text: Seq<char>)
    requires
        prefix.len() == text.len(),
        forall|i: int| 0 <= i < prefix.len() ==> #[trigger] prefix[i] as nat == text[i] as nat,
    ensures
        begins_with(bytes, text) <==> prefix.is_prefix_of(bytes),
{
    if prefix.len() <= bytes.len() {
        let head = bytes.subrange(0, prefix.len() as int);
        if begins_with(bytes, text) {
            assert forall|i: int| 0 <= i < prefix.len() implies prefix[i] == head[i] by {
                assert(bytes[i] as nat == text[i] as nat);
            }
            assert(prefix =~= head);
        }
        if prefix == head {
            assert forall|i: int| 0 <= i < text.len() implies #[trigger] bytes[i] as nat
                == text[i] as nat by {
                assert(head[i] == bytes[i]);
            }
        }
    }
}

/// A blob that is shorter than its length field, or than the name that this
/// announces, is not plausible.
pub proof fn a_short_blob_is_implausible(blob: Seq<u8>)
    requires
        blob.len() < 4 || blob.len() - 4 < blob[0] * 16777216 + blob[1] * 65536 + blob[2] * 256
            + blob[3],
    ensures
        !plausible(blob),
{
}

/// Whatever follows the algorithm name plays no part in the verdict.
pub proof fn plausibility_looks_at_the_algorithm_only(blob: Seq<u8>, rest: Seq<u8>)
    requires
        blob.len() >= 4,
        4 + leading_u32(blob) <= blob.len(),
    ensures
        plausible(blob + rest) == plausible(blob),
{
    assert(leading_u32(blob + rest) == leading_u32(blob));
    assert(algorithm_field(blob + rest) =~= algorithm_field(blob));
}

/// A plausible blob that is cut off inside its algorithm name is not
/// plausible any more.
pub proof fn truncated_blobs_are_implausible(blob: Seq<u8>, n: int)
    requires
        plausible(blob),
        0 <= n < 4 + leading_u32(blob),
    ensures
        !plausible(blob.take(n)),
{
    if n >= 4 {
        assert(leading_u32(blob.take(n)) == leading_u32(blob));
    }
}

} // verus!
