//! Strings: the standard library operations the crate builds text with, and
//! decimal numbers.
use vstd::prelude::*;

verus! {

/// The type of the error of `String::from_utf8`.
#[verifier::external_type_specification]
#[verifier::external_body]
pub struct ExFromUtf8Error(std::string::FromUtf8Error);

/// `String::push` appends the given character to the end of the string.
pub assume_specification[ String::push ](s: &mut String, ch: char)
    ensures
        final(s)@ == old(s)@.push(ch),
;

/// The error of reading bytes that are not valid UTF-8.
pub uninterp spec fn utf8_error(bytes: Seq<u8>) -> std::string::FromUtf8Error;

/// `String::from_utf8` succeeds exactly on valid UTF-8, and then gives the
/// string whose UTF-8 encoding the bytes are. The error is a function of the
/// bytes.
pub assume_specification[ String::from_utf8 ](vec: Vec<u8>) -> (r: Result<
    String,
    std::string::FromUtf8Error,
>)
    ensures
        r is Ok <==> vstd::utf8::valid_utf8(vec@),
        r matches Ok(s) ==> s@ == vstd::utf8::decode_utf8(vec@),
        r matches Err(e) ==> e == utf8_error(vec@),
;

/// The decimal digit `d`.
pub open spec fn digit(d: nat) -> char {
    ('0' as nat + d) as char
}

/// `n` in decimal, without leading zeros.
pub open spec fn decimal(n: nat) -> Seq<char>
    decreases n,
{
    if n < 10 {
        seq![digit(n)]
    } else {
        decimal(n / 10).push(digit(n % 10))
    }
}

/// Appends `n` in decimal.
pub fn push_decimal(out: &mut String, n: u64)
    ensures
        final(out)@ == old(out)@ + decimal(n as nat),
    decreases n,
{
    if n >= 10 {
        push_decimal(out, n / 10);
    }
    let d: u8 = (n % 10) as u8;
    out.push(('0' as u8 + d) as char);
    assert(out@ =~= old(out)@ + decimal(n as nat));
}

/// The number that decimal digits stand for.
pub open spec fn digits_value(text: Seq<char>) -> int
    decreases text.len(),
{
    if text.len() == 0 {
        0
    } else {
        digits_value(text.drop_last()) * 10 + (text.last() as int - '0' as int)
    }
}

/// A number in decimal is read back as itself, and is made of digits alone,
/// the first of which is zero only where it is the only one.
pub proof fn decimal_reads_back(n: nat)
    ensures
        digits_value(decimal(n)) == n,
        decimal(n).len() > 0,
        forall|i: int| 0 <= i < decimal(n).len() ==> '0' <= #[trigger] decimal(n)[i] <= '9',
        decimal(n).len() > 1 ==> decimal(n)[0] != '0',
    decreases n,
{
    if n < 10 {
        let text = decimal(n);
        assert(text.drop_last() =~= Seq::empty());
        assert(digits_value(text.drop_last()) == 0);
    } else {
        decimal_reads_back(n / 10);
        let head = decimal(n / 10);
        let text = decimal(n);
        assert(text.drop_last() =~= head);
        assert(text[0] == head[0]);
        if head.len() == 1 {
            assert(head[0] != '0') by {
                assert(head.drop_last() =~= Seq::empty());
                assert(digits_value(head.drop_last()) == 0);
                assert(digits_value(head) == head.last() as int - '0' as int);
            }
        }
        assert forall|i: int| 0 <= i < text.len() implies '0' <= #[trigger] text[i] <= '9' by {
            if i < head.len() {
                assert(text[i] == head[i]);
            }
        }
    }
}

} // verus!
