//! Numbers in decimal text: which texts are a number by their syntax, and the
//! validator that command-line values go through.

use vstd::prelude::*;
use vstd::string::is_ascii_spec_bytes;
use vstd::utf8::is_ascii_chars;

verus! {

/// The byte of `+` in ASCII.
pub const PLUS: u8 = 43;

/// The byte of `-` in ASCII.
pub const MINUS: u8 = 45;

/// The byte of `.` in ASCII.
pub const POINT: u8 = 46;

/// The byte of `0` in ASCII. The ten digits follow one another.
pub const ZERO: u8 = 48;

/// The byte of `9` in ASCII.
pub const NINE: u8 = 57;

/// The ASCII decimal digits.
pub open spec fn is_digit(c: char) -> bool {
    '0' <= c <= '9'
}

/// Whether the text starts with a plus or a minus sign.
pub open spec fn has_sign(text: Seq<char>) -> bool {
    text.len() > 0 && (text[0] == '+' || text[0] == '-')
}

/// The text without its sign, where it has one.
pub open spec fn unsigned_part(text: Seq<char>) -> Seq<char> {
    if has_sign(text) {
        text.subrange(1, text.len() as int)
    } else {
        text
    }
}

/// Whether the characters are one or more digits, or one or more digits, a
/// point and one or more digits: nothing but digits and points, at most one
/// point, and a digit at either end.
pub open spec fn is_decimal(body: Seq<char>) -> bool {
    &&& body.len() > 0
    &&& forall|i: int| 0 <= i < body.len() ==> is_digit(#[trigger] body[i]) || body[i] == '.'
    &&& forall|i: int, j: int|
        0 <= i < j < body.len() ==> !(#[trigger] body[i] == '.' && #[trigger] body[j] == '.')
    &&& body.first() != '.'
    &&& body.last() != '.'
}

/// Whether the text is a number by its syntax: an optional sign, one or
/// more ASCII digits, and an optional fraction of a point and one or more
/// digits. The size of the number is not looked at. No spaces, no
/// separators, no exponent, no names such as `inf`.
pub open spec fn is_number_text(text: Seq<char>) -> bool {
    is_decimal(unsigned_part(text))
}

/// A number text holds ASCII characters only.
pub proof fn lemma_number_text_is_ascii(text: Seq<char>)
    requires
        is_number_text(text),
    ensures
        is_ascii_chars(text),
{
    let body = unsigned_part(text);
    assert forall|i: int| 0 <= i < text.len() implies '\0' <= #[trigger] text[i] <= '\u{7f}' by {
        if has_sign(text) {
            if i > 0 {
                assert(is_digit(body[i - 1]) || body[i - 1] == '.');
            }
        } else {
            assert(is_digit(body[i]) || body[i] == '.');
        }
    }
}

/// An ASCII character and its byte tell the same digit, sign or point.
pub proof fn lemma_ascii_byte(c: char)
    requires
        c <= '\u{7f}',
    ensures
        is_digit(c) <==> ZERO <= c as u8 <= NINE,
        c == '+' <==> c as u8 == PLUS,
        c == '-' <==> c as u8 == MINUS,
        c == '.' <==> c as u8 == POINT,
{
}

/// Whether the text is a number by its syntax.
pub fn reads_as_number(text: &str) -> (valid: bool)
    ensures
        valid == is_number_text(text@),
{
    if !text.is_ascii() {
        proof {
            if is_number_text(text@) {
                lemma_number_text_is_ascii(text@);
            }
        }
        return false;
    }
    let bytes = text.as_bytes();
    proof {
        is_ascii_spec_bytes(text);
    }
    let n: usize = bytes.len();
    if n == 0 {
        return false;
    }
    let first: u8 = bytes[0];
    proof {
        lemma_ascii_byte(text@[0]);
    }
    let start: usize = if first == PLUS || first == MINUS {
        1
    } else {
        0
    };
    if start == n {
        return false;
    }
    let ghost body = unsigned_part(text@);
    proof {
        lemma_ascii_byte(body.first());
        lemma_ascii_byte(body.last());
    }
    if bytes[start] == POINT || bytes[n - 1] == POINT {
        return false;
    }
    let mut seen_point: bool = false;
    let ghost mut point_at: int = 0;
    let mut i: usize = start;
    while i < n
        invariant
            start <= i <= n,
            n == text@.len(),
            n == bytes@.len(),
            is_ascii_chars(text@),
            forall|j: int| 0 <= j < n ==> #[trigger] bytes@[j] == text@[j] as u8,
            body == unsigned_part(text@),
            body.len() == n - start,
            forall|j: int| 0 <= j < body.len() ==> #[trigger] body[j] == text@[j + start],
            forall|j: int| 0 <= j < i - start ==> is_digit(#[trigger] body[j]) || body[j] == '.',
            forall|j: int, k: int|
                0 <= j < k < i - start ==> !(#[trigger] body[j] == '.' && #[trigger] body[k]
                    == '.'),
            seen_point ==> 0 <= point_at < i - start && body[point_at] == '.',
            !seen_point ==> forall|j: int| 0 <= j < i - start ==> #[trigger] body[j] != '.',
        decreases n - i,
    {
        let byte: u8 = bytes[i];
        proof {
            lemma_ascii_byte(body[i - start]);
        }
        if byte == POINT {
            if seen_point {
                return false;
            }
            seen_point = true;
            proof {
                point_at = i - start;
            }
        } else if byte < ZERO || byte > NINE {
            return false;
        }
        i += 1;
    }
    true
}

/// Accepts a command-line value that is a number by its syntax, whatever its
/// size, and refuses any other with the message that the user is shown.
pub fn is_number(v: String) -> (outcome: Result<(), String>)
    ensures
        outcome is Ok <==> is_number_text(v@),
        outcome matches Err(message) ==> message@ == "Value is not a number"@,
{
    if reads_as_number(v.as_str()) {
        Ok(())
    } else {
        Err("Value is not a number".to_owned())
    }
}

} // verus!
