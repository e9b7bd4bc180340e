use crate::error::DecodeError;
use vstd::prelude::*;

verus! {

/// The pattern of a type code made of a decimal count and one letter.
pub const COUNT_AND_LETTER: &'static str = "^(\\d+)([a-zA-Z])$";

pub open spec fn is_ascii_digit(c: char) -> bool {
    '0' <= c && c <= '9'
}

pub open spec fn is_ascii_letter(c: char) -> bool {
    ('a' <= c && c <= 'z') || ('A' <= c && c <= 'Z')
}

pub open spec fn all_ascii_digits(s: Seq<char>) -> bool {
    forall|i: int| 0 <= i < s.len() ==> is_ascii_digit(#[trigger] s[i])
}

/// The number that a string of ASCII decimal digits spells, most significant first.
pub open spec fn decimal_value(digits: Seq<char>) -> nat
    decreases digits.len(),
{
    if digits.len() == 0 {
        0
    } else {
        decimal_value(digits.drop_last()) * 10 + (digits.last() as nat - '0' as nat) as nat
    }
}

/// Whether `code` is one or more ASCII digits followed by one ASCII letter.
pub open spec fn is_count_and_letter(code: Seq<char>) -> bool {
    code.len() >= 2 && all_ascii_digits(code.drop_last()) && is_ascii_letter(code.last())
}

/// The count and letter of a type code: a bare letter counts once; otherwise
/// the code must be a decimal count followed by a letter.
pub open spec fn tag_of(code: Seq<char>) -> Option<(nat, char)> {
    if code.len() == 1 && is_ascii_letter(code[0]) {
        Some((1, code[0]))
    } else if is_count_and_letter(code) {
        Some((decimal_value(code.drop_last()), code.last()))
    } else {
        None
    }
}

/// What `parse_size_and_type` returns: the tag, where its count fits a `usize`.
pub open spec fn size_and_type_of(code: Seq<char>) -> Result<(usize, char), DecodeError> {
    match tag_of(code) {
        Some((n, c)) => if n <= usize::MAX {
            Ok((n as usize, c))
        } else {
            Err(DecodeError::MalformedTypeCode)
        },
        None => Err(DecodeError::MalformedTypeCode),
    }
}

/// The kind of primitive that a field holds, with the length of text and padding.
#[derive(Debug, Clone, Copy, PartialEq, Eq, Structural)]
pub enum FieldType {
    /// `b`: an unsigned byte.
    Byte,
    /// `H`: an unsigned 16-bit number.
    Short,
    /// `2H`: two shorts read together as one unsigned 32-bit number.
    Long,
    /// `f`: a 32-bit float.
    Float,
    /// `d`: a 64-bit float.
    Double,
    /// `<n>s`: `n` bytes of text.
    Text(usize),
    /// `<n>z`: `n` reserved bytes, never read.
    Padding(usize),
}

impl FieldType {
    /// The number of bytes the field spans.
    pub open spec fn spec_size(self) -> nat {
        match self {
            FieldType::Byte => 1,
            FieldType::Short => 2,
            FieldType::Long => 4,
            FieldType::Float => 4,
            FieldType::Double => 8,
            FieldType::Text(n) => n as nat,
            FieldType::Padding(n) => n as nat,
        }
    }

    /// The number of bytes the field spans.
    pub fn size(&self) -> (r: usize)
        ensures
            r == self.spec_size(),
    {
        match self {
            FieldType::Byte => 1,
            FieldType::Short => 2,
            FieldType::Long => 4,
            FieldType::Float => 4,
            FieldType::Double => 8,
            FieldType::Text(n) => *n,
            FieldType::Padding(n) => *n,
        }
    }
}

/// The primitive that a count and a letter name, if any.
pub open spec fn field_type_of(count: usize, letter: char) -> Option<FieldType> {
    if letter == 's' {
        Some(FieldType::Text(count))
    } else if letter == 'z' {
        Some(FieldType::Padding(count))
    } else if count == 1 && letter == 'b' {
        Some(FieldType::Byte)
    } else if count == 1 && letter == 'H' {
        Some(FieldType::Short)
    } else if count == 2 && letter == 'H' {
        Some(FieldType::Long)
    } else if count == 1 && letter == 'f' {
        Some(FieldType::Float)
    } else if count == 1 && letter == 'd' {
        Some(FieldType::Double)
    } else {
        None
    }
}

/// The field type that a type code stands for, or why it stands for none.
pub open spec fn type_of_code(code: Seq<char>) -> Result<FieldType, DecodeError> {
    match size_and_type_of(code) {
        Ok((n, c)) => match field_type_of(n, c) {
            Some(t) => Ok(t),
            None => Err(DecodeError::UnknownTypeTag),
        },
        Err(e) => Err(e),
    }
}

/// Relies on `regex::Regex::new` and `Regex::captures`: with the pattern
/// `COUNT_AND_LETTER`, a token matches when it is one or more Unicode decimal
/// digits followed by one ASCII letter, and the two groups are those parts.
#[verifier::external_body]
fn capture_count_and_letter(pattern: &str, token: &str) -> (r: Option<(String, String)>)
    requires
        pattern@ == COUNT_AND_LETTER@,
    ensures
        r matches Some((d, l)) ==> token@ == d@ + l@ && d@.len() >= 1 && l@.len() == 1
            && is_ascii_letter(l@[0]),
        r is None ==> !is_count_and_letter(token@),
{
    let re = regex::Regex::new(pattern).unwrap();
    match re.captures(token) {
        Some(caps) => Some((caps[1].to_string(), caps[2].to_string())),
        None => None,
    }
}

proof fn lemma_decimal_prefix(s: Seq<char>, j: int)
    requires
        0 <= j <= s.len(),
        all_ascii_digits(s),
    ensures
        decimal_value(s.subrange(0, j)) <= decimal_value(s),
    decreases s.len(),
{
    if j < s.len() {
        assert(s.drop_last().subrange(0, j) =~= s.subrange(0, j));
        lemma_decimal_prefix(s.drop_last(), j);
    } else {
        assert(s.subrange(0, j) =~= s);
    }
}

/// The value of a string of ASCII digits, or `None` where a character is not
/// an ASCII digit or the value does not fit a `usize`.
fn parse_decimal(digits: &str) -> (r: Option<usize>)
    ensures
        r is Some <==> all_ascii_digits(digits@) && decimal_value(digits@) <= usize::MAX,
        r matches Some(n) ==> n == decimal_value(digits@),
{
    let len = digits.unicode_len();
    let mut acc: usize = 0;
    let mut i: usize = 0;
    while i < len
        invariant
            i <= len,
            len == digits@.len(),
            all_ascii_digits(digits@.subrange(0, i as int)),
            acc == decimal_value(digits@.subrange(0, i as int)),
        decreases len - i,
    {
        let c = digits.get_char(i);
        proof {
            assert(digits@.subrange(0, i + 1).drop_last() =~= digits@.subrange(0, i as int));
        }
        if !('0' <= c && c <= '9') {
            return None;
        }
        let d = (c as u32 - '0' as u32) as usize;
        let next = match acc.checked_mul(10) {
            Some(m) => m.checked_add(d),
            None => None,
        };
        match next {
            Some(n) => {
                acc = n;
            },
            None => {
                proof {
                    assert(all_ascii_digits(digits@.subrange(0, i + 1)));
                    if all_ascii_digits(digits@) {
                        lemma_decimal_prefix(digits@, i + 1);
                    }
                }
                return None;
            },
        }
        i = i + 1;
    }
    proof {
        assert(digits@.subrange(0, i as int) =~= digits@);
    }
    Some(acc)
}

/// Splits a type code into its count and its letter. A single ASCII letter
/// counts once; otherwise the code must be a decimal count that fits a
/// `usize`, followed by one ASCII letter.
pub fn parse_size_and_type(input: &str) -> (r: Result<(usize, char), DecodeError>)
    ensures
        r == size_and_type_of(input@),
{
    let len = input.unicode_len();
    if len == 1 {
        let c = input.get_char(0);
        if ('a' <= c && c <= 'z') || ('A' <= c && c <= 'Z') {
            return Ok((1, c));
        }
        return Err(DecodeError::MalformedTypeCode);
    }
    match capture_count_and_letter(COUNT_AND_LETTER, input) {
        None => Err(DecodeError::MalformedTypeCode),
        Some((digits, letter)) => {
            let c = letter.as_str().get_char(0);
            proof {
                assert(input@.drop_last() =~= digits@);
                assert(input@.last() == c);
            }
            match parse_decimal(digits.as_str()) {
                Some(n) => Ok((n, c)),
                None => Err(DecodeError::MalformedTypeCode),
            }
        },
    }
}

/// Resolves a type code to the primitive it names.
pub fn parse_type_code(code: &str) -> (r: Result<FieldType, DecodeError>)
    ensures
        r == type_of_code(code@),
{
    match parse_size_and_type(code) {
        Err(e) => Err(e),
        Ok((n, c)) => {
            if c == 's' {
                Ok(FieldType::Text(n))
            } else if c == 'z' {
                Ok(FieldType::Padding(n))
            } else if n == 1 && c == 'b' {
                Ok(FieldType::Byte)
            } else if n == 1 && c == 'H' {
                Ok(FieldType::Short)
            } else if n == 2 && c == 'H' {
                Ok(FieldType::Long)
            } else if n == 1 && c == 'f' {
                Ok(FieldType::Float)
            } else if n == 1 && c == 'd' {
                Ok(FieldType::Double)
            } else {
                Err(DecodeError::UnknownTypeTag)
            }
        },
    }
}

} // verus!
