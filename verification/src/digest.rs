//! File names derived from names that others choose.

use vstd::prelude::*;

verus! {

/// The SHA-256 digest of a text in UTF-8.
pub uninterp spec fn sha256(text: Seq<char>) -> Seq<u8>;

/// `sha2::Sha256::digest`, on the UTF-8 form of the text: a digest of 32 bytes that depends on
/// the text alone.
#[verifier::external_body]
fn digest(text: &str) -> (bytes: Vec<u8>)
    ensures
        bytes@ == sha256(text@),
        bytes@.len() == 32,
{
    <sha2::Sha256 as sha2::Digest>::digest(text).to_vec()
}

/// The upper-case hexadecimal digit of value `d`.
pub open spec fn upper_digit(d: int) -> char {
    if d < 10 {
        (48 + d) as char
    } else {
        (55 + d) as char
    }
}

/// Two upper-case hexadecimal digits for each byte, the high one first.
pub open spec fn upper_hex(bytes: Seq<u8>) -> Seq<char> {
    Seq::new(
        2 * bytes.len(),
        |i: int|
            if i % 2 == 0 {
                upper_digit(bytes[i / 2] as int / 16)
            } else {
                upper_digit(bytes[i / 2] as int % 16)
            },
    )
}

fn digit(d: u8) -> (text: &'static str)
    requires
        d < 16,
    ensures
        text@ == seq![upper_digit(d as int)],
{
    proof {
        reveal_strlit("0");
        reveal_strlit("1");
        reveal_strlit("2");
        reveal_strlit("3");
        reveal_strlit("4");
        reveal_strlit("5");
        reveal_strlit("6");
        reveal_strlit("7");
        reveal_strlit("8");
        reveal_strlit("9");
        reveal_strlit("A");
        reveal_strlit("B");
        reveal_strlit("C");
        reveal_strlit("D");
        reveal_strlit("E");
        reveal_strlit("F");
    }
    let text = match d {
        0 => "0",
        1 => "1",
        2 => "2",
        3 => "3",
        4 => "4",
        5 => "5",
        6 => "6",
        7 => "7",
        8 => "8",
        9 => "9",
        10 => "A",
        11 => "B",
        12 => "C",
        13 => "D",
        14 => "E",
        _ => "F",
    };
    assert(text@ =~= seq![upper_digit(d as int)]);
    text
}

/// The bytes in upper-case hexadecimal digits.
pub fn to_upper_hex(bytes: &Vec<u8>) -> (text: String)
    ensures
        text@ == upper_hex(bytes@),
{
    let mut text: String = String::new();
    proof {
        reveal_strlit("");
    }
    assert(text@ =~= upper_hex(bytes@.take(0)));
    for i in 0..bytes.len()
        invariant
            text@ == upper_hex(bytes@.take(i as int)),
    {
        let byte: u8 = bytes[i];
        text.append(digit(byte / 16));
        text.append(digit(byte % 16));
        assert(text@ =~= upper_hex(bytes@.take(i + 1)));
    }
    assert(bytes@.take(bytes@.len() as int) =~= bytes@);
    text
}

/// The name of the file that stands for `name`.
pub open spec fn file_named(name: Seq<char>) -> Seq<char> {
    upper_hex(sha256(name))
}

/// The name of the file that stands for `name`, which could be an arbitrary path itself: 64
/// hexadecimal digits.
pub fn file_name(name: &str) -> (file: String)
    ensures
        file@ == file_named(name@),
        is_digest_name(file@),
{
    let bytes = digest(name);
    let file = to_upper_hex(&bytes);
    assert forall|i: int| 0 <= i < 64 implies is_upper_digit(#[trigger] file@[i]) by {
        assert(0 <= bytes@[i / 2] as int / 16 < 16);
        assert(0 <= bytes@[i / 2] as int % 16 < 16);
    }
    file
}

pub open spec fn is_upper_digit(c: char) -> bool {
    '0' <= c <= '9' || 'A' <= c <= 'F'
}

/// Whether a name consists of 64 upper-case hexadecimal digits.
pub open spec fn is_digest_name(file: Seq<char>) -> bool {
    &&& file.len() == 64
    &&& forall|i: int| 0 <= i < file.len() ==> is_upper_digit(#[trigger] file[i])
}

/// No file name leaves its directory: it has no path separator, and it is not a dot segment.
pub proof fn law_file_names_stay_inside(file: Seq<char>)
    requires
        is_digest_name(file),
    ensures
        !file.contains('/'),
        !file.contains('\\'),
        !file.contains('.'),
        file.len() > 0,
{
    if file.contains('/') {
        let i = file.index_of('/');
        assert(is_upper_digit(file[i]));
    }
    if file.contains('\\') {
        let i = file.index_of('\\');
        assert(is_upper_digit(file[i]));
    }
    if file.contains('.') {
        let i = file.index_of('.');
        assert(is_upper_digit(file[i]));
    }
}

/// The digits tell which bytes they stand for.
pub proof fn law_hex_is_injective(first: Seq<u8>, second: Seq<u8>)
    requires
        upper_hex(first) == upper_hex(second),
    ensures
        first == second,
{
    assert(upper_hex(first).len() == 2 * first.len());
    assert(upper_hex(second).len() == 2 * second.len());
    assert forall|i: int| 0 <= i < first.len() implies first[i] == second[i] by {
        let high = upper_hex(first)[2 * i];
        let low = upper_hex(first)[2 * i + 1];
        assert(high == upper_digit(first[i] as int / 16));
        assert(low == upper_digit(first[i] as int % 16));
        assert(upper_hex(second)[2 * i] == upper_digit(second[i] as int / 16));
        assert(upper_hex(second)[2 * i + 1] == upper_digit(second[i] as int % 16));
    }
    assert(first =~= second);
}

/// The value of an upper-case hexadecimal digit.
pub open spec fn digit_value(c: char) -> int {
    if c <= '9' {
        c as int - '0' as int
    } else {
        c as int - 'A' as int + 10
    }
}

/// Each byte is written as two upper-case hexadecimal digits, which have its value.
pub proof fn law_digits_have_the_value_of_the_bytes(bytes: &Vec<u8>, text: String, i: int)
    requires
        call_ensures(to_upper_hex, (bytes,), text),
        0 <= i < bytes@.len(),
    ensures
        text@.len() == 2 * bytes@.len(),
        '0' <= text@[2 * i] <= '9' || 'A' <= text@[2 * i] <= 'F',
        '0' <= text@[2 * i + 1] <= '9' || 'A' <= text@[2 * i + 1] <= 'F',
        16 * digit_value(text@[2 * i]) + digit_value(text@[2 * i + 1]) == bytes@[i],
{
    let high = bytes@[i] as int / 16;
    let low = bytes@[i] as int % 16;
    assert(text@[2 * i] == upper_digit(high));
    assert(text@[2 * i + 1] == upper_digit(low));
    assert(0 <= high < 16 && 0 <= low < 16);
}

/// The file that stands for a name tells the digest of the name.
pub proof fn law_files_stand_for_digests(
    name: &str,
    other: &str,
    file: String,
    second: String,
    i: int,
)
    requires
        call_ensures(file_name, (name,), file),
        call_ensures(file_name, (other,), second),
    ensures
        file@ == second@ <==> sha256(name@) == sha256(other@),
        file@.len() == 64,
        0 <= i < 64 ==> '0' <= file@[i] <= '9' || 'A' <= file@[i] <= 'F',
{
    if file@ == second@ {
        law_hex_is_injective(sha256(name@), sha256(other@));
    }
    if 0 <= i < 64 {
        assert(is_upper_digit(file@[i]));
    }
}

} // verus!
