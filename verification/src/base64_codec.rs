//! Standard base64, with padding.

use base64::Engine;
use vstd::prelude::*;

verus! {

/// The error of `base64::Engine::decode`, carried as it is.
#[verifier::external_type_specification]
#[verifier::external_body]
pub struct ExDecodeError(base64::DecodeError);

/// The symbol of a number below 64: `A` to `Z`, `a` to `z`, `0` to `9`, `+`, `/`.
pub open spec fn symbol(n: int) -> char {
    if n < 26 {
        (n + 65) as char
    } else if n < 52 {
        (n - 26 + 97) as char
    } else if n < 62 {
        (n - 52 + 48) as char
    } else if n == 62 {
        '+'
    } else {
        '/'
    }
}

/// Three bytes from `start` on as one number. Zero stands for a byte behind the
/// end.
pub open spec fn group(bytes: Seq<u8>, start: int) -> int {
    let byte = |i: int| if i < bytes.len() { bytes[i] as int } else { 0 };
    65536 * byte(start) + 256 * byte(start + 1) + byte(start + 2)
}

/// The six bits of a three-byte number that its `place`th symbol stands for.
pub open spec fn six_bits(number: int, place: int) -> int {
    if place == 0 {
        number / 262144
    } else if place == 1 {
        number / 4096 % 64
    } else if place == 2 {
        number / 64 % 64
    } else {
        number % 64
    }
}

/// Standard base64, with padding: four characters for every three bytes. If one or
/// two bytes are left for the last four, only two or three of these are symbols,
/// and the rest is `=`.
#[verifier::opaque]
pub open spec fn base64_text(bytes: Seq<u8>) -> Seq<char> {
    Seq::new(
        (bytes.len() + 2) / 3 * 4,
        |i: int|
            if i / 4 * 3 + i % 4 > bytes.len() {
                '='
            } else {
                symbol(six_bits(group(bytes, i / 4 * 3), i % 4))
            },
    )
}

/// Whether a text is the base64 of some bytes.
pub open spec fn is_base64(text: Seq<char>) -> bool {
    exists|bytes: Seq<u8>| #[trigger] base64_text(bytes) == text
}

/// The bytes that a text is the base64 of.
pub open spec fn base64_bytes(text: Seq<char>) -> Seq<u8>
    recommends
        is_base64(text),
{
    choose|bytes: Seq<u8>| #[trigger] base64_text(bytes) == text
}

/// The error that `base64::engine::general_purpose::STANDARD.decode` returns for a
/// text that is no base64.
pub uninterp spec fn base64_fault(text: Seq<char>) -> base64::DecodeError;

/// `base64::engine::general_purpose::STANDARD.encode`: standard base64, with
/// padding. Trusted: the text is that of RFC 4648. The encoder panics where the
/// text does not fit in one allocation.
#[verifier::external_body]
pub(crate) fn encode_base64(bytes: &[u8]) -> (text: String)
    requires
        (bytes@.len() + 2) / 3 * 4 <= isize::MAX,
    ensures
        text@ == base64_text(bytes@),
{
    base64::engine::general_purpose::STANDARD.encode(bytes)
}

/// `base64::engine::general_purpose::STANDARD.decode`: the bytes that a text is the
/// base64 of, or why it is none. Trusted: a text is accepted if and only if it is
/// the base64 of some bytes, so the padding has to be canonical, and no bit may be
/// set that is not decoded; those bytes are returned. Else the error is a function
/// of the text alone.
#[verifier::external_body]
pub(crate) fn decode_base64(text: &str) -> (decoded: Result<Vec<u8>, base64::DecodeError>)
    ensures
        match decoded {
            Ok(bytes) => base64_text(bytes@) == text@,
            Err(cause) => !is_base64(text@) && cause == base64_fault(text@),
        },
{
    base64::engine::general_purpose::STANDARD.decode(text)
}

/// A text is the base64 of one sequence of bytes at most.
pub proof fn law_base64_decodes_one_way(a: Seq<u8>, b: Seq<u8>)
    ensures
        base64_text(a) == base64_text(b) ==> a == b,
{
    if base64_text(a) == base64_text(b) {
        lemma_same_length(a, b);
        assert forall|i: int| 0 <= i < a.len() implies a[i] == b[i] by {
            let start = i / 3 * 3;
            lemma_same_group(a, b, start);
            lemma_bytes_of_group(a, start);
            lemma_bytes_of_group(b, start);
            assert(i == start || i == start + 1 || i == start + 2);
        }
        assert(a =~= b);
    }
}

/// Decoding the base64 of bytes gives the bytes back.
pub proof fn law_base64_gives_bytes_back(bytes: Seq<u8>)
    ensures
        is_base64(base64_text(bytes)),
        base64_bytes(base64_text(bytes)) == bytes,
{
    law_base64_decodes_one_way(base64_bytes(base64_text(bytes)), bytes);
}

/// What a base64 text decodes to encodes to that text.
pub proof fn law_bytes_give_base64_back(text: Seq<char>)
    requires
        is_base64(text),
    ensures
        base64_text(base64_bytes(text)) == text,
{
}

/// Bytes are encoded three by three: what follows a whole number of threes is encoded
/// as it is by itself.
pub proof fn law_text_of_joined_bytes(a: Seq<u8>, b: Seq<u8>)
    requires
        a.len() % 3 == 0,
    ensures
        base64_text(a + b) == base64_text(a) + base64_text(b),
{
    let (x, y) = (base64_text(a), base64_text(b));
    let n = a.len() as int / 3;
    law_text_length(a);
    law_text_length(b);
    law_text_length(a + b);
    assert((a + b).len() == 3 * n + b.len());
    assert(((a + b).len() + 2) / 3 == n + (b.len() + 2) / 3);
    assert forall|i: int| 0 <= i < base64_text(a + b).len() implies base64_text(a + b)[i] == (x
        + y)[i] by {
        let (k, place) = (i / 4, i % 4);
        assert(i == 4 * k + place);
        lemma_character(a + b, k, place);
        if k < n {
            lemma_character(a, k, place);
        } else {
            lemma_character(b, k - n, place);
            assert(i - 4 * n == 4 * (k - n) + place);
        }
    }
    assert(base64_text(a + b) =~= x + y);
}

/// Three bytes are encoded as the symbols of the four digits, to the base of 64 and the
/// greatest first, of the number whose digits to the base of 256 the bytes are. Of one
/// or two bytes the number ends in zeros, and `=` stands for the symbols that hold
/// nothing else.
pub proof fn law_text_of_up_to_three_bytes(
    b0: u8,
    b1: u8,
    b2: u8,
    n0: int,
    n1: int,
    n2: int,
    n3: int,
)
    requires
        0 <= n0 < 64,
        0 <= n1 < 64,
        0 <= n2 < 64,
        0 <= n3 < 64,
        65536 * b0 + 256 * b1 + b2 == 262144 * n0 + 4096 * n1 + 64 * n2 + n3,
    ensures
        base64_text(seq![b0, b1, b2]) == seq![symbol(n0), symbol(n1), symbol(n2), symbol(n3)],
        b2 == 0 ==> base64_text(seq![b0, b1]) == seq![symbol(n0), symbol(n1), symbol(n2), '='],
        b1 == 0 && b2 == 0 ==> base64_text(seq![b0]) == seq![symbol(n0), symbol(n1), '=', '='],
        base64_text(Seq::empty()) == Seq::<char>::empty(),
{
    let number = 65536 * b0 + 256 * b1 + b2;
    lemma_digits(number, n0, n1, n2, n3);
    law_text_length(Seq::empty());
    assert(base64_text(Seq::empty()) =~= Seq::<char>::empty());
    assert(group(seq![b0, b1, b2], 0) == number);
    lemma_four_characters(seq![b0, b1, b2]);
    if b2 == 0 {
        assert(group(seq![b0, b1], 0) == number);
        lemma_four_characters(seq![b0, b1]);
        if b1 == 0 {
            assert(group(seq![b0], 0) == number);
            lemma_four_characters(seq![b0]);
        }
    }
}

proof fn lemma_digits(number: int, n0: int, n1: int, n2: int, n3: int)
    requires
        0 <= n0 < 64,
        0 <= n1 < 64,
        0 <= n2 < 64,
        0 <= n3 < 64,
        number == 262144 * n0 + 4096 * n1 + 64 * n2 + n3,
    ensures
        six_bits(number, 0) == n0,
        six_bits(number, 1) == n1,
        six_bits(number, 2) == n2,
        six_bits(number, 3) == n3,
{
    assert(number / 64 == 4096 * n0 + 64 * n1 + n2);
    assert(number / 4096 == 64 * n0 + n1);
    assert(number / 262144 == n0);
}

proof fn lemma_four_characters(bytes: Seq<u8>)
    requires
        1 <= bytes.len() <= 3,
    ensures
        base64_text(bytes) == seq![
            symbol(six_bits(group(bytes, 0), 0)),
            symbol(six_bits(group(bytes, 0), 1)),
            if bytes.len() < 2 {
                '='
            } else {
                symbol(six_bits(group(bytes, 0), 2))
            },
            if bytes.len() < 3 {
                '='
            } else {
                symbol(six_bits(group(bytes, 0), 3))
            },
        ],
{
    law_text_length(bytes);
    lemma_character(bytes, 0, 0);
    lemma_character(bytes, 0, 1);
    lemma_character(bytes, 0, 2);
    lemma_character(bytes, 0, 3);
}

/// The alphabet: the upper-case letters, the lower-case letters and the decimal digits
/// in order, then `+` and `/`.
pub proof fn law_alphabet(n: int)
    requires
        0 <= n < 63,
    ensures
        symbol(0) == 'A' && symbol(25) == 'Z' && symbol(26) == 'a' && symbol(51) == 'z',
        symbol(52) == '0' && symbol(61) == '9' && symbol(62) == '+' && symbol(63) == '/',
        n != 25 && n != 51 && n != 61 && n != 62 ==> symbol(n + 1) as int == symbol(n) as int + 1,
{
}

proof fn lemma_symbol(m: int, n: int)
    requires
        0 <= m < 64,
        0 <= n < 64,
    ensures
        symbol(m) != '=',
        symbol(m) == symbol(n) ==> m == n,
{
}

proof fn lemma_group_bounds(bytes: Seq<u8>, start: int)
    requires
        0 <= start,
    ensures
        0 <= group(bytes, start) < 16777216,
        forall|place: int| 0 <= place < 4 ==> 0 <= #[trigger] six_bits(
            group(bytes, start),
            place,
        ) < 64,
{
}

proof fn lemma_bytes_of_group(bytes: Seq<u8>, start: int)
    requires
        0 <= start < bytes.len(),
    ensures
        bytes[start] == group(bytes, start) / 65536,
        start + 1 < bytes.len() ==> bytes[start + 1] == group(bytes, start) / 256 % 256,
        start + 2 < bytes.len() ==> bytes[start + 2] == group(bytes, start) % 256,
{
}

/// The `place`th of the four characters for the bytes from `3 * k` on.
proof fn lemma_character(bytes: Seq<u8>, k: int, place: int)
    requires
        0 <= 3 * k < bytes.len(),
        0 <= place < 4,
    ensures
        4 * k + place < base64_text(bytes).len(),
        base64_text(bytes)[4 * k + place] == if 3 * k + place > bytes.len() {
            '='
        } else {
            symbol(six_bits(group(bytes, 3 * k), place))
        },
{
    reveal(base64_text);
    let i = 4 * k + place;
    assert(i / 4 == k && i % 4 == place);
    assert(k + 1 <= (bytes.len() + 2) / 3);
}

/// The text has four characters for every three bytes or part of them.
pub proof fn law_text_length(bytes: Seq<u8>)
    ensures
        base64_text(bytes).len() == (bytes.len() + 2) / 3 * 4,
{
    reveal(base64_text);
}

proof fn lemma_same_length(a: Seq<u8>, b: Seq<u8>)
    requires
        base64_text(a) == base64_text(b),
    ensures
        a.len() == b.len(),
{
    law_text_length(a);
    law_text_length(b);
    if a.len() < b.len() {
        lemma_shorter_is_padded(a, b);
    } else if b.len() < a.len() {
        lemma_shorter_is_padded(b, a);
    }
}

proof fn lemma_shorter_is_padded(short: Seq<u8>, long: Seq<u8>)
    requires
        (short.len() + 2) / 3 == (long.len() + 2) / 3,
        short.len() < long.len(),
    ensures
        base64_text(short) != base64_text(long),
{
    let k = (long.len() - 1) / 3;
    let place = long.len() - 3 * k;
    assert(3 * k < short.len());
    lemma_character(short, k, place);
    lemma_character(long, k, place);
    lemma_group_bounds(long, 3 * k);
    let n = six_bits(group(long, 3 * k), place);
    lemma_symbol(n, n);
}

proof fn lemma_same_group(a: Seq<u8>, b: Seq<u8>, start: int)
    requires
        base64_text(a) == base64_text(b),
        a.len() == b.len(),
        0 <= start < a.len(),
        start % 3 == 0,
    ensures
        group(a, start) == group(b, start),
{
    let k = start / 3;
    let (x, y) = (group(a, start), group(b, start));
    lemma_group_bounds(a, start);
    lemma_group_bounds(b, start);
    assert forall|place: int| 0 <= place < 4 && start + place <= a.len() implies six_bits(x, place)
        == #[trigger] six_bits(y, place) by {
        lemma_character(a, k, place);
        lemma_character(b, k, place);
        lemma_symbol(six_bits(x, place), six_bits(y, place));
    }
    assert(six_bits(x, 0) == six_bits(y, 0));
    assert(six_bits(x, 1) == six_bits(y, 1));
    lemma_number_of_six_bits(x);
    lemma_number_of_six_bits(y);
    assert(start + 1 < a.len() ==> six_bits(x, 2) == six_bits(y, 2));
    assert(start + 2 < a.len() ==> six_bits(x, 3) == six_bits(y, 3));
    assert(start + 1 >= a.len() ==> x % 65536 == 0 && y % 65536 == 0);
    assert(start + 2 >= a.len() ==> x % 256 == 0 && y % 256 == 0);
}

proof fn lemma_number_of_six_bits(number: int)
    requires
        0 <= number < 16777216,
    ensures
        number == 262144 * six_bits(number, 0) + 4096 * six_bits(number, 1) + 64 * six_bits(
            number,
            2,
        ) + six_bits(number, 3),
        number % 65536 == 0 ==> six_bits(number, 2) == 0,
        number % 256 == 0 ==> six_bits(number, 3) == 0,
{
}

} // verus!
