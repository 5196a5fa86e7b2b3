//! The text form of an embedding in the key/value store.
//!
//! An embedding is a sequence of 32-bit floating point numbers. Here each number
//! is held as its bit pattern, a `u32`. The text form is the standard base64
//! encoding of the numbers' bytes, each number in little-endian order.

use crate::base64_codec;
use vstd::prelude::*;

verus! {

/// The most numbers that an embedding may hold to be encoded: its text has to
/// fit in one allocation, which is at most `isize::MAX` bytes long.
pub const MAX_EMBEDDING_LEN: usize = usize::MAX / 8 * 3 / 4;

/// Why a text is no embedding.
#[derive(Debug, PartialEq, Eq)]
pub enum EmbeddingError {
    /// The text is not standard, padded base64.
    Base64(base64::DecodeError),
}

impl EmbeddingError {
    /// The words for the step that failed, as an error message gives them.
    pub fn text(&self) -> (text: &'static str)
        ensures
            text@ == "decode base64 embedding"@,
    {
        "decode base64 embedding"
    }
}

/// The little-endian bytes of one number.
pub open spec fn word_bytes(word: u32) -> Seq<u8> {
    seq![
        (word % 256) as u8,
        (word / 256 % 256) as u8,
        (word / 65536 % 256) as u8,
        (word / 16777216) as u8,
    ]
}

/// The number whose little-endian bytes are `b0`, `b1`, `b2`, `b3`.
pub open spec fn word_of(b0: u8, b1: u8, b2: u8, b3: u8) -> u32 {
    (b0 + 256 * b1 + 65536 * b2 + 16777216 * b3) as u32
}

/// The bytes of an embedding: those of its numbers, in order.
pub open spec fn embedding_bytes(words: Seq<u32>) -> Seq<u8> {
    Seq::new(4 * words.len(), |i: int| word_bytes(words[i / 4])[i % 4])
}

/// The embedding that bytes hold: one number for every four bytes. One to three
/// bytes left over at the end hold nothing.
pub open spec fn bytes_embedding(bytes: Seq<u8>) -> Seq<u32> {
    Seq::new(
        bytes.len() / 4,
        |i: int| word_of(bytes[4 * i], bytes[4 * i + 1], bytes[4 * i + 2], bytes[4 * i + 3]),
    )
}

/// The text form of an embedding.
pub open spec fn embedding_text(words: Seq<u32>) -> Seq<char> {
    base64_codec::base64_text(embedding_bytes(words))
}

/// The embedding that a text holds.
pub open spec fn text_embedding(text: Seq<char>) -> Result<Seq<u32>, EmbeddingError> {
    if base64_codec::is_base64(text) {
        Ok(bytes_embedding(base64_codec::base64_bytes(text)))
    } else {
        Err(EmbeddingError::Base64(base64_codec::base64_fault(text)))
    }
}

/// The bytes of an embedding: each number's four bytes in little-endian order.
pub fn embedding_to_bytes(v: &[u32]) -> (bytes: Vec<u8>)
    ensures
        bytes@ == embedding_bytes(v@),
        bytes@.len() == 4 * v@.len(),
        forall|i: int|
            0 <= i < v@.len() ==> #[trigger] v@[i] == bytes@[4 * i] + 256 * bytes@[4 * i + 1] + 65536
                * bytes@[4 * i + 2] + 16777216 * bytes@[4 * i + 3],
{
    let mut bytes: Vec<u8> = Vec::new();
    for i in 0..v.len()
        invariant
            bytes@ == embedding_bytes(v@.take(i as int)),
    {
        let word: u32 = v[i];
        bytes.push((word % 256) as u8);
        bytes.push((word / 256 % 256) as u8);
        bytes.push((word / 65536 % 256) as u8);
        bytes.push((word / 16777216) as u8);
        assert(bytes@ =~= embedding_bytes(v@.take(i + 1)));
    }
    assert(v@.take(v@.len() as int) == v@);
    proof {
        law_digits_of_embedding(v@);
    }
    bytes
}

/// The embedding that bytes hold. Up to three bytes left over at the end are
/// ignored.
pub fn embedding_from_bytes(bytes: &[u8]) -> (v: Vec<u32>)
    ensures
        v@ == bytes_embedding(bytes@),
        v@.len() == bytes@.len() / 4,
        forall|i: int|
            0 <= i < v@.len() ==> #[trigger] v@[i] == bytes@[4 * i] + 256 * bytes@[4 * i + 1] + 65536
                * bytes@[4 * i + 2] + 16777216 * bytes@[4 * i + 3],
{
    let mut v: Vec<u32> = Vec::new();
    for i in 0..bytes.len() / 4
        invariant
            v@.len() == i,
            forall|j: int| 0 <= j < i ==> v@[j] == bytes_embedding(bytes@)[j],
    {
        let b0: u32 = bytes[4 * i] as u32;
        let b1: u32 = bytes[4 * i + 1] as u32;
        let b2: u32 = bytes[4 * i + 2] as u32;
        let b3: u32 = bytes[4 * i + 3] as u32;
        v.push(b0 + 256 * b1 + 65536 * b2 + 16777216 * b3);
    }
    v
}

/// Encodes an embedding for the key/value store.
pub fn encode_embedding(v: &[u32]) -> (text: String)
    requires
        v@.len() <= MAX_EMBEDDING_LEN,
    ensures
        text@ == embedding_text(v@),
        text@ == base64_codec::base64_text(embedding_bytes(v@)),
        text@.len() == (4 * v@.len() + 2) / 3 * 4,
        base64_codec::is_base64(text@),
        base64_codec::base64_bytes(text@) == embedding_bytes(v@),
        text_embedding(text@) == Ok::<Seq<u32>, EmbeddingError>(v@),
{
    let bytes = embedding_to_bytes(v);
    proof {
        base64_codec::law_text_length(bytes@);
        base64_codec::law_base64_gives_bytes_back(bytes@);
        law_text_gives_embedding_back(v@);
    }
    base64_codec::encode_base64(bytes.as_slice())
}

/// The embedding that the outcome of a base64 decoding holds.
pub fn embedding_from_decoding(decoded: Result<Vec<u8>, base64::DecodeError>) -> (v: Result<
    Vec<u32>,
    EmbeddingError,
>)
    ensures
        match decoded {
            Ok(bytes) => v matches Ok(words) && words@ == bytes_embedding(bytes@),
            Err(cause) => v matches Err(error) && error == EmbeddingError::Base64(cause),
        },
        decoded matches Ok(bytes) ==> (v matches Ok(words) && words@.len() == bytes@.len() / 4
            && forall|i: int|
            0 <= i < words@.len() ==> #[trigger] words@[i] == bytes@[4 * i] + 256 * bytes@[4 * i
                + 1] + 65536 * bytes@[4 * i + 2] + 16777216 * bytes@[4 * i + 3]),
{
    match decoded {
        Ok(bytes) => Ok(embedding_from_bytes(bytes.as_slice())),
        Err(cause) => Err(EmbeddingError::Base64(cause)),
    }
}

/// Decodes an embedding from the key/value store.
pub fn decode_embedding(s: &str) -> (v: Result<Vec<u32>, EmbeddingError>)
    ensures
        match v {
            Ok(words) => text_embedding(s@) == Ok::<Seq<u32>, EmbeddingError>(words@),
            Err(error) => text_embedding(s@) == Err::<Seq<u32>, EmbeddingError>(error),
        },
        match v {
            Ok(words) => exists|bytes: Seq<u8>| #[trigger]
                base64_codec::base64_text(bytes) == s@ && words@.len() == bytes.len() / 4
                    && forall|i: int|
                    0 <= i < words@.len() ==> #[trigger] words@[i] == bytes[4 * i] + 256 * bytes[4
                        * i + 1] + 65536 * bytes[4 * i + 2] + 16777216 * bytes[4 * i + 3],
            Err(error) => {
                &&& forall|bytes: Seq<u8>| #[trigger] base64_codec::base64_text(bytes) != s@
                &&& error == EmbeddingError::Base64(base64_codec::base64_fault(s@))
            },
        },
{
    let decoded = base64_codec::decode_base64(s);
    proof {
        if decoded is Ok {
            base64_codec::law_base64_gives_bytes_back(decoded->Ok_0@);
        }
    }
    embedding_from_decoding(decoded)
}

/// The `i`th number that bytes hold has the bytes from `4 * i` on as its digits to the
/// base of 256, the least first. There are as many numbers as there are whole groups
/// of four bytes.
pub proof fn law_digits_of_held_embedding(bytes: Seq<u8>)
    ensures
        bytes_embedding(bytes).len() == bytes.len() / 4,
        forall|i: int|
            0 <= i < bytes.len() / 4 ==> #[trigger] bytes_embedding(bytes)[i] == bytes[4 * i] + 256
                * bytes[4 * i + 1] + 65536 * bytes[4 * i + 2] + 16777216 * bytes[4 * i + 3],
{
}

/// The bytes of an embedding from `4 * i` on are the digits of its `i`th number to the
/// base of 256, the least first. There are four for every number.
pub proof fn law_digits_of_embedding(words: Seq<u32>)
    ensures
        embedding_bytes(words).len() == 4 * words.len(),
        forall|i: int|
            0 <= i < words.len() ==> #[trigger] words[i] == embedding_bytes(words)[4 * i] + 256
                * embedding_bytes(words)[4 * i + 1] + 65536 * embedding_bytes(words)[4 * i + 2]
                + 16777216 * embedding_bytes(words)[4 * i + 3],
{
    law_bytes_give_embedding_back(words);
    law_digits_of_held_embedding(embedding_bytes(words));
    assert forall|i: int| 0 <= i < words.len() implies #[trigger] words[i] == embedding_bytes(
        words,
    )[4 * i] + 256 * embedding_bytes(words)[4 * i + 1] + 65536 * embedding_bytes(words)[4 * i + 2]
        + 16777216 * embedding_bytes(words)[4 * i + 3] by {
        assert(bytes_embedding(embedding_bytes(words))[i] == words[i]);
    }
}

/// The bytes of two embeddings, one behind the other, are the bytes of the two as one.
pub proof fn law_bytes_of_joined_embeddings(a: Seq<u32>, b: Seq<u32>)
    ensures
        embedding_bytes(a + b) == embedding_bytes(a) + embedding_bytes(b),
{
    assert forall|i: int| 0 <= i < 4 * (a.len() + b.len()) implies embedding_bytes(a + b)[i] == (
    embedding_bytes(a) + embedding_bytes(b))[i] by {
        if i >= 4 * a.len() {
            let k = i - 4 * a.len();
            assert(k / 4 == i / 4 - a.len() && k % 4 == i % 4);
        }
    }
    assert(embedding_bytes(a + b) =~= embedding_bytes(a) + embedding_bytes(b));
}

/// Bytes behind a whole number of groups of four hold what they hold by themselves,
/// behind what the bytes before them hold.
pub proof fn law_embedding_of_joined_bytes(a: Seq<u8>, b: Seq<u8>)
    requires
        a.len() % 4 == 0,
    ensures
        bytes_embedding(a + b) == bytes_embedding(a) + bytes_embedding(b),
{
    let n = a.len() as int / 4;
    assert((a + b).len() / 4 == a.len() / 4 + b.len() / 4);
    assert forall|i: int| 0 <= i < (a + b).len() / 4 implies bytes_embedding(a + b)[i] == (
    bytes_embedding(a) + bytes_embedding(b))[i] by {
        if i >= n {
            let k = i - n;
            assert(4 * i == a.len() + 4 * k);
        }
    }
    assert(bytes_embedding(a + b) =~= bytes_embedding(a) + bytes_embedding(b));
}

/// The bound on the length of an embedding leaves out nothing that can be encoded: the
/// text of an embedding of that length fits in one allocation, and that of one with a
/// number more does not.
pub proof fn law_longest_embedding(words: Seq<u32>)
    ensures
        words.len() <= MAX_EMBEDDING_LEN <==> embedding_text(words).len() <= isize::MAX,
{
    base64_codec::law_text_length(embedding_bytes(words));
}

/// What is decoded from a text that was encoded is what went in, number by number.
pub proof fn law_decoding_undoes_encoding(
    v: &[u32],
    text: String,
    s: &str,
    decoded: Result<Vec<u32>, EmbeddingError>,
)
    requires
        v@.len() <= MAX_EMBEDDING_LEN,
        call_ensures(encode_embedding, (v,), text),
        s@ == text@,
        call_ensures(decode_embedding, (s,), decoded),
    ensures
        decoded matches Ok(words) && words@ == v@,
{
}

/// Decoding the text of an embedding gives the embedding back, whatever the bit
/// patterns.
pub proof fn law_text_gives_embedding_back(words: Seq<u32>)
    ensures
        text_embedding(embedding_text(words)) == Ok::<Seq<u32>, EmbeddingError>(words),
{
    base64_codec::law_base64_gives_bytes_back(embedding_bytes(words));
    law_bytes_give_embedding_back(words);
}

/// Encoding what a text decodes to gives the base64 of the whole numbers in it. It
/// is the same text if and only if no byte is left over.
pub proof fn law_encoding_again_keeps_whole_numbers(text: Seq<char>, words: Seq<u32>)
    requires
        text_embedding(text) == Ok::<Seq<u32>, EmbeddingError>(words),
    ensures
        ({
            let bytes = base64_codec::base64_bytes(text);
            &&& embedding_text(words) == base64_codec::base64_text(
                bytes.take(4 * (bytes.len() as int / 4)),
            )
            &&& embedding_text(words) == text <==> bytes.len() % 4 == 0
        }),
{
    let bytes = base64_codec::base64_bytes(text);
    let whole = bytes.take(4 * (bytes.len() as int / 4));
    assert(bytes_embedding(whole) =~= words);
    law_embedding_gives_bytes_back(whole);
    base64_codec::law_base64_decodes_one_way(whole, bytes);
    if bytes.len() % 4 == 0 {
        assert(whole =~= bytes);
    }
}

/// The bytes of an embedding hold that embedding: nothing is lost, whatever the
/// bit patterns.
pub proof fn law_bytes_give_embedding_back(words: Seq<u32>)
    ensures
        bytes_embedding(embedding_bytes(words)) == words,
{
    let bytes = embedding_bytes(words);
    assert forall|i: int| 0 <= i < words.len() implies bytes_embedding(bytes)[i] == words[i] by {
        assert((4 * i) / 4 == i && (4 * i) % 4 == 0);
        assert((4 * i + 1) / 4 == i && (4 * i + 1) % 4 == 1);
        assert((4 * i + 2) / 4 == i && (4 * i + 2) % 4 == 2);
        assert((4 * i + 3) / 4 == i && (4 * i + 3) % 4 == 3);
    }
    assert(bytes_embedding(bytes) =~= words);
}

/// Bytes whose number is a multiple of four are the bytes of the embedding that
/// they hold, so no two of them hold the same embedding.
pub proof fn law_embedding_gives_bytes_back(bytes: Seq<u8>)
    requires
        bytes.len() % 4 == 0,
    ensures
        embedding_bytes(bytes_embedding(bytes)) == bytes,
{
    let words = bytes_embedding(bytes);
    assert forall|i: int| 0 <= i < bytes.len() implies embedding_bytes(words)[i] == bytes[i] by {
        let k = i / 4;
        let (b0, b1) = (bytes[4 * k], bytes[4 * k + 1]);
        let (b2, b3) = (bytes[4 * k + 2], bytes[4 * k + 3]);
        assert(words[k] == word_of(b0, b1, b2, b3));
        lemma_word_of_gives_its_bytes(b0, b1, b2, b3);
        assert(i == 4 * k + i % 4);
        assert(seq![b0, b1, b2, b3][i % 4] == bytes[i]);
    }
    assert(embedding_bytes(words) =~= bytes);
}

proof fn lemma_word_of_gives_its_bytes(b0: u8, b1: u8, b2: u8, b3: u8)
    ensures
        word_bytes(word_of(b0, b1, b2, b3)) == seq![b0, b1, b2, b3],
{
    let word = word_of(b0, b1, b2, b3);
    assert(word == b0 + 256 * b1 + 65536 * b2 + 16777216 * b3);
    assert(word % 256 == b0);
    assert(word / 256 == b1 + 256 * b2 + 65536 * b3);
    assert(word / 65536 == b2 + 256 * b3);
    assert(word / 16777216 == b3);
    assert(word_bytes(word) =~= seq![b0, b1, b2, b3]);
}

} // verus!
