//! Binary STL layout: an 80-byte header (fixed signature text, zero
//! padded), a little-endian 32-bit face count, and one 50-byte record per
//! face. A record is twelve little-endian 32-bit words (the normal and the
//! three vertices, one word per scalar) followed by a two-byte spacer.
//!
//! The scalars of the records arrive here already converted to their
//! 32-bit wire words; this module is only about the byte layout, and its
//! contracts pin it down to the byte.

use vstd::prelude::*;

verus! {

/// The four bytes of a 32-bit word, least significant first.
pub open spec fn u32_le_bytes(x: u32) -> Seq<u8> {
    seq![
        (x % 256) as u8,
        ((x / 256) % 256) as u8,
        ((x / 0x1_0000) % 256) as u8,
        ((x / 0x100_0000) % 256) as u8,
    ]
}

/// The signature text that opens the header.
pub open spec fn header_text() -> Seq<u8> {
    // "pattern roller" in ASCII
    seq![
        0x70u8,
        0x61u8,
        0x74u8,
        0x74u8,
        0x65u8,
        0x72u8,
        0x6eu8,
        0x20u8,
        0x72u8,
        0x6fu8,
        0x6cu8,
        0x6cu8,
        0x65u8,
        0x72u8,
    ]
}

/// The first 84 bytes of the file: the signature padded with zeros to 80
/// bytes, then the face count.
pub open spec fn stl_header(n_faces: u32) -> Seq<u8> {
    header_text() + Seq::new(66, |i: int| 0u8) + u32_le_bytes(n_faces)
}

/// Each word of the sequence as its four little-endian bytes, in order.
pub open spec fn words_le_bytes(words: Seq<u32>) -> Seq<u8>
    decreases words.len(),
{
    if words.len() == 0 {
        Seq::empty()
    } else {
        u32_le_bytes(words[0]) + words_le_bytes(words.skip(1))
    }
}

/// One 50-byte face record: twelve words and the two-byte spacer.
pub open spec fn face_record_bytes(words: Seq<u32>) -> Seq<u8> {
    words_le_bytes(words) + seq![0u8, 0u8]
}

/// The records of the first `count` faces, each drawing its twelve words
/// from the flat word sequence.
pub open spec fn stl_records(words: Seq<u32>, count: int) -> Seq<u8>
    decreases count,
{
    if count <= 0 {
        Seq::empty()
    } else {
        stl_records(words, count - 1) + face_record_bytes(
            words.subrange(12 * (count - 1), 12 * count),
        )
    }
}

/// The whole file: header, count, and records.
pub open spec fn stl_bytes(n_faces: u32, words: Seq<u32>) -> Seq<u8> {
    stl_header(n_faces) + stl_records(words, n_faces as int)
}

/// Word-to-byte expansion grows by four bytes per word appended.
proof fn lemma_words_le_snoc(words: Seq<u32>, word: u32)
    ensures
        words_le_bytes(words.push(word)) == words_le_bytes(words) + u32_le_bytes(word),
    decreases words.len(),
{
    if words.len() == 0 {
        assert(words.push(word)[0] == word);
        assert(words.push(word).skip(1) =~= Seq::<u32>::empty());
        assert(words_le_bytes(words.push(word)) == u32_le_bytes(word) + words_le_bytes(
            Seq::<u32>::empty(),
        ));
        assert(words_le_bytes(words.push(word)) =~= words_le_bytes(words) + u32_le_bytes(word));
    } else {
        assert(words.push(word)[0] == words[0]);
        assert(words.push(word).skip(1) =~= words.skip(1).push(word));
        lemma_words_le_snoc(words.skip(1), word);
        assert(words_le_bytes(words.push(word)) == u32_le_bytes(words[0]) + (words_le_bytes(
            words.skip(1),
        ) + u32_le_bytes(word)));
        assert(words_le_bytes(words.push(word)) =~= words_le_bytes(words) + u32_le_bytes(word));
    }
}

/// Word-to-byte expansion is four bytes per word.
proof fn lemma_words_le_len(words: Seq<u32>)
    ensures
        words_le_bytes(words).len() == 4 * words.len(),
    decreases words.len(),
{
    if words.len() > 0 {
        lemma_words_le_len(words.skip(1));
    }
}

/// The record stream is fifty bytes per face.
proof fn lemma_stl_records_len(words: Seq<u32>, count: int)
    requires
        0 <= count,
        12 * count <= words.len(),
    ensures
        stl_records(words, count).len() == 50 * count,
    decreases count,
{
    if count > 0 {
        lemma_stl_records_len(words, count - 1);
        lemma_words_le_len(words.subrange(12 * (count - 1), 12 * count));
    }
}

/// The size of a serialized file is exactly `84 + 50 * n_faces` bytes:
/// the 80-byte header, the 4-byte count, and one 50-byte record per face
/// the header promises.
pub proof fn lemma_stl_size(n_faces: u32, words: Seq<u32>)
    requires
        words.len() == 12 * n_faces,
    ensures
        stl_bytes(n_faces, words).len() == 84 + 50 * n_faces,
{
    lemma_stl_records_len(words, n_faces as int);
}

/// Append a word as its four little-endian bytes.
fn push_u32_le(bytes: &mut Vec<u8>, word: u32)
    ensures
        final(bytes)@ == old(bytes)@ + u32_le_bytes(word),
{
    bytes.push((word % 256) as u8);
    bytes.push(((word / 256) % 256) as u8);
    bytes.push(((word / 0x1_0000) % 256) as u8);
    bytes.push(((word / 0x100_0000) % 256) as u8);
    proof {
        assert(final(bytes)@ =~= old(bytes)@ + u32_le_bytes(word));
    }
}

/// Serialize a face stream: `n_faces` records of twelve 32-bit scalar
/// words each, behind the 80-byte header and the face count. The result is
/// the exact byte layout of a binary STL file, `84 + 50 * n_faces` bytes
/// long.
pub fn encode_stl(n_faces: u32, words: &Vec<u32>) -> (bytes: Vec<u8>)
    requires
        words@.len() == 12 * n_faces,
    ensures
        bytes@ == stl_bytes(n_faces, words@),
        bytes@.len() == 84 + 50 * n_faces,
{
    let mut bytes: Vec<u8> = vec![
        0x70u8,
        0x61u8,
        0x74u8,
        0x74u8,
        0x65u8,
        0x72u8,
        0x6eu8,
        0x20u8,
        0x72u8,
        0x6fu8,
        0x6cu8,
        0x6cu8,
        0x65u8,
        0x72u8,
    ];
    proof {
        assert(bytes@ =~= header_text() + Seq::new(0, |i: int| 0u8));
    }
    while bytes.len() < 80
        invariant
            14 <= bytes@.len() <= 80,
            bytes@ == header_text() + Seq::new((bytes@.len() - 14) as nat, |i: int| 0u8),
        decreases 80 - bytes@.len(),
    {
        bytes.push(0u8);
        proof {
            assert(bytes@ =~= header_text() + Seq::new((bytes@.len() - 14) as nat, |i: int| 0u8));
        }
    }
    push_u32_le(&mut bytes, n_faces);
    proof {
        assert(bytes@ =~= stl_header(n_faces) + stl_records(words@, 0));
    }
    let mut face: usize = 0;
    while face < n_faces as usize
        invariant
            0 <= face <= n_faces,
            words@.len() == 12 * n_faces,
            bytes@ == stl_header(n_faces) + stl_records(words@, face as int),
        decreases n_faces - face,
    {
        let ghost before_record = bytes@;
        let total_words: usize = words.len();
        let base: usize = 12 * face;
        let mut w: usize = 0;
        while w < 12
            invariant
                0 <= w <= 12,
                base == 12 * face,
                face < n_faces,
                words@.len() == 12 * n_faces,
                bytes@ == before_record + words_le_bytes(
                    words@.subrange(base as int, base + w),
                ),
            decreases 12 - w,
        {
            proof {
                assert(12 * face + 12 <= 12 * (n_faces as int)) by (nonlinear_arith)
                    requires
                        face < n_faces,
                ;
                assert(words@.subrange(base as int, base + w + 1) =~= words@.subrange(
                    base as int,
                    base + w,
                ).push(words@[base + w]));
                lemma_words_le_snoc(
                    words@.subrange(base as int, base + w),
                    words@[base + w as int],
                );
            }
            let word: u32 = words[base + w];
            push_u32_le(&mut bytes, word);
            w = w + 1;
        }
        bytes.push(0u8);
        bytes.push(0u8);
        proof {
            assert(words@.subrange(base as int, base + 12) =~= words@.subrange(
                12 * (face as int),
                12 * (face as int + 1),
            ));
            assert(bytes@ =~= stl_header(n_faces) + stl_records(words@, face as int + 1));
        }
        face = face + 1;
    }
    proof {
        lemma_stl_size(n_faces, words@);
    }
    bytes
}

} // verus!
