//! Word-granular view of remote memory: a buffer is read as whole machine
//! words, and written back as whole words, the last one merged with what is
//! resident so that bytes past the buffer keep their value.
use vstd::prelude::*;

verus! {

/// Width in bytes of the unit that the tracing interface exchanges.
pub const WORD_SIZE: usize = 8;

/// The eight bytes of `w`, least significant first.
pub open spec fn le_bytes(w: u64) -> Seq<u8> {
    seq![
        (w & 0xff) as u8,
        ((w >> 8u64) & 0xff) as u8,
        ((w >> 16u64) & 0xff) as u8,
        ((w >> 24u64) & 0xff) as u8,
        ((w >> 32u64) & 0xff) as u8,
        ((w >> 40u64) & 0xff) as u8,
        ((w >> 48u64) & 0xff) as u8,
        ((w >> 56u64) & 0xff) as u8,
    ]
}

/// The word whose bytes, least significant first, are `b[0..8]`.
pub open spec fn le_word(b: Seq<u8>) -> u64 {
    (b[0] as u64) | ((b[1] as u64) << 8u64) | ((b[2] as u64) << 16u64) | ((b[3] as u64)
        << 24u64) | ((b[4] as u64) << 32u64) | ((b[5] as u64) << 40u64) | ((b[6] as u64)
        << 48u64) | ((b[7] as u64) << 56u64)
}

/// Number of words that cover `len` bytes.
pub open spec fn word_count(len: nat) -> nat {
    if len % 8 == 0 {
        len / 8
    } else {
        len / 8 + 1
    }
}

/// The bytes of `words`, one word after the other.
pub open spec fn flatten(words: Seq<u64>) -> Seq<u8>
    decreases words.len(),
{
    if words.len() == 0 {
        Seq::empty()
    } else {
        flatten(words.drop_last()) + le_bytes(words.last())
    }
}

/// The first `len` bytes of `words`.
pub open spec fn bytes_of_words(words: Seq<u64>, len: nat) -> Seq<u8> {
    flatten(words).take(len as int)
}

/// The word stored at the `i`-th word of a buffer `bytes` when the word
/// resident there is `resident`: the bytes of `bytes` that fall in it, then
/// the resident bytes beyond the end of `bytes`.
pub open spec fn merged_word(bytes: Seq<u8>, i: int, resident: u64) -> u64 {
    let lo = 8 * i;
    if lo + 8 <= bytes.len() {
        le_word(bytes.subrange(lo, lo + 8))
    } else {
        le_word(bytes.subrange(lo, bytes.len() as int) + le_bytes(resident).skip(bytes.len() - lo))
    }
}

/// Encoding a word as bytes and decoding them gives the word back.
pub proof fn lemma_le_word_of_bytes(w: u64)
    ensures
        le_word(le_bytes(w)) == w,
{
    let b = le_bytes(w);
    assert(le_word(b) == ((w & 0xff) as u8 as u64) | ((((w >> 8u64) & 0xff) as u8 as u64) << 8u64)
        | ((((w >> 16u64) & 0xff) as u8 as u64) << 16u64) | ((((w >> 24u64) & 0xff) as u8 as u64)
        << 24u64) | ((((w >> 32u64) & 0xff) as u8 as u64) << 32u64) | ((((w >> 40u64) & 0xff) as u8
        as u64) << 40u64) | ((((w >> 48u64) & 0xff) as u8 as u64) << 48u64) | ((((w >> 56u64)
        & 0xff) as u8 as u64) << 56u64));
    assert(((w & 0xff) as u8 as u64) | ((((w >> 8u64) & 0xff) as u8 as u64) << 8u64) | ((((w
        >> 16u64) & 0xff) as u8 as u64) << 16u64) | ((((w >> 24u64) & 0xff) as u8 as u64)
        << 24u64) | ((((w >> 32u64) & 0xff) as u8 as u64) << 32u64) | ((((w >> 40u64) & 0xff) as u8
        as u64) << 40u64) | ((((w >> 48u64) & 0xff) as u8 as u64) << 48u64) | ((((w >> 56u64)
        & 0xff) as u8 as u64) << 56u64) == w) by (bit_vector);
}

/// Each word contributes its eight bytes at its own place.
pub proof fn lemma_flatten_index(words: Seq<u64>)
    ensures
        flatten(words).len() == 8 * words.len(),
        forall|j: int|
            0 <= j < 8 * words.len() ==> #[trigger] flatten(words)[j] == le_bytes(words[j / 8])[j
                % 8],
    decreases words.len(),
{
    if words.len() > 0 {
        let init = words.drop_last();
        lemma_flatten_index(init);
        assert forall|j: int| 0 <= j < 8 * words.len() implies #[trigger] flatten(words)[j]
            == le_bytes(words[j / 8])[j % 8] by {
            if j < 8 * init.len() {
                assert(init[j / 8] == words[j / 8]);
            } else {
                assert(j / 8 == words.len() - 1);
            }
        }
    }
}

/// Reading a buffer as words and writing the same bytes back stores, at every
/// word, the word that was read there: the trailing partial word keeps its
/// resident high bytes, so memory past the buffer is left as it was.
pub proof fn lemma_write_back_read_bytes(words: Seq<u64>, len: nat)
    requires
        words.len() == word_count(len),
    ensures
        forall|i: int|
            0 <= i < words.len() ==> #[trigger] merged_word(
                bytes_of_words(words, len),
                i,
                words.last(),
            ) == words[i],
{
    assert forall|i: int| 0 <= i < words.len() implies #[trigger] merged_word(
        bytes_of_words(words, len),
        i,
        words.last(),
    ) == words[i] by {
        lemma_write_back_read_word(words, len, i);
        if 8 * i + 8 > len {
            assert(i == words.len() - 1);
        }
    }
}

proof fn lemma_write_back_read_word(words: Seq<u64>, len: nat, i: int)
    requires
        words.len() == word_count(len),
        0 <= i < words.len(),
    ensures
        merged_word(bytes_of_words(words, len), i, words[i]) == words[i],
        8 * i + 8 <= len ==> forall|resident: u64|
            merged_word(bytes_of_words(words, len), i, resident) == words[i],
{
    let bytes = bytes_of_words(words, len);
    lemma_flatten_index(words);
    let lo = 8 * i;
    assert(len <= 8 * words.len());
    assert(bytes.len() == len);
    if lo + 8 <= bytes.len() {
        assert(bytes.subrange(lo, lo + 8) =~= le_bytes(words[i])) by {
            assert forall|k: int| 0 <= k < 8 implies bytes.subrange(lo, lo + 8)[k] == le_bytes(
                words[i],
            )[k] by {
                assert(flatten(words)[lo + k] == le_bytes(words[(lo + k) / 8])[(lo + k) % 8]);
                assert((lo + k) / 8 == i && (lo + k) % 8 == k);
            }
        }
    } else {
        assert(lo < len);
        let merged = bytes.subrange(lo, bytes.len() as int) + le_bytes(words[i]).skip(
            bytes.len() - lo,
        );
        assert(merged =~= le_bytes(words[i])) by {
            assert forall|k: int| 0 <= k < 8 implies merged[k] == le_bytes(words[i])[k] by {
                if lo + k < len {
                    assert(flatten(words)[lo + k] == le_bytes(words[(lo + k) / 8])[(lo + k) % 8]);
                    assert((lo + k) / 8 == i && (lo + k) % 8 == k);
                }
            }
        }
    }
    lemma_le_word_of_bytes(words[i]);
}

/// The eight bytes of `w`, least significant first.
pub fn word_bytes(w: u64) -> (r: Vec<u8>)
    ensures
        r@ == le_bytes(w),
{
    let r = vec![
        (w & 0xff) as u8,
        ((w >> 8u64) & 0xff) as u8,
        ((w >> 16u64) & 0xff) as u8,
        ((w >> 24u64) & 0xff) as u8,
        ((w >> 32u64) & 0xff) as u8,
        ((w >> 40u64) & 0xff) as u8,
        ((w >> 48u64) & 0xff) as u8,
        ((w >> 56u64) & 0xff) as u8,
    ];
    assert(r@ =~= le_bytes(w));
    r
}

/// The word whose bytes, least significant first, are `b`.
pub fn word_from_bytes(b: &[u8]) -> (r: u64)
    requires
        b@.len() == 8,
    ensures
        r == le_word(b@),
{
    (b[0] as u64) | ((b[1] as u64) << 8u64) | ((b[2] as u64) << 16u64) | ((b[3] as u64) << 24u64)
        | ((b[4] as u64) << 32u64) | ((b[5] as u64) << 40u64) | ((b[6] as u64) << 48u64) | ((
    b[7] as u64) << 56u64)
}

/// The first `len` bytes of `words`, one word after the other.
pub fn bytes_from_words(words: &[u64], len: usize) -> (r: Vec<u8>)
    requires
        len <= 8 * words@.len(),
    ensures
        r@ == bytes_of_words(words@, len as nat),
{
    proof {
        lemma_flatten_index(words@);
    }
    let mut out: Vec<u8> = Vec::new();
    let mut i: usize = 0;
    while out.len() < len
        invariant
            len <= 8 * words@.len(),
            out@.len() <= len,
            i <= 8 * words@.len(),
            out@.len() == i,
            flatten(words@).len() == 8 * words@.len(),
            forall|j: int|
                0 <= j < 8 * words@.len() ==> #[trigger] flatten(words@)[j] == le_bytes(
                    words@[j / 8],
                )[j % 8],
            forall|j: int| 0 <= j < i ==> out@[j] == flatten(words@)[j],
        decreases len - out@.len(),
    {
        let w = words[i / 8];
        let b = word_bytes(w);
        let byte = b[i % 8];
        assert(flatten(words@)[i as int] == le_bytes(words@[i as int / 8])[i as int % 8]);
        out.push(byte);
        i = i + 1;
    }
    assert(out@ =~= bytes_of_words(words@, len as nat));
    out
}

/// The word to store at the `i`-th word of `bytes` when `resident` is the word
/// there now.
pub fn merge_word(bytes: &[u8], i: usize, resident: u64) -> (r: u64)
    requires
        8 * i < bytes@.len(),
    ensures
        r == merged_word(bytes@, i as int, resident),
{
    let n = bytes.len();
    let lo = 8 * i;
    let old_bytes = word_bytes(resident);
    let mut chunk: Vec<u8> = Vec::new();
    let mut k: usize = 0;
    while k < 8
        invariant
            n == bytes@.len(),
            lo == 8 * i,
            lo < bytes@.len(),
            old_bytes@ == le_bytes(resident),
            k <= 8,
            chunk@.len() == k,
            forall|j: int|
                0 <= j < k ==> chunk@[j] == if lo + j < bytes@.len() {
                    bytes@[lo + j]
                } else {
                    le_bytes(resident)[j]
                },
        decreases 8 - k,
    {
        if k < n - lo {
            chunk.push(bytes[lo + k]);
        } else {
            chunk.push(old_bytes[k]);
        }
        k = k + 1;
    }
    if 8 <= n - lo {
        assert(chunk@ =~= bytes@.subrange(lo as int, lo + 8));
    } else {
        assert(chunk@ =~= bytes@.subrange(lo as int, bytes@.len() as int) + le_bytes(resident).skip(
            bytes@.len() - lo,
        ));
    }
    word_from_bytes(chunk.as_slice())
}

/// The words that store `bytes` from the start of a word: each whole word
/// of `bytes` as it is, and a trailing partial word merged over `resident`,
/// the word now in its place.
pub fn words_to_store(bytes: &[u8], resident: u64) -> (r: Vec<u64>)
    ensures
        r@.len() == word_count(bytes@.len()),
        forall|i: int| 0 <= i < r@.len() ==> r@[i] == merged_word(bytes@, i, resident),
{
    let n = bytes.len();
    let count = if n % WORD_SIZE == 0 {
        n / WORD_SIZE
    } else {
        n / WORD_SIZE + 1
    };
    let mut out: Vec<u64> = Vec::new();
    let mut i: usize = 0;
    while i < count
        invariant
            n == bytes@.len(),
            count == word_count(n as nat),
            i <= count,
            out@.len() == i,
            forall|j: int| 0 <= j < i ==> out@[j] == merged_word(bytes@, j, resident),
        decreases count - i,
    {
        out.push(merge_word(bytes, i, resident));
        i = i + 1;
    }
    out
}

} // verus!
