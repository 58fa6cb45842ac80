//! Shader code as the GPU takes it: 32-bit words read from the bytes of a
//! compiled shader.
use vstd::prelude::*;

verus! {

/// The little-endian 32-bit word at byte `k` of `b`.
pub open spec fn le_word(b: Seq<u8>, k: int) -> int {
    b[k] + 256 * b[k + 1] + 65536 * b[k + 2] + 16777216 * b[k + 3]
}

/// The big-endian 32-bit word at byte `k` of `b`.
pub open spec fn be_word(b: Seq<u8>, k: int) -> int {
    16777216 * b[k] + 65536 * b[k + 1] + 256 * b[k + 2] + b[k + 3]
}

/// The 32-bit word at byte `k` of `b`, read little-endian when `little`,
/// else big-endian.
pub open spec fn word_at(b: Seq<u8>, k: int, little: bool) -> int {
    if little {
        le_word(b, k)
    } else {
        be_word(b, k)
    }
}

/// `words` are the words of `b` in one byte order, little-endian when
/// `little`.
pub open spec fn words_in_order(words: Seq<u32>, b: Seq<u8>, little: bool) -> bool {
    forall|i: int| 0 <= i < words.len() ==> #[trigger] words[i] == word_at(b, 4 * i, little)
}

/// `u32::from_ne_bytes([1, 0, 0, 0])`: the std documentation says the bytes
/// are read in the machine's native byte order, so the result is 1 on a
/// little-endian machine and `1 << 24` on a big-endian one. Which of the two
/// it is depends on the machine and is left open.
#[verifier::external_body]
fn native_word_of_first_byte() -> (r: u32)
    ensures
        r == 1 || r == 16777216,
{
    u32::from_ne_bytes([1, 0, 0, 0])
}

/// The words of `bytes` in the byte order given by `little` (little-endian
/// when true, big-endian when false): four bytes each; trailing bytes that do
/// not fill a word are dropped.
pub fn words_in_byte_order(bytes: &[u8], little: bool) -> (r: Vec<u32>)
    ensures
        r@.len() == bytes@.len() / 4,
        words_in_order(r@, bytes@, little),
{
    let len: usize = bytes.len();
    let n: usize = len / 4;
    assert(4 * n <= bytes@.len()) by (nonlinear_arith)
        requires
            n == bytes@.len() / 4,
    ;
    let mut r: Vec<u32> = Vec::new();
    let mut i: usize = 0;
    while i < n
        invariant
            n == bytes@.len() / 4,
            4 * n <= bytes@.len(),
            len == bytes@.len(),
            i <= n,
            r@.len() == i,
            forall|j: int| 0 <= j < i ==> #[trigger] r@[j] == word_at(bytes@, 4 * j, little),
        decreases n - i,
    {
        let k: usize = 4 * i;
        let w: u32 = if little {
            bytes[k] as u32 + 256 * (bytes[k + 1] as u32) + 65536 * (bytes[k + 2] as u32)
                + 16777216 * (bytes[k + 3] as u32)
        } else {
            16777216 * (bytes[k] as u32) + 65536 * (bytes[k + 1] as u32) + 256 * (bytes[k + 2] as u32)
                + bytes[k + 3] as u32
        };
        r.push(w);
        i = i + 1;
    }
    r
}

/// The words of `bytes` as the machine reads them from memory: four bytes
/// each, in the machine's native byte order (one order for all words);
/// trailing bytes that do not fill a word are dropped. The order is the one
/// in which the machine reads the bytes `[1, 0, 0, 0]` as the word 1
/// (little-endian) or as `1 << 24` (big-endian).
pub fn to_u32_slice(bytes: &[u8]) -> (r: Vec<u32>)
    ensures
        r@.len() == bytes@.len() / 4,
        exists|little: bool| #[trigger] words_in_order(r@, bytes@, little),
{
    let little = native_word_of_first_byte() == 1;
    words_in_byte_order(bytes, little)
}

} // verus!
