//! The byte-wise XOR transform and the chunked loop that drives it.

use vstd::prelude::*;

verus! {

/// The ADF obfuscation XORs every byte of the MP3 stream with this constant;
/// XORing again with it reverses the obfuscation.
pub const TRANSFORM_KEY: u8 = 34;

/// Streams are processed in chunks of at most this many bytes, so that a run
/// never needs the whole stream in memory at once.
pub const CHUNK_SIZE: usize = 8192;

/// What a single byte becomes under the transform.
pub open spec fn transform_byte_spec(b: u8) -> u8 {
    b ^ TRANSFORM_KEY
}

/// What a whole stream becomes: every byte transformed, none dropped or added.
pub open spec fn transform_seq(s: Seq<u8>) -> Seq<u8> {
    s.map_values(|b: u8| transform_byte_spec(b))
}

/// The transform is its own inverse on every byte.
pub proof fn lemma_byte_round_trip(b: u8)
    ensures
        transform_byte_spec(transform_byte_spec(b)) == b,
{
    assert((b ^ 34) ^ 34 == b) by (bit_vector);
}

/// Transforming a stream twice reproduces it byte for byte.
pub proof fn lemma_seq_round_trip(s: Seq<u8>)
    ensures
        transform_seq(transform_seq(s)) == s,
{
    assert forall|i: int| 0 <= i < s.len() implies transform_seq(transform_seq(s))[i] == s[i] by {
        lemma_byte_round_trip(s[i]);
    }
    assert(transform_seq(transform_seq(s)) =~= s);
}

/// Splitting a stream at any point and transforming the parts separately
/// gives the same bytes as transforming the whole stream: chunking is not
/// observable in the output.
pub proof fn lemma_transform_concat(a: Seq<u8>, b: Seq<u8>)
    ensures
        transform_seq(a + b) == transform_seq(a) + transform_seq(b),
{
    assert(transform_seq(a + b) =~= transform_seq(a) + transform_seq(b));
}

/// Transforms one chunk in place, keeping its length.
pub fn transform_chunk(chunk: &mut Vec<u8>)
    ensures
        final(chunk)@ == transform_seq(old(chunk)@),
{
    let n = chunk.len();
    let mut i: usize = 0;
    while i < n
        invariant
            i <= n,
            n == chunk@.len(),
            chunk@.len() == old(chunk)@.len(),
            forall|j: int| 0 <= j < i ==> chunk@[j] == transform_byte_spec(old(chunk)@[j]),
            forall|j: int| i <= j < n ==> chunk@[j] == old(chunk)@[j],
        decreases n - i,
    {
        let b = chunk[i];
        chunk.set(i, b ^ TRANSFORM_KEY);
        i += 1;
    }
    assert(chunk@ =~= transform_seq(old(chunk)@));
}

/// How many bytes the next loop iteration handles: a full chunk, or all the
/// bytes that are left when fewer than a chunk remain.
pub fn chunk_len(bytes_left: usize) -> (n: usize)
    ensures
        n == if bytes_left < CHUNK_SIZE { bytes_left as int } else { CHUNK_SIZE as int },
        n <= bytes_left,
        bytes_left > 0 ==> n > 0,
{
    if bytes_left < CHUNK_SIZE {
        bytes_left
    } else {
        CHUNK_SIZE
    }
}

/// The whole transform as one in-memory run: the same chunked loop a caller
/// uses over file handles, applied to a buffer. The output has exactly the
/// input's length, and every byte is the transform of the input byte at the
/// same position.
pub fn process_files(input: &Vec<u8>) -> (out: Vec<u8>)
    ensures
        out@ == transform_seq(input@),
        out@.len() == input@.len(),
{
    let in_len = input.len();
    let mut out: Vec<u8> = Vec::new();
    let mut bytes_processed: usize = 0;
    while bytes_processed != in_len
        invariant
            bytes_processed <= in_len,
            in_len == input@.len(),
            out@ == transform_seq(input@.take(bytes_processed as int)),
        decreases in_len - bytes_processed,
    {
        let bytes_left = in_len - bytes_processed;
        let bytes_this_iteration = chunk_len(bytes_left);
        let mut chunk: Vec<u8> = Vec::new();
        let mut j: usize = 0;
        while j < bytes_this_iteration
            invariant
                j <= bytes_this_iteration,
                bytes_processed + bytes_this_iteration <= in_len,
                in_len == input@.len(),
                chunk@ == input@.subrange(bytes_processed as int, bytes_processed + j),
            decreases bytes_this_iteration - j,
        {
            chunk.push(input[bytes_processed + j]);
            proof {
                assert(chunk@ =~= input@.subrange(bytes_processed as int, bytes_processed + j + 1));
            }
            j += 1;
        }
        transform_chunk(&mut chunk);
        proof {
            let p = bytes_processed as int;
            let q = p + bytes_this_iteration as int;
            lemma_transform_concat(input@.take(p), input@.subrange(p, q));
            assert(input@.take(p) + input@.subrange(p, q) =~= input@.take(q));
        }
        out.append(&mut chunk);
        bytes_processed += bytes_this_iteration;
    }
    proof {
        assert(input@.take(in_len as int) =~= input@);
    }
    out
}

} // verus!
