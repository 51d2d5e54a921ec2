use adf2mp3::codec::chunk_len;
use adf2mp3::codec::process_files;
use adf2mp3::codec::transform_chunk;
use adf2mp3::codec::CHUNK_SIZE;
use adf2mp3::codec::TRANSFORM_KEY;

fn patterned(len: usize) -> Vec<u8> {
    let mut v = Vec::with_capacity(len);
    let mut i: usize = 0;
    while i < len {
        v.push((i % 251) as u8);
        i += 1;
    }
    v
}

fn xor_all(v: &Vec<u8>) -> Vec<u8> {
    v.iter().map(|b| b ^ TRANSFORM_KEY).collect()
}

#[test]
fn transform_known_bytes() {
    let input: Vec<u8> = vec![0x00, 0x22, 0xFF];
    let out = process_files(&input);
    assert_eq!(out, vec![0x22, 0x00, 0xDD]);
}

#[test]
fn empty_input_gives_empty_output() {
    let input: Vec<u8> = Vec::new();
    let out = process_files(&input);
    assert_eq!(out.len(), 0);
}

#[test]
fn length_is_preserved() {
    for len in [0usize, 1, 7, 8191, 8192, 8193, 20000] {
        let input = patterned(len);
        let out = process_files(&input);
        assert_eq!(out.len(), len);
    }
}

#[test]
fn round_trip_reproduces_input() {
    let input = patterned(20000);
    let once = process_files(&input);
    let twice = process_files(&once);
    assert_eq!(twice, input);
}

#[test]
fn chunking_matches_whole_buffer_transform() {
    for len in [0usize, 100, CHUNK_SIZE - 1, CHUNK_SIZE, CHUNK_SIZE + 1, 20000] {
        let input = patterned(len);
        let out = process_files(&input);
        assert_eq!(out, xor_all(&input));
    }
}

#[test]
fn transform_chunk_xors_in_place() {
    let mut chunk: Vec<u8> = vec![0x00, 0x22, 0xFF, 0x41];
    transform_chunk(&mut chunk);
    assert_eq!(chunk, vec![0x22, 0x00, 0xDD, 0x63]);
}

#[test]
fn transform_chunk_twice_restores() {
    let original = patterned(300);
    let mut chunk = original.clone();
    transform_chunk(&mut chunk);
    assert_ne!(chunk, original);
    transform_chunk(&mut chunk);
    assert_eq!(chunk, original);
}

#[test]
fn chunk_len_is_min_of_chunk_size_and_remaining() {
    assert_eq!(chunk_len(0), 0);
    assert_eq!(chunk_len(5), 5);
    assert_eq!(chunk_len(CHUNK_SIZE - 1), CHUNK_SIZE - 1);
    assert_eq!(chunk_len(CHUNK_SIZE), CHUNK_SIZE);
    assert_eq!(chunk_len(CHUNK_SIZE + 1), CHUNK_SIZE);
    assert_eq!(chunk_len(20000), CHUNK_SIZE);
}
