use ingest::framing::{frame_chunks, FrameBuffer};

fn frames_of(chunks: &[&[u8]]) -> (Vec<Vec<u8>>, Vec<u8>) {
    let owned: Vec<Vec<u8>> = chunks.iter().map(|c| c.to_vec()).collect();
    frame_chunks(&owned)
}

#[test]
fn whole_body_frames_by_newline() {
    let (frames, rest) = frames_of(&[b"ab\ncd\n\nef"]);
    assert_eq!(frames, vec![b"ab".to_vec(), b"cd".to_vec(), b"".to_vec()]);
    assert_eq!(rest, b"ef".to_vec());
}

#[test]
fn every_split_point_gives_the_same_frames() {
    let body: &[u8] = b"{\"a\":1}\n{\"b\":22}\n{\"c\":333}\n{\"d\"";
    let whole = frames_of(&[body]);
    for i in 0..=body.len() {
        for j in i..=body.len() {
            let split = frames_of(&[&body[..i], &body[i..j], &body[j..]]);
            assert_eq!(split, whole, "split at {} and {}", i, j);
        }
    }
}

#[test]
fn byte_by_byte_chunks_give_the_same_frames() {
    let body: &[u8] = b"one\ntwo\nthree\n";
    let singles: Vec<&[u8]> = (0..body.len()).map(|i| &body[i..i + 1]).collect();
    assert_eq!(frames_of(&singles), frames_of(&[body]));
    assert_eq!(frames_of(&singles).0.len(), 3);
}

#[test]
fn push_chunk_keeps_partial_frame() {
    let mut buf = FrameBuffer::new();
    assert!(buf.push_chunk(b"par").is_empty());
    assert_eq!(buf.push_chunk(b"tial\nnext"), vec![b"partial".to_vec()]);
    assert_eq!(buf.pending, b"next".to_vec());
    assert_eq!(buf.finish(), Err(b"next".to_vec()));
}

#[test]
fn finish_on_frame_boundary() {
    let mut buf = FrameBuffer::new();
    assert_eq!(buf.push_chunk(b"x\n").len(), 1);
    assert_eq!(buf.finish(), Ok(()));
}

#[test]
fn empty_stream_has_no_frames() {
    let (frames, rest) = frames_of(&[]);
    assert!(frames.is_empty());
    assert!(rest.is_empty());
}
