use gifp4::page::{page_response, PageStream, PAGE_HEAD, PAGE_MID, PAGE_TAIL};

fn drain(mut stream: PageStream<'_>) -> (Vec<u8>, usize) {
    let mut out: Vec<u8> = Vec::new();
    let mut chunks: usize = 0;
    while let Some(chunk) = stream.next_chunk() {
        out.extend_from_slice(chunk);
        chunks += 1;
    }
    // a drained stream stays drained
    assert!(stream.next_chunk().is_none());
    (out, chunks)
}

#[test]
fn page_chains_fragments_around_both_values() {
    let stream = page_response("111/a.gif", "111/a.mp4");
    let (bytes, _) = drain(stream);
    let expected = format!(
        "{}{}{}{}{}",
        PAGE_HEAD, "111/a.gif", PAGE_MID, "111/a.mp4", PAGE_TAIL
    );
    assert_eq!(bytes, expected.into_bytes());
}

#[test]
fn page_is_five_chunks_read_once() {
    let stream = page_response("p", "v");
    let (_, chunks) = drain(stream);
    assert_eq!(chunks, 5);
}

#[test]
fn empty_values_still_produce_the_template() {
    let stream = page_response("", "");
    let (bytes, _) = drain(stream);
    let expected = format!("{}{}{}", PAGE_HEAD, PAGE_MID, PAGE_TAIL);
    assert_eq!(bytes, expected.into_bytes());
}

#[test]
fn custom_sources_chain_in_order() {
    let stream = PageStream::new(b"one|", b"two|", b"three|", b"four|", b"five");
    let (bytes, chunks) = drain(stream);
    assert_eq!(bytes, b"one|two|three|four|five".to_vec());
    assert_eq!(chunks, 5);
}
