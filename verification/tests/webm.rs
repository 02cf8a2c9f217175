use bytes::Bytes;
use winnie_cam::audio::webm::{
    read_header, read_id, read_size, AudioChunk, Parse, WebmChunker, ID_CLUSTER, ID_SEGMENT,
};

/// Builds an element header: ID bytes, then a 1-byte size.
fn element(id: u32, body: &[u8]) -> Vec<u8> {
    let id_len = 4 - (id.leading_zeros() / 8) as usize;
    let mut out = Vec::new();
    out.extend_from_slice(&id.to_be_bytes()[4 - id_len..]);
    assert!(body.len() < 0x80, "test helper only emits 1-byte sizes");
    out.push(0x80 | body.len() as u8);
    out.extend_from_slice(body);
    out
}

/// A minimal but structurally real stream: EBML header, an unknown-size
/// segment, one Tracks element, then `clusters` clusters.
fn stream(clusters: &[&[u8]]) -> (Vec<u8>, Vec<u8>) {
    const ID_EBML: u32 = 0x1A45_DFA3;
    const ID_TRACKS: u32 = 0x1654_AE6B;

    let mut init = element(ID_EBML, b"hdr");
    init.extend_from_slice(&ID_SEGMENT.to_be_bytes());
    init.push(0xFF); // unknown size
    init.extend_from_slice(&element(ID_TRACKS, b"tracks"));

    let mut all = init.clone();
    for body in clusters {
        all.extend_from_slice(&element(ID_CLUSTER, body));
    }
    (init, all)
}

#[test]
fn splits_init_from_clusters() {
    let (init, all) = stream(&[b"one", b"two"]);

    let chunks = WebmChunker::new().push(&all);

    assert_eq!(
        chunks,
        vec![
            AudioChunk::Init(Bytes::from(init)),
            AudioChunk::Cluster(Bytes::from(element(ID_CLUSTER, b"one"))),
            AudioChunk::Cluster(Bytes::from(element(ID_CLUSTER, b"two"))),
        ]
    );
}

#[test]
fn emits_nothing_until_the_first_cluster_starts() {
    let (init, _) = stream(&[]);
    let mut chunker = WebmChunker::new();

    assert!(chunker.push(&init).is_empty());
}

#[test]
fn reassembles_chunks_split_across_reads() {
    let (init, all) = stream(&[b"one", b"two"]);
    let mut chunker = WebmChunker::new();

    // One byte at a time is the worst case a 64KB pipe read can produce.
    let mut chunks = Vec::new();
    for byte in &all {
        chunks.extend(chunker.push(&[*byte]));
    }

    assert_eq!(
        chunks,
        vec![
            AudioChunk::Init(Bytes::from(init)),
            AudioChunk::Cluster(Bytes::from(element(ID_CLUSTER, b"one"))),
            AudioChunk::Cluster(Bytes::from(element(ID_CLUSTER, b"two"))),
        ]
    );
}

#[test]
fn cluster_id_inside_block_data_is_not_a_boundary() {
    // The literal cluster ID as payload - what a naive byte scan would
    // split on, corrupting both halves.
    let payload = ID_CLUSTER.to_be_bytes();
    let (_, all) = stream(&[&payload]);

    let chunks = WebmChunker::new().push(&all);

    assert_eq!(chunks.len(), 2, "expected exactly one init and one cluster");
    assert_eq!(
        chunks[1],
        AudioChunk::Cluster(Bytes::from(element(ID_CLUSTER, &payload)))
    );
}

#[test]
fn resyncs_after_a_corrupt_element() {
    let (_, all) = stream(&[b"one"]);
    let good = element(ID_CLUSTER, b"two");

    let mut chunker = WebmChunker::new();
    chunker.push(&all);

    // A single stray zero byte can't start a valid EBML size.
    let chunks = chunker.push(&[0x00]);
    assert!(chunks.is_empty());

    assert_eq!(
        chunker.push(&good),
        vec![AudioChunk::Cluster(Bytes::from(good.clone()))]
    );
}

#[test]
fn reads_unknown_size_as_none() {
    match read_size(&[0xFF]) {
        Parse::Parsed((size, len)) => {
            assert_eq!(size, None);
            assert_eq!(len, 1);
        }
        _ => panic!("expected a parsed size"),
    }
}

#[test]
fn reads_multi_byte_sizes_without_the_marker_bit() {
    assert_eq!(read_size(&[0x40, 0x02]), Parse::Parsed((Some(2), 2)));
    assert_eq!(read_size(&[0x81]), Parse::Parsed((Some(1), 1)));
    assert_eq!(read_size(&[0x7F, 0xFF]), Parse::Parsed((None, 2)));
    assert_eq!(
        read_size(&[0x01, 0, 0, 0, 0, 0, 0x01, 0x00]),
        Parse::Parsed((Some(256), 8))
    );
    assert_eq!(read_size(&[0x40]), Parse::NeedMoreData);
    assert_eq!(read_size(&[]), Parse::NeedMoreData);
    assert_eq!(read_size(&[0x00]), Parse::Malformed);
}

#[test]
fn reads_ids_with_their_marker_bit() {
    assert_eq!(
        read_id(&[0x1F, 0x43, 0xB6, 0x75]),
        Parse::Parsed((ID_CLUSTER, 4))
    );
    assert_eq!(read_id(&[0xA3]), Parse::Parsed((0xA3, 1)));
    assert_eq!(read_id(&[0x1F, 0x43]), Parse::NeedMoreData);
    assert_eq!(read_id(&[0x08]), Parse::Malformed);
}

#[test]
fn a_header_is_an_id_then_a_size() {
    match read_header(&[0x1F, 0x43, 0xB6, 0x75, 0x83, 1, 2, 3]) {
        Parse::Parsed(h) => {
            assert_eq!(h.id, ID_CLUSTER);
            assert_eq!(h.len, 5);
            assert_eq!(h.size, Some(3));
        }
        _ => panic!("expected a header"),
    }
}

#[test]
fn every_chunking_of_a_stream_yields_the_same_chunks() {
    let (_, all) = stream(&[b"one", b"two", b"three"]);
    let whole = WebmChunker::new().push(&all);
    for size in 1..all.len() {
        let mut chunker = WebmChunker::new();
        let mut got = Vec::new();
        for piece in all.chunks(size) {
            got.extend(chunker.push(piece));
        }
        assert_eq!(got, whole, "chunk size {size}");
    }
}

#[test]
fn the_init_segment_comes_only_once() {
    let (init, all) = stream(&[b"one"]);
    let mut chunker = WebmChunker::new();
    let first = chunker.push(&all);
    assert_eq!(first[0], AudioChunk::Init(Bytes::from(init.clone())));
    // Later pushes only ever yield clusters.
    let again = chunker.push(&element(ID_CLUSTER, b"two"));
    assert!(again.iter().all(|c| matches!(c, AudioChunk::Cluster(_))));
}

#[test]
fn non_cluster_elements_between_clusters_are_dropped() {
    const ID_CUES: u32 = 0x1C53_BB6B;
    let (_, mut all) = stream(&[b"one"]);
    all.extend(element(ID_CUES, b"cues"));
    all.extend(element(ID_CLUSTER, b"two"));
    let chunks = WebmChunker::new().push(&all);
    assert_eq!(chunks.len(), 3);
    assert_eq!(
        chunks[2],
        AudioChunk::Cluster(Bytes::from(element(ID_CLUSTER, b"two")))
    );
}

#[test]
fn every_cluster_chunk_starts_with_the_cluster_id() {
    let (_, all) = stream(&[b"one", b"two", b"three"]);
    let mut chunker = WebmChunker::new();
    let mut chunks = Vec::new();
    for piece in all.chunks(5) {
        chunks.extend(chunker.push(piece));
    }
    assert_eq!(chunks.len(), 4);
    for chunk in &chunks[1..] {
        match chunk {
            AudioChunk::Cluster(b) => assert_eq!(&b[..4], &[0x1F, 0x43, 0xB6, 0x75]),
            AudioChunk::Init(_) => panic!("init after a cluster"),
        }
    }
}
