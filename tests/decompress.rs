use decom::io::{take_chunk, Decompressor, Prefixed, Replay};
use decom::{Error, Format};
use std::io::{Read, Write};

const RAW: &str = "Lorem ipsum dolor sit amet, consectetur adipiscing elit, sed do eiusmod \
tempor incididunt ut labore et dolore magna aliqua. Ut enim ad minim veniam, quis nostrud \
exercitation ullamco laboris nisi ut aliquip ex ea commodo consequat. Duis aute irure dolor \
in reprehenderit in voluptate velit esse cillum dolore eu fugiat nulla pariatur. Excepteur \
sint occaecat cupidatat non proident, sunt in culpa qui officia deserunt mollit anim id est \
laborum.\n";

fn raw() -> Vec<u8> {
    let mut out = Vec::new();
    for _ in 0..50 {
        out.extend_from_slice(RAW.as_bytes());
    }
    out
}

fn gzip(data: &[u8]) -> Vec<u8> {
    let mut e = flate2::write::GzEncoder::new(Vec::new(), flate2::Compression::default());
    e.write_all(data).unwrap();
    e.finish().unwrap()
}

fn zlib_at(data: &[u8], level: flate2::Compression) -> Vec<u8> {
    let mut e = flate2::write::ZlibEncoder::new(Vec::new(), level);
    e.write_all(data).unwrap();
    e.finish().unwrap()
}

fn zlib(data: &[u8]) -> Vec<u8> {
    zlib_at(data, flate2::Compression::default())
}

fn zstd_of(data: &[u8]) -> Vec<u8> {
    zstd::encode_all(data, 0).unwrap()
}

fn lz4(data: &[u8]) -> Vec<u8> {
    let mut e = lz4_flex::frame::FrameEncoder::new(Vec::new());
    e.write_all(data).unwrap();
    e.finish().unwrap()
}

fn samples() -> Vec<(Vec<u8>, Format)> {
    let r = raw();
    vec![
        (lz4(&r), Format::Lz4),
        (zstd_of(&r), Format::Zstd),
        (zlib(&r), Format::Zlib),
        (gzip(&r), Format::Gzip),
    ]
}

fn open<R: Read>(reader: R) -> Decompressor<R> {
    match Decompressor::try_new(reader) {
        Ok(d) => d,
        Err(e) => panic!("construction failed: {:?}", e),
    }
}

fn read_all<R: Read>(d: &mut Decompressor<R>) -> Vec<u8> {
    let mut out = Vec::new();
    d.read_to_end(&mut out).unwrap();
    out
}

fn check_read(data: &[u8]) {
    let mut d = open(data);
    assert_eq!(read_all(&mut d), raw());
}

fn unsupported_bytes(r: Result<Decompressor<&[u8]>, Error>) -> Vec<u8> {
    match r {
        Err(Error::UnsupportedFormat { magic_bytes }) => magic_bytes,
        Err(e) => panic!("unexpected error: {:?}", e),
        Ok(_) => panic!("construction succeeded"),
    }
}

/// A source that hands out one byte per read.
struct Trickle {
    bytes: Vec<u8>,
    pos: usize,
}

impl Read for Trickle {
    fn read(&mut self, buf: &mut [u8]) -> std::io::Result<usize> {
        if self.pos >= self.bytes.len() || buf.is_empty() {
            return Ok(0);
        }
        buf[0] = self.bytes[self.pos];
        self.pos += 1;
        Ok(1)
    }
}

#[test]
fn test_lz4() {
    check_read(&lz4(&raw()));
}

#[test]
fn test_zstd() {
    check_read(&zstd_of(&raw()));
}

#[test]
fn test_zlib() {
    check_read(&zlib(&raw()));
}

#[test]
fn test_gzip() {
    check_read(&gzip(&raw()));
}

#[test]
fn test_all() {
    let supported: Vec<Vec<u8>> = samples().into_iter().map(|(b, _)| b).collect();
    let unsupported: Vec<Vec<u8>> = Vec::new();
    for s in supported {
        check_read(&s);
    }
    for u in unsupported {
        assert!(Decompressor::try_new(&u[..]).is_err());
    }
}

#[test]
fn format_tag_of_each_sample() {
    for (bytes, format) in samples() {
        let d = open(&bytes[..]);
        assert_eq!(d.format(), format);
    }
}

#[test]
fn zero_bytes_are_rejected() {
    let data = [0u8, 0, 0, 0, 1, 2, 3];
    assert_eq!(unsupported_bytes(Decompressor::try_new(&data[..])), vec![0, 0, 0, 0]);
}

#[test]
fn unknown_magic_is_rejected_with_its_bytes() {
    let data = [0xAAu8, 0xBB, 0xCC, 0xDD];
    assert_eq!(unsupported_bytes(Decompressor::try_new(&data[..])), vec![0xAA, 0xBB, 0xCC, 0xDD]);
}

#[test]
fn short_stream_keeps_available_bytes() {
    let data = [0x28u8, 0xB5];
    assert_eq!(unsupported_bytes(Decompressor::try_new(&data[..])), vec![0x28, 0xB5]);
    let one = [0x1Fu8];
    assert_eq!(unsupported_bytes(Decompressor::try_new(&one[..])), vec![0x1F]);
    let lz4_head = [0x04u8, 0x22, 0x4D];
    assert_eq!(unsupported_bytes(Decompressor::try_new(&lz4_head[..])), vec![0x04, 0x22, 0x4D]);
}

#[test]
fn empty_stream_is_rejected() {
    let data: [u8; 0] = [];
    assert_eq!(unsupported_bytes(Decompressor::try_new(&data[..])), Vec::<u8>::new());
}

#[test]
fn probe_bytes_reach_the_decoder() {
    let compressed = gzip(&raw());
    let mut direct = Vec::new();
    flate2::read::GzDecoder::new(&compressed[..]).read_to_end(&mut direct).unwrap();
    let mut d = open(&compressed[..]);
    assert_eq!(read_all(&mut d), direct);
}

#[test]
fn probe_over_a_source_that_trickles() {
    for (bytes, format) in samples() {
        let mut d = open(Trickle { bytes, pos: 0 });
        assert_eq!(d.format(), format);
        assert_eq!(read_all(&mut d), raw());
    }
}

#[test]
fn gzip_hello_world() {
    let compressed = gzip(b"hello world");
    assert_eq!(&compressed[..2], &[0x1F, 0x8B]);
    let mut d = open(&compressed[..]);
    assert_eq!(d.format(), Format::Gzip);
    assert_eq!(read_all(&mut d), b"hello world".to_vec());
}

#[test]
fn zstd_empty_payload() {
    let compressed = zstd_of(b"");
    assert_eq!(&compressed[..4], &[0x28, 0xB5, 0x2F, 0xFD]);
    let mut d = open(&compressed[..]);
    assert_eq!(d.format(), Format::Zstd);
    let mut buf = [0u8; 16];
    assert_eq!(d.read(&mut buf).unwrap(), 0);
}

#[test]
fn zlib_headers_of_each_level() {
    let r = raw();
    for level in [flate2::Compression::none(), flate2::Compression::fast(), flate2::Compression::best()] {
        let compressed = zlib_at(&r, level);
        let mut d = open(&compressed[..]);
        assert_eq!(d.format(), Format::Zlib);
        assert_eq!(read_all(&mut d), r);
    }
}

#[test]
fn corrupt_payload_fails_on_read() {
    let mut compressed = gzip(&raw());
    let n = compressed.len();
    for b in compressed[12..n - 8].iter_mut() {
        *b = 0xFF;
    }
    let mut d = open(&compressed[..]);
    let mut out = Vec::new();
    assert!(d.read_to_end(&mut out).is_err());
}

#[test]
fn truncated_lz4_fails() {
    let compressed = lz4(&raw());
    let cut = &compressed[..compressed.len() / 2];
    match Decompressor::try_new(cut) {
        Err(Error::Io(_)) => {}
        Err(e) => panic!("unexpected error: {:?}", e),
        Ok(mut d) => {
            let mut out = Vec::new();
            assert!(d.read_to_end(&mut out).is_err());
        }
    }
}

#[test]
fn identify_each_table_entry() {
    assert_eq!(Format::identify(&[0x04, 0x22, 0x4D, 0x18]).unwrap(), Format::Lz4);
    assert_eq!(Format::identify(&[0x28, 0xB5, 0x2F, 0xFD]).unwrap(), Format::Zstd);
    for second in [0x01u8, 0x5E, 0x9C, 0xDA, 0x20, 0x7D, 0xBB, 0xF9] {
        assert_eq!(Format::identify(&[0x78, second, 0x00, 0xFF]).unwrap(), Format::Zlib);
        assert_eq!(Format::identify(&[0x78, second]).unwrap(), Format::Zlib);
    }
    assert_eq!(Format::identify(&[0x1F, 0x8B, 0x12, 0x34]).unwrap(), Format::Gzip);
    assert_eq!(Format::identify(&[0x1F, 0x8B]).unwrap(), Format::Gzip);
}

#[test]
fn identify_rejects_near_misses() {
    for magic in [
        vec![0x04u8, 0x22, 0x4D, 0x19],
        vec![0x28, 0xB5, 0x2F],
        vec![0x78, 0x02, 0x00, 0x00],
        vec![0x1F, 0x8C, 0x00, 0x00],
        vec![0x78],
        vec![],
    ] {
        match Format::identify(&magic) {
            Err(Error::UnsupportedFormat { magic_bytes }) => assert_eq!(magic_bytes, magic),
            other => panic!("unexpected: {:?}", other),
        }
    }
}

#[test]
fn try_from_four_bytes() {
    assert_eq!(Format::try_from(&[0x28u8, 0xB5, 0x2F, 0xFD]).unwrap(), Format::Zstd);
    assert_eq!(Format::try_from(&[0x1Fu8, 0x8B, 0x08, 0x00]).unwrap(), Format::Gzip);
    match Format::try_from(&[0xAAu8, 0xBB, 0xCC, 0xDD]) {
        Err(Error::UnsupportedFormat { magic_bytes }) => assert_eq!(magic_bytes, vec![0xAA, 0xBB, 0xCC, 0xDD]),
        other => panic!("unexpected: {:?}", other),
    }
}

#[test]
fn prefixed_hands_back_the_head_first() {
    let source: &[u8] = &[4, 5, 6];
    let mut p = Prefixed::new(vec![1, 2, 3], source);
    let mut buf = [0u8; 2];
    assert_eq!(p.read_spliced(&mut buf).unwrap(), 2);
    assert_eq!(buf, [1, 2]);
    let mut buf = [9u8; 4];
    assert_eq!(p.read_spliced(&mut buf).unwrap(), 1);
    assert_eq!(buf, [3, 9, 9, 9]);
    let mut rest = Vec::new();
    p.read_to_end(&mut rest).unwrap();
    assert_eq!(rest, vec![4, 5, 6]);
}

#[test]
fn replay_drains_in_order() {
    let mut q = Replay::new(vec![7, 8, 9]);
    assert!(!q.is_drained());
    let mut buf = [0u8; 2];
    assert_eq!(q.drain_into(&mut buf), 2);
    assert_eq!(buf, [7, 8]);
    assert_eq!(q.drain_into(&mut buf), 1);
    assert_eq!(buf, [9, 8]);
    assert!(q.is_drained());
    assert_eq!(q.drain_into(&mut buf), 0);
}

#[test]
fn general_error_keeps_message() {
    match Error::general("something broke".to_string()) {
        Error::General(m) => assert_eq!(m, "something broke"),
        other => panic!("unexpected: {:?}", other),
    }
}

#[test]
fn from_probe_splices_the_probe_back() {
    let compressed = zlib(&raw());
    let (head, rest) = compressed.split_at(3);
    let mut d = match Decompressor::from_probe(head.to_vec(), rest) {
        Ok(d) => d,
        Err(e) => panic!("construction failed: {:?}", e),
    };
    assert_eq!(d.format(), Format::Zlib);
    assert_eq!(read_all(&mut d), raw());
}

#[test]
fn from_probe_rejects_unknown_bytes() {
    let rest: &[u8] = &[1, 2, 3];
    match Decompressor::from_probe(vec![0x00, 0x8B], rest) {
        Err(Error::UnsupportedFormat { magic_bytes }) => assert_eq!(magic_bytes, vec![0x00, 0x8B]),
        Err(e) => panic!("unexpected error: {:?}", e),
        Ok(_) => panic!("construction succeeded"),
    }
}

#[test]
fn read_decoded_reports_end_of_stream() {
    let compressed = gzip(b"abc");
    let mut d = open(&compressed[..]);
    let mut buf = [0u8; 8];
    let mut out = Vec::new();
    loop {
        let n = d.read_decoded(&mut buf).unwrap();
        if n == 0 {
            break;
        }
        out.extend_from_slice(&buf[..n]);
    }
    assert_eq!(out, b"abc".to_vec());
    assert_eq!(d.format(), Format::Gzip);
}

/// A source whose every read fails.
struct Broken;

impl Read for Broken {
    fn read(&mut self, _buf: &mut [u8]) -> std::io::Result<usize> {
        Err(std::io::Error::new(std::io::ErrorKind::ConnectionReset, "source broke"))
    }
}

#[test]
fn failed_source_read_is_an_io_error() {
    match Decompressor::try_new(Broken) {
        Err(Error::Io(e)) => {
            assert_eq!(e.kind(), std::io::ErrorKind::ConnectionReset);
            assert_eq!(e.to_string(), "source broke");
        }
        Err(e) => panic!("unexpected error: {:?}", e),
        Ok(_) => panic!("construction succeeded"),
    }
}

#[test]
fn take_chunk_appends_the_bytes_read() {
    let mut magic = vec![0x1F];
    let chunk = [0x8B, 0x08, 0xEE];
    assert!(take_chunk(&mut magic, &chunk, Ok(2)).unwrap());
    assert_eq!(magic, vec![0x1F, 0x8B, 0x08]);
    let chunk = [0x00];
    assert!(!take_chunk(&mut magic, &chunk, Ok(1)).unwrap());
    assert_eq!(magic, vec![0x1F, 0x8B, 0x08, 0x00]);
}

#[test]
fn take_chunk_stops_at_end_of_source() {
    let mut magic = vec![0x28];
    let chunk = [0xAA, 0xAA, 0xAA];
    assert!(!take_chunk(&mut magic, &chunk, Ok(0)).unwrap());
    assert_eq!(magic, vec![0x28]);
}

#[test]
fn take_chunk_passes_the_read_error_on() {
    let mut magic = vec![0x78];
    let chunk = [0u8; 3];
    let failed = Err(std::io::Error::new(std::io::ErrorKind::TimedOut, "slow"));
    match take_chunk(&mut magic, &chunk, failed) {
        Err(Error::Io(e)) => assert_eq!(e.kind(), std::io::ErrorKind::TimedOut),
        other => panic!("unexpected: {:?}", other),
    }
    assert_eq!(magic, vec![0x78]);
}

#[test]
fn io_error_converts_to_io_variant() {
    let e: Error = std::io::Error::new(std::io::ErrorKind::NotFound, "gone").into();
    match e {
        Error::Io(inner) => assert_eq!(inner.kind(), std::io::ErrorKind::NotFound),
        other => panic!("unexpected: {:?}", other),
    }
}

#[test]
fn lz4_reads_stay_at_zero_after_the_end() {
    let compressed = lz4(b"0123456789");
    let mut d = open(&compressed[..]);
    assert_eq!(d.format(), Format::Lz4);
    let mut buf = [0u8; 4];
    assert_eq!(d.read_decoded(&mut buf).unwrap(), 4);
    assert_eq!(&buf, b"0123");
    assert_eq!(d.read_decoded(&mut buf).unwrap(), 4);
    assert_eq!(&buf, b"4567");
    assert_eq!(d.read_decoded(&mut buf).unwrap(), 2);
    assert_eq!(&buf[..2], b"89");
    assert_eq!(d.read_decoded(&mut buf).unwrap(), 0);
    assert_eq!(d.read_decoded(&mut buf).unwrap(), 0);
}

#[test]
fn try_from_needs_every_significant_byte() {
    assert_eq!(Format::try_from(&[0x78u8, 0x9C, 0xAB, 0xCD]).unwrap(), Format::Zlib);
    assert_eq!(Format::try_from(&[0x04u8, 0x22, 0x4D, 0x18]).unwrap(), Format::Lz4);
    for magic in [[0x78u8, 0x00, 0x9C, 0x00], [0x04, 0x22, 0x4D, 0x00], [0x28, 0xB5, 0x2F, 0x00]] {
        match Format::try_from(&magic) {
            Err(Error::UnsupportedFormat { magic_bytes }) => assert_eq!(magic_bytes, magic.to_vec()),
            other => panic!("unexpected: {:?}", other),
        }
    }
}
