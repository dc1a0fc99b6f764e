//! The decoding stream: probes the leading bytes of a source, splices them
//! back in front of it and hands the result to the decoder of the format they
//! identify.
use vstd::prelude::*;
use crate::error::Error;
use crate::{identify, Format, MAGIC_LEN};

verus! {

#[verifier::external_type_specification]
#[verifier::external_body]
#[verifier::reject_recursive_types(R)]
pub struct ExGzDecoder<R>(flate2::read::GzDecoder<R>);

#[verifier::external_type_specification]
#[verifier::external_body]
#[verifier::reject_recursive_types(R)]
pub struct ExZlibDecoder<R>(flate2::read::ZlibDecoder<R>);

#[verifier::external_type_specification]
#[verifier::external_body]
#[verifier::reject_recursive_types(R)]
pub struct ExZstdDecoder<'a, R>(zstd::stream::read::Decoder<'a, R>);

#[verifier::external_type_specification]
#[verifier::external_body]
#[verifier::reject_recursive_types(R)]
pub struct ExBufReader<R: ?Sized>(std::io::BufReader<R>);

/// Relies on `std::io::Read::read`: the buffer keeps its length and the count
/// returned is at most that length.
#[verifier::external_body]
fn read_some<T: std::io::Read>(r: &mut T, buf: &mut [u8]) -> (res: Result<usize, std::io::Error>)
    ensures
        final(buf)@.len() == old(buf)@.len(),
        res matches Ok(k) ==> k <= old(buf)@.len(),
{
    r.read(buf)
}

/// Relies on `flate2::read::GzDecoder::new`: a gzip decoder over `r`.
#[verifier::external_body]
fn gzip_decoder<R: std::io::Read>(r: R) -> (d: flate2::read::GzDecoder<R>) {
    flate2::read::GzDecoder::new(r)
}

/// Relies on `flate2::read::ZlibDecoder::new`: a zlib decoder over `r`.
#[verifier::external_body]
fn zlib_decoder<R: std::io::Read>(r: R) -> (d: flate2::read::ZlibDecoder<R>) {
    flate2::read::ZlibDecoder::new(r)
}

/// Relies on `zstd::stream::read::Decoder::new`: a zstd decoder over `r`, or
/// the error met while setting up its decoding context.
#[verifier::external_body]
fn zstd_decoder<R: std::io::Read>(r: R) -> (d: Result<
    zstd::stream::read::Decoder<'static, std::io::BufReader<R>>,
    std::io::Error,
>) {
    zstd::stream::read::Decoder::new(r)
}

/// Relies on `lz4_flex::frame::FrameDecoder::new` and on reading that decoder
/// to its end through `std::io::Read::read_to_end`: the decoded bytes of the
/// frames in `r`, or the error met on the way. The decoder itself cannot be
/// kept: its type bounds its reader by `std::io::Read`, which Verus does not
/// take in a declared type.
#[verifier::external_body]
fn lz4_decode<R: std::io::Read>(r: R) -> (d: Result<Vec<u8>, std::io::Error>) {
    let mut out = Vec::new();
    match std::io::Read::read_to_end(&mut lz4_flex::frame::FrameDecoder::new(r), &mut out) {
        Ok(_) => Ok(out),
        Err(e) => Err(e),
    }
}

/// How many of `pending` bytes a buffer with room for `room` bytes takes.
pub open spec fn fill_count(pending: nat, room: nat) -> nat {
    if pending <= room {
        pending
    } else {
        room
    }
}

/// Bytes held in memory and handed out in order, each exactly once.
pub struct Replay {
    bytes: Vec<u8>,
    pos: usize,
}

impl View for Replay {
    type V = Seq<u8>;

    /// The bytes not handed out yet.
    closed spec fn view(&self) -> Seq<u8> {
        if self.pos <= self.bytes@.len() {
            self.bytes@.skip(self.pos as int)
        } else {
            Seq::empty()
        }
    }
}

impl Replay {
    pub fn new(bytes: Vec<u8>) -> (q: Self)
        ensures
            q@ == bytes@,
    {
        let q = Replay { bytes, pos: 0 };
        assert(q.bytes@.skip(0) =~= q.bytes@);
        q
    }

    pub fn is_drained(&self) -> (r: bool)
        ensures
            r == (self@.len() == 0),
    {
        self.pos >= self.bytes.len()
    }

    /// Moves as many pending bytes as fit to the front of `buf` and returns
    /// their number; the rest of `buf` is left as it was.
    pub fn drain_into(&mut self, buf: &mut [u8]) -> (k: usize)
        ensures
            k == fill_count(old(self)@.len(), old(buf)@.len()),
            final(buf)@.len() == old(buf)@.len(),
            final(buf)@.take(k as int) == old(self)@.take(k as int),
            final(buf)@.skip(k as int) == old(buf)@.skip(k as int),
            final(self)@ == old(self)@.skip(k as int),
    {
        if self.pos >= self.bytes.len() {
            assert(buf@.skip(0) =~= buf@);
            return 0;
        }
        let ghost pending = self@;
        let ghost original = buf@;
        let ghost start = self.pos as int;
        let mut k: usize = 0;
        while k < buf.len() && self.pos < self.bytes.len()
            invariant
                0 <= start,
                start + pending.len() == self.bytes@.len(),
                pending == self.bytes@.skip(start),
                self.pos == start + k,
                self.pos <= self.bytes@.len(),
                k <= buf@.len(),
                buf@.len() == original.len(),
                forall|j: int| 0 <= j < k ==> buf@[j] == pending[j],
                forall|j: int| k <= j < buf@.len() ==> buf@[j] == original[j],
            decreases buf@.len() - k,
        {
            assert(pending[k as int] == self.bytes@[self.pos as int]);
            buf[k] = self.bytes[self.pos];
            self.pos = self.pos + 1;
            k = k + 1;
        }
        assert(self.bytes@.skip(self.pos as int) =~= pending.skip(k as int));
        assert(buf@.take(k as int) =~= pending.take(k as int));
        assert(buf@.skip(k as int) =~= original.skip(k as int));
        k
    }
}

/// A byte source with bytes already taken from it put back in front: reads
/// first hand out those bytes, then go on to the source.
pub struct Prefixed<R> {
    head: Replay,
    source: R,
}

impl<R> Prefixed<R> {
    /// The bytes put back that have not been read yet.
    pub closed spec fn pending(&self) -> Seq<u8> {
        self.head@
    }

    /// The source behind the bytes put back.
    pub closed spec fn source(&self) -> R {
        self.source
    }

    pub fn new(head: Vec<u8>, source: R) -> (p: Self)
        ensures
            p.pending() == head@,
            p.source() == source,
    {
        Prefixed { head: Replay::new(head), source }
    }
}

impl<R: std::io::Read> Prefixed<R> {
    /// While bytes put back are pending, a read takes them, as many as fit,
    /// and leaves the source alone; after that it reads from the source.
    pub fn read_spliced(&mut self, buf: &mut [u8]) -> (res: Result<usize, std::io::Error>)
        ensures
            final(buf)@.len() == old(buf)@.len(),
            old(self).pending().len() > 0 ==> {
                &&& res matches Ok(k)
                &&& k == fill_count(old(self).pending().len(), old(buf)@.len())
                &&& final(buf)@.take(k as int) == old(self).pending().take(k as int)
                &&& final(self).pending() == old(self).pending().skip(k as int)
                &&& final(self).source() == old(self).source()
            },
            old(self).pending().len() == 0 ==> {
                &&& final(self).pending().len() == 0
                &&& res matches Ok(k) ==> k <= old(buf)@.len()
            },
    {
        if !self.head.is_drained() {
            Ok(self.head.drain_into(buf))
        } else {
            read_some(&mut self.source, buf)
        }
    }
}

impl<R: std::io::Read> std::io::Read for Prefixed<R> {
    fn read(&mut self, buf: &mut [u8]) -> (res: Result<usize, std::io::Error>)
        ensures
            final(buf)@.len() == old(buf)@.len(),
            old(self).pending().len() > 0 ==> {
                &&& res matches Ok(k)
                &&& k == fill_count(old(self).pending().len(), old(buf)@.len())
                &&& final(buf)@.take(k as int) == old(self).pending().take(k as int)
                &&& final(self).pending() == old(self).pending().skip(k as int)
                &&& final(self).source() == old(self).source()
            },
            old(self).pending().len() == 0 ==> {
                &&& final(self).pending().len() == 0
                &&& res matches Ok(k) ==> k <= old(buf)@.len()
            },
    {
        self.read_spliced(buf)
    }
}

/// A buffer of `n` zero bytes.
fn zeroed(n: usize) -> (v: Vec<u8>)
    ensures
        v@.len() == n,
{
    let mut v: Vec<u8> = Vec::new();
    while v.len() < n
        invariant
            v@.len() <= n,
        decreases n - v@.len(),
    {
        v.push(0);
    }
    v
}

/// Adds the outcome of one read of the source to the probe bytes gathered so
/// far: `chunk` is the buffer that the read filled and `outcome` what it
/// returned. A read of `n` bytes appends the first `n` bytes of `chunk`, and
/// the result says whether to read again: only where the read gave bytes and
/// the probe is not full yet. A failed read leaves the probe as it was and
/// gives its error, wrapped as `Error::Io`.
pub fn take_chunk(
    magic: &mut Vec<u8>,
    chunk: &[u8],
    outcome: Result<usize, std::io::Error>,
) -> (more: Result<bool, Error>)
    requires
        outcome matches Ok(n) ==> n <= chunk@.len(),
    ensures
        match outcome {
            Ok(n) => {
                &&& final(magic)@ == old(magic)@ + chunk@.take(n as int)
                &&& more == Ok::<bool, Error>(n > 0 && final(magic)@.len() < MAGIC_LEN)
            },
            Err(e) => final(magic)@ == old(magic)@ && more == Err::<bool, Error>(Error::Io(e)),
        },
{
    match outcome {
        Ok(n) => {
            let ghost start = magic@;
            let mut i: usize = 0;
            while i < n
                invariant
                    n <= chunk@.len(),
                    i <= n,
                    magic@ == start + chunk@.take(i as int),
                decreases n - i,
            {
                magic.push(chunk[i]);
                i = i + 1;
                assert(magic@ =~= start + chunk@.take(i as int));
            }
            Ok(n > 0 && magic.len() < MAGIC_LEN)
        },
        Err(e) => Err(Error::Io(e)),
    }
}

/// Reads the leading bytes of `source`, at most `MAGIC_LEN` of them; fewer
/// only where the source ends first. Each read is handed to `take_chunk`; the
/// first failed read ends the probe with its error.
fn read_magic<R: std::io::Read>(source: &mut R) -> (res: Result<Vec<u8>, Error>)
    ensures
        match res {
            Ok(m) => m@.len() <= MAGIC_LEN,
            Err(e) => e is Io,
        },
{
    let mut magic: Vec<u8> = Vec::new();
    loop
        invariant
            magic@.len() <= MAGIC_LEN,
        decreases MAGIC_LEN - magic@.len(),
    {
        let mut chunk = zeroed(MAGIC_LEN - magic.len());
        let outcome = read_some(source, chunk.as_mut_slice());
        match take_chunk(&mut magic, chunk.as_slice(), outcome) {
            Ok(true) => {},
            Ok(false) => {
                return Ok(magic);
            },
            Err(e) => {
                return Err(e);
            },
        }
    }
}

/// The decoder of one format, reading from the spliced source. An lz4 stream
/// is decoded as a whole when it is opened and its bytes are then handed out
/// in order.
#[verifier::reject_recursive_types(R)]
enum Backend<R> {
    Lz4(Replay),
    Zstd(zstd::stream::read::Decoder<'static, std::io::BufReader<Prefixed<R>>>),
    Zlib(flate2::read::ZlibDecoder<Prefixed<R>>),
    Gzip(flate2::read::GzDecoder<Prefixed<R>>),
}

impl<R> Backend<R> {
    spec fn format(&self) -> Format {
        match self {
            Backend::Lz4(_) => Format::Lz4,
            Backend::Zstd(_) => Format::Zstd,
            Backend::Zlib(_) => Format::Zlib,
            Backend::Gzip(_) => Format::Gzip,
        }
    }
}

impl<R> Backend<R> {
    /// The decoded lz4 bytes not handed out yet; empty for the other formats,
    /// whose decoders hold their own state.
    spec fn buffered(&self) -> Seq<u8> {
        match self {
            Backend::Lz4(q) => q@,
            _ => Seq::empty(),
        }
    }
}

impl<R: std::io::Read> Backend<R> {
    /// Sets up the decoder of `format` over `source`.
    fn open(format: Format, source: Prefixed<R>) -> (res: Result<Self, std::io::Error>)
        ensures
            res matches Ok(b) ==> b.format() == format,
            format == Format::Zlib || format == Format::Gzip ==> res is Ok,
    {
        match format {
            Format::Lz4 => match lz4_decode(source) {
                Ok(bytes) => Ok(Backend::Lz4(Replay::new(bytes))),
                Err(e) => Err(e),
            },
            Format::Zstd => match zstd_decoder(source) {
                Ok(d) => Ok(Backend::Zstd(d)),
                Err(e) => Err(e),
            },
            Format::Zlib => Ok(Backend::Zlib(zlib_decoder(source))),
            Format::Gzip => Ok(Backend::Gzip(gzip_decoder(source))),
        }
    }

    fn read(&mut self, buf: &mut [u8]) -> (res: Result<usize, std::io::Error>)
        ensures
            final(self).format() == old(self).format(),
            final(buf)@.len() == old(buf)@.len(),
            res matches Ok(k) ==> k <= old(buf)@.len(),
            old(self).format() == Format::Lz4 ==> {
                &&& res matches Ok(k)
                &&& k == fill_count(old(self).buffered().len(), old(buf)@.len())
                &&& final(buf)@.take(k as int) == old(self).buffered().take(k as int)
                &&& final(self).buffered() == old(self).buffered().skip(k as int)
            },
    {
        match self {
            Backend::Lz4(q) => Ok(q.drain_into(buf)),
            Backend::Zstd(d) => read_some(d, buf),
            Backend::Zlib(d) => read_some(d, buf),
            Backend::Gzip(d) => read_some(d, buf),
        }
    }
}

/// Decompressor which abstracts over multiple compression formats.
#[verifier::reject_recursive_types(R)]
pub struct Decompressor<R> {
    backend: Backend<R>,
    format: Format,
    head: Ghost<Seq<u8>>,
}

impl<R> Decompressor<R> {
    /// The format fixed when the decompressor was made.
    pub closed spec fn tag(&self) -> Format {
        self.format
    }

    /// The bytes put back in front of the source when the decoder was set up:
    /// the decoder reads them first, then the rest of the source.
    pub closed spec fn spliced_prefix(&self) -> Seq<u8> {
        self.head@
    }

    /// For an lz4 stream, the decoded bytes not read yet; empty for the other
    /// formats, whose decoders hold their own state.
    pub closed spec fn buffered(&self) -> Seq<u8> {
        self.backend.buffered()
    }

    /// The decoder in use is the one of the format.
    pub closed spec fn wf(&self) -> bool {
        self.backend.format() == self.format
    }

    fn new(backend: Backend<R>, format: Format, head: Ghost<Seq<u8>>) -> (d: Self)
        requires
            backend.format() == format,
        ensures
            d.wf(),
            d.tag() == format,
            d.spliced_prefix() == head@,
    {
        Decompressor { backend, format, head }
    }

    /// The format used by the decompressor.
    pub fn format(&self) -> (f: Format)
        ensures
            f == self.tag(),
    {
        self.format
    }
}

impl<R: std::io::Read> Decompressor<R> {
    /// Creates a decompressor over `reader`, the format being recognised from
    /// the first bytes of the stream. Those bytes are handed back to the
    /// decoder in front of the rest of the stream. An lz4 stream is read and
    /// decoded to its end here, so its decode errors, and those of reading
    /// its source, come from this call rather than from later reads.
    pub fn try_new(reader: R) -> (res: Result<Self, Error>)
        ensures
            match res {
                Ok(d) => {
                    &&& d.wf()
                    &&& d.spliced_prefix().len() <= MAGIC_LEN
                    &&& identify(d.spliced_prefix()) == Some(d.tag())
                },
                Err(Error::UnsupportedFormat { magic_bytes }) => {
                    &&& magic_bytes@.len() <= MAGIC_LEN
                    &&& identify(magic_bytes@) is None
                },
                Err(Error::Io(_)) => true,
                Err(Error::General(_)) => false,
            },
    {
        let mut reader = reader;
        let magic = match read_magic(&mut reader) {
            Ok(m) => m,
            Err(e) => {
                return Err(e);
            },
        };
        Self::from_probe(magic, reader)
    }

    /// Creates a decompressor from the leading bytes `magic` already read from
    /// a stream and `reader`, the rest of that stream. Bytes that identify no
    /// format give the unsupported-format error with those bytes; otherwise
    /// the decoder of the format they identify reads `magic` and then
    /// `reader`. Setting up a zlib or gzip decoder cannot fail; a zstd or lz4
    /// one can, with the error of the codec. An lz4 stream is read and decoded
    /// to its end here, and its decode errors come from this call.
    pub fn from_probe(magic: Vec<u8>, reader: R) -> (res: Result<Self, Error>)
        ensures
            match identify(magic@) {
                None => res is Err && res->Err_0.is_unsupported_with(magic@),
                Some(f) => match res {
                    Ok(d) => d.wf() && d.tag() == f && d.spliced_prefix() == magic@,
                    Err(e) => e is Io && (f == Format::Lz4 || f == Format::Zstd),
                },
            },
    {
        let format = match Format::identify(magic.as_slice()) {
            Ok(f) => f,
            Err(e) => {
                return Err(e);
            },
        };
        let source = Prefixed::new(magic, reader);
        let ghost head = source.pending();
        match Backend::open(format, source) {
            Ok(backend) => Ok(Decompressor::new(backend, format, Ghost(head))),
            Err(e) => Err(Error::Io(e)),
        }
    }

    /// Reads decoded bytes into the front of `buf` and returns their number;
    /// zero, for a buffer that is not empty, at the end of the stream. For an
    /// lz4 stream the bytes come from `buffered()`, in order, as many as fit,
    /// so that once they are used up every read gives zero.
    pub fn read_decoded(&mut self, buf: &mut [u8]) -> (res: Result<usize, std::io::Error>)
        ensures
            final(self).tag() == old(self).tag(),
            final(self).spliced_prefix() == old(self).spliced_prefix(),
            final(self).wf() == old(self).wf(),
            final(buf)@.len() == old(buf)@.len(),
            res matches Ok(k) ==> k <= old(buf)@.len(),
            old(self).wf() && old(self).tag() == Format::Lz4 ==> {
                &&& res matches Ok(k)
                &&& k == fill_count(old(self).buffered().len(), old(buf)@.len())
                &&& final(buf)@.take(k as int) == old(self).buffered().take(k as int)
                &&& final(self).buffered() == old(self).buffered().skip(k as int)
            },
    {
        self.backend.read(buf)
    }
}

impl<R: std::io::Read> std::io::Read for Decompressor<R> {
    fn read(&mut self, buf: &mut [u8]) -> (res: Result<usize, std::io::Error>)
        ensures
            final(self).tag() == old(self).tag(),
            final(self).spliced_prefix() == old(self).spliced_prefix(),
            final(self).wf() == old(self).wf(),
            final(buf)@.len() == old(buf)@.len(),
            res matches Ok(k) ==> k <= old(buf)@.len(),
            old(self).wf() && old(self).tag() == Format::Lz4 ==> {
                &&& res matches Ok(k)
                &&& k == fill_count(old(self).buffered().len(), old(buf)@.len())
                &&& final(buf)@.take(k as int) == old(self).buffered().take(k as int)
                &&& final(self).buffered() == old(self).buffered().skip(k as int)
            },
    {
        self.read_decoded(buf)
    }
}

} // verus!
