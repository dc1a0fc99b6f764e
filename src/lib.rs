//! Decompression of a byte stream whose format is recognised from its first
//! bytes.
use vstd::prelude::*;

mod error;
pub mod io;

pub use error::{Error, Result};

pub use flate2;
pub use lz4_flex;
pub use zstd;

verus! {

/// Supported compression formats.
#[derive(Debug, Clone, Copy, PartialEq, Eq, Hash, Structural)]
#[non_exhaustive]
pub enum Format {
    Lz4,
    Zstd,
    Zlib,
    Gzip,
}

/// Length of the window of leading bytes that identifies a format.
pub const MAGIC_LEN: usize = 4;

/// A magic-byte pattern as a value: the bytes, which positions must be equal,
/// and the format the pattern marks.
pub type PatternModel = (Seq<u8>, Seq<bool>, Format);

/// The pattern matches when every position it cares about is present in
/// `magic` and holds the pattern's byte there. A missing position matches
/// nothing: a stream shorter than a pattern cannot be of its format.
pub open spec fn pattern_matches(p: PatternModel, magic: Seq<u8>) -> bool {
    forall|i: int|
        0 <= i < 4 && #[trigger] p.1[i] ==> i < magic.len() && magic[i] == p.0[i]
}

/// A pattern that fixes all four leading bytes.
pub open spec fn whole(b0: u8, b1: u8, b2: u8, b3: u8, f: Format) -> PatternModel {
    (seq![b0, b1, b2, b3], seq![true, true, true, true], f)
}

/// A pattern that fixes the first two bytes and lets the next two be anything.
pub open spec fn leading_pair(b0: u8, b1: u8, f: Format) -> PatternModel {
    (seq![b0, b1, 0u8, 0u8], seq![true, true, false, false], f)
}

/// The magic-byte table, in the order in which it is searched.
pub open spec fn magic_table() -> Seq<PatternModel> {
    seq![
        whole(0x04, 0x22, 0x4D, 0x18, Format::Lz4),
        whole(0x28, 0xB5, 0x2F, 0xFD, Format::Zstd),
        leading_pair(0x78, 0x01, Format::Zlib),
        leading_pair(0x78, 0x5E, Format::Zlib),
        leading_pair(0x78, 0x9C, Format::Zlib),
        leading_pair(0x78, 0xDA, Format::Zlib),
        leading_pair(0x78, 0x20, Format::Zlib),
        leading_pair(0x78, 0x7D, Format::Zlib),
        leading_pair(0x78, 0xBB, Format::Zlib),
        leading_pair(0x78, 0xF9, Format::Zlib),
        leading_pair(0x1F, 0x8B, Format::Gzip),
    ]
}

/// The format of the first pattern of `table`, from position `i` on, that
/// matches `magic`.
pub open spec fn first_match(table: Seq<PatternModel>, magic: Seq<u8>, i: int) -> Option<Format>
    decreases table.len() - i,
{
    if i < 0 || i >= table.len() {
        None
    } else if pattern_matches(table[i], magic) {
        Some(table[i].2)
    } else {
        first_match(table, magic, i + 1)
    }
}

/// The format that the leading bytes `magic` identify, if any.
pub open spec fn identify(magic: Seq<u8>) -> Option<Format> {
    first_match(magic_table(), magic, 0)
}

/// What the table's entries share: each cares about its first two bytes, the
/// formats of two entries differ exactly when their first bytes do, and only
/// the lz4 and zstd entries care about all four bytes.
proof fn lemma_table_shape()
    ensures
        magic_table().len() == 11,
        forall|i: int|
            #![trigger magic_table()[i]]
            0 <= i < 11 ==> {
                let p = magic_table()[i];
                &&& p.0.len() == 4
                &&& p.1.len() == 4
                &&& p.1[0] && p.1[1]
                &&& (p.2 == Format::Lz4 || p.2 == Format::Zstd) ==> p.1[2] && p.1[3]
            },
        forall|i: int, j: int|
            0 <= i < 11 && 0 <= j < 11 && #[trigger] magic_table()[i].2 != #[trigger] magic_table()[j].2
                ==> magic_table()[i].0[0] != magic_table()[j].0[0],
{
    let t = magic_table();
    assert forall|i: int|
        #![trigger t[i]]
        0 <= i < 11 implies {
            let p = t[i];
            &&& p.0.len() == 4
            &&& p.1.len() == 4
            &&& p.1[0] && p.1[1]
            &&& (p.2 == Format::Lz4 || p.2 == Format::Zstd) ==> p.1[2] && p.1[3]
            &&& (p.2 == Format::Lz4 <==> p.0[0] == 0x04u8)
            &&& (p.2 == Format::Zstd <==> p.0[0] == 0x28u8)
            &&& (p.2 == Format::Zlib <==> p.0[0] == 0x78u8)
            &&& (p.2 == Format::Gzip <==> p.0[0] == 0x1Fu8)
        } by {
        if i == 0 {} else if i == 1 {} else if i == 2 {} else if i == 3 {} else if i == 4 {}
        else if i == 5 {} else if i == 6 {} else if i == 7 {} else if i == 8 {} else if i == 9 {}
        else {}
    }
}

/// The search from position `i` finds a format exactly when some entry from
/// `i` on matches, and what it finds is the format of such an entry.
proof fn lemma_first_match(table: Seq<PatternModel>, magic: Seq<u8>, i: int)
    requires
        0 <= i,
    ensures
        first_match(table, magic, i) is None <==> forall|j: int|
            i <= j < table.len() ==> !pattern_matches(#[trigger] table[j], magic),
        first_match(table, magic, i) matches Some(f) ==> exists|j: int|
            i <= j < table.len() && pattern_matches(#[trigger] table[j], magic) && table[j].2 == f,
    decreases table.len() - i,
{
    if i < table.len() {
        lemma_first_match(table, magic, i + 1);
    }
}

/// No two entries of different formats match the same leading bytes, so the
/// order in which the table is searched does not change the outcome: whenever
/// an entry matches, its format is the one recognised.
pub proof fn lemma_any_matching_entry_decides(magic: Seq<u8>, i: int)
    requires
        0 <= i < magic_table().len(),
        pattern_matches(magic_table()[i], magic),
    ensures
        identify(magic) == Some(magic_table()[i].2),
{
    lemma_table_shape();
    lemma_first_match(magic_table(), magic, 0);
    let f = identify(magic)->Some_0;
    let j = choose|j: int|
        0 <= j < magic_table().len() && pattern_matches(#[trigger] magic_table()[j], magic)
            && magic_table()[j].2 == f;
    assert(magic_table()[i].1[0]);
    assert(magic_table()[j].1[0]);
}

/// Leading bytes that no entry of the table matches are not recognised, and
/// leading bytes that are not recognised match no entry.
pub proof fn lemma_unmatched_unrecognised(magic: Seq<u8>)
    ensures
        identify(magic) is None <==> forall|i: int|
            0 <= i < magic_table().len() ==> !pattern_matches(#[trigger] magic_table()[i], magic),
{
    lemma_first_match(magic_table(), magic, 0);
}

/// A stream shorter than a format's magic bytes is not recognised as that
/// format: under two bytes nothing is recognised, and under four bytes neither
/// lz4 nor zstd.
pub proof fn lemma_short_magic(magic: Seq<u8>)
    ensures
        magic.len() < 2 ==> identify(magic) is None,
        magic.len() < 4 ==> identify(magic) != Some(Format::Lz4) && identify(magic) != Some(
            Format::Zstd,
        ),
{
    lemma_table_shape();
    lemma_first_match(magic_table(), magic, 0);
    if identify(magic) is Some {
        let f = identify(magic)->Some_0;
        let j = choose|j: int|
            0 <= j < magic_table().len() && pattern_matches(#[trigger] magic_table()[j], magic)
                && magic_table()[j].2 == f;
        assert(magic_table()[j].1[0]);
        assert(magic_table()[j].1[1]);
        if f == Format::Lz4 || f == Format::Zstd {
            assert(magic_table()[j].1[3]);
        }
    }
}

/// One entry of the magic-byte table: the bytes at the start of a stream that
/// mark `format`, where only the positions with `care[i]` set must be equal.
#[derive(Clone, Copy)]
pub struct MagicPattern {
    pub bytes: [u8; 4],
    pub care: [bool; 4],
    pub format: Format,
}

impl MagicPattern {
    pub open spec fn model(self) -> PatternModel {
        (self.bytes@, self.care@, self.format)
    }

    fn whole(b0: u8, b1: u8, b2: u8, b3: u8, format: Format) -> (p: Self)
        ensures
            p.model() == whole(b0, b1, b2, b3, format),
    {
        let p = MagicPattern { bytes: [b0, b1, b2, b3], care: [true, true, true, true], format };
        assert(p.bytes@ =~= seq![b0, b1, b2, b3]);
        assert(p.care@ =~= seq![true, true, true, true]);
        p
    }

    fn leading_pair(b0: u8, b1: u8, format: Format) -> (p: Self)
        ensures
            p.model() == leading_pair(b0, b1, format),
    {
        let p = MagicPattern { bytes: [b0, b1, 0, 0], care: [true, true, false, false], format };
        assert(p.bytes@ =~= seq![b0, b1, 0u8, 0u8]);
        assert(p.care@ =~= seq![true, true, false, false]);
        p
    }

    /// Whether the pattern matches the leading bytes `magic`.
    pub fn matches(&self, magic: &[u8]) -> (r: bool)
        ensures
            r == pattern_matches(self.model(), magic@),
    {
        let mut i: usize = 0;
        while i < MAGIC_LEN
            invariant
                i <= 4,
                self.care@.len() == 4,
                forall|j: int|
                    0 <= j < i && #[trigger] self.care@[j] ==> j < magic@.len() && magic@[j]
                        == self.bytes@[j],
            decreases 4 - i,
        {
            if self.care[i] && (i >= magic.len() || magic[i] != self.bytes[i]) {
                assert(self.model().1[i as int]);
                return false;
            }
            i = i + 1;
        }
        true
    }
}

/// The magic-byte table as values, in the order of `magic_table`.
pub fn magic_patterns() -> (t: Vec<MagicPattern>)
    ensures
        t@.len() == magic_table().len(),
        forall|i: int| 0 <= i < t@.len() ==> (#[trigger] t@[i]).model() == magic_table()[i],
{
    let mut t: Vec<MagicPattern> = Vec::new();
    t.push(MagicPattern::whole(0x04, 0x22, 0x4D, 0x18, Format::Lz4));
    t.push(MagicPattern::whole(0x28, 0xB5, 0x2F, 0xFD, Format::Zstd));
    t.push(MagicPattern::leading_pair(0x78, 0x01, Format::Zlib));
    t.push(MagicPattern::leading_pair(0x78, 0x5E, Format::Zlib));
    t.push(MagicPattern::leading_pair(0x78, 0x9C, Format::Zlib));
    t.push(MagicPattern::leading_pair(0x78, 0xDA, Format::Zlib));
    t.push(MagicPattern::leading_pair(0x78, 0x20, Format::Zlib));
    t.push(MagicPattern::leading_pair(0x78, 0x7D, Format::Zlib));
    t.push(MagicPattern::leading_pair(0x78, 0xBB, Format::Zlib));
    t.push(MagicPattern::leading_pair(0x78, 0xF9, Format::Zlib));
    t.push(MagicPattern::leading_pair(0x1F, 0x8B, Format::Gzip));
    t
}

/// An owned copy of `s`.
pub(crate) fn copy_bytes(s: &[u8]) -> (v: Vec<u8>)
    ensures
        v@ == s@,
{
    let mut v: Vec<u8> = Vec::new();
    let mut i: usize = 0;
    while i < s.len()
        invariant
            i <= s@.len(),
            v@ == s@.take(i as int),
        decreases s@.len() - i,
    {
        v.push(s[i]);
        i = i + 1;
        assert(v@ =~= s@.take(i as int));
    }
    assert(v@ =~= s@);
    v
}

impl Format {
    /// Recognises the format from the leading bytes of a stream (at most four
    /// are looked at). The first pattern of the table that matches decides;
    /// when none does, the error carries the bytes that were given.
    pub fn identify(magic: &[u8]) -> (r: std::result::Result<Format, Error>)
        ensures
            match identify(magic@) {
                Some(f) => r == Ok::<Format, Error>(f),
                None => r is Err && r->Err_0.is_unsupported_with(magic@),
            },
    {
        let table = magic_patterns();
        let mut i: usize = 0;
        while i < table.len()
            invariant
                i <= table@.len(),
                table@.len() == magic_table().len(),
                forall|j: int| 0 <= j < table@.len() ==> (#[trigger] table@[j]).model() == magic_table()[j],
                identify(magic@) == first_match(magic_table(), magic@, i as int),
            decreases table@.len() - i,
        {
            if table[i].matches(magic) {
                return Ok(table[i].format);
            }
            i = i + 1;
        }
        Err(Error::UnsupportedFormat { magic_bytes: copy_bytes(magic) })
    }
}

impl TryFrom<&[u8; 4]> for Format {
    type Error = Error;

    fn try_from(value: &[u8; 4]) -> (r: std::result::Result<Self, Self::Error>)
        ensures
            match identify(value@) {
                Some(f) => r == Ok::<Format, Error>(f),
                None => r is Err && r->Err_0.is_unsupported_with(value@),
            },
    {
        Format::identify(value.as_slice())
    }
}

/// The result of `try_from` is stated by `Format::identify`, which it calls;
/// its error holds a vector, which a spec function cannot build.
impl vstd::std_specs::convert::TryFromSpecImpl<&[u8; 4]> for Format {
    open spec fn obeys_try_from_spec() -> bool {
        false
    }

    open spec fn try_from_spec(v: &[u8; 4]) -> std::result::Result<Self, Self::Error> {
        arbitrary()
    }
}

} // verus!
