//! Four-byte chunk identifiers.

use vstd::prelude::*;

verus! {

/// Four-byte identifier of a chunk.
#[derive(Debug, Clone, Copy)]
pub enum ChunkTag {
    /// Root container, `RIFF`.
    Riff,
    /// Format descriptor, `fmt `.
    Fmt,
    /// Interleaved sample data, `data`.
    Data,
    /// Identifier that follows the root header, `WAVE`.
    Wave,
    /// Nested container, `LIST`.
    List,
    /// Kind of a nested container that carries metadata, `INFO`.
    Info,
    /// Any other identifier, kept as its raw bytes.
    Unknown([u8; 4]),
}

/// The four bytes `a b c d` as a sequence.
pub open spec fn four(a: u8, b: u8, c: u8, d: u8) -> Seq<u8> {
    seq![a, b, c, d]
}

impl ChunkTag {
    /// The identifier as it stands in a byte stream.
    pub open spec fn spec_bytes(self) -> Seq<u8> {
        match self {
            ChunkTag::Riff => four(0x52, 0x49, 0x46, 0x46),
            ChunkTag::Fmt => four(0x66, 0x6d, 0x74, 0x20),
            ChunkTag::Data => four(0x64, 0x61, 0x74, 0x61),
            ChunkTag::Wave => four(0x57, 0x41, 0x56, 0x45),
            ChunkTag::List => four(0x4c, 0x49, 0x53, 0x54),
            ChunkTag::Info => four(0x49, 0x4e, 0x46, 0x4f),
            ChunkTag::Unknown(raw) => raw@,
        }
    }

    /// The tag that the four bytes `s` stand for. Bytes that name no known
    /// tag give `Unknown` with those bytes.
    pub open spec fn spec_from_bytes(s: Seq<u8>) -> ChunkTag {
        if s == ChunkTag::Riff.spec_bytes() {
            ChunkTag::Riff
        } else if s == ChunkTag::Fmt.spec_bytes() {
            ChunkTag::Fmt
        } else if s == ChunkTag::Data.spec_bytes() {
            ChunkTag::Data
        } else if s == ChunkTag::Wave.spec_bytes() {
            ChunkTag::Wave
        } else if s == ChunkTag::List.spec_bytes() {
            ChunkTag::List
        } else if s == ChunkTag::Info.spec_bytes() {
            ChunkTag::Info
        } else {
            ChunkTag::Unknown(choose|raw: [u8; 4]| raw@ == s)
        }
    }

    /// Reads a tag from its four bytes. Bytes that name no known tag are kept
    /// in `Unknown`.
    pub fn from_bytes(bytes: &[u8; 4]) -> (tag: ChunkTag)
        ensures
            tag == ChunkTag::spec_from_bytes(bytes@),
            tag.spec_bytes() == bytes@,
    {
        let (a, b, c, d): (u8, u8, u8, u8) = (bytes[0], bytes[1], bytes[2], bytes[3]);
        assert(bytes@ =~= four(a, b, c, d));
        if a == 0x52 && b == 0x49 && c == 0x46 && d == 0x46 {
            ChunkTag::Riff
        } else if a == 0x66 && b == 0x6d && c == 0x74 && d == 0x20 {
            ChunkTag::Fmt
        } else if a == 0x64 && b == 0x61 && c == 0x74 && d == 0x61 {
            ChunkTag::Data
        } else if a == 0x57 && b == 0x41 && c == 0x56 && d == 0x45 {
            ChunkTag::Wave
        } else if a == 0x4c && b == 0x49 && c == 0x53 && d == 0x54 {
            ChunkTag::List
        } else if a == 0x49 && b == 0x4e && c == 0x46 && d == 0x4f {
            ChunkTag::Info
        } else {
            proof {
                let s = four(a, b, c, d);
                assert(s[0] == a && s[1] == b && s[2] == c && s[3] == d);
                let kept = choose|raw: [u8; 4]| raw@ == bytes@;
                assert(kept@ == bytes@);
                assert(kept =~= *bytes);
            }
            ChunkTag::Unknown(*bytes)
        }
    }

    /// Writes the tag as its four bytes.
    pub fn to_bytes(self) -> (bytes: [u8; 4])
        ensures
            bytes@ == self.spec_bytes(),
    {
        let bytes: [u8; 4] = match self {
            ChunkTag::Riff => [0x52, 0x49, 0x46, 0x46],
            ChunkTag::Fmt => [0x66, 0x6d, 0x74, 0x20],
            ChunkTag::Data => [0x64, 0x61, 0x74, 0x61],
            ChunkTag::Wave => [0x57, 0x41, 0x56, 0x45],
            ChunkTag::List => [0x4c, 0x49, 0x53, 0x54],
            ChunkTag::Info => [0x49, 0x4e, 0x46, 0x4f],
            ChunkTag::Unknown(raw) => raw,
        };
        assert(bytes@ =~= self.spec_bytes());
        bytes
    }
}

impl PartialEq for ChunkTag {
    /// Two tags are equal when they are the same variant and, for `Unknown`,
    /// keep the same bytes.
    fn eq(&self, other: &ChunkTag) -> (r: bool) {
        match (self, other) {
            (ChunkTag::Riff, ChunkTag::Riff) => true,
            (ChunkTag::Fmt, ChunkTag::Fmt) => true,
            (ChunkTag::Data, ChunkTag::Data) => true,
            (ChunkTag::Wave, ChunkTag::Wave) => true,
            (ChunkTag::List, ChunkTag::List) => true,
            (ChunkTag::Info, ChunkTag::Info) => true,
            (ChunkTag::Unknown(a), ChunkTag::Unknown(b)) => {
                proof {
                    if a[0] == b[0] && a[1] == b[1] && a[2] == b[2] && a[3] == b[3] {
                        assert(a@ =~= b@);
                        assert(*a == *b);
                    }
                }
                a[0] == b[0] && a[1] == b[1] && a[2] == b[2] && a[3] == b[3]
            },
            _ => false,
        }
    }
}

impl Eq for ChunkTag {

}

impl vstd::std_specs::cmp::PartialEqSpecImpl for ChunkTag {
    open spec fn obeys_eq_spec() -> bool {
        true
    }

    open spec fn eq_spec(&self, other: &ChunkTag) -> bool {
        *self == *other
    }
}

/// Identifier of an entry in a LIST chunk of the `INFO` kind.
#[derive(Debug, Clone, Copy, PartialEq, Eq, Structural)]
pub enum ListChunkTag {
    /// The location where the subject of the file is archived.
    Iarl,
    /// The artist of the subject of the file.
    Iart,
    /// Who commissioned the subject of the file.
    Icms,
    /// General comments about the file or its subject.
    Icmt,
    /// Copyright information about the file.
    Icop,
    /// The date on which the subject of the file was created.
    Icrd,
    /// Whether and how an image was cropped.
    Icrp,
    /// The dimensions of the subject of the file.
    Idim,
    /// Dots per inch settings used to digitize the file.
    Idpi,
    /// The engineer who worked on the file.
    Ieng,
    /// The genre of the subject.
    Ignr,
    /// Keywords for the file or its subject.
    Ikey,
    /// Lightness settings used to digitize the file.
    Ilgt,
    /// Medium of the subject of the file.
    Imed,
    /// Title of the subject of the file.
    Inam,
    /// The number of colors in the palette used to digitize the file.
    Iplt,
    /// The title that the subject was first intended for.
    Iprd,
    /// Description of the contents of the file.
    Isbj,
    /// The software package used to create the file.
    Isft,
    /// Who supplied the subject of the file.
    Isrc,
    /// The form of the material before it was digitized.
    Isrf,
    /// The technician who digitized the subject file.
    Itch,
}

impl ListChunkTag {
    /// The identifier as it stands in a byte stream.
    pub open spec fn spec_bytes(self) -> Seq<u8> {
        match self {
            ListChunkTag::Iarl => four(0x49, 0x41, 0x52, 0x4c),
            ListChunkTag::Iart => four(0x49, 0x41, 0x52, 0x54),
            ListChunkTag::Icms => four(0x49, 0x43, 0x4d, 0x53),
            ListChunkTag::Icmt => four(0x49, 0x43, 0x4d, 0x54),
            ListChunkTag::Icop => four(0x49, 0x43, 0x4f, 0x50),
            ListChunkTag::Icrd => four(0x49, 0x43, 0x52, 0x44),
            ListChunkTag::Icrp => four(0x49, 0x43, 0x52, 0x50),
            ListChunkTag::Idim => four(0x49, 0x44, 0x49, 0x4d),
            ListChunkTag::Idpi => four(0x49, 0x44, 0x50, 0x49),
            ListChunkTag::Ieng => four(0x49, 0x45, 0x4e, 0x47),
            ListChunkTag::Ignr => four(0x49, 0x47, 0x4e, 0x52),
            ListChunkTag::Ikey => four(0x49, 0x4b, 0x45, 0x59),
            ListChunkTag::Ilgt => four(0x49, 0x4c, 0x47, 0x54),
            ListChunkTag::Imed => four(0x49, 0x4d, 0x45, 0x44),
            ListChunkTag::Inam => four(0x49, 0x4e, 0x41, 0x4d),
            ListChunkTag::Iplt => four(0x49, 0x50, 0x4c, 0x54),
            ListChunkTag::Iprd => four(0x49, 0x50, 0x52, 0x44),
            ListChunkTag::Isbj => four(0x49, 0x53, 0x42, 0x4a),
            ListChunkTag::Isft => four(0x49, 0x53, 0x46, 0x54),
            ListChunkTag::Isrc => four(0x49, 0x53, 0x52, 0x43),
            ListChunkTag::Isrf => four(0x49, 0x53, 0x52, 0x46),
            ListChunkTag::Itch => four(0x49, 0x54, 0x43, 0x48),
        }
    }

    /// Whether the four bytes `s` name an entry.
    pub open spec fn spec_known(s: Seq<u8>) -> bool {
        ||| s == ListChunkTag::Iarl.spec_bytes()
        ||| s == ListChunkTag::Iart.spec_bytes()
        ||| s == ListChunkTag::Icms.spec_bytes()
        ||| s == ListChunkTag::Icmt.spec_bytes()
        ||| s == ListChunkTag::Icop.spec_bytes()
        ||| s == ListChunkTag::Icrd.spec_bytes()
        ||| s == ListChunkTag::Icrp.spec_bytes()
        ||| s == ListChunkTag::Idim.spec_bytes()
        ||| s == ListChunkTag::Idpi.spec_bytes()
        ||| s == ListChunkTag::Ieng.spec_bytes()
        ||| s == ListChunkTag::Ignr.spec_bytes()
        ||| s == ListChunkTag::Ikey.spec_bytes()
        ||| s == ListChunkTag::Ilgt.spec_bytes()
        ||| s == ListChunkTag::Imed.spec_bytes()
        ||| s == ListChunkTag::Inam.spec_bytes()
        ||| s == ListChunkTag::Iplt.spec_bytes()
        ||| s == ListChunkTag::Iprd.spec_bytes()
        ||| s == ListChunkTag::Isbj.spec_bytes()
        ||| s == ListChunkTag::Isft.spec_bytes()
        ||| s == ListChunkTag::Isrc.spec_bytes()
        ||| s == ListChunkTag::Isrf.spec_bytes()
        ||| s == ListChunkTag::Itch.spec_bytes()
    }

    /// Reads an identifier from its four bytes; `None` when they name no
    /// entry.
    pub fn parse(bytes: &[u8; 4]) -> (r: Option<ListChunkTag>)
        ensures
            r is Some <==> ListChunkTag::spec_known(bytes@),
            r matches Some(tag) ==> tag.spec_bytes() == bytes@,
    {
        let (a, b, c, d): (u8, u8, u8, u8) = (bytes[0], bytes[1], bytes[2], bytes[3]);
        assert(bytes@ =~= four(a, b, c, d));
        if a == 0x49 && b == 0x41 && c == 0x52 && d == 0x4c {
            Some(ListChunkTag::Iarl)
        } else if a == 0x49 && b == 0x41 && c == 0x52 && d == 0x54 {
            Some(ListChunkTag::Iart)
        } else if a == 0x49 && b == 0x43 && c == 0x4d && d == 0x53 {
            Some(ListChunkTag::Icms)
        } else if a == 0x49 && b == 0x43 && c == 0x4d && d == 0x54 {
            Some(ListChunkTag::Icmt)
        } else if a == 0x49 && b == 0x43 && c == 0x4f && d == 0x50 {
            Some(ListChunkTag::Icop)
        } else if a == 0x49 && b == 0x43 && c == 0x52 && d == 0x44 {
            Some(ListChunkTag::Icrd)
        } else if a == 0x49 && b == 0x43 && c == 0x52 && d == 0x50 {
            Some(ListChunkTag::Icrp)
        } else if a == 0x49 && b == 0x44 && c == 0x49 && d == 0x4d {
            Some(ListChunkTag::Idim)
        } else if a == 0x49 && b == 0x44 && c == 0x50 && d == 0x49 {
            Some(ListChunkTag::Idpi)
        } else if a == 0x49 && b == 0x45 && c == 0x4e && d == 0x47 {
            Some(ListChunkTag::Ieng)
        } else if a == 0x49 && b == 0x47 && c == 0x4e && d == 0x52 {
            Some(ListChunkTag::Ignr)
        } else if a == 0x49 && b == 0x4b && c == 0x45 && d == 0x59 {
            Some(ListChunkTag::Ikey)
        } else if a == 0x49 && b == 0x4c && c == 0x47 && d == 0x54 {
            Some(ListChunkTag::Ilgt)
        } else if a == 0x49 && b == 0x4d && c == 0x45 && d == 0x44 {
            Some(ListChunkTag::Imed)
        } else if a == 0x49 && b == 0x4e && c == 0x41 && d == 0x4d {
            Some(ListChunkTag::Inam)
        } else if a == 0x49 && b == 0x50 && c == 0x4c && d == 0x54 {
            Some(ListChunkTag::Iplt)
        } else if a == 0x49 && b == 0x50 && c == 0x52 && d == 0x44 {
            Some(ListChunkTag::Iprd)
        } else if a == 0x49 && b == 0x53 && c == 0x42 && d == 0x4a {
            Some(ListChunkTag::Isbj)
        } else if a == 0x49 && b == 0x53 && c == 0x46 && d == 0x54 {
            Some(ListChunkTag::Isft)
        } else if a == 0x49 && b == 0x53 && c == 0x52 && d == 0x43 {
            Some(ListChunkTag::Isrc)
        } else if a == 0x49 && b == 0x53 && c == 0x52 && d == 0x46 {
            Some(ListChunkTag::Isrf)
        } else if a == 0x49 && b == 0x54 && c == 0x43 && d == 0x48 {
            Some(ListChunkTag::Itch)
        } else {
            proof {
                let s = four(a, b, c, d);
                assert(s[0] == a && s[1] == b && s[2] == c && s[3] == d);
            }
            None
        }
    }

    /// Reads an identifier from its four bytes, which must name an entry.
    pub fn from_bytes(bytes: &[u8; 4]) -> (tag: ListChunkTag)
        requires
            ListChunkTag::spec_known(bytes@),
        ensures
            tag.spec_bytes() == bytes@,
    {
        match ListChunkTag::parse(bytes) {
            Some(tag) => tag,
            None => vstd::pervasive::unreached(),
        }
    }

    /// Writes the identifier as its four bytes.
    pub fn to_bytes(self) -> (bytes: [u8; 4])
        ensures
            bytes@ == self.spec_bytes(),
    {
        let bytes: [u8; 4] = match self {
            ListChunkTag::Iarl => [0x49, 0x41, 0x52, 0x4c],
            ListChunkTag::Iart => [0x49, 0x41, 0x52, 0x54],
            ListChunkTag::Icms => [0x49, 0x43, 0x4d, 0x53],
            ListChunkTag::Icmt => [0x49, 0x43, 0x4d, 0x54],
            ListChunkTag::Icop => [0x49, 0x43, 0x4f, 0x50],
            ListChunkTag::Icrd => [0x49, 0x43, 0x52, 0x44],
            ListChunkTag::Icrp => [0x49, 0x43, 0x52, 0x50],
            ListChunkTag::Idim => [0x49, 0x44, 0x49, 0x4d],
            ListChunkTag::Idpi => [0x49, 0x44, 0x50, 0x49],
            ListChunkTag::Ieng => [0x49, 0x45, 0x4e, 0x47],
            ListChunkTag::Ignr => [0x49, 0x47, 0x4e, 0x52],
            ListChunkTag::Ikey => [0x49, 0x4b, 0x45, 0x59],
            ListChunkTag::Ilgt => [0x49, 0x4c, 0x47, 0x54],
            ListChunkTag::Imed => [0x49, 0x4d, 0x45, 0x44],
            ListChunkTag::Inam => [0x49, 0x4e, 0x41, 0x4d],
            ListChunkTag::Iplt => [0x49, 0x50, 0x4c, 0x54],
            ListChunkTag::Iprd => [0x49, 0x50, 0x52, 0x44],
            ListChunkTag::Isbj => [0x49, 0x53, 0x42, 0x4a],
            ListChunkTag::Isft => [0x49, 0x53, 0x46, 0x54],
            ListChunkTag::Isrc => [0x49, 0x53, 0x52, 0x43],
            ListChunkTag::Isrf => [0x49, 0x53, 0x52, 0x46],
            ListChunkTag::Itch => [0x49, 0x54, 0x43, 0x48],
        };
        assert(bytes@ =~= self.spec_bytes());
        bytes
    }
}

/// No two entries share their bytes: the bytes tell which entry it is.
pub proof fn lemma_list_tag_bytes_differ(a: ListChunkTag, b: ListChunkTag)
    requires
        a.spec_bytes() == b.spec_bytes(),
    ensures
        a == b,
{
    let (s, t) = (a.spec_bytes(), b.spec_bytes());
    assert(s[0] == t[0] && s[1] == t[1] && s[2] == t[2] && s[3] == t[3]);
}

} // verus!
