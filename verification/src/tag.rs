//! Tagged-payload decoding: one total function from a raw tag id and its
//! payload bytes to a structured [`Tag`] variant.

use vstd::prelude::*;

use crate::bytes::{be16, be32, read_u16, read_u32};

verus! {

/// A weak, non-owning reference to another descriptor: a (tag id,
/// reference id) pair that may name a record elsewhere in the same file.
/// It is never resolved automatically.
#[derive(Clone, Debug)]
pub struct TagRef {
    pub tag: u16,
    pub reference: u16,
}

/// Mathematical model of a [`TagRef`].
pub struct TagRefView {
    pub tag: u16,
    pub reference: u16,
}

impl View for TagRef {
    type V = TagRefView;

    open spec fn view(&self) -> TagRefView {
        TagRefView { tag: self.tag, reference: self.reference }
    }
}

/// The decoded content of one directory record's payload.
#[derive(Clone, Debug)]
pub enum Tag {
    Null,
    Version { majorv: u32, minorv: u32, release: u32, string: String },
    NumberType { version: u8, type_: u8, width: u8, class: u8 },
    FileIdentifier { character_string: String },
    ScientificDataDimension { dimensions: Vec<u32>, datatype: TagRef, scale: Vec<TagRef> },
    /// Tag of unknown type; the payload bytes are kept verbatim.
    Unknown { tag: u16, data: Vec<u8> },
    /// Tag whose declared offset and length fall outside the buffer.
    Invalid(u16),
    /// A tag of recognized type whose payload failed structural validation.
    Corrupt(u16),
}

/// Mathematical model of a [`Tag`].
pub enum TagView {
    Null,
    Version { majorv: u32, minorv: u32, release: u32, string: Seq<char> },
    NumberType { version: u8, type_: u8, width: u8, class: u8 },
    FileIdentifier { character_string: Seq<char> },
    ScientificDataDimension { dimensions: Seq<u32>, datatype: TagRefView, scale: Seq<TagRefView> },
    Unknown { tag: u16, data: Seq<u8> },
    Invalid(u16),
    Corrupt(u16),
}

impl View for Tag {
    type V = TagView;

    open spec fn view(&self) -> TagView {
        match self {
            Tag::Null => TagView::Null,
            Tag::Version { majorv, minorv, release, string } => TagView::Version {
                majorv: *majorv,
                minorv: *minorv,
                release: *release,
                string: string@,
            },
            Tag::NumberType { version, type_, width, class } => TagView::NumberType {
                version: *version,
                type_: *type_,
                width: *width,
                class: *class,
            },
            Tag::FileIdentifier { character_string } => TagView::FileIdentifier {
                character_string: character_string@,
            },
            Tag::ScientificDataDimension { dimensions, datatype, scale } => (
            TagView::ScientificDataDimension {
                dimensions: dimensions@,
                datatype: datatype@,
                scale: scale@.map_values(|t: TagRef| t@),
            }),
            Tag::Unknown { tag, data } => TagView::Unknown { tag: *tag, data: data@ },
            Tag::Invalid(t) => TagView::Invalid(*t),
            Tag::Corrupt(t) => TagView::Corrupt(*t),
        }
    }
}

/// Whether `bytes` is valid UTF-8 (the domain of `String::from_utf8`).
pub uninterp spec fn utf8_ok(bytes: Seq<u8>) -> bool;

/// The characters that decoding `bytes` as UTF-8 yields.
pub uninterp spec fn utf8_chars(bytes: Seq<u8>) -> Seq<char>;

/// Relies on alloc's `String::from_utf8`: it returns `Ok` exactly when the
/// bytes are valid UTF-8, and the decoded characters depend on the bytes
/// alone.
#[verifier::external_body]
fn bytes_to_string(bytes: Vec<u8>) -> (r: Option<String>)
    ensures
        r is Some <==> utf8_ok(bytes@),
        r is Some ==> r.unwrap()@ == utf8_chars(bytes@),
{
    match String::from_utf8(bytes) {
        Ok(s) => Some(s),
        Err(_) => None,
    }
}

/// The bytes a `ScientificDataDimension` payload of rank `rank` must hold:
/// the rank itself, `rank` 32-bit dimensions, one reference pair, and
/// `rank` further reference pairs.
pub open spec fn sdd_needed(rank: int) -> int {
    2 + rank * 4 + 4 + rank * 4
}

/// The decoded form of a payload of tag id `tag` and bytes `data`: the total
/// specification that [`Tag::from_raw`] realizes.
pub open spec fn spec_decode(tag: u16, data: Seq<u8>) -> TagView {
    if tag == 1 {
        TagView::Null
    } else if tag == 30 {
        if data.len() < 12 {
            TagView::Corrupt(30)
        } else if !utf8_ok(data.subrange(12, data.len() as int)) {
            TagView::Corrupt(30)
        } else {
            TagView::Version {
                majorv: be32(data, 0) as u32,
                minorv: be32(data, 4) as u32,
                release: be32(data, 8) as u32,
                string: utf8_chars(data.subrange(12, data.len() as int)),
            }
        }
    } else if tag == 106 {
        if data.len() != 4 {
            TagView::Corrupt(106)
        } else {
            TagView::NumberType { version: data[0], type_: data[1], width: data[2], class: data[3] }
        }
    } else if tag == 701 {
        if data.len() < 2 {
            TagView::Corrupt(701)
        } else {
            let rank = be16(data, 0);
            if data.len() < sdd_needed(rank) {
                TagView::Corrupt(701)
            } else {
                TagView::ScientificDataDimension {
                    dimensions: Seq::new(rank as nat, |k: int| be32(data, 2 + 4 * k) as u32),
                    datatype: TagRefView {
                        tag: be16(data, 2 + rank * 4) as u16,
                        reference: be16(data, 2 + rank * 4 + 2) as u16,
                    },
                    scale: Seq::new(
                        rank as nat,
                        |k: int| TagRefView {
                            tag: be16(data, 2 + rank * 4 + 4 + 4 * k) as u16,
                            reference: be16(data, 2 + rank * 4 + 4 + 4 * k + 2) as u16,
                        },
                    ),
                }
            }
        }
    } else {
        TagView::Unknown { tag, data }
    }
}

/// Law: an unrecognized tag id keeps its payload bytes verbatim, whatever
/// they are.
pub proof fn lemma_unknown_preserves_bytes(tag: u16, data: Seq<u8>)
    requires
        tag != 1,
        tag != 30,
        tag != 106,
        tag != 701,
    ensures
        spec_decode(tag, data) == (TagView::Unknown { tag, data }),
{
}

/// Law: a `NumberType` payload of any length other than four bytes is
/// corrupt.
pub proof fn lemma_number_type_length(data: Seq<u8>)
    requires
        data.len() != 4,
    ensures
        spec_decode(106, data) == TagView::Corrupt(106),
{
}

impl Tag {
    /// Decodes the payload `data` of a record with tag id `tag`. Total:
    /// a malformed payload yields `Corrupt`, an unrecognized id `Unknown`.
    pub fn from_raw(tag: u16, data: &[u8]) -> (r: Tag)
        ensures
            r@ == spec_decode(tag, data@),
    {
        if tag == 1 {
            Tag::Null
        } else if tag == 30 {
            if data.len() < 12 {
                Tag::Corrupt(30)
            } else {
                let majorv = read_u32(data, 0);
                let minorv = read_u32(data, 4);
                let release = read_u32(data, 8);
                let tail = vstd::slice::slice_to_vec(
                    vstd::slice::slice_subrange(data, 12, data.len()),
                );
                match bytes_to_string(tail) {
                    Some(string) => Tag::Version { majorv, minorv, release, string },
                    None => Tag::Corrupt(30),
                }
            }
        } else if tag == 106 {
            if data.len() != 4 {
                Tag::Corrupt(106)
            } else {
                Tag::NumberType { version: data[0], type_: data[1], width: data[2], class: data[3] }
            }
        } else if tag == 701 {
            Self::decode_dimension(data)
        } else {
            Tag::Unknown { tag, data: vstd::slice::slice_to_vec(data) }
        }
    }

    /// Decodes a `ScientificDataDimension` payload: the rank, the dimension
    /// list, the datatype reference, and the scale-reference list.
    fn decode_dimension(data: &[u8]) -> (r: Tag)
        ensures
            r@ == spec_decode(701, data@),
    {
        if data.len() < 2 {
            return Tag::Corrupt(701);
        }
        let rank = read_u16(data, 0) as usize;
        assert(rank * 4 <= 0xffff * 4) by (nonlinear_arith)
            requires
                rank <= 0xffff,
        ;
        let needed: usize = 2 + rank * 4 + 4 + rank * 4;
        if data.len() < needed {
            return Tag::Corrupt(701);
        }
        let mut dimensions: Vec<u32> = Vec::new();
        let mut k: usize = 0;
        while k < rank
            invariant
                k <= rank <= 0xffff,
                sdd_needed(rank as int) <= data@.len(),
                dimensions@.len() == k,
                forall|j: int| 0 <= j < k ==> dimensions@[j] as int == be32(data@, 2 + 4 * j),
            decreases rank - k,
        {
            assert(2 + 4 * k + 4 <= sdd_needed(rank as int)) by (nonlinear_arith)
                requires
                    k < rank,
            ;
            dimensions.push(read_u32(data, 2 + 4 * k));
            k = k + 1;
        }
        let base: usize = 2 + rank * 4;
        let datatype = TagRef { tag: read_u16(data, base), reference: read_u16(data, base + 2) };
        let mut scale: Vec<TagRef> = Vec::new();
        k = 0;
        while k < rank
            invariant
                k <= rank <= 0xffff,
                base == 2 + rank * 4,
                sdd_needed(rank as int) <= data@.len(),
                scale@.len() == k,
                forall|j: int|
                    0 <= j < k ==> scale@[j]@ == (TagRefView {
                        tag: be16(data@, 2 + (rank as int) * 4 + 4 + 4 * j) as u16,
                        reference: be16(data@, 2 + (rank as int) * 4 + 4 + 4 * j + 2) as u16,
                    }),
            decreases rank - k,
        {
            assert(2 + (rank as int) * 4 + 4 + 4 * k + 4 <= sdd_needed(rank as int))
                by (nonlinear_arith)
                requires
                    k < rank,
            ;
            scale.push(
                TagRef {
                    tag: read_u16(data, base + 4 + 4 * k),
                    reference: read_u16(data, base + 4 + 4 * k + 2),
                },
            );
            k = k + 1;
        }
        let r = Tag::ScientificDataDimension { dimensions, datatype, scale };
        proof {
            let d = data@;
            let rk = rank as int;
            assert(dimensions@ =~= Seq::new(rk as nat, |j: int| be32(d, 2 + 4 * j) as u32));
            assert(scale@.map_values(|t: TagRef| t@) =~= Seq::new(
                rk as nat,
                |j: int| TagRefView {
                    tag: be16(d, 2 + rk * 4 + 4 + 4 * j) as u16,
                    reference: be16(d, 2 + rk * 4 + 4 + 4 * j + 2) as u16,
                },
            ));
        }
        r
    }
}

} // verus!
