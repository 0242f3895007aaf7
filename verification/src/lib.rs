//! Decoder for the legacy HDF4 scientific-data container format.
//!
//! An HDF4 file is a flat byte buffer holding a linked list of directory
//! blocks; each block lists fixed-size records that point at variable-length
//! tagged payloads elsewhere in the buffer. Parsing walks the block chain,
//! bounds-checks every payload range against the buffer, and decodes each
//! record into a [`Tag`] variant paired with its reference id. Malformed
//! directory structure fails the whole parse; a malformed payload only
//! degrades its own record to a diagnostic variant.

use vstd::prelude::*;

pub mod bytes;
mod tag;

pub use tag::Tag;
pub use tag::TagRef;
pub use tag::TagRefView;
pub use tag::TagView;
pub use tag::spec_decode;
pub use tag::utf8_chars;
pub use tag::utf8_ok;

verus! {

use crate::bytes::{be16, be32, read_u16, read_u32};

/// A failure of the whole parse: the directory structure itself is broken.
/// A malformed payload never raises one of these; it only degrades its own
/// record (see [`Tag`]).
#[derive(Clone, Copy, Debug, PartialEq, Eq, Structural)]
pub enum ParseError {
    /// The buffer is too short for a required header or record array, or the
    /// block chain does not terminate within the buffer's block capacity.
    IncompleteFile,
    /// The four signature bytes at the start of the buffer are wrong.
    InvalidMagicNumber,
}

/// One decoded directory record: a [`Tag`] variant paired with the record's
/// reference id.
#[derive(Clone, Debug)]
pub struct DataDescriptor {
    pub tag: Tag,
    pub reference: u16,
}

/// Mathematical model of a [`DataDescriptor`].
pub struct DataDescriptorView {
    pub tag: TagView,
    pub reference: u16,
}

impl View for DataDescriptor {
    type V = DataDescriptorView;

    open spec fn view(&self) -> DataDescriptorView {
        DataDescriptorView { tag: self.tag@, reference: self.reference }
    }
}

/// The models of a sequence of descriptors, in order.
pub open spec fn descs_view(v: Seq<DataDescriptor>) -> Seq<DataDescriptorView> {
    v.map_values(|d: DataDescriptor| d@)
}

/// The payload bytes a record with declared offset `off` and length `len`
/// selects from the buffer `s`: the declared range, or the empty sequence
/// when that range does not lie fully within the buffer.
pub open spec fn payload_range(s: Seq<u8>, off: int, len: int) -> Seq<u8> {
    if off + len > s.len() {
        Seq::empty()
    } else {
        s.subrange(off, off + len)
    }
}

/// The descriptor that the 12-byte record at offset `pos` of `s` decodes to:
/// tag id, reference id, then payload offset and length, all big-endian.
pub open spec fn spec_record(s: Seq<u8>, pos: int) -> DataDescriptorView {
    DataDescriptorView {
        tag: spec_decode(
            be16(s, pos) as u16,
            payload_range(s, be32(s, pos + 4), be32(s, pos + 8)),
        ),
        reference: be16(s, pos + 2) as u16,
    }
}

/// The descriptors of the `n` consecutive records starting at offset `base`.
pub open spec fn spec_block_records(s: Seq<u8>, base: int, n: int) -> Seq<DataDescriptorView> {
    Seq::new(n as nat, |i: int| spec_record(s, base + 12 * i))
}

/// Prepends already-decoded descriptors to the outcome of the rest of the
/// block chain.
pub open spec fn prepend(
    acc: Seq<DataDescriptorView>,
    r: Result<Seq<DataDescriptorView>, ParseError>,
) -> Result<Seq<DataDescriptorView>, ParseError> {
    match r {
        Ok(rest) => Ok(acc + rest),
        Err(e) => Err(e),
    }
}

/// The outcome of walking the block chain of `s` from block offset `next`,
/// with at most `fuel` blocks still allowed. Offset 0 terminates the chain;
/// a chain that is still running after `fuel` blocks is treated as one that
/// never completes, so exhausted fuel is an incomplete file. Each block
/// holds a 2-byte record count and a 4-byte next-block offset, then the
/// records themselves.
pub open spec fn spec_parse_blocks(s: Seq<u8>, next: int, fuel: nat) -> Result<
    Seq<DataDescriptorView>,
    ParseError,
>
    decreases fuel,
{
    if next == 0 {
        Ok(Seq::empty())
    } else if fuel == 0 {
        Err(ParseError::IncompleteFile)
    } else if s.len() < next + 6 {
        Err(ParseError::IncompleteFile)
    } else {
        let count = be16(s, next);
        if s.len() < next + 6 + count * 12 {
            Err(ParseError::IncompleteFile)
        } else {
            prepend(
                spec_block_records(s, next + 6, count),
                spec_parse_blocks(s, be32(s, next + 2), (fuel - 1) as nat),
            )
        }
    }
}

/// Whether `s` starts with the four HDF4 signature bytes.
pub open spec fn has_magic(s: Seq<u8>) -> bool {
    s[0] == 0x0e && s[1] == 0x03 && s[2] == 0x13 && s[3] == 0x01
}

/// The outcome of parsing the buffer `s`: the ordered descriptors of its
/// directory, or the file-level error. The first block sits immediately
/// after the signature; a non-cyclic chain has fewer than `s.len()` blocks,
/// so the fuel bound rejects only chains that revisit a block offset.
pub open spec fn spec_parse(s: Seq<u8>) -> Result<Seq<DataDescriptorView>, ParseError> {
    if s.len() < 10 {
        Err(ParseError::IncompleteFile)
    } else if !has_magic(s) {
        Err(ParseError::InvalidMagicNumber)
    } else {
        spec_parse_blocks(s, 4, s.len() as nat)
    }
}

/// A parsed HDF4 file: the ordered collection of its decoded descriptors,
/// in block-traversal order, then on-disk record order within a block.
#[derive(Clone, Debug)]
pub struct HdfFile {
    pub descriptors: Vec<DataDescriptor>,
}

impl View for HdfFile {
    type V = Seq<DataDescriptorView>;

    open spec fn view(&self) -> Seq<DataDescriptorView> {
        descs_view(self.descriptors@)
    }
}

impl HdfFile {
    /// Parses an HDF4 byte buffer into its ordered descriptor collection.
    pub fn from_slice(slice: &[u8]) -> (r: Result<HdfFile, ParseError>)
        ensures
            match r {
                Ok(f) => spec_parse(slice@) == Ok::<Seq<DataDescriptorView>, ParseError>(f@),
                Err(e) => spec_parse(slice@) == Err::<Seq<DataDescriptorView>, ParseError>(e),
            },
    {
        if slice.len() < 10 {
            return Err(ParseError::IncompleteFile);
        }
        if !(slice[0] == 0x0e && slice[1] == 0x03 && slice[2] == 0x13 && slice[3] == 0x01) {
            return Err(ParseError::InvalidMagicNumber);
        }
        let mut descriptors: Vec<DataDescriptor> = Vec::new();
        let mut next: usize = 4;
        let mut remaining: usize = slice.len();
        while next != 0
            invariant
                10 <= slice@.len() <= usize::MAX,
                has_magic(slice@),
                next <= 0xffff_ffff,
                remaining <= slice@.len(),
                spec_parse(slice@) == prepend(
                    descs_view(descriptors@),
                    spec_parse_blocks(slice@, next as int, remaining as nat),
                ),
            decreases remaining,
        {
            if remaining == 0 {
                return Err(ParseError::IncompleteFile);
            }
            remaining = remaining - 1;
            if (slice.len() as u64) < next as u64 + 6 {
                return Err(ParseError::IncompleteFile);
            }
            let count = read_u16(slice, next) as usize;
            let next_block = read_u32(slice, next + 2) as usize;
            if (slice.len() as u64) < next as u64 + 6 + count as u64 * 12 {
                return Err(ParseError::IncompleteFile);
            }
            let base = next + 6;
            let ghost entry_views = descs_view(descriptors@);
            let mut i: usize = 0;
            while i < count
                invariant
                    i <= count,
                    base + 12 * count <= slice@.len() <= usize::MAX,
                    descs_view(descriptors@) =~= entry_views + spec_block_records(
                        slice@,
                        base as int,
                        count as int,
                    ).take(i as int),
                decreases count - i,
            {
                let pos = base + 12 * i;
                let tag = read_u16(slice, pos);
                let reference = read_u16(slice, pos + 2);
                let off = read_u32(slice, pos + 4) as usize;
                let len = read_u32(slice, pos + 8) as usize;
                let data: &[u8] = if off as u64 + len as u64 > slice.len() as u64 {
                    proof {
                        assert(payload_range(slice@, off as int, len as int) =~= slice@.subrange(
                            0,
                            0,
                        ));
                    }
                    vstd::slice::slice_subrange(slice, 0, 0)
                } else {
                    vstd::slice::slice_subrange(slice, off, off + len)
                };
                let d = DataDescriptor { tag: Tag::from_raw(tag, data), reference };
                proof {
                    assert(d@ == spec_record(slice@, pos as int));
                    assert(descs_view(descriptors@.push(d)) =~= descs_view(descriptors@).push(d@));
                    assert(spec_block_records(slice@, base as int, count as int).take(
                        i + 1,
                    ) =~= spec_block_records(slice@, base as int, count as int).take(i as int).push(
                        spec_record(slice@, base + 12 * (i as int)),
                    ));
                }
                descriptors.push(d);
                i = i + 1;
            }
            proof {
                let s = slice@;
                let records = spec_block_records(s, base as int, count as int);
                assert(records.take(count as int) =~= records);
                match spec_parse_blocks(s, next_block as int, remaining as nat) {
                    Ok(rest) => {
                        assert(entry_views + records + rest =~= entry_views + (records + rest));
                    },
                    Err(_) => {},
                }
            }
            next = next_block;
        }
        proof {
            assert(descs_view(descriptors@) + Seq::<DataDescriptorView>::empty() =~= descs_view(
                descriptors@,
            ));
        }
        Ok(HdfFile { descriptors })
    }
}

/// The descriptors of `s` that are not `Null`, in their original order.
pub open spec fn spec_remove_nulls(s: Seq<DataDescriptorView>) -> Seq<DataDescriptorView> {
    s.filter(|d: DataDescriptorView| !(d.tag is Null))
}

impl HdfFile {
    /// Drops every `Null` descriptor, keeping the relative order of the
    /// survivors.
    pub fn remove_nulls(&mut self)
        ensures
            final(self)@ == spec_remove_nulls(old(self)@),
    {
        let mut source: Vec<DataDescriptor> = Vec::new();
        core::mem::swap(&mut source, &mut self.descriptors);
        let ghost orig = descs_view(source@);
        let ghost mut done = Seq::<DataDescriptorView>::empty();
        proof {
            assert(descs_view(self.descriptors@) =~= Seq::<DataDescriptorView>::empty());
            assert(orig =~= done + descs_view(source@));
            assert(spec_remove_nulls(done) =~= descs_view(self.descriptors@));
        }
        while source.len() > 0
            invariant
                orig == done + descs_view(source@),
                descs_view(self.descriptors@) == spec_remove_nulls(done),
            decreases source@.len(),
        {
            let ghost prev = source@;
            let d = source.remove(0);
            let keep = !matches!(d.tag, Tag::Null);
            if keep {
                self.descriptors.push(d);
            }
            proof {
                reveal_with_fuel(Seq::<DataDescriptorView>::filter, 2);
                assert(descs_view(prev) =~= seq![d@] + descs_view(source@));
                let done2 = done.push(d@);
                assert(done2.drop_last() =~= done);
                assert(done2.last() == d@);
                assert(orig =~= done2 + descs_view(source@));
                if keep {
                    assert(spec_remove_nulls(done2) =~= spec_remove_nulls(done).push(d@));
                } else {
                    assert(spec_remove_nulls(done2) =~= spec_remove_nulls(done));
                }
                done = done2;
            }
        }
        proof {
            assert(descs_view(source@) =~= Seq::<DataDescriptorView>::empty());
            assert(orig =~= done);
        }
    }
}

/// Law: a buffer shorter than the ten-byte minimum header always fails as an
/// incomplete file, whatever its contents.
pub proof fn lemma_short_buffer_incomplete(s: Seq<u8>)
    requires
        s.len() < 10,
    ensures
        spec_parse(s) == Err::<Seq<DataDescriptorView>, ParseError>(ParseError::IncompleteFile),
{
}

/// Law: a buffer at least ten bytes long whose first four bytes are not the
/// HDF4 signature always fails with the magic-number error.
pub proof fn lemma_bad_magic_rejected(s: Seq<u8>)
    requires
        s.len() >= 10,
        !has_magic(s),
    ensures
        spec_parse(s) == Err::<Seq<DataDescriptorView>, ParseError>(ParseError::InvalidMagicNumber),
{
}

/// Law: a record whose declared payload range reaches past the end of the
/// buffer is decoded from the empty payload, never from out-of-bounds bytes.
pub proof fn lemma_out_of_range_payload_empty(s: Seq<u8>, pos: int)
    requires
        be32(s, pos + 4) + be32(s, pos + 8) > s.len(),
    ensures
        spec_record(s, pos).tag == spec_decode(be16(s, pos) as u16, Seq::empty()),
{
}

} // verus!
