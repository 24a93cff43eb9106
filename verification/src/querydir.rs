//! Query directory: the request names an information class and a search
//! pattern; the response carries directory entries chained by a
//! next-entry-offset field, each padded to an 8-byte step.

use vstd::prelude::*;
use crate::bytes::{
    align8, lemma_le16_combine, lemma_le32_combine, lemma_le64_combine, put_bytes, put_u16,
    put_u32, put_u64, put_u8, put_zeros, read_bytes, read_u16, read_u32, read_u64, read_u8,
    spec_align8, spec_le16, spec_le32, spec_le64, u16_at, u32_at, u64_at, zeros,
};
use crate::lists::{
    decode_utf16_into, encode_utf16_from, lemma_enc_utf16_len, lemma_utf16_roundtrip,
    spec_dec_utf16, spec_enc_utf16,
};
use crate::types::{CodecError, FileId, wf_file_id};

verus! {

/// A query-directory request: which handle to list, under which information
/// class, with a search pattern at absolute offset 96.
#[derive(Clone, Debug, PartialEq, Eq)]
pub struct QueryDirectoryRequest {
    pub file_information_class: u8,
    pub flags: u8,
    pub file_index: u32,
    pub file_id: FileId,
    pub output_buffer_length: u32,
    pub search_pattern: Vec<u16>,
}

/// The mathematical value of a [`QueryDirectoryRequest`].
pub struct QueryDirectoryRequestV {
    pub file_information_class: u8,
    pub flags: u8,
    pub file_index: u32,
    pub file_id: Seq<u8>,
    pub output_buffer_length: u32,
    pub search_pattern: Seq<u16>,
}

impl View for QueryDirectoryRequest {
    type V = QueryDirectoryRequestV;

    open spec fn view(&self) -> QueryDirectoryRequestV {
        QueryDirectoryRequestV {
            file_information_class: self.file_information_class,
            flags: self.flags,
            file_index: self.file_index,
            file_id: self.file_id@,
            output_buffer_length: self.output_buffer_length,
            search_pattern: self.search_pattern@,
        }
    }
}

/// A representable query-directory request.
pub open spec fn wf_query_directory_request(m: QueryDirectoryRequestV) -> bool {
    &&& wf_file_id(m.file_id)
    &&& 2 * m.search_pattern.len() <= 0xffff
}

/// The byte layout of a query-directory request body.
pub open spec fn spec_enc_query_directory_request(m: QueryDirectoryRequestV) -> Seq<u8> {
    spec_le16(33) + seq![m.file_information_class, m.flags] + spec_le32(m.file_index) + m.file_id
        + spec_le16(96) + spec_le16((2 * m.search_pattern.len()) as u16) + spec_le32(
        m.output_buffer_length,
    ) + spec_enc_utf16(m.search_pattern)
}

/// The query-directory request denoted by the frame `b`.
pub open spec fn spec_dec_query_directory_request(b: Seq<u8>) -> Result<
    QueryDirectoryRequestV,
    CodecError,
> {
    if b.len() < 96 {
        Err(CodecError::Truncated)
    } else {
        let po = u16_at(b, 88) as int;
        let pl = u16_at(b, 90) as int;
        match spec_dec_utf16(b, po, (pl / 2) as nat) {
            Err(e) => Err(e),
            Ok(p) => Ok(
                QueryDirectoryRequestV {
                    file_information_class: b[66],
                    flags: b[67],
                    file_index: u32_at(b, 68),
                    file_id: b.subrange(72, 88),
                    output_buffer_length: u32_at(b, 92),
                    search_pattern: p,
                },
            ),
        }
    }
}

/// Appends the encoding of a query-directory request body.
pub fn encode_query_directory_request(out: &mut Vec<u8>, m: &QueryDirectoryRequest)
    requires
        wf_query_directory_request(m@),
    ensures
        final(out)@ == old(out)@ + spec_enc_query_directory_request(m@),
{
    put_u16(out, 33);
    put_u8(out, m.file_information_class);
    put_u8(out, m.flags);
    put_u32(out, m.file_index);
    put_bytes(out, &m.file_id.0);
    put_u16(out, 96);
    put_u16(out, (2 * m.search_pattern.len()) as u16);
    put_u32(out, m.output_buffer_length);
    encode_utf16_from(out, &m.search_pattern, 0);
    assert(m.search_pattern@.skip(0) =~= m.search_pattern@);
    assert(out@ =~= old(out)@ + spec_enc_query_directory_request(m@));
}

/// Decodes the query-directory request carried by the frame `b`.
pub fn decode_query_directory_request(b: &Vec<u8>) -> (r: Result<
    QueryDirectoryRequest,
    CodecError,
>)
    ensures
        match r {
            Ok(m) => spec_dec_query_directory_request(b@) == Ok::<
                QueryDirectoryRequestV,
                CodecError,
            >(m@),
            Err(e) => spec_dec_query_directory_request(b@) == Err::<
                QueryDirectoryRequestV,
                CodecError,
            >(e),
        },
{
    if b.len() < 96 {
        return Err(CodecError::Truncated);
    }
    let po = read_u16(b, 88);
    let pl = read_u16(b, 90);
    let mut pattern: Vec<u16> = Vec::new();
    if po as usize > b.len() {
        if pl / 2 != 0 {
            return Err(CodecError::Truncated);
        }
        assert(pattern@ =~= spec_dec_utf16(b@, po as int, (pl / 2) as nat)->Ok_0);
    } else {
        match decode_utf16_into(b, po as usize, (pl / 2) as usize, &mut pattern) {
            Err(e) => {
                return Err(e);
            },
            Ok(_) => {},
        }
        assert(pattern@ =~= Seq::<u16>::empty() + spec_dec_utf16(
            b@,
            po as int,
            (pl / 2) as nat,
        )->Ok_0);
    }
    Ok(
        QueryDirectoryRequest {
            file_information_class: read_u8(b, 66),
            flags: read_u8(b, 67),
            file_index: read_u32(b, 68),
            file_id: FileId(read_bytes(b, 72, 16)),
            output_buffer_length: read_u32(b, 92),
            search_pattern: pattern,
        },
    )
}

/// Decoding an encoded query-directory request, behind any 64-byte header,
/// yields the request back.
pub proof fn lemma_query_directory_request_roundtrip(hdr: Seq<u8>, m: QueryDirectoryRequestV)
    requires
        hdr.len() == 64,
        wf_query_directory_request(m),
    ensures
        spec_dec_query_directory_request(hdr + spec_enc_query_directory_request(m)) == Ok::<
            QueryDirectoryRequestV,
            CodecError,
        >(m),
{
    broadcast use lemma_le16_combine;
    broadcast use lemma_le32_combine;

    let body = spec_enc_query_directory_request(m);
    let b = hdr + body;
    let pl = m.search_pattern.len() as int;
    lemma_enc_utf16_len(m.search_pattern);
    assert(b[66] == m.file_information_class);
    assert(b[67] == m.flags);
    assert(u32_at(b, 68) == m.file_index);
    assert(b.subrange(72, 88) =~= m.file_id);
    assert(u16_at(b, 88) == 96);
    assert(u16_at(b, 90) == (2 * m.search_pattern.len()) as u16);
    assert((2 * m.search_pattern.len()) as u16 as int == 2 * pl);
    assert(u32_at(b, 92) == m.output_buffer_length);
    assert(b.subrange(96, 96 + 2 * pl) =~= spec_enc_utf16(m.search_pattern));
    lemma_utf16_roundtrip(b, 96, m.search_pattern);
}

/// One directory entry of a listing, in the both-directory-information
/// shape: metadata, a fixed short-name slot, and the name.
#[derive(Clone, Debug, PartialEq, Eq)]
pub struct FileIdBothDirectoryInformation {
    pub file_index: u32,
    pub creation_time: Vec<u8>,
    pub last_access_time: Vec<u8>,
    pub last_write_time: Vec<u8>,
    pub change_time: Vec<u8>,
    pub end_of_file: u64,
    pub allocation_size: u64,
    pub file_attributes: u32,
    pub ea_size: u32,
    pub short_name_length: u8,
    pub short_name: Vec<u8>,
    pub file_id: u64,
    pub file_name: Vec<u16>,
}

/// The mathematical value of a [`FileIdBothDirectoryInformation`].
pub struct FileIdBothDirectoryInformationV {
    pub file_index: u32,
    pub creation_time: Seq<u8>,
    pub last_access_time: Seq<u8>,
    pub last_write_time: Seq<u8>,
    pub change_time: Seq<u8>,
    pub end_of_file: u64,
    pub allocation_size: u64,
    pub file_attributes: u32,
    pub ea_size: u32,
    pub short_name_length: u8,
    pub short_name: Seq<u8>,
    pub file_id: u64,
    pub file_name: Seq<u16>,
}

impl View for FileIdBothDirectoryInformation {
    type V = FileIdBothDirectoryInformationV;

    open spec fn view(&self) -> FileIdBothDirectoryInformationV {
        FileIdBothDirectoryInformationV {
            file_index: self.file_index,
            creation_time: self.creation_time@,
            last_access_time: self.last_access_time@,
            last_write_time: self.last_write_time@,
            change_time: self.change_time@,
            end_of_file: self.end_of_file,
            allocation_size: self.allocation_size,
            file_attributes: self.file_attributes,
            ea_size: self.ea_size,
            short_name_length: self.short_name_length,
            short_name: self.short_name@,
            file_id: self.file_id,
            file_name: self.file_name@,
        }
    }
}

/// A representable directory entry: raw timestamps are eight bytes, the
/// short-name slot twenty-four, and the name bounded so that the next-entry
/// step fits its 32-bit field.
pub open spec fn wf_dir_entry(e: FileIdBothDirectoryInformationV) -> bool {
    &&& e.creation_time.len() == 8
    &&& e.last_access_time.len() == 8
    &&& e.last_write_time.len() == 8
    &&& e.change_time.len() == 8
    &&& e.short_name.len() == 24
    &&& 2 * e.file_name.len() <= 0xffff_ff00
}

/// The byte length of one encoded directory entry, without its padding.
pub open spec fn dir_entry_len(e: FileIdBothDirectoryInformationV) -> int {
    104 + 2 * e.file_name.len() as int
}

/// The byte layout of one directory entry, with the given next-entry offset.
pub open spec fn spec_enc_dir_entry(e: FileIdBothDirectoryInformationV, neo: u32) -> Seq<u8> {
    spec_le32(neo) + spec_le32(e.file_index) + e.creation_time + e.last_access_time
        + e.last_write_time + e.change_time + spec_le64(e.end_of_file) + spec_le64(
        e.allocation_size,
    ) + spec_le32(e.file_attributes) + spec_le32((2 * e.file_name.len()) as u32) + spec_le32(
        e.ea_size,
    ) + seq![e.short_name_length, 0u8] + e.short_name + spec_le16(0) + spec_le64(e.file_id)
        + spec_enc_utf16(e.file_name)
}

/// An encoded directory entry occupies its fixed part plus its name.
pub proof fn lemma_enc_dir_entry_len(e: FileIdBothDirectoryInformationV, neo: u32)
    requires
        wf_dir_entry(e),
    ensures
        spec_enc_dir_entry(e, neo).len() == dir_entry_len(e),
{
    lemma_enc_utf16_len(e.file_name);
}

/// The byte layout of a chain of directory entries: every entry but the last
/// carries the 8-aligned step to its successor and is padded to it; the last
/// carries zero.
pub open spec fn spec_enc_dir_entries(es: Seq<FileIdBothDirectoryInformationV>) -> Seq<u8>
    decreases es.len(),
{
    if es.len() == 0 {
        Seq::empty()
    } else if es.len() == 1 {
        spec_enc_dir_entry(es[0], 0)
    } else {
        spec_enc_dir_entry(es[0], spec_align8(dir_entry_len(es[0])) as u32) + zeros(
            (spec_align8(dir_entry_len(es[0])) - dir_entry_len(es[0])) as nat,
        ) + spec_enc_dir_entries(es.skip(1))
    }
}

/// The byte length of an encoded entry chain.
pub open spec fn dir_entries_enc_len(es: Seq<FileIdBothDirectoryInformationV>) -> int
    decreases es.len(),
{
    if es.len() == 0 {
        0
    } else if es.len() == 1 {
        dir_entry_len(es[0])
    } else {
        spec_align8(dir_entry_len(es[0])) + dir_entries_enc_len(es.skip(1))
    }
}

/// An encoded entry chain occupies its declared length.
pub proof fn lemma_enc_dir_entries_len(es: Seq<FileIdBothDirectoryInformationV>)
    requires
        forall|i: int| 0 <= i < es.len() ==> wf_dir_entry(#[trigger] es[i]),
    ensures
        spec_enc_dir_entries(es).len() == dir_entries_enc_len(es),
    decreases es.len(),
{
    if es.len() == 1 {
        lemma_enc_dir_entry_len(es[0], 0);
    } else if es.len() > 1 {
        lemma_enc_dir_entry_len(es[0], spec_align8(dir_entry_len(es[0])) as u32);
        assert(forall|i: int|
            0 <= i < es.skip(1).len() ==> #[trigger] es.skip(1)[i] == es[i + 1]);
        lemma_enc_dir_entries_len(es.skip(1));
    }
}

/// All entries of a chain are representable.
pub open spec fn wf_dir_entries(es: Seq<FileIdBothDirectoryInformationV>) -> bool {
    &&& forall|i: int| 0 <= i < es.len() ==> wf_dir_entry(#[trigger] es[i])
    &&& dir_entries_enc_len(es) <= 0xffff_ffff
}

/// The entry chain read at position `pos` of `b`: one entry at least,
/// following next-entry offsets until an entry carries zero. A step that is
/// shorter than an entry's fixed part, or runs outside `b`, fails with
/// `MalformedContext`.
pub open spec fn spec_dec_dir_entries(b: Seq<u8>, pos: int) -> Result<
    Seq<FileIdBothDirectoryInformationV>,
    CodecError,
>
    decreases b.len() - pos,
{
    if pos < 0 || pos + 104 > b.len() {
        Err(CodecError::Truncated)
    } else {
        let neo = u32_at(b, pos) as int;
        let nl = u32_at(b, pos + 60) as int;
        if pos + 104 + nl > b.len() {
            Err(CodecError::Truncated)
        } else {
            match spec_dec_utf16(b, pos + 104, (nl / 2) as nat) {
                Err(e) => Err(e),
                Ok(name) => {
                    let e = FileIdBothDirectoryInformationV {
                        file_index: u32_at(b, pos + 4),
                        creation_time: b.subrange(pos + 8, pos + 16),
                        last_access_time: b.subrange(pos + 16, pos + 24),
                        last_write_time: b.subrange(pos + 24, pos + 32),
                        change_time: b.subrange(pos + 32, pos + 40),
                        end_of_file: u64_at(b, pos + 40),
                        allocation_size: u64_at(b, pos + 48),
                        file_attributes: u32_at(b, pos + 56),
                        ea_size: u32_at(b, pos + 64),
                        short_name_length: b[pos + 68],
                        short_name: b.subrange(pos + 70, pos + 94),
                        file_id: u64_at(b, pos + 96),
                        file_name: name,
                    };
                    if neo == 0 {
                        Ok(seq![e])
                    } else if neo < 104 || pos + neo > b.len() {
                        Err(CodecError::MalformedContext)
                    } else {
                        match spec_dec_dir_entries(b, pos + neo) {
                            Err(er) => Err(er),
                            Ok(rest) => Ok(seq![e] + rest),
                        }
                    }
                },
            }
        }
    }
}

/// Appends the encoding of one directory entry.
fn encode_dir_entry(out: &mut Vec<u8>, e: &FileIdBothDirectoryInformation, neo: u32)
    requires
        wf_dir_entry(e@),
    ensures
        final(out)@ == old(out)@ + spec_enc_dir_entry(e@, neo),
{
    put_u32(out, neo);
    put_u32(out, e.file_index);
    put_bytes(out, &e.creation_time);
    put_bytes(out, &e.last_access_time);
    put_bytes(out, &e.last_write_time);
    put_bytes(out, &e.change_time);
    put_u64(out, e.end_of_file);
    put_u64(out, e.allocation_size);
    put_u32(out, e.file_attributes);
    put_u32(out, (2 * e.file_name.len()) as u32);
    put_u32(out, e.ea_size);
    put_u8(out, e.short_name_length);
    put_u8(out, 0);
    put_bytes(out, &e.short_name);
    put_u16(out, 0);
    put_u64(out, e.file_id);
    encode_utf16_from(out, &e.file_name, 0);
    assert(e.file_name@.skip(0) =~= e.file_name@);
    assert(out@ =~= old(out)@ + spec_enc_dir_entry(e@, neo));
}

/// The mathematical values of a vector of directory entries.
pub open spec fn dir_views_of(es: Seq<FileIdBothDirectoryInformation>) -> Seq<
    FileIdBothDirectoryInformationV,
> {
    es.map_values(|e: FileIdBothDirectoryInformation| e@)
}

/// Appends the encoding of the entries of `es` from index `i` on, chained
/// and padded.
pub fn encode_dir_entries_from(out: &mut Vec<u8>, es: &Vec<FileIdBothDirectoryInformation>, i: usize)
    requires
        i <= es@.len(),
        wf_dir_entries(dir_views_of(es@)),
    ensures
        final(out)@ == old(out)@ + spec_enc_dir_entries(dir_views_of(es@).skip(i as int)),
    decreases es@.len() - i,
{
    let ghost views = dir_views_of(es@).skip(i as int);
    if i < es.len() {
        assert(dir_views_of(es@)[i as int] == es@[i as int]@);
        assert(wf_dir_entry(es@[i as int]@));
        if i + 1 < es.len() {
            let elen: usize = 104 + 2 * es[i].file_name.len();
            let step: usize = align8(elen);
            encode_dir_entry(out, &es[i], step as u32);
            put_zeros(out, step - elen);
            encode_dir_entries_from(out, es, i + 1);
            assert(dir_views_of(es@).skip(i as int).skip(1) =~= dir_views_of(es@).skip(
                i as int + 1,
            ));
            assert(out@ =~= old(out)@ + spec_enc_dir_entries(views));
        } else {
            encode_dir_entry(out, &es[i], 0);
            assert(views.len() == 1);
            assert(out@ =~= old(out)@ + spec_enc_dir_entries(views));
        }
    } else {
        assert(views =~= Seq::<FileIdBothDirectoryInformationV>::empty());
        assert(out@ =~= old(out)@ + spec_enc_dir_entries(views));
    }
}

/// Decodes the entry chain at position `pos` of `b`, appending to `out`.
pub fn decode_dir_entries_into(
    b: &Vec<u8>,
    pos: usize,
    out: &mut Vec<FileIdBothDirectoryInformation>,
) -> (r: Result<(), CodecError>)
    ensures
        match r {
            Ok(_) => spec_dec_dir_entries(b@, pos as int) is Ok && dir_views_of(final(out)@)
                == dir_views_of(old(out)@) + spec_dec_dir_entries(b@, pos as int)->Ok_0,
            Err(e) => spec_dec_dir_entries(b@, pos as int) == Err::<
                Seq<FileIdBothDirectoryInformationV>,
                CodecError,
            >(e),
        },
    decreases b@.len() - pos,
{
    let blen: usize = b.len();
    if pos > blen || blen - pos < 104 {
        return Err(CodecError::Truncated);
    }
    let neo = read_u32(b, pos);
    let nl = read_u32(b, pos + 60);
    if ((blen - pos) - 104) < (nl as usize) {
        return Err(CodecError::Truncated);
    }
    let mut name: Vec<u16> = Vec::new();
    match decode_utf16_into(b, pos + 104, (nl as usize) / 2, &mut name) {
        Err(e) => {
            return Err(e);
        },
        Ok(_) => {},
    }
    assert(name@ =~= Seq::<u16>::empty() + spec_dec_utf16(
        b@,
        pos as int + 104,
        ((nl as int) / 2) as nat,
    )->Ok_0);
    let e = FileIdBothDirectoryInformation {
        file_index: read_u32(b, pos + 4),
        creation_time: read_bytes(b, pos + 8, 8),
        last_access_time: read_bytes(b, pos + 16, 8),
        last_write_time: read_bytes(b, pos + 24, 8),
        change_time: read_bytes(b, pos + 32, 8),
        end_of_file: read_u64(b, pos + 40),
        allocation_size: read_u64(b, pos + 48),
        file_attributes: read_u32(b, pos + 56),
        ea_size: read_u32(b, pos + 64),
        short_name_length: read_u8(b, pos + 68),
        short_name: read_bytes(b, pos + 70, 24),
        file_id: read_u64(b, pos + 96),
        file_name: name,
    };
    let ghost e_view = e@;
    let ghost before = out@;
    if neo == 0 {
        out.push(e);
        assert(dir_views_of(out@) =~= dir_views_of(before) + seq![e_view]);
        return Ok(());
    }
    if neo < 104 || (neo as usize) > blen - pos {
        return Err(CodecError::MalformedContext);
    }
    out.push(e);
    assert(dir_views_of(out@) =~= dir_views_of(before) + seq![e_view]);
    let r = decode_dir_entries_into(b, pos + neo as usize, out);
    match r {
        Ok(_) => {
            let ghost rest = spec_dec_dir_entries(b@, pos as int + neo as int)->Ok_0;
            assert(dir_views_of(out@) =~= dir_views_of(before) + (seq![e_view] + rest));
            Ok(())
        },
        Err(e2) => Err(e2),
    }
}

/// Decoding an encoded entry chain yields the entries back.
#[verifier::rlimit(80)]
pub proof fn lemma_dir_entries_roundtrip(
    b: Seq<u8>,
    pos: int,
    es: Seq<FileIdBothDirectoryInformationV>,
)
    requires
        0 <= pos,
        es.len() >= 1,
        wf_dir_entries(es),
        pos + dir_entries_enc_len(es) <= b.len(),
        b.subrange(pos, pos + dir_entries_enc_len(es)) == spec_enc_dir_entries(es),
    ensures
        spec_dec_dir_entries(b, pos) == Ok::<Seq<FileIdBothDirectoryInformationV>, CodecError>(es),
    decreases es.len(),
{
    broadcast use lemma_le16_combine;
    broadcast use lemma_le32_combine;
    broadcast use lemma_le64_combine;

    let e0 = es[0];
    assert(wf_dir_entry(es[0]));
    let el = dir_entry_len(e0);
    let nl = 2 * e0.file_name.len() as int;
    let total = dir_entries_enc_len(es);
    let neo: u32 = if es.len() == 1 {
        0u32
    } else {
        spec_align8(el) as u32
    };
    lemma_enc_dir_entry_len(e0, neo);
    lemma_enc_dir_entries_len(es);
    lemma_enc_utf16_len(e0.file_name);
    if es.len() > 1 {
        assert(forall|i: int|
            0 <= i < es.skip(1).len() ==> #[trigger] es.skip(1)[i] == es[i + 1]);
        lemma_enc_dir_entries_len(es.skip(1));
        assert(dir_entries_enc_len(es.skip(1)) >= 0) by {
            lemma_dir_entries_enc_len_nonneg(es.skip(1));
        }
    }
    let sub = b.subrange(pos, pos + total);
    let esub = b.subrange(pos, pos + el);
    assert(esub =~= sub.subrange(0, el));
    assert(esub =~= spec_enc_dir_entry(e0, neo));
    assert(u32_at(esub, 0) == neo);
    assert(u32_at(b, pos) == u32_at(esub, 0));
    assert(neo as int == (if es.len() == 1 {
        0int
    } else {
        spec_align8(el)
    }));
    assert(u32_at(esub, 4) == e0.file_index);
    assert(u32_at(b, pos + 4) == u32_at(esub, 4));
    assert(esub.subrange(8, 16) =~= e0.creation_time);
    assert(b.subrange(pos + 8, pos + 16) =~= esub.subrange(8, 16));
    assert(esub.subrange(16, 24) =~= e0.last_access_time);
    assert(b.subrange(pos + 16, pos + 24) =~= esub.subrange(16, 24));
    assert(esub.subrange(24, 32) =~= e0.last_write_time);
    assert(b.subrange(pos + 24, pos + 32) =~= esub.subrange(24, 32));
    assert(esub.subrange(32, 40) =~= e0.change_time);
    assert(b.subrange(pos + 32, pos + 40) =~= esub.subrange(32, 40));
    assert(u64_at(esub, 40) == e0.end_of_file);
    assert(u64_at(b, pos + 40) == u64_at(esub, 40));
    assert(u64_at(esub, 48) == e0.allocation_size);
    assert(u64_at(b, pos + 48) == u64_at(esub, 48));
    assert(u32_at(esub, 56) == e0.file_attributes);
    assert(u32_at(b, pos + 56) == u32_at(esub, 56));
    assert(u32_at(esub, 60) == (2 * e0.file_name.len()) as u32);
    assert(u32_at(b, pos + 60) == u32_at(esub, 60));
    assert((2 * e0.file_name.len()) as u32 as int == nl);
    assert(u32_at(esub, 64) == e0.ea_size);
    assert(u32_at(b, pos + 64) == u32_at(esub, 64));
    assert(esub[68] == e0.short_name_length);
    assert(b[pos + 68] == esub[68]);
    assert(esub.subrange(70, 94) =~= e0.short_name);
    assert(b.subrange(pos + 70, pos + 94) =~= esub.subrange(70, 94));
    assert(u64_at(esub, 96) == e0.file_id);
    assert(u64_at(b, pos + 96) == u64_at(esub, 96));
    assert(esub.subrange(104, 104 + nl) =~= spec_enc_utf16(e0.file_name));
    assert(b.subrange(pos + 104, pos + 104 + nl) =~= esub.subrange(104, 104 + nl));
    lemma_utf16_roundtrip(b, pos + 104, e0.file_name);
    assert(nl / 2 == e0.file_name.len());
    if es.len() == 1 {
        assert(seq![e0] =~= es);
    } else {
        let rest = es.skip(1);
        let step = spec_align8(el);
        assert(sub.subrange(step, total) =~= spec_enc_dir_entries(rest));
        assert(b.subrange(pos + step, pos + step + dir_entries_enc_len(rest)) =~= sub.subrange(
            step,
            total,
        ));
        lemma_dir_entries_roundtrip(b, pos + step, rest);
        assert(seq![e0] + rest =~= es);
    }
}

/// An encoded entry chain has nonnegative length.
pub proof fn lemma_dir_entries_enc_len_nonneg(es: Seq<FileIdBothDirectoryInformationV>)
    ensures
        dir_entries_enc_len(es) >= 0,
    decreases es.len(),
{
    if es.len() > 1 {
        lemma_dir_entries_enc_len_nonneg(es.skip(1));
    }
}

/// A query-directory response: the listed entries.
#[derive(Clone, Debug, PartialEq, Eq)]
pub struct QueryDirectoryResponse {
    pub entries: Vec<FileIdBothDirectoryInformation>,
}

/// The mathematical value of a [`QueryDirectoryResponse`].
pub struct QueryDirectoryResponseV {
    pub entries: Seq<FileIdBothDirectoryInformationV>,
}

impl View for QueryDirectoryResponse {
    type V = QueryDirectoryResponseV;

    open spec fn view(&self) -> QueryDirectoryResponseV {
        QueryDirectoryResponseV { entries: dir_views_of(self.entries@) }
    }
}

/// A representable query-directory response.
pub open spec fn wf_query_directory_response(m: QueryDirectoryResponseV) -> bool {
    wf_dir_entries(m.entries)
}

/// The byte layout of a query-directory response body: fixed fields, then
/// the entry chain at absolute offset 72.
pub open spec fn spec_enc_query_directory_response(m: QueryDirectoryResponseV) -> Seq<u8> {
    spec_le16(9) + spec_le16(72) + spec_le32(dir_entries_enc_len(m.entries) as u32)
        + spec_enc_dir_entries(m.entries)
}

/// The query-directory response denoted by the frame `b`.
pub open spec fn spec_dec_query_directory_response(b: Seq<u8>) -> Result<
    QueryDirectoryResponseV,
    CodecError,
> {
    if b.len() < 72 {
        Err(CodecError::Truncated)
    } else {
        let bl = u32_at(b, 68) as int;
        if bl == 0 {
            Ok(QueryDirectoryResponseV { entries: Seq::empty() })
        } else {
            let bo = u16_at(b, 66) as int;
            match spec_dec_dir_entries(b, bo) {
                Err(e) => Err(e),
                Ok(es) => Ok(QueryDirectoryResponseV { entries: es }),
            }
        }
    }
}

/// Appends the encoding of a query-directory response body.
pub fn encode_query_directory_response(out: &mut Vec<u8>, m: &QueryDirectoryResponse)
    requires
        wf_query_directory_response(m@),
    ensures
        final(out)@ == old(out)@ + spec_enc_query_directory_response(m@),
{
    put_u16(out, 9);
    put_u16(out, 72);
    let ghost total = dir_entries_enc_len(m@.entries);
    let mut chain: Vec<u8> = Vec::new();
    encode_dir_entries_from(&mut chain, &m.entries, 0);
    assert(dir_views_of(m.entries@).skip(0) =~= m@.entries);
    proof {
        lemma_enc_dir_entries_len(m@.entries);
        lemma_dir_entries_enc_len_nonneg(m@.entries);
    }
    put_u32(out, chain.len() as u32);
    put_bytes(out, &chain);
    assert(out@ =~= old(out)@ + spec_enc_query_directory_response(m@));
}

/// Decodes the query-directory response carried by the frame `b`.
pub fn decode_query_directory_response(b: &Vec<u8>) -> (r: Result<
    QueryDirectoryResponse,
    CodecError,
>)
    ensures
        match r {
            Ok(m) => spec_dec_query_directory_response(b@) == Ok::<
                QueryDirectoryResponseV,
                CodecError,
            >(m@),
            Err(e) => spec_dec_query_directory_response(b@) == Err::<
                QueryDirectoryResponseV,
                CodecError,
            >(e),
        },
{
    if b.len() < 72 {
        return Err(CodecError::Truncated);
    }
    let bl = read_u32(b, 68);
    let mut entries: Vec<FileIdBothDirectoryInformation> = Vec::new();
    if bl == 0 {
        assert(dir_views_of(entries@) =~= Seq::<FileIdBothDirectoryInformationV>::empty());
        return Ok(QueryDirectoryResponse { entries });
    }
    let bo = read_u16(b, 66);
    match decode_dir_entries_into(b, bo as usize, &mut entries) {
        Err(e) => Err(e),
        Ok(_) => {
            assert(dir_views_of(entries@) =~= Seq::<
                FileIdBothDirectoryInformationV,
            >::empty() + spec_dec_dir_entries(b@, u16_at(b@, 66) as int)->Ok_0);
            Ok(QueryDirectoryResponse { entries })
        },
    }
}

/// Decoding an encoded query-directory response, behind any 64-byte header,
/// yields the response back.
#[verifier::rlimit(80)]
pub proof fn lemma_query_directory_response_roundtrip(hdr: Seq<u8>, m: QueryDirectoryResponseV)
    requires
        hdr.len() == 64,
        wf_query_directory_response(m),
    ensures
        spec_dec_query_directory_response(hdr + spec_enc_query_directory_response(m)) == Ok::<
            QueryDirectoryResponseV,
            CodecError,
        >(m),
{
    broadcast use lemma_le16_combine;
    broadcast use lemma_le32_combine;

    let body = spec_enc_query_directory_response(m);
    let b = hdr + body;
    lemma_enc_dir_entries_len(m.entries);
    lemma_dir_entries_enc_len_nonneg(m.entries);
    let total = dir_entries_enc_len(m.entries);
    assert(u16_at(b, 66) == 72);
    assert(u32_at(b, 68) == total as u32);
    assert(total as u32 as int == total);
    if m.entries.len() == 0 {
        assert(total == 0);
        assert(m.entries =~= Seq::<FileIdBothDirectoryInformationV>::empty());
    } else {
        assert(total >= dir_entry_len(m.entries[0])) by {
            if m.entries.len() > 1 {
                lemma_dir_entries_enc_len_nonneg(m.entries.skip(1));
            }
        }
        assert(total != 0);
        assert(b.subrange(72, 72 + total) =~= spec_enc_dir_entries(m.entries));
        lemma_dir_entries_roundtrip(b, 72, m.entries);
    }
}

} // verus!
