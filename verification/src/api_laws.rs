//! What the functions of the library return, one by one and together, whatever call it is that
//! they return from.
use vstd::prelude::*;
use vstd::utf8::*;

use crate::archive::Archive;
use crate::charset::{detect_encoding, encoding_for_label};
use crate::dates::{MsdosTimestamp, NtfsTimestamp, Timestamp};
use crate::directory::{DirectoryHeader, DirectoryHeaderView};
use crate::encoding::{detect_utf8, Encoding};
use crate::eocd::{
    EndOfCentralDirectory, EndOfCentralDirectory64Locator, EndOfCentralDirectory64Record,
    EndOfCentralDirectoryRecord, Located,
};
use crate::error::{DecodingError, Error, FormatError, IoErrorKind, ZipParseResult};
use crate::extra::{ExtraField, ExtraFieldRecord, ExtraFieldSettings};
use crate::reader::ArchiveReader;
use crate::types::{Method, StoredEntry, ZipString};

verus! {

/// A header is parsed exactly where one is written.
pub proof fn parsed_headers_are_written(i: &[u8], res: ZipParseResult<'_, DirectoryHeader>)
    requires
        call_ensures(DirectoryHeader::parse, (i,), res),
    ensures
        match res {
            Ok((rest, h)) => crate::written::is_header(i@, h@, rest@),
            Err(_) => !crate::reader_laws::starts_header(i@),
        },
{
    match res {
        Ok((rest, h)) => {
            crate::written::headers_are_read_as_written(i@, h@, rest@);
        },
        Err(_) => {
            crate::reader_laws::lemma_starts_header(i@);
        },
    }
}

/// An end of central directory record is parsed exactly where one is written.
pub proof fn parsed_records_are_written(
    i: &[u8],
    res: ZipParseResult<'_, EndOfCentralDirectoryRecord>,
)
    requires
        call_ensures(EndOfCentralDirectoryRecord::parse, (i,), res),
    ensures
        match res {
            Ok((rest, r)) => crate::written::is_end_record(i@, r@, rest@),
            Err(_) => !crate::reader_laws::starts_record(i@),
        },
{
    match res {
        Ok((rest, r)) => {
            crate::written::end_records_are_read_as_written(i@, r@, rest@);
        },
        Err(_) => {
            crate::reader_laws::lemma_starts_record(i@);
        },
    }
}

/// A zip64 locator is parsed exactly where one is written.
pub proof fn parsed_locators_are_written(
    i: &[u8],
    res: ZipParseResult<'_, EndOfCentralDirectory64Locator>,
)
    requires
        call_ensures(EndOfCentralDirectory64Locator::parse, (i,), res),
    ensures
        match res {
            Ok((rest, l)) => crate::written::is_locator(i@, l, rest@),
            Err(_) => !crate::reader_laws::starts_locator(i@),
        },
{
    match res {
        Ok((rest, l)) => {
            crate::written::locators_are_read_as_written(i@, l, rest@);
        },
        Err(_) => {
            crate::reader_laws::lemma_starts_locator(i@);
        },
    }
}

/// A zip64 record is parsed exactly where one is written.
pub proof fn parsed_zip64_records_are_written(
    i: &[u8],
    res: ZipParseResult<'_, EndOfCentralDirectory64Record>,
)
    requires
        call_ensures(EndOfCentralDirectory64Record::parse, (i,), res),
    ensures
        match res {
            Ok((rest, r)) => crate::written::is_end_record64(i@, r, rest@),
            Err(_) => !crate::reader_laws::starts_record64(i@),
        },
{
    match res {
        Ok((rest, r)) => {
            crate::written::end_records64_are_read_as_written(i@, r, rest@);
        },
        Err(_) => {
            crate::reader_laws::lemma_starts_record64(i@);
        },
    }
}

/// The record that is found in a block is the last one that starts in it.
pub proof fn found_records_are_the_last(
    b: &[u8],
    res: Option<Located<EndOfCentralDirectoryRecord>>,
)
    requires
        call_ensures(EndOfCentralDirectoryRecord::find_in_block, (b,), res),
        b.len() <= usize::MAX,
    ensures
        match res {
            Some(found) => {
                &&& found.offset <= b@.len()
                &&& exists|rest: Seq<u8>| #[trigger]
                    crate::written::is_end_record(b@.skip(found.offset as int), found.inner@, rest)
                &&& forall|j: int|
                    found.offset < j <= b@.len() ==> !crate::reader_laws::starts_record(
                        #[trigger] b@.skip(j),
                    )
            },
            None => forall|j: int|
                0 <= j <= b@.len() ==> !crate::reader_laws::starts_record(#[trigger] b@.skip(j)),
        },
{
    assert(b@.len() == b.len());
    crate::eocd::finds_the_last_record(b@);
    assert forall|j: int| 0 <= j <= b@.len() implies (crate::eocd::eocd_record(#[trigger] b@.skip(j)) is Ok
        <==> crate::reader_laws::starts_record(b@.skip(j))) by {
        crate::reader_laws::lemma_starts_record(b@.skip(j));
    }
    if let Some(found) = res {
        let s = b@.skip(found.offset as int);
        let (rest, r) = crate::eocd::eocd_record(s)->Ok_0;
        crate::written::end_records_are_read_as_written(s, r, rest);
        assert(crate::written::is_end_record(s, found.inner@, rest));
    }
}

/// A raw extra field is parsed exactly where one is written.
pub proof fn parsed_raw_fields_are_written<'a>(
    i: &'a [u8],
    res: ZipParseResult<'a, ExtraFieldRecord<'a>>,
)
    requires
        call_ensures(ExtraFieldRecord::parse, (i,), res),
    ensures
        match res {
            Ok((rest, r)) => {
                &&& r.payload@.len() <= 0xffff
                &&& i@ == crate::extra_written::record_bytes(r.tag, r.payload@) + rest@
            },
            Err(_) => i@.len() < 4 || i@.len() < 4 + i@[2] + 0x100 * i@[3],
        },
{
    crate::extra_written::raw_fields_are_written_as_read(i@);
}

/// An extra field is parsed for a header as what its bytes mean.
pub proof fn parsed_extra_fields_mean_their_bytes<'a>(
    i: &'a [u8],
    settings: &ExtraFieldSettings,
    h: DirectoryHeaderView,
    tag: u16,
    payload: Seq<u8>,
    rest: Seq<u8>,
    res: ZipParseResult<'a, ExtraField>,
)
    requires
        call_ensures(ExtraField::parse, (i, settings), res),
        settings.needs_uncompressed_size == (h.uncompressed_size == 0xffff_ffff),
        settings.needs_compressed_size == (h.compressed_size == 0xffff_ffff),
        settings.needs_header_offset == (h.header_offset == 0xffff_ffff),
        payload.len() <= 0xffff,
        i@ == crate::extra_written::record_bytes(tag, payload) + rest,
    ensures
        res matches Ok((behind, field)) && {
            &&& behind@ == rest
            &&& crate::extra_written::represents(h, tag, payload, field@)
        },
{
    crate::extra_written::raw_fields_are_read_as_written(tag, payload, rest);
    crate::extra_written::extra_fields_mean_their_bytes(h, tag, payload);
}

/// The entry for a header says what the header says: of the fields themselves.
pub proof fn returned_entries_keep_what_their_headers_say(
    h: DirectoryHeader,
    encoding: Encoding,
    e: StoredEntry,
)
    requires
        call_ensures(
            DirectoryHeader::as_stored_entry,
            (&h, encoding),
            Ok::<StoredEntry, Error>(e),
        ),
    ensures
        e.crc32 == h.crc32,
        e.creator_version == h.creator_version,
        e.reader_version == h.reader_version,
        e.flags == h.flags,
        e.external_attrs == h.external_attrs,
        e.entry.method is Store <==> h.method == 0,
        e.entry.method is Deflate <==> h.method == 8,
        h.method != 0 && h.method != 8 ==> e.entry.method == Method::Unsupported(h.method),
        h.compressed_size < 0xffff_ffff ==> e.compressed_size == h.compressed_size,
        h.uncompressed_size < 0xffff_ffff ==> e.uncompressed_size == h.uncompressed_size,
        h.header_offset < 0xffff_ffff ==> e.header_offset == h.header_offset,
        crate::entry_laws::is_text_of(encoding, h.name.0@, e.entry.name@),
        e.entry.comment matches Some(text) ==> h.comment.0@.len() > 0
            && crate::entry_laws::is_text_of(encoding, h.comment.0@, text@),
        e.entry.comment is None ==> h.comment.0@.len() == 0,
{
    crate::entry_laws::entries_keep_what_their_headers_say(h@, encoding, e@);
    crate::entry_laws::entries_are_named_and_commented(h@, encoding, e@);
}

/// Decoding returns the text that bytes stand for, or refuses bytes that stand for none.
pub proof fn returned_texts_are_what_bytes_stand_for(
    encoding: Encoding,
    bytes: &[u8],
    res: Result<String, DecodingError>,
)
    requires
        call_ensures(Encoding::decode, (&encoding, bytes), res),
    ensures
        match res {
            Ok(text) => {
                &&& crate::entry_laws::is_decodable(encoding, bytes@)
                &&& crate::entry_laws::is_text_of(encoding, bytes@, text@)
            },
            Err(e) => {
                &&& !crate::entry_laws::is_decodable(encoding, bytes@)
                &&& e == crate::entry_laws::decoding_error(encoding, bytes@)
            },
        },
{
    crate::entry_laws::texts_are_what_bytes_stand_for(encoding, bytes@);
}

/// Text is reported as valid UTF-8 exactly if it is, and as text that has to be UTF-8 exactly if it
/// has a byte besides that is not plain.
pub proof fn reports_on_utf8_are_true(bytes: &[u8], res: (bool, bool))
    requires
        call_ensures(detect_utf8, (bytes,), res),
    ensures
        res.0 <==> valid_utf8(bytes@),
        res.1 <==> valid_utf8(bytes@) && !crate::archive_laws::all_plain(bytes@),
{
    crate::archive_laws::plain_text_needs_no_utf8(bytes@);
}

/// A header is reported as one that is not in UTF-8 exactly if a text of it is not valid, or not
/// plain and not marked.
pub proof fn reports_on_headers_are_true(h: DirectoryHeader, res: bool)
    requires
        call_ensures(DirectoryHeader::is_non_utf8, (&h,), res),
    ensures
        res <==> {
            ||| !valid_utf8(h.name.0@)
            ||| !valid_utf8(h.comment.0@)
            ||| (!crate::archive_laws::all_plain(h.name.0@) || !crate::archive_laws::all_plain(
                h.comment.0@,
            )) && h.flags & 0x800 == 0
        },
{
    crate::archive_laws::headers_are_in_utf8_or_not(h@);
}

/// Labels name Shift JIS and UTF-8, and all others codepage 437.
pub proof fn labels_name_two_encodings(label: &str, res: Encoding)
    requires
        call_ensures(encoding_for_label, (label,), res),
    ensures
        res == Encoding::ShiftJis <==> label@ == "SHIFT_JIS"@,
        res == Encoding::Utf8 <==> label@ == "utf-8"@,
{
    reveal_strlit("SHIFT_JIS");
    reveal_strlit("utf-8");
    assert("SHIFT_JIS"@[0] == 'S' && "utf-8"@[0] == 'u');
}

/// A guess of the encoding from headers is UTF-8 where no text is doubtful, and otherwise goes by
/// what is detected in the first doubtful texts.
pub proof fn guesses_go_by_the_doubtful_texts(headers: &[DirectoryHeader], res: Encoding)
    requires
        call_ensures(detect_encoding, (headers,), res),
    ensures
        ({
            let views = crate::directory::header_views(headers@);
            let texts = crate::charset::sample(views, 4096);
            let charset = crate::charset::detected_charset(texts);
            if crate::archive_laws::doubtful_texts(views).len() == 0 {
                res == Encoding::Utf8
            } else if crate::archive_laws::is_escaped(texts) {
                res == Encoding::Cp437
            } else {
                &&& res == Encoding::ShiftJis <==> charset == "SHIFT_JIS"@
                &&& res == Encoding::Utf8 <==> charset == "utf-8"@
            }
        }),
{
    crate::archive_laws::encodings_are_detected(crate::directory::header_views(headers@));
}

/// MS-DOS times come out as the seconds to the date and the time of day that they are put together
/// of.
pub proof fn returned_msdos_times_are_counted(
    year: int,
    month: int,
    day: int,
    hour: int,
    min: int,
    half: int,
    t: MsdosTimestamp,
    res: Option<Timestamp>,
)
    requires
        call_ensures(MsdosTimestamp::to_datetime, (&t,), res),
        1980 <= year < 2108,
        1 <= month <= 12,
        1 <= day <= crate::entry_laws::days_through(year, month) - crate::entry_laws::days_through(
            year,
            month - 1,
        ),
        0 <= hour < 24,
        0 <= min < 60,
        0 <= half < 30,
        t.date == (year - 1980) * 512 + month * 32 + day,
        t.time == hour * 2048 + min * 32 + half,
    ensures
        res matches Some(time) && {
            &&& time.nanos == 0
            &&& time.secs == (crate::entry_laws::days_to_year(year)
                + crate::entry_laws::days_through(year, month - 1) + day - 1) * 86_400 + hour
                * 3_600 + min * 60 + half * 2
        },
{
    crate::entry_laws::msdos_times_are_counted(year, month, day, hour, min, half, t);
}

/// NTFS times come out as the points in time that their ticks stand for.
pub proof fn returned_ntfs_times_are_counted(t: NtfsTimestamp, res: Option<Timestamp>)
    requires
        call_ensures(NtfsTimestamp::to_datetime, (&t,), res),
    ensures
        res matches Some(time) && crate::entry_laws::is_ntfs_time(time, t),
{
    crate::entry_laws::ntfs_times_are_counted(t);
}

/// The files of an archive, and those that are found in it by name, go together: the first one with
/// the name is found, and none exactly if none has it.
pub proof fn files_are_found_by_name(
    a: Archive,
    list: &[StoredEntry],
    name: &str,
    res: Option<&StoredEntry>,
)
    requires
        call_ensures(Archive::entries, (&a,), list),
        call_ensures(Archive::by_name, (&a, name), res),
    ensures
        match res {
            Some(e) => exists|k: int|
                {
                    &&& 0 <= k < list@.len()
                    &&& (#[trigger] list@[k])@ == e@
                    &&& list@[k].entry.name@ == name@
                    &&& forall|j: int|
                        0 <= j < k ==> (#[trigger] list@[j]).entry.name@ != name@
                },
            None => forall|k: int|
                0 <= k < list@.len() ==> (#[trigger] list@[k]).entry.name@ != name@,
        },
{
    let views = crate::archive::entry_views(list@);
    assert forall|k: int| 0 <= k < list@.len() implies views[k] == (#[trigger] list@[k])@ by {}
    if let Some(e) = res {
        let k = choose|k: int|
            {
                &&& 0 <= k < a@.entries.len()
                &&& #[trigger] a@.entries[k] == e@
                &&& e@.entry.name == name@
                &&& forall|j: int|
                    0 <= j < k ==> (#[trigger] a@.entries[j]).entry.name != name@
            };
        assert(list@[k]@ == e@);
        assert forall|j: int| 0 <= j < k implies (#[trigger] list@[j]).entry.name@ != name@ by {
            assert(a@.entries[j] == list@[j]@);
        }
    }
}

/// An archive that is made of headers has one file for each of them, in their order, as they
/// describe it, and hands out its encoding and its comment.
pub proof fn archives_hand_out_what_they_are_made_of(
    size: u64,
    comment: ZipString,
    headers: &[DirectoryHeader],
    encoding: Encoding,
    a: Archive,
    list: &[StoredEntry],
    used: Encoding,
    text: Option<&String>,
)
    requires
        call_ensures(
            Archive::from_directory,
            (size, &comment, headers, encoding),
            Ok::<Archive, Error>(a),
        ),
        call_ensures(Archive::entries, (&a,), list),
        call_ensures(Archive::encoding, (&a,), used),
        call_ensures(Archive::comment, (&a,), text),
    ensures
        used == encoding,
        list@.len() == headers@.len(),
        forall|k: int|
            0 <= k < headers@.len() ==> crate::directory::stored_entry(headers@[k]@, encoding)
                == Ok::<_, Error>((#[trigger] list@[k])@),
        match text {
            Some(t) => comment.0@.len() > 0 && crate::entry_laws::is_text_of(
                encoding,
                comment.0@,
                t@,
            ),
            None => comment.0@.len() == 0,
        },
{
    let views = crate::directory::header_views(headers@);
    let shown = crate::archive::entry_views(list@);
    crate::entry_laws::comments_are_what_bytes_stand_for(encoding, comment@);
    crate::laws::one_entry_per_header(views, encoding, a@.entries);
    assert forall|k: int| 0 <= k < headers@.len() implies crate::directory::stored_entry(
        headers@[k]@,
        encoding,
    ) == Ok::<_, Error>((#[trigger] list@[k])@) by {
        assert(shown[k] == list@[k]@);
        assert(views[k] == headers@[k]@);
        assert(crate::directory::stored_entry(views[k], encoding) == Ok::<_, Error>(
            a@.entries[k],
        ));
    }
}

/// The records of an archive are put together so that the directory starts where it has to: if it
/// ends where the record begins that describes it and starts within the file then, there, and
/// otherwise where that record says.
pub proof fn returned_directories_end_where_their_records_begin(
    size: u64,
    dir: Located<EndOfCentralDirectoryRecord>,
    dir64: Option<Located<EndOfCentralDirectory64Record>>,
    res: Result<EndOfCentralDirectory, Error>,
    start: u64,
    length: u64,
    records: u64,
)
    requires
        call_ensures(EndOfCentralDirectory::new, (size, dir, dir64), res),
        res matches Ok(eocd) ==> {
            &&& call_ensures(EndOfCentralDirectory::directory_offset, (&eocd,), start)
            &&& call_ensures(EndOfCentralDirectory::directory_size, (&eocd,), length)
            &&& call_ensures(EndOfCentralDirectory::directory_records, (&eocd,), records)
        },
    ensures
        ({
            let (end, size_there, recorded, count) = match dir64 {
                Some(d) => (
                    d.offset as int,
                    d.inner.directory_size as int,
                    d.inner.directory_offset as int,
                    d.inner.directory_records as int,
                ),
                None => (
                    dir.offset as int,
                    dir.inner.directory_size as int,
                    dir.inner.directory_offset as int,
                    dir.inner.directory_records as int,
                ),
            };
            let fits = size_there <= end && end - size_there < size && (dir64 is Some || end
                - size_there <= 0xffff_ffff);
            let impossible = end < size_there && size <= end - size_there
                + 0x1_0000_0000_0000_0000;
            match res {
                Ok(eocd) => {
                    &&& start < size
                    &&& length == size_there
                    &&& records == count
                    &&& fits ==> start == end - size_there
                    &&& fits && -0x8000_0000_0000_0000 <= start - recorded < 0x8000_0000_0000_0000
                        ==> eocd.global_offset == start - recorded
                    &&& impossible ==> start == recorded && eocd.global_offset == 0
                    &&& size_there <= end && end - size_there >= size ==> start == recorded
                        && eocd.global_offset == 0
                },
                Err(e) => {
                    &&& !fits
                    &&& impossible ==> recorded >= size
                    &&& e == Error::Format(FormatError::DirectoryOffsetPointsOutsideFile)
                },
            }
        }),
{
    crate::archive_laws::directories_end_where_their_records_begin(size, dir@, dir64);
    if let Ok(eocd) = res {
        crate::archive_laws::zip64_records_take_precedence(eocd@);
    }
}

/// A new reader wants the end of the file, and has room for 128 kilobytes.
pub proof fn new_readers_want_the_end(
    size: u64,
    r: ArchiveReader,
    wanted: Option<u64>,
    space: usize,
)
    requires
        call_ensures(ArchiveReader::new, (size,), r),
        call_ensures(ArchiveReader::wants_read, (&r,), wanted),
        call_ensures(ArchiveReader::available_space, (&r,), space),
    ensures
        size == 0 ==> wanted is None,
        0 < size <= 66_560 ==> wanted == Some(0u64),
        size > 66_560 ==> wanted == Some((size - 66_560) as u64),
        space == 131_072,
{
    crate::reader_laws::readers_want_what_comes_next(r@);
}

/// A file that is shorter than announced is refused as cut off.
pub proof fn short_files_are_cut_off(file: &[u8], size: u64, res: Result<Archive, Error>)
    requires
        call_ensures(Archive::read, (file, size), res),
        file.len() < size,
    ensures
        res matches Err(e) && e == Error::IO(IoErrorKind::UnexpectedEof),
{
    assert(file@.len() == file.len());
    crate::reader_laws::short_files_are_refused(file@, size);
    crate::whole_file::reading_is_determined(
        file@,
        crate::reader::ReaderView::initial(size),
        crate::archive::archive_view(res),
        Err(Error::IO(IoErrorKind::UnexpectedEof)),
    );
}

/// A file without an end of central directory record in its last 65 kilobytes is refused for that.
pub proof fn files_without_records_are_refused(file: &[u8], res: Result<Archive, Error>)
    requires
        call_ensures(Archive::read, (file, file.len() as u64), res),
        file.len() >= 19,
        forall|j: int|
            0 <= j <= file@.len() && file@.len() - j <= 66_560
                ==> !crate::reader_laws::starts_record(#[trigger] file@.skip(j)),
    ensures
        res matches Err(e) && e == Error::Format(FormatError::DirectoryEndSignatureNotFound),
{
    assert(file@.len() == file.len());
    crate::reader_laws::records_are_not_found_elsewhere(file@);
    assert(crate::whole_file::is_readable(file@));
}

/// A zip file with anything before it is read as the archive with the headers of its directory.
pub proof fn appended_archives_are_read(
    file: &[u8],
    before: Seq<u8>,
    directory: Seq<u8>,
    record: Seq<u8>,
    res: Result<Archive, Error>,
)
    requires
        call_ensures(Archive::read, (file, file.len() as u64), res),
        file@ == before + directory + record,
        before.len() <= u32::MAX,
        crate::whole_file::is_directory(directory),
        directory.len() <= 131_072,
        crate::whole_file::is_last_record(record),
        (crate::eocd::eocd_record(record)->Ok_0).1.directory_size == directory.len(),
        before.len() + directory.len() >= 20 ==> !crate::bytes::has_signature(
            (before + directory).skip(before.len() + directory.len() - 20),
            0x06,
            0x07,
        ),
    ensures
        crate::archive::archive_view(res) == crate::whole_file::directory_archive(
            file.len() as u64,
            (crate::eocd::eocd_record(record)->Ok_0).1.directory_records as u64,
            (crate::eocd::eocd_record(record)->Ok_0).1.comment,
            crate::whole_file::headers_in(directory),
        ),
{
    assert(file@.len() == file.len());
    crate::whole_file::appended_archive_is_read(before, directory, record);
}

} // verus!
