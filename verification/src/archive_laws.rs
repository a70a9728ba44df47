//! What an archive says, in terms of the headers and the records that it comes from.
use vstd::prelude::*;
use vstd::utf8::*;

use crate::archive::ArchiveView;
use crate::directory::DirectoryHeaderView;
use crate::encoding::Encoding;
use crate::eocd::{
    EndOfCentralDirectory64Record, EndOfCentralDirectoryRecordView, EndOfCentralDirectoryView,
    Located,
};
use crate::error::{Error, FormatError, IoErrorKind, ParseError};
use crate::types::StoredEntryView;

verus! {

/// Whether a byte stands for the same character in all common encodings.
pub open spec fn is_plain(b: u8) -> bool {
    0x20 <= b <= 0x7d && b != 0x5c
}

/// Whether all bytes stand for the same characters in all common encodings.
pub open spec fn all_plain(bytes: Seq<u8>) -> bool {
    forall|i: int| 0 <= i < bytes.len() ==> is_plain(#[trigger] bytes[i])
}

/// Text has to be UTF-8 exactly if it has a byte that is not plain.
pub proof fn plain_text_needs_no_utf8(bytes: Seq<u8>)
    ensures
        crate::encoding::requires_utf8(bytes) <==> !all_plain(bytes),
{
    if crate::encoding::requires_utf8(bytes) {
        let i = choose|i: int|
            0 <= i < bytes.len() && crate::encoding::is_ambiguous_byte(#[trigger] bytes[i]);
        assert(!is_plain(bytes[i]));
    }
    if !all_plain(bytes) {
        let i = choose|i: int| 0 <= i < bytes.len() && !is_plain(#[trigger] bytes[i]);
        assert(crate::encoding::is_ambiguous_byte(bytes[i]));
    }
}

/// The texts of a header are taken for something else than UTF-8 exactly if one of them is not valid
/// in it, or if one of them is not plain and bit 11 of the flags is not set.
pub proof fn headers_are_in_utf8_or_not(h: DirectoryHeaderView)
    ensures
        crate::directory::is_non_utf8(h) <==> {
            ||| !valid_utf8(h.name)
            ||| !valid_utf8(h.comment)
            ||| (!all_plain(h.name) || !all_plain(h.comment)) && h.flags & 0x800 == 0
        },
{
    plain_text_needs_no_utf8(h.name);
    plain_text_needs_no_utf8(h.comment);
    let flags = h.flags;
    assert(flags / 0x800 % 2 == 1 <==> flags & 0x800 != 0) by (bit_vector);
}

/// The names and comments of the headers that are not in UTF-8, in order.
pub open spec fn doubtful_texts(headers: Seq<DirectoryHeaderView>) -> Seq<Seq<u8>>
    decreases headers.len(),
{
    if headers.len() == 0 {
        Seq::empty()
    } else {
        let h = headers[0];
        let more = doubtful_texts(headers.skip(1));
        if crate::directory::is_non_utf8(h) {
            seq![h.name, h.comment] + more
        } else {
            more
        }
    }
}

/// The sample for detection is the first of the doubtful texts: all of them, or as many as have
/// the wanted number of bytes together.
pub proof fn sample_is_the_first_doubtful_texts(headers: Seq<DirectoryHeaderView>, room: nat)
    requires
        room > 0,
    ensures
        ({
            let texts = crate::charset::sample(headers, room);
            let all = doubtful_texts(headers);
            &&& texts.len() <= all.len()
            &&& texts == all.take(texts.len() as int)
            &&& texts.len() > 0 ==> crate::laws::total_len(texts.drop_last()) < room
            &&& texts.len() < all.len() ==> crate::laws::total_len(texts) >= room
        }),
    decreases headers.len(),
{
    reveal_with_fuel(crate::laws::total_len, 3);
    crate::laws::sample_is_bounded(headers, room);
    let texts = crate::charset::sample(headers, room);
    let all = doubtful_texts(headers);
    if headers.len() == 0 {
        assert(texts =~= all.take(0));
    } else {
        let (h, more) = (headers[0], headers.skip(1));
        if !crate::directory::is_non_utf8(h) {
            sample_is_the_first_doubtful_texts(more, room);
        } else if h.name.len() >= room {
            assert(texts =~= all.take(1));
            assert(texts.skip(1) =~= Seq::empty());
        } else if h.name.len() + h.comment.len() >= room {
            assert(texts =~= all.take(2));
            assert(texts.skip(1) =~= seq![h.comment]);
            assert(texts.skip(1).skip(1) =~= Seq::empty());
        } else {
            let left = (room - h.name.len() - h.comment.len()) as nat;
            let rest = crate::charset::sample(more, left);
            sample_is_the_first_doubtful_texts(more, left);
            assert(texts =~= all.take(texts.len() as int));
            assert(texts.skip(1)[0] == h.comment);
            assert(texts.skip(1).skip(1) =~= rest);
        }
    }
}

/// Whether the texts have an escape character, and nothing past the ASCII range but 0xa0.
pub open spec fn is_escaped(texts: Seq<Seq<u8>>) -> bool {
    &&& exists|k: int, i: int|
        0 <= k < texts.len() && 0 <= i < texts[k].len() && #[trigger] texts[k][i] == 0x1b
    &&& forall|k: int, i: int|
        0 <= k < texts.len() && 0 <= i < texts[k].len() ==> (#[trigger] texts[k][i] < 0x80
            || texts[k][i] == 0xa0)
}

/// Escaped texts are recognized.
proof fn lemma_escaped(texts: Seq<Seq<u8>>)
    ensures
        crate::charset::is_escaped_ascii(texts) <==> is_escaped(texts),
{
    if crate::charset::is_escaped_ascii(texts) {
        let k = choose|k: int|
            0 <= k < texts.len() && crate::charset::has_escape(#[trigger] texts[k]);
        let i = choose|i: int| 0 <= i < texts[k].len() && texts[k][i] == 0x1b;
        assert(texts[k][i] == 0x1b);
        assert forall|k: int, i: int| 0 <= k < texts.len() && 0 <= i < texts[k].len() implies (
        #[trigger] texts[k][i] < 0x80 || texts[k][i] == 0xa0) by {
            assert(!crate::charset::has_high_byte(texts[k]));
        }
    }
    if is_escaped(texts) {
        let (k, i) = choose|k: int, i: int|
            0 <= k < texts.len() && 0 <= i < texts[k].len() && #[trigger] texts[k][i] == 0x1b;
        assert(crate::charset::has_escape(texts[k]));
    }
}

/// The encoding of an archive is UTF-8 where no text is doubtful. Otherwise it is the one that is
/// detected in the first doubtful texts, up to that which completes 4096 bytes: Shift JIS or UTF-8
/// if one of them is, and codepage 437 in all other cases.
pub proof fn encodings_are_detected(headers: Seq<DirectoryHeaderView>)
    ensures
        ({
            let texts = crate::charset::sample(headers, 4096);
            let charset = crate::charset::detected_charset(texts);
            let encoding = crate::charset::archive_encoding(headers);
            if doubtful_texts(headers).len() == 0 {
                encoding == Encoding::Utf8
            } else if is_escaped(texts) {
                encoding == Encoding::Cp437
            } else {
                &&& encoding == Encoding::ShiftJis <==> charset == "SHIFT_JIS"@
                &&& encoding == Encoding::Utf8 <==> charset == "utf-8"@
            }
        }),
{
    let texts = crate::charset::sample(headers, 4096);
    let charset = crate::charset::detected_charset(texts);
    lemma_escaped(texts);
    sample_is_the_first_doubtful_texts(headers, 4096);
    crate::laws::sample_is_bounded(headers, 4096);
    reveal_strlit("SHIFT_JIS");
    reveal_strlit("utf-8");
    reveal_strlit("CP932");
    reveal_strlit("CP949");
    reveal_strlit("MacCyrillic");
    reveal_strlit("windows-31j");
    reveal_strlit("windows-949");
    reveal_strlit("x-mac-cyrillic");
    assert("SHIFT_JIS"@[0] == 'S' && "utf-8"@[0] == 'u' && "CP932"@[0] == 'C' && "CP949"@[0] == 'C'
        && "MacCyrillic"@[0] == 'M' && "windows-31j"@[0] == 'w' && "windows-949"@[0] == 'w'
        && "x-mac-cyrillic"@[0] == 'x');
}

/// Where two archives have the same first doubtful texts, and some, they have the same encoding.
pub proof fn encodings_depend_on_the_sample(
    a: Seq<DirectoryHeaderView>,
    b: Seq<DirectoryHeaderView>,
)
    requires
        crate::charset::sample(a, 4096) == crate::charset::sample(b, 4096),
    ensures
        crate::charset::archive_encoding(a) == crate::charset::archive_encoding(b),
{
    crate::laws::sample_is_bounded(a, 4096);
    crate::laws::sample_is_bounded(b, 4096);
}

/// The number of headers that the records announce.
pub open spec fn announced(eocd: EndOfCentralDirectoryView) -> int {
    match eocd.dir64 {
        Some(d64) => d64.inner.directory_records as int,
        None => eocd.dir.inner.directory_records as int,
    }
}

/// An archive has, in the order of its headers, the entries that they describe in its encoding, and
/// the comment of the end of central directory record in the same encoding. The number of its
/// headers is the announced one in the low 16 bits.
pub proof fn archives_are_what_their_headers_describe(
    size: u64,
    eocd: EndOfCentralDirectoryView,
    headers: Seq<DirectoryHeaderView>,
    archive: ArchiveView,
)
    requires
        crate::reader::finished_archive(size, eocd, headers) == Ok::<_, Error>(archive),
    ensures
        (headers.len() - announced(eocd)) % 0x1_0000 == 0,
        archive.size == size,
        archive.encoding == crate::charset::archive_encoding(headers),
        archive.entries.len() == headers.len(),
        forall|k: int|
            0 <= k < headers.len() ==> crate::directory::stored_entry(headers[k], archive.encoding)
                == Ok::<_, Error>(#[trigger] archive.entries[k]),
        match archive.comment {
            Some(text) => {
                &&& eocd.dir.inner.comment.len() > 0
                &&& crate::entry_laws::is_text_of(
                    archive.encoding,
                    eocd.dir.inner.comment,
                    text,
                )
            },
            None => eocd.dir.inner.comment.len() == 0,
        },
{
    let encoding = crate::charset::archive_encoding(headers);
    crate::entry_laws::comments_are_what_bytes_stand_for(encoding, eocd.dir.inner.comment);
    crate::laws::one_entry_per_header(headers, encoding, archive.entries);
}

/// Whether the first `count` headers describe entries.
#[verifier::opaque]
pub open spec fn describe_entries(
    headers: Seq<DirectoryHeaderView>,
    encoding: Encoding,
    count: int,
) -> bool {
    forall|j: int|
        0 <= j < count ==> crate::directory::stored_entry(#[trigger] headers[j], encoding) is Ok
}

/// Whether the header at `k` describes no entry for the reason `e`, and those before it do.
#[verifier::opaque]
pub open spec fn is_first_failure(
    headers: Seq<DirectoryHeaderView>,
    encoding: Encoding,
    k: int,
    e: Error,
) -> bool {
    &&& 0 <= k < headers.len()
    &&& crate::directory::stored_entry(headers[k], encoding) == Err::<StoredEntryView, _>(e)
    &&& describe_entries(headers, encoding, k)
}

/// The first header that describes no entry is the reason why there are none.
proof fn lemma_first_failure(headers: Seq<DirectoryHeaderView>, encoding: Encoding)
    ensures
        match crate::archive::stored_entries(headers, encoding) {
            Ok(_) => describe_entries(headers, encoding, headers.len() as int),
            Err(e) => {
                &&& !describe_entries(headers, encoding, headers.len() as int)
                &&& exists|k: int| #[trigger] is_first_failure(headers, encoding, k, e)
            },
        },
    decreases headers.len(),
{
    reveal(describe_entries);
    reveal(is_first_failure);
    if headers.len() > 0 {
        let before = headers.drop_last();
        let last = headers.len() - 1;
        assert forall|j: int| 0 <= j < last implies before[j] == #[trigger] headers[j] by {}
        lemma_first_failure(before, encoding);
        match crate::archive::stored_entries(before, encoding) {
            Err(e) => {
                let k = choose|k: int| #[trigger] is_first_failure(before, encoding, k, e);
                assert(is_first_failure(headers, encoding, k, e));
            },
            Ok(_) => {
                if let Err(e) = crate::directory::stored_entry(headers[last], encoding) {
                    assert(is_first_failure(headers, encoding, last, e));
                }
            },
        }
    }
}

/// An archive is refused for a number of headers that is not the announced one in the low 16 bits,
/// then for the first header that describes no entry, and then for a comment that cannot be decoded,
/// and for nothing else.
pub proof fn archives_are_refused_for_a_reason(
    size: u64,
    eocd: EndOfCentralDirectoryView,
    headers: Seq<DirectoryHeaderView>,
    e: Error,
)
    requires
        crate::reader::finished_archive(size, eocd, headers) == Err::<ArchiveView, _>(e),
    ensures
        ({
            let encoding = crate::charset::archive_encoding(headers);
            let comment = eocd.dir.inner.comment;
            if (headers.len() - announced(eocd)) % 0x1_0000 != 0 {
                e == Error::Format(FormatError::InvalidCentralRecord)
            } else if describe_entries(headers, encoding, headers.len() as int) {
                &&& comment.len() > 0
                &&& !crate::entry_laws::is_decodable(encoding, comment)
                &&& e == Error::Encoding(crate::entry_laws::decoding_error(encoding, comment))
            } else {
                exists|k: int| #[trigger] is_first_failure(headers, encoding, k, e)
            }
        }),
{
    let encoding = crate::charset::archive_encoding(headers);
    crate::entry_laws::comments_are_what_bytes_stand_for(encoding, eocd.dir.inner.comment);
    lemma_first_failure(headers, encoding);
    zip64_records_take_precedence(eocd);
}

/// A zip64 record, where there is one, says where the directory is, how large it is and how many
/// headers it has. The end of central directory record says so otherwise.
pub proof fn zip64_records_take_precedence(eocd: EndOfCentralDirectoryView)
    ensures
        match eocd.dir64 {
            Some(d64) => {
                &&& eocd.directory_offset() == d64.inner.directory_offset
                &&& eocd.directory_size() == d64.inner.directory_size
                &&& eocd.directory_records() == d64.inner.directory_records
                &&& eocd.located_directory_offset() == d64.offset
            },
            None => {
                &&& eocd.directory_offset() == eocd.dir.inner.directory_offset
                &&& eocd.directory_size() == eocd.dir.inner.directory_size
                &&& eocd.directory_records() == eocd.dir.inner.directory_records
                &&& eocd.located_directory_offset() == eocd.dir.offset
            },
        },
{
}

/// Where the directory starts: if it ends where the record begins that describes it, and starts
/// within the file then, there, and otherwise where that record says. By how much the two differ is
/// noted, in 64 bits. All that the records say besides stays as it is. A directory that starts
/// outside of the file is refused, and no other is. Without a zip64 record, the start is kept in
/// 32 bits.
pub proof fn directories_end_where_their_records_begin(
    size: u64,
    dir: Located<EndOfCentralDirectoryRecordView>,
    dir64: Option<Located<EndOfCentralDirectory64Record>>,
)
    ensures
        ({
            let (end, length, recorded) = match dir64 {
                Some(d) => (
                    d.offset as int,
                    d.inner.directory_size as int,
                    d.inner.directory_offset as int,
                ),
                None => (
                    dir.offset as int,
                    dir.inner.directory_size as int,
                    dir.inner.directory_offset as int,
                ),
            };
            let computed = if end >= length {
                end - length
            } else {
                end - length + 0x1_0000_0000_0000_0000
            };
            let start = if computed >= size || computed == recorded {
                recorded
            } else if dir64 is Some {
                computed
            } else {
                computed % 0x1_0000_0000
            };
            match crate::eocd::end_of_central_directory(size, dir, dir64) {
                Ok(eocd) => {
                    &&& start < size
                    &&& eocd.dir.offset == dir.offset
                    &&& eocd.dir64 is Some == dir64 is Some
                    &&& match eocd.dir64 {
                        Some(d) => {
                            &&& d.offset == dir64->0.offset
                            &&& d.inner.directory_offset == start
                            &&& d.inner == (EndOfCentralDirectory64Record {
                                directory_offset: d.inner.directory_offset,
                                ..dir64->0.inner
                            })
                            &&& eocd.dir.inner == dir.inner
                        },
                        None => {
                            &&& eocd.dir.inner.directory_offset == start
                            &&& eocd.dir.inner == (EndOfCentralDirectoryRecordView {
                                directory_offset: eocd.dir.inner.directory_offset,
                                ..dir.inner
                            })
                        },
                    }
                    &&& if computed >= size || computed == recorded {
                        eocd.global_offset == 0
                    } else {
                        &&& (eocd.global_offset - (computed - recorded)) % 0x1_0000_0000_0000_0000
                            == 0
                        &&& -0x8000_0000_0000_0000 <= computed - recorded < 0x8000_0000_0000_0000
                            ==> eocd.global_offset == computed - recorded
                    }
                },
                Err(e) => start >= size && e == Error::Format(
                    FormatError::DirectoryOffsetPointsOutsideFile,
                ),
            }
        }),
{
    let found = EndOfCentralDirectoryView { dir, dir64, global_offset: 0 };
    let c = found.computed_directory_offset();
    if found.located_directory_offset() >= found.directory_size() {
        assert(c == found.located_directory_offset() - found.directory_size());
    } else {
        assert(c == found.located_directory_offset() - found.directory_size()
            + 0x1_0000_0000_0000_0000);
    }
}

} // verus!
