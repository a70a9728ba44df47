//! The encoding of an archive, guessed from the names and comments of its files.
use vstd::prelude::*;

use crate::directory::{DirectoryHeader, DirectoryHeaderView};
use crate::encoding::Encoding;

verus! {

#[verifier::external_type_specification]
#[verifier::external_body]
pub struct ExUniversalDetector(chardet::UniversalDetector);

/// The texts that a detector was fed, the first one first.
pub uninterp spec fn fed(detector: chardet::UniversalDetector) -> Seq<Seq<u8>>;

/// The name of the charset that a detector finds in the texts that it was fed, one after the
/// other.
pub uninterp spec fn detected_charset(texts: Seq<Seq<u8>>) -> Seq<char>;

/// Calls `UniversalDetector::new` of chardet. Trusted: the new detector was fed nothing.
#[verifier::external_body]
fn new_detector() -> (res: chardet::UniversalDetector)
    ensures
        fed(res) == Seq::<Seq<u8>>::empty(),
{
    chardet::UniversalDetector::new()
}

/// Calls `UniversalDetector::feed` of chardet. Trusted: it changes nothing but what the detector
/// was fed.
#[verifier::external_body]
fn feed_detector(detector: &mut chardet::UniversalDetector, text: &[u8])
    ensures
        fed(*final(detector)) == fed(*old(detector)).push(text@),
{
    detector.feed(text)
}

/// Calls `UniversalDetector::close` of chardet, and takes the name of the charset out of what it
/// returns. Trusted: the name depends on what the detector was fed alone. Texts with escape
/// characters and without high bytes are left out: where their escape sequences are none that
/// the detector knows, it panics.
#[verifier::external_body]
fn close_detector(detector: chardet::UniversalDetector) -> (res: String)
    requires
        !is_escaped_ascii(fed(detector)),
    ensures
        res@ == detected_charset(fed(detector)),
{
    let mut detector = detector;
    detector.close().0
}

/// The label of the encoding for a charset of a detector.
pub open spec fn charset_label(charset: Seq<char>) -> Seq<char> {
    if charset == "CP932"@ {
        "windows-31j"@
    } else if charset == "CP949"@ {
        "windows-949"@
    } else if charset == "MacCyrillic"@ {
        "x-mac-cyrillic"@
    } else {
        charset
    }
}

/// `charset2encoding` of chardet. Trusted: it renames three charsets, and leaves all other names
/// as they are.
pub assume_specification[ chardet::charset2encoding ](enc: &String) -> (res: &str)
    ensures
        res@ == charset_label(enc@),
;

/// The encoding of this library with the given label: codepage 437 where there is none.
pub open spec fn label_encoding(label: Seq<char>) -> Encoding {
    if label == "SHIFT_JIS"@ {
        Encoding::ShiftJis
    } else if label == "utf-8"@ {
        Encoding::Utf8
    } else {
        Encoding::Cp437
    }
}

/// The encoding with the given label.
pub fn encoding_for_label(label: &str) -> (res: Encoding)
    ensures
        res == label_encoding(label@),
{
    let label = label.to_owned();
    if label == "SHIFT_JIS".to_owned() {
        Encoding::ShiftJis
    } else if label == "utf-8".to_owned() {
        Encoding::Utf8
    } else {
        Encoding::Cp437
    }
}

/// The encoding for a charset with the given name.
pub fn encoding_for_charset(charset: &String) -> (res: Encoding)
    ensures
        res == label_encoding(charset_label(charset@)),
{
    encoding_for_label(chardet::charset2encoding(charset))
}

/// Whether a text has an escape character.
pub open spec fn has_escape(text: Seq<u8>) -> bool {
    exists|i: int| 0 <= i < text.len() && text[i] == 0x1b
}

/// Whether a text has a byte past the ASCII range, no-break spaces aside.
pub open spec fn has_high_byte(text: Seq<u8>) -> bool {
    exists|i: int| 0 <= i < text.len() && 0x80 <= #[trigger] text[i] && text[i] != 0xa0
}

/// Whether the texts have escape characters and nothing past the ASCII range, as those have in
/// which escape sequences switch between character sets.
pub open spec fn is_escaped_ascii(texts: Seq<Seq<u8>>) -> bool {
    &&& exists|k: int| 0 <= k < texts.len() && has_escape(#[trigger] texts[k])
    &&& forall|k: int| 0 <= k < texts.len() ==> !has_high_byte(#[trigger] texts[k])
}

/// Detection stops once this many bytes were looked at.
pub const MAX_FEED: usize = 4096;

/// The texts from which the encoding is guessed: the names and the comments of the headers that
/// are not in UTF-8, in order, up to the one that fills `room`.
pub open spec fn sample(headers: Seq<DirectoryHeaderView>, room: nat) -> Seq<Seq<u8>>
    decreases headers.len(),
{
    if headers.len() == 0 {
        Seq::empty()
    } else {
        let (h, more) = (headers[0], headers.skip(1));
        if !crate::directory::is_non_utf8(h) {
            sample(more, room)
        } else if h.name.len() >= room {
            seq![h.name]
        } else if h.name.len() + h.comment.len() >= room {
            seq![h.name, h.comment]
        } else {
            seq![h.name, h.comment] + sample(
                more,
                (room - h.name.len() - h.comment.len()) as nat,
            )
        }
    }
}

/// Whether the names and comments of all the headers are in UTF-8.
pub open spec fn all_utf8(headers: Seq<DirectoryHeaderView>) -> bool {
    forall|k: int|
        0 <= k < headers.len() ==> !crate::directory::is_non_utf8(#[trigger] headers[k])
}

/// The encoding of an archive with the given headers: UTF-8 if all of them are in it, and that
/// for the detected charset otherwise. The charsets that switch by escape sequences are none of
/// this library, so that codepage 437 is taken for such text.
pub open spec fn archive_encoding(headers: Seq<DirectoryHeaderView>) -> Encoding {
    let texts = sample(headers, MAX_FEED as nat);
    if all_utf8(headers) {
        Encoding::Utf8
    } else if is_escaped_ascii(texts) {
        Encoding::Cp437
    } else {
        label_encoding(charset_label(detected_charset(texts)))
    }
}

/// Whether a text has an escape character, and whether it has a byte past the ASCII range.
fn scan(text: &[u8]) -> (res: (bool, bool))
    ensures
        res.0 == has_escape(text@),
        res.1 == has_high_byte(text@),
{
    let mut escape = false;
    let mut high = false;
    let mut k: usize = 0;
    while k < text.len()
        invariant
            k <= text.len(),
            escape == exists|i: int| 0 <= i < k && text@[i] == 0x1b,
            high == exists|i: int| 0 <= i < k && 0x80 <= #[trigger] text@[i] && text@[i] != 0xa0,
        decreases text.len() - k,
    {
        let b: u8 = text[k];
        if b == 0x1b {
            escape = true;
        }
        if b >= 0x80 && b != 0xa0 {
            high = true;
        }
        assert(b == text@[k as int]);
        k = k + 1;
    }
    (escape, high)
}

/// A detector, and what has to be known of the texts that it was fed before it is closed.
struct Recognizer {
    detector: chardet::UniversalDetector,
    escape: bool,
    high: bool,
}

impl Recognizer {
    spec fn wf(self) -> bool {
        &&& self.escape == exists|k: int|
            0 <= k < fed(self.detector).len() && has_escape(#[trigger] fed(self.detector)[k])
        &&& self.high == exists|k: int|
            0 <= k < fed(self.detector).len() && has_high_byte(#[trigger] fed(self.detector)[k])
    }

    fn new() -> (res: Self)
        ensures
            res.wf(),
            fed(res.detector) == Seq::<Seq<u8>>::empty(),
    {
        Recognizer { detector: new_detector(), escape: false, high: false }
    }

    fn feed(&mut self, text: &[u8])
        requires
            old(self).wf(),
        ensures
            final(self).wf(),
            fed(final(self).detector) == fed(old(self).detector).push(text@),
    {
        let ghost before = fed(self.detector);
        let (escape, high) = scan(text);
        feed_detector(&mut self.detector, text);
        self.escape = self.escape || escape;
        self.high = self.high || high;
        proof {
            let after = fed(self.detector);
            assert(after.last() == text@);
            assert forall|k: int| 0 <= k < before.len() implies before[k] == #[trigger] after[k] by {}
            if exists|k: int| 0 <= k < before.len() && has_escape(#[trigger] before[k]) {
                let k = choose|k: int| 0 <= k < before.len() && has_escape(#[trigger] before[k]);
                assert(has_escape(after[k]));
            }
            if exists|k: int| 0 <= k < before.len() && has_high_byte(#[trigger] before[k]) {
                let k = choose|k: int| 0 <= k < before.len() && has_high_byte(#[trigger] before[k]);
                assert(has_high_byte(after[k]));
            }
        }
    }

    fn close(self) -> (res: Encoding)
        requires
            self.wf(),
        ensures
            res == (if is_escaped_ascii(fed(self.detector)) {
                Encoding::Cp437
            } else {
                label_encoding(charset_label(detected_charset(fed(self.detector))))
            }),
    {
        if self.escape && !self.high {
            return Encoding::Cp437;
        }
        encoding_for_charset(&close_detector(self.detector))
    }
}

/// Guesses the encoding of an archive from the headers of its directory.
pub fn detect_encoding(headers: &[DirectoryHeader]) -> (res: Encoding)
    ensures
        res == archive_encoding(crate::directory::header_views(headers@)),
{
    let ghost views = crate::directory::header_views(headers@);
    let mut recognizer = Recognizer::new();
    let mut utf8 = true;
    let mut room: usize = MAX_FEED;
    let mut k: usize = 0;
    assert(views.skip(0) =~= views);
    while k < headers.len()
        invariant_except_break
            k <= headers.len(),
            utf8 == (forall|j: int|
                0 <= j < k ==> !crate::directory::is_non_utf8(#[trigger] views[j])),
            fed(recognizer.detector) + sample(views.skip(k as int), room as nat) == sample(
                views,
                MAX_FEED as nat,
            ),
        invariant
            views == crate::directory::header_views(headers@),
            recognizer.wf(),
        ensures
            utf8 == all_utf8(views),
            fed(recognizer.detector) == sample(views, MAX_FEED as nat),
        decreases headers.len() - k,
    {
        let h = &headers[k];
        assert(views[k as int] == h@);
        assert(views.skip(k as int)[0] == h@);
        assert(views.skip(k as int).skip(1) =~= views.skip(k + 1));
        if h.is_non_utf8() {
            utf8 = false;
            let ghost before = fed(recognizer.detector);
            recognizer.feed(h.name.0.as_slice());
            if h.name.0.len() >= room {
                assert(fed(recognizer.detector) =~= before + seq![h@.name]);
                break;
            }
            recognizer.feed(h.comment.0.as_slice());
            assert(fed(recognizer.detector) =~= before + seq![h@.name, h@.comment]);
            if h.comment.0.len() >= room - h.name.0.len() {
                break;
            }
            room = room - h.name.0.len() - h.comment.0.len();
            assert(fed(recognizer.detector) + sample(views.skip(k + 1), room as nat) =~= before + (
            seq![h@.name, h@.comment] + sample(views.skip(k + 1), room as nat)));
        }
        k = k + 1;
        proof {
            if k == headers.len() {
                assert(views.skip(k as int) =~= Seq::empty());
                assert(fed(recognizer.detector) + Seq::empty() =~= fed(recognizer.detector));
            }
        }
    }
    if utf8 {
        Encoding::Utf8
    } else {
        recognizer.close()
    }
}

} // verus!
