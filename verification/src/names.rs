//! The anatomy of a directory entry's name: stem, extension, and the index
//! that the digits at the end of the stem give to a file.

use crate::text::{
    ascii_lower, decimal_value, from_chars, is_digit, lowercase_ascii, push_str, same_chars,
    texts, to_chars,
};
use vstd::prelude::*;

verus! {

/// Position of the last `.` in a name, or -1 where it holds none.
pub open spec fn last_dot(name: Seq<char>) -> int
    decreases name.len(),
{
    if name.len() == 0 {
        -1
    } else if name.last() == '.' {
        name.len() - 1
    } else {
        last_dot(name.drop_last())
    }
}

/// The name `..`, which stands for the parent directory and has neither
/// stem nor extension of its own.
pub open spec fn is_parent_entry(name: Seq<char>) -> bool {
    name.len() == 2 && name[0] == '.' && name[1] == '.'
}

/// A name has an extension where a `.` stands in it behind at least one
/// other character.
pub open spec fn has_extension(name: Seq<char>) -> bool {
    last_dot(name) > 0 && !is_parent_entry(name)
}

/// What follows the last `.` of a name that has an extension. A name that
/// ends in `.` has the empty extension.
pub open spec fn extension_of(name: Seq<char>) -> Option<Seq<char>> {
    if has_extension(name) {
        Some(name.subrange(last_dot(name) + 1, name.len() as int))
    } else {
        None
    }
}

/// The name without its extension and the `.` in front of it.
pub open spec fn stem_of(name: Seq<char>) -> Seq<char> {
    if has_extension(name) {
        name.subrange(0, last_dot(name))
    } else {
        name
    }
}

/// The last `.` is a `.`, and no `.` follows it.
pub proof fn lemma_last_dot(name: Seq<char>)
    ensures
        -1 <= last_dot(name) < name.len(),
        last_dot(name) >= 0 ==> name[last_dot(name)] == '.',
        forall|i: int| last_dot(name) < i < name.len() ==> name[i] != '.',
    decreases name.len(),
{
    if name.len() > 0 && name.last() != '.' {
        let front = name.drop_last();
        lemma_last_dot(front);
        assert forall|i: int| last_dot(name) < i < name.len() implies name[i] != '.' by {
            if i < front.len() {
                assert(name[i] == front[i]);
            }
        }
    }
}

/// Text without a `.` behind a name leaves the last `.` where it is.
pub proof fn lemma_last_dot_append(name: Seq<char>, tail: Seq<char>)
    requires
        forall|i: int| 0 <= i < tail.len() ==> tail[i] != '.',
    ensures
        last_dot(name + tail) == last_dot(name),
    decreases tail.len(),
{
    if tail.len() == 0 {
        assert(name + tail =~= name);
    } else {
        let whole = name + tail;
        assert(whole.last() == tail.last());
        assert(whole.drop_last() =~= name + tail.drop_last());
        lemma_last_dot_append(name, tail.drop_last());
    }
}

/// A stem that is not empty, a `.` and an extension without a `.` make a
/// name with exactly that stem and that extension.
pub proof fn lemma_extension_of_joined(stem: Seq<char>, extension: Seq<char>)
    requires
        stem.len() > 0,
        extension.len() > 0,
        forall|i: int| 0 <= i < extension.len() ==> extension[i] != '.',
    ensures
        extension_of(stem + seq!['.'] + extension) == Some(extension),
        stem_of(stem + seq!['.'] + extension) == stem,
{
    let dotted = stem + seq!['.'];
    let name = dotted + extension;
    lemma_last_dot_append(dotted, extension);
    assert(dotted.last() == '.');
    assert(last_dot(name) == stem.len());
    assert(name.subrange(stem.len() as int + 1, name.len() as int) =~= extension);
    assert(name.subrange(0, stem.len() as int) =~= stem);
}

/// The extension of a name holds no `.`.
pub proof fn lemma_extension_has_no_dot(name: Seq<char>)
    requires
        has_extension(name),
    ensures
        forall|i: int|
            0 <= i < extension_of(name)->0.len() ==> (#[trigger] extension_of(name)->0[i]) != '.',
{
    lemma_last_dot(name);
}

/// Finds the last `.` of a name.
fn find_last_dot(name: &Vec<char>) -> (at: Option<usize>)
    ensures
        match at {
            Some(i) => i == last_dot(name@),
            None => last_dot(name@) == -1,
        },
{
    let mut i: usize = name.len();
    assert(name@.take(i as int) =~= name@);
    while i > 0
        invariant
            i <= name.len(),
            last_dot(name@) == last_dot(name@.take(i as int)),
        decreases i,
    {
        if name[i - 1] == '.' {
            return Some(i - 1);
        }
        assert(name@.take(i as int).drop_last() =~= name@.take(i - 1));
        i -= 1;
    }
    None
}

/// Where the extension starts in a name: the position behind its last `.`.
fn extension_start(name: &Vec<char>) -> (at: Option<usize>)
    ensures
        at is Some == has_extension(name@),
        at matches Some(i) ==> i == last_dot(name@) + 1 && 2 <= i <= name.len(),
{
    proof {
        lemma_last_dot(name@);
    }
    if name.len() == 2 && name[0] == '.' && name[1] == '.' {
        return None;
    }
    match find_last_dot(name) {
        Some(dot) => if dot > 0 {
            Some(dot + 1)
        } else {
            None
        },
        None => None,
    }
}

/// Copies the characters of `name` from `from` up to `to`.
fn copy_range(name: &Vec<char>, from: usize, to: usize) -> (out: Vec<char>)
    requires
        from <= to <= name.len(),
    ensures
        out@ == name@.subrange(from as int, to as int),
{
    let mut out: Vec<char> = Vec::new();
    let mut i: usize = from;
    while i < to
        invariant
            from <= i <= to <= name.len(),
            out@ == name@.subrange(from as int, i as int),
        decreases to - i,
    {
        out.push(name[i]);
        assert(name@.subrange(from as int, i + 1) =~= name@.subrange(from as int, i as int).push(
            name@[i as int],
        ));
        i += 1;
    }
    out
}

/// The extension of a name, if it has one.
pub fn file_extension(name: &Vec<char>) -> (ext: Option<Vec<char>>)
    ensures
        ext is Some == extension_of(name@) is Some,
        ext matches Some(e) ==> e@ == extension_of(name@)->0,
{
    match extension_start(name) {
        Some(start) => Some(copy_range(name, start, name.len())),
        None => None,
    }
}

/// The stem of a name.
pub fn file_stem(name: &Vec<char>) -> (stem: Vec<char>)
    ensures
        stem@ == stem_of(name@),
{
    match extension_start(name) {
        Some(start) => copy_range(name, 0, start - 1),
        None => {
            let whole = copy_range(name, 0, name.len());
            assert(name@.subrange(0, name.len() as int) =~= name@);
            whole
        },
    }
}

/// The path of an entry of a directory: the directory, a `/` unless the
/// directory is empty or already ends in one, and the entry's name.
pub open spec fn joined_path(directory: Seq<char>, name: Seq<char>) -> Seq<char> {
    if directory.len() == 0 || directory.last() == '/' {
        directory + name
    } else {
        directory + seq!['/'] + name
    }
}

/// The path of the entry `name` of `directory`.
pub fn join_path(directory: &str, name: &str) -> (path: String)
    ensures
        path@ == joined_path(directory@, name@),
{
    let mut out: Vec<char> = to_chars(directory);
    if out.len() > 0 && out[out.len() - 1] != '/' {
        out.push('/');
        assert(out@ =~= directory@ + seq!['/']);
    }
    push_str(&mut out, name);
    from_chars(&out)
}

/// What a caller found where a directory was expected: the names of the
/// regular files directly under it, and the names of its other entries
/// (directories and whatever else is present under a name).
#[derive(Debug, Clone)]
pub struct DirectoryListing {
    pub files: Vec<String>,
    pub others: Vec<String>,
}

/// A directory listing as plain mathematical values.
pub struct ListingModel {
    pub files: Seq<Seq<char>>,
    pub others: Seq<Seq<char>>,
}

impl View for DirectoryListing {
    type V = ListingModel;

    open spec fn view(&self) -> ListingModel {
        ListingModel { files: texts(self.files@), others: texts(self.others@) }
    }
}

/// The message for a directory that is missing or is no directory.
pub open spec fn missing_directory_message(directory: Seq<char>) -> Seq<char> {
    "Directory '"@ + directory + "' does not exist"@
}

/// The view of a listing that may be absent.
pub open spec fn listing_view(listing: Option<&DirectoryListing>) -> Option<ListingModel> {
    match listing {
        Some(found) => Some(found@),
        None => None,
    }
}

/// The digits at the very end of a text: its longest suffix made of ASCII
/// digits only.
pub open spec fn trailing_digits(s: Seq<char>) -> Seq<char>
    decreases s.len(),
{
    if s.len() > 0 && is_digit(s.last()) {
        trailing_digits(s.drop_last()).push(s.last())
    } else {
        Seq::empty()
    }
}

/// The index that a name gives to its file: the number written by the
/// digits at the very end of its stem. There is none where the stem does
/// not end in a digit, or where the number does not fit in 32 bits.
pub open spec fn index_of_name(name: Seq<char>) -> Option<u32> {
    let run = trailing_digits(stem_of(name));
    if run.len() > 0 && decimal_value(run) <= u32::MAX {
        Some(decimal_value(run) as u32)
    } else {
        None
    }
}

/// A stretch of digits with no digit in front of it is the trailing digit
/// run of the text that ends with it.
proof fn lemma_trailing_digits_found(s: Seq<char>, from: int, to: int)
    requires
        0 <= from <= to <= s.len(),
        forall|i: int| from <= i < to ==> is_digit(s[i]),
        from > 0 ==> !is_digit(s[from - 1]),
    ensures
        trailing_digits(s.take(to)) == s.subrange(from, to),
    decreases to - from,
{
    let t = s.take(to);
    if from == to {
        if to > 0 {
            assert(t.last() == s[to - 1]);
        }
        assert(trailing_digits(t) =~= s.subrange(from, to));
    } else {
        assert(t.last() == s[to - 1]);
        assert(t.drop_last() =~= s.take(to - 1));
        lemma_trailing_digits_found(s, from, to - 1);
        assert(s.subrange(from, to - 1).push(s[to - 1]) =~= s.subrange(from, to));
    }
}

/// A text of digits writes at least the number that any of its prefixes
/// writes.
proof fn lemma_decimal_value_grows(digits: Seq<char>, k: int)
    requires
        0 <= k <= digits.len(),
    ensures
        decimal_value(digits.take(k)) <= decimal_value(digits),
    decreases digits.len(),
{
    if k == digits.len() {
        assert(digits.take(k) =~= digits);
    } else {
        let front = digits.drop_last();
        lemma_decimal_value_grows(front, k);
        assert(front.take(k) =~= digits.take(k));
    }
}

/// Finds where the digits at the very end of a text start.
fn find_trailing_digits(stem: &Vec<char>) -> (from: usize)
    ensures
        from <= stem.len(),
        trailing_digits(stem@) == stem@.subrange(from as int, stem.len() as int),
        forall|i: int| from <= i < stem.len() ==> is_digit(stem@[i]),
{
    let to: usize = stem.len();
    let mut from: usize = to;
    while from > 0 && stem[from - 1] >= '0' && stem[from - 1] <= '9'
        invariant
            0 <= from <= to == stem.len(),
            forall|i: int| from <= i < to ==> is_digit(stem@[i]),
        decreases from,
    {
        from -= 1;
    }
    proof {
        lemma_trailing_digits_found(stem@, from as int, to as int);
        assert(stem@.take(to as int) =~= stem@);
    }
    from
}

/// Reads the number that a stretch of digits writes, if it fits in 32 bits.
fn read_decimal(text: &Vec<char>, from: usize, to: usize) -> (value: Option<u32>)
    requires
        from <= to <= text.len(),
        forall|i: int| from <= i < to ==> is_digit(text@[i]),
    ensures
        value is Some == (decimal_value(text@.subrange(from as int, to as int)) <= u32::MAX),
        value matches Some(v) ==> v == decimal_value(text@.subrange(from as int, to as int)),
{
    let ghost run = text@.subrange(from as int, to as int);
    let mut value: u64 = 0;
    let mut i: usize = from;
    assert(run.take(0) =~= Seq::<char>::empty());
    while i < to
        invariant
            from <= i <= to <= text.len(),
            run == text@.subrange(from as int, to as int),
            forall|k: int| from <= k < to ==> is_digit(text@[k]),
            value == decimal_value(run.take(i - from)),
            value <= u32::MAX,
        decreases to - i,
    {
        assert(is_digit(text@[i as int]));
        let digit: u64 = (text[i] as u32 - '0' as u32) as u64;
        let next: u64 = value * 10 + digit;
        proof {
            let grown = run.take(i - from + 1);
            assert(grown.drop_last() =~= run.take(i - from));
            assert(grown.last() == text@[i as int]);
            assert(next == decimal_value(grown));
            lemma_decimal_value_grows(run, i - from + 1);
        }
        if next > u32::MAX as u64 {
            return None;
        }
        value = next;
        i += 1;
    }
    assert(run.take(to - from) =~= run);
    Some(value as u32)
}

/// The index that a directory entry's name gives to its file.
pub fn extract_index(name: &str) -> (index: Option<u32>)
    ensures
        index == index_of_name(name@),
{
    let chars = to_chars(name);
    let stem = file_stem(&chars);
    let from = find_trailing_digits(&stem);
    if from == stem.len() {
        None
    } else {
        read_decimal(&stem, from, stem.len())
    }
}

/// The sets of extensions by which the pipelines recognise their files.
#[derive(Debug, Clone, Copy, PartialEq, Eq)]
pub enum MediaKind {
    Audio,
    Image,
    Subtitle,
}

/// Whether an extension belongs to a kind of media, whatever the case of
/// its ASCII letters. Audio: `wav`, `mp3`, `m4a`, `aac`, `flac`, `ogg`;
/// image: `jpg`, `jpeg`, `png`, `webp`, `bmp`, `tiff`; subtitle: `srt`,
/// `ass`, `vtt`.
pub open spec fn is_extension_of_kind(kind: MediaKind, extension: Seq<char>) -> bool {
    let lower = ascii_lower(extension);
    match kind {
        MediaKind::Audio => lower == "wav"@ || lower == "mp3"@ || lower == "m4a"@ || lower
            == "aac"@ || lower == "flac"@ || lower == "ogg"@,
        MediaKind::Image => lower == "jpg"@ || lower == "jpeg"@ || lower == "png"@ || lower
            == "webp"@ || lower == "bmp"@ || lower == "tiff"@,
        MediaKind::Subtitle => lower == "srt"@ || lower == "ass"@ || lower == "vtt"@,
    }
}

/// Whether a name carries an extension of the given kind of media.
pub open spec fn is_media_name(kind: MediaKind, name: Seq<char>) -> bool {
    extension_of(name) matches Some(extension) && is_extension_of_kind(kind, extension)
}

/// Whether a text is the given word.
fn is_word(text: &Vec<char>, word: &str) -> (same: bool)
    ensures
        same == (text@ == word@),
{
    let other = to_chars(word);
    same_chars(text, &other)
}

/// Whether a name carries an extension of the given kind of media.
pub fn has_media_extension(kind: MediaKind, name: &str) -> (known: bool)
    ensures
        known == is_media_name(kind, name@),
{
    let chars = to_chars(name);
    match file_extension(&chars) {
        None => false,
        Some(extension) => {
            let lower = lowercase_ascii(&extension);
            match kind {
                MediaKind::Audio => is_word(&lower, "wav") || is_word(&lower, "mp3") || is_word(
                    &lower,
                    "m4a",
                ) || is_word(&lower, "aac") || is_word(&lower, "flac") || is_word(&lower, "ogg"),
                MediaKind::Image => is_word(&lower, "jpg") || is_word(&lower, "jpeg") || is_word(
                    &lower,
                    "png",
                ) || is_word(&lower, "webp") || is_word(&lower, "bmp") || is_word(&lower, "tiff"),
                MediaKind::Subtitle => is_word(&lower, "srt") || is_word(&lower, "ass") || is_word(
                    &lower,
                    "vtt",
                ),
            }
        },
    }
}

} // verus!
