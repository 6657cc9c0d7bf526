//! The organizer: renames the files of one directory into a sequential,
//! zero-padded naming scheme, in natural order of their present names.
//!
//! The library plans the renames from a listing of the directory and never
//! touches the file system itself: the caller carries out the outcomes that
//! are marked as changed, in order.

use crate::error::{ErrorKind, PipelineError};
use crate::names::{
    extension_of, file_extension, has_extension, join_path, joined_path, last_dot,
    lemma_extension_has_no_dot, lemma_extension_of_joined, lemma_last_dot_append, listing_view,
    missing_directory_message, DirectoryListing, ListingModel,
};
use crate::natural::{lemma_natural_sorted_permutes, natural_sorted, sort_natural};
use crate::text::{
    ascii_lower, decimal_digits, from_chars, is_digit, join3, join5, lemma_ascii_lower_settles,
    lemma_zero_padded_is_digits, lowercase_ascii, push_chars, push_str, render_decimal,
    render_padded, same_text, texts, to_chars, zero_padded,
};
use vstd::prelude::*;

verus! {

/// The kind of asset that a directory holds.
#[derive(Debug, Clone, Copy, PartialEq, Eq)]
pub enum AssetKind {
    Audio,
    Image,
}

/// What a rename pattern says, as plain mathematical values.
pub struct PatternModel {
    /// What every new name starts with.
    pub prefix: Seq<char>,
    /// What stands between the prefix and the number.
    pub separator: Seq<char>,
    /// The number of the first file.
    pub start_index: nat,
    /// The width to which numbers are zero-filled, where it is fixed.
    pub pad_width: Option<nat>,
    /// Whether extensions are written in lower case.
    pub lowercase_extension: bool,
}

impl PatternModel {
    /// Numbering starts at one or above, and a fixed width is at least one.
    pub open spec fn wf(self) -> bool {
        &&& self.start_index >= 1
        &&& self.pad_width matches Some(width) ==> width >= 1
    }

    /// The number given to the last of `count` files (to the first, where
    /// there is none).
    pub open spec fn last_index(self, count: nat) -> nat {
        if count == 0 {
            self.start_index
        } else {
            (self.start_index + count - 1) as nat
        }
    }

    /// The width of the numbers in a run over `count` files: the fixed
    /// width, or else as many digits as the last number takes.
    pub open spec fn width_for(self, count: nat) -> nat {
        match self.pad_width {
            Some(width) => width,
            None => decimal_digits(self.last_index(count)).len(),
        }
    }

    /// The name of the file with the given number: prefix, separator, the
    /// zero-filled number and, where the file has a non-empty extension, a
    /// `.` and the extension.
    pub open spec fn file_name(self, index: nat, extension: Option<Seq<char>>, width: nat) -> Seq<
        char,
    > {
        let stem = self.prefix + self.separator + zero_padded(index, width);
        match extension {
            Some(ext) => if ext.len() > 0 {
                stem + seq!['.'] + (if self.lowercase_extension {
                    ascii_lower(ext)
                } else {
                    ext
                })
            } else {
                stem
            },
            None => stem,
        }
    }

    /// The new name of the file at position `i` of a directory's files in
    /// natural order. Numbers follow the positions without a gap.
    pub open spec fn target_name(self, sorted: Seq<Seq<char>>, i: int) -> Seq<char> {
        self.file_name(
            (self.start_index + i) as nat,
            extension_of(sorted[i]),
            self.width_for(sorted.len()),
        )
    }

    /// Whether the new name of the file at position `i` is taken when its
    /// turn comes: by a file that the run has named before, by a file that
    /// still waits for its turn, or by another entry of the directory.
    pub open spec fn taken_at(self, sorted: Seq<Seq<char>>, others: Seq<Seq<char>>, i: int) -> bool {
        let target = self.target_name(sorted, i);
        ||| exists|j: int| 0 <= j < i && #[trigger] self.target_name(sorted, j) == target
        ||| exists|j: int| i < j < sorted.len() && #[trigger] sorted[j] == target
        ||| others.contains(target)
    }

    /// Whether the run stops at position `i`: the file there needs a new
    /// name, and that name is taken.
    pub open spec fn collides_at(
        self,
        sorted: Seq<Seq<char>>,
        others: Seq<Seq<char>>,
        i: int,
    ) -> bool {
        self.target_name(sorted, i) != sorted[i] && self.taken_at(sorted, others, i)
    }

    /// What the run records for the file at position `i`.
    pub open spec fn outcome(self, directory: Seq<char>, sorted: Seq<Seq<char>>, i: int) -> OutcomeModel {
        OutcomeModel {
            original: joined_path(directory, sorted[i]),
            renamed: joined_path(directory, self.target_name(sorted, i)),
            changed: self.target_name(sorted, i) != sorted[i],
        }
    }

    /// What the run records for the first `count` files.
    pub open spec fn outcomes(self, directory: Seq<char>, sorted: Seq<Seq<char>>, count: nat) -> Seq<
        OutcomeModel,
    > {
        Seq::new(count, |i: int| self.outcome(directory, sorted, i))
    }
}

/// How the files of a directory are renamed.
#[derive(Debug)]
pub struct RenamePattern {
    prefix: String,
    separator: String,
    start_index: usize,
    pad_width: Option<usize>,
    lowercase_extension: bool,
}

impl View for RenamePattern {
    type V = PatternModel;

    closed spec fn view(&self) -> PatternModel {
        PatternModel {
            prefix: self.prefix@,
            separator: self.separator@,
            start_index: self.start_index as nat,
            pad_width: match self.pad_width {
                Some(width) => Some(width as nat),
                None => None,
            },
            lowercase_extension: self.lowercase_extension,
        }
    }
}

impl Clone for RenamePattern {
    fn clone(&self) -> (copy: RenamePattern)
        ensures
            copy@ == self@,
    {
        proof {
            use_type_invariant(self);
        }
        RenamePattern {
            prefix: self.prefix.clone(),
            separator: self.separator.clone(),
            start_index: self.start_index,
            pad_width: self.pad_width,
            lowercase_extension: self.lowercase_extension,
        }
    }
}

/// The pattern that a kind of asset gets by default: `audio_001`,
/// `image_001` and so on, with lower-case extensions.
pub open spec fn default_pattern_model(kind: AssetKind) -> PatternModel {
    PatternModel {
        prefix: match kind {
            AssetKind::Audio => "audio"@,
            AssetKind::Image => "image"@,
        },
        separator: "_"@,
        start_index: 1,
        pad_width: Some(3nat),
        lowercase_extension: true,
    }
}

impl AssetKind {
    /// The pattern that a kind of asset gets by default.
    pub fn default_pattern(self) -> (pattern: RenamePattern)
        ensures
            pattern@ == default_pattern_model(self),
            pattern@.wf(),
    {
        match self {
            AssetKind::Audio => RenamePattern::new("audio").with_separator("_").with_pad_width(
                3,
            ).lowercase_extension(true),
            AssetKind::Image => RenamePattern::new("image").with_separator("_").with_pad_width(
                3,
            ).lowercase_extension(true),
        }
    }
}

impl RenamePattern {
    #[verifier::type_invariant]
    closed spec fn valid(&self) -> bool {
        self@.wf()
    }

    /// A pattern with the given prefix, a blank as separator, numbers from
    /// one, a width that follows the number of files, and extensions kept
    /// as they are.
    pub fn new(prefix: &str) -> (pattern: RenamePattern)
        ensures
            pattern@ == (PatternModel {
                prefix: prefix@,
                separator: " "@,
                start_index: 1,
                pad_width: None,
                lowercase_extension: false,
            }),
            pattern@.wf(),
    {
        RenamePattern {
            prefix: prefix.to_owned(),
            separator: " ".to_owned(),
            start_index: 1,
            pad_width: None,
            lowercase_extension: false,
        }
    }

    /// The same pattern with another separator between prefix and number.
    pub fn with_separator(self, separator: &str) -> (pattern: RenamePattern)
        ensures
            pattern@ == (PatternModel { separator: separator@, ..self@ }),
            pattern@.wf(),
    {
        proof {
            use_type_invariant(&self);
        }
        RenamePattern {
            prefix: self.prefix,
            separator: separator.to_owned(),
            start_index: self.start_index,
            pad_width: self.pad_width,
            lowercase_extension: self.lowercase_extension,
        }
    }

    /// The same pattern with another prefix.
    pub fn with_prefix(self, prefix: &str) -> (pattern: RenamePattern)
        ensures
            pattern@ == (PatternModel { prefix: prefix@, ..self@ }),
            pattern@.wf(),
    {
        proof {
            use_type_invariant(&self);
        }
        RenamePattern {
            prefix: prefix.to_owned(),
            separator: self.separator,
            start_index: self.start_index,
            pad_width: self.pad_width,
            lowercase_extension: self.lowercase_extension,
        }
    }

    /// The same pattern with numbers that start at `start_index`, or at one
    /// where zero is given.
    pub fn with_start_index(self, start_index: usize) -> (pattern: RenamePattern)
        ensures
            pattern@ == (PatternModel {
                start_index: if start_index == 0 {
                    1nat
                } else {
                    start_index as nat
                },
                ..self@
            }),
            pattern@.wf(),
    {
        proof {
            use_type_invariant(&self);
        }
        RenamePattern {
            prefix: self.prefix,
            separator: self.separator,
            start_index: if start_index == 0 {
                1
            } else {
                start_index
            },
            pad_width: self.pad_width,
            lowercase_extension: self.lowercase_extension,
        }
    }

    /// The same pattern with numbers zero-filled to `pad_width` characters,
    /// or to one where zero is given.
    pub fn with_pad_width(self, pad_width: usize) -> (pattern: RenamePattern)
        ensures
            pattern@ == (PatternModel {
                pad_width: Some(
                    if pad_width == 0 {
                        1nat
                    } else {
                        pad_width as nat
                    },
                ),
                ..self@
            }),
            pattern@.wf(),
    {
        proof {
            use_type_invariant(&self);
        }
        RenamePattern {
            prefix: self.prefix,
            separator: self.separator,
            start_index: self.start_index,
            pad_width: Some(
                if pad_width == 0 {
                    1
                } else {
                    pad_width
                },
            ),
            lowercase_extension: self.lowercase_extension,
        }
    }

    /// The same pattern, writing extensions in lower case or keeping them.
    pub fn lowercase_extension(self, enabled: bool) -> (pattern: RenamePattern)
        ensures
            pattern@ == (PatternModel { lowercase_extension: enabled, ..self@ }),
            pattern@.wf(),
    {
        proof {
            use_type_invariant(&self);
        }
        RenamePattern {
            prefix: self.prefix,
            separator: self.separator,
            start_index: self.start_index,
            pad_width: self.pad_width,
            lowercase_extension: enabled,
        }
    }

    /// The width of the numbers in a run over `item_count` files.
    pub fn pad_width(&self, item_count: usize) -> (width: usize)
        ensures
            width == self@.width_for(item_count as nat),
            self@.wf(),
    {
        proof {
            use_type_invariant(self);
        }
        match self.pad_width {
            Some(width) => width,
            None => {
                let last: u128 = if item_count == 0 {
                    self.start_index as u128
                } else {
                    self.start_index as u128 + (item_count - 1) as u128
                };
                digit_count(last)
            },
        }
    }

    /// The name of the file with the given number.
    pub fn build_file_name(&self, index: u128, extension: Option<&str>, width: usize) -> (name:
        String)
        ensures
            name@ == self@.file_name(
                index as nat,
                match extension {
                    Some(ext) => Some(ext@),
                    None => None,
                },
                width as nat,
            ),
    {
        let mut out: Vec<char> = to_chars(self.prefix.as_str());
        push_str(&mut out, self.separator.as_str());
        let number = format_number(index, width);
        push_str(&mut out, number.as_str());
        match extension {
            Some(ext) => {
                let chars = to_chars(ext);
                if chars.len() > 0 {
                    out.push('.');
                    assert(out@ =~= self@.prefix + self@.separator + zero_padded(
                        index as nat,
                        width as nat,
                    ) + seq!['.']);
                    if self.lowercase_extension {
                        let lower = lowercase_ascii(&chars);
                        push_chars(&mut out, &lower);
                    } else {
                        push_chars(&mut out, &chars);
                    }
                }
            },
            None => {},
        }
        from_chars(&out)
    }
}

/// What became of one file in a run.
#[derive(Debug, Clone)]
pub struct RenameOutcome {
    /// The path of the file before the run.
    pub original: String,
    /// The path of the file after the run.
    pub renamed: String,
    /// Whether the two differ, so that the file has to be moved.
    pub changed: bool,
}

/// A rename outcome as plain mathematical values.
pub struct OutcomeModel {
    pub original: Seq<char>,
    pub renamed: Seq<char>,
    pub changed: bool,
}

impl View for RenameOutcome {
    type V = OutcomeModel;

    open spec fn view(&self) -> OutcomeModel {
        OutcomeModel { original: self.original@, renamed: self.renamed@, changed: self.changed }
    }
}

/// The views of the outcomes of a sequence, in order.
pub open spec fn outcome_views(outcomes: Seq<RenameOutcome>) -> Seq<OutcomeModel> {
    outcomes.map_values(|o: RenameOutcome| o@)
}

/// A run that stopped: why, and what it had done by then. The renames in
/// `completed` stay in place; nothing is undone.
#[derive(Debug, Clone)]
pub struct RenameFailure {
    pub error: PipelineError,
    pub completed: Vec<RenameOutcome>,
}

/// The message for a rename whose destination is taken.
pub open spec fn collision_message(original: Seq<char>, renamed: Seq<char>) -> Seq<char> {
    "Cannot rename '"@ + original + "' to '"@ + renamed
        + "' because the destination already exists."@
}

/// Whether `wanted` is one of the names at positions `from` up to `to`.
fn name_in(names: &Vec<String>, from: usize, to: usize, wanted: &str) -> (found: bool)
    requires
        from <= to <= names.len(),
    ensures
        found == exists|j: int| from <= j < to && #[trigger] names@[j]@ == wanted@,
{
    let mut j: usize = from;
    while j < to
        invariant
            from <= j <= to <= names.len(),
            forall|k: int| from <= k < j ==> #[trigger] names@[k]@ != wanted@,
        decreases to - j,
    {
        if same_text(names[j].as_str(), wanted) {
            return true;
        }
        j += 1;
    }
    false
}

/// What a run over files in a given order returns.
///
/// The run succeeds with one outcome per file where no file's new name is
/// taken. It fails with `Collision` at the first file whose new name is
/// taken, and keeps the outcomes recorded before that file.
pub open spec fn is_rename_run(
    directory: Seq<char>,
    sorted: Seq<Seq<char>>,
    others: Seq<Seq<char>>,
    pattern: PatternModel,
    result: Result<Vec<RenameOutcome>, RenameFailure>,
) -> bool {
    match result {
        Ok(outcomes) => {
            &&& outcome_views(outcomes@) == pattern.outcomes(directory, sorted, sorted.len())
            &&& forall|i: int| 0 <= i < sorted.len() ==> !pattern.collides_at(sorted, others, i)
        },
        Err(failure) => {
            let at = failure.completed@.len() as int;
            &&& at < sorted.len()
            &&& pattern.collides_at(sorted, others, at)
            &&& forall|i: int| 0 <= i < at ==> !pattern.collides_at(sorted, others, i)
            &&& outcome_views(failure.completed@) == pattern.outcomes(directory, sorted, at as nat)
            &&& failure.error.kind == ErrorKind::Collision
            &&& failure.error.message@ == collision_message(
                pattern.outcome(directory, sorted, at).original,
                pattern.outcome(directory, sorted, at).renamed,
            )
        },
    }
}

/// What a run over a listing returns: `NotFound` without a listing, and
/// else what the run over the files in natural order returns.
pub open spec fn is_rename_result(
    directory: Seq<char>,
    listing: Option<ListingModel>,
    pattern: PatternModel,
    result: Result<Vec<RenameOutcome>, RenameFailure>,
) -> bool {
    match listing {
        None => {
            &&& result matches Err(failure)
            &&& failure.error.kind == ErrorKind::NotFound
            &&& failure.error.message@ == missing_directory_message(directory)
            &&& failure.completed@.len() == 0
        },
        Some(found) => is_rename_run(
            directory,
            natural_sorted(found.files),
            found.others,
            pattern,
            result,
        ),
    }
}

/// Plans the renaming of every file directly under `directory` by the
/// pattern, from a listing of the directory (`None` where the directory is
/// missing or is no directory).
///
/// The files are taken in natural order of their names and numbered from
/// the pattern's start without a gap. A file that already has its new name
/// is recorded as unchanged. The run stops at the first file whose new name
/// is taken: the failure then holds the outcomes recorded before it.
pub fn batch_rename(
    directory: &str,
    listing: Option<&DirectoryListing>,
    pattern: &RenamePattern,
) -> (result: Result<Vec<RenameOutcome>, RenameFailure>)
    ensures
        is_rename_result(directory@, listing_view(listing), pattern@, result),
{
    match listing {
        None => {
            let message = join3("Directory '", directory, "' does not exist");
            Err(
                RenameFailure {
                    error: PipelineError::new(ErrorKind::NotFound, message),
                    completed: Vec::new(),
                },
            )
        },
        Some(found) => {
            let sorted = sort_natural(&found.files);
            rename_in_order(directory, &sorted, &found.others, pattern)
        },
    }
}

/// Plans the renaming of the files of `directory` in the order in which
/// their names are given. `others` names the entries of the directory that
/// are no regular files.
pub fn rename_in_order(
    directory: &str,
    sorted: &Vec<String>,
    others: &Vec<String>,
    pattern: &RenamePattern,
) -> (result: Result<Vec<RenameOutcome>, RenameFailure>)
    ensures
        is_rename_run(directory@, texts(sorted@), texts(others@), pattern@, result),
{
    let ghost names = texts(sorted@);
    let ghost taken = texts(others@);
    let width = pattern.pad_width(sorted.len());
    let mut outcomes: Vec<RenameOutcome> = Vec::new();
    let mut targets: Vec<String> = Vec::new();
    let mut i: usize = 0;
    assert(outcome_views(outcomes@) =~= pattern@.outcomes(directory@, names, 0));
    while i < sorted.len()
        invariant
            i <= sorted.len(),
            names == texts(sorted@),
            taken == texts(others@),
            width == pattern@.width_for(names.len()),
            pattern@.wf(),
            targets.len() == i,
            outcomes.len() == i,
            forall|j: int| 0 <= j < i ==> #[trigger] targets@[j]@ == pattern@.target_name(names, j),
            outcome_views(outcomes@) == pattern@.outcomes(directory@, names, i as nat),
            forall|j: int| 0 <= j < i ==> !pattern@.collides_at(names, taken, j),
        decreases sorted.len() - i,
    {
        let name = sorted[i].as_str();
        assert(names[i as int] == name@);
        let chars = to_chars(name);
        let extension = match file_extension(&chars) {
            Some(ext) => Some(from_chars(&ext)),
            None => None,
        };
        let index: u128 = pattern.start_index as u128 + i as u128;
        let target = match &extension {
            Some(ext) => pattern.build_file_name(index, Some(ext.as_str()), width),
            None => pattern.build_file_name(index, None, width),
        };
        assert(target@ == pattern@.target_name(names, i as int));
        let original_path = join_path(directory, name);
        let target_path = join_path(directory, target.as_str());
        let changed = !same_text(target.as_str(), name);
        if changed {
            let by_earlier = name_in(&targets, 0, i, target.as_str());
            let by_later = name_in(sorted, i + 1, sorted.len(), target.as_str());
            let by_other = name_in(others, 0, others.len(), target.as_str());
            proof {
                if by_earlier {
                    let j = choose|j: int| 0 <= j < i && #[trigger] targets@[j]@ == target@;
                    assert(pattern@.target_name(names, j) == target@);
                }
                if by_later {
                    let j = choose|j: int|
                        i + 1 <= j < sorted.len() && #[trigger] sorted@[j]@ == target@;
                    assert(names[j] == target@);
                }
                if by_other {
                    let j = choose|j: int|
                        0 <= j < others.len() && #[trigger] others@[j]@ == target@;
                    assert(taken[j] == target@);
                }
                if pattern@.taken_at(names, taken, i as int) {
                    if exists|j: int|
                        0 <= j < i && #[trigger] pattern@.target_name(names, j) == target@ {
                        let j = choose|j: int|
                            0 <= j < i && #[trigger] pattern@.target_name(names, j) == target@;
                        assert(targets@[j]@ == target@);
                    } else if exists|j: int| i < j < names.len() && #[trigger] names[j] == target@ {
                        let j = choose|j: int| i < j < names.len() && #[trigger] names[j] == target@;
                        assert(sorted@[j]@ == target@);
                    } else {
                        let j = choose|j: int| 0 <= j < taken.len() && taken[j] == target@;
                        assert(others@[j]@ == target@);
                    }
                }
                assert((by_earlier || by_later || by_other) == pattern@.taken_at(
                    names,
                    taken,
                    i as int,
                ));
            }
            if by_earlier || by_later || by_other {
                let message = join5(
                    "Cannot rename '",
                    original_path.as_str(),
                    "' to '",
                    target_path.as_str(),
                    "' because the destination already exists.",
                );
                return Err(
                    RenameFailure {
                        error: PipelineError::new(ErrorKind::Collision, message),
                        completed: outcomes,
                    },
                );
            }
        }
        let outcome = RenameOutcome { original: original_path, renamed: target_path, changed };
        proof {
            assert(outcome@ == pattern@.outcome(directory@, names, i as int));
            assert(outcome_views(outcomes@.push(outcome)) =~= outcome_views(outcomes@).push(
                outcome@,
            ));
            assert(outcome_views(outcomes@).push(outcome@) =~= pattern@.outcomes(
                directory@,
                names,
                (i + 1) as nat,
            ));
        }
        outcomes.push(outcome);
        targets.push(target);
        i += 1;
    }
    Ok(outcomes)
}

/// Plans the renaming of a directory by the given pattern or, where none is
/// given, by the default pattern of the kind of asset.
pub fn batch_rename_for_kind(
    directory: &str,
    listing: Option<&DirectoryListing>,
    kind: AssetKind,
    overrides: Option<RenamePattern>,
) -> (result: Result<Vec<RenameOutcome>, RenameFailure>)
    ensures
        is_rename_result(
            directory@,
            listing_view(listing),
            match overrides {
                Some(pattern) => pattern@,
                None => default_pattern_model(kind),
            },
            result,
        ),
{
    let pattern = match overrides {
        Some(pattern) => pattern,
        None => kind.default_pattern(),
    };
    batch_rename(directory, listing, &pattern)
}

/// The outcomes that a run recorded, whether it got through or stopped.
pub open spec fn recorded(result: Result<Vec<RenameOutcome>, RenameFailure>) -> Seq<RenameOutcome> {
    match result {
        Ok(outcomes) => outcomes@,
        Err(failure) => failure.completed@,
    }
}

/// No rename overwrites a file: a file is recorded as changed only where
/// its new name was free when its turn came.
pub proof fn lemma_renames_overwrite_nothing(
    directory: Seq<char>,
    sorted: Seq<Seq<char>>,
    others: Seq<Seq<char>>,
    pattern: PatternModel,
    result: Result<Vec<RenameOutcome>, RenameFailure>,
    i: int,
)
    requires
        is_rename_run(directory, sorted, others, pattern, result),
        0 <= i < recorded(result).len(),
    ensures
        i < sorted.len(),
        recorded(result)[i]@ == pattern.outcome(directory, sorted, i),
        recorded(result)[i].changed ==> !pattern.taken_at(sorted, others, i),
{
    let outcomes = recorded(result);
    assert(outcome_views(outcomes).len() == outcomes.len());
    assert(outcome_views(outcomes)[i] == outcomes[i]@);
    assert(outcomes[i]@ == pattern.outcome(directory, sorted, i));
    assert(!pattern.collides_at(sorted, others, i));
}

/// Whether no outcome of a result is marked as changed, and every file
/// keeps its path.
pub open spec fn changes_nothing(result: Result<Vec<RenameOutcome>, RenameFailure>) -> bool {
    &&& result is Ok
    &&& forall|i: int|
        0 <= i < result->Ok_0@.len() ==> {
            &&& !(#[trigger] result->Ok_0@[i]).changed
            &&& result->Ok_0@[i].renamed@ == result->Ok_0@[i].original@
        }
}

/// Renaming files that are named already changes nothing: where every
/// file, in the order of the run, carries the name that the pattern gives
/// it, the run succeeds, no outcome is marked as changed, and every file
/// keeps its path.
pub proof fn lemma_named_directory_is_left_alone(
    directory: Seq<char>,
    sorted: Seq<Seq<char>>,
    others: Seq<Seq<char>>,
    pattern: PatternModel,
    result: Result<Vec<RenameOutcome>, RenameFailure>,
)
    requires
        is_rename_run(directory, sorted, others, pattern, result),
        forall|i: int| 0 <= i < sorted.len() ==> pattern.target_name(sorted, i) == sorted[i],
    ensures
        changes_nothing(result),
        result->Ok_0@.len() == sorted.len(),
        forall|i: int|
            0 <= i < sorted.len() ==> (#[trigger] result->Ok_0@[i]).original@ == joined_path(
                directory,
                sorted[i],
            ),
{
    match result {
        Ok(outcomes) => {
            assert(outcome_views(outcomes@).len() == outcomes@.len());
            assert(pattern.outcomes(directory, sorted, sorted.len()).len() == sorted.len());
            assert forall|i: int| 0 <= i < outcomes@.len() implies {
                &&& !(#[trigger] outcomes@[i]).changed
                &&& outcomes@[i].renamed@ == outcomes@[i].original@
                &&& outcomes@[i].original@ == joined_path(directory, sorted[i])
            } by {
                assert(outcome_views(outcomes@)[i] == outcomes@[i]@);
                assert(outcome_views(outcomes@)[i] == pattern.outcome(directory, sorted, i));
            }
        },
        Err(failure) => {},
    }
}

/// The names that a run gives are names that the pattern would give again:
/// numbering the new names in the same order, by the same pattern, gives
/// each of them the name it has.
///
/// This holds of a file without an extension only where prefix and
/// separator hold no `.` behind their first character; the file's new name
/// would else be read as having an extension.
pub proof fn lemma_new_names_name_themselves(pattern: PatternModel, sorted: Seq<Seq<char>>, i: int)
    requires
        0 <= i < sorted.len(),
        !(extension_of(sorted[i]) matches Some(ext) && ext.len() > 0) ==> last_dot(
            pattern.prefix + pattern.separator,
        ) <= 0,
    ensures
        pattern.target_name(new_names(pattern, sorted), i) == pattern.target_name(sorted, i),
{
    let targets = new_names(pattern, sorted);
    let width = pattern.width_for(sorted.len());
    let index = (pattern.start_index + i) as nat;
    let number = zero_padded(index, width);
    let lead = pattern.prefix + pattern.separator;
    let stem = lead + number;
    let target = pattern.target_name(sorted, i);
    lemma_zero_padded_is_digits(index, width);
    assert(targets[i] == target);
    assert(targets.len() == sorted.len());
    if extension_of(sorted[i]) is Some && extension_of(sorted[i])->0.len() > 0 {
        let ext = extension_of(sorted[i])->0;
        lemma_extension_has_no_dot(sorted[i]);
        lemma_ascii_lower_settles(ext);
        let written = if pattern.lowercase_extension {
            ascii_lower(ext)
        } else {
            ext
        };
        assert(target == stem + seq!['.'] + written);
        lemma_extension_of_joined(stem, written);
    } else {
        assert(target == stem);
        assert forall|k: int| 0 <= k < number.len() implies number[k] != '.' by {
            assert(is_digit(number[k]));
        }
        lemma_last_dot_append(lead, number);
        assert(stem.last() == number.last());
        assert(is_digit(number.last()));
        assert(!has_extension(stem));
    }
}

/// The names that a run gives to the files, in the order of the run.
pub open spec fn new_names(pattern: PatternModel, sorted: Seq<Seq<char>>) -> Seq<Seq<char>> {
    Seq::new(sorted.len(), |k: int| pattern.target_name(sorted, k))
}

/// A second run by the same pattern changes nothing, where the second run
/// finds the files in the order of their numbers: it succeeds, marks no
/// outcome as changed, and leaves every file under the name that the first
/// run gave it.
///
/// Two things are asked of the first run. Its new names sort, in natural
/// order, by their numbers. And its files without an extension do not get
/// one from a `.` in prefix or separator.
pub proof fn lemma_second_run_changes_nothing(
    directory: Seq<char>,
    first: ListingModel,
    second: ListingModel,
    pattern: PatternModel,
    result: Result<Vec<RenameOutcome>, RenameFailure>,
)
    requires
        natural_sorted(second.files) == new_names(pattern, natural_sorted(first.files)),
        forall|i: int|
            0 <= i < natural_sorted(first.files).len() && !(extension_of(
                #[trigger] natural_sorted(first.files)[i],
            ) matches Some(ext) && ext.len() > 0) ==> last_dot(pattern.prefix + pattern.separator)
                <= 0,
        is_rename_result(directory, Some(second), pattern, result),
    ensures
        changes_nothing(result),
        result->Ok_0@.len() == first.files.len(),
        forall|i: int|
            0 <= i < result->Ok_0@.len() ==> (#[trigger] result->Ok_0@[i]).renamed@ == joined_path(
                directory,
                new_names(pattern, natural_sorted(first.files))[i],
            ),
{
    let sorted = natural_sorted(first.files);
    let again = natural_sorted(second.files);
    lemma_natural_sorted_permutes(first.files);
    assert forall|i: int| 0 <= i < again.len() implies pattern.target_name(again, i)
        == again[i] by {
        lemma_new_names_name_themselves(pattern, sorted, i);
    }
    lemma_named_directory_is_left_alone(directory, again, second.others, pattern, result);
}

/// The number of decimal digits of `value`.
pub fn digit_count(value: u128) -> (digits: usize)
    ensures
        digits == decimal_digits(value as nat).len(),
{
    render_decimal(value).len()
}

/// The number `index`, zero-filled to `width` characters.
pub fn format_number(index: u128, width: usize) -> (text: String)
    ensures
        text@ == zero_padded(index as nat, width as nat),
{
    let chars = render_padded(index, width);
    from_chars(&chars)
}

} // verus!
