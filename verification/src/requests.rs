//! What callers ask for, before it is carried out: requests are checked,
//! and what they leave open is filled in.

use crate::error::{ErrorKind, ErrorModel, PipelineError};
use crate::names::{join_path, joined_path};
use crate::organize::{default_pattern_model, AssetKind, PatternModel, RenamePattern};
use crate::stitch::{StitchModel, StitchOptions, VideoCodec};
use crate::style::{Quantity, Sign, SubtitleBurnStyle};
use crate::subtitle::{OptionsModel, SubtitleGenerationOptions};
use crate::text::{is_blank, join3, same_text, text_view, to_chars, trim};
use vstd::prelude::*;

verus! {

/// What `str::to_lowercase` of the standard library makes of a text: its
/// lower-case form by the rules of Unicode. The name stands for that
/// result; the rules are not written out here.
pub uninterp spec fn unicode_lowercase(text: Seq<char>) -> Seq<char>;

/// Taken on trust from the standard library, not proved here: the result
/// of `str::to_lowercase` depends on the text alone.
pub assume_specification[ str::to_lowercase ](s: &str) -> (lower: String)
    ensures
        lower@ == unicode_lowercase(s@),
;

/// The message for a kind of asset that is not known.
pub open spec fn unknown_kind_message(kind: Seq<char>) -> Seq<char> {
    "Unsupported asset kind '"@ + kind + "'. Use 'audio' or 'image'."@
}

/// What a word says of the kind of asset, once it is written in lower
/// case: `audio`, `image`, or nothing that is known.
pub open spec fn kind_of_word(lower: Seq<char>) -> Option<AssetKind> {
    if lower == "audio"@ {
        Some(AssetKind::Audio)
    } else if lower == "image"@ {
        Some(AssetKind::Image)
    } else {
        None
    }
}

/// Reads the kind of asset from a word that is written in lower case
/// already.
pub fn asset_kind_of(lower: &str) -> (result: Result<AssetKind, PipelineError>)
    ensures
        match result {
            Ok(kind) => kind_of_word(lower@) == Some(kind),
            Err(error) => kind_of_word(lower@) is None && error@ == (ErrorModel {
                kind: ErrorKind::Validation,
                message: unknown_kind_message(lower@),
            }),
        },
{
    if same_text(lower, "audio") {
        Ok(AssetKind::Audio)
    } else if same_text(lower, "image") {
        Ok(AssetKind::Image)
    } else {
        let message = join3("Unsupported asset kind '", lower, "'. Use 'audio' or 'image'.");
        Err(PipelineError::new(ErrorKind::Validation, message))
    }
}

/// Reads the kind of asset from a word, in any case of letters.
pub fn parse_asset_kind(kind: &str) -> (result: Result<AssetKind, PipelineError>)
    ensures
        match result {
            Ok(found) => kind_of_word(unicode_lowercase(kind@)) == Some(found),
            Err(error) => kind_of_word(unicode_lowercase(kind@)) is None && error@ == (ErrorModel {
                kind: ErrorKind::Validation,
                message: unknown_kind_message(unicode_lowercase(kind@)),
            }),
        },
{
    let lower = kind.to_lowercase();
    asset_kind_of(lower.as_str())
}

/// What a caller sets of a rename pattern; the rest follows the kind of
/// asset.
#[derive(Debug, Clone)]
pub struct RenameOptions {
    pub prefix: Option<String>,
    pub separator: Option<String>,
    pub start_index: Option<usize>,
    pub pad_width: Option<usize>,
    pub lowercase_extension: Option<bool>,
}

/// The pattern model that comes of a kind of asset and what a caller sets:
/// each part that is set replaces the default; a start index or a width of
/// zero counts as one.
pub open spec fn pattern_with(kind: AssetKind, options: Option<RenameOptions>) -> PatternModel {
    let base = default_pattern_model(kind);
    match options {
        None => base,
        Some(set) => PatternModel {
            prefix: match set.prefix {
                Some(prefix) => prefix@,
                None => base.prefix,
            },
            separator: match set.separator {
                Some(separator) => separator@,
                None => base.separator,
            },
            start_index: match set.start_index {
                Some(start) => if start == 0 {
                    1nat
                } else {
                    start as nat
                },
                None => base.start_index,
            },
            pad_width: match set.pad_width {
                Some(width) => Some(
                    if width == 0 {
                        1nat
                    } else {
                        width as nat
                    },
                ),
                None => base.pad_width,
            },
            lowercase_extension: match set.lowercase_extension {
                Some(enabled) => enabled,
                None => base.lowercase_extension,
            },
        },
    }
}

/// The pattern for a kind of asset, with what the caller sets in place of
/// the defaults.
pub fn rename_pattern_for(kind: AssetKind, options: Option<&RenameOptions>) -> (pattern:
    RenamePattern)
    ensures
        pattern@ == pattern_with(
            kind,
            match options {
                Some(set) => Some(*set),
                None => None,
            },
        ),
        pattern@.wf(),
{
    let mut pattern = kind.default_pattern();
    match options {
        None => {},
        Some(set) => {
            match &set.prefix {
                Some(prefix) => {
                    pattern = pattern.with_prefix(prefix.as_str());
                },
                None => {},
            }
            match &set.separator {
                Some(separator) => {
                    pattern = pattern.with_separator(separator.as_str());
                },
                None => {},
            }
            match set.start_index {
                Some(start) => {
                    pattern = pattern.with_start_index(start);
                },
                None => {},
            }
            match set.pad_width {
                Some(width) => {
                    pattern = pattern.with_pad_width(width);
                },
                None => {},
            }
            match set.lowercase_extension {
                Some(enabled) => {
                    pattern = pattern.lowercase_extension(enabled);
                },
                None => {},
            }
        },
    }
    pattern
}

/// The codec that a word names: `hevc` names HEVC, and H.264 is taken for
/// anything else and where nothing is said.
pub fn parse_codec(codec: Option<&str>) -> (found: VideoCodec)
    ensures
        found == (if codec is Some && codec->0@ == "hevc"@ {
            VideoCodec::Hevc
        } else {
            VideoCodec::H264
        }),
{
    match codec {
        Some(word) => if same_text(word, "hevc") {
            VideoCodec::Hevc
        } else {
            VideoCodec::H264
        },
        None => VideoCodec::H264,
    }
}

/// Whether a text holds nothing but whitespace.
pub fn is_blank_text(text: &str) -> (blank: bool)
    ensures
        blank == is_blank(text@),
{
    trim(&to_chars(text)).len() == 0
}

/// A text that may be absent, taken as absent where it is blank.
pub open spec fn unless_blank(text: Option<Seq<char>>) -> Option<Seq<char>> {
    match text {
        Some(t) => if is_blank(t) {
            None
        } else {
            Some(t)
        },
        None => None,
    }
}

/// Drops a text that is blank.
fn keep_unless_blank(text: Option<String>) -> (kept: Option<String>)
    ensures
        text_view(kept) == unless_blank(text_view(text)),
{
    match text {
        Some(t) => if is_blank_text(t.as_str()) {
            None
        } else {
            Some(t)
        },
        None => None,
    }
}

/// What a caller asks of a stitch run.
#[derive(Debug, Clone)]
pub struct StitchRequest {
    pub audio_directory: String,
    pub image_directory: String,
    pub subtitle_directory: Option<String>,
    pub output_directory: String,
    pub frame_rate: Quantity,
    pub codec: Option<String>,
    pub audio_bitrate: Option<String>,
    pub burn_subtitles: bool,
    pub subtitle_style: Option<SubtitleBurnStyle>,
}

/// Why a stitch request is refused, if it is: the first of these that
/// holds. The audio directory, the image directory or the output directory
/// is blank; the frame rate is not above zero.
pub open spec fn stitch_request_fault(request: StitchRequest) -> Option<Seq<char>> {
    if is_blank(request.audio_directory@) {
        Some("Audio directory is required."@)
    } else if is_blank(request.image_directory@) {
        Some("Image directory is required."@)
    } else if is_blank(request.output_directory@) {
        Some("Output directory is required."@)
    } else if request.frame_rate@.is_at_most_zero() {
        Some("Frame rate must be greater than zero."@)
    } else {
        None
    }
}

/// The options that come of a stitch request: a blank subtitle directory
/// counts as none, and a blank audio bitrate as `192k`.
pub open spec fn stitch_options_of(request: StitchRequest) -> StitchModel {
    StitchModel {
        audio_dir: request.audio_directory@,
        image_dir: request.image_directory@,
        subtitle_dir: unless_blank(text_view(request.subtitle_directory)),
        output_dir: request.output_directory@,
        frame_rate: request.frame_rate@,
        codec: if request.codec is Some && request.codec->0@ == "hevc"@ {
            VideoCodec::Hevc
        } else {
            VideoCodec::H264
        },
        audio_bitrate: match unless_blank(text_view(request.audio_bitrate)) {
            Some(bitrate) => bitrate,
            None => "192k"@,
        },
        burn_subtitles: request.burn_subtitles,
        subtitle_style: match request.subtitle_style {
            Some(style) => Some(style@),
            None => None,
        },
    }
}

/// A validation error with the given message.
fn refused(message: &str) -> (error: PipelineError)
    ensures
        error@ == (ErrorModel { kind: ErrorKind::Validation, message: message@ }),
{
    PipelineError::new(ErrorKind::Validation, message.to_owned())
}

/// Checks a stitch request and makes the options of the run from it.
pub fn stitch_options_for(request: StitchRequest) -> (result: Result<StitchOptions, PipelineError>)
    ensures
        match result {
            Ok(options) => stitch_request_fault(request) is None && options@ == stitch_options_of(
                request,
            ),
            Err(error) => stitch_request_fault(request) matches Some(message) && error@
                == (ErrorModel { kind: ErrorKind::Validation, message }),
        },
{
    if is_blank_text(request.audio_directory.as_str()) {
        return Err(refused("Audio directory is required."));
    }
    if is_blank_text(request.image_directory.as_str()) {
        return Err(refused("Image directory is required."));
    }
    if is_blank_text(request.output_directory.as_str()) {
        return Err(refused("Output directory is required."));
    }
    match request.frame_rate.sign {
        Sign::Negative | Sign::Zero => {
            return Err(refused("Frame rate must be greater than zero."));
        },
        _ => {},
    }
    let codec = match &request.codec {
        Some(word) => parse_codec(Some(word.as_str())),
        None => parse_codec(None),
    };
    let audio_bitrate = match keep_unless_blank(request.audio_bitrate) {
        Some(bitrate) => bitrate,
        None => "192k".to_owned(),
    };
    Ok(
        StitchOptions {
            audio_dir: request.audio_directory,
            image_dir: request.image_directory,
            subtitle_dir: keep_unless_blank(request.subtitle_directory),
            output_dir: request.output_directory,
            frame_rate: request.frame_rate,
            codec,
            audio_bitrate,
            burn_subtitles: request.burn_subtitles,
            subtitle_style: request.subtitle_style,
        },
    )
}

/// What a caller asks of a subtitle batch.
#[derive(Debug, Clone)]
pub struct SubtitleBatchRequest {
    pub audio_directory: String,
    pub subtitle_directory: Option<String>,
    pub model_id: String,
    pub language: Option<String>,
    pub translate_to_english: bool,
    pub threads: Option<usize>,
}

/// A subtitle batch that is ready to start: where the subtitles go, and
/// the options of the speech engine.
#[derive(Debug, Clone)]
pub struct SubtitleBatchPlan {
    pub subtitle_directory: String,
    pub options: SubtitleGenerationOptions,
}

/// Where the subtitles of a batch go: to the named directory, or to
/// `subtitles` under the audio directory where none is named.
pub open spec fn subtitle_directory_of(request: SubtitleBatchRequest) -> Seq<char> {
    match unless_blank(text_view(request.subtitle_directory)) {
        Some(directory) => directory,
        None => joined_path(request.audio_directory@, "subtitles"@),
    }
}

/// The engine options of a batch request for a model that lies at
/// `model_path`: a blank language counts as none, and a thread count of
/// zero as one.
pub open spec fn batch_options_of(request: SubtitleBatchRequest, model_path: Seq<char>) -> OptionsModel {
    OptionsModel {
        model_path,
        language: unless_blank(text_view(request.language)),
        translate_to_english: request.translate_to_english,
        threads: match request.threads {
            Some(count) => Some(
                if count == 0 {
                    1nat
                } else {
                    count as nat
                },
            ),
            None => None,
        },
        output_path: None,
    }
}

/// Checks that a batch request names an audio directory.
pub fn check_batch_request(request: &SubtitleBatchRequest) -> (result: Result<(), PipelineError>)
    ensures
        match result {
            Ok(_) => !is_blank(request.audio_directory@),
            Err(error) => is_blank(request.audio_directory@) && error@ == (ErrorModel {
                kind: ErrorKind::Validation,
                message: "Audio directory is required."@,
            }),
        },
{
    if is_blank_text(request.audio_directory.as_str()) {
        Err(refused("Audio directory is required."))
    } else {
        Ok(())
    }
}

/// Makes the plan of a subtitle batch from a request, once the model is
/// known to lie at `model_path`.
pub fn subtitle_batch_plan(request: SubtitleBatchRequest, model_path: &str) -> (plan:
    SubtitleBatchPlan)
    ensures
        plan.subtitle_directory@ == subtitle_directory_of(request),
        plan.options@ == batch_options_of(request, model_path@),
{
    let subtitle_directory = match keep_unless_blank(request.subtitle_directory) {
        Some(directory) => directory,
        None => join_path(request.audio_directory.as_str(), "subtitles"),
    };
    let mut options = SubtitleGenerationOptions::new(model_path);
    match keep_unless_blank(request.language) {
        Some(language) => {
            options = options.with_language(language.as_str());
        },
        None => {},
    }
    options = options.translate_to_english(request.translate_to_english);
    match request.threads {
        Some(count) => {
            options = options.with_threads(count);
        },
        None => {},
    }
    SubtitleBatchPlan { subtitle_directory, options }
}

} // verus!
