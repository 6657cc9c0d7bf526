//! Audio files on their way to the speech engine: which files count as
//! audio, which of them the engine can read as they are, how the others are
//! converted, and which sample data is accepted.

use crate::error::{ErrorKind, PipelineError};
use crate::names::{
    extension_of, file_extension, file_stem, has_media_extension, is_media_name, is_parent_entry,
    stem_of, MediaKind,
};
use crate::subtitle::SubtitleGenerationOptions;
use crate::text::{
    ascii_lower, decimal_digits, from_chars, join3, lowercase_ascii, push_str,
    render_decimal, render_signed, same_chars, signed_digits, texts, to_chars,
};
use vstd::prelude::*;

verus! {

/// The sample rate that the speech engine takes, in hertz.
pub const TARGET_SAMPLE_RATE: u32 = 16_000;

/// How the samples of a WAV file are stored.
#[derive(Debug, Clone, Copy, PartialEq, Eq, Structural)]
pub enum SampleKind {
    /// Signed integers.
    Int,
    /// IEEE floating point numbers.
    Float,
}

/// What the header of a WAV file says of its samples.
#[derive(Debug, Clone, Copy, PartialEq, Eq, Structural)]
pub struct WavFormat {
    /// Samples per second and channel.
    pub sample_rate: u32,
    /// Number of channels.
    pub channels: u16,
    /// Bits per sample.
    pub bits_per_sample: u16,
    /// Integer or floating point samples.
    pub sample_format: SampleKind,
}

/// The speech engine reads a WAV file as it is where it is mono, sampled
/// at 16 kHz, and holds 16-bit integers or 32-bit floating point numbers.
pub open spec fn is_engine_ready(format: WavFormat) -> bool {
    &&& format.sample_rate == 16_000
    &&& format.channels == 1
    &&& (format.sample_format == SampleKind::Int && format.bits_per_sample == 16)
        || (format.sample_format == SampleKind::Float && format.bits_per_sample == 32)
}

/// Whether the name carries the extension `wav`, in any case of letters.
pub open spec fn is_wav_name(name: Seq<char>) -> bool {
    extension_of(name) matches Some(extension) && ascii_lower(extension) == "wav"@
}

/// Whether the speech engine reads a file as it is: its name carries the
/// extension `wav`, and its header, which was read, is ready for the engine.
pub open spec fn reads_as_is(name: Seq<char>, header: Option<WavFormat>) -> bool {
    is_wav_name(name) && match header {
        Some(format) => is_engine_ready(format),
        None => false,
    }
}

/// Whether a file counts as audio, by the extension of its name.
pub fn is_supported_audio(name: &str) -> (supported: bool)
    ensures
        supported == is_media_name(MediaKind::Audio, name@),
{
    has_media_extension(MediaKind::Audio, name)
}

/// Whether the header of a file has to be read before its preparation is
/// decided: it has where the name carries the extension `wav`.
pub fn needs_wav_header(name: &str) -> (needed: bool)
    ensures
        needed == is_wav_name(name@),
{
    let chars = to_chars(name);
    match file_extension(&chars) {
        None => false,
        Some(extension) => {
            let lower = lowercase_ascii(&extension);
            let wav = to_chars("wav");
            same_chars(&lower, &wav)
        },
    }
}

/// Whether the speech engine can read a file as it is. `header` is what
/// the file's WAV header says, for a file whose header was read.
pub fn is_wav_16k(name: &str, header: Option<WavFormat>) -> (ready: bool)
    ensures
        ready == reads_as_is(name@, header),
{
    if !needs_wav_header(name) {
        return false;
    }
    match header {
        None => false,
        Some(format) => {
            format.sample_rate == TARGET_SAMPLE_RATE && format.channels == 1 && (match format.sample_format {
                SampleKind::Int => format.bits_per_sample == 16,
                SampleKind::Float => format.bits_per_sample == 32,
            })
        },
    }
}

/// How a file gets to the speech engine.
#[derive(Debug, Clone)]
pub enum Preparation {
    /// The engine reads the file as it is.
    UseAsIs,
    /// The file is converted first, into a temporary file of this name.
    Convert { output_name: String },
}

/// The stem under which a converted file is stored: the stem of the name,
/// or `track` where the name is empty, `.` or `..`.
pub open spec fn conversion_stem(name: Seq<char>) -> Seq<char> {
    if name.len() == 0 || (name.len() == 1 && name[0] == '.') || is_parent_entry(name) {
        "track"@
    } else {
        stem_of(name)
    }
}

/// The name of the temporary file into which a file is converted.
pub open spec fn converted_name(name: Seq<char>) -> Seq<char> {
    conversion_stem(name) + "_whisper.wav"@
}

/// Decides how a file gets to the speech engine: as it is where the
/// engine can read it, else through a conversion.
pub fn prepare_audio_for_whisper(name: &str, header: Option<WavFormat>) -> (plan: Preparation)
    ensures
        match plan {
            Preparation::UseAsIs => reads_as_is(name@, header),
            Preparation::Convert { output_name } => !reads_as_is(name@, header) && output_name@
                == converted_name(name@),
        },
{
    if is_wav_16k(name, header) {
        return Preparation::UseAsIs;
    }
    let chars = to_chars(name);
    let n: usize = chars.len();
    let nameless = n == 0 || (n == 1 && chars[0] == '.') || (n == 2 && chars[0] == '.' && chars[1]
        == '.');
    let mut out: Vec<char> = if nameless {
        to_chars("track")
    } else {
        file_stem(&chars)
    };
    push_str(&mut out, "_whisper.wav");
    Preparation::Convert { output_name: from_chars(&out) }
}

/// The arguments with which the converter is started: overwrite without
/// asking, read `input`, mix down to one channel, resample to 16 kHz, store
/// 16-bit integers, write `output`.
pub open spec fn conversion_command(input: Seq<char>, output: Seq<char>) -> Seq<Seq<char>> {
    seq![
        "-y"@,
        "-i"@,
        input,
        "-ac"@,
        "1"@,
        "-ar"@,
        decimal_digits(16_000),
        "-sample_fmt"@,
        "s16"@,
        output,
    ]
}

/// The arguments with which the converter is started for one file.
pub fn convert_audio_with_ffmpeg(input: &str, output: &str) -> (arguments: Vec<String>)
    ensures
        texts(arguments@) == conversion_command(input@, output@),
{
    let rate = render_decimal(TARGET_SAMPLE_RATE as u128);
    let mut arguments: Vec<String> = Vec::new();
    arguments.push("-y".to_owned());
    arguments.push("-i".to_owned());
    arguments.push(input.to_owned());
    arguments.push("-ac".to_owned());
    arguments.push("1".to_owned());
    arguments.push("-ar".to_owned());
    arguments.push(from_chars(&rate));
    arguments.push("-sample_fmt".to_owned());
    arguments.push("s16".to_owned());
    arguments.push(output.to_owned());
    assert(texts(arguments@) =~= conversion_command(input@, output@));
    arguments
}

/// How the exit code of a program is written in a message: `Some(1)`, or
/// `None` where the program was ended by a signal.
pub open spec fn exit_code_text(code: Option<i32>) -> Seq<char> {
    match code {
        Some(c) => "Some("@ + signed_digits(c as int) + ")"@,
        None => "None"@,
    }
}

/// Writes the exit code of a program for a message.
pub fn describe_exit_code(code: Option<i32>) -> (text: String)
    ensures
        text@ == exit_code_text(code),
{
    match code {
        Some(c) => {
            let digits = from_chars(&render_signed(c as i64));
            join3("Some(", digits.as_str(), ")")
        },
        None => "None".to_owned(),
    }
}

/// The message for a conversion that the converter ended with a failure.
pub open spec fn conversion_failure_message(input: Seq<char>, code: Option<i32>) -> Seq<char> {
    "ffmpeg conversion for '"@ + input + "' failed with status "@ + exit_code_text(code) + "."@
}

/// The error for a conversion that the converter ended with a failure.
pub fn conversion_failure(input: &str, code: Option<i32>) -> (error: PipelineError)
    ensures
        error.kind == ErrorKind::ExternalTool,
        error.message@ == conversion_failure_message(input@, code),
{
    let status = describe_exit_code(code);
    let mut out: Vec<char> = to_chars("ffmpeg conversion for '");
    push_str(&mut out, input);
    push_str(&mut out, "' failed with status ");
    push_str(&mut out, status.as_str());
    push_str(&mut out, ".");
    PipelineError::new(ErrorKind::ExternalTool, from_chars(&out))
}

/// Why a WAV header is refused, if it is: the first of these that holds.
#[derive(Debug, Clone, Copy, PartialEq, Eq, Structural)]
pub enum FormatFault {
    /// The sample rate is not 16 kHz.
    SampleRate,
    /// The header speaks of no channel at all.
    NoChannels,
    /// Integer samples that are not 16 bits wide.
    IntegerWidth,
    /// Floating point samples that are not 32 bits wide.
    FloatWidth,
}

/// The first fault of a WAV header, in the order in which they are looked
/// for: sample rate, channels, sample width.
pub open spec fn format_fault(format: WavFormat) -> Option<FormatFault> {
    if format.sample_rate != 16_000 {
        Some(FormatFault::SampleRate)
    } else if format.channels == 0 {
        Some(FormatFault::NoChannels)
    } else if format.sample_format == SampleKind::Int && format.bits_per_sample != 16 {
        Some(FormatFault::IntegerWidth)
    } else if format.sample_format == SampleKind::Float && format.bits_per_sample != 32 {
        Some(FormatFault::FloatWidth)
    } else {
        None
    }
}

/// The message for a fault of a WAV header.
pub open spec fn format_fault_message(format: WavFormat, fault: FormatFault) -> Seq<char> {
    match fault {
        FormatFault::SampleRate => "Expected "@ + decimal_digits(16_000) + " Hz audio but found "@
            + decimal_digits(format.sample_rate as nat)
            + " Hz. Please resample before transcription."@,
        FormatFault::NoChannels => "Audio file reports zero channels."@,
        FormatFault::IntegerWidth =>
            "Only 16-bit PCM WAV files are supported for integer samples (found "@ + decimal_digits(
                format.bits_per_sample as nat,
            ) + " bits)."@,
        FormatFault::FloatWidth =>
            "Only 32-bit float WAV files are supported for floating point samples (found "@
                + decimal_digits(format.bits_per_sample as nat) + " bits)."@,
    }
}

/// Checks the header of a file that goes to the speech engine, before its
/// samples are read. A header without fault says how the samples are read.
pub fn check_wav_format(format: WavFormat) -> (result: Result<SampleKind, PipelineError>)
    ensures
        match result {
            Ok(kind) => format_fault(format) is None && kind == format.sample_format,
            Err(error) => {
                &&& format_fault(format) matches Some(fault)
                &&& error.kind == ErrorKind::Format
                &&& error.message@ == format_fault_message(format, fault)
            },
        },
{
    if format.sample_rate != TARGET_SAMPLE_RATE {
        let wanted = from_chars(&render_decimal(TARGET_SAMPLE_RATE as u128));
        let found = from_chars(&render_decimal(format.sample_rate as u128));
        let mut out: Vec<char> = to_chars("Expected ");
        push_str(&mut out, wanted.as_str());
        push_str(&mut out, " Hz audio but found ");
        push_str(&mut out, found.as_str());
        push_str(&mut out, " Hz. Please resample before transcription.");
        return Err(PipelineError::new(ErrorKind::Format, from_chars(&out)));
    }
    if format.channels == 0 {
        return Err(
            PipelineError::new(ErrorKind::Format, "Audio file reports zero channels.".to_owned()),
        );
    }
    let found = from_chars(&render_decimal(format.bits_per_sample as u128));
    match format.sample_format {
        SampleKind::Int => {
            if format.bits_per_sample != 16 {
                let message = join3(
                    "Only 16-bit PCM WAV files are supported for integer samples (found ",
                    found.as_str(),
                    " bits).",
                );
                return Err(PipelineError::new(ErrorKind::Format, message));
            }
            Ok(SampleKind::Int)
        },
        SampleKind::Float => {
            if format.bits_per_sample != 32 {
                let message = join3(
                    "Only 32-bit float WAV files are supported for floating point samples (found ",
                    found.as_str(),
                    " bits).",
                );
                return Err(PipelineError::new(ErrorKind::Format, message));
            }
            Ok(SampleKind::Float)
        },
    }
}

/// Checks that the samples read from a file fill whole frames, one sample
/// per channel, and says how many frames there are.
pub fn check_sample_alignment(sample_count: usize, channels: u16) -> (result: Result<
    usize,
    PipelineError,
>)
    ensures
        match result {
            Ok(frames) => channels > 0 && sample_count % (channels as usize) == 0 && frames
                == sample_count / (channels as usize),
            Err(error) => {
                &&& error.kind == ErrorKind::Format
                &&& channels == 0 ==> error.message@ == "Audio file reports zero channels."@
                &&& channels > 0 ==> sample_count % (channels as usize) != 0 && error.message@
                    == "Unexpected sample count - audio data is not aligned to channels."@
            },
        },
{
    if channels == 0 {
        return Err(
            PipelineError::new(ErrorKind::Format, "Audio file reports zero channels.".to_owned()),
        );
    }
    let per_frame: usize = channels as usize;
    if sample_count % per_frame != 0 {
        return Err(
            PipelineError::new(
                ErrorKind::Format,
                "Unexpected sample count - audio data is not aligned to channels.".to_owned(),
            ),
        );
    }
    Ok(sample_count / per_frame)
}

/// A count as the speech engine takes it, in 32 bits with a sign: the low
/// 32 bits of the count, read as a two's complement number.
pub open spec fn as_engine_count(count: nat) -> int {
    let low = count % 0x1_0000_0000;
    if low < 0x8000_0000 {
        low as int
    } else {
        low - 0x1_0000_0000
    }
}

/// The number of threads handed to the speech engine: the configured
/// number, or else the number of logical CPUs that are available.
pub fn effective_threads(configured: Option<usize>, available: usize) -> (threads: i32)
    ensures
        threads == as_engine_count(
            match configured {
                Some(n) => n as nat,
                None => available as nat,
            },
        ),
{
    let count: u64 = match configured {
        Some(n) => n as u64,
        None => available as u64,
    };
    let low: u64 = count % 0x1_0000_0000;
    if low < 0x8000_0000 {
        low as i32
    } else {
        (low as i64 - 0x1_0000_0000) as i32
    }
}

/// Calls `num_cpus::get`, the number of logical CPUs that this process may
/// use. The count is a reading of the machine at the moment of the call:
/// nothing is claimed of it, and two calls may differ.
#[verifier::external_body]
fn logical_cpus() -> usize {
    num_cpus::get()
}

/// The number of threads handed to the speech engine for the given
/// options. Where the options fix none, the machine decides: the number is
/// then the count of logical CPUs, whatever that is.
pub fn transcription_threads(options: &SubtitleGenerationOptions) -> (threads: i32)
    ensures
        options.threads matches Some(n) ==> threads == as_engine_count(n as nat),
        options.threads is None ==> exists|available: usize|
            threads == #[trigger] as_engine_count(available as nat),
{
    match options.threads {
        Some(n) => effective_threads(Some(n), 0),
        None => effective_threads(None, logical_cpus()),
    }
}

} // verus!
