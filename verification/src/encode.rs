//! Encoding the scenes: the encoders that are tried for a codec, the
//! command line of each attempt, and the course of a run over all scenes.
//!
//! The caller starts the encoder and reports how each attempt went; the
//! run decides what follows. An encoder that fails gives way to the next
//! one for the same scene. Once the last encoder has failed for a scene,
//! the whole run has failed.

use crate::audio::{describe_exit_code, exit_code_text};
use crate::error::{ErrorKind, ErrorModel, PipelineError};
use crate::stitch::{
    scene_views, SceneModel, StitchJobResult, StitchModel, StitchOptions, VideoCodec,
};
use crate::style::{
    build_force_style, escape_force_style, escape_subtitle_path, escaped_force_style,
    escaped_subtitle_path, force_style, StyleModel,
};
use crate::text::{from_chars, push_str, texts, to_chars, trim, trimmed};
use vstd::prelude::*;

verus! {

/// An encoder that may be tried for a scene.
#[derive(Debug, Clone)]
pub struct EncoderCandidate {
    /// The name under which the encoder is selected.
    pub encoder: String,
    /// The pixel format it is asked for.
    pub pixel_format: String,
    /// The name under which messages speak of it.
    pub label: String,
    /// Whether it is tried only after another one has failed.
    pub is_fallback: bool,
}

/// An encoder candidate as plain mathematical values.
pub struct CandidateModel {
    pub encoder: Seq<char>,
    pub pixel_format: Seq<char>,
    pub label: Seq<char>,
    pub is_fallback: bool,
}

impl View for EncoderCandidate {
    type V = CandidateModel;

    open spec fn view(&self) -> CandidateModel {
        CandidateModel {
            encoder: self.encoder@,
            pixel_format: self.pixel_format@,
            label: self.label@,
            is_fallback: self.is_fallback,
        }
    }
}

/// The views of the candidates of a sequence, in order.
pub open spec fn candidate_views(candidates: Seq<EncoderCandidate>) -> Seq<CandidateModel> {
    candidates.map_values(|c: EncoderCandidate| c@)
}

/// A candidate that goes by the name of its encoder and asks for the pixel
/// format `yuv420p`.
pub open spec fn candidate(encoder: Seq<char>, is_fallback: bool) -> CandidateModel {
    CandidateModel { encoder, pixel_format: "yuv420p"@, label: encoder, is_fallback }
}

/// The encoders of a codec, in the order in which they are tried: the
/// hardware encoder first, the software encoder as fallback.
pub open spec fn candidates_for(codec: VideoCodec) -> Seq<CandidateModel> {
    match codec {
        VideoCodec::H264 => seq![
            candidate("h264_videotoolbox"@, false),
            candidate("libx264"@, true),
        ],
        VideoCodec::Hevc => seq![
            candidate("hevc_videotoolbox"@, false),
            candidate("libx265"@, true),
        ],
    }
}

/// Makes a candidate that goes by the name of its encoder.
fn make_candidate(encoder: &str, is_fallback: bool) -> (made: EncoderCandidate)
    ensures
        made@ == candidate(encoder@, is_fallback),
{
    EncoderCandidate {
        encoder: encoder.to_owned(),
        pixel_format: "yuv420p".to_owned(),
        label: encoder.to_owned(),
        is_fallback,
    }
}

/// The encoders of a codec, in the order in which they are tried.
pub fn encoder_candidates(codec: VideoCodec) -> (candidates: Vec<EncoderCandidate>)
    ensures
        candidate_views(candidates@) == candidates_for(codec),
{
    let mut candidates: Vec<EncoderCandidate> = Vec::new();
    match codec {
        VideoCodec::H264 => {
            candidates.push(make_candidate("h264_videotoolbox", false));
            candidates.push(make_candidate("libx264", true));
        },
        VideoCodec::Hevc => {
            candidates.push(make_candidate("hevc_videotoolbox", false));
            candidates.push(make_candidate("libx265", true));
        },
    }
    assert(candidate_views(candidates@) =~= candidates_for(codec));
    candidates
}

/// The subtitle filter that draws a subtitle file into the picture, with
/// the style clause of the options where they set a style.
pub open spec fn subtitle_filter(path: Seq<char>, style: Option<StyleModel>) -> Seq<char> {
    let base = "subtitles="@ + escaped_subtitle_path(path);
    match style {
        Some(s) => match force_style(s) {
            Some(clause) => base + ":force_style="@ + escaped_force_style(clause),
            None => base,
        },
        None => base,
    }
}

/// The filter chain of a scene: the frame rate filter and, where subtitles
/// are burnt in and the scene has a subtitle file, the subtitle filter.
pub open spec fn filter_chain(options: StitchModel, subtitle_path: Option<Seq<char>>) -> Seq<char> {
    let rate = "fps="@ + options.frame_rate.text;
    match subtitle_path {
        Some(path) => if options.burn_subtitles {
            rate + ","@ + subtitle_filter(path, options.subtitle_style)
        } else {
            rate
        },
        None => rate,
    }
}

/// The filter chain of a scene.
pub fn build_filter_chain(options: &StitchOptions, subtitle_path: Option<&str>) -> (chain: String)
    ensures
        chain@ == filter_chain(
            options@,
            match subtitle_path {
                Some(path) => Some(path@),
                None => None,
            },
        ),
{
    let mut out: Vec<char> = to_chars("fps=");
    push_str(&mut out, options.frame_rate.text.as_str());
    match subtitle_path {
        Some(path) => {
            if options.burn_subtitles {
                push_str(&mut out, ",");
                push_str(&mut out, "subtitles=");
                let escaped_path = escape_subtitle_path(path);
                push_str(&mut out, escaped_path.as_str());
                let clause = match &options.subtitle_style {
                    Some(style) => build_force_style(style),
                    None => None,
                };
                match clause {
                    Some(c) => {
                        push_str(&mut out, ":force_style=");
                        let escaped_clause = escape_force_style(c.as_str());
                        push_str(&mut out, escaped_clause.as_str());
                        assert(out@ =~= "fps="@ + options@.frame_rate.text + ","@ + (
                        "subtitles="@ + escaped_subtitle_path(path@) + ":force_style="@
                            + escaped_force_style(c@)));
                    },
                    None => {
                        assert(out@ =~= "fps="@ + options@.frame_rate.text + ","@ + (
                        "subtitles="@ + escaped_subtitle_path(path@)));
                    },
                }
            }
        },
        None => {},
    }
    from_chars(&out)
}

/// The inputs of an encoder run: the image, shown again and again at the
/// frame rate, then the audio file, then the subtitle file where the scene
/// has one.
pub open spec fn input_arguments(options: StitchModel, scene: SceneModel) -> Seq<Seq<char>> {
    let fixed = seq![
        "-y"@,
        "-hide_banner"@,
        "-loglevel"@,
        "error"@,
        "-loop"@,
        "1"@,
        "-framerate"@,
        options.frame_rate.text,
        "-i"@,
        scene.image_path,
        "-i"@,
        scene.audio_path,
    ];
    match scene.subtitle_path {
        Some(path) => fixed + seq!["-i"@, path],
        None => fixed,
    }
}

/// How an encoder run encodes: the filter chain, the encoder and its pixel
/// format, a fixed video bitrate, AAC audio at the bitrate of the options,
/// as long as the shorter input lasts, laid out for a fast start, with the
/// picture of the first input and the sound of the second.
pub open spec fn encoding_arguments(
    candidate: CandidateModel,
    options: StitchModel,
    scene: SceneModel,
) -> Seq<Seq<char>> {
    seq![
        "-vf"@,
        filter_chain(options, scene.subtitle_path),
        "-c:v"@,
        candidate.encoder,
        "-pix_fmt"@,
        candidate.pixel_format,
        "-b:v"@,
        "6000k"@,
        "-c:a"@,
        "aac"@,
        "-b:a"@,
        options.audio_bitrate,
        "-shortest"@,
        "-movflags"@,
        "faststart"@,
        "-map"@,
        "0:v:0"@,
        "-map"@,
        "1:a:0"@,
    ]
}

/// Where subtitles are not burnt in and the scene has a subtitle file, the
/// file goes along as a subtitle stream of its own, stored as timed text.
pub open spec fn soft_subtitle_arguments(options: StitchModel, scene: SceneModel) -> Seq<Seq<char>> {
    if !options.burn_subtitles && scene.subtitle_path is Some {
        seq!["-map"@, "2:s:0"@, "-c:s"@, "mov_text"@]
    } else {
        Seq::empty()
    }
}

/// The arguments with which the encoder is started for one attempt at one
/// scene; the output file comes last.
pub open spec fn encoder_arguments(
    candidate: CandidateModel,
    options: StitchModel,
    scene: SceneModel,
) -> Seq<Seq<char>> {
    input_arguments(options, scene) + encoding_arguments(candidate, options, scene)
        + soft_subtitle_arguments(options, scene) + seq![scene.output_path]
}

/// Appends a word to an argument list.
fn push_word(arguments: &mut Vec<String>, word: &str)
    ensures
        texts(final(arguments)@) == texts(old(arguments)@).push(word@),
{
    let owned = word.to_owned();
    assert(texts(arguments@.push(owned)) =~= texts(arguments@).push(word@));
    arguments.push(owned);
}

/// The input part of the arguments of an attempt.
fn build_input_arguments(options: &StitchOptions, scene: &StitchJobResult) -> (arguments: Vec<
    String,
>)
    ensures
        texts(arguments@) == input_arguments(options@, scene@),
{
    let mut arguments: Vec<String> = Vec::new();
    assert(texts(arguments@) =~= Seq::<Seq<char>>::empty());
    push_word(&mut arguments, "-y");
    push_word(&mut arguments, "-hide_banner");
    push_word(&mut arguments, "-loglevel");
    push_word(&mut arguments, "error");
    push_word(&mut arguments, "-loop");
    push_word(&mut arguments, "1");
    push_word(&mut arguments, "-framerate");
    push_word(&mut arguments, options.frame_rate.text.as_str());
    push_word(&mut arguments, "-i");
    push_word(&mut arguments, scene.image_path.as_str());
    push_word(&mut arguments, "-i");
    push_word(&mut arguments, scene.audio_path.as_str());
    match &scene.subtitle_path {
        Some(path) => {
            let ghost fixed = texts(arguments@);
            push_word(&mut arguments, "-i");
            push_word(&mut arguments, path.as_str());
            assert(texts(arguments@) =~= fixed + seq!["-i"@, path@]);
            assert(fixed =~= input_arguments(options@, SceneModel { subtitle_path: None, ..scene@ }));
        },
        None => {
            assert(texts(arguments@) =~= input_arguments(options@, scene@));
        },
    }
    arguments
}

/// The encoding part of the arguments of an attempt.
fn build_encoding_arguments(
    candidate: &EncoderCandidate,
    options: &StitchOptions,
    scene: &StitchJobResult,
) -> (arguments: Vec<String>)
    ensures
        texts(arguments@) == encoding_arguments(candidate@, options@, scene@),
{
    let chain = match &scene.subtitle_path {
        Some(path) => build_filter_chain(options, Some(path.as_str())),
        None => build_filter_chain(options, None),
    };
    let mut arguments: Vec<String> = Vec::new();
    assert(texts(arguments@) =~= Seq::<Seq<char>>::empty());
    push_word(&mut arguments, "-vf");
    push_word(&mut arguments, chain.as_str());
    push_word(&mut arguments, "-c:v");
    push_word(&mut arguments, candidate.encoder.as_str());
    push_word(&mut arguments, "-pix_fmt");
    push_word(&mut arguments, candidate.pixel_format.as_str());
    push_word(&mut arguments, "-b:v");
    push_word(&mut arguments, "6000k");
    push_word(&mut arguments, "-c:a");
    push_word(&mut arguments, "aac");
    push_word(&mut arguments, "-b:a");
    push_word(&mut arguments, options.audio_bitrate.as_str());
    push_word(&mut arguments, "-shortest");
    push_word(&mut arguments, "-movflags");
    push_word(&mut arguments, "faststart");
    push_word(&mut arguments, "-map");
    push_word(&mut arguments, "0:v:0");
    push_word(&mut arguments, "-map");
    push_word(&mut arguments, "1:a:0");
    assert(texts(arguments@) =~= encoding_arguments(candidate@, options@, scene@));
    arguments
}

/// Appends the words of `tail` to an argument list.
fn push_words(arguments: &mut Vec<String>, tail: &Vec<String>)
    ensures
        texts(final(arguments)@) == texts(old(arguments)@) + texts(tail@),
{
    let mut i: usize = 0;
    assert(texts(arguments@) =~= texts(old(arguments)@) + texts(tail@).take(0));
    while i < tail.len()
        invariant
            i <= tail.len(),
            texts(arguments@) == texts(old(arguments)@) + texts(tail@).take(i as int),
        decreases tail.len() - i,
    {
        let ghost before = texts(arguments@);
        push_word(arguments, tail[i].as_str());
        assert(texts(tail@).take(i + 1) =~= texts(tail@).take(i as int).push(tail@[i as int]@));
        assert(before.push(tail@[i as int]@) =~= texts(old(arguments)@) + texts(tail@).take(i + 1));
        i += 1;
    }
    assert(texts(tail@).take(tail.len() as int) =~= texts(tail@));
}

/// The arguments with which the encoder is started for one attempt at one
/// scene.
pub fn run_ffmpeg_with_encoder(
    candidate: &EncoderCandidate,
    scene: &StitchJobResult,
    options: &StitchOptions,
) -> (arguments: Vec<String>)
    ensures
        texts(arguments@) == encoder_arguments(candidate@, options@, scene@),
{
    let mut arguments = build_input_arguments(options, scene);
    let encoding = build_encoding_arguments(candidate, options, scene);
    push_words(&mut arguments, &encoding);
    let ghost head = texts(arguments@);
    if !options.burn_subtitles && scene.subtitle_path.is_some() {
        push_word(&mut arguments, "-map");
        push_word(&mut arguments, "2:s:0");
        push_word(&mut arguments, "-c:s");
        push_word(&mut arguments, "mov_text");
        assert(texts(arguments@) =~= head + soft_subtitle_arguments(options@, scene@));
    } else {
        assert(texts(arguments@) =~= head + soft_subtitle_arguments(options@, scene@));
    }
    let ghost body = texts(arguments@);
    push_word(&mut arguments, scene.output_path.as_str());
    assert(texts(arguments@) =~= body + seq![scene@.output_path]);
    arguments
}

/// The message for an encoder that ended with a failure: its label, its
/// exit code, and what it wrote to its error stream, without the
/// whitespace around it.
pub open spec fn encoder_failure_message(label: Seq<char>, code: Option<i32>, stderr: Seq<char>) -> Seq<
    char,
> {
    "Encoder '"@ + label + "' failed with status "@ + exit_code_text(code) + seq!['\n'] + trimmed(
        stderr,
    )
}

/// The error for an encoder that ended with a failure.
pub fn encoder_failure(label: &str, code: Option<i32>, stderr: &str) -> (error: PipelineError)
    ensures
        error@ == (ErrorModel {
            kind: ErrorKind::ExternalTool,
            message: encoder_failure_message(label@, code, stderr@),
        }),
{
    let status = describe_exit_code(code);
    let output = trim(&to_chars(stderr));
    let mut out: Vec<char> = to_chars("Encoder '");
    push_str(&mut out, label);
    push_str(&mut out, "' failed with status ");
    push_str(&mut out, status.as_str());
    out.push('\n');
    let output = from_chars(&output);
    push_str(&mut out, output.as_str());
    assert(out@ =~= encoder_failure_message(label@, code, stderr@));
    PipelineError::new(ErrorKind::ExternalTool, from_chars(&out))
}

/// How one attempt at encoding a scene went.
#[derive(Debug, Clone)]
pub enum AttemptOutcome {
    /// The encoder wrote the scene.
    Succeeded,
    /// The encoder could not be started, or ended with a failure.
    Failed(PipelineError),
}

/// An attempt outcome as plain mathematical values.
pub enum AttemptModel {
    Succeeded,
    Failed(ErrorModel),
}

impl View for AttemptOutcome {
    type V = AttemptModel;

    open spec fn view(&self) -> AttemptModel {
        match self {
            AttemptOutcome::Succeeded => AttemptModel::Succeeded,
            AttemptOutcome::Failed(error) => AttemptModel::Failed(error@),
        }
    }
}

/// What an attempt outcome meant for the run.
#[derive(Debug, Clone, Copy, PartialEq, Eq, Structural)]
pub enum Progress {
    /// The scene is written. `used_fallback` says whether an encoder other
    /// than the first one wrote it.
    SceneDone { used_fallback: bool },
    /// The attempt failed; the next encoder is tried for the same scene.
    NextEncoder,
    /// The last encoder failed; the run has failed with its error.
    RunFailed,
    /// The run was over already.
    Ignored,
}

/// The state of an encoding run, as plain mathematical values.
pub struct RunModel {
    /// The scenes of the run, in order.
    pub scenes: Seq<SceneModel>,
    /// The encoders that are tried for each scene, in order.
    pub candidates: Seq<CandidateModel>,
    /// How many scenes are written.
    pub scene: nat,
    /// How many encoders have failed for the scene that is next.
    pub attempt: nat,
    /// The failure that ended the run, if one did.
    pub failure: Option<ErrorModel>,
}

impl RunModel {
    /// A run is over once it has failed or has written every scene.
    pub open spec fn is_over(self) -> bool {
        self.failure is Some || self.scene >= self.scenes.len()
    }

    /// The state after an attempt at the current scene went as reported.
    /// Success moves on to the next scene, starting over with the first
    /// encoder. Failure moves on to the next encoder, or ends the run with
    /// the error where no encoder is left. A run that is over stays as it
    /// is.
    pub open spec fn after(self, outcome: AttemptModel) -> RunModel {
        if self.is_over() {
            self
        } else {
            match outcome {
                AttemptModel::Succeeded => RunModel { scene: self.scene + 1, attempt: 0, ..self },
                AttemptModel::Failed(error) => if self.attempt + 1 < self.candidates.len() {
                    RunModel { attempt: self.attempt + 1, ..self }
                } else {
                    RunModel { failure: Some(error), ..self }
                },
            }
        }
    }

    /// What an attempt outcome means for the run in this state.
    pub open spec fn progress(self, outcome: AttemptModel) -> Progress {
        if self.is_over() {
            Progress::Ignored
        } else {
            match outcome {
                AttemptModel::Succeeded => Progress::SceneDone { used_fallback: self.attempt > 0 },
                AttemptModel::Failed(_) => if self.attempt + 1 < self.candidates.len() {
                    Progress::NextEncoder
                } else {
                    Progress::RunFailed
                },
            }
        }
    }

    /// The state after a sequence of attempt outcomes, one after the other.
    pub open spec fn after_all(self, outcomes: Seq<AttemptModel>) -> RunModel
        decreases outcomes.len(),
    {
        if outcomes.len() == 0 {
            self
        } else {
            self.after_all(outcomes.drop_last()).after(outcomes.last())
        }
    }

    /// What the run comes to: the failure that ended it, or else the scenes
    /// written so far, which are all scenes once the run is over.
    pub open spec fn conclusion(self) -> Result<Seq<SceneModel>, ErrorModel> {
        match self.failure {
            Some(error) => Err(error),
            None => if self.scene >= self.scenes.len() {
                Ok(self.scenes)
            } else {
                Ok(self.scenes.take(self.scene as int))
            },
        }
    }
}

/// An encoding run in progress.
#[derive(Debug)]
pub struct StitchRun {
    scenes: Vec<StitchJobResult>,
    candidates: Vec<EncoderCandidate>,
    scene: usize,
    attempt: usize,
    failure: Option<PipelineError>,
}

impl View for StitchRun {
    type V = RunModel;

    closed spec fn view(&self) -> RunModel {
        RunModel {
            scenes: scene_views(self.scenes@),
            candidates: candidate_views(self.candidates@),
            scene: self.scene as nat,
            attempt: self.attempt as nat,
            failure: match self.failure {
                Some(error) => Some(error@),
                None => None,
            },
        }
    }
}

impl StitchRun {
    #[verifier::type_invariant]
    closed spec fn valid(&self) -> bool {
        &&& self.scene <= self.scenes.len()
        &&& self.attempt < self.candidates.len()
    }

    /// A run over the given scenes with the encoders of the codec, before
    /// the first attempt.
    pub fn start(scenes: Vec<StitchJobResult>, codec: VideoCodec) -> (run: StitchRun)
        ensures
            run@ == (RunModel {
                scenes: scene_views(scenes@),
                candidates: candidates_for(codec),
                scene: 0,
                attempt: 0,
                failure: None,
            }),
    {
        let candidates = encoder_candidates(codec);
        assert(candidate_views(candidates@).len() == candidates@.len());
        StitchRun { scenes, candidates, scene: 0, attempt: 0, failure: None }
    }

    /// The attempt to make now: a scene and the encoder to try for it.
    /// None once the run is over.
    pub fn current(&self) -> (attempt: Option<(&StitchJobResult, &EncoderCandidate)>)
        ensures
            attempt is None == self@.is_over(),
            attempt matches Some(pair) ==> {
                &&& self@.attempt < self@.candidates.len()
                &&& pair.0@ == self@.scenes[self@.scene as int]
                &&& pair.1@ == self@.candidates[self@.attempt as int]
            },
    {
        proof {
            use_type_invariant(self);
        }
        if self.failure.is_some() || self.scene >= self.scenes.len() {
            None
        } else {
            Some((&self.scenes[self.scene], &self.candidates[self.attempt]))
        }
    }

    /// Takes note of how the current attempt went, and says what it meant.
    pub fn record(&mut self, outcome: AttemptOutcome) -> (progress: Progress)
        ensures
            final(self)@ == old(self)@.after(outcome@),
            progress == old(self)@.progress(outcome@),
    {
        proof {
            use_type_invariant(&*self);
        }
        if self.failure.is_some() || self.scene >= self.scenes.len() {
            return Progress::Ignored;
        }
        match outcome {
            AttemptOutcome::Succeeded => {
                let used_fallback = self.attempt > 0;
                self.scene = self.scene + 1;
                self.attempt = 0;
                Progress::SceneDone { used_fallback }
            },
            AttemptOutcome::Failed(error) => {
                if self.attempt + 1 < self.candidates.len() {
                    self.attempt = self.attempt + 1;
                    Progress::NextEncoder
                } else {
                    self.failure = Some(error);
                    Progress::RunFailed
                }
            },
        }
    }

    /// Ends the run and says what it came to.
    pub fn finish(self) -> (result: Result<Vec<StitchJobResult>, PipelineError>)
        ensures
            match (self@.conclusion(), result) {
                (Ok(scenes), Ok(written)) => scene_views(written@) == scenes,
                (Err(error), Err(reported)) => reported@ == error,
                _ => false,
            },
    {
        proof {
            use_type_invariant(&self);
        }
        match self.failure {
            Some(error) => Err(error),
            None => {
                let mut written = self.scenes;
                let ghost all = written@;
                written.truncate(self.scene);
                assert(scene_views(written@) =~= scene_views(all).take(self.scene as int));
                assert(scene_views(all).take(all.len() as int) =~= scene_views(all));
                Ok(written)
            },
        }
    }
}

/// A sequence of failed attempts with the given errors.
pub open spec fn failures(errors: Seq<ErrorModel>) -> Seq<AttemptModel> {
    errors.map_values(|error: ErrorModel| AttemptModel::Failed(error))
}

/// Once a run has failed, nothing that is reported changes it, and it ends
/// with the failure: no scene behind the failed one is attempted.
pub proof fn lemma_failure_ends_the_run(run: RunModel, outcomes: Seq<AttemptModel>)
    requires
        run.failure is Some,
    ensures
        run.after_all(outcomes) == run,
        run.conclusion() == Err::<Seq<SceneModel>, ErrorModel>(run.failure->0),
    decreases outcomes.len(),
{
    if outcomes.len() > 0 {
        lemma_failure_ends_the_run(run, outcomes.drop_last());
    }
}

/// While encoders are left for a scene, each failure moves on to the next
/// encoder and nothing else changes.
pub proof fn lemma_failures_move_on(run: RunModel, errors: Seq<ErrorModel>)
    requires
        !run.is_over(),
        run.attempt + errors.len() < run.candidates.len(),
    ensures
        run.after_all(failures(errors)) == (RunModel {
            attempt: run.attempt + errors.len(),
            ..run
        }),
    decreases errors.len(),
{
    if errors.len() > 0 {
        lemma_failures_move_on(run, errors.drop_last());
        assert(failures(errors).drop_last() =~= failures(errors.drop_last()));
        assert(failures(errors).last() == AttemptModel::Failed(errors.last()));
    }
}

/// A scene is written by the first encoder that succeeds: where encoders
/// fail and one that is left succeeds, the run goes on with the next scene
/// and its first encoder.
pub proof fn lemma_fallback_writes_the_scene(run: RunModel, errors: Seq<ErrorModel>)
    requires
        !run.is_over(),
        run.attempt + errors.len() < run.candidates.len(),
    ensures
        run.after_all(failures(errors).push(AttemptModel::Succeeded)) == (RunModel {
            scene: run.scene + 1,
            attempt: 0,
            ..run
        }),
        run.after_all(failures(errors)).progress(AttemptModel::Succeeded) == (Progress::SceneDone {
            used_fallback: run.attempt + errors.len() > 0,
        }),
{
    lemma_failures_move_on(run, errors);
    let outcomes = failures(errors).push(AttemptModel::Succeeded);
    assert(outcomes.drop_last() =~= failures(errors));
}

/// The run fails as a whole once every encoder has failed for one scene,
/// and it fails with the error of the last encoder.
pub proof fn lemma_last_failure_fails_the_run(run: RunModel, errors: Seq<ErrorModel>)
    requires
        !run.is_over(),
        run.attempt < run.candidates.len(),
        run.attempt + errors.len() == run.candidates.len(),
    ensures
        run.after_all(failures(errors)).failure == Some(errors.last()),
        run.after_all(failures(errors)).conclusion() == Err::<Seq<SceneModel>, ErrorModel>(
            errors.last(),
        ),
{
    let front = errors.drop_last();
    assert(failures(errors).drop_last() =~= failures(front));
    assert(failures(errors).last() == AttemptModel::Failed(errors.last()));
    if front.len() > 0 {
        lemma_failures_move_on(run, front);
    } else {
        assert(failures(front) =~= Seq::<AttemptModel>::empty());
        assert(run.after_all(failures(front)) == run);
    }
}

/// A run in which every scene is written comes to all its scenes, in
/// order.
pub proof fn lemma_finished_run_holds_every_scene(run: RunModel)
    requires
        run.failure is None,
        run.scene >= run.scenes.len(),
    ensures
        run.is_over(),
        run.conclusion() == Ok::<Seq<SceneModel>, ErrorModel>(run.scenes),
{
}

} // verus!
