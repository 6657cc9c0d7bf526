//! Batch subtitle generation: which files of a directory are transcribed,
//! in which order, and what becomes of the run when a file cannot be
//! prepared or the engine fails.
//!
//! The caller does the work on each file and reports how it went; the run
//! decides what follows. A file that cannot be prepared is skipped. Any
//! other failure ends the run.

use crate::audio::is_supported_audio;
use crate::error::{ErrorKind, ErrorModel, PipelineError};
use crate::names::{
    file_stem, is_media_name, join_path, joined_path, stem_of, DirectoryListing,
    MediaKind, listing_view,
};
use crate::natural::{natural_sorted, sort_natural};
use crate::text::{from_chars, join3, join5, push_str, texts, to_chars};
use vstd::prelude::*;

verus! {

/// What a batch produced for one audio file.
#[derive(Debug, Clone)]
pub struct SubtitleBatchItem {
    /// The audio file.
    pub audio_path: String,
    /// The subtitle file written for it.
    pub subtitle_path: Option<String>,
    /// The first lines of the subtitle file.
    pub preview_lines: Vec<String>,
}

/// A batch item as plain mathematical values.
pub struct ItemModel {
    pub audio_path: Seq<char>,
    pub subtitle_path: Option<Seq<char>>,
    pub preview_lines: Seq<Seq<char>>,
}

impl View for SubtitleBatchItem {
    type V = ItemModel;

    open spec fn view(&self) -> ItemModel {
        ItemModel {
            audio_path: self.audio_path@,
            subtitle_path: match self.subtitle_path {
                Some(path) => Some(path@),
                None => None,
            },
            preview_lines: texts(self.preview_lines@),
        }
    }
}

/// The views of the items of a sequence, in order.
pub open spec fn item_views(items: Seq<SubtitleBatchItem>) -> Seq<ItemModel> {
    items.map_values(|item: SubtitleBatchItem| item@)
}

/// One file of a batch: its name, where it lies, and where its subtitles
/// are written.
#[derive(Debug, Clone)]
pub struct BatchJob {
    pub audio_name: String,
    pub audio_path: String,
    pub subtitle_path: String,
}

/// A batch job as plain mathematical values.
pub struct JobModel {
    pub audio_name: Seq<char>,
    pub audio_path: Seq<char>,
    pub subtitle_path: Seq<char>,
}

impl View for BatchJob {
    type V = JobModel;

    open spec fn view(&self) -> JobModel {
        JobModel {
            audio_name: self.audio_name@,
            audio_path: self.audio_path@,
            subtitle_path: self.subtitle_path@,
        }
    }
}

/// The views of the jobs of a sequence, in order.
pub open spec fn job_views(jobs: Seq<BatchJob>) -> Seq<JobModel> {
    jobs.map_values(|job: BatchJob| job@)
}

/// The job for one audio file: its subtitles go to the output directory,
/// under the stem of its name with the extension `srt`.
pub open spec fn batch_job(audio_dir: Seq<char>, output_dir: Seq<char>, name: Seq<char>) -> JobModel {
    JobModel {
        audio_name: name,
        audio_path: joined_path(audio_dir, name),
        subtitle_path: joined_path(output_dir, stem_of(name) + ".srt"@),
    }
}

/// One job for each audio file among the names given, in their order.
pub open spec fn jobs_in_order(audio_dir: Seq<char>, output_dir: Seq<char>, sorted: Seq<Seq<char>>) -> Seq<
    JobModel,
> {
    sorted.filter(|name: Seq<char>| is_media_name(MediaKind::Audio, name)).map_values(
        |name: Seq<char>| batch_job(audio_dir, output_dir, name),
    )
}

/// The jobs of a batch: one for each audio file of the directory, in
/// natural order of the names.
pub open spec fn batch_jobs(audio_dir: Seq<char>, output_dir: Seq<char>, files: Seq<Seq<char>>) -> Seq<
    JobModel,
> {
    jobs_in_order(audio_dir, output_dir, natural_sorted(files))
}

/// How the work on one file went.
#[derive(Debug, Clone)]
pub enum FileEvent {
    /// The file could not be prepared for the engine.
    Skipped,
    /// The subtitles were written; these are their first lines.
    Completed { preview_lines: Vec<String> },
    /// The engine failed, or the subtitles could not be written.
    Failed(PipelineError),
}

/// A file event as plain mathematical values.
pub enum EventModel {
    Skipped,
    Completed(Seq<Seq<char>>),
    Failed(ErrorModel),
}

impl View for FileEvent {
    type V = EventModel;

    open spec fn view(&self) -> EventModel {
        match self {
            FileEvent::Skipped => EventModel::Skipped,
            FileEvent::Completed { preview_lines } => EventModel::Completed(texts(preview_lines@)),
            FileEvent::Failed(error) => EventModel::Failed(error@),
        }
    }
}

/// The item recorded for a job whose subtitles were written.
pub open spec fn completed_item(job: JobModel, preview: Seq<Seq<char>>) -> ItemModel {
    ItemModel {
        audio_path: job.audio_path,
        subtitle_path: Some(job.subtitle_path),
        preview_lines: preview,
    }
}

/// The message for a batch that produced nothing.
pub open spec fn no_audio_message(audio_dir: Seq<char>) -> Seq<char> {
    "No supported audio files (wav/mp3/m4a/aac/flac/ogg) were found in '"@ + audio_dir + "'."@
}

/// The state of a batch run, as plain mathematical values.
pub struct BatchModel {
    /// The directory of the audio files.
    pub audio_dir: Seq<char>,
    /// The jobs of the run, in order.
    pub jobs: Seq<JobModel>,
    /// How many jobs have been dealt with.
    pub next: nat,
    /// The items recorded so far.
    pub items: Seq<ItemModel>,
    /// The failure that ended the run, if one did.
    pub failure: Option<ErrorModel>,
}

impl BatchModel {
    /// A run is over once it has failed or has dealt with every job.
    pub open spec fn is_over(self) -> bool {
        self.failure is Some || self.next >= self.jobs.len()
    }

    /// The state after the work on the current job went as `event` says.
    /// A run that is over stays as it is.
    pub open spec fn after(self, event: EventModel) -> BatchModel {
        if self.is_over() {
            self
        } else {
            match event {
                EventModel::Skipped => BatchModel { next: self.next + 1, ..self },
                EventModel::Completed(preview) => BatchModel {
                    next: self.next + 1,
                    items: self.items.push(completed_item(self.jobs[self.next as int], preview)),
                    ..self
                },
                EventModel::Failed(error) => BatchModel { failure: Some(error), ..self },
            }
        }
    }

    /// The state after a sequence of events, one after the other.
    pub open spec fn after_all(self, events: Seq<EventModel>) -> BatchModel
        decreases events.len(),
    {
        if events.len() == 0 {
            self
        } else {
            self.after_all(events.drop_last()).after(events.last())
        }
    }

    /// What the run comes to: the failure that ended it; or `NotFound`
    /// where no item was recorded; or else the items.
    pub open spec fn conclusion(self) -> Result<Seq<ItemModel>, ErrorModel> {
        match self.failure {
            Some(error) => Err(error),
            None => if self.items.len() == 0 {
                Err(
                    ErrorModel {
                        kind: ErrorKind::NotFound,
                        message: no_audio_message(self.audio_dir),
                    },
                )
            } else {
                Ok(self.items)
            },
        }
    }
}

/// The items of the first `upto` jobs whose subtitles were written, in
/// order.
pub open spec fn completed_items(jobs: Seq<JobModel>, events: Seq<EventModel>, upto: nat) -> Seq<
    ItemModel,
>
    decreases upto,
{
    if upto == 0 {
        Seq::empty()
    } else {
        let head = completed_items(jobs, events, (upto - 1) as nat);
        match events[upto - 1] {
            EventModel::Completed(preview) => head.push(completed_item(jobs[upto - 1], preview)),
            _ => head,
        }
    }
}

/// A batch run in progress.
#[derive(Debug)]
pub struct BatchRun {
    audio_dir: String,
    jobs: Vec<BatchJob>,
    next: usize,
    items: Vec<SubtitleBatchItem>,
    failure: Option<PipelineError>,
}

impl View for BatchRun {
    type V = BatchModel;

    closed spec fn view(&self) -> BatchModel {
        BatchModel {
            audio_dir: self.audio_dir@,
            jobs: job_views(self.jobs@),
            next: self.next as nat,
            items: item_views(self.items@),
            failure: match self.failure {
                Some(error) => Some(error@),
                None => None,
            },
        }
    }
}

/// The message for an audio directory that is missing or is no directory.
pub open spec fn missing_audio_directory_message(audio_dir: Seq<char>) -> Seq<char> {
    "Audio directory '"@ + audio_dir + "' does not exist"@
}

/// Starts a batch over the audio files of a directory, from a listing of
/// the directory (`None` where it is missing or is no directory). The
/// subtitles of each file go to `output_dir`.
pub fn generate_subtitles_batch(
    audio_dir: &str,
    listing: Option<&DirectoryListing>,
    output_dir: &str,
) -> (result: Result<BatchRun, PipelineError>)
    ensures
        match (listing_view(listing), result) {
            (None, Ok(_)) => false,
            (None, Err(error)) => error.kind == ErrorKind::NotFound && error.message@
                == missing_audio_directory_message(audio_dir@),
            (Some(found), Ok(run)) => run@ == (BatchModel {
                audio_dir: audio_dir@,
                jobs: batch_jobs(audio_dir@, output_dir@, found.files),
                next: 0,
                items: Seq::empty(),
                failure: None,
            }),
            (Some(_), Err(_)) => false,
        },
{
    let found = match listing {
        None => {
            let message = join3("Audio directory '", audio_dir, "' does not exist");
            return Err(PipelineError::new(ErrorKind::NotFound, message));
        },
        Some(found) => found,
    };
    let sorted = sort_natural(&found.files);
    let jobs = plan_jobs(audio_dir, &sorted, output_dir);
    let run = BatchRun {
        audio_dir: audio_dir.to_owned(),
        jobs,
        next: 0,
        items: Vec::new(),
        failure: None,
    };
    assert(run@.items =~= Seq::empty());
    Ok(run)
}

/// Plans one job for each audio file among the names given, in their
/// order.
pub fn plan_jobs(audio_dir: &str, sorted: &Vec<String>, output_dir: &str) -> (jobs: Vec<BatchJob>)
    ensures
        job_views(jobs@) == jobs_in_order(audio_dir@, output_dir@, texts(sorted@)),
{
    let ghost names = texts(sorted@);
    let ghost pred = |name: Seq<char>| is_media_name(MediaKind::Audio, name);
    let ghost job = |name: Seq<char>| batch_job(audio_dir@, output_dir@, name);
    let mut jobs: Vec<BatchJob> = Vec::new();
    let mut i: usize = 0;
    proof {
        reveal(Seq::filter);
        assert(names.take(0).filter(pred) =~= Seq::<Seq<char>>::empty());
        assert(job_views(jobs@) =~= names.take(0).filter(pred).map_values(job));
    }
    while i < sorted.len()
        invariant
            i <= sorted.len(),
            names == texts(sorted@),
            pred == (|name: Seq<char>| is_media_name(MediaKind::Audio, name)),
            job == (|name: Seq<char>| batch_job(audio_dir@, output_dir@, name)),
            job_views(jobs@) == names.take(i as int).filter(pred).map_values(job),
        decreases sorted.len() - i,
    {
        let name = sorted[i].as_str();
        proof {
            assert(names.take(i + 1) =~= names.take(i as int).push(names[i as int]));
            names.take(i as int).lemma_filter_push(names[i as int], pred);
            assert(names[i as int] == name@);
        }
        if is_supported_audio(name) {
            let mut subtitle_name: Vec<char> = file_stem(&to_chars(name));
            push_str(&mut subtitle_name, ".srt");
            let subtitle_name = from_chars(&subtitle_name);
            let planned = BatchJob {
                audio_name: name.to_owned(),
                audio_path: join_path(audio_dir, name),
                subtitle_path: join_path(output_dir, subtitle_name.as_str()),
            };
            proof {
                let before = names.take(i as int).filter(pred);
                assert(planned@ == job(name@));
                assert(job_views(jobs@.push(planned)) =~= job_views(jobs@).push(planned@));
                assert(before.push(name@).map_values(job) =~= before.map_values(job).push(
                    job(name@),
                ));
            }
            jobs.push(planned);
        }
        i += 1;
    }
    assert(names.take(sorted.len() as int) =~= names);
    jobs
}

impl BatchRun {
    /// The job to work on now, unless the run is over.
    pub fn current(&self) -> (job: Option<&BatchJob>)
        ensures
            job is None == self@.is_over(),
            job matches Some(j) ==> j@ == self@.jobs[self@.next as int],
    {
        if self.failure.is_some() || self.next >= self.jobs.len() {
            None
        } else {
            Some(&self.jobs[self.next])
        }
    }

    /// Takes note of how the work on the current job went.
    pub fn record(&mut self, event: FileEvent)
        ensures
            final(self)@ == old(self)@.after(event@),
    {
        if self.failure.is_some() || self.next >= self.jobs.len() {
            return ;
        }
        match event {
            FileEvent::Skipped => {
                self.next = self.next + 1;
            },
            FileEvent::Completed { preview_lines } => {
                let job = &self.jobs[self.next];
                let item = SubtitleBatchItem {
                    audio_path: job.audio_path.clone(),
                    subtitle_path: Some(job.subtitle_path.clone()),
                    preview_lines,
                };
                proof {
                    assert(item@ == completed_item(old(self)@.jobs[old(self)@.next as int], event@->Completed_0));
                    assert(item_views(self.items@.push(item)) =~= item_views(self.items@).push(item@));
                }
                self.items.push(item);
                self.next = self.next + 1;
            },
            FileEvent::Failed(error) => {
                self.failure = Some(error);
            },
        }
    }

    /// Ends the run and says what it came to.
    pub fn finish(self) -> (result: Result<Vec<SubtitleBatchItem>, PipelineError>)
        ensures
            match (self@.conclusion(), result) {
                (Ok(items), Ok(found)) => item_views(found@) == items,
                (Err(error), Err(reported)) => reported@ == error,
                _ => false,
            },
    {
        match self.failure {
            Some(error) => Err(error),
            None => {
                if self.items.len() == 0 {
                    let message = join3(
                        "No supported audio files (wav/mp3/m4a/aac/flac/ogg) were found in '",
                        self.audio_dir.as_str(),
                        "'.",
                    );
                    Err(PipelineError::new(ErrorKind::NotFound, message))
                } else {
                    Ok(self.items)
                }
            },
        }
    }
}

/// The line that tells of a skipped file.
pub open spec fn skip_notice_text(audio_path: Seq<char>, reason: Seq<char>) -> Seq<char> {
    "Skipping '"@ + audio_path + "' because it could not be converted: "@ + reason
}

/// The line that tells of a file that was skipped, and why.
pub fn skip_notice(audio_path: &str, reason: &str) -> (line: String)
    ensures
        line@ == skip_notice_text(audio_path@, reason@),
{
    let line = join5("Skipping '", audio_path, "' because it could not be converted: ", reason, "");
    assert("Skipping '"@ + audio_path@ + "' because it could not be converted: "@ + reason@ + ""@
        =~= skip_notice_text(audio_path@, reason@)) by {
        reveal_strlit("");
    }
    line
}

/// Once a run has failed, nothing that is reported changes it, and it
/// ends with the failure.
pub proof fn lemma_failure_ends_the_run(run: BatchModel, events: Seq<EventModel>)
    requires
        run.failure is Some,
    ensures
        run.after_all(events) == run,
        run.conclusion() == Err::<Seq<ItemModel>, ErrorModel>(run.failure->0),
    decreases events.len(),
{
    if events.len() > 0 {
        lemma_failure_ends_the_run(run, events.drop_last());
    }
}

/// What a fresh run has recorded after events in which nothing failed: it
/// has dealt with one job per event and holds the items of the completed
/// ones, in order.
proof fn lemma_progress_without_failure(start: BatchModel, events: Seq<EventModel>)
    requires
        start.next == 0,
        start.items.len() == 0,
        start.failure is None,
        events.len() <= start.jobs.len(),
        forall|i: int| 0 <= i < events.len() ==> !(#[trigger] events[i] is Failed),
    ensures
        start.after_all(events) == (BatchModel {
            next: events.len(),
            items: completed_items(start.jobs, events, events.len()),
            ..start
        }),
    decreases events.len(),
{
    if events.len() == 0 {
        assert(start.items =~= Seq::empty());
    } else {
        let front = events.drop_last();
        assert forall|i: int| 0 <= i < front.len() implies !(#[trigger] front[i] is Failed) by {
            assert(front[i] == events[i]);
        }
        lemma_progress_without_failure(start, front);
        lemma_completed_items_prefix(start.jobs, events, front, front.len());
    }
}

/// The completed items depend on no event behind those that are counted.
proof fn lemma_completed_items_prefix(
    jobs: Seq<JobModel>,
    events: Seq<EventModel>,
    front: Seq<EventModel>,
    upto: nat,
)
    requires
        upto <= front.len() <= events.len(),
        forall|i: int| 0 <= i < front.len() ==> front[i] == events[i],
    ensures
        completed_items(jobs, front, upto) == completed_items(jobs, events, upto),
    decreases upto,
{
    if upto > 0 {
        lemma_completed_items_prefix(jobs, events, front, (upto - 1) as nat);
    }
}

/// Items are recorded only for completed files.
proof fn lemma_completed_items_count(jobs: Seq<JobModel>, events: Seq<EventModel>, upto: nat)
    requires
        upto <= events.len(),
    ensures
        completed_items(jobs, events, upto).len() > 0 <==> exists|i: int|
            0 <= i < upto && #[trigger] events[i] is Completed,
    decreases upto,
{
    if upto > 0 {
        lemma_completed_items_count(jobs, events, (upto - 1) as nat);
        if completed_items(jobs, events, (upto - 1) as nat).len() > 0 {
            let i = choose|i: int| 0 <= i < upto - 1 && #[trigger] events[i] is Completed;
            assert(events[i] is Completed);
        } else if events[upto - 1] is Completed {
        } else {
            assert forall|i: int| 0 <= i < upto implies !(#[trigger] events[i] is Completed) by {
                if i < upto - 1 {
                    assert(!(events[i] is Completed));
                }
            }
        }
    }
}

/// A batch is carried through as far as it goes: where files are skipped
/// but nothing else fails, the run deals with every file, records one item
/// for each completed file, in order, and succeeds unless not one file was
/// completed.
pub proof fn lemma_batch_is_best_effort(start: BatchModel, events: Seq<EventModel>)
    requires
        start.next == 0,
        start.items.len() == 0,
        start.failure is None,
        events.len() == start.jobs.len(),
        forall|i: int| 0 <= i < events.len() ==> !(#[trigger] events[i] is Failed),
    ensures
        start.after_all(events).is_over(),
        start.after_all(events).failure is None,
        start.after_all(events).items == completed_items(start.jobs, events, events.len()),
        start.after_all(events).conclusion() is Ok <==> exists|i: int|
            0 <= i < events.len() && #[trigger] events[i] is Completed,
        start.after_all(events).conclusion() matches Ok(items) ==> items == completed_items(
            start.jobs,
            events,
            events.len(),
        ),
{
    lemma_progress_without_failure(start, events);
    lemma_completed_items_count(start.jobs, events, events.len());
}

} // verus!
