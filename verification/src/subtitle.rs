//! Subtitles: the options of a transcription, the timed script that comes
//! out of it, and its rendering as SubRip text.

use crate::text::{
    decimal_digits, from_chars, is_blank, lines_of, push_chars, push_str, render_decimal,
    render_padded, split_lines, text_view, texts, to_chars, trim, trimmed, zero_padded,
};
use vstd::prelude::*;

verus! {

/// The options of a subtitle generation, as plain mathematical values.
pub struct OptionsModel {
    pub model_path: Seq<char>,
    pub language: Option<Seq<char>>,
    pub translate_to_english: bool,
    pub threads: Option<nat>,
    pub output_path: Option<Seq<char>>,
}

/// Options controlling subtitle generation by the speech engine.
#[derive(Debug, Clone)]
pub struct SubtitleGenerationOptions {
    /// Where the speech model lies.
    pub model_path: String,
    /// The language spoken, where it is known.
    pub language: Option<String>,
    /// Whether the engine puts what it hears into English.
    pub translate_to_english: bool,
    /// The number of threads the engine may use, where it is fixed.
    pub threads: Option<usize>,
    /// Where the script is written, where it is written at all.
    pub output_path: Option<String>,
}

impl View for SubtitleGenerationOptions {
    type V = OptionsModel;

    open spec fn view(&self) -> OptionsModel {
        OptionsModel {
            model_path: self.model_path@,
            language: text_view(self.language),
            translate_to_english: self.translate_to_english,
            threads: match self.threads {
                Some(n) => Some(n as nat),
                None => None,
            },
            output_path: text_view(self.output_path),
        }
    }
}

impl SubtitleGenerationOptions {
    /// Options for the given model: no language hint, speech kept in its
    /// own language, as many threads as the machine offers, nothing written.
    pub fn new(model_path: &str) -> (options: SubtitleGenerationOptions)
        ensures
            options@ == (OptionsModel {
                model_path: model_path@,
                language: None,
                translate_to_english: false,
                threads: None,
                output_path: None,
            }),
    {
        SubtitleGenerationOptions {
            model_path: model_path.to_owned(),
            language: None,
            translate_to_english: false,
            threads: None,
            output_path: None,
        }
    }

    /// The same options with a language hint.
    pub fn with_language(self, language: &str) -> (options: SubtitleGenerationOptions)
        ensures
            options@ == (OptionsModel { language: Some(language@), ..self@ }),
    {
        SubtitleGenerationOptions {
            model_path: self.model_path,
            language: Some(language.to_owned()),
            translate_to_english: self.translate_to_english,
            threads: self.threads,
            output_path: self.output_path,
        }
    }

    /// The same options, with the engine told to put what it hears into
    /// English, or not to.
    pub fn translate_to_english(self, translate: bool) -> (options: SubtitleGenerationOptions)
        ensures
            options@ == (OptionsModel { translate_to_english: translate, ..self@ }),
    {
        SubtitleGenerationOptions {
            model_path: self.model_path,
            language: self.language,
            translate_to_english: translate,
            threads: self.threads,
            output_path: self.output_path,
        }
    }

    /// The same options with a fixed number of threads: `threads`, or one
    /// where zero is given.
    pub fn with_threads(self, threads: usize) -> (options: SubtitleGenerationOptions)
        ensures
            options@ == (OptionsModel {
                threads: Some(
                    if threads == 0 {
                        1nat
                    } else {
                        threads as nat
                    },
                ),
                ..self@
            }),
    {
        SubtitleGenerationOptions {
            model_path: self.model_path,
            language: self.language,
            translate_to_english: self.translate_to_english,
            threads: Some(
                if threads == 0 {
                    1
                } else {
                    threads
                },
            ),
            output_path: self.output_path,
        }
    }

    /// The same options, with the script written to `output_path`.
    pub fn write_to(self, output_path: &str) -> (options: SubtitleGenerationOptions)
        ensures
            options@ == (OptionsModel { output_path: Some(output_path@), ..self@ }),
    {
        SubtitleGenerationOptions {
            model_path: self.model_path,
            language: self.language,
            translate_to_english: self.translate_to_english,
            threads: self.threads,
            output_path: Some(output_path.to_owned()),
        }
    }
}

/// A length of time from the start of a recording, in whole milliseconds.
#[derive(Debug, Clone, Copy, PartialEq, Eq, Structural)]
pub struct TimeSpan {
    pub millis: u128,
}

impl TimeSpan {
    /// The time span of so many milliseconds.
    pub fn from_millis(millis: u64) -> (span: TimeSpan)
        ensures
            span.millis == millis,
    {
        TimeSpan { millis: millis as u128 }
    }

    /// The number of milliseconds of the time span.
    pub fn as_millis(&self) -> (millis: u128)
        ensures
            millis == self.millis,
    {
        self.millis
    }
}

/// The milliseconds that a count of centiseconds stands for. What is not
/// positive counts as zero.
pub open spec fn centiseconds_as_millis(cs: int) -> nat {
    if cs <= 0 {
        0
    } else {
        (cs * 10) as nat
    }
}

/// The time span that the speech engine means by a count of centiseconds.
/// A count that is not positive gives the empty time span, never a
/// negative one.
pub fn centiseconds_to_duration(cs: i64) -> (span: TimeSpan)
    ensures
        span.millis == centiseconds_as_millis(cs as int),
        cs <= 0 ==> span.millis == 0,
{
    if cs <= 0 {
        return TimeSpan { millis: 0 };
    }
    TimeSpan { millis: (cs as u128) * 10 }
}

/// A time span as SubRip writes it: `HH:MM:SS,mmm`, with hours, minutes and
/// seconds zero-filled to two places and milliseconds to three. Hours
/// beyond 99 take the places they need.
pub open spec fn timestamp_text(millis: nat) -> Seq<char> {
    zero_padded(millis / 3_600_000, 2) + seq![':'] + zero_padded((millis % 3_600_000) / 60_000, 2)
        + seq![':'] + zero_padded((millis % 60_000) / 1_000, 2) + seq![','] + zero_padded(
        millis % 1_000,
        3,
    )
}

/// Writes a time span as `HH:MM:SS,mmm`.
pub fn format_timestamp(duration: TimeSpan) -> (text: String)
    ensures
        text@ == timestamp_text(duration.millis as nat),
{
    let total: u128 = duration.millis;
    let hours: u128 = total / 3_600_000;
    let minutes: u128 = (total % 3_600_000) / 60_000;
    let seconds: u128 = (total % 60_000) / 1_000;
    let millis: u128 = total % 1_000;
    let mut out: Vec<char> = render_padded(hours, 2);
    out.push(':');
    let part = render_padded(minutes, 2);
    push_chars(&mut out, &part);
    out.push(':');
    let part = render_padded(seconds, 2);
    push_chars(&mut out, &part);
    out.push(',');
    let part = render_padded(millis, 3);
    push_chars(&mut out, &part);
    from_chars(&out)
}

/// One subtitle: its number in the script, when it is shown, and its text.
#[derive(Debug, Clone)]
pub struct SubtitleSegment {
    pub index: usize,
    pub start: TimeSpan,
    pub end: TimeSpan,
    pub text: String,
}

/// A subtitle as plain mathematical values, times in milliseconds.
pub struct SegmentModel {
    pub index: nat,
    pub start: nat,
    pub end: nat,
    pub text: Seq<char>,
}

impl View for SubtitleSegment {
    type V = SegmentModel;

    open spec fn view(&self) -> SegmentModel {
        SegmentModel {
            index: self.index as nat,
            start: self.start.millis as nat,
            end: self.end.millis as nat,
            text: self.text@,
        }
    }
}

/// The views of the segments of a sequence, in order.
pub open spec fn segment_views(segments: Seq<SubtitleSegment>) -> Seq<SegmentModel> {
    segments.map_values(|s: SubtitleSegment| s@)
}

/// A subtitle as SubRip writes it: the number, the line of the two times,
/// the text, and an empty line.
pub open spec fn segment_text(segment: SegmentModel) -> Seq<char> {
    decimal_digits(segment.index) + seq!['\n'] + timestamp_text(segment.start) + " --> "@
        + timestamp_text(segment.end) + seq!['\n'] + segment.text + seq!['\n', '\n']
}

/// A script as SubRip writes it: its subtitles one after the other.
pub open spec fn srt_text(segments: Seq<SegmentModel>) -> Seq<char> {
    segments.flat_map(|s: SegmentModel| segment_text(s))
}

/// A script is in order where its subtitles are numbered 1, 2, 3 and so on
/// without a gap, none ends before it starts, and none is empty.
pub open spec fn is_ordered_script(segments: Seq<SegmentModel>) -> bool {
    forall|i: int|
        0 <= i < segments.len() ==> {
            &&& (#[trigger] segments[i]).index == i + 1
            &&& segments[i].start <= segments[i].end
            &&& segments[i].text.len() > 0
        }
}

/// The subtitles of one recording, in the order in which they are shown.
#[derive(Debug, Clone)]
pub struct SubtitleScript {
    pub segments: Vec<SubtitleSegment>,
}

impl View for SubtitleScript {
    type V = Seq<SegmentModel>;

    open spec fn view(&self) -> Seq<SegmentModel> {
        segment_views(self.segments@)
    }
}

/// Appends one subtitle, as SubRip writes it, to `out`.
fn push_segment(out: &mut Vec<char>, segment: &SubtitleSegment)
    ensures
        final(out)@ == old(out)@ + segment_text(segment@),
{
    let ghost before = out@;
    let number = render_decimal(segment.index as u128);
    push_chars(out, &number);
    out.push('\n');
    let start = format_timestamp(segment.start);
    push_str(out, start.as_str());
    push_str(out, " --> ");
    let end = format_timestamp(segment.end);
    push_str(out, end.as_str());
    out.push('\n');
    push_str(out, segment.text.as_str());
    out.push('\n');
    out.push('\n');
    assert(out@ =~= before + segment_text(segment@));
}

impl SubtitleScript {
    /// The script as SubRip text.
    pub fn to_srt(&self) -> (text: String)
        ensures
            text@ == srt_text(self@),
    {
        let ghost f = |s: SegmentModel| segment_text(s);
        let ghost models = segment_views(self.segments@);
        let mut out: Vec<char> = Vec::new();
        let mut i: usize = 0;
        assert(models.take(0).flat_map(f) =~= Seq::<char>::empty());
        while i < self.segments.len()
            invariant
                i <= self.segments.len(),
                models == segment_views(self.segments@),
                f == (|s: SegmentModel| segment_text(s)),
                out@ == models.take(i as int).flat_map(f),
            decreases self.segments.len() - i,
        {
            proof {
                models.lemma_flat_map_take_append(f, i as int);
                assert(models[i as int] == self.segments@[i as int]@);
            }
            push_segment(&mut out, &self.segments[i]);
            i += 1;
        }
        assert(models.take(models.len() as int) =~= models);
        from_chars(&out)
    }
}

/// What the speech engine reports for one stretch of speech: the text it
/// heard, and where the stretch starts and ends, in centiseconds.
#[derive(Debug, Clone)]
pub struct RawSegment {
    pub text: String,
    pub start: i64,
    pub end: i64,
}

/// An engine report as plain mathematical values.
pub struct RawModel {
    pub text: Seq<char>,
    pub start: int,
    pub end: int,
}

impl View for RawSegment {
    type V = RawModel;

    open spec fn view(&self) -> RawModel {
        RawModel { text: self.text@, start: self.start as int, end: self.end as int }
    }
}

/// The views of the engine reports of a sequence, in order.
pub open spec fn raw_views(raw: Seq<RawSegment>) -> Seq<RawModel> {
    raw.map_values(|r: RawSegment| r@)
}

/// A report without the whitespace around its text.
pub open spec fn trimmed_report(raw: RawModel) -> RawModel {
    RawModel { text: trimmed(raw.text), ..raw }
}

/// The subtitle made from a report: times in milliseconds, and an end
/// that is never before the start.
pub open spec fn subtitle_of(raw: RawModel, index: nat) -> SegmentModel {
    let start = centiseconds_as_millis(raw.start);
    let end = centiseconds_as_millis(raw.end);
    SegmentModel {
        index,
        start,
        end: if end < start {
            start
        } else {
            end
        },
        text: raw.text,
    }
}

/// The script made from reports whose text is trimmed already: reports
/// without text are dropped, and the others are numbered from one in their
/// order.
pub open spec fn numbered_script(reports: Seq<RawModel>) -> Seq<SegmentModel> {
    let spoken = reports.filter(|r: RawModel| r.text.len() > 0);
    Seq::new(spoken.len(), |i: int| subtitle_of(spoken[i], (i + 1) as nat))
}

/// The script made from the reports of the engine: each text loses the
/// whitespace around it, reports that are left without text are dropped,
/// and the others are numbered from one in their order.
pub open spec fn script_of(raw: Seq<RawModel>) -> Seq<SegmentModel> {
    numbered_script(raw.map_values(|r: RawModel| trimmed_report(r)))
}

/// A numbered script is in order: numbered from one without a gap,
/// whatever was dropped, with no subtitle that ends before it starts and
/// none that is empty.
pub proof fn lemma_numbered_script_is_ordered(reports: Seq<RawModel>)
    ensures
        is_ordered_script(numbered_script(reports)),
        numbered_script(reports).len() <= reports.len(),
{
    let pred = |r: RawModel| r.text.len() > 0;
    let spoken = reports.filter(pred);
    reports.lemma_filter_len(pred);
    assert forall|i: int| 0 <= i < numbered_script(reports).len() implies {
        &&& (#[trigger] numbered_script(reports)[i]).index == i + 1
        &&& numbered_script(reports)[i].start <= numbered_script(reports)[i].end
        &&& numbered_script(reports)[i].text.len() > 0
    } by {
        reports.lemma_filter_pred(pred, i);
        assert(pred(spoken[i]));
    }
}

/// Makes the script from reports whose text is trimmed already.
pub fn number_segments(reports: &Vec<RawSegment>) -> (script: SubtitleScript)
    ensures
        script@ == numbered_script(raw_views(reports@)),
        is_ordered_script(script@),
{
    let ghost pred = |r: RawModel| r.text.len() > 0;
    let ghost all = raw_views(reports@);
    let mut segments: Vec<SubtitleSegment> = Vec::new();
    let mut i: usize = 0;
    proof {
        reveal(Seq::filter);
        assert(all.take(0).filter(pred) =~= Seq::<RawModel>::empty());
        assert(segment_views(segments@) =~= numbered_script(all.take(0)));
    }
    while i < reports.len()
        invariant
            i <= reports.len(),
            segments.len() <= i,
            all == raw_views(reports@),
            pred == (|r: RawModel| r.text.len() > 0),
            segment_views(segments@) == numbered_script(all.take(i as int)),
        decreases reports.len() - i,
    {
        let report = &reports[i];
        proof {
            assert(all.take(i + 1) =~= all.take(i as int).push(all[i as int]));
            all.take(i as int).lemma_filter_push(all[i as int], pred);
            assert(all[i as int] == report@);
        }
        if !report.text.as_str().is_empty() {
            let start = centiseconds_to_duration(report.start);
            let reported_end = centiseconds_to_duration(report.end);
            let end = if reported_end.millis < start.millis {
                start
            } else {
                reported_end
            };
            let segment = SubtitleSegment {
                index: segments.len() + 1,
                start,
                end,
                text: report.text.clone(),
            };
            proof {
                let before = all.take(i as int).filter(pred);
                assert(segment_views(segments@).len() == segments@.len());
                assert(numbered_script(all.take(i as int)).len() == before.len());
                assert(segment@ == subtitle_of(report@, (before.len() + 1) as nat));
                assert(segment_views(segments@.push(segment)) =~= segment_views(segments@).push(
                    segment@,
                ));
                assert(segment_views(segments@).push(segment@) =~= numbered_script(
                    all.take(i + 1),
                ));
            }
            segments.push(segment);
        }
        i += 1;
    }
    proof {
        assert(all.take(reports.len() as int) =~= all);
        lemma_numbered_script_is_ordered(all);
    }
    SubtitleScript { segments }
}

/// Makes the script from what the speech engine reported.
pub fn assemble_script(raw: &Vec<RawSegment>) -> (script: SubtitleScript)
    ensures
        script@ == script_of(raw_views(raw@)),
        is_ordered_script(script@),
{
    let ghost strip = |r: RawModel| trimmed_report(r);
    let mut reports: Vec<RawSegment> = Vec::new();
    let mut i: usize = 0;
    assert(raw_views(reports@) =~= raw_views(raw@).map_values(strip).take(0));
    while i < raw.len()
        invariant
            i <= raw.len(),
            strip == (|r: RawModel| trimmed_report(r)),
            raw_views(reports@) == raw_views(raw@).map_values(strip).take(i as int),
        decreases raw.len() - i,
    {
        let report = &raw[i];
        let text = trim(&to_chars(report.text.as_str()));
        let stripped = RawSegment { text: from_chars(&text), start: report.start, end: report.end };
        proof {
            let wanted = raw_views(raw@).map_values(strip);
            assert(stripped@ == trimmed_report(report@));
            assert(raw_views(raw@)[i as int] == report@);
            assert(wanted[i as int] == stripped@);
            assert(wanted.take(i + 1) =~= wanted.take(i as int).push(wanted[i as int]));
            assert(raw_views(reports@.push(stripped)) =~= raw_views(reports@).push(stripped@));
        }
        reports.push(stripped);
        i += 1;
    }
    assert(raw_views(raw@).map_values(strip).take(raw.len() as int) =~= raw_views(raw@).map_values(
        strip,
    ));
    number_segments(&reports)
}

/// At most the first four elements of a sequence.
pub open spec fn first_four<A>(s: Seq<A>) -> Seq<A> {
    if s.len() > 4 {
        s.take(4)
    } else {
        s
    }
}

/// The preview of a text: its first four lines that hold more than
/// whitespace.
pub open spec fn preview_of(text: Seq<char>) -> Seq<Seq<char>> {
    first_four(lines_of(text).filter(|line: Seq<char>| !is_blank(line)))
}

/// The preview of a script's SubRip text: its first four lines that are not
/// blank.
pub fn preview_lines(srt: &str) -> (preview: Vec<String>)
    ensures
        texts(preview@) == preview_of(srt@),
        preview.len() <= 4,
{
    let ghost pred = |line: Seq<char>| !is_blank(line);
    let ghost view = |l: Vec<char>| l@;
    let chars = to_chars(srt);
    let lines = split_lines(&chars);
    let ghost all = lines@.map_values(view);
    let mut preview: Vec<String> = Vec::new();
    let mut i: usize = 0;
    proof {
        reveal(Seq::filter);
        assert(all.take(0).filter(pred) =~= Seq::<Seq<char>>::empty());
        assert(texts(preview@) =~= first_four(all.take(0).filter(pred)));
    }
    while i < lines.len()
        invariant
            i <= lines.len(),
            all == lines@.map_values(view),
            view == (|l: Vec<char>| l@),
            pred == (|line: Seq<char>| !is_blank(line)),
            preview.len() <= 4,
            texts(preview@) == first_four(all.take(i as int).filter(pred)),
        decreases lines.len() - i,
    {
        let line = &lines[i];
        proof {
            assert(all.take(i + 1) =~= all.take(i as int).push(all[i as int]));
            all.take(i as int).lemma_filter_push(all[i as int], pred);
            assert(all[i as int] == line@);
        }
        if preview.len() < 4 && trim(line).len() > 0 {
            let shown = from_chars(line);
            proof {
                let before = all.take(i as int).filter(pred);
                assert(texts(preview@.push(shown)) =~= texts(preview@).push(line@));
                assert(first_four(before.push(line@)) =~= before.push(line@));
            }
            preview.push(shown);
        } else {
            proof {
                let before = all.take(i as int).filter(pred);
                if preview.len() >= 4 && pred(line@) {
                    assert(first_four(before.push(line@)) =~= first_four(before));
                }
            }
        }
        i += 1;
    }
    assert(all.take(lines.len() as int) =~= all);
    preview
}

} // verus!
