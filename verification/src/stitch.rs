//! The asset matcher: pairs audio files, images and subtitle files by the
//! index in their names, and lays out one scene per pair.

use crate::error::{ErrorKind, ErrorModel, PipelineError};
use crate::names::{
    extract_index, has_media_extension, index_of_name, is_media_name, join_path, joined_path,
    listing_view, missing_directory_message, DirectoryListing, ListingModel, MediaKind,
};
use crate::natural::{natural_sorted, sort_natural};
use crate::style::{Quantity, QuantityModel, Sign, StyleModel, SubtitleBurnStyle};
use crate::text::{from_chars, join3, join5, push_chars, push_str, render_padded, texts, to_chars,
    zero_padded,
};
use std::collections::BTreeMap;
use vstd::prelude::*;
use vstd::std_specs::btree::increasing_seq;
use vstd::std_specs::cmp::OrdSpec;
use vstd::std_specs::iter::IteratorSpec;

verus! {

/// The video codec of the scenes.
#[derive(Debug, Clone, Copy, PartialEq, Eq, Structural)]
pub enum VideoCodec {
    H264,
    Hevc,
}

/// What a stitch run works with.
#[derive(Debug, Clone)]
pub struct StitchOptions {
    /// The directory of the audio files.
    pub audio_dir: String,
    /// The directory of the images.
    pub image_dir: String,
    /// The directory of the subtitle files, where there is one.
    pub subtitle_dir: Option<String>,
    /// The directory into which the scenes are written.
    pub output_dir: String,
    /// Frames per second.
    pub frame_rate: Quantity,
    /// The video codec.
    pub codec: VideoCodec,
    /// The audio bitrate, as the encoder takes it.
    pub audio_bitrate: String,
    /// Whether subtitles are drawn into the picture.
    pub burn_subtitles: bool,
    /// How subtitles that are drawn into the picture look.
    pub subtitle_style: Option<SubtitleBurnStyle>,
}

/// Stitch options as plain mathematical values.
pub struct StitchModel {
    pub audio_dir: Seq<char>,
    pub image_dir: Seq<char>,
    pub subtitle_dir: Option<Seq<char>>,
    pub output_dir: Seq<char>,
    pub frame_rate: QuantityModel,
    pub codec: VideoCodec,
    pub audio_bitrate: Seq<char>,
    pub burn_subtitles: bool,
    pub subtitle_style: Option<StyleModel>,
}

impl View for StitchOptions {
    type V = StitchModel;

    open spec fn view(&self) -> StitchModel {
        StitchModel {
            audio_dir: self.audio_dir@,
            image_dir: self.image_dir@,
            subtitle_dir: match self.subtitle_dir {
                Some(dir) => Some(dir@),
                None => None,
            },
            output_dir: self.output_dir@,
            frame_rate: self.frame_rate@,
            codec: self.codec,
            audio_bitrate: self.audio_bitrate@,
            burn_subtitles: self.burn_subtitles,
            subtitle_style: match self.subtitle_style {
                Some(style) => Some(style@),
                None => None,
            },
        }
    }
}

/// One scene: the files it is made of and the file it is written to.
#[derive(Debug, Clone)]
pub struct StitchJobResult {
    pub index: u32,
    pub audio_path: String,
    pub image_path: String,
    pub subtitle_path: Option<String>,
    pub output_path: String,
}

/// A scene as plain mathematical values.
pub struct SceneModel {
    pub index: u32,
    pub audio_path: Seq<char>,
    pub image_path: Seq<char>,
    pub subtitle_path: Option<Seq<char>>,
    pub output_path: Seq<char>,
}

impl View for StitchJobResult {
    type V = SceneModel;

    open spec fn view(&self) -> SceneModel {
        SceneModel {
            index: self.index,
            audio_path: self.audio_path@,
            image_path: self.image_path@,
            subtitle_path: match self.subtitle_path {
                Some(path) => Some(path@),
                None => None,
            },
            output_path: self.output_path@,
        }
    }
}

/// The views of the scenes of a sequence, in order.
pub open spec fn scene_views(scenes: Seq<StitchJobResult>) -> Seq<SceneModel> {
    scenes.map_values(|scene: StitchJobResult| scene@)
}

/// The paths of an index map, as texts.
pub open spec fn path_map(files: Map<u32, String>) -> Map<u32, Seq<char>> {
    files.map_values(|path: String| path@)
}

/// Whether a file takes part in the matching: it carries an extension of
/// the wanted kind, and its name gives it an index.
pub open spec fn is_indexed(kind: MediaKind, name: Seq<char>) -> bool {
    is_media_name(kind, name) && index_of_name(name) is Some
}

/// The files of a directory by index: each file that takes part is entered
/// under its index, in the order of the names, so that of two files with
/// one index the later one stays.
pub open spec fn indexed_files(directory: Seq<char>, sorted: Seq<Seq<char>>, kind: MediaKind) -> Map<
    u32,
    Seq<char>,
>
    decreases sorted.len(),
{
    if sorted.len() == 0 {
        Map::empty()
    } else {
        let head = indexed_files(directory, sorted.drop_last(), kind);
        let name = sorted.last();
        if is_indexed(kind, name) {
            head.insert(index_of_name(name)->0, joined_path(directory, name))
        } else {
            head
        }
    }
}

/// An index is in the map exactly where a file gives it, and it leads to
/// the last such file: no file behind that one gives the same index.
pub proof fn lemma_indexed_files_last_wins(
    directory: Seq<char>,
    sorted: Seq<Seq<char>>,
    kind: MediaKind,
    index: u32,
)
    ensures
        indexed_files(directory, sorted, kind).contains_key(index) <==> exists|i: int|
            0 <= i < sorted.len() && is_indexed(kind, #[trigger] sorted[i]) && index_of_name(
                sorted[i],
            ) == Some(index),
        indexed_files(directory, sorted, kind).contains_key(index) ==> exists|i: int|
            {
                &&& 0 <= i < sorted.len()
                &&& is_indexed(kind, #[trigger] sorted[i])
                &&& index_of_name(sorted[i]) == Some(index)
                &&& indexed_files(directory, sorted, kind)[index] == joined_path(
                    directory,
                    sorted[i],
                )
                &&& forall|j: int|
                    i < j < sorted.len() ==> !(is_indexed(kind, #[trigger] sorted[j])
                        && index_of_name(sorted[j]) == Some(index))
            },
    decreases sorted.len(),
{
    if sorted.len() > 0 {
        let front = sorted.drop_last();
        let last = sorted.len() - 1;
        lemma_indexed_files_last_wins(directory, front, kind, index);
        let gives = |name: Seq<char>| is_indexed(kind, name) && index_of_name(name) == Some(index);
        if gives(sorted[last]) {
            assert(is_indexed(kind, sorted[last]));
        } else if indexed_files(directory, front, kind).contains_key(index) {
            let i = choose|i: int|
                {
                    &&& 0 <= i < front.len()
                    &&& is_indexed(kind, #[trigger] front[i])
                    &&& index_of_name(front[i]) == Some(index)
                    &&& indexed_files(directory, front, kind)[index] == joined_path(
                        directory,
                        front[i],
                    )
                    &&& forall|j: int|
                        i < j < front.len() ==> !(is_indexed(kind, #[trigger] front[j])
                            && index_of_name(front[j]) == Some(index))
                };
            assert(sorted[i] == front[i]);
            assert forall|j: int| i < j < sorted.len() implies !(is_indexed(
                kind,
                #[trigger] sorted[j],
            ) && index_of_name(sorted[j]) == Some(index)) by {
                if j < front.len() {
                    assert(sorted[j] == front[j]);
                }
            }
        } else {
            assert forall|i: int| 0 <= i < sorted.len() implies !(is_indexed(
                kind,
                #[trigger] sorted[i],
            ) && index_of_name(sorted[i]) == Some(index)) by {
                if i < front.len() {
                    assert(sorted[i] == front[i]);
                }
            }
        }
    }
}

/// Enters a file under an index; a file entered before under that index
/// gives way.
fn enter(files: &mut BTreeMap<u32, String>, index: u32, path: String)
    ensures
        final(files)@ == old(files)@.insert(index, path),
{
    broadcast use vstd::laws_cmp::group_laws_cmp;

    files.insert(index, path);
}

/// The file entered under an index, if there is one.
fn lookup(files: &BTreeMap<u32, String>, index: u32) -> (path: Option<&String>)
    ensures
        match path {
            Some(p) => files@.contains_key(index) && files@[index] == *p,
            None => !files@.contains_key(index),
        },
{
    broadcast use vstd::std_specs::btree::group_btree_axioms;
    broadcast use vstd::laws_cmp::group_laws_cmp;

    files.get(&index)
}

/// The indices of a map, from the lowest to the highest.
fn ordered_indices(files: &BTreeMap<u32, String>) -> (indices: Vec<u32>)
    ensures
        forall|i: int, j: int| 0 <= i < j < indices@.len() ==> indices@[i] < indices@[j],
        forall|i: int| 0 <= i < indices@.len() ==> files@.contains_key(#[trigger] indices@[i]),
        forall|k: u32| files@.contains_key(k) ==> indices@.contains(k),
{
    broadcast use vstd::std_specs::btree::group_btree_axioms;
    broadcast use vstd::laws_cmp::group_laws_cmp;

    let mut indices: Vec<u32> = Vec::new();
    let entries = files.iter();
    let ghost all = entries.remaining();
    for entry in it: entries
        invariant
            it.seq() == all,
            indices@.len() == it.index(),
            forall|i: int| 0 <= i < indices@.len() ==> indices@[i] == *all[i].0,
    {
        let (index, path) = entry;
        indices.push(*index);
    }
    proof {
        let keys = all.map_values(|entry: (&u32, &String)| *entry.0);
        assert(increasing_seq(keys));
        assert forall|i: int, j: int| 0 <= i < j < indices@.len() implies indices@[i]
            < indices@[j] by {
            assert(keys[i].cmp_spec(&keys[j]) is Less);
        }
        assert forall|k: u32| files@.contains_key(k) implies indices@.contains(k) by {
            assert(all.contains((&k, &files@[k])));
            let i = choose|i: int| 0 <= i < all.len() && all[i] == (&k, &files@[k]);
            assert(indices@[i] == k);
        }
    }
    indices
}

/// Collects the files of a directory by index, from a listing of the
/// directory (`None` where it is missing or is no directory). Only files
/// with an extension of the wanted kind and an index in their name take
/// part. Of two files with one index, the later one in natural order
/// stays.
pub fn collect_indexed_files(
    directory: &str,
    listing: Option<&DirectoryListing>,
    kind: MediaKind,
) -> (result: Result<BTreeMap<u32, String>, PipelineError>)
    ensures
        match (listing_view(listing), result) {
            (None, Ok(_)) => false,
            (None, Err(error)) => error@ == (ErrorModel {
                kind: ErrorKind::NotFound,
                message: missing_directory_message(directory@),
            }),
            (Some(found), Ok(files)) => path_map(files@) == indexed_files(
                directory@,
                natural_sorted(found.files),
                kind,
            ),
            (Some(_), Err(_)) => false,
        },
{
    match listing {
        None => {
            let message = join3("Directory '", directory, "' does not exist");
            Err(PipelineError::new(ErrorKind::NotFound, message))
        },
        Some(found) => {
            let sorted = sort_natural(&found.files);
            Ok(index_files(directory, &sorted, kind))
        },
    }
}

/// Enters the files of a directory under their indices, in the order in
/// which their names are given.
pub fn index_files(directory: &str, sorted: &Vec<String>, kind: MediaKind) -> (files: BTreeMap<
    u32,
    String,
>)
    ensures
        path_map(files@) == indexed_files(directory@, texts(sorted@), kind),
{
    let ghost names = texts(sorted@);
    let mut files: BTreeMap<u32, String> = BTreeMap::new();
    let mut i: usize = 0;
    proof {
        assert(names.take(0) =~= Seq::<Seq<char>>::empty());
        assert(path_map(files@) =~= indexed_files(directory@, names.take(0), kind));
    }
    while i < sorted.len()
        invariant
            i <= sorted.len(),
            names == texts(sorted@),
            path_map(files@) == indexed_files(directory@, names.take(i as int), kind),
        decreases sorted.len() - i,
    {
        let name = sorted[i].as_str();
        proof {
            assert(names.take(i + 1).drop_last() =~= names.take(i as int));
            assert(names.take(i + 1).last() == name@);
        }
        if has_media_extension(kind, name) {
            match extract_index(name) {
                Some(index) => {
                    let path = join_path(directory, name);
                    proof {
                        assert(path_map(files@.insert(index, path)) =~= path_map(files@).insert(
                            index,
                            path@,
                        ));
                    }
                    enter(&mut files, index, path);
                },
                None => {},
            }
        }
        i += 1;
    }
    assert(names.take(sorted.len() as int) =~= names);
    files
}

/// The name of the file of a scene: `scene_`, the index zero-filled to
/// three places, and `.mp4`.
pub open spec fn scene_file_name(index: u32) -> Seq<char> {
    "scene_"@ + zero_padded(index as nat, 3) + ".mp4"@
}

/// The scene of an index that audio files and images share. The subtitle
/// file of the index goes with it where there is one.
pub open spec fn scene(
    index: u32,
    audio: Map<u32, Seq<char>>,
    images: Map<u32, Seq<char>>,
    subtitles: Map<u32, Seq<char>>,
    output_dir: Seq<char>,
) -> SceneModel {
    SceneModel {
        index,
        audio_path: audio[index],
        image_path: images[index],
        subtitle_path: if subtitles.contains_key(index) {
            Some(subtitles[index])
        } else {
            None
        },
        output_path: joined_path(output_dir, scene_file_name(index)),
    }
}

/// The scenes of a run: one for each index that audio files and images
/// share, and for no other, from the lowest index to the highest.
pub open spec fn is_scene_list(
    scenes: Seq<SceneModel>,
    audio: Map<u32, Seq<char>>,
    images: Map<u32, Seq<char>>,
    subtitles: Map<u32, Seq<char>>,
    output_dir: Seq<char>,
) -> bool {
    &&& forall|i: int, j: int| 0 <= i < j < scenes.len() ==> scenes[i].index < scenes[j].index
    &&& forall|k: u32|
        (audio.contains_key(k) && images.contains_key(k)) <==> exists|i: int|
            0 <= i < scenes.len() && (#[trigger] scenes[i]).index == k
    &&& forall|i: int|
        0 <= i < scenes.len() ==> #[trigger] scenes[i] == scene(
            scenes[i].index,
            audio,
            images,
            subtitles,
            output_dir,
        )
}

/// The audio files of a run, by index.
pub open spec fn audio_by_index(options: StitchModel, audio: ListingModel) -> Map<u32, Seq<char>> {
    indexed_files(options.audio_dir, natural_sorted(audio.files), MediaKind::Audio)
}

/// The images of a run, by index.
pub open spec fn images_by_index(options: StitchModel, images: ListingModel) -> Map<u32, Seq<char>> {
    indexed_files(options.image_dir, natural_sorted(images.files), MediaKind::Image)
}

/// The subtitle files of a run, by index: none where the options name no
/// subtitle directory.
pub open spec fn subtitles_by_index(options: StitchModel, subtitles: Option<ListingModel>) -> Map<
    u32,
    Seq<char>,
> {
    match (options.subtitle_dir, subtitles) {
        (Some(dir), Some(found)) => indexed_files(
            dir,
            natural_sorted(found.files),
            MediaKind::Subtitle,
        ),
        _ => Map::empty(),
    }
}

/// The message for a frame rate that is not above zero.
pub open spec fn frame_rate_message() -> Seq<char> {
    "Frame rate must be greater than zero"@
}

/// The message for an audio directory without any audio file that takes
/// part.
pub open spec fn no_audio_files_message(audio_dir: Seq<char>) -> Seq<char> {
    "No audio files (.wav/.mp3/.m4a/.aac/.flac/.ogg) were found in '"@ + audio_dir + "'."@
}

/// The message for audio files and images that share no index.
pub open spec fn no_pairs_message(audio_dir: Seq<char>, image_dir: Seq<char>) -> Seq<char> {
    "No matching audio/image pairs found between '"@ + audio_dir + "' and '"@ + image_dir + "'."@
}

/// Why a run cannot be laid out, if it cannot: the first of these that
/// holds. The frame rate is not above zero; the audio directory, the image
/// directory or a named subtitle directory is missing; no audio file takes
/// part; audio files and images share no index.
pub open spec fn stitch_failure(
    options: StitchModel,
    audio: Option<ListingModel>,
    images: Option<ListingModel>,
    subtitles: Option<ListingModel>,
) -> Option<ErrorModel> {
    if options.frame_rate.is_at_most_zero() {
        Some(ErrorModel { kind: ErrorKind::Validation, message: frame_rate_message() })
    } else if audio is None {
        Some(
            ErrorModel {
                kind: ErrorKind::NotFound,
                message: missing_directory_message(options.audio_dir),
            },
        )
    } else if images is None {
        Some(
            ErrorModel {
                kind: ErrorKind::NotFound,
                message: missing_directory_message(options.image_dir),
            },
        )
    } else if options.subtitle_dir is Some && subtitles is None {
        Some(
            ErrorModel {
                kind: ErrorKind::NotFound,
                message: missing_directory_message(options.subtitle_dir->0),
            },
        )
    } else if forall|k: u32| !audio_by_index(options, audio->0).contains_key(k) {
        Some(
            ErrorModel {
                kind: ErrorKind::NotFound,
                message: no_audio_files_message(options.audio_dir),
            },
        )
    } else if forall|k: u32|
        !(audio_by_index(options, audio->0).contains_key(k) && images_by_index(
            options,
            images->0,
        ).contains_key(k)) {
        Some(
            ErrorModel {
                kind: ErrorKind::NotFound,
                message: no_pairs_message(options.audio_dir, options.image_dir),
            },
        )
    } else {
        None
    }
}

/// The scene of one index, from the files entered under it.
fn lay_out_scene(
    index: u32,
    audio_path: &String,
    image_path: &String,
    subtitle_path: Option<&String>,
    output_dir: &str,
) -> (laid_out: StitchJobResult)
    ensures
        laid_out@ == (SceneModel {
            index,
            audio_path: audio_path@,
            image_path: image_path@,
            subtitle_path: match subtitle_path {
                Some(path) => Some(path@),
                None => None,
            },
            output_path: joined_path(output_dir@, scene_file_name(index)),
        }),
{
    let mut name: Vec<char> = to_chars("scene_");
    let number = render_padded(index as u128, 3);
    push_chars(&mut name, &number);
    push_str(&mut name, ".mp4");
    let name = from_chars(&name);
    StitchJobResult {
        index,
        audio_path: audio_path.clone(),
        image_path: image_path.clone(),
        subtitle_path: match subtitle_path {
            Some(path) => Some(path.clone()),
            None => None,
        },
        output_path: join_path(output_dir, name.as_str()),
    }
}

/// Pairs the files of two index maps: one scene for each index that both
/// share, from the lowest to the highest, with the subtitle file of the
/// index where there is one.
pub fn pair_by_index(
    audio: &BTreeMap<u32, String>,
    images: &BTreeMap<u32, String>,
    subtitles: &BTreeMap<u32, String>,
    output_dir: &str,
) -> (scenes: Vec<StitchJobResult>)
    ensures
        is_scene_list(
            scene_views(scenes@),
            path_map(audio@),
            path_map(images@),
            path_map(subtitles@),
            output_dir@,
        ),
{
    let indices = ordered_indices(audio);
    let ghost a = path_map(audio@);
    let ghost im = path_map(images@);
    let ghost su = path_map(subtitles@);
    let mut scenes: Vec<StitchJobResult> = Vec::new();
    let mut at: usize = 0;
    while at < indices.len()
        invariant
            at <= indices.len(),
            a == path_map(audio@),
            im == path_map(images@),
            su == path_map(subtitles@),
            forall|i: int, j: int| 0 <= i < j < indices@.len() ==> indices@[i] < indices@[j],
            forall|i: int| 0 <= i < indices@.len() ==> audio@.contains_key(#[trigger] indices@[i]),
            forall|i: int|
                0 <= i < scenes@.len() ==> exists|p: int|
                    0 <= p < at && indices@[p] == (#[trigger] scenes@[i]).index,
            forall|i: int, j: int|
                0 <= i < j < scenes@.len() ==> scenes@[i].index < scenes@[j].index,
            forall|p: int|
                0 <= p < at && images@.contains_key(#[trigger] indices@[p]) ==> exists|i: int|
                    0 <= i < scenes@.len() && (#[trigger] scenes@[i]).index == indices@[p],
            forall|i: int|
                0 <= i < scenes@.len() ==> {
                    &&& images@.contains_key((#[trigger] scenes@[i]).index)
                    &&& scenes@[i]@ == scene(scenes@[i].index, a, im, su, output_dir@)
                },
        decreases indices.len() - at,
    {
        let index = indices[at];
        let ghost before = scenes@;
        match lookup(images, index) {
            Some(image_path) => {
                match lookup(audio, index) {
                    Some(audio_path) => {
                        let laid_out = lay_out_scene(
                            index,
                            audio_path,
                            image_path,
                            lookup(subtitles, index),
                            output_dir,
                        );
                        assert(laid_out@ == scene(index, a, im, su, output_dir@));
                        scenes.push(laid_out);
                        proof {
                            assert forall|i: int, j: int|
                                0 <= i < j < scenes@.len() implies scenes@[i].index
                                < scenes@[j].index by {
                                if j == before.len() {
                                    let p = choose|p: int|
                                        0 <= p < at && indices@[p] == (#[trigger] before[i]).index;
                                    assert(indices@[p] < indices@[at as int]);
                                }
                            }
                            assert forall|p: int|
                                0 <= p < at + 1 && images@.contains_key(
                                    #[trigger] indices@[p],
                                ) implies exists|i: int|
                                0 <= i < scenes@.len() && (#[trigger] scenes@[i]).index
                                    == indices@[p] by {
                                if p < at {
                                    let i = choose|i: int|
                                        0 <= i < before.len() && (#[trigger] before[i]).index
                                            == indices@[p];
                                    assert(scenes@[i].index == indices@[p]);
                                } else {
                                    assert(scenes@[before.len() as int].index == indices@[p]);
                                }
                            }
                            assert forall|i: int| 0 <= i < scenes@.len() implies exists|p: int|
                                0 <= p < at + 1 && indices@[p] == (#[trigger] scenes@[i]).index by {
                                if i < before.len() {
                                    let p = choose|p: int|
                                        0 <= p < at && indices@[p] == (#[trigger] before[i]).index;
                                    assert(indices@[p] == scenes@[i].index);
                                } else {
                                    assert(indices@[at as int] == scenes@[i].index);
                                }
                            }
                        }
                    },
                    None => {},
                }
            },
            None => {},
        }
        at += 1;
    }
    proof {
        let views = scene_views(scenes@);
        assert forall|k: u32| (a.contains_key(k) && im.contains_key(k)) <==> exists|i: int|
            0 <= i < views.len() && (#[trigger] views[i]).index == k by {
            if a.contains_key(k) && im.contains_key(k) {
                assert(indices@.contains(k));
                let p = choose|p: int| 0 <= p < indices@.len() && indices@[p] == k;
                assert(images@.contains_key(indices@[p]));
                let i = choose|i: int|
                    0 <= i < scenes@.len() && (#[trigger] scenes@[i]).index == indices@[p];
                assert(views[i].index == k);
            }
            if exists|i: int| 0 <= i < views.len() && (#[trigger] views[i]).index == k {
                let i = choose|i: int| 0 <= i < views.len() && (#[trigger] views[i]).index == k;
                assert(scenes@[i].index == k);
                let p = choose|p: int|
                    0 <= p < at && indices@[p] == (#[trigger] scenes@[i]).index;
                assert(audio@.contains_key(indices@[p]));
            }
        }
        assert forall|i: int, j: int| 0 <= i < j < views.len() implies views[i].index
            < views[j].index by {
            assert(scenes@[i].index < scenes@[j].index);
        }
        assert forall|i: int| 0 <= i < views.len() implies #[trigger] views[i] == scene(
            views[i].index,
            a,
            im,
            su,
            output_dir@,
        ) by {
            assert(scenes@[i]@ == scene(scenes@[i].index, a, im, su, output_dir@));
        }
    }
    scenes
}

/// Checks the frame rate of a run, which has to be above zero. A run is
/// refused on this account before any of its directories is looked at.
pub fn check_frame_rate(options: &StitchOptions) -> (result: Result<(), PipelineError>)
    ensures
        match result {
            Ok(_) => !options@.frame_rate.is_at_most_zero(),
            Err(error) => options@.frame_rate.is_at_most_zero() && error@ == (ErrorModel {
                kind: ErrorKind::Validation,
                message: frame_rate_message(),
            }),
        },
{
    match options.frame_rate.sign {
        Sign::Negative | Sign::Zero => Err(
            PipelineError::new(
                ErrorKind::Validation,
                "Frame rate must be greater than zero".to_owned(),
            ),
        ),
        _ => Ok(()),
    }
}

/// Lays out the scenes of a stitch run from listings of its directories
/// (`None` for a directory that is missing or is no directory). The
/// listing of subtitle files counts only where the options name a subtitle
/// directory.
///
/// A scene is made for each index that an audio file and an image share;
/// files whose index has no partner are left out without a word.
pub fn stitch_assets(
    options: &StitchOptions,
    audio: Option<&DirectoryListing>,
    images: Option<&DirectoryListing>,
    subtitles: Option<&DirectoryListing>,
) -> (result: Result<Vec<StitchJobResult>, PipelineError>)
    ensures
        match result {
            Ok(scenes) => {
                &&& stitch_failure(
                    options@,
                    listing_view(audio),
                    listing_view(images),
                    listing_view(subtitles),
                ) is None
                &&& is_scene_list(
                    scene_views(scenes@),
                    audio_by_index(options@, listing_view(audio)->0),
                    images_by_index(options@, listing_view(images)->0),
                    subtitles_by_index(options@, listing_view(subtitles)),
                    options.output_dir@,
                )
            },
            Err(error) => stitch_failure(
                options@,
                listing_view(audio),
                listing_view(images),
                listing_view(subtitles),
            ) == Some(error@),
        },
{
    match check_frame_rate(options) {
        Ok(_) => {},
        Err(error) => {
            return Err(error);
        },
    }
    let audio_files = match collect_indexed_files(
        options.audio_dir.as_str(),
        audio,
        MediaKind::Audio,
    ) {
        Ok(files) => files,
        Err(error) => {
            return Err(error);
        },
    };
    let image_files = match collect_indexed_files(
        options.image_dir.as_str(),
        images,
        MediaKind::Image,
    ) {
        Ok(files) => files,
        Err(error) => {
            return Err(error);
        },
    };
    let subtitle_files = match &options.subtitle_dir {
        Some(dir) => match collect_indexed_files(dir.as_str(), subtitles, MediaKind::Subtitle) {
            Ok(files) => files,
            Err(error) => {
                return Err(error);
            },
        },
        None => BTreeMap::new(),
    };
    assert(path_map(subtitle_files@) =~= subtitles_by_index(options@, listing_view(subtitles)));
    let scenes = pair_by_index(
        &audio_files,
        &image_files,
        &subtitle_files,
        options.output_dir.as_str(),
    );
    let ghost a = audio_by_index(options@, listing_view(audio)->0);
    let ghost im = images_by_index(options@, listing_view(images)->0);
    let ghost views = scene_views(scenes@);
    if no_file_entered(&audio_files) {
        assert forall|k: u32| !a.contains_key(k) by {
            assert(!audio_files@.contains_key(k));
        }
        let message = join3(
            "No audio files (.wav/.mp3/.m4a/.aac/.flac/.ogg) were found in '",
            options.audio_dir.as_str(),
            "'.",
        );
        return Err(PipelineError::new(ErrorKind::NotFound, message));
    }
    proof {
        let k = choose|k: u32| audio_files@.contains_key(k);
        assert(a.contains_key(k));
    }
    if scenes.len() == 0 {
        assert forall|k: u32| !(a.contains_key(k) && im.contains_key(k)) by {
            if a.contains_key(k) && im.contains_key(k) {
                let i = choose|i: int| 0 <= i < views.len() && (#[trigger] views[i]).index == k;
            }
        }
        let message = join5(
            "No matching audio/image pairs found between '",
            options.audio_dir.as_str(),
            "' and '",
            options.image_dir.as_str(),
            "'.",
        );
        return Err(PipelineError::new(ErrorKind::NotFound, message));
    }
    proof {
        let shared = views[0].index;
        assert(a.contains_key(shared) && im.contains_key(shared));
    }
    Ok(scenes)
}

/// Whether an index map holds no file at all.
fn no_file_entered(files: &BTreeMap<u32, String>) -> (none: bool)
    ensures
        none == forall|k: u32| !files@.contains_key(k),
{
    let indices = ordered_indices(files);
    if indices.len() == 0 {
        assert forall|k: u32| !files@.contains_key(k) by {
            if files@.contains_key(k) {
                assert(indices@.contains(k));
            }
        }
        true
    } else {
        assert(files@.contains_key(indices@[0]));
        false
    }
}

} // verus!
