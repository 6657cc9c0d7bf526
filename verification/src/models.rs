//! The catalog of speech models: which models are known, where a model is
//! looked for, and how the known models are listed.

use crate::error::{ErrorKind, ErrorModel, PipelineError};
use crate::names::{file_stem, join_path, joined_path, stem_of};
use crate::text::{from_chars, join3, join5, push_str, same_text, to_chars};
use vstd::prelude::*;

verus! {

/// A speech model of the catalog.
#[derive(Debug, Clone, Copy)]
pub struct ModelSpec {
    /// The name by which callers ask for the model.
    pub id: &'static str,
    /// The name shown to people.
    pub display_name: &'static str,
    /// The name of the file in which the model is kept.
    pub filename: &'static str,
    /// Where the model is fetched from.
    pub url: &'static str,
    /// Whether the model is the one to suggest.
    pub recommended: bool,
    /// About how many bytes the model takes.
    pub size_bytes: u64,
}

/// A catalog entry as plain mathematical values.
pub struct ModelSpecModel {
    pub id: Seq<char>,
    pub display_name: Seq<char>,
    pub filename: Seq<char>,
    pub url: Seq<char>,
    pub recommended: bool,
    pub size_bytes: u64,
}

impl View for ModelSpec {
    type V = ModelSpecModel;

    open spec fn view(&self) -> ModelSpecModel {
        ModelSpecModel {
            id: self.id@,
            display_name: self.display_name@,
            filename: self.filename@,
            url: self.url@,
            recommended: self.recommended,
            size_bytes: self.size_bytes,
        }
    }
}

/// The views of the catalog entries of a sequence, in order.
pub open spec fn spec_views(specs: Seq<ModelSpec>) -> Seq<ModelSpecModel> {
    specs.map_values(|s: ModelSpec| s@)
}

/// The catalog: four models, from the smallest to the largest.
pub open spec fn catalog() -> Seq<ModelSpecModel> {
    seq![
        ModelSpecModel {
            id: "ggml-tiny-en"@,
            display_name: "Whisper Tiny (English)"@,
            filename: "ggml-tiny.en.bin"@,
            url: "https://huggingface.co/ggerganov/whisper.cpp/resolve/main/ggml-tiny.en.bin"@,
            recommended: false,
            size_bytes: 75_000_000,
        },
        ModelSpecModel {
            id: "ggml-base"@,
            display_name: "Whisper Base"@,
            filename: "ggml-base.bin"@,
            url: "https://huggingface.co/ggerganov/whisper.cpp/resolve/main/ggml-base.bin"@,
            recommended: true,
            size_bytes: 142_000_000,
        },
        ModelSpecModel {
            id: "ggml-small-en"@,
            display_name: "Whisper Small (English)"@,
            filename: "ggml-small.en.bin"@,
            url: "https://huggingface.co/ggerganov/whisper.cpp/resolve/main/ggml-small.en.bin"@,
            recommended: false,
            size_bytes: 465_000_000,
        },
        ModelSpecModel {
            id: "ggml-medium"@,
            display_name: "Whisper Medium"@,
            filename: "ggml-medium.bin"@,
            url: "https://huggingface.co/ggerganov/whisper.cpp/resolve/main/ggml-medium.bin"@,
            recommended: false,
            size_bytes: 1_550_000_000,
        },
    ]
}

/// The catalog of speech models.
pub fn model_catalog() -> (specs: Vec<ModelSpec>)
    ensures
        spec_views(specs@) == catalog(),
{
    let mut specs: Vec<ModelSpec> = Vec::new();
    specs.push(
        ModelSpec {
            id: "ggml-tiny-en",
            display_name: "Whisper Tiny (English)",
            filename: "ggml-tiny.en.bin",
            url: "https://huggingface.co/ggerganov/whisper.cpp/resolve/main/ggml-tiny.en.bin",
            recommended: false,
            size_bytes: 75_000_000,
        },
    );
    specs.push(
        ModelSpec {
            id: "ggml-base",
            display_name: "Whisper Base",
            filename: "ggml-base.bin",
            url: "https://huggingface.co/ggerganov/whisper.cpp/resolve/main/ggml-base.bin",
            recommended: true,
            size_bytes: 142_000_000,
        },
    );
    specs.push(
        ModelSpec {
            id: "ggml-small-en",
            display_name: "Whisper Small (English)",
            filename: "ggml-small.en.bin",
            url: "https://huggingface.co/ggerganov/whisper.cpp/resolve/main/ggml-small.en.bin",
            recommended: false,
            size_bytes: 465_000_000,
        },
    );
    specs.push(
        ModelSpec {
            id: "ggml-medium",
            display_name: "Whisper Medium",
            filename: "ggml-medium.bin",
            url: "https://huggingface.co/ggerganov/whisper.cpp/resolve/main/ggml-medium.bin",
            recommended: false,
            size_bytes: 1_550_000_000,
        },
    );
    assert(spec_views(specs@) =~= catalog());
    specs
}

/// The position of the first entry with the given id, if there is one.
pub open spec fn position_of(specs: Seq<ModelSpecModel>, id: Seq<char>) -> Option<int>
    decreases specs.len(),
{
    if specs.len() == 0 {
        None
    } else {
        match position_of(specs.drop_last(), id) {
            Some(at) => Some(at),
            None => if specs.last().id == id {
                Some(specs.len() - 1)
            } else {
                None
            },
        }
    }
}

/// The first entry of the catalog with the given id.
pub fn find_model(model_id: &str) -> (found: Option<ModelSpec>)
    ensures
        match found {
            Some(spec) => position_of(catalog(), model_id@) matches Some(at) && 0 <= at
                < catalog().len() && spec@ == catalog()[at],
            None => position_of(catalog(), model_id@) is None,
        },
{
    let specs = model_catalog();
    let ghost all = spec_views(specs@);
    let mut i: usize = 0;
    assert(all.take(0) =~= Seq::<ModelSpecModel>::empty());
    while i < specs.len()
        invariant
            i <= specs.len(),
            all == spec_views(specs@),
            all == catalog(),
            position_of(all.take(i as int), model_id@) is None,
        decreases specs.len() - i,
    {
        let spec = specs[i];
        proof {
            assert(all.take(i + 1).drop_last() =~= all.take(i as int));
            assert(all.take(i + 1).last() == spec@);
        }
        if same_text(spec.id, model_id) {
            proof {
                lemma_position_stays(all, model_id@, i + 1);
            }
            return Some(spec);
        }
        i += 1;
    }
    assert(all.take(specs.len() as int) =~= all);
    None
}

/// A position found among the first entries is the position found among
/// all of them.
proof fn lemma_position_stays(specs: Seq<ModelSpecModel>, id: Seq<char>, upto: int)
    requires
        0 <= upto <= specs.len(),
        position_of(specs.take(upto), id) is Some,
    ensures
        position_of(specs, id) == position_of(specs.take(upto), id),
    decreases specs.len() - upto,
{
    if upto == specs.len() {
        assert(specs.take(upto) =~= specs);
    } else {
        assert(specs.take(upto + 1).drop_last() =~= specs.take(upto));
        lemma_position_stays(specs, id, upto + 1);
    }
}

/// Where a model is looked for.
#[derive(Debug, Clone)]
pub enum ModelSource {
    /// A model of the catalog: it is kept under `destination` and, while it
    /// is being fetched, under `temporary`.
    Catalog { spec: ModelSpec, destination: String, temporary: String },
    /// Not a model of the catalog: the id is taken as the path of a file.
    Literal { path: String },
}

/// The name under which a file is kept while it is being fetched: its stem
/// with the extension `download`.
pub open spec fn download_name(filename: Seq<char>) -> Seq<char> {
    stem_of(filename) + ".download"@
}

/// Decides where the model of an id is looked for: in the models directory
/// for an id of the catalog, else at the id itself, taken as a path.
pub fn resolve_model_path(models_dir: &str, model_id: &str) -> (source: ModelSource)
    ensures
        match source {
            ModelSource::Catalog { spec, destination, temporary } => {
                &&& position_of(catalog(), model_id@) matches Some(at)
                &&& 0 <= at < catalog().len()
                &&& spec@ == catalog()[at]
                &&& destination@ == joined_path(models_dir@, spec@.filename)
                &&& temporary@ == joined_path(models_dir@, download_name(spec@.filename))
            },
            ModelSource::Literal { path } => {
                &&& position_of(catalog(), model_id@) is None
                &&& path@ == model_id@
            },
        },
{
    match find_model(model_id) {
        Some(spec) => {
            let mut name: Vec<char> = file_stem(&to_chars(spec.filename));
            push_str(&mut name, ".download");
            let name = from_chars(&name);
            ModelSource::Catalog {
                spec,
                destination: join_path(models_dir, spec.filename),
                temporary: join_path(models_dir, name.as_str()),
            }
        },
        None => ModelSource::Literal { path: model_id.to_owned() },
    }
}

/// The message for an id that is neither in the catalog nor a file.
pub open spec fn unknown_model_message(model_id: Seq<char>) -> Seq<char> {
    "Model identifier '"@ + model_id + "' not recognised and file not found."@
}

/// The error for an id that is neither in the catalog nor a file.
pub fn unknown_model(model_id: &str) -> (error: PipelineError)
    ensures
        error@ == (ErrorModel {
            kind: ErrorKind::NotFound,
            message: unknown_model_message(model_id@),
        }),
{
    let message = join3("Model identifier '", model_id, "' not recognised and file not found.");
    PipelineError::new(ErrorKind::NotFound, message)
}

/// The message for a download that the server refused.
pub open spec fn download_failure_message(display_name: Seq<char>, status: Seq<char>) -> Seq<char> {
    "Failed to download model '"@ + display_name + "' (status: "@ + status + ")"@
}

/// Checks the answer to a download request: status codes from 200 to 299
/// mean success. `status` is the status as messages write it.
pub fn check_download(spec: &ModelSpec, status_code: u16, status: &str) -> (result: Result<
    (),
    PipelineError,
>)
    ensures
        match result {
            Ok(_) => 200 <= status_code < 300,
            Err(error) => !(200 <= status_code < 300) && error@ == (ErrorModel {
                kind: ErrorKind::Network,
                message: download_failure_message(spec@.display_name, status@),
            }),
        },
{
    if status_code >= 200 && status_code < 300 {
        Ok(())
    } else {
        let message = join5(
            "Failed to download model '",
            spec.display_name,
            "' (status: ",
            status,
            ")",
        );
        Err(PipelineError::new(ErrorKind::Network, message))
    }
}

/// What is known of a model of the catalog on this machine.
#[derive(Debug, Clone)]
pub struct WhisperModelInfo {
    pub id: String,
    pub name: String,
    /// Where the model is kept, or would be.
    pub path: String,
    /// The size of the file, or the size given by the catalog while the
    /// file is not there.
    pub size_bytes: u64,
    pub recommended: bool,
    /// Whether the file is there.
    pub available: bool,
}

/// A model info as plain mathematical values.
pub struct InfoModel {
    pub id: Seq<char>,
    pub name: Seq<char>,
    pub path: Seq<char>,
    pub size_bytes: u64,
    pub recommended: bool,
    pub available: bool,
}

impl View for WhisperModelInfo {
    type V = InfoModel;

    open spec fn view(&self) -> InfoModel {
        InfoModel {
            id: self.id@,
            name: self.name@,
            path: self.path@,
            size_bytes: self.size_bytes,
            recommended: self.recommended,
            available: self.available,
        }
    }
}

/// The views of the infos of a sequence, in order.
pub open spec fn info_views(infos: Seq<WhisperModelInfo>) -> Seq<InfoModel> {
    infos.map_values(|info: WhisperModelInfo| info@)
}

/// What is known of a model: `on_disk` is the size of its file, where the
/// file is there.
pub open spec fn model_info(models_dir: Seq<char>, spec: ModelSpecModel, on_disk: Option<u64>) -> InfoModel {
    InfoModel {
        id: spec.id,
        name: spec.display_name,
        path: joined_path(models_dir, spec.filename),
        size_bytes: match on_disk {
            Some(size) => size,
            None => spec.size_bytes,
        },
        recommended: spec.recommended,
        available: on_disk is Some,
    }
}

/// The size found on disk for the catalog entry at a position; none where
/// nothing was reported for it.
pub open spec fn size_at(sizes: Seq<Option<u64>>, at: int) -> Option<u64> {
    if 0 <= at < sizes.len() {
        sizes[at]
    } else {
        None
    }
}

/// What is known of the models of the catalog, in the order of the
/// catalog.
pub open spec fn catalog_infos(models_dir: Seq<char>, sizes: Seq<Option<u64>>) -> Seq<InfoModel> {
    Seq::new(catalog().len(), |i: int| model_info(models_dir, catalog()[i], size_at(sizes, i)))
}

/// Whether one text comes before another in the order of a dictionary
/// that goes by code points.
pub open spec fn text_less(a: Seq<char>, b: Seq<char>) -> bool
    decreases a.len(),
{
    if b.len() == 0 {
        false
    } else if a.len() == 0 {
        true
    } else if a[0] != b[0] {
        a[0] < b[0]
    } else {
        text_less(a.drop_first(), b.drop_first())
    }
}

/// Whether one model is listed before another: a recommended model before
/// one that is not, and otherwise by name.
pub open spec fn listed_before(a: InfoModel, b: InfoModel) -> bool {
    (a.recommended && !b.recommended) || (a.recommended == b.recommended && text_less(
        a.name,
        b.name,
    ))
}

/// Where a model goes in a list that is in order already: behind the last
/// model that it is not listed before.
pub open spec fn listing_point(listed: Seq<InfoModel>, item: InfoModel) -> nat
    decreases listed.len(),
{
    if listed.len() > 0 && listed_before(item, listed.last()) {
        listing_point(listed.drop_last(), item)
    } else {
        listed.len()
    }
}

/// The models in the order of the list: recommended models first, then by
/// name. Each model in turn is placed among the models before it.
pub open spec fn in_listing_order(infos: Seq<InfoModel>) -> Seq<InfoModel>
    decreases infos.len(),
{
    if infos.len() == 0 {
        Seq::empty()
    } else {
        let head = in_listing_order(infos.drop_last());
        head.insert(listing_point(head, infos.last()) as int, infos.last())
    }
}

/// Of two texts at most one comes before the other.
pub proof fn lemma_text_less_is_asymmetric(a: Seq<char>, b: Seq<char>)
    ensures
        text_less(a, b) ==> !text_less(b, a),
    decreases a.len(),
{
    if a.len() > 0 && b.len() > 0 && a[0] == b[0] {
        lemma_text_less_is_asymmetric(a.drop_first(), b.drop_first());
    }
}

/// Two texts of which neither comes before the other are the same text.
pub proof fn lemma_text_less_is_total(a: Seq<char>, b: Seq<char>)
    ensures
        !text_less(a, b) && !text_less(b, a) ==> a == b,
    decreases a.len(),
{
    if a.len() > 0 && b.len() > 0 {
        if a[0] == b[0] {
            lemma_text_less_is_total(a.drop_first(), b.drop_first());
            if a.drop_first() == b.drop_first() {
                assert(a =~= seq![a[0]] + a.drop_first());
                assert(b =~= seq![b[0]] + b.drop_first());
            }
        }
    } else if a.len() == 0 && b.len() == 0 {
        assert(a =~= b);
    }
}

/// A text that comes before a second one, which comes before a third one,
/// comes before the third one.
pub proof fn lemma_text_less_is_transitive(a: Seq<char>, b: Seq<char>, c: Seq<char>)
    ensures
        text_less(a, b) && text_less(b, c) ==> text_less(a, c),
    decreases a.len(),
{
    if a.len() > 0 && b.len() > 0 && c.len() > 0 && a[0] == b[0] && b[0] == c[0] {
        lemma_text_less_is_transitive(a.drop_first(), b.drop_first(), c.drop_first());
    }
}

/// Of two models at most one is listed before the other.
pub proof fn lemma_listed_before_is_asymmetric(a: InfoModel, b: InfoModel)
    ensures
        listed_before(a, b) ==> !listed_before(b, a),
{
    lemma_text_less_is_asymmetric(a.name, b.name);
}

/// A model that is not listed behind a second one, which is not listed
/// behind a third one, is not listed behind the third one.
pub proof fn lemma_listed_before_chains(a: InfoModel, b: InfoModel, c: InfoModel)
    ensures
        !listed_before(b, a) && !listed_before(c, b) ==> !listed_before(c, a),
{
    lemma_text_less_is_total(a.name, b.name);
    lemma_text_less_is_total(b.name, c.name);
    lemma_text_less_is_transitive(c.name, a.name, b.name);
    lemma_text_less_is_transitive(b.name, c.name, a.name);
}

/// No model of a sequence is listed before a model in front of it:
/// recommended models stand first, and among models that are alike in
/// that, names do not go down in code point order.
pub open spec fn is_in_listing_order(infos: Seq<InfoModel>) -> bool {
    forall|i: int, j: int| 0 <= i < j < infos.len() ==> !listed_before(infos[j], infos[i])
}

/// The listing point lies within the list; the model before it is not
/// listed behind the item, and the item is listed before every model
/// behind it.
pub proof fn lemma_listing_point(listed: Seq<InfoModel>, item: InfoModel)
    ensures
        listing_point(listed, item) <= listed.len(),
        listing_point(listed, item) > 0 ==> !listed_before(
            item,
            listed[listing_point(listed, item) - 1],
        ),
        forall|k: int|
            listing_point(listed, item) <= k < listed.len() ==> listed_before(
                item,
                #[trigger] listed[k],
            ),
    decreases listed.len(),
{
    if listed.len() > 0 && listed_before(item, listed.last()) {
        let front = listed.drop_last();
        lemma_listing_point(front, item);
        assert forall|k: int| listing_point(listed, item) <= k < listed.len() implies listed_before(
            item,
            #[trigger] listed[k],
        ) by {
            if k < front.len() {
                assert(listed[k] == front[k]);
            }
        }
    }
}

/// Listing neither loses nor invents a model: the list holds each model
/// as often as the input does.
pub proof fn lemma_listing_order_permutes(infos: Seq<InfoModel>)
    ensures
        in_listing_order(infos).len() == infos.len(),
        in_listing_order(infos).to_multiset() == infos.to_multiset(),
    decreases infos.len(),
{
    broadcast use vstd::seq_lib::group_to_multiset_ensures;

    if infos.len() == 0 {
        assert(in_listing_order(infos) =~= infos);
    } else {
        let front = infos.drop_last();
        let head = in_listing_order(front);
        lemma_listing_order_permutes(front);
        lemma_listing_point(head, infos.last());
        let p = listing_point(head, infos.last()) as int;
        head.to_multiset_ensures();
        front.to_multiset_ensures();
        assert(infos =~= front.push(infos.last()));
        assert(head.insert(p, infos.last()).to_multiset() =~= head.to_multiset().insert(
            infos.last(),
        ));
    }
}

/// The list is in order, whatever models are given: recommended models
/// first, then by name.
pub proof fn lemma_listing_order_is_in_order(infos: Seq<InfoModel>)
    ensures
        is_in_listing_order(in_listing_order(infos)),
    decreases infos.len(),
{
    if infos.len() > 0 {
        let head = in_listing_order(infos.drop_last());
        let item = infos.last();
        lemma_listing_order_is_in_order(infos.drop_last());
        lemma_listing_point(head, item);
        let p = listing_point(head, item) as int;
        let listed = in_listing_order(infos);
        assert forall|i: int, j: int| 0 <= i < j < listed.len() implies !listed_before(
            listed[j],
            listed[i],
        ) by {
            if j == p {
                assert(listed[i] == head[i]);
                lemma_listed_before_chains(head[i], head[p - 1], item);
            } else if i == p {
                assert(listed[j] == head[j - 1]);
                lemma_listed_before_is_asymmetric(item, head[j - 1]);
            } else {
                let a = if i < p {
                    i
                } else {
                    i - 1
                };
                let b = if j < p {
                    j
                } else {
                    j - 1
                };
                assert(listed[i] == head[a]);
                assert(listed[j] == head[b]);
            }
        }
    }
}

/// Whether one text comes before another in code point order.
fn comes_before(a: &str, b: &str) -> (before: bool)
    ensures
        before == text_less(a@, b@),
{
    let left = to_chars(a);
    let right = to_chars(b);
    let mut i: usize = 0;
    assert(left@.skip(0) =~= left@);
    assert(right@.skip(0) =~= right@);
    while i < left.len() && i < right.len()
        invariant
            i <= left.len(),
            i <= right.len(),
            left@ == a@,
            right@ == b@,
            text_less(left@, right@) == text_less(left@.skip(i as int), right@.skip(i as int)),
        decreases left.len() - i,
    {
        assert(left@.skip(i as int)[0] == left@[i as int]);
        assert(right@.skip(i as int)[0] == right@[i as int]);
        if left[i] != right[i] {
            return left[i] < right[i];
        }
        assert(left@.skip(i as int).drop_first() =~= left@.skip(i + 1));
        assert(right@.skip(i as int).drop_first() =~= right@.skip(i + 1));
        i += 1;
    }
    i < right.len()
}

/// Whether one model is listed before another.
fn goes_before(a: &WhisperModelInfo, b: &WhisperModelInfo) -> (before: bool)
    ensures
        before == listed_before(a@, b@),
{
    if a.recommended != b.recommended {
        a.recommended
    } else {
        comes_before(a.name.as_str(), b.name.as_str())
    }
}

/// Puts models in the order of the list: recommended models first, then by
/// name.
pub fn sort_models(infos: Vec<WhisperModelInfo>) -> (listed: Vec<WhisperModelInfo>)
    ensures
        info_views(listed@) == in_listing_order(info_views(infos@)),
        is_in_listing_order(info_views(listed@)),
        info_views(listed@).to_multiset() == info_views(infos@).to_multiset(),
{
    let ghost all = info_views(infos@);
    proof {
        lemma_listing_order_is_in_order(all);
        lemma_listing_order_permutes(all);
    }
    let mut rest = infos;
    let mut taken: Vec<WhisperModelInfo> = Vec::new();
    while rest.len() > 0
        invariant
            info_views(taken@).len() + info_views(rest@).len() == all.len(),
            forall|k: int|
                0 <= k < taken@.len() ==> (#[trigger] taken@[k])@ == all[all.len() - 1 - k],
            forall|k: int| 0 <= k < rest@.len() ==> (#[trigger] rest@[k])@ == all[k],
        decreases rest.len(),
    {
        let item = rest.pop().unwrap();
        taken.push(item);
    }
    let mut listed: Vec<WhisperModelInfo> = Vec::new();
    let ghost n = all.len();
    assert(all.take(0) =~= Seq::<InfoModel>::empty());
    assert(info_views(listed@) =~= Seq::<InfoModel>::empty());
    while taken.len() > 0
        invariant
            n == all.len(),
            taken@.len() <= n,
            forall|k: int| 0 <= k < taken@.len() ==> (#[trigger] taken@[k])@ == all[n - 1 - k],
            info_views(listed@) == in_listing_order(all.take(n - taken@.len())),
        decreases taken.len(),
    {
        let ghost done = n - taken@.len();
        let item = taken.pop().unwrap();
        assert(item@ == all[done]);
        let ghost head = info_views(listed@);
        let mut p: usize = listed.len();
        assert(head.take(p as int) =~= head);
        while p > 0 && goes_before(&item, &listed[p - 1])
            invariant
                p <= listed.len(),
                head == info_views(listed@),
                listing_point(head, item@) == listing_point(head.take(p as int), item@),
            decreases p,
        {
            assert(head.take(p as int).drop_last() =~= head.take(p - 1));
            p -= 1;
        }
        proof {
            let prefix = all.take(done + 1);
            assert(prefix.drop_last() =~= all.take(done));
            assert(prefix.last() == item@);
            assert(info_views(listed@.insert(p as int, item)) =~= head.insert(p as int, item@));
        }
        listed.insert(p, item);
    }
    assert(all.take(n as int) =~= all);
    listed
}

/// Lists the models of the catalog: recommended models first, then by
/// name. `sizes_on_disk` holds, for each entry of the catalog in order, the
/// size of the model's file where the file is there.
pub fn list_models(models_dir: &str, sizes_on_disk: &Vec<Option<u64>>) -> (listed: Vec<
    WhisperModelInfo,
>)
    ensures
        info_views(listed@) == in_listing_order(catalog_infos(models_dir@, sizes_on_disk@)),
        is_in_listing_order(info_views(listed@)),
        info_views(listed@).to_multiset() == catalog_infos(
            models_dir@,
            sizes_on_disk@,
        ).to_multiset(),
{
    let specs = model_catalog();
    let mut infos: Vec<WhisperModelInfo> = Vec::new();
    let mut i: usize = 0;
    assert(info_views(infos@) =~= catalog_infos(models_dir@, sizes_on_disk@).take(0));
    while i < specs.len()
        invariant
            i <= specs.len(),
            spec_views(specs@) == catalog(),
            info_views(infos@) == catalog_infos(models_dir@, sizes_on_disk@).take(i as int),
        decreases specs.len() - i,
    {
        let spec = specs[i];
        let on_disk: Option<u64> = if i < sizes_on_disk.len() {
            sizes_on_disk[i]
        } else {
            None
        };
        let info = WhisperModelInfo {
            id: spec.id.to_owned(),
            name: spec.display_name.to_owned(),
            path: join_path(models_dir, spec.filename),
            size_bytes: match on_disk {
                Some(size) => size,
                None => spec.size_bytes,
            },
            recommended: spec.recommended,
            available: on_disk.is_some(),
        };
        proof {
            assert(spec_views(specs@).len() == specs@.len());
            assert(spec_views(specs@)[i as int] == spec@);
            assert(spec@ == catalog()[i as int]);
            assert(info@ == model_info(
                models_dir@,
                catalog()[i as int],
                size_at(sizes_on_disk@, i as int),
            ));
            assert(info_views(infos@.push(info)) =~= info_views(infos@).push(info@));
            assert(info_views(infos@).push(info@) =~= catalog_infos(
                models_dir@,
                sizes_on_disk@,
            ).take(i + 1));
        }
        infos.push(info);
        i += 1;
    }
    assert(catalog_infos(models_dir@, sizes_on_disk@).take(specs.len() as int) =~= catalog_infos(
        models_dir@,
        sizes_on_disk@,
    ));
    sort_models(infos)
}

} // verus!
