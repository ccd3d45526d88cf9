//! Resolution of a query command, as a machine that decides and leaves
//! every read, every embedding and the scoring to its driver. The driver
//! starts with `begin`, performs the action it is handed, reports what came
//! of it as an event to `step`, and goes on until the action is `Return`
//! or `Fail`.
use crate::chunker::{chunk, is_windowing, window_count, Window};
use crate::config::Config;
use crate::error::RagError;
use crate::ingest::window_texts;
use crate::similarity::{
    all_of_dimension, argmax, check_dimensions, first_max, order_is_specified, Float,
};
use crate::store::{
    build_records,
    dataset_dir,
    dataset_dir_text,
    indirection_path,
    indirection_path_text,
    records_of,
    ChunkRecord,
};
use crate::text::{same_text, split_words, words_of};
use vstd::prelude::*;

verus! {

/// A file of this many bytes, 100 MiB, or more is not looked into.
pub const MAX_FILE_SIZE: u64 = 104857600;

/// How many indirections one resolution follows at most.
pub const MAX_INDIRECTIONS: usize = 16;

/// What a resolution returns: the records that were compared, the index of
/// the one closest to the query, and the text of the query.
#[derive(Debug, PartialEq)]
pub struct Resolution<E> {
    pub records: Vec<ChunkRecord<E>>,
    pub best_index: usize,
    pub query: String,
}

/// What the reference of a command turned out to be.
#[derive(Clone, Copy, Debug, PartialEq, Eq, Structural)]
pub enum Route {
    /// An existing file, chunked on the fly.
    File,
    /// The name of a dataset of stored records.
    Dataset,
}

/// What a resolution waits for.
#[derive(Debug, PartialEq)]
pub enum State<E> {
    /// Whether `reference` is an existing path.
    Probing { reference: String, mode: Option<String>, depth: usize },
    /// The text of the query.
    AwaitingQuery { reference: String, route: Route },
    /// The content of the file at `path`.
    ReadingFile { path: String, query: String },
    /// The records of the dataset.
    LoadingDataset { query: String },
    /// The stored prompt of an indirection; `depth` indirections were
    /// followed before this one.
    ReadingPrompt { depth: usize },
    /// The embeddings of the query and of `windows`.
    EmbeddingWindows { path: String, query: String, windows: Vec<Window> },
    /// The embedding of the query.
    EmbeddingQuery { query: String, records: Vec<ChunkRecord<E>> },
    /// The similarity of `query_embedding` to the embedding of each of
    /// `records`.
    Scoring { query: String, query_embedding: Vec<E>, records: Vec<ChunkRecord<E>> },
    /// Nothing: the resolution has ended.
    Finished,
}

/// What the driver does next.
#[derive(Debug, PartialEq)]
pub enum Action<E> {
    /// Find out whether `path` is an existing path and how large the file is.
    Probe { path: String },
    /// Acquire the text of the query.
    AskQuery,
    /// Read the file at `path` as text.
    ReadFile { path: String },
    /// Read every record below `dir`, a path relative to the data root.
    LoadDataset { dir: String },
    /// Read the stored prompt at `path`, a path relative to the data root.
    ReadPrompt { path: String },
    /// Embed `texts`, in this order.
    Embed { texts: Vec<String> },
    /// Score the records of the state against its query embedding.
    Score,
    /// Hand the resolution to the caller.
    Return(Resolution<E>),
    /// Report the failure to the caller.
    Fail(RagError),
}

/// What came of an action.
#[derive(Debug, PartialEq)]
pub enum Event<E> {
    /// The size of the file at the path in bytes, or `None` where there is
    /// no such path.
    Probed { size: Option<u64> },
    /// The text of the query.
    Query(String),
    /// The content of the file.
    Content(String),
    /// The records of the dataset.
    Records(Vec<ChunkRecord<E>>),
    /// The stored prompt.
    Prompt(String),
    /// One embedding for each text, in the order of the texts.
    Embeddings(Vec<Vec<E>>),
    /// One score for each record, in the order of the records.
    Scores(Vec<E>),
    /// The action failed.
    Failed(RagError),
}

/// The resolution ends with the failure `error`.
pub open spec fn fails<E>(next: State<E>, action: Action<E>, error: RagError) -> bool {
    next is Finished && action == Action::<E>::Fail(error)
}

/// The resolution of `command` begins: its second word is the reference,
/// and the driver is to probe it. A command without a second word names
/// no path.
pub open spec fn begins<E>(
    command: Seq<char>,
    mode: Option<String>,
    depth: usize,
    next: State<E>,
    action: Action<E>,
) -> bool {
    if words_of(command).len() < 2 {
        fails(next, action, RagError::InvalidPath)
    } else {
        &&& next matches State::Probing { reference, mode: m, depth: d }
        &&& reference@ == words_of(command)[1]
        &&& m == mode
        &&& d == depth
        &&& action matches Action::Probe { path }
        &&& path@ == words_of(command)[1]
    }
}

/// After the probe: an existing file is looked into unless it is too
/// large; what is no path is what the mode says, a dataset or an
/// indirection, and nothing without a mode or with another.
pub open spec fn after_probe<E>(
    reference: String,
    mode: Option<String>,
    depth: usize,
    size: Option<u64>,
    next: State<E>,
    action: Action<E>,
) -> bool {
    match size {
        Some(bytes) => if bytes >= MAX_FILE_SIZE {
            fails(next, action, RagError::FileTooLarge)
        } else {
            next == (State::<E>::AwaitingQuery { reference, route: Route::File }) && action
                == Action::<E>::AskQuery
        },
        None => match mode {
            None => fails(next, action, RagError::NotFound),
            Some(m) => if m@ == "data"@ {
                next == (State::<E>::AwaitingQuery { reference, route: Route::Dataset }) && action
                    == Action::<E>::AskQuery
            } else if m@ == "dynamic"@ {
                &&& next == (State::<E>::ReadingPrompt { depth })
                &&& action matches Action::ReadPrompt { path }
                &&& path@ == indirection_path_text(reference@)
            } else {
                fails(next, action, RagError::UnsupportedFolderKind)
            },
        },
    }
}

/// After the query: the file is read, or the dataset loaded.
pub open spec fn after_query<E>(
    reference: String,
    route: Route,
    query: String,
    next: State<E>,
    action: Action<E>,
) -> bool {
    match route {
        Route::File => next == (State::<E>::ReadingFile { path: reference, query }) && action
            == (Action::<E>::ReadFile { path: reference }),
        Route::Dataset => {
            &&& next == (State::<E>::LoadingDataset { query })
            &&& action matches Action::LoadDataset { dir }
            &&& dir@ == dataset_dir_text(reference@)
        },
    }
}

/// `texts` are the query and, after it, the content of every window.
pub open spec fn query_then_windows(texts: Seq<String>, query: String, windows: Seq<Window>) -> bool {
    &&& texts.len() == windows.len() + 1
    &&& texts[0] == query
    &&& forall|k: int| 0 <= k < windows.len() ==> #[trigger] texts[k + 1] == windows[k].content
}

/// After the file was read: its content is cut into windows, and the query
/// and the windows go to the embedder. A file without a word holds nothing
/// to find.
pub open spec fn after_content<E>(
    config: Config,
    path: String,
    query: String,
    content: String,
    next: State<E>,
    action: Action<E>,
) -> bool {
    if !config.valid() {
        fails(next, action, RagError::ConfigMissingField)
    } else if words_of(content@).len() == 0 {
        fails(next, action, RagError::NotFound)
    } else {
        &&& next matches State::EmbeddingWindows { path: p, query: q, windows }
        &&& p == path
        &&& q == query
        &&& is_windowing(
            windows@,
            words_of(content@),
            config.chunk_size as nat,
            config.stride as nat,
        )
        &&& action matches Action::Embed { texts }
        &&& query_then_windows(texts@, query, windows@)
    }
}

/// After the dataset was loaded: the query goes to the embedder. A dataset
/// without a record holds nothing to find.
pub open spec fn after_records<E>(
    query: String,
    records: Vec<ChunkRecord<E>>,
    next: State<E>,
    action: Action<E>,
) -> bool {
    if records@.len() == 0 {
        fails(next, action, RagError::NotFound)
    } else {
        &&& next == (State::<E>::EmbeddingQuery { query, records })
        &&& action matches Action::Embed { texts }
        &&& texts@.len() == 1
        &&& texts@[0] == query
    }
}

/// After the stored prompt was read: the resolution begins again with the
/// prompt in the place of the reference and without a mode, unless it has
/// followed as many indirections as it may.
pub open spec fn after_prompt<E>(
    depth: usize,
    prompt: String,
    next: State<E>,
    action: Action<E>,
) -> bool {
    if depth >= MAX_INDIRECTIONS {
        fails(next, action, RagError::RecursionLimitExceeded)
    } else {
        begins("look "@ + prompt@, None, (depth + 1) as usize, next, action)
    }
}

/// After the query and the windows were embedded: the windows become
/// records with their embeddings, to be scored against the embedding of
/// the query. The embedder owes one vector for each text, and all of one
/// dimension.
pub open spec fn after_window_embeddings<E>(
    path: String,
    query: String,
    windows: Vec<Window>,
    vectors: Vec<Vec<E>>,
    next: State<E>,
    action: Action<E>,
) -> bool {
    if vectors@.len() != windows@.len() + 1 {
        fails(next, action, RagError::EmbeddingFailure)
    } else if !all_of_dimension(vectors@.skip(1), vectors@[0]@.len()) {
        fails(next, action, RagError::DimensionMismatch)
    } else {
        &&& next matches State::Scoring { query: q, query_embedding, records }
        &&& q == query
        &&& query_embedding == vectors@[0]
        &&& records_of(records@, windows@, vectors@.skip(1), Some(path))
        &&& action == Action::<E>::Score
    }
}

/// The embedding of every record of `records` has `dimension` components.
pub open spec fn records_of_dimension<E>(records: Seq<ChunkRecord<E>>, dimension: nat) -> bool {
    forall|k: int| 0 <= k < records.len() ==> (#[trigger] records[k]).embedding@.len() == dimension
}

/// After the query was embedded: the records are to be scored against its
/// embedding. The embedder owes the one vector, and of the dimension of
/// the stored ones.
pub open spec fn after_query_embedding<E>(
    query: String,
    records: Vec<ChunkRecord<E>>,
    vectors: Vec<Vec<E>>,
    next: State<E>,
    action: Action<E>,
) -> bool {
    if vectors@.len() != 1 {
        fails(next, action, RagError::EmbeddingFailure)
    } else if !records_of_dimension(records@, vectors@[0]@.len()) {
        fails(next, action, RagError::DimensionMismatch)
    } else {
        &&& next == (State::<E>::Scoring { query, query_embedding: vectors@[0], records })
        &&& action == Action::<E>::Score
    }
}

/// After the scoring: the resolution returns all records, the index of the
/// record with the greatest score, the first of them where several are
/// greatest, and the query. One score is owed for each record.
pub open spec fn after_scores<E: Float>(
    query: String,
    records: Vec<ChunkRecord<E>>,
    scores: Vec<E>,
    next: State<E>,
    action: Action<E>,
) -> bool {
    if scores@.len() != records@.len() {
        fails(next, action, RagError::IOFailure)
    } else if records@.len() == 0 {
        fails(next, action, RagError::NotFound)
    } else {
        &&& next is Finished
        &&& action matches Action::Return(resolution)
        &&& resolution.records == records
        &&& resolution.query == query
        &&& resolution.best_index < records@.len()
        &&& order_is_specified::<E>() ==> resolution.best_index == first_max(scores@)
    }
}

/// One step of a resolution: from what it waited for and what came, to
/// what it waits for next and what the driver is to do. A failed action
/// ends the resolution with its failure; an event that the state did not
/// wait for ends it as a failure of the driver's work.
pub open spec fn transition<E: Float>(
    config: Config,
    state: State<E>,
    event: Event<E>,
    next: State<E>,
    action: Action<E>,
) -> bool {
    match (state, event) {
        (_, Event::Failed(error)) => fails(next, action, error),
        (State::Probing { reference, mode, depth }, Event::Probed { size }) => after_probe(
            reference,
            mode,
            depth,
            size,
            next,
            action,
        ),
        (State::AwaitingQuery { reference, route }, Event::Query(query)) => after_query(
            reference,
            route,
            query,
            next,
            action,
        ),
        (State::ReadingFile { path, query }, Event::Content(content)) => after_content(
            config,
            path,
            query,
            content,
            next,
            action,
        ),
        (State::LoadingDataset { query }, Event::Records(records)) => after_records(
            query,
            records,
            next,
            action,
        ),
        (State::ReadingPrompt { depth }, Event::Prompt(prompt)) => after_prompt(
            depth,
            prompt,
            next,
            action,
        ),
        (
            State::EmbeddingWindows { path, query, windows },
            Event::Embeddings(vectors),
        ) => after_window_embeddings(path, query, windows, vectors, next, action),
        (State::EmbeddingQuery { query, records }, Event::Embeddings(vectors)) => after_query_embedding(
            query,
            records,
            vectors,
            next,
            action,
        ),
        (State::Scoring { query, query_embedding, records }, Event::Scores(scores)) => after_scores(
            query,
            records,
            scores,
            next,
            action,
        ),
        _ => fails(next, action, RagError::IOFailure),
    }
}

fn fail<E>(error: RagError) -> (r: (State<E>, Action<E>))
    ensures
        fails(r.0, r.1, error),
{
    (State::Finished, Action::Fail(error))
}

fn begin_at<E>(command: &str, mode: Option<String>, depth: usize) -> (r: (State<E>, Action<E>))
    ensures
        begins(command@, mode, depth, r.0, r.1),
{
    let words = split_words(command);
    if words.len() < 2 {
        return fail(RagError::InvalidPath);
    }
    let reference = words[1].clone();
    let path = words[1].clone();
    (State::Probing { reference, mode, depth }, Action::Probe { path })
}

/// Begins the resolution of `command` under `mode`: `data` for a dataset,
/// `dynamic` for an indirection, `None` for a file.
pub fn begin<E>(command: &str, mode: Option<String>) -> (r: (State<E>, Action<E>))
    ensures
        begins(command@, mode, 0, r.0, r.1),
{
    begin_at(command, mode, 0)
}

fn on_probe<E>(reference: String, mode: Option<String>, depth: usize, size: Option<u64>) -> (r: (
    State<E>,
    Action<E>,
))
    ensures
        after_probe(reference, mode, depth, size, r.0, r.1),
{
    match size {
        Some(bytes) => {
            if bytes >= MAX_FILE_SIZE {
                fail(RagError::FileTooLarge)
            } else {
                (State::AwaitingQuery { reference, route: Route::File }, Action::AskQuery)
            }
        },
        None => match mode {
            None => fail(RagError::NotFound),
            Some(m) => {
                if same_text(m.as_str(), "data") {
                    (State::AwaitingQuery { reference, route: Route::Dataset }, Action::AskQuery)
                } else if same_text(m.as_str(), "dynamic") {
                    let path = indirection_path(reference.as_str());
                    (State::ReadingPrompt { depth }, Action::ReadPrompt { path })
                } else {
                    fail(RagError::UnsupportedFolderKind)
                }
            },
        },
    }
}

fn on_query<E>(reference: String, route: Route, query: String) -> (r: (State<E>, Action<E>))
    ensures
        after_query(reference, route, query, r.0, r.1),
{
    match route {
        Route::File => {
            let path = reference.clone();
            (State::ReadingFile { path: reference, query }, Action::ReadFile { path })
        },
        Route::Dataset => {
            let dir = dataset_dir(reference.as_str());
            (State::LoadingDataset { query }, Action::LoadDataset { dir })
        },
    }
}

fn on_content<E>(config: &Config, path: String, query: String, content: String) -> (r: (
    State<E>,
    Action<E>,
))
    ensures
        after_content(*config, path, query, content, r.0, r.1),
{
    match chunk(content.as_str(), config.chunk_size, config.stride) {
        Err(_) => fail(RagError::ConfigMissingField),
        Ok(windows) => {
            if windows.len() == 0 {
                return fail(RagError::NotFound);
            }
            let mut texts: Vec<String> = Vec::new();
            texts.push(query.clone());
            let mut contents = window_texts(&windows);
            texts.append(&mut contents);
            (State::EmbeddingWindows { path, query, windows }, Action::Embed { texts })
        },
    }
}

fn on_records<E>(query: String, records: Vec<ChunkRecord<E>>) -> (r: (State<E>, Action<E>))
    ensures
        after_records(query, records, r.0, r.1),
{
    if records.len() == 0 {
        return fail(RagError::NotFound);
    }
    let mut texts: Vec<String> = Vec::new();
    texts.push(query.clone());
    (State::EmbeddingQuery { query, records }, Action::Embed { texts })
}

fn on_prompt<E>(depth: usize, prompt: String) -> (r: (State<E>, Action<E>))
    ensures
        after_prompt(depth, prompt, r.0, r.1),
{
    if depth >= MAX_INDIRECTIONS {
        return fail(RagError::RecursionLimitExceeded);
    }
    let command = String::from_str("look ").concat(prompt.as_str());
    begin_at(command.as_str(), None, depth + 1)
}

fn on_window_embeddings<E>(
    path: String,
    query: String,
    windows: Vec<Window>,
    vectors: Vec<Vec<E>>,
) -> (r: (State<E>, Action<E>))
    ensures
        after_window_embeddings(path, query, windows, vectors, r.0, r.1),
{
    if vectors.len() == 0 || vectors.len() - 1 != windows.len() {
        return fail(RagError::EmbeddingFailure);
    }
    let mut vectors = vectors;
    let rest = vectors.split_off(1);
    let query_embedding = vectors.pop().unwrap();
    match check_dimensions(&query_embedding, &rest) {
        Err(_) => fail(RagError::DimensionMismatch),
        Ok(_) => {
            match build_records(windows, rest, &Some(path)) {
                Err(error) => fail(error),
                Ok(records) => (State::Scoring { query, query_embedding, records }, Action::Score),
            }
        },
    }
}

fn have_dimension<E>(records: &Vec<ChunkRecord<E>>, dimension: usize) -> (all: bool)
    ensures
        all == records_of_dimension(records@, dimension as nat),
{
    let mut k: usize = 0;
    while k < records.len()
        invariant
            k <= records@.len(),
            forall|j: int| 0 <= j < k ==> (#[trigger] records@[j]).embedding@.len() == dimension,
        decreases records.len() - k,
    {
        if records[k].embedding.len() != dimension {
            return false;
        }
        k += 1;
    }
    true
}

fn on_query_embedding<E>(query: String, records: Vec<ChunkRecord<E>>, vectors: Vec<Vec<E>>) -> (r: (
    State<E>,
    Action<E>,
))
    ensures
        after_query_embedding(query, records, vectors, r.0, r.1),
{
    if vectors.len() != 1 {
        return fail(RagError::EmbeddingFailure);
    }
    let mut vectors = vectors;
    let query_embedding = vectors.pop().unwrap();
    if !have_dimension(&records, query_embedding.len()) {
        return fail(RagError::DimensionMismatch);
    }
    (State::Scoring { query, query_embedding, records }, Action::Score)
}

fn on_scores<E: Float>(query: String, records: Vec<ChunkRecord<E>>, scores: Vec<E>) -> (r: (
    State<E>,
    Action<E>,
))
    ensures
        after_scores(query, records, scores, r.0, r.1),
{
    if scores.len() != records.len() {
        return fail(RagError::IOFailure);
    }
    match argmax(&scores) {
        None => fail(RagError::NotFound),
        Some(best_index) => (
            State::Finished,
            Action::Return(Resolution { records, best_index, query }),
        ),
    }
}

/// Takes the resolution one step on: from the state and the event that
/// answers the last action to the next state and the next action.
pub fn step<E: Float>(config: &Config, state: State<E>, event: Event<E>) -> (r: (
    State<E>,
    Action<E>,
))
    ensures
        transition(*config, state, event, r.0, r.1),
{
    match (state, event) {
        (_, Event::Failed(error)) => fail(error),
        (State::Probing { reference, mode, depth }, Event::Probed { size }) => on_probe(
            reference,
            mode,
            depth,
            size,
        ),
        (State::AwaitingQuery { reference, route }, Event::Query(query)) => on_query(
            reference,
            route,
            query,
        ),
        (State::ReadingFile { path, query }, Event::Content(content)) => on_content(
            config,
            path,
            query,
            content,
        ),
        (State::LoadingDataset { query }, Event::Records(records)) => on_records(query, records),
        (State::ReadingPrompt { depth }, Event::Prompt(prompt)) => on_prompt(depth, prompt),
        (
            State::EmbeddingWindows { path, query, windows },
            Event::Embeddings(vectors),
        ) => on_window_embeddings(path, query, windows, vectors),
        (State::EmbeddingQuery { query, records }, Event::Embeddings(vectors)) => on_query_embedding(
            query,
            records,
            vectors,
        ),
        (State::Scoring { query, query_embedding, records }, Event::Scores(scores)) => on_scores(
            query,
            records,
            scores,
        ),
        _ => fail(RagError::IOFailure),
    }
}

/// A file of `MAX_FILE_SIZE` bytes or more is refused before anything of
/// it is read, whatever the mode: the resolution ends with `FileTooLarge`
/// and returns no record.
pub proof fn lemma_large_file_is_refused<E: Float>(
    config: Config,
    reference: String,
    mode: Option<String>,
    depth: usize,
    bytes: u64,
    next: State<E>,
    action: Action<E>,
)
    requires
        bytes >= MAX_FILE_SIZE,
        transition(
            config,
            State::Probing { reference, mode, depth },
            Event::Probed { size: Some(bytes) },
            next,
            action,
        ),
    ensures
        next is Finished,
        action == Action::<E>::Fail(RagError::FileTooLarge),
        !(action is Return),
{
}

/// A reference that is no path is not found where no mode is given, and
/// of an unsupported kind where the mode is neither `data` nor `dynamic`.
pub proof fn lemma_unresolvable_reference<E: Float>(
    config: Config,
    reference: String,
    mode: Option<String>,
    depth: usize,
    next: State<E>,
    action: Action<E>,
)
    requires
        transition(
            config,
            State::Probing { reference, mode, depth },
            Event::Probed { size: None },
            next,
            action,
        ),
    ensures
        mode is None ==> action == Action::<E>::Fail(RagError::NotFound),
        mode matches Some(m) ==> (m@ != "data"@ && m@ != "dynamic"@ ==> action == Action::<E>::Fail(
            RagError::UnsupportedFolderKind,
        )),
        mode matches Some(m) ==> (m@ == "data"@ || m@ == "dynamic"@ ==> !(action is Fail)),
{
}

/// A resolution follows at most `MAX_INDIRECTIONS` indirections: a prompt
/// read after that many ends it with `RecursionLimitExceeded`, and one
/// read before counts as one more.
pub proof fn lemma_indirections_are_bounded<E: Float>(
    config: Config,
    depth: usize,
    prompt: String,
    next: State<E>,
    action: Action<E>,
)
    requires
        transition(config, State::ReadingPrompt { depth }, Event::Prompt(prompt), next, action),
    ensures
        depth >= MAX_INDIRECTIONS ==> action == Action::<E>::Fail(RagError::RecursionLimitExceeded),
        next matches State::Probing { depth: d, mode, .. } ==> d == depth + 1 && d
            <= MAX_INDIRECTIONS && mode is None,
{
}

/// Retrieval from a dataset: once its records are loaded, the resolution
/// that goes through returns exactly those records, the query, and the
/// index of one of the records. It goes through where there is a record,
/// the embedder answers with one vector of the records' dimension, and
/// there is one score for each record.
pub proof fn lemma_dataset_retrieval<E: Float>(
    config: Config,
    query: String,
    records: Vec<ChunkRecord<E>>,
    vectors: Vec<Vec<E>>,
    scores: Vec<E>,
    embedding: State<E>,
    embed: Action<E>,
    scoring: State<E>,
    score: Action<E>,
    end: State<E>,
    last: Action<E>,
)
    requires
        transition(
            config,
            State::LoadingDataset { query },
            Event::Records(records),
            embedding,
            embed,
        ),
        transition(config, embedding, Event::Embeddings(vectors), scoring, score),
        transition(config, scoring, Event::Scores(scores), end, last),
    ensures
        last matches Action::Return(resolution) ==> resolution.records == records
            && resolution.query == query && resolution.best_index < records@.len(),
        last is Return <==> records@.len() > 0 && vectors@.len() == 1 && records_of_dimension(
            records@,
            vectors@[0]@.len(),
        ) && scores@.len() == records@.len(),
{
}

/// Retrieval from a file: once its content is read, the resolution that
/// goes through returns one record for each window of the content, in
/// order, each with the embedding that the embedder gave for it and the
/// path of the file, the query, and the index of one of the records.
pub proof fn lemma_file_retrieval<E: Float>(
    config: Config,
    path: String,
    query: String,
    content: String,
    vectors: Vec<Vec<E>>,
    scores: Vec<E>,
    embedding: State<E>,
    embed: Action<E>,
    scoring: State<E>,
    score: Action<E>,
    end: State<E>,
    last: Action<E>,
)
    requires
        transition(
            config,
            State::ReadingFile { path, query },
            Event::Content(content),
            embedding,
            embed,
        ),
        transition(config, embedding, Event::Embeddings(vectors), scoring, score),
        transition(config, scoring, Event::Scores(scores), end, last),
    ensures
        last matches Action::Return(resolution) ==> {
            &&& resolution.query == query
            &&& resolution.best_index < resolution.records@.len()
            &&& embedding matches State::EmbeddingWindows { windows, .. }
            &&& is_windowing(
                windows@,
                words_of(content@),
                config.chunk_size as nat,
                config.stride as nat,
            )
            &&& records_of(resolution.records@, windows@, vectors@.skip(1), Some(path))
        },
        last is Return <==> config.valid() && words_of(content@).len() > 0 && vectors@.len()
            == scores@.len() + 1 && scores@.len() == window_count(
            words_of(content@).len(),
            config.stride as nat,
        ) && all_of_dimension(vectors@.skip(1), vectors@[0]@.len()),
{
}

/// Whatever a resolution returns, it returns at least one record, and the
/// index of one of the records it returns.
pub proof fn lemma_returned_index_is_of_a_record<E: Float>(
    config: Config,
    state: State<E>,
    event: Event<E>,
    next: State<E>,
    action: Action<E>,
)
    requires
        transition(config, state, event, next, action),
    ensures
        action matches Action::Return(resolution) ==> resolution.best_index
            < resolution.records@.len(),
        action is Return || action is Fail <==> next is Finished,
{
}

} // verus!
