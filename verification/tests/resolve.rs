use rag_parsing::chunker::Window;
use rag_parsing::config::Config;
use rag_parsing::error::RagError;
use rag_parsing::resolve::{
    begin, step, Action, Event, Resolution, Route, State, MAX_FILE_SIZE, MAX_INDIRECTIONS,
};
use rag_parsing::similarity::Float;
use rag_parsing::store::ChunkRecord;

#[derive(Clone, Copy, Debug, PartialEq, PartialOrd)]
struct Num(f32);

impl std::ops::Div for Num {
    type Output = Num;

    fn div(self, other: Num) -> Num {
        Num(self.0 / other.0)
    }
}

impl Float for Num {
    fn from_usize(n: usize) -> Self {
        Num(n as f32)
    }
}

fn config() -> Config {
    Config { chunk_size: 4, stride: 2 }
}

fn vector(components: &[f32]) -> Vec<Num> {
    components.iter().map(|c| Num(*c)).collect()
}

fn record(ordinal: usize, content: &str, embedding: &[f32]) -> ChunkRecord<Num> {
    ChunkRecord {
        chunk_id: format!("chunk_{:03}", ordinal),
        content: content.to_string(),
        embedding: vector(embedding),
        source_path: None,
    }
}

fn probing(reference: &str, mode: Option<&str>) -> State<Num> {
    State::Probing {
        reference: reference.to_string(),
        mode: mode.map(|m| m.to_string()),
        depth: 0,
    }
}

#[test]
fn the_second_word_is_the_reference() {
    let (state, action) = begin::<Num>("look  notes/a.txt  and more", None);
    assert_eq!(action, Action::Probe { path: "notes/a.txt".to_string() });
    assert_eq!(
        state,
        State::Probing { reference: "notes/a.txt".to_string(), mode: None, depth: 0 }
    );
}

#[test]
fn the_mode_is_kept_for_after_the_probe() {
    let (state, _) = begin::<Num>("look manuals", Some("data".to_string()));
    assert_eq!(
        state,
        State::Probing {
            reference: "manuals".to_string(),
            mode: Some("data".to_string()),
            depth: 0
        }
    );
}

#[test]
fn a_command_without_a_reference_names_no_path() {
    for command in ["look", "", "   ", "look   "] {
        let (state, action) = begin::<Num>(command, None);
        assert_eq!(action, Action::Fail(RagError::InvalidPath));
        assert_eq!(state, State::Finished);
    }
}

#[test]
fn a_file_one_byte_over_the_limit_is_too_large() {
    let (state, action) =
        step(&config(), probing("big.bin", None), Event::Probed { size: Some(104_857_601) });
    assert_eq!(action, Action::Fail(RagError::FileTooLarge));
    assert_eq!(state, State::Finished);
}

#[test]
fn a_file_at_the_limit_is_too_large() {
    assert_eq!(MAX_FILE_SIZE, 104_857_600);
    let (_, action) =
        step(&config(), probing("big.bin", Some("data")), Event::Probed { size: Some(MAX_FILE_SIZE) });
    assert_eq!(action, Action::Fail(RagError::FileTooLarge));
}

#[test]
fn a_file_below_the_limit_is_looked_into() {
    let (state, action) =
        step(&config(), probing("a.txt", None), Event::Probed { size: Some(MAX_FILE_SIZE - 1) });
    assert_eq!(action, Action::AskQuery);
    assert_eq!(
        state,
        State::AwaitingQuery { reference: "a.txt".to_string(), route: Route::File }
    );
}

#[test]
fn an_existing_file_wins_over_any_mode() {
    let (state, action) =
        step(&config(), probing("a.txt", Some("bogus")), Event::Probed { size: Some(12) });
    assert_eq!(action, Action::AskQuery);
    assert_eq!(
        state,
        State::AwaitingQuery { reference: "a.txt".to_string(), route: Route::File }
    );
}

#[test]
fn an_unknown_mode_is_an_unsupported_kind() {
    let (state, action) =
        step(&config(), probing("nowhere", Some("bogus")), Event::Probed { size: None });
    assert_eq!(action, Action::Fail(RagError::UnsupportedFolderKind));
    assert_eq!(state, State::Finished);
}

#[test]
fn no_mode_and_no_file_is_not_found() {
    let (state, action) = step(&config(), probing("nowhere", None), Event::Probed { size: None });
    assert_eq!(action, Action::Fail(RagError::NotFound));
    assert_eq!(state, State::Finished);
}

#[test]
fn modes_are_matched_exactly() {
    for mode in ["Data", "data ", "", "dynamic2"] {
        let (_, action) =
            step(&config(), probing("nowhere", Some(mode)), Event::Probed { size: None });
        assert_eq!(action, Action::Fail(RagError::UnsupportedFolderKind));
    }
}

#[test]
fn a_file_is_chunked_embedded_and_scored() {
    let cfg = config();
    let (state, action) = begin::<Num>("look a.txt", None);
    assert_eq!(action, Action::Probe { path: "a.txt".to_string() });
    let (state, action) = step(&cfg, state, Event::Probed { size: Some(11) });
    assert_eq!(action, Action::AskQuery);
    let (state, action) = step(&cfg, state, Event::Query("which letters?".to_string()));
    assert_eq!(action, Action::ReadFile { path: "a.txt".to_string() });
    let (state, action) = step(&cfg, state, Event::Content("a b c d e f".to_string()));
    assert_eq!(
        action,
        Action::Embed {
            texts: vec![
                "which letters?".to_string(),
                "a b c d".to_string(),
                "c d e f".to_string(),
                "e f".to_string()
            ]
        }
    );
    let vectors = vec![
        vector(&[1.0, 0.0]),
        vector(&[1.0, 0.0]),
        vector(&[0.0, 1.0]),
        vector(&[1.0, 1.0]),
    ];
    let (state, action) = step(&cfg, state, Event::Embeddings(vectors));
    assert_eq!(action, Action::Score);
    match &state {
        State::Scoring { query, query_embedding, records } => {
            assert_eq!(query, "which letters?");
            assert_eq!(query_embedding, &vector(&[1.0, 0.0]));
            assert_eq!(records.len(), 3);
            assert_eq!(records[1].chunk_id, "chunk_001");
            assert_eq!(records[1].content, "c d e f");
            assert_eq!(records[1].embedding, vector(&[0.0, 1.0]));
            assert_eq!(records[1].source_path, Some("a.txt".to_string()));
        }
        other => panic!("unexpected state {:?}", other),
    }
    let (state, action) = step(&cfg, state, Event::Scores(vector(&[1.0, 0.0, 0.7071])));
    assert_eq!(state, State::Finished);
    match action {
        Action::Return(Resolution { records, best_index, query }) => {
            assert_eq!(best_index, 0);
            assert_eq!(query, "which letters?");
            let contents: Vec<&str> = records.iter().map(|r| r.content.as_str()).collect();
            assert_eq!(contents, vec!["a b c d", "c d e f", "e f"]);
        }
        other => panic!("unexpected action {:?}", other),
    }
}

#[test]
fn a_dataset_returns_all_its_records_and_one_of_their_indices() {
    let cfg = config();
    let (state, _) = begin::<Num>("look manuals", Some("data".to_string()));
    let (state, action) = step(&cfg, state, Event::Probed { size: None });
    assert_eq!(action, Action::AskQuery);
    let (state, action) = step(&cfg, state, Event::Query("how to reset".to_string()));
    assert_eq!(action, Action::LoadDataset { dir: "data/manuals".to_string() });
    assert_eq!(state, State::LoadingDataset { query: "how to reset".to_string() });
    let records = vec![
        record(0, "press the button", &[0.0, 1.0]),
        record(1, "hold for ten seconds", &[1.0, 0.0]),
        record(0, "unplug it", &[1.0, 1.0]),
        record(1, "wait", &[0.5, 0.5]),
    ];
    let (state, action) = step(&cfg, state, Event::Records(records));
    assert_eq!(action, Action::Embed { texts: vec!["how to reset".to_string()] });
    let (state, action) = step(&cfg, state, Event::Embeddings(vec![vector(&[1.0, 0.0])]));
    assert_eq!(action, Action::Score);
    let (state, action) = step(&cfg, state, Event::Scores(vector(&[0.5, 0.9, 0.9, 0.1])));
    assert_eq!(state, State::Finished);
    match action {
        Action::Return(resolution) => {
            assert_eq!(resolution.records.len(), 4);
            assert_eq!(resolution.best_index, 1);
            assert_eq!(resolution.query, "how to reset");
            assert_eq!(resolution.records[1].content, "hold for ten seconds");
            assert_eq!(resolution.records[3], record(1, "wait", &[0.5, 0.5]));
        }
        other => panic!("unexpected action {:?}", other),
    }
}

#[test]
fn an_indirection_begins_again_with_the_stored_prompt() {
    let cfg = config();
    let (state, _) = begin::<Num>("look daily", Some("dynamic".to_string()));
    let (state, action) = step(&cfg, state, Event::Probed { size: None });
    assert_eq!(action, Action::ReadPrompt { path: "dynamic/daily".to_string() });
    assert_eq!(state, State::ReadingPrompt { depth: 0 });
    let (state, action) = step(&cfg, state, Event::Prompt("/home/me/journal.txt\n".to_string()));
    assert_eq!(action, Action::Probe { path: "/home/me/journal.txt".to_string() });
    assert_eq!(
        state,
        State::Probing { reference: "/home/me/journal.txt".to_string(), mode: None, depth: 1 }
    );
    let (_, action) = step(&cfg, state, Event::Probed { size: None });
    assert_eq!(action, Action::Fail(RagError::NotFound));
}

#[test]
fn an_empty_prompt_names_no_path() {
    let (state, action) =
        step::<Num>(&config(), State::ReadingPrompt { depth: 0 }, Event::Prompt(" \n".to_string()));
    assert_eq!(action, Action::Fail(RagError::InvalidPath));
    assert_eq!(state, State::Finished);
}

#[test]
fn indirections_are_followed_up_to_the_limit() {
    assert_eq!(MAX_INDIRECTIONS, 16);
    let (state, action) = step::<Num>(
        &config(),
        State::ReadingPrompt { depth: MAX_INDIRECTIONS - 1 },
        Event::Prompt("a.txt".to_string()),
    );
    assert_eq!(action, Action::Probe { path: "a.txt".to_string() });
    assert_eq!(
        state,
        State::Probing { reference: "a.txt".to_string(), mode: None, depth: MAX_INDIRECTIONS }
    );
}

#[test]
fn indirections_beyond_the_limit_are_refused() {
    let (state, action) = step::<Num>(
        &config(),
        State::ReadingPrompt { depth: MAX_INDIRECTIONS },
        Event::Prompt("a.txt".to_string()),
    );
    assert_eq!(action, Action::Fail(RagError::RecursionLimitExceeded));
    assert_eq!(state, State::Finished);
    let (_, action) = step::<Num>(
        &config(),
        State::ReadingPrompt { depth: usize::MAX },
        Event::Prompt("a.txt".to_string()),
    );
    assert_eq!(action, Action::Fail(RagError::RecursionLimitExceeded));
}

#[test]
fn a_failed_action_ends_the_resolution_with_its_failure() {
    let failures = [
        RagError::IOFailure,
        RagError::CorruptRecord,
        RagError::EmbeddingFailure,
        RagError::DimensionMismatch,
    ];
    for failure in failures {
        let state: State<Num> = State::LoadingDataset { query: "q".to_string() };
        let (state, action) = step(&config(), state, Event::Failed(failure));
        assert_eq!(action, Action::Fail(failure));
        assert_eq!(state, State::Finished);
    }
}

#[test]
fn an_event_that_was_not_waited_for_is_a_failure() {
    let (state, action) = step(&config(), probing("a.txt", None), Event::Query("q".to_string()));
    assert_eq!(action, Action::Fail(RagError::IOFailure));
    assert_eq!(state, State::Finished);
    let (_, action) = step::<Num>(&config(), State::Finished, Event::Probed { size: None });
    assert_eq!(action, Action::Fail(RagError::IOFailure));
}

#[test]
fn a_file_without_words_holds_nothing_to_find() {
    let state: State<Num> =
        State::ReadingFile { path: "a.txt".to_string(), query: "q".to_string() };
    let (state, action) = step(&config(), state, Event::Content(" \n ".to_string()));
    assert_eq!(action, Action::Fail(RagError::NotFound));
    assert_eq!(state, State::Finished);
}

#[test]
fn a_dataset_without_records_holds_nothing_to_find() {
    let state: State<Num> = State::LoadingDataset { query: "q".to_string() };
    let (_, action) = step(&config(), state, Event::Records(Vec::new()));
    assert_eq!(action, Action::Fail(RagError::NotFound));
}

#[test]
fn a_configuration_without_a_size_is_refused() {
    let state: State<Num> =
        State::ReadingFile { path: "a.txt".to_string(), query: "q".to_string() };
    let broken = Config { chunk_size: 0, stride: 2 };
    let (_, action) = step(&broken, state, Event::Content("a b".to_string()));
    assert_eq!(action, Action::Fail(RagError::ConfigMissingField));
}

fn embedding_windows() -> State<Num> {
    State::EmbeddingWindows {
        path: "a.txt".to_string(),
        query: "q".to_string(),
        windows: vec![
            Window { index: 0, content: "a b".to_string() },
            Window { index: 1, content: "b".to_string() },
        ],
    }
}

#[test]
fn too_few_or_too_many_vectors_are_a_failure_of_the_embedder() {
    let two = vec![vector(&[1.0]), vector(&[1.0])];
    let (_, action) = step(&config(), embedding_windows(), Event::Embeddings(two));
    assert_eq!(action, Action::Fail(RagError::EmbeddingFailure));
    let four = vec![vector(&[1.0]), vector(&[1.0]), vector(&[1.0]), vector(&[1.0])];
    let (_, action) = step(&config(), embedding_windows(), Event::Embeddings(four));
    assert_eq!(action, Action::Fail(RagError::EmbeddingFailure));
    let (_, action) = step(&config(), embedding_windows(), Event::Embeddings(Vec::new()));
    assert_eq!(action, Action::Fail(RagError::EmbeddingFailure));
    let state: State<Num> =
        State::EmbeddingQuery { query: "q".to_string(), records: vec![record(0, "a", &[1.0])] };
    let (_, action) =
        step(&config(), state, Event::Embeddings(vec![vector(&[1.0]), vector(&[1.0])]));
    assert_eq!(action, Action::Fail(RagError::EmbeddingFailure));
}

#[test]
fn windows_of_another_dimension_than_the_query_are_refused() {
    let vectors = vec![vector(&[1.0, 0.0]), vector(&[1.0, 0.0]), vector(&[1.0])];
    let (state, action) = step(&config(), embedding_windows(), Event::Embeddings(vectors));
    assert_eq!(action, Action::Fail(RagError::DimensionMismatch));
    assert_eq!(state, State::Finished);
}

#[test]
fn records_of_another_dimension_than_the_query_are_refused() {
    let state: State<Num> = State::EmbeddingQuery {
        query: "q".to_string(),
        records: vec![record(0, "a", &[1.0, 2.0]), record(1, "b", &[1.0, 2.0, 3.0])],
    };
    let (_, action) = step(&config(), state, Event::Embeddings(vec![vector(&[1.0, 0.0])]));
    assert_eq!(action, Action::Fail(RagError::DimensionMismatch));
}

#[test]
fn one_score_is_owed_for_each_record() {
    let state: State<Num> = State::Scoring {
        query: "q".to_string(),
        query_embedding: vector(&[1.0]),
        records: vec![record(0, "a", &[1.0]), record(1, "b", &[2.0])],
    };
    let (state, action) = step(&config(), state, Event::Scores(vector(&[0.5])));
    assert_eq!(action, Action::Fail(RagError::IOFailure));
    assert_eq!(state, State::Finished);
}

#[test]
fn resolution_over_integer_scores() {
    let state: State<u64> = State::Scoring {
        query: "q".to_string(),
        query_embedding: vec![1, 0],
        records: vec![
            ChunkRecord {
                chunk_id: "chunk_000".to_string(),
                content: "a".to_string(),
                embedding: vec![1, 0],
                source_path: None,
            },
            ChunkRecord {
                chunk_id: "chunk_001".to_string(),
                content: "b".to_string(),
                embedding: vec![0, 1],
                source_path: None,
            },
        ],
    };
    let (_, action) = step(&config(), state, Event::Scores(vec![3, 8]));
    match action {
        Action::Return(resolution) => assert_eq!(resolution.best_index, 1),
        other => panic!("unexpected action {:?}", other),
    }
}
