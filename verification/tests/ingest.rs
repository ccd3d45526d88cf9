use rag_parsing::chunker::Window;
use rag_parsing::config::Config;
use rag_parsing::error::RagError;
use rag_parsing::ingest::{is_ingestible, source_windows, window_texts};

#[test]
fn text_files_are_taken() {
    assert!(is_ingestible("docs/guide/intro.md", "intro.md"));
    assert!(is_ingestible("src/main.rs", "main.rs"));
    assert!(is_ingestible("notes", "notes"));
}

#[test]
fn version_control_and_stored_chunks_are_left() {
    assert!(!is_ingestible("repo/.git/config", "config"));
    assert!(!is_ingestible("repo/.gitignore", ".gitignore"));
    assert!(!is_ingestible("data/set/a.txt/chunk_000.json", "chunk_000.json"));
    assert!(!is_ingestible("cache.json.d/readme", "readme"));
}

#[test]
fn images_and_artifacts_are_left() {
    assert!(!is_ingestible("img/cat.jpg", "cat.jpg"));
    assert!(!is_ingestible("img/cat.png", "cat.png"));
    assert!(!is_ingestible("pkg/mod.pyc", "mod.pyc"));
    assert!(!is_ingestible("pkg/model.pkl", "model.pkl"));
}

#[test]
fn only_the_name_decides_on_images() {
    assert!(is_ingestible("shots.png/readme.txt", "readme.txt"));
}

#[test]
fn windows_of_a_source() {
    let config = Config { chunk_size: 2, stride: 1 };
    let windows = source_windows("one two three".as_bytes(), &config).unwrap();
    let contents: Vec<&str> = windows.iter().map(|w| w.content.as_str()).collect();
    assert_eq!(contents, vec!["one two", "two three", "three"]);
}

#[test]
fn bytes_that_are_no_text_are_replaced() {
    let config = Config { chunk_size: 4, stride: 4 };
    let bytes: [u8; 7] = [b'a', 0xff, b'b', b' ', 0xc3, 0xa9, b'!'];
    let windows = source_windows(&bytes, &config).unwrap();
    assert_eq!(windows.len(), 1);
    assert_eq!(windows[0].content, "a\u{fffd}b é!");
}

#[test]
fn an_invalid_configuration_is_refused() {
    let config = Config { chunk_size: 0, stride: 1 };
    assert_eq!(source_windows(b"a b", &config), Err(RagError::ConfigMissingField));
}

#[test]
fn window_texts_are_the_contents() {
    let windows = vec![
        Window { index: 0, content: "a b".to_string() },
        Window { index: 1, content: "b c".to_string() },
    ];
    assert_eq!(window_texts(&windows), vec!["a b".to_string(), "b c".to_string()]);
    assert_eq!(window_texts(&Vec::new()), Vec::<String>::new());
}
