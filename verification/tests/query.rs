use rag_parsing::query::{begin_query, continue_query, QueryInput};

#[test]
fn a_plain_line_is_the_query() {
    assert_eq!(begin_query("  what is a chunk?\n"), QueryInput::Complete("what is a chunk?".to_string()));
}

#[test]
fn an_empty_line_is_an_empty_query() {
    assert_eq!(begin_query("\n"), QueryInput::Complete(String::new()));
}

#[test]
fn the_sentinel_opens_a_block() {
    assert_eq!(begin_query("explain this +++\n"), QueryInput::Pending("explain this +++".to_string()));
    assert_eq!(begin_query("+++"), QueryInput::Pending("+++".to_string()));
}

#[test]
fn the_sentinel_counts_only_at_the_end() {
    assert_eq!(begin_query("+++ later\n"), QueryInput::Complete("+++ later".to_string()));
    assert_eq!(begin_query("a ++\n"), QueryInput::Complete("a ++".to_string()));
}

#[test]
fn lines_of_a_block_are_kept_as_they_stand() {
    let input = continue_query("q +++".to_string(), "  first line \n");
    assert_eq!(input, QueryInput::Pending("q +++  first line \n".to_string()));
}

#[test]
fn the_closing_line_is_left_out() {
    assert_eq!(
        continue_query("q +++one\n".to_string(), "END\n"),
        QueryInput::Complete("q +++one\n".to_string())
    );
    assert_eq!(continue_query("x".to_string(), "END"), QueryInput::Complete("x".to_string()));
    assert_eq!(continue_query("x".to_string(), "END \r\n"), QueryInput::Complete("x".to_string()));
}

#[test]
fn a_line_that_only_holds_the_closing_word_goes_on() {
    assert_eq!(
        continue_query("x".to_string(), " END\n"),
        QueryInput::Pending("x END\n".to_string())
    );
    assert_eq!(
        continue_query("x".to_string(), "THE END\n"),
        QueryInput::Pending("xTHE END\n".to_string())
    );
}

#[test]
fn a_block_from_first_line_to_closing_line() {
    let mut input = begin_query("summarise +++\n");
    for line in ["alpha\n", "beta\n", "END\n"] {
        input = match input {
            QueryInput::Pending(captured) => continue_query(captured, line),
            done => done,
        };
    }
    assert_eq!(input, QueryInput::Complete("summarise +++alpha\nbeta\n".to_string()));
}
