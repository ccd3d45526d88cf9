use rag_parsing::web::{news_url, search_url};

#[test]
fn headlines_of_the_given_sources() {
    assert_eq!(
        news_url(&Some("bbc-news".to_string()), &None, "cnn", "KEY"),
        "https://newsapi.org/v2/top-headlines?sources=bbc-news&apiKey=KEY"
    );
}

#[test]
fn everything_of_the_given_sources_that_matches() {
    assert_eq!(
        news_url(&Some("bbc-news".to_string()), &Some("rust".to_string()), "cnn", "KEY"),
        "https://newsapi.org/v2/everything?sources=bbc-news&q=rust&sortBy=relevancy&apiKey=KEY"
    );
}

#[test]
fn everything_of_the_default_sources_that_matches() {
    assert_eq!(
        news_url(&None, &Some("rust".to_string()), "cnn", "KEY"),
        "https://newsapi.org/v2/everything?sources=cnn&q=rust&sortBy=relevancy&apiKey=KEY"
    );
}

#[test]
fn headlines_of_the_default_sources() {
    assert_eq!(
        news_url(&None, &None, "cnn", "KEY"),
        "https://newsapi.org/v2/top-headlines?sources=cnn&apiKey=KEY"
    );
}

#[test]
fn spaces_of_a_search_are_written_as_percent_20() {
    assert_eq!(
        search_url("verified  rust code", "KEY"),
        "https://google.serper.dev/search?q=verified%20%20rust%20code&apiKey=KEY"
    );
    assert_eq!(search_url("", "K"), "https://google.serper.dev/search?q=&apiKey=K");
    assert_eq!(search_url(" ", "K"), "https://google.serper.dev/search?q=%20&apiKey=K");
}

#[test]
fn other_whitespace_of_a_search_stays() {
    let q = "a\tb\u{a0}c+d%20";
    assert_eq!(
        search_url(q, "K"),
        format!("https://google.serper.dev/search?q={}&apiKey=K", q.replace(' ', "%20"))
    );
}
