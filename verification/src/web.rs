//! The addresses of the news and search requests. The requests themselves
//! are made by the caller.
use crate::text::{chars_of, push_char};
use vstd::prelude::*;

verus! {

/// The address of a news request: the headlines of `sources`, or of
/// `default_sources` where none are given; where `search` is given,
/// everything of those sources that matches it, by relevancy.
pub open spec fn news_url_text(
    sources: Option<String>,
    search: Option<String>,
    default_sources: Seq<char>,
    api_key: Seq<char>,
) -> Seq<char> {
    let from = match sources {
        Some(given) => given@,
        None => default_sources,
    };
    match search {
        Some(words) => "https://newsapi.org/v2/everything?sources="@ + from + "&q="@ + words@
            + "&sortBy=relevancy&apiKey="@ + api_key,
        None => "https://newsapi.org/v2/top-headlines?sources="@ + from + "&apiKey="@ + api_key,
    }
}

/// The address of the news request for `sources` and `search`.
pub fn news_url(
    sources: &Option<String>,
    search: &Option<String>,
    default_sources: &str,
    api_key: &str,
) -> (url: String)
    ensures
        url@ == news_url_text(*sources, *search, default_sources@, api_key@),
{
    let from: &str = match sources {
        Some(given) => given.as_str(),
        None => default_sources,
    };
    match search {
        Some(words) => String::from_str("https://newsapi.org/v2/everything?sources=").concat(
            from,
        ).concat("&q=").concat(words.as_str()).concat("&sortBy=relevancy&apiKey=").concat(api_key),
        None => String::from_str("https://newsapi.org/v2/top-headlines?sources=").concat(
            from,
        ).concat("&apiKey=").concat(api_key),
    }
}

/// `q` with `%20` in the place of every space.
pub open spec fn percent_spaces(q: Seq<char>) -> Seq<char>
    decreases q.len(),
{
    if q.len() == 0 {
        Seq::empty()
    } else if q.last() == ' ' {
        percent_spaces(q.drop_last()) + "%20"@
    } else {
        percent_spaces(q.drop_last()).push(q.last())
    }
}

/// The address of a web search for `q`.
pub open spec fn search_url_text(q: Seq<char>, api_key: Seq<char>) -> Seq<char> {
    "https://google.serper.dev/search?q="@ + percent_spaces(q) + "&apiKey="@ + api_key
}

/// The address of the web search for `q`.
pub fn search_url(q: &str, api_key: &str) -> (url: String)
    ensures
        url@ == search_url_text(q@, api_key@),
{
    let chars = chars_of(q);
    let mut url = String::from_str("https://google.serper.dev/search?q=");
    let mut i: usize = 0;
    while i < chars.len()
        invariant
            i <= chars@.len(),
            url@ == "https://google.serper.dev/search?q="@ + percent_spaces(chars@.take(i as int)),
        decreases chars.len() - i,
    {
        assert(chars@.take(i + 1).drop_last() =~= chars@.take(i as int));
        if chars[i] == ' ' {
            url.append("%20");
        } else {
            push_char(&mut url, chars[i]);
        }
        i += 1;
    }
    assert(chars@.take(i as int) =~= chars@);
    url.concat("&apiKey=").concat(api_key)
}

} // verus!
