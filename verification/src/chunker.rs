//! Cutting a text into overlapping windows of words.
use crate::error::RagError;
use crate::text::{
    is_word, join_range, join_words, lemma_words_are_words, lemma_words_of_joined, split_words, texts,
    words_of,
};
use vstd::prelude::*;

verus! {

/// One window of a text: its ordinal among the windows of that text and
/// the words it covers, joined by single spaces.
#[derive(Debug, PartialEq)]
pub struct Window {
    pub index: usize,
    pub content: String,
}

/// How many windows a text of `n` words has when each window starts
/// `stride` words after the one before: one for every multiple of `stride`
/// below `n`.
pub open spec fn window_count(n: nat, stride: nat) -> nat
    recommends
        stride > 0,
{
    if n == 0 {
        0
    } else {
        ((n - 1) / (stride as int) + 1) as nat
    }
}

/// The index of the first word of window `k`.
pub open spec fn window_start(k: int, stride: nat) -> int {
    k * stride
}

/// The index after the last word of window `k`: `chunk_size` words after
/// its start, or the end of the text where that comes first.
pub open spec fn window_end(k: int, chunk_size: nat, stride: nat, n: nat) -> int {
    if window_start(k, stride) + chunk_size <= n {
        window_start(k, stride) + chunk_size
    } else {
        n as int
    }
}

/// The content of window `k` of a text with the words `words`.
pub open spec fn window_text(words: Seq<Seq<char>>, chunk_size: nat, stride: nat, k: int) -> Seq<
    char,
> {
    join_words(
        words.subrange(window_start(k, stride), window_end(k, chunk_size, stride, words.len())),
    )
}

/// `windows` are the windows of a text with the words `words`, in order.
pub open spec fn is_windowing(
    windows: Seq<Window>,
    words: Seq<Seq<char>>,
    chunk_size: nat,
    stride: nat,
) -> bool {
    &&& windows.len() == window_count(words.len(), stride)
    &&& forall|k: int|
        0 <= k < windows.len() ==> (#[trigger] windows[k]).index == k && windows[k].content@
            == window_text(words, chunk_size, stride, k)
}

/// `window_count` counts the window starts: `k * stride` lies before the
/// end of the text exactly for the `k` below it. There are at most as many
/// windows as words.
pub proof fn lemma_window_count_counts_starts(n: nat, stride: nat)
    requires
        stride > 0,
    ensures
        forall|k: int| 0 <= k ==> (#[trigger] window_start(k, stride) < n <==> k < window_count(
            n,
            stride,
        )),
        window_count(n, stride) <= n,
{
    assert forall|k: int| 0 <= k implies (#[trigger] window_start(k, stride) < n <==> k
        < window_count(n, stride)) by {
        lemma_start_below_end(n, stride, k);
    }
    if n > 0 {
        assert((n - 1) / (stride as int) <= n - 1) by (nonlinear_arith)
            requires
                n >= 1,
                stride >= 1,
        ;
    }
}

proof fn lemma_start_below_end(n: nat, stride: nat, k: int)
    requires
        stride > 0,
        0 <= k,
    ensures
        k * stride < n <==> k < window_count(n, stride),
{
    if n == 0 {
        assert(k * stride >= 0) by (nonlinear_arith)
            requires
                k >= 0,
                stride > 0,
        ;
    } else {
        let q = (n - 1) / (stride as int);
        assert(k * stride <= n - 1 <==> k <= q) by (nonlinear_arith)
            requires
                q == (n - 1) / (stride as int),
                stride > 0,
                n >= 1,
                k >= 0,
        ;
    }
}

/// Every window but the last holds `chunk_size` words, none holds more,
/// and none is empty.
pub proof fn lemma_window_extent(n: nat, chunk_size: nat, stride: nat, k: int)
    requires
        chunk_size > 0,
        stride > 0,
        0 <= k < window_count(n, stride),
    ensures
        0 <= window_start(k, stride) < window_end(k, chunk_size, stride, n) <= n,
        window_end(k, chunk_size, stride, n) - window_start(k, stride) <= chunk_size,
        window_end(k, chunk_size, stride, n) < n ==> window_end(k, chunk_size, stride, n)
            - window_start(k, stride) == chunk_size,
{
    lemma_start_below_end(n, stride, k);
    assert(k * stride >= 0) by (nonlinear_arith)
        requires
            k >= 0,
            stride > 0,
    ;
}

/// Where the stride is no larger than the window, no word is skipped:
/// word `i` lies in the window that starts at the last multiple of the
/// stride up to `i`.
pub proof fn lemma_windows_cover_every_word(n: nat, chunk_size: nat, stride: nat, i: int)
    requires
        0 < stride <= chunk_size,
        0 <= i < n,
    ensures
        0 <= i / (stride as int) < window_count(n, stride),
        window_start(i / (stride as int), stride) <= i < window_end(
            i / (stride as int),
            chunk_size,
            stride,
            n,
        ),
{
    let k = i / (stride as int);
    assert(0 <= k && k * stride <= i < k * stride + stride) by (nonlinear_arith)
        requires
            k == i / (stride as int),
            stride > 0,
            i >= 0,
    ;
    lemma_start_below_end(n, stride, k);
}

/// A window covers the words from its start to its end and nothing else:
/// the words of its content are those words of the text.
pub proof fn lemma_window_covers_its_words(
    text: Seq<char>,
    chunk_size: nat,
    stride: nat,
    k: int,
)
    requires
        chunk_size > 0,
        stride > 0,
        0 <= k < window_count(words_of(text).len(), stride),
    ensures
        words_of(window_text(words_of(text), chunk_size, stride, k)) == words_of(text).subrange(
            window_start(k, stride),
            window_end(k, chunk_size, stride, words_of(text).len()),
        ),
{
    let words = words_of(text);
    lemma_window_extent(words.len(), chunk_size, stride, k);
    lemma_words_are_words(text);
    let covered = words.subrange(
        window_start(k, stride),
        window_end(k, chunk_size, stride, words.len()),
    );
    assert forall|j: int| 0 <= j < covered.len() implies is_word(#[trigger] covered[j]) by {
    }
    lemma_words_of_joined(covered);
}

/// Cuts the words of a text into windows: window `k` begins at word
/// `k * stride` and holds `chunk_size` words, fewer where the text ends
/// before. A `chunk_size` or `stride` of 0 is a fault of the configuration.
pub fn chunk_words(words: &Vec<String>, chunk_size: usize, stride: usize) -> (r: Result<
    Vec<Window>,
    RagError,
>)
    ensures
        chunk_size == 0 || stride == 0 <==> r is Err,
        r matches Err(e) ==> e == RagError::ConfigMissingField,
        r matches Ok(windows) ==> is_windowing(
            windows@,
            texts(words@),
            chunk_size as nat,
            stride as nat,
        ),
{
    if chunk_size == 0 || stride == 0 {
        return Err(RagError::ConfigMissingField);
    }
    let n = words.len();
    let ghost all = texts(words@);
    let mut windows: Vec<Window> = Vec::new();
    let mut start: usize = 0;
    let mut k: usize = 0;
    proof {
        lemma_start_below_end(n as nat, stride as nat, 0);
    }
    while start < n
        invariant
            n == words@.len(),
            all == texts(words@),
            chunk_size > 0,
            stride > 0,
            k == windows@.len(),
            start < n ==> start == window_start(k as int, stride as nat),
            start < n <==> k < window_count(n as nat, stride as nat),
            k <= window_count(n as nat, stride as nat),
            start <= n,
            forall|j: int|
                0 <= j < k ==> (#[trigger] windows@[j]).index == j && windows@[j].content@
                    == window_text(all, chunk_size as nat, stride as nat, j),
        decreases n - start,
    {
        let end: usize = if chunk_size >= n - start {
            n
        } else {
            start + chunk_size
        };
        let content = join_range(words, start, end);
        windows.push(Window { index: k, content });
        proof {
            lemma_start_below_end(n as nat, stride as nat, k + 1);
            assert((k + 1) * stride == k * stride + stride) by (nonlinear_arith);
            lemma_window_count_counts_starts(n as nat, stride as nat);
        }
        k += 1;
        if stride >= n - start {
            start = n;
        } else {
            start += stride;
        }
    }
    Ok(windows)
}

/// Cuts `text` into windows of its whitespace-delimited words.
pub fn chunk(text: &str, chunk_size: usize, stride: usize) -> (r: Result<Vec<Window>, RagError>)
    ensures
        chunk_size == 0 || stride == 0 <==> r is Err,
        r matches Err(e) ==> e == RagError::ConfigMissingField,
        r matches Ok(windows) ==> is_windowing(
            windows@,
            words_of(text@),
            chunk_size as nat,
            stride as nat,
        ),
{
    let words = split_words(text);
    chunk_words(&words, chunk_size, stride)
}

} // verus!
