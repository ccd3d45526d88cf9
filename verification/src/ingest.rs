//! What ingestion decides and computes for one file of a source tree:
//! whether the file is taken, and the windows of its text.
use crate::chunker::{chunk, is_windowing, Window};
use crate::config::Config;
use crate::error::RagError;
use crate::text::{contains, has_substring, words_of};
use vstd::prelude::*;
use vstd::utf8::{decode_utf8, valid_utf8};

verus! {

/// A file is taken unless its path names version-control metadata or a
/// stored chunk, or its name that of an image or of a pickled or compiled
/// artifact.
pub open spec fn ingestible(path: Seq<char>, file_name: Seq<char>) -> bool {
    &&& !contains(path, ".git"@)
    &&& !contains(path, ".json"@)
    &&& !contains(file_name, ".jpg"@)
    &&& !contains(file_name, ".png"@)
    &&& !contains(file_name, ".pyc"@)
    &&& !contains(file_name, ".pkl"@)
}

/// Whether ingestion takes the file at `path`, whose last component is
/// `file_name`.
pub fn is_ingestible(path: &str, file_name: &str) -> (taken: bool)
    ensures
        taken == ingestible(path@, file_name@),
{
    !has_substring(path, ".git") && !has_substring(path, ".json") && !has_substring(
        file_name,
        ".jpg",
    ) && !has_substring(file_name, ".png") && !has_substring(file_name, ".pyc") && !has_substring(
        file_name,
        ".pkl",
    )
}

/// The text that `String::from_utf8_lossy` of std makes of `bytes`.
pub uninterp spec fn lossy_text(bytes: Seq<u8>) -> Seq<char>;

/// `String::from_utf8_lossy` of std: the text that `bytes` encode, with a
/// replacement character for what is no UTF-8; bytes that are UTF-8 give
/// the text they encode.
#[verifier::external_body]
fn decode_lossy(bytes: &[u8]) -> (text: String)
    ensures
        text@ == lossy_text(bytes@),
        valid_utf8(bytes@) ==> text@ == decode_utf8(bytes@),
{
    String::from_utf8_lossy(bytes).into_owned()
}

/// The windows of a file with the content `bytes`, read as text.
pub fn source_windows(bytes: &[u8], config: &Config) -> (r: Result<Vec<Window>, RagError>)
    ensures
        config.valid() <==> r is Ok,
        r matches Err(e) ==> e == RagError::ConfigMissingField,
        r matches Ok(windows) ==> is_windowing(
            windows@,
            words_of(lossy_text(bytes@)),
            config.chunk_size as nat,
            config.stride as nat,
        ),
        r matches Ok(windows) ==> valid_utf8(bytes@) ==> is_windowing(
            windows@,
            words_of(decode_utf8(bytes@)),
            config.chunk_size as nat,
            config.stride as nat,
        ),
{
    let text = decode_lossy(bytes);
    chunk(text.as_str(), config.chunk_size, config.stride)
}

/// The contents of `windows`, in order: the texts to embed.
pub fn window_texts(windows: &Vec<Window>) -> (contents: Vec<String>)
    ensures
        contents@.len() == windows@.len(),
        forall|k: int| 0 <= k < contents@.len() ==> #[trigger] contents@[k] == windows@[k].content,
{
    let mut contents: Vec<String> = Vec::new();
    let mut k: usize = 0;
    while k < windows.len()
        invariant
            k <= windows@.len(),
            contents@.len() == k,
            forall|j: int| 0 <= j < k ==> #[trigger] contents@[j] == windows@[j].content,
        decreases windows.len() - k,
    {
        contents.push(windows[k].content.clone());
        k += 1;
    }
    contents
}

} // verus!
