//! Chunk records and where they are kept: the identifier of a chunk, the
//! layout of a dataset below the application's data root, and the records
//! made from the windows of one source.
use crate::chunker::Window;
use crate::error::RagError;
use crate::text::{chars_of, push_char, same_text};
use vstd::prelude::*;

verus! {

/// One unit of indexed text: a window of a source, its embedding, and the
/// path of the source where that is known.
#[derive(Debug, PartialEq)]
pub struct ChunkRecord<E> {
    pub chunk_id: String,
    pub content: String,
    pub embedding: Vec<E>,
    pub source_path: Option<String>,
}

/// The decimal digit for `d`.
pub open spec fn digit_char(d: int) -> char {
    if d == 0 {
        '0'
    } else if d == 1 {
        '1'
    } else if d == 2 {
        '2'
    } else if d == 3 {
        '3'
    } else if d == 4 {
        '4'
    } else if d == 5 {
        '5'
    } else if d == 6 {
        '6'
    } else if d == 7 {
        '7'
    } else if d == 8 {
        '8'
    } else {
        '9'
    }
}

/// `n` in decimal, without leading zeros.
pub open spec fn decimal(n: nat) -> Seq<char>
    decreases n,
{
    if n < 10 {
        seq![digit_char(n as int)]
    } else {
        decimal(n / 10).push(digit_char((n % 10) as int))
    }
}

/// `n` in decimal, with zeros in front of it where it has fewer than
/// `width` digits.
pub open spec fn zero_padded(n: nat, width: nat) -> Seq<char> {
    if decimal(n).len() >= width {
        decimal(n)
    } else {
        Seq::new((width - decimal(n).len()) as nat, |i: int| '0') + decimal(n)
    }
}

/// The identifier of the chunk with the ordinal `ordinal` among the chunks
/// of its source: `chunk_` and the ordinal in at least three digits.
pub open spec fn chunk_id_text(ordinal: nat) -> Seq<char> {
    "chunk_"@ + zero_padded(ordinal, 3)
}

/// The value of the decimal digit `c`; 0 for a character that is none.
pub open spec fn digit_value(c: char) -> nat {
    if c == '1' {
        1
    } else if c == '2' {
        2
    } else if c == '3' {
        3
    } else if c == '4' {
        4
    } else if c == '5' {
        5
    } else if c == '6' {
        6
    } else if c == '7' {
        7
    } else if c == '8' {
        8
    } else if c == '9' {
        9
    } else {
        0
    }
}

/// The number that the decimal digits `s` write.
pub open spec fn number_of(s: Seq<char>) -> nat
    decreases s.len(),
{
    if s.len() == 0 {
        0
    } else {
        number_of(s.drop_last()) * 10 + digit_value(s.last())
    }
}

/// The digits of a number write that number.
pub proof fn lemma_number_of_decimal(n: nat)
    ensures
        number_of(decimal(n)) == n,
    decreases n,
{
    if n < 10 {
        assert(number_of(seq![digit_char(n as int)].drop_last()) == 0);
    } else {
        lemma_number_of_decimal(n / 10);
        let d = decimal(n / 10).push(digit_char((n % 10) as int));
        assert(d.drop_last() =~= decimal(n / 10));
    }
}

/// Zeros in front of digits do not change the number.
proof fn lemma_number_of_padded(zeros: nat, digits: Seq<char>)
    ensures
        number_of(Seq::new(zeros, |i: int| '0') + digits) == number_of(digits),
    decreases digits.len(), zeros,
{
    let padding = Seq::new(zeros, |i: int| '0');
    let all = padding + digits;
    if digits.len() > 0 {
        assert(all.drop_last() =~= padding + digits.drop_last());
        lemma_number_of_padded(zeros, digits.drop_last());
    } else if zeros > 0 {
        assert(all.drop_last() =~= Seq::new((zeros - 1) as nat, |i: int| '0') + digits);
        lemma_number_of_padded((zeros - 1) as nat, digits);
    }
}

/// The identifier of a chunk names its ordinal: the digits after `chunk_`
/// write it, so two ordinals never share an identifier.
pub proof fn lemma_chunk_id_names_ordinal(ordinal: nat)
    ensures
        chunk_id_text(ordinal).len() >= "chunk_"@.len() + 3,
        chunk_id_text(ordinal).take("chunk_"@.len() as int) == "chunk_"@,
        number_of(chunk_id_text(ordinal).skip("chunk_"@.len() as int)) == ordinal,
        forall|other: nat| chunk_id_text(other) == chunk_id_text(ordinal) ==> other == ordinal,
{
    lemma_chunk_id_digits(ordinal);
    assert forall|other: nat| chunk_id_text(other) == chunk_id_text(ordinal) implies other
        == ordinal by {
        lemma_chunk_id_digits(other);
    }
}

proof fn lemma_chunk_id_digits(ordinal: nat)
    ensures
        chunk_id_text(ordinal).len() >= "chunk_"@.len() + 3,
        chunk_id_text(ordinal).take("chunk_"@.len() as int) == "chunk_"@,
        number_of(chunk_id_text(ordinal).skip("chunk_"@.len() as int)) == ordinal,
{
    let prefix = "chunk_"@;
    let digits = zero_padded(ordinal, 3);
    assert((prefix + digits).skip(prefix.len() as int) =~= digits);
    lemma_number_of_decimal(ordinal);
    if decimal(ordinal).len() < 3 {
        lemma_number_of_padded((3 - decimal(ordinal).len()) as nat, decimal(ordinal));
    }
}

/// The digits of `rest` where `rest` is not 0, nothing where it is: what
/// stands in front of the last digit of a number ten times as large.
spec fn leading_digits(rest: nat) -> Seq<char> {
    if rest == 0 {
        Seq::empty()
    } else {
        decimal(rest)
    }
}

fn digit(d: usize) -> (c: char)
    requires
        d < 10,
    ensures
        c == digit_char(d as int),
{
    if d == 0 {
        '0'
    } else if d == 1 {
        '1'
    } else if d == 2 {
        '2'
    } else if d == 3 {
        '3'
    } else if d == 4 {
        '4'
    } else if d == 5 {
        '5'
    } else if d == 6 {
        '6'
    } else if d == 7 {
        '7'
    } else if d == 8 {
        '8'
    } else {
        '9'
    }
}

/// The identifier of the chunk with the ordinal `ordinal`.
pub fn chunk_id(ordinal: usize) -> (id: String)
    ensures
        id@ == chunk_id_text(ordinal as nat),
{
    // The digits, the last one first.
    let mut digits: Vec<char> = Vec::new();
    digits.push(digit(ordinal % 10));
    let mut rest: usize = ordinal / 10;
    while rest > 0
        invariant
            digits@.len() >= 1,
            decimal(ordinal as nat) == leading_digits(rest as nat) + digits@.reverse(),
        decreases rest,
    {
        digits.push(digit(rest % 10));
        rest = rest / 10;
    }
    let mut id = String::from_str("chunk_");
    let mut width: usize = digits.len();
    while width < 3
        invariant
            digits@.len() <= width,
            digits@.len() >= 3 ==> width == digits@.len(),
            digits@.len() < 3 ==> width <= 3,
            id@ == "chunk_"@ + Seq::new((width - digits@.len()) as nat, |i: int| '0'),
        decreases 3 - width,
    {
        push_char(&mut id, '0');
        width += 1;
    }
    let ghost padding = id@;
    let mut i: usize = digits.len();
    while i > 0
        invariant
            i <= digits@.len(),
            id@ == padding + digits@.reverse().take(digits@.len() - i),
        decreases i,
    {
        i -= 1;
        push_char(&mut id, digits[i]);
    }
    id
}

/// The directory of a dataset, relative to the application's data root.
pub open spec fn dataset_dir_text(dataset: Seq<char>) -> Seq<char> {
    "data/"@ + dataset
}

/// The directory that holds the chunks of one source of a dataset.
pub open spec fn source_dir_text(dataset: Seq<char>, source: Seq<char>) -> Seq<char> {
    dataset_dir_text(dataset) + "/"@ + source
}

/// The file that holds the chunk with the identifier `id` of a source.
pub open spec fn unit_path_text(dataset: Seq<char>, source: Seq<char>, id: Seq<char>) -> Seq<
    char,
> {
    source_dir_text(dataset, source) + "/"@ + id + ".json"@
}

/// The file that holds the chunk with the ordinal `ordinal` of a source.
pub open spec fn chunk_path_text(dataset: Seq<char>, source: Seq<char>, ordinal: nat) -> Seq<
    char,
> {
    unit_path_text(dataset, source, chunk_id_text(ordinal))
}

/// The file that holds the stored prompt of an indirection.
pub open spec fn indirection_path_text(name: Seq<char>) -> Seq<char> {
    "dynamic/"@ + name
}

/// The chunks of one source are kept apart: two ordinals never share a
/// file.
pub proof fn lemma_chunk_paths_are_distinct(
    dataset: Seq<char>,
    source: Seq<char>,
    first: nat,
    second: nat,
)
    requires
        first != second,
    ensures
        chunk_path_text(dataset, source, first) != chunk_path_text(dataset, source, second),
{
    let dir = source_dir_text(dataset, source) + "/"@;
    let a = chunk_id_text(first);
    let b = chunk_id_text(second);
    lemma_chunk_id_names_ordinal(first);
    if chunk_path_text(dataset, source, first) == chunk_path_text(dataset, source, second) {
        // Without the directory in front and `.json` behind, the
        // identifiers remain.
        assert((dir + a + ".json"@).skip(dir.len() as int) =~= a + ".json"@);
        assert((dir + b + ".json"@).skip(dir.len() as int) =~= b + ".json"@);
        assert((a + ".json"@).take(a.len() as int) =~= a);
        assert((b + ".json"@).take(b.len() as int) =~= b);
        assert(a == b);
    }
}

/// The name of the file that holds the chunk with the ordinal `ordinal`.
pub open spec fn unit_name_text(ordinal: nat) -> Seq<char> {
    chunk_id_text(ordinal) + ".json"@
}

/// The digits at the beginning of a number write no more than the number.
proof fn lemma_number_of_prefix(s: Seq<char>, i: int)
    requires
        0 <= i <= s.len(),
    ensures
        number_of(s.take(i)) <= number_of(s),
    decreases s.len(),
{
    if i == s.len() {
        assert(s.take(i) =~= s);
    } else {
        lemma_number_of_prefix(s.drop_last(), i);
        assert(s.drop_last().take(i) =~= s.take(i));
    }
}

/// Between `chunk_` and `.json`, the name of a unit holds the digits that
/// write its ordinal.
proof fn lemma_unit_name_digits(ordinal: nat)
    ensures
        unit_name_text(ordinal).len() >= 14,
        number_of(unit_name_text(ordinal).subrange(6, unit_name_text(ordinal).len() - 5))
            == ordinal,
{
    reveal_strlit("chunk_");
    reveal_strlit(".json");
    lemma_chunk_id_names_ordinal(ordinal);
    let id = chunk_id_text(ordinal);
    let name = unit_name_text(ordinal);
    assert(name.subrange(6, name.len() - 5) =~= id.skip(6));
}

fn digit_value_of(c: char) -> (d: usize)
    ensures
        d == digit_value(c),
        d <= 9,
{
    if c == '1' {
        1
    } else if c == '2' {
        2
    } else if c == '3' {
        3
    } else if c == '4' {
        4
    } else if c == '5' {
        5
    } else if c == '6' {
        6
    } else if c == '7' {
        7
    } else if c == '8' {
        8
    } else if c == '9' {
        9
    } else {
        0
    }
}

/// The ordinal of the chunk that the file named `file_name` holds: the
/// order of the units of one source is that of their ordinals. `None` for
/// a name that is not the name of a unit.
pub fn unit_ordinal(file_name: &str) -> (n: Option<usize>)
    ensures
        match n {
            Some(k) => file_name@ == unit_name_text(k as nat),
            None => forall|k: nat| k <= usize::MAX ==> file_name@ != #[trigger] unit_name_text(k),
        },
{
    let chars = chars_of(file_name);
    if chars.len() < 14 {
        proof {
            assert forall|k: nat| k <= usize::MAX implies file_name@ != #[trigger] unit_name_text(
                k,
            ) by {
                lemma_unit_name_digits(k);
            }
        }
        return None;
    }
    let end: usize = chars.len() - 5;
    let ghost digits = chars@.subrange(6, end as int);
    let mut value: usize = 0;
    let mut i: usize = 6;
    while i < end
        invariant
            6 <= i <= end,
            end == chars.len() - 5,
            digits == chars@.subrange(6, end as int),
            chars@ == file_name@,
            value == number_of(digits.take(i - 6)),
        decreases end - i,
    {
        let d = digit_value_of(chars[i]);
        assert(digits.take(i + 1 - 6).drop_last() =~= digits.take(i - 6));
        if value > (usize::MAX - d) / 10 {
            proof {
                lemma_number_of_prefix(digits, i + 1 - 6);
                assert forall|k: nat| k <= usize::MAX implies file_name@
                    != #[trigger] unit_name_text(k) by {
                    lemma_unit_name_digits(k);
                }
            }
            return None;
        }
        value = value * 10 + d;
        i += 1;
    }
    assert(digits.take(end - 6) =~= digits);
    let name = chunk_id(value).concat(".json");
    if same_text(name.as_str(), file_name) {
        Some(value)
    } else {
        proof {
            assert forall|k: nat| k <= usize::MAX implies file_name@ != #[trigger] unit_name_text(
                k,
            ) by {
                lemma_unit_name_digits(k);
            }
        }
        None
    }
}

/// The directory of the dataset `dataset`, relative to the data root.
pub fn dataset_dir(dataset: &str) -> (path: String)
    ensures
        path@ == dataset_dir_text(dataset@),
{
    String::from_str("data/").concat(dataset)
}

/// The directory for the chunks of the source `source` of `dataset`,
/// relative to the data root.
pub fn source_dir(dataset: &str, source: &str) -> (path: String)
    ensures
        path@ == source_dir_text(dataset@, source@),
{
    dataset_dir(dataset).concat("/").concat(source)
}

/// The file for the chunk with the ordinal `ordinal` of the source
/// `source` of `dataset`, relative to the data root.
pub fn chunk_path(dataset: &str, source: &str, ordinal: usize) -> (path: String)
    ensures
        path@ == chunk_path_text(dataset@, source@, ordinal as nat),
{
    let id = chunk_id(ordinal);
    source_dir(dataset, source).concat("/").concat(id.as_str()).concat(".json")
}

/// The file in which `record` is stored as a chunk of the source `source`
/// of `dataset`, relative to the data root: the file of its identifier.
pub fn unit_path<E>(dataset: &str, source: &str, record: &ChunkRecord<E>) -> (path: String)
    ensures
        path@ == unit_path_text(dataset@, source@, record.chunk_id@),
{
    source_dir(dataset, source).concat("/").concat(record.chunk_id.as_str()).concat(".json")
}

/// The records of the windows of a source are stored each in the file of
/// its window's ordinal, so no two of them in one file.
pub proof fn lemma_records_are_stored_apart<E>(
    dataset: Seq<char>,
    source: Seq<char>,
    records: Seq<ChunkRecord<E>>,
    windows: Seq<Window>,
    embeddings: Seq<Vec<E>>,
    source_path: Option<String>,
)
    requires
        records_of(records, windows, embeddings, source_path),
        forall|k: int| 0 <= k < windows.len() ==> (#[trigger] windows[k]).index == k,
    ensures
        forall|k: int|
            0 <= k < records.len() ==> unit_path_text(dataset, source, (#[trigger] records[k]).chunk_id@)
                == chunk_path_text(dataset, source, k as nat),
        forall|j: int, k: int|
            0 <= j < k < records.len() ==> unit_path_text(
                dataset,
                source,
                (#[trigger] records[j]).chunk_id@,
            ) != unit_path_text(dataset, source, (#[trigger] records[k]).chunk_id@),
{
    assert forall|j: int, k: int| 0 <= j < k < records.len() implies unit_path_text(
        dataset,
        source,
        (#[trigger] records[j]).chunk_id@,
    ) != unit_path_text(dataset, source, (#[trigger] records[k]).chunk_id@) by {
        lemma_chunk_paths_are_distinct(dataset, source, j as nat, k as nat);
    }
}

/// The file for the stored prompt of the indirection `name`, relative to
/// the data root.
pub fn indirection_path(name: &str) -> (path: String)
    ensures
        path@ == indirection_path_text(name@),
{
    String::from_str("dynamic/").concat(name)
}

/// `records` are the records of the windows `windows` of one source, each
/// with the embedding at its place in `embeddings`.
pub open spec fn records_of<E>(
    records: Seq<ChunkRecord<E>>,
    windows: Seq<Window>,
    embeddings: Seq<Vec<E>>,
    source_path: Option<String>,
) -> bool {
    &&& records.len() == windows.len()
    &&& forall|k: int|
        0 <= k < records.len() ==> {
            &&& (#[trigger] records[k]).chunk_id@ == chunk_id_text(windows[k].index as nat)
            &&& records[k].content == windows[k].content
            &&& records[k].embedding == embeddings[k]
            &&& records[k].source_path == source_path
        }
}

/// Makes the record of every window, with the embedding that the embedder
/// gave for it. An embedder that did not answer with one vector for each
/// window has failed.
pub fn build_records<E>(
    windows: Vec<Window>,
    embeddings: Vec<Vec<E>>,
    source_path: &Option<String>,
) -> (r: Result<Vec<ChunkRecord<E>>, RagError>)
    ensures
        windows@.len() == embeddings@.len() <==> r is Ok,
        r matches Err(e) ==> e == RagError::EmbeddingFailure,
        r matches Ok(records) ==> records_of(records@, windows@, embeddings@, *source_path),
{
    if windows.len() != embeddings.len() {
        return Err(RagError::EmbeddingFailure);
    }
    let ghost all_windows = windows@;
    let ghost all_embeddings = embeddings@;
    let mut windows = windows;
    let mut embeddings = embeddings;
    // The records, the last one first.
    let mut reversed: Vec<ChunkRecord<E>> = Vec::new();
    while windows.len() > 0
        invariant
            windows@.len() == embeddings@.len(),
            windows@ == all_windows.take(windows@.len() as int),
            embeddings@ == all_embeddings.take(embeddings@.len() as int),
            all_windows.len() == all_embeddings.len(),
            reversed@.len() + windows@.len() == all_windows.len(),
            forall|j: int|
                0 <= j < reversed@.len() ==> {
                    let k = all_windows.len() - 1 - j;
                    &&& (#[trigger] reversed@[j]).chunk_id@ == chunk_id_text(
                        all_windows[k].index as nat,
                    )
                    &&& reversed@[j].content == all_windows[k].content
                    &&& reversed@[j].embedding == all_embeddings[k]
                    &&& reversed@[j].source_path == *source_path
                },
        decreases windows@.len(),
    {
        let window = windows.pop().unwrap();
        let embedding = embeddings.pop().unwrap();
        let source_path = match source_path {
            Some(path) => Some(path.clone()),
            None => None,
        };
        reversed.push(
            ChunkRecord {
                chunk_id: chunk_id(window.index),
                content: window.content,
                embedding,
                source_path,
            },
        );
    }
    let ghost all_reversed = reversed@;
    let mut records: Vec<ChunkRecord<E>> = Vec::new();
    while reversed.len() > 0
        invariant
            reversed@ == all_reversed.take(reversed@.len() as int),
            records@.len() + reversed@.len() == all_reversed.len(),
            forall|k: int|
                0 <= k < records@.len() ==> #[trigger] records@[k] == all_reversed[all_reversed.len()
                    - 1 - k],
        decreases reversed@.len(),
    {
        let record = reversed.pop().unwrap();
        records.push(record);
    }
    Ok(records)
}

/// `serde_json::Value`, a parsed JSON value, known here by what is written
/// of it.
#[verifier::external_type_specification]
#[verifier::external_body]
pub struct ExJsonValue(serde_json::Value);

/// `serde_json::Error`, why a text is no JSON; it is carried, never looked
/// into.
#[verifier::external_type_specification]
#[verifier::external_body]
pub struct ExJsonError(serde_json::Error);

/// What `serde_json::from_str` reads from `text`, by its written form: the
/// text that `serde_json::to_string` writes of the value that `text` holds,
/// or `None` where `text` holds no JSON value.
pub uninterp spec fn written_json(text: Seq<char>) -> Option<Seq<char>>;

/// What `serde_json::to_string` writes of `value`.
pub uninterp spec fn json_text(value: serde_json::Value) -> Seq<char>;

/// `text` holds one JSON value.
pub open spec fn is_json_document(text: Seq<char>) -> bool {
    written_json(text) is Some
}

/// `serde_json::from_str` at `serde_json::Value`: the JSON value that
/// `text` holds, or why it holds none. The claim is that both depend on the
/// text alone: whether there is a value, and what is written of it.
#[verifier::external_body]
fn parse_json(text: &str) -> (r: Result<serde_json::Value, serde_json::Error>)
    ensures
        match r {
            Ok(value) => written_json(text@) == Some(json_text(value)),
            Err(_) => written_json(text@) is None,
        },
{
    serde_json::from_str::<serde_json::Value>(text)
}

/// `items` with a comma between each two neighbours.
pub open spec fn comma_joined(items: Seq<Seq<char>>) -> Seq<char>
    decreases items.len(),
{
    if items.len() == 0 {
        Seq::empty()
    } else if items.len() == 1 {
        items[0]
    } else {
        comma_joined(items.drop_last()) + seq![','] + items.last()
    }
}

/// The JSON array of `items`, each a written JSON value: the items in
/// square brackets, with commas and nothing else between them.
pub open spec fn json_array_text(items: Seq<Seq<char>>) -> Seq<char> {
    seq!['['] + comma_joined(items) + seq![']']
}

/// `serde_json::to_string` of a list of values. Of values the writer never
/// fails, and it writes `[`, what it writes of each value with `,` between
/// them, and `]`.
#[verifier::external_body]
fn json_array(documents: &Vec<serde_json::Value>) -> (r: Result<String, serde_json::Error>)
    ensures
        r is Ok,
        r matches Ok(array) ==> array@ == json_array_text(
            Seq::new(documents@.len(), |k: int| json_text(documents@[k])),
        ),
{
    serde_json::to_string(documents)
}

/// Every text of `texts` is a JSON document.
pub open spec fn all_json(texts: Seq<String>) -> bool {
    forall|k: int| 0 <= k < texts.len() ==> is_json_document((#[trigger] texts[k])@)
}

/// The written form of the JSON value that each text of `texts` holds.
pub open spec fn written_forms(texts: Seq<String>) -> Seq<Seq<char>> {
    Seq::new(texts.len(), |k: int| written_json(texts[k]@)->Some_0)
}

/// The stored units of a dataset as one JSON array: the value of every
/// unit, in the order of `texts`, none left out and none twice. A unit that
/// is no JSON is a corrupt record.
pub fn merge_documents(texts: &Vec<String>) -> (r: Result<String, RagError>)
    ensures
        all_json(texts@) <==> r is Ok,
        r matches Err(e) ==> e == RagError::CorruptRecord,
        r matches Ok(merged) ==> merged@ == json_array_text(written_forms(texts@)),
{
    let mut documents: Vec<serde_json::Value> = Vec::new();
    let mut k: usize = 0;
    while k < texts.len()
        invariant
            k <= texts@.len(),
            documents@.len() == k,
            forall|j: int|
                0 <= j < k ==> written_json((#[trigger] texts@[j])@) == Some(
                    json_text(documents@[j]),
                ),
        decreases texts.len() - k,
    {
        match parse_json(texts[k].as_str()) {
            Ok(document) => documents.push(document),
            Err(_) => {
                return Err(RagError::CorruptRecord);
            },
        }
        k += 1;
    }
    assert(Seq::new(documents@.len(), |k: int| json_text(documents@[k])) =~= written_forms(
        texts@,
    ));
    match json_array(&documents) {
        Ok(merged) => Ok(merged),
        Err(_) => Err(RagError::CorruptRecord),
    }
}

} // verus!
