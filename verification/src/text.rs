//! Characters, words and the small string operations that the rest of the
//! library is built from, each stated over sequences of characters.
use vstd::prelude::*;
use vstd::std_specs::iter::IteratorSpec;

verus! {

/// The characters that separate words: those with the Unicode property
/// `White_Space`.
pub open spec fn is_space(c: char) -> bool {
    let n = c as u32;
    ||| 0x09 <= n <= 0x0D
    ||| n == 0x20
    ||| n == 0x85
    ||| n == 0xA0
    ||| n == 0x1680
    ||| 0x2000 <= n <= 0x200A
    ||| n == 0x2028
    ||| n == 0x2029
    ||| n == 0x202F
    ||| n == 0x205F
    ||| n == 0x3000
}

/// Whether `c` separates words.
pub fn is_whitespace(c: char) -> (b: bool)
    ensures
        b == is_space(c),
{
    let n: u32 = c as u32;
    (0x09 <= n && n <= 0x0D) || n == 0x20 || n == 0x85 || n == 0xA0 || n == 0x1680 || (0x2000 <= n
        && n <= 0x200A) || n == 0x2028 || n == 0x2029 || n == 0x202F || n == 0x205F || n == 0x3000
}

/// `String::push` of std: the string grows by the one character at its end.
#[verifier::external_body]
pub(crate) fn push_char(s: &mut String, c: char)
    ensures
        final(s)@ == old(s)@.push(c),
{
    s.push(c)
}

/// The characters of `s`, in order.
pub fn chars_of(s: &str) -> (v: Vec<char>)
    ensures
        v@ == s@,
{
    broadcast use vstd::string::group_string_axioms;

    let mut v: Vec<char> = Vec::new();
    let mut it = s.chars();
    loop
        invariant
            v@ + it.remaining() == s@,
        ensures
            v@ == s@,
        decreases s@.len() - v@.len(),
    {
        match it.next() {
            Some(c) => {
                v.push(c);
            },
            None => {
                break ;
            },
        }
    }
    v
}

/// What each string of `v` holds.
pub open spec fn texts(v: Seq<String>) -> Seq<Seq<char>> {
    Seq::new(v.len(), |i: int| v[i]@)
}

/// The words of `s`: its maximal runs of characters that are not
/// whitespace, from left to right. A character that is not whitespace
/// lengthens the word that the character before it belongs to, or begins a
/// word where there is no such character.
pub open spec fn words_of(s: Seq<char>) -> Seq<Seq<char>>
    decreases s.len(),
{
    if s.len() == 0 {
        Seq::empty()
    } else {
        let before = words_of(s.drop_last());
        if is_space(s.last()) {
            before
        } else if s.len() >= 2 && !is_space(s[s.len() - 2]) {
            before.drop_last().push(before.last().push(s.last()))
        } else {
            before.push(seq![s.last()])
        }
    }
}

/// `w` could be a word: it is not empty and holds no whitespace.
pub open spec fn is_word(w: Seq<char>) -> bool {
    w.len() > 0 && forall|j: int| 0 <= j < w.len() ==> !is_space(#[trigger] w[j])
}

/// Every word of a text is not empty and holds no whitespace, and a text
/// has at most as many words as characters.
pub proof fn lemma_words_are_words(s: Seq<char>)
    ensures
        forall|k: int| 0 <= k < words_of(s).len() ==> is_word(#[trigger] words_of(s)[k]),
        s.len() > 0 && !is_space(s.last()) ==> words_of(s).len() > 0,
        words_of(s).len() <= s.len(),
    decreases s.len(),
{
    if s.len() > 0 {
        let t = s.drop_last();
        lemma_words_are_words(t);
        let before = words_of(t);
        let after = words_of(s);
        if !is_space(s.last()) {
            if s.len() >= 2 && !is_space(s[s.len() - 2]) {
                let grown = before.last().push(s.last());
                assert forall|j: int| 0 <= j < grown.len() implies !is_space(
                    #[trigger] grown[j],
                ) by {}
            }
            assert forall|k: int| 0 <= k < after.len() implies is_word(#[trigger] after[k]) by {}
        }
    }
}

/// A word that follows a space is the last word of the text, after the
/// words of what stands before the space.
proof fn lemma_word_after_space(s: Seq<char>, w: Seq<char>)
    requires
        is_word(w),
    ensures
        words_of(s + seq![' '] + w) == words_of(s).push(w),
    decreases w.len(),
{
    let text = s + seq![' '] + w;
    let head = w.drop_last();
    assert(text.drop_last() =~= s + seq![' '] + head);
    if head.len() == 0 {
        let spaced = s + seq![' '];
        assert(spaced.drop_last() =~= s);
        assert(words_of(spaced) == words_of(s));
        assert(w =~= seq![w.last()]);
    } else {
        assert(is_word(head)) by {
            assert forall|j: int| 0 <= j < head.len() implies !is_space(#[trigger] head[j]) by {}
        }
        lemma_word_after_space(s, head);
        let before = words_of(s).push(head);
        assert(before.last().push(w.last()) =~= w);
    }
}

/// A word alone is the one word of its text.
proof fn lemma_word_alone(w: Seq<char>)
    requires
        is_word(w),
    ensures
        words_of(w) == seq![w],
    decreases w.len(),
{
    let head = w.drop_last();
    if head.len() == 0 {
        assert(words_of(head) =~= Seq::<Seq<char>>::empty());
        assert(w =~= seq![w.last()]);
    } else {
        assert(is_word(head)) by {
            assert forall|j: int| 0 <= j < head.len() implies !is_space(#[trigger] head[j]) by {}
        }
        lemma_word_alone(head);
        assert(head.push(w.last()) =~= w);
    }
}

/// Words joined by single spaces form a text with exactly these words.
pub proof fn lemma_words_of_joined(ws: Seq<Seq<char>>)
    requires
        forall|k: int| 0 <= k < ws.len() ==> is_word(#[trigger] ws[k]),
    ensures
        words_of(join_words(ws)) == ws,
    decreases ws.len(),
{
    if ws.len() == 1 {
        lemma_word_alone(ws[0]);
    } else if ws.len() > 1 {
        let head = ws.drop_last();
        assert forall|k: int| 0 <= k < head.len() implies is_word(#[trigger] head[k]) by {}
        lemma_words_of_joined(head);
        lemma_word_after_space(join_words(head), ws.last());
    }
}

/// The words of `text`, in order.
pub fn split_words(text: &str) -> (words: Vec<String>)
    ensures
        texts(words@) == words_of(text@),
{
    let chars = chars_of(text);
    let mut words: Vec<String> = Vec::new();
    let mut current = String::new();
    let mut in_word = false;
    let mut i: usize = 0;
    while i < chars.len()
        invariant
            i <= chars.len(),
            in_word <==> (i > 0 && !is_space(chars@[i - 1])),
            in_word ==> words_of(chars@.take(i as int)) == texts(words@).push(current@),
            !in_word ==> words_of(chars@.take(i as int)) == texts(words@) && current@.len() == 0,
        decreases chars.len() - i,
    {
        let c = chars[i];
        assert(chars@.take(i + 1).drop_last() =~= chars@.take(i as int));
        if is_whitespace(c) {
            if in_word {
                words.push(current);
                current = String::new();
                in_word = false;
            }
        } else {
            push_char(&mut current, c);
            assert(!in_word ==> current@ =~= seq![c]);
            in_word = true;
        }
        i += 1;
    }
    assert(chars@.take(i as int) =~= chars@);
    if in_word {
        words.push(current);
    }
    words
}

/// The words of `ws` with one space between each two neighbours.
pub open spec fn join_words(ws: Seq<Seq<char>>) -> Seq<char>
    decreases ws.len(),
{
    if ws.len() == 0 {
        Seq::empty()
    } else if ws.len() == 1 {
        ws[0]
    } else {
        join_words(ws.drop_last()) + seq![' '] + ws.last()
    }
}

/// The words `from..to` of `words`, joined by single spaces.
pub fn join_range(words: &Vec<String>, from: usize, to: usize) -> (joined: String)
    requires
        from <= to <= words@.len(),
    ensures
        joined@ == join_words(texts(words@).subrange(from as int, to as int)),
{
    let mut joined = String::new();
    let mut i: usize = from;
    while i < to
        invariant
            from <= i <= to <= words@.len(),
            joined@ == join_words(texts(words@).subrange(from as int, i as int)),
        decreases to - i,
    {
        assert(texts(words@).subrange(from as int, i + 1).drop_last() =~= texts(words@).subrange(
            from as int,
            i as int,
        ));
        if i > from {
            push_char(&mut joined, ' ');
        }
        joined.append(words[i].as_str());
        i += 1;
    }
    joined
}

/// How many characters at the end of `s` are whitespace.
pub open spec fn trailing_spaces(s: Seq<char>) -> nat
    decreases s.len(),
{
    if s.len() == 0 || !is_space(s.last()) {
        0
    } else {
        1 + trailing_spaces(s.drop_last())
    }
}

/// How many characters at the start of `s` are whitespace.
pub open spec fn leading_spaces(s: Seq<char>) -> nat
    decreases s.len(),
{
    if s.len() == 0 || !is_space(s.first()) {
        0
    } else {
        1 + leading_spaces(s.drop_first())
    }
}

/// `s` without the whitespace at its end.
pub open spec fn trimmed_end(s: Seq<char>) -> Seq<char> {
    s.take(s.len() - trailing_spaces(s))
}

/// `s` without the whitespace at its start and at its end.
pub open spec fn trimmed(s: Seq<char>) -> Seq<char> {
    trimmed_end(s).skip(leading_spaces(trimmed_end(s)) as int)
}

/// `s` ends with `suffix`.
pub open spec fn ends_with(s: Seq<char>, suffix: Seq<char>) -> bool {
    s.len() >= suffix.len() && s.skip(s.len() - suffix.len()) == suffix
}

/// `needle` occurs in `s`, at `at`.
pub open spec fn occurs_at(s: Seq<char>, needle: Seq<char>, at: int) -> bool {
    0 <= at && at + needle.len() <= s.len() && s.subrange(at, at + needle.len()) == needle
}

/// `needle` occurs somewhere in `s`.
pub open spec fn contains(s: Seq<char>, needle: Seq<char>) -> bool {
    exists|at: int| occurs_at(s, needle, at)
}

/// The whitespace at either end of a text is counted within the text.
pub proof fn lemma_spaces_within(s: Seq<char>)
    ensures
        trailing_spaces(s) <= s.len(),
        leading_spaces(s) <= s.len(),
    decreases s.len(),
{
    if s.len() > 0 {
        lemma_spaces_within(s.drop_last());
        lemma_spaces_within(s.drop_first());
    }
}

/// The characters `from..to` of `chars` as a string.
fn collect(chars: &Vec<char>, from: usize, to: usize) -> (s: String)
    requires
        from <= to <= chars@.len(),
    ensures
        s@ == chars@.subrange(from as int, to as int),
{
    let mut s = String::new();
    let mut i: usize = from;
    while i < to
        invariant
            from <= i <= to <= chars@.len(),
            s@ == chars@.subrange(from as int, i as int),
        decreases to - i,
    {
        push_char(&mut s, chars[i]);
        i += 1;
    }
    s
}

/// Where the whitespace at the end of `chars` begins.
fn end_of_text(chars: &Vec<char>) -> (end: usize)
    ensures
        end == chars@.len() - trailing_spaces(chars@),
{
    let mut end: usize = chars.len();
    proof {
        assert(chars@.take(end as int) =~= chars@);
        lemma_spaces_within(chars@);
    }
    while end > 0 && is_whitespace(chars[end - 1])
        invariant
            end <= chars@.len(),
            trailing_spaces(chars@) == (chars@.len() - end) + trailing_spaces(
                chars@.take(end as int),
            ),
        decreases end,
    {
        assert(chars@.take(end as int).drop_last() =~= chars@.take(end - 1));
        end -= 1;
    }
    end
}

/// `s` without the whitespace at its end.
pub fn trim_end(s: &str) -> (t: String)
    ensures
        t@ == trimmed_end(s@),
{
    let chars = chars_of(s);
    let end = end_of_text(&chars);
    collect(&chars, 0, end)
}

/// `s` without the whitespace at its start and at its end.
pub fn trim(s: &str) -> (t: String)
    ensures
        t@ == trimmed(s@),
{
    let chars = chars_of(s);
    let end = end_of_text(&chars);
    let ghost body = chars@.take(end as int);
    let mut start: usize = 0;
    proof {
        assert(body.skip(0) =~= body);
        lemma_spaces_within(body);
    }
    while start < end && is_whitespace(chars[start])
        invariant
            start <= end <= chars@.len(),
            body == chars@.take(end as int),
            leading_spaces(body) == start + leading_spaces(body.skip(start as int)),
        decreases end - start,
    {
        assert(body.skip(start as int).drop_first() =~= body.skip(start + 1));
        start += 1;
    }
    collect(&chars, start, end)
}

/// Whether `a` and `b` hold the same text.
pub fn same_text(a: &str, b: &str) -> (same: bool)
    ensures
        same == (a@ == b@),
{
    let x = chars_of(a);
    let y = chars_of(b);
    if x.len() != y.len() {
        return false;
    }
    let mut i: usize = 0;
    while i < x.len()
        invariant
            x@ == a@,
            y@ == b@,
            x@.len() == y@.len(),
            i <= x@.len(),
            x@.take(i as int) == y@.take(i as int),
        decreases x.len() - i,
    {
        if x[i] != y[i] {
            return false;
        }
        i += 1;
    }
    assert(x@.take(i as int) =~= x@);
    assert(y@.take(i as int) =~= y@);
    true
}

/// Whether `needle` stands in `chars` at `at`.
fn matches_at(chars: &Vec<char>, needle: &Vec<char>, at: usize) -> (found: bool)
    requires
        at + needle@.len() <= chars@.len(),
    ensures
        found == occurs_at(chars@, needle@, at as int),
{
    let mut i: usize = 0;
    while i < needle.len()
        invariant
            i <= needle@.len(),
            at + needle.len() <= chars.len(),
            chars@.subrange(at as int, at + i) == needle@.take(i as int),
        decreases needle.len() - i,
    {
        if chars[at + i] != needle[i] {
            return false;
        }
        i += 1;
    }
    assert(needle@.take(i as int) =~= needle@);
    true
}

/// Whether `s` ends with `suffix`.
pub fn has_suffix(s: &str, suffix: &str) -> (found: bool)
    ensures
        found == ends_with(s@, suffix@),
{
    let chars = chars_of(s);
    let tail = chars_of(suffix);
    if chars.len() < tail.len() {
        return false;
    }
    let at: usize = chars.len() - tail.len();
    matches_at(&chars, &tail, at)
}

/// Whether `needle` occurs somewhere in `s`.
pub fn has_substring(s: &str, needle: &str) -> (found: bool)
    ensures
        found == contains(s@, needle@),
{
    let chars = chars_of(s);
    let part = chars_of(needle);
    if chars.len() < part.len() {
        return false;
    }
    let last: usize = chars.len() - part.len();
    let mut at: usize = 0;
    loop
        invariant
            chars@ == s@,
            part@ == needle@,
            last == chars@.len() - part@.len(),
            at <= last,
            forall|k: int| 0 <= k < at ==> !occurs_at(chars@, part@, k),
        decreases last - at,
    {
        if matches_at(&chars, &part, at) {
            return true;
        }
        if at == last {
            return false;
        }
        at += 1;
    }
}

} // verus!
