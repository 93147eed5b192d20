//! Splitting an artist credit such as "A feat. B" into the artists it names.

use vstd::prelude::*;

verus! {

#[verifier::external_type_specification]
#[verifier::external_body]
pub struct ExRegex(regex::Regex);

#[verifier::external_type_specification]
#[verifier::external_body]
pub struct ExRegexError(regex::Error);

/// Whether `regex::Regex::new` accepts a pattern.
pub uninterp spec fn regex_compiles(pattern: Seq<char>) -> bool;

/// The pieces `regex::Regex::split` cuts a haystack into, for a regex
/// compiled from `pattern`.
pub uninterp spec fn regex_split(pattern: Seq<char>, haystack: Seq<char>) -> Seq<Seq<char>>;

/// `c` is white space in the sense of Unicode's `White_Space` property,
/// which is what `\s` matches in a Unicode regex.
pub open spec fn is_space(c: char) -> bool {
    let n = c as u32;
    ||| 9 <= n <= 13
    ||| n == 32
    ||| n == 0x85
    ||| n == 0xa0
    ||| n == 0x1680
    ||| 0x2000 <= n <= 0x200a
    ||| n == 0x2028
    ||| n == 0x2029
    ||| n == 0x202f
    ||| n == 0x205f
    ||| n == 0x3000
}

/// `c` is the lower-case pattern character `p`, or its ASCII capital.
pub open spec fn same_letter(c: char, p: char) -> bool {
    c == p || (97 <= (p as u32) <= 122 && (c as u32) + 32 == (p as u32))
}

/// The words that separate artists, each between two white space
/// characters, in the order they are tried: "feat." "feat" "ft." "ft"
/// "featuring" "with" "&" "and" "x".
pub open spec fn separator_words() -> Seq<Seq<char>> {
    seq![
        seq!['f', 'e', 'a', 't', '.'],
        seq!['f', 'e', 'a', 't'],
        seq!['f', 't', '.'],
        seq!['f', 't'],
        seq!['f', 'e', 'a', 't', 'u', 'r', 'i', 'n', 'g'],
        seq!['w', 'i', 't', 'h'],
        seq!['&'],
        seq!['a', 'n', 'd'],
        seq!['x'],
    ]
}

/// `text` holds `word` from `at` on, its letters in either case.
pub open spec fn word_at(text: Seq<char>, at: int, word: Seq<char>) -> bool {
    &&& 0 <= at
    &&& at + word.len() <= text.len()
    &&& forall|k: int| 0 <= k < word.len() ==> same_letter(#[trigger] text[at + k], word[k])
}

/// After the white space at `at`, the length of the first separator word,
/// trying them from the `k`-th on, that stands there followed by white
/// space.
pub open spec fn separator_word_from(text: Seq<char>, at: int, k: nat) -> Option<nat>
    decreases separator_words().len() - k,
{
    if k >= separator_words().len() {
        None
    } else {
        let w = separator_words()[k as int];
        if word_at(text, at + 1, w) && at + 1 + w.len() < text.len() && is_space(
            text[at + 1 + w.len()],
        ) {
            Some(w.len())
        } else {
            separator_word_from(text, at, k + 1)
        }
    }
}

/// A separator begins at `at`: white space, a separator word, white space.
/// The length of its word.
pub open spec fn separator_at(text: Seq<char>, at: int) -> Option<nat> {
    if 0 <= at < text.len() && is_space(text[at]) {
        separator_word_from(text, at, 0)
    } else {
        None
    }
}

/// The pieces of `text` from the one that began at `start`, the search for
/// the next separator having come to `pos`: a separator ends the piece
/// there, and the search goes on after it.
pub open spec fn split_from(text: Seq<char>, start: int, pos: int) -> Seq<Seq<char>>
    decreases text.len() - pos,
{
    if pos < text.len() {
        match separator_at(text, pos) {
            Some(l) => {
                let end = pos + l + 2;
                if pos < end <= text.len() {
                    seq![text.subrange(start, pos)] + split_from(text, end, end)
                } else {
                    seq![text.subrange(start, text.len() as int)]
                }
            },
            None => split_from(text, start, pos + 1),
        }
    } else {
        seq![text.subrange(start, text.len() as int)]
    }
}

/// `text` cut at every separator, the leftmost first, each search going on
/// after the separator found: the pieces between separators, the first and
/// last ones included, empty or not.
pub open spec fn separator_split(text: Seq<char>) -> Seq<Seq<char>> {
    split_from(text, 0, 0)
}

/// No separator begins anywhere in `text`.
pub open spec fn no_separator(text: Seq<char>) -> bool {
    forall|i: int| #[trigger] separator_at(text, i) is None
}

/// A compiled regular expression together with the pattern it came from.
pub struct Pattern {
    regex: regex::Regex,
    source: Ghost<Seq<char>>,
}

impl Pattern {
    /// The pattern this regular expression was compiled from.
    pub closed spec fn source(&self) -> Seq<char> {
        self.source@
    }
}

/// Calls `regex::Regex::new`. Whether it succeeds depends on the pattern
/// alone (its syntax and the default size limit) and is named
/// [`regex_compiles`]; the compiled regex is kept with its pattern. The
/// artist separator pattern is valid regex syntax, far within the size
/// limit, so it compiles.
#[verifier::external_body]
fn compile(pattern: &str) -> (res: Result<Pattern, regex::Error>)
    ensures
        res is Ok <==> regex_compiles(pattern@),
        res matches Ok(p) ==> p.source() == pattern@,
        pattern@ == r"(?i)\s(feat\.?|ft\.?|featuring|with|&|and|x)\s"@ ==> res is Ok,
{
    match regex::Regex::new(pattern) {
        Ok(regex) => Ok(Pattern { regex, source: Ghost(pattern@) }),
        Err(e) => Err(e),
    }
}

/// Calls `regex::Regex::split` and collects the pieces. They depend on the
/// pattern and the haystack alone and are named [`regex_split`]. For the
/// artist separator pattern they are [`separator_split`] of the haystack:
/// `Regex::split` yields the text between successive matches of its
/// leftmost-first, non-overlapping search, which resumes where the last
/// match ended; that pattern matches a `\s` character (Unicode
/// `White_Space`, [`is_space`]), one of its alternatives tried in order
/// with `\.?` taking the dot when it can, each letter in either case
/// (the Unicode simple case folding of these letters is their ASCII
/// capital), and another `\s` character.
#[verifier::external_body]
fn split<'h>(pattern: &Pattern, haystack: &'h str) -> (pieces: Vec<&'h str>)
    ensures
        pieces@.map_values(|p: &str| p@) == regex_split(pattern.source(), haystack@),
        pattern.source() == r"(?i)\s(feat\.?|ft\.?|featuring|with|&|and|x)\s"@ ==> pieces@.map_values(
            |p: &str| p@,
        ) == separator_split(haystack@),
{
    pattern.regex.split(haystack).collect()
}

/// The separator between artists of a credit: " feat. ", " ft. ",
/// " featuring ", " with ", " & ", " and " or " x ", in any letter case, the
/// dots optional, between single whitespace characters.
pub open spec fn artist_separator() -> Seq<char> {
    r"(?i)\s(feat\.?|ft\.?|featuring|with|&|and|x)\s"@
}

/// The separator pattern failed to compile.
#[derive(Clone, Copy, Debug, PartialEq, Eq, Structural)]
pub struct PatternError;

/// Splits an artist credit at every artist separator.
pub fn parse_artists<'a>(text: &'a str) -> (res: Result<Vec<&'a str>, PatternError>)
    ensures
        res is Ok <==> regex_compiles(artist_separator()),
        res matches Ok(artists) ==> artists@.map_values(|p: &str| p@) == regex_split(
            artist_separator(),
            text@,
        ),
        res is Ok,
        res matches Ok(artists) ==> artists@.map_values(|p: &str| p@) == separator_split(text@),
{
    let separator = match compile(r"(?i)\s(feat\.?|ft\.?|featuring|with|&|and|x)\s") {
        Ok(p) => p,
        Err(_) => return Err(PatternError),
    };
    Ok(split(&separator, text))
}


proof fn split_skips(text: Seq<char>, start: int, pos: int, q: int)
    requires
        0 <= pos <= q <= text.len(),
        forall|p: int| pos <= p < q ==> #[trigger] separator_at(text, p) is None,
    ensures
        split_from(text, start, pos) == split_from(text, start, q),
    decreases q - pos,
{
    if pos < q {
        assert(separator_at(text, pos) is None);
        split_skips(text, start, pos + 1, q);
    }
}

proof fn split_at_end(text: Seq<char>, start: int)
    ensures
        split_from(text, start, text.len() as int) == seq![text.subrange(start, text.len() as int)],
{
}

proof fn word_from_in_prefix(text: Seq<char>, head: Seq<char>, at: int, k: nat)
    requires
        1 <= head.len() <= text.len(),
        head == text.subrange(0, head.len() as int),
        is_space(head.last()),
        0 <= at < head.len() - 1,
    ensures
        separator_word_from(text, at, k) == separator_word_from(head, at, k),
    decreases separator_words().len() - k,
{
    if k < separator_words().len() {
        let w = separator_words()[k as int];
        let end = at + 1 + w.len();
        assert forall|c: int| 0 <= c < w.len() implies !is_space(w[c]) && !same_letter(
            head.last(),
            w[c],
        ) by {
            assert(separator_words()[0] == seq!['f', 'e', 'a', 't', '.']);
        }
        if word_at(text, at + 1, w) && end < text.len() && is_space(text[end]) {
            if end >= head.len() {
                let c = head.len() - 1 - (at + 1);
                assert(same_letter(text[at + 1 + c], w[c]));
                assert(text[head.len() - 1] == head.last());
            } else {
                assert forall|c: int| 0 <= c < w.len() implies same_letter(
                    #[trigger] head[at + 1 + c],
                    w[c],
                ) by {
                    assert(same_letter(text[at + 1 + c], w[c]));
                }
                assert(head[end] == text[end]);
            }
        }
        if word_at(head, at + 1, w) && end < head.len() && is_space(head[end]) {
            assert forall|c: int| 0 <= c < w.len() implies same_letter(
                #[trigger] text[at + 1 + c],
                w[c],
            ) by {
                assert(same_letter(head[at + 1 + c], w[c]));
            }
            assert(head[end] == text[end]);
        }
        word_from_in_prefix(text, head, at, k + 1);
    }
}

proof fn separator_in_prefix(text: Seq<char>, head: Seq<char>, at: int)
    requires
        1 <= head.len() <= text.len(),
        head == text.subrange(0, head.len() as int),
        is_space(head.last()),
        0 <= at < head.len() - 1,
    ensures
        separator_at(text, at) == separator_at(head, at),
{
    assert(head[at] == text[at]);
    word_from_in_prefix(text, head, at, 0);
}

proof fn word_from_in_suffix(text: Seq<char>, tail: Seq<char>, offset: int, at: int, k: nat)
    requires
        0 <= offset,
        text.len() == offset + tail.len(),
        tail == text.subrange(offset, text.len() as int),
        0 <= at,
    ensures
        separator_word_from(text, offset + at, k) == separator_word_from(tail, at, k),
    decreases separator_words().len() - k,
{
    if k < separator_words().len() {
        let w = separator_words()[k as int];
        let end = at + 1 + w.len();
        if word_at(tail, at + 1, w) && end < tail.len() {
            assert forall|c: int| 0 <= c < w.len() implies same_letter(
                #[trigger] text[offset + at + 1 + c],
                w[c],
            ) by {
                assert(same_letter(tail[at + 1 + c], w[c]));
                assert(tail[at + 1 + c] == text[offset + at + 1 + c]);
            }
            assert(tail[end] == text[offset + end]);
        }
        if word_at(text, offset + at + 1, w) && offset + end < text.len() {
            assert forall|c: int| 0 <= c < w.len() implies same_letter(
                #[trigger] tail[at + 1 + c],
                w[c],
            ) by {
                assert(same_letter(text[offset + at + 1 + c], w[c]));
                assert(tail[at + 1 + c] == text[offset + (at + 1 + c)]);
            }
            assert(tail[end] == text[offset + end]);
        }
        word_from_in_suffix(text, tail, offset, at, k + 1);
    }
}

proof fn separator_in_suffix(text: Seq<char>, tail: Seq<char>, offset: int, at: int)
    requires
        0 <= offset,
        text.len() == offset + tail.len(),
        tail == text.subrange(offset, text.len() as int),
        0 <= at,
    ensures
        separator_at(text, offset + at) == separator_at(tail, at),
{
    if at < tail.len() {
        assert(tail[at] == text[offset + at]);
    }
    word_from_in_suffix(text, tail, offset, at, 0);
}

/// A credit in which no separator stands is one artist: the whole credit.
pub proof fn credit_of_one(text: Seq<char>)
    requires
        no_separator(text),
    ensures
        separator_split(text) == seq![text],
{
    split_skips(text, 0, 0, text.len() as int);
    split_at_end(text, 0);
    assert(text.subrange(0, text.len() as int) =~= text);
}

proof fn separator_word_found(text: Seq<char>, at: int, k: int)
    requires
        0 <= k < separator_words().len(),
        word_at(text, at + 1, separator_words()[k]),
        at + 1 + separator_words()[k].len() < text.len(),
        is_space(text[at + 1 + separator_words()[k].len()]),
    ensures
        separator_word_from(text, at, 0) == Some(separator_words()[k].len()),
{
    let w = separator_words();
    let e = at + 1;
    assert(same_letter(text[e + 0], w[k][0]));
    if w[k].len() > 1 {
        assert(same_letter(text[e + 1], w[k][1]));
    }
    if w[k].len() > 2 {
        assert(same_letter(text[e + 2], w[k][2]));
    }
    if w[k].len() > 3 {
        assert(same_letter(text[e + 3], w[k][3]));
    }
    if w[k].len() > 4 {
        assert(same_letter(text[e + 4], w[k][4]));
    }
    assert(w[0] == seq!['f', 'e', 'a', 't', '.']);
    assert(w[1] == seq!['f', 'e', 'a', 't']);
    assert(w[2] == seq!['f', 't', '.']);
    assert(w[3] == seq!['f', 't']);
    assert(w[4] == seq!['f', 'e', 'a', 't', 'u', 'r', 'i', 'n', 'g']);
    assert(w[5] == seq!['w', 'i', 't', 'h']);
    assert(w[6] == seq!['&']);
    assert(w[7] == seq!['a', 'n', 'd']);
    assert(w[8] == seq!['x']);
    reveal_with_fuel(separator_word_from, 10);
}

/// A credit of two artists joined by a separator (white space, one of the
/// words "feat." "feat" "ft." "ft" "featuring" "with" "&" "and" "x" with
/// its letters in either case, white space) is cut into exactly those two
/// artists, when no separator stands in either of them (the first one taken
/// with the space that follows it).
#[verifier::spinoff_prover]
#[verifier::rlimit(50)]
pub proof fn credit_of_two(a: Seq<char>, word: Seq<char>, b: Seq<char>)
    requires
        ({
            let lit = if word.len() == 5 {
                seq!['f', 'e', 'a', 't', '.']
            } else if word.len() == 9 {
                seq!['f', 'e', 'a', 't', 'u', 'r', 'i', 'n', 'g']
            } else if word.len() == 4 && same_letter(word[0], 'f') {
                seq!['f', 'e', 'a', 't']
            } else if word.len() == 4 {
                seq!['w', 'i', 't', 'h']
            } else if word.len() == 3 && same_letter(word[0], 'f') {
                seq!['f', 't', '.']
            } else if word.len() == 3 {
                seq!['a', 'n', 'd']
            } else if word.len() == 2 {
                seq!['f', 't']
            } else if word.len() == 1 && word[0] == '&' {
                seq!['&']
            } else {
                seq!['x']
            };
            &&& word.len() == lit.len()
            &&& forall|c: int| 0 <= c < word.len() ==> same_letter(#[trigger] word[c], lit[c])
        }),
        no_separator(a.push(' ')),
        no_separator(b),
    ensures
        separator_split(a + seq![' '] + word + seq![' '] + b) == seq![a, b],
{
    let w = separator_words();
    let k: int = if word.len() == 5 {
        0
    } else if word.len() == 9 {
        4
    } else if word.len() == 4 && same_letter(word[0], 'f') {
        1
    } else if word.len() == 4 {
        5
    } else if word.len() == 3 && same_letter(word[0], 'f') {
        2
    } else if word.len() == 3 {
        7
    } else if word.len() == 2 {
        3
    } else if word.len() == 1 && word[0] == '&' {
        6
    } else {
        8
    };
    assert(w[0] == seq!['f', 'e', 'a', 't', '.']);
    assert(w[1] == seq!['f', 'e', 'a', 't']);
    assert(w[2] == seq!['f', 't', '.']);
    assert(w[3] == seq!['f', 't']);
    assert(w[4] == seq!['f', 'e', 'a', 't', 'u', 'r', 'i', 'n', 'g']);
    assert(w[5] == seq!['w', 'i', 't', 'h']);
    assert(w[6] == seq!['&']);
    assert(w[7] == seq!['a', 'n', 'd']);
    assert(w[8] == seq!['x']);
    let t = a + seq![' '] + word + seq![' '] + b;
    let n = a.len() as int;
    let head = a.push(' ');
    let end = n + word.len() + 2;
    assert(head =~= t.subrange(0, n + 1));
    assert(t[n] == ' ');
    assert forall|i: int| 0 <= i < n implies #[trigger] separator_at(t, i) is None by {
        separator_in_prefix(t, head, i);
        assert(separator_at(head, i) is None);
    }
    split_skips(t, 0, 0, n);
    assert forall|c: int| 0 <= c < word.len() implies same_letter(
        #[trigger] t[n + 1 + c],
        w[k][c],
    ) by {
        assert(t[n + 1 + c] == word[c]);
    }
    assert(t[n + 1 + word.len()] == ' ');
    separator_word_found(t, n, k);
    assert(separator_at(t, n) == Some(word.len()));
    let tail = t.subrange(end, t.len() as int);
    assert(tail =~= b);
    assert forall|i: int| end <= i < t.len() implies #[trigger] separator_at(t, i) is None by {
        separator_in_suffix(t, tail, end, i - end);
        assert(separator_at(b, i - end) is None);
    }
    split_skips(t, end, end, t.len() as int);
    split_at_end(t, end);
    assert(t.subrange(0, n) =~= a);
    assert(split_from(t, 0, n) == seq![t.subrange(0, n)] + split_from(t, end, end));
    assert(seq![a] + seq![b] =~= seq![a, b]);
}

} // verus!
