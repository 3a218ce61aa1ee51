//! Words: how raw text becomes index terms.
//!
//! A text is cut into tokens at the delimiters. Each token is trimmed of
//! what is not alphanumeric at its ends, dropped if nothing or too much is
//! left, folded to lower case in ASCII and handed to the stemmer. What the
//! stemmer returns is the term under which the token is indexed.
use crate::chars::{char_is_alphanumeric, is_alphanumeric, push_char};
use vstd::prelude::*;

verus! {

/// The longest word, in characters, that becomes a term.
pub const MAX_WORD_LEN: usize = 64;

/// The characters at which a text is cut into tokens.
pub open spec fn is_delimiter(c: char) -> bool {
    c == ' ' || c == ',' || c == '.' || c == ';'
}

/// The tokens of a text, in order, empty ones included.
///
/// The empty text has one empty token; a delimiter opens a new token; any
/// other character extends the last token. A text with `n` delimiters has
/// `n + 1` tokens.
pub open spec fn split(text: Seq<char>) -> Seq<Seq<char>>
    decreases text.len(),
{
    if text.len() == 0 {
        seq![Seq::empty()]
    } else {
        let before = split(text.drop_last());
        if is_delimiter(text.last()) {
            before.push(Seq::empty())
        } else {
            before.drop_last().push(before.last().push(text.last()))
        }
    }
}

/// The characters that a word may begin and end with: the alphanumeric
/// ones.
pub open spec fn is_word_char(c: char) -> bool {
    is_alphanumeric(c)
}

/// How many characters at the front of `token` are not word characters.
pub open spec fn lead(token: Seq<char>) -> nat
    decreases token.len(),
{
    if token.len() == 0 || is_word_char(token[0]) {
        0
    } else {
        1 + lead(token.drop_first())
    }
}

/// How many characters at the back of `token` are not word characters.
pub open spec fn trail(token: Seq<char>) -> nat
    decreases token.len(),
{
    if token.len() == 0 || is_word_char(token.last()) {
        0
    } else {
        1 + trail(token.drop_last())
    }
}

/// The token without the characters at either end that are not word
/// characters. Empty when the token holds no word character at all.
pub open spec fn trim(token: Seq<char>) -> Seq<char> {
    if lead(token) >= token.len() {
        Seq::empty()
    } else {
        token.subrange(lead(token) as int, token.len() - trail(token))
    }
}

/// A capital letter of ASCII becomes the small one; every other character
/// stays.
pub open spec fn fold_char(c: char) -> char {
    if 'A' <= c <= 'Z' {
        ((c as u32) + 32) as char
    } else {
        c
    }
}

/// The word with each character folded.
pub open spec fn lower(word: Seq<char>) -> Seq<char> {
    Seq::new(word.len(), |i: int| fold_char(word[i]))
}

/// The root that the stemmer gives for a word: a function of the word
/// alone.
pub uninterp spec fn stem_of(word: Seq<char>) -> Seq<char>;

/// The word of a token in the form in which the stemmer gets it: trimmed
/// and folded. Nothing where the token is dropped: when nothing is left
/// of it after trimming, or more than [`MAX_WORD_LEN`] characters.
pub open spec fn cleaned(token: Seq<char>) -> Option<Seq<char>> {
    let word = trim(token);
    if word.len() == 0 || word.len() > MAX_WORD_LEN {
        None
    } else {
        Some(lower(word))
    }
}

/// The term of a token: the root of its word. Nothing where the token is
/// dropped.
pub open spec fn normalize(token: Seq<char>) -> Option<Seq<char>> {
    match cleaned(token) {
        Some(word) => Some(stem_of(word)),
        None => None,
    }
}

/// The terms of the tokens that are not dropped, in order.
pub open spec fn accepted(tokens: Seq<Seq<char>>) -> Seq<Seq<char>>
    decreases tokens.len(),
{
    if tokens.len() == 0 {
        Seq::empty()
    } else {
        match normalize(tokens.last()) {
            Some(term) => accepted(tokens.drop_last()).push(term),
            None => accepted(tokens.drop_last()),
        }
    }
}

/// The terms of a text: those of its tokens, in order.
pub open spec fn terms_of(text: Seq<char>) -> Seq<Seq<char>> {
    accepted(split(text))
}

/// A word in the form in which the stemmer gets it, and which the stemmer
/// hands back as it is.
pub open spec fn is_settled(word: Seq<char>) -> bool {
    &&& 0 < word.len() <= MAX_WORD_LEN
    &&& is_word_char(word.first())
    &&& is_word_char(word.last())
    &&& forall|i: int| 0 <= i < word.len() ==> !('A' <= #[trigger] word[i] <= 'Z')
    &&& stem_of(word) == word
}

/// Trusted: `rust_stemmers::Stemmer::stem`, of the stemmer that
/// `Stemmer::create` makes for `Algorithm::English`. The result depends on
/// the word alone; nothing more is claimed of it.
#[verifier::external_body]
fn stem(word: &str) -> (root: String)
    ensures
        root@ == stem_of(word@),
{
    rust_stemmers::Stemmer::create(rust_stemmers::Algorithm::English).stem(word).into_owned()
}

proof fn lead_is(token: Seq<char>, n: nat)
    requires
        n <= token.len(),
        forall|i: int| 0 <= i < n ==> !is_word_char(token[i]),
        n < token.len() ==> is_word_char(token[n as int]),
    ensures
        lead(token) == n,
    decreases n,
{
    if n > 0 {
        lead_is(token.drop_first(), (n - 1) as nat);
    }
}

proof fn trail_is(token: Seq<char>, n: nat)
    requires
        n <= token.len(),
        forall|i: int| token.len() - n <= i < token.len() ==> !is_word_char(token[i]),
        n < token.len() ==> is_word_char(token[token.len() - n - 1]),
    ensures
        trail(token) == n,
    decreases n,
{
    if n > 0 {
        trail_is(token.drop_last(), (n - 1) as nat);
    }
}

proof fn lead_stops(token: Seq<char>)
    ensures
        lead(token) <= token.len(),
        lead(token) < token.len() ==> is_word_char(token[lead(token) as int]),
    decreases token.len(),
{
    if token.len() != 0 && !is_word_char(token[0]) {
        lead_stops(token.drop_first());
    }
}

proof fn trail_stops(token: Seq<char>)
    ensures
        trail(token) <= token.len(),
        trail(token) < token.len() ==> is_word_char(token[token.len() - trail(token) - 1]),
    decreases token.len(),
{
    if token.len() != 0 && !is_word_char(token.last()) {
        trail_stops(token.drop_last());
    }
}

proof fn trail_before(token: Seq<char>, i: int)
    requires
        0 <= i < token.len(),
        is_word_char(token[i]),
    ensures
        trail(token) <= token.len() - 1 - i,
    decreases token.len(),
{
    if !is_word_char(token.last()) {
        trail_before(token.drop_last(), i);
    }
}

/// A token that keeps something when trimmed keeps a word that begins and
/// ends with a word character.
pub proof fn trimmed_has_word_ends(token: Seq<char>)
    requires
        trim(token).len() > 0,
    ensures
        is_word_char(trim(token).first()),
        is_word_char(trim(token).last()),
{
    lead_stops(token);
    trail_stops(token);
    trail_before(token, lead(token) as int);
}

/// A word that begins and ends with a word character is its own trimmed
/// form.
pub proof fn word_ends_are_kept(word: Seq<char>)
    requires
        word.len() > 0,
        is_word_char(word.first()),
        is_word_char(word.last()),
    ensures
        trim(word) == word,
{
}

/// The form in which a word reaches the stemmer is stable: trimmed and
/// folded once more, it is the same word.
pub proof fn folded_word_is_stable(token: Seq<char>)
    ensures
        trim(lower(trim(token))) == lower(trim(token)),
        lower(lower(trim(token))) == lower(trim(token)),
{
    if trim(token).len() > 0 {
        trimmed_has_word_ends(token);
        word_ends_are_kept(lower(trim(token)));
    }
}

/// A token is dropped exactly when trimming leaves nothing of it or
/// leaves more than [`MAX_WORD_LEN`] characters.
pub proof fn normalize_rejects(token: Seq<char>)
    ensures
        normalize(token) is None <==> trim(token).len() == 0 || trim(token).len() > MAX_WORD_LEN,
        trim(token).len() <= token.len(),
{
    lead_stops(token);
    trail_stops(token);
    if lead(token) < token.len() {
        trail_before(token, lead(token) as int);
    }
}

/// Normalizing is idempotent on every term that is settled: normalized
/// again, such a term comes back as it is.
///
/// That the stemmer hands its own result back unchanged is a property of
/// the stemmer, and does not hold of every word; so it is asked of the
/// term here.
pub proof fn normalize_is_idempotent(token: Seq<char>, term: Seq<char>)
    requires
        normalize(token) == Some(term),
        is_settled(term),
    ensures
        normalize(term) == normalize(token),
{
    word_ends_are_kept(term);
    assert(lower(term) == term);
}

/// The bounds of the trimmed word inside `token`.
fn trim_bounds(token: &Vec<char>) -> (bounds: (usize, usize))
    ensures
        bounds.0 <= bounds.1 <= token@.len(),
        token@.subrange(bounds.0 as int, bounds.1 as int) == trim(token@),
{
    let n = token.len();
    let mut from: usize = 0;
    while from < n && !char_is_alphanumeric(token[from])
        invariant
            from <= n == token@.len(),
            forall|i: int| 0 <= i < from ==> !is_word_char(token@[i]),
        decreases n - from,
    {
        from += 1;
    }
    proof {
        lead_is(token@, from as nat);
    }
    if from == n {
        return (n, n);
    }
    let mut to: usize = n;
    while to > from + 1 && !char_is_alphanumeric(token[to - 1])
        invariant
            from < to <= n == token@.len(),
            is_word_char(token@[from as int]),
            forall|i: int| to <= i < n ==> !is_word_char(token@[i]),
        decreases to,
    {
        to -= 1;
    }
    proof {
        trail_is(token@, (n - to) as nat);
    }
    (from, to)
}

/// The characters of `word` from `from` up to `to`, folded to lower case.
fn str_to_lower(word: &Vec<char>, from: usize, to: usize) -> (folded: String)
    requires
        from <= to <= word@.len(),
    ensures
        folded@ == lower(word@.subrange(from as int, to as int)),
{
    let mut folded = String::new();
    let mut i: usize = from;
    while i < to
        invariant
            from <= i <= to <= word@.len(),
            folded@ == lower(word@.subrange(from as int, i as int)),
        decreases to - i,
    {
        let c = word[i];
        let small = if 'A' <= c && c <= 'Z' {
            let byte: u8 = c as u8;
            (byte + 32) as char
        } else {
            c
        };
        push_char(&mut folded, small);
        i += 1;
    }
    folded
}

/// The word of a token that is held as a vector of characters.
fn clean_chars(token: &Vec<char>) -> (word: Option<String>)
    ensures
        match word {
            Some(w) => cleaned(token@) == Some(w@),
            None => cleaned(token@) is None,
        },
{
    let (from, to) = trim_bounds(token);
    if from == to || to - from > MAX_WORD_LEN {
        return None;
    }
    Some(str_to_lower(token, from, to))
}

/// The term of a token that is held as a vector of characters.
fn normalize_chars(token: &Vec<char>) -> (term: Option<String>)
    ensures
        match term {
            Some(t) => normalize(token@) == Some(t@),
            None => normalize(token@) is None,
        },
{
    match clean_chars(token) {
        Some(word) => Some(stem(word.as_str())),
        None => None,
    }
}

/// The characters of a text.
fn chars_of(text: &str) -> (chars: Vec<char>)
    ensures
        chars@ == text@,
{
    let mut chars: Vec<char> = Vec::new();
    for c in it: text.chars()
        invariant
            it.seq() == text@,
            chars@ == it.seq().take(it.index() as int),
    {
        chars.push(c);
    }
    chars
}

/// Trims and folds one token. Returns the word as the stemmer gets it,
/// or nothing where the token is dropped.
pub fn clean(token: &str) -> (word: Option<String>)
    ensures
        match word {
            Some(w) => cleaned(token@) == Some(w@),
            None => cleaned(token@) is None,
        },
{
    clean_chars(&chars_of(token))
}

/// Trims, folds and stems one token. Returns the term, or nothing where
/// the token is dropped.
pub fn prepare_word(word: &str) -> (term: Option<String>)
    ensures
        match term {
            Some(t) => normalize(word@) == Some(t@),
            None => normalize(word@) is None,
        },
{
    normalize_chars(&chars_of(word))
}

/// The terms of a text, in the order of its tokens.
pub fn terms(text: &str) -> (out: Vec<String>)
    ensures
        out.deep_view() == terms_of(text@),
{
    let mut out: Vec<String> = Vec::new();
    let mut token: Vec<char> = Vec::new();
    let ghost mut done: Seq<Seq<char>> = Seq::empty();
    for c in it: text.chars()
        invariant
            it.seq() == text@,
            split(it.seq().take(it.index() as int)) == done.push(token@),
            out.deep_view() == accepted(done),
    {
        let ghost seen = it.seq().take(it.index() as int);
        let ghost next = it.seq().take(it.index() + 1);
        assert(next.drop_last() == seen);
        if c == ' ' || c == ',' || c == '.' || c == ';' {
            let term = normalize_chars(&token);
            proof {
                let ghost earlier = done;
                done = earlier.push(token@);
                assert(done.drop_last() == earlier);
            }
            if let Some(t) = term {
                out.push(t);
            }
            token = Vec::new();
        } else {
            token.push(c);
        }
    }
    assert(text@.take(text@.len() as int) == text@);
    assert(done.push(token@).drop_last() == done);
    if let Some(t) = normalize_chars(&token) {
        out.push(t);
    }
    out
}

} // verus!
