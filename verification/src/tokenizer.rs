//! The tokenizer: a line is cut at white space into chunks, each chunk is
//! stripped of what is no letter at its ends, and what is left is classified
//! as a word of the vocabulary.

use crate::grammar::{after, lemma_after_push};
use crate::types::{ParseTPError, ParseTPErrorView};
use crate::word::{
    chars_of, lemma_classify_spelling, lemma_spelling_is_lower_case, spec_classify,
    ParseWordError, Word,
};
use vstd::prelude::*;

verus! {

/// Whether a character is white space: one with the Unicode property
/// `White_Space`.
pub open spec fn spec_is_whitespace(c: char) -> bool {
    let code = c as u32;
    ||| 0x09 <= code <= 0x0D
    ||| code == 0x20
    ||| code == 0x85
    ||| code == 0xA0
    ||| code == 0x1680
    ||| 0x2000 <= code <= 0x200A
    ||| code == 0x2028
    ||| code == 0x2029
    ||| code == 0x202F
    ||| code == 0x205F
    ||| code == 0x3000
}

/// Whether a character is an ASCII letter.
pub open spec fn spec_is_letter(c: char) -> bool {
    ('a' <= c && c <= 'z') || ('A' <= c && c <= 'Z')
}

/// Whether a character is white space.
#[verifier::when_used_as_spec(spec_is_whitespace)]
pub fn is_whitespace(c: char) -> (b: bool)
    ensures
        b == spec_is_whitespace(c),
{
    let code = c as u32;
    (0x09 <= code && code <= 0x0D) || code == 0x20 || code == 0x85 || code == 0xA0 || code
        == 0x1680 || (0x2000 <= code && code <= 0x200A) || code == 0x2028 || code == 0x2029
        || code == 0x202F || code == 0x205F || code == 0x3000
}

/// Whether a character is an ASCII letter.
#[verifier::when_used_as_spec(spec_is_letter)]
pub fn is_letter(c: char) -> (b: bool)
    ensures
        b == spec_is_letter(c),
{
    ('a' <= c && c <= 'z') || ('A' <= c && c <= 'Z')
}

/// How many characters stand before the first white space of a text.
pub open spec fn chunk_len(text: Seq<char>) -> nat
    decreases text.len(),
{
    if text.len() == 0 || is_whitespace(text[0]) {
        0
    } else {
        1 + chunk_len(text.drop_first())
    }
}

/// A chunk without the characters at its two ends that are no letters.
pub open spec fn spec_trim(chunk: Seq<char>) -> Seq<char>
    decreases chunk.len(),
{
    if chunk.len() == 0 {
        chunk
    } else if !is_letter(chunk[0]) {
        spec_trim(chunk.drop_first())
    } else if !is_letter(chunk.last()) {
        spec_trim(chunk.drop_last())
    } else {
        chunk
    }
}

/// The words of a line, or the first token that is no word.
pub open spec fn spec_tokenize(text: Seq<char>) -> Result<Seq<Word>, ParseTPErrorView>
    decreases text.len(),
{
    if text.len() == 0 {
        Ok(Seq::empty())
    } else if is_whitespace(text[0]) {
        spec_tokenize(text.drop_first())
    } else {
        let end = chunk_len(text) as int;
        let token = spec_trim(text.take(end));
        proof {
            lemma_chunk_len(text);
        }
        match spec_classify(token) {
            None => Err(ParseTPErrorView::InvalidWord(token)),
            Some(word) => after(seq![word], spec_tokenize(text.skip(end))),
        }
    }
}

/// A chunk ends within its text, and is not empty where the text begins with
/// a character that is no white space.
pub proof fn lemma_chunk_len(text: Seq<char>)
    ensures
        chunk_len(text) <= text.len(),
        text.len() > 0 && !is_whitespace(text[0]) ==> chunk_len(text) >= 1,
    decreases text.len(),
{
    if text.len() > 0 && !is_whitespace(text[0]) {
        lemma_chunk_len(text.drop_first());
    }
}

/// Where the trimmed chunk lies within the chunk.
pub fn trim(chunk: &[char]) -> (bounds: (usize, usize))
    ensures
        bounds.0 <= bounds.1 <= chunk@.len(),
        chunk@.subrange(bounds.0 as int, bounds.1 as int) == spec_trim(chunk@),
{
    let mut from: usize = 0;
    let mut to: usize = chunk.len();
    assert(chunk@.subrange(0, to as int) =~= chunk@);
    while from < to && !is_letter(chunk[from])
        invariant
            from <= to == chunk@.len(),
            spec_trim(chunk@) == spec_trim(chunk@.subrange(from as int, to as int)),
        decreases to - from,
    {
        assert(chunk@.subrange(from as int, to as int).drop_first() =~= chunk@.subrange(
            from + 1,
            to as int,
        ));
        from += 1;
    }
    while from < to && !is_letter(chunk[to - 1])
        invariant
            from <= to <= chunk@.len(),
            from < to ==> is_letter(chunk@[from as int]),
            spec_trim(chunk@) == spec_trim(chunk@.subrange(from as int, to as int)),
        decreases to - from,
    {
        assert(chunk@.subrange(from as int, to as int).drop_last() =~= chunk@.subrange(
            from as int,
            to - 1,
        ));
        to -= 1;
    }
    (from, to)
}

/// Reads a line as words of the vocabulary.
pub fn tokenize(input: &str) -> (result: Result<Vec<Word>, ParseTPError>)
    ensures
        match result {
            Ok(words) => spec_tokenize(input@) == Ok::<_, ParseTPErrorView>(words@),
            Err(e) => spec_tokenize(input@) == Err::<Seq<Word>, _>(e@),
        },
{
    let chars = chars_of(input);
    let length = chars.len();
    let mut words: Vec<Word> = Vec::new();
    let mut at: usize = 0;
    assert(chars@.skip(0) =~= chars@);
    assert(words@ + words@ =~= words@);
    while at < length
        invariant
            at <= length == chars@.len(),
            chars@ == input@,
            spec_tokenize(chars@) == after(words@, spec_tokenize(chars@.skip(at as int))),
        decreases length - at,
    {
        let ghost rest = chars@.skip(at as int);
        if is_whitespace(chars[at]) {
            assert(rest.drop_first() =~= chars@.skip(at + 1));
            at += 1;
        } else {
            let mut end: usize = at;
            assert(chars@.skip(end as int) =~= rest);
            while end < length && !is_whitespace(chars[end])
                invariant
                    at <= end <= length == chars@.len(),
                    chunk_len(rest) == (end - at) + chunk_len(chars@.skip(end as int)),
                decreases length - end,
            {
                assert(chars@.skip(end as int).drop_first() =~= chars@.skip(end + 1));
                end += 1;
            }
            let chunk = &chars[at..end];
            assert(chunk@ =~= rest.take(end - at));
            let (from, to) = trim(chunk);
            let ghost done = words@;
            match Word::lookup(&chunk[from..to]) {
                None => {
                    let text = input.substring_char(at + from, at + to).to_owned();
                    assert(text@ =~= chunk@.subrange(from as int, to as int));
                    return Err(ParseTPError::InvalidWord(ParseWordError { text }));
                },
                Some(word) => {
                    words.push(word);
                },
            }
            proof {
                assert(rest.skip(end - at) =~= chars@.skip(end as int));
                lemma_after_push(done, words@.last(), spec_tokenize(chars@.skip(end as int)));
            }
            at = end;
        }
    }
    assert(words@ + Seq::empty() =~= words@);
    Ok(words)
}

/// No character of a text is a letter.
pub open spec fn no_letters(text: Seq<char>) -> bool {
    forall|i: int| 0 <= i < text.len() ==> !is_letter(#[trigger] text[i])
}

/// No character of a text is white space.
pub open spec fn no_whitespace(text: Seq<char>) -> bool {
    forall|i: int| 0 <= i < text.len() ==> !is_whitespace(#[trigger] text[i])
}

/// What is no letter before a token is stripped with nothing else.
pub proof fn lemma_trim_left(left: Seq<char>, token: Seq<char>)
    requires
        no_letters(left),
    ensures
        spec_trim(left + token) == spec_trim(token),
    decreases left.len(),
{
    if left.len() == 0 {
        assert(left + token =~= token);
    } else {
        let whole = left + token;
        assert(whole[0] == left[0]);
        assert(whole.drop_first() =~= left.drop_first() + token);
        assert forall|i: int| 0 <= i < left.drop_first().len() implies !is_letter(
            #[trigger] left.drop_first()[i],
        ) by {
            assert(left.drop_first()[i] == left[i + 1]);
        }
        lemma_trim_left(left.drop_first(), token);
    }
}

/// What is no letter behind a token that begins with a letter is stripped
/// with nothing else.
pub proof fn lemma_trim_right(token: Seq<char>, right: Seq<char>)
    requires
        no_letters(right),
        token.len() > 0,
        is_letter(token[0]),
        is_letter(token.last()),
    ensures
        spec_trim(token + right) == token,
    decreases right.len(),
{
    if right.len() == 0 {
        assert(token + right =~= token);
    } else {
        let whole = token + right;
        assert(whole[0] == token[0]);
        assert(whole.last() == right.last());
        assert(whole.drop_last() =~= token + right.drop_last());
        assert forall|i: int| 0 <= i < right.drop_last().len() implies !is_letter(
            #[trigger] right.drop_last()[i],
        ) by {
            assert(right.drop_last()[i] == right[i]);
        }
        lemma_trim_right(token, right.drop_last());
    }
}

/// A word with anything but letters around it is read as that word: what
/// stands at the two ends of a token and is no letter does not count.
pub proof fn lemma_padded_word(left: Seq<char>, word: Word, right: Seq<char>)
    requires
        no_letters(left),
        no_letters(right),
    ensures
        spec_trim(left + word.spelling() + right) == word.spelling(),
        spec_classify(spec_trim(left + word.spelling() + right)) == Some(word),
{
    let token = word.spelling();
    lemma_spelling_is_lower_case(word);
    lemma_classify_spelling(word);
    assert(is_letter(token[0]));
    assert(is_letter(token.last()));
    lemma_trim_right(token, right);
    lemma_trim_left(left, token + right);
    assert(left + token + right =~= left + (token + right));
}

/// A chunk that holds no white space reaches to the end of the text, or to
/// the white space that follows it.
pub proof fn lemma_chunk_len_of_chunk(chunk: Seq<char>, rest: Seq<char>)
    requires
        no_whitespace(chunk),
        rest.len() == 0 || is_whitespace(rest[0]),
    ensures
        chunk_len(chunk + rest) == chunk.len(),
    decreases chunk.len(),
{
    let whole = chunk + rest;
    if chunk.len() == 0 {
        assert(whole =~= rest);
    } else {
        assert(whole[0] == chunk[0]);
        assert(whole.drop_first() =~= chunk.drop_first() + rest);
        assert forall|i: int| 0 <= i < chunk.drop_first().len() implies !is_whitespace(
            #[trigger] chunk.drop_first()[i],
        ) by {
            assert(chunk.drop_first()[i] == chunk[i + 1]);
        }
        lemma_chunk_len_of_chunk(chunk.drop_first(), rest);
    }
}

/// A first chunk that ends before the end of a text is the first chunk of
/// any longer text too.
pub proof fn lemma_chunk_len_extended(text: Seq<char>, more: Seq<char>)
    requires
        chunk_len(text) < text.len(),
    ensures
        chunk_len(text + more) == chunk_len(text),
    decreases text.len(),
{
    let whole = text + more;
    assert(whole[0] == text[0]);
    if !is_whitespace(text[0]) {
        assert(whole.drop_first() =~= text.drop_first() + more);
        lemma_chunk_len_extended(text.drop_first(), more);
    }
}

/// The only error of the tokenizer is a token that is no word: the error
/// carries the text of such a token.
pub proof fn lemma_tokenize_error(text: Seq<char>)
    ensures
        spec_tokenize(text) matches Err(e) ==> e matches ParseTPErrorView::InvalidWord(token)
            && spec_classify(token) is None,
    decreases text.len(),
{
    if text.len() > 0 {
        if is_whitespace(text[0]) {
            lemma_tokenize_error(text.drop_first());
        } else {
            lemma_chunk_len(text);
            lemma_tokenize_error(text.skip(chunk_len(text) as int));
        }
    }
}

/// A line that holds a token that is no word is not read: wherever a chunk
/// stands between white space or the ends of the line, and is no word once
/// stripped, the tokenizer ends in an error.
pub proof fn lemma_unknown_token_rejected(before: Seq<char>, chunk: Seq<char>, rest: Seq<char>)
    requires
        before.len() == 0 || is_whitespace(before.last()),
        chunk.len() > 0,
        no_whitespace(chunk),
        rest.len() == 0 || is_whitespace(rest[0]),
        spec_classify(spec_trim(chunk)) is None,
    ensures
        spec_tokenize(before + chunk + rest) is Err,
    decreases before.len(),
{
    let text = before + chunk + rest;
    if before.len() == 0 {
        assert(text =~= chunk + rest);
        assert(text[0] == chunk[0]);
        lemma_chunk_len_of_chunk(chunk, rest);
        assert(text.take(chunk.len() as int) =~= chunk);
    } else if is_whitespace(before[0]) {
        assert(text[0] == before[0]);
        assert(text.drop_first() =~= before.drop_first() + chunk + rest);
        if before.len() > 1 {
            assert(before.drop_first().last() == before.last());
        }
        lemma_unknown_token_rejected(before.drop_first(), chunk, rest);
    } else {
        assert(text[0] == before[0]);
        lemma_chunk_len(before);
        lemma_chunk_len_ends_at_whitespace(before);
        let end = chunk_len(before) as int;
        assert(text =~= before + (chunk + rest));
        lemma_chunk_len_extended(before, chunk + rest);
        assert(text.skip(end) =~= before.skip(end) + chunk + rest);
        assert(before.skip(end).last() == before.last());
        lemma_unknown_token_rejected(before.skip(end), chunk, rest);
    }
}

/// A text that ends with white space has its first chunk end before that.
pub proof fn lemma_chunk_len_ends_at_whitespace(text: Seq<char>)
    requires
        text.len() > 0,
        is_whitespace(text.last()),
    ensures
        chunk_len(text) < text.len(),
    decreases text.len(),
{
    if !is_whitespace(text[0]) {
        assert(text.len() > 1);
        assert(text.drop_first().last() == text.last());
        lemma_chunk_len_ends_at_whitespace(text.drop_first());
    }
}

} // verus!
