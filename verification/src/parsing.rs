//! The parser: each function reads a run of words as one kind of phrase and
//! returns exactly what the grammar says of that run.

use crate::grammar::{
    after, first_index, last_index, lemma_after_push, lemma_first_index, lemma_last_index,
    preposition_start, preverb_run, spec_parse_fragment, spec_parse_group, spec_parse_groups,
    spec_parse_predicate, spec_parse_predicates, spec_parse_preposition, spec_parse_sentence,
    spec_parse_subjects, spec_parse_verb_phrase, spec_split_prepositions, Role,
};
use crate::laws::{
    is_reading_error, lemma_fragment_wf, lemma_group_wf, lemma_predicate_wf,
    lemma_sentence_errors, lemma_sentence_wf,
};
use crate::tokenizer::{lemma_tokenize_error, spec_tokenize, tokenize};
use crate::types::{
    outcome, outcomes, views, Context, Group, GroupView, ParseTPError, ParseTPErrorView,
    Predicate, Preposition, PrepositionView, Sentence, SentenceView, VerbPhrase,
};
use crate::word::Word;
use vstd::prelude::*;
use vstd::slice::slice_to_vec;

verus! {

/// What a line of text is as a sentence: its words read by the grammar, or
/// the first token that is no word.
pub open spec fn spec_parse_toki_pona(text: Seq<char>) -> Result<SentenceView, ParseTPErrorView> {
    match spec_tokenize(text) {
        Err(e) => Err(e),
        Ok(words) => spec_parse_sentence(words),
    }
}

/// Parses a line of text as a sentence.
pub fn parse_toki_pona(input: &str) -> (result: Result<Sentence, ParseTPError>)
    ensures
        outcome(result) == spec_parse_toki_pona(input@),
        result matches Ok(read) ==> read@.wf(),
        result matches Err(e) ==> e@ is InvalidWord || is_reading_error(e@),
{
    proof {
        lemma_tokenize_error(input@);
    }
    match tokenize(input) {
        Err(e) => Err(e),
        Ok(tokens) => parse_sentence(tokens.as_slice()),
    }
}

/// The position of the first token that plays `role`, or the number of
/// tokens where none does.
pub fn find_first(tokens: &[Word], role: Role) -> (i: usize)
    ensures
        i == first_index(tokens@, role),
        i <= tokens@.len(),
{
    let mut i: usize = 0;
    assert(tokens@.skip(0) =~= tokens@);
    while i < tokens.len() && !role.fits(tokens[i])
        invariant
            i <= tokens@.len(),
            first_index(tokens@, role) == i + first_index(tokens@.skip(i as int), role),
        decreases tokens@.len() - i,
    {
        assert(tokens@.skip(i as int).drop_first() =~= tokens@.skip(i + 1));
        i += 1;
    }
    i
}

/// The position of the last token that plays `role`, if one does.
pub fn find_last(tokens: &[Word], role: Role) -> (found: Option<usize>)
    ensures
        match found {
            Some(i) => i == last_index(tokens@, role) && i < tokens@.len(),
            None => last_index(tokens@, role) == -1,
        },
{
    let mut n: usize = tokens.len();
    assert(tokens@.take(n as int) =~= tokens@);
    while n > 0 && !role.fits(tokens[n - 1])
        invariant
            n <= tokens@.len(),
            last_index(tokens@, role) == last_index(tokens@.take(n as int), role),
        decreases n,
    {
        assert(tokens@.take(n as int).drop_last() =~= tokens@.take(n - 1));
        n -= 1;
    }
    if n == 0 {
        None
    } else {
        Some(n - 1)
    }
}

/// Reads a run of tokens as a noun phrase.
pub fn parse_group(tokens: &[Word]) -> (result: Result<Group, ParseTPError>)
    ensures
        outcome(result) == spec_parse_group(tokens@),
        result matches Ok(read) ==> read@.wf(),
    decreases tokens@.len(),
{
    proof {
        lemma_group_wf(tokens@);
    }
    if tokens.len() == 0 {
        return Err(ParseTPError::EmptyNounPhrase);
    }
    let noun = tokens[0];
    if noun.is_particle() {
        return Err(ParseTPError::InvalidNoun(noun));
    }
    let tail = &tokens[1..tokens.len()];
    let pi = find_first(tail, Role::Exactly(Word::Pi));
    if pi < tail.len() {
        match parse_group(&tail[pi + 1..tail.len()]) {
            Ok(inner) => Ok(
                Group { word: noun, modifiers: slice_to_vec(&tail[0..pi]), of: Some(Box::new(inner)) },
            ),
            Err(e) => Err(e),
        }
    } else {
        Ok(Group { word: noun, modifiers: slice_to_vec(tail), of: None })
    }
}

/// Reads a run of tokens as noun phrases that `separator` parts.
pub fn parse_groups(tokens: &[Word], separator: Word) -> (result: Result<Vec<Group>, ParseTPError>)
    ensures
        outcomes(result) == spec_parse_groups(tokens@, separator),
{
    let mut groups: Vec<Group> = Vec::new();
    let mut start: usize = 0;
    assert(tokens@.skip(0) =~= tokens@);
    assert(views(groups@) + views(groups@) =~= views(groups@));
    loop
        invariant
            start <= tokens@.len(),
            spec_parse_groups(tokens@, separator) == after(
                views(groups@),
                spec_parse_groups(tokens@.skip(start as int), separator),
            ),
        decreases tokens@.len() - start,
    {
        let rest = &tokens[start..tokens.len()];
        let cut = find_first(rest, Role::Exactly(separator));
        let ghost done = views(groups@);
        if cut < rest.len() {
            match parse_group(&rest[0..cut]) {
                Err(e) => {
                    return Err(e);
                },
                Ok(group) => {
                    groups.push(group);
                },
            }
            proof {
                assert(rest@.skip(cut + 1) =~= tokens@.skip(start + cut + 1));
                assert(views(groups@) =~= done.push(groups@.last()@));
                lemma_after_push(
                    done,
                    groups@.last()@,
                    spec_parse_groups(rest@.skip(cut + 1), separator),
                );
            }
            start = start + cut + 1;
        } else {
            match parse_group(rest) {
                Err(e) => {
                    return Err(e);
                },
                Ok(group) => {
                    groups.push(group);
                },
            }
            assert(views(groups@) =~= done + seq![groups@.last()@]);
            return Ok(groups);
        }
    }
}

/// Reads a run of tokens as a verb phrase.
pub fn parse_verb_phrase(tokens: &[Word]) -> (result: Result<VerbPhrase, ParseTPError>)
    ensures
        outcome(result) == spec_parse_verb_phrase(tokens@),
{
    if tokens.len() == 0 {
        return Err(ParseTPError::EmptyVerbPhrase);
    }
    let mut run: usize = 0;
    assert(tokens@.skip(0) =~= tokens@);
    while tokens.len() - run > 1 && tokens[run].is_preverb()
        invariant
            run < tokens@.len(),
            preverb_run(tokens@) == run + preverb_run(tokens@.skip(run as int)),
        decreases tokens@.len() - run,
    {
        assert(tokens@.skip(run as int).drop_first() =~= tokens@.skip(run + 1));
        run += 1;
    }
    match parse_group(&tokens[run..tokens.len()]) {
        Err(e) => Err(e),
        Ok(verb) => Ok(VerbPhrase { preverbs: slice_to_vec(&tokens[0..run]), verb }),
    }
}

/// Reads a run of tokens as a prepositional phrase.
pub fn parse_preposition(tokens: &[Word]) -> (result: Result<Preposition, ParseTPError>)
    ensures
        outcome(result) == spec_parse_preposition(tokens@),
{
    if tokens.len() == 0 {
        return Err(ParseTPError::EmptyPreposition);
    }
    let preposition = tokens[0];
    match parse_group(&tokens[1..tokens.len()]) {
        Err(e) => Err(e),
        Ok(noun) => if preposition.is_preposition() {
            Ok(Preposition { preposition, noun })
        } else {
            Err(ParseTPError::InvalidPreposition(preposition))
        },
    }
}

/// Where the last prepositional phrase of a predicate's tokens begins, if
/// there is one.
pub fn find_preposition_start(tokens: &[Word]) -> (found: Option<usize>)
    ensures
        match found {
            Some(start) => preposition_start(tokens@) == Some(start as int),
            None => preposition_start(tokens@) is None,
        },
{
    let floor = match find_last(tokens, Role::Exactly(Word::E)) {
        Some(object_marker) => object_marker,
        None => 0,
    };
    match find_last(tokens, Role::Preposition) {
        Some(preposition) => if floor < preposition && preposition - floor >= 2 && tokens.len()
            - preposition >= 2 {
            Some(preposition)
        } else {
            None
        },
        None => None,
    }
}

/// What `spec_split_prepositions` comes to when the phrases in `done` are
/// already taken off the end and `front` is the reading of what is left.
pub open spec fn with_phrases(
    front: Result<(Seq<Word>, Seq<PrepositionView>), ParseTPErrorView>,
    done: Seq<PrepositionView>,
) -> Result<(Seq<Word>, Seq<PrepositionView>), ParseTPErrorView> {
    match front {
        Ok((words, phrases)) => Ok((words, phrases + done)),
        Err(e) => Err(e),
    }
}

/// Takes the trailing prepositional phrases off a predicate's tokens: where
/// they begin, and the phrases in the order of the text.
pub fn split_prepositions(tokens: &[Word]) -> (result: Result<
    (usize, Vec<Preposition>),
    ParseTPError,
>)
    ensures
        match result {
            Ok((end, phrases)) => end <= tokens@.len() && spec_split_prepositions(tokens@) == Ok::<
                _,
                ParseTPErrorView,
            >((tokens@.take(end as int), views(phrases@))),
            Err(e) => spec_split_prepositions(tokens@) == Err::<
                (Seq<Word>, Seq<PrepositionView>),
                _,
            >(e@),
        },
{
    let mut phrases: Vec<Preposition> = Vec::new();
    let mut end: usize = tokens.len();
    assert(tokens@.take(end as int) =~= tokens@);
    loop
        invariant
            end <= tokens@.len(),
            spec_split_prepositions(tokens@) == with_phrases(
                spec_split_prepositions(tokens@.take(end as int)),
                views(phrases@),
            ),
        decreases end,
    {
        let ghost done = views(phrases@);
        let ghost left = tokens@.take(end as int);
        match find_preposition_start(&tokens[0..end]) {
            None => {
                assert(Seq::<PrepositionView>::empty() + done =~= done);
                return Ok((end, phrases));
            },
            Some(start) => {
                proof {
                    lemma_last_index(left, Role::Preposition);
                    assert(left.skip(start as int) =~= tokens@.subrange(start as int, end as int));
                    assert(left.take(start as int) =~= tokens@.take(start as int));
                }
                match parse_preposition(&tokens[start..end]) {
                    Err(e) => {
                        return Err(e);
                    },
                    Ok(phrase) => {
                        phrases.insert(0, phrase);
                    },
                }
                proof {
                    let phrase = phrases@[0]@;
                    assert(views(phrases@) =~= seq![phrase] + done);
                    if let Ok((words, earlier)) = spec_split_prepositions(
                        left.take(start as int),
                    ) {
                        assert(earlier.push(phrase) + done =~= earlier + views(phrases@));
                    }
                }
                end = start;
            },
        }
    }
}

/// Reads a run of tokens as one predicate.
pub fn parse_predicate(tokens: &[Word]) -> (result: Result<Predicate, ParseTPError>)
    ensures
        outcome(result) == spec_parse_predicate(tokens@),
        result matches Ok(read) ==> read@.wf(),
{
    proof {
        lemma_predicate_wf(tokens@);
    }
    if tokens.len() == 0 {
        return Err(ParseTPError::EmptyPredicate);
    }
    let imperative = tokens[0] == Word::O;
    let body = if tokens[0].is_predicate_marker() {
        &tokens[1..tokens.len()]
    } else {
        tokens
    };
    let (end, prepositions) = match split_prepositions(body) {
        Err(e) => {
            return Err(e);
        },
        Ok(split) => split,
    };
    let front = &body[0..end];
    let marker = find_first(front, Role::Exactly(Word::E));
    if marker < front.len() {
        let verb = match parse_verb_phrase(&front[0..marker]) {
            Err(e) => {
                return Err(e);
            },
            Ok(verb) => verb,
        };
        match parse_groups(&front[marker + 1..front.len()], Word::E) {
            Err(e) => Err(e),
            Ok(objects) => Ok(Predicate { imperative, verb, objects, prepositions }),
        }
    } else {
        let objects: Vec<Group> = Vec::new();
        assert(views(objects@) =~= Seq::<GroupView>::empty());
        match parse_verb_phrase(front) {
            Err(e) => Err(e),
            Ok(verb) => Ok(Predicate { imperative, verb, objects, prepositions }),
        }
    }
}

/// Reads a run of tokens as a chain of predicates.
pub fn parse_predicates(tokens: &[Word]) -> (result: Result<Vec<Predicate>, ParseTPError>)
    ensures
        outcomes(result) == spec_parse_predicates(tokens@),
{
    let mut predicates: Vec<Predicate> = Vec::new();
    let mut start: usize = 0;
    assert(tokens@.skip(0) =~= tokens@);
    assert(views(predicates@) + views(predicates@) =~= views(predicates@));
    while start < tokens.len()
        invariant
            start <= tokens@.len(),
            spec_parse_predicates(tokens@) == after(
                views(predicates@),
                spec_parse_predicates(tokens@.skip(start as int)),
            ),
        decreases tokens@.len() - start,
    {
        let rest = &tokens[start..tokens.len()];
        let end = 1 + find_first(&rest[1..rest.len()], Role::PredicateMarker);
        let ghost done = views(predicates@);
        proof {
            lemma_first_index(rest@.drop_first(), Role::PredicateMarker);
        }
        match parse_predicate(&rest[0..end]) {
            Err(e) => {
                return Err(e);
            },
            Ok(predicate) => {
                predicates.push(predicate);
            },
        }
        proof {
            assert(rest@.skip(end as int) =~= tokens@.skip(start + end));
            assert(views(predicates@) =~= done.push(predicates@.last()@));
            lemma_after_push(
                done,
                predicates@.last()@,
                spec_parse_predicates(rest@.skip(end as int)),
            );
        }
        start = start + end;
    }
    assert(views(predicates@) + Seq::empty() =~= views(predicates@));
    Ok(predicates)
}

/// Reads the subjects of a clause: the subjects, and where the tokens that
/// are left for the predicates begin.
pub fn parse_subjects(tokens: &[Word]) -> (result: Result<(Vec<Group>, usize), ParseTPError>)
    ensures
        match result {
            Ok((subjects, rest)) => rest <= tokens@.len() && spec_parse_subjects(tokens@) == Ok::<
                _,
                ParseTPErrorView,
            >((views(subjects@), tokens@.skip(rest as int))),
            Err(e) => spec_parse_subjects(tokens@) == Err::<(Seq<GroupView>, Seq<Word>), _>(e@),
        },
{
    let marker = find_first(tokens, Role::PredicateMarker);
    if marker < tokens.len() {
        if marker == 0 {
            if tokens[0] == Word::O {
                let subjects = vec![Group::from_word(Word::Sina)];
                assert(views(subjects@) =~= seq![GroupView::from_word(Word::Sina)]);
                assert(tokens@.skip(0) =~= tokens@);
                Ok((subjects, 0))
            } else {
                Err(ParseTPError::EmptySubject)
            }
        } else {
            match parse_groups(&tokens[0..marker], Word::En) {
                Err(e) => Err(e),
                Ok(subjects) => Ok((subjects, marker)),
            }
        }
    } else if tokens.len() > 0 && (tokens[0] == Word::Mi || tokens[0] == Word::Sina) {
        let subjects = vec![Group::from_word(tokens[0])];
        assert(views(subjects@) =~= seq![GroupView::from_word(tokens@[0])]);
        Ok((subjects, 1))
    } else {
        match parse_group(tokens) {
            Err(e) => Err(e),
            Ok(subject) => {
                let subjects = vec![subject];
                assert(views(subjects@) =~= seq![subject@]);
                assert(tokens@.skip(tokens@.len() as int) =~= Seq::<Word>::empty());
                Ok((subjects, tokens.len()))
            },
        }
    }
}

/// Reads a run of tokens as a sentence.
pub fn parse_sentence(tokens: &[Word]) -> (result: Result<Sentence, ParseTPError>)
    ensures
        outcome(result) == spec_parse_sentence(tokens@),
        result matches Ok(read) ==> read@.wf(),
        result matches Err(e) ==> is_reading_error(e@),
    decreases tokens@.len(), 0nat,
{
    proof {
        lemma_sentence_wf(tokens@);
        lemma_sentence_errors(tokens@);
    }
    let length = tokens.len();
    let (context, clause) = match find_last(tokens, Role::Exactly(Word::La)) {
        Some(la) => match parse_fragment(&tokens[0..la]) {
            Err(e) => {
                return Err(e);
            },
            Ok(context) => (Some(Box::new(context)), &tokens[la + 1..length]),
        },
        None => (None, tokens),
    };
    let (subjects, rest) = match parse_subjects(clause) {
        Err(e) => {
            return Err(e);
        },
        Ok(found) => found,
    };
    if rest == clause.len() {
        return Err(ParseTPError::EmptyPredicate);
    }
    match parse_predicates(&clause[rest..clause.len()]) {
        Err(e) => Err(e),
        Ok(predicates) => Ok(Sentence { context, subjects, predicates }),
    }
}

/// Reads what stands before `la`: a sentence where there is a predicate
/// marker, a noun phrase where there is none.
pub fn parse_fragment(tokens: &[Word]) -> (result: Result<Context, ParseTPError>)
    ensures
        outcome(result) == spec_parse_fragment(tokens@),
        result matches Ok(read) ==> read@.wf(),
    decreases tokens@.len(), 1nat,
{
    proof {
        lemma_fragment_wf(tokens@);
    }
    if tokens.len() == 0 {
        return Err(ParseTPError::EmptyContext);
    }
    if find_first(tokens, Role::PredicateMarker) < tokens.len() {
        match parse_sentence(tokens) {
            Err(e) => Err(e),
            Ok(sentence) => Ok(Context::Sentence(sentence)),
        }
    } else {
        match parse_group(tokens) {
            Err(e) => Err(e),
            Ok(group) => Ok(Context::NounPhrase(group)),
        }
    }
}

} // verus!
