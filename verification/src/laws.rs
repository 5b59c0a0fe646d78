//! What holds of every reading that the grammar gives.

use crate::grammar::{
    first_index, last_index, lemma_first_index, lemma_last_index, predicate_end,
    preposition_start, preverb_run, spec_parse_clause, spec_parse_fragment, spec_parse_group,
    spec_parse_groups, spec_parse_predicate, spec_parse_predicates, spec_parse_preposition,
    spec_parse_sentence, spec_parse_subjects, spec_parse_verb_phrase, spec_split_prepositions,
    Role,
};
use crate::types::{
    ContextView, GroupView, ParseTPErrorView, PredicateView, PrepositionView, SentenceView,
    VerbPhraseView,
};
use crate::word::Word;
use vstd::prelude::*;

verus! {

/// Every item of a list is a well-formed noun phrase.
pub open spec fn groups_wf(groups: Seq<GroupView>) -> bool {
    forall|i: int| 0 <= i < groups.len() ==> (#[trigger] groups[i]).wf()
}

/// Every item of a list is a well-formed prepositional phrase.
pub open spec fn prepositions_wf(phrases: Seq<PrepositionView>) -> bool {
    forall|i: int| 0 <= i < phrases.len() ==> (#[trigger] phrases[i]).wf()
}

/// Every item of a list is a well-formed predicate.
pub open spec fn predicates_wf(predicates: Seq<PredicateView>) -> bool {
    forall|i: int| 0 <= i < predicates.len() ==> (#[trigger] predicates[i]).wf()
}

/// A noun phrase that was read is well formed: no head in it is a particle.
pub proof fn lemma_group_wf(words: Seq<Word>)
    ensures
        spec_parse_group(words) matches Ok(group) ==> group.wf(),
    decreases words.len(),
{
    if words.len() > 0 && !words[0].is_particle() {
        let tail = words.drop_first();
        let pi = first_index(tail, Role::Exactly(Word::Pi));
        if 0 <= pi < tail.len() {
            lemma_group_wf(tail.skip(pi + 1));
        }
    }
}

/// A list of noun phrases that was read is not empty, and each of its noun
/// phrases is well formed.
pub proof fn lemma_groups_wf(words: Seq<Word>, separator: Word)
    ensures
        spec_parse_groups(words, separator) matches Ok(groups) ==> groups.len() >= 1 && groups_wf(
            groups,
        ),
    decreases words.len(),
{
    let cut = first_index(words, Role::Exactly(separator));
    if 0 <= cut < words.len() {
        lemma_group_wf(words.take(cut));
        lemma_groups_wf(words.skip(cut + 1), separator);
    } else {
        lemma_group_wf(words);
    }
}

/// The run of preverbs leaves a word behind it, and holds preverbs only.
pub proof fn lemma_preverb_run(words: Seq<Word>)
    requires
        words.len() > 0,
    ensures
        preverb_run(words) < words.len(),
        forall|i: int| 0 <= i < preverb_run(words) ==> (#[trigger] words[i]).is_preverb(),
        preverb_run(words) + 1 < words.len() ==> !words[preverb_run(words) as int].is_preverb(),
    decreases words.len(),
{
    if words.len() > 1 && words[0].is_preverb() {
        let tail = words.drop_first();
        lemma_preverb_run(tail);
        assert forall|i: int| 0 <= i < preverb_run(words) implies (#[trigger] words[i]).is_preverb() by {
            if i > 0 {
                assert(words[i] == tail[i - 1]);
            }
        }
    }
}

/// A verb phrase that was read is well formed.
pub proof fn lemma_verb_phrase_wf(words: Seq<Word>)
    ensures
        spec_parse_verb_phrase(words) matches Ok(phrase) ==> phrase.wf(),
{
    if words.len() > 0 {
        lemma_preverb_run(words);
        lemma_group_wf(words.skip(preverb_run(words) as int));
    }
}

/// A prepositional phrase that was read is well formed.
pub proof fn lemma_preposition_wf(words: Seq<Word>)
    ensures
        spec_parse_preposition(words) matches Ok(phrase) ==> phrase.wf(),
{
    if words.len() > 0 {
        lemma_group_wf(words.drop_first());
    }
}

/// The prepositional phrases that were taken off a predicate are well
/// formed, and what is left is the front of the predicate.
pub proof fn lemma_split_prepositions_wf(words: Seq<Word>)
    ensures
        spec_split_prepositions(words) matches Ok((front, phrases)) ==> {
            &&& front.len() <= words.len()
            &&& front == words.take(front.len() as int)
            &&& prepositions_wf(phrases)
        },
    decreases words.len(),
{
    lemma_last_index(words, Role::Preposition);
    match preposition_start(words) {
        Some(start) => {
            lemma_preposition_wf(words.skip(start));
            lemma_split_prepositions_wf(words.take(start));
            if let Ok((front, phrases)) = spec_split_prepositions(words) {
                assert(front =~= words.take(front.len() as int));
            }
        },
        None => {
            assert(words =~= words.take(words.len() as int));
        },
    }
}

/// A predicate that was read is well formed.
pub proof fn lemma_predicate_wf(words: Seq<Word>)
    ensures
        spec_parse_predicate(words) matches Ok(predicate) ==> predicate.wf(),
{
    if words.len() > 0 {
        let body = if words[0].is_predicate_marker() {
            words.drop_first()
        } else {
            words
        };
        lemma_split_prepositions_wf(body);
        if let Ok((front, phrases)) = spec_split_prepositions(body) {
            let marker = first_index(front, Role::Exactly(Word::E));
            if 0 <= marker < front.len() {
                lemma_verb_phrase_wf(front.take(marker));
                lemma_groups_wf(front.skip(marker + 1), Word::E);
            } else {
                lemma_verb_phrase_wf(front);
            }
        }
    }
}

/// The predicates that were read are well formed, and there is one where
/// there was a word.
pub proof fn lemma_predicates_wf(words: Seq<Word>)
    ensures
        spec_parse_predicates(words) matches Ok(predicates) ==> {
            &&& predicates_wf(predicates)
            &&& words.len() > 0 ==> predicates.len() >= 1
        },
    decreases words.len(),
{
    if words.len() > 0 {
        let end = predicate_end(words);
        lemma_first_index(words.drop_first(), Role::PredicateMarker);
        lemma_predicate_wf(words.take(end));
        lemma_predicates_wf(words.skip(end));
    }
}

/// The subjects that were read are well formed, there is at least one, and
/// what is left for the predicates is the end of the clause.
pub proof fn lemma_subjects_wf(words: Seq<Word>)
    ensures
        spec_parse_subjects(words) matches Ok((subjects, rest)) ==> {
            &&& subjects.len() >= 1
            &&& groups_wf(subjects)
            &&& rest.len() <= words.len()
            &&& rest == words.skip(words.len() - rest.len())
        },
{
    let marker = first_index(words, Role::PredicateMarker);
    lemma_first_index(words, Role::PredicateMarker);
    if 0 <= marker < words.len() {
        if marker == 0 {
            assert(words =~= words.skip(0));
        } else {
            lemma_groups_wf(words.take(marker), Word::En);
        }
    } else if words.len() > 0 && (words[0] == Word::Mi || words[0] == Word::Sina) {
    } else {
        lemma_group_wf(words);
        assert(Seq::<Word>::empty() =~= words.skip(words.len() as int));
    }
}

/// A clause that was read is a well-formed sentence where its context is
/// well formed.
pub proof fn lemma_clause_wf(context: Option<Box<ContextView>>, words: Seq<Word>)
    requires
        context matches Some(inner) ==> inner.wf(),
    ensures
        spec_parse_clause(context, words) matches Ok(sentence) ==> sentence.wf(),
{
    lemma_subjects_wf(words);
    if let Ok((subjects, rest)) = spec_parse_subjects(words) {
        lemma_predicates_wf(rest);
    }
}

/// A sentence that was read is well formed: it has a subject and a
/// predicate, no noun phrase in it is headed by a particle, every preverb
/// is a preverb and every prepositional phrase opens with a preposition.
pub proof fn lemma_sentence_wf(words: Seq<Word>)
    ensures
        spec_parse_sentence(words) matches Ok(sentence) ==> sentence.wf(),
    decreases words.len(), 0nat,
{
    let la = last_index(words, Role::Exactly(Word::La));
    if 0 <= la < words.len() {
        lemma_fragment_wf(words.take(la));
        if let Ok(context) = spec_parse_fragment(words.take(la)) {
            lemma_clause_wf(Some(Box::new(context)), words.skip(la + 1));
        }
    } else {
        lemma_clause_wf(None, words);
    }
}

/// A context that was read is well formed.
pub proof fn lemma_fragment_wf(words: Seq<Word>)
    ensures
        spec_parse_fragment(words) matches Ok(context) ==> context.wf(),
    decreases words.len(), 1nat,
{
    if words.len() > 0 {
        if first_index(words, Role::PredicateMarker) < words.len() {
            lemma_sentence_wf(words);
        } else {
            lemma_group_wf(words);
        }
    }
}

/// The sentence of one subject and one predicate that is a single verb.
pub open spec fn simple_sentence(subject: Word, verb: Word) -> SentenceView {
    SentenceView {
        context: None,
        subjects: seq![GroupView::from_word(subject)],
        predicates: seq![
            PredicateView {
                imperative: false,
                verb: VerbPhraseView { preverbs: Seq::empty(), verb: GroupView::from_word(verb) },
                objects: Seq::empty(),
                prepositions: Seq::empty(),
            },
        ],
    }
}

/// One word that is no particle is a noun phrase of its own.
pub proof fn lemma_single_word_group(word: Word)
    requires
        !word.is_particle(),
    ensures
        spec_parse_group(seq![word]) == Ok::<_, ParseTPErrorView>(GroupView::from_word(word)),
{
    let words = seq![word];
    assert(words.drop_first() =~= Seq::<Word>::empty());
}

/// One word that is no particle is a predicate of its own, with or without
/// `li` before it.
pub proof fn lemma_single_word_predicate(verb: Word)
    requires
        !verb.is_particle(),
    ensures
        spec_parse_predicate(seq![verb]) == Ok::<_, ParseTPErrorView>(
            simple_sentence(Word::Mi, verb).predicates[0],
        ),
        spec_parse_predicate(seq![Word::Li, verb]) == Ok::<_, ParseTPErrorView>(
            simple_sentence(Word::Mi, verb).predicates[0],
        ),
{
    let body = seq![verb];
    assert(seq![Word::Li, verb].drop_first() =~= body);
    assert(body.drop_last() =~= Seq::<Word>::empty());
    assert(body.drop_first() =~= Seq::<Word>::empty());
    assert(last_index(body, Role::Preposition) <= 0) by {
        reveal_with_fuel(last_index, 2);
    }
    assert(preposition_start(body) is None);
    assert(first_index(body, Role::Exactly(Word::E)) == 1) by {
        reveal_with_fuel(first_index, 2);
    }
    assert(preverb_run(body) == 0);
    assert(body.skip(0) =~= body);
    assert(body.take(0) =~= Seq::<Word>::empty());
    lemma_single_word_group(verb);
}

/// `mi` or `sina` and a verb make a sentence without any marker.
pub proof fn lemma_pronoun_and_verb(subject: Word, verb: Word)
    requires
        subject == Word::Mi || subject == Word::Sina,
        !verb.is_particle(),
    ensures
        spec_parse_sentence(seq![subject, verb]) == Ok::<_, ParseTPErrorView>(
            simple_sentence(subject, verb),
        ),
{
    let words = seq![subject, verb];
    let rest = seq![verb];
    assert(words.drop_first() =~= rest);
    assert(words.drop_last() =~= seq![subject]);
    assert(seq![subject].drop_last() =~= Seq::<Word>::empty());
    assert(rest.drop_first() =~= Seq::<Word>::empty());
    assert(last_index(words, Role::Exactly(Word::La)) == -1) by {
        reveal_with_fuel(last_index, 3);
    }
    assert(first_index(words, Role::PredicateMarker) == 2) by {
        reveal_with_fuel(first_index, 3);
    }
    assert(predicate_end(rest) == 1);
    assert(words.skip(1) =~= rest);
    assert(rest.take(1) =~= rest);
    assert(rest.skip(1) =~= Seq::<Word>::empty());
    lemma_single_word_predicate(verb);
    let predicate = simple_sentence(subject, verb).predicates[0];
    assert(seq![predicate] + Seq::empty() =~= simple_sentence(subject, verb).predicates);
    assert(spec_parse_predicates(Seq::<Word>::empty()) == Ok::<_, ParseTPErrorView>(
        Seq::<PredicateView>::empty(),
    ));
    assert(spec_parse_predicates(rest) == Ok::<_, ParseTPErrorView>(
        simple_sentence(subject, verb).predicates,
    ));
    assert(spec_parse_subjects(words) == Ok::<_, ParseTPErrorView>(
        (seq![GroupView::from_word(subject)], rest),
    ));
}

/// A subject of one word, `li` and a verb make a sentence.
pub proof fn lemma_subject_li_verb(subject: Word, verb: Word)
    requires
        !subject.is_particle(),
        subject != Word::En,
        !verb.is_particle(),
    ensures
        spec_parse_sentence(seq![subject, Word::Li, verb]) == Ok::<_, ParseTPErrorView>(
            simple_sentence(subject, verb),
        ),
{
    let words = seq![subject, Word::Li, verb];
    let rest = seq![Word::Li, verb];
    assert(words.drop_first() =~= rest);
    assert(rest.drop_first() =~= seq![verb]);
    assert(seq![verb].drop_first() =~= Seq::<Word>::empty());
    assert(words.drop_last() =~= seq![subject, Word::Li]);
    assert(seq![subject, Word::Li].drop_last() =~= seq![subject]);
    assert(seq![subject].drop_last() =~= Seq::<Word>::empty());
    assert(seq![subject].drop_first() =~= Seq::<Word>::empty());
    assert(last_index(words, Role::Exactly(Word::La)) == -1) by {
        reveal_with_fuel(last_index, 4);
    }
    assert(first_index(words, Role::PredicateMarker) == 1) by {
        reveal_with_fuel(first_index, 2);
    }
    assert(words.take(1) =~= seq![subject]);
    assert(words.skip(1) =~= rest);
    assert(first_index(seq![subject], Role::Exactly(Word::En)) == 1) by {
        reveal_with_fuel(first_index, 2);
    }
    lemma_single_word_group(subject);
    assert(first_index(seq![verb], Role::PredicateMarker) == 1) by {
        reveal_with_fuel(first_index, 2);
    }
    assert(predicate_end(rest) == 2);
    assert(rest.take(2) =~= rest);
    assert(rest.skip(2) =~= Seq::<Word>::empty());
    lemma_single_word_predicate(verb);
    let predicate = simple_sentence(subject, verb).predicates[0];
    assert(seq![predicate] + Seq::empty() =~= simple_sentence(subject, verb).predicates);
    assert(spec_parse_predicates(Seq::<Word>::empty()) == Ok::<_, ParseTPErrorView>(
        Seq::<PredicateView>::empty(),
    ));
    assert(spec_parse_predicates(rest) == Ok::<_, ParseTPErrorView>(
        simple_sentence(subject, verb).predicates,
    ));
    assert(spec_parse_groups(seq![subject], Word::En) == Ok::<_, ParseTPErrorView>(
        seq![GroupView::from_word(subject)],
    ));
    assert(spec_parse_subjects(words) == Ok::<_, ParseTPErrorView>(
        (seq![GroupView::from_word(subject)], rest),
    ));
}

/// The errors that reading words can end in: an empty span or a particle
/// at the head of a noun phrase.
pub open spec fn is_reading_error(error: ParseTPErrorView) -> bool {
    match error {
        ParseTPErrorView::EmptyNounPhrase => true,
        ParseTPErrorView::EmptyContext => true,
        ParseTPErrorView::EmptySubject => true,
        ParseTPErrorView::EmptyPredicate => true,
        ParseTPErrorView::EmptyVerbPhrase => true,
        ParseTPErrorView::InvalidNoun(word) => word.is_particle(),
        _ => false,
    }
}

/// A noun phrase fails only for being empty or for a particle at a head.
pub proof fn lemma_group_errors(words: Seq<Word>)
    ensures
        spec_parse_group(words) matches Err(e) ==> (e == ParseTPErrorView::EmptyNounPhrase || (e
            matches ParseTPErrorView::InvalidNoun(word) && word.is_particle())),
    decreases words.len(),
{
    if words.len() > 0 && !words[0].is_particle() {
        let tail = words.drop_first();
        let pi = first_index(tail, Role::Exactly(Word::Pi));
        if 0 <= pi < tail.len() {
            lemma_group_errors(tail.skip(pi + 1));
        }
    }
}

/// A list of noun phrases fails only as a noun phrase does.
pub proof fn lemma_groups_errors(words: Seq<Word>, separator: Word)
    ensures
        spec_parse_groups(words, separator) matches Err(e) ==> is_reading_error(e),
    decreases words.len(),
{
    let cut = first_index(words, Role::Exactly(separator));
    if 0 <= cut < words.len() {
        lemma_group_errors(words.take(cut));
        lemma_groups_errors(words.skip(cut + 1), separator);
    } else {
        lemma_group_errors(words);
    }
}

/// Taking the prepositional phrases off a predicate fails only as a noun
/// phrase does: what opens a phrase there is a preposition.
pub proof fn lemma_split_prepositions_errors(words: Seq<Word>)
    ensures
        spec_split_prepositions(words) matches Err(e) ==> is_reading_error(e),
    decreases words.len(),
{
    lemma_last_index(words, Role::Preposition);
    if let Some(start) = preposition_start(words) {
        let phrase = words.skip(start);
        assert(phrase[0] == words[start]);
        lemma_group_errors(phrase.drop_first());
        lemma_split_prepositions_errors(words.take(start));
    }
}

/// A predicate fails only with an error of reading.
pub proof fn lemma_predicate_errors(words: Seq<Word>)
    ensures
        spec_parse_predicate(words) matches Err(e) ==> is_reading_error(e),
{
    if words.len() > 0 {
        let body = if words[0].is_predicate_marker() {
            words.drop_first()
        } else {
            words
        };
        lemma_split_prepositions_errors(body);
        if let Ok((front, phrases)) = spec_split_prepositions(body) {
            let marker = first_index(front, Role::Exactly(Word::E));
            if 0 <= marker < front.len() {
                let verb = front.take(marker);
                if verb.len() > 0 {
                    lemma_group_errors(verb.skip(preverb_run(verb) as int));
                }
                lemma_groups_errors(front.skip(marker + 1), Word::E);
            } else if front.len() > 0 {
                lemma_group_errors(front.skip(preverb_run(front) as int));
            }
        }
    }
}

/// A chain of predicates fails only with an error of reading.
pub proof fn lemma_predicates_errors(words: Seq<Word>)
    ensures
        spec_parse_predicates(words) matches Err(e) ==> is_reading_error(e),
    decreases words.len(),
{
    if words.len() > 0 {
        let end = predicate_end(words);
        lemma_first_index(words.drop_first(), Role::PredicateMarker);
        lemma_predicate_errors(words.take(end));
        lemma_predicates_errors(words.skip(end));
    }
}

/// A clause fails only with an error of reading.
pub proof fn lemma_clause_errors(context: Option<Box<ContextView>>, words: Seq<Word>)
    ensures
        spec_parse_clause(context, words) matches Err(e) ==> is_reading_error(e),
{
    let marker = first_index(words, Role::PredicateMarker);
    lemma_first_index(words, Role::PredicateMarker);
    if 0 <= marker < words.len() {
        if marker > 0 {
            lemma_groups_errors(words.take(marker), Word::En);
        }
    } else {
        lemma_group_errors(words);
    }
    if let Ok((subjects, rest)) = spec_parse_subjects(words) {
        lemma_predicates_errors(rest);
    }
}

/// A sentence fails only with an error of reading: never for a subject or
/// a preposition that is none, which the grammar does not let arise.
pub proof fn lemma_sentence_errors(words: Seq<Word>)
    ensures
        spec_parse_sentence(words) matches Err(e) ==> is_reading_error(e),
    decreases words.len(), 0nat,
{
    let la = last_index(words, Role::Exactly(Word::La));
    if 0 <= la < words.len() {
        lemma_fragment_errors(words.take(la));
        if let Ok(context) = spec_parse_fragment(words.take(la)) {
            lemma_clause_errors(Some(Box::new(context)), words.skip(la + 1));
        }
    } else {
        lemma_clause_errors(None, words);
    }
}

/// A context fails only with an error of reading.
pub proof fn lemma_fragment_errors(words: Seq<Word>)
    ensures
        spec_parse_fragment(words) matches Err(e) ==> is_reading_error(e),
    decreases words.len(), 1nat,
{
    if words.len() > 0 {
        if first_index(words, Role::PredicateMarker) < words.len() {
            lemma_sentence_errors(words);
        } else {
            lemma_group_errors(words);
        }
    }
}

/// A sentence that opens with `la` has an empty context.
pub proof fn lemma_leading_la(words: Seq<Word>)
    requires
        words.len() > 0,
        words[0] == Word::La,
        last_index(words, Role::Exactly(Word::La)) == 0,
    ensures
        spec_parse_sentence(words) == Err::<SentenceView, _>(ParseTPErrorView::EmptyContext),
{
    assert(words.take(0).len() == 0);
}

/// A clause that opens with `li` has no subject, whatever follows.
pub proof fn lemma_leading_li(words: Seq<Word>)
    requires
        words.len() > 0,
        words[0] == Word::Li,
        last_index(words, Role::Exactly(Word::La)) == -1,
    ensures
        spec_parse_sentence(words) == Err::<SentenceView, _>(ParseTPErrorView::EmptySubject),
{
}

/// A word that does not play a role, put before a run of words, moves the
/// first and the last word that play it one place on.
pub proof fn lemma_index_after_prepend(word: Word, words: Seq<Word>, role: Role)
    requires
        !role.fits(word),
    ensures
        first_index(seq![word] + words, role) == 1 + first_index(words, role),
        last_index(seq![word] + words, role) == if last_index(words, role) >= 0 {
            last_index(words, role) + 1
        } else {
            -1
        },
    decreases words.len(),
{
    let longer = seq![word] + words;
    assert(longer.drop_first() =~= words);
    assert(longer[0] == word);
    lemma_last_index(words, role);
    if words.len() == 0 {
        assert(longer.drop_last() =~= Seq::<Word>::empty());
        assert(last_index(Seq::<Word>::empty(), role) == -1);
        assert(longer.last() == word);
    } else {
        assert(longer.last() == words.last());
        assert(longer.drop_last() =~= seq![word] + words.drop_last());
        lemma_index_after_prepend(word, words.drop_last(), role);
    }
}

/// A sentence that opens with `o` is read as the same sentence with `sina`
/// before it: the bare imperative has the subject `sina`.
pub proof fn lemma_bare_imperative(words: Seq<Word>)
    requires
        words.len() > 0,
        words[0] == Word::O,
    ensures
        spec_parse_sentence(seq![Word::Sina] + words) == spec_parse_sentence(words),
    decreases words.len(),
{
    let longer = seq![Word::Sina] + words;
    let la = last_index(words, Role::Exactly(Word::La));
    lemma_index_after_prepend(Word::Sina, words, Role::Exactly(Word::La));
    lemma_last_index(words, Role::Exactly(Word::La));
    if 0 <= la {
        let before = words.take(la);
        assert(before[0] == words[0]);
        assert(longer.take(la + 1) =~= seq![Word::Sina] + before);
        assert(longer.skip(la + 2) =~= words.skip(la + 1));
        lemma_index_after_prepend(Word::Sina, before, Role::PredicateMarker);
        lemma_bare_imperative(before);
    } else {
        lemma_index_after_prepend(Word::Sina, words, Role::PredicateMarker);
        assert(longer.take(1) =~= seq![Word::Sina]);
        assert(longer.skip(1) =~= words);
        assert(first_index(seq![Word::Sina], Role::Exactly(Word::En)) == 1) by {
            reveal_with_fuel(first_index, 2);
        }
        lemma_single_word_group(Word::Sina);
    }
}

/// The words of a noun phrase, in the order in which they are said.
pub open spec fn group_words(group: GroupView) -> Seq<Word>
    decreases group,
{
    seq![group.word] + group.modifiers + match group.of {
        Some(inner) => seq![Word::Pi] + group_words(*inner),
        None => Seq::empty(),
    }
}

/// The words of a list of noun phrases with `separator` between them.
pub open spec fn groups_words(groups: Seq<GroupView>, separator: Word) -> Seq<Word>
    decreases groups.len(),
{
    if groups.len() == 0 {
        Seq::empty()
    } else if groups.len() == 1 {
        group_words(groups[0])
    } else {
        group_words(groups[0]) + seq![separator] + groups_words(groups.drop_first(), separator)
    }
}

/// The words of a verb phrase.
pub open spec fn verb_phrase_words(phrase: VerbPhraseView) -> Seq<Word> {
    phrase.preverbs + group_words(phrase.verb)
}

/// The words of a prepositional phrase.
pub open spec fn preposition_words(phrase: PrepositionView) -> Seq<Word> {
    seq![phrase.preposition] + group_words(phrase.noun)
}

/// The words of a list of prepositional phrases, one phrase after the other.
pub open spec fn prepositions_words(phrases: Seq<PrepositionView>) -> Seq<Word>
    decreases phrases.len(),
{
    if phrases.len() == 0 {
        Seq::empty()
    } else {
        prepositions_words(phrases.drop_last()) + preposition_words(phrases.last())
    }
}

/// The words of a predicate behind its marker: the verb phrase, each object
/// behind `e`, and the prepositional phrases.
pub open spec fn predicate_words(predicate: PredicateView) -> Seq<Word> {
    verb_phrase_words(predicate.verb) + (if predicate.objects.len() == 0 {
        Seq::empty()
    } else {
        seq![Word::E] + groups_words(predicate.objects, Word::E)
    }) + prepositions_words(predicate.prepositions)
}

/// A noun phrase that was read holds the words it was read from, in their
/// order: nothing is lost and nothing is moved.
pub proof fn lemma_group_words(words: Seq<Word>)
    ensures
        spec_parse_group(words) matches Ok(group) ==> group_words(group) == words,
    decreases words.len(),
{
    if words.len() > 0 && !words[0].is_particle() {
        let tail = words.drop_first();
        let pi = first_index(tail, Role::Exactly(Word::Pi));
        lemma_first_index(tail, Role::Exactly(Word::Pi));
        if 0 <= pi < tail.len() {
            lemma_group_words(tail.skip(pi + 1));
            if let Ok(inner) = spec_parse_group(tail.skip(pi + 1)) {
                assert(seq![words[0]] + tail.take(pi) + (seq![Word::Pi] + tail.skip(pi + 1))
                    =~= words);
            }
        } else {
            assert(seq![words[0]] + tail + Seq::<Word>::empty() =~= words);
        }
    }
}

/// A list of noun phrases that was read holds the words it was read from,
/// each noun phrase in its place.
pub proof fn lemma_groups_words(words: Seq<Word>, separator: Word)
    ensures
        spec_parse_groups(words, separator) matches Ok(groups) ==> groups_words(groups, separator)
            == words,
    decreases words.len(),
{
    let cut = first_index(words, Role::Exactly(separator));
    lemma_first_index(words, Role::Exactly(separator));
    if 0 <= cut < words.len() {
        lemma_group_words(words.take(cut));
        lemma_groups_words(words.skip(cut + 1), separator);
        lemma_groups_wf(words.skip(cut + 1), separator);
        if let Ok(group) = spec_parse_group(words.take(cut)) {
            if let Ok(others) = spec_parse_groups(words.skip(cut + 1), separator) {
                let groups = seq![group] + others;
                assert(groups[0] == group);
                assert(groups.drop_first() =~= others);
                assert(words.take(cut) + seq![separator] + words.skip(cut + 1) =~= words);
            }
        }
    } else {
        lemma_group_words(words);
    }
}

/// A verb phrase that was read holds the words it was read from.
pub proof fn lemma_verb_phrase_words(words: Seq<Word>)
    ensures
        spec_parse_verb_phrase(words) matches Ok(phrase) ==> verb_phrase_words(phrase) == words,
{
    if words.len() > 0 {
        lemma_preverb_run(words);
        let run = preverb_run(words) as int;
        lemma_group_words(words.skip(run));
        assert(words.take(run) + words.skip(run) =~= words);
    }
}

/// A prepositional phrase that was read holds the words it was read from.
pub proof fn lemma_preposition_words(words: Seq<Word>)
    ensures
        spec_parse_preposition(words) matches Ok(phrase) ==> preposition_words(phrase) == words,
{
    if words.len() > 0 {
        lemma_group_words(words.drop_first());
        assert(seq![words[0]] + words.drop_first() =~= words);
    }
}

/// The prepositional phrases that were taken off a predicate stand in the
/// order of the text: what was left in front and the phrases, one after the
/// other, are the words of the predicate.
pub proof fn lemma_split_prepositions_words(words: Seq<Word>)
    ensures
        spec_split_prepositions(words) matches Ok((front, phrases)) ==> front + prepositions_words(
            phrases,
        ) == words,
    decreases words.len(),
{
    lemma_last_index(words, Role::Preposition);
    match preposition_start(words) {
        Some(start) => {
            lemma_preposition_words(words.skip(start));
            lemma_split_prepositions_words(words.take(start));
            if let Ok(phrase) = spec_parse_preposition(words.skip(start)) {
                if let Ok((front, earlier)) = spec_split_prepositions(words.take(start)) {
                    let phrases = earlier.push(phrase);
                    assert(phrases.drop_last() =~= earlier);
                    assert(phrases.last() == phrase);
                    assert(front + (prepositions_words(earlier) + words.skip(start)) =~= (front
                        + prepositions_words(earlier)) + words.skip(start));
                    assert(words.take(start) + words.skip(start) =~= words);
                }
            }
        },
        None => {
            assert(words + Seq::<Word>::empty() =~= words);
        },
    }
}

/// A predicate that was read holds the words that stand behind its marker:
/// the verb phrase, the objects and the prepositional phrases follow one
/// another as in the text.
pub proof fn lemma_predicate_words(words: Seq<Word>)
    requires
        words.len() > 0,
    ensures
        spec_parse_predicate(words) matches Ok(predicate) ==> predicate_words(predicate) == (
        if words[0].is_predicate_marker() {
            words.drop_first()
        } else {
            words
        }),
{
    let body = if words[0].is_predicate_marker() {
        words.drop_first()
    } else {
        words
    };
    lemma_split_prepositions_words(body);
    if let Ok((front, phrases)) = spec_split_prepositions(body) {
        let marker = first_index(front, Role::Exactly(Word::E));
        lemma_first_index(front, Role::Exactly(Word::E));
        if 0 <= marker < front.len() {
            lemma_verb_phrase_words(front.take(marker));
            lemma_groups_words(front.skip(marker + 1), Word::E);
            lemma_groups_wf(front.skip(marker + 1), Word::E);
            assert(front.take(marker) + (seq![Word::E] + front.skip(marker + 1)) =~= front);
        } else {
            lemma_verb_phrase_words(front);
            assert(front + Seq::<Word>::empty() =~= front);
        }
    }
}

/// How many words of a run play a role.
pub open spec fn count(words: Seq<Word>, role: Role) -> nat
    decreases words.len(),
{
    if words.len() == 0 {
        0
    } else if role.fits(words[0]) {
        1 + count(words.drop_first(), role)
    } else {
        count(words.drop_first(), role)
    }
}

/// Before the first word that plays a role none is counted: the count of a
/// run is the count of what begins at that word.
pub proof fn lemma_count_from_first(words: Seq<Word>, role: Role)
    ensures
        count(words, role) == count(words.skip(first_index(words, role)), role),
    decreases words.len(),
{
    if words.len() == 0 || role.fits(words[0]) {
        assert(words.skip(0) =~= words);
    } else {
        let tail = words.drop_first();
        lemma_first_index(tail, role);
        lemma_count_from_first(tail, role);
        assert(tail.skip(first_index(tail, role)) =~= words.skip(first_index(words, role)));
    }
}

/// A list of noun phrases that was read has one noun phrase more than there
/// are separators: each separator opens exactly one more.
pub proof fn lemma_groups_count(words: Seq<Word>, separator: Word)
    ensures
        spec_parse_groups(words, separator) matches Ok(groups) ==> groups.len() == 1 + count(
            words,
            Role::Exactly(separator),
        ),
    decreases words.len(),
{
    let role = Role::Exactly(separator);
    let cut = first_index(words, role);
    lemma_first_index(words, role);
    lemma_count_from_first(words, role);
    if 0 <= cut < words.len() {
        let rest = words.skip(cut);
        assert(rest[0] == words[cut]);
        assert(rest.drop_first() =~= words.skip(cut + 1));
        lemma_groups_count(words.skip(cut + 1), separator);
    } else {
        assert(words.skip(cut).len() == 0);
    }
}

/// A chain of predicates that was read has one predicate for its first word
/// and one more for each predicate marker behind it.
pub proof fn lemma_predicates_count(words: Seq<Word>)
    requires
        words.len() > 0,
    ensures
        spec_parse_predicates(words) matches Ok(predicates) ==> predicates.len() == 1 + count(
            words.drop_first(),
            Role::PredicateMarker,
        ),
    decreases words.len(),
{
    let tail = words.drop_first();
    let end = predicate_end(words);
    lemma_first_index(tail, Role::PredicateMarker);
    lemma_count_from_first(tail, Role::PredicateMarker);
    let rest = words.skip(end);
    assert(rest =~= tail.skip(end - 1));
    if rest.len() > 0 {
        assert(rest[0] == tail[end - 1]);
        lemma_predicates_count(rest);
    }
}

} // verus!
