//! The grammar, stated over sequences of words: what each kind of phrase is
//! on a given run of words, or the error that the run ends in.

use crate::types::{
    ContextView, GroupView, ParseTPErrorView, PredicateView, PrepositionView, SentenceView,
    VerbPhraseView,
};
use crate::word::Word;
use vstd::prelude::*;

verus! {

/// What the grammar looks for when it scans a run of words.
#[derive(Debug, PartialEq, Eq, Clone, Copy, Structural)]
pub enum Role {
    /// One given word.
    Exactly(Word),
    /// `li` or `o`.
    PredicateMarker,
    /// `tawa`, `kepeken` or `lon`.
    Preposition,
}

impl Role {
    /// The word is the one sought, or one of the words of the class.
    pub open spec fn spec_fits(&self, word: Word) -> bool {
        match self {
            Role::Exactly(sought) => word == *sought,
            Role::PredicateMarker => word.is_predicate_marker(),
            Role::Preposition => word.is_preposition(),
        }
    }

    /// Whether a word plays the role.
    #[verifier::when_used_as_spec(spec_fits)]
    pub fn fits(&self, word: Word) -> (b: bool)
        ensures
            b == self.spec_fits(word),
    {
        match self {
            Role::Exactly(sought) => word == *sought,
            Role::PredicateMarker => word.is_predicate_marker(),
            Role::Preposition => word.is_preposition(),
        }
    }
}

/// The position of the first word that plays `role`, or the length of
/// `words` where none does.
pub open spec fn first_index(words: Seq<Word>, role: Role) -> int
    decreases words.len(),
{
    if words.len() == 0 {
        0
    } else if role.fits(words[0]) {
        0
    } else {
        1 + first_index(words.drop_first(), role)
    }
}

/// The position of the last word that plays `role`, or -1 where none does.
pub open spec fn last_index(words: Seq<Word>, role: Role) -> int
    decreases words.len(),
{
    if words.len() == 0 {
        -1
    } else if role.fits(words.last()) {
        words.len() - 1
    } else {
        last_index(words.drop_last(), role)
    }
}

/// `first_index` is the least position of a word that plays the role.
pub proof fn lemma_first_index(words: Seq<Word>, role: Role)
    ensures
        0 <= first_index(words, role) <= words.len(),
        first_index(words, role) < words.len() ==> role.fits(words[first_index(words, role)]),
        forall|i: int| 0 <= i < first_index(words, role) ==> !role.fits(#[trigger] words[i]),
    decreases words.len(),
{
    if words.len() > 0 && !role.fits(words[0]) {
        let tail = words.drop_first();
        lemma_first_index(tail, role);
        assert forall|i: int| 0 <= i < first_index(words, role) implies !role.fits(
            #[trigger] words[i],
        ) by {
            if i > 0 {
                assert(words[i] == tail[i - 1]);
            }
        }
    }
}

/// `last_index` is the greatest position of a word that plays the role.
pub proof fn lemma_last_index(words: Seq<Word>, role: Role)
    ensures
        -1 <= last_index(words, role) < words.len(),
        0 <= last_index(words, role) ==> role.fits(words[last_index(words, role)]),
        forall|i: int| last_index(words, role) < i < words.len() ==> !role.fits(#[trigger] words[i]),
    decreases words.len(),
{
    if words.len() > 0 && !role.fits(words.last()) {
        let front = words.drop_last();
        lemma_last_index(front, role);
        assert forall|i: int| last_index(words, role) < i < words.len() implies !role.fits(
            #[trigger] words[i],
        ) by {
            if i < words.len() - 1 {
                assert(words[i] == front[i]);
            }
        }
    }
}

/// What a list comes to when `done` is already read and `rest` is the
/// reading of what follows: the two joined, or the error of `rest`.
pub open spec fn after<V>(done: Seq<V>, rest: Result<Seq<V>, ParseTPErrorView>) -> Result<
    Seq<V>,
    ParseTPErrorView,
> {
    match rest {
        Ok(others) => Ok(done + others),
        Err(e) => Err(e),
    }
}

/// Reading one more item first and the rest after it is reading the rest
/// after the longer list.
pub proof fn lemma_after_push<V>(done: Seq<V>, item: V, rest: Result<Seq<V>, ParseTPErrorView>)
    ensures
        after(done, after(seq![item], rest)) == after(done.push(item), rest),
{
    if let Ok(others) = rest {
        assert(done + (seq![item] + others) =~= done.push(item) + others);
    }
}

/// A noun phrase: a head that is no particle, then its modifiers up to the
/// first `pi`, then the noun phrase that follows that `pi`.
pub open spec fn spec_parse_group(words: Seq<Word>) -> Result<GroupView, ParseTPErrorView>
    decreases words.len(),
{
    if words.len() == 0 {
        Err(ParseTPErrorView::EmptyNounPhrase)
    } else if words[0].is_particle() {
        Err(ParseTPErrorView::InvalidNoun(words[0]))
    } else {
        let tail = words.drop_first();
        let pi = first_index(tail, Role::Exactly(Word::Pi));
        if 0 <= pi < tail.len() {
            match spec_parse_group(tail.skip(pi + 1)) {
                Ok(inner) => Ok(
                    GroupView { word: words[0], modifiers: tail.take(pi), of: Some(Box::new(inner)) },
                ),
                Err(e) => Err(e),
            }
        } else {
            Ok(GroupView { word: words[0], modifiers: tail, of: None })
        }
    }
}

/// The noun phrases that `separator` parts, in order; the first one that
/// fails gives the error.
pub open spec fn spec_parse_groups(words: Seq<Word>, separator: Word) -> Result<
    Seq<GroupView>,
    ParseTPErrorView,
>
    decreases words.len(),
{
    let cut = first_index(words, Role::Exactly(separator));
    if 0 <= cut < words.len() {
        match spec_parse_group(words.take(cut)) {
            Err(e) => Err(e),
            Ok(group) => after(seq![group], spec_parse_groups(words.skip(cut + 1), separator)),
        }
    } else {
        match spec_parse_group(words) {
            Err(e) => Err(e),
            Ok(group) => Ok(seq![group]),
        }
    }
}

/// How many leading preverbs a verb phrase takes: a preverb is taken only
/// while another word follows it.
pub open spec fn preverb_run(words: Seq<Word>) -> nat
    decreases words.len(),
{
    if words.len() > 1 && words[0].is_preverb() {
        1 + preverb_run(words.drop_first())
    } else {
        0
    }
}

/// A verb phrase: its run of preverbs, then a noun phrase as the verb.
pub open spec fn spec_parse_verb_phrase(words: Seq<Word>) -> Result<
    VerbPhraseView,
    ParseTPErrorView,
> {
    if words.len() == 0 {
        Err(ParseTPErrorView::EmptyVerbPhrase)
    } else {
        let run = preverb_run(words) as int;
        match spec_parse_group(words.skip(run)) {
            Err(e) => Err(e),
            Ok(verb) => Ok(VerbPhraseView { preverbs: words.take(run), verb }),
        }
    }
}

/// A prepositional phrase: a preposition, then the noun phrase it governs.
pub open spec fn spec_parse_preposition(words: Seq<Word>) -> Result<
    PrepositionView,
    ParseTPErrorView,
> {
    if words.len() == 0 {
        Err(ParseTPErrorView::EmptyPreposition)
    } else {
        match spec_parse_group(words.drop_first()) {
            Err(e) => Err(e),
            Ok(noun) => if words[0].is_preposition() {
                Ok(PrepositionView { preposition: words[0], noun })
            } else {
                Err(ParseTPErrorView::InvalidPreposition(words[0]))
            },
        }
    }
}

/// Where the last prepositional phrase of a predicate begins, if it has one.
///
/// The last preposition of `words` opens a phrase only if a word follows it
/// and it stands at least two places after the last `e`, or after the start
/// where there is no `e`.
pub open spec fn preposition_start(words: Seq<Word>) -> Option<int> {
    let preposition = last_index(words, Role::Preposition);
    let object_marker = last_index(words, Role::Exactly(Word::E));
    let floor = if object_marker < 0 {
        0
    } else {
        object_marker
    };
    if 0 <= preposition && floor + 2 <= preposition && preposition + 2 <= words.len() {
        Some(preposition)
    } else {
        None
    }
}

/// A predicate's words with the trailing prepositional phrases taken off:
/// what is left in front, and the phrases in the order of the text. The
/// phrases are read from the last one back, and the first that fails gives
/// the error.
pub open spec fn spec_split_prepositions(words: Seq<Word>) -> Result<
    (Seq<Word>, Seq<PrepositionView>),
    ParseTPErrorView,
>
    decreases words.len(),
{
    proof {
        lemma_last_index(words, Role::Preposition);
    }
    match preposition_start(words) {
        Some(start) => match spec_parse_preposition(words.skip(start)) {
            Err(e) => Err(e),
            Ok(phrase) => match spec_split_prepositions(words.take(start)) {
                Err(e) => Err(e),
                Ok((front, phrases)) => Ok((front, phrases.push(phrase))),
            },
        },
        None => Ok((words, Seq::empty())),
    }
}

/// A predicate: an optional marker that sets the mood, the verb phrase, the
/// objects that `e` introduces, and the trailing prepositional phrases.
pub open spec fn spec_parse_predicate(words: Seq<Word>) -> Result<
    PredicateView,
    ParseTPErrorView,
> {
    if words.len() == 0 {
        Err(ParseTPErrorView::EmptyPredicate)
    } else {
        let imperative = words[0] == Word::O;
        let body = if words[0].is_predicate_marker() {
            words.drop_first()
        } else {
            words
        };
        match spec_split_prepositions(body) {
            Err(e) => Err(e),
            Ok((front, prepositions)) => {
                let marker = first_index(front, Role::Exactly(Word::E));
                if 0 <= marker < front.len() {
                    match spec_parse_verb_phrase(front.take(marker)) {
                        Err(e) => Err(e),
                        Ok(verb) => match spec_parse_groups(front.skip(marker + 1), Word::E) {
                            Err(e) => Err(e),
                            Ok(objects) => Ok(
                                PredicateView { imperative, verb, objects, prepositions },
                            ),
                        },
                    }
                } else {
                    match spec_parse_verb_phrase(front) {
                        Err(e) => Err(e),
                        Ok(verb) => Ok(
                            PredicateView { imperative, verb, objects: Seq::empty(), prepositions },
                        ),
                    }
                }
            },
        }
    }
}

/// Where the first predicate of a non-empty run ends: at the first predicate
/// marker after its first word, or at the end of the run.
pub open spec fn predicate_end(words: Seq<Word>) -> int {
    1 + first_index(words.drop_first(), Role::PredicateMarker)
}

/// The predicates of a run of words, each reaching to the next predicate
/// marker; the first one that fails gives the error.
pub open spec fn spec_parse_predicates(words: Seq<Word>) -> Result<
    Seq<PredicateView>,
    ParseTPErrorView,
>
    decreases words.len(),
{
    if words.len() == 0 {
        Ok(Seq::empty())
    } else {
        let end = predicate_end(words);
        proof {
            lemma_first_index(words.drop_first(), Role::PredicateMarker);
        }
        match spec_parse_predicate(words.take(end)) {
            Err(e) => Err(e),
            Ok(predicate) => after(seq![predicate], spec_parse_predicates(words.skip(end))),
        }
    }
}

/// The subjects of a clause and the words that are left for its predicates.
///
/// Before the first predicate marker stand the subjects, parted by `en`; a
/// clause that opens with `o` has the subject `sina`, one that opens with
/// `li` has none. Without a predicate marker a leading `mi` or `sina` is the
/// subject, and otherwise the whole clause is one noun phrase.
pub open spec fn spec_parse_subjects(words: Seq<Word>) -> Result<
    (Seq<GroupView>, Seq<Word>),
    ParseTPErrorView,
> {
    let marker = first_index(words, Role::PredicateMarker);
    if 0 <= marker < words.len() {
        if marker == 0 {
            if words[0] == Word::O {
                Ok((seq![GroupView::from_word(Word::Sina)], words))
            } else {
                Err(ParseTPErrorView::EmptySubject)
            }
        } else {
            match spec_parse_groups(words.take(marker), Word::En) {
                Err(e) => Err(e),
                Ok(subjects) => Ok((subjects, words.skip(marker))),
            }
        }
    } else if words.len() > 0 && (words[0] == Word::Mi || words[0] == Word::Sina) {
        Ok((seq![GroupView::from_word(words[0])], words.drop_first()))
    } else {
        match spec_parse_group(words) {
            Err(e) => Err(e),
            Ok(subject) => Ok((seq![subject], Seq::empty())),
        }
    }
}

/// A clause: subjects, then at least one predicate.
pub open spec fn spec_parse_clause(
    context: Option<Box<ContextView>>,
    words: Seq<Word>,
) -> Result<SentenceView, ParseTPErrorView> {
    match spec_parse_subjects(words) {
        Err(e) => Err(e),
        Ok((subjects, rest)) => if rest.len() == 0 {
            Err(ParseTPErrorView::EmptyPredicate)
        } else {
            match spec_parse_predicates(rest) {
                Err(e) => Err(e),
                Ok(predicates) => Ok(SentenceView { context, subjects, predicates }),
            }
        },
    }
}

/// A sentence: what stands before the last `la` is its context, what follows
/// is its clause.
pub open spec fn spec_parse_sentence(words: Seq<Word>) -> Result<SentenceView, ParseTPErrorView>
    decreases words.len(), 0nat,
{
    let la = last_index(words, Role::Exactly(Word::La));
    if 0 <= la < words.len() {
        match spec_parse_fragment(words.take(la)) {
            Err(e) => Err(e),
            Ok(context) => spec_parse_clause(Some(Box::new(context)), words.skip(la + 1)),
        }
    } else {
        spec_parse_clause(None, words)
    }
}

/// A context: a sentence where it holds a predicate marker, a noun phrase
/// where it holds none.
pub open spec fn spec_parse_fragment(words: Seq<Word>) -> Result<ContextView, ParseTPErrorView>
    decreases words.len(), 1nat,
{
    if words.len() == 0 {
        Err(ParseTPErrorView::EmptyContext)
    } else if first_index(words, Role::PredicateMarker) < words.len() {
        match spec_parse_sentence(words) {
            Err(e) => Err(e),
            Ok(sentence) => Ok(ContextView::Sentence(sentence)),
        }
    } else {
        match spec_parse_group(words) {
            Err(e) => Err(e),
            Ok(group) => Ok(ContextView::NounPhrase(group)),
        }
    }
}

} // verus!
