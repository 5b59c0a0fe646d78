//! The phrase tree that parsing produces, the mathematical model of each of
//! its nodes, and the errors that parsing can end in.

use crate::word::{ParseWordError, Word};
use vstd::prelude::*;

verus! {

/// The models of a sequence of values, in the same order.
pub open spec fn views<T: View>(items: Seq<T>) -> Seq<T::V> {
    items.map_values(|item: T| item@)
}

/// The model of what a parser returned: the model of the value, or of the error.
pub open spec fn outcome<T: View>(result: Result<T, ParseTPError>) -> Result<
    T::V,
    ParseTPErrorView,
> {
    match result {
        Ok(value) => Ok(value@),
        Err(error) => Err(error@),
    }
}

/// The model of what a parser of a list returned: the models of the values,
/// or the model of the error.
pub open spec fn outcomes<T: View>(result: Result<Vec<T>, ParseTPError>) -> Result<
    Seq<T::V>,
    ParseTPErrorView,
> {
    match result {
        Ok(values) => Ok(views(values@)),
        Err(error) => Err(error@),
    }
}

/// Why a line could not be parsed.
#[derive(Debug, PartialEq, Eq)]
pub enum ParseTPError {
    EmptyNounPhrase,
    EmptyContext,
    EmptySubject,
    EmptyPredicate,
    EmptyVerbPhrase,
    EmptyPreposition,
    InvalidSubject,
    InvalidPreposition(Word),
    InvalidNoun(Word),
    InvalidWord(ParseWordError),
}

/// The model of a [`ParseTPError`]: an unknown token is held as its characters.
pub enum ParseTPErrorView {
    EmptyNounPhrase,
    EmptyContext,
    EmptySubject,
    EmptyPredicate,
    EmptyVerbPhrase,
    EmptyPreposition,
    InvalidSubject,
    InvalidPreposition(Word),
    InvalidNoun(Word),
    InvalidWord(Seq<char>),
}

impl View for ParseTPError {
    type V = ParseTPErrorView;

    open spec fn view(&self) -> ParseTPErrorView {
        match self {
            ParseTPError::EmptyNounPhrase => ParseTPErrorView::EmptyNounPhrase,
            ParseTPError::EmptyContext => ParseTPErrorView::EmptyContext,
            ParseTPError::EmptySubject => ParseTPErrorView::EmptySubject,
            ParseTPError::EmptyPredicate => ParseTPErrorView::EmptyPredicate,
            ParseTPError::EmptyVerbPhrase => ParseTPErrorView::EmptyVerbPhrase,
            ParseTPError::EmptyPreposition => ParseTPErrorView::EmptyPreposition,
            ParseTPError::InvalidSubject => ParseTPErrorView::InvalidSubject,
            ParseTPError::InvalidPreposition(w) => ParseTPErrorView::InvalidPreposition(*w),
            ParseTPError::InvalidNoun(w) => ParseTPErrorView::InvalidNoun(*w),
            ParseTPError::InvalidWord(e) => ParseTPErrorView::InvalidWord(e@),
        }
    }
}

/// A noun phrase: a head word, the modifiers that follow it, and the noun
/// phrase that `pi` attaches to it, if any.
#[derive(Debug, PartialEq, Eq)]
pub struct Group {
    pub word: Word,
    pub modifiers: Vec<Word>,
    pub of: Option<Box<Group>>,
}

/// The model of a [`Group`].
pub struct GroupView {
    pub word: Word,
    pub modifiers: Seq<Word>,
    pub of: Option<Box<GroupView>>,
}

impl View for Group {
    type V = GroupView;

    open spec fn view(&self) -> GroupView {
        self.model()
    }
}

impl GroupView {
    /// The noun phrase that is one word and nothing else.
    pub open spec fn from_word(word: Word) -> GroupView {
        GroupView { word, modifiers: Seq::empty(), of: None }
    }

    /// No noun phrase of the chain is headed by a particle.
    pub open spec fn wf(self) -> bool
        decreases self,
    {
        &&& !self.word.is_particle()
        &&& match self.of {
            Some(inner) => inner.wf(),
            None => true,
        }
    }
}

impl Group {
    /// The model of the noun phrase: what `@` gives.
    pub open spec fn model(&self) -> GroupView
        decreases self,
    {
        GroupView {
            word: self.word,
            modifiers: self.modifiers@,
            of: match self.of {
                Some(inner) => Some(Box::new(inner.model())),
                None => None,
            },
        }
    }

    /// The noun phrase that is one word and nothing else.
    pub fn from_word(word: Word) -> (group: Group)
        ensures
            group@ == GroupView::from_word(word),
    {
        Group { word, modifiers: Vec::new(), of: None }
    }
}

/// A verb with the preverbs that stand before it.
#[derive(Debug, PartialEq, Eq)]
pub struct VerbPhrase {
    pub preverbs: Vec<Word>,
    pub verb: Group,
}

/// The model of a [`VerbPhrase`].
pub struct VerbPhraseView {
    pub preverbs: Seq<Word>,
    pub verb: GroupView,
}

impl View for VerbPhrase {
    type V = VerbPhraseView;

    open spec fn view(&self) -> VerbPhraseView {
        VerbPhraseView { preverbs: self.preverbs@, verb: self.verb@ }
    }
}

impl VerbPhraseView {
    /// Every preverb is one, and the verb is well formed.
    pub open spec fn wf(self) -> bool {
        &&& forall|i: int| 0 <= i < self.preverbs.len() ==> (#[trigger] self.preverbs[i]).is_preverb()
        &&& self.verb.wf()
    }
}

/// A preposition and the noun phrase that it governs.
#[derive(Debug, PartialEq, Eq)]
pub struct Preposition {
    pub preposition: Word,
    pub noun: Group,
}

/// The model of a [`Preposition`].
pub struct PrepositionView {
    pub preposition: Word,
    pub noun: GroupView,
}

impl View for Preposition {
    type V = PrepositionView;

    open spec fn view(&self) -> PrepositionView {
        PrepositionView { preposition: self.preposition, noun: self.noun@ }
    }
}

impl PrepositionView {
    /// The first word is a preposition, and the noun phrase is well formed.
    pub open spec fn wf(self) -> bool {
        &&& self.preposition.is_preposition()
        &&& self.noun.wf()
    }
}

/// One predicate of a sentence: its mood, its verb phrase, its objects and
/// the prepositional phrases that close it.
#[derive(Debug, PartialEq, Eq)]
pub struct Predicate {
    pub imperative: bool,
    pub verb: VerbPhrase,
    pub objects: Vec<Group>,
    pub prepositions: Vec<Preposition>,
}

/// The model of a [`Predicate`].
pub struct PredicateView {
    pub imperative: bool,
    pub verb: VerbPhraseView,
    pub objects: Seq<GroupView>,
    pub prepositions: Seq<PrepositionView>,
}

impl View for Predicate {
    type V = PredicateView;

    open spec fn view(&self) -> PredicateView {
        PredicateView {
            imperative: self.imperative,
            verb: self.verb@,
            objects: views(self.objects@),
            prepositions: views(self.prepositions@),
        }
    }
}

impl PredicateView {
    /// The verb phrase, each object and each prepositional phrase are well formed.
    pub open spec fn wf(self) -> bool {
        &&& self.verb.wf()
        &&& forall|i: int| 0 <= i < self.objects.len() ==> (#[trigger] self.objects[i]).wf()
        &&& forall|i: int|
            0 <= i < self.prepositions.len() ==> (#[trigger] self.prepositions[i]).wf()
    }
}

/// What stands before `la`: a whole sentence or a noun phrase.
#[derive(Debug, PartialEq, Eq)]
pub enum Context {
    Sentence(Sentence),
    NounPhrase(Group),
}

/// A sentence: an optional context, the subjects joined by `en`, and the
/// predicates that share them.
#[derive(Debug, PartialEq, Eq)]
pub struct Sentence {
    pub context: Option<Box<Context>>,
    pub subjects: Vec<Group>,
    pub predicates: Vec<Predicate>,
}

/// The model of a [`Context`].
pub enum ContextView {
    Sentence(SentenceView),
    NounPhrase(GroupView),
}

/// The model of a [`Sentence`].
pub struct SentenceView {
    pub context: Option<Box<ContextView>>,
    pub subjects: Seq<GroupView>,
    pub predicates: Seq<PredicateView>,
}

impl Context {
    /// The model of the context: what `@` gives.
    pub open spec fn model(&self) -> ContextView
        decreases self,
    {
        match self {
            Context::Sentence(sentence) => ContextView::Sentence(sentence.model()),
            Context::NounPhrase(group) => ContextView::NounPhrase(group@),
        }
    }
}

impl Sentence {
    /// The model of the sentence: what `@` gives.
    pub open spec fn model(&self) -> SentenceView
        decreases self,
    {
        SentenceView {
            context: match self.context {
                Some(context) => Some(Box::new(context.model())),
                None => None,
            },
            subjects: views(self.subjects@),
            predicates: views(self.predicates@),
        }
    }
}

impl View for Context {
    type V = ContextView;

    open spec fn view(&self) -> ContextView {
        self.model()
    }
}

impl View for Sentence {
    type V = SentenceView;

    open spec fn view(&self) -> SentenceView {
        self.model()
    }
}

impl ContextView {
    /// The sentence or the noun phrase inside is well formed.
    pub open spec fn wf(self) -> bool
        decreases self,
    {
        match self {
            ContextView::Sentence(sentence) => sentence.wf(),
            ContextView::NounPhrase(group) => group.wf(),
        }
    }
}

impl SentenceView {
    /// There is a subject and a predicate, and every part is well formed.
    pub open spec fn wf(self) -> bool
        decreases self,
    {
        &&& match self.context {
            Some(context) => context.wf(),
            None => true,
        }
        &&& self.subjects.len() >= 1
        &&& forall|i: int| 0 <= i < self.subjects.len() ==> (#[trigger] self.subjects[i]).wf()
        &&& self.predicates.len() >= 1
        &&& forall|i: int| 0 <= i < self.predicates.len() ==> (#[trigger] self.predicates[i]).wf()
    }
}

} // verus!
