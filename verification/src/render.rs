//! The canonical rendering: a phrase tree written out with a pair of
//! parentheses for every attachment, so that the reading of a sentence can
//! be seen in its text.

use crate::types::{
    views, Context, ContextView, Group, GroupView, ParseTPError, ParseTPErrorView, Predicate,
    PredicateView, Preposition, PrepositionView, Sentence, SentenceView, VerbPhrase,
    VerbPhraseView,
};
use crate::word::Word;
use vstd::prelude::*;

verus! {

/// `piece` written `count` times.
pub open spec fn repeated(piece: Seq<char>, count: nat) -> Seq<char>
    decreases count,
{
    if count == 0 {
        Seq::empty()
    } else {
        repeated(piece, (count - 1) as nat) + piece
    }
}

/// Each modifier, closed by the parenthesis of the phrase it completes.
pub open spec fn render_modifiers(modifiers: Seq<Word>) -> Seq<char>
    decreases modifiers.len(),
{
    if modifiers.len() == 0 {
        Seq::empty()
    } else {
        render_modifiers(modifiers.drop_last()) + modifiers.last().spelling() + ")"@
    }
}

/// Each preverb, behind the parenthesis that it opens.
pub open spec fn render_preverbs(preverbs: Seq<Word>) -> Seq<char>
    decreases preverbs.len(),
{
    if preverbs.len() == 0 {
        Seq::empty()
    } else {
        render_preverbs(preverbs.drop_last()) + "("@ + preverbs.last().spelling()
    }
}

/// Each object, behind `e`.
pub open spec fn render_objects(objects: Seq<GroupView>) -> Seq<char>
    decreases objects.len(),
{
    if objects.len() == 0 {
        Seq::empty()
    } else {
        render_objects(objects.drop_last()) + "e"@ + objects.last().render()
    }
}

/// The prepositional phrases, one after the other.
pub open spec fn render_prepositions(phrases: Seq<PrepositionView>) -> Seq<char>
    decreases phrases.len(),
{
    if phrases.len() == 0 {
        Seq::empty()
    } else {
        render_prepositions(phrases.drop_last()) + phrases.last().render()
    }
}

/// The subjects, with `en` between them.
pub open spec fn render_subjects(subjects: Seq<GroupView>) -> Seq<char>
    decreases subjects.len(),
{
    if subjects.len() == 0 {
        Seq::empty()
    } else if subjects.len() == 1 {
        subjects[0].render()
    } else {
        render_subjects(subjects.drop_last()) + "en"@ + subjects.last().render()
    }
}

/// The predicates, one after the other.
pub open spec fn render_predicates(predicates: Seq<PredicateView>) -> Seq<char>
    decreases predicates.len(),
{
    if predicates.len() == 0 {
        Seq::empty()
    } else {
        render_predicates(predicates.drop_last()) + predicates.last().render()
    }
}

impl GroupView {
    /// The head in parentheses, one more pair around it for each modifier,
    /// and one pair around the whole where `pi` attaches a noun phrase.
    pub open spec fn render(self) -> Seq<char>
        decreases self,
    {
        let core = repeated("("@, self.modifiers.len()) + "("@ + self.word.spelling() + ")"@
            + render_modifiers(self.modifiers);
        match self.of {
            Some(inner) => "("@ + core + "pi"@ + inner.render() + ")"@,
            None => core,
        }
    }
}

impl VerbPhraseView {
    /// Each preverb opens a pair of parentheses that closes behind the verb.
    pub open spec fn render(self) -> Seq<char> {
        render_preverbs(self.preverbs) + self.verb.render() + repeated(
            ")"@,
            self.preverbs.len(),
        )
    }
}

impl PrepositionView {
    /// The preposition, then its noun phrase.
    pub open spec fn render(self) -> Seq<char> {
        self.preposition.spelling() + self.noun.render()
    }
}

impl PredicateView {
    /// The marker of the mood, the verb phrase, the objects, the
    /// prepositional phrases.
    pub open spec fn render(self) -> Seq<char> {
        (if self.imperative {
            "o"@
        } else {
            "li"@
        }) + self.verb.render() + render_objects(self.objects) + render_prepositions(
            self.prepositions,
        )
    }
}

impl ContextView {
    /// A sentence in parentheses, or a noun phrase as it is.
    pub open spec fn render(self) -> Seq<char>
        decreases self,
    {
        match self {
            ContextView::Sentence(sentence) => "("@ + sentence.render() + ")"@,
            ContextView::NounPhrase(group) => group.render(),
        }
    }
}

impl SentenceView {
    /// The context with `la` behind it, the subjects, the predicates.
    pub open spec fn render(self) -> Seq<char>
        decreases self,
    {
        (match self.context {
            Some(context) => context.render() + "la"@,
            None => Seq::empty(),
        }) + render_subjects(self.subjects) + render_predicates(self.predicates)
    }
}

impl ParseTPErrorView {
    /// The name of the error, with the word or the token that it is about.
    pub open spec fn render(self) -> Seq<char> {
        match self {
            ParseTPErrorView::EmptyNounPhrase => "EmptyNounPhrase"@,
            ParseTPErrorView::EmptyContext => "EmptyContext"@,
            ParseTPErrorView::EmptySubject => "EmptySubject"@,
            ParseTPErrorView::EmptyPredicate => "EmptyPredicate"@,
            ParseTPErrorView::EmptyVerbPhrase => "EmptyVerbPhrase"@,
            ParseTPErrorView::EmptyPreposition => "EmptyPreposition"@,
            ParseTPErrorView::InvalidSubject => "InvalidSubject"@,
            ParseTPErrorView::InvalidPreposition(word) => "InvalidPreposition("@
                + word.spelling() + ")"@,
            ParseTPErrorView::InvalidNoun(word) => "InvalidNoun("@ + word.spelling() + ")"@,
            ParseTPErrorView::InvalidWord(text) => "InvalidWord("@ + text + ")"@,
        }
    }
}

/// Appends `piece` to `text` `count` times.
fn append_repeated(text: &mut String, piece: &str, count: usize)
    ensures
        final(text)@ == old(text)@ + repeated(piece@, count as nat),
{
    let mut written: usize = 0;
    assert(text@ + repeated(piece@, 0) =~= text@);
    while written < count
        invariant
            written <= count,
            text@ == old(text)@ + repeated(piece@, written as nat),
        decreases count - written,
    {
        text.append(piece);
        written += 1;
        assert(text@ =~= old(text)@ + repeated(piece@, written as nat));
    }
}

impl Group {
    /// The canonical rendering of the noun phrase.
    pub fn to_string(&self) -> (text: String)
        ensures
            text@ == self@.render(),
        decreases self,
    {
        let mut text = String::new();
        if self.of.is_some() {
            text.append("(");
        }
        let ghost opening = text@;
        append_repeated(&mut text, "(", self.modifiers.len());
        text.append("(");
        text.append(self.word.name());
        text.append(")");
        let ghost head = text@;
        let mut i: usize = 0;
        assert(head + render_modifiers(self.modifiers@.take(0)) =~= head);
        while i < self.modifiers.len()
            invariant
                i <= self.modifiers@.len(),
                text@ == head + render_modifiers(self.modifiers@.take(i as int)),
            decreases self.modifiers@.len() - i,
        {
            text.append(self.modifiers[i].name());
            text.append(")");
            i += 1;
            proof {
                let read = self.modifiers@.take(i as int);
                assert(read.drop_last() =~= self.modifiers@.take(i - 1));
                assert(text@ =~= head + render_modifiers(read));
            }
        }
        assert(self.modifiers@.take(i as int) =~= self.modifiers@);
        let ghost core = repeated("("@, self.modifiers@.len()) + "("@ + self.word.spelling()
            + ")"@ + render_modifiers(self.modifiers@);
        assert(text@ =~= opening + core);
        match &self.of {
            Some(inner) => {
                text.append("pi");
                let nested = inner.to_string();
                text.append(nested.as_str());
                text.append(")");
                assert(text@ =~= "("@ + core + "pi"@ + inner@.render() + ")"@);
            },
            None => {
                assert(text@ =~= core);
            },
        }
        text
    }
}

impl VerbPhrase {
    /// The canonical rendering of the verb phrase.
    pub fn to_string(&self) -> (text: String)
        ensures
            text@ == self@.render(),
    {
        let mut text = String::new();
        let mut i: usize = 0;
        assert(render_preverbs(self.preverbs@.take(0)) =~= text@);
        while i < self.preverbs.len()
            invariant
                i <= self.preverbs@.len(),
                text@ == render_preverbs(self.preverbs@.take(i as int)),
            decreases self.preverbs@.len() - i,
        {
            text.append("(");
            text.append(self.preverbs[i].name());
            i += 1;
            assert(self.preverbs@.take(i as int).drop_last() =~= self.preverbs@.take(i - 1));
        }
        assert(self.preverbs@.take(i as int) =~= self.preverbs@);
        let verb = self.verb.to_string();
        text.append(verb.as_str());
        append_repeated(&mut text, ")", self.preverbs.len());
        text
    }
}

impl Preposition {
    /// The canonical rendering of the prepositional phrase.
    pub fn to_string(&self) -> (text: String)
        ensures
            text@ == self@.render(),
    {
        let mut text = String::new();
        text.append(self.preposition.name());
        let noun = self.noun.to_string();
        text.append(noun.as_str());
        assert(text@ =~= self@.render());
        text
    }
}

impl Predicate {
    /// The canonical rendering of the predicate.
    pub fn to_string(&self) -> (text: String)
        ensures
            text@ == self@.render(),
    {
        let mut text = String::new();
        if self.imperative {
            text.append("o");
        } else {
            text.append("li");
        }
        let verb = self.verb.to_string();
        text.append(verb.as_str());
        let ghost head = text@;
        let ghost objects = views(self.objects@);
        let mut i: usize = 0;
        assert(head + render_objects(objects.take(0)) =~= head);
        while i < self.objects.len()
            invariant
                i <= self.objects@.len(),
                objects == views(self.objects@),
                text@ == head + render_objects(objects.take(i as int)),
            decreases self.objects@.len() - i,
        {
            text.append("e");
            let object = self.objects[i].to_string();
            text.append(object.as_str());
            i += 1;
            proof {
                let read = objects.take(i as int);
                assert(read.drop_last() =~= objects.take(i - 1));
                assert(read.last() == self.objects@[i - 1]@);
                assert(text@ =~= head + render_objects(read));
            }
        }
        assert(objects.take(i as int) =~= objects);
        let ghost middle = text@;
        let ghost phrases = views(self.prepositions@);
        let mut k: usize = 0;
        assert(middle + render_prepositions(phrases.take(0)) =~= middle);
        while k < self.prepositions.len()
            invariant
                k <= self.prepositions@.len(),
                phrases == views(self.prepositions@),
                text@ == middle + render_prepositions(phrases.take(k as int)),
            decreases self.prepositions@.len() - k,
        {
            let phrase = self.prepositions[k].to_string();
            text.append(phrase.as_str());
            k += 1;
            proof {
                let read = phrases.take(k as int);
                assert(read.drop_last() =~= phrases.take(k - 1));
                assert(read.last() == self.prepositions@[k - 1]@);
                assert(text@ =~= middle + render_prepositions(read));
            }
        }
        assert(phrases.take(k as int) =~= phrases);
        text
    }
}

/// The canonical rendering of the subjects of a sentence.
fn subjects_to_string(subjects: &Vec<Group>) -> (text: String)
    ensures
        text@ == render_subjects(views(subjects@)),
{
    let mut text = String::new();
    let ghost models = views(subjects@);
    let mut i: usize = 0;
    assert(render_subjects(models.take(0)) =~= text@);
    while i < subjects.len()
        invariant
            i <= subjects@.len(),
            models == views(subjects@),
            text@ == render_subjects(models.take(i as int)),
        decreases subjects@.len() - i,
    {
        if i > 0 {
            text.append("en");
        }
        let subject = subjects[i].to_string();
        text.append(subject.as_str());
        i += 1;
        proof {
            let read = models.take(i as int);
            assert(read.drop_last() =~= models.take(i - 1));
            assert(read.last() == subjects@[i - 1]@);
            assert(text@ =~= render_subjects(read));
        }
    }
    assert(models.take(i as int) =~= models);
    text
}

/// The canonical rendering of the predicates of a sentence.
fn predicates_to_string(predicates: &Vec<Predicate>) -> (text: String)
    ensures
        text@ == render_predicates(views(predicates@)),
{
    let mut text = String::new();
    let ghost models = views(predicates@);
    let mut i: usize = 0;
    assert(render_predicates(models.take(0)) =~= text@);
    while i < predicates.len()
        invariant
            i <= predicates@.len(),
            models == views(predicates@),
            text@ == render_predicates(models.take(i as int)),
        decreases predicates@.len() - i,
    {
        let predicate = predicates[i].to_string();
        text.append(predicate.as_str());
        i += 1;
        proof {
            let read = models.take(i as int);
            assert(read.drop_last() =~= models.take(i - 1));
            assert(read.last() == predicates@[i - 1]@);
        }
    }
    assert(models.take(i as int) =~= models);
    text
}

impl Context {
    /// The canonical rendering of the context.
    pub fn to_string(&self) -> (text: String)
        ensures
            text@ == self@.render(),
        decreases self,
    {
        match self {
            Context::Sentence(sentence) => {
                let mut text = String::new();
                text.append("(");
                let inner = sentence.to_string();
                text.append(inner.as_str());
                text.append(")");
                assert(text@ =~= "("@ + sentence@.render() + ")"@);
                text
            },
            Context::NounPhrase(group) => group.to_string(),
        }
    }
}

impl Sentence {
    /// The canonical rendering of the sentence.
    pub fn to_string(&self) -> (text: String)
        ensures
            text@ == self@.render(),
        decreases self,
    {
        let mut text = String::new();
        match &self.context {
            Some(context) => {
                let inner = context.to_string();
                text.append(inner.as_str());
                text.append("la");
                assert(text@ =~= context@.render() + "la"@);
            },
            None => {},
        }
        let subjects = subjects_to_string(&self.subjects);
        text.append(subjects.as_str());
        let predicates = predicates_to_string(&self.predicates);
        text.append(predicates.as_str());
        text
    }
}

impl ParseTPError {
    /// The name of the error, with the word or the token that it is about.
    pub fn to_string(&self) -> (text: String)
        ensures
            text@ == self@.render(),
    {
        match self {
            ParseTPError::EmptyNounPhrase => "EmptyNounPhrase".to_owned(),
            ParseTPError::EmptyContext => "EmptyContext".to_owned(),
            ParseTPError::EmptySubject => "EmptySubject".to_owned(),
            ParseTPError::EmptyPredicate => "EmptyPredicate".to_owned(),
            ParseTPError::EmptyVerbPhrase => "EmptyVerbPhrase".to_owned(),
            ParseTPError::EmptyPreposition => "EmptyPreposition".to_owned(),
            ParseTPError::InvalidSubject => "InvalidSubject".to_owned(),
            ParseTPError::InvalidPreposition(word) => {
                let mut text = "InvalidPreposition(".to_owned();
                text.append(word.name());
                text.append(")");
                text
            },
            ParseTPError::InvalidNoun(word) => {
                let mut text = "InvalidNoun(".to_owned();
                text.append(word.name());
                text.append(")");
                text
            },
            ParseTPError::InvalidWord(error) => {
                let mut text = "InvalidWord(".to_owned();
                text.append(error.text.as_str());
                text.append(")");
                text
            },
        }
    }
}

} // verus!
