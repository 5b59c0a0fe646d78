use toki_pona_parser::parsing::{parse_sentence, parse_toki_pona};
use toki_pona_parser::types::{
    Context, Group, ParseTPError, Predicate, Preposition, Sentence, VerbPhrase,
};
use toki_pona_parser::word::{ParseWordError, Word};

fn noun(word: Word, modifiers: Vec<Word>) -> Group {
    Group { word, modifiers, of: None }
}

fn verb(word: Word) -> VerbPhrase {
    VerbPhrase { preverbs: vec![], verb: Group::from_word(word) }
}

fn plain(word: Word) -> Predicate {
    Predicate { imperative: false, verb: verb(word), objects: vec![], prepositions: vec![] }
}

#[test]
fn should_parse() {
    // basic sentences
    assert!(parse_toki_pona("mi moku").is_ok());
    assert!(parse_toki_pona("mi li moku").is_ok());
    assert!(parse_toki_pona("mi moku e pan").is_ok());
    assert!(parse_toki_pona("mi li moku e pan").is_ok());

    // imperative
    assert!(parse_toki_pona("sina o moku").is_ok());
    assert!(parse_toki_pona("o moku").is_ok());

    // multiple verbs/objects
    assert!(parse_toki_pona("jan li moku e pan e telo").is_ok());
    assert!(parse_toki_pona("jan li moku e pan li lanpan e telo").is_ok());
    assert!(parse_toki_pona("jan li moku e pan li lanpan").is_ok());
    assert!(parse_toki_pona("jan li moku li lanpan e telo").is_ok());

    // prepositions
    assert!(parse_toki_pona("ona li moku kepeken uta").is_ok());
    assert!(parse_toki_pona("ona li moku kepeken uta lon tomo").is_ok());

    // modifiers & "of"
    assert!(parse_toki_pona("pilin mi li pona").is_ok());
    assert!(parse_toki_pona("pilin mi li pona").is_ok());
    assert!(parse_toki_pona("pilin li pona mute").is_ok());
    assert!(parse_toki_pona("kule mi taso li kule laso loje walo").is_ok());
    assert!(parse_toki_pona("pilin mi li pona mute tan olin sina").is_ok());

    // context
    assert!(parse_toki_pona("mi la pan li pona").is_ok());
    assert!(parse_toki_pona("mi la pan suwi li pona tan kiwen suwi").is_ok());
    assert!(parse_toki_pona("ona li utala e jan pona mi la mi pilin ike").is_ok());
}

#[test]
fn edge_cases() {
    // recursive context
    assert!(parse_toki_pona("mi la sina la ona la jan li lon").is_ok());

    // ignoring punctuation
    assert!(parse_toki_pona("mi la, pan li pona.").is_ok());
    assert!(parse_toki_pona("...mi, la- -pan li ponaÂ¡").is_ok());
}

#[test]
fn should_not_parse() {
    assert!(parse_toki_pona("Hello World!").is_err());
    assert!(parse_toki_pona("la mi moku").is_err());
    assert!(parse_toki_pona("li nasa").is_err());
    assert!(parse_toki_pona("mi moku e").is_err());
}

#[test]
fn bare_pronoun_subject_takes_a_verb_without_marker() {
    let expected = Sentence {
        context: None,
        subjects: vec![Group::from_word(Word::Mi)],
        predicates: vec![plain(Word::Moku)],
    };
    assert_eq!(parse_toki_pona("mi moku"), Ok(expected));
    assert_eq!(parse_toki_pona("mi moku").unwrap().to_string(), "(mi)li(moku)");
    assert_eq!(parse_toki_pona("sina moku").unwrap().to_string(), "(sina)li(moku)");
}

#[test]
fn marked_predicate_reads_like_the_unmarked_one() {
    assert_eq!(parse_toki_pona("mi li moku"), parse_toki_pona("mi moku"));
    assert_eq!(parse_toki_pona("jan li moku").unwrap().to_string(), "(jan)li(moku)");
}

#[test]
fn imperative_is_marked_with_o() {
    let bare = parse_toki_pona("o moku").unwrap();
    let explicit = parse_toki_pona("sina o moku").unwrap();
    assert_eq!(bare.subjects, vec![Group::from_word(Word::Sina)]);
    assert_eq!(bare.predicates.len(), 1);
    assert!(bare.predicates[0].imperative);
    assert_eq!(bare, explicit);
    assert_eq!(bare.to_string(), "(sina)o(moku)");
    assert_eq!(explicit.to_string(), "(sina)o(moku)");
}

#[test]
fn objects_keep_their_order() {
    let sentence = parse_toki_pona("jan li moku e pan e telo").unwrap();
    assert_eq!(sentence.predicates.len(), 1);
    assert_eq!(
        sentence.predicates[0].objects,
        vec![Group::from_word(Word::Pan), Group::from_word(Word::Telo)]
    );
    assert_eq!(sentence.to_string(), "(jan)li(moku)e(pan)e(telo)");
}

#[test]
fn chained_predicates_share_the_subject() {
    let sentence = parse_toki_pona("jan li moku e pan li lanpan e telo").unwrap();
    assert_eq!(sentence.subjects, vec![Group::from_word(Word::Jan)]);
    assert_eq!(sentence.predicates.len(), 2);
    assert_eq!(sentence.predicates[0].verb, verb(Word::Moku));
    assert_eq!(sentence.predicates[0].objects, vec![Group::from_word(Word::Pan)]);
    assert_eq!(sentence.predicates[1].verb, verb(Word::Lanpan));
    assert_eq!(sentence.predicates[1].objects, vec![Group::from_word(Word::Telo)]);
    assert_eq!(sentence.to_string(), "(jan)li(moku)e(pan)li(lanpan)e(telo)");
}

#[test]
fn preposition_needs_two_words_before_it() {
    // With nothing but the verb before it, `kepeken` is read as a modifier.
    let short = parse_toki_pona("ona li moku kepeken uta").unwrap();
    assert!(short.predicates[0].prepositions.is_empty());
    assert_eq!(
        short.predicates[0].verb.verb,
        noun(Word::Moku, vec![Word::Kepeken, Word::Uta])
    );
    assert_eq!(short.to_string(), "(ona)li(((moku)kepeken)uta)");

    let longer = parse_toki_pona("ona li moku kepeken uta lon tomo").unwrap();
    assert_eq!(
        longer.predicates[0].prepositions,
        vec![Preposition { preposition: Word::Lon, noun: Group::from_word(Word::Tomo) }]
    );
    assert_eq!(
        longer.predicates[0].verb.verb,
        noun(Word::Moku, vec![Word::Kepeken, Word::Uta])
    );
    assert_eq!(longer.to_string(), "(ona)li(((moku)kepeken)uta)lon(tomo)");
}

#[test]
fn preposition_chain_keeps_the_order_of_the_text() {
    let expected = vec![
        Preposition { preposition: Word::Kepeken, noun: Group::from_word(Word::Uta) },
        Preposition { preposition: Word::Lon, noun: Group::from_word(Word::Tomo) },
    ];
    let modified = parse_toki_pona("ona li moku mute kepeken uta lon tomo").unwrap();
    assert_eq!(modified.predicates[0].prepositions, expected);
    assert_eq!(modified.predicates[0].verb.verb, noun(Word::Moku, vec![Word::Mute]));
    assert_eq!(modified.to_string(), "(ona)li((moku)mute)kepeken(uta)lon(tomo)");

    let with_object = parse_toki_pona("ona li moku e pan kepeken uta lon tomo").unwrap();
    assert_eq!(with_object.predicates[0].prepositions, expected);
    assert_eq!(with_object.predicates[0].objects, vec![Group::from_word(Word::Pan)]);
    assert_eq!(with_object.to_string(), "(ona)li(moku)e(pan)kepeken(uta)lon(tomo)");
}

#[test]
fn preposition_right_behind_the_object_marker_is_a_noun() {
    // `lon` stands one place after `e`: it heads the object.
    let sentence = parse_toki_pona("mi lukin e lon tomo").unwrap();
    assert!(sentence.predicates[0].prepositions.is_empty());
    assert_eq!(sentence.predicates[0].objects, vec![noun(Word::Lon, vec![Word::Tomo])]);
}

#[test]
fn preposition_at_the_end_is_a_modifier() {
    let sentence = parse_toki_pona("mi tawa pona lon").unwrap();
    assert!(sentence.predicates[0].prepositions.is_empty());
    assert_eq!(
        sentence.predicates[0].verb.verb,
        noun(Word::Tawa, vec![Word::Pona, Word::Lon])
    );
}

#[test]
fn modifiers_attach_to_the_head_in_order() {
    let sentence = parse_toki_pona("kule mi taso li kule laso loje walo").unwrap();
    assert_eq!(sentence.subjects, vec![noun(Word::Kule, vec![Word::Mi, Word::Taso])]);
    assert_eq!(
        sentence.predicates[0].verb.verb,
        noun(Word::Kule, vec![Word::Laso, Word::Loje, Word::Walo])
    );
    assert_eq!(sentence.to_string(), "(((kule)mi)taso)li((((kule)laso)loje)walo)");
}

#[test]
fn pi_nests_a_noun_phrase() {
    let sentence = parse_toki_pona("tomo pi jan pona li suli").unwrap();
    let subject = Group {
        word: Word::Tomo,
        modifiers: vec![],
        of: Some(Box::new(noun(Word::Jan, vec![Word::Pona]))),
    };
    assert_eq!(sentence.subjects, vec![subject]);
    assert_eq!(sentence.to_string(), "((tomo)pi((jan)pona))li(suli)");
}

#[test]
fn subjects_are_joined_by_en() {
    let sentence = parse_toki_pona("jan en soweli li moku").unwrap();
    assert_eq!(
        sentence.subjects,
        vec![Group::from_word(Word::Jan), Group::from_word(Word::Soweli)]
    );
    assert_eq!(sentence.to_string(), "(jan)en(soweli)li(moku)");
}

#[test]
fn preverbs_stand_before_the_verb() {
    let sentence = parse_toki_pona("mi wile kama sona").unwrap();
    assert_eq!(
        sentence.predicates[0].verb,
        VerbPhrase { preverbs: vec![Word::Wile, Word::Kama], verb: Group::from_word(Word::Sona) }
    );
    assert_eq!(sentence.to_string(), "(mi)li(wile(kama(sona)))");
}

#[test]
fn lone_preverb_is_the_verb() {
    let sentence = parse_toki_pona("mi wile").unwrap();
    assert_eq!(sentence.predicates[0].verb, verb(Word::Wile));
    let two = parse_toki_pona("mi wile kama").unwrap();
    assert_eq!(
        two.predicates[0].verb,
        VerbPhrase { preverbs: vec![Word::Wile], verb: Group::from_word(Word::Kama) }
    );
}

#[test]
fn noun_phrase_context() {
    let sentence = parse_toki_pona("mi la pan li pona").unwrap();
    assert_eq!(
        sentence.context,
        Some(Box::new(Context::NounPhrase(Group::from_word(Word::Mi))))
    );
    assert_eq!(sentence.subjects, vec![Group::from_word(Word::Pan)]);
    assert_eq!(sentence.to_string(), "(mi)la(pan)li(pona)");
}

#[test]
fn sentence_context() {
    let sentence = parse_toki_pona("ona li utala e jan pona mi la mi pilin ike").unwrap();
    let context = Sentence {
        context: None,
        subjects: vec![Group::from_word(Word::Ona)],
        predicates: vec![Predicate {
            imperative: false,
            verb: verb(Word::Utala),
            objects: vec![noun(Word::Jan, vec![Word::Pona, Word::Mi])],
            prepositions: vec![],
        }],
    };
    assert_eq!(sentence.context, Some(Box::new(Context::Sentence(context))));
    assert_eq!(
        sentence.to_string(),
        "((ona)li(utala)e(((jan)pona)mi))la(mi)li((pilin)ike)"
    );
}

#[test]
fn sentence_contexts_nest_from_the_right() {
    let sentence = parse_toki_pona("mi li moku la sina li lape la ona li pali").unwrap();
    let inner = match sentence.context.as_deref() {
        Some(Context::Sentence(inner)) => inner,
        other => panic!("the context is no sentence: {:?}", other),
    };
    assert_eq!(inner.subjects, vec![Group::from_word(Word::Sina)]);
    let innermost = match inner.context.as_deref() {
        Some(Context::Sentence(innermost)) => innermost,
        other => panic!("the inner context is no sentence: {:?}", other),
    };
    assert_eq!(innermost.subjects, vec![Group::from_word(Word::Mi)]);
    assert_eq!(innermost.context, None);
    assert_eq!(
        sentence.to_string(),
        "(((mi)li(moku))la(sina)li(lape))la(ona)li(pali)"
    );
}

#[test]
fn context_without_predicate_marker_is_one_noun_phrase() {
    let sentence = parse_toki_pona("mi la sina la ona la jan li lon").unwrap();
    assert_eq!(
        sentence.context,
        Some(Box::new(Context::NounPhrase(noun(
            Word::Mi,
            vec![Word::La, Word::Sina, Word::La, Word::Ona]
        ))))
    );
    assert_eq!(sentence.subjects, vec![Group::from_word(Word::Jan)]);
    assert_eq!(sentence.predicates, vec![plain(Word::Lon)]);
}

#[test]
fn punctuation_at_the_ends_of_tokens_is_dropped() {
    let plain_text = parse_toki_pona("mi la pan li pona");
    assert!(plain_text.is_ok());
    assert_eq!(parse_toki_pona("...mi, la- -pan li pona¡"), plain_text);
    assert_eq!(parse_toki_pona("...mi, la- -pan li ponaÂ¡"), plain_text);
    assert_eq!(parse_toki_pona("mi la, pan li pona."), plain_text);
}

#[test]
fn punctuation_inside_a_token_is_kept() {
    assert_eq!(
        parse_toki_pona("mi mo-ku"),
        Err(ParseTPError::InvalidWord(ParseWordError { text: "mo-ku".to_string() }))
    );
}

#[test]
fn capital_letters_are_read_as_small_ones() {
    assert_eq!(parse_toki_pona("Mi MOKU e Pan"), parse_toki_pona("mi moku e pan"));
    assert!(parse_toki_pona("Mi MOKU e Pan").is_ok());
}

#[test]
fn empty_context_is_an_error() {
    assert_eq!(parse_toki_pona("la mi moku"), Err(ParseTPError::EmptyContext));
}

#[test]
fn missing_subject_is_an_error() {
    assert_eq!(parse_toki_pona("li nasa"), Err(ParseTPError::EmptySubject));
    assert_eq!(parse_toki_pona("mi la li nasa"), Err(ParseTPError::EmptySubject));
}

#[test]
fn missing_object_is_an_error() {
    assert_eq!(parse_toki_pona("mi moku e"), Err(ParseTPError::EmptyNounPhrase));
    assert_eq!(parse_toki_pona("mi moku e e pan"), Err(ParseTPError::EmptyNounPhrase));
}

#[test]
fn unknown_word_is_an_error() {
    assert_eq!(
        parse_toki_pona("Hello World!"),
        Err(ParseTPError::InvalidWord(ParseWordError { text: "Hello".to_string() }))
    );
    assert_eq!(
        parse_toki_pona("hello"),
        Err(ParseTPError::InvalidWord(ParseWordError { text: "hello".to_string() }))
    );
    assert_eq!(
        parse_toki_pona("mi moku e kijetesantakalu"),
        Err(ParseTPError::InvalidWord(ParseWordError { text: "kijetesantakalu".to_string() }))
    );
    assert_eq!(
        parse_toki_pona("mi - moku"),
        Err(ParseTPError::InvalidWord(ParseWordError { text: String::new() }))
    );
}

#[test]
fn unknown_word_comes_before_any_error_of_the_grammar() {
    assert_eq!(
        parse_toki_pona("la mi moku e hello"),
        Err(ParseTPError::InvalidWord(ParseWordError { text: "hello".to_string() }))
    );
}

#[test]
fn empty_line_is_an_error() {
    assert_eq!(parse_toki_pona(""), Err(ParseTPError::EmptyNounPhrase));
    assert_eq!(parse_toki_pona("  \t \n"), Err(ParseTPError::EmptyNounPhrase));
    assert_eq!(parse_sentence(&[]), Err(ParseTPError::EmptyNounPhrase));
}

#[test]
fn sentence_without_predicate_is_an_error() {
    assert_eq!(parse_toki_pona("mi"), Err(ParseTPError::EmptyPredicate));
    assert_eq!(parse_toki_pona("jan pona"), Err(ParseTPError::EmptyPredicate));
    assert_eq!(parse_toki_pona("tenpo ni la jan pona"), Err(ParseTPError::EmptyPredicate));
}

#[test]
fn particle_cannot_head_a_noun_phrase() {
    assert_eq!(parse_toki_pona("a li pona"), Err(ParseTPError::InvalidNoun(Word::A)));
    assert_eq!(parse_toki_pona("mi moku e a"), Err(ParseTPError::InvalidNoun(Word::A)));
    assert_eq!(parse_toki_pona("jan en li moku"), Err(ParseTPError::EmptyNounPhrase));
    assert_eq!(parse_toki_pona("e pan"), Err(ParseTPError::InvalidNoun(Word::E)));
}

#[test]
fn marker_without_verb_is_an_error() {
    assert_eq!(parse_toki_pona("mi li"), Err(ParseTPError::EmptyVerbPhrase));
    assert_eq!(parse_toki_pona("mi li e pan"), Err(ParseTPError::EmptyVerbPhrase));
    assert_eq!(parse_toki_pona("jan li li moku"), Err(ParseTPError::EmptyVerbPhrase));
}

#[test]
fn parse_sentence_reads_words() {
    let words = [Word::Jan, Word::Li, Word::Moku, Word::E, Word::Pan];
    let sentence = parse_sentence(&words).unwrap();
    assert_eq!(sentence.to_string(), "(jan)li(moku)e(pan)");
    assert_eq!(Ok(sentence), parse_toki_pona("jan li moku e pan"));
}
