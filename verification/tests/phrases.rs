use toki_pona_parser::grammar::Role;
use toki_pona_parser::parsing::{
    find_first, find_last, find_preposition_start, parse_fragment, parse_group, parse_groups,
    parse_predicate, parse_predicates, parse_preposition, parse_subjects, parse_verb_phrase,
    split_prepositions,
};
use toki_pona_parser::types::{
    Context, Group, ParseTPError, Predicate, Preposition, Sentence, VerbPhrase,
};
use toki_pona_parser::word::Word::{Kepeken, Lon, Moku, Mute, Pan, Tomo, Uta, A, E};
use toki_pona_parser::word::{ParseWordError, Word};

fn noun(word: Word, modifiers: Vec<Word>) -> Group {
    Group { word, modifiers, of: None }
}

#[test]
fn positions_of_roles() {
    let words = [Word::Jan, Word::Li, Word::Moku, Word::E, Word::Pan, Word::Lon, Word::Tomo];
    assert_eq!(find_first(&words, Role::PredicateMarker), 1);
    assert_eq!(find_first(&words, Role::Exactly(Word::E)), 3);
    assert_eq!(find_first(&words, Role::Exactly(Word::La)), 7);
    assert_eq!(find_first(&[], Role::Preposition), 0);
    assert_eq!(find_last(&words, Role::Preposition), Some(5));
    assert_eq!(find_last(&words, Role::Exactly(Word::Jan)), Some(0));
    assert_eq!(find_last(&words, Role::Exactly(Word::La)), None);
    assert_eq!(find_last(&[], Role::PredicateMarker), None);
    let twice = [Word::O, Word::La, Word::Li, Word::La, Word::Mi];
    assert_eq!(find_first(&twice, Role::Exactly(Word::La)), 1);
    assert_eq!(find_last(&twice, Role::Exactly(Word::La)), Some(3));
    assert_eq!(find_first(&twice, Role::PredicateMarker), 0);
    assert_eq!(find_last(&twice, Role::PredicateMarker), Some(2));
}

#[test]
fn roles_fit_their_words() {
    assert!(Role::Exactly(Word::Pi).fits(Word::Pi));
    assert!(!Role::Exactly(Word::Pi).fits(Word::Li));
    assert!(Role::PredicateMarker.fits(Word::O));
    assert!(!Role::PredicateMarker.fits(Word::E));
    assert!(Role::Preposition.fits(Word::Tawa));
    assert!(!Role::Preposition.fits(Word::Tan));
}

#[test]
fn noun_phrase_of_one_word() {
    assert_eq!(parse_group(&[Word::Jan]), Ok(Group::from_word(Word::Jan)));
    assert_eq!(Group::from_word(Word::Jan), noun(Word::Jan, vec![]));
}

#[test]
fn noun_phrase_errors() {
    assert_eq!(parse_group(&[]), Err(ParseTPError::EmptyNounPhrase));
    assert_eq!(parse_group(&[Word::La, Word::Jan]), Err(ParseTPError::InvalidNoun(Word::La)));
    assert_eq!(parse_group(&[Word::Jan, Word::Pi]), Err(ParseTPError::EmptyNounPhrase));
    assert_eq!(
        parse_group(&[Word::Jan, Word::Pi, Word::O]),
        Err(ParseTPError::InvalidNoun(Word::O))
    );
}

#[test]
fn noun_phrase_with_nested_pi() {
    let words = [
        Word::Tomo, Word::Suli, Word::Pi, Word::Jan, Word::Pona, Word::Pi, Word::Ma, Word::Ni,
    ];
    let expected = Group {
        word: Word::Tomo,
        modifiers: vec![Word::Suli],
        of: Some(Box::new(Group {
            word: Word::Jan,
            modifiers: vec![Word::Pona],
            of: Some(Box::new(noun(Word::Ma, vec![Word::Ni]))),
        })),
    };
    let group = parse_group(&words).unwrap();
    assert_eq!(group, expected);
    assert_eq!(group.to_string(), "(((tomo)suli)pi(((jan)pona)pi((ma)ni)))");
}

#[test]
fn modifiers_may_be_particles() {
    assert_eq!(parse_group(&[Word::Jan, Word::E]), Ok(noun(Word::Jan, vec![Word::E])));
}

#[test]
fn noun_phrases_between_separators() {
    assert_eq!(
        parse_groups(&[Word::Jan, Word::Pona, Word::En, Word::Soweli], Word::En),
        Ok(vec![noun(Word::Jan, vec![Word::Pona]), Group::from_word(Word::Soweli)])
    );
    assert_eq!(parse_groups(&[Word::Pan], Word::E), Ok(vec![Group::from_word(Word::Pan)]));
    assert_eq!(parse_groups(&[], Word::E), Err(ParseTPError::EmptyNounPhrase));
    assert_eq!(parse_groups(&[Word::Pan, Word::E], Word::E), Err(ParseTPError::EmptyNounPhrase));
    assert_eq!(
        parse_groups(&[Word::A, Word::E, Word::Li], Word::E),
        Err(ParseTPError::InvalidNoun(Word::A))
    );
}

#[test]
fn verb_phrases() {
    assert_eq!(parse_verb_phrase(&[]), Err(ParseTPError::EmptyVerbPhrase));
    assert_eq!(
        parse_verb_phrase(&[Word::Kama]),
        Ok(VerbPhrase { preverbs: vec![], verb: Group::from_word(Word::Kama) })
    );
    assert_eq!(
        parse_verb_phrase(&[Word::Wile, Word::Moku, Word::Mute]),
        Ok(VerbPhrase { preverbs: vec![Word::Wile], verb: noun(Word::Moku, vec![Word::Mute]) })
    );
    assert_eq!(
        parse_verb_phrase(&[Word::Wile, Word::Kama, Word::Wile]),
        Ok(VerbPhrase {
            preverbs: vec![Word::Wile, Word::Kama],
            verb: Group::from_word(Word::Wile)
        })
    );
    assert_eq!(
        parse_verb_phrase(&[Word::Wile, Word::E]),
        Err(ParseTPError::InvalidNoun(Word::E))
    );
    let phrase = parse_verb_phrase(&[Word::Wile, Word::Kama, Word::Sona, Word::Mute]).unwrap();
    assert_eq!(phrase.to_string(), "(wile(kama((sona)mute)))");
}

#[test]
fn prepositional_phrases() {
    assert_eq!(parse_preposition(&[]), Err(ParseTPError::EmptyPreposition));
    assert_eq!(parse_preposition(&[Word::Lon]), Err(ParseTPError::EmptyNounPhrase));
    assert_eq!(
        parse_preposition(&[Word::Tan, Word::Tomo]),
        Err(ParseTPError::InvalidPreposition(Word::Tan))
    );
    assert_eq!(
        parse_preposition(&[Word::Tan, Word::Li]),
        Err(ParseTPError::InvalidNoun(Word::Li))
    );
    let phrase = parse_preposition(&[Word::Tawa, Word::Tomo, Word::Mi]).unwrap();
    assert_eq!(
        phrase,
        Preposition { preposition: Word::Tawa, noun: noun(Word::Tomo, vec![Word::Mi]) }
    );
    assert_eq!(phrase.to_string(), "tawa((tomo)mi)");
}

#[test]
fn start_of_the_last_prepositional_phrase() {
    assert_eq!(find_preposition_start(&[Moku, Kepeken, Uta]), None);
    assert_eq!(find_preposition_start(&[Moku, Mute, Kepeken, Uta]), Some(2));
    assert_eq!(find_preposition_start(&[Moku, Mute, Kepeken]), None);
    assert_eq!(find_preposition_start(&[Moku, E, Lon, Tomo]), None);
    assert_eq!(find_preposition_start(&[Moku, E, Pan, Lon, Tomo]), Some(3));
    assert_eq!(find_preposition_start(&[Moku, Mute, Lon, Tomo, E, Pan]), None);
    assert_eq!(find_preposition_start(&[Moku, Mute, Lon, Tomo, Kepeken, Uta]), Some(4));
    assert_eq!(find_preposition_start(&[]), None);
    assert_eq!(find_preposition_start(&[Lon]), None);
}

#[test]
fn prepositional_phrases_are_taken_off_the_end() {
    let (end, phrases) =
        split_prepositions(&[Moku, Mute, Kepeken, Uta, Lon, Tomo]).unwrap();
    assert_eq!(end, 2);
    assert_eq!(
        phrases,
        vec![
            Preposition { preposition: Kepeken, noun: Group::from_word(Uta) },
            Preposition { preposition: Lon, noun: Group::from_word(Tomo) },
        ]
    );
    assert_eq!(split_prepositions(&[Moku, Kepeken, Uta]), Ok((3, vec![])));
    assert_eq!(split_prepositions(&[]), Ok((0, vec![])));
    assert_eq!(
        split_prepositions(&[Moku, Mute, Lon, A]),
        Err(ParseTPError::InvalidNoun(A))
    );
}

#[test]
fn predicates() {
    assert_eq!(parse_predicate(&[]), Err(ParseTPError::EmptyPredicate));
    assert_eq!(parse_predicate(&[Word::Li]), Err(ParseTPError::EmptyVerbPhrase));
    assert_eq!(parse_predicate(&[Word::O, Word::E, Word::Pan]), Err(ParseTPError::EmptyVerbPhrase));
    let marked = parse_predicate(&[Word::Li, Word::Moku, Word::E, Word::Pan]).unwrap();
    let unmarked = parse_predicate(&[Word::Moku, Word::E, Word::Pan]).unwrap();
    assert_eq!(marked, unmarked);
    assert_eq!(
        marked,
        Predicate {
            imperative: false,
            verb: VerbPhrase { preverbs: vec![], verb: Group::from_word(Word::Moku) },
            objects: vec![Group::from_word(Word::Pan)],
            prepositions: vec![],
        }
    );
    let order = parse_predicate(&[Word::O, Word::Wile, Word::Pali, Word::Mute, Word::Lon, Word::Ma])
        .unwrap();
    assert!(order.imperative);
    assert_eq!(order.to_string(), "o(wile((pali)mute))lon(ma)");
}

#[test]
fn predicate_chains() {
    assert_eq!(parse_predicates(&[]), Ok(vec![]));
    let chain =
        parse_predicates(&[Word::Li, Word::Moku, Word::O, Word::Lape, Word::Li, Word::Pali])
            .unwrap();
    assert_eq!(chain.len(), 3);
    assert_eq!(
        chain.iter().map(|p| p.imperative).collect::<Vec<bool>>(),
        vec![false, true, false]
    );
    assert_eq!(
        parse_predicates(&[Word::Li, Word::Moku, Word::Li]),
        Err(ParseTPError::EmptyVerbPhrase)
    );
}

#[test]
fn subjects_of_a_clause() {
    assert_eq!(
        parse_subjects(&[Word::Jan, Word::En, Word::Mi, Word::Li, Word::Moku]),
        Ok((vec![Group::from_word(Word::Jan), Group::from_word(Word::Mi)], 3))
    );
    assert_eq!(
        parse_subjects(&[Word::O, Word::Moku]),
        Ok((vec![Group::from_word(Word::Sina)], 0))
    );
    assert_eq!(parse_subjects(&[Word::Li, Word::Moku]), Err(ParseTPError::EmptySubject));
    assert_eq!(
        parse_subjects(&[Word::Sina, Word::Moku]),
        Ok((vec![Group::from_word(Word::Sina)], 1))
    );
    assert_eq!(
        parse_subjects(&[Word::Jan, Word::Moku]),
        Ok((vec![noun(Word::Jan, vec![Word::Moku])], 2))
    );
    assert_eq!(parse_subjects(&[]), Err(ParseTPError::EmptyNounPhrase));
    assert_eq!(
        parse_subjects(&[Word::Jan, Word::En, Word::Li, Word::Moku]),
        Err(ParseTPError::EmptyNounPhrase)
    );
}

#[test]
fn contexts() {
    assert_eq!(parse_fragment(&[]), Err(ParseTPError::EmptyContext));
    assert_eq!(
        parse_fragment(&[Word::Tenpo, Word::Ni]),
        Ok(Context::NounPhrase(noun(Word::Tenpo, vec![Word::Ni])))
    );
    let context = parse_fragment(&[Word::Mi, Word::Li, Word::Lape]).unwrap();
    assert!(matches!(context, Context::Sentence(Sentence { .. })));
    assert_eq!(context.to_string(), "((mi)li(lape))");
    assert_eq!(
        parse_fragment(&[Word::Tenpo, Word::Ni]).unwrap().to_string(),
        "((tenpo)ni)"
    );
    assert_eq!(parse_fragment(&[Word::Li, Word::Lape]), Err(ParseTPError::EmptySubject));
}

#[test]
fn errors_are_written_out() {
    assert_eq!(ParseTPError::EmptyNounPhrase.to_string(), "EmptyNounPhrase");
    assert_eq!(ParseTPError::EmptyContext.to_string(), "EmptyContext");
    assert_eq!(ParseTPError::EmptySubject.to_string(), "EmptySubject");
    assert_eq!(ParseTPError::EmptyPredicate.to_string(), "EmptyPredicate");
    assert_eq!(ParseTPError::EmptyVerbPhrase.to_string(), "EmptyVerbPhrase");
    assert_eq!(ParseTPError::EmptyPreposition.to_string(), "EmptyPreposition");
    assert_eq!(ParseTPError::InvalidSubject.to_string(), "InvalidSubject");
    assert_eq!(
        ParseTPError::InvalidPreposition(Word::Tan).to_string(),
        "InvalidPreposition(tan)"
    );
    assert_eq!(ParseTPError::InvalidNoun(Word::Li).to_string(), "InvalidNoun(li)");
    assert_eq!(
        ParseTPError::InvalidWord(ParseWordError { text: "Hello".to_string() }).to_string(),
        "InvalidWord(Hello)"
    );
}

#[test]
fn sentence_with_every_part_is_written_out() {
    let sentence = Sentence {
        context: Some(Box::new(Context::NounPhrase(noun(Word::Tenpo, vec![Word::Ni])))),
        subjects: vec![
            Group::from_word(Word::Mi),
            Group {
                word: Word::Jan,
                modifiers: vec![],
                of: Some(Box::new(noun(Word::Ma, vec![Word::Ni]))),
            },
        ],
        predicates: vec![
            Predicate {
                imperative: false,
                verb: VerbPhrase { preverbs: vec![Word::Wile], verb: Group::from_word(Word::Moku) },
                objects: vec![Group::from_word(Word::Pan), Group::from_word(Word::Telo)],
                prepositions: vec![
                    Preposition { preposition: Word::Lon, noun: Group::from_word(Word::Tomo) },
                    Preposition { preposition: Word::Kepeken, noun: Group::from_word(Word::Ilo) },
                ],
            },
            Predicate {
                imperative: true,
                verb: VerbPhrase { preverbs: vec![], verb: Group::from_word(Word::Lape) },
                objects: vec![],
                prepositions: vec![],
            },
        ],
    };
    assert_eq!(
        sentence.to_string(),
        "((tenpo)ni)la(mi)en((jan)pi((ma)ni))li(wile(moku))e(pan)e(telo)lon(tomo)kepeken(ilo)o(lape)"
    );
}
