//! The closed vocabulary: its words, their grammatical roles, and the
//! classification of a token's text as one of them.

use vstd::prelude::*;

verus! {

/// A word of the vocabulary.
#[derive(Debug, PartialEq, Eq, Clone, Copy, Hash, Structural)]
pub enum Word {
    A,
    Akesi,
    Ala,
    Alasa,
    Ale,
    Anpa,
    Ante,
    Anu,
    Awen,
    E,
    En,
    Esun,
    Ijo,
    Ike,
    Ilo,
    Insa,
    Jaki,
    Jan,
    Jelo,
    Jo,
    Kala,
    Kalama,
    Kama,
    Kasi,
    Ken,
    Kepeken,
    Kili,
    Kiwen,
    Ko,
    Kon,
    Kule,
    Kulupu,
    Kute,
    La,
    Lanpan,
    Lape,
    Laso,
    Lawa,
    Len,
    Lete,
    Li,
    Lili,
    Linja,
    Lipu,
    Loje,
    Lon,
    Luka,
    Lukin,
    Lupa,
    Ma,
    Mama,
    Mani,
    Mi,
    Moku,
    Moli,
    Monsi,
    Mu,
    Mun,
    Musi,
    Mute,
    Nanpa,
    Nasa,
    Nasin,
    Nena,
    Ni,
    Nimi,
    Noka,
    O,
    Olin,
    Ona,
    Open,
    Pakala,
    Pali,
    Palisa,
    Pan,
    Pana,
    Pi,
    Pilin,
    Pimeja,
    Pini,
    Pipi,
    Poka,
    Poki,
    Pona,
    Pu,
    Sama,
    Seli,
    Selo,
    Seme,
    Sewi,
    Sijelo,
    Sike,
    Sin,
    Sina,
    Sinpin,
    Sitelen,
    Sona,
    Soweli,
    Suli,
    Suno,
    Supa,
    Suwi,
    Tan,
    Taso,
    Tawa,
    Telo,
    Tenpo,
    Toki,
    Tomo,
    Tu,
    Unpa,
    Uta,
    Utala,
    Walo,
    Wan,
    Waso,
    Wawa,
    Weka,
    Wile,
}

/// How many words the vocabulary holds.
pub const VOCABULARY_SIZE: usize = 119;

/// The text of a token that is no word of the vocabulary.
#[derive(Debug, PartialEq, Eq)]
pub struct ParseWordError {
    pub text: String,
}

impl View for ParseWordError {
    type V = Seq<char>;

    open spec fn view(&self) -> Seq<char> {
        self.text@
    }
}

/// An ASCII capital letter becomes its small letter; any other character stays.
pub open spec fn lower_char(c: char) -> char {
    if 'A' <= c && c <= 'Z' {
        ((c as u8) + 32) as char
    } else {
        c
    }
}

/// A text with each of its characters lower-cased by [`lower_char`].
pub open spec fn lower(text: Seq<char>) -> Seq<char> {
    text.map_values(|c: char| lower_char(c))
}

/// The word that a token's text stands for: the one whose spelling is the
/// lower-cased text, if there is one.
pub open spec fn spec_classify(text: Seq<char>) -> Option<Word> {
    if exists|w: Word| w.spelling() == lower(text) {
        Some(choose|w: Word| w.spelling() == lower(text))
    } else {
        None
    }
}

impl Word {
    /// The word as it is written: lower-case ASCII letters.
    pub open spec fn spelling(self) -> Seq<char> {
        match self {
            Word::A => "a"@,
            Word::Akesi => "akesi"@,
            Word::Ala => "ala"@,
            Word::Alasa => "alasa"@,
            Word::Ale => "ale"@,
            Word::Anpa => "anpa"@,
            Word::Ante => "ante"@,
            Word::Anu => "anu"@,
            Word::Awen => "awen"@,
            Word::E => "e"@,
            Word::En => "en"@,
            Word::Esun => "esun"@,
            Word::Ijo => "ijo"@,
            Word::Ike => "ike"@,
            Word::Ilo => "ilo"@,
            Word::Insa => "insa"@,
            Word::Jaki => "jaki"@,
            Word::Jan => "jan"@,
            Word::Jelo => "jelo"@,
            Word::Jo => "jo"@,
            Word::Kala => "kala"@,
            Word::Kalama => "kalama"@,
            Word::Kama => "kama"@,
            Word::Kasi => "kasi"@,
            Word::Ken => "ken"@,
            Word::Kepeken => "kepeken"@,
            Word::Kili => "kili"@,
            Word::Kiwen => "kiwen"@,
            Word::Ko => "ko"@,
            Word::Kon => "kon"@,
            Word::Kule => "kule"@,
            Word::Kulupu => "kulupu"@,
            Word::Kute => "kute"@,
            Word::La => "la"@,
            Word::Lanpan => "lanpan"@,
            Word::Lape => "lape"@,
            Word::Laso => "laso"@,
            Word::Lawa => "lawa"@,
            Word::Len => "len"@,
            Word::Lete => "lete"@,
            Word::Li => "li"@,
            Word::Lili => "lili"@,
            Word::Linja => "linja"@,
            Word::Lipu => "lipu"@,
            Word::Loje => "loje"@,
            Word::Lon => "lon"@,
            Word::Luka => "luka"@,
            Word::Lukin => "lukin"@,
            Word::Lupa => "lupa"@,
            Word::Ma => "ma"@,
            Word::Mama => "mama"@,
            Word::Mani => "mani"@,
            Word::Mi => "mi"@,
            Word::Moku => "moku"@,
            Word::Moli => "moli"@,
            Word::Monsi => "monsi"@,
            Word::Mu => "mu"@,
            Word::Mun => "mun"@,
            Word::Musi => "musi"@,
            Word::Mute => "mute"@,
            Word::Nanpa => "nanpa"@,
            Word::Nasa => "nasa"@,
            Word::Nasin => "nasin"@,
            Word::Nena => "nena"@,
            Word::Ni => "ni"@,
            Word::Nimi => "nimi"@,
            Word::Noka => "noka"@,
            Word::O => "o"@,
            Word::Olin => "olin"@,
            Word::Ona => "ona"@,
            Word::Open => "open"@,
            Word::Pakala => "pakala"@,
            Word::Pali => "pali"@,
            Word::Palisa => "palisa"@,
            Word::Pan => "pan"@,
            Word::Pana => "pana"@,
            Word::Pi => "pi"@,
            Word::Pilin => "pilin"@,
            Word::Pimeja => "pimeja"@,
            Word::Pini => "pini"@,
            Word::Pipi => "pipi"@,
            Word::Poka => "poka"@,
            Word::Poki => "poki"@,
            Word::Pona => "pona"@,
            Word::Pu => "pu"@,
            Word::Sama => "sama"@,
            Word::Seli => "seli"@,
            Word::Selo => "selo"@,
            Word::Seme => "seme"@,
            Word::Sewi => "sewi"@,
            Word::Sijelo => "sijelo"@,
            Word::Sike => "sike"@,
            Word::Sin => "sin"@,
            Word::Sina => "sina"@,
            Word::Sinpin => "sinpin"@,
            Word::Sitelen => "sitelen"@,
            Word::Sona => "sona"@,
            Word::Soweli => "soweli"@,
            Word::Suli => "suli"@,
            Word::Suno => "suno"@,
            Word::Supa => "supa"@,
            Word::Suwi => "suwi"@,
            Word::Tan => "tan"@,
            Word::Taso => "taso"@,
            Word::Tawa => "tawa"@,
            Word::Telo => "telo"@,
            Word::Tenpo => "tenpo"@,
            Word::Toki => "toki"@,
            Word::Tomo => "tomo"@,
            Word::Tu => "tu"@,
            Word::Unpa => "unpa"@,
            Word::Uta => "uta"@,
            Word::Utala => "utala"@,
            Word::Walo => "walo"@,
            Word::Wan => "wan"@,
            Word::Waso => "waso"@,
            Word::Wawa => "wawa"@,
            Word::Weka => "weka"@,
            Word::Wile => "wile"@,
        }
    }

    /// The place of the word in the vocabulary, counted from zero.
    pub open spec fn ordinal(self) -> nat {
        match self {
            Word::A => 0,
            Word::Akesi => 1,
            Word::Ala => 2,
            Word::Alasa => 3,
            Word::Ale => 4,
            Word::Anpa => 5,
            Word::Ante => 6,
            Word::Anu => 7,
            Word::Awen => 8,
            Word::E => 9,
            Word::En => 10,
            Word::Esun => 11,
            Word::Ijo => 12,
            Word::Ike => 13,
            Word::Ilo => 14,
            Word::Insa => 15,
            Word::Jaki => 16,
            Word::Jan => 17,
            Word::Jelo => 18,
            Word::Jo => 19,
            Word::Kala => 20,
            Word::Kalama => 21,
            Word::Kama => 22,
            Word::Kasi => 23,
            Word::Ken => 24,
            Word::Kepeken => 25,
            Word::Kili => 26,
            Word::Kiwen => 27,
            Word::Ko => 28,
            Word::Kon => 29,
            Word::Kule => 30,
            Word::Kulupu => 31,
            Word::Kute => 32,
            Word::La => 33,
            Word::Lanpan => 34,
            Word::Lape => 35,
            Word::Laso => 36,
            Word::Lawa => 37,
            Word::Len => 38,
            Word::Lete => 39,
            Word::Li => 40,
            Word::Lili => 41,
            Word::Linja => 42,
            Word::Lipu => 43,
            Word::Loje => 44,
            Word::Lon => 45,
            Word::Luka => 46,
            Word::Lukin => 47,
            Word::Lupa => 48,
            Word::Ma => 49,
            Word::Mama => 50,
            Word::Mani => 51,
            Word::Mi => 52,
            Word::Moku => 53,
            Word::Moli => 54,
            Word::Monsi => 55,
            Word::Mu => 56,
            Word::Mun => 57,
            Word::Musi => 58,
            Word::Mute => 59,
            Word::Nanpa => 60,
            Word::Nasa => 61,
            Word::Nasin => 62,
            Word::Nena => 63,
            Word::Ni => 64,
            Word::Nimi => 65,
            Word::Noka => 66,
            Word::O => 67,
            Word::Olin => 68,
            Word::Ona => 69,
            Word::Open => 70,
            Word::Pakala => 71,
            Word::Pali => 72,
            Word::Palisa => 73,
            Word::Pan => 74,
            Word::Pana => 75,
            Word::Pi => 76,
            Word::Pilin => 77,
            Word::Pimeja => 78,
            Word::Pini => 79,
            Word::Pipi => 80,
            Word::Poka => 81,
            Word::Poki => 82,
            Word::Pona => 83,
            Word::Pu => 84,
            Word::Sama => 85,
            Word::Seli => 86,
            Word::Selo => 87,
            Word::Seme => 88,
            Word::Sewi => 89,
            Word::Sijelo => 90,
            Word::Sike => 91,
            Word::Sin => 92,
            Word::Sina => 93,
            Word::Sinpin => 94,
            Word::Sitelen => 95,
            Word::Sona => 96,
            Word::Soweli => 97,
            Word::Suli => 98,
            Word::Suno => 99,
            Word::Supa => 100,
            Word::Suwi => 101,
            Word::Tan => 102,
            Word::Taso => 103,
            Word::Tawa => 104,
            Word::Telo => 105,
            Word::Tenpo => 106,
            Word::Toki => 107,
            Word::Tomo => 108,
            Word::Tu => 109,
            Word::Unpa => 110,
            Word::Uta => 111,
            Word::Utala => 112,
            Word::Walo => 113,
            Word::Wan => 114,
            Word::Waso => 115,
            Word::Wawa => 116,
            Word::Weka => 117,
            Word::Wile => 118,
        }
    }

    /// The word is `li` or `o`.
    pub open spec fn spec_is_predicate_marker(&self) -> bool {
        *self == Word::Li || *self == Word::O
    }

    /// The word is `tawa`, `kepeken` or `lon`.
    pub open spec fn spec_is_preposition(&self) -> bool {
        *self == Word::Tawa || *self == Word::Kepeken || *self == Word::Lon
    }

    /// The word is `kama` or `wile`.
    pub open spec fn spec_is_preverb(&self) -> bool {
        *self == Word::Kama || *self == Word::Wile
    }

    /// The word is `li`, `o`, `la`, `e` or `a`.
    pub open spec fn spec_is_particle(&self) -> bool {
        *self == Word::Li || *self == Word::O || *self == Word::La || *self == Word::E
            || *self == Word::A
    }

    /// Whether the word opens a predicate: `li` or `o`.
    #[verifier::when_used_as_spec(spec_is_predicate_marker)]
    pub fn is_predicate_marker(&self) -> (b: bool)
        ensures
            b == self.spec_is_predicate_marker(),
    {
        match self {
            Word::Li | Word::O => true,
            _ => false,
        }
    }

    /// Whether the word is a preposition: `tawa`, `kepeken` or `lon`.
    #[verifier::when_used_as_spec(spec_is_preposition)]
    pub fn is_preposition(&self) -> (b: bool)
        ensures
            b == self.spec_is_preposition(),
    {
        match self {
            Word::Tawa | Word::Kepeken | Word::Lon => true,
            _ => false,
        }
    }

    /// Whether the word is a preverb: `kama` or `wile`.
    #[verifier::when_used_as_spec(spec_is_preverb)]
    pub fn is_preverb(&self) -> (b: bool)
        ensures
            b == self.spec_is_preverb(),
    {
        match self {
            Word::Kama | Word::Wile => true,
            _ => false,
        }
    }

    /// Whether the word is a particle, which cannot head a noun phrase:
    /// `li`, `o`, `la`, `e` or `a`.
    #[verifier::when_used_as_spec(spec_is_particle)]
    pub fn is_particle(&self) -> (b: bool)
        ensures
            b == self.spec_is_particle(),
    {
        match self {
            Word::Li | Word::O | Word::La | Word::E | Word::A => true,
            _ => false,
        }
    }

    /// The word as it is written.
    pub fn name(&self) -> (s: &'static str)
        ensures
            s@ == self.spelling(),
    {
        match self {
            Word::A => "a",
            Word::Akesi => "akesi",
            Word::Ala => "ala",
            Word::Alasa => "alasa",
            Word::Ale => "ale",
            Word::Anpa => "anpa",
            Word::Ante => "ante",
            Word::Anu => "anu",
            Word::Awen => "awen",
            Word::E => "e",
            Word::En => "en",
            Word::Esun => "esun",
            Word::Ijo => "ijo",
            Word::Ike => "ike",
            Word::Ilo => "ilo",
            Word::Insa => "insa",
            Word::Jaki => "jaki",
            Word::Jan => "jan",
            Word::Jelo => "jelo",
            Word::Jo => "jo",
            Word::Kala => "kala",
            Word::Kalama => "kalama",
            Word::Kama => "kama",
            Word::Kasi => "kasi",
            Word::Ken => "ken",
            Word::Kepeken => "kepeken",
            Word::Kili => "kili",
            Word::Kiwen => "kiwen",
            Word::Ko => "ko",
            Word::Kon => "kon",
            Word::Kule => "kule",
            Word::Kulupu => "kulupu",
            Word::Kute => "kute",
            Word::La => "la",
            Word::Lanpan => "lanpan",
            Word::Lape => "lape",
            Word::Laso => "laso",
            Word::Lawa => "lawa",
            Word::Len => "len",
            Word::Lete => "lete",
            Word::Li => "li",
            Word::Lili => "lili",
            Word::Linja => "linja",
            Word::Lipu => "lipu",
            Word::Loje => "loje",
            Word::Lon => "lon",
            Word::Luka => "luka",
            Word::Lukin => "lukin",
            Word::Lupa => "lupa",
            Word::Ma => "ma",
            Word::Mama => "mama",
            Word::Mani => "mani",
            Word::Mi => "mi",
            Word::Moku => "moku",
            Word::Moli => "moli",
            Word::Monsi => "monsi",
            Word::Mu => "mu",
            Word::Mun => "mun",
            Word::Musi => "musi",
            Word::Mute => "mute",
            Word::Nanpa => "nanpa",
            Word::Nasa => "nasa",
            Word::Nasin => "nasin",
            Word::Nena => "nena",
            Word::Ni => "ni",
            Word::Nimi => "nimi",
            Word::Noka => "noka",
            Word::O => "o",
            Word::Olin => "olin",
            Word::Ona => "ona",
            Word::Open => "open",
            Word::Pakala => "pakala",
            Word::Pali => "pali",
            Word::Palisa => "palisa",
            Word::Pan => "pan",
            Word::Pana => "pana",
            Word::Pi => "pi",
            Word::Pilin => "pilin",
            Word::Pimeja => "pimeja",
            Word::Pini => "pini",
            Word::Pipi => "pipi",
            Word::Poka => "poka",
            Word::Poki => "poki",
            Word::Pona => "pona",
            Word::Pu => "pu",
            Word::Sama => "sama",
            Word::Seli => "seli",
            Word::Selo => "selo",
            Word::Seme => "seme",
            Word::Sewi => "sewi",
            Word::Sijelo => "sijelo",
            Word::Sike => "sike",
            Word::Sin => "sin",
            Word::Sina => "sina",
            Word::Sinpin => "sinpin",
            Word::Sitelen => "sitelen",
            Word::Sona => "sona",
            Word::Soweli => "soweli",
            Word::Suli => "suli",
            Word::Suno => "suno",
            Word::Supa => "supa",
            Word::Suwi => "suwi",
            Word::Tan => "tan",
            Word::Taso => "taso",
            Word::Tawa => "tawa",
            Word::Telo => "telo",
            Word::Tenpo => "tenpo",
            Word::Toki => "toki",
            Word::Tomo => "tomo",
            Word::Tu => "tu",
            Word::Unpa => "unpa",
            Word::Uta => "uta",
            Word::Utala => "utala",
            Word::Walo => "walo",
            Word::Wan => "wan",
            Word::Waso => "waso",
            Word::Wawa => "wawa",
            Word::Weka => "weka",
            Word::Wile => "wile",
        }
    }

    /// The word as it is written, as an owned string.
    pub fn to_string(&self) -> (s: String)
        ensures
            s@ == self.spelling(),
    {
        self.name().to_owned()
    }

    /// The word at a given place of the vocabulary.
    pub fn from_ordinal(i: usize) -> (w: Word)
        requires
            i < VOCABULARY_SIZE,
        ensures
            w.ordinal() == i,
    {
        match i {
            0 => Word::A,
            1 => Word::Akesi,
            2 => Word::Ala,
            3 => Word::Alasa,
            4 => Word::Ale,
            5 => Word::Anpa,
            6 => Word::Ante,
            7 => Word::Anu,
            8 => Word::Awen,
            9 => Word::E,
            10 => Word::En,
            11 => Word::Esun,
            12 => Word::Ijo,
            13 => Word::Ike,
            14 => Word::Ilo,
            15 => Word::Insa,
            16 => Word::Jaki,
            17 => Word::Jan,
            18 => Word::Jelo,
            19 => Word::Jo,
            20 => Word::Kala,
            21 => Word::Kalama,
            22 => Word::Kama,
            23 => Word::Kasi,
            24 => Word::Ken,
            25 => Word::Kepeken,
            26 => Word::Kili,
            27 => Word::Kiwen,
            28 => Word::Ko,
            29 => Word::Kon,
            30 => Word::Kule,
            31 => Word::Kulupu,
            32 => Word::Kute,
            33 => Word::La,
            34 => Word::Lanpan,
            35 => Word::Lape,
            36 => Word::Laso,
            37 => Word::Lawa,
            38 => Word::Len,
            39 => Word::Lete,
            40 => Word::Li,
            41 => Word::Lili,
            42 => Word::Linja,
            43 => Word::Lipu,
            44 => Word::Loje,
            45 => Word::Lon,
            46 => Word::Luka,
            47 => Word::Lukin,
            48 => Word::Lupa,
            49 => Word::Ma,
            50 => Word::Mama,
            51 => Word::Mani,
            52 => Word::Mi,
            53 => Word::Moku,
            54 => Word::Moli,
            55 => Word::Monsi,
            56 => Word::Mu,
            57 => Word::Mun,
            58 => Word::Musi,
            59 => Word::Mute,
            60 => Word::Nanpa,
            61 => Word::Nasa,
            62 => Word::Nasin,
            63 => Word::Nena,
            64 => Word::Ni,
            65 => Word::Nimi,
            66 => Word::Noka,
            67 => Word::O,
            68 => Word::Olin,
            69 => Word::Ona,
            70 => Word::Open,
            71 => Word::Pakala,
            72 => Word::Pali,
            73 => Word::Palisa,
            74 => Word::Pan,
            75 => Word::Pana,
            76 => Word::Pi,
            77 => Word::Pilin,
            78 => Word::Pimeja,
            79 => Word::Pini,
            80 => Word::Pipi,
            81 => Word::Poka,
            82 => Word::Poki,
            83 => Word::Pona,
            84 => Word::Pu,
            85 => Word::Sama,
            86 => Word::Seli,
            87 => Word::Selo,
            88 => Word::Seme,
            89 => Word::Sewi,
            90 => Word::Sijelo,
            91 => Word::Sike,
            92 => Word::Sin,
            93 => Word::Sina,
            94 => Word::Sinpin,
            95 => Word::Sitelen,
            96 => Word::Sona,
            97 => Word::Soweli,
            98 => Word::Suli,
            99 => Word::Suno,
            100 => Word::Supa,
            101 => Word::Suwi,
            102 => Word::Tan,
            103 => Word::Taso,
            104 => Word::Tawa,
            105 => Word::Telo,
            106 => Word::Tenpo,
            107 => Word::Toki,
            108 => Word::Tomo,
            109 => Word::Tu,
            110 => Word::Unpa,
            111 => Word::Uta,
            112 => Word::Utala,
            113 => Word::Walo,
            114 => Word::Wan,
            115 => Word::Waso,
            116 => Word::Wawa,
            117 => Word::Weka,
            _ => Word::Wile,
        }
    }

    /// Finds the word that a token's characters stand for, whatever their case.
    pub fn lookup(token: &[char]) -> (r: Option<Word>)
        ensures
            r == spec_classify(token@),
    {
        let mut i: usize = 0;
        while i < VOCABULARY_SIZE
            invariant
                i <= VOCABULARY_SIZE,
                forall|w: Word| w.ordinal() < i ==> w.spelling() != lower(token@),
            decreases VOCABULARY_SIZE - i,
        {
            let word = Word::from_ordinal(i);
            if spelled(token, word.name()) {
                proof {
                    let other = choose|w: Word| w.spelling() == lower(token@);
                    lemma_spelling_injective(word, other);
                }
                return Some(word);
            }
            i += 1;
        }
        None
    }

    /// Classifies a token's text: the word whose spelling it is once
    /// lower-cased, or an error that carries the text.
    pub fn classify(token: &str) -> (r: Result<Word, ParseWordError>)
        ensures
            match r {
                Ok(w) => spec_classify(token@) == Some(w),
                Err(e) => spec_classify(token@) is None && e@ == token@,
            },
    {
        let chars = chars_of(token);
        match Word::lookup(chars.as_slice()) {
            Some(w) => Ok(w),
            None => Err(ParseWordError { text: token.to_owned() }),
        }
    }
}

impl std::str::FromStr for Word {
    type Err = ParseWordError;

    /// Classifies a token's text, as [`Word::classify`] does.
    fn from_str(token: &str) -> (r: Result<Word, ParseWordError>)
        ensures
            match r {
                Ok(w) => spec_classify(token@) == Some(w),
                Err(e) => spec_classify(token@) is None && e@ == token@,
            },
    {
        Word::classify(token)
    }
}

/// The lower-case form of a character.
pub fn to_lower_char(c: char) -> (r: char)
    ensures
        r == lower_char(c),
{
    if 'A' <= c && c <= 'Z' {
        ((c as u8) + 32) as char
    } else {
        c
    }
}

/// The characters of a text, one by one.
pub fn chars_of(text: &str) -> (v: Vec<char>)
    ensures
        v@ == text@,
{
    let mut v: Vec<char> = Vec::new();
    for c in it: text.chars()
        invariant
            v@ == it.seq().take(it.index()),
    {
        v.push(c);
    }
    v
}

/// Whether a token, lower-cased, is written as `name`.
fn spelled(token: &[char], name: &str) -> (b: bool)
    ensures
        b == (lower(token@) == name@),
{
    let n = name.unicode_len();
    if token.len() != n {
        return false;
    }
    let mut k: usize = 0;
    while k < n
        invariant
            k <= n,
            n == name@.len(),
            n == token@.len(),
            forall|j: int| 0 <= j < k ==> lower_char(token@[j]) == name@[j],
        decreases n - k,
    {
        if to_lower_char(token[k]) != name.get_char(k) {
            return false;
        }
        k += 1;
    }
    assert(lower(token@) =~= name@);
    true
}

/// Two words that are written alike are the same word.
#[verifier::rlimit(30)]
#[verifier::spinoff_prover]
pub proof fn lemma_spelling_injective(a: Word, b: Word)
    requires
        a.spelling() == b.spelling(),
    ensures
        a == b,
{
    reveal_strlit("a");
    reveal_strlit("akesi");
    reveal_strlit("ala");
    reveal_strlit("alasa");
    reveal_strlit("ale");
    reveal_strlit("anpa");
    reveal_strlit("ante");
    reveal_strlit("anu");
    reveal_strlit("awen");
    reveal_strlit("e");
    reveal_strlit("en");
    reveal_strlit("esun");
    reveal_strlit("ijo");
    reveal_strlit("ike");
    reveal_strlit("ilo");
    reveal_strlit("insa");
    reveal_strlit("jaki");
    reveal_strlit("jan");
    reveal_strlit("jelo");
    reveal_strlit("jo");
    reveal_strlit("kala");
    reveal_strlit("kalama");
    reveal_strlit("kama");
    reveal_strlit("kasi");
    reveal_strlit("ken");
    reveal_strlit("kepeken");
    reveal_strlit("kili");
    reveal_strlit("kiwen");
    reveal_strlit("ko");
    reveal_strlit("kon");
    reveal_strlit("kule");
    reveal_strlit("kulupu");
    reveal_strlit("kute");
    reveal_strlit("la");
    reveal_strlit("lanpan");
    reveal_strlit("lape");
    reveal_strlit("laso");
    reveal_strlit("lawa");
    reveal_strlit("len");
    reveal_strlit("lete");
    reveal_strlit("li");
    reveal_strlit("lili");
    reveal_strlit("linja");
    reveal_strlit("lipu");
    reveal_strlit("loje");
    reveal_strlit("lon");
    reveal_strlit("luka");
    reveal_strlit("lukin");
    reveal_strlit("lupa");
    reveal_strlit("ma");
    reveal_strlit("mama");
    reveal_strlit("mani");
    reveal_strlit("mi");
    reveal_strlit("moku");
    reveal_strlit("moli");
    reveal_strlit("monsi");
    reveal_strlit("mu");
    reveal_strlit("mun");
    reveal_strlit("musi");
    reveal_strlit("mute");
    reveal_strlit("nanpa");
    reveal_strlit("nasa");
    reveal_strlit("nasin");
    reveal_strlit("nena");
    reveal_strlit("ni");
    reveal_strlit("nimi");
    reveal_strlit("noka");
    reveal_strlit("o");
    reveal_strlit("olin");
    reveal_strlit("ona");
    reveal_strlit("open");
    reveal_strlit("pakala");
    reveal_strlit("pali");
    reveal_strlit("palisa");
    reveal_strlit("pan");
    reveal_strlit("pana");
    reveal_strlit("pi");
    reveal_strlit("pilin");
    reveal_strlit("pimeja");
    reveal_strlit("pini");
    reveal_strlit("pipi");
    reveal_strlit("poka");
    reveal_strlit("poki");
    reveal_strlit("pona");
    reveal_strlit("pu");
    reveal_strlit("sama");
    reveal_strlit("seli");
    reveal_strlit("selo");
    reveal_strlit("seme");
    reveal_strlit("sewi");
    reveal_strlit("sijelo");
    reveal_strlit("sike");
    reveal_strlit("sin");
    reveal_strlit("sina");
    reveal_strlit("sinpin");
    reveal_strlit("sitelen");
    reveal_strlit("sona");
    reveal_strlit("soweli");
    reveal_strlit("suli");
    reveal_strlit("suno");
    reveal_strlit("supa");
    reveal_strlit("suwi");
    reveal_strlit("tan");
    reveal_strlit("taso");
    reveal_strlit("tawa");
    reveal_strlit("telo");
    reveal_strlit("tenpo");
    reveal_strlit("toki");
    reveal_strlit("tomo");
    reveal_strlit("tu");
    reveal_strlit("unpa");
    reveal_strlit("uta");
    reveal_strlit("utala");
    reveal_strlit("walo");
    reveal_strlit("wan");
    reveal_strlit("waso");
    reveal_strlit("wawa");
    reveal_strlit("weka");
    reveal_strlit("wile");
    let s = a.spelling();
    let t = b.spelling();
    assert(s.len() == t.len());
    assert(s[0] == t[0]);
    assert(s[1] == t[1]);
    assert(s[2] == t[2]);
    assert(s[3] == t[3]);
    assert(s[4] == t[4]);
    assert(s[5] == t[5]);
    assert(s[6] == t[6]);
}

/// A spelling holds small letters only, so lower-casing leaves it as it is.
#[verifier::rlimit(30)]
#[verifier::spinoff_prover]
pub proof fn lemma_spelling_is_lower_case(word: Word)
    ensures
        1 <= word.spelling().len() <= 7,
        forall|i: int|
            0 <= i < word.spelling().len() ==> 'a' <= #[trigger] word.spelling()[i] <= 'z',
        lower(word.spelling()) == word.spelling(),
{
    reveal_strlit("a");
    reveal_strlit("akesi");
    reveal_strlit("ala");
    reveal_strlit("alasa");
    reveal_strlit("ale");
    reveal_strlit("anpa");
    reveal_strlit("ante");
    reveal_strlit("anu");
    reveal_strlit("awen");
    reveal_strlit("e");
    reveal_strlit("en");
    reveal_strlit("esun");
    reveal_strlit("ijo");
    reveal_strlit("ike");
    reveal_strlit("ilo");
    reveal_strlit("insa");
    reveal_strlit("jaki");
    reveal_strlit("jan");
    reveal_strlit("jelo");
    reveal_strlit("jo");
    reveal_strlit("kala");
    reveal_strlit("kalama");
    reveal_strlit("kama");
    reveal_strlit("kasi");
    reveal_strlit("ken");
    reveal_strlit("kepeken");
    reveal_strlit("kili");
    reveal_strlit("kiwen");
    reveal_strlit("ko");
    reveal_strlit("kon");
    reveal_strlit("kule");
    reveal_strlit("kulupu");
    reveal_strlit("kute");
    reveal_strlit("la");
    reveal_strlit("lanpan");
    reveal_strlit("lape");
    reveal_strlit("laso");
    reveal_strlit("lawa");
    reveal_strlit("len");
    reveal_strlit("lete");
    reveal_strlit("li");
    reveal_strlit("lili");
    reveal_strlit("linja");
    reveal_strlit("lipu");
    reveal_strlit("loje");
    reveal_strlit("lon");
    reveal_strlit("luka");
    reveal_strlit("lukin");
    reveal_strlit("lupa");
    reveal_strlit("ma");
    reveal_strlit("mama");
    reveal_strlit("mani");
    reveal_strlit("mi");
    reveal_strlit("moku");
    reveal_strlit("moli");
    reveal_strlit("monsi");
    reveal_strlit("mu");
    reveal_strlit("mun");
    reveal_strlit("musi");
    reveal_strlit("mute");
    reveal_strlit("nanpa");
    reveal_strlit("nasa");
    reveal_strlit("nasin");
    reveal_strlit("nena");
    reveal_strlit("ni");
    reveal_strlit("nimi");
    reveal_strlit("noka");
    reveal_strlit("o");
    reveal_strlit("olin");
    reveal_strlit("ona");
    reveal_strlit("open");
    reveal_strlit("pakala");
    reveal_strlit("pali");
    reveal_strlit("palisa");
    reveal_strlit("pan");
    reveal_strlit("pana");
    reveal_strlit("pi");
    reveal_strlit("pilin");
    reveal_strlit("pimeja");
    reveal_strlit("pini");
    reveal_strlit("pipi");
    reveal_strlit("poka");
    reveal_strlit("poki");
    reveal_strlit("pona");
    reveal_strlit("pu");
    reveal_strlit("sama");
    reveal_strlit("seli");
    reveal_strlit("selo");
    reveal_strlit("seme");
    reveal_strlit("sewi");
    reveal_strlit("sijelo");
    reveal_strlit("sike");
    reveal_strlit("sin");
    reveal_strlit("sina");
    reveal_strlit("sinpin");
    reveal_strlit("sitelen");
    reveal_strlit("sona");
    reveal_strlit("soweli");
    reveal_strlit("suli");
    reveal_strlit("suno");
    reveal_strlit("supa");
    reveal_strlit("suwi");
    reveal_strlit("tan");
    reveal_strlit("taso");
    reveal_strlit("tawa");
    reveal_strlit("telo");
    reveal_strlit("tenpo");
    reveal_strlit("toki");
    reveal_strlit("tomo");
    reveal_strlit("tu");
    reveal_strlit("unpa");
    reveal_strlit("uta");
    reveal_strlit("utala");
    reveal_strlit("walo");
    reveal_strlit("wan");
    reveal_strlit("waso");
    reveal_strlit("wawa");
    reveal_strlit("weka");
    reveal_strlit("wile");
    let s = word.spelling();
    assert(1 <= s.len() <= 7);
    assert forall|i: int| 0 <= i < s.len() implies 'a' <= #[trigger] s[i] <= 'z' by {
        assert(i == 0 || i == 1 || i == 2 || i == 3 || i == 4 || i == 5 || i == 6);
    }
    assert(lower(s) =~= s);
}

/// A text stands for a word exactly when, lower-cased, it is the spelling
/// of that word.
pub proof fn lemma_classify_sound(text: Seq<char>, word: Word)
    ensures
        spec_classify(text) == Some(word) <==> word.spelling() == lower(text),
{
    if word.spelling() == lower(text) {
        let chosen = choose|w: Word| w.spelling() == lower(text);
        lemma_spelling_injective(chosen, word);
    }
}

/// Every word is classified as itself from its own spelling.
pub proof fn lemma_classify_spelling(word: Word)
    ensures
        spec_classify(word.spelling()) == Some(word),
{
    lemma_spelling_is_lower_case(word);
    lemma_classify_sound(word.spelling(), word);
}

/// Two texts that differ only in the case of their letters are classified
/// alike: both as the same word, or both as no word.
pub proof fn lemma_classify_ignores_case(a: Seq<char>, b: Seq<char>)
    requires
        lower(a) == lower(b),
    ensures
        spec_classify(a) == spec_classify(b),
{
}

/// Lower-casing a text that is already lower-cased changes nothing, so a
/// text and its lower-cased form are classified alike.
pub proof fn lemma_classify_lowered(text: Seq<char>)
    ensures
        lower(lower(text)) == lower(text),
        spec_classify(lower(text)) == spec_classify(text),
{
    assert(lower(lower(text)) =~= lower(text));
}

} // verus!
