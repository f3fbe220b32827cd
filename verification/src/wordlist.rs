//! The word list from which codes are made and completed.

use vstd::prelude::*;
use crate::crypto::random_below;
use crate::text::{chars_of, push_chars, slice_chars, starts_with, text_of};

verus! {

/// Number of words in each of the two lists.
pub const LIST_WORDS: usize = 256;

/// The three-syllable words of the PGP word list, in lower case and in
/// alphabetical order, in sixteen parts of sixteen words.
pub open spec fn odd_part(part: nat) -> Seq<Seq<char>> {
    if part == 0 {
        seq![
            "adroitness"@,
            "adviser"@,
            "aftermath"@,
            "aggregate"@,
            "alkali"@,
            "almighty"@,
            "amulet"@,
            "amusement"@,
            "antenna"@,
            "apollo"@,
            "applicant"@,
            "armistice"@,
            "article"@,
            "asteroid"@,
            "atlantic"@,
            "atmosphere"@,
        ]
    } else if part == 1 {
        seq![
            "autopsy"@,
            "babylon"@,
            "backwater"@,
            "barbecue"@,
            "belowground"@,
            "bifocals"@,
            "bodyguard"@,
            "bookseller"@,
            "borderline"@,
            "bottomless"@,
            "bradbury"@,
            "bravado"@,
            "brazilian"@,
            "breakaway"@,
            "burlington"@,
            "businessman"@,
        ]
    } else if part == 2 {
        seq![
            "butterfat"@,
            "camelot"@,
            "candidate"@,
            "cannonball"@,
            "capricorn"@,
            "caravan"@,
            "caretaker"@,
            "celebrate"@,
            "cellulose"@,
            "certify"@,
            "chambermaid"@,
            "cherokee"@,
            "chicago"@,
            "clergyman"@,
            "coherence"@,
            "combustion"@,
        ]
    } else if part == 3 {
        seq![
            "commando"@,
            "company"@,
            "component"@,
            "concurrent"@,
            "confidence"@,
            "conformist"@,
            "congregate"@,
            "consensus"@,
            "consulting"@,
            "corporate"@,
            "corrosion"@,
            "councilman"@,
            "crossover"@,
            "crucifix"@,
            "cumbersome"@,
            "customer"@,
        ]
    } else if part == 4 {
        seq![
            "dakota"@,
            "decadence"@,
            "december"@,
            "decimal"@,
            "designing"@,
            "detector"@,
            "detergent"@,
            "determine"@,
            "dictator"@,
            "dinosaur"@,
            "direction"@,
            "disable"@,
            "disbelief"@,
            "disruptive"@,
            "distortion"@,
            "document"@,
        ]
    } else if part == 5 {
        seq![
            "embezzle"@,
            "enchanting"@,
            "enrollment"@,
            "enterprise"@,
            "equation"@,
            "equipment"@,
            "escapade"@,
            "eskimo"@,
            "everyday"@,
            "examine"@,
            "existence"@,
            "exodus"@,
            "fascinate"@,
            "filament"@,
            "finicky"@,
            "forever"@,
        ]
    } else if part == 6 {
        seq![
            "fortitude"@,
            "frequency"@,
            "gadgetry"@,
            "galveston"@,
            "getaway"@,
            "glossary"@,
            "gossamer"@,
            "graduate"@,
            "gravity"@,
            "guitarist"@,
            "hamburger"@,
            "hamilton"@,
            "handiwork"@,
            "hazardous"@,
            "headwaters"@,
            "hemisphere"@,
        ]
    } else if part == 7 {
        seq![
            "hesitate"@,
            "hideaway"@,
            "holiness"@,
            "hurricane"@,
            "hydraulic"@,
            "impartial"@,
            "impetus"@,
            "inception"@,
            "indigo"@,
            "inertia"@,
            "infancy"@,
            "inferno"@,
            "informant"@,
            "insincere"@,
            "insurgent"@,
            "integrate"@,
        ]
    } else if part == 8 {
        seq![
            "intention"@,
            "inventive"@,
            "istanbul"@,
            "jamaica"@,
            "jupiter"@,
            "leprosy"@,
            "letterhead"@,
            "liberty"@,
            "maritime"@,
            "matchmaker"@,
            "maverick"@,
            "medusa"@,
            "megaton"@,
            "microscope"@,
            "microwave"@,
            "midsummer"@,
        ]
    } else if part == 9 {
        seq![
            "millionaire"@,
            "miracle"@,
            "misnomer"@,
            "molasses"@,
            "molecule"@,
            "montana"@,
            "monument"@,
            "mosquito"@,
            "narrative"@,
            "nebula"@,
            "newsletter"@,
            "norwegian"@,
            "october"@,
            "ohio"@,
            "onlooker"@,
            "opulent"@,
        ]
    } else if part == 10 {
        seq![
            "orlando"@,
            "outfielder"@,
            "pacific"@,
            "pandemic"@,
            "pandora"@,
            "paperweight"@,
            "paragon"@,
            "paragraph"@,
            "paramount"@,
            "passenger"@,
            "pedigree"@,
            "pegasus"@,
            "penetrate"@,
            "perceptive"@,
            "performance"@,
            "pharmacy"@,
        ]
    } else if part == 11 {
        seq![
            "phonetic"@,
            "photograph"@,
            "pioneer"@,
            "pocketful"@,
            "politeness"@,
            "positive"@,
            "potato"@,
            "processor"@,
            "provincial"@,
            "proximate"@,
            "puberty"@,
            "publisher"@,
            "pyramid"@,
            "quantity"@,
            "racketeer"@,
            "rebellion"@,
        ]
    } else if part == 12 {
        seq![
            "recipe"@,
            "recover"@,
            "repellent"@,
            "replica"@,
            "reproduce"@,
            "resistor"@,
            "responsive"@,
            "retraction"@,
            "retrieval"@,
            "retrospect"@,
            "revenue"@,
            "revival"@,
            "revolver"@,
            "sandalwood"@,
            "sardonic"@,
            "saturday"@,
        ]
    } else if part == 13 {
        seq![
            "savagery"@,
            "scavenger"@,
            "sensation"@,
            "sociable"@,
            "souvenir"@,
            "specialist"@,
            "speculate"@,
            "stethoscope"@,
            "stupendous"@,
            "supportive"@,
            "surrender"@,
            "suspicious"@,
            "sympathy"@,
            "tambourine"@,
            "telephone"@,
            "therapist"@,
        ]
    } else if part == 14 {
        seq![
            "tobacco"@,
            "tolerance"@,
            "tomorrow"@,
            "torpedo"@,
            "tradition"@,
            "travesty"@,
            "trombonist"@,
            "truncated"@,
            "typewriter"@,
            "ultimate"@,
            "undaunted"@,
            "underfoot"@,
            "unicorn"@,
            "unify"@,
            "universe"@,
            "unravel"@,
        ]
    } else if part == 15 {
        seq![
            "upcoming"@,
            "vacancy"@,
            "vagabond"@,
            "vertigo"@,
            "virginia"@,
            "visitor"@,
            "vocalist"@,
            "voyager"@,
            "warranty"@,
            "waterloo"@,
            "whimsical"@,
            "wichita"@,
            "wilmington"@,
            "wyoming"@,
            "yesterday"@,
            "yucatan"@,
        ]
    } else {
        Seq::empty()
    }
}

/// The three-syllable words that stand before a part of their list.
pub open spec fn odd_words_before(part: nat) -> Seq<Seq<char>>
    decreases part,
{
    if part == 0 {
        Seq::empty()
    } else {
        odd_words_before((part - 1) as nat) + odd_part((part - 1) as nat)
    }
}

/// The three-syllable words of the PGP word list: the words for the first,
/// third, fifth place of a code and so on.
pub open spec fn odd_word_texts() -> Seq<Seq<char>> {
    odd_words_before(16)
}

/// The two-syllable words of the PGP word list, in lower case and in
/// alphabetical order, in sixteen parts of sixteen words.
pub open spec fn even_part(part: nat) -> Seq<Seq<char>> {
    if part == 0 {
        seq![
            "aardvark"@,
            "absurd"@,
            "accrue"@,
            "acme"@,
            "adrift"@,
            "adult"@,
            "afflict"@,
            "ahead"@,
            "aimless"@,
            "algol"@,
            "allow"@,
            "alone"@,
            "ammo"@,
            "ancient"@,
            "apple"@,
            "artist"@,
        ]
    } else if part == 1 {
        seq![
            "assume"@,
            "athens"@,
            "atlas"@,
            "aztec"@,
            "baboon"@,
            "backfield"@,
            "backward"@,
            "banjo"@,
            "beaming"@,
            "bedlamp"@,
            "beehive"@,
            "beeswax"@,
            "befriend"@,
            "belfast"@,
            "berserk"@,
            "billiard"@,
        ]
    } else if part == 2 {
        seq![
            "bison"@,
            "blackjack"@,
            "blockade"@,
            "blowtorch"@,
            "bluebird"@,
            "bombast"@,
            "bookshelf"@,
            "brackish"@,
            "breadline"@,
            "breakup"@,
            "brickyard"@,
            "briefcase"@,
            "burbank"@,
            "button"@,
            "buzzard"@,
            "cement"@,
        ]
    } else if part == 3 {
        seq![
            "chairlift"@,
            "chatter"@,
            "checkup"@,
            "chisel"@,
            "choking"@,
            "chopper"@,
            "christmas"@,
            "clamshell"@,
            "classic"@,
            "classroom"@,
            "cleanup"@,
            "clockwork"@,
            "cobra"@,
            "commence"@,
            "concert"@,
            "cowbell"@,
        ]
    } else if part == 4 {
        seq![
            "crackdown"@,
            "cranky"@,
            "crowfoot"@,
            "crucial"@,
            "crumpled"@,
            "crusade"@,
            "cubic"@,
            "dashboard"@,
            "deadbolt"@,
            "deckhand"@,
            "dogsled"@,
            "dragnet"@,
            "drainage"@,
            "dreadful"@,
            "drifter"@,
            "dropper"@,
        ]
    } else if part == 5 {
        seq![
            "drumbeat"@,
            "drunken"@,
            "dupont"@,
            "dwelling"@,
            "eating"@,
            "edict"@,
            "egghead"@,
            "eightball"@,
            "endorse"@,
            "endow"@,
            "enlist"@,
            "erase"@,
            "escape"@,
            "exceed"@,
            "eyeglass"@,
            "eyetooth"@,
        ]
    } else if part == 6 {
        seq![
            "facial"@,
            "fallout"@,
            "flagpole"@,
            "flatfoot"@,
            "flytrap"@,
            "fracture"@,
            "framework"@,
            "freedom"@,
            "frighten"@,
            "gazelle"@,
            "geiger"@,
            "glitter"@,
            "glucose"@,
            "goggles"@,
            "goldfish"@,
            "gremlin"@,
        ]
    } else if part == 7 {
        seq![
            "guidance"@,
            "hamlet"@,
            "highchair"@,
            "hockey"@,
            "indoors"@,
            "indulge"@,
            "inverse"@,
            "involve"@,
            "island"@,
            "jawbone"@,
            "keyboard"@,
            "kickoff"@,
            "kiwi"@,
            "klaxon"@,
            "locale"@,
            "lockup"@,
        ]
    } else if part == 8 {
        seq![
            "merit"@,
            "minnow"@,
            "miser"@,
            "mohawk"@,
            "mural"@,
            "music"@,
            "necklace"@,
            "neptune"@,
            "newborn"@,
            "nightbird"@,
            "oakland"@,
            "obtuse"@,
            "offload"@,
            "optic"@,
            "orca"@,
            "payday"@,
        ]
    } else if part == 9 {
        seq![
            "peachy"@,
            "pheasant"@,
            "physique"@,
            "playhouse"@,
            "pluto"@,
            "preclude"@,
            "prefer"@,
            "preshrunk"@,
            "printer"@,
            "prowler"@,
            "pupil"@,
            "puppy"@,
            "python"@,
            "quadrant"@,
            "quiver"@,
            "quota"@,
        ]
    } else if part == 10 {
        seq![
            "ragtime"@,
            "ratchet"@,
            "rebirth"@,
            "reform"@,
            "regain"@,
            "reindeer"@,
            "rematch"@,
            "repay"@,
            "retouch"@,
            "revenge"@,
            "reward"@,
            "rhythm"@,
            "ribcage"@,
            "ringbolt"@,
            "robust"@,
            "rocker"@,
        ]
    } else if part == 11 {
        seq![
            "ruffled"@,
            "sailboat"@,
            "sawdust"@,
            "scallion"@,
            "scenic"@,
            "scorecard"@,
            "scotland"@,
            "seabird"@,
            "select"@,
            "sentence"@,
            "shadow"@,
            "shamrock"@,
            "showgirl"@,
            "skullcap"@,
            "skydive"@,
            "slingshot"@,
        ]
    } else if part == 12 {
        seq![
            "slowdown"@,
            "snapline"@,
            "snapshot"@,
            "snowcap"@,
            "snowslide"@,
            "solo"@,
            "southward"@,
            "soybean"@,
            "spaniel"@,
            "spearhead"@,
            "spellbind"@,
            "spheroid"@,
            "spigot"@,
            "spindle"@,
            "spyglass"@,
            "stagehand"@,
        ]
    } else if part == 13 {
        seq![
            "stagnate"@,
            "stairway"@,
            "standard"@,
            "stapler"@,
            "steamship"@,
            "sterling"@,
            "stockman"@,
            "stopwatch"@,
            "stormy"@,
            "sugar"@,
            "surmount"@,
            "suspense"@,
            "sweatband"@,
            "swelter"@,
            "tactics"@,
            "talon"@,
        ]
    } else if part == 14 {
        seq![
            "tapeworm"@,
            "tempest"@,
            "tiger"@,
            "tissue"@,
            "tonic"@,
            "topmost"@,
            "tracker"@,
            "transit"@,
            "trauma"@,
            "treadmill"@,
            "trojan"@,
            "trouble"@,
            "tumor"@,
            "tunnel"@,
            "tycoon"@,
            "uncut"@,
        ]
    } else if part == 15 {
        seq![
            "unearth"@,
            "unwind"@,
            "uproot"@,
            "upset"@,
            "upshot"@,
            "vapor"@,
            "village"@,
            "virus"@,
            "vulcan"@,
            "waffle"@,
            "wallet"@,
            "watchword"@,
            "wayside"@,
            "willow"@,
            "woodlark"@,
            "zulu"@,
        ]
    } else {
        Seq::empty()
    }
}

/// The two-syllable words that stand before a part of their list.
pub open spec fn even_words_before(part: nat) -> Seq<Seq<char>>
    decreases part,
{
    if part == 0 {
        Seq::empty()
    } else {
        even_words_before((part - 1) as nat) + even_part((part - 1) as nat)
    }
}

/// The two-syllable words of the PGP word list: the words for the second,
/// fourth, sixth place of a code and so on.
pub open spec fn even_word_texts() -> Seq<Seq<char>> {
    even_words_before(16)
}

/// The texts of a list of strings.
pub open spec fn texts_of(strings: Seq<String>) -> Seq<Seq<char>> {
    Seq::new(strings.len(), |i: int| strings[i]@)
}

/// Appends a word to a list.
fn push_word(words: &mut Vec<String>, word: &str)
    ensures
        texts_of(final(words)@) == texts_of(old(words)@).push(word@),
{
    words.push(word.to_owned());
    assert(texts_of(words@) =~= texts_of(old(words)@).push(word@));
}

/// Appends a part of sixteen words to a list, in order.
fn push_words(
    words: &mut Vec<String>,
    w0: &str,
    w1: &str,
    w2: &str,
    w3: &str,
    w4: &str,
    w5: &str,
    w6: &str,
    w7: &str,
    w8: &str,
    w9: &str,
    w10: &str,
    w11: &str,
    w12: &str,
    w13: &str,
    w14: &str,
    w15: &str,
)
    ensures
        final(words)@.len() == old(words)@.len() + 16,
        texts_of(final(words)@) == texts_of(old(words)@) + seq![
            w0@,
            w1@,
            w2@,
            w3@,
            w4@,
            w5@,
            w6@,
            w7@,
            w8@,
            w9@,
            w10@,
            w11@,
            w12@,
            w13@,
            w14@,
            w15@,
        ],
{
    push_word(words, w0);
    push_word(words, w1);
    push_word(words, w2);
    push_word(words, w3);
    push_word(words, w4);
    push_word(words, w5);
    push_word(words, w6);
    push_word(words, w7);
    push_word(words, w8);
    push_word(words, w9);
    push_word(words, w10);
    push_word(words, w11);
    push_word(words, w12);
    push_word(words, w13);
    push_word(words, w14);
    push_word(words, w15);
    assert(texts_of(words@) =~= texts_of(old(words)@) + seq![
        w0@,
        w1@,
        w2@,
        w3@,
        w4@,
        w5@,
        w6@,
        w7@,
        w8@,
        w9@,
        w10@,
        w11@,
        w12@,
        w13@,
        w14@,
        w15@,
    ]);
}

/// The three-syllable words of the PGP word list as strings.
pub fn odd_words() -> (words: Vec<String>)
    ensures
        words@.len() == LIST_WORDS,
        texts_of(words@) == odd_word_texts(),
{
    let mut words: Vec<String> = Vec::new();
    assert(texts_of(words@) =~= odd_words_before(0));
    push_words(
        &mut words,
        "adroitness",
        "adviser",
        "aftermath",
        "aggregate",
        "alkali",
        "almighty",
        "amulet",
        "amusement",
        "antenna",
        "apollo",
        "applicant",
        "armistice",
        "article",
        "asteroid",
        "atlantic",
        "atmosphere",
    );
    assert(texts_of(words@) == odd_words_before(1));
    push_words(
        &mut words,
        "autopsy",
        "babylon",
        "backwater",
        "barbecue",
        "belowground",
        "bifocals",
        "bodyguard",
        "bookseller",
        "borderline",
        "bottomless",
        "bradbury",
        "bravado",
        "brazilian",
        "breakaway",
        "burlington",
        "businessman",
    );
    assert(texts_of(words@) == odd_words_before(2));
    push_words(
        &mut words,
        "butterfat",
        "camelot",
        "candidate",
        "cannonball",
        "capricorn",
        "caravan",
        "caretaker",
        "celebrate",
        "cellulose",
        "certify",
        "chambermaid",
        "cherokee",
        "chicago",
        "clergyman",
        "coherence",
        "combustion",
    );
    assert(texts_of(words@) == odd_words_before(3));
    push_words(
        &mut words,
        "commando",
        "company",
        "component",
        "concurrent",
        "confidence",
        "conformist",
        "congregate",
        "consensus",
        "consulting",
        "corporate",
        "corrosion",
        "councilman",
        "crossover",
        "crucifix",
        "cumbersome",
        "customer",
    );
    assert(texts_of(words@) == odd_words_before(4));
    push_words(
        &mut words,
        "dakota",
        "decadence",
        "december",
        "decimal",
        "designing",
        "detector",
        "detergent",
        "determine",
        "dictator",
        "dinosaur",
        "direction",
        "disable",
        "disbelief",
        "disruptive",
        "distortion",
        "document",
    );
    assert(texts_of(words@) == odd_words_before(5));
    push_words(
        &mut words,
        "embezzle",
        "enchanting",
        "enrollment",
        "enterprise",
        "equation",
        "equipment",
        "escapade",
        "eskimo",
        "everyday",
        "examine",
        "existence",
        "exodus",
        "fascinate",
        "filament",
        "finicky",
        "forever",
    );
    assert(texts_of(words@) == odd_words_before(6));
    push_words(
        &mut words,
        "fortitude",
        "frequency",
        "gadgetry",
        "galveston",
        "getaway",
        "glossary",
        "gossamer",
        "graduate",
        "gravity",
        "guitarist",
        "hamburger",
        "hamilton",
        "handiwork",
        "hazardous",
        "headwaters",
        "hemisphere",
    );
    assert(texts_of(words@) == odd_words_before(7));
    push_words(
        &mut words,
        "hesitate",
        "hideaway",
        "holiness",
        "hurricane",
        "hydraulic",
        "impartial",
        "impetus",
        "inception",
        "indigo",
        "inertia",
        "infancy",
        "inferno",
        "informant",
        "insincere",
        "insurgent",
        "integrate",
    );
    assert(texts_of(words@) == odd_words_before(8));
    push_words(
        &mut words,
        "intention",
        "inventive",
        "istanbul",
        "jamaica",
        "jupiter",
        "leprosy",
        "letterhead",
        "liberty",
        "maritime",
        "matchmaker",
        "maverick",
        "medusa",
        "megaton",
        "microscope",
        "microwave",
        "midsummer",
    );
    assert(texts_of(words@) == odd_words_before(9));
    push_words(
        &mut words,
        "millionaire",
        "miracle",
        "misnomer",
        "molasses",
        "molecule",
        "montana",
        "monument",
        "mosquito",
        "narrative",
        "nebula",
        "newsletter",
        "norwegian",
        "october",
        "ohio",
        "onlooker",
        "opulent",
    );
    assert(texts_of(words@) == odd_words_before(10));
    push_words(
        &mut words,
        "orlando",
        "outfielder",
        "pacific",
        "pandemic",
        "pandora",
        "paperweight",
        "paragon",
        "paragraph",
        "paramount",
        "passenger",
        "pedigree",
        "pegasus",
        "penetrate",
        "perceptive",
        "performance",
        "pharmacy",
    );
    assert(texts_of(words@) == odd_words_before(11));
    push_words(
        &mut words,
        "phonetic",
        "photograph",
        "pioneer",
        "pocketful",
        "politeness",
        "positive",
        "potato",
        "processor",
        "provincial",
        "proximate",
        "puberty",
        "publisher",
        "pyramid",
        "quantity",
        "racketeer",
        "rebellion",
    );
    assert(texts_of(words@) == odd_words_before(12));
    push_words(
        &mut words,
        "recipe",
        "recover",
        "repellent",
        "replica",
        "reproduce",
        "resistor",
        "responsive",
        "retraction",
        "retrieval",
        "retrospect",
        "revenue",
        "revival",
        "revolver",
        "sandalwood",
        "sardonic",
        "saturday",
    );
    assert(texts_of(words@) == odd_words_before(13));
    push_words(
        &mut words,
        "savagery",
        "scavenger",
        "sensation",
        "sociable",
        "souvenir",
        "specialist",
        "speculate",
        "stethoscope",
        "stupendous",
        "supportive",
        "surrender",
        "suspicious",
        "sympathy",
        "tambourine",
        "telephone",
        "therapist",
    );
    assert(texts_of(words@) == odd_words_before(14));
    push_words(
        &mut words,
        "tobacco",
        "tolerance",
        "tomorrow",
        "torpedo",
        "tradition",
        "travesty",
        "trombonist",
        "truncated",
        "typewriter",
        "ultimate",
        "undaunted",
        "underfoot",
        "unicorn",
        "unify",
        "universe",
        "unravel",
    );
    assert(texts_of(words@) == odd_words_before(15));
    push_words(
        &mut words,
        "upcoming",
        "vacancy",
        "vagabond",
        "vertigo",
        "virginia",
        "visitor",
        "vocalist",
        "voyager",
        "warranty",
        "waterloo",
        "whimsical",
        "wichita",
        "wilmington",
        "wyoming",
        "yesterday",
        "yucatan",
    );
    assert(texts_of(words@) == odd_words_before(16));
    words
}

/// The two-syllable words of the PGP word list as strings.
pub fn even_words() -> (words: Vec<String>)
    ensures
        words@.len() == LIST_WORDS,
        texts_of(words@) == even_word_texts(),
{
    let mut words: Vec<String> = Vec::new();
    assert(texts_of(words@) =~= even_words_before(0));
    push_words(
        &mut words,
        "aardvark",
        "absurd",
        "accrue",
        "acme",
        "adrift",
        "adult",
        "afflict",
        "ahead",
        "aimless",
        "algol",
        "allow",
        "alone",
        "ammo",
        "ancient",
        "apple",
        "artist",
    );
    assert(texts_of(words@) == even_words_before(1));
    push_words(
        &mut words,
        "assume",
        "athens",
        "atlas",
        "aztec",
        "baboon",
        "backfield",
        "backward",
        "banjo",
        "beaming",
        "bedlamp",
        "beehive",
        "beeswax",
        "befriend",
        "belfast",
        "berserk",
        "billiard",
    );
    assert(texts_of(words@) == even_words_before(2));
    push_words(
        &mut words,
        "bison",
        "blackjack",
        "blockade",
        "blowtorch",
        "bluebird",
        "bombast",
        "bookshelf",
        "brackish",
        "breadline",
        "breakup",
        "brickyard",
        "briefcase",
        "burbank",
        "button",
        "buzzard",
        "cement",
    );
    assert(texts_of(words@) == even_words_before(3));
    push_words(
        &mut words,
        "chairlift",
        "chatter",
        "checkup",
        "chisel",
        "choking",
        "chopper",
        "christmas",
        "clamshell",
        "classic",
        "classroom",
        "cleanup",
        "clockwork",
        "cobra",
        "commence",
        "concert",
        "cowbell",
    );
    assert(texts_of(words@) == even_words_before(4));
    push_words(
        &mut words,
        "crackdown",
        "cranky",
        "crowfoot",
        "crucial",
        "crumpled",
        "crusade",
        "cubic",
        "dashboard",
        "deadbolt",
        "deckhand",
        "dogsled",
        "dragnet",
        "drainage",
        "dreadful",
        "drifter",
        "dropper",
    );
    assert(texts_of(words@) == even_words_before(5));
    push_words(
        &mut words,
        "drumbeat",
        "drunken",
        "dupont",
        "dwelling",
        "eating",
        "edict",
        "egghead",
        "eightball",
        "endorse",
        "endow",
        "enlist",
        "erase",
        "escape",
        "exceed",
        "eyeglass",
        "eyetooth",
    );
    assert(texts_of(words@) == even_words_before(6));
    push_words(
        &mut words,
        "facial",
        "fallout",
        "flagpole",
        "flatfoot",
        "flytrap",
        "fracture",
        "framework",
        "freedom",
        "frighten",
        "gazelle",
        "geiger",
        "glitter",
        "glucose",
        "goggles",
        "goldfish",
        "gremlin",
    );
    assert(texts_of(words@) == even_words_before(7));
    push_words(
        &mut words,
        "guidance",
        "hamlet",
        "highchair",
        "hockey",
        "indoors",
        "indulge",
        "inverse",
        "involve",
        "island",
        "jawbone",
        "keyboard",
        "kickoff",
        "kiwi",
        "klaxon",
        "locale",
        "lockup",
    );
    assert(texts_of(words@) == even_words_before(8));
    push_words(
        &mut words,
        "merit",
        "minnow",
        "miser",
        "mohawk",
        "mural",
        "music",
        "necklace",
        "neptune",
        "newborn",
        "nightbird",
        "oakland",
        "obtuse",
        "offload",
        "optic",
        "orca",
        "payday",
    );
    assert(texts_of(words@) == even_words_before(9));
    push_words(
        &mut words,
        "peachy",
        "pheasant",
        "physique",
        "playhouse",
        "pluto",
        "preclude",
        "prefer",
        "preshrunk",
        "printer",
        "prowler",
        "pupil",
        "puppy",
        "python",
        "quadrant",
        "quiver",
        "quota",
    );
    assert(texts_of(words@) == even_words_before(10));
    push_words(
        &mut words,
        "ragtime",
        "ratchet",
        "rebirth",
        "reform",
        "regain",
        "reindeer",
        "rematch",
        "repay",
        "retouch",
        "revenge",
        "reward",
        "rhythm",
        "ribcage",
        "ringbolt",
        "robust",
        "rocker",
    );
    assert(texts_of(words@) == even_words_before(11));
    push_words(
        &mut words,
        "ruffled",
        "sailboat",
        "sawdust",
        "scallion",
        "scenic",
        "scorecard",
        "scotland",
        "seabird",
        "select",
        "sentence",
        "shadow",
        "shamrock",
        "showgirl",
        "skullcap",
        "skydive",
        "slingshot",
    );
    assert(texts_of(words@) == even_words_before(12));
    push_words(
        &mut words,
        "slowdown",
        "snapline",
        "snapshot",
        "snowcap",
        "snowslide",
        "solo",
        "southward",
        "soybean",
        "spaniel",
        "spearhead",
        "spellbind",
        "spheroid",
        "spigot",
        "spindle",
        "spyglass",
        "stagehand",
    );
    assert(texts_of(words@) == even_words_before(13));
    push_words(
        &mut words,
        "stagnate",
        "stairway",
        "standard",
        "stapler",
        "steamship",
        "sterling",
        "stockman",
        "stopwatch",
        "stormy",
        "sugar",
        "surmount",
        "suspense",
        "sweatband",
        "swelter",
        "tactics",
        "talon",
    );
    assert(texts_of(words@) == even_words_before(14));
    push_words(
        &mut words,
        "tapeworm",
        "tempest",
        "tiger",
        "tissue",
        "tonic",
        "topmost",
        "tracker",
        "transit",
        "trauma",
        "treadmill",
        "trojan",
        "trouble",
        "tumor",
        "tunnel",
        "tycoon",
        "uncut",
    );
    assert(texts_of(words@) == even_words_before(15));
    push_words(
        &mut words,
        "unearth",
        "unwind",
        "uproot",
        "upset",
        "upshot",
        "vapor",
        "village",
        "virus",
        "vulcan",
        "waffle",
        "wallet",
        "watchword",
        "wayside",
        "willow",
        "woodlark",
        "zulu",
    );
    assert(texts_of(words@) == even_words_before(16));
    words
}

/// The words of a code: the lists from which they are taken, by turns, and
/// how many there are.
pub struct Wordlist {
    pub num_words: usize,
    /// The words for the first, third, fifth place and so on.
    pub odd: Vec<String>,
    /// The words for the second, fourth, sixth place and so on.
    pub even: Vec<String>,
}

/// The words of the PGP word list from which the word at a place of a
/// code is taken; places count from zero.
pub open spec fn default_words_at(place: nat) -> Seq<Seq<char>> {
    if place % 2 == 0 {
        odd_word_texts()
    } else {
        even_word_texts()
    }
}

/// Whether `words` are words for a code of `count` words, each of them a
/// word that the PGP word list has for its place.
pub open spec fn default_draw(count: nat, words: Seq<Seq<char>>) -> bool {
    &&& words.len() == count
    &&& forall|i: int|
        0 <= i < words.len() ==> default_words_at(i as nat).contains(#[trigger] words[i])
}

/// The PGP word list for codes of `num_words` words.
pub fn default_wordlist(num_words: usize) -> (wordlist: Wordlist)
    ensures
        wordlist.num_words == num_words,
        wordlist.is_default(),
        wordlist.odd@.len() == LIST_WORDS,
        wordlist.even@.len() == LIST_WORDS,
{
    Wordlist { num_words, odd: odd_words(), even: even_words() }
}

/// The number of dashes in a text.
pub open spec fn count_dashes(text: Seq<char>) -> nat
    decreases text.len(),
{
    if text.len() == 0 {
        0
    } else {
        count_dashes(text.drop_last()) + if text.last() == '-' {
            1nat
        } else {
            0nat
        }
    }
}

/// The length of the part of a text up to and with its last dash; zero
/// where it has none.
pub open spec fn stem_length(text: Seq<char>) -> nat
    decreases text.len(),
{
    if text.len() == 0 {
        0
    } else if text.last() == '-' {
        text.len()
    } else {
        stem_length(text.drop_last())
    }
}

/// The completion of a prefix by a word: the prefix up to its last dash,
/// the word, and a dash where more words are to follow.
pub open spec fn completion(prefix: Seq<char>, word: Seq<char>, more: bool) -> Seq<char> {
    prefix.subrange(0, stem_length(prefix) as int) + word + if more {
        seq!['-']
    } else {
        Seq::empty()
    }
}

/// The part of a prefix after its last dash: the beginning of the word
/// that is being typed.
pub open spec fn partial_word(prefix: Seq<char>) -> Seq<char> {
    prefix.subrange(stem_length(prefix) as int, prefix.len() as int)
}

/// The completions of a prefix by the words of `list` from index `from`
/// on that begin with the partial word, in the order of the list.
pub open spec fn completions_from(list: Seq<String>, prefix: Seq<char>, more: bool, from: int)
    -> Seq<Seq<char>>
    decreases list.len() - from,
{
    if from < 0 || from >= list.len() {
        Seq::empty()
    } else if partial_word(prefix).is_prefix_of(list[from]@) {
        seq![completion(prefix, list[from]@, more)] + completions_from(list, prefix, more, from + 1)
    } else {
        completions_from(list, prefix, more, from + 1)
    }
}

/// The stem of a text ends where its last dash ends, and lies within it.
pub proof fn lemma_stem_within(text: Seq<char>)
    ensures
        stem_length(text) <= text.len(),
    decreases text.len(),
{
    if text.len() > 0 && text.last() != '-' {
        lemma_stem_within(text.drop_last());
    }
}

/// A completion begins with the prefix that it completes.
pub proof fn lemma_completion_starts_with_prefix(prefix: Seq<char>, word: Seq<char>, more: bool)
    requires
        partial_word(prefix).is_prefix_of(word),
    ensures
        prefix.is_prefix_of(completion(prefix, word, more)),
{
    lemma_stem_within(prefix);
    let stem = prefix.subrange(0, stem_length(prefix) as int);
    let partial = partial_word(prefix);
    let whole = completion(prefix, word, more);
    assert(stem + partial =~= prefix);
    assert(word.subrange(0, partial.len() as int) == partial);
    assert forall|i: int| 0 <= i < prefix.len() implies whole[i] == prefix[i] by {
        if i >= stem.len() {
            assert(word.subrange(0, partial.len() as int)[i - stem.len()] == partial[i
                - stem.len()]);
        }
    }
    assert(whole.subrange(0, prefix.len() as int) =~= prefix);
}

impl Wordlist {
    /// The list from which the word at a place is taken; places count from
    /// zero.
    pub open spec fn list_at(self, place: nat) -> Seq<String> {
        if place % 2 == 0 {
            self.odd@
        } else {
            self.even@
        }
    }

    /// Whether the lists are those of the PGP word list.
    pub open spec fn is_default(self) -> bool {
        &&& texts_of(self.odd@) == odd_word_texts()
        &&& texts_of(self.even@) == even_word_texts()
    }

    /// Whether `words` are words for a code, as many as a code has and
    /// each of them a word of the list of its place.
    pub open spec fn drawn(self, words: Seq<Seq<char>>) -> bool {
        &&& words.len() == self.num_words
        &&& forall|i: int|
            0 <= i < words.len() ==> texts_of(self.list_at(i as nat)).contains(
                #[trigger] words[i],
            )
    }

    /// What completes a prefix of the words of a code: for each word of
    /// the list in turn that begins with what has been typed of the
    /// current word, the prefix with that word in full, and a dash where
    /// the code has more words.
    pub open spec fn completions(self, prefix: Seq<char>) -> Seq<Seq<char>> {
        completions_from(
            self.list_at(count_dashes(prefix)),
            prefix,
            count_dashes(prefix) + 1 < self.num_words,
            0,
        )
    }

    /// The completions of a prefix of the words of a code.
    ///
    /// Every completion begins with the prefix.
    pub fn get_completions(&self, prefix: &str) -> (found: Vec<String>)
        ensures
            texts_of(found@) == self.completions(prefix@),
            forall|i: int| 0 <= i < found@.len() ==> prefix@.is_prefix_of(#[trigger] found@[i]@),
    {
        let chars = chars_of(prefix);
        let mut dashes: usize = 0;
        let mut stem: usize = 0;
        let mut i: usize = 0;
        while i < chars.len()
            invariant
                i <= chars.len(),
                dashes <= i,
                stem <= i,
                dashes == count_dashes(chars@.subrange(0, i as int)),
                stem == stem_length(chars@.subrange(0, i as int)),
            decreases chars.len() - i,
        {
            proof {
                assert(chars@.subrange(0, i + 1).drop_last() =~= chars@.subrange(0, i as int));
            }
            if chars[i] == '-' {
                dashes += 1;
                stem = i + 1;
            }
            i += 1;
        }
        proof {
            assert(chars@.subrange(0, chars@.len() as int) =~= chars@);
        }
        let list = if dashes % 2 == 0 {
            &self.odd
        } else {
            &self.even
        };
        let more = self.num_words > 0 && dashes < self.num_words - 1;
        let partial = slice_chars(chars.as_slice(), stem, chars.len());
        let mut found: Vec<String> = Vec::new();
        let mut k: usize = 0;
        proof {
            assert(Seq::<Seq<char>>::empty() + completions_from(list@, prefix@, more, 0)
                =~= self.completions(prefix@));
        }
        while k < list.len()
            invariant
                k <= list.len(),
                chars@ == prefix@,
                stem == stem_length(prefix@),
                stem <= chars.len(),
                partial@ == partial_word(prefix@),
                texts_of(found@) + completions_from(list@, prefix@, more, k as int)
                    == self.completions(prefix@),
                forall|i: int|
                    0 <= i < found@.len() ==> prefix@.is_prefix_of(#[trigger] found@[i]@),
            decreases list.len() - k,
        {
            let word = chars_of(list[k].as_str());
            if starts_with(word.as_slice(), partial.as_slice()) {
                let mut whole = slice_chars(chars.as_slice(), 0, stem);
                push_chars(&mut whole, word.as_slice());
                if more {
                    whole.push('-');
                }
                let text = text_of(whole.as_slice());
                proof {
                    assert(text@ =~= completion(prefix@, list@[k as int]@, more));
                    lemma_completion_starts_with_prefix(prefix@, list@[k as int]@, more);
                    assert(texts_of(found@.push(text)) =~= texts_of(found@) + seq![text@]);
                    assert((texts_of(found@) + seq![text@]) + completions_from(
                        list@,
                        prefix@,
                        more,
                        k + 1,
                    ) =~= texts_of(found@) + completions_from(list@, prefix@, more, k as int));
                }
                found.push(text);
            }
            k += 1;
        }
        proof {
            assert(texts_of(found@) + Seq::<Seq<char>>::empty() =~= texts_of(found@));
        }
        found
    }

    /// Draws the words of a code at random, each from the list of its
    /// place. A place whose list is empty gets no word.
    pub fn choose_words(&self) -> (words: Vec<String>)
        ensures
            words@.len() <= self.num_words,
            self.odd@.len() > 0 && self.even@.len() > 0 ==> self.drawn(texts_of(words@)),
    {
        let mut words: Vec<String> = Vec::new();
        let mut place: usize = 0;
        while place < self.num_words
            invariant
                place <= self.num_words,
                words@.len() <= place,
                self.odd@.len() > 0 && self.even@.len() > 0 ==> words@.len() == place
                    && forall|i: int|
                    0 <= i < words@.len() ==> texts_of(self.list_at(i as nat)).contains(
                        #[trigger] texts_of(words@)[i],
                    ),
            decreases self.num_words - place,
        {
            let list = if place % 2 == 0 {
                &self.odd
            } else {
                &self.even
            };
            if list.len() > 0 {
                let k = random_below(list.len());
                let word = list[k].clone();
                let ghost before = words@;
                words.push(word);
                proof {
                    if self.odd@.len() > 0 && self.even@.len() > 0 {
                        assert(list@ == self.list_at(place as nat));
                        assert forall|i: int| 0 <= i < words@.len() implies texts_of(
                            self.list_at(i as nat),
                        ).contains(#[trigger] texts_of(words@)[i]) by {
                            if i < before.len() {
                                assert(texts_of(words@)[i] == texts_of(before)[i]);
                            } else {
                                assert(texts_of(self.list_at(i as nat))[k as int] == texts_of(
                                    words@,
                                )[i]);
                            }
                        }
                    }
                }
            }
            place += 1;
        }
        words
    }
}

} // verus!
