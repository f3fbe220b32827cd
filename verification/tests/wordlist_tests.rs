use magic_wormhole::engine::code::{make_code, nameplate_of};
use magic_wormhole::engine::events::{Code, Nameplate};
use magic_wormhole::wordlist::{default_wordlist, even_words, odd_words, Wordlist};

fn strings(words: &[&str]) -> Vec<String> {
    words.iter().map(|w| w.to_string()).collect()
}

#[test]
fn the_word_lists_have_256_words_each() {
    let odd = odd_words();
    let even = even_words();
    assert_eq!(odd.len(), 256);
    assert_eq!(even.len(), 256);
    assert_eq!(odd[0], "adroitness");
    assert_eq!(odd[255], "yucatan");
    assert_eq!(even[0], "aardvark");
    assert_eq!(even[255], "zulu");
    let mut sorted = odd.clone();
    sorted.sort();
    sorted.dedup();
    assert_eq!(sorted, odd);
    let mut sorted = even.clone();
    sorted.sort();
    sorted.dedup();
    assert_eq!(sorted, even);
    for word in odd.iter().chain(even.iter()) {
        assert!(!word.is_empty());
        assert!(word.chars().all(|c| c.is_ascii_lowercase()), "{}", word);
    }
    assert!(odd.iter().all(|w| !even.contains(w)));
}

#[test]
fn completions_of_the_first_word_come_from_the_odd_list() {
    let wordlist = default_wordlist(2);
    assert_eq!(wordlist.get_completions("").len(), 256);
    assert_eq!(wordlist.get_completions("cro"), strings(&["crossover-"]));
    assert_eq!(
        wordlist.get_completions("ap"),
        strings(&["apollo-", "applicant-"])
    );
    assert_eq!(wordlist.get_completions("crossover"), strings(&["crossover-"]));
    assert_eq!(wordlist.get_completions("zzz"), Vec::<String>::new());
    assert_eq!(wordlist.get_completions("aardvark"), Vec::<String>::new());
}

#[test]
fn completions_of_the_second_word_come_from_the_even_list() {
    let wordlist = default_wordlist(2);
    assert_eq!(wordlist.get_completions("crossover-").len(), 256);
    assert_eq!(
        wordlist.get_completions("crossover-cl"),
        strings(&[
            "crossover-clamshell",
            "crossover-classic",
            "crossover-classroom",
            "crossover-cleanup",
            "crossover-clockwork",
        ])
    );
    assert_eq!(wordlist.get_completions("crossover-crossover"), Vec::<String>::new());
}

#[test]
fn completions_end_in_a_dash_while_words_are_to_follow() {
    let three = default_wordlist(3);
    assert_eq!(three.get_completions("crossover-clockw"), strings(&["crossover-clockwork-"]));
    assert_eq!(
        three.get_completions("crossover-clockwork-yuc"),
        strings(&["crossover-clockwork-yucatan"])
    );
    let none = default_wordlist(0);
    assert_eq!(none.get_completions("yuc"), strings(&["yucatan"]));
    let one = default_wordlist(1);
    assert_eq!(one.get_completions("yuc"), strings(&["yucatan"]));
}

#[test]
fn every_completion_starts_with_its_prefix() {
    let wordlist = default_wordlist(2);
    for prefix in ["", "a", "b", "cr", "exodus-", "exodus-z", "x-y-", "no-such-word-he"] {
        for completion in wordlist.get_completions(prefix) {
            assert!(completion.starts_with(prefix), "{} {}", prefix, completion);
        }
    }
}

#[test]
fn completions_follow_the_order_of_the_list() {
    let wordlist = Wordlist {
        num_words: 2,
        odd: strings(&["beta", "alpha", "bet"]),
        even: strings(&["x"]),
    };
    assert_eq!(wordlist.get_completions("be"), strings(&["beta-", "bet-"]));
    assert_eq!(wordlist.get_completions("q-"), strings(&["q-x"]));
}

#[test]
fn chosen_words_alternate_between_the_lists() {
    let wordlist = default_wordlist(4);
    let odd = odd_words();
    let even = even_words();
    for _ in 0..20 {
        let words = wordlist.choose_words();
        assert_eq!(words.len(), 4);
        assert!(odd.contains(&words[0]));
        assert!(even.contains(&words[1]));
        assert!(odd.contains(&words[2]));
        assert!(even.contains(&words[3]));
    }
    assert_eq!(default_wordlist(0).choose_words(), Vec::<String>::new());
    let empty = Wordlist { num_words: 3, odd: vec![], even: strings(&["only"]) };
    assert_eq!(empty.choose_words(), strings(&["only"]));
}

#[test]
fn chosen_words_vary() {
    let wordlist = default_wordlist(2);
    let first = wordlist.choose_words();
    assert!((0..50).any(|_| wordlist.choose_words() != first));
}

#[test]
fn a_code_is_the_nameplate_and_the_words() {
    let nameplate = Nameplate("4".to_string());
    assert_eq!(
        make_code(&nameplate, &strings(&["purple", "sausages"])),
        Code("4-purple-sausages".to_string())
    );
    assert_eq!(make_code(&nameplate, &vec![]), Code("4".to_string()));
    assert_eq!(make_code(&Nameplate(String::new()), &strings(&["a"])), Code("-a".to_string()));
}

#[test]
fn the_nameplate_of_a_code_stands_before_the_first_dash() {
    assert_eq!(nameplate_of(&Code("4-purple-sausages".to_string())), Nameplate("4".to_string()));
    assert_eq!(nameplate_of(&Code("17".to_string())), Nameplate("17".to_string()));
    assert_eq!(nameplate_of(&Code("-x".to_string())), Nameplate(String::new()));
    assert_eq!(nameplate_of(&Code(String::new())), Nameplate(String::new()));
    let code = make_code(&Nameplate("123".to_string()), &strings(&["a", "b", "c"]));
    assert_eq!(nameplate_of(&code), Nameplate("123".to_string()));
}
