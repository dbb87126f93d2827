use tari_scenario::steps::{Capture, Pattern, StepTable};

fn word(text: &str) -> Capture {
    Capture::Word(text.to_string())
}

fn captures(pattern: &str, phrase: &str) -> Option<Vec<Capture>> {
    Pattern::compile(pattern).unwrap().match_phrase(phrase)
}

#[test]
fn a_pattern_without_slots_fits_its_own_text_alone() {
    assert_eq!(captures("I stop all wallets", "I stop all wallets"), Some(vec![]));
    assert_eq!(captures("I stop all wallets", "I stop all wallets "), None);
    assert_eq!(captures("I stop all wallets", "I stop all wallet"), None);
    assert_eq!(captures("", ""), Some(vec![]));
    assert_eq!(captures("", "x"), None);
}

#[test]
fn a_word_is_a_run_without_blanks() {
    assert_eq!(captures("I have a seed node {word}", "I have a seed node NODE_A"), Some(vec![word("NODE_A")]));
    assert_eq!(captures("I have a seed node {word}", "I have a seed node "), None);
    assert_eq!(captures("I have a seed node {word}", "I have a seed node A B"), None);
    assert_eq!(
        captures("a wallet {word} connected to base node {word}", "a wallet W connected to base node A"),
        Some(vec![word("W"), word("A")])
    );
    assert_eq!(
        captures("{word} is connected to {word}", "A is connected to B"),
        Some(vec![word("A"), word("B")])
    );
}

#[test]
fn an_integer_is_a_run_of_digits() {
    assert_eq!(captures("all nodes are at height {int}", "all nodes are at height 5"), Some(vec![Capture::Int(5)]));
    assert_eq!(captures("all nodes are at height {int}", "all nodes are at height 007"), Some(vec![Capture::Int(7)]));
    assert_eq!(captures("all nodes are at height {int}", "all nodes are at height five"), None);
    assert_eq!(captures("all nodes are at height {int}", "all nodes are at height -5"), None);
    assert_eq!(captures("all nodes are at height {int}", "all nodes are at height "), None);
    assert_eq!(
        captures("all nodes are at height {int}*{int}", "all nodes are at height 3*4"),
        Some(vec![Capture::Int(3), Capture::Int(4)])
    );
    assert_eq!(captures("wallet {word} has {int}T", "wallet W has 0T"), Some(vec![word("W"), Capture::Int(0)]));
    assert_eq!(
        captures(
            "{word} is in the {word} of all nodes, where {int}% can fail",
            "TX1 is in the MEMPOOL of all nodes, where 50% can fail"
        ),
        Some(vec![word("TX1"), word("MEMPOOL"), Capture::Int(50)])
    );
}

#[test]
fn an_integer_must_fit_sixty_four_bits() {
    assert_eq!(captures("{int}", "18446744073709551615"), Some(vec![Capture::Int(u64::MAX)]));
    assert_eq!(captures("{int}", "18446744073709551616"), None);
    assert_eq!(captures("{int}", "99999999999999999999999999"), None);
    assert_eq!(captures("{int}", "0"), Some(vec![Capture::Int(0)]));
}

#[test]
fn a_text_stands_between_quotes() {
    assert_eq!(
        captures("I say {string} to {word}", "I say \"hello there\" to A"),
        Some(vec![Capture::Text("hello there".to_string()), word("A")])
    );
    assert_eq!(
        captures("I say {string}", "I say 'it is \"fine\"'"),
        Some(vec![Capture::Text("it is \"fine\"".to_string())])
    );
    assert_eq!(captures("I say {string}", "I say \"\""), Some(vec![Capture::Text(String::new())]));
    assert_eq!(captures("I say {string}", "I say \"open"), None);
    assert_eq!(captures("I say {string}", "I say hello"), None);
    assert_eq!(captures("I say {string}", "I say \"a' "), None);
}

#[test]
fn a_pattern_is_refused_for_an_open_brace_or_an_unknown_slot() {
    assert!(Pattern::compile("I have {word").is_none());
    assert!(Pattern::compile("I have {float} coins").is_none());
    assert!(Pattern::compile("I have {} coins").is_none());
    assert!(Pattern::compile("I have {Word}").is_none());
    assert!(Pattern::compile("{").is_none());
    assert!(Pattern::compile("I have {int}{word}{string}").is_some());
    assert!(Pattern::compile("closing } alone is text").is_some());
}

#[test]
fn a_closing_brace_alone_is_literal_text() {
    assert_eq!(captures("a } b", "a } b"), Some(vec![]));
    assert_eq!(captures("{int}}", "5}"), Some(vec![Capture::Int(5)]));
}

#[test]
fn a_phrase_goes_to_the_first_pattern_it_fits() {
    let mut table = StepTable::new();
    assert!(table.register("I have a seed node {word}", 10));
    assert!(table.register("I have a base node {word}", 11));
    assert!(table.register("I have {word} base node {word}", 12));
    assert!(table.register("I wait {int} seconds", 13));
    assert_eq!(table.len(), 4);
    let seed = table.resolve("I have a seed node S").unwrap();
    assert_eq!((seed.place, seed.handler), (0, 10));
    assert_eq!(seed.captures, vec![word("S")]);
    let base = table.resolve("I have a base node B").unwrap();
    assert_eq!((base.place, base.handler), (1, 11));
    assert_eq!(base.captures, vec![word("B")]);
    let other = table.resolve("I have another base node B").unwrap();
    assert_eq!((other.place, other.handler), (2, 12));
    assert_eq!(other.captures, vec![word("another"), word("B")]);
    let wait = table.resolve("I wait 30 seconds").unwrap();
    assert_eq!(wait.captures, vec![Capture::Int(30)]);
    assert_eq!(table.resolve("I wait thirty seconds"), None);
    assert_eq!(table.resolve(""), None);
}

#[test]
fn registering_a_pattern_again_does_not_double_it() {
    let mut table = StepTable::new();
    assert!(table.register("I wait {int} seconds", 1));
    assert!(table.register("I stop all wallets", 2));
    assert!(table.register("I wait {int} seconds", 1));
    assert_eq!(table.len(), 2);
    assert_eq!(table.resolve("I wait 1 seconds").unwrap().handler, 1);
    assert!(table.register("I wait {int} seconds", 3));
    assert_eq!(table.len(), 2);
    let found = table.resolve("I wait 1 seconds").unwrap();
    assert_eq!((found.place, found.handler), (0, 3));
    assert!(!table.register("I wait {seconds}", 4));
    assert_eq!(table.len(), 2);
}

#[test]
fn an_empty_table_resolves_nothing() {
    assert_eq!(StepTable::new().resolve("I stop all wallets"), None);
    assert_eq!(StepTable::new().len(), 0);
}
