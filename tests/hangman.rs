use deet::hangman::{check, pick_a_random_word};

#[test]
fn check_marks_first_unguessed_occurrence() {
    let mut w: Vec<char> = "banana".chars().collect();
    assert_eq!(check(&mut w, 'a'), Some(1));
    assert_eq!(w, "b-nana".chars().collect::<Vec<char>>());
    assert_eq!(check(&mut w, 'a'), Some(3));
    assert_eq!(w, "b-n-na".chars().collect::<Vec<char>>());
}

#[test]
fn check_misses_leave_word_unchanged() {
    let mut w: Vec<char> = "rust".chars().collect();
    assert_eq!(check(&mut w, 'z'), None);
    assert_eq!(w, "rust".chars().collect::<Vec<char>>());
    let mut empty: Vec<char> = Vec::new();
    assert_eq!(check(&mut empty, 'a'), None);
}

#[test]
fn random_word_is_one_of_the_list() {
    let words = vec![String::from("alpha"), String::from("beta"), String::from("gamma")];
    for _ in 0..50 {
        let w = pick_a_random_word(&words);
        assert!(words.contains(&w));
    }
    let one = vec![String::from("solo")];
    assert_eq!(pick_a_random_word(&one), "solo");
}
