use wodgen::text::{capitalize, expand_separators, join_words, split_words, to_title_case};

fn chars(s: &str) -> Vec<char> {
    s.chars().collect()
}

fn text(v: &Vec<char>) -> String {
    v.iter().collect()
}

#[test]
fn title_case_of_stored_names() {
    assert_eq!(to_title_case("single_leg_deadlift"), "Single Leg Deadlift");
    assert_eq!(to_title_case("row__band"), "Row - Band");
}

#[test]
fn title_case_of_plain_words() {
    assert_eq!(to_title_case("plank"), "Plank");
    assert_eq!(to_title_case("Push Up"), "Push Up");
    assert_eq!(to_title_case("push up"), "Push Up");
    assert_eq!(to_title_case("pUSH uP"), "PUSH UP");
}

#[test]
fn title_case_of_nothing() {
    assert_eq!(to_title_case(""), "");
    assert_eq!(to_title_case("   "), "");
    assert_eq!(to_title_case("_"), "");
    assert_eq!(to_title_case("__"), "-");
}

#[test]
fn title_case_squeezes_whitespace() {
    assert_eq!(to_title_case("  a   b  "), "A B");
    assert_eq!(to_title_case("a\tb\nc"), "A B C");
    assert_eq!(to_title_case("a\u{00A0}b\u{3000}c"), "A B C");
    assert_eq!(to_title_case("_a_"), "A");
}

#[test]
fn title_case_pairs_underscores_from_the_left() {
    assert_eq!(to_title_case("a___b"), "A - B");
    assert_eq!(to_title_case("a____b"), "A - - B");
    assert_eq!(to_title_case("a__"), "A -");
    assert_eq!(to_title_case("__a"), "- A");
}

#[test]
fn title_case_uses_the_unicode_upper_case() {
    assert_eq!(to_title_case("élan_vital"), "Élan Vital");
    assert_eq!(to_title_case("ßig"), "SSig");
    assert_eq!(to_title_case("ǆ_x"), "Ǆ X");
    assert_eq!(to_title_case("1st_set"), "1st Set");
}

#[test]
fn title_case_agrees_with_the_standard_library_chain() {
    for input in
        ["single_leg_deadlift", "row__band", " x__y_z ", "a___b", "ünder\tßtress", "", "_", "A_b__C"]
    {
        let want = input
            .replace("__", " - ")
            .replace('_', " ")
            .split_whitespace()
            .map(|word| {
                let mut c = word.chars();
                match c.next() {
                    None => String::new(),
                    Some(first) => first.to_uppercase().collect::<String>() + c.as_str(),
                }
            })
            .collect::<Vec<String>>()
            .join(" ");
        assert_eq!(to_title_case(input), want);
    }
}

#[test]
fn expand_separators_replaces_underscores() {
    assert_eq!(text(&expand_separators("row__band")), "row - band");
    assert_eq!(text(&expand_separators("a_b")), "a b");
    assert_eq!(text(&expand_separators("a___b")), "a -  b");
    assert_eq!(text(&expand_separators("_")), " ");
    assert_eq!(text(&expand_separators("")), "");
    assert_eq!(text(&expand_separators("no separators")), "no separators");
}

#[test]
fn split_words_by_marks() {
    let words = split_words(&chars("ab cd"), &vec![false, false, true, false, false]);
    assert_eq!(words, vec![chars("ab"), chars("cd")]);
    let words = split_words(&chars("abcd"), &vec![true, false, true, true]);
    assert_eq!(words, vec![chars("b")]);
    let words = split_words(&chars("ab"), &vec![true, true]);
    assert!(words.is_empty());
    let words = split_words(&chars(""), &vec![]);
    assert!(words.is_empty());
}

#[test]
fn split_words_takes_uncovered_positions_as_letters() {
    let words = split_words(&chars("a b c"), &vec![false, true]);
    assert_eq!(words, vec![chars("a"), chars("b c")]);
    let words = split_words(&chars("a b"), &vec![]);
    assert_eq!(words, vec![chars("a b")]);
    let words = split_words(&chars("ab"), &vec![false, false, true, true]);
    assert_eq!(words, vec![chars("ab")]);
}

#[test]
fn capitalize_replaces_the_first_character() {
    assert_eq!(capitalize(&chars("row"), &chars("R")), chars("Row"));
    assert_eq!(capitalize(&chars("ßig"), &chars("SS")), chars("SSig"));
    assert_eq!(capitalize(&chars("x"), &chars("")), chars(""));
    assert_eq!(capitalize(&chars(""), &chars("R")), chars(""));
}

#[test]
fn join_words_puts_single_spaces() {
    assert_eq!(join_words(&vec![chars("Row"), chars("-"), chars("Band")]), "Row - Band");
    assert_eq!(join_words(&vec![chars("Row")]), "Row");
    assert_eq!(join_words(&vec![]), "");
    assert_eq!(join_words(&vec![chars(""), chars("b")]), " b");
}
