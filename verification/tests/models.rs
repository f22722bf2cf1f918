use rustpilot::models::{choice, pick, select_model, ModelOption};

fn options() -> Vec<ModelOption> {
    let names = ["large", "medium", "small", "older", "fast", "oldest"];
    names
        .iter()
        .map(|name| ModelOption { id: format!("model-{}", name), label: name.to_string() })
        .collect()
}

#[test]
fn a_number_picks_the_option_at_that_place() {
    let options = options();
    assert_eq!(select_model(&options, "1"), "model-large");
    assert_eq!(select_model(&options, "2\n"), "model-medium");
    assert_eq!(select_model(&options, "6"), "model-oldest");
}

#[test]
fn white_space_a_plus_sign_and_leading_zeros_are_allowed() {
    let options = options();
    assert_eq!(select_model(&options, "  3 \r\n"), "model-small");
    assert_eq!(select_model(&options, "+4"), "model-older");
    assert_eq!(select_model(&options, "0005"), "model-fast");
    assert_eq!(select_model(&options, "+006"), "model-oldest");
}

#[test]
fn anything_else_picks_the_first_option() {
    let options = options();
    for typed in
        ["", "\n", "0", "7", "-1", "2.0", "two", "2 3", "+", "++2", "2+", "٣", "99999999999999999999999999"]
    {
        assert_eq!(select_model(&options, typed), "model-large");
    }
}

#[test]
fn choice_counts_from_zero_and_stays_inside() {
    assert_eq!(choice(6, "1"), 0);
    assert_eq!(choice(6, "6"), 5);
    assert_eq!(choice(6, "7"), 0);
    assert_eq!(choice(1, "1"), 0);
    assert_eq!(choice(1, "2"), 0);
    assert_eq!(choice(300, " 257 "), 256);
    assert_eq!(choice(usize::MAX, "18446744073709551616"), 0);
    assert_eq!(choice(usize::MAX, "340282366920938463463374607431768211456"), 0);
}

#[test]
fn choice_agrees_with_parsing_by_the_standard_library() {
    for typed in ["1", " 2", "+3", "04", "5 ", "6\n", "0", "7", "", "x", "-0", "+0", "1e0"] {
        let expected = typed
            .trim()
            .parse::<usize>()
            .ok()
            .and_then(|n| n.checked_sub(1))
            .filter(|place| *place < 6)
            .unwrap_or(0);
        assert_eq!(choice(6, typed), expected);
    }
}

#[test]
fn pick_reads_the_text_as_it_is() {
    assert_eq!(pick(6, "3"), 2);
    assert_eq!(pick(6, "+3"), 2);
    assert_eq!(pick(6, "003"), 2);
    assert_eq!(pick(6, " 3"), 0);
    assert_eq!(pick(6, "3\n"), 0);
    assert_eq!(pick(6, ""), 0);
    assert_eq!(pick(6, "+"), 0);
    assert_eq!(pick(6, "0"), 0);
    assert_eq!(pick(6, "6"), 5);
    assert_eq!(pick(6, "7"), 0);
    assert_eq!(pick(12, "12"), 11);
    assert_eq!(pick(12, "1２"), 0);
}
