use priklady::match_viz::{evaluate, App};

fn arm(input: &str) -> Option<usize> {
    evaluate(input).map(|r| r.matched_arm)
}

#[test]
fn arms_for_numbers() {
    assert_eq!(arm("-3"), Some(0));
    assert_eq!(arm("0"), Some(1));
    assert_eq!(arm("7"), Some(2));
    assert_eq!(arm("42"), Some(3));
    assert_eq!(arm("err:boom"), Some(4));
}

#[test]
fn explanations() {
    assert_eq!(
        evaluate("-3").unwrap().explanation,
        "✓ Arm 1 matchol: Ok(n) if n < 0\nn = -3 spĺňa guard podmienku n < 0.\nGuard (if n < 0) je extra podmienka za vzorom."
    );
    assert_eq!(
        evaluate("7").unwrap().explanation,
        "✓ Arm 3 matchol: Ok(n) if n < 10\nn = 7 spĺňa podmienku n < 10 (a n > 0 z predchádzajúcich armen).\nArms 1 a 2 zlyhali: 7 nie je záporné ani nula."
    );
    assert_eq!(
        evaluate("42").unwrap().explanation,
        "✓ Arm 4 matchol: Ok(n) — catch-all pre Ok\nn = 42 ≥ 10, žiaden predchádzajúci arm s guardom neprešiel.\nTento arm bez guardu zachytí všetky zostávajúce Ok hodnoty."
    );
    assert_eq!(
        evaluate("0").unwrap().explanation,
        "✓ Arm 2 matchol: Ok(0)\nLiterálny vzor — pasuje iba ak n == 0.\nRust porovnáva vzory zhora nadol, guard z arm 1 neprešiel."
    );
    assert_eq!(
        evaluate("  err:správa ").unwrap().explanation,
        "✓ Arm 5 matchol: Err(e) — e = \"správa\"\nRust skontroloval ramená 1–4, žiadne nepasovalo.\nErr variant zachytí každú chybovú hodnotu."
    );
}

#[test]
fn empty_and_invalid_inputs() {
    assert!(evaluate("").is_none());
    assert!(evaluate("   \t").is_none());
    assert!(evaluate("abc").is_none());
    assert!(evaluate("-").is_none());
    assert!(evaluate("+").is_none());
    assert!(evaluate("1 2").is_none());
    assert!(evaluate("2147483648").is_none());
    assert!(evaluate("-2147483649").is_none());
    assert!(evaluate("99999999999999999999x").is_none());
}

#[test]
fn parse_edges_like_std() {
    for s in ["+5", "-0", "007", "2147483647", "-2147483648", "\u{3000}12\u{a0}", " 9 "] {
        let expected: i32 = s.trim().parse().unwrap();
        let r = evaluate(s).unwrap();
        let expected_arm = if expected < 0 { 0 } else if expected == 0 { 1 } else if expected < 10 { 2 } else { 3 };
        assert_eq!(r.matched_arm, expected_arm, "input {:?}", s);
        if expected > 0 {
            assert!(r.explanation.contains(&format!("n = {} ", expected)));
        }
    }
    assert!(evaluate("-2147483648").unwrap().explanation.contains("n = -2147483648 "));
}

#[test]
fn numerals_read_back() {
    for n in [i32::MIN, -100, -1, 0, 1, 9, 10, 12345, i32::MAX] {
        let r = evaluate(&n.to_string()).unwrap();
        assert!(r.explanation.contains(&format!("n = {}", n)) || n == 0);
    }
}

#[test]
fn err_with_empty_message() {
    let r = evaluate("err:").unwrap();
    assert_eq!(r.matched_arm, 4);
    assert!(r.explanation.contains("e = \"\""));
}

#[test]
fn app_editing_clears_result() {
    let mut app = App::new();
    for c in "42".chars() {
        app.type_char(c);
    }
    app.submit();
    assert_eq!(app.selected, Some(3));
    assert!(app.result.is_some());
    app.backspace();
    assert_eq!(app.input, "4");
    assert!(app.result.is_none());
    assert_eq!(app.selected, None);
    app.submit();
    assert_eq!(app.selected, Some(2));
    app.backspace();
    app.backspace();
    assert_eq!(app.input, "");
    app.submit();
    assert_eq!(app.selected, None);
}
