use minigames::quiz::{decimal_text_of, digit_to_char, Calc, Operation, Quiz, NUM_LIMIT};

fn text(s: &str) -> Vec<char> {
    s.chars().collect()
}

#[test]
fn decimal_text() {
    for n in [0, 7, 38, 105, -7, -120, i32::MAX, i32::MIN] {
        assert_eq!(decimal_text_of(n), text(&n.to_string()));
    }
    assert_eq!(digit_to_char(4), '4');
}

#[test]
fn calculate_any_operands() {
    let mut c = Calc::new();
    c.a = Some(3);
    c.b = Some(10);
    c.operation = Some(Operation::Sub);
    c.calculate();
    assert_eq!(c.result, text("-7"));
    c.a = Some(i32::MAX - 1);
    c.b = Some(1);
    c.operation = Some(Operation::Plus);
    c.calculate();
    assert_eq!(c.result, text(&i32::MAX.to_string()));
}

#[test]
fn question_filled_in_order() {
    let mut c = Calc::new();
    assert!(!c.not_empty());
    assert!(c.fill_next(7));
    assert_eq!(c.a, Some(7));
    assert!(c.fill_next(4));
    assert_eq!(c.operation, Some(Operation::Plus));
    assert!(c.fill_next(3));
    assert_eq!(c.b, Some(3));
    assert_eq!(c.result, text("10"));
    assert!(c.not_empty());
    assert!(!c.fill_next(5));
    assert_eq!(c.result, text("10"));
}

#[test]
fn subtraction() {
    let mut c = Calc::new();
    c.fill_next(7);
    c.fill_next(5);
    assert_eq!(c.operation, Some(Operation::Sub));
    c.fill_next(3);
    assert_eq!(c.result, text("4"));
    assert!(c.equals_result(&text("4")));
    assert!(!c.equals_result(&text("5")));
    assert_eq!(Operation::Sub.value(), '-');
    assert_eq!(Operation::Plus.value(), '+');
}

#[test]
fn random_question_in_range() {
    let mut c = Calc::new();
    assert!(c.fill_random());
    assert!(c.fill_random());
    assert!(c.fill_random());
    assert!(!c.fill_random());
    let a = c.a.unwrap();
    let b = c.b.unwrap();
    assert!(a >= 1 && a < NUM_LIMIT);
    assert!(b >= 1 && b <= a);
    let expected = match c.operation.unwrap() {
        Operation::Plus => a + b,
        Operation::Sub => a - b,
    };
    assert_eq!(c.result, text(&expected.to_string()));
}

#[test]
fn answer_right_and_wrong() {
    let mut q = Quiz::new();
    assert!(!q.type_digit(1));
    q.calc.fill_next(7);
    q.calc.fill_next(4);
    q.calc.fill_next(3);
    assert!(q.type_digit(1));
    assert!(!q.game_over);
    assert!(q.type_digit(0));
    assert!(q.game_over);
    assert!(q.is_correct());
    assert!(!q.type_digit(3));

    let mut q = Quiz::new();
    q.calc.fill_next(7);
    q.calc.fill_next(4);
    q.calc.fill_next(3);
    q.type_digit(1);
    q.type_digit(1);
    assert!(q.game_over);
    assert!(!q.is_correct());
}

#[test]
fn round_fills_question_then_stops() {
    let mut q = Quiz::new();
    assert!(q.next_part());
    assert!(q.calc.a.is_some() && q.calc.operation.is_none());
    assert!(q.next_part());
    assert!(q.calc.operation.is_some() && q.calc.b.is_none());
    assert!(q.next_part());
    assert!(q.calc.b.is_some());
    assert!(!q.next_part());
    for c in q.calc.result.clone() {
        assert!(q.type_digit(c.to_digit(10).unwrap() as u8));
    }
    assert!(q.game_over);
    assert!(q.is_correct());
    assert!(!q.next_part());
}
