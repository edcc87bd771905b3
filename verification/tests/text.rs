use ulam::animation::closing_frames;
use ulam::animation::Animation;
use ulam::animation::Phase;
use ulam::error::ConfigError;
use ulam::text::append_decimal;
use ulam::text::chars_of;
use ulam::text::digit_of;
use ulam::text::digit_text;
use ulam::text::parse_leading_numbers;
use ulam::text::parse_number;
use ulam::text::same_text;
use ulam::text::split_field;

fn chars(text: &str) -> Vec<char> {
    text.chars().collect()
}

#[test]
fn characters_of_a_string() {
    assert_eq!(chars_of(""), Vec::<char>::new());
    assert_eq!(chars_of("1:2"), vec!['1', ':', '2']);
    assert_eq!(chars_of("\u{e9}\u{4e2d}x"), vec!['\u{e9}', '\u{4e2d}', 'x']);
}

#[test]
fn same_text_compares_character_by_character() {
    assert!(same_text("", ""));
    assert!(same_text("primes", "primes"));
    assert!(!same_text("primes", "prime"));
    assert!(!same_text("prime", "primes"));
    assert!(!same_text("primes", "primez"));
    assert!(!same_text("Primes", "primes"));
}

#[test]
fn digits_have_values() {
    assert_eq!(digit_of('0'), Some(0));
    assert_eq!(digit_of('5'), Some(5));
    assert_eq!(digit_of('9'), Some(9));
    assert_eq!(digit_of('/'), None);
    assert_eq!(digit_of(':'), None);
    assert_eq!(digit_of('a'), None);
    assert_eq!(digit_of('\u{661}'), None);
    for d in 0..10usize {
        assert_eq!(digit_text(d), d.to_string());
        assert_eq!(digit_of(digit_text(d).chars().next().unwrap()), Some(d));
    }
}

#[test]
fn numbers_are_runs_of_digits() {
    assert_eq!(parse_number(&chars("0")), Some(0));
    assert_eq!(parse_number(&chars("42")), Some(42));
    assert_eq!(parse_number(&chars("+42")), Some(42));
    assert_eq!(parse_number(&chars("0042")), Some(42));
    assert_eq!(parse_number(&chars("18446744073709551615")), Some(18446744073709551615));
    assert_eq!(parse_number(&chars(&usize::MAX.to_string())), Some(usize::MAX));
    assert_eq!(parse_number(&chars("")), None);
    assert_eq!(parse_number(&chars("+")), None);
    assert_eq!(parse_number(&chars("-1")), None);
    assert_eq!(parse_number(&chars("++1")), None);
    assert_eq!(parse_number(&chars("1+")), None);
    assert_eq!(parse_number(&chars("4 2")), None);
    assert_eq!(parse_number(&chars("42 ")), None);
    assert_eq!(parse_number(&chars("4x")), None);
    assert_eq!(parse_number(&chars("\u{661}")), None);
    assert_eq!(parse_number(&chars("18446744073709551616")), None);
    assert_eq!(parse_number(&chars("99999999999999999999999")), None);
    assert_eq!(parse_number(&chars("99999999999999999999999x")), None);
}

#[test]
fn numbers_are_read_as_the_standard_library_reads_them() {
    for text in ["0", "7", "+7", "-7", "007", "", "+", "-", "1_000", "0x10", "12a", " 12", "18446744073709551615", "18446744073709551616", "+0"] {
        assert_eq!(parse_number(&chars(text)), text.parse::<usize>().ok());
    }
}

#[test]
fn decimal_digits_of_numbers() {
    for n in [0usize, 1, 9, 10, 11, 99, 100, 101, 12345, 1000000, usize::MAX] {
        let mut text = String::from("n = ");
        append_decimal(&mut text, n);
        assert_eq!(text, format!("n = {}", n));
        assert_eq!(parse_number(&chars(&text[4..])), Some(n));
    }
}

#[test]
fn fields_end_at_the_first_separator() {
    let text = chars("12:34:56");
    let (field, rest) = split_field(&text, ':');
    assert_eq!(field, &chars("12")[..]);
    assert_eq!(rest, Some(&chars("34:56")[..]));
    let text = chars("12");
    let (field, rest) = split_field(&text, ':');
    assert_eq!(field, &chars("12")[..]);
    assert_eq!(rest, None);
    let text = chars("");
    let (field, rest) = split_field(&text, ':');
    assert_eq!(field, &chars("")[..]);
    assert_eq!(rest, None);
    let text = chars(":");
    let (field, rest) = split_field(&text, ':');
    assert_eq!(field, &chars("")[..]);
    assert_eq!(rest, Some(&chars("")[..]));
    let text = chars("a,b:c");
    let (field, rest) = split_field(&text, ',');
    assert_eq!(field, &chars("a")[..]);
    assert_eq!(rest, Some(&chars("b:c")[..]));
}

#[test]
fn leading_numbers_of_a_text() {
    assert_eq!(parse_leading_numbers(&chars("1:2:3"), ':', 3), Ok(vec![1, 2, 3]));
    assert_eq!(parse_leading_numbers(&chars("1:2:3"), ':', 2), Ok(vec![1, 2]));
    assert_eq!(parse_leading_numbers(&chars("1:2:x"), ':', 2), Ok(vec![1, 2]));
    assert_eq!(parse_leading_numbers(&chars("1:2"), ':', 3), Ok(vec![1, 2]));
    assert_eq!(parse_leading_numbers(&chars("1"), ':', 3), Ok(vec![1]));
    assert_eq!(parse_leading_numbers(&chars("x"), ':', 0), Ok(vec![]));
    assert_eq!(parse_leading_numbers(&chars(""), ':', 1), Err(ConfigError::InvalidParameter));
    assert_eq!(parse_leading_numbers(&chars("1:"), ':', 2), Err(ConfigError::InvalidParameter));
    assert_eq!(parse_leading_numbers(&chars("1:2:x"), ':', 3), Err(ConfigError::InvalidParameter));
    assert_eq!(parse_leading_numbers(&chars("1,2"), ':', 2), Err(ConfigError::InvalidParameter));
    assert_eq!(parse_leading_numbers(&chars("1,2"), ',', 2), Ok(vec![1, 2]));
}

fn frames(animation: &mut Animation, items: usize) -> Vec<usize> {
    let mut out = Vec::new();
    for k in 1..=items {
        assert!(!animation.is_spent());
        if animation.next() {
            out.push(k);
        }
    }
    out
}

#[test]
fn animation_with_one_phase_shows_every_nth_item() {
    let mut animation = Animation::new("100:1").unwrap();
    assert_eq!(frames(&mut animation, 1000), vec![100, 200, 300, 400, 500, 600, 700, 800, 900, 1000]);
    let mut animation = Animation::new("3").unwrap();
    assert_eq!(frames(&mut animation, 10), vec![3, 6, 9]);
    let mut animation = Animation::new("1:5").unwrap();
    assert_eq!(frames(&mut animation, 4), vec![1, 2, 3, 4]);
    let mut animation = Animation::new("0").unwrap();
    assert_eq!(frames(&mut animation, 3), vec![1, 2, 3]);
}

#[test]
fn animation_moves_from_phase_to_phase() {
    let mut animation = Animation::new("2:3,5:1,10").unwrap();
    assert_eq!(frames(&mut animation, 60), vec![2, 4, 6, 8, 13, 18, 28, 38, 48, 58]);
}

#[test]
fn animation_phase_without_frames_ends_at_once() {
    let mut animation = Animation::new("4:0,3").unwrap();
    assert_eq!(frames(&mut animation, 12), vec![4, 7, 10]);
}

#[test]
fn animation_texts_that_are_no_numbers_are_refused() {
    for data in ["", "x", "1:x", "1,", ",1", "1,,2", "1:2,x", "1;2", "-1"] {
        assert!(matches!(Animation::new(data), Err(ConfigError::InvalidParameter)));
    }
    assert!(Animation::new("1:2:x,3").is_ok());
}

#[test]
fn phases_are_plain_values() {
    let phase = Phase { wait: 3, frames: 2, every: 3 };
    assert_eq!(phase, Phase { wait: 3, frames: 2, every: 3 });
    assert_eq!((phase.wait, phase.frames, phase.every), (3, 2, 3));
}

#[test]
fn closing_frames_round_up() {
    assert_eq!(closing_frames(1000, 100), 10);
    assert_eq!(closing_frames(1001, 100), 11);
    assert_eq!(closing_frames(999, 100), 10);
    assert_eq!(closing_frames(0, 100), 0);
    assert_eq!(closing_frames(1, 100), 1);
    assert_eq!(closing_frames(3000, 500), 6);
    assert_eq!(closing_frames(5, 1), 5);
    assert_eq!(closing_frames(u32::MAX - 1, 1), u32::MAX - 1);
}
