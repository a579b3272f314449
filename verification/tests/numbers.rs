use sic::errors::ParsePerTypeError;
use sic::numbers::{parse_i32, parse_u32, FloatLit};

const CORPUS: &[&str] = &[
    "", " ", "0", "1", "-1", "+1", "-0", "+0", "00012", "1.0", "1.", ".5", ".", "-.5", "+.5", "-.",
    "1e5", "1E5", "1e+5", "1e-5", "1e", "e5", "1e+", "1.5e3", "1.e3", ".5e3", ".e3", "15.7.", "1..2",
    "inf", "INF", "Inf", "-inf", "+inf", "infinity", "INFINITY", "-Infinity", "infinit", "infinityy",
    "nan", "NaN", "-nan", "+NAN", "na", "nann", "in", "A", "xyz", "~", "1a", "a1", " 1", "1 ", "--1",
    "+-1", "-+1", "++1", "1_000", "0x10", "4294967295", "4294967296", "+4294967295", "2147483647",
    "2147483648", "-2147483648", "-2147483649", "99999999999999999999", "-99999999999999999999",
    "1e99999999999999999999", "0.0000000000000000000000000000000000000000000000000001", "1,5",
    "١", "1e5e5", "1e5.5", "-", "+", "é", "1é", "iNfInItY", "i\u{2d}f", "-100.8", "0.7", "-0.7",
    "Ｉnf", "\u{49}\u{6e}\u{46}", "\u{29}nf", "1e05", "1E-05", "12345678901234567890.5e-3",
];

#[test]
fn float_syntax_agrees_with_the_standard_parser() {
    for token in CORPUS {
        let ours = FloatLit::parse(token);
        let theirs = token.parse::<f32>();
        assert_eq!(ours.is_ok(), theirs.is_ok(), "token {:?}", token);
        if let Ok(lit) = ours {
            assert_eq!(lit.as_str(), *token);
        } else {
            assert_eq!(ours, Err(ParsePerTypeError::ParseFloatError));
        }
    }
}

#[test]
fn unsigned_values_agree_with_the_standard_parser() {
    for token in CORPUS {
        let expected = token.parse::<u32>().map_err(|_| ParsePerTypeError::ParseUIntError);
        assert_eq!(parse_u32(token), expected, "token {:?}", token);
    }
}

#[test]
fn signed_values_agree_with_the_standard_parser() {
    for token in CORPUS {
        let expected = token.parse::<i32>().map_err(|_| ParsePerTypeError::ParseIntError);
        assert_eq!(parse_i32(token), expected, "token {:?}", token);
    }
}

#[test]
fn unsigned_exact_values() {
    assert_eq!(parse_u32("0"), Ok(0));
    assert_eq!(parse_u32("+17"), Ok(17));
    assert_eq!(parse_u32("007"), Ok(7));
    assert_eq!(parse_u32("4294967295"), Ok(u32::MAX));
    assert_eq!(parse_u32("4294967296"), Err(ParsePerTypeError::ParseUIntError));
}

#[test]
fn unsigned_rejects_negative_looking_tokens() {
    assert_eq!(parse_u32("-1"), Err(ParsePerTypeError::ParseUIntError));
    assert_eq!(parse_u32("-0"), Err(ParsePerTypeError::ParseUIntError));
    assert_eq!(parse_u32("-"), Err(ParsePerTypeError::ParseUIntError));
    assert_eq!(parse_u32("-4294967295"), Err(ParsePerTypeError::ParseUIntError));
}

#[test]
fn signed_exact_values() {
    assert_eq!(parse_i32("-1"), Ok(-1));
    assert_eq!(parse_i32("-0"), Ok(0));
    assert_eq!(parse_i32("+90"), Ok(90));
    assert_eq!(parse_i32("2147483647"), Ok(i32::MAX));
    assert_eq!(parse_i32("-2147483648"), Ok(i32::MIN));
    assert_eq!(parse_i32("2147483648"), Err(ParsePerTypeError::ParseIntError));
    assert_eq!(parse_i32("-2147483649"), Err(ParsePerTypeError::ParseIntError));
    assert_eq!(parse_i32("-1.5"), Err(ParsePerTypeError::ParseIntError));
}

#[test]
fn float_literal_keeps_its_text() {
    let lit = FloatLit::parse("-0.7").unwrap();
    assert_eq!(lit.as_str(), "-0.7");
    assert_eq!(lit.as_str().parse::<f32>().unwrap(), -0.7);
    assert_eq!(lit.clone(), lit);
    assert_eq!(FloatLit::parse("15.7."), Err(ParsePerTypeError::ParseFloatError));
}

/// Every string of at most `length` characters over `alphabet`.
fn strings(alphabet: &[char], length: usize) -> Vec<String> {
    let mut all = vec![String::new()];
    let mut last = vec![String::new()];
    for _ in 0..length {
        let mut next = Vec::new();
        for prefix in &last {
            for c in alphabet {
                let mut s = prefix.clone();
                s.push(*c);
                next.push(s);
            }
        }
        all.extend(next.iter().cloned());
        last = next;
    }
    all
}

#[test]
fn float_syntax_agrees_on_every_short_number() {
    for token in strings(&['+', '-', '.', 'e', 'E', '0', '7'], 5) {
        assert_eq!(
            FloatLit::parse(&token).is_ok(),
            token.parse::<f32>().is_ok(),
            "token {:?}",
            token
        );
    }
}

#[test]
fn float_syntax_agrees_on_every_short_word() {
    for token in strings(&['-', 'i', 'I', 'n', 'N', 'f', 'a', 'A', '1'], 4) {
        assert_eq!(
            FloatLit::parse(&token).is_ok(),
            token.parse::<f32>().is_ok(),
            "token {:?}",
            token
        );
    }
    for head in ["", "+", "-"] {
        for word in ["infinity", "INFINITY", "Infinity", "infinitY", "infinity ", "infinit", "infinite"] {
            let token = format!("{}{}", head, word);
            assert_eq!(
                FloatLit::parse(&token).is_ok(),
                token.parse::<f32>().is_ok(),
                "token {:?}",
                token
            );
        }
    }
}

#[test]
fn integers_agree_on_every_short_token() {
    for token in strings(&['+', '-', '0', '9', ' ', 'x'], 5) {
        assert_eq!(
            parse_u32(&token),
            token.parse::<u32>().map_err(|_| ParsePerTypeError::ParseUIntError),
            "token {:?}",
            token
        );
        assert_eq!(
            parse_i32(&token),
            token.parse::<i32>().map_err(|_| ParsePerTypeError::ParseIntError),
            "token {:?}",
            token
        );
    }
}

#[test]
fn integers_agree_around_the_limits() {
    for base in [u32::MAX as i64, i32::MAX as i64, i32::MIN as i64, 0] {
        for delta in -3i64..=3 {
            for token in [format!("{}", base + delta), format!("+{}", base + delta), format!("000{}", base + delta)] {
                assert_eq!(
                    parse_u32(&token),
                    token.parse::<u32>().map_err(|_| ParsePerTypeError::ParseUIntError),
                    "token {:?}",
                    token
                );
                assert_eq!(
                    parse_i32(&token),
                    token.parse::<i32>().map_err(|_| ParsePerTypeError::ParseIntError),
                    "token {:?}",
                    token
                );
            }
        }
    }
}
