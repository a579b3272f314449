use sic::operations::{blur_of, parse_image_operations, parse_pair, resize_of, Operation, Pair, Rule};

/// The pairs that the grammar of the first script language matches in a
/// script: operations, each followed by an optional `;`, with white space
/// between words.
fn parse(script: &str) -> Result<Vec<Pair>, String> {
    let words: Vec<&str> = script
        .split(|c: char| c == ';' || c.is_ascii_whitespace())
        .filter(|w| !w.is_empty())
        .collect();
    let mut pairs = Vec::new();
    let mut at = 0;
    while at < words.len() {
        let (rule, takes) = match words[at] {
            "blur" => (Rule::Blur, 1),
            "flip_horizontal" => (Rule::FlipHorizontal, 0),
            "flip_vertical" => (Rule::FlipVertical, 0),
            "resize" => (Rule::Resize, 2),
            other => return Err(format!("expected an operation, found {:?}", other)),
        };
        if at + takes >= words.len() {
            return Err(format!("{:?} lacks a value", words[at]));
        }
        let inner = words[at + 1..at + 1 + takes].iter().map(|w| w.to_string()).collect();
        pairs.push(Pair { rule, inner });
        at += 1 + takes;
    }
    Ok(pairs)
}

fn parsed(script: &str) -> Result<Vec<Operation>, String> {
    let pairs = parse(script)
        .unwrap_or_else(|e| panic!("Unable to parse sic image operations script: {:?}", e));
    parse_image_operations(&pairs)
}

#[test]
fn test_blur_single_stmt_parse_correct() {
    assert_eq!(Ok(vec![Operation::Blur(15)]), parsed("blur 15;"));
}

#[test]
fn test_flip_horizontal_single_stmt_parse_correct() {
    assert_eq!(Ok(vec![Operation::FlipHorizontal]), parsed("flip_horizontal;"));
}

#[test]
fn test_flip_vertical_single_stmt_parse_correct() {
    assert_eq!(Ok(vec![Operation::FlipVertical]), parsed("flip_vertical;"));
}

#[test]
fn test_resize_single_stmt_parse_correct() {
    assert_eq!(Ok(vec![Operation::Resize(99, 88)]), parsed("resize 99 88;"));
}

#[test]
fn test_multi_stmt_parse_correct() {
    assert_eq!(
        Ok(vec![
            Operation::Blur(10),
            Operation::FlipHorizontal,
            Operation::FlipVertical,
            Operation::Resize(100, 200)
        ]),
        parsed("blur 10;flip_horizontal;flip_vertical;resize 100 200;")
    );
}

#[test]
fn test_multi_stmt_parse_diff_order_correct() {
    assert_eq!(
        Ok(vec![
            Operation::FlipHorizontal,
            Operation::FlipVertical,
            Operation::Resize(100, 200),
            Operation::Blur(10)
        ]),
        parsed("flip_horizontal;flip_vertical;resize 100 200;blur 10;")
    );
}

#[test]
fn test_multi_whitespace() {
    assert_eq!(
        Ok(vec![
            Operation::FlipHorizontal,
            Operation::FlipVertical,
            Operation::Resize(100, 200),
            Operation::Blur(10)
        ]),
        parsed("flip_horizontal; flip_vertical; resize 100 200; blur 10;")
    );
}

#[test]
fn test_multi_whitespace_2() {
    assert_eq!(
        Ok(vec![
            Operation::FlipHorizontal,
            Operation::FlipVertical,
            Operation::Resize(100, 200),
            Operation::Blur(10)
        ]),
        parsed("flip_horizontal    ; flip_vertical   ;   \t\t resize 100 200; blur 10;")
    );
}

#[test]
fn test_multi_whitespace_3() {
    assert_eq!(
        Ok(vec![
            Operation::FlipHorizontal,
            Operation::FlipVertical,
            Operation::Resize(100, 200),
            Operation::Blur(10)
        ]),
        parsed("flip_horizontal;\nflip_vertical;\nresize 100 200;\n\tblur 10;")
    );
}

#[test]
fn test_multi_should_no_longer_end_with_sep() {
    assert_eq!(
        Ok(vec![
            Operation::FlipHorizontal,
            Operation::FlipVertical,
            Operation::Resize(100, 200),
            Operation::Blur(10)
        ]),
        parsed("flip_horizontal; flip_vertical; resize 100 200; blur 10")
    );
}

#[test]
fn test_multi_sep_optional() {
    assert_eq!(
        Ok(vec![
            Operation::FlipHorizontal,
            Operation::FlipVertical,
            Operation::Resize(100, 200),
            Operation::Blur(10)
        ]),
        parsed("flip_horizontal flip_vertical; resize 100 200 blur 10")
    );
}

fn pair(rule: Rule, inner: &[&str]) -> Pair {
    Pair { rule, inner: inner.iter().map(|v| v.to_string()).collect() }
}

fn refusal(text: &str) -> String {
    text.parse::<u32>().unwrap_err().to_string()
}

#[test]
fn no_pairs_are_no_operations() {
    assert_eq!(parse_image_operations(&Vec::new()), Ok(vec![]));
}

#[test]
fn a_pair_without_its_value_is_refused() {
    assert_eq!(
        parse_pair(&pair(Rule::Blur, &[])),
        Err("Unable to parse and capture `blur` value.".to_string())
    );
    assert_eq!(
        parse_pair(&pair(Rule::Resize, &[])),
        Err("Unable to parse `resize <x> <y>`".to_string())
    );
    assert_eq!(
        parse_pair(&pair(Rule::Resize, &["1"])),
        Err("Unable to parse `resize <x> <y>`".to_string())
    );
    assert_eq!(
        parse_pair(&pair(Rule::Other, &["1"])),
        Err("Parse failed: Operation doesn't exist".to_string())
    );
}

#[test]
fn a_value_out_of_range_is_refused_with_the_message_of_the_standard_library() {
    assert_eq!(parse_pair(&pair(Rule::Blur, &["4294967295"])), Ok(Operation::Blur(u32::MAX)));
    assert_eq!(parse_pair(&pair(Rule::Blur, &["4294967296"])), Err(refusal("4294967296")));
    assert_eq!(parse_pair(&pair(Rule::Blur, &["-1"])), Err(refusal("-1")));
    assert_eq!(parse_pair(&pair(Rule::Blur, &[""])), Err(refusal("")));
    assert_eq!(
        refusal("4294967296"),
        "number too large to fit in target type".to_string()
    );
}

#[test]
fn the_first_error_of_a_resize_wins() {
    assert_eq!(parse_pair(&pair(Rule::Resize, &["x", "9999999999"])), Err(refusal("x")));
    assert_eq!(parse_pair(&pair(Rule::Resize, &["1", "9999999999"])), Err(refusal("9999999999")));
    assert_eq!(parse_pair(&pair(Rule::Resize, &["x"])), Err(refusal("x")));
    assert_eq!(resize_of(Err("a".to_string()), Err("b".to_string())), Err("a".to_string()));
    assert_eq!(resize_of(Ok(1), Err("b".to_string())), Err("b".to_string()));
    assert_eq!(resize_of(Ok(1), Ok(2)), Ok(Operation::Resize(1, 2)));
    assert_eq!(blur_of(Ok(3)), Ok(Operation::Blur(3)));
    assert_eq!(blur_of(Err("c".to_string())), Err("c".to_string()));
}

#[test]
fn the_first_pair_that_fails_ends_the_reading() {
    let pairs = vec![
        pair(Rule::FlipHorizontal, &[]),
        pair(Rule::Blur, &["x"]),
        pair(Rule::Other, &[]),
    ];
    assert_eq!(parse_image_operations(&pairs), Err(refusal("x")));
    let pairs = vec![
        pair(Rule::FlipHorizontal, &[]),
        pair(Rule::Other, &[]),
        pair(Rule::Blur, &["x"]),
    ];
    assert_eq!(
        parse_image_operations(&pairs),
        Err("Parse failed: Operation doesn't exist".to_string())
    );
}
