use sic::errors::{ParsePerTypeError, ParserError};
use sic::modifier::{FilterType, Modifier};
use sic::op::{Op, OperationId};
use sic::parser::prototype;
use sic::program::Core;

/// An instruction with its floating-point arguments as numbers.
#[derive(Debug, PartialEq)]
enum Instr {
    Blur(f32),
    Brighten(i32),
    Contrast(f32),
    Crop((u32, u32, u32, u32)),
    Diff(String),
    Filter3x3([f32; 9]),
    FlipHorizontal,
    FlipVertical,
    Grayscale,
    HueRotate(i32),
    Invert,
    Resize((u32, u32)),
    Rotate90,
    Rotate180,
    Rotate270,
    Unsharpen((f32, i32)),
    SetModifier(usize, Modifier),
    Skip,
}

fn number(lit: &sic::numbers::FloatLit) -> f32 {
    lit.as_str().parse::<f32>().unwrap()
}

fn lower(program: Vec<Core>) -> Vec<Instr> {
    program
        .iter()
        .map(|core| match core {
            Core::Operation(Op::Blur(v)) => Instr::Blur(number(v)),
            Core::Operation(Op::Brighten(v)) => Instr::Brighten(*v),
            Core::Operation(Op::Contrast(v)) => Instr::Contrast(number(v)),
            Core::Operation(Op::Crop(v)) => Instr::Crop(*v),
            Core::Operation(Op::Diff(v)) => Instr::Diff(v.clone()),
            Core::Operation(Op::Filter3x3(k)) => {
                let mut cells = [0f32; 9];
                for (cell, lit) in cells.iter_mut().zip(k.iter()) {
                    *cell = number(lit);
                }
                Instr::Filter3x3(cells)
            }
            Core::Operation(Op::FlipHorizontal) => Instr::FlipHorizontal,
            Core::Operation(Op::FlipVertical) => Instr::FlipVertical,
            Core::Operation(Op::Grayscale) => Instr::Grayscale,
            Core::Operation(Op::HueRotate(v)) => Instr::HueRotate(*v),
            Core::Operation(Op::Invert) => Instr::Invert,
            Core::Operation(Op::Resize(v)) => Instr::Resize(*v),
            Core::Operation(Op::Rotate90) => Instr::Rotate90,
            Core::Operation(Op::Rotate180) => Instr::Rotate180,
            Core::Operation(Op::Rotate270) => Instr::Rotate270,
            Core::Operation(Op::Unsharpen((s, t))) => Instr::Unsharpen((number(s), *t)),
            Core::SetModifier(at, modifier) => Instr::SetModifier(*at, *modifier),
            Core::Skip => Instr::Skip,
        })
        .collect()
}

fn without_dashes(input: &[&str]) -> Result<Vec<Instr>, ParserError> {
    prototype(input.iter().map(|v| v.to_string()).collect()).map(lower)
}

fn with_dashes(input: &[&str]) -> Result<Vec<Instr>, ParserError> {
    let mut input: Vec<String> = input.iter().map(|v| v.to_string()).collect();
    let mut new = input[0].chars().rev().collect::<String>();
    input[0] = {
        new.push_str("-");
        new.push_str("-");
        new.chars().rev().collect::<String>()
    };
    prototype(input).map(lower)
}

fn both(expected: Result<Vec<Instr>, ParserError>, input: &[&str]) {
    assert_eq!(without_dashes(input), expected);
    assert_eq!(with_dashes(input), expected);
}

fn float_error() -> Result<Vec<Instr>, ParserError> {
    Err(ParserError::PPTE(ParsePerTypeError::ParseFloatError))
}

fn int_error() -> Result<Vec<Instr>, ParserError> {
    Err(ParserError::PPTE(ParsePerTypeError::ParseIntError))
}

fn uint_error() -> Result<Vec<Instr>, ParserError> {
    Err(ParserError::PPTE(ParsePerTypeError::ParseUIntError))
}

struct TestFile {
    name: &'static str,
    cases: Vec<Case>,
}

struct Case {
    line: String,
    expected_outcome: Outcome,
}

#[derive(Clone, Copy)]
enum Outcome {
    Success,
    Failure,
}

const ARG_OPS: &str = "\
# operations in command-line form
--blur 1.0
--blur -1
--brighten 10
--brighten -10
--contrast 1.5
--crop 0 0 10 10
--diff a.png
--filter3x3 0 1 0 1 0 1 0 1 0
--flip-horizontal
--flip-vertical
--grayscale
--hue-rotate -90
--invert
--resize 100 100
--rotate90
--rotate180
--rotate270
--unsharpen -0.7 1
--blur 1 --brighten -2 --contrast 3
--output out.png --blur 1
@--blur
@--blur A
@--brighten 1.5
@--crop 0 0 10
@--crop 0 0 10 -1
@--crop --crop 0 1 2 3
@--resize 1 1 --crop
@--unsharpen -1.0 -1.0
@--filter3x3 [ 1.0 1.0 1.0 -1.0 -1.0 -1.0 0.0 0.0 0.0 ]
";

const SCRIPT_OPS: &str = "\
# operations in script form
blur 1
blur 1.0 brighten -2 contrast 3
crop 0 0 10 10 flip-horizontal
resize 100 100 rotate90
hue-rotate 90 invert grayscale
@blur
@blur 15.7.
@flipv
@blur 1 2
@crop 1 1 1 ~
";

const ARG_MODIFIERS: &str = "\
# modifiers in command-line form
--set resize preserve-aspect-ratio true --resize 100 100
--set resize sampling-filter catmullrom --resize 100 100
--blur 1 --set resize sampling-filter nearest --resize 10 10
--preserve-aspect-ratio true --resize 100 100
--sampling-filter lanczos3
@--set
@--set resize
@--set rezise preserve-aspect-ratio true --resize 1 1
@--set resize sampling-filter
@--set resize sampling-filter --resize 1 1
@--set resize sampling-filter tri --resize 1 1
@--set resize keep-aspect true --resize 1 1
@--set resize preserve-aspect-ratio yes --resize 1 1
@--set resize preserve-aspect-ratio true
@--set resize preserve-aspect-ratio true --blur 1
@--sampling-filter tri
@--preserve-aspect-ratio
";

fn load_test_file(name: &'static str, content: &str) -> TestFile {
    let cases = content
        .lines()
        .filter_map(|line| {
            if line.starts_with("#") {
                None
            } else if line.starts_with("@") {
                Some(Case { line: line[1..].to_string(), expected_outcome: Outcome::Failure })
            } else {
                Some(Case { line: String::from(line), expected_outcome: Outcome::Success })
            }
        })
        .collect::<Vec<Case>>();

    TestFile { name, cases }
}

fn load_test_files() -> Vec<TestFile> {
    vec![
        load_test_file("arg_ops", ARG_OPS),
        load_test_file("script_ops", SCRIPT_OPS),
        load_test_file("arg_modifiers", ARG_MODIFIERS),
    ]
}

fn run_test(test_file: &TestFile) {
    for case in &test_file.cases {
        let input = case.line.split_ascii_whitespace().map(String::from).collect::<Vec<_>>();

        let out = prototype(input);

        match case.expected_outcome {
            Outcome::Success => {
                assert!(out.is_ok(), "line {:?}: {:?}", case.line, out);
                let out = out.unwrap();
                println!("optree: {:?}\n", out);
                assert!(out.len() > 0);
            }
            Outcome::Failure => assert!(out.is_err(), "line {:?}: {:?}", case.line, out),
        }
    }
}

#[test]
fn all() {
    let vec = load_test_files();

    const DIVIDER: &str =
        "================================================================================";

    for (i, test) in vec.iter().enumerate() {
        println!("\n{}\n* test#: {}, name: {:?}\n", DIVIDER, i, test.name);
        run_test(test);
    }
}

#[test]
fn multi_arg() {
    let test_file = load_test_file("arg_modifiers", ARG_MODIFIERS);
    run_test(&test_file);
}

#[test]
fn blur_pos15() {
    both(Ok(vec![Instr::Blur(1.5)]), &["blur", "1.5"]);
}

#[test]
fn blur2() {
    both(float_error(), &["blur", "xyz"]);
}

#[test]
fn blur_pos1() {
    both(Ok(vec![Instr::Blur(1.0)]), &["blur", "1"]);
}

#[test]
fn blur_neg1() {
    both(Ok(vec![Instr::Blur(-1.0)]), &["blur", "-1"]);
}

#[test]
fn brighten() {
    both(Ok(vec![Instr::Brighten(1)]), &["brighten", "1"]);
}

#[test]
fn brighten_neg() {
    both(Ok(vec![Instr::Brighten(-1)]), &["brighten", "-1"]);
}

#[test]
fn brighten_not_fp() {
    both(int_error(), &["brighten", "-1.5"]);
}

#[test]
fn constrast() {
    both(Ok(vec![Instr::Contrast(1.0)]), &["contrast", "1"]);
}

#[test]
fn contrast_neg() {
    both(Ok(vec![Instr::Contrast(-1.0)]), &["contrast", "-1"]);
}

#[test]
fn contrast_fp() {
    both(Ok(vec![Instr::Contrast(-1.0)]), &["contrast", "-1.0"]);
}

#[test]
fn contrast_not_a_number() {
    both(float_error(), &["contrast", "x"]);
}

#[test]
fn crop_basic() {
    both(Ok(vec![Instr::Crop((1, 2, 3, 4))]), &["crop", "1", "2", "3", "4"]);
}

#[test]
fn crop_zeros() {
    both(Ok(vec![Instr::Crop((0, 0, 0, 0))]), &["crop", "0", "0", "0", "0"]);
}

#[test]
fn crop_accept_any_fitting_uint() {
    both(Ok(vec![Instr::Crop((1, 1, 1, 1))]), &["crop", "1", "1", "1", "1"]);
}

#[test]
fn crop_cant_be_neg() {
    both(uint_error(), &["crop", "1", "1", "1", "-1"]);
}

#[test]
fn crop_cant_be_not_a_number() {
    both(uint_error(), &["crop", "1", "1", "1", "~"]);
}

#[test]
fn multi_1() {
    both(
        Ok(vec![Instr::Blur(1.0), Instr::Brighten(-2), Instr::Contrast(3.0)]),
        &["blur", "1", "brighten", "-2", "contrast", "3"],
    );
}

#[test]
fn empty_input_is_an_empty_program() {
    assert_eq!(prototype(Vec::new()), Ok(Vec::new()));
}

#[test]
fn every_operation_with_exactly_its_arguments() {
    let k = ["0", "1", "0", "1.5", "0", "-1", "0", "1e1", "0"];
    let cases: Vec<(Vec<&str>, Instr)> = vec![
        (vec!["blur", "2.5"], Instr::Blur(2.5)),
        (vec!["brighten", "-3"], Instr::Brighten(-3)),
        (vec!["contrast", "0.5"], Instr::Contrast(0.5)),
        (vec!["crop", "0", "1", "2", "3"], Instr::Crop((0, 1, 2, 3))),
        (vec!["diff", "a b.png"], Instr::Diff("a b.png".to_string())),
        (
            vec!["filter3x3", k[0], k[1], k[2], k[3], k[4], k[5], k[6], k[7], k[8]],
            Instr::Filter3x3([0.0, 1.0, 0.0, 1.5, 0.0, -1.0, 0.0, 10.0, 0.0]),
        ),
        (vec!["flip-horizontal"], Instr::FlipHorizontal),
        (vec!["flip-vertical"], Instr::FlipVertical),
        (vec!["grayscale"], Instr::Grayscale),
        (vec!["hue-rotate", "-90"], Instr::HueRotate(-90)),
        (vec!["invert"], Instr::Invert),
        (vec!["resize", "100", "200"], Instr::Resize((100, 200))),
        (vec!["rotate90"], Instr::Rotate90),
        (vec!["rotate180"], Instr::Rotate180),
        (vec!["rotate270"], Instr::Rotate270),
        (vec!["unsharpen", "-0.7", "1"], Instr::Unsharpen((-0.7, 1))),
    ];
    for (input, expected) in cases {
        let arity = input.len() - 1;
        both(Ok(vec![expected]), &input);
        if arity > 0 {
            let id = OperationId::lookup(input[0]).unwrap();
            assert_eq!(id.takes_number_of_arguments(), arity);
            let short = &input[..arity];
            both(Err(ParserError::ArgumentCountMismatch(id, arity - 1)), short);
        }
    }
}

#[test]
fn an_operation_without_arguments_leaves_the_next_token() {
    assert_eq!(
        without_dashes(&["invert", "blur", "1"]),
        Ok(vec![Instr::Invert, Instr::Blur(1.0)])
    );
    assert_eq!(
        without_dashes(&["flip-horizontal", "0"]),
        Err(ParserError::Unexpected("0".to_string()))
    );
}

#[test]
fn arguments_end_at_the_next_instruction() {
    assert_eq!(
        with_dashes(&["crop", "--crop", "0", "1", "2", "3"]),
        Err(ParserError::ArgumentCountMismatch(OperationId::Crop, 0))
    );
    assert_eq!(
        without_dashes(&["crop", "0", "1", "blur", "3"]),
        Err(ParserError::ArgumentCountMismatch(OperationId::Crop, 2))
    );
    assert_eq!(
        without_dashes(&["resize", "1", "set", "resize", "preserve-aspect-ratio", "true"]),
        Err(ParserError::ArgumentCountMismatch(OperationId::Resize, 1))
    );
}

#[test]
fn the_first_token_locks_the_mode() {
    // Command-line form: later flags lose their dashes, bare names stay names.
    assert_eq!(
        with_dashes(&["blur", "1", "--invert", "grayscale"]),
        Ok(vec![Instr::Blur(1.0), Instr::Invert, Instr::Grayscale])
    );
    // Script form: a flag is foreign and is passed over.
    assert_eq!(
        without_dashes(&["blur", "1", "--invert", "x", "--grayscale"]),
        Ok(vec![Instr::Blur(1.0), Instr::Skip, Instr::Skip])
    );
}

#[test]
fn foreign_flags_are_skipped() {
    assert_eq!(
        without_dashes(&["--output", "out.png", "--blur", "1"]),
        Ok(vec![Instr::Skip, Instr::Blur(1.0)])
    );
    assert_eq!(
        without_dashes(&["-o", "out.png", "x", "-v"]),
        Ok(vec![Instr::Skip, Instr::Skip])
    );
    assert_eq!(without_dashes(&["--"]), Ok(vec![Instr::Skip]));
}

#[test]
fn unexpected_tokens_are_named() {
    assert_eq!(without_dashes(&["flipv"]), Err(ParserError::Unexpected("flipv".to_string())));
    assert_eq!(without_dashes(&[""]), Err(ParserError::Unexpected(String::new())));
    assert_eq!(
        without_dashes(&["blur", "1", "\u{3}"]),
        Err(ParserError::Unexpected("\u{3}".to_string()))
    );
    assert_eq!(
        without_dashes(&["blur", "1", "2"]),
        Err(ParserError::Unexpected("2".to_string()))
    );
}

#[test]
fn declared_modifiers_are_bound_to_the_next_occurrence() {
    assert_eq!(
        without_dashes(&[
            "set", "resize", "preserve-aspect-ratio", "true", "blur", "1", "resize", "10", "10",
            "resize", "20", "20",
        ]),
        Ok(vec![
            Instr::SetModifier(2, Modifier::PreserveAspectRatio(true)),
            Instr::Blur(1.0),
            Instr::Resize((10, 10)),
            Instr::Resize((20, 20)),
        ])
    );
    assert_eq!(
        without_dashes(&[
            "resize", "1", "1", "set", "resize", "sampling-filter", "gaussian", "set", "resize",
            "preserve-aspect-ratio", "false", "resize", "2", "2",
        ]),
        Ok(vec![
            Instr::Resize((1, 1)),
            Instr::SetModifier(3, Modifier::SamplingFilter(FilterType::Gaussian)),
            Instr::SetModifier(3, Modifier::PreserveAspectRatio(false)),
            Instr::Resize((2, 2)),
        ])
    );
}

#[test]
fn a_modifier_without_its_operation_is_refused() {
    assert_eq!(
        without_dashes(&["resize", "1", "1", "set", "resize", "sampling-filter", "nearest"]),
        Err(ParserError::UnboundModifier(OperationId::Resize))
    );
    assert_eq!(
        without_dashes(&["set", "blur", "sampling-filter", "nearest", "resize", "1", "1"]),
        Err(ParserError::UnboundModifier(OperationId::Blur))
    );
}

#[test]
fn keyword_modifiers_hold_from_the_next_position() {
    assert_eq!(
        without_dashes(&["preserve-aspect-ratio", "true", "resize", "100", "100"]),
        Ok(vec![
            Instr::SetModifier(1, Modifier::PreserveAspectRatio(true)),
            Instr::Resize((100, 100)),
        ])
    );
    assert_eq!(
        without_dashes(&["sampling-filter", "triangle"]),
        Ok(vec![Instr::SetModifier(1, Modifier::SamplingFilter(FilterType::Triangle))])
    );
}

#[test]
fn modifier_errors() {
    let ppte = |e| Err(ParserError::PPTE(e));
    assert_eq!(without_dashes(&["set"]), ppte(ParsePerTypeError::InvalidModifierSyntax));
    assert_eq!(without_dashes(&["settings"]), ppte(ParsePerTypeError::InvalidModifierSyntax));
    assert_eq!(
        without_dashes(&["set", "rezise"]),
        ppte(ParsePerTypeError::InvalidOperationForModifier)
    );
    assert_eq!(without_dashes(&["set", "resize"]), ppte(ParsePerTypeError::InvalidModifierSyntax));
    assert_eq!(
        without_dashes(&["set", "resize", "keep"]),
        ppte(ParsePerTypeError::InvalidModifierSyntax)
    );
    assert_eq!(
        without_dashes(&["set", "resize", "sampling-filter"]),
        ppte(ParsePerTypeError::ModifierArgumentExpected)
    );
    assert_eq!(
        without_dashes(&["set", "resize", "sampling-filter", "resize", "1", "1"]),
        ppte(ParsePerTypeError::ModifierArgumentExpected)
    );
    assert_eq!(
        without_dashes(&["set", "resize", "sampling-filter", "tri"]),
        ppte(ParsePerTypeError::InvalidModifierSyntax)
    );
    assert_eq!(
        without_dashes(&["set", "resize", "preserve-aspect-ratio", "yes"]),
        ppte(ParsePerTypeError::InvalidModifierSyntax)
    );
    assert_eq!(
        without_dashes(&["sampling-filter", "tri"]),
        ppte(ParsePerTypeError::UnrecognizedSamplingFilterName)
    );
    assert_eq!(
        without_dashes(&["sampling-filter"]),
        ppte(ParsePerTypeError::ModifierArgumentExpected)
    );
    assert_eq!(
        without_dashes(&["preserve-aspect-ratio", "yes"]),
        ppte(ParsePerTypeError::InvalidModifierSyntax)
    );
}

#[test]
fn every_filter_name() {
    for (name, filter) in [
        ("nearest", FilterType::Nearest),
        ("triangle", FilterType::Triangle),
        ("catmullrom", FilterType::CatmullRom),
        ("gaussian", FilterType::Gaussian),
        ("lanczos3", FilterType::Lanczos3),
    ] {
        assert_eq!(FilterType::try_from_str(name), Some(filter));
        assert_eq!(filter.as_str(), name);
        assert_eq!(
            without_dashes(&["sampling-filter", name]),
            Ok(vec![Instr::SetModifier(1, Modifier::SamplingFilter(filter))])
        );
    }
    assert_eq!(FilterType::try_from_str("Nearest"), None);
}

#[test]
fn the_first_rejected_argument_decides() {
    assert_eq!(without_dashes(&["unsharpen", "x", "y"]), float_error());
    assert_eq!(without_dashes(&["unsharpen", "1", "y"]), int_error());
    assert_eq!(
        without_dashes(&["filter3x3", "0", "0", "0", "0", "z", "0", "0", "0", "0"]),
        float_error()
    );
    assert_eq!(without_dashes(&["resize", "-1", "x"]), uint_error());
}
