use sic::errors::ParserError;
use sic::get_tool_name;
use sic::modifier::{Modifier, ModifierId};
use sic::errors::ParsePerTypeError;
use sic::op::{ArgKind, Op, OperationId};
use sic::parser::{Parser, StopMark};
use sic::procedure::{run_display_licenses, Config, FormatEncodingSettings, SelectedLicenses};
use sic::program::{assemble, Core, Item};
use sic::syntax::{is_cli_arg, is_long_arg, is_short_arg, name_of, starts_instruction, ParsingMode};
use sic::text::{same_text, to_chars};

fn config(show_license_text_of: Option<SelectedLicenses>) -> Config {
    Config {
        show_license_text_of,
        selected_frame: None,
        forced_output_format: None,
        encoding_settings: FormatEncodingSettings { jpeg_quality: 80, pnm_use_ascii_format: false },
        output: None,
        image_operations_program: Vec::new(),
    }
}

#[test]
fn tool_name() {
    assert_eq!(get_tool_name(), "sic");
}

#[test]
fn licenses_are_displayed_only_when_asked_for() {
    assert_eq!(
        run_display_licenses(&config(Some(SelectedLicenses::ThisSoftware))),
        Ok(SelectedLicenses::ThisSoftware)
    );
    assert_eq!(
        run_display_licenses(&config(Some(SelectedLicenses::Dependencies))),
        Ok(SelectedLicenses::Dependencies)
    );
    assert_eq!(
        run_display_licenses(&config(None)),
        Err("Unable to display license texts".to_string())
    );
}

#[test]
fn the_stop_mark_is_end_of_text() {
    assert_eq!(<String as StopMark>::mark(), (0x03 as char).to_string());
}

#[test]
fn flags() {
    assert!(is_long_arg("--blur"));
    assert!(is_long_arg("--x"));
    assert!(!is_long_arg("--"));
    assert!(!is_long_arg("-x"));
    assert!(!is_long_arg("blur"));
    assert!(!is_long_arg(""));
    assert!(is_short_arg("-x"));
    assert!(is_short_arg("--"));
    assert!(is_short_arg("-1"));
    assert!(!is_short_arg("-"));
    assert!(!is_short_arg("-xy"));
    assert!(!is_short_arg("x-"));
    assert!(!is_short_arg("-é"));
    assert!(is_cli_arg("--output"));
    assert!(is_cli_arg("-o"));
    assert!(!is_cli_arg("output"));
    assert!(!is_cli_arg(""));
}

#[test]
fn names_and_starts() {
    assert_eq!(name_of(ParsingMode::Arg, "--blur"), "blur");
    assert_eq!(name_of(ParsingMode::Script, "--blur"), "--blur");
    assert_eq!(name_of(ParsingMode::Ambiguous, "--blur"), "--blur");
    assert_eq!(name_of(ParsingMode::Arg, "blur"), "blur");
    assert_eq!(name_of(ParsingMode::Arg, "--é"), "é");
    assert!(starts_instruction(ParsingMode::Arg, "--blur"));
    assert!(starts_instruction(ParsingMode::Arg, "blur"));
    assert!(!starts_instruction(ParsingMode::Script, "--blur"));
    assert!(starts_instruction(ParsingMode::Script, "sampling-filter"));
    assert!(starts_instruction(ParsingMode::Script, "settings"));
    assert!(!starts_instruction(ParsingMode::Script, "se"));
    assert!(!starts_instruction(ParsingMode::Script, "1"));
    assert!(Modifier::modifier_start("set"));
    assert!(Modifier::modifier_start("settle"));
    assert!(!Modifier::modifier_start("Set"));
    assert!(!Modifier::modifier_start(""));
    assert!(Op::is_some("filter3x3"));
    assert!(Op::is_some("hue-rotate"));
    assert!(!Op::is_some("filter-3x3"));
    assert!(!Op::is_some("Blur"));
    assert!(!Op::is_some("preserve-aspect-ratio"));
    assert!(!Op::is_some(""));
}

#[test]
fn catalog_round_trip() {
    let ids = [
        (OperationId::Blur, "blur", 1),
        (OperationId::Brighten, "brighten", 1),
        (OperationId::Contrast, "contrast", 1),
        (OperationId::Crop, "crop", 4),
        (OperationId::Diff, "diff", 1),
        (OperationId::Filter3x3, "filter3x3", 9),
        (OperationId::FlipHorizontal, "flip-horizontal", 0),
        (OperationId::FlipVertical, "flip-vertical", 0),
        (OperationId::Grayscale, "grayscale", 0),
        (OperationId::HueRotate, "hue-rotate", 1),
        (OperationId::Invert, "invert", 0),
        (OperationId::Resize, "resize", 2),
        (OperationId::Rotate90, "rotate90", 0),
        (OperationId::Rotate180, "rotate180", 0),
        (OperationId::Rotate270, "rotate270", 0),
        (OperationId::Unsharpen, "unsharpen", 2),
    ];
    for (id, name, arity) in ids {
        assert_eq!(id.as_str(), name);
        assert_eq!(OperationId::lookup(name), Some(id));
        assert_eq!(OperationId::try_from_name(name), Ok(id));
        assert_eq!(id.takes_number_of_arguments(), arity);
    }
    assert_eq!(
        OperationId::try_from_name("flipv"),
        Err(ParserError::UnknownOperation("flipv".to_string()))
    );
    assert_eq!(ModifierId::lookup("sampling-filter"), Some(ModifierId::SamplingFilter));
    assert_eq!(ModifierId::SamplingFilter.as_str(), "sampling-filter");
    assert_eq!(ModifierId::lookup("preserve-aspect-ratio"), Some(ModifierId::PreserveAspectRatio));
    assert_eq!(ModifierId::PreserveAspectRatio.as_str(), "preserve-aspect-ratio");
    assert_eq!(ModifierId::lookup("set"), None);
    assert_eq!(
        ModifierId::PreserveAspectRatio.value("false"),
        Some(Modifier::PreserveAspectRatio(false))
    );
    assert_eq!(ModifierId::PreserveAspectRatio.value("False"), None);
}

#[test]
fn text_helpers() {
    assert_eq!(to_chars("aé-"), vec!['a', 'é', '-']);
    assert_eq!(to_chars(""), Vec::<char>::new());
    assert!(same_text("blur", "blur"));
    assert!(!same_text("blur", "blue"));
    assert!(!same_text("blur", "blurs"));
    assert!(same_text("", ""));
}

#[test]
fn the_parser_steps_through_its_input() {
    let input = ["--blur", "1", "-o", "x", "y", "--invert", "nope"];
    let mut parser = Parser::new(input.iter().map(|v| v.to_string()).collect());
    assert!(parser.has_arg_prefix());
    assert!(parser.has_arg_prefix());
    assert!(matches!(parser.next(), Some(Ok(Item::Operation(Op::Blur(_))))));
    assert!(!parser.has_arg_prefix());
    assert_eq!(parser.next(), Some(Ok(Item::Skip)));
    assert!(parser.has_arg_prefix());
    assert_eq!(parser.next(), Some(Ok(Item::Operation(Op::Invert))));
    assert_eq!(parser.next(), Some(Err(ParserError::Unexpected("nope".to_string()))));
    assert_eq!(parser.next(), None);
    assert_eq!(parser.next(), None);
    assert!(!parser.has_arg_prefix());
}

#[test]
fn skipping_stops_before_the_next_flag() {
    let input = ["a", "b", "-c", "d"];
    let mut parser = Parser::with_config(
        input.iter().map(|v| v.to_string()).collect(),
        ParsingMode::Script,
        sic::op::QuotingPolicy::Unquote,
    );
    assert_eq!(parser.skip_non_image_op_cli_arguments(), Some(Ok(Item::Skip)));
    assert_eq!(parser.next(), Some(Ok(Item::Skip)));
    assert_eq!(parser.next(), None);
}

#[test]
fn assembly_binds_each_modifier() {
    let items = vec![
        Item::Modifier(Some(OperationId::Invert), Modifier::PreserveAspectRatio(true)),
        Item::Skip,
        Item::Modifier(None, Modifier::PreserveAspectRatio(false)),
        Item::Operation(Op::Grayscale),
        Item::Operation(Op::Invert),
        Item::Operation(Op::Invert),
    ];
    assert_eq!(
        assemble(&items),
        Ok(vec![
            Core::SetModifier(4, Modifier::PreserveAspectRatio(true)),
            Core::Skip,
            Core::SetModifier(3, Modifier::PreserveAspectRatio(false)),
            Core::Operation(Op::Grayscale),
            Core::Operation(Op::Invert),
            Core::Operation(Op::Invert),
        ])
    );
    let items = vec![
        Item::Operation(Op::Invert),
        Item::Modifier(Some(OperationId::Invert), Modifier::PreserveAspectRatio(true)),
        Item::Modifier(Some(OperationId::Grayscale), Modifier::PreserveAspectRatio(true)),
    ];
    assert_eq!(assemble(&items), Err(ParserError::UnboundModifier(OperationId::Invert)));
    assert_eq!(assemble(&Vec::new()), Ok(Vec::new()));
    let op = Op::Resize((1, 2));
    assert_eq!(op.id(), OperationId::Resize);
    assert_eq!(op.clone(), op);
}

#[test]
fn the_kinds_of_the_arguments() {
    assert_eq!(OperationId::Unsharpen.kind_of_argument(0), Some(ArgKind::Float));
    assert_eq!(OperationId::Unsharpen.kind_of_argument(1), Some(ArgKind::Int));
    assert_eq!(OperationId::Unsharpen.kind_of_argument(2), None);
    assert_eq!(OperationId::Crop.kind_of_argument(3), Some(ArgKind::UInt));
    assert_eq!(OperationId::Crop.kind_of_argument(4), None);
    assert_eq!(OperationId::Diff.kind_of_argument(0), Some(ArgKind::Text));
    assert_eq!(OperationId::Filter3x3.kind_of_argument(8), Some(ArgKind::Float));
    assert_eq!(OperationId::Filter3x3.kind_of_argument(9), None);
    assert_eq!(OperationId::Invert.kind_of_argument(0), None);
    assert_eq!(OperationId::Brighten.kind_of_argument(0), Some(ArgKind::Int));
    assert_eq!(OperationId::Resize.kind_of_argument(1), Some(ArgKind::UInt));
    assert_eq!(OperationId::Blur.kind_of_argument(usize::MAX), None);
}

#[test]
fn the_verdict_on_a_token() {
    assert_eq!(ArgKind::Float.check("1e3"), None);
    assert_eq!(ArgKind::Float.check("1e"), Some(ParsePerTypeError::ParseFloatError));
    assert_eq!(ArgKind::Int.check("-3"), None);
    assert_eq!(ArgKind::Int.check("3.0"), Some(ParsePerTypeError::ParseIntError));
    assert_eq!(ArgKind::UInt.check("3"), None);
    assert_eq!(ArgKind::UInt.check("-3"), Some(ParsePerTypeError::ParseUIntError));
    assert_eq!(ArgKind::Text.check(""), None);
}

#[test]
fn the_first_rejected_argument_is_found() {
    let args = |v: &[&str]| v.iter().map(|t| t.to_string()).collect::<Vec<String>>();
    assert_eq!(OperationId::Crop.rejected_argument(&args(&["0", "1", "2", "3"])), None);
    assert_eq!(
        OperationId::Crop.rejected_argument(&args(&["0", "-1", "x", "3"])),
        Some((1, ArgKind::UInt))
    );
    assert_eq!(
        OperationId::Unsharpen.rejected_argument(&args(&["1.5", "1.5"])),
        Some((1, ArgKind::Int))
    );
    assert_eq!(
        OperationId::Unsharpen.rejected_argument(&args(&["a", "b"])),
        Some((0, ArgKind::Float))
    );
    assert_eq!(OperationId::Unsharpen.rejected_argument(&args(&["a"])), None);
    assert_eq!(OperationId::Diff.rejected_argument(&args(&["blur"])), None);
    assert_eq!(OperationId::Invert.rejected_argument(&args(&[])), None);
}
