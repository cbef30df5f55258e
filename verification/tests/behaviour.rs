use mmi_parser::number::{is_float, parse_i32};
use mmi_parser::text::{without_brackets, without_quotes};
use mmi_parser::{
    categorize_positional_info, label_aa_parts, label_mmi_parts, parse_bool,
    parse_bracketed_info, parse_mmi, parse_positional_info, parse_semantic_types,
    parse_tree_codes, parse_triggers, split_text, split_with_bracket_context,
    split_with_quote_context, tag_pos_info, AaFields, AaOutput, AaPosInfo, AbbreviationType,
    ErrorKind, Location, MmiOutput, Output, Position, PositionalInfoType, Trigger, ValueError,
};

const ISOPODA: &str = "24119710|MMI|637.30|Isopoda|C0598806|[euka]|[\"Isopod\"-ab-1-\"isopod\"-adj-0,\"Isopoda\"-ti-1-\"Isopoda\"-noun-0]|TI;AB|228/6;136/7|B01.050.500.131.365.400";

fn concept(line: &str) -> MmiOutput {
    match parse_mmi(line).unwrap() {
        Output::MMI(x) => x,
        _ => panic!("not a concept record"),
    }
}

fn abbreviation(line: &str) -> AaOutput {
    match parse_mmi(line).unwrap() {
        Output::AA(x) => x,
        _ => panic!("not an abbreviation record"),
    }
}

fn rejected<T: std::fmt::Debug>(r: Result<T, ValueError>) -> (ErrorKind, String) {
    let e = r.unwrap_err();
    (e.kind, e.text)
}

#[test]
fn quote_splitter_groups_and_sextuples() {
    let sample = "\"Drug, NOS\"-tx-33-\"medicine\"-noun-0,\"Drug, NOS\"-tx-31-\"medicine\"-noun-0";
    let groups = split_with_quote_context(sample, ',');
    assert_eq!(
        groups,
        vec![
            "\"Drug, NOS\"-tx-33-\"medicine\"-noun-0",
            "\"Drug, NOS\"-tx-31-\"medicine\"-noun-0"
        ]
    );
    for g in groups {
        let parts = split_with_quote_context(&g, '-');
        assert_eq!(parts.len(), 6);
    }
    assert_eq!(
        split_with_quote_context("\"Drug - NOS\"-tx-29-\"medication\"-noun-0", '-'),
        vec!["\"Drug - NOS\"", "tx", "29", "\"medication\"", "noun", "0"]
    );
}

#[test]
fn quote_splitter_edges() {
    assert_eq!(split_with_quote_context("", ','), Vec::<String>::new());
    assert_eq!(split_with_quote_context("a", ','), vec!["a"]);
    assert_eq!(split_with_quote_context(",", ','), vec!["", ""]);
    assert_eq!(split_with_quote_context("a,", ','), vec!["a", ""]);
    assert_eq!(split_with_quote_context(",a", ','), vec!["", "a"]);
    assert_eq!(split_with_quote_context("\"a\",\"b\"", ','), vec!["\"a\"", "\"b\""]);
    assert_eq!(split_with_quote_context("\"a,b", ','), vec!["\"a,b"]);
    assert_eq!(split_with_quote_context("a\"b,c\"d,e", ','), vec!["a\"b,c\"d", "e"]);
    assert_eq!(split_with_quote_context("a\"b\"c", '"'), vec!["a\"b\"c"]);
    assert_eq!(split_with_quote_context("é,ü", ','), vec!["é", "ü"]);
}

#[test]
fn quote_splitter_pieces_join_to_the_text() {
    for s in ["a,b,,c", "\"x,y\",z", ",", "abc", "a,\"b", "\"\"\",\","] {
        let parts = split_with_quote_context(s, ',');
        assert_eq!(parts.join(","), s);
    }
}

#[test]
fn bracket_splitter_keeps_groups() {
    assert_eq!(
        split_with_bracket_context("[4061/10,4075/11],[4061/10,4075/11]"),
        vec!["[4061/10,4075/11]", "[4061/10,4075/11]"]
    );
}

#[test]
fn bracket_splitter_edges() {
    assert_eq!(split_with_bracket_context(""), Vec::<String>::new());
    assert_eq!(split_with_bracket_context("[1/2]"), vec!["[1/2]"]);
    assert_eq!(split_with_bracket_context("]"), vec!["]"]);
    assert_eq!(split_with_bracket_context("a"), Vec::<String>::new());
    assert_eq!(split_with_bracket_context("a,b"), vec!["a"]);
    assert_eq!(split_with_bracket_context("[1/2],3/4"), vec!["[1/2]"]);
    assert_eq!(split_with_bracket_context("[1,2],[3,4]"), vec!["[1,2]", "[3,4]"]);
    assert_eq!(split_with_bracket_context("[a,b,]"), vec!["[a,b,]"]);
    assert_eq!(split_with_bracket_context("a,[b]"), vec!["a", "[b]"]);
    // brackets do not nest: the second opening bracket closes the first
    assert_eq!(split_with_bracket_context("[[a,b]"), vec!["[[a", "b]"]);
    assert_eq!(split_with_bracket_context("[[a,b"), vec!["[[a"]);
}

#[test]
fn pipe_split_keeps_empty_fields() {
    assert_eq!(split_text(""), vec![""]);
    assert_eq!(split_text("|"), vec!["", ""]);
    assert_eq!(split_text("a||b"), vec!["a", "", "b"]);
    assert_eq!(split_text("asda|fake|other stuff|"), vec!["asda", "fake", "other stuff", ""]);
    for s in ["", "|", "a|b", "||x|", "no pipes"] {
        let std_parts: Vec<&str> = s.split('|').collect();
        assert_eq!(split_text(s), std_parts);
    }
}

#[test]
fn classifier_picks_the_shape() {
    let shape = |s: &str| {
        let t = tag_pos_info(s);
        categorize_positional_info(t.0, t.1, t.2)
    };
    assert_eq!(shape("117/5;122/4"), Some(PositionalInfoType::A));
    assert_eq!(shape("117/5,122/4,113/2"), Some(PositionalInfoType::B));
    assert_eq!(shape("[122/4],[117/6]"), Some(PositionalInfoType::C));
    assert_eq!(
        shape("[4061/10,4075/11],[4061/10,4075/11]"),
        Some(PositionalInfoType::D)
    );
    assert_eq!(shape(""), Some(PositionalInfoType::A));
    assert_eq!(shape("[1/2]"), None);
    assert_eq!(shape("[1/2,3/4]"), None);
}

#[test]
fn classifier_covers_every_finding() {
    assert_eq!(categorize_positional_info(false, false, false), Some(PositionalInfoType::A));
    assert_eq!(categorize_positional_info(false, false, true), Some(PositionalInfoType::B));
    assert_eq!(categorize_positional_info(false, true, false), Some(PositionalInfoType::B));
    assert_eq!(categorize_positional_info(false, true, true), Some(PositionalInfoType::B));
    assert_eq!(categorize_positional_info(true, false, false), None);
    assert_eq!(categorize_positional_info(true, false, true), Some(PositionalInfoType::C));
    assert_eq!(categorize_positional_info(true, true, false), None);
    assert_eq!(categorize_positional_info(true, true, true), Some(PositionalInfoType::D));
}

#[test]
fn tagger_sets_and_clears_the_bracket_state() {
    assert_eq!(tag_pos_info("],"), (false, false, true));
    assert_eq!(tag_pos_info("[[],"), (true, false, true));
    assert_eq!(tag_pos_info("[],[,"), (true, true, true));
    assert_eq!(tag_pos_info("[,"), (true, true, false));
    assert_eq!(tag_pos_info(";;"), (false, false, false));
}

#[test]
fn end_to_end_concept_record() {
    let record = concept(ISOPODA);
    assert_eq!(record.id, "24119710");
    assert_eq!(record.mmi, "MMI");
    assert_eq!(record.score, "637.30");
    assert_eq!(record.score.parse::<f64>().unwrap(), 637.30);
    assert_eq!(record.name, "Isopoda");
    assert_eq!(record.cui, "C0598806");
    assert_eq!(record.semantic_types, vec!["euka"]);
    assert_eq!(record.triggers.len(), 2);
    assert_eq!(
        record.triggers[0],
        Trigger {
            name: "Isopod".to_string(),
            loc: Location::AB,
            loc_position: 1,
            text: "isopod".to_string(),
            part_of_speech: "adj".to_string(),
            negation: false,
        }
    );
    assert_eq!(record.location, Location::Tiab);
    assert_eq!(
        record.positional_info,
        vec![
            Position::new(228, 6, PositionalInfoType::A),
            Position::new(136, 7, PositionalInfoType::A)
        ]
    );
    assert_eq!(
        record.tree_codes,
        Some(vec!["B01.050.500.131.365.400".to_string()])
    );
}

#[test]
fn end_to_end_abbreviation_record() {
    let record = abbreviation("23074487|AA|FY|fiscal years|1|2|3|12|9362:2");
    assert_eq!(
        record,
        AaOutput {
            id: "23074487".to_string(),
            abbreviation_type: AbbreviationType::AA,
            short_form: "FY".to_string(),
            long_form: "fiscal years".to_string(),
            short_token_count: 1,
            short_character_count: 2,
            long_token_count: 3,
            long_character_count: 12,
            positional_info: AaPosInfo {
                start: 9362,
                length: 2
            },
        }
    );
    let user = abbreviation("1|ua|a|b|-1|+2|03|4|5:6");
    assert_eq!(user.abbreviation_type, AbbreviationType::UA);
    assert_eq!(user.short_token_count, -1);
    assert_eq!(user.short_character_count, 2);
    assert_eq!(user.long_token_count, 3);
}

#[test]
fn malformed_line_is_an_unknown_kind() {
    assert_eq!(
        rejected(parse_mmi("asda|fake|other stuff|")),
        (ErrorKind::UnknownKind, "fake".to_string())
    );
    assert_eq!(rejected(parse_mmi("")), (ErrorKind::UnknownKind, String::new()));
    assert_eq!(
        rejected(parse_mmi("no pipes at all")),
        (ErrorKind::UnknownKind, String::new())
    );
    assert_eq!(
        rejected(parse_mmi("1|XX|3|4|5|6|7|8|9")),
        (ErrorKind::UnknownKind, "XX".to_string())
    );
    // the right word with the wrong number of fields
    assert_eq!(
        rejected(parse_mmi("1|MMI|3|4|5|6|7|8|9")),
        (ErrorKind::UnknownKind, "MMI".to_string())
    );
    assert_eq!(
        rejected(parse_mmi("1|AA|3|4|5|6|7|8|9|10")),
        (ErrorKind::UnknownKind, "AA".to_string())
    );
}

#[test]
fn record_kind_in_any_case() {
    let lower = ISOPODA.replace("|MMI|", "|mMi|");
    let record = concept(&lower);
    assert_eq!(record.mmi, "mMi");
    assert_eq!(
        abbreviation("23074487|aA|FY|fiscal years|1|2|3|12|9362:2").abbreviation_type,
        AbbreviationType::AA
    );
}

#[test]
fn tree_codes_absent_or_split() {
    assert_eq!(parse_tree_codes(""), None);
    assert_eq!(parse_tree_codes(";"), Some(vec![String::new(), String::new()]));
    assert_eq!(
        parse_tree_codes("A;B;;C"),
        Some(vec![
            "A".to_string(),
            "B".to_string(),
            String::new(),
            "C".to_string()
        ])
    );
    let without = ISOPODA.replace("|B01.050.500.131.365.400", "|");
    assert_eq!(concept(&without).tree_codes, None);
    let two = ISOPODA.replace("|B01.050.500.131.365.400", "|x;y");
    assert_eq!(
        concept(&two).tree_codes,
        Some(vec!["x".to_string(), "y".to_string()])
    );
}

#[test]
fn decoding_is_stable() {
    let first = parse_mmi(ISOPODA).unwrap();
    let second = parse_mmi(ISOPODA).unwrap();
    assert_eq!(first, second);
    assert_eq!(format!("{:?}", first), format!("{:?}", second));
}

#[test]
fn positions_of_every_shape() {
    assert_eq!(
        parse_positional_info("5/1").unwrap(),
        vec![Position::new(5, 1, PositionalInfoType::A)]
    );
    assert_eq!(
        parse_positional_info("1/2,3/4;5/6").unwrap(),
        vec![
            Position::new(1, 2, PositionalInfoType::B),
            Position::new(3, 4, PositionalInfoType::B),
            Position::new(5, 6, PositionalInfoType::B)
        ]
    );
    assert_eq!(
        parse_positional_info("[1/2],[3/4];[5/6]").unwrap(),
        vec![
            Position::new(1, 2, PositionalInfoType::C),
            Position::new(3, 4, PositionalInfoType::C),
            Position::new(5, 6, PositionalInfoType::C)
        ]
    );
    assert_eq!(
        parse_positional_info("[1/2,3/4],[5/6,7/8];[9/10,11/12],[13/14,15/16]").unwrap(),
        vec![
            Position::new(1, 2, PositionalInfoType::D),
            Position::new(3, 4, PositionalInfoType::D),
            Position::new(5, 6, PositionalInfoType::D),
            Position::new(7, 8, PositionalInfoType::D),
            Position::new(9, 10, PositionalInfoType::D),
            Position::new(11, 12, PositionalInfoType::D),
            Position::new(13, 14, PositionalInfoType::D),
            Position::new(15, 16, PositionalInfoType::D)
        ]
    );
    // what follows the last comma outside brackets counts only where the
    // entry ends with a closing bracket
    assert_eq!(
        parse_positional_info("[1/2,3/4],[5/6,7/8],9/9").unwrap(),
        vec![
            Position::new(1, 2, PositionalInfoType::D),
            Position::new(3, 4, PositionalInfoType::D),
            Position::new(5, 6, PositionalInfoType::D),
            Position::new(7, 8, PositionalInfoType::D)
        ]
    );
}

#[test]
fn positions_that_are_rejected() {
    assert_eq!(
        rejected(parse_positional_info("[1/2]")),
        (ErrorKind::Classification, "[1/2]".to_string())
    );
    assert_eq!(
        rejected(parse_positional_info("[1/2,3/4]")),
        (ErrorKind::Classification, "[1/2,3/4]".to_string())
    );
    assert_eq!(
        rejected(parse_positional_info("1/2;x/3;y/4")),
        (ErrorKind::IntegerParse, "x".to_string())
    );
    assert_eq!(
        rejected(parse_positional_info("1/2147483648")),
        (ErrorKind::IntegerParse, "2147483648".to_string())
    );
    assert_eq!(
        rejected(parse_positional_info("")),
        (ErrorKind::IntegerParse, String::new())
    );
    assert_eq!(
        rejected(parse_positional_info("1/2/3")),
        (ErrorKind::Shape, "1/2/3".to_string())
    );
    assert_eq!(
        rejected(parse_positional_info("7")),
        (ErrorKind::Shape, "7".to_string())
    );
    assert_eq!(
        rejected(parse_positional_info("[1/2],[3]")),
        (ErrorKind::Shape, "[3]".to_string())
    );
    // a field of shape D that holds no token at all
    assert_eq!(
        rejected(parse_positional_info("[,]],x")),
        (ErrorKind::Shape, "[,]],x".to_string())
    );
}

#[test]
fn bracketed_numbers() {
    assert_eq!(parse_bracketed_info("[4061/10]").unwrap(), vec![4061, 10]);
    assert_eq!(parse_bracketed_info("[[1/2/3]]").unwrap(), vec![1, 2, 3]);
    assert_eq!(parse_bracketed_info("7").unwrap(), vec![7]);
    assert_eq!(parse_bracketed_info("[-7/+8").unwrap(), vec![-7, 8]);
    assert_eq!(
        rejected(parse_bracketed_info("[1/]")),
        (ErrorKind::IntegerParse, String::new())
    );
    assert_eq!(
        rejected(parse_bracketed_info("]1/2[")),
        (ErrorKind::IntegerParse, "]1".to_string())
    );
}

#[test]
fn brackets_and_quotes_are_removed() {
    assert_eq!(without_brackets("[[a]b]]"), "a]b");
    assert_eq!(without_brackets("[[["), "");
    assert_eq!(without_brackets("]]]"), "");
    assert_eq!(without_brackets("[]"), "");
    assert_eq!(without_brackets("]a["), "]a[");
    assert_eq!(without_brackets(""), "");
    assert_eq!(without_quotes("\"a\"b\"\""), "ab");
    assert_eq!(without_quotes(""), "");
    assert_eq!(without_quotes("plain"), "plain");
}

#[test]
fn integers_as_the_standard_library_reads_them() {
    let samples = [
        "0", "7", "-7", "+7", "007", "-0", "+0", "2147483647", "2147483648", "-2147483648",
        "-2147483649", "99999999999999999999", "", "+", "-", "--1", "+-1", "1+", "1 ", " 1",
        "1.0", "1e3", "0x10", "١٢", "12a", "a12", "1_000",
    ];
    for s in samples {
        assert_eq!(parse_i32(s), s.parse::<i32>().ok(), "{:?}", s);
    }
    assert_eq!(parse_i32("-2147483648"), Some(i32::MIN));
    assert_eq!(parse_i32("2147483647"), Some(i32::MAX));
    assert_eq!(parse_i32("124"), Some(124));
}

#[test]
fn floats_as_the_standard_library_reads_them() {
    let samples = [
        "637.30", "0", "1000", "1.", ".5", ".", "", "+", "-", "+.", "-.5", "+1.5", "1e5",
        "1E5", "1e+5", "1e-5", "1e", "1e+", "e5", ".e5", "1.e5", ".5e5", "1.5.2", "1..2",
        "1e5.0", "1e5e5", "inf", "INF", "Inf", "+inf", "-inf", "infinity", "INFINITY",
        "-Infinity", "infinit", "infinityy", "nan", "NaN", "+nan", "-NAN", "na", "nane",
        " 1", "1 ", "1,5", "0x1p3", "1_0", "١", "1e١", "--1", "+-1", "1f64", "abc",
        "00012.5000", "1e0000000000000000000005", "123456789012345678901234567890.5",
    ];
    for s in samples {
        assert_eq!(is_float(s), s.parse::<f64>().is_ok(), "{:?}", s);
    }
    assert!(is_float("637.30"));
    assert!(!is_float("six"));
}

#[test]
fn flags() {
    assert_eq!(parse_bool("1").unwrap(), true);
    assert_eq!(parse_bool("0").unwrap(), false);
    for s in ["", "2", "10", "01", "true", " 1", "1 "] {
        assert_eq!(
            rejected(parse_bool(s)),
            (ErrorKind::BooleanParse, s.to_string())
        );
    }
}

#[test]
fn locations_and_abbreviation_types() {
    for (s, l) in [
        ("TI", Location::TI),
        ("ti", Location::TI),
        ("Ab", Location::AB),
        ("tX", Location::TX),
        ("ti;AB", Location::Tiab),
        ("tI;aB", Location::Tiab),
    ] {
        assert_eq!(Location::from_str(s).unwrap(), l);
    }
    for s in ["", "T", "TIX", "BG", "TI;", "TI,AB", "TIAB", " TI", "t\u{131}"] {
        assert_eq!(
            rejected(Location::from_str(s)),
            (ErrorKind::EnumParse, s.to_string())
        );
    }
    assert_eq!(
        AbbreviationType::from_str("ua").unwrap(),
        AbbreviationType::UA
    );
    assert_eq!(
        rejected(AbbreviationType::from_str("MMI")),
        (ErrorKind::EnumParse, "MMI".to_string())
    );
}

#[test]
fn triggers_strip_quotes_only() {
    let t = Trigger::new("\"a\"b\"", "TX", "-3", "\"x-y\"", "\"noun\"", "1").unwrap();
    assert_eq!(t.name, "ab");
    assert_eq!(t.loc, Location::TX);
    assert_eq!(t.loc_position, -3);
    assert_eq!(t.text, "x-y");
    assert_eq!(t.part_of_speech, "noun");
    assert!(t.negation);
}

#[test]
fn trigger_errors_come_in_order() {
    assert_eq!(
        rejected(Trigger::new("n", "XX", "x", "t", "p", "2")),
        (ErrorKind::EnumParse, "XX".to_string())
    );
    assert_eq!(
        rejected(Trigger::new("n", "ti", "x", "t", "p", "2")),
        (ErrorKind::IntegerParse, "x".to_string())
    );
    assert_eq!(
        rejected(Trigger::new("n", "ti", "1", "t", "p", "2")),
        (ErrorKind::BooleanParse, "2".to_string())
    );
}

#[test]
fn trigger_fields() {
    assert_eq!(parse_triggers("").unwrap(), Vec::<Trigger>::new());
    let two = parse_triggers("[\"a, b\"-ti-1-\"c-d\"-noun-0,\"e\"-ab-2-\"f\"-verb-1]").unwrap();
    assert_eq!(two.len(), 2);
    assert_eq!(two[0].name, "a, b");
    assert_eq!(two[0].text, "c-d");
    assert_eq!(two[1].loc, Location::AB);
    assert_eq!(two[1].loc_position, 2);
    assert!(two[1].negation);
    assert_eq!(
        rejected(parse_triggers("[\"a\"-ti-1-\"c\"-noun]")),
        (ErrorKind::Shape, "[\"a\"-ti-1-\"c\"-noun]".to_string())
    );
    assert_eq!(
        rejected(parse_triggers("[]")),
        (ErrorKind::Shape, "[]".to_string())
    );
    assert_eq!(
        rejected(parse_triggers("[\"a\"-ti-1-\"c\"-noun-0,")),
        (ErrorKind::Shape, String::new())
    );
    assert_eq!(
        rejected(parse_triggers("[\"a\"-ti-1-\"c\"-noun-0,\"a\"-zz-1-\"c\"-noun-0]")),
        (ErrorKind::EnumParse, "zz".to_string())
    );
}

#[test]
fn semantic_types_stand_in_brackets() {
    assert_eq!(parse_semantic_types("[]").unwrap(), vec![""]);
    assert_eq!(parse_semantic_types("[a,,b]").unwrap(), vec!["a", "", "b"]);
    assert_eq!(parse_semantic_types("[[a]]").unwrap(), vec!["[a]"]);
    for s in ["", "[", "]", "euka", "[euka", "euka]", "]["] {
        assert_eq!(
            rejected(parse_semantic_types(s)),
            (ErrorKind::Shape, s.to_string())
        );
    }
}

#[test]
fn labelling_checks_the_number_of_fields() {
    let parts = |n: usize| -> Vec<String> { (0..n).map(|i| i.to_string()).collect() };
    assert_eq!(
        rejected(label_mmi_parts(parts(9))),
        (
            ErrorKind::Arity {
                expected: 10,
                actual: 9
            },
            String::new()
        )
    );
    assert_eq!(
        rejected(label_aa_parts(parts(10))),
        (
            ErrorKind::Arity {
                expected: 9,
                actual: 10
            },
            String::new()
        )
    );
    assert_eq!(
        rejected(label_aa_parts(parts(0))),
        (
            ErrorKind::Arity {
                expected: 9,
                actual: 0
            },
            String::new()
        )
    );
    assert_eq!(
        label_aa_parts(parts(9)).unwrap(),
        AaFields {
            id: "0".to_string(),
            abbreviation_type: "1".to_string(),
            short_form: "2".to_string(),
            long_form: "3".to_string(),
            short_token_count: "4".to_string(),
            short_character_count: "5".to_string(),
            long_token_count: "6".to_string(),
            long_character_count: "7".to_string(),
            positional_info: "8".to_string(),
        }
    );
    let fields = label_mmi_parts(parts(10)).unwrap();
    assert_eq!(fields.id, "0");
    assert_eq!(fields.tree_codes, "9");
}

#[test]
fn concept_record_errors_come_in_order() {
    let line = |score: &str, types: &str, triggers: &str, location: &str, positions: &str| {
        format!(
            "1|MMI|{}|name|cui|{}|{}|{}|{}|",
            score, types, triggers, location, positions
        )
    };
    let good_trigger = "[\"a\"-ti-1-\"a\"-noun-0]";
    assert!(parse_mmi(&line("1.5", "[x]", good_trigger, "TI", "1/2")).is_ok());
    assert_eq!(
        rejected(parse_mmi(&line("x", "y", "z", "w", "v"))),
        (ErrorKind::FloatParse, "x".to_string())
    );
    assert_eq!(
        rejected(parse_mmi(&line("1", "y", "z", "w", "v"))),
        (ErrorKind::Shape, "y".to_string())
    );
    assert_eq!(
        rejected(parse_mmi(&line("1", "[y]", "z", "w", "v"))),
        (ErrorKind::Shape, "z".to_string())
    );
    assert_eq!(
        rejected(parse_mmi(&line("1", "[y]", good_trigger, "w", "v"))),
        (ErrorKind::EnumParse, "w".to_string())
    );
    assert_eq!(
        rejected(parse_mmi(&line("1", "[y]", good_trigger, "ab", "v"))),
        (ErrorKind::IntegerParse, "v".to_string())
    );
    assert_eq!(
        rejected(parse_mmi(&line("1", "[y]", good_trigger, "ab", "7"))),
        (ErrorKind::Shape, "7".to_string())
    );
    assert_eq!(
        rejected(parse_mmi(&line("1", "[y]", "", "ab", "[1/2]"))),
        (ErrorKind::Classification, "[1/2]".to_string())
    );
    let no_triggers = concept(&line("1", "[y]", "", "ab", "1/2"));
    assert!(no_triggers.triggers.is_empty());
    assert!(no_triggers.semantic_types.len() >= 1);
    assert!(no_triggers.positional_info.len() >= 1);
}

#[test]
fn abbreviation_record_errors_come_in_order() {
    let line = |a: &str, b: &str, c: &str, d: &str, p: &str| {
        format!("1|AA|s|l|{}|{}|{}|{}|{}", a, b, c, d, p)
    };
    assert!(parse_mmi(&line("1", "2", "3", "4", "5:6")).is_ok());
    assert_eq!(
        rejected(parse_mmi(&line("a", "b", "c", "d", "e"))),
        (ErrorKind::IntegerParse, "a".to_string())
    );
    assert_eq!(
        rejected(parse_mmi(&line("1", "b", "c", "d", "e"))),
        (ErrorKind::IntegerParse, "b".to_string())
    );
    assert_eq!(
        rejected(parse_mmi(&line("1", "2", "c", "d", "e"))),
        (ErrorKind::IntegerParse, "c".to_string())
    );
    assert_eq!(
        rejected(parse_mmi(&line("1", "2", "3", "d", "e"))),
        (ErrorKind::IntegerParse, "d".to_string())
    );
    assert_eq!(
        rejected(parse_mmi(&line("1", "2", "3", "4", "e"))),
        (ErrorKind::Shape, "e".to_string())
    );
    assert_eq!(
        rejected(parse_mmi(&line("1", "2", "3", "4", "5:6:7"))),
        (ErrorKind::Shape, "5:6:7".to_string())
    );
    assert_eq!(
        rejected(parse_mmi(&line("1", "2", "3", "4", "x:6"))),
        (ErrorKind::IntegerParse, "x".to_string())
    );
    assert_eq!(
        rejected(parse_mmi(&line("1", "2", "3", "4", "5:"))),
        (ErrorKind::IntegerParse, String::new())
    );
    assert_eq!(
        rejected(AaPosInfo::new("1", "y")),
        (ErrorKind::IntegerParse, "y".to_string())
    );
    assert_eq!(
        AaPosInfo::new("9362", "2").unwrap(),
        AaPosInfo {
            start: 9362,
            length: 2
        }
    );
}

#[test]
fn error_message() {
    let e = ValueError::new(ErrorKind::Shape, "x");
    assert_eq!(e.kind, ErrorKind::Shape);
    assert_eq!(e.text, "x");
    assert_eq!(e.message(), "Received an unexpected value");
    assert_eq!(ValueError::bare(ErrorKind::UnknownKind).text, "");
}
