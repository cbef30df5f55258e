use mmi_parser::{
    categorize_positional_info, label_mmi_parts, parse_bool, parse_mmi, parse_positional_info,
    parse_semantic_types, parse_tree_codes, parse_triggers, split_text,
    split_with_bracket_context, split_with_quote_context, tag_pos_info, AbbreviationType,
    Location, MmiFields, MmiOutput, Output, Position, PositionalInfoType, Trigger,
};

fn isopoda_fields() -> MmiFields {
    MmiFields {
        id: "24119710".to_string(),
        mmi: "MMI".to_string(),
        score: "637.30".to_string(),
        name: "Isopoda".to_string(),
        cui: "C0598806".to_string(),
        semantic_types: "[euka]".to_string(),
        triggers: "[\"Isopod\"-ab-1-\"isopod\"-adj-0,\"Isopoda\"-ti-1-\"Isopoda\"-noun-0]"
            .to_string(),
        location: "TI;AB".to_string(),
        positional_info: "228/6;136/7".to_string(),
        tree_codes: "B01.050.500.131.365.400".to_string(),
    }
}

fn isopoda_record(id: &str) -> MmiOutput {
    MmiOutput {
        id: id.to_string(),
        mmi: "MMI".to_string(),
        score: "637.30".to_string(),
        name: "Isopoda".to_string(),
        cui: "C0598806".to_string(),
        semantic_types: vec!["euka".to_string()],
        triggers: vec![
            Trigger {
                name: "Isopod".to_string(),
                loc: Location::AB,
                loc_position: 1,
                text: "isopod".to_string(),
                part_of_speech: "adj".to_string(),
                negation: false,
            },
            Trigger {
                name: "Isopoda".to_string(),
                loc: Location::TI,
                loc_position: 1,
                text: "Isopoda".to_string(),
                part_of_speech: "noun".to_string(),
                negation: false,
            },
        ],
        location: Location::Tiab,
        positional_info: vec![
            Position {
                start: 228,
                length: 6,
                case: PositionalInfoType::A,
            },
            Position {
                start: 136,
                length: 7,
                case: PositionalInfoType::A,
            },
        ],
        tree_codes: Some(vec!["B01.050.500.131.365.400".to_string()]),
    }
}

#[test]
fn test_parse_bool() {
    assert!(parse_bool("1").unwrap());
    assert!(!parse_bool("0").unwrap());
}

#[test]
#[should_panic]
fn test_invalid_parse_bool() {
    parse_bool("123").unwrap();
}

#[test]
fn test_split_with_bracket_context() {
    let s1 = "[4061/10,4075/11],[4061/10,4075/11]";
    let r1 = split_with_bracket_context(s1);
    assert_eq!(r1, vec!["[4061/10,4075/11]", "[4061/10,4075/11]"])
}

#[test]
fn test_pos_info_categorization() {
    let s1 = "[4061/10,4075/11],[4061/10,4075/11]";
    let r1 = tag_pos_info(s1);
    let cat = categorize_positional_info(r1.0, r1.1, r1.2).unwrap();

    assert_eq!(r1, (true, true, true));
    assert_eq!(cat, PositionalInfoType::D);

    let s1 = "117/5;122/4";
    let r1 = tag_pos_info(s1);
    let cat = categorize_positional_info(r1.0, r1.1, r1.2).unwrap();

    assert_eq!(r1, (false, false, false));
    assert_eq!(cat, PositionalInfoType::A);

    let s1 = "117/5";
    let r1 = tag_pos_info(s1);
    let cat = categorize_positional_info(r1.0, r1.1, r1.2).unwrap();

    assert_eq!(r1, (false, false, false));
    assert_eq!(cat, PositionalInfoType::A);

    let s1 = "117/5,122/4,113/2";
    let r1 = tag_pos_info(s1);
    let cat = categorize_positional_info(r1.0, r1.1, r1.2).unwrap();

    assert_eq!(r1, (false, false, true));
    assert_eq!(cat, PositionalInfoType::B);

    let s1 = "[122/4],[117/6]";
    let r1 = tag_pos_info(s1);
    let cat = categorize_positional_info(r1.0, r1.1, r1.2).unwrap();

    assert_eq!(r1, (true, false, true));
    assert_eq!(cat, PositionalInfoType::C);
}

#[test]
fn test_quote_splitter() {
    let sample = "[\"Drug, NOS\"-tx-33-\"medicine\"-noun-0,\"Drug, NOS\"-tx-31-\"medicine\"-noun-0,\"Drug - NOS\"-tx-29-\"medication\"-noun-0,\"Drug, NOS\"-tx-5-\"drug\"-noun-0]";
    let r = split_with_quote_context(sample, ',');
    assert_eq!(r.len(), 4);
    for x in r {
        let r2 = split_with_quote_context(&x, '-');
        assert_eq!(6, r2.len()); // sextuple
    }
}

#[test]
fn test_split_text() {
    let sample = "24119710|MMI|637.30|Isopoda|C0598806|[euka]|";
    assert_eq!(
        split_text(sample),
        ["24119710", "MMI", "637.30", "Isopoda", "C0598806", "[euka]", ""]
    );
}

#[test]
fn test_name_parts() {
    let sample = "24119710|MMI|637.30|Isopoda|C0598806|[euka]|[\"Isopod\"-ab-1-\"isopod\"-adj-0,\"Isopoda\"-ti-1-\"Isopoda\"-noun-0]|TI;AB|228/6;136/7|B01.050.500.131.365.400";
    assert_eq!(
        label_mmi_parts(split_text(sample)).unwrap(),
        isopoda_fields()
    );
}

#[test]
fn test_parse_semantic_types() {
    let sample = "[euka,helalo]";
    assert_eq!(parse_semantic_types(sample).unwrap(), ["euka", "helalo"]);
}

#[test]
fn test_location() {
    let sample = "ti";
    assert_eq!(
        Location::from_str(sample.to_uppercase().as_str()).unwrap(),
        Location::TI
    );
    let sample = "AB";
    assert_eq!(Location::from_str(sample).unwrap(), Location::AB);
    let sample = "TX";
    assert_eq!(Location::from_str(sample).unwrap(), Location::TX);
    let sample = "TI;AB";
    assert_eq!(Location::from_str(sample).unwrap(), Location::Tiab);
}

#[test]
#[should_panic]
fn test_invalid_location() {
    let sample = "BG";
    assert_eq!(Location::from_str(sample).unwrap(), Location::Tiab);
}

#[test]
fn test_parse_tree_codes() {
    let sample = "";
    assert_eq!(parse_tree_codes(sample), None);
    let sample = "B01.050.500.131.365.400";
    assert_eq!(
        parse_tree_codes(sample),
        Some(vec![String::from("B01.050.500.131.365.400")])
    );
    let sample = "B01.050.500.131.365.400;B01.050.500.131.365.400";
    assert_eq!(
        parse_tree_codes(sample),
        Some(vec![
            "B01.050.500.131.365.400".to_string(),
            "B01.050.500.131.365.400".to_string()
        ])
    );
}

#[test]
fn test_parse_positional_info() {
    let sample = "228/6;136/7";
    assert_eq!(
        parse_positional_info(sample).unwrap(),
        vec![
            Position::new(228, 6, PositionalInfoType::A),
            Position::new(136, 7, PositionalInfoType::A)
        ]
    );
    let s1 = "[4061/10,4075/11],[4061/10,4075/11]";
    assert_eq!(
        parse_positional_info(s1).unwrap(),
        vec![
            Position::new(4061, 10, PositionalInfoType::D),
            Position::new(4075, 11, PositionalInfoType::D),
            Position::new(4061, 10, PositionalInfoType::D),
            Position::new(4075, 11, PositionalInfoType::D),
        ]
    );
    let s1 = "7059/5,7073/5";
    assert_eq!(
        parse_positional_info(s1).unwrap(),
        vec![
            Position::new(7059, 5, PositionalInfoType::B),
            Position::new(7073, 5, PositionalInfoType::B),
        ]
    );
    let s1 = "[1351/8],[1437/8]";
    assert_eq!(
        parse_positional_info(s1).unwrap(),
        vec![
            Position::new(1351, 8, PositionalInfoType::C),
            Position::new(1437, 8, PositionalInfoType::C),
        ]
    );
}

#[test]
fn test_new_trigger() {
    let t = ("hi", "tI;aB", "124", "fun times", "testing stuff", "1");
    let tt = Trigger::new(t.0, t.1, t.2, t.3, t.4, t.5).unwrap();
    let actual_tt = Trigger {
        name: String::from("hi"),
        loc: Location::Tiab,
        loc_position: 124,
        text: "fun times".to_string(),
        part_of_speech: "testing stuff".to_string(),
        negation: true,
    };
    assert_eq!(tt, actual_tt);
}

#[test]
fn test_parse_triggers() {
    let sample = "[\"Crustacea\"-ti-1-\"Crustacea\"-noun-0]";
    let result = parse_triggers(sample).unwrap();
    assert_eq!(
        result,
        [Trigger {
            name: "Crustacea".to_string(),
            loc: Location::TI,
            loc_position: 1,
            text: "Crustacea".to_string(),
            part_of_speech: "noun".to_string(),
            negation: false
        }]
    );
}

#[test]
fn test_new_mmi() {
    let expected = isopoda_record("24119710");
    assert_eq!(expected.score.parse::<f64>().unwrap(), 637.30);
    assert_eq!(expected, MmiOutput::new(isopoda_fields()).unwrap());
}

#[test]
fn test_parse_mmi_for_mmi() {
    let s1 = "3124119710|MMI|637.30|Isopoda|C0598806|[euka]|[\"Isopod\"-ab-1-\"isopod\"-adj-0,\"Isopoda\"-ti-1-\"Isopoda\"-noun-0]|TI;AB|228/6;136/7|B01.050.500.131.365.400";
    let expected = isopoda_record("3124119710");
    let parsed = match parse_mmi(s1).unwrap() {
        Output::MMI(x) => x,
        _ => panic!("stuff"),
    };
    assert_eq!(parsed.score.parse::<f64>().unwrap(), 637.3);
    assert_eq!(parsed, expected);
}

#[test]
fn test_parse_mmi_for_aa() {
    let s1 = "23074487|AA|FY|fiscal years|1|2|3|12|9362:2";
    let expected = match parse_mmi(s1).unwrap() {
        Output::AA(x) => x,
        _ => panic!("stuff"),
    };
    println!("{:?}", expected);
}

#[test]
#[should_panic]
fn test_panic_parse_mmi() {
    let s1 = "asda|fake|other stuff|";
    parse_mmi(s1).unwrap();
}

#[test]
fn test_abbreviation_type() {
    assert_eq!(
        AbbreviationType::AA,
        AbbreviationType::from_str("AA").unwrap()
    );
    assert_eq!(
        AbbreviationType::UA,
        AbbreviationType::from_str("UA").unwrap()
    );
    assert!(AbbreviationType::from_str("asfnkjsanf").is_err())
}
