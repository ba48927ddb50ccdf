use cirno::error::CirnoError;
use cirno::parser::{
    consume_until_ender, expect_number, expect_token, object_default, parse, parse_attribute,
    parse_attribute_color, parse_attribute_value, parse_object, tokenize, Lexeme, Lexer, Token,
};
use cirno::project::{
    Attribute, Chip, Color, Meta, Net, ObjectEnum, Pin, Region, Value, Vector2, Voltage, Wire,
};

fn kinds(line: &str) -> Vec<Option<Token>> {
    let chars: Vec<char> = line.chars().collect();
    tokenize(&chars).into_iter().map(|l| l.token).collect()
}

fn slices(line: &str) -> Vec<String> {
    let chars: Vec<char> = line.chars().collect();
    tokenize(&chars).into_iter().map(|l| l.text).collect()
}

#[test]
fn the_lexer_tells_the_five_kinds_apart() {
    assert_eq!(
        kinds(":pin label 'a1 value and 'b 'c ."),
        vec![
            Some(Token::Separator),
            Some(Token::Keyword),
            Some(Token::Keyword),
            Some(Token::Identifier),
            Some(Token::Keyword),
            Some(Token::Keyword),
            Some(Token::Identifier),
            Some(Token::Identifier),
            Some(Token::Ender),
        ]
    );
    assert_eq!(
        slices(":chip type gates/and2 pos 12 3"),
        vec![":", "chip", "type", "gates/and2", "pos", "12", "3"]
    );
    assert_eq!(kinds("12 007"), vec![Some(Token::Number), Some(Token::Number)]);
}

#[test]
fn the_lexer_skips_blanks_and_takes_the_longest_token() {
    assert_eq!(slices(" \t:\x0c\n meta  "), vec![":", "meta"]);
    assert_eq!(slices("12ab/3"), vec!["12", "ab/3"]);
    assert_eq!(kinds("12ab/3"), vec![Some(Token::Number), Some(Token::Keyword)]);
    assert_eq!(slices("'ab'cd"), vec!["'ab", "'cd"]);
    assert_eq!(slices("::.."), vec![":", ":", ".", "."]);
    assert_eq!(kinds(""), vec![]);
    assert_eq!(kinds("   "), vec![]);
}

#[test]
fn the_lexer_stops_at_a_character_that_starts_no_token() {
    assert_eq!(kinds(":pin !x y"), vec![Some(Token::Separator), Some(Token::Keyword), None]);
    assert_eq!(slices(":pin !x y"), vec![":", "pin", "!"]);
    assert_eq!(kinds("'"), vec![None]);
    assert_eq!(kinds("' a"), vec![None]);
    assert_eq!(kinds("'A"), vec![None]);
    assert_eq!(kinds("Abc"), vec![None]);
    assert_eq!(kinds("a\rb"), vec![Some(Token::Keyword), None]);
    assert_eq!(kinds("'x/y"), vec![Some(Token::Identifier), None]);
}

#[test]
fn end_to_end_source_parses_to_three_objects() {
    let objects = parse(":meta bounds 10 5\n:net type vcc y 0\n:net type gnd y 4").unwrap();
    assert_eq!(objects.len(), 3);
    assert_eq!(objects[0], ObjectEnum::Meta(Meta { bounds: Vector2 { x: 10, y: 5 } }));
    assert_eq!(
        objects[1],
        ObjectEnum::Net(Net {
            t: "vcc".to_string(),
            region: Region { position: Vector2 { x: 0, y: 0 }, size: Vector2 { x: 0, y: 0 } },
        })
    );
    assert_eq!(
        objects[2],
        ObjectEnum::Net(Net {
            t: "gnd".to_string(),
            region: Region { position: Vector2 { x: 0, y: 4 }, size: Vector2 { x: 0, y: 0 } },
        })
    );
}

#[test]
fn every_kind_of_object_parses() {
    let source = ":meta bounds 20 10\n\
                  :chip type gates/and2 pos 3 4\n\
                  :net type gnd y 9\n\
                  :pin label 'q value or 'a 'b .\n\
                  :wire color cyan from 1 2 to 3 4\n";
    let objects = parse(source).unwrap();
    assert_eq!(objects.len(), 5);
    assert_eq!(
        objects[1],
        ObjectEnum::Chip(Chip {
            t: "gates/and2".to_string(),
            region: Region { position: Vector2 { x: 3, y: 4 }, size: Vector2 { x: 0, y: 0 } },
        })
    );
    assert_eq!(
        objects[3],
        ObjectEnum::Pin(Pin {
            label: "'q".to_string(),
            value: Value::Or(vec!["'a".to_string(), "'b".to_string()]),
            region: Region { position: Vector2 { x: 0, y: 0 }, size: Vector2 { x: 0, y: 0 } },
            voltage: Voltage::Floating,
        })
    );
    assert_eq!(
        objects[4],
        ObjectEnum::Wire(Wire {
            color: Color::Cyan,
            from: Vector2 { x: 1, y: 2 },
            to: Vector2 { x: 3, y: 4 },
            label: 'a',
        })
    );
}

#[test]
fn empty_lines_and_carriage_returns_are_passed_over() {
    let objects = parse("\n\n:meta bounds 3 3\r\n\r\n:pin\n\n").unwrap();
    assert_eq!(objects.len(), 2);
    assert_eq!(parse("").unwrap().len(), 0);
    assert_eq!(parse("\n\r\n\n").unwrap().len(), 0);
    // a carriage return that no line feed follows stays in the line
    assert_eq!(parse(":pin\r"), Err(CirnoError::UnrecognizedToken));
    // in front of the line feed only the last one is taken off
    assert_eq!(parse(":pin\r\r\n"), Err(CirnoError::UnrecognizedToken));
}

#[test]
fn a_line_has_to_start_with_a_separator_and_a_kind() {
    assert_eq!(parse("meta bounds 1 1"), Err(CirnoError::UnexpectedToken(Token::Separator, Token::Keyword)));
    assert_eq!(parse("   "), Err(CirnoError::OutOfTokens(Token::Separator)));
    assert_eq!(parse(":"), Err(CirnoError::OutOfTokens(Token::Keyword)));
    assert_eq!(parse(": 12"), Err(CirnoError::UnexpectedToken(Token::Keyword, Token::Number)));
    assert_eq!(parse(":resistor"), Err(CirnoError::InvalidObjectType("resistor".to_string())));
    assert_eq!(parse("?"), Err(CirnoError::UnrecognizedToken));
    assert_eq!(parse(":?"), Err(CirnoError::UnrecognizedToken));
}

#[test]
fn the_first_line_with_an_error_decides() {
    assert_eq!(
        parse(":meta bounds 4 4\n:bogus\n:pin colour"),
        Err(CirnoError::InvalidObjectType("bogus".to_string()))
    );
    assert_eq!(
        parse(":meta bounds 4 4\n:pin colour\n:bogus"),
        Err(CirnoError::InvalidAttribute("colour".to_string()))
    );
}

#[test]
fn numbers_are_checked() {
    assert_eq!(parse(":meta bounds 65535 1").unwrap().len(), 1);
    assert_eq!(
        parse(":meta bounds 65536 1"),
        Err(CirnoError::InvalidValueForAttribute("65536".to_string(), "bounds".to_string()))
    );
    assert_eq!(
        parse(":net type vcc y 99999999999999999999999"),
        Err(CirnoError::InvalidValueForAttribute(
            "99999999999999999999999".to_string(),
            "y".to_string()
        ))
    );
    assert_eq!(
        parse(":meta bounds 0005 0000000000000000000007").unwrap()[0],
        ObjectEnum::Meta(Meta { bounds: Vector2 { x: 5, y: 7 } })
    );
    assert_eq!(parse(":meta bounds 1"), Err(CirnoError::OutOfTokensExpectedNumber));
    assert_eq!(parse(":meta bounds"), Err(CirnoError::OutOfTokensExpectedNumber));
    assert_eq!(
        parse(":meta bounds 1 x"),
        Err(CirnoError::UnexpectedTokenExpectedNumber(Token::Keyword))
    );
    assert_eq!(
        parse(":meta bounds . 1"),
        Err(CirnoError::UnexpectedTokenExpectedNumber(Token::Ender))
    );
    assert_eq!(parse(":meta bounds 1 -1"), Err(CirnoError::UnrecognizedToken));
}

#[test]
fn attributes_are_checked_against_the_kind_of_object() {
    assert_eq!(
        parse(":meta pos 1 2"),
        Err(CirnoError::InvalidAttributeForObject(
            Attribute::Position(Vector2 { x: 1, y: 2 }),
            "meta".to_string()
        ))
    );
    assert_eq!(
        parse(":chip type a bounds 1 2"),
        Err(CirnoError::InvalidAttributeForObject(
            Attribute::Bounds(Vector2 { x: 1, y: 2 }),
            "chip".to_string()
        ))
    );
    assert_eq!(
        parse(":net type vcc label 'a"),
        Err(CirnoError::InvalidAttributeForObject(
            Attribute::Label("'a".to_string()),
            "net".to_string()
        ))
    );
    assert_eq!(
        parse(":pin num 3"),
        Err(CirnoError::InvalidAttributeForObject(Attribute::Num(3), "pin".to_string()))
    );
    assert_eq!(
        parse(":wire value vcc"),
        Err(CirnoError::InvalidAttributeForObject(
            Attribute::Value(Value::Vcc),
            "wire".to_string()
        ))
    );
    assert_eq!(
        parse(":pin y 3"),
        Err(CirnoError::InvalidAttributeForObject(Attribute::YCoordinate(3), "pin".to_string()))
    );
    assert_eq!(
        parse(":pin color red"),
        Err(CirnoError::InvalidAttributeForObject(
            Attribute::Color(Color::Red),
            "pin".to_string()
        ))
    );
}

#[test]
fn the_name_of_an_attribute_is_a_keyword() {
    assert_eq!(parse(":pin 12"), Err(CirnoError::UnexpectedToken(Token::Keyword, Token::Number)));
    assert_eq!(
        parse(":pin 'a"),
        Err(CirnoError::UnexpectedToken(Token::Keyword, Token::Identifier))
    );
    assert_eq!(parse(":pin ."), Err(CirnoError::UnexpectedToken(Token::Keyword, Token::Ender)));
    assert_eq!(parse(":pin !"), Err(CirnoError::UnrecognizedToken));
    assert_eq!(parse(":pin size"), Err(CirnoError::InvalidAttribute("size".to_string())));
}

#[test]
fn colors_types_and_labels_are_read() {
    for (name, color) in [
        ("red", Color::Red),
        ("green", Color::Green),
        ("yellow", Color::Yellow),
        ("blue", Color::Blue),
        ("magenta", Color::Magenta),
        ("cyan", Color::Cyan),
    ] {
        assert_eq!(parse_attribute_color(name), Ok(color));
    }
    assert_eq!(
        parse_attribute_color("white"),
        Err(CirnoError::InvalidColorAttribute("white".to_string()))
    );
    assert_eq!(
        parse(":wire color pink from 0 0 to 1 1"),
        Err(CirnoError::InvalidColorAttribute("pink".to_string()))
    );
    assert_eq!(
        parse(":wire color 3"),
        Err(CirnoError::UnexpectedToken(Token::Keyword, Token::Number))
    );
    assert_eq!(parse(":wire color"), Err(CirnoError::OutOfTokens(Token::Keyword)));
    assert_eq!(
        parse(":pin label a"),
        Err(CirnoError::UnexpectedToken(Token::Identifier, Token::Keyword))
    );
    assert_eq!(parse(":pin label"), Err(CirnoError::OutOfTokens(Token::Identifier)));
    assert_eq!(
        parse(":chip type 'a"),
        Err(CirnoError::UnexpectedToken(Token::Keyword, Token::Identifier))
    );
}

#[test]
fn values_are_read() {
    let mut lexer = Lexer::new("'a b 12 : . 'rest");
    assert_eq!(
        parse_attribute_value("and", &mut lexer),
        Ok(Value::And(vec![
            "'a".to_string(),
            "b".to_string(),
            "12".to_string(),
            ":".to_string()
        ]))
    );
    assert_eq!(lexer.position, 5);
    let mut lexer = Lexer::new("'a 'b");
    assert_eq!(
        parse_attribute_value("or", &mut lexer),
        Ok(Value::Or(vec!["'a".to_string(), "'b".to_string()]))
    );
    assert_eq!(lexer.position, 2);
    let mut lexer = Lexer::new(".");
    assert_eq!(parse_attribute_value("and", &mut lexer), Ok(Value::And(vec![])));
    let mut lexer = Lexer::new("'a");
    assert_eq!(parse_attribute_value("gnd", &mut lexer), Ok(Value::Gnd));
    assert_eq!(lexer.position, 0);
    assert_eq!(parse_attribute_value("vcc", &mut lexer), Ok(Value::Vcc));
    assert_eq!(
        parse_attribute_value("xor", &mut lexer),
        Err(CirnoError::InvalidValueAttribute("xor".to_string()))
    );
    let mut lexer = Lexer::new("'a ? .");
    assert_eq!(parse_attribute_value("and", &mut lexer), Err(CirnoError::UnrecognizedToken));
    assert_eq!(
        parse(":pin value and 'a . label 'b").unwrap()[0],
        ObjectEnum::Pin(Pin {
            label: "'b".to_string(),
            value: Value::And(vec!["'a".to_string()]),
            region: Region { position: Vector2 { x: 0, y: 0 }, size: Vector2 { x: 0, y: 0 } },
            voltage: Voltage::Floating,
        })
    );
    assert_eq!(parse(":pin value"), Err(CirnoError::OutOfTokens(Token::Keyword)));
}

#[test]
fn the_helpers_move_the_cursor_over_what_they_read() {
    let mut lexer = Lexer::new("12 abc 'x");
    assert_eq!(expect_number(&mut lexer, "pos"), Ok(12));
    assert_eq!(lexer.position, 1);
    assert_eq!(expect_token(&mut lexer, Token::Keyword), Ok("abc".to_string()));
    assert_eq!(expect_token(&mut lexer, Token::Identifier), Ok("'x".to_string()));
    assert_eq!(expect_token(&mut lexer, Token::Ender), Err(CirnoError::OutOfTokens(Token::Ender)));
    assert_eq!(expect_number(&mut lexer, "pos"), Err(CirnoError::OutOfTokensExpectedNumber));
    let mut lexer = Lexer::new("1 2 rest");
    assert_eq!(
        parse_attribute("from", &mut lexer),
        Ok(Attribute::From(Vector2 { x: 1, y: 2 }))
    );
    assert_eq!(lexer.position, 2);
    let mut lexer = Lexer::new("'a 'b . x");
    assert_eq!(consume_until_ender(&mut lexer), Ok(vec!["'a".to_string(), "'b".to_string()]));
    assert_eq!(lexer.position, 3);
    assert_eq!(lexer.next(), Some(Lexeme { token: Some(Token::Keyword), text: "x".to_string() }));
    assert_eq!(lexer.next(), None);
}

#[test]
fn an_empty_numeric_text_is_no_number() {
    let mut lexer = Lexer {
        tokens: vec![Lexeme { token: Some(Token::Number), text: String::new() }],
        position: 0,
    };
    assert_eq!(
        expect_number(&mut lexer, "y"),
        Err(CirnoError::InvalidValueForAttribute(String::new(), "y".to_string()))
    );
}

#[test]
fn a_finished_object_is_checked_by_itself() {
    assert_eq!(parse(":chip pos 1 1"), Err(CirnoError::MissingAttribute("chip type".to_string())));
    assert_eq!(parse(":meta"), Err(CirnoError::MissingAttribute("bounds".to_string())));
    assert_eq!(parse(":meta bounds 0 0"), Err(CirnoError::MissingAttribute("bounds".to_string())));
    assert_eq!(
        parse(":meta bounds 0 4"),
        Err(CirnoError::NamelessInvalidValueForAttribute("bounds".to_string()))
    );
    assert_eq!(
        parse(":meta bounds 4 0"),
        Err(CirnoError::NamelessInvalidValueForAttribute("bounds".to_string()))
    );
    assert_eq!(parse(":net y 3"), Err(CirnoError::MissingAttribute("net type".to_string())));
    assert_eq!(
        parse(":net type vdd y 3"),
        Err(CirnoError::InvalidValueForAttribute("vdd".to_string(), "net type".to_string()))
    );
    assert_eq!(parse(":wire color red"), Err(CirnoError::InvalidWire));
    assert_eq!(parse(":wire from 2 3 to 2 3"), Err(CirnoError::InvalidWire));
    assert_eq!(parse(":pin").unwrap(), vec![ObjectEnum::Pin(Pin::default())]);
}

#[test]
fn objects_start_from_their_defaults() {
    assert_eq!(object_default("chip"), Ok(ObjectEnum::Chip(Chip::default())));
    assert_eq!(object_default("meta"), Ok(ObjectEnum::Meta(Meta::default())));
    assert_eq!(object_default("net"), Ok(ObjectEnum::Net(Net::default())));
    assert_eq!(object_default("pin"), Ok(ObjectEnum::Pin(Pin::default())));
    assert_eq!(object_default("wire"), Ok(ObjectEnum::Wire(Wire::default())));
    assert_eq!(object_default("Wire"), Err(CirnoError::InvalidObjectType("Wire".to_string())));
    assert_eq!(Wire::default().label, 'a');
    assert_eq!(Wire::default().color, Color::Red);
    let mut lexer = Lexer::new("type vcc y 2");
    assert_eq!(
        parse_object("net", &mut lexer),
        Ok(ObjectEnum::Net(Net {
            t: "vcc".to_string(),
            region: Region { position: Vector2 { x: 0, y: 2 }, size: Vector2 { x: 0, y: 0 } },
        }))
    );
}

#[test]
fn a_later_attribute_replaces_an_earlier_one() {
    assert_eq!(
        parse(":meta bounds 1 1 bounds 7 8").unwrap()[0],
        ObjectEnum::Meta(Meta { bounds: Vector2 { x: 7, y: 8 } })
    );
}

#[test]
fn an_unknown_attribute_reads_no_token() {
    let mut lexer = Lexer::new("size 1 2");
    lexer.position = 1;
    assert_eq!(
        parse_attribute("size", &mut lexer),
        Err(CirnoError::InvalidAttribute("size".to_string()))
    );
    assert_eq!(lexer.position, 1);
    let mut lexer = Lexer::new("");
    assert_eq!(parse_attribute("", &mut lexer), Err(CirnoError::InvalidAttribute(String::new())));
    assert_eq!(lexer.position, 0);
    let mut lexer = Lexer::new("'a 'b .");
    assert_eq!(
        parse_attribute_value("xor", &mut lexer),
        Err(CirnoError::InvalidValueAttribute("xor".to_string()))
    );
    assert_eq!(lexer.position, 0);
    let mut lexer = Lexer::new("type a");
    assert_eq!(
        parse_object("resistor", &mut lexer),
        Err(CirnoError::InvalidObjectType("resistor".to_string()))
    );
    assert_eq!(lexer.position, 0);
}

#[test]
fn a_failed_read_stops_behind_the_token_that_it_looked_at() {
    // one token asked for: it is read, whatever it is
    let mut lexer = Lexer::new("abc 12");
    assert_eq!(
        expect_number(&mut lexer, "y"),
        Err(CirnoError::UnexpectedTokenExpectedNumber(Token::Keyword))
    );
    assert_eq!(lexer.position, 1);
    assert_eq!(
        expect_token(&mut lexer, Token::Keyword),
        Err(CirnoError::UnexpectedToken(Token::Keyword, Token::Number))
    );
    assert_eq!(lexer.position, 2);
    assert_eq!(expect_token(&mut lexer, Token::Keyword), Err(CirnoError::OutOfTokens(Token::Keyword)));
    assert_eq!(lexer.position, 2);
    assert_eq!(expect_number(&mut lexer, "y"), Err(CirnoError::OutOfTokensExpectedNumber));
    assert_eq!(lexer.position, 2);
    let mut lexer = Lexer::new("70000 ?");
    assert_eq!(
        expect_number(&mut lexer, "y"),
        Err(CirnoError::InvalidValueForAttribute("70000".to_string(), "y".to_string()))
    );
    assert_eq!(lexer.position, 1);
    assert_eq!(expect_number(&mut lexer, "y"), Err(CirnoError::UnrecognizedToken));
    assert_eq!(lexer.position, 2);
    // a cell: behind the token that is no number
    let mut lexer = Lexer::new("x 2 3");
    assert_eq!(
        parse_attribute("pos", &mut lexer),
        Err(CirnoError::UnexpectedTokenExpectedNumber(Token::Keyword))
    );
    assert_eq!(lexer.position, 1);
    let mut lexer = Lexer::new("1 x 3");
    assert_eq!(
        parse_attribute("to", &mut lexer),
        Err(CirnoError::UnexpectedTokenExpectedNumber(Token::Keyword))
    );
    assert_eq!(lexer.position, 2);
    let mut lexer = Lexer::new("1");
    assert_eq!(parse_attribute("bounds", &mut lexer), Err(CirnoError::OutOfTokensExpectedNumber));
    assert_eq!(lexer.position, 1);
    // a color that is none: its name is read
    let mut lexer = Lexer::new("pink 1");
    assert_eq!(
        parse_attribute("color", &mut lexer),
        Err(CirnoError::InvalidColorAttribute("pink".to_string()))
    );
    assert_eq!(lexer.position, 1);
    // a value: the kind is read, and a list up to the token that is none
    let mut lexer = Lexer::new("xor 'a .");
    assert_eq!(
        parse_attribute("value", &mut lexer),
        Err(CirnoError::InvalidValueAttribute("xor".to_string()))
    );
    assert_eq!(lexer.position, 1);
    let mut lexer = Lexer::new("and 'a ? 'b .");
    assert_eq!(parse_attribute("value", &mut lexer), Err(CirnoError::UnrecognizedToken));
    assert_eq!(lexer.position, 3);
    let mut lexer = Lexer::new("'a ? .");
    assert_eq!(consume_until_ender(&mut lexer), Err(CirnoError::UnrecognizedToken));
    assert_eq!(lexer.position, 2);
    let mut lexer = Lexer::new("'a 'b");
    assert_eq!(consume_until_ender(&mut lexer), Ok(vec!["'a".to_string(), "'b".to_string()]));
    assert_eq!(lexer.position, 2);
}

#[test]
fn an_object_is_read_up_to_its_first_error() {
    let mut lexer = Lexer::new("type vcc 12 y 3");
    assert_eq!(
        parse_object("net", &mut lexer),
        Err(CirnoError::UnexpectedToken(Token::Keyword, Token::Number))
    );
    assert_eq!(lexer.position, 3);
    let mut lexer = Lexer::new("type vcc label 'a y 3");
    assert_eq!(
        parse_object("net", &mut lexer),
        Err(CirnoError::InvalidAttributeForObject(
            Attribute::Label("'a".to_string()),
            "net".to_string()
        ))
    );
    assert_eq!(lexer.position, 4);
    let mut lexer = Lexer::new("type vcc size 3");
    assert_eq!(
        parse_object("net", &mut lexer),
        Err(CirnoError::InvalidAttribute("size".to_string()))
    );
    assert_eq!(lexer.position, 3);
    let mut lexer = Lexer::new("y 3 ! y 4");
    assert_eq!(parse_object("net", &mut lexer), Err(CirnoError::UnrecognizedToken));
    assert_eq!(lexer.position, 3);
    let mut lexer = Lexer::new("y 3");
    assert_eq!(
        parse_object("net", &mut lexer),
        Err(CirnoError::MissingAttribute("net type".to_string()))
    );
    assert_eq!(lexer.position, 2);
    let mut lexer = Lexer::new("type gnd y 3");
    assert!(parse_object("net", &mut lexer).is_ok());
    assert_eq!(lexer.position, 4);
    let mut lexer = Lexer::new("type gnd");
    lexer.position = 7;
    assert_eq!(
        parse_object("net", &mut lexer),
        Err(CirnoError::MissingAttribute("net type".to_string()))
    );
    assert_eq!(lexer.position, 7);
}
