use cirno::command::{get_all_commands, parse_command, CommandEnum, Open, Quit, Splash};
use cirno::cursor::{move_down, move_left, move_right, move_up, report, update_repeat_amount};
use cirno::error::CirnoError;
use cirno::logger::{debug, error, info, log, push, warn, Level, LogItem};
use cirno::modes::switch_to_mode;
use cirno::project::{
    Chip, Color, Meta, Net, ObjectEnum, Pin, Region, Value, Vector2, Voltage, Wire,
};
use cirno::search::{clear, query, query_wire};
use cirno::state::{check_extension, CirnoState, Modes};
use cirno::terminal::{frame, screen_position, EventResult, Frame};
use cirno::text::{decimal, parse_number, split_text, starts_with, text_eq, text_lt};

fn strings(v: &[&str]) -> Vec<String> {
    v.iter().map(|s| s.to_string()).collect()
}

fn state_with(bounds: (u16, u16), cursor: (u16, u16)) -> CirnoState {
    let mut state = CirnoState::new(80, 24);
    state.meta = Meta { bounds: Vector2 { x: bounds.0, y: bounds.1 } };
    state.cursor = Vector2 { x: cursor.0, y: cursor.1 };
    state
}

fn wire(color: Color, label: char, from: (u16, u16), to: (u16, u16)) -> ObjectEnum {
    ObjectEnum::Wire(Wire {
        color,
        from: Vector2 { x: from.0, y: from.1 },
        to: Vector2 { x: to.0, y: to.1 },
        label,
    })
}

fn pin(label: &str, value: Value, voltage: Voltage, at: (u16, u16)) -> ObjectEnum {
    ObjectEnum::Pin(Pin {
        label: label.to_string(),
        value,
        region: Region { position: Vector2 { x: at.0, y: at.1 }, size: Vector2 { x: 1, y: 1 } },
        voltage,
    })
}

fn net(t: &str, y: u16) -> ObjectEnum {
    ObjectEnum::Net(Net {
        t: t.to_string(),
        region: Region { position: Vector2 { x: 0, y }, size: Vector2 { x: 10, y: 1 } },
    })
}

#[test]
fn texts_split_at_every_separator() {
    assert_eq!(split_text("open a.cip", ' '), strings(&["open", "a.cip"]));
    assert_eq!(split_text("a  b ", ' '), strings(&["a", "", "b", ""]));
    assert_eq!(split_text("", ' '), strings(&[""]));
    assert_eq!(split_text(" ", ' '), strings(&["", ""]));
    assert_eq!(split_text("one\ntwo", '\n'), strings(&["one", "two"]));
    assert_eq!(split_text("none", '\n'), strings(&["none"]));
}

#[test]
fn texts_are_told_apart_and_put_in_order() {
    assert!(text_eq("abc", "abc"));
    assert!(!text_eq("abc", "abd"));
    assert!(!text_eq("abc", "ab"));
    assert!(text_eq("", ""));
    assert!(starts_with("splash", "splash"));
    assert!(starts_with("splashhhh", "splash"));
    assert!(starts_with("x", ""));
    assert!(!starts_with("spl", "splash"));
    assert!(!starts_with("xsplash", "splash"));
    assert!(text_lt("a", "b"));
    assert!(text_lt("a", "ab"));
    assert!(text_lt("", "a"));
    assert!(text_lt("ab", "b"));
    assert!(text_lt("gates/and2", "gates/or2"));
    assert!(!text_lt("b", "a"));
    assert!(!text_lt("a", "a"));
    assert!(!text_lt("ab", "a"));
    assert!(!text_lt("", ""));
    assert!(text_lt("z", "é"));
}

#[test]
fn numbers_are_read_and_written_in_decimal() {
    assert_eq!(parse_number("0"), Some(0));
    assert_eq!(parse_number("65535"), Some(65535));
    assert_eq!(parse_number("065535"), Some(65535));
    assert_eq!(parse_number("65536"), None);
    assert_eq!(parse_number(""), None);
    assert_eq!(parse_number("12a"), None);
    assert_eq!(parse_number("+1"), None);
    assert_eq!(parse_number("-1"), None);
    assert_eq!(parse_number(" 1"), None);
    assert_eq!(decimal(0), "0");
    assert_eq!(decimal(7), "7");
    assert_eq!(decimal(10), "10");
    assert_eq!(decimal(1234567890), "1234567890");
    assert_eq!(decimal(u64::MAX), "18446744073709551615");
}

#[test]
fn the_editor_knows_three_commands() {
    assert_eq!(get_all_commands(), strings(&["open", "q", "splash"]));
    assert_eq!(
        parse_command("open a.cip"),
        Ok(Some(CommandEnum::Open(Open(strings(&["a.cip"])))))
    );
    assert_eq!(parse_command("q"), Ok(Some(CommandEnum::Quit(Quit(vec![])))));
    assert_eq!(parse_command("quit now"), Ok(Some(CommandEnum::Quit(Quit(strings(&["now"]))))));
    assert_eq!(parse_command("splashhhh"), Ok(Some(CommandEnum::Splash(Splash(vec![])))));
    assert_eq!(
        parse_command("open  a"),
        Ok(Some(CommandEnum::Open(Open(strings(&["", "a"])))))
    );
    assert_eq!(parse_command(""), Ok(None));
    assert_eq!(parse_command("write"), Err(CirnoError::InvalidCommand("write".to_string())));
    assert_eq!(parse_command(" q"), Err(CirnoError::InvalidCommand(" q".to_string())));
}

#[test]
fn commands_count_their_arguments() {
    assert_eq!(CommandEnum::Quit(Quit(vec![])).check_arguments(), Ok(()));
    assert_eq!(
        CommandEnum::Quit(Quit(strings(&["now"]))).check_arguments(),
        Err(CirnoError::ArgumentError(0, 1))
    );
    assert_eq!(
        CommandEnum::Splash(Splash(strings(&["a", "b"]))).check_arguments(),
        Err(CirnoError::ArgumentError(0, 2))
    );
    assert_eq!(CommandEnum::Open(Open(strings(&["a.cip"]))).check_arguments(), Ok(()));
    assert_eq!(
        CommandEnum::Open(Open(vec![])).check_arguments(),
        Err(CirnoError::ArgumentError(1, 0))
    );
    assert_eq!(Quit(vec![]).outcome(), Ok(EventResult::Exit));
    assert_eq!(Quit(strings(&["x"])).outcome(), Err(CirnoError::ArgumentError(0, 1)));
    assert_eq!(Open(strings(&["a.cip"])).filename(), Ok("a.cip".to_string()));
    assert_eq!(Open(strings(&["a", "b"])).filename(), Err(CirnoError::ArgumentError(1, 2)));
    assert_eq!(Open(vec![]).filename(), Err(CirnoError::ArgumentError(1, 0)));
}

#[test]
fn the_splash_screen_stands_around_the_middle() {
    assert_eq!(Splash(vec![]).layout(29, 24), Ok(vec![]));
    assert_eq!(Splash(vec![]).layout(80, 5), Ok(vec![]));
    assert_eq!(Splash(strings(&["x"])).layout(80, 24), Err(CirnoError::ArgumentError(0, 1)));
    assert_eq!(
        Splash(vec![]).layout(80, 24),
        Ok(vec![
            Vector2 { x: 28, y: 10 },
            Vector2 { x: 28, y: 11 },
            Vector2 { x: 28, y: 12 },
            Vector2 { x: 25, y: 14 },
            Vector2 { x: 25, y: 15 },
        ])
    );
    assert_eq!(
        Splash(vec![]).layout(30, 6).unwrap(),
        vec![
            Vector2 { x: 3, y: 1 },
            Vector2 { x: 3, y: 2 },
            Vector2 { x: 3, y: 3 },
            Vector2 { x: 0, y: 5 },
            Vector2 { x: 0, y: 6 },
        ]
    );
    assert_eq!(Splash(vec![]).layout(65535, 65535).unwrap().len(), 5);
}

#[test]
fn only_projects_can_be_opened() {
    assert_eq!(check_extension("a.cip", Some("cip")), Ok(()));
    assert_eq!(check_extension("a.cic", Some("cic")), Err(CirnoError::OpenCicNotImplemented));
    assert_eq!(
        check_extension("a.txt", Some("txt")),
        Err(CirnoError::InvalidFiletype("txt".to_string()))
    );
    assert_eq!(
        check_extension("a.CIP", Some("CIP")),
        Err(CirnoError::InvalidFiletype("CIP".to_string()))
    );
    assert_eq!(check_extension("a", None), Err(CirnoError::InvalidFile("a".to_string())));
}

#[test]
fn the_log_keeps_the_lines_of_every_message() {
    let mut entries: Vec<LogItem> = Vec::new();
    info(&mut entries, "opening a.cip".to_string());
    error(&mut entries, "first\nsecond".to_string());
    warn(&mut entries, String::new());
    debug(&mut entries, "x\n".to_string());
    log(&mut entries, "again".to_string(), Level::Info);
    push(&mut entries, LogItem { level: Level::Warn, lines: vec![] });
    assert_eq!(entries.len(), 6);
    assert_eq!(
        entries[0],
        LogItem { level: Level::Info, lines: strings(&["\u{1b}[36m[i]\u{1b}[0m opening a.cip"]) }
    );
    assert_eq!(
        entries[1],
        LogItem { level: Level::Error, lines: strings(&["\u{1b}[31m[e]\u{1b}[0m first", "second"]) }
    );
    assert_eq!(entries[2].lines, strings(&["\u{1b}[33m[w]\u{1b}[0m "]));
    assert_eq!(entries[3].lines, strings(&["\u{1b}[90m[d]\u{1b}[0m x", ""]));
    assert_eq!(entries[4].level, Level::Info);
    assert_eq!(Level::Debug.marker(), "\u{1b}[90m[d]\u{1b}[0m");
}

#[test]
fn the_cursor_stays_on_the_canvas() {
    let mut state = state_with((10, 5), (4, 2));
    assert!(move_left(0, &mut state));
    assert_eq!(state.cursor, Vector2 { x: 3, y: 2 });
    assert!(move_left(2, &mut state));
    assert_eq!(state.cursor, Vector2 { x: 1, y: 2 });
    assert!(move_left(7, &mut state));
    assert_eq!(state.cursor, Vector2 { x: 0, y: 2 });
    assert!(!move_left(1, &mut state));
    assert_eq!(state.cursor, Vector2 { x: 0, y: 2 });
    assert!(move_right(0, &mut state));
    assert_eq!(state.cursor, Vector2 { x: 1, y: 2 });
    assert!(move_right(8, &mut state));
    assert_eq!(state.cursor, Vector2 { x: 9, y: 2 });
    assert!(!move_right(1, &mut state));
    state.cursor.x = 3;
    assert!(move_right(100, &mut state));
    assert_eq!(state.cursor, Vector2 { x: 9, y: 2 });
    assert!(move_up(1, &mut state));
    assert!(move_up(5, &mut state));
    assert_eq!(state.cursor, Vector2 { x: 9, y: 0 });
    assert!(!move_up(0, &mut state));
    assert!(move_down(0, &mut state));
    assert_eq!(state.cursor, Vector2 { x: 9, y: 1 });
    assert!(move_down(9, &mut state));
    assert_eq!(state.cursor, Vector2 { x: 9, y: 3 });
    assert!(!move_down(1, &mut state));
    assert_eq!(state.cursor, Vector2 { x: 9, y: 3 });
}

#[test]
fn a_cursor_off_the_canvas_does_not_move_further() {
    let mut state = state_with((0, 0), (0, 0));
    assert!(!move_right(1, &mut state));
    assert!(!move_down(1, &mut state));
    let mut state = state_with((3, 1), (7, 0));
    assert!(!move_right(1, &mut state));
    assert!(!move_down(1, &mut state));
    let mut state = state_with((3, 3), (2, 2));
    assert!(!move_right(1, &mut state));
    assert!(!move_down(1, &mut state));
    assert_eq!(state.cursor, Vector2 { x: 2, y: 2 });
}

#[test]
fn digits_build_the_number_of_repetitions() {
    let mut state = CirnoState::new(80, 24);
    assert_eq!(update_repeat_amount('1', &mut state), Ok(()));
    assert_eq!(update_repeat_amount('0', &mut state), Ok(()));
    assert_eq!(update_repeat_amount('0', &mut state), Ok(()));
    assert_eq!(state.repeat_amount, 100);
    assert_eq!(update_repeat_amount('x', &mut state), Ok(()));
    assert_eq!(state.repeat_amount, 100);
    assert_eq!(update_repeat_amount('0', &mut state), Ok(()));
    assert_eq!(state.repeat_amount, 1000);
    assert_eq!(update_repeat_amount('0', &mut state), Err(CirnoError::TooManyRepetitions));
    assert_eq!(state.repeat_amount, 0);
    assert_eq!(update_repeat_amount('0', &mut state), Ok(()));
    assert_eq!(state.repeat_amount, 0);
    assert_eq!(update_repeat_amount('9', &mut state), Ok(()));
    assert_eq!(state.repeat_amount, 9);
    state.repeat_amount = 100;
    assert_eq!(update_repeat_amount('1', &mut state), Err(CirnoError::TooManyRepetitions));
    state.repeat_amount = 65535;
    assert_eq!(update_repeat_amount('9', &mut state), Err(CirnoError::TooManyRepetitions));
}

#[test]
fn the_bar_says_what_the_cursor_is_on() {
    let mut state = state_with((10, 5), (2, 2));
    state.objects = vec![
        net("vcc", 0),
        net("gnd", 4),
        pin("'a", Value::Unset, Voltage::High, (2, 2)),
        pin("", Value::Gnd, Voltage::Low, (3, 2)),
        pin("", Value::Vcc, Voltage::Floating, (4, 2)),
        pin("", Value::Unset, Voltage::Floating, (5, 2)),
        wire(Color::Green, 'b', (4, 2), (4, 0)),
        wire(Color::Red, 'c', (4, 2), (4, 4)),
    ];
    assert_eq!(report(&mut state), ("'a (hi)".to_string(), Some(Color::Cyan)));
    assert_eq!(state.char_under_cursor, ('.', None));
    state.cursor = Vector2 { x: 3, y: 2 };
    assert_eq!(report(&mut state), ("gnd (lo)".to_string(), Some(Color::Blue)));
    state.cursor = Vector2 { x: 4, y: 2 };
    assert_eq!(report(&mut state), ("(b) vcc".to_string(), Some(Color::Green)));
    assert_eq!(state.char_under_cursor, ('b', Some(Color::Green)));
    state.cursor = Vector2 { x: 5, y: 2 };
    assert_eq!(report(&mut state), (String::new(), None));
    assert_eq!(state.char_under_cursor, ('.', None));
    state.cursor = Vector2 { x: 6, y: 0 };
    assert_eq!(report(&mut state), ("vcc net".to_string(), Some(Color::Red)));
    assert_eq!(state.char_under_cursor, ('+', Some(Color::Red)));
    state.cursor = Vector2 { x: 4, y: 4 };
    assert_eq!(report(&mut state), ("(c) gnd net".to_string(), Some(Color::Red)));
    assert_eq!(state.char_under_cursor, ('c', Some(Color::Red)));
    state.cursor = Vector2 { x: 6, y: 4 };
    assert_eq!(report(&mut state), ("gnd net".to_string(), Some(Color::Blue)));
    assert_eq!(state.char_under_cursor, ('-', Some(Color::Blue)));
    state.cursor = Vector2 { x: 7, y: 3 };
    assert_eq!(report(&mut state), (String::new(), None));
    assert_eq!(state.char_under_cursor, (' ', None));
}

#[test]
fn objects_show_as_a_character() {
    assert_eq!(net("vcc", 0).get_char(), Some(('+', Some(Color::Red))));
    assert_eq!(net("gnd", 0).get_char(), Some(('-', Some(Color::Blue))));
    assert_eq!(net("vdd", 0).get_char(), None);
    assert_eq!(net("vdd", 0).report(), (String::new(), None));
    assert_eq!(pin("'x", Value::Unset, Voltage::Low, (0, 0)).get_char(), Some(('.', None)));
    assert_eq!(
        pin("'x", Value::Vcc, Voltage::Low, (0, 0)).report(),
        ("'x (lo)".to_string(), Some(Color::Cyan))
    );
    assert_eq!(
        pin("", Value::Unset, Voltage::High, (0, 0)).report(),
        (" (hi)".to_string(), None)
    );
    assert_eq!(wire(Color::Cyan, 'Q', (0, 0), (1, 1)).get_char(), Some(('Q', Some(Color::Cyan))));
    assert_eq!(wire(Color::Cyan, 'Q', (0, 0), (1, 1)).report(), (String::new(), None));
    assert_eq!(ObjectEnum::Meta(Meta::default()).get_char(), None);
    assert_eq!(ObjectEnum::Chip(Chip::default()).get_char(), None);
    assert_eq!(ObjectEnum::Chip(Chip::default()).report(), (String::new(), None));
    let w = Wire { color: Color::Red, from: Vector2 { x: 1, y: 2 }, to: Vector2 { x: 3, y: 4 }, label: 'a' };
    assert!(w.is_connected_to(Vector2 { x: 1, y: 2 }));
    assert!(w.is_connected_to(Vector2 { x: 3, y: 4 }));
    assert!(!w.is_connected_to(Vector2 { x: 1, y: 4 }));
}

#[test]
fn a_search_finds_wires_by_color_and_label() {
    let mut state = CirnoState::new(80, 24);
    state.objects = vec![
        wire(Color::Red, 'a', (0, 0), (1, 1)),
        pin("", Value::Unset, Voltage::Floating, (5, 5)),
        wire(Color::Blue, 'a', (0, 1), (1, 2)),
        wire(Color::Red, 'b', (0, 2), (1, 3)),
    ];
    assert_eq!(query("wr".to_string(), &mut state), Ok(2));
    assert_eq!(state.search_result, vec![state.objects[0].clone(), state.objects[3].clone()]);
    assert_eq!(query("wrb".to_string(), &mut state), Ok(1));
    assert_eq!(state.search_result, vec![state.objects[3].clone()]);
    assert_eq!(query("wba".to_string(), &mut state), Ok(1));
    assert_eq!(query("wg".to_string(), &mut state), Err(CirnoError::NoResultsFound));
    assert_eq!(state.search_result.len(), 0);
    assert_eq!(query("wrz".to_string(), &mut state), Err(CirnoError::NoResultsFound));
    assert_eq!(query("wr".to_string(), &mut state), Ok(2));
    assert_eq!(query("w".to_string(), &mut state), Err(CirnoError::InvalidSearch));
    assert_eq!(state.search_result.len(), 0);
    assert_eq!(query("wx".to_string(), &mut state), Err(CirnoError::InvalidSearch));
    assert_eq!(query("wrbb".to_string(), &mut state), Err(CirnoError::InvalidSearch));
    assert_eq!(query("pr".to_string(), &mut state), Err(CirnoError::InvalidSearch));
    assert_eq!(query(String::new(), &mut state), Err(CirnoError::InvalidSearch));
    for (letter, color) in [
        ('r', Color::Red),
        ('g', Color::Green),
        ('y', Color::Yellow),
        ('b', Color::Blue),
        ('m', Color::Magenta),
        ('c', Color::Cyan),
    ] {
        let objects = vec![wire(color, 'a', (0, 0), (1, 1))];
        assert_eq!(query_wire(Some(letter), None, &objects), Ok(objects.clone()));
        assert_eq!(query_wire(Some(letter), Some('b'), &objects), Ok(vec![]));
    }
    assert_eq!(query_wire(None, None, &state.objects), Err(CirnoError::InvalidSearch));
    assert_eq!(query_wire(None, Some('a'), &state.objects), Err(CirnoError::InvalidSearch));
    assert_eq!(query("wr".to_string(), &mut state), Ok(2));
    clear(&mut state);
    assert_eq!(state.search_result.len(), 0);
    assert_eq!(state.objects.len(), 4);
}

#[test]
fn the_canvas_stands_in_the_middle_of_the_terminal() {
    let bounds = Vector2 { x: 10, y: 5 };
    assert_eq!(screen_position(0, 0, 80, 24, bounds), Some(Vector2 { x: 35, y: 10 }));
    assert_eq!(screen_position(9, 4, 80, 24, bounds), Some(Vector2 { x: 44, y: 14 }));
    assert_eq!(screen_position(0, 0, 8, 8, Vector2 { x: 12, y: 7 }), None);
    assert_eq!(screen_position(0, 0, 12, 7, Vector2 { x: 12, y: 7 }), Some(Vector2 { x: 0, y: 0 }));
    assert_eq!(screen_position(65535, 0, 80, 24, bounds), None);
    assert_eq!(frame(80, 24, bounds), Some(Frame { left: 34, top: 9, bottom: 14 }));
    assert_eq!(frame(12, 7, bounds), Some(Frame { left: 0, top: 0, bottom: 5 }));
    assert_eq!(frame(10, 24, bounds), None);
    assert_eq!(frame(80, 5, bounds), None);
}

#[test]
fn the_mode_is_switched() {
    let mut state = CirnoState::new(80, 24);
    assert_eq!(state.mode, Modes::Normal);
    switch_to_mode(Modes::Console, &mut state);
    assert_eq!(state.mode, Modes::Console);
    assert_eq!(state.columns, 80);
    assert_ne!(EventResult::Done, EventResult::Exit);
    assert_ne!(EventResult::Drop, EventResult::Failed);
}
