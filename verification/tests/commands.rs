use resipee_grid::command::{
    command_from_captures, parse_command, read_placement, read_small_number, Command,
};
use resipee_grid::cursor::{step, Cursor, Key, Verdict};
use resipee_grid::nodes::Node;
use resipee_grid::resipee::{EngineError, Ingredient};

fn show(r: Result<Command, EngineError>) -> String {
    format!("{:?}", r)
}

#[test]
fn quit_and_delete() {
    assert_eq!(show(parse_command(":q")), "Ok(Quit)");
    assert_eq!(show(parse_command(":d")), "Ok(Delete)");
    assert_eq!(show(parse_command(":quit now")), "Ok(Quit)");
}

#[test]
fn lines_that_ask_for_nothing() {
    for line in ["", ":", "q", "p;i(1)", " :q", ":x", ":p", ":p;", ":p;()", ":pi(1)", ":P;o"] {
        assert_eq!(show(parse_command(line)), "Ok(Ignored)", "{:?}", line);
    }
}

#[test]
fn placements_of_inputs() {
    assert_eq!(show(parse_command(":p;i(0)")), "Ok(Place(In(Nothing)))");
    assert_eq!(show(parse_command(":p;i(1)")), "Ok(Place(In(Hot)))");
    assert_eq!(show(parse_command(":p;i(8)")), "Ok(Place(In(Coffee)))");
    assert_eq!(show(parse_command(":p;i(10)")), "Ok(Place(In(Cat)))");
    assert_eq!(show(parse_command(":p;i(07)")), "Ok(Place(In(Pink)))");
    assert_eq!(show(parse_command(":p;i")), "Ok(Ignored)");
    assert_eq!(show(parse_command(":p;i(x)")), "Ok(Ignored)");
    assert_eq!(show(parse_command(":p;i(1x)")), "Ok(Ignored)");
    assert_eq!(show(parse_command(":p;i(123)")), "Ok(Ignored)");
}

#[test]
fn an_input_of_an_unknown_code_is_an_error() {
    assert_eq!(show(parse_command(":p;i(11)")), "Err(InvalidIngredientCode)");
    assert_eq!(show(parse_command(":p;i(99)")), "Err(InvalidIngredientCode)");
}

#[test]
fn placements_of_the_other_kinds() {
    assert_eq!(show(parse_command(":p;o")), "Ok(Place(Out(Nothing)))");
    assert_eq!(show(parse_command(":p;o(zz)")), "Ok(Place(Out(Nothing)))");
    assert_eq!(show(parse_command(":p;P(l)")), "Ok(Place(PowerLeft))");
    assert_eq!(show(parse_command(":p;P(r)")), "Ok(Place(PowerRight))");
    assert_eq!(show(parse_command(":p;P(x)")), "Ok(Ignored)");
    assert_eq!(show(parse_command(":p;P")), "Ok(Ignored)");
    assert_eq!(
        show(parse_command(":p;c1(1)")),
        "Ok(Place(Comb1(Nothing, Nothing, Nothing, 0)))"
    );
    assert_eq!(
        show(parse_command(":p;c1(2)")),
        "Ok(Place(Comb1(Nothing, Nothing, Nothing, 1)))"
    );
    assert_eq!(
        show(parse_command(":p;c2(1)")),
        "Ok(Place(Comb2(Nothing, Nothing, Nothing, 0)))"
    );
    assert_eq!(
        show(parse_command(":p;c2(2)")),
        "Ok(Place(Comb2(Nothing, Nothing, Nothing, 1)))"
    );
    assert_eq!(show(parse_command(":p;c1(0)")), "Ok(Ignored)");
    assert_eq!(show(parse_command(":p;c1(3)")), "Ok(Ignored)");
    assert_eq!(show(parse_command(":p;c2")), "Ok(Ignored)");
    assert_eq!(show(parse_command(":p;c3(1)")), "Ok(Ignored)");
    assert_eq!(show(parse_command(":p;s")), "Ok(Place(Split(Nothing, false)))");
    assert_eq!(show(parse_command(":p;m")), "Ok(Place(Merge(Nothing, false)))");
    assert_eq!(show(parse_command(":p;p(lr)")), "Ok(Place(Pipe(Nothing, 0)))");
    assert_eq!(show(parse_command(":p;p(lu)")), "Ok(Place(Pipe(Nothing, 1)))");
    assert_eq!(show(parse_command(":p;p(ld)")), "Ok(Place(Pipe(Nothing, 2)))");
    assert_eq!(show(parse_command(":p;p(dr)")), "Ok(Place(Pipe(Nothing, 3)))");
    assert_eq!(show(parse_command(":p;p(ur)")), "Ok(Place(Pipe(Nothing, 4)))");
    assert_eq!(show(parse_command(":p;p(rl)")), "Ok(Ignored)");
    assert_eq!(show(parse_command(":p;p")), "Ok(Ignored)");
}

#[test]
fn the_first_match_in_the_line_counts() {
    assert_eq!(show(parse_command(":p ;s ;m")), "Ok(Place(Split(Nothing, false)))");
    assert_eq!(show(parse_command(":p;;o")), "Ok(Place(Out(Nothing)))");
    // the word for the kind runs as far as it can
    assert_eq!(show(parse_command(":p;so")), "Ok(Ignored)");
}

#[test]
fn captures_decide_without_the_pattern() {
    let groups = Some(vec![
        Some(String::from(";p(ld)")),
        Some(String::from("p")),
        Some(String::from("(ld)")),
        Some(String::from("ld")),
    ]);
    assert_eq!(show(command_from_captures(":p", &groups)), "Ok(Place(Pipe(Nothing, 2)))");
    assert_eq!(show(command_from_captures(":d", &groups)), "Ok(Delete)");
    assert_eq!(show(command_from_captures("p", &groups)), "Ok(Ignored)");
    assert_eq!(show(command_from_captures(":p", &None)), "Ok(Ignored)");
    let short = Some(vec![Some(String::from(";s")), Some(String::from("s"))]);
    assert_eq!(show(command_from_captures(":p", &short)), "Ok(Ignored)");
    let no_kind = Some(vec![Some(String::from(";")), None, None, None]);
    assert_eq!(show(command_from_captures(":p", &no_kind)), "Ok(Ignored)");
}

#[test]
fn placements_by_kind_and_argument() {
    let place = |kind: &str, arg: Option<&str>| {
        show(read_placement(&String::from(kind), &arg.map(String::from)))
    };
    assert_eq!(place("i", Some("4")), "Ok(Place(In(Milk)))");
    assert_eq!(place("i", Some("40")), "Err(InvalidIngredientCode)");
    assert_eq!(place("i", None), "Ok(Ignored)");
    assert_eq!(place("m", None), "Ok(Place(Merge(Nothing, false)))");
    assert_eq!(place("M", None), "Ok(Ignored)");
    assert_eq!(place("", None), "Ok(Ignored)");
    assert!(matches!(
        read_placement(&String::from("c2"), &Some(String::from("2"))),
        Ok(Command::Place(Node::Comb2(Ingredient::Nothing, Ingredient::Nothing, Ingredient::Nothing, 1)))
    ));
}

#[test]
fn small_numbers_are_one_or_two_digits() {
    assert_eq!(read_small_number("0"), Some(0));
    assert_eq!(read_small_number("7"), Some(7));
    assert_eq!(read_small_number("10"), Some(10));
    assert_eq!(read_small_number("99"), Some(99));
    assert_eq!(read_small_number("05"), Some(5));
    assert_eq!(read_small_number(""), None);
    assert_eq!(read_small_number("100"), None);
    assert_eq!(read_small_number("a"), None);
    assert_eq!(read_small_number("1a"), None);
    assert_eq!(read_small_number("+1"), None);
    assert_eq!(read_small_number("٣"), None);
}

#[test]
fn arrows_move_the_cursor_within_the_grid() {
    let at = Cursor { x: 3, y: 4 };
    assert_eq!(step(15, 15, at, Key::Left), (Cursor { x: 2, y: 4 }, Verdict::Continue));
    assert_eq!(step(15, 15, at, Key::Right), (Cursor { x: 4, y: 4 }, Verdict::Continue));
    assert_eq!(step(15, 15, at, Key::Up), (Cursor { x: 3, y: 3 }, Verdict::Continue));
    assert_eq!(step(15, 15, at, Key::Down), (Cursor { x: 3, y: 5 }, Verdict::Continue));
    assert_eq!(step(15, 15, at, Key::Other), (at, Verdict::Continue));
}

#[test]
fn the_cursor_stops_at_the_edges() {
    let origin = Cursor { x: 0, y: 0 };
    assert_eq!(step(15, 15, origin, Key::Left), (origin, Verdict::Continue));
    assert_eq!(step(15, 15, origin, Key::Up), (origin, Verdict::Continue));
    let far = Cursor { x: 14, y: 14 };
    assert_eq!(step(15, 15, far, Key::Right), (far, Verdict::Continue));
    assert_eq!(step(15, 15, far, Key::Down), (far, Verdict::Continue));
    let edge = Cursor { x: usize::MAX, y: usize::MAX };
    assert_eq!(step(15, 15, edge, Key::Right), (edge, Verdict::Continue));
    assert_eq!(step(15, 15, edge, Key::Down), (edge, Verdict::Continue));
}

#[test]
fn enter_commits_and_escape_cancels() {
    let at = Cursor { x: 3, y: 4 };
    assert_eq!(step(15, 15, at, Key::Enter), (at, Verdict::Commit));
    assert_eq!(step(15, 15, at, Key::Esc), (at, Verdict::Cancel));
}
