use toy_robot::{Action, Direction, Field, Game, Position, Robot, RobotError, RobotRequiredAction};

fn new_game() -> Game {
    Game::new(5, 5)
}

#[test]
fn place_works() {
    let mut game = new_game();
    let pos = Position { x: 0, y: 0 };
    let dir = Direction::NORTH;
    game.execute(Action::PLACE(pos, dir)).unwrap();
    let robot = game.robot.unwrap();
    assert_eq!(robot.direction, Direction::NORTH);
    assert_eq!(robot.position, Position { x: 0, y: 0 });
}

#[test]
fn place_works_parse() {
    let mut game = new_game();
    game.execute("PLACE 0,0,NORTH".parse().unwrap()).unwrap();
}

#[test]
#[should_panic]
fn place_works_should_fail() {
    let mut game = new_game();
    game.execute("PLACE 0,10,NORTH".parse().unwrap()).unwrap();
}

#[test]
fn example_a() {
    let mut game = new_game();
    let res = game
        .execute_all(
            "PLACE 0,0,NORTH
         MOVE
         REPORT",
        )
        .unwrap();
    assert_eq!(res, "0,1,NORTH\n");
}

#[test]
fn example_b() {
    let mut game = new_game();
    let res = game
        .execute_all(
            "PLACE 0,0,NORTH
         LEFT
         REPORT",
        )
        .unwrap();
    assert_eq!(res, "0,0,WEST\n");
}

#[test]
fn example_c() {
    let mut game = new_game();
    let res = game
        .execute_all(
            "PLACE 1,2,EAST
         MOVE
         MOVE
         LEFT
         MOVE
         REPORT",
        )
        .unwrap();
    assert_eq!(res, "3,3,NORTH\n");
}

#[test]
fn actions_before_place() {
    let mut game = new_game();
    let res = game
        .execute_all(
            "MOVE
         LEFT
         REPORT
         RIGHT
         PLACE 1,2,EAST
         MOVE
         MOVE
         LEFT
         MOVE
         REPORT",
        )
        .unwrap();
    assert_eq!(res, "3,3,NORTH\n");
}

#[test]
fn double_place() {
    let mut game = new_game();
    let res = game
        .execute_all(
            "PLACE 1,2,EAST
         MOVE
         PLACE 3,3,NORTH
         REPORT",
        )
        .unwrap();
    assert_eq!(res, "3,3,NORTH\n");
}

#[test]
fn should_go_out_of_field_and_ignore_actions() {
    let mut game = new_game();
    let res = game
        .execute_all(
            "PLACE 1,2,EAST
         MOVE
         PLACE 6,2,EAST
         MOVE
         MOVE
         MOVE
         MOVE
         MOVE
         REPORT",
        )
        .unwrap();
    assert_eq!(res, "4,2,EAST\n");
}

#[test]
fn scenarios_on_plain_newlines() {
    let cases = [
        ("PLACE 0,0,NORTH\nMOVE\nREPORT", "0,1,NORTH\n"),
        ("PLACE 0,0,NORTH\nLEFT\nREPORT", "0,0,WEST\n"),
        ("PLACE 1,2,EAST\nMOVE\nMOVE\nLEFT\nMOVE\nREPORT", "3,3,NORTH\n"),
        (
            "MOVE\nLEFT\nREPORT\nRIGHT\nPLACE 1,2,EAST\nMOVE\nMOVE\nLEFT\nMOVE\nREPORT",
            "3,3,NORTH\n",
        ),
        (
            "PLACE 1,2,EAST\nMOVE\nPLACE 6,2,EAST\nMOVE\nMOVE\nMOVE\nMOVE\nMOVE\nREPORT",
            "4,2,EAST\n",
        ),
    ];
    for (script, expected) in cases {
        let mut game = new_game();
        assert_eq!(game.execute_all(script).unwrap(), expected);
    }
}

#[test]
fn malformed_line_aborts_batch() {
    let mut game = new_game();
    let r = game.execute_all("PLACE 0,0,NORTH\nREPORT\nPLACE 1.1,NORTH\nREPORT");
    match r {
        Err(RobotError::ParseActionError { action }) => assert_eq!(action, "PLACE 1.1,NORTH"),
        other => panic!("unexpected {:?}", other),
    }
    assert_eq!(game.robot.unwrap().position, Position { x: 0, y: 0 });
}

#[test]
fn oversized_number_aborts_batch() {
    let mut game = new_game();
    let r = game.execute_all("PLACE 1,1,NORTH\nPLACE 1,123456789012345678901234567890,NORTH\nMOVE");
    assert!(matches!(r, Err(RobotError::ParseActionIntError { .. })));
    assert_eq!(game.robot.unwrap().position, Position { x: 1, y: 1 });
}

#[test]
fn several_reports_in_order() {
    let mut game = new_game();
    let res = game
        .execute_all("PLACE 0,0,NORTH\nMOVE\nREPORT\nMOVE\nRIGHT\nMOVE\nREPORT\nRIGHT\nMOVE\nREPORT")
        .unwrap();
    assert_eq!(res, "0,1,NORTH\n1,2,EAST\n1,1,SOUTH\n");
}

#[test]
fn empty_line_is_malformed() {
    let mut game = new_game();
    match game.execute_all("") {
        Err(RobotError::ParseActionError { action }) => assert_eq!(action, ""),
        other => panic!("unexpected {:?}", other),
    }
    assert!(game.robot.is_none());
    let r = game.execute_all("PLACE 2,2,EAST\nREPORT\n");
    assert!(matches!(r, Err(RobotError::ParseActionError { .. })));
    assert_eq!(game.robot.unwrap().position, Position { x: 2, y: 2 });
}

#[test]
fn execute_reports_each_failure() {
    let mut game = new_game();
    assert!(matches!(
        game.execute(Action::NeedRobot(RobotRequiredAction::MOVE)),
        Err(RobotError::RobotNotInField)
    ));
    assert!(matches!(
        game.execute(Action::NeedRobot(RobotRequiredAction::LEFT)),
        Err(RobotError::RobotNotInField)
    ));
    assert_eq!(game.execute(Action::REPORT).unwrap(), "");
    assert!(matches!(
        game.execute(Action::PLACE(Position { x: 5, y: 0 }, Direction::EAST)),
        Err(RobotError::RobotOutOfField)
    ));
    assert!(matches!(
        game.execute(Action::PLACE(Position { x: 0, y: -1 }, Direction::EAST)),
        Err(RobotError::RobotOutOfField)
    ));
    assert!(game.robot.is_none());
    game.execute(Action::PLACE(Position { x: 4, y: 4 }, Direction::NORTH)).unwrap();
    assert!(matches!(
        game.execute(Action::NeedRobot(RobotRequiredAction::MOVE)),
        Err(RobotError::RobotOutOfField)
    ));
    assert_eq!(game.execute(Action::REPORT).unwrap(), "4,4,NORTH\n");
}

#[test]
fn place_then_report_everywhere() {
    for x in 0..5 {
        for y in 0..5 {
            for d in [Direction::NORTH, Direction::EAST, Direction::SOUTH, Direction::WEST] {
                let mut game = new_game();
                game.execute(Action::PLACE(Position { x, y }, d)).unwrap();
                let out = game.execute(Action::REPORT).unwrap();
                assert_eq!(out, format!("{},{},{}\n", x, y, d.to_string()));
            }
        }
    }
}

#[test]
fn move_and_half_turn_returns() {
    let mut game = new_game();
    let res = game
        .execute_all("PLACE 1,1,NORTH\nMOVE\nLEFT\nLEFT\nMOVE\nLEFT\nLEFT\nREPORT")
        .unwrap();
    assert_eq!(res, "1,1,NORTH\n");
    let res = game.execute_all("RIGHT\nRIGHT\nRIGHT\nRIGHT\nREPORT").unwrap();
    assert_eq!(res, "1,1,NORTH\n");
}

#[test]
fn blocked_moves_keep_position_on_each_edge() {
    let edges = [
        (0, 2, Direction::WEST),
        (4, 2, Direction::EAST),
        (2, 0, Direction::SOUTH),
        (2, 4, Direction::NORTH),
    ];
    for (x, y, d) in edges {
        let mut robot = Robot { position: Position { x, y }, direction: d };
        let field = Field { width: 5, height: 5 };
        assert!(matches!(robot.move_it(&field), Err(RobotError::RobotOutOfField)));
        assert_eq!(robot.position, Position { x, y });
        assert_eq!(robot.direction, d);
    }
}

#[test]
fn robot_steps_and_reports() {
    let mut robot = Robot { position: Position { x: 12, y: 3 }, direction: Direction::SOUTH };
    assert_eq!(robot.next_position(), Position { x: 12, y: 2 });
    let field = Field { width: 20, height: 20 };
    robot.move_it(&field).unwrap();
    assert_eq!(robot.report(), "12,2,SOUTH");
    let far = Robot { position: Position { x: -7, y: isize::MAX }, direction: Direction::NORTH };
    assert_eq!(far.report(), format!("-7,{},NORTH", isize::MAX));
    let mut edge = far;
    assert!(matches!(edge.move_it(&field), Err(RobotError::RobotOutOfField)));
    assert!(field.position_in_field(&Position { x: 19, y: 0 }));
    assert!(!field.position_in_field(&Position { x: 20, y: 0 }));
}
