use vstd::prelude::*;

use crate::errors::RobotError;
use crate::position::{direction_named, find_direction, Direction, Position};
use crate::text::{chars_of, same_text, trim_str, trimmed};

verus! {

/// One command of a script.
#[derive(Clone, Copy, Debug, PartialEq, Eq, Structural)]
pub enum Action {
    /// Put robot on the field.
    PLACE(Position, Direction),
    /// Show current status of robot.
    REPORT,
    /// A command that only makes sense once a robot is placed.
    NeedRobot(RobotRequiredAction),
}

/// The commands that act on a placed robot.
#[derive(Clone, Copy, Debug, PartialEq, Eq, Structural)]
pub enum RobotRequiredAction {
    /// Move robot one tile on the current direction.
    MOVE,
    /// Rotate left.
    LEFT,
    /// Rotate right.
    RIGHT,
}

/// What a trimmed line of a script means.
pub enum ParseOutcome {
    /// The line is this command.
    Valid(Action),
    /// The line is none of the command forms; it holds the line.
    Malformed(Seq<char>),
    /// The line is a placement whose coordinate does not fit an `isize`.
    NumberTooLarge,
}

/// Whether `c` is an ASCII decimal digit.
pub open spec fn is_digit(c: char) -> bool {
    '0' <= c <= '9'
}

/// Whether `s` is a non-empty run of ASCII decimal digits.
pub open spec fn all_digits(s: Seq<char>) -> bool {
    s.len() > 0 && forall|k: int| 0 <= k < s.len() ==> is_digit(#[trigger] s[k])
}

/// The number that a run of decimal digits writes.
pub open spec fn digits_value(s: Seq<char>) -> nat
    decreases s.len(),
{
    if s.len() == 0 {
        0
    } else {
        digits_value(s.drop_last()) * 10 + (s.last() as nat - '0' as nat) as nat
    }
}

/// Whether `t` is `PLACE a,b,d` with `a` and `b` runs of digits and `d`
/// the name of a heading.
pub open spec fn place_parts(t: Seq<char>, a: Seq<char>, b: Seq<char>, d: Seq<char>) -> bool {
    &&& t == "PLACE "@ + a + seq![','] + b + seq![','] + d
    &&& all_digits(a)
    &&& all_digits(b)
    &&& direction_named(d) is Some
}

/// The meaning of a line `t` that has no surrounding whitespace.
pub open spec fn parsed(t: Seq<char>) -> ParseOutcome {
    if t == "MOVE"@ {
        ParseOutcome::Valid(Action::NeedRobot(RobotRequiredAction::MOVE))
    } else if t == "LEFT"@ {
        ParseOutcome::Valid(Action::NeedRobot(RobotRequiredAction::LEFT))
    } else if t == "RIGHT"@ {
        ParseOutcome::Valid(Action::NeedRobot(RobotRequiredAction::RIGHT))
    } else if t == "REPORT"@ {
        ParseOutcome::Valid(Action::REPORT)
    } else if exists|a: Seq<char>, b: Seq<char>, d: Seq<char>| place_parts(t, a, b, d) {
        let (a, b, d) = choose|a: Seq<char>, b: Seq<char>, d: Seq<char>| place_parts(t, a, b, d);
        if digits_value(a) <= isize::MAX && digits_value(b) <= isize::MAX {
            ParseOutcome::Valid(
                Action::PLACE(
                    Position { x: digits_value(a) as isize, y: digits_value(b) as isize },
                    direction_named(d)->Some_0,
                ),
            )
        } else {
            ParseOutcome::NumberTooLarge
        }
    } else {
        ParseOutcome::Malformed(t)
    }
}

/// Whether `e` is the error that reports the failed outcome `o`.
pub open spec fn signals(e: RobotError, o: ParseOutcome) -> bool {
    match o {
        ParseOutcome::Valid(_) => false,
        ParseOutcome::Malformed(t) => match e {
            RobotError::ParseActionError { action } => action@ == t,
            _ => false,
        },
        ParseOutcome::NumberTooLarge => e is ParseActionIntError,
    }
}

/// Whether `t[start..stop]` is all digits and `stop` ends that run.
spec fn run_ends(t: Seq<char>, start: int, stop: int) -> bool {
    &&& start <= stop <= t.len()
    &&& forall|k: int| start <= k < stop ==> is_digit(#[trigger] t[k])
    &&& stop < t.len() ==> !is_digit(t[stop])
}

/// The end of the run of digits in `t` that starts at `start`.
fn digit_run(t: &Vec<char>, start: usize) -> (r: usize)
    requires
        start <= t@.len(),
    ensures
        run_ends(t@, start as int, r as int),
{
    let mut i = start;
    while i < t.len() && '0' <= t[i] && t[i] <= '9'
        invariant
            start <= i <= t@.len(),
            forall|k: int| start <= k < i ==> is_digit(#[trigger] t@[k]),
        decreases t@.len() - i,
    {
        i = i + 1;
    }
    i
}

/// Where the parts of a placement stand in `t`, given one reading of it.
proof fn lemma_place_layout(t: Seq<char>, a: Seq<char>, b: Seq<char>, d: Seq<char>)
    requires
        place_parts(t, a, b, d),
    ensures
        t.subrange(0, 6) == "PLACE "@,
        run_ends(t, 6, 6 + a.len() as int),
        t[6 + a.len() as int] == ',',
        run_ends(t, 7 + a.len() as int, 7 + a.len() as int + b.len() as int),
        t[7 + a.len() as int + b.len() as int] == ',',
        a == t.subrange(6, 6 + a.len() as int),
        b == t.subrange(7 + a.len() as int, 7 + a.len() as int + b.len() as int),
        d == t.subrange(8 + a.len() as int + b.len() as int, t.len() as int),
{
    reveal_strlit("PLACE ");
    let p = "PLACE "@;
    assert(p.len() == 6);
    assert(t.subrange(0, 6) =~= p);
    assert(a =~= t.subrange(6, 6 + a.len() as int));
    assert(b =~= t.subrange(7 + a.len() as int, 7 + a.len() as int + b.len() as int));
    assert(d =~= t.subrange(8 + a.len() as int + b.len() as int, t.len() as int));
    assert forall|k: int| 6 <= k < 6 + a.len() as int implies is_digit(#[trigger] t[k]) by {
        assert(t[k] == a[k - 6]);
    }
    assert forall|k: int| 7 + a.len() as int <= k < 7 + a.len() as int + b.len() as int implies is_digit(
        #[trigger] t[k],
    ) by {
        assert(t[k] == b[k - 7 - a.len() as int]);
    }
}

/// A placement is read one way only.
proof fn lemma_place_unique(
    t: Seq<char>,
    a: Seq<char>,
    b: Seq<char>,
    d: Seq<char>,
    a2: Seq<char>,
    b2: Seq<char>,
    d2: Seq<char>,
)
    requires
        place_parts(t, a, b, d),
        place_parts(t, a2, b2, d2),
    ensures
        a == a2 && b == b2 && d == d2,
{
    lemma_place_layout(t, a, b, d);
    lemma_place_layout(t, a2, b2, d2);
    lemma_run_unique(t, 6, 6 + a.len() as int, 6 + a2.len() as int);
    lemma_run_unique(t, 7 + a.len() as int, 7 + a.len() as int + b.len() as int, 7 + a.len() as int + b2.len() as int);
}

/// A run of digits has one end.
proof fn lemma_run_unique(t: Seq<char>, start: int, i: int, j: int)
    requires
        run_ends(t, start, i),
        run_ends(t, start, j),
    ensures
        i == j,
{
    if i < j {
        assert(is_digit(t[i]));
    } else if j < i {
        assert(is_digit(t[j]));
    }
}

/// Finds the parts of a placement in `t`: the end of the first number, the
/// end of the second, and the heading.
fn split_place(val: &str, t: &Vec<char>) -> (r: Option<(usize, usize, Direction)>)
    requires
        t@ == val@,
    ensures
        match r {
            Some((i, j, dir)) => {
                &&& 6 <= i < j < t@.len()
                &&& place_parts(
                    t@,
                    t@.subrange(6, i as int),
                    t@.subrange(i + 1, j as int),
                    t@.subrange(j + 1, t@.len() as int),
                )
                &&& direction_named(t@.subrange(j + 1, t@.len() as int)) == Some(dir)
            },
            None => !exists|a: Seq<char>, b: Seq<char>, d: Seq<char>| place_parts(t@, a, b, d),
        },
{
    let n = t.len();
    proof {
        reveal_strlit("PLACE ");
    }
    if n < 6 || t[0] != 'P' || t[1] != 'L' || t[2] != 'A' || t[3] != 'C' || t[4] != 'E' || t[5]
        != ' ' {
        proof {
            assert forall|a: Seq<char>, b: Seq<char>, d: Seq<char>| !place_parts(t@, a, b, d) by {
                if place_parts(t@, a, b, d) {
                    lemma_place_layout(t@, a, b, d);
                    assert(t@.subrange(0, 6)[0] == 'P');
                    assert(t@.subrange(0, 6)[1] == 'L');
                    assert(t@.subrange(0, 6)[2] == 'A');
                    assert(t@.subrange(0, 6)[3] == 'C');
                    assert(t@.subrange(0, 6)[4] == 'E');
                    assert(t@.subrange(0, 6)[5] == ' ');
                }
            }
        }
        return None;
    }
    assert(t@.subrange(0, 6) =~= "PLACE "@);
    let i = digit_run(t, 6);
    if i == 6 || i >= n || t[i] != ',' {
        proof {
            assert forall|a: Seq<char>, b: Seq<char>, d: Seq<char>| !place_parts(t@, a, b, d) by {
                if place_parts(t@, a, b, d) {
                    lemma_place_layout(t@, a, b, d);
                    lemma_run_unique(t@, 6, i as int, 6 + a.len() as int);
                }
            }
        }
        return None;
    }
    let j = digit_run(t, i + 1);
    if j == i + 1 || j >= n || t[j] != ',' {
        proof {
            assert forall|a: Seq<char>, b: Seq<char>, d: Seq<char>| !place_parts(t@, a, b, d) by {
                if place_parts(t@, a, b, d) {
                    lemma_place_layout(t@, a, b, d);
                    lemma_run_unique(t@, 6, i as int, 6 + a.len() as int);
                    lemma_run_unique(t@, i + 1, j as int, 7 + a.len() as int + b.len() as int);
                }
            }
        }
        return None;
    }
    let dir = find_direction(val.substring_char(j + 1, n));
    let ghost a = t@.subrange(6, i as int);
    let ghost b = t@.subrange(i + 1, j as int);
    let ghost d = t@.subrange(j + 1, n as int);
    proof {
        assert forall|k: int| 0 <= k < a.len() as int implies is_digit(#[trigger] a[k]) by {
            assert(a[k] == t@[k + 6]);
        }
        assert forall|k: int| 0 <= k < b.len() as int implies is_digit(#[trigger] b[k]) by {
            assert(b[k] == t@[k + i + 1]);
        }
        assert(t@ =~= "PLACE "@ + a + seq![','] + b + seq![','] + d);
    }
    match dir {
        Some(dir) => Some((i, j, dir)),
        None => {
            proof {
                assert forall|a2: Seq<char>, b2: Seq<char>, d2: Seq<char>| !place_parts(
                    t@,
                    a2,
                    b2,
                    d2,
                ) by {
                    if place_parts(t@, a2, b2, d2) {
                        lemma_place_layout(t@, a2, b2, d2);
                        lemma_run_unique(t@, 6, i as int, 6 + a2.len() as int);
                        lemma_run_unique(t@, i + 1, j as int, 7 + a2.len() as int + b2.len() as int);
                    }
                }
            }
            None
        },
    }
}

/// Relies on `isize`'s `FromStr`: a run of ASCII digits reads as the
/// number it writes, and fails only when that number exceeds `isize::MAX`.
#[verifier::external_body]
fn parse_isize(s: &str) -> (r: Result<isize, std::num::ParseIntError>)
    requires
        all_digits(s@),
    ensures
        match r {
            Ok(v) => v as int == digits_value(s@),
            Err(_) => digits_value(s@) > isize::MAX,
        },
{
    s.parse::<isize>()
}

/// Parses one line of a script, ignoring surrounding whitespace.
pub fn parse_action(s: &str) -> (r: Result<Action, RobotError>)
    ensures
        match parsed(trimmed(s@)) {
            ParseOutcome::Valid(a) => r == Ok::<Action, RobotError>(a),
            o => r is Err && signals(r->Err_0, o),
        },
{
    let val = trim_str(s);
    if same_text(val, "MOVE") {
        return Ok(Action::NeedRobot(RobotRequiredAction::MOVE));
    }
    if same_text(val, "LEFT") {
        return Ok(Action::NeedRobot(RobotRequiredAction::LEFT));
    }
    if same_text(val, "RIGHT") {
        return Ok(Action::NeedRobot(RobotRequiredAction::RIGHT));
    }
    if same_text(val, "REPORT") {
        return Ok(Action::REPORT);
    }
    let t = chars_of(val);
    match split_place(val, &t) {
        None => Err(RobotError::ParseActionError { action: String::from_str(val) }),
        Some((i, j, direction)) => {
            let ghost a = t@.subrange(6, i as int);
            let ghost b = t@.subrange(i + 1, j as int);
            let ghost d = t@.subrange(j + 1, t@.len() as int);
            proof {
                let (a2, b2, d2) = choose|a2: Seq<char>, b2: Seq<char>, d2: Seq<char>|
                    place_parts(t@, a2, b2, d2);
                lemma_place_unique(t@, a, b, d, a2, b2, d2);
            }
            let x = match parse_isize(val.substring_char(6, i)) {
                Ok(x) => x,
                Err(error) => return Err(RobotError::from(error)),
            };
            let y = match parse_isize(val.substring_char(i + 1, j)) {
                Ok(y) => y,
                Err(error) => return Err(RobotError::from(error)),
            };
            Ok(Action::PLACE(Position { x, y }, direction))
        },
    }
}

impl std::str::FromStr for Action {
    type Err = RobotError;

    fn from_str(s: &str) -> (r: Result<Action, RobotError>)
        ensures
            match parsed(trimmed(s@)) {
                ParseOutcome::Valid(a) => r == Ok::<Action, RobotError>(a),
                o => r is Err && signals(r->Err_0, o),
            },
    {
        parse_action(s)
    }
}

} // verus!
