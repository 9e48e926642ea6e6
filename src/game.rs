use vstd::prelude::*;

use crate::actions::{parse_action, parsed, signals, Action, ParseOutcome, RobotRequiredAction};
use crate::errors::RobotError;
use crate::field::Field;
use crate::position::{Direction, Position};
use crate::robot::Robot;
use crate::text::{int_text, split_line, trimmed};

verus! {

/// Entrypoint for game: a fixed field and the robot on it, once placed.
pub struct Game {
    pub field: Field,
    pub robot: Option<Robot>,
}

/// The lines of `s`: the pieces between its newlines.
pub open spec fn split_lines(s: Seq<char>) -> Seq<Seq<char>>
    decreases s.len(),
{
    if s.len() == 0 {
        seq![Seq::empty()]
    } else {
        let rest = split_lines(s.drop_first());
        if s[0] == '\n' {
            seq![Seq::empty()] + rest
        } else {
            rest.update(0, seq![s[0]] + rest[0])
        }
    }
}

/// A text without newlines is one line.
proof fn lemma_split_single(s: Seq<char>)
    requires
        !s.contains('\n'),
    ensures
        split_lines(s) == seq![s],
    decreases s.len(),
{
    if s.len() > 0 {
        assert(!s.drop_first().contains('\n')) by {
            if s.drop_first().contains('\n') {
                let k = choose|k: int| 0 <= k < s.len() - 1 && s.drop_first()[k] == '\n';
                assert(s[k + 1] == '\n');
            }
        }
        assert(s[0] != '\n');
        lemma_split_single(s.drop_first());
        assert(seq![s[0]] + s.drop_first() =~= s);
        assert(split_lines(s) =~= seq![s]);
    } else {
        assert(s =~= Seq::<char>::empty());
    }
}

/// The text before the first newline is the first line.
proof fn lemma_split_head(h: Seq<char>, tail: Seq<char>)
    requires
        !h.contains('\n'),
    ensures
        split_lines(h + seq!['\n'] + tail) == seq![h] + split_lines(tail),
    decreases h.len(),
{
    let s = h + seq!['\n'] + tail;
    if h.len() == 0 {
        assert(s.drop_first() =~= tail);
        assert(h =~= Seq::<char>::empty());
    } else {
        let h2 = h.drop_first();
        assert(!h2.contains('\n')) by {
            if h2.contains('\n') {
                let k = choose|k: int| 0 <= k < h2.len() && h2[k] == '\n';
                assert(h[k + 1] == '\n');
            }
        }
        assert(h[0] != '\n');
        assert(s.drop_first() =~= h2 + seq!['\n'] + tail);
        lemma_split_head(h2, tail);
        assert(seq![h[0]] + h2 =~= h);
        assert(split_lines(s) =~= seq![h] + split_lines(tail));
    }
}

impl Game {
    /// Whether a placed robot stands inside the field.
    pub open spec fn wf(self) -> bool {
        self.robot matches Some(r) ==> self.field.holds(r.position.x as int, r.position.y as int)
    }

    /// The robot after `a`, which a failed command leaves as it was.
    pub open spec fn robot_after(self, a: Action) -> Option<Robot> {
        match a {
            Action::PLACE(p, d) => if self.field.holds(p.x as int, p.y as int) {
                Some(Robot { position: p, direction: d })
            } else {
                self.robot
            },
            Action::REPORT => self.robot,
            Action::NeedRobot(c) => match self.robot {
                None => None,
                Some(r) => Some(
                    match c {
                        RobotRequiredAction::MOVE => if self.field.holds(r.ahead().0, r.ahead().1) {
                            Robot {
                                position: Position {
                                    x: r.ahead().0 as isize,
                                    y: r.ahead().1 as isize,
                                },
                                direction: r.direction,
                            }
                        } else {
                            r
                        },
                        RobotRequiredAction::LEFT => Robot {
                            position: r.position,
                            direction: r.direction.left_of(),
                        },
                        RobotRequiredAction::RIGHT => Robot {
                            position: r.position,
                            direction: r.direction.right_of(),
                        },
                    },
                ),
            },
        }
    }

    /// The game after `a`.
    pub open spec fn after(self, a: Action) -> Game {
        Game { field: self.field, robot: self.robot_after(a) }
    }

    /// The text that `a` produces: a report line for a report of a placed
    /// robot, nothing otherwise.
    pub open spec fn output(self, a: Action) -> Seq<char> {
        match (a, self.robot) {
            (Action::REPORT, Some(r)) => r.report_text().push('\n'),
            _ => Seq::empty(),
        }
    }

    /// The failure of `a`, if it fails.
    pub open spec fn failure(self, a: Action) -> Option<RobotError> {
        match a {
            Action::PLACE(p, _) => if self.field.holds(p.x as int, p.y as int) {
                None
            } else {
                Some(RobotError::RobotOutOfField)
            },
            Action::REPORT => None,
            Action::NeedRobot(c) => match self.robot {
                None => Some(RobotError::RobotNotInField),
                Some(r) => if c == RobotRequiredAction::MOVE && !self.field.holds(
                    r.ahead().0,
                    r.ahead().1,
                ) {
                    Some(RobotError::RobotOutOfField)
                } else {
                    None
                },
            },
        }
    }

    /// Running the script lines `lines` from this game: the game at the end,
    /// the text produced, and the outcome of the line that stopped the run,
    /// if one did. A line that fails to parse stops the run; a command that
    /// fails is passed over.
    pub open spec fn run(self, lines: Seq<Seq<char>>) -> (Game, Seq<char>, Option<ParseOutcome>)
        decreases lines.len(),
    {
        if lines.len() == 0 {
            (self, Seq::empty(), None)
        } else {
            match parsed(trimmed(lines[0])) {
                ParseOutcome::Valid(a) => {
                    let (g, out, stop) = self.after(a).run(lines.drop_first());
                    (g, self.output(a) + out, stop)
                },
                o => (self, Seq::empty(), Some(o)),
            }
        }
    }

    /// Execute an action for the robot.
    pub fn execute(&mut self, action: Action) -> (r: Result<String, RobotError>)
        ensures
            final(self).field == old(self).field,
            final(self).robot == old(self).robot_after(action),
            match r {
                Ok(s) => old(self).failure(action) is None && s@ == old(self).output(action),
                Err(e) => old(self).failure(action) == Some(e),
            },
            old(self).wf() ==> final(self).wf(),
    {
        match action {
            Action::PLACE(pos, direction) => {
                if self.field.position_in_field(&pos) {
                    self.robot = Some(Robot { position: pos, direction });
                    Ok(String::new())
                } else {
                    Err(RobotError::RobotOutOfField)
                }
            },
            Action::REPORT => match self.robot {
                Some(robot) => {
                    let mut res = robot.report();
                    res.append("\n");
                    proof {
                        reveal_strlit("\n");
                    }
                    Ok(res)
                },
                None => Ok(String::new()),
            },
            Action::NeedRobot(c) => match self.robot {
                Some(robot) => {
                    let mut robot = robot;
                    match c {
                        RobotRequiredAction::MOVE => {
                            let moved = robot.move_it(&self.field);
                            if moved.is_err() {
                                return Err(RobotError::RobotOutOfField);
                            }
                        },
                        RobotRequiredAction::LEFT => robot.direction = robot.direction.get_left(),
                        RobotRequiredAction::RIGHT => robot.direction = robot.direction.get_right(),
                    }
                    self.robot = Some(robot);
                    Ok(String::new())
                },
                None => Err(RobotError::RobotNotInField),
            },
        }
    }

    /// Parse and then execute action from a string.
    pub fn execute_all(&mut self, lines: &str) -> (r: Result<String, RobotError>)
        ensures
            ({
                let (g, out, stop) = old(self).run(split_lines(lines@));
                &&& *final(self) == g
                &&& match r {
                    Ok(s) => stop is None && s@ == out,
                    Err(e) => stop is Some && signals(e, stop->Some_0),
                }
            }),
    {
        let mut res = String::new();
        let mut rest: &str = lines;
        loop
            invariant
                ({
                    let (g, out, stop) = self.run(split_lines(rest@));
                    old(self).run(split_lines(lines@)) == (g, res@ + out, stop)
                }),
            decreases rest@.len(),
        {
            let ghost before = *self;
            let (line, tail, last) = match split_line(rest) {
                Some((head, tail)) => {
                    proof {
                        lemma_split_head(head@, tail@);
                    }
                    (head, tail, false)
                },
                None => {
                    proof {
                        lemma_split_single(rest@);
                    }
                    (rest, rest, true)
                },
            };
            let action = match parse_action(line) {
                Ok(action) => action,
                Err(e) => {
                    assert(res@ + Seq::<char>::empty() =~= res@);
                    return Err(e);
                },
            };
            let ghost res0 = res@;
            match self.execute(action) {
                Ok(out) => res.append(out.as_str()),
                Err(RobotError::RobotNotInField) => {
                    assert(before.output(action) =~= Seq::<char>::empty());
                },
                Err(RobotError::RobotOutOfField) => {
                    assert(before.output(action) =~= Seq::<char>::empty());
                },
                Err(e) => return Err(e),
            }
            assert(res@ =~= res0 + before.output(action));
            assert(*self == before.after(action));
            if last {
                proof {
                    let ghost one = seq![line@];
                    assert(one[0] == line@);
                    assert(one.drop_first() =~= Seq::<Seq<char>>::empty());
                    let ghost end = before.after(action).run(Seq::empty());
                    assert(end == (before.after(action), Seq::<char>::empty(), None::<ParseOutcome>));
                    assert(before.output(action) + Seq::<char>::empty() =~= before.output(action));
                }
                assert(res@ + Seq::<char>::empty() =~= res@);
                return Ok(res);
            }
            proof {
                let ghost ls = split_lines(rest@);
                assert(ls.drop_first() =~= split_lines(tail@));
            }
            rest = tail;
        }
    }

    /// A game on a `width` by `height` field, with no robot yet.
    pub fn new(width: isize, height: isize) -> (r: Self)
        ensures
            r.field == (Field { width, height }),
            r.robot is None,
            r.wf(),
    {
        Self { field: Field { width, height }, robot: None }
    }
}

/// Placing a robot inside the field and then asking for a report succeeds
/// and gives `x,y,HEADING` followed by a newline.
pub proof fn lemma_place_then_report(g: Game, p: Position, d: Direction)
    requires
        g.field.holds(p.x as int, p.y as int),
    ensures
        g.failure(Action::PLACE(p, d)) is None,
        g.after(Action::PLACE(p, d)).failure(Action::REPORT) is None,
        g.after(Action::PLACE(p, d)).output(Action::REPORT) == int_text(p.x as int) + seq![',']
            + int_text(p.y as int) + seq![','] + d.text() + seq!['\n'],
{
}

/// Four left turns, or four right turns, leave a placed robot as it was;
/// a step ahead, a half turn and a step ahead bring it back where it stood.
pub proof fn lemma_turns_and_back(g: Game)
    requires
        g.wf(),
        g.robot is Some,
    ensures
        ({
            let l = Action::NeedRobot(RobotRequiredAction::LEFT);
            g.after(l).after(l).after(l).after(l) == g
        }),
        ({
            let rt = Action::NeedRobot(RobotRequiredAction::RIGHT);
            g.after(rt).after(rt).after(rt).after(rt) == g
        }),
        ({
            let r = g.robot->Some_0;
            let m = Action::NeedRobot(RobotRequiredAction::MOVE);
            let l = Action::NeedRobot(RobotRequiredAction::LEFT);
            g.field.holds(r.ahead().0, r.ahead().1) ==> g.after(m).after(l).after(l).after(
                m,
            ).robot->Some_0.position == r.position
        }),
{
    crate::position::lemma_rotations(g.robot->Some_0.direction);
}

/// A step that would leave the field fails and leaves the robot where it
/// stood.
pub proof fn lemma_blocked_move(g: Game)
    requires
        g.robot is Some,
        !g.field.holds(g.robot->Some_0.ahead().0, g.robot->Some_0.ahead().1),
    ensures
        g.after(Action::NeedRobot(RobotRequiredAction::MOVE)) == g,
        g.failure(Action::NeedRobot(RobotRequiredAction::MOVE)) == Some(RobotError::RobotOutOfField),
{
}

/// While no robot is placed, lines that are commands other than placements
/// produce nothing, stop nothing and change nothing: a script that starts
/// with them runs as the rest of it does alone.
pub proof fn lemma_unplaced_prefix(g: Game, pre: Seq<Seq<char>>, post: Seq<Seq<char>>)
    requires
        g.robot is None,
        forall|i: int|
            0 <= i < pre.len() ==> (#[trigger] parsed(trimmed(pre[i])) matches ParseOutcome::Valid(
                a,
            ) && !(a is PLACE)),
    ensures
        g.run(pre) == (g, Seq::<char>::empty(), None::<ParseOutcome>),
        g.run(pre + post) == g.run(post),
    decreases pre.len(),
{
    if pre.len() > 0 {
        let rest = pre.drop_first();
        assert forall|i: int| 0 <= i < rest.len() implies (#[trigger] parsed(
            trimmed(rest[i]),
        ) matches ParseOutcome::Valid(a) && !(a is PLACE)) by {
            assert(rest[i] == pre[i + 1]);
        }
        lemma_unplaced_prefix(g, rest, post);
        assert(parsed(trimmed(pre[0])) matches ParseOutcome::Valid(a) && !(a is PLACE));
        assert((pre + post)[0] == pre[0]);
        assert((pre + post).drop_first() =~= rest + post);
        let a = parsed(trimmed(pre[0]))->Valid_0;
        assert(g.after(a) == g);
        assert(g.output(a) =~= Seq::<char>::empty());
        assert(Seq::<char>::empty() + Seq::<char>::empty() =~= Seq::<char>::empty());
    } else {
        assert(pre + post =~= post);
    }
}

} // verus!
