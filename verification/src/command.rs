//! Storyboard animation commands.
//!
//! A command line is a one- or two-letter code followed by comma-separated
//! arguments: an easing, a start time, and a value tail whose meaning
//! depends on how many tokens are present.  The decoder reads the value
//! tail from the end of the token list backward: the trailing block of
//! `arity` tokens is the end value; an empty token in front of it makes the
//! start value equal the end value; and the end time defaults to the start
//! time exactly when the token count equals the minimal compact form.

use crate::colour::Color;
use crate::decimal::Decimal;
use crate::decimal::parse_dec_str;
use crate::decimal::spec_parse_dec;
use crate::error::ParseErrorKind;
use crate::numeric::parse_i32_str;
use crate::numeric::spec_parse_i32;
use crate::text::split_str;
use crate::text::spec_split;
use crate::text::str_eq;
use vstd::prelude::*;

verus! {

#[derive(Clone, Copy, Debug, PartialEq, Eq, Structural)]
pub struct FadeCommand {
    pub easing: i32,
    pub start_time: i32,
    pub end_time: i32,
    pub start_opacity: Decimal,
    pub end_opacity: Decimal,
}

#[derive(Clone, Copy, Debug, PartialEq, Eq, Structural)]
pub struct ScaleCommand {
    pub easing: i32,
    pub start_time: i32,
    pub end_time: i32,
    pub start_scale: Decimal,
    pub end_scale: Decimal,
}

#[derive(Clone, Copy, Debug, PartialEq, Eq, Structural)]
pub struct RotateCommand {
    pub easing: i32,
    pub start_time: i32,
    pub end_time: i32,
    pub start_angle: Decimal,
    pub end_angle: Decimal,
}

#[derive(Clone, Copy, Debug, PartialEq, Eq, Structural)]
pub struct MoveXCommand {
    pub easing: i32,
    pub start_time: i32,
    pub end_time: i32,
    pub start_x: i32,
    pub end_x: i32,
}

#[derive(Clone, Copy, Debug, PartialEq, Eq, Structural)]
pub struct MoveYCommand {
    pub easing: i32,
    pub start_time: i32,
    pub end_time: i32,
    pub start_y: i32,
    pub end_y: i32,
}

#[derive(Clone, Copy, Debug, PartialEq, Eq, Structural)]
pub struct MoveCommand {
    pub easing: i32,
    pub start_time: i32,
    pub end_time: i32,
    pub start_x: Decimal,
    pub start_y: Decimal,
    pub end_x: Decimal,
    pub end_y: Decimal,
}

#[derive(Clone, Copy, Debug, PartialEq, Eq, Structural)]
pub struct VectorScaleCommand {
    pub easing: i32,
    pub start_time: i32,
    pub end_time: i32,
    pub start_x: Decimal,
    pub start_y: Decimal,
    pub end_x: Decimal,
    pub end_y: Decimal,
}

#[derive(Clone, Copy, Debug, PartialEq, Eq, Structural)]
pub struct ColorCommand {
    pub easing: i32,
    pub start_time: i32,
    pub end_time: i32,
    pub start_color: Color,
    pub end_color: Color,
}

/// A sprite parameter effect; unrecognized codes fall back to `Additive`.
#[derive(Clone, Copy, Debug, PartialEq, Eq, Structural)]
pub enum Effect {
    Additive,
    HorizontalFlip,
    VerticalFlip,
    OriginAtCenter,
}

#[derive(Clone, Copy, Debug, PartialEq, Eq, Structural)]
pub struct ParameterCommand {
    pub easing: i32,
    pub start_time: i32,
    pub end_time: i32,
    pub parameter_type: Effect,
}

#[derive(Clone, Copy, Debug, PartialEq, Eq, Structural)]
pub struct LoopCommand {
    pub start_time: i32,
    pub loop_count: i32,
}

/// A trigger condition; unrecognized names fall back to `HitSoundClap`.
#[derive(Clone, Copy, Debug, PartialEq, Eq, Structural)]
pub enum Trigger {
    HitSoundClap,
    HitSoundFinish,
    HitSoundWhistle,
    Passing,
    Failing,
}

#[derive(Clone, Debug, PartialEq, Eq)]
pub struct TriggerCommand {
    pub trigger_type: Trigger,
    pub start_time: i32,
    pub end_time: i32,
    pub group: Option<String>,
}

pub ghost struct TriggerCommandV {
    pub trigger_type: Trigger,
    pub start_time: i32,
    pub end_time: i32,
    pub group: Option<Seq<char>>,
}

impl View for TriggerCommand {
    type V = TriggerCommandV;

    open spec fn view(&self) -> TriggerCommandV {
        TriggerCommandV {
            trigger_type: self.trigger_type,
            start_time: self.start_time,
            end_time: self.end_time,
            group: match self.group {
                Some(ref g) => Some(g@),
                None => None,
            },
        }
    }
}

/// One animation command, tagged by its letter code.
#[derive(Clone, Debug, PartialEq, Eq)]
pub enum Command {
    Fade(FadeCommand),
    Scale(ScaleCommand),
    VectorScale(VectorScaleCommand),
    Rotate(RotateCommand),
    Move(MoveCommand),
    MoveX(MoveXCommand),
    MoveY(MoveYCommand),
    Color(ColorCommand),
    Parameter(ParameterCommand),
    Loop(LoopCommand),
    Trigger(TriggerCommand),
}

pub ghost enum CommandV {
    Fade(FadeCommand),
    Scale(ScaleCommand),
    VectorScale(VectorScaleCommand),
    Rotate(RotateCommand),
    Move(MoveCommand),
    MoveX(MoveXCommand),
    MoveY(MoveYCommand),
    Color(ColorCommand),
    Parameter(ParameterCommand),
    Loop(LoopCommand),
    Trigger(TriggerCommandV),
}

impl View for Command {
    type V = CommandV;

    open spec fn view(&self) -> CommandV {
        match self {
            Command::Fade(c) => CommandV::Fade(*c),
            Command::Scale(c) => CommandV::Scale(*c),
            Command::VectorScale(c) => CommandV::VectorScale(*c),
            Command::Rotate(c) => CommandV::Rotate(*c),
            Command::Move(c) => CommandV::Move(*c),
            Command::MoveX(c) => CommandV::MoveX(*c),
            Command::MoveY(c) => CommandV::MoveY(*c),
            Command::Color(c) => CommandV::Color(*c),
            Command::Parameter(c) => CommandV::Parameter(*c),
            Command::Loop(c) => CommandV::Loop(*c),
            Command::Trigger(c) => CommandV::Trigger(c@),
        }
    }
}

/// The scalar-command tail (one value per endpoint, decimal-valued), read
/// backward: `(easing, start_time, end_time, start value, end value)`.
pub open spec fn spec_parse_cmd1_dec(s: Seq<Seq<char>>) -> Result<
    (i32, i32, i32, Decimal, Decimal),
    ParseErrorKind,
> {
    let n = s.len() as int;
    if n < 2 {
        Err(ParseErrorKind::MissingRequiredField)
    } else {
        match spec_parse_i32(s[0]) {
            None => Err(ParseErrorKind::MalformedField),
            Some(easing) => match spec_parse_i32(s[1]) {
                None => Err(ParseErrorKind::MalformedField),
                Some(start_time) => {
                    let has_end = (n == 4 && s[n - 2].len() == 0) || n == 5;
                    match spec_parse_dec(s[n - 1]) {
                        None => Err(ParseErrorKind::MalformedField),
                        Some(end_v) => {
                            let start_r: Result<Decimal, ParseErrorKind> = if s[n - 2].len() == 0
                                || !has_end {
                                Ok(end_v)
                            } else {
                                match spec_parse_dec(s[n - 2]) {
                                    Some(v) => Ok(v),
                                    None => Err(ParseErrorKind::MalformedField),
                                }
                            };
                            match start_r {
                                Err(e) => Err(e),
                                Ok(start_v) => if n == 4 && has_end {
                                    Ok((easing, start_time, start_time, start_v, end_v))
                                } else if n < 3 {
                                    Err(ParseErrorKind::MissingRequiredField)
                                } else {
                                    match spec_parse_i32(s[2]) {
                                        None => Err(ParseErrorKind::MalformedField),
                                        Some(end_time) => Ok(
                                            (easing, start_time, end_time, start_v, end_v),
                                        ),
                                    }
                                },
                            }
                        },
                    }
                },
            },
        }
    }
}

/// The scalar-command tail with integer values (the axis moves).
pub open spec fn spec_parse_cmd1_i32(s: Seq<Seq<char>>) -> Result<
    (i32, i32, i32, i32, i32),
    ParseErrorKind,
> {
    let n = s.len() as int;
    if n < 2 {
        Err(ParseErrorKind::MissingRequiredField)
    } else {
        match spec_parse_i32(s[0]) {
            None => Err(ParseErrorKind::MalformedField),
            Some(easing) => match spec_parse_i32(s[1]) {
                None => Err(ParseErrorKind::MalformedField),
                Some(start_time) => {
                    let has_end = (n == 4 && s[n - 2].len() == 0) || n == 5;
                    match spec_parse_i32(s[n - 1]) {
                        None => Err(ParseErrorKind::MalformedField),
                        Some(end_v) => {
                            let start_r: Result<i32, ParseErrorKind> = if s[n - 2].len() == 0
                                || !has_end {
                                Ok(end_v)
                            } else {
                                match spec_parse_i32(s[n - 2]) {
                                    Some(v) => Ok(v),
                                    None => Err(ParseErrorKind::MalformedField),
                                }
                            };
                            match start_r {
                                Err(e) => Err(e),
                                Ok(start_v) => if n == 4 && has_end {
                                    Ok((easing, start_time, start_time, start_v, end_v))
                                } else if n < 3 {
                                    Err(ParseErrorKind::MissingRequiredField)
                                } else {
                                    match spec_parse_i32(s[2]) {
                                        None => Err(ParseErrorKind::MalformedField),
                                        Some(end_time) => Ok(
                                            (easing, start_time, end_time, start_v, end_v),
                                        ),
                                    }
                                },
                            }
                        },
                    }
                },
            },
        }
    }
}

/// Reads a scalar command tail with decimal values.
fn parse_cmd1_dec(s: &[&str]) -> (res: Result<(i32, i32, i32, Decimal, Decimal), ParseErrorKind>)
    ensures
        res == spec_parse_cmd1_dec(s.deep_view()),
{
    let ghost sv = s.deep_view();
    let n = s.len();
    if n < 2 {
        return Err(ParseErrorKind::MissingRequiredField);
    }
    assert(sv[0] == s[0]@ && sv[1] == s[1]@);
    assert(sv[n - 1] == s[n - 1]@ && sv[n - 2] == s[n - 2]@);
    let easing = match parse_i32_str(s[0]) {
        Some(v) => v,
        None => {
            return Err(ParseErrorKind::MalformedField);
        },
    };
    let start_time = match parse_i32_str(s[1]) {
        Some(v) => v,
        None => {
            return Err(ParseErrorKind::MalformedField);
        },
    };
    let has_end = (n == 4 && s[n - 2].unicode_len() == 0) || n == 5;
    let end_v = match parse_dec_str(s[n - 1]) {
        Some(v) => v,
        None => {
            return Err(ParseErrorKind::MalformedField);
        },
    };
    let start_v = if s[n - 2].unicode_len() == 0 || !has_end {
        end_v
    } else {
        match parse_dec_str(s[n - 2]) {
            Some(v) => v,
            None => {
                return Err(ParseErrorKind::MalformedField);
            },
        }
    };
    if n == 4 && has_end {
        return Ok((easing, start_time, start_time, start_v, end_v));
    }
    if n < 3 {
        return Err(ParseErrorKind::MissingRequiredField);
    }
    assert(sv[2] == s[2]@);
    let end_time = match parse_i32_str(s[2]) {
        Some(v) => v,
        None => {
            return Err(ParseErrorKind::MalformedField);
        },
    };
    Ok((easing, start_time, end_time, start_v, end_v))
}

/// Reads a scalar command tail with integer values.
fn parse_cmd1_i32(s: &[&str]) -> (res: Result<(i32, i32, i32, i32, i32), ParseErrorKind>)
    ensures
        res == spec_parse_cmd1_i32(s.deep_view()),
{
    let ghost sv = s.deep_view();
    let n = s.len();
    if n < 2 {
        return Err(ParseErrorKind::MissingRequiredField);
    }
    assert(sv[0] == s[0]@ && sv[1] == s[1]@);
    assert(sv[n - 1] == s[n - 1]@ && sv[n - 2] == s[n - 2]@);
    let easing = match parse_i32_str(s[0]) {
        Some(v) => v,
        None => {
            return Err(ParseErrorKind::MalformedField);
        },
    };
    let start_time = match parse_i32_str(s[1]) {
        Some(v) => v,
        None => {
            return Err(ParseErrorKind::MalformedField);
        },
    };
    let has_end = (n == 4 && s[n - 2].unicode_len() == 0) || n == 5;
    let end_v = match parse_i32_str(s[n - 1]) {
        Some(v) => v,
        None => {
            return Err(ParseErrorKind::MalformedField);
        },
    };
    let start_v = if s[n - 2].unicode_len() == 0 || !has_end {
        end_v
    } else {
        match parse_i32_str(s[n - 2]) {
            Some(v) => v,
            None => {
                return Err(ParseErrorKind::MalformedField);
            },
        }
    };
    if n == 4 && has_end {
        return Ok((easing, start_time, start_time, start_v, end_v));
    }
    if n < 3 {
        return Err(ParseErrorKind::MissingRequiredField);
    }
    assert(sv[2] == s[2]@);
    let end_time = match parse_i32_str(s[2]) {
        Some(v) => v,
        None => {
            return Err(ParseErrorKind::MalformedField);
        },
    };
    Ok((easing, start_time, end_time, start_v, end_v))
}

pub open spec fn spec_parse_fade(s: Seq<Seq<char>>) -> Result<FadeCommand, ParseErrorKind> {
    match spec_parse_cmd1_dec(s) {
        Err(e) => Err(e),
        Ok((easing, start_time, end_time, start_opacity, end_opacity)) => Ok(
            FadeCommand { easing, start_time, end_time, start_opacity, end_opacity },
        ),
    }
}

pub open spec fn spec_parse_scale(s: Seq<Seq<char>>) -> Result<ScaleCommand, ParseErrorKind> {
    match spec_parse_cmd1_dec(s) {
        Err(e) => Err(e),
        Ok((easing, start_time, end_time, start_scale, end_scale)) => Ok(
            ScaleCommand { easing, start_time, end_time, start_scale, end_scale },
        ),
    }
}

pub open spec fn spec_parse_rotate(s: Seq<Seq<char>>) -> Result<RotateCommand, ParseErrorKind> {
    match spec_parse_cmd1_dec(s) {
        Err(e) => Err(e),
        Ok((easing, start_time, end_time, start_angle, end_angle)) => Ok(
            RotateCommand { easing, start_time, end_time, start_angle, end_angle },
        ),
    }
}

pub open spec fn spec_parse_move_x(s: Seq<Seq<char>>) -> Result<MoveXCommand, ParseErrorKind> {
    match spec_parse_cmd1_i32(s) {
        Err(e) => Err(e),
        Ok((easing, start_time, end_time, start_x, end_x)) => Ok(
            MoveXCommand { easing, start_time, end_time, start_x, end_x },
        ),
    }
}

pub open spec fn spec_parse_move_y(s: Seq<Seq<char>>) -> Result<MoveYCommand, ParseErrorKind> {
    match spec_parse_cmd1_i32(s) {
        Err(e) => Err(e),
        Ok((easing, start_time, end_time, start_y, end_y)) => Ok(
            MoveYCommand { easing, start_time, end_time, start_y, end_y },
        ),
    }
}

impl FadeCommand {
    pub fn parse(s: &[&str]) -> (res: Result<FadeCommand, ParseErrorKind>)
        ensures
            res == spec_parse_fade(s.deep_view()),
    {
        match parse_cmd1_dec(s) {
            Err(e) => Err(e),
            Ok((easing, start_time, end_time, start_opacity, end_opacity)) => Ok(
                FadeCommand { easing, start_time, end_time, start_opacity, end_opacity },
            ),
        }
    }
}

impl ScaleCommand {
    pub fn parse(s: &[&str]) -> (res: Result<ScaleCommand, ParseErrorKind>)
        ensures
            res == spec_parse_scale(s.deep_view()),
    {
        match parse_cmd1_dec(s) {
            Err(e) => Err(e),
            Ok((easing, start_time, end_time, start_scale, end_scale)) => Ok(
                ScaleCommand { easing, start_time, end_time, start_scale, end_scale },
            ),
        }
    }
}

impl RotateCommand {
    pub fn parse(s: &[&str]) -> (res: Result<RotateCommand, ParseErrorKind>)
        ensures
            res == spec_parse_rotate(s.deep_view()),
    {
        match parse_cmd1_dec(s) {
            Err(e) => Err(e),
            Ok((easing, start_time, end_time, start_angle, end_angle)) => Ok(
                RotateCommand { easing, start_time, end_time, start_angle, end_angle },
            ),
        }
    }
}

impl MoveXCommand {
    pub fn parse(s: &[&str]) -> (res: Result<MoveXCommand, ParseErrorKind>)
        ensures
            res == spec_parse_move_x(s.deep_view()),
    {
        match parse_cmd1_i32(s) {
            Err(e) => Err(e),
            Ok((easing, start_time, end_time, start_x, end_x)) => Ok(
                MoveXCommand { easing, start_time, end_time, start_x, end_x },
            ),
        }
    }
}

impl MoveYCommand {
    pub fn parse(s: &[&str]) -> (res: Result<MoveYCommand, ParseErrorKind>)
        ensures
            res == spec_parse_move_y(s.deep_view()),
    {
        match parse_cmd1_i32(s) {
            Err(e) => Err(e),
            Ok((easing, start_time, end_time, start_y, end_y)) => Ok(
                MoveYCommand { easing, start_time, end_time, start_y, end_y },
            ),
        }
    }
}

} // verus!

verus! {

/// The two-axis move tail.  The compact five-token form (an empty token in
/// place of the value block's predecessor) makes both endpoints equal and
/// defaults the end time to the start time.
pub open spec fn spec_parse_move(s: Seq<Seq<char>>) -> Result<MoveCommand, ParseErrorKind> {
    let n = s.len() as int;
    if n < 2 {
        Err(ParseErrorKind::MissingRequiredField)
    } else {
        match (spec_parse_i32(s[0]), spec_parse_i32(s[1])) {
            (Some(easing), Some(start_time)) => {
                let ei = n - 1;
                match (spec_parse_dec(s[ei - 1]), spec_parse_dec(s[ei])) {
                    (Some(end_x), Some(end_y)) => if n < 4 {
                        Err(ParseErrorKind::MissingRequiredField)
                    } else if s[ei - 2].len() == 0 && n == 5 {
                        Ok(
                            MoveCommand {
                                easing,
                                start_time,
                                end_time: start_time,
                                start_x: end_x,
                                start_y: end_y,
                                end_x,
                                end_y,
                            },
                        )
                    } else if s[ei - 2].len() == 0 {
                        match spec_parse_dec(s[ei - 3]) {
                            Some(start_x) => Ok(
                                MoveCommand {
                                    easing,
                                    start_time,
                                    end_time: start_time,
                                    start_x,
                                    start_y: end_y,
                                    end_x,
                                    end_y,
                                },
                            ),
                            None => Err(ParseErrorKind::MalformedField),
                        }
                    } else {
                        match (
                            spec_parse_i32(s[2]),
                            spec_parse_dec(s[ei - 2]),
                            spec_parse_dec(s[ei - 3]),
                        ) {
                            (Some(end_time), Some(start_y), Some(start_x)) => Ok(
                                MoveCommand {
                                    easing,
                                    start_time,
                                    end_time,
                                    start_x,
                                    start_y,
                                    end_x,
                                    end_y,
                                },
                            ),
                            _ => Err(ParseErrorKind::MalformedField),
                        }
                    },
                    _ => Err(ParseErrorKind::MalformedField),
                }
            },
            _ => Err(ParseErrorKind::MalformedField),
        }
    }
}

/// The two-axis vector-scale tail, read backward like the scalar tails but
/// with two tokens per endpoint.
pub open spec fn spec_parse_vector_scale(s: Seq<Seq<char>>) -> Result<
    VectorScaleCommand,
    ParseErrorKind,
> {
    let n = s.len() as int;
    if n < 2 {
        Err(ParseErrorKind::MissingRequiredField)
    } else {
        match (spec_parse_i32(s[0]), spec_parse_i32(s[1])) {
            (Some(easing), Some(start_time)) => match (
                spec_parse_dec(s[n - 1]),
                spec_parse_dec(s[n - 2]),
            ) {
                (Some(end_y), Some(end_x)) => if n < 3 {
                    Err(ParseErrorKind::MissingRequiredField)
                } else {
                    let has_end = n == 7 || (n == 5 && s[n - 3].len() == 0);
                    let start_y_r: Result<Decimal, ParseErrorKind> = if s[n - 3].len() == 0
                        || !has_end {
                        Ok(end_y)
                    } else {
                        match spec_parse_dec(s[n - 3]) {
                            Some(v) => Ok(v),
                            None => Err(ParseErrorKind::MalformedField),
                        }
                    };
                    let start_x_r: Result<Decimal, ParseErrorKind> = if s[n - 3].len() == 0
                        || !has_end {
                        Ok(end_x)
                    } else {
                        match spec_parse_dec(s[n - 4]) {
                            Some(v) => Ok(v),
                            None => Err(ParseErrorKind::MalformedField),
                        }
                    };
                    match (start_y_r, start_x_r) {
                        (Ok(start_y), Ok(start_x)) => if n == 5 && has_end {
                            Ok(
                                VectorScaleCommand {
                                    easing,
                                    start_time,
                                    end_time: start_time,
                                    start_x,
                                    start_y,
                                    end_x,
                                    end_y,
                                },
                            )
                        } else {
                            match spec_parse_i32(s[2]) {
                                Some(end_time) => Ok(
                                    VectorScaleCommand {
                                        easing,
                                        start_time,
                                        end_time,
                                        start_x,
                                        start_y,
                                        end_x,
                                        end_y,
                                    },
                                ),
                                None => Err(ParseErrorKind::MalformedField),
                            }
                        },
                        _ => Err(ParseErrorKind::MalformedField),
                    }
                },
                _ => Err(ParseErrorKind::MalformedField),
            },
            _ => Err(ParseErrorKind::MalformedField),
        }
    }
}

/// The colour tail: three integers per endpoint, read backward.
pub open spec fn spec_parse_color_cmd(s: Seq<Seq<char>>) -> Result<ColorCommand, ParseErrorKind> {
    let n = s.len() as int;
    if n < 2 {
        Err(ParseErrorKind::MissingRequiredField)
    } else {
        match (spec_parse_i32(s[0]), spec_parse_i32(s[1])) {
            (Some(easing), Some(start_time)) => if n < 3 {
                Err(ParseErrorKind::MissingRequiredField)
            } else {
                let has_end = (n == 6 && s[n - 4].len() == 0) || n == 9;
                match (
                    spec_parse_i32(s[n - 3]),
                    spec_parse_i32(s[n - 2]),
                    spec_parse_i32(s[n - 1]),
                ) {
                    (Some(er), Some(eg), Some(eb)) => {
                        let end_color = Color { r: er, g: eg, b: eb };
                        let start_r: Result<Color, ParseErrorKind> = if n < 4 || s[n - 4].len()
                            == 0 || !has_end {
                            Ok(end_color)
                        } else {
                            match (
                                spec_parse_i32(s[n - 6]),
                                spec_parse_i32(s[n - 5]),
                                spec_parse_i32(s[n - 4]),
                            ) {
                                (Some(sr), Some(sg), Some(sb)) => Ok(Color { r: sr, g: sg, b: sb }),
                                _ => Err(ParseErrorKind::MalformedField),
                            }
                        };
                        match start_r {
                            Err(e) => Err(e),
                            Ok(start_color) => if n == 6 && has_end {
                                Ok(
                                    ColorCommand {
                                        easing,
                                        start_time,
                                        end_time: start_time,
                                        start_color,
                                        end_color,
                                    },
                                )
                            } else {
                                match spec_parse_i32(s[2]) {
                                    Some(end_time) => Ok(
                                        ColorCommand {
                                            easing,
                                            start_time,
                                            end_time,
                                            start_color,
                                            end_color,
                                        },
                                    ),
                                    None => Err(ParseErrorKind::MalformedField),
                                }
                            },
                        }
                    },
                    _ => Err(ParseErrorKind::MalformedField),
                }
            },
            _ => Err(ParseErrorKind::MalformedField),
        }
    }
}

/// Which effect a parameter token selects; unknown codes mean `Additive`.
pub open spec fn spec_effect_of(s: Seq<char>) -> Effect {
    if s == "A"@ {
        Effect::Additive
    } else if s == "H"@ {
        Effect::HorizontalFlip
    } else if s == "V"@ {
        Effect::VerticalFlip
    } else if s == "R"@ {
        Effect::OriginAtCenter
    } else {
        Effect::Additive
    }
}

pub open spec fn spec_parse_parameter(s: Seq<Seq<char>>) -> Result<
    ParameterCommand,
    ParseErrorKind,
> {
    if s.len() < 4 {
        Err(ParseErrorKind::MissingRequiredField)
    } else {
        match (spec_parse_i32(s[0]), spec_parse_i32(s[1]), spec_parse_i32(s[2])) {
            (Some(easing), Some(start_time), Some(end_time)) => Ok(
                ParameterCommand {
                    easing,
                    start_time,
                    end_time,
                    parameter_type: spec_effect_of(s[3]),
                },
            ),
            _ => Err(ParseErrorKind::MalformedField),
        }
    }
}

pub open spec fn spec_parse_loop(s: Seq<Seq<char>>) -> Result<LoopCommand, ParseErrorKind> {
    if s.len() < 2 {
        Err(ParseErrorKind::MissingRequiredField)
    } else {
        match (spec_parse_i32(s[0]), spec_parse_i32(s[1])) {
            (Some(start_time), Some(loop_count)) => Ok(LoopCommand { start_time, loop_count }),
            _ => Err(ParseErrorKind::MalformedField),
        }
    }
}

/// Which trigger a name token selects; unknown names mean `HitSoundClap`.
pub open spec fn spec_trigger_of(s: Seq<char>) -> Trigger {
    if s == "HitSoundClap"@ {
        Trigger::HitSoundClap
    } else if s == "HitSoundFinish"@ {
        Trigger::HitSoundFinish
    } else if s == "HitSoundWhistle"@ {
        Trigger::HitSoundWhistle
    } else if s == "Passing"@ {
        Trigger::Passing
    } else if s == "Failing"@ {
        Trigger::Failing
    } else {
        Trigger::HitSoundClap
    }
}

pub open spec fn spec_parse_trigger(s: Seq<Seq<char>>) -> Result<TriggerCommandV, ParseErrorKind> {
    if s.len() < 3 {
        Err(ParseErrorKind::MissingRequiredField)
    } else {
        match (spec_parse_i32(s[1]), spec_parse_i32(s[2])) {
            (Some(start_time), Some(end_time)) => Ok(
                TriggerCommandV {
                    trigger_type: spec_trigger_of(s[0]),
                    start_time,
                    end_time,
                    group: if s.len() > 3 {
                        Some(s[3])
                    } else {
                        None
                    },
                },
            ),
            _ => Err(ParseErrorKind::MalformedField),
        }
    }
}

impl MoveCommand {
    pub fn parse(s: &[&str]) -> (res: Result<MoveCommand, ParseErrorKind>)
        ensures
            res == spec_parse_move(s.deep_view()),
    {
        let ghost sv = s.deep_view();
        let n = s.len();
        if n < 2 {
            return Err(ParseErrorKind::MissingRequiredField);
        }
        assert(sv[0] == s[0]@ && sv[1] == s[1]@);
        assert(sv[n - 1] == s[n - 1]@ && sv[n - 2] == s[n - 2]@);
        let easing = match parse_i32_str(s[0]) {
            Some(v) => v,
            None => {
                return Err(ParseErrorKind::MalformedField);
            },
        };
        let start_time = match parse_i32_str(s[1]) {
            Some(v) => v,
            None => {
                return Err(ParseErrorKind::MalformedField);
            },
        };
        let end_x = match parse_dec_str(s[n - 2]) {
            Some(v) => v,
            None => {
                return Err(ParseErrorKind::MalformedField);
            },
        };
        let end_y = match parse_dec_str(s[n - 1]) {
            Some(v) => v,
            None => {
                return Err(ParseErrorKind::MalformedField);
            },
        };
        if n < 4 {
            return Err(ParseErrorKind::MissingRequiredField);
        }
        assert(sv[2] == s[2]@ && sv[n - 3] == s[n - 3]@ && sv[n - 4] == s[n - 4]@);
        if s[n - 3].unicode_len() == 0 && n == 5 {
            return Ok(
                MoveCommand {
                    easing,
                    start_time,
                    end_time: start_time,
                    start_x: end_x,
                    start_y: end_y,
                    end_x,
                    end_y,
                },
            );
        }
        if s[n - 3].unicode_len() == 0 {
            let start_x = match parse_dec_str(s[n - 4]) {
                Some(v) => v,
                None => {
                    return Err(ParseErrorKind::MalformedField);
                },
            };
            return Ok(
                MoveCommand {
                    easing,
                    start_time,
                    end_time: start_time,
                    start_x,
                    start_y: end_y,
                    end_x,
                    end_y,
                },
            );
        }
        let end_time = match parse_i32_str(s[2]) {
            Some(v) => v,
            None => {
                return Err(ParseErrorKind::MalformedField);
            },
        };
        let start_y = match parse_dec_str(s[n - 3]) {
            Some(v) => v,
            None => {
                return Err(ParseErrorKind::MalformedField);
            },
        };
        let start_x = match parse_dec_str(s[n - 4]) {
            Some(v) => v,
            None => {
                return Err(ParseErrorKind::MalformedField);
            },
        };
        Ok(MoveCommand { easing, start_time, end_time, start_x, start_y, end_x, end_y })
    }
}

impl VectorScaleCommand {
    pub fn parse(s: &[&str]) -> (res: Result<VectorScaleCommand, ParseErrorKind>)
        ensures
            res == spec_parse_vector_scale(s.deep_view()),
    {
        let ghost sv = s.deep_view();
        let n = s.len();
        if n < 2 {
            return Err(ParseErrorKind::MissingRequiredField);
        }
        assert(sv[0] == s[0]@ && sv[1] == s[1]@);
        assert(sv[n - 1] == s[n - 1]@ && sv[n - 2] == s[n - 2]@);
        let easing = match parse_i32_str(s[0]) {
            Some(v) => v,
            None => {
                return Err(ParseErrorKind::MalformedField);
            },
        };
        let start_time = match parse_i32_str(s[1]) {
            Some(v) => v,
            None => {
                return Err(ParseErrorKind::MalformedField);
            },
        };
        let end_y = match parse_dec_str(s[n - 1]) {
            Some(v) => v,
            None => {
                return Err(ParseErrorKind::MalformedField);
            },
        };
        let end_x = match parse_dec_str(s[n - 2]) {
            Some(v) => v,
            None => {
                return Err(ParseErrorKind::MalformedField);
            },
        };
        if n < 3 {
            return Err(ParseErrorKind::MissingRequiredField);
        }
        assert(sv[2] == s[2]@ && sv[n - 3] == s[n - 3]@);
        let has_end = n == 7 || (n == 5 && s[n - 3].unicode_len() == 0);
        let start_y = if s[n - 3].unicode_len() == 0 || !has_end {
            end_y
        } else {
            match parse_dec_str(s[n - 3]) {
                Some(v) => v,
                None => {
                    return Err(ParseErrorKind::MalformedField);
                },
            }
        };
        let start_x = if s[n - 3].unicode_len() == 0 || !has_end {
            end_x
        } else {
            assert(sv[n - 4] == s[n - 4]@);
            match parse_dec_str(s[n - 4]) {
                Some(v) => v,
                None => {
                    return Err(ParseErrorKind::MalformedField);
                },
            }
        };
        if n == 5 && has_end {
            return Ok(
                VectorScaleCommand {
                    easing,
                    start_time,
                    end_time: start_time,
                    start_x,
                    start_y,
                    end_x,
                    end_y,
                },
            );
        }
        let end_time = match parse_i32_str(s[2]) {
            Some(v) => v,
            None => {
                return Err(ParseErrorKind::MalformedField);
            },
        };
        Ok(VectorScaleCommand { easing, start_time, end_time, start_x, start_y, end_x, end_y })
    }
}

impl ColorCommand {
    pub fn parse(s: &[&str]) -> (res: Result<ColorCommand, ParseErrorKind>)
        ensures
            res == spec_parse_color_cmd(s.deep_view()),
    {
        let ghost sv = s.deep_view();
        let n = s.len();
        if n < 2 {
            return Err(ParseErrorKind::MissingRequiredField);
        }
        assert(sv[0] == s[0]@ && sv[1] == s[1]@);
        let easing = match parse_i32_str(s[0]) {
            Some(v) => v,
            None => {
                return Err(ParseErrorKind::MalformedField);
            },
        };
        let start_time = match parse_i32_str(s[1]) {
            Some(v) => v,
            None => {
                return Err(ParseErrorKind::MalformedField);
            },
        };
        if n < 3 {
            return Err(ParseErrorKind::MissingRequiredField);
        }
        assert(sv[2] == s[2]@ && sv[n - 1] == s[n - 1]@ && sv[n - 2] == s[n - 2]@ && sv[n - 3] == s[
            n - 3]@);
        let has_end = (n == 6 && s[n - 4].unicode_len() == 0) || n == 9;
        let er = parse_i32_str(s[n - 3]);
        let eg = parse_i32_str(s[n - 2]);
        let eb = parse_i32_str(s[n - 1]);
        let end_color = match (er, eg, eb) {
            (Some(r), Some(g), Some(b)) => Color { r, g, b },
            _ => {
                return Err(ParseErrorKind::MalformedField);
            },
        };
        let start_color = if n < 4 || s[n - 4].unicode_len() == 0 || !has_end {
            end_color
        } else {
            assert(sv[n - 4] == s[n - 4]@ && sv[n - 5] == s[n - 5]@ && sv[n - 6] == s[n - 6]@);
            match (parse_i32_str(s[n - 6]), parse_i32_str(s[n - 5]), parse_i32_str(s[n - 4])) {
                (Some(r), Some(g), Some(b)) => Color { r, g, b },
                _ => {
                    return Err(ParseErrorKind::MalformedField);
                },
            }
        };
        if n == 6 && has_end {
            return Ok(
                ColorCommand { easing, start_time, end_time: start_time, start_color, end_color },
            );
        }
        let end_time = match parse_i32_str(s[2]) {
            Some(v) => v,
            None => {
                return Err(ParseErrorKind::MalformedField);
            },
        };
        Ok(ColorCommand { easing, start_time, end_time, start_color, end_color })
    }
}

impl ParameterCommand {
    pub fn parse(s: &[&str]) -> (res: Result<ParameterCommand, ParseErrorKind>)
        ensures
            res == spec_parse_parameter(s.deep_view()),
    {
        let ghost sv = s.deep_view();
        if s.len() < 4 {
            return Err(ParseErrorKind::MissingRequiredField);
        }
        assert(sv[0] == s[0]@ && sv[1] == s[1]@ && sv[2] == s[2]@ && sv[3] == s[3]@);
        let easing = match parse_i32_str(s[0]) {
            Some(v) => v,
            None => {
                return Err(ParseErrorKind::MalformedField);
            },
        };
        let start_time = match parse_i32_str(s[1]) {
            Some(v) => v,
            None => {
                return Err(ParseErrorKind::MalformedField);
            },
        };
        let end_time = match parse_i32_str(s[2]) {
            Some(v) => v,
            None => {
                return Err(ParseErrorKind::MalformedField);
            },
        };
        let parameter_type = Effect::of_token(s[3]);
        Ok(ParameterCommand { easing, start_time, end_time, parameter_type })
    }
}

impl Effect {
    /// Decides which effect a token selects, with the documented fallback.
    pub fn of_token(s: &str) -> (r: Effect)
        ensures
            r == spec_effect_of(s@),
    {
        if str_eq(s, "A") {
            Effect::Additive
        } else if str_eq(s, "H") {
            Effect::HorizontalFlip
        } else if str_eq(s, "V") {
            Effect::VerticalFlip
        } else if str_eq(s, "R") {
            Effect::OriginAtCenter
        } else {
            Effect::Additive
        }
    }
}

impl LoopCommand {
    pub fn parse(s: &[&str]) -> (res: Result<LoopCommand, ParseErrorKind>)
        ensures
            res == spec_parse_loop(s.deep_view()),
    {
        let ghost sv = s.deep_view();
        if s.len() < 2 {
            return Err(ParseErrorKind::MissingRequiredField);
        }
        assert(sv[0] == s[0]@ && sv[1] == s[1]@);
        let start_time = match parse_i32_str(s[0]) {
            Some(v) => v,
            None => {
                return Err(ParseErrorKind::MalformedField);
            },
        };
        let loop_count = match parse_i32_str(s[1]) {
            Some(v) => v,
            None => {
                return Err(ParseErrorKind::MalformedField);
            },
        };
        Ok(LoopCommand { start_time, loop_count })
    }
}

impl Trigger {
    /// Decides which trigger a name token selects, with the documented
    /// fallback.
    pub fn of_token(s: &str) -> (r: Trigger)
        ensures
            r == spec_trigger_of(s@),
    {
        if str_eq(s, "HitSoundClap") {
            Trigger::HitSoundClap
        } else if str_eq(s, "HitSoundFinish") {
            Trigger::HitSoundFinish
        } else if str_eq(s, "HitSoundWhistle") {
            Trigger::HitSoundWhistle
        } else if str_eq(s, "Passing") {
            Trigger::Passing
        } else if str_eq(s, "Failing") {
            Trigger::Failing
        } else {
            Trigger::HitSoundClap
        }
    }
}

impl TriggerCommand {
    pub fn parse(s: &[&str]) -> (res: Result<TriggerCommand, ParseErrorKind>)
        ensures
            crate::error::view_result(res) == spec_parse_trigger(s.deep_view()),
    {
        let ghost sv = s.deep_view();
        if s.len() < 3 {
            return Err(ParseErrorKind::MissingRequiredField);
        }
        assert(sv[0] == s[0]@ && sv[1] == s[1]@ && sv[2] == s[2]@);
        let trigger_type = Trigger::of_token(s[0]);
        let start_time = match parse_i32_str(s[1]) {
            Some(v) => v,
            None => {
                return Err(ParseErrorKind::MalformedField);
            },
        };
        let end_time = match parse_i32_str(s[2]) {
            Some(v) => v,
            None => {
                return Err(ParseErrorKind::MalformedField);
            },
        };
        let group = if s.len() > 3 {
            assert(sv[3] == s[3]@);
            Some(s[3].to_owned())
        } else {
            None
        };
        Ok(TriggerCommand { trigger_type, start_time, end_time, group })
    }
}

/// The command-line grammar: the letter code before the first comma selects
/// the variant, whose tail grammar reads the remaining tokens.
pub open spec fn spec_parse_command(line: Seq<char>) -> Result<CommandV, ParseErrorKind> {
    let parts = spec_split(line, ',');
    let tail = parts.skip(1);
    if parts[0] == "F"@ {
        match spec_parse_fade(tail) {
            Ok(c) => Ok(CommandV::Fade(c)),
            Err(e) => Err(e),
        }
    } else if parts[0] == "S"@ {
        match spec_parse_scale(tail) {
            Ok(c) => Ok(CommandV::Scale(c)),
            Err(e) => Err(e),
        }
    } else if parts[0] == "V"@ {
        match spec_parse_vector_scale(tail) {
            Ok(c) => Ok(CommandV::VectorScale(c)),
            Err(e) => Err(e),
        }
    } else if parts[0] == "R"@ {
        match spec_parse_rotate(tail) {
            Ok(c) => Ok(CommandV::Rotate(c)),
            Err(e) => Err(e),
        }
    } else if parts[0] == "M"@ {
        match spec_parse_move(tail) {
            Ok(c) => Ok(CommandV::Move(c)),
            Err(e) => Err(e),
        }
    } else if parts[0] == "MX"@ {
        match spec_parse_move_x(tail) {
            Ok(c) => Ok(CommandV::MoveX(c)),
            Err(e) => Err(e),
        }
    } else if parts[0] == "MY"@ {
        match spec_parse_move_y(tail) {
            Ok(c) => Ok(CommandV::MoveY(c)),
            Err(e) => Err(e),
        }
    } else if parts[0] == "C"@ {
        match spec_parse_color_cmd(tail) {
            Ok(c) => Ok(CommandV::Color(c)),
            Err(e) => Err(e),
        }
    } else if parts[0] == "P"@ {
        match spec_parse_parameter(tail) {
            Ok(c) => Ok(CommandV::Parameter(c)),
            Err(e) => Err(e),
        }
    } else if parts[0] == "L"@ {
        match spec_parse_loop(tail) {
            Ok(c) => Ok(CommandV::Loop(c)),
            Err(e) => Err(e),
        }
    } else if parts[0] == "T"@ {
        match spec_parse_trigger(tail) {
            Ok(c) => Ok(CommandV::Trigger(c)),
            Err(e) => Err(e),
        }
    } else {
        Err(ParseErrorKind::UnknownCommandCode)
    }
}

impl Command {
    /// Reads one command line.
    pub fn parse(s: &str) -> (res: Result<Command, ParseErrorKind>)
        ensures
            crate::error::view_result(res) == spec_parse_command(s@),
    {
        let parts = split_str(s, ',');
        let ghost pv = parts.deep_view();
        let mut tail: Vec<&str> = Vec::new();
        let mut i: usize = 1;
        while i < parts.len()
            invariant
                pv == parts.deep_view(),
                1 <= i <= parts.len() || (parts.len() == 0 && i == 1),
                tail.deep_view() =~= pv.subrange(1, i as int),
            decreases parts.len() - i,
        {
            let ghost prev = tail.deep_view();
            tail.push(parts[i]);
            proof {
                assert(tail.deep_view() =~= prev.push(pv[i as int]));
                assert(tail.deep_view() =~= pv.subrange(1, i + 1));
            }
            i += 1;
        }
        proof {
            crate::text::lemma_split_len(s@, ',');
            assert(tail.deep_view() =~= pv.skip(1));
            assert(pv[0] == parts[0]@);
        }
        let code = parts[0];
        if str_eq(code, "F") {
            match FadeCommand::parse(tail.as_slice()) {
                Ok(c) => Ok(Command::Fade(c)),
                Err(e) => Err(e),
            }
        } else if str_eq(code, "S") {
            match ScaleCommand::parse(tail.as_slice()) {
                Ok(c) => Ok(Command::Scale(c)),
                Err(e) => Err(e),
            }
        } else if str_eq(code, "V") {
            match VectorScaleCommand::parse(tail.as_slice()) {
                Ok(c) => Ok(Command::VectorScale(c)),
                Err(e) => Err(e),
            }
        } else if str_eq(code, "R") {
            match RotateCommand::parse(tail.as_slice()) {
                Ok(c) => Ok(Command::Rotate(c)),
                Err(e) => Err(e),
            }
        } else if str_eq(code, "M") {
            match MoveCommand::parse(tail.as_slice()) {
                Ok(c) => Ok(Command::Move(c)),
                Err(e) => Err(e),
            }
        } else if str_eq(code, "MX") {
            match MoveXCommand::parse(tail.as_slice()) {
                Ok(c) => Ok(Command::MoveX(c)),
                Err(e) => Err(e),
            }
        } else if str_eq(code, "MY") {
            match MoveYCommand::parse(tail.as_slice()) {
                Ok(c) => Ok(Command::MoveY(c)),
                Err(e) => Err(e),
            }
        } else if str_eq(code, "C") {
            match ColorCommand::parse(tail.as_slice()) {
                Ok(c) => Ok(Command::Color(c)),
                Err(e) => Err(e),
            }
        } else if str_eq(code, "P") {
            match ParameterCommand::parse(tail.as_slice()) {
                Ok(c) => Ok(Command::Parameter(c)),
                Err(e) => Err(e),
            }
        } else if str_eq(code, "L") {
            match LoopCommand::parse(tail.as_slice()) {
                Ok(c) => Ok(Command::Loop(c)),
                Err(e) => Err(e),
            }
        } else if str_eq(code, "T") {
            match TriggerCommand::parse(tail.as_slice()) {
                Ok(c) => Ok(Command::Trigger(c)),
                Err(e) => Err(e),
            }
        } else {
            Err(ParseErrorKind::UnknownCommandCode)
        }
    }
}

} // verus!

verus! {

/// The canonical text of an effect code.
pub open spec fn spec_effect_name(e: Effect) -> Seq<char> {
    match e {
        Effect::Additive => "A"@,
        Effect::HorizontalFlip => "H"@,
        Effect::VerticalFlip => "V"@,
        Effect::OriginAtCenter => "R"@,
    }
}

/// The canonical text of a trigger name.
pub open spec fn spec_trigger_name(t: Trigger) -> Seq<char> {
    match t {
        Trigger::HitSoundClap => "HitSoundClap"@,
        Trigger::HitSoundFinish => "HitSoundFinish"@,
        Trigger::HitSoundWhistle => "HitSoundWhistle"@,
        Trigger::Passing => "Passing"@,
        Trigger::Failing => "Failing"@,
    }
}

/// `e,start,end` — the shared numeric head of most command renderings.
pub open spec fn spec_times(easing: i32, st: i32, et: i32) -> Seq<char> {
    crate::numeric::spec_render_i32(easing as int) + seq![','] + crate::numeric::spec_render_i32(
        st as int,
    ) + seq![','] + crate::numeric::spec_render_i32(et as int)
}

/// The canonical line of a command (without the newline): its code and the
/// fully explicit argument list.
pub open spec fn spec_render_command(c: CommandV) -> Seq<char> {
    match c {
        CommandV::Fade(f) => "F"@ + seq![','] + spec_times(f.easing, f.start_time, f.end_time)
            + seq![','] + crate::decimal::spec_render_dec(f.start_opacity) + seq![',']
            + crate::decimal::spec_render_dec(f.end_opacity),
        CommandV::Scale(f) => "S"@ + seq![','] + spec_times(f.easing, f.start_time, f.end_time)
            + seq![','] + crate::decimal::spec_render_dec(f.start_scale) + seq![',']
            + crate::decimal::spec_render_dec(f.end_scale),
        CommandV::Rotate(f) => "R"@ + seq![','] + spec_times(f.easing, f.start_time, f.end_time)
            + seq![','] + crate::decimal::spec_render_dec(f.start_angle) + seq![',']
            + crate::decimal::spec_render_dec(f.end_angle),
        CommandV::MoveX(f) => "MX"@ + seq![','] + spec_times(f.easing, f.start_time, f.end_time)
            + seq![','] + crate::numeric::spec_render_i32(f.start_x as int) + seq![',']
            + crate::numeric::spec_render_i32(f.end_x as int),
        CommandV::MoveY(f) => "MY"@ + seq![','] + spec_times(f.easing, f.start_time, f.end_time)
            + seq![','] + crate::numeric::spec_render_i32(f.start_y as int) + seq![',']
            + crate::numeric::spec_render_i32(f.end_y as int),
        CommandV::Move(f) => "M"@ + seq![','] + spec_times(f.easing, f.start_time, f.end_time)
            + seq![','] + crate::decimal::spec_render_dec(f.start_x) + seq![',']
            + crate::decimal::spec_render_dec(f.start_y) + seq![',']
            + crate::decimal::spec_render_dec(f.end_x) + seq![',']
            + crate::decimal::spec_render_dec(f.end_y),
        CommandV::VectorScale(f) => "V"@ + seq![','] + spec_times(
            f.easing,
            f.start_time,
            f.end_time,
        ) + seq![','] + crate::decimal::spec_render_dec(f.start_x) + seq![',']
            + crate::decimal::spec_render_dec(f.start_y) + seq![',']
            + crate::decimal::spec_render_dec(f.end_x) + seq![',']
            + crate::decimal::spec_render_dec(f.end_y),
        CommandV::Color(f) => "C"@ + seq![','] + spec_times(f.easing, f.start_time, f.end_time)
            + seq![','] + crate::colour::spec_render_color(f.start_color) + seq![',']
            + crate::colour::spec_render_color(f.end_color),
        CommandV::Parameter(f) => "P"@ + seq![','] + spec_times(f.easing, f.start_time, f.end_time)
            + seq![','] + spec_effect_name(f.parameter_type),
        CommandV::Loop(f) => "L"@ + seq![','] + crate::numeric::spec_render_i32(f.start_time as int)
            + seq![','] + crate::numeric::spec_render_i32(f.loop_count as int),
        CommandV::Trigger(f) => {
            let head = "T"@ + seq![','] + spec_trigger_name(f.trigger_type) + seq![',']
                + crate::numeric::spec_render_i32(f.start_time as int) + seq![',']
                + crate::numeric::spec_render_i32(f.end_time as int);
            match f.group {
                Some(g) => head + seq![','] + g,
                None => head,
            }
        },
    }
}

/// What rendering demands of a command: its decimals canonical, and a
/// trigger group that cannot disturb the comma-separated line it stands in.
pub open spec fn cmd_valid(c: CommandV) -> bool {
    match c {
        CommandV::Fade(f) => crate::decimal::dec_valid(f.start_opacity)
            && crate::decimal::dec_valid(f.end_opacity),
        CommandV::Scale(f) => crate::decimal::dec_valid(f.start_scale)
            && crate::decimal::dec_valid(f.end_scale),
        CommandV::Rotate(f) => crate::decimal::dec_valid(f.start_angle)
            && crate::decimal::dec_valid(f.end_angle),
        CommandV::MoveX(f) => true,
        CommandV::MoveY(f) => true,
        CommandV::Move(f) => crate::decimal::dec_valid(f.start_x) && crate::decimal::dec_valid(
            f.start_y,
        ) && crate::decimal::dec_valid(f.end_x) && crate::decimal::dec_valid(f.end_y),
        CommandV::VectorScale(f) => crate::decimal::dec_valid(f.start_x)
            && crate::decimal::dec_valid(f.start_y) && crate::decimal::dec_valid(f.end_x)
            && crate::decimal::dec_valid(f.end_y),
        CommandV::Color(f) => true,
        CommandV::Parameter(f) => true,
        CommandV::Loop(f) => true,
        CommandV::Trigger(f) => match f.group {
            Some(g) => forall|j: int| 0 <= j < g.len() ==> #[trigger] g[j] != ',',
            None => true,
        },
    }
}

impl Command {
    /// Appends the canonical command line (without the newline) to `out`.
    #[verifier::rlimit(100)]
    pub fn render(&self, out: &mut String)
        requires
            cmd_valid(self@),
        ensures
            final(out)@ == old(out)@ + spec_render_command(self@),
    {
        match self {
            Command::Fade(f) => {
                out.append("F");
                Self::render_times(f.easing, f.start_time, f.end_time, out);
                out.append(",");
                crate::decimal::render_dec(&f.start_opacity, out);
                out.append(",");
                crate::decimal::render_dec(&f.end_opacity, out);
            },
            Command::Scale(f) => {
                out.append("S");
                Self::render_times(f.easing, f.start_time, f.end_time, out);
                out.append(",");
                crate::decimal::render_dec(&f.start_scale, out);
                out.append(",");
                crate::decimal::render_dec(&f.end_scale, out);
            },
            Command::Rotate(f) => {
                out.append("R");
                Self::render_times(f.easing, f.start_time, f.end_time, out);
                out.append(",");
                crate::decimal::render_dec(&f.start_angle, out);
                out.append(",");
                crate::decimal::render_dec(&f.end_angle, out);
            },
            Command::MoveX(f) => {
                out.append("MX");
                Self::render_times(f.easing, f.start_time, f.end_time, out);
                out.append(",");
                crate::numeric::render_i32(f.start_x, out);
                out.append(",");
                crate::numeric::render_i32(f.end_x, out);
            },
            Command::MoveY(f) => {
                out.append("MY");
                Self::render_times(f.easing, f.start_time, f.end_time, out);
                out.append(",");
                crate::numeric::render_i32(f.start_y, out);
                out.append(",");
                crate::numeric::render_i32(f.end_y, out);
            },
            Command::Move(f) => {
                out.append("M");
                Self::render_times(f.easing, f.start_time, f.end_time, out);
                out.append(",");
                crate::decimal::render_dec(&f.start_x, out);
                out.append(",");
                crate::decimal::render_dec(&f.start_y, out);
                out.append(",");
                crate::decimal::render_dec(&f.end_x, out);
                out.append(",");
                crate::decimal::render_dec(&f.end_y, out);
            },
            Command::VectorScale(f) => {
                out.append("V");
                Self::render_times(f.easing, f.start_time, f.end_time, out);
                out.append(",");
                crate::decimal::render_dec(&f.start_x, out);
                out.append(",");
                crate::decimal::render_dec(&f.start_y, out);
                out.append(",");
                crate::decimal::render_dec(&f.end_x, out);
                out.append(",");
                crate::decimal::render_dec(&f.end_y, out);
            },
            Command::Color(f) => {
                out.append("C");
                Self::render_times(f.easing, f.start_time, f.end_time, out);
                out.append(",");
                crate::colour::render_color(&f.start_color, out);
                out.append(",");
                crate::colour::render_color(&f.end_color, out);
            },
            Command::Parameter(f) => {
                out.append("P");
                Self::render_times(f.easing, f.start_time, f.end_time, out);
                out.append(",");
                match f.parameter_type {
                    Effect::Additive => out.append("A"),
                    Effect::HorizontalFlip => out.append("H"),
                    Effect::VerticalFlip => out.append("V"),
                    Effect::OriginAtCenter => out.append("R"),
                }
            },
            Command::Loop(f) => {
                out.append("L");
                out.append(",");
                crate::numeric::render_i32(f.start_time, out);
                out.append(",");
                crate::numeric::render_i32(f.loop_count, out);
            },
            Command::Trigger(f) => {
                out.append("T");
                out.append(",");
                match f.trigger_type {
                    Trigger::HitSoundClap => out.append("HitSoundClap"),
                    Trigger::HitSoundFinish => out.append("HitSoundFinish"),
                    Trigger::HitSoundWhistle => out.append("HitSoundWhistle"),
                    Trigger::Passing => out.append("Passing"),
                    Trigger::Failing => out.append("Failing"),
                }
                out.append(",");
                crate::numeric::render_i32(f.start_time, out);
                out.append(",");
                crate::numeric::render_i32(f.end_time, out);
                if let Some(g) = &f.group {
                    out.append(",");
                    out.append(g.as_str());
                }
            },
        }
        proof {
            reveal_strlit(",");
            assert(","@ =~= seq![',']);
            assert(out@ =~= old(out)@ + spec_render_command(self@));
        }
    }

    /// Appends `,easing,start,end` to `out`.
    fn render_times(easing: i32, st: i32, et: i32, out: &mut String)
        ensures
            final(out)@ == old(out)@ + seq![','] + spec_times(easing, st, et),
    {
        out.append(",");
        crate::numeric::render_i32(easing, out);
        out.append(",");
        crate::numeric::render_i32(st, out);
        out.append(",");
        crate::numeric::render_i32(et, out);
        proof {
            reveal_strlit(",");
            assert(","@ =~= seq![',']);
            assert(out@ =~= old(out)@ + seq![','] + spec_times(easing, st, et));
        }
    }
}

} // verus!

verus! {

/// Splitting after the `easing,start,end` head peels three integer tokens.
proof fn lemma_split_times(easing: i32, st: i32, et: i32, rest: Seq<char>)
    ensures
        crate::text::spec_split(spec_times(easing, st, et) + seq![','] + rest, ',')
            == seq![
            crate::numeric::spec_render_i32(easing as int),
            crate::numeric::spec_render_i32(st as int),
            crate::numeric::spec_render_i32(et as int),
        ] + crate::text::spec_split(rest, ','),
{
    let te = crate::numeric::spec_render_i32(easing as int);
    let ts = crate::numeric::spec_render_i32(st as int);
    let tt = crate::numeric::spec_render_i32(et as int);
    crate::numeric::lemma_i32_token(easing);
    crate::numeric::lemma_i32_token(st);
    crate::numeric::lemma_i32_token(et);
    let r2 = ts + seq![','] + (tt + seq![','] + rest);
    assert(spec_times(easing, st, et) + seq![','] + rest =~= te + seq![','] + r2);
    crate::text::lemma_split_head(te, r2, ',');
    crate::text::lemma_split_head(ts, tt + seq![','] + rest, ',');
    crate::text::lemma_split_head(tt, rest, ',');
    assert(seq![te] + (seq![ts] + (seq![tt] + crate::text::spec_split(rest, ','))) =~= seq![
        te,
        ts,
        tt,
    ] + crate::text::spec_split(rest, ','));
}

/// A final separator-free token splits to itself.
proof fn lemma_split_last(tok: Seq<char>)
    requires
        forall|j: int| 0 <= j < tok.len() ==> #[trigger] tok[j] != ',',
    ensures
        crate::text::spec_split(tok, ',') == seq![tok],
{
    crate::text::lemma_split_at_first(tok, ',', tok.len() as int);
}

/// The trigger and effect names and the command codes carry no comma.
proof fn lemma_names_comma_free()
    ensures
        forall|j: int| 0 <= j < "F"@.len() ==> #[trigger] "F"@[j] != ',',
        forall|j: int| 0 <= j < "S"@.len() ==> #[trigger] "S"@[j] != ',',
        forall|j: int| 0 <= j < "V"@.len() ==> #[trigger] "V"@[j] != ',',
        forall|j: int| 0 <= j < "R"@.len() ==> #[trigger] "R"@[j] != ',',
        forall|j: int| 0 <= j < "M"@.len() ==> #[trigger] "M"@[j] != ',',
        forall|j: int| 0 <= j < "MX"@.len() ==> #[trigger] "MX"@[j] != ',',
        forall|j: int| 0 <= j < "MY"@.len() ==> #[trigger] "MY"@[j] != ',',
        forall|j: int| 0 <= j < "C"@.len() ==> #[trigger] "C"@[j] != ',',
        forall|j: int| 0 <= j < "P"@.len() ==> #[trigger] "P"@[j] != ',',
        forall|j: int| 0 <= j < "L"@.len() ==> #[trigger] "L"@[j] != ',',
        forall|j: int| 0 <= j < "T"@.len() ==> #[trigger] "T"@[j] != ',',
        forall|j: int| 0 <= j < "A"@.len() ==> #[trigger] "A"@[j] != ',',
        forall|j: int| 0 <= j < "H"@.len() ==> #[trigger] "H"@[j] != ',',
        forall|j: int| 0 <= j < "HitSoundClap"@.len() ==> #[trigger] "HitSoundClap"@[j] != ',',
        forall|j: int| 0 <= j < "HitSoundFinish"@.len() ==> #[trigger] "HitSoundFinish"@[j] != ',',
        forall|j: int|
            0 <= j < "HitSoundWhistle"@.len() ==> #[trigger] "HitSoundWhistle"@[j] != ',',
        forall|j: int| 0 <= j < "Passing"@.len() ==> #[trigger] "Passing"@[j] != ',',
        forall|j: int| 0 <= j < "Failing"@.len() ==> #[trigger] "Failing"@[j] != ',',
{
    reveal_strlit("F");
    reveal_strlit("S");
    reveal_strlit("V");
    reveal_strlit("R");
    reveal_strlit("M");
    reveal_strlit("MX");
    reveal_strlit("MY");
    reveal_strlit("C");
    reveal_strlit("P");
    reveal_strlit("L");
    reveal_strlit("T");
    reveal_strlit("A");
    reveal_strlit("H");
    reveal_strlit("HitSoundClap");
    reveal_strlit("HitSoundFinish");
    reveal_strlit("HitSoundWhistle");
    reveal_strlit("Passing");
    reveal_strlit("Failing");
}

/// The scalar tail round trip, shared by fade, scale and rotate.
proof fn lemma_cmd1_dec_round_trip(easing: i32, st: i32, et: i32, sv: Decimal, ev: Decimal)
    requires
        crate::decimal::dec_valid(sv),
        crate::decimal::dec_valid(ev),
    ensures
        ({
            let line = spec_times(easing, st, et) + seq![','] + crate::decimal::spec_render_dec(sv)
                + seq![','] + crate::decimal::spec_render_dec(ev);
            spec_parse_cmd1_dec(crate::text::spec_split(line, ',')) == Ok::<
                (i32, i32, i32, Decimal, Decimal),
                ParseErrorKind,
            >((easing, st, et, sv, ev))
        }),
{
    let sd = crate::decimal::spec_render_dec(sv);
    let ed = crate::decimal::spec_render_dec(ev);
    crate::decimal::lemma_dec_token(sv);
    crate::decimal::lemma_dec_token(ev);
    let line = spec_times(easing, st, et) + seq![','] + sd + seq![','] + ed;
    assert(line =~= spec_times(easing, st, et) + seq![','] + (sd + seq![','] + ed));
    lemma_split_times(easing, st, et, sd + seq![','] + ed);
    crate::text::lemma_split_head(sd, ed, ',');
    lemma_split_last(ed);
    let toks = crate::text::spec_split(line, ',');
    assert(toks =~~= seq![
        crate::numeric::spec_render_i32(easing as int),
        crate::numeric::spec_render_i32(st as int),
        crate::numeric::spec_render_i32(et as int),
        sd,
        ed,
    ]);
    crate::numeric::lemma_i32_round_trip(easing);
    crate::numeric::lemma_i32_round_trip(st);
    crate::numeric::lemma_i32_round_trip(et);
    crate::decimal::lemma_dec_round_trip(sv);
    crate::decimal::lemma_dec_round_trip(ev);
}

/// The scalar tail round trip with integer values (the axis moves).
proof fn lemma_cmd1_i32_round_trip(easing: i32, st: i32, et: i32, sv: i32, ev: i32)
    ensures
        ({
            let line = spec_times(easing, st, et) + seq![','] + crate::numeric::spec_render_i32(
                sv as int,
            ) + seq![','] + crate::numeric::spec_render_i32(ev as int);
            spec_parse_cmd1_i32(crate::text::spec_split(line, ',')) == Ok::<
                (i32, i32, i32, i32, i32),
                ParseErrorKind,
            >((easing, st, et, sv, ev))
        }),
{
    let sd = crate::numeric::spec_render_i32(sv as int);
    let ed = crate::numeric::spec_render_i32(ev as int);
    crate::numeric::lemma_i32_token(sv);
    crate::numeric::lemma_i32_token(ev);
    let line = spec_times(easing, st, et) + seq![','] + sd + seq![','] + ed;
    assert(line =~= spec_times(easing, st, et) + seq![','] + (sd + seq![','] + ed));
    lemma_split_times(easing, st, et, sd + seq![','] + ed);
    crate::text::lemma_split_head(sd, ed, ',');
    lemma_split_last(ed);
    let toks = crate::text::spec_split(line, ',');
    assert(toks =~~= seq![
        crate::numeric::spec_render_i32(easing as int),
        crate::numeric::spec_render_i32(st as int),
        crate::numeric::spec_render_i32(et as int),
        sd,
        ed,
    ]);
    crate::numeric::lemma_i32_round_trip(easing);
    crate::numeric::lemma_i32_round_trip(st);
    crate::numeric::lemma_i32_round_trip(et);
    crate::numeric::lemma_i32_round_trip(sv);
    crate::numeric::lemma_i32_round_trip(ev);
}

/// The four-value tail round trip, shared by move and vector scale.
proof fn lemma_cmd2_dec_split(easing: i32, st: i32, et: i32, a: Decimal, b: Decimal, c: Decimal, d: Decimal)
    requires
        crate::decimal::dec_valid(a),
        crate::decimal::dec_valid(b),
        crate::decimal::dec_valid(c),
        crate::decimal::dec_valid(d),
    ensures
        ({
            let line = spec_times(easing, st, et) + seq![','] + crate::decimal::spec_render_dec(a)
                + seq![','] + crate::decimal::spec_render_dec(b) + seq![',']
                + crate::decimal::spec_render_dec(c) + seq![','] + crate::decimal::spec_render_dec(
                d,
            );
            crate::text::spec_split(line, ',') =~~= seq![
                crate::numeric::spec_render_i32(easing as int),
                crate::numeric::spec_render_i32(st as int),
                crate::numeric::spec_render_i32(et as int),
                crate::decimal::spec_render_dec(a),
                crate::decimal::spec_render_dec(b),
                crate::decimal::spec_render_dec(c),
                crate::decimal::spec_render_dec(d),
            ]
        }),
{
    let ta = crate::decimal::spec_render_dec(a);
    let tb = crate::decimal::spec_render_dec(b);
    let tc = crate::decimal::spec_render_dec(c);
    let td = crate::decimal::spec_render_dec(d);
    crate::decimal::lemma_dec_token(a);
    crate::decimal::lemma_dec_token(b);
    crate::decimal::lemma_dec_token(c);
    crate::decimal::lemma_dec_token(d);
    let line = spec_times(easing, st, et) + seq![','] + ta + seq![','] + tb + seq![','] + tc
        + seq![','] + td;
    let rest = ta + seq![','] + (tb + seq![','] + (tc + seq![','] + td));
    assert(line =~= spec_times(easing, st, et) + seq![','] + rest);
    lemma_split_times(easing, st, et, rest);
    crate::text::lemma_split_head(ta, tb + seq![','] + (tc + seq![','] + td), ',');
    crate::text::lemma_split_head(tb, tc + seq![','] + td, ',');
    crate::text::lemma_split_head(tc, td, ',');
    lemma_split_last(td);
}

#[verifier::rlimit(100)]
#[verifier::spinoff_prover]
proof fn lemma_rt_fade(f: FadeCommand)
    requires
        crate::decimal::dec_valid(f.start_opacity),
        crate::decimal::dec_valid(f.end_opacity),
    ensures
        spec_parse_command(spec_render_command(CommandV::Fade(f))) == Ok::<
            CommandV,
            ParseErrorKind,
        >(CommandV::Fade(f)),
{
    lemma_names_comma_free();
    reveal_strlit("F");
    reveal_strlit("S");
    reveal_strlit("V");
    reveal_strlit("R");
    reveal_strlit("M");
    reveal_strlit("MX");
    reveal_strlit("MY");
    reveal_strlit("C");
    reveal_strlit("P");
    reveal_strlit("L");
    reveal_strlit("T");
    let line = spec_render_command(CommandV::Fade(f));

    let rest = spec_times(f.easing, f.start_time, f.end_time) + seq![',']
        + crate::decimal::spec_render_dec(f.start_opacity) + seq![',']
        + crate::decimal::spec_render_dec(f.end_opacity);
    assert(line =~= "F"@ + seq![','] + rest);
    crate::text::lemma_split_head("F"@, rest, ',');
    lemma_cmd1_dec_round_trip(
        f.easing,
        f.start_time,
        f.end_time,
        f.start_opacity,
        f.end_opacity,
    );
    let parts = crate::text::spec_split(line, ',');
    assert(parts[0] == "F"@);
    assert(parts.skip(1) =~~= crate::text::spec_split(rest, ','));
}

#[verifier::rlimit(100)]
#[verifier::spinoff_prover]
proof fn lemma_rt_scale(f: ScaleCommand)
    requires
        crate::decimal::dec_valid(f.start_scale),
        crate::decimal::dec_valid(f.end_scale),
    ensures
        spec_parse_command(spec_render_command(CommandV::Scale(f))) == Ok::<
            CommandV,
            ParseErrorKind,
        >(CommandV::Scale(f)),
{
    lemma_names_comma_free();
    reveal_strlit("F");
    reveal_strlit("S");
    reveal_strlit("V");
    reveal_strlit("R");
    reveal_strlit("M");
    reveal_strlit("MX");
    reveal_strlit("MY");
    reveal_strlit("C");
    reveal_strlit("P");
    reveal_strlit("L");
    reveal_strlit("T");
    let line = spec_render_command(CommandV::Scale(f));

    let rest = spec_times(f.easing, f.start_time, f.end_time) + seq![',']
        + crate::decimal::spec_render_dec(f.start_scale) + seq![',']
        + crate::decimal::spec_render_dec(f.end_scale);
    assert(line =~= "S"@ + seq![','] + rest);
    crate::text::lemma_split_head("S"@, rest, ',');
    lemma_cmd1_dec_round_trip(
        f.easing,
        f.start_time,
        f.end_time,
        f.start_scale,
        f.end_scale,
    );
    let parts = crate::text::spec_split(line, ',');
    assert(parts[0] == "S"@);
    assert(parts[0] != "F"@) by {
        assert("S"@[0] == 'S' && "F"@[0] == 'F');
    }
    assert(parts.skip(1) =~~= crate::text::spec_split(rest, ','));
}

#[verifier::rlimit(100)]
#[verifier::spinoff_prover]
proof fn lemma_rt_rotate(f: RotateCommand)
    requires
        crate::decimal::dec_valid(f.start_angle),
        crate::decimal::dec_valid(f.end_angle),
    ensures
        spec_parse_command(spec_render_command(CommandV::Rotate(f))) == Ok::<
            CommandV,
            ParseErrorKind,
        >(CommandV::Rotate(f)),
{
    lemma_names_comma_free();
    reveal_strlit("F");
    reveal_strlit("S");
    reveal_strlit("V");
    reveal_strlit("R");
    reveal_strlit("M");
    reveal_strlit("MX");
    reveal_strlit("MY");
    reveal_strlit("C");
    reveal_strlit("P");
    reveal_strlit("L");
    reveal_strlit("T");
    let line = spec_render_command(CommandV::Rotate(f));

    let rest = spec_times(f.easing, f.start_time, f.end_time) + seq![',']
        + crate::decimal::spec_render_dec(f.start_angle) + seq![',']
        + crate::decimal::spec_render_dec(f.end_angle);
    assert(line =~= "R"@ + seq![','] + rest);
    crate::text::lemma_split_head("R"@, rest, ',');
    lemma_cmd1_dec_round_trip(
        f.easing,
        f.start_time,
        f.end_time,
        f.start_angle,
        f.end_angle,
    );
    let parts = crate::text::spec_split(line, ',');
    assert(parts[0] == "R"@);
    assert(parts[0] != "F"@ && parts[0] != "S"@ && parts[0] != "V"@) by {
        assert("R"@[0] == 'R' && "F"@[0] == 'F' && "S"@[0] == 'S' && "V"@[0] == 'V');
    }
    assert(parts.skip(1) =~~= crate::text::spec_split(rest, ','));
}

#[verifier::rlimit(100)]
#[verifier::spinoff_prover]
proof fn lemma_rt_movex(f: MoveXCommand)
    ensures
        spec_parse_command(spec_render_command(CommandV::MoveX(f))) == Ok::<
            CommandV,
            ParseErrorKind,
        >(CommandV::MoveX(f)),
{
    lemma_names_comma_free();
    reveal_strlit("F");
    reveal_strlit("S");
    reveal_strlit("V");
    reveal_strlit("R");
    reveal_strlit("M");
    reveal_strlit("MX");
    reveal_strlit("MY");
    reveal_strlit("C");
    reveal_strlit("P");
    reveal_strlit("L");
    reveal_strlit("T");
    let line = spec_render_command(CommandV::MoveX(f));

    let rest = spec_times(f.easing, f.start_time, f.end_time) + seq![',']
        + crate::numeric::spec_render_i32(f.start_x as int) + seq![',']
        + crate::numeric::spec_render_i32(f.end_x as int);
    assert(line =~= "MX"@ + seq![','] + rest);
    crate::text::lemma_split_head("MX"@, rest, ',');
    lemma_cmd1_i32_round_trip(f.easing, f.start_time, f.end_time, f.start_x, f.end_x);
    let parts = crate::text::spec_split(line, ',');
    assert(parts[0] == "MX"@);
    assert(parts[0] != "F"@ && parts[0] != "S"@ && parts[0] != "V"@ && parts[0] != "R"@
        && parts[0] != "M"@) by {
        assert("MX"@.len() == 2 && "F"@.len() == 1 && "S"@.len() == 1 && "V"@.len() == 1
            && "R"@.len() == 1 && "M"@.len() == 1);
    }
    assert(parts.skip(1) =~~= crate::text::spec_split(rest, ','));
}

#[verifier::rlimit(100)]
#[verifier::spinoff_prover]
proof fn lemma_rt_movey(f: MoveYCommand)
    ensures
        spec_parse_command(spec_render_command(CommandV::MoveY(f))) == Ok::<
            CommandV,
            ParseErrorKind,
        >(CommandV::MoveY(f)),
{
    lemma_names_comma_free();
    reveal_strlit("F");
    reveal_strlit("S");
    reveal_strlit("V");
    reveal_strlit("R");
    reveal_strlit("M");
    reveal_strlit("MX");
    reveal_strlit("MY");
    reveal_strlit("C");
    reveal_strlit("P");
    reveal_strlit("L");
    reveal_strlit("T");
    let line = spec_render_command(CommandV::MoveY(f));

    let rest = spec_times(f.easing, f.start_time, f.end_time) + seq![',']
        + crate::numeric::spec_render_i32(f.start_y as int) + seq![',']
        + crate::numeric::spec_render_i32(f.end_y as int);
    assert(line =~= "MY"@ + seq![','] + rest);
    crate::text::lemma_split_head("MY"@, rest, ',');
    lemma_cmd1_i32_round_trip(f.easing, f.start_time, f.end_time, f.start_y, f.end_y);
    let parts = crate::text::spec_split(line, ',');
    assert(parts[0] == "MY"@);
    assert(parts[0] != "F"@ && parts[0] != "S"@ && parts[0] != "V"@ && parts[0] != "R"@
        && parts[0] != "M"@ && parts[0] != "MX"@) by {
        assert("MY"@.len() == 2 && "F"@.len() == 1 && "S"@.len() == 1 && "V"@.len() == 1
            && "R"@.len() == 1 && "M"@.len() == 1);
        assert("MY"@[1] == 'Y' && "MX"@[1] == 'X');
    }
    assert(parts.skip(1) =~~= crate::text::spec_split(rest, ','));
}

#[verifier::rlimit(100)]
#[verifier::spinoff_prover]
proof fn lemma_rt_move(f: MoveCommand)
    requires
        crate::decimal::dec_valid(f.start_x),
        crate::decimal::dec_valid(f.start_y),
        crate::decimal::dec_valid(f.end_x),
        crate::decimal::dec_valid(f.end_y),
    ensures
        spec_parse_command(spec_render_command(CommandV::Move(f))) == Ok::<
            CommandV,
            ParseErrorKind,
        >(CommandV::Move(f)),
{
    lemma_names_comma_free();
    reveal_strlit("F");
    reveal_strlit("S");
    reveal_strlit("V");
    reveal_strlit("R");
    reveal_strlit("M");
    reveal_strlit("MX");
    reveal_strlit("MY");
    reveal_strlit("C");
    reveal_strlit("P");
    reveal_strlit("L");
    reveal_strlit("T");
    let line = spec_render_command(CommandV::Move(f));

    let rest = spec_times(f.easing, f.start_time, f.end_time) + seq![',']
        + crate::decimal::spec_render_dec(f.start_x) + seq![',']
        + crate::decimal::spec_render_dec(f.start_y) + seq![',']
        + crate::decimal::spec_render_dec(f.end_x) + seq![',']
        + crate::decimal::spec_render_dec(f.end_y);
    assert(line =~= "M"@ + seq![','] + rest);
    crate::text::lemma_split_head("M"@, rest, ',');
    lemma_cmd2_dec_split(
        f.easing,
        f.start_time,
        f.end_time,
        f.start_x,
        f.start_y,
        f.end_x,
        f.end_y,
    );
    let parts = crate::text::spec_split(line, ',');
    assert(parts[0] == "M"@);
    assert(parts[0] != "F"@ && parts[0] != "S"@ && parts[0] != "V"@ && parts[0] != "R"@) by {
        assert("M"@[0] == 'M' && "F"@[0] == 'F' && "S"@[0] == 'S' && "V"@[0] == 'V'
            && "R"@[0] == 'R');
    }
    let tail = parts.skip(1);
    assert(tail =~~= seq![
        crate::numeric::spec_render_i32(f.easing as int),
        crate::numeric::spec_render_i32(f.start_time as int),
        crate::numeric::spec_render_i32(f.end_time as int),
        crate::decimal::spec_render_dec(f.start_x),
        crate::decimal::spec_render_dec(f.start_y),
        crate::decimal::spec_render_dec(f.end_x),
        crate::decimal::spec_render_dec(f.end_y),
    ]);
    crate::numeric::lemma_i32_round_trip(f.easing);
    crate::numeric::lemma_i32_round_trip(f.start_time);
    crate::numeric::lemma_i32_round_trip(f.end_time);
    crate::decimal::lemma_dec_round_trip(f.start_x);
    crate::decimal::lemma_dec_round_trip(f.start_y);
    crate::decimal::lemma_dec_round_trip(f.end_x);
    crate::decimal::lemma_dec_round_trip(f.end_y);
    crate::decimal::lemma_dec_token(f.start_y);
    assert(tail[4].len() > 0);
}

#[verifier::rlimit(100)]
#[verifier::spinoff_prover]
proof fn lemma_rt_vectorscale(f: VectorScaleCommand)
    requires
        crate::decimal::dec_valid(f.start_x),
        crate::decimal::dec_valid(f.start_y),
        crate::decimal::dec_valid(f.end_x),
        crate::decimal::dec_valid(f.end_y),
    ensures
        spec_parse_command(spec_render_command(CommandV::VectorScale(f))) == Ok::<
            CommandV,
            ParseErrorKind,
        >(CommandV::VectorScale(f)),
{
    lemma_names_comma_free();
    reveal_strlit("F");
    reveal_strlit("S");
    reveal_strlit("V");
    reveal_strlit("R");
    reveal_strlit("M");
    reveal_strlit("MX");
    reveal_strlit("MY");
    reveal_strlit("C");
    reveal_strlit("P");
    reveal_strlit("L");
    reveal_strlit("T");
    let line = spec_render_command(CommandV::VectorScale(f));

    let rest = spec_times(f.easing, f.start_time, f.end_time) + seq![',']
        + crate::decimal::spec_render_dec(f.start_x) + seq![',']
        + crate::decimal::spec_render_dec(f.start_y) + seq![',']
        + crate::decimal::spec_render_dec(f.end_x) + seq![',']
        + crate::decimal::spec_render_dec(f.end_y);
    assert(line =~= "V"@ + seq![','] + rest);
    crate::text::lemma_split_head("V"@, rest, ',');
    lemma_cmd2_dec_split(
        f.easing,
        f.start_time,
        f.end_time,
        f.start_x,
        f.start_y,
        f.end_x,
        f.end_y,
    );
    let parts = crate::text::spec_split(line, ',');
    assert(parts[0] == "V"@);
    assert(parts[0] != "F"@ && parts[0] != "S"@) by {
        assert("V"@[0] == 'V' && "F"@[0] == 'F' && "S"@[0] == 'S');
    }
    let tail = parts.skip(1);
    assert(tail =~~= seq![
        crate::numeric::spec_render_i32(f.easing as int),
        crate::numeric::spec_render_i32(f.start_time as int),
        crate::numeric::spec_render_i32(f.end_time as int),
        crate::decimal::spec_render_dec(f.start_x),
        crate::decimal::spec_render_dec(f.start_y),
        crate::decimal::spec_render_dec(f.end_x),
        crate::decimal::spec_render_dec(f.end_y),
    ]);
    crate::numeric::lemma_i32_round_trip(f.easing);
    crate::numeric::lemma_i32_round_trip(f.start_time);
    crate::numeric::lemma_i32_round_trip(f.end_time);
    crate::decimal::lemma_dec_round_trip(f.start_x);
    crate::decimal::lemma_dec_round_trip(f.start_y);
    crate::decimal::lemma_dec_round_trip(f.end_x);
    crate::decimal::lemma_dec_round_trip(f.end_y);
    crate::decimal::lemma_dec_token(f.start_y);
    assert(tail[4].len() > 0);
}

#[verifier::rlimit(100)]
#[verifier::spinoff_prover]
proof fn lemma_rt_color(f: ColorCommand)
    ensures
        spec_parse_command(spec_render_command(CommandV::Color(f))) == Ok::<
            CommandV,
            ParseErrorKind,
        >(CommandV::Color(f)),
{
    lemma_names_comma_free();
    reveal_strlit("F");
    reveal_strlit("S");
    reveal_strlit("V");
    reveal_strlit("R");
    reveal_strlit("M");
    reveal_strlit("MX");
    reveal_strlit("MY");
    reveal_strlit("C");
    reveal_strlit("P");
    reveal_strlit("L");
    reveal_strlit("T");
    let line = spec_render_command(CommandV::Color(f));

    let t1 = crate::numeric::spec_render_i32(f.start_color.r as int);
    let t2 = crate::numeric::spec_render_i32(f.start_color.g as int);
    let t3 = crate::numeric::spec_render_i32(f.start_color.b as int);
    let t4 = crate::numeric::spec_render_i32(f.end_color.r as int);
    let t5 = crate::numeric::spec_render_i32(f.end_color.g as int);
    let t6 = crate::numeric::spec_render_i32(f.end_color.b as int);
    crate::numeric::lemma_i32_token(f.start_color.r);
    crate::numeric::lemma_i32_token(f.start_color.g);
    crate::numeric::lemma_i32_token(f.start_color.b);
    crate::numeric::lemma_i32_token(f.end_color.r);
    crate::numeric::lemma_i32_token(f.end_color.g);
    crate::numeric::lemma_i32_token(f.end_color.b);
    let rest = spec_times(f.easing, f.start_time, f.end_time) + seq![','] + (t1 + seq![',']
        + (t2 + seq![','] + (t3 + seq![','] + (t4 + seq![','] + (t5 + seq![','] + t6)))));
    assert(line =~= "C"@ + seq![','] + rest);
    crate::text::lemma_split_head("C"@, rest, ',');
    lemma_split_times(f.easing, f.start_time, f.end_time, t1 + seq![','] + (t2 + seq![',']
        + (t3 + seq![','] + (t4 + seq![','] + (t5 + seq![','] + t6)))));
    crate::text::lemma_split_head(t1, t2 + seq![','] + (t3 + seq![','] + (t4 + seq![','] + (
    t5 + seq![','] + t6))), ',');
    crate::text::lemma_split_head(t2, t3 + seq![','] + (t4 + seq![','] + (t5 + seq![',']
        + t6)), ',');
    crate::text::lemma_split_head(t3, t4 + seq![','] + (t5 + seq![','] + t6), ',');
    crate::text::lemma_split_head(t4, t5 + seq![','] + t6, ',');
    crate::text::lemma_split_head(t5, t6, ',');
    lemma_split_last(t6);
    let parts = crate::text::spec_split(line, ',');
    assert(parts[0] == "C"@);
    assert(parts[0] != "F"@ && parts[0] != "S"@ && parts[0] != "V"@ && parts[0] != "R"@
        && parts[0] != "M"@ && parts[0] != "MX"@ && parts[0] != "MY"@) by {
        assert("C"@[0] == 'C' && "F"@[0] == 'F' && "S"@[0] == 'S' && "V"@[0] == 'V'
            && "R"@[0] == 'R' && "M"@[0] == 'M');
        assert("MX"@.len() == 2 && "MY"@.len() == 2 && "C"@.len() == 1);
    }
    let tail = parts.skip(1);
    assert(tail =~~= seq![
        crate::numeric::spec_render_i32(f.easing as int),
        crate::numeric::spec_render_i32(f.start_time as int),
        crate::numeric::spec_render_i32(f.end_time as int),
        t1,
        t2,
        t3,
        t4,
        t5,
        t6,
    ]);
    crate::numeric::lemma_i32_round_trip(f.easing);
    crate::numeric::lemma_i32_round_trip(f.start_time);
    crate::numeric::lemma_i32_round_trip(f.end_time);
    crate::numeric::lemma_i32_round_trip(f.start_color.r);
    crate::numeric::lemma_i32_round_trip(f.start_color.g);
    crate::numeric::lemma_i32_round_trip(f.start_color.b);
    crate::numeric::lemma_i32_round_trip(f.end_color.r);
    crate::numeric::lemma_i32_round_trip(f.end_color.g);
    crate::numeric::lemma_i32_round_trip(f.end_color.b);
    assert(tail[5].len() > 0);
}

#[verifier::rlimit(100)]
#[verifier::spinoff_prover]
proof fn lemma_rt_parameter(f: ParameterCommand)
    ensures
        spec_parse_command(spec_render_command(CommandV::Parameter(f))) == Ok::<
            CommandV,
            ParseErrorKind,
        >(CommandV::Parameter(f)),
{
    lemma_names_comma_free();
    reveal_strlit("F");
    reveal_strlit("S");
    reveal_strlit("V");
    reveal_strlit("R");
    reveal_strlit("M");
    reveal_strlit("MX");
    reveal_strlit("MY");
    reveal_strlit("C");
    reveal_strlit("P");
    reveal_strlit("L");
    reveal_strlit("T");
    let line = spec_render_command(CommandV::Parameter(f));

    let en = spec_effect_name(f.parameter_type);
    let rest = spec_times(f.easing, f.start_time, f.end_time) + seq![','] + en;
    assert(line =~= "P"@ + seq![','] + rest);
    crate::text::lemma_split_head("P"@, rest, ',');
    lemma_split_times(f.easing, f.start_time, f.end_time, en);
    reveal_strlit("A");
    reveal_strlit("H");
    lemma_split_last(en);
    let parts = crate::text::spec_split(line, ',');
    assert(parts[0] == "P"@);
    assert(parts[0] != "F"@ && parts[0] != "S"@ && parts[0] != "V"@ && parts[0] != "R"@
        && parts[0] != "M"@ && parts[0] != "MX"@ && parts[0] != "MY"@ && parts[0]
        != "C"@) by {
        assert("P"@[0] == 'P' && "F"@[0] == 'F' && "S"@[0] == 'S' && "V"@[0] == 'V'
            && "R"@[0] == 'R' && "M"@[0] == 'M' && "C"@[0] == 'C');
        assert("MX"@.len() == 2 && "MY"@.len() == 2 && "P"@.len() == 1);
    }
    let tail = parts.skip(1);
    assert(tail =~~= seq![
        crate::numeric::spec_render_i32(f.easing as int),
        crate::numeric::spec_render_i32(f.start_time as int),
        crate::numeric::spec_render_i32(f.end_time as int),
        en,
    ]);
    crate::numeric::lemma_i32_round_trip(f.easing);
    crate::numeric::lemma_i32_round_trip(f.start_time);
    crate::numeric::lemma_i32_round_trip(f.end_time);
    assert(spec_effect_of(en) == f.parameter_type) by {
        assert("A"@[0] == 'A' && "H"@[0] == 'H' && "V"@[0] == 'V' && "R"@[0] == 'R');
    }
}

#[verifier::rlimit(100)]
#[verifier::spinoff_prover]
proof fn lemma_rt_loop(f: LoopCommand)
    ensures
        spec_parse_command(spec_render_command(CommandV::Loop(f))) == Ok::<
            CommandV,
            ParseErrorKind,
        >(CommandV::Loop(f)),
{
    lemma_names_comma_free();
    reveal_strlit("F");
    reveal_strlit("S");
    reveal_strlit("V");
    reveal_strlit("R");
    reveal_strlit("M");
    reveal_strlit("MX");
    reveal_strlit("MY");
    reveal_strlit("C");
    reveal_strlit("P");
    reveal_strlit("L");
    reveal_strlit("T");
    let line = spec_render_command(CommandV::Loop(f));

    let t1 = crate::numeric::spec_render_i32(f.start_time as int);
    let t2 = crate::numeric::spec_render_i32(f.loop_count as int);
    crate::numeric::lemma_i32_token(f.start_time);
    crate::numeric::lemma_i32_token(f.loop_count);
    let rest = t1 + seq![','] + t2;
    assert(line =~= "L"@ + seq![','] + rest);
    crate::text::lemma_split_head("L"@, rest, ',');
    crate::text::lemma_split_head(t1, t2, ',');
    lemma_split_last(t2);
    let parts = crate::text::spec_split(line, ',');
    assert(parts[0] == "L"@);
    assert(parts[0] != "F"@ && parts[0] != "S"@ && parts[0] != "V"@ && parts[0] != "R"@
        && parts[0] != "M"@ && parts[0] != "MX"@ && parts[0] != "MY"@ && parts[0] != "C"@
        && parts[0] != "P"@) by {
        assert("L"@[0] == 'L' && "F"@[0] == 'F' && "S"@[0] == 'S' && "V"@[0] == 'V'
            && "R"@[0] == 'R' && "M"@[0] == 'M' && "C"@[0] == 'C' && "P"@[0] == 'P');
        assert("MX"@.len() == 2 && "MY"@.len() == 2 && "L"@.len() == 1);
    }
    let tail = parts.skip(1);
    assert(tail =~~= seq![t1, t2]);
    crate::numeric::lemma_i32_round_trip(f.start_time);
    crate::numeric::lemma_i32_round_trip(f.loop_count);
}

#[verifier::rlimit(100)]
#[verifier::spinoff_prover]
proof fn lemma_rt_trigger(f: TriggerCommandV)
    requires
        match f.group {
            Some(g) => forall|j: int| 0 <= j < g.len() ==> #[trigger] g[j] != ',',
            None => true,
        },
    ensures
        spec_parse_command(spec_render_command(CommandV::Trigger(f))) == Ok::<
            CommandV,
            ParseErrorKind,
        >(CommandV::Trigger(f)),
{
    lemma_names_comma_free();
    reveal_strlit("F");
    reveal_strlit("S");
    reveal_strlit("V");
    reveal_strlit("R");
    reveal_strlit("M");
    reveal_strlit("MX");
    reveal_strlit("MY");
    reveal_strlit("C");
    reveal_strlit("P");
    reveal_strlit("L");
    reveal_strlit("T");
    let line = spec_render_command(CommandV::Trigger(f));

    let tn = spec_trigger_name(f.trigger_type);
    let t1 = crate::numeric::spec_render_i32(f.start_time as int);
    let t2 = crate::numeric::spec_render_i32(f.end_time as int);
    crate::numeric::lemma_i32_token(f.start_time);
    crate::numeric::lemma_i32_token(f.end_time);
    let parts = crate::text::spec_split(line, ',');
    match f.group {
        None => {
            let rest = tn + seq![','] + (t1 + seq![','] + t2);
            assert(line =~= "T"@ + seq![','] + rest);
            crate::text::lemma_split_head("T"@, rest, ',');
            crate::text::lemma_split_head(tn, t1 + seq![','] + t2, ',');
            crate::text::lemma_split_head(t1, t2, ',');
            lemma_split_last(t2);
            assert(parts.skip(1) =~~= seq![tn, t1, t2]);
        },
        Some(g) => {
            let rest = tn + seq![','] + (t1 + seq![','] + (t2 + seq![','] + g));
            assert(line =~= "T"@ + seq![','] + rest);
            crate::text::lemma_split_head("T"@, rest, ',');
            crate::text::lemma_split_head(tn, t1 + seq![','] + (t2 + seq![','] + g), ',');
            crate::text::lemma_split_head(t1, t2 + seq![','] + g, ',');
            crate::text::lemma_split_head(t2, g, ',');
            lemma_split_last(g);
            assert(parts.skip(1) =~~= seq![tn, t1, t2, g]);
        },
    }
    assert(parts[0] == "T"@);
    assert(parts[0] != "F"@ && parts[0] != "S"@ && parts[0] != "V"@ && parts[0] != "R"@
        && parts[0] != "M"@ && parts[0] != "MX"@ && parts[0] != "MY"@ && parts[0] != "C"@
        && parts[0] != "P"@ && parts[0] != "L"@) by {
        assert("T"@[0] == 'T' && "F"@[0] == 'F' && "S"@[0] == 'S' && "V"@[0] == 'V'
            && "R"@[0] == 'R' && "M"@[0] == 'M' && "C"@[0] == 'C' && "P"@[0] == 'P'
            && "L"@[0] == 'L');
        assert("MX"@.len() == 2 && "MY"@.len() == 2 && "T"@.len() == 1);
    }
    crate::numeric::lemma_i32_round_trip(f.start_time);
    crate::numeric::lemma_i32_round_trip(f.end_time);
    assert(spec_trigger_of(tn) == f.trigger_type) by {
        reveal_strlit("HitSoundClap");
        reveal_strlit("HitSoundFinish");
        reveal_strlit("HitSoundWhistle");
        reveal_strlit("Passing");
        reveal_strlit("Failing");
        assert("HitSoundClap"@.len() == 12 && "HitSoundFinish"@.len() == 14
            && "HitSoundWhistle"@.len() == 15 && "Passing"@.len() == 7 && "Failing"@.len()
            == 7);
        assert("Passing"@[0] == 'P' && "Failing"@[0] == 'F');
    }
}

/// Round trip: a canonical command line decodes back to the same command.
pub proof fn lemma_command_round_trip(c: CommandV)
    requires
        cmd_valid(c),
    ensures
        spec_parse_command(spec_render_command(c)) == Ok::<CommandV, ParseErrorKind>(c),
{
    match c {
        CommandV::Fade(f) => lemma_rt_fade(f),
        CommandV::Scale(f) => lemma_rt_scale(f),
        CommandV::Rotate(f) => lemma_rt_rotate(f),
        CommandV::MoveX(f) => lemma_rt_movex(f),
        CommandV::MoveY(f) => lemma_rt_movey(f),
        CommandV::Move(f) => lemma_rt_move(f),
        CommandV::VectorScale(f) => lemma_rt_vectorscale(f),
        CommandV::Color(f) => lemma_rt_color(f),
        CommandV::Parameter(f) => lemma_rt_parameter(f),
        CommandV::Loop(f) => lemma_rt_loop(f),
        CommandV::Trigger(f) => lemma_rt_trigger(f),
    }
}

/// The inference law of the compact form: a scalar command whose end-time
/// token is omitted (left empty) decodes exactly as one whose explicit end
/// time equals its start time.
pub proof fn lemma_cmd1_compact_form(e: Seq<char>, st: Seq<char>, et: Seq<char>, v: Seq<char>)
    requires
        spec_parse_i32(et) == spec_parse_i32(st),
    ensures
        spec_parse_cmd1_dec(seq![e, st, Seq::<char>::empty(), v]) == spec_parse_cmd1_dec(
            seq![e, st, et, v],
        ),
        spec_parse_cmd1_i32(seq![e, st, Seq::<char>::empty(), v]) == spec_parse_cmd1_i32(
            seq![e, st, et, v],
        ),
{
    let a = seq![e, st, Seq::<char>::empty(), v];
    let b = seq![e, st, et, v];
    assert(a[0] == e && a[1] == st && a[2] =~= Seq::<char>::empty() && a[3] == v);
    assert(b[0] == e && b[1] == st && b[2] == et && b[3] == v);
    if et.len() == 0 {
        assert(a =~~= b);
    }
}

} // verus!

verus! {

impl DeepView for Command {
    type V = CommandV;

    open spec fn deep_view(&self) -> CommandV {
        self.view()
    }
}

} // verus!

verus! {

/// A scalar tail's two decimals come straight from the decimal parser, so
/// they are canonical.
proof fn lemma_cmd1_dec_parse_valid(s: Seq<Seq<char>>)
    ensures
        match spec_parse_cmd1_dec(s) {
            Ok((easing, st, et, sv, ev)) => crate::decimal::dec_valid(sv)
                && crate::decimal::dec_valid(ev),
            Err(_) => true,
        },
{
    if s.len() >= 2 {
        crate::decimal::lemma_parse_dec_valid(s[s.len() - 1]);
        crate::decimal::lemma_parse_dec_valid(s[s.len() - 2]);
    }
}

/// Whatever the command decoder accepts satisfies the render validity
/// predicate: its decimals are canonical and a trigger group, being one
/// comma-separated token, holds no comma.
#[verifier::rlimit(100)]
#[verifier::spinoff_prover]
pub proof fn lemma_parse_command_valid(line: Seq<char>)
    ensures
        match spec_parse_command(line) {
            Ok(c) => cmd_valid(c),
            Err(_) => true,
        },
{
    let parts = crate::text::spec_split(line, ',');
    let tail = parts.skip(1);
    crate::text::lemma_split_no_sep(line, ',');
    lemma_cmd1_dec_parse_valid(tail);
    if tail.len() >= 2 {
        // The four-value tails read these token positions as decimals.
        crate::decimal::lemma_parse_dec_valid(tail[tail.len() - 1]);
        crate::decimal::lemma_parse_dec_valid(tail[tail.len() - 2]);
        if tail.len() >= 3 {
            crate::decimal::lemma_parse_dec_valid(tail[tail.len() - 3]);
        }
        if tail.len() >= 4 {
            crate::decimal::lemma_parse_dec_valid(tail[tail.len() - 4]);
        }
    }
    if parts[0] == "T"@ && spec_parse_trigger(tail) is Ok && tail.len() > 3 {
        assert forall|j: int| 0 <= j < tail[3].len() implies #[trigger] tail[3][j] != ',' by {
            assert(tail[3] == parts[4]);
        }
    }
}

} // verus!
