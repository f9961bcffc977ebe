//! The `[Events]` section: background, video and break references, basic
//! extension events kept verbatim, and storyboard objects with their
//! animation command runs.

use crate::command::Command;
use crate::command::CommandV;
use crate::command::spec_render_command;
use crate::command::cmd_valid;
use crate::decimal::Decimal;
use crate::decimal::dec_valid;
use crate::decimal::parse_dec_str;
use crate::decimal::spec_parse_dec;
use crate::decimal::spec_render_dec;
use crate::error::ParseErrorKind;
use crate::error::view_result;
use crate::numeric::parse_i32_str;
use crate::numeric::render_i32;
use crate::numeric::spec_parse_i32;
use crate::numeric::spec_render_i32;
use crate::text::spec_split_trim;
use crate::text::split_trim;
use crate::text::str_eq;
use vstd::prelude::*;

verus! {

/// The layer a storyboard object draws on; unrecognized names fall back to
/// `Background`.
#[derive(Clone, Copy, Debug, PartialEq, Eq, Structural)]
pub enum StoryboardLayer {
    Background,
    Fail,
    Pass,
    Foreground,
    Overlay,
}

pub open spec fn spec_layer_of(s: Seq<char>) -> StoryboardLayer {
    if s == "Background"@ {
        StoryboardLayer::Background
    } else if s == "Fail"@ {
        StoryboardLayer::Fail
    } else if s == "Pass"@ {
        StoryboardLayer::Pass
    } else if s == "Foreground"@ {
        StoryboardLayer::Foreground
    } else if s == "Overlay"@ {
        StoryboardLayer::Overlay
    } else {
        StoryboardLayer::Background
    }
}

pub open spec fn spec_layer_name(l: StoryboardLayer) -> Seq<char> {
    match l {
        StoryboardLayer::Background => "Background"@,
        StoryboardLayer::Fail => "Fail"@,
        StoryboardLayer::Pass => "Pass"@,
        StoryboardLayer::Foreground => "Foreground"@,
        StoryboardLayer::Overlay => "Overlay"@,
    }
}

impl StoryboardLayer {
    /// Decides which layer a token selects, with the documented fallback.
    pub fn of_token(s: &str) -> (r: StoryboardLayer)
        ensures
            r == spec_layer_of(s@),
    {
        if str_eq(s, "Background") {
            StoryboardLayer::Background
        } else if str_eq(s, "Fail") {
            StoryboardLayer::Fail
        } else if str_eq(s, "Pass") {
            StoryboardLayer::Pass
        } else if str_eq(s, "Foreground") {
            StoryboardLayer::Foreground
        } else if str_eq(s, "Overlay") {
            StoryboardLayer::Overlay
        } else {
            StoryboardLayer::Background
        }
    }

    pub fn render(&self, out: &mut String)
        ensures
            final(out)@ == old(out)@ + spec_layer_name(*self),
    {
        match self {
            StoryboardLayer::Background => out.append("Background"),
            StoryboardLayer::Fail => out.append("Fail"),
            StoryboardLayer::Pass => out.append("Pass"),
            StoryboardLayer::Foreground => out.append("Foreground"),
            StoryboardLayer::Overlay => out.append("Overlay"),
        }
    }
}

/// How an animation repeats; unrecognized names fall back to
/// `LoopForever`.
#[derive(Clone, Copy, Debug, PartialEq, Eq, Structural)]
pub enum LoopType {
    LoopForever,
    LoopOnce,
}

pub open spec fn spec_loop_type_of(s: Seq<char>) -> LoopType {
    if s == "LoopForever"@ {
        LoopType::LoopForever
    } else if s == "LoopOnce"@ {
        LoopType::LoopOnce
    } else {
        LoopType::LoopForever
    }
}

pub open spec fn spec_loop_type_name(l: LoopType) -> Seq<char> {
    match l {
        LoopType::LoopForever => "LoopForever"@,
        LoopType::LoopOnce => "LoopOnce"@,
    }
}

impl LoopType {
    /// Decides which repeat mode a token selects, with the documented
    /// fallback.
    pub fn of_token(s: &str) -> (r: LoopType)
        ensures
            r == spec_loop_type_of(s@),
    {
        if str_eq(s, "LoopForever") {
            LoopType::LoopForever
        } else if str_eq(s, "LoopOnce") {
            LoopType::LoopOnce
        } else {
            LoopType::LoopForever
        }
    }

    pub fn render(&self, out: &mut String)
        ensures
            final(out)@ == old(out)@ + spec_loop_type_name(*self),
    {
        match self {
            LoopType::LoopForever => out.append("LoopForever"),
            LoopType::LoopOnce => out.append("LoopOnce"),
        }
    }
}

/// The anchor point of a sprite; unrecognized names fall back to
/// `TopLeft`.
#[derive(Clone, Copy, Debug, PartialEq, Eq, Structural)]
pub enum Origin {
    TopLeft,
    TopCentre,
    TopRight,
    CentreLeft,
    Centre,
    CentreRight,
    BottomLeft,
    BottomCentre,
    BottomRight,
}

pub open spec fn spec_origin_of(s: Seq<char>) -> Origin {
    if s == "TopLeft"@ {
        Origin::TopLeft
    } else if s == "TopCentre"@ {
        Origin::TopCentre
    } else if s == "TopRight"@ {
        Origin::TopRight
    } else if s == "CentreLeft"@ {
        Origin::CentreLeft
    } else if s == "Centre"@ {
        Origin::Centre
    } else if s == "CentreRight"@ {
        Origin::CentreRight
    } else if s == "BottomLeft"@ {
        Origin::BottomLeft
    } else if s == "BottomCentre"@ {
        Origin::BottomCentre
    } else if s == "BottomRight"@ {
        Origin::BottomRight
    } else {
        Origin::TopLeft
    }
}

pub open spec fn spec_origin_name(o: Origin) -> Seq<char> {
    match o {
        Origin::TopLeft => "TopLeft"@,
        Origin::TopCentre => "TopCentre"@,
        Origin::TopRight => "TopRight"@,
        Origin::CentreLeft => "CentreLeft"@,
        Origin::Centre => "Centre"@,
        Origin::CentreRight => "CentreRight"@,
        Origin::BottomLeft => "BottomLeft"@,
        Origin::BottomCentre => "BottomCentre"@,
        Origin::BottomRight => "BottomRight"@,
    }
}

impl Origin {
    /// Decides which anchor a token selects, with the documented fallback.
    pub fn of_token(s: &str) -> (r: Origin)
        ensures
            r == spec_origin_of(s@),
    {
        if str_eq(s, "TopLeft") {
            Origin::TopLeft
        } else if str_eq(s, "TopCentre") {
            Origin::TopCentre
        } else if str_eq(s, "TopRight") {
            Origin::TopRight
        } else if str_eq(s, "CentreLeft") {
            Origin::CentreLeft
        } else if str_eq(s, "Centre") {
            Origin::Centre
        } else if str_eq(s, "CentreRight") {
            Origin::CentreRight
        } else if str_eq(s, "BottomLeft") {
            Origin::BottomLeft
        } else if str_eq(s, "BottomCentre") {
            Origin::BottomCentre
        } else if str_eq(s, "BottomRight") {
            Origin::BottomRight
        } else {
            Origin::TopLeft
        }
    }

    pub fn render(&self, out: &mut String)
        ensures
            final(out)@ == old(out)@ + spec_origin_name(*self),
    {
        match self {
            Origin::TopLeft => out.append("TopLeft"),
            Origin::TopCentre => out.append("TopCentre"),
            Origin::TopRight => out.append("TopRight"),
            Origin::CentreLeft => out.append("CentreLeft"),
            Origin::Centre => out.append("Centre"),
            Origin::CentreRight => out.append("CentreRight"),
            Origin::BottomLeft => out.append("BottomLeft"),
            Origin::BottomCentre => out.append("BottomCentre"),
            Origin::BottomRight => out.append("BottomRight"),
        }
    }
}

/// A still sprite placement.
#[derive(Clone, Debug, PartialEq, Eq)]
pub struct SpriteType {
    pub layer: StoryboardLayer,
    pub origin: Origin,
    pub image_path: String,
    pub offset_x: Decimal,
    pub offset_y: Decimal,
}

pub ghost struct SpriteTypeV {
    pub layer: StoryboardLayer,
    pub origin: Origin,
    pub image_path: Seq<char>,
    pub offset_x: Decimal,
    pub offset_y: Decimal,
}

impl View for SpriteType {
    type V = SpriteTypeV;

    open spec fn view(&self) -> SpriteTypeV {
        SpriteTypeV {
            layer: self.layer,
            origin: self.origin,
            image_path: self.image_path@,
            offset_x: self.offset_x,
            offset_y: self.offset_y,
        }
    }
}

/// An animated sprite placement.
#[derive(Clone, Debug, PartialEq, Eq)]
pub struct AnimationType {
    pub layer: StoryboardLayer,
    pub origin: Origin,
    pub image_path: String,
    pub offset_x: Decimal,
    pub offset_y: Decimal,
    pub frame_count: i32,
    pub frame_delay: i32,
    pub loop_type: LoopType,
}

pub ghost struct AnimationTypeV {
    pub layer: StoryboardLayer,
    pub origin: Origin,
    pub image_path: Seq<char>,
    pub offset_x: Decimal,
    pub offset_y: Decimal,
    pub frame_count: i32,
    pub frame_delay: i32,
    pub loop_type: LoopType,
}

impl View for AnimationType {
    type V = AnimationTypeV;

    open spec fn view(&self) -> AnimationTypeV {
        AnimationTypeV {
            layer: self.layer,
            origin: self.origin,
            image_path: self.image_path@,
            offset_x: self.offset_x,
            offset_y: self.offset_y,
            frame_count: self.frame_count,
            frame_delay: self.frame_delay,
            loop_type: self.loop_type,
        }
    }
}

/// An audio sample placement.
#[derive(Clone, Debug, PartialEq, Eq)]
pub struct SampleType {
    pub layer: StoryboardLayer,
    pub image_path: String,
    pub volume: i32,
    pub time: i32,
}

pub ghost struct SampleTypeV {
    pub layer: StoryboardLayer,
    pub image_path: Seq<char>,
    pub volume: i32,
    pub time: i32,
}

impl View for SampleType {
    type V = SampleTypeV;

    open spec fn view(&self) -> SampleTypeV {
        SampleTypeV {
            layer: self.layer,
            image_path: self.image_path@,
            volume: self.volume,
            time: self.time,
        }
    }
}

/// A storyboard object's placement, tagged by its kind.
#[derive(Clone, Debug, PartialEq, Eq)]
pub enum StoryboardType {
    Sprite(SpriteType),
    Animation(AnimationType),
    Sample(SampleType),
}

pub ghost enum StoryboardTypeV {
    Sprite(SpriteTypeV),
    Animation(AnimationTypeV),
    Sample(SampleTypeV),
}

impl View for StoryboardType {
    type V = StoryboardTypeV;

    open spec fn view(&self) -> StoryboardTypeV {
        match self {
            StoryboardType::Sprite(s) => StoryboardTypeV::Sprite(s@),
            StoryboardType::Animation(s) => StoryboardTypeV::Animation(s@),
            StoryboardType::Sample(s) => StoryboardTypeV::Sample(s@),
        }
    }
}

/// A storyboard object: its placement line and the command run that
/// follows it.
#[derive(Clone, Debug, PartialEq, Eq)]
pub struct OsuStoryboard {
    pub storyboard_type: StoryboardType,
    pub commands: Vec<Command>,
}

pub ghost struct OsuStoryboardV {
    pub storyboard_type: StoryboardTypeV,
    pub commands: Seq<CommandV>,
}

impl View for OsuStoryboard {
    type V = OsuStoryboardV;

    open spec fn view(&self) -> OsuStoryboardV {
        OsuStoryboardV { storyboard_type: self.storyboard_type@, commands: self.commands.deep_view() }
    }
}

/// The object-line grammar, over the trimmed comma tokens: `Sprite`,
/// `Animation` or `Sample` followed by that kind's placement fields.
pub open spec fn spec_parse_storyboard_object(s: Seq<Seq<char>>) -> Result<
    StoryboardTypeV,
    ParseErrorKind,
> {
    if s.len() < 1 {
        Err(ParseErrorKind::MissingRequiredField)
    } else if s[0] == "Sprite"@ {
        if s.len() < 6 {
            Err(ParseErrorKind::MissingRequiredField)
        } else {
            match (spec_parse_dec(s[4]), spec_parse_dec(s[5])) {
                (Some(ox), Some(oy)) => Ok(
                    StoryboardTypeV::Sprite(
                        SpriteTypeV {
                            layer: spec_layer_of(s[1]),
                            origin: spec_origin_of(s[2]),
                            image_path: s[3],
                            offset_x: ox,
                            offset_y: oy,
                        },
                    ),
                ),
                _ => Err(ParseErrorKind::MalformedField),
            }
        }
    } else if s[0] == "Animation"@ {
        if s.len() < 9 {
            Err(ParseErrorKind::MissingRequiredField)
        } else {
            match (
                spec_parse_dec(s[4]),
                spec_parse_dec(s[5]),
                spec_parse_i32(s[6]),
                spec_parse_i32(s[7]),
            ) {
                (Some(ox), Some(oy), Some(fc), Some(fd)) => Ok(
                    StoryboardTypeV::Animation(
                        AnimationTypeV {
                            layer: spec_layer_of(s[1]),
                            origin: spec_origin_of(s[2]),
                            image_path: s[3],
                            offset_x: ox,
                            offset_y: oy,
                            frame_count: fc,
                            frame_delay: fd,
                            loop_type: spec_loop_type_of(s[8]),
                        },
                    ),
                ),
                _ => Err(ParseErrorKind::MalformedField),
            }
        }
    } else if s[0] == "Sample"@ {
        if s.len() < 5 {
            Err(ParseErrorKind::MissingRequiredField)
        } else {
            match (spec_parse_i32(s[3]), spec_parse_i32(s[4])) {
                (Some(volume), Some(time)) => Ok(
                    StoryboardTypeV::Sample(
                        SampleTypeV { layer: spec_layer_of(s[1]), image_path: s[2], volume, time },
                    ),
                ),
                _ => Err(ParseErrorKind::MalformedField),
            }
        }
    } else {
        Err(ParseErrorKind::MalformedField)
    }
}

impl OsuStoryboard {
    /// Reads one object line (a storyboard object with no commands yet).
    pub fn parse(value: &str) -> (res: Result<OsuStoryboard, ParseErrorKind>)
        ensures
            match res {
                Ok(sb) => spec_parse_storyboard_object(spec_split_trim(value@, ',')) == Ok::<
                    StoryboardTypeV,
                    ParseErrorKind,
                >(sb@.storyboard_type) && sb@.commands.len() == 0,
                Err(e) => spec_parse_storyboard_object(spec_split_trim(value@, ',')) == Err::<
                    StoryboardTypeV,
                    ParseErrorKind,
                >(e),
            },
    {
        let parts = split_trim(value, ',');
        let ghost pv = parts.deep_view();
        assert(pv[0] == parts[0]@);
        let st: StoryboardType = if str_eq(parts[0], "Sprite") {
            if parts.len() < 6 {
                return Err(ParseErrorKind::MissingRequiredField);
            }
            assert(pv[1] == parts[1]@ && pv[2] == parts[2]@ && pv[3] == parts[3]@ && pv[4]
                == parts[4]@ && pv[5] == parts[5]@);
            match (parse_dec_str(parts[4]), parse_dec_str(parts[5])) {
                (Some(ox), Some(oy)) => StoryboardType::Sprite(
                    SpriteType {
                        layer: StoryboardLayer::of_token(parts[1]),
                        origin: Origin::of_token(parts[2]),
                        image_path: parts[3].to_owned(),
                        offset_x: ox,
                        offset_y: oy,
                    },
                ),
                _ => {
                    return Err(ParseErrorKind::MalformedField);
                },
            }
        } else if str_eq(parts[0], "Animation") {
            if parts.len() < 9 {
                return Err(ParseErrorKind::MissingRequiredField);
            }
            assert(pv[1] == parts[1]@ && pv[2] == parts[2]@ && pv[3] == parts[3]@ && pv[4]
                == parts[4]@ && pv[5] == parts[5]@ && pv[6] == parts[6]@ && pv[7] == parts[7]@
                && pv[8] == parts[8]@);
            match (
                parse_dec_str(parts[4]),
                parse_dec_str(parts[5]),
                parse_i32_str(parts[6]),
                parse_i32_str(parts[7]),
            ) {
                (Some(ox), Some(oy), Some(fc), Some(fd)) => StoryboardType::Animation(
                    AnimationType {
                        layer: StoryboardLayer::of_token(parts[1]),
                        origin: Origin::of_token(parts[2]),
                        image_path: parts[3].to_owned(),
                        offset_x: ox,
                        offset_y: oy,
                        frame_count: fc,
                        frame_delay: fd,
                        loop_type: LoopType::of_token(parts[8]),
                    },
                ),
                _ => {
                    return Err(ParseErrorKind::MalformedField);
                },
            }
        } else if str_eq(parts[0], "Sample") {
            if parts.len() < 5 {
                return Err(ParseErrorKind::MissingRequiredField);
            }
            assert(pv[1] == parts[1]@ && pv[2] == parts[2]@ && pv[3] == parts[3]@ && pv[4]
                == parts[4]@);
            match (parse_i32_str(parts[3]), parse_i32_str(parts[4])) {
                (Some(volume), Some(time)) => StoryboardType::Sample(
                    SampleType {
                        layer: StoryboardLayer::of_token(parts[1]),
                        image_path: parts[2].to_owned(),
                        volume,
                        time,
                    },
                ),
                _ => {
                    return Err(ParseErrorKind::MalformedField);
                },
            }
        } else {
            return Err(ParseErrorKind::MalformedField);
        };
        let sb = OsuStoryboard { storyboard_type: st, commands: Vec::new() };
        proof {
            assert(sb@.commands =~= Seq::<CommandV>::empty());
        }
        Ok(sb)
    }

    /// Attaches one more command to the object's run.
    pub fn add_command(&mut self, command: Command)
        ensures
            final(self)@.storyboard_type == old(self)@.storyboard_type,
            final(self)@.commands == old(self)@.commands.push(command@),
    {
        let ghost prev = self.commands.deep_view();
        self.commands.push(command);
        proof {
            assert(self.commands.deep_view() =~= prev.push(command@));
        }
    }
}

/// The canonical placement line of a storyboard object (no newline).
pub open spec fn spec_render_storyboard_object(st: StoryboardTypeV) -> Seq<char> {
    match st {
        StoryboardTypeV::Sprite(s) => "Sprite,"@ + spec_layer_name(s.layer) + seq![',']
            + spec_origin_name(s.origin) + seq![','] + s.image_path + seq![','] + spec_render_dec(
            s.offset_x,
        ) + seq![','] + spec_render_dec(s.offset_y),
        StoryboardTypeV::Animation(s) => "Animation,"@ + spec_layer_name(s.layer) + seq![',']
            + spec_origin_name(s.origin) + seq![','] + s.image_path + seq![','] + spec_render_dec(
            s.offset_x,
        ) + seq![','] + spec_render_dec(s.offset_y) + seq![','] + spec_render_i32(
            s.frame_count as int,
        ) + seq![','] + spec_render_i32(s.frame_delay as int) + seq![','] + spec_loop_type_name(
            s.loop_type,
        ),
        StoryboardTypeV::Sample(s) => "Sample,"@ + spec_layer_name(s.layer) + seq![',']
            + s.image_path + seq![','] + spec_render_i32(s.volume as int) + seq![',']
            + spec_render_i32(s.time as int),
    }
}

/// A whole storyboard block: the object line, then each command indented
/// by one space on its own line.
pub open spec fn spec_render_storyboard(sb: OsuStoryboardV) -> Seq<char> {
    spec_render_storyboard_object(sb.storyboard_type) + seq!['\n'] + spec_render_command_lines(
        sb.commands,
    )
}

pub open spec fn spec_render_command_lines(cs: Seq<CommandV>) -> Seq<char>
    decreases cs.len(),
{
    if cs.len() == 0 {
        Seq::<char>::empty()
    } else {
        seq![' '] + spec_render_command(cs[0]) + seq!['\n'] + spec_render_command_lines(cs.skip(1))
    }
}

/// A placement whose decimal offsets are canonical.
pub open spec fn object_valid(st: StoryboardTypeV) -> bool {
    match st {
        StoryboardTypeV::Sprite(s) => dec_valid(s.offset_x) && dec_valid(s.offset_y),
        StoryboardTypeV::Animation(s) => dec_valid(s.offset_x) && dec_valid(s.offset_y),
        StoryboardTypeV::Sample(s) => true,
    }
}

pub open spec fn storyboard_valid(sb: OsuStoryboardV) -> bool {
    &&& object_valid(sb.storyboard_type)
    &&& forall|i: int| 0 <= i < sb.commands.len() ==> cmd_valid(#[trigger] sb.commands[i])
}

proof fn lemma_render_command_lines_push(cs: Seq<CommandV>, c: CommandV)
    ensures
        spec_render_command_lines(cs.push(c)) == spec_render_command_lines(cs) + seq![' ']
            + spec_render_command(c) + seq!['\n'],
    decreases cs.len(),
{
    if cs.len() == 0 {
        assert(cs.push(c)[0] == c);
        assert(cs.push(c).skip(1) =~= Seq::<CommandV>::empty());
        assert(spec_render_command_lines(Seq::<CommandV>::empty()) == Seq::<char>::empty());
        assert(spec_render_command_lines(cs.push(c)) =~= spec_render_command_lines(cs) + seq![' ']
            + spec_render_command(c) + seq!['\n']);
    } else {
        lemma_render_command_lines_push(cs.skip(1), c);
        assert(cs.push(c).skip(1) =~= cs.skip(1).push(c));
        assert(cs.push(c)[0] == cs[0]);
        assert(seq![' '] + spec_render_command(cs[0]) + seq!['\n'] + (spec_render_command_lines(
            cs.skip(1),
        ) + seq![' '] + spec_render_command(c) + seq!['\n']) =~= (seq![' '] + spec_render_command(
            cs[0],
        ) + seq!['\n'] + spec_render_command_lines(cs.skip(1))) + seq![' '] + spec_render_command(
            c,
        ) + seq!['\n']);
    }
}

impl StoryboardType {
    /// Appends the canonical placement line (without the newline) to `out`.
    #[verifier::rlimit(100)]
    #[verifier::spinoff_prover]
    pub fn render(&self, out: &mut String)
        requires
            match *self {
                StoryboardType::Sprite(ref s) => dec_valid(s.offset_x) && dec_valid(s.offset_y),
                StoryboardType::Animation(ref s) => dec_valid(s.offset_x) && dec_valid(s.offset_y),
                StoryboardType::Sample(ref s) => true,
            },
        ensures
            final(out)@ == old(out)@ + spec_render_storyboard_object(self@),
    {
        match self {
            StoryboardType::Sprite(s) => {
                out.append("Sprite,");
                s.layer.render(out);
                out.append(",");
                s.origin.render(out);
                out.append(",");
                out.append(s.image_path.as_str());
                out.append(",");
                crate::decimal::render_dec(&s.offset_x, out);
                out.append(",");
                crate::decimal::render_dec(&s.offset_y, out);
                proof {
                    reveal_strlit(",");
                    assert(","@ =~= seq![',']);
                    assert(out@ =~= old(out)@ + spec_render_storyboard_object(self@));
                }
            },
            StoryboardType::Animation(s) => {
                out.append("Animation,");
                s.layer.render(out);
                out.append(",");
                s.origin.render(out);
                out.append(",");
                out.append(s.image_path.as_str());
                out.append(",");
                crate::decimal::render_dec(&s.offset_x, out);
                out.append(",");
                crate::decimal::render_dec(&s.offset_y, out);
                out.append(",");
                render_i32(s.frame_count, out);
                out.append(",");
                render_i32(s.frame_delay, out);
                out.append(",");
                s.loop_type.render(out);
                proof {
                    reveal_strlit(",");
                    assert(","@ =~= seq![',']);
                    assert(out@ =~= old(out)@ + spec_render_storyboard_object(self@));
                }
            },
            StoryboardType::Sample(s) => {
                out.append("Sample,");
                s.layer.render(out);
                out.append(",");
                out.append(s.image_path.as_str());
                out.append(",");
                render_i32(s.volume, out);
                out.append(",");
                render_i32(s.time, out);
                proof {
                    reveal_strlit(",");
                    assert(","@ =~= seq![',']);
                    assert(out@ =~= old(out)@ + spec_render_storyboard_object(self@));
                }
            },
        }
    }
}

impl OsuStoryboard {
    /// Appends the object line and its command lines to `out`.
    pub fn render(&self, out: &mut String)
        requires
            storyboard_valid(self@),
        ensures
            final(out)@ == old(out)@ + spec_render_storyboard(self@),
    {
        self.storyboard_type.render(out);
        out.append("\n");
        proof {
            reveal_strlit("\n");
            assert("\n"@ =~= seq!['\n']);
            assert(out@ =~= old(out)@ + spec_render_storyboard_object(self@.storyboard_type)
                + seq!['\n']);
        }
        let ghost base = out@;
        let mut i: usize = 0;
        proof {
            assert(self.commands.deep_view().take(0) =~= Seq::<CommandV>::empty());
            assert(out@ =~= base + spec_render_command_lines(self.commands.deep_view().take(0)));
        }
        while i < self.commands.len()
            invariant
                0 <= i <= self.commands.len(),
                storyboard_valid(self@),
                out@ == base + spec_render_command_lines(self.commands.deep_view().take(i as int)),
                base == old(out)@ + spec_render_storyboard_object(self@.storyboard_type)
                    + seq!['\n'],
            decreases self.commands.len() - i,
        {
            out.append(" ");
            let c = &self.commands[i];
            proof {
                assert(self.commands.deep_view()[i as int] == self.commands@[i as int].deep_view());
            }
            assert(c@ == self.commands.deep_view()[i as int]);
            assert(self@.commands[i as int] == c@);
            assert(cmd_valid(self@.commands[i as int]));
            c.render(out);
            out.append("\n");
            proof {
                reveal_strlit(" ");
                reveal_strlit("\n");
                assert(" "@ =~= seq![' ']);
                assert("\n"@ =~= seq!['\n']);
                let cv = self.commands.deep_view();
                lemma_render_command_lines_push(cv.take(i as int), cv[i as int]);
                assert(cv.take(i as int).push(cv[i as int]) =~= cv.take(i + 1));
                assert(out@ =~= base + (spec_render_command_lines(cv.take(i as int)) + seq![' ']
                    + spec_render_command(cv[i as int]) + seq!['\n']));
            }
            i += 1;
        }
        proof {
            let cv = self.commands.deep_view();
            assert(cv.take(self.commands.len() as int) =~= cv);
            assert(out@ =~= old(out)@ + spec_render_storyboard(self@));
        }
    }
}

} // verus!

verus! {

/// A background reference.
#[derive(Clone, Debug, PartialEq, Eq)]
pub struct OsuBackground {
    pub start_time: i32,
    pub filename: String,
    pub x_offset: Option<Decimal>,
    pub y_offset: Option<Decimal>,
}

pub ghost struct OsuBackgroundV {
    pub start_time: i32,
    pub filename: Seq<char>,
    pub x_offset: Option<Decimal>,
    pub y_offset: Option<Decimal>,
}

impl View for OsuBackground {
    type V = OsuBackgroundV;

    open spec fn view(&self) -> OsuBackgroundV {
        OsuBackgroundV {
            start_time: self.start_time,
            filename: self.filename@,
            x_offset: self.x_offset,
            y_offset: self.y_offset,
        }
    }
}

impl OsuBackground {
    pub fn new(start_time: i32, filename: String, x_offset: Option<Decimal>, y_offset: Option<
        Decimal,
    >) -> (r: Self)
        ensures
            r@ == (OsuBackgroundV { start_time, filename: filename@, x_offset, y_offset }),
    {
        OsuBackground { start_time, filename, x_offset, y_offset }
    }
}

/// A video reference.
#[derive(Clone, Debug, PartialEq, Eq)]
pub struct OsuVideo {
    pub start_time: i32,
    pub filename: String,
    pub x_offset: Option<Decimal>,
    pub y_offset: Option<Decimal>,
}

pub ghost struct OsuVideoV {
    pub start_time: i32,
    pub filename: Seq<char>,
    pub x_offset: Option<Decimal>,
    pub y_offset: Option<Decimal>,
}

impl View for OsuVideo {
    type V = OsuVideoV;

    open spec fn view(&self) -> OsuVideoV {
        OsuVideoV {
            start_time: self.start_time,
            filename: self.filename@,
            x_offset: self.x_offset,
            y_offset: self.y_offset,
        }
    }
}

impl OsuVideo {
    pub fn new(start_time: i32, filename: String, x_offset: Option<Decimal>, y_offset: Option<
        Decimal,
    >) -> (r: Self)
        ensures
            r@ == (OsuVideoV { start_time, filename: filename@, x_offset, y_offset }),
    {
        OsuVideo { start_time, filename, x_offset, y_offset }
    }
}

/// A break interval.
#[derive(Clone, Copy, Debug, PartialEq, Eq, Structural)]
pub struct OsuBreak {
    pub start_time: i32,
    pub end_time: i32,
}

impl OsuBreak {
    pub fn new(start_time: i32, end_time: i32) -> (r: Self)
        ensures
            r == (OsuBreak { start_time, end_time }),
    {
        OsuBreak { start_time, end_time }
    }
}

/// An unrecognized event line, kept as its type word, time and raw
/// parameters.
#[derive(Clone, Debug, PartialEq, Eq)]
pub struct OsuEvent {
    pub event_type: String,
    pub start_time: i32,
    pub params: Option<Vec<String>>,
}

pub ghost struct OsuEventV {
    pub event_type: Seq<char>,
    pub start_time: i32,
    pub params: Option<Seq<Seq<char>>>,
}

impl View for OsuEvent {
    type V = OsuEventV;

    open spec fn view(&self) -> OsuEventV {
        OsuEventV {
            event_type: self.event_type@,
            start_time: self.start_time,
            params: match self.params {
                Some(ref p) => Some(p.deep_view()),
                None => None,
            },
        }
    }
}

impl OsuEvent {
    pub fn new(event_type: String, start_time: i32, params: Option<Vec<String>>) -> (r: Self)
        ensures
            r@ == (OsuEventV {
                event_type: event_type@,
                start_time,
                params: match params {
                    Some(ref p) => Some(p.deep_view()),
                    None => None,
                },
            }),
    {
        OsuEvent { event_type, start_time, params }
    }
}

/// One entry of the events section.
#[derive(Clone, Debug, PartialEq, Eq)]
pub enum Event {
    Background(OsuBackground),
    Video(OsuVideo),
    Break(OsuBreak),
    Storyboard(OsuStoryboard),
    Basic(OsuEvent),
}

pub ghost enum EventV {
    Background(OsuBackgroundV),
    Video(OsuVideoV),
    Break(OsuBreak),
    Storyboard(OsuStoryboardV),
    Basic(OsuEventV),
}

impl View for Event {
    type V = EventV;

    open spec fn view(&self) -> EventV {
        match self {
            Event::Background(e) => EventV::Background(e@),
            Event::Video(e) => EventV::Video(e@),
            Event::Break(e) => EventV::Break(*e),
            Event::Storyboard(e) => EventV::Storyboard(e@),
            Event::Basic(e) => EventV::Basic(e@),
        }
    }
}

impl DeepView for Event {
    type V = EventV;

    open spec fn deep_view(&self) -> EventV {
        self.view()
    }
}

/// The events of a document, in the order their lines appeared.
#[derive(Clone, Debug, PartialEq, Eq, Default)]
pub struct Events {
    pub events: Vec<Event>,
}

impl View for Events {
    type V = Seq<EventV>;

    open spec fn view(&self) -> Seq<EventV> {
        self.events.deep_view()
    }
}

/// The basic-event grammar over the trimmed comma tokens of one line: a
/// background, video or break reference, or any other event kept verbatim;
/// a short unrecognized line is silently ignored (`None`).
pub open spec fn spec_parse_event(s: Seq<Seq<char>>) -> Result<Option<EventV>, ParseErrorKind> {
    if s.len() < 1 {
        Err(ParseErrorKind::MissingRequiredField)
    } else if s[0] == "0"@ {
        if s.len() < 3 {
            Err(ParseErrorKind::MissingRequiredField)
        } else {
            match spec_parse_i32(s[1]) {
                None => Err(ParseErrorKind::MalformedField),
                Some(start_time) => {
                    if s[2].len() < 2 {
                        Err(ParseErrorKind::MissingRequiredField)
                    } else {
                        let fname = s[2].subrange(1, s[2].len() - 1);
                        let xr: Result<Option<Decimal>, ParseErrorKind> = if s.len() > 3 {
                            match spec_parse_dec(s[3]) {
                                Some(v) => Ok(Some(v)),
                                None => Err(ParseErrorKind::MalformedField),
                            }
                        } else {
                            Ok(None)
                        };
                        let yr: Result<Option<Decimal>, ParseErrorKind> = if s.len() > 4 {
                            match spec_parse_dec(s[4]) {
                                Some(v) => Ok(Some(v)),
                                None => Err(ParseErrorKind::MalformedField),
                            }
                        } else {
                            Ok(None)
                        };
                        match (xr, yr) {
                            (Ok(x_offset), Ok(y_offset)) => Ok(
                                Some(
                                    EventV::Background(
                                        OsuBackgroundV {
                                            start_time,
                                            filename: fname,
                                            x_offset,
                                            y_offset,
                                        },
                                    ),
                                ),
                            ),
                            (Err(e), _) => Err(e),
                            (_, Err(e)) => Err(e),
                        }
                    }
                },
            }
        }
    } else if s[0] == "1"@ || s[0] == "Video"@ {
        if s.len() < 3 {
            Err(ParseErrorKind::MissingRequiredField)
        } else {
            match spec_parse_i32(s[1]) {
                None => Err(ParseErrorKind::MalformedField),
                Some(start_time) => {
                    if s[2].len() < 2 {
                        Err(ParseErrorKind::MissingRequiredField)
                    } else {
                        let fname = s[2].subrange(1, s[2].len() - 1);
                        let xr: Result<Option<Decimal>, ParseErrorKind> = if s.len() > 3 {
                            match spec_parse_dec(s[3]) {
                                Some(v) => Ok(Some(v)),
                                None => Err(ParseErrorKind::MalformedField),
                            }
                        } else {
                            Ok(None)
                        };
                        let yr: Result<Option<Decimal>, ParseErrorKind> = if s.len() > 4 {
                            match spec_parse_dec(s[4]) {
                                Some(v) => Ok(Some(v)),
                                None => Err(ParseErrorKind::MalformedField),
                            }
                        } else {
                            Ok(None)
                        };
                        match (xr, yr) {
                            (Ok(x_offset), Ok(y_offset)) => Ok(
                                Some(
                                    EventV::Video(
                                        OsuVideoV { start_time, filename: fname, x_offset, y_offset },
                                    ),
                                ),
                            ),
                            (Err(e), _) => Err(e),
                            (_, Err(e)) => Err(e),
                        }
                    }
                },
            }
        }
    } else if s[0] == "2"@ || s[0] == "Break"@ {
        if s.len() < 3 {
            Err(ParseErrorKind::MissingRequiredField)
        } else {
            match (spec_parse_i32(s[1]), spec_parse_i32(s[2])) {
                (Some(start_time), Some(end_time)) => Ok(
                    Some(EventV::Break(OsuBreak { start_time, end_time })),
                ),
                _ => Err(ParseErrorKind::MalformedField),
            }
        }
    } else if s.len() > 2 {
        match spec_parse_i32(s[1]) {
            None => Err(ParseErrorKind::MalformedField),
            Some(start_time) => Ok(
                Some(
                    EventV::Basic(
                        OsuEventV {
                            event_type: s[0],
                            start_time,
                            params: Some(s.skip(2)),
                        },
                    ),
                ),
            ),
        }
    } else {
        Ok(None)
    }
}

impl Events {
    /// Reads one basic event line and appends the event it describes, if
    /// any, to the record.
    pub fn parse_value(&mut self, value: &str) -> (res: Result<(), ParseErrorKind>)
        ensures
            match spec_parse_event(spec_split_trim(value@, ',')) {
                Ok(Some(e)) => res is Ok && final(self)@ == old(self)@.push(e),
                Ok(None) => res is Ok && final(self)@ == old(self)@,
                Err(e) => res == Err::<(), ParseErrorKind>(e) && final(self)@ == old(self)@,
            },
    {
        let parts = split_trim(value, ',');
        let ghost pv = parts.deep_view();
        assert(pv[0] == parts[0]@);
        if str_eq(parts[0], "0") || str_eq(parts[0], "1") || str_eq(parts[0], "Video") {
            let is_bg = str_eq(parts[0], "0");
            if parts.len() < 3 {
                return Err(ParseErrorKind::MissingRequiredField);
            }
            assert(pv[1] == parts[1]@ && pv[2] == parts[2]@);
            let start_time = match parse_i32_str(parts[1]) {
                Some(v) => v,
                None => {
                    return Err(ParseErrorKind::MalformedField);
                },
            };
            let ftok = parts[2];
            let fl = ftok.unicode_len();
            if fl < 2 {
                return Err(ParseErrorKind::MissingRequiredField);
            }
            let fname = ftok.substring_char(1, fl - 1);
            assert(fname@ == pv[2].subrange(1, pv[2].len() - 1));
            let x_offset = if parts.len() > 3 {
                assert(pv[3] == parts[3]@);
                match parse_dec_str(parts[3]) {
                    Some(v) => Some(v),
                    None => {
                        return Err(ParseErrorKind::MalformedField);
                    },
                }
            } else {
                None
            };
            let y_offset = if parts.len() > 4 {
                assert(pv[4] == parts[4]@);
                match parse_dec_str(parts[4]) {
                    Some(v) => Some(v),
                    None => {
                        return Err(ParseErrorKind::MalformedField);
                    },
                }
            } else {
                None
            };
            let ghost prev = self@;
            let ev: Event = if is_bg {
                Event::Background(
                    OsuBackground { start_time, filename: fname.to_owned(), x_offset, y_offset },
                )
            } else {
                Event::Video(
                    OsuVideo { start_time, filename: fname.to_owned(), x_offset, y_offset },
                )
            };
            let ghost evv = ev@;
            self.events.push(ev);
            proof {
                assert(self@ =~= prev.push(evv));
            }
            Ok(())
        } else if str_eq(parts[0], "2") || str_eq(parts[0], "Break") {
            if parts.len() < 3 {
                return Err(ParseErrorKind::MissingRequiredField);
            }
            assert(pv[1] == parts[1]@ && pv[2] == parts[2]@);
            match (parse_i32_str(parts[1]), parse_i32_str(parts[2])) {
                (Some(start_time), Some(end_time)) => {
                    let ghost prev = self@;
                    let ev = Event::Break(OsuBreak { start_time, end_time });
                    let ghost evv = ev@;
                    self.events.push(ev);
                    proof {
                        assert(self@ =~= prev.push(evv));
                    }
                    Ok(())
                },
                _ => Err(ParseErrorKind::MalformedField),
            }
        } else if parts.len() > 2 {
            assert(pv[1] == parts[1]@);
            let start_time = match parse_i32_str(parts[1]) {
                Some(v) => v,
                None => {
                    return Err(ParseErrorKind::MalformedField);
                },
            };
            let mut ps: Vec<String> = Vec::new();
            let mut k: usize = 2;
            while k < parts.len()
                invariant
                    2 <= k <= parts.len(),
                    pv == parts.deep_view(),
                    ps.deep_view() =~= pv.subrange(2, k as int),
                decreases parts.len() - k,
            {
                assert(pv[k as int] == parts[k as int]@);
                let ghost prev = ps.deep_view();
                ps.push(parts[k].to_owned());
                proof {
                    assert(ps.deep_view() =~= prev.push(pv[k as int]));
                    assert(ps.deep_view() =~= pv.subrange(2, k + 1));
                }
                k += 1;
            }
            proof {
                assert(ps.deep_view() =~= pv.skip(2));
            }
            let ghost prev = self@;
            let ev = Event::Basic(
                OsuEvent { event_type: parts[0].to_owned(), start_time, params: Some(ps) },
            );
            let ghost evv = ev@;
            self.events.push(ev);
            proof {
                assert(self@ =~= prev.push(evv));
            }
            Ok(())
        } else {
            Ok(())
        }
    }

    /// Appends a parsed storyboard block to the events.
    pub fn push_storyboard(&mut self, storyboard: OsuStoryboard)
        ensures
            final(self)@ == old(self)@.push(EventV::Storyboard(storyboard@)),
    {
        let ghost evv = storyboard@;
        self.events.push(Event::Storyboard(storyboard));
        proof {
            assert(self@ =~= old(self)@.push(EventV::Storyboard(evv)));
        }
    }

    /// The first background's filename, if a background was seen.
    pub fn get_background(&self) -> (r: Option<&String>)
        ensures
            match r {
                Some(f) => exists|i: int|
                    0 <= i < self@.len() && self@[i] is Background && #[trigger] self@[i]->Background_0.filename
                        == f@,
                None => true,
            },
    {
        let mut i: usize = 0;
        while i < self.events.len()
            invariant
                0 <= i <= self.events.len(),
            decreases self.events.len() - i,
        {
            if let Event::Background(b) = &self.events[i] {
                proof {
                    assert(self@[i as int] == self.events@[i as int].deep_view());
                    assert(self@[i as int] is Background);
                    assert(self@[i as int]->Background_0.filename == b.filename@);
                }
                return Some(&b.filename);
            }
            i += 1;
        }
        None
    }

    /// The first video's filename, if a video was seen.
    pub fn get_video(&self) -> (r: Option<&String>)
        ensures
            match r {
                Some(f) => exists|i: int|
                    0 <= i < self@.len() && self@[i] is Video && #[trigger] self@[i]->Video_0.filename
                        == f@,
                None => true,
            },
    {
        let mut i: usize = 0;
        while i < self.events.len()
            invariant
                0 <= i <= self.events.len(),
            decreases self.events.len() - i,
        {
            if let Event::Video(v) = &self.events[i] {
                proof {
                    assert(self@[i as int] == self.events@[i as int].deep_view());
                    assert(self@[i as int] is Video);
                    assert(self@[i as int]->Video_0.filename == v.filename@);
                }
                return Some(&v.filename);
            }
            i += 1;
        }
        None
    }
}

} // verus!

verus! {

/// The canonical line (or block) of one event, newline included.
pub open spec fn spec_render_event(e: EventV) -> Seq<char> {
    match e {
        EventV::Background(b) => "0,"@ + spec_render_i32(b.start_time as int) + seq![',', '"']
            + b.filename + seq!['"'] + spec_opt_offset(b.x_offset) + spec_opt_offset(b.y_offset)
            + seq!['\n'],
        EventV::Video(v) => "Video,"@ + spec_render_i32(v.start_time as int) + seq![',', '"']
            + v.filename + seq!['"'] + spec_opt_offset(v.x_offset) + spec_opt_offset(v.y_offset)
            + seq!['\n'],
        EventV::Break(b) => "2,"@ + spec_render_i32(b.start_time as int) + seq![',']
            + spec_render_i32(b.end_time as int) + seq!['\n'],
        EventV::Storyboard(sb) => spec_render_storyboard(sb),
        EventV::Basic(ev) => ev.event_type + seq![','] + spec_render_i32(ev.start_time as int)
            + seq![','] + spec_render_params(ev.params) + seq!['\n'],
    }
}

pub open spec fn spec_opt_offset(v: Option<Decimal>) -> Seq<char> {
    match v {
        Some(d) => seq![','] + spec_render_dec(d),
        None => Seq::<char>::empty(),
    }
}

/// The comma-joined raw parameters of a basic event.
pub open spec fn spec_render_params(ps: Option<Seq<Seq<char>>>) -> Seq<char> {
    match ps {
        Some(p) => crate::text::spec_join(p, ','),
        None => Seq::<char>::empty(),
    }
}

pub open spec fn event_valid(e: EventV) -> bool {
    match e {
        EventV::Background(b) => opt_dec_valid(b.x_offset) && opt_dec_valid(b.y_offset),
        EventV::Video(v) => opt_dec_valid(v.x_offset) && opt_dec_valid(v.y_offset),
        EventV::Break(b) => true,
        EventV::Storyboard(sb) => storyboard_valid(sb),
        EventV::Basic(ev) => true,
    }
}

pub open spec fn opt_dec_valid(v: Option<Decimal>) -> bool {
    match v {
        Some(d) => dec_valid(d),
        None => true,
    }
}

impl Event {
    /// Appends the canonical text of the event to `out`.
    #[verifier::rlimit(100)]
    #[verifier::spinoff_prover]
    pub fn render(&self, out: &mut String)
        requires
            event_valid(self@),
        ensures
            final(out)@ == old(out)@ + spec_render_event(self@),
    {
        match self {
            Event::Background(b) => {
                out.append("0,");
                render_i32(b.start_time, out);
                out.append(",\"");
                out.append(b.filename.as_str());
                out.append("\"");
                if let Some(d) = &b.x_offset {
                    out.append(",");
                    crate::decimal::render_dec(d, out);
                }
                if let Some(d) = &b.y_offset {
                    out.append(",");
                    crate::decimal::render_dec(d, out);
                }
                out.append("\n");
            },
            Event::Video(v) => {
                out.append("Video,");
                render_i32(v.start_time, out);
                out.append(",\"");
                out.append(v.filename.as_str());
                out.append("\"");
                if let Some(d) = &v.x_offset {
                    out.append(",");
                    crate::decimal::render_dec(d, out);
                }
                if let Some(d) = &v.y_offset {
                    out.append(",");
                    crate::decimal::render_dec(d, out);
                }
                out.append("\n");
            },
            Event::Break(b) => {
                out.append("2,");
                render_i32(b.start_time, out);
                out.append(",");
                render_i32(b.end_time, out);
                out.append("\n");
            },
            Event::Storyboard(sb) => {
                sb.render(out);
            },
            Event::Basic(ev) => {
                out.append(ev.event_type.as_str());
                out.append(",");
                render_i32(ev.start_time, out);
                out.append(",");
                if let Some(ps) = &ev.params {
                    let ghost pv = ps.deep_view();
                    let mut k: usize = 0;
                    let ghost basep = out@;
                    proof {
                        if pv.len() > 0 {
                        }
                    }
                    while k < ps.len()
                        invariant
                            0 <= k <= ps.len(),
                            pv == ps.deep_view(),
                            k == 0 ==> out@ == basep,
                            k > 0 ==> out@ == basep + crate::text::spec_join(
                                pv.take(k as int),
                                ',',
                            ),
                        decreases ps.len() - k,
                    {
                        if k > 0 {
                            out.append(",");
                        }
                        assert(pv[k as int] == ps@[k as int]@);
                        out.append(ps[k].as_str());
                        proof {
                            reveal_strlit(",");
                            assert(","@ =~= seq![',']);
                            if k == 0 {
                                assert(pv.take(1) =~= seq![pv[0]]);
                                assert(crate::text::spec_join(seq![pv[0]], ',') == pv[0]);
                                assert(out@ =~= basep + crate::text::spec_join(pv.take(1), ','));
                            } else {
                                crate::text::lemma_join_push(pv.take(k as int), pv[k as int], ',');
                                assert(pv.take(k as int).push(pv[k as int]) =~= pv.take(k + 1));
                                assert(out@ =~= basep + (crate::text::spec_join(
                                    pv.take(k as int),
                                    ',',
                                ) + seq![','] + pv[k as int]));
                            }
                        }
                        k += 1;
                    }
                    proof {
                        if ps.len() == 0 {
                            assert(pv =~= Seq::<Seq<char>>::empty());
                            assert(crate::text::spec_join(pv, ',') == Seq::<char>::empty());
                            assert(out@ =~= basep + crate::text::spec_join(pv, ','));
                        } else {
                            assert(pv.take(ps.len() as int) =~= pv);
                        }
                    }
                }
                out.append("\n");
            },
        }
        proof {
            reveal_strlit(",");
            reveal_strlit("\n");
            reveal_strlit("\"");
            reveal_strlit(",\"");
            assert(","@ =~= seq![',']);
            assert("\n"@ =~= seq!['\n']);
            assert("\""@ =~= seq!['"']);
            assert(",\""@ =~= seq![',', '"']);
            assert(out@ =~= old(out)@ + spec_render_event(self@));
        }
    }
}

/// The `[Events]` section text; no events, no section.
pub open spec fn spec_render_events(es: Seq<EventV>) -> Seq<char> {
    if es.len() == 0 {
        Seq::<char>::empty()
    } else {
        "[Events]\n"@ + spec_render_event_list(es)
    }
}

pub open spec fn spec_render_event_list(es: Seq<EventV>) -> Seq<char>
    decreases es.len(),
{
    if es.len() == 0 {
        Seq::<char>::empty()
    } else {
        spec_render_event(es[0]) + spec_render_event_list(es.skip(1))
    }
}

proof fn lemma_render_event_list_push(es: Seq<EventV>, e: EventV)
    ensures
        spec_render_event_list(es.push(e)) == spec_render_event_list(es) + spec_render_event(e),
    decreases es.len(),
{
    if es.len() == 0 {
        assert(es.push(e)[0] == e);
        assert(es.push(e).skip(1) =~= Seq::<EventV>::empty());
        assert(spec_render_event_list(Seq::<EventV>::empty()) == Seq::<char>::empty());
        assert(spec_render_event_list(es.push(e)) =~= spec_render_event_list(es)
            + spec_render_event(e));
    } else {
        lemma_render_event_list_push(es.skip(1), e);
        assert(es.push(e).skip(1) =~= es.skip(1).push(e));
        assert(es.push(e)[0] == es[0]);
        assert(spec_render_event(es[0]) + (spec_render_event_list(es.skip(1)) + spec_render_event(
            e,
        )) =~= (spec_render_event(es[0]) + spec_render_event_list(es.skip(1))) + spec_render_event(
            e,
        ));
    }
}

impl Events {
    /// True iff no event was recorded.
    pub fn is_empty(&self) -> (r: bool)
        ensures
            r == (self@.len() == 0),
    {
        self.events.len() == 0
    }

    /// Appends the `[Events]` section text to `out`.
    pub fn render(&self, out: &mut String)
        requires
            forall|i: int| 0 <= i < self@.len() ==> event_valid(#[trigger] self@[i]),
        ensures
            final(out)@ == old(out)@ + spec_render_events(self@),
    {
        if self.events.len() == 0 {
            proof {
                assert(out@ =~= old(out)@ + Seq::<char>::empty());
            }
            return ;
        }
        out.append("[Events]\n");
        let ghost ev = self@;
        let ghost base = out@;
        let mut i: usize = 0;
        proof {
            assert(ev.take(0) =~= Seq::<EventV>::empty());
            assert(out@ =~= base + spec_render_event_list(ev.take(0)));
        }
        while i < self.events.len()
            invariant
                0 <= i <= self.events.len(),
                ev == self@,
                forall|j: int| 0 <= j < ev.len() ==> event_valid(#[trigger] ev[j]),
                out@ == base + spec_render_event_list(ev.take(i as int)),
            decreases self.events.len() - i,
        {
            let e = &self.events[i];
            proof {
                assert(ev[i as int] == self.events@[i as int].deep_view());
            }
            assert(e@ == ev[i as int]);
            assert(event_valid(ev[i as int]));
            e.render(out);
            proof {
                lemma_render_event_list_push(ev.take(i as int), ev[i as int]);
                assert(ev.take(i as int).push(ev[i as int]) =~= ev.take(i + 1));
            }
            i += 1;
        }
        proof {
            assert(ev.take(self.events.len() as int) =~= ev);
            assert(out@ =~= old(out)@ + spec_render_events(self@));
        }
    }
}

} // verus!

verus! {

/// Whatever the object-line decoder accepts has canonical offsets.
pub proof fn lemma_parse_storyboard_object_valid(s: Seq<Seq<char>>)
    ensures
        match spec_parse_storyboard_object(s) {
            Ok(obj) => object_valid(obj),
            Err(_) => true,
        },
{
    if s.len() >= 6 {
        crate::decimal::lemma_parse_dec_valid(s[4]);
        crate::decimal::lemma_parse_dec_valid(s[5]);
    }
}

/// Whatever the basic-event decoder accepts satisfies the render validity
/// predicate: its offsets are canonical decimals.
pub proof fn lemma_parse_event_valid(s: Seq<Seq<char>>)
    ensures
        match spec_parse_event(s) {
            Ok(Some(e)) => event_valid(e),
            _ => true,
        },
{
    if s.len() > 3 {
        crate::decimal::lemma_parse_dec_valid(s[3]);
    }
    if s.len() > 4 {
        crate::decimal::lemma_parse_dec_valid(s[4]);
    }
}

} // verus!
