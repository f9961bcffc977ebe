//! Record-level codec behaviour: numeric fields, colours, timing points,
//! hit objects and animation commands.

use osu_format::colour::Color;
use osu_format::colour::Colour;
use osu_format::command::Command;
use osu_format::command::FadeCommand;
use osu_format::command::MoveCommand;
use osu_format::decimal::Decimal;
use osu_format::decimal::parse_dec_str;
use osu_format::error::ParseErrorKind;
use osu_format::hit_object::HitObject;
use osu_format::sanitize::sanitize;
use osu_format::timing_point::TimingPoint;
use osu_format::token::Section;

fn dec(neg: bool, mantissa: u64, scale: u64) -> Decimal {
    Decimal { neg, mantissa, scale }
}

#[test]
fn decimal_parse_and_render() {
    assert_eq!(parse_dec_str("1.4"), Some(dec(false, 14, 1)));
    assert_eq!(parse_dec_str("-0.70"), Some(dec(true, 7, 1)));
    assert_eq!(parse_dec_str("140"), Some(dec(false, 140, 0)));
    assert_eq!(parse_dec_str("-0"), Some(dec(false, 0, 0)));
    assert_eq!(parse_dec_str("abc"), None);
    assert_eq!(parse_dec_str(""), None);
    let mut out = String::new();
    osu_format::decimal::render_dec(&dec(false, 14, 1), &mut out);
    assert_eq!(out, "1.4");
    let mut out2 = String::new();
    osu_format::decimal::render_dec(&dec(true, 45, 3), &mut out2);
    assert_eq!(out2, "-0.045");
}

#[test]
fn sanitize_cuts_comments_and_blanks() {
    let cleaned = sanitize("a line // with a comment\n\n  spaced  \n//only comment\nlast");
    assert_eq!(cleaned, "a line\nspaced\nlast\n");
}

#[test]
fn section_headers() {
    assert_eq!(Section::parse("[General]"), Ok(Section::General));
    assert_eq!(Section::parse("[HitObjects]"), Ok(Section::HitObjects));
    assert_eq!(Section::parse("[Nope]"), Err(ParseErrorKind::UnknownSection));
}

#[test]
fn colour_parses_and_round_trips() {
    let c = Colour::parse("Combo1 : 255,128,64").unwrap();
    assert_eq!(c, Colour::ComboColor(1, Color { r: 255, g: 128, b: 64 }));
    let mut out = String::new();
    c.render(&mut out);
    assert_eq!(out, "Combo1:255,128,64");
    assert_eq!(Colour::parse(&out), Ok(c));
    let s = Colour::parse("SliderBorder : 1,2,3").unwrap();
    assert_eq!(s, Colour::SliderBorder(Color { r: 1, g: 2, b: 3 }));
    assert_eq!(
        Colour::parse("Rainbow : 1,2,3"),
        Err(ParseErrorKind::MalformedField)
    );
    // The index must be a plain positive integer: no zero, no sign.
    assert_eq!(
        Colour::parse("Combo0 : 1,2,3"),
        Err(ParseErrorKind::MalformedField)
    );
    assert_eq!(
        Colour::parse("Combo-1 : 1,2,3"),
        Err(ParseErrorKind::MalformedField)
    );
    assert_eq!(
        Colour::parse("Combo+2 : 1,2,3"),
        Err(ParseErrorKind::MalformedField)
    );
    assert_eq!(
        Colour::parse("Combo2 : 1,2"),
        Err(ParseErrorKind::MalformedField)
    );
}

#[test]
fn timing_point_positional_tail() {
    // Truncating the line after field k leaves the later fields absent and
    // every earlier field populated.
    let full = ["10", "500.5", "4", "1", "0", "70", "1", "8"];
    for k in 2..=8 {
        let t = TimingPoint::parse(&full[..k]).unwrap();
        assert_eq!(t.time, 10);
        assert_eq!(t.beat_length.is_some(), k >= 2);
        assert_eq!(t.meter.is_some(), k >= 3);
        assert_eq!(t.sample_set.is_some(), k >= 4);
        assert_eq!(t.sample_index.is_some(), k >= 5);
        assert_eq!(t.volume.is_some(), k >= 6);
        assert_eq!(t.uninherited.is_some(), k >= 7);
        assert_eq!(t.effects.is_some(), k >= 8);
    }
    let t = TimingPoint::parse(&full).unwrap();
    assert_eq!(t.beat_length, Some(dec(false, 5005, 1)));
    assert_eq!(t.meter, Some(4));
    assert_eq!(t.uninherited, Some(true));
    assert_eq!(t.effects, Some(8));
    let mut out = String::new();
    t.render(&mut out);
    assert_eq!(out, "10,500.5,4,1,0,70,1,8");
    // A malformed present field is a hard failure.
    assert_eq!(
        TimingPoint::parse(&["10", "x"]),
        Err(ParseErrorKind::MalformedField)
    );
    assert_eq!(
        TimingPoint::parse(&["x", "500"]),
        Err(ParseErrorKind::MalformedField)
    );
}

#[test]
fn fade_command_infers_end_time_from_count() {
    // The compact form with the empty end-time token and the explicit form
    // with the end time equal to the start time decode identically.
    let compact = Command::parse("F,0,100,,5").unwrap();
    let explicit = Command::parse("F,0,100,100,5").unwrap();
    assert_eq!(compact, explicit);
    match compact {
        Command::Fade(FadeCommand {
            easing,
            start_time,
            end_time,
            start_opacity,
            end_opacity,
        }) => {
            assert_eq!(easing, 0);
            assert_eq!(start_time, 100);
            assert_eq!(end_time, 100);
            assert_eq!(start_opacity, dec(false, 5, 0));
            assert_eq!(end_opacity, dec(false, 5, 0));
        }
        _ => panic!("expected a fade command"),
    }
}

#[test]
fn move_command_inference() {
    // Full seven-token tail: explicit times and both endpoints.
    let full = Command::parse("M,0,100,200,10,20,30,40").unwrap();
    match full {
        Command::Move(MoveCommand {
            easing,
            start_time,
            end_time,
            start_x,
            start_y,
            end_x,
            end_y,
        }) => {
            assert_eq!(easing, 0);
            assert_eq!(start_time, 100);
            assert_eq!(end_time, 200);
            assert_eq!(start_x, dec(false, 10, 0));
            assert_eq!(start_y, dec(false, 20, 0));
            assert_eq!(end_x, dec(false, 30, 0));
            assert_eq!(end_y, dec(false, 40, 0));
        }
        _ => panic!("expected a move command"),
    }
    // Compact five-token tail: the start equals the end and the end time
    // defaults to the start time.
    let compact = Command::parse("M,0,100,,30,40").unwrap();
    match compact {
        Command::Move(m) => {
            assert_eq!(m.start_x, dec(false, 30, 0));
            assert_eq!(m.start_y, dec(false, 40, 0));
            assert_eq!(m.end_x, dec(false, 30, 0));
            assert_eq!(m.end_y, dec(false, 40, 0));
            assert_eq!(m.end_time, 100);
        }
        _ => panic!("expected a move command"),
    }
}

#[test]
fn command_round_trips() {
    for line in [
        "F,0,100,200,0.5,1",
        "S,0,100,200,1,2.5",
        "R,2,0,80,-1.5,1.5",
        "MX,0,10,20,100,200",
        "MY,0,10,20,-5,7",
        "M,0,100,200,10,20,30,40",
        "V,0,0,1000,1,1,2,2",
        "C,0,0,1000,255,0,0,0,255,0",
        "P,0,100,200,H",
        "L,1000,5",
        "T,HitSoundClap,0,1000",
        "T,Failing,0,1000,group",
    ] {
        let c = Command::parse(line).unwrap();
        let mut out = String::new();
        c.render(&mut out);
        assert_eq!(out, line);
        assert_eq!(Command::parse(&out).unwrap(), c);
    }
    assert_eq!(
        Command::parse("Q,0,1"),
        Err(ParseErrorKind::UnknownCommandCode)
    );
}

#[test]
fn hit_object_type_dispatch() {
    // Bit 0 wins over other set bits.
    let c = HitObject::parse(&["64", "192", "34567", "5", "0"]).unwrap();
    assert!(matches!(c, HitObject::Circle(_)));
    let s = HitObject::parse(&["100", "100", "1000", "2", "0", "B|200:200", "1", "140"]).unwrap();
    assert!(matches!(s, HitObject::Slider(_)));
    let sp = HitObject::parse(&["256", "192", "1000", "8", "0", "2000"]).unwrap();
    assert!(matches!(sp, HitObject::Spinner(_)));
    let h = HitObject::parse(&["64", "192", "1000", "128", "0", "2000:0:0:0:0:"]).unwrap();
    assert!(matches!(h, HitObject::Hold(_)));
    assert_eq!(
        HitObject::parse(&["0", "0", "0", "64", "0"]),
        Err(ParseErrorKind::MalformedField)
    );
}

#[test]
fn circle_with_sample_round_trips() {
    let c = HitObject::parse(&["64", "192", "34567", "1", "0", "0:0:0:0:"]).unwrap();
    match &c {
        HitObject::Circle(circle) => {
            assert_eq!(circle.x, 64);
            assert_eq!(circle.y, 192);
            assert_eq!(circle.time, 34567);
            assert_eq!(circle.hit_sound, 0);
            let sample = circle.hit_sample.as_ref().unwrap();
            assert_eq!(sample.normal_set, 0);
            assert_eq!(sample.addition_set, 0);
            assert_eq!(sample.index, 0);
            assert_eq!(sample.volume, 0);
            assert_eq!(sample.filename.as_deref(), Some(""));
        }
        _ => panic!("expected a circle"),
    }
    let mut out = String::new();
    c.render(&mut out);
    assert_eq!(out, "64,192,34567,1,0,0:0:0:0:");
    let reparsed = HitObject::parse(&out.split(',').collect::<Vec<&str>>()).unwrap();
    assert_eq!(reparsed, c);
}

#[test]
fn slider_round_trips() {
    let toks = [
        "100", "100", "1000", "2", "4", "B|200:200|320:240", "1", "140.5", "2|0", "0:0|1:2",
        "0:0:0:0:",
    ];
    let s = HitObject::parse(&toks).unwrap();
    let mut out = String::new();
    s.render(&mut out);
    assert_eq!(out, "100,100,1000,2,4,B|200:200|320:240,1,140.5,2|0,0:0|1:2,0:0:0:0:");
    let reparsed = HitObject::parse(&out.split(',').collect::<Vec<&str>>()).unwrap();
    assert_eq!(reparsed, s);
}
