//! Whole-document behaviour: the section scanner, round trips, unknown
//! keys, and the storyboard document.

use osu_format::beatmap::Beatmap;
use osu_format::colour::Color;
use osu_format::colour::Colour;
use osu_format::command::Command;
use osu_format::error::ParseErrorKind;
use osu_format::events::Event;
use osu_format::hit_object::HitObject;
use osu_format::storyboard::Storyboard;

const DOC: &str = "osu file format v14\n\
\n\
[General]\n\
AudioFilename: audio.mp3\n\
StackLeniency: 0.7\n\
Mode: 0\n\
\n\
[Metadata]\n\
Title:Example Song\n\
Artist:Somebody\n\
BeatmapID:12345\n\
\n\
[Difficulty]\n\
HPDrainRate: 5\n\
SliderMultiplier: 1.4\n\
\n\
[Events]\n\
0,0,\"bg.jpg\"\n\
2,1000,2000\n\
Sprite,Foreground,Centre,img.png,320,240\n\
 F,0,100,,5\n\
 M,0,100,200,10,20,30,40\n\
\n\
[TimingPoints]\n\
10,500.5,4,1,0,70,1,0\n\
2000,-100,4,1,0,70,0,0\n\
\n\
[Colours]\n\
Combo1:255,128,64\n\
SliderBorder:1,2,3\n\
\n\
[HitObjects]\n\
64,192,34567,1,0,0:0:0:0:\n\
100,100,1000,2,4,B|200:200,1,140.5\n";

#[test]
fn document_decodes_every_section() {
    let b = Beatmap::parse(DOC, "map.osu").unwrap();
    assert_eq!(b.version, 14);
    assert_eq!(b.general.audio_file.as_deref(), Some("audio.mp3"));
    assert_eq!(b.general.mode, Some(0));
    assert_eq!(b.metadata.title.as_deref(), Some("Example Song"));
    assert_eq!(b.metadata.artist.as_deref(), Some("Somebody"));
    assert_eq!(b.metadata.beatmap_id, Some(12345));
    assert!(b.difficulty.hp_drain_rate.is_some());
    assert_eq!(b.timing_points.len(), 2);
    assert_eq!(b.timing_points[0].time, 10);
    assert_eq!(b.timing_points[0].uninherited, Some(true));
    assert_eq!(b.colours.len(), 2);
    assert_eq!(
        b.colours[0],
        Colour::ComboColor(1, Color { r: 255, g: 128, b: 64 })
    );
    assert_eq!(b.hit_objects.len(), 2);
    assert!(matches!(b.hit_objects[0], HitObject::Circle(_)));
    assert!(matches!(b.hit_objects[1], HitObject::Slider(_)));
    // Background, break, and the storyboard block with two commands.
    assert_eq!(b.events.events.len(), 3);
    match &b.events.events[2] {
        Event::Storyboard(sb) => {
            assert_eq!(sb.commands.len(), 2);
            assert!(matches!(sb.commands[0], Command::Fade(_)));
            assert!(matches!(sb.commands[1], Command::Move(_)));
        }
        other => panic!("expected a storyboard block, got {:?}", other),
    }
    assert_eq!(b.events.get_background().map(|s| s.as_str()), Some("bg.jpg"));
}

#[test]
fn document_round_trips() {
    let b = Beatmap::parse(DOC, "map.osu").unwrap();
    let text = b.render();
    let again = Beatmap::parse(&text, "map.osu").unwrap();
    assert_eq!(b, again);
    // Encoding the reparsed document gives the same text again.
    assert_eq!(text, again.render());
    // Sections come out in the canonical order.
    let tp = text.find("[TimingPoints]").unwrap();
    let co = text.find("[Colours]").unwrap();
    let ho = text.find("[HitObjects]").unwrap();
    assert!(text.find("[Events]").unwrap() < tp);
    assert!(tp < co);
    assert!(co < ho);
}

#[test]
fn unknown_general_key_is_ignored() {
    let doc = "osu file format v14\n[General]\nFutureFlag: 1\nMode: 0\n";
    let b = Beatmap::parse(doc, "map.osu").unwrap();
    assert_eq!(b.general.mode, Some(0));
    let out = b.render();
    assert!(!out.contains("FutureFlag"));
}

#[test]
fn malformed_known_value_aborts_with_line() {
    let doc = "osu file format v14\n[General]\nMode: banana\n";
    let err = Beatmap::parse(doc, "map.osu").unwrap_err();
    assert_eq!(err.kind, ParseErrorKind::MalformedField);
    assert_eq!(err.line, 2);
}

#[test]
fn lines_before_first_header_are_ignored() {
    let doc = "stray line\nanother\n[Metadata]\nTitle:X\n";
    let b = Beatmap::parse(doc, "map.osu").unwrap();
    assert_eq!(b.metadata.title.as_deref(), Some("X"));
}

#[test]
fn comments_and_blanks_are_stripped() {
    let doc = "osu file format v14\n[Metadata]\n  Title:X  // the title\n\n\n";
    let b = Beatmap::parse(doc, "map.osu").unwrap();
    assert_eq!(b.metadata.title.as_deref(), Some("X"));
}

#[test]
fn empty_optional_sections_are_omitted() {
    let doc = "osu file format v14\n[Metadata]\nTitle:X\n";
    let b = Beatmap::parse(doc, "map.osu").unwrap();
    let out = b.render();
    assert!(!out.contains("[Colours]"));
    assert!(!out.contains("[TimingPoints]"));
    assert!(!out.contains("[HitObjects]"));
    assert!(!out.contains("[Events]"));
    assert!(!out.contains("[Editor]"));
    assert!(out.contains("[General]"));
    assert!(out.contains("[Metadata]"));
    assert!(out.contains("[Difficulty]"));
}

#[test]
fn hit_objects_run_to_end_of_input() {
    // A header-shaped line inside the hit-object section is a hit-object
    // line, and being malformed it aborts the decode.
    let doc = "osu file format v14\n[HitObjects]\n64,192,0,1,0\n[General]\n";
    let err = Beatmap::parse(doc, "map.osu").unwrap_err();
    assert_eq!(err.line, 3);
}

#[test]
fn bad_timing_point_aborts() {
    let doc = "osu file format v14\n[TimingPoints]\n10,oops\n";
    let err = Beatmap::parse(doc, "map.osu").unwrap_err();
    assert_eq!(err.kind, ParseErrorKind::MalformedField);
    assert_eq!(err.line, 2);
}

const SB_DOC: &str = "[Events]\n\
Sprite,Background,TopLeft,back.png,0,0\n\
 F,0,0,1000,0,1\n\
 S,0,0,1000,1,2\n\
Sample,Background,clap.wav,70,1000\n";

#[test]
fn storyboard_document_round_trips() {
    let sb = Storyboard::parse(SB_DOC, "board.osb").unwrap();
    assert_eq!(sb.storyboards.len(), 2);
    assert_eq!(sb.storyboards[0].commands.len(), 2);
    assert_eq!(sb.storyboards[1].commands.len(), 0);
    let text = sb.render();
    let again = Storyboard::parse(&text, "board.osb").unwrap();
    assert_eq!(sb, again);
}

#[test]
fn storyboard_requires_events_header() {
    let err = Storyboard::parse("Sprite,Background,TopLeft,a.png,0,0\n", "b.osb").unwrap_err();
    assert_eq!(err.kind, ParseErrorKind::UnknownSection);
    assert_eq!(err.line, 0);
}

#[test]
fn empty_storyboard_renders_nothing() {
    let sb = Storyboard::parse("", "b.osb").unwrap();
    assert_eq!(sb.storyboards.len(), 0);
    assert_eq!(sb.render(), "");
}

#[test]
fn metadata_setters() {
    let mut b = Beatmap::parse("osu file format v14\n", "map.osu").unwrap();
    b.metadata.change_name("New Title");
    b.metadata.change_beatmap_id(7);
    assert_eq!(b.metadata.title.as_deref(), Some("New Title"));
    assert_eq!(b.metadata.beatmap_id, Some(7));
    let out = b.render();
    assert!(out.contains("Title:New Title"));
    assert!(out.contains("BeatmapID:7"));
}
