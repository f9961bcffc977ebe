//! The beatmap document: the section scanner that routes each logical line
//! to its section decoder, and the serializer that writes the document
//! back in canonical order.

use crate::colour::Colour;
use crate::colour::spec_parse_colour;
use crate::colour::spec_render_colour;
use crate::command::Command;
use crate::command::spec_parse_command;
use crate::difficulty::Difficulty;
use crate::difficulty::difficulty_valid;
use crate::difficulty::spec_difficulty_apply;
use crate::difficulty::spec_render_difficulty;
use crate::editor::Editor;
use crate::editor::EditorV;
use crate::editor::editor_valid;
use crate::editor::spec_editor_apply;
use crate::editor::spec_render_editor;
use crate::error::DecodeError;
use crate::error::ParseErrorKind;
use crate::events::EventV;
use crate::events::Events;
use crate::events::OsuStoryboard;
use crate::events::OsuStoryboardV;
use crate::events::event_valid;
use crate::events::spec_parse_event;
use crate::events::spec_parse_storyboard_object;
use crate::events::spec_render_events;
use crate::general::General;
use crate::general::GeneralV;
use crate::general::general_valid;
use crate::general::spec_general_apply;
use crate::general::spec_render_general;
use crate::hit_object::HitObject;
use crate::hit_object::HitObjectV;
use crate::hit_object::spec_parse_hit_object;
use crate::hit_object::spec_render_hit_object;
use crate::metadata::Metadata;
use crate::metadata::MetadataV;
use crate::metadata::spec_metadata_apply;
use crate::metadata::spec_render_metadata;
use crate::numeric::render_i32;
use crate::numeric::spec_parse_i32;
use crate::numeric::spec_render_i32;
use crate::sanitize::sanitize_lines;
use crate::sanitize::spec_sanitize;
use crate::text::contains_str;
use crate::text::spec_contains_str;
use crate::text::spec_split;
use crate::text::spec_split_trim;
use crate::text::split_str;
use crate::text::split_trim;
use crate::timing_point::TimingPoint;
use crate::timing_point::spec_parse_timing_point;
use crate::timing_point::spec_render_timing_point;
use crate::timing_point::tp_valid;
use crate::token::Section;
use crate::token::spec_parse_section;
use vstd::prelude::*;

verus! {

/// A decoded beatmap document.
#[derive(Clone, Debug, PartialEq, Eq)]
pub struct Beatmap {
    pub file_name: String,
    pub version: i32,
    pub general: General,
    pub editor: Editor,
    pub metadata: Metadata,
    pub difficulty: Difficulty,
    pub events: Events,
    pub timing_points: Vec<TimingPoint>,
    pub colours: Vec<Colour>,
    pub hit_objects: Vec<HitObject>,
}

pub ghost struct BeatmapV {
    pub file_name: Seq<char>,
    pub version: i32,
    pub general: GeneralV,
    pub editor: EditorV,
    pub metadata: MetadataV,
    pub difficulty: Difficulty,
    pub events: Seq<EventV>,
    pub timing_points: Seq<TimingPoint>,
    pub colours: Seq<Colour>,
    pub hit_objects: Seq<HitObjectV>,
}

impl View for Beatmap {
    type V = BeatmapV;

    open spec fn view(&self) -> BeatmapV {
        BeatmapV {
            file_name: self.file_name@,
            version: self.version,
            general: self.general@,
            editor: self.editor@,
            metadata: self.metadata@,
            difficulty: self.difficulty,
            events: self.events@,
            timing_points: self.timing_points@,
            colours: self.colours@,
            hit_objects: self.hit_objects.deep_view(),
        }
    }
}

/// The scanner's state: the active section, the partially filled records,
/// and the storyboard block whose command run is still open.
pub ghost struct ScanState {
    pub section: Option<Section>,
    pub general: GeneralV,
    pub editor: EditorV,
    pub metadata: MetadataV,
    pub difficulty: Difficulty,
    pub events: Seq<EventV>,
    pub open_sb: Option<OsuStoryboardV>,
    pub timing_points: Seq<TimingPoint>,
    pub colours: Seq<Colour>,
    pub hit_objects: Seq<HitObjectV>,
}

/// Closes an open storyboard block: its object and commands become one
/// event.
pub open spec fn spec_close(st: ScanState) -> ScanState {
    match st.open_sb {
        Some(sb) => ScanState {
            events: st.events.push(EventV::Storyboard(sb)),
            open_sb: None,
            ..st
        },
        None => st,
    }
}

/// One step of the scanner on one logical line.
///
/// The hit-object section runs to end of input and never re-checks for
/// headers; everywhere else a header line switches the section.  Inside
/// the events section, a line directly after an object (or its commands)
/// is first tried as a command; the first line that is no command closes
/// the block.
pub open spec fn spec_scan_step(st: ScanState, line: Seq<char>, idx: usize) -> Result<
    ScanState,
    DecodeError,
> {
    if st.section == Some(Section::HitObjects) {
        match spec_parse_hit_object(spec_split_trim(line, ',')) {
            Ok(h) => Ok(ScanState { hit_objects: st.hit_objects.push(h), ..st }),
            Err(k) => Err(DecodeError { kind: k, line: idx }),
        }
    } else if st.section == Some(Section::Events) && st.open_sb is Some && spec_parse_command(line)
        is Ok {
        let sb = st.open_sb->Some_0;
        Ok(
            ScanState {
                open_sb: Some(
                    OsuStoryboardV {
                        storyboard_type: sb.storyboard_type,
                        commands: sb.commands.push(spec_parse_command(line)->Ok_0),
                    },
                ),
                ..st
            },
        )
    } else {
        let st1 = spec_close(st);
        if spec_parse_section(line) is Ok {
            Ok(ScanState { section: Some(spec_parse_section(line)->Ok_0), ..st1 })
        } else {
            match st1.section {
                None => Ok(st1),
                Some(Section::General) => match spec_general_apply(st1.general, line) {
                    Ok(g) => Ok(ScanState { general: g, ..st1 }),
                    Err(k) => Err(DecodeError { kind: k, line: idx }),
                },
                Some(Section::Editor) => match spec_editor_apply(st1.editor, line) {
                    Ok(ed) => Ok(ScanState { editor: ed, ..st1 }),
                    Err(k) => Err(DecodeError { kind: k, line: idx }),
                },
                Some(Section::Metadata) => match spec_metadata_apply(st1.metadata, line) {
                    Ok(m) => Ok(ScanState { metadata: m, ..st1 }),
                    Err(k) => Err(DecodeError { kind: k, line: idx }),
                },
                Some(Section::Difficulty) => match spec_difficulty_apply(st1.difficulty, line) {
                    Ok(d) => Ok(ScanState { difficulty: d, ..st1 }),
                    Err(k) => Err(DecodeError { kind: k, line: idx }),
                },
                Some(Section::Colours) => match spec_parse_colour(line) {
                    Ok(c) => Ok(ScanState { colours: st1.colours.push(c), ..st1 }),
                    Err(k) => Err(DecodeError { kind: k, line: idx }),
                },
                Some(Section::TimingPoints) => match spec_parse_timing_point(
                    spec_split_trim(line, ','),
                ) {
                    Ok(t) => Ok(ScanState { timing_points: st1.timing_points.push(t), ..st1 }),
                    Err(k) => Err(DecodeError { kind: k, line: idx }),
                },
                Some(Section::Events) => {
                    if spec_parse_storyboard_object(spec_split_trim(line, ',')) is Ok {
                        let obj = spec_parse_storyboard_object(spec_split_trim(line, ','))->Ok_0;
                        Ok(
                            ScanState {
                                open_sb: Some(
                                    OsuStoryboardV {
                                        storyboard_type: obj,
                                        commands: Seq::<crate::command::CommandV>::empty(),
                                    },
                                ),
                                ..st1
                            },
                        )
                    } else {
                        match spec_parse_event(spec_split_trim(line, ',')) {
                            Ok(Some(e)) => Ok(ScanState { events: st1.events.push(e), ..st1 }),
                            Ok(None) => Ok(st1),
                            Err(k) => Err(DecodeError { kind: k, line: idx }),
                        }
                    }
                },
                Some(Section::HitObjects) => Ok(st1),
            }
        }
    }
}

/// The scanner over the remaining lines.
pub open spec fn spec_scan(lines: Seq<Seq<char>>, i: int, st: ScanState) -> Result<
    ScanState,
    DecodeError,
>
    decreases lines.len() - i,
{
    if i < 0 || i >= lines.len() {
        Ok(st)
    } else {
        match spec_scan_step(st, lines[i], i as usize) {
            Err(e) => Err(e),
            Ok(st2) => spec_scan(lines, i + 1, st2),
        }
    }
}

/// The scanner's initial state.
pub open spec fn spec_scan_init() -> ScanState {
    ScanState {
        section: None,
        general: crate::general::spec_general_empty(),
        editor: crate::editor::spec_editor_empty(),
        metadata: crate::metadata::spec_metadata_empty(),
        difficulty: Difficulty {
            hp_drain_rate: None,
            circle_size: None,
            overall_difficulty: None,
            approach_rate: None,
            slider_multiplier: None,
            slider_tick_rate: None,
        },
        events: Seq::<EventV>::empty(),
        open_sb: None,
        timing_points: Seq::<TimingPoint>::empty(),
        colours: Seq::<Colour>::empty(),
        hit_objects: Seq::<HitObjectV>::empty(),
    }
}

/// The version named on the first logical line, when it carries the
/// version tag: the text after the first `v`, read as an integer.
pub open spec fn spec_parse_version(lines: Seq<Seq<char>>) -> Result<i32, DecodeError> {
    if lines.len() > 0 && spec_contains_str(lines[0], "osu file format v"@) {
        let parts = spec_split(lines[0], 'v');
        if parts.len() > 1 {
            match spec_parse_i32(parts[1]) {
                Some(v) => Ok(v),
                None => Err(
                    DecodeError { kind: ParseErrorKind::MalformedField, line: 0 },
                ),
            }
        } else {
            Ok(14)
        }
    } else {
        Ok(14)
    }
}

/// The whole decoder: sanitize, read the version tag, scan every line, and
/// close a trailing storyboard block.
pub open spec fn spec_decode_beatmap(text: Seq<char>, file_name: Seq<char>) -> Result<
    BeatmapV,
    DecodeError,
> {
    let lines = spec_sanitize(text);
    match spec_parse_version(lines) {
        Err(e) => Err(e),
        Ok(version) => match spec_scan(lines, 0, spec_scan_init()) {
            Err(e) => Err(e),
            Ok(st) => {
                let fin = spec_close(st);
                Ok(
                    BeatmapV {
                        file_name,
                        version,
                        general: fin.general,
                        editor: fin.editor,
                        metadata: fin.metadata,
                        difficulty: fin.difficulty,
                        events: fin.events,
                        timing_points: fin.timing_points,
                        colours: fin.colours,
                        hit_objects: fin.hit_objects,
                    },
                )
            },
        },
    }
}

} // verus!

verus! {

/// One scanner step: reads one logical line into the state.
#[verifier::rlimit(100)]
#[verifier::spinoff_prover]
fn scan_step(
    line: &str,
    idx: usize,
    section: &mut Option<Section>,
    general: &mut General,
    editor: &mut Editor,
    metadata: &mut Metadata,
    difficulty: &mut Difficulty,
    events: &mut Events,
    open_sb: &mut Option<OsuStoryboard>,
    timing_points: &mut Vec<TimingPoint>,
    colours: &mut Vec<Colour>,
    hit_objects: &mut Vec<HitObject>,
) -> (res: Result<(), DecodeError>)
    ensures
        ({
            let prev = ScanState {
                section: *old(section),
                general: old(general)@,
                editor: old(editor)@,
                metadata: old(metadata)@,
                difficulty: *old(difficulty),
                events: old(events)@,
                open_sb: match *old(open_sb) {
                    Some(ref sb) => Some(sb@),
                    None => None,
                },
                timing_points: old(timing_points)@,
                colours: old(colours)@,
                hit_objects: old(hit_objects).deep_view(),
            };
            let cur = ScanState {
                section: *final(section),
                general: final(general)@,
                editor: final(editor)@,
                metadata: final(metadata)@,
                difficulty: *final(difficulty),
                events: final(events)@,
                open_sb: match *final(open_sb) {
                    Some(ref sb) => Some(sb@),
                    None => None,
                },
                timing_points: final(timing_points)@,
                colours: final(colours)@,
                hit_objects: final(hit_objects).deep_view(),
            };
            match res {
                Ok(_) => spec_scan_step(prev, line@, idx) == Ok::<ScanState, DecodeError>(cur),
                Err(e) => spec_scan_step(prev, line@, idx) == Err::<ScanState, DecodeError>(e),
            }
        }),
{
    let ghost prev = ScanState {
        section: *section,
        general: general@,
        editor: editor@,
        metadata: metadata@,
        difficulty: *difficulty,
        events: events@,
        open_sb: match *open_sb {
            Some(ref sb) => Some(sb@),
            None => None,
        },
        timing_points: timing_points@,
        colours: colours@,
        hit_objects: hit_objects.deep_view(),
    };
    let ghost mut st = prev;
                        // The hit-object section runs to end of input.
            let in_hits: bool = match (*section) {
                Some(Section::HitObjects) => true,
                _ => false,
            };
            if in_hits {
                let toks = split_trim(line, ',');
                match HitObject::parse(toks.as_slice()) {
                    Ok(h) => {
                        let ghost hv = h@;
                        hit_objects.push(h);
                        proof {
                            assert(hit_objects.deep_view() =~= prev.hit_objects.push(hv));
                            st = ScanState { hit_objects: prev.hit_objects.push(hv), ..prev };
                            assert(spec_scan_step(prev, line@, idx) == Ok::<
                                ScanState,
                                DecodeError,
                            >(st));
                        }
                    },
                    Err(k) => {
                        proof {
                            assert(spec_scan_step(prev, line@, idx) == Err::<
                                ScanState,
                                DecodeError,
                            >(DecodeError { kind: k, line: idx }));
                        }
                        return Err(DecodeError { kind: k, line: idx });
                    },
                }
                return Ok(());
            }
            // A command directly after an open storyboard block attaches.
            let in_events: bool = match (*section) {
                Some(Section::Events) => true,
                _ => false,
            };
            if in_events && open_sb.is_some() {
                match Command::parse(line) {
                    Ok(c) => {
                        let ghost cv = c@;
                        if let Some(mut sb) = open_sb.take() {
                            let ghost sbv = sb@;
                            sb.add_command(c);
                            proof {
                                st = ScanState {
                                    open_sb: Some(
                                        OsuStoryboardV {
                                            storyboard_type: sbv.storyboard_type,
                                            commands: sbv.commands.push(cv),
                                        },
                                    ),
                                    ..prev
                                };
                                assert(spec_scan_step(prev, line@, idx) == Ok::<
                                    ScanState,
                                    DecodeError,
                                >(st));
                            }
                            *open_sb = Some(sb);
                        }
                        return Ok(());
                    },
                    Err(_) => {
                        proof {
                            assert(spec_parse_command(line@) is Err);
                        }
                    },
                }
            }
            // Any other line closes an open block, then dispatches.
            if open_sb.is_some() {
                let sb = open_sb.take().unwrap();
                events.push_storyboard(sb);
                *open_sb = None;
                proof {
                    st = spec_close(prev);
                }
            }
            proof {
                assert(st == spec_close(prev));
            }
            let ghost st1 = st;
            match Section::parse(line) {
                Ok(sec) => {
                    *section = Some(sec);
                    proof {
                        st = ScanState { section: Some(sec), ..st1 };
                        assert(spec_scan_step(prev, line@, idx) == Ok::<
                            ScanState,
                            DecodeError,
                        >(st));
                    }
                },
                Err(_) => {
                    let cur: Option<Section> = *section;
                    match cur {
                        None => {
                            proof {
                                assert(spec_scan_step(prev, line@, idx) == Ok::<
                                    ScanState,
                                    DecodeError,
                                >(st));
                            }
                        },
                        Some(Section::General) => {
                            match general.parse_value(line) {
                                Ok(_) => {
                                    proof {
                                        st = ScanState { general: general@, ..st1 };
                                        assert(spec_scan_step(prev, line@, idx) == Ok::<
                                            ScanState,
                                            DecodeError,
                                        >(st));
                                    }
                                },
                                Err(k) => {
                                    proof {
                                        assert(spec_scan_step(prev, line@, idx) == Err::<
                                            ScanState,
                                            DecodeError,
                                        >(DecodeError { kind: k, line: idx }));
                                    }
                                    return Err(DecodeError { kind: k, line: idx });
                                },
                            }
                        },
                        Some(Section::Editor) => {
                            match editor.parse_value(line) {
                                Ok(_) => {
                                    proof {
                                        st = ScanState { editor: editor@, ..st1 };
                                        assert(spec_scan_step(prev, line@, idx) == Ok::<
                                            ScanState,
                                            DecodeError,
                                        >(st));
                                    }
                                },
                                Err(k) => {
                                    proof {
                                        assert(spec_scan_step(prev, line@, idx) == Err::<
                                            ScanState,
                                            DecodeError,
                                        >(DecodeError { kind: k, line: idx }));
                                    }
                                    return Err(DecodeError { kind: k, line: idx });
                                },
                            }
                        },
                        Some(Section::Metadata) => {
                            match metadata.parse_value(line) {
                                Ok(_) => {
                                    proof {
                                        st = ScanState { metadata: metadata@, ..st1 };
                                        assert(spec_scan_step(prev, line@, idx) == Ok::<
                                            ScanState,
                                            DecodeError,
                                        >(st));
                                    }
                                },
                                Err(k) => {
                                    proof {
                                        assert(spec_scan_step(prev, line@, idx) == Err::<
                                            ScanState,
                                            DecodeError,
                                        >(DecodeError { kind: k, line: idx }));
                                    }
                                    return Err(DecodeError { kind: k, line: idx });
                                },
                            }
                        },
                        Some(Section::Difficulty) => {
                            match difficulty.parse_value(line) {
                                Ok(_) => {
                                    proof {
                                        st = ScanState { difficulty: *difficulty, ..st1 };
                                        assert(spec_scan_step(prev, line@, idx) == Ok::<
                                            ScanState,
                                            DecodeError,
                                        >(st));
                                    }
                                },
                                Err(k) => {
                                    proof {
                                        assert(spec_scan_step(prev, line@, idx) == Err::<
                                            ScanState,
                                            DecodeError,
                                        >(DecodeError { kind: k, line: idx }));
                                    }
                                    return Err(DecodeError { kind: k, line: idx });
                                },
                            }
                        },
                        Some(Section::Colours) => {
                            match Colour::parse(line) {
                                Ok(c) => {
                                    colours.push(c);
                                    proof {
                                        assert(colours@ =~= st1.colours.push(c));
                                        st = ScanState { colours: st1.colours.push(c), ..st1 };
                                        assert(spec_scan_step(prev, line@, idx) == Ok::<
                                            ScanState,
                                            DecodeError,
                                        >(st));
                                    }
                                },
                                Err(k) => {
                                    proof {
                                        assert(spec_scan_step(prev, line@, idx) == Err::<
                                            ScanState,
                                            DecodeError,
                                        >(DecodeError { kind: k, line: idx }));
                                    }
                                    return Err(DecodeError { kind: k, line: idx });
                                },
                            }
                        },
                        Some(Section::TimingPoints) => {
                            let toks = split_trim(line, ',');
                            match TimingPoint::parse(toks.as_slice()) {
                                Ok(t) => {
                                    timing_points.push(t);
                                    proof {
                                        assert(timing_points@ =~= st1.timing_points.push(t));
                                        st = ScanState {
                                            timing_points: st1.timing_points.push(t),
                                            ..st1
                                        };
                                        assert(spec_scan_step(prev, line@, idx) == Ok::<
                                            ScanState,
                                            DecodeError,
                                        >(st));
                                    }
                                },
                                Err(k) => {
                                    proof {
                                        assert(spec_scan_step(prev, line@, idx) == Err::<
                                            ScanState,
                                            DecodeError,
                                        >(DecodeError { kind: k, line: idx }));
                                    }
                                    return Err(DecodeError { kind: k, line: idx });
                                },
                            }
                        },
                        Some(Section::Events) => {
                            match OsuStoryboard::parse(line) {
                                Ok(sb) => {
                                    proof {
                                        assert(sb@.commands =~= Seq::<
                                            crate::command::CommandV,
                                        >::empty());
                                        st = ScanState {
                                            open_sb: Some(sb@),
                                            ..st1
                                        };
                                        assert(spec_scan_step(prev, line@, idx) == Ok::<
                                            ScanState,
                                            DecodeError,
                                        >(st));
                                    }
                                    *open_sb = Some(sb);
                                },
                                Err(_) => {
                                    proof {
                                        assert(spec_parse_storyboard_object(
                                            spec_split_trim(line@, ','),
                                        ) is Err);
                                    }
                                    match events.parse_value(line) {
                                        Ok(_) => {
                                            proof {
                                                st = ScanState { events: events@, ..st1 };
                                                assert(spec_scan_step(prev, line@, idx)
                                                    == Ok::<ScanState, DecodeError>(st));
                                            }
                                        },
                                        Err(k) => {
                                            proof {
                                                assert(spec_scan_step(prev, line@, idx)
                                                    == Err::<ScanState, DecodeError>(
                                                    DecodeError { kind: k, line: idx },
                                                ));
                                            }
                                            return Err(DecodeError { kind: k, line: idx });
                                        },
                                    }
                                },
                            }
                        },
                        Some(Section::HitObjects) => {
                            proof {
                                assert(spec_scan_step(prev, line@, idx) == Ok::<
                                    ScanState,
                                    DecodeError,
                                >(st));
                            }
                        },
                    }
                },
            }
    Ok(())
}

} // verus!

verus! {

/// Unfolding the scanner one accepted step.
proof fn lemma_scan_unfold_ok(lines: Seq<Seq<char>>, i: int, a: ScanState, b: ScanState)
    requires
        0 <= i < lines.len(),
        spec_scan_step(a, lines[i], i as usize) == Ok::<ScanState, DecodeError>(b),
    ensures
        spec_scan(lines, i, a) == spec_scan(lines, i + 1, b),
{
}

/// Unfolding the scanner one failing step.
proof fn lemma_scan_unfold_err(lines: Seq<Seq<char>>, i: int, a: ScanState, e: DecodeError)
    requires
        0 <= i < lines.len(),
        spec_scan_step(a, lines[i], i as usize) == Err::<ScanState, DecodeError>(e),
    ensures
        spec_scan(lines, i, a) == Err::<ScanState, DecodeError>(e),
{
}

} // verus!

verus! {

impl Beatmap {
    /// Decodes a whole beatmap document from its raw text.
    #[verifier::rlimit(100)]
    #[verifier::spinoff_prover]
    #[verifier::loop_isolation(false)]
    pub fn parse(osu_data: &str, file_name: &str) -> (res: Result<Beatmap, DecodeError>)
        ensures
            match res {
                Ok(b) => spec_decode_beatmap(osu_data@, file_name@) == Ok::<
                    BeatmapV,
                    DecodeError,
                >(b@) && beatmap_renderable(b@),
                Err(e) => spec_decode_beatmap(osu_data@, file_name@) == Err::<
                    BeatmapV,
                    DecodeError,
                >(e),
            },
    {
        let lines = sanitize_lines(osu_data);
        let ghost lv = lines.deep_view();
        let mut version: i32 = 14;
        if lines.len() > 0 && contains_str(lines[0], "osu file format v") {
            assert(lv[0] == lines[0]@);
            let parts = split_str(lines[0], 'v');
            if parts.len() > 1 {
                assert(parts.deep_view()[1] == parts[1]@);
                match crate::numeric::parse_i32_str(parts[1]) {
                    Some(v) => {
                        version = v;
                    },
                    None => {
                        return Err(
                            DecodeError { kind: ParseErrorKind::MalformedField, line: 0 },
                        );
                    },
                }
            }
        }
        assert(spec_parse_version(lv) == Ok::<i32, DecodeError>(version));
        let mut section: Option<Section> = None;
        let mut general = General { audio_file: None, audio_lead_in: None, preview_time: None,
            countdown: None, sample_set: None, stack_leniency: None, mode: None,
            letterbox_in_breaks: None, use_skin_sprites: None, overlay_position: None,
            skin_preference: None, epilepsy_warning: None, countdown_offset: None,
            special_style: None, widescreen_storyboard: None, samples_match_playback_rate: None,
            audio_hash: None, story_fire_in_front: None, always_show_playfield: None };
        let mut editor = Editor { bookmarks: None, distance_spacing: None, beat_divisor: None,
            grid_size: None, timeline_zoom: None };
        let mut metadata = Metadata { title: None, title_unicode: None, artist: None,
            artist_unicode: None, creator: None, version: None, source: None, tags: None,
            beatmap_id: None, beatmap_set_id: None };
        let mut difficulty = Difficulty { hp_drain_rate: None, circle_size: None,
            overall_difficulty: None, approach_rate: None, slider_multiplier: None,
            slider_tick_rate: None };
        let mut events = Events { events: Vec::new() };
        let mut open_sb: Option<OsuStoryboard> = None;
        let mut timing_points: Vec<TimingPoint> = Vec::new();
        let mut colours: Vec<Colour> = Vec::new();
        let mut hit_objects: Vec<HitObject> = Vec::new();
        proof {
            assert(events@ =~= Seq::<EventV>::empty());
            assert(timing_points@ =~= Seq::<TimingPoint>::empty());
            assert(colours@ =~= Seq::<Colour>::empty());
            assert(hit_objects.deep_view() =~= Seq::<HitObjectV>::empty());
        }
        let mut i: usize = 0;
        while i < lines.len()
            invariant
                0 <= i <= lines.len(),
                lv == lines.deep_view(),
                spec_scan(lv, 0, spec_scan_init()) == spec_scan(
                    lv,
                    i as int,
                    ScanState {
                        section,
                        general: general@,
                        editor: editor@,
                        metadata: metadata@,
                        difficulty,
                        events: events@,
                        open_sb: match open_sb {
                            Some(ref sb) => Some(sb@),
                            None => None,
                        },
                        timing_points: timing_points@,
                        colours: colours@,
                        hit_objects: hit_objects.deep_view(),
                    },
                ),
            decreases lines.len() - i,
        {
            let ghost prev = ScanState {
                section,
                general: general@,
                editor: editor@,
                metadata: metadata@,
                difficulty,
                events: events@,
                open_sb: match open_sb {
                    Some(ref sb) => Some(sb@),
                    None => None,
                },
                timing_points: timing_points@,
                colours: colours@,
                hit_objects: hit_objects.deep_view(),
            };
            let line = lines[i];
            assert(line@ == lv[i as int]);
            match scan_step(
                line,
                i,
                &mut section,
                &mut general,
                &mut editor,
                &mut metadata,
                &mut difficulty,
                &mut events,
                &mut open_sb,
                &mut timing_points,
                &mut colours,
                &mut hit_objects,
            ) {
                Ok(_) => {
                    proof {
                        let nxt = ScanState {
                            section,
                            general: general@,
                            editor: editor@,
                            metadata: metadata@,
                            difficulty,
                            events: events@,
                            open_sb: match open_sb {
                                Some(ref sb) => Some(sb@),
                                None => None,
                            },
                            timing_points: timing_points@,
                            colours: colours@,
                            hit_objects: hit_objects.deep_view(),
                        };
                        lemma_scan_unfold_ok(lv, i as int, prev, nxt);
                    }
                },
                Err(e) => {
                    proof {
                        lemma_scan_unfold_err(lv, i as int, prev, e);
                    }
                    return Err(e);
                },
            }
            i += 1;
        }
        let ghost st_end = ScanState {
            section,
            general: general@,
            editor: editor@,
            metadata: metadata@,
            difficulty,
            events: events@,
            open_sb: match open_sb {
                Some(ref sb) => Some(sb@),
                None => None,
            },
            timing_points: timing_points@,
            colours: colours@,
            hit_objects: hit_objects.deep_view(),
        };
        proof {
            assert(spec_scan(lv, lines.len() as int, st_end) == Ok::<ScanState, DecodeError>(
                st_end,
            ));
        }
        if let Some(sb) = open_sb {
            events.push_storyboard(sb);
            open_sb = None;
        }
        proof {
            assert(events@ == spec_close(st_end).events);
        }
        let b = Beatmap {
            file_name: file_name.to_owned(),
            version,
            general,
            editor,
            metadata,
            difficulty,
            events,
            timing_points,
            colours,
            hit_objects,
        };
        proof {
            assert(spec_decode_beatmap(osu_data@, file_name@) == Ok::<BeatmapV, DecodeError>(b@));
            lemma_decode_renderable(osu_data@, file_name@);
        }
        Ok(b)
    }
}

} // verus!

verus! {

pub open spec fn spec_render_colour_lines(cs: Seq<Colour>) -> Seq<char>
    decreases cs.len(),
{
    if cs.len() == 0 {
        Seq::<char>::empty()
    } else {
        spec_render_colour(cs[0]) + seq!['\n'] + spec_render_colour_lines(cs.skip(1))
    }
}

pub open spec fn spec_render_tp_lines(ts: Seq<TimingPoint>) -> Seq<char>
    decreases ts.len(),
{
    if ts.len() == 0 {
        Seq::<char>::empty()
    } else {
        spec_render_timing_point(ts[0]) + seq!['\n'] + spec_render_tp_lines(ts.skip(1))
    }
}

pub open spec fn spec_render_ho_lines(hs: Seq<HitObjectV>) -> Seq<char>
    decreases hs.len(),
{
    if hs.len() == 0 {
        Seq::<char>::empty()
    } else {
        spec_render_hit_object(hs[0]) + seq!['\n'] + spec_render_ho_lines(hs.skip(1))
    }
}

/// The canonical text of a whole document: the version tag, the five fixed
/// sections in order, then the list sections that are present.
pub open spec fn spec_render_beatmap(b: BeatmapV) -> Seq<char> {
    "osu file format v"@ + spec_render_i32(b.version as int) + "\n\n"@ + spec_render_general(
        b.general,
    ) + "\n\n"@ + spec_render_editor(b.editor) + "\n\n"@ + spec_render_metadata(b.metadata)
        + "\n\n"@ + spec_render_difficulty(b.difficulty) + "\n\n"@ + spec_render_events(b.events)
        + (if b.timing_points.len() > 0 {
        "\n\n[TimingPoints]\n"@ + spec_render_tp_lines(b.timing_points)
    } else {
        Seq::<char>::empty()
    }) + (if b.colours.len() > 0 {
        "\n\n[Colours]\n"@ + spec_render_colour_lines(b.colours)
    } else {
        Seq::<char>::empty()
    }) + (if b.hit_objects.len() > 0 {
        "\n\n[HitObjects]\n"@ + spec_render_ho_lines(b.hit_objects)
    } else {
        Seq::<char>::empty()
    })
}

/// What the serializer asks of a document: canonical decimals throughout
/// and positional-optional tails in canonical form.
pub open spec fn beatmap_renderable(b: BeatmapV) -> bool {
    &&& general_valid(b.general)
    &&& editor_valid(b.editor)
    &&& difficulty_valid(b.difficulty)
    &&& forall|i: int| 0 <= i < b.events.len() ==> event_valid(#[trigger] b.events[i])
    &&& forall|i: int| 0 <= i < b.timing_points.len() ==> tp_valid(#[trigger] b.timing_points[i])
    &&& forall|i: int|
        0 <= i < b.hit_objects.len() ==> (match #[trigger] b.hit_objects[i] {
            HitObjectV::Slider(s) => crate::decimal::dec_valid(s.length),
            _ => true,
        })
}

proof fn lemma_colour_lines_push(cs: Seq<Colour>, c: Colour)
    ensures
        spec_render_colour_lines(cs.push(c)) == spec_render_colour_lines(cs) + spec_render_colour(
            c,
        ) + seq!['\n'],
    decreases cs.len(),
{
    if cs.len() == 0 {
        assert(cs.push(c)[0] == c);
        assert(cs.push(c).skip(1) =~= Seq::<Colour>::empty());
        assert(spec_render_colour_lines(Seq::<Colour>::empty()) == Seq::<char>::empty());
        assert(spec_render_colour_lines(cs.push(c)) =~= spec_render_colour_lines(cs)
            + spec_render_colour(c) + seq!['\n']);
    } else {
        lemma_colour_lines_push(cs.skip(1), c);
        assert(cs.push(c).skip(1) =~= cs.skip(1).push(c));
        assert(cs.push(c)[0] == cs[0]);
        assert(spec_render_colour(cs[0]) + seq!['\n'] + (spec_render_colour_lines(cs.skip(1))
            + spec_render_colour(c) + seq!['\n']) =~= (spec_render_colour(cs[0]) + seq!['\n']
            + spec_render_colour_lines(cs.skip(1))) + spec_render_colour(c) + seq!['\n']);
    }
}

proof fn lemma_tp_lines_push(ts: Seq<TimingPoint>, t: TimingPoint)
    ensures
        spec_render_tp_lines(ts.push(t)) == spec_render_tp_lines(ts) + spec_render_timing_point(t)
            + seq!['\n'],
    decreases ts.len(),
{
    if ts.len() == 0 {
        assert(ts.push(t)[0] == t);
        assert(ts.push(t).skip(1) =~= Seq::<TimingPoint>::empty());
        assert(spec_render_tp_lines(Seq::<TimingPoint>::empty()) == Seq::<char>::empty());
        assert(spec_render_tp_lines(ts.push(t)) =~= spec_render_tp_lines(ts)
            + spec_render_timing_point(t) + seq!['\n']);
    } else {
        lemma_tp_lines_push(ts.skip(1), t);
        assert(ts.push(t).skip(1) =~= ts.skip(1).push(t));
        assert(ts.push(t)[0] == ts[0]);
        assert(spec_render_timing_point(ts[0]) + seq!['\n'] + (spec_render_tp_lines(ts.skip(1))
            + spec_render_timing_point(t) + seq!['\n']) =~= (spec_render_timing_point(ts[0])
            + seq!['\n'] + spec_render_tp_lines(ts.skip(1))) + spec_render_timing_point(t)
            + seq!['\n']);
    }
}

proof fn lemma_ho_lines_push(hs: Seq<HitObjectV>, h: HitObjectV)
    ensures
        spec_render_ho_lines(hs.push(h)) == spec_render_ho_lines(hs) + spec_render_hit_object(h)
            + seq!['\n'],
    decreases hs.len(),
{
    if hs.len() == 0 {
        assert(hs.push(h)[0] == h);
        assert(hs.push(h).skip(1) =~= Seq::<HitObjectV>::empty());
        assert(spec_render_ho_lines(Seq::<HitObjectV>::empty()) == Seq::<char>::empty());
        assert(spec_render_ho_lines(hs.push(h)) =~= spec_render_ho_lines(hs)
            + spec_render_hit_object(h) + seq!['\n']);
    } else {
        lemma_ho_lines_push(hs.skip(1), h);
        assert(hs.push(h).skip(1) =~= hs.skip(1).push(h));
        assert(hs.push(h)[0] == hs[0]);
        assert(spec_render_hit_object(hs[0]) + seq!['\n'] + (spec_render_ho_lines(hs.skip(1))
            + spec_render_hit_object(h) + seq!['\n']) =~= (spec_render_hit_object(hs[0])
            + seq!['\n'] + spec_render_ho_lines(hs.skip(1))) + spec_render_hit_object(h)
            + seq!['\n']);
    }
}

impl Beatmap {
    /// Appends the optional `[Colours]` section.
    #[verifier::rlimit(100)]
    #[verifier::spinoff_prover]
    #[verifier::loop_isolation(false)]
    fn render_colours_section(&self, out: &mut String)
        requires
            true,
        ensures
            final(out)@ == old(out)@ + (if self@.colours.len() > 0 {
                "\n\n[Colours]\n"@ + spec_render_colour_lines(self@.colours)
            } else {
                Seq::<char>::empty()
            }),
    {
        if self.colours.len() > 0 {
            out.append("\n\n[Colours]\n");
            let ghost base = out@;
            let mut i: usize = 0;
            proof {
                assert(self@.colours.take(0) =~= Seq::<Colour>::empty());
                assert(out@ =~= base + spec_render_colour_lines(self@.colours.take(0)));
            }
            while i < self.colours.len()
                invariant
                    0 <= i <= self.colours.len(),
                    out@ == base + spec_render_colour_lines(self@.colours.take(i as int)),
                decreases self.colours.len() - i,
            {
                let c = &self.colours[i];
                assert(*c == self@.colours[i as int]);
                c.render(out);
                out.append("\n");
                proof {
                    reveal_strlit("\n");
                    assert("\n"@ =~= seq!['\n']);
                    lemma_colour_lines_push(self@.colours.take(i as int), self@.colours[i as int]);
                    assert(self@.colours.take(i as int).push(self@.colours[i as int])
                        =~= self@.colours.take(i + 1));
                }
                i += 1;
            }
            proof {
                assert(self@.colours.take(self.colours.len() as int) =~= self@.colours);
                assert(out@ =~= old(out)@ + ("\n\n[Colours]\n"@ + spec_render_colour_lines(self@.colours)));
            }
        } else {
            proof {
                assert(out@ =~= old(out)@ + Seq::<char>::empty());
            }
        }
    }

    /// Appends the optional `[TimingPoints]` section.
    #[verifier::rlimit(100)]
    #[verifier::spinoff_prover]
    #[verifier::loop_isolation(false)]
    fn render_timing_section(&self, out: &mut String)
        requires
            forall|i: int| 0 <= i < self@.timing_points.len() ==> tp_valid(#[trigger] self@.timing_points[i]),
        ensures
            final(out)@ == old(out)@ + (if self@.timing_points.len() > 0 {
                "\n\n[TimingPoints]\n"@ + spec_render_tp_lines(self@.timing_points)
            } else {
                Seq::<char>::empty()
            }),
    {
        if self.timing_points.len() > 0 {
            out.append("\n\n[TimingPoints]\n");
            let ghost base = out@;
            let mut i: usize = 0;
            proof {
                assert(self@.timing_points.take(0) =~= Seq::<TimingPoint>::empty());
                assert(out@ =~= base + spec_render_tp_lines(self@.timing_points.take(0)));
            }
            while i < self.timing_points.len()
                invariant
                    0 <= i <= self.timing_points.len(),
                    out@ == base + spec_render_tp_lines(self@.timing_points.take(i as int)),
                decreases self.timing_points.len() - i,
            {
                let t = &self.timing_points[i];
                assert(*t == self@.timing_points[i as int]);
                assert(tp_valid(self@.timing_points[i as int]));
                t.render(out);
                out.append("\n");
                proof {
                    reveal_strlit("\n");
                    assert("\n"@ =~= seq!['\n']);
                    lemma_tp_lines_push(
                        self@.timing_points.take(i as int),
                        self@.timing_points[i as int],
                    );
                    assert(self@.timing_points.take(i as int).push(self@.timing_points[i as int])
                        =~= self@.timing_points.take(i + 1));
                }
                i += 1;
            }
            proof {
                assert(self@.timing_points.take(self.timing_points.len() as int)
                    =~= self@.timing_points);
                assert(out@ =~= old(out)@ + ("\n\n[TimingPoints]\n"@ + spec_render_tp_lines(self@.timing_points)));
            }
        } else {
            proof {
                assert(out@ =~= old(out)@ + Seq::<char>::empty());
            }
        }
    }

    /// Appends the optional `[HitObjects]` section.
    #[verifier::rlimit(100)]
    #[verifier::spinoff_prover]
    #[verifier::loop_isolation(false)]
    fn render_hits_section(&self, out: &mut String)
        requires
            forall|i: int|
                0 <= i < self@.hit_objects.len() ==> (match #[trigger] self@.hit_objects[i] {
                    HitObjectV::Slider(s) => crate::decimal::dec_valid(s.length),
                    _ => true,
                }),
        ensures
            final(out)@ == old(out)@ + (if self@.hit_objects.len() > 0 {
                "\n\n[HitObjects]\n"@ + spec_render_ho_lines(self@.hit_objects)
            } else {
                Seq::<char>::empty()
            }),
    {
        if self.hit_objects.len() > 0 {
            out.append("\n\n[HitObjects]\n");
            let ghost base = out@;
            let mut i: usize = 0;
            proof {
                assert(self@.hit_objects.take(0) =~= Seq::<HitObjectV>::empty());
                assert(out@ =~= base + spec_render_ho_lines(self@.hit_objects.take(0)));
            }
            while i < self.hit_objects.len()
                invariant
                    0 <= i <= self.hit_objects.len(),
                    out@ == base + spec_render_ho_lines(self@.hit_objects.take(i as int)),
                decreases self.hit_objects.len() - i,
            {
                let h = &self.hit_objects[i];
                proof {
                    assert(self@.hit_objects[i as int] == self.hit_objects@[i as int].deep_view());
                }
                assert(h@ == self@.hit_objects[i as int]);
                h.render(out);
                out.append("\n");
                proof {
                    reveal_strlit("\n");
                    assert("\n"@ =~= seq!['\n']);
                    lemma_ho_lines_push(
                        self@.hit_objects.take(i as int),
                        self@.hit_objects[i as int],
                    );
                    assert(self@.hit_objects.take(i as int).push(self@.hit_objects[i as int])
                        =~= self@.hit_objects.take(i + 1));
                }
                i += 1;
            }
            proof {
                assert(self@.hit_objects.take(self.hit_objects.len() as int)
                    =~= self@.hit_objects);
                assert(out@ =~= old(out)@ + ("\n\n[HitObjects]\n"@ + spec_render_ho_lines(self@.hit_objects)));
            }
        } else {
            proof {
                assert(out@ =~= old(out)@ + Seq::<char>::empty());
            }
        }
    }

    /// Encodes the document back to its canonical text.
    #[verifier::rlimit(100)]
    #[verifier::spinoff_prover]
    #[verifier::loop_isolation(false)]
    pub fn render(&self) -> (res: String)
        requires
            beatmap_renderable(self@),
        ensures
            res@ == spec_render_beatmap(self@),
    {
        let mut out = String::new();
        out.append("osu file format v");
        render_i32(self.version, &mut out);
        out.append("\n\n");
        let ghost mut acc = "osu file format v"@ + spec_render_i32(self@.version as int)
            + "\n\n"@;
        assert(out@ =~= acc);
        self.general.render(&mut out);
        out.append("\n\n");
        proof {
            acc = acc + spec_render_general(self@.general) + "\n\n"@;
            assert(out@ =~= acc);
        }
        self.editor.render(&mut out);
        out.append("\n\n");
        proof {
            acc = acc + spec_render_editor(self@.editor) + "\n\n"@;
            assert(out@ =~= acc);
        }
        self.metadata.render(&mut out);
        out.append("\n\n");
        proof {
            acc = acc + spec_render_metadata(self@.metadata) + "\n\n"@;
            assert(out@ =~= acc);
        }
        self.difficulty.render(&mut out);
        out.append("\n\n");
        proof {
            acc = acc + spec_render_difficulty(self@.difficulty) + "\n\n"@;
            assert(out@ =~= acc);
        }
        proof {
            assert forall|i: int| 0 <= i < self.events@.len() implies event_valid(
                #[trigger] self.events@[i],
            ) by {
                assert(self.events@[i] == self@.events[i]);
            }
        }
        self.events.render(&mut out);
        proof {
            acc = acc + spec_render_events(self@.events);
            assert(out@ =~= acc);
        }
        self.render_timing_section(&mut out);
        proof {
            acc = acc + (if self@.timing_points.len() > 0 {
                "\n\n[TimingPoints]\n"@ + spec_render_tp_lines(self@.timing_points)
            } else {
                Seq::<char>::empty()
            });
            assert(out@ =~= acc);
        }
        self.render_colours_section(&mut out);
        proof {
            acc = acc + (if self@.colours.len() > 0 {
                "\n\n[Colours]\n"@ + spec_render_colour_lines(self@.colours)
            } else {
                Seq::<char>::empty()
            });
            assert(out@ =~= acc);
        }
        self.render_hits_section(&mut out);
        proof {
            acc = acc + (if self@.hit_objects.len() > 0 {
                "\n\n[HitObjects]\n"@ + spec_render_ho_lines(self@.hit_objects)
            } else {
                Seq::<char>::empty()
            });
            assert(out@ =~= acc);
        }
        proof {
            assert(acc =~= spec_render_beatmap(self@));
        }
        out
    }

    /// The document's recorded file name.
    pub fn get_file_name(&self) -> (r: &str)
        ensures
            r@ == self@.file_name,
    {
        self.file_name.as_str()
    }
}

} // verus!

verus! {

/// The scanner's running validity: everything read so far is in the
/// canonical form the serializer asks for.
pub open spec fn scan_state_valid(st: ScanState) -> bool {
    &&& general_valid(st.general)
    &&& editor_valid(st.editor)
    &&& difficulty_valid(st.difficulty)
    &&& forall|i: int| 0 <= i < st.events.len() ==> event_valid(#[trigger] st.events[i])
    &&& forall|i: int| 0 <= i < st.timing_points.len() ==> tp_valid(#[trigger] st.timing_points[i])
    &&& forall|i: int|
        0 <= i < st.hit_objects.len() ==> (match #[trigger] st.hit_objects[i] {
            HitObjectV::Slider(s) => crate::decimal::dec_valid(s.length),
            _ => true,
        })
    &&& match st.open_sb {
        Some(sb) => crate::events::storyboard_valid(sb),
        None => true,
    }
}

/// One scanner step keeps the state canonical.
#[verifier::rlimit(100)]
#[verifier::spinoff_prover]
proof fn lemma_scan_step_valid(st: ScanState, line: Seq<char>, idx: usize)
    requires
        scan_state_valid(st),
    ensures
        match spec_scan_step(st, line, idx) {
            Ok(st2) => scan_state_valid(st2),
            Err(_) => true,
        },
{
    crate::hit_object::lemma_parse_hit_object_length_valid(spec_split_trim(line, ','));
    crate::command::lemma_parse_command_valid(line);
    crate::general::lemma_general_apply_valid(st.general, line);
    crate::editor::lemma_editor_apply_valid(st.editor, line);
    crate::difficulty::lemma_difficulty_apply_valid(st.difficulty, line);
    crate::timing_point::lemma_parse_timing_point_valid(spec_split_trim(line, ','));
    crate::events::lemma_parse_storyboard_object_valid(spec_split_trim(line, ','));
    crate::events::lemma_parse_event_valid(spec_split_trim(line, ','));
    assert(scan_state_valid(spec_close(st))) by {
        match st.open_sb {
            Some(sb) => {
                let ev2 = st.events.push(EventV::Storyboard(sb));
                assert forall|i: int| 0 <= i < ev2.len() implies event_valid(
                    #[trigger] ev2[i],
                ) by {
                    if i < st.events.len() {
                        assert(ev2[i] == st.events[i]);
                    } else {
                        assert(ev2[i] == EventV::Storyboard(sb));
                    }
                }
            },
            None => {},
        }
    }
    let st1 = spec_close(st);
    if spec_scan_step(st, line, idx) is Ok {
        let st2 = spec_scan_step(st, line, idx)->Ok_0;
        if st.section == Some(Section::HitObjects) {
            let h = spec_parse_hit_object(spec_split_trim(line, ','))->Ok_0;
            let hs2 = st.hit_objects.push(h);
            assert forall|i: int| 0 <= i < hs2.len() implies (match #[trigger] hs2[i] {
                HitObjectV::Slider(s) => crate::decimal::dec_valid(s.length),
                _ => true,
            }) by {
                if i < st.hit_objects.len() {
                    assert(hs2[i] == st.hit_objects[i]);
                } else {
                    assert(hs2[i] == h);
                }
            }
        } else if st.section == Some(Section::Events) && st.open_sb is Some && spec_parse_command(
            line,
        ) is Ok {
            let sb = st.open_sb->Some_0;
            let c = spec_parse_command(line)->Ok_0;
            let cs2 = sb.commands.push(c);
            assert forall|i: int| 0 <= i < cs2.len() implies crate::command::cmd_valid(
                #[trigger] cs2[i],
            ) by {
                if i < sb.commands.len() {
                    assert(cs2[i] == sb.commands[i]);
                } else {
                    assert(cs2[i] == c);
                }
            }
        } else if spec_parse_section(line) is Ok {
        } else {
            match st1.section {
                Some(Section::TimingPoints) => {
                    if spec_parse_timing_point(spec_split_trim(line, ',')) is Ok {
                        let t = spec_parse_timing_point(spec_split_trim(line, ','))->Ok_0;
                        let ts2 = st1.timing_points.push(t);
                        assert forall|i: int| 0 <= i < ts2.len() implies tp_valid(
                            #[trigger] ts2[i],
                        ) by {
                            if i < st1.timing_points.len() {
                                assert(ts2[i] == st1.timing_points[i]);
                            } else {
                                assert(ts2[i] == t);
                            }
                        }
                    }
                },
                Some(Section::Events) => {
                    if spec_parse_storyboard_object(spec_split_trim(line, ',')) is Ok {
                        let obj = spec_parse_storyboard_object(spec_split_trim(line, ','))->Ok_0;
                        assert(crate::events::storyboard_valid(
                            OsuStoryboardV {
                                storyboard_type: obj,
                                commands: Seq::<crate::command::CommandV>::empty(),
                            },
                        ));
                    } else {
                        match spec_parse_event(spec_split_trim(line, ',')) {
                            Ok(Some(e)) => {
                                let ev2 = st1.events.push(e);
                                assert forall|i: int| 0 <= i < ev2.len() implies event_valid(
                                    #[trigger] ev2[i],
                                ) by {
                                    if i < st1.events.len() {
                                        assert(ev2[i] == st1.events[i]);
                                    } else {
                                        assert(ev2[i] == e);
                                    }
                                }
                            },
                            _ => {},
                        }
                    }
                },
                _ => {},
            }
        }
    }
}

/// The whole scan keeps the state canonical.
proof fn lemma_scan_valid(lines: Seq<Seq<char>>, i: int, st: ScanState)
    requires
        scan_state_valid(st),
    ensures
        match spec_scan(lines, i, st) {
            Ok(st2) => scan_state_valid(st2),
            Err(_) => true,
        },
    decreases lines.len() - i,
{
    if 0 <= i < lines.len() {
        lemma_scan_step_valid(st, lines[i], i as usize);
        match spec_scan_step(st, lines[i], i as usize) {
            Ok(st2) => {
                lemma_scan_valid(lines, i + 1, st2);
            },
            Err(_) => {},
        }
    }
}

/// A decoded document is already canonical: whatever `spec_decode_beatmap`
/// returns satisfies the serializer's precondition, so a decoded document
/// can always be encoded again.
pub proof fn lemma_decode_renderable(text: Seq<char>, file_name: Seq<char>)
    ensures
        match spec_decode_beatmap(text, file_name) {
            Ok(b) => beatmap_renderable(b),
            Err(_) => true,
        },
{
    let lines = spec_sanitize(text);
    if spec_parse_version(lines) is Ok {
        assert(scan_state_valid(spec_scan_init()));
        lemma_scan_valid(lines, 0, spec_scan_init());
        match spec_scan(lines, 0, spec_scan_init()) {
            Ok(st) => {
                let fin = spec_close(st);
                assert(scan_state_valid(fin)) by {
                    match st.open_sb {
                        Some(sb) => {
                            let ev2 = st.events.push(EventV::Storyboard(sb));
                            assert forall|i: int| 0 <= i < ev2.len() implies event_valid(
                                #[trigger] ev2[i],
                            ) by {
                                if i < st.events.len() {
                                    assert(ev2[i] == st.events[i]);
                                } else {
                                    assert(ev2[i] == EventV::Storyboard(sb));
                                }
                            }
                        },
                        None => {},
                    }
                }
            },
            Err(_) => {},
        }
    }
}

} // verus!
