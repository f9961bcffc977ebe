//! The `[General]` section: global playback and presentation settings.

use crate::decimal::Decimal;
use crate::decimal::dec_valid;
use crate::decimal::parse_dec_str;
use crate::decimal::spec_parse_dec;
use crate::error::ParseErrorKind;
use crate::kv::spec_kv_seg;
use crate::kv::spec_kv_seg_bool;
use crate::kv::spec_kv_seg_dec;
use crate::kv::spec_kv_seg_i32;
use crate::numeric::parse_i32_str;
use crate::numeric::spec_parse_i32;
use crate::text::find_char;
use crate::text::lemma_find_char;
use crate::text::spec_find_char;
use crate::text::spec_trim;
use crate::text::str_eq;
use crate::text::trim_str;
use vstd::prelude::*;

verus! {

/// The default sample bank; unrecognized names fall back to `Normal`.
#[derive(Clone, Copy, Debug, PartialEq, Eq, Structural)]
pub enum SampleSet {
    Normal,
    Soft,
    Drum,
}

pub open spec fn spec_sample_set_of(s: Seq<char>) -> SampleSet {
    if s == "Normal"@ {
        SampleSet::Normal
    } else if s == "Soft"@ {
        SampleSet::Soft
    } else if s == "Drum"@ {
        SampleSet::Drum
    } else {
        SampleSet::Normal
    }
}

pub open spec fn spec_sample_set_name(s: SampleSet) -> Seq<char> {
    match s {
        SampleSet::Normal => "Normal"@,
        SampleSet::Soft => "Soft"@,
        SampleSet::Drum => "Drum"@,
    }
}

impl SampleSet {
    /// Decides which bank a token selects, with the documented fallback.
    pub fn of_token(s: &str) -> (r: SampleSet)
        ensures
            r == spec_sample_set_of(s@),
    {
        if str_eq(s, "Normal") {
            SampleSet::Normal
        } else if str_eq(s, "Soft") {
            SampleSet::Soft
        } else if str_eq(s, "Drum") {
            SampleSet::Drum
        } else {
            SampleSet::Normal
        }
    }

    /// Appends the bank name to `out`.
    pub fn render(&self, out: &mut String)
        ensures
            final(out)@ == old(out)@ + spec_sample_set_name(*self),
    {
        match self {
            SampleSet::Normal => out.append("Normal"),
            SampleSet::Soft => out.append("Soft"),
            SampleSet::Drum => out.append("Drum"),
        }
    }
}

/// Where circle overlays draw; unrecognized names fall back to `NoChange`.
#[derive(Clone, Copy, Debug, PartialEq, Eq, Structural)]
pub enum OverlayPosition {
    NoChange,
    Below,
    Above,
}

pub open spec fn spec_overlay_of(s: Seq<char>) -> OverlayPosition {
    if s == "NoChange"@ {
        OverlayPosition::NoChange
    } else if s == "Below"@ {
        OverlayPosition::Below
    } else if s == "Above"@ {
        OverlayPosition::Above
    } else {
        OverlayPosition::NoChange
    }
}

pub open spec fn spec_overlay_name(s: OverlayPosition) -> Seq<char> {
    match s {
        OverlayPosition::NoChange => "NoChange"@,
        OverlayPosition::Below => "Below"@,
        OverlayPosition::Above => "Above"@,
    }
}

impl OverlayPosition {
    /// Decides which position a token selects, with the documented
    /// fallback.
    pub fn of_token(s: &str) -> (r: OverlayPosition)
        ensures
            r == spec_overlay_of(s@),
    {
        if str_eq(s, "NoChange") {
            OverlayPosition::NoChange
        } else if str_eq(s, "Below") {
            OverlayPosition::Below
        } else if str_eq(s, "Above") {
            OverlayPosition::Above
        } else {
            OverlayPosition::NoChange
        }
    }

    /// Appends the position name to `out`.
    pub fn render(&self, out: &mut String)
        ensures
            final(out)@ == old(out)@ + spec_overlay_name(*self),
    {
        match self {
            OverlayPosition::NoChange => out.append("NoChange"),
            OverlayPosition::Below => out.append("Below"),
            OverlayPosition::Above => out.append("Above"),
        }
    }
}

/// The general record; every field is absent until a line fills it.
#[derive(Clone, Debug, PartialEq, Eq, Default)]
pub struct General {
    pub audio_file: Option<String>,
    pub audio_lead_in: Option<i32>,
    pub preview_time: Option<i32>,
    pub countdown: Option<i32>,
    pub sample_set: Option<SampleSet>,
    pub stack_leniency: Option<Decimal>,
    pub mode: Option<i32>,
    pub letterbox_in_breaks: Option<bool>,
    pub use_skin_sprites: Option<bool>,
    pub overlay_position: Option<OverlayPosition>,
    pub skin_preference: Option<String>,
    pub epilepsy_warning: Option<bool>,
    pub countdown_offset: Option<i32>,
    pub special_style: Option<bool>,
    pub widescreen_storyboard: Option<bool>,
    pub samples_match_playback_rate: Option<bool>,
    pub audio_hash: Option<String>,
    pub story_fire_in_front: Option<bool>,
    pub always_show_playfield: Option<bool>,
}

pub ghost struct GeneralV {
    pub audio_file: Option<Seq<char>>,
    pub audio_lead_in: Option<i32>,
    pub preview_time: Option<i32>,
    pub countdown: Option<i32>,
    pub sample_set: Option<SampleSet>,
    pub stack_leniency: Option<Decimal>,
    pub mode: Option<i32>,
    pub letterbox_in_breaks: Option<bool>,
    pub use_skin_sprites: Option<bool>,
    pub overlay_position: Option<OverlayPosition>,
    pub skin_preference: Option<Seq<char>>,
    pub epilepsy_warning: Option<bool>,
    pub countdown_offset: Option<i32>,
    pub special_style: Option<bool>,
    pub widescreen_storyboard: Option<bool>,
    pub samples_match_playback_rate: Option<bool>,
    pub audio_hash: Option<Seq<char>>,
    pub story_fire_in_front: Option<bool>,
    pub always_show_playfield: Option<bool>,
}

impl View for General {
    type V = GeneralV;

    open spec fn view(&self) -> GeneralV {
        GeneralV {
            audio_file: crate::metadata::view_opt_string(self.audio_file),
            audio_lead_in: self.audio_lead_in,
            preview_time: self.preview_time,
            countdown: self.countdown,
            sample_set: self.sample_set,
            stack_leniency: self.stack_leniency,
            mode: self.mode,
            letterbox_in_breaks: self.letterbox_in_breaks,
            use_skin_sprites: self.use_skin_sprites,
            overlay_position: self.overlay_position,
            skin_preference: crate::metadata::view_opt_string(self.skin_preference),
            epilepsy_warning: self.epilepsy_warning,
            countdown_offset: self.countdown_offset,
            special_style: self.special_style,
            widescreen_storyboard: self.widescreen_storyboard,
            samples_match_playback_rate: self.samples_match_playback_rate,
            audio_hash: crate::metadata::view_opt_string(self.audio_hash),
            story_fire_in_front: self.story_fire_in_front,
            always_show_playfield: self.always_show_playfield,
        }
    }
}

/// The key-value grammar of a general line: boolean fields compare the
/// value against `"0"`, enum fields fall back to their default, numeric
/// fields fail hard when malformed, unknown keys are ignored.
pub open spec fn spec_general_apply(g: GeneralV, line: Seq<char>) -> Result<
    GeneralV,
    ParseErrorKind,
> {
    match spec_find_char(line, ':') {
        None => Err(ParseErrorKind::MissingRequiredField),
        Some(i) => {
            let key = spec_trim(line.take(i));
            let val = spec_trim(line.skip(i + 1));
            if key == "AudioFilename"@ {
                Ok(GeneralV { audio_file: Some(val), ..g })
            } else if key == "AudioLeadIn"@ {
                match spec_parse_i32(val) {
                    Some(v) => Ok(GeneralV { audio_lead_in: Some(v), ..g }),
                    None => Err(ParseErrorKind::MalformedField),
                }
            } else if key == "PreviewTime"@ {
                match spec_parse_i32(val) {
                    Some(v) => Ok(GeneralV { preview_time: Some(v), ..g }),
                    None => Err(ParseErrorKind::MalformedField),
                }
            } else if key == "Countdown"@ {
                match spec_parse_i32(val) {
                    Some(v) => Ok(GeneralV { countdown: Some(v), ..g }),
                    None => Err(ParseErrorKind::MalformedField),
                }
            } else if key == "SampleSet"@ {
                Ok(GeneralV { sample_set: Some(spec_sample_set_of(val)), ..g })
            } else if key == "StackLeniency"@ {
                match spec_parse_dec(val) {
                    Some(v) => Ok(GeneralV { stack_leniency: Some(v), ..g }),
                    None => Err(ParseErrorKind::MalformedField),
                }
            } else if key == "Mode"@ {
                match spec_parse_i32(val) {
                    Some(v) => Ok(GeneralV { mode: Some(v), ..g }),
                    None => Err(ParseErrorKind::MalformedField),
                }
            } else if key == "LetterboxInBreaks"@ {
                Ok(GeneralV { letterbox_in_breaks: Some(val != "0"@), ..g })
            } else if key == "UseSkinSprites"@ {
                Ok(GeneralV { use_skin_sprites: Some(val != "0"@), ..g })
            } else if key == "OverlayPosition"@ {
                Ok(GeneralV { overlay_position: Some(spec_overlay_of(val)), ..g })
            } else if key == "SkinPreference"@ {
                Ok(GeneralV { skin_preference: Some(val), ..g })
            } else if key == "EpilepsyWarning"@ {
                Ok(GeneralV { epilepsy_warning: Some(val != "0"@), ..g })
            } else if key == "CountdownOffset"@ {
                match spec_parse_i32(val) {
                    Some(v) => Ok(GeneralV { countdown_offset: Some(v), ..g }),
                    None => Err(ParseErrorKind::MalformedField),
                }
            } else if key == "SpecialStyle"@ {
                Ok(GeneralV { special_style: Some(val != "0"@), ..g })
            } else if key == "WidescreenStoryboard"@ {
                Ok(GeneralV { widescreen_storyboard: Some(val != "0"@), ..g })
            } else if key == "SamplesMatchPlaybackRate"@ {
                Ok(GeneralV { samples_match_playback_rate: Some(val != "0"@), ..g })
            } else if key == "AudioHash"@ {
                Ok(GeneralV { audio_hash: Some(val), ..g })
            } else if key == "StoryFireInFront"@ {
                Ok(GeneralV { story_fire_in_front: Some(val != "0"@), ..g })
            } else if key == "AlwaysShowPlayfield"@ {
                Ok(GeneralV { always_show_playfield: Some(val != "0"@), ..g })
            } else {
                Ok(g)
            }
        },
    }
}

pub open spec fn general_valid(g: GeneralV) -> bool {
    match g.stack_leniency {
        Some(x) => dec_valid(x),
        None => true,
    }
}

/// An enum-named segment.
pub open spec fn spec_kv_seg_name(key: Seq<char>, v: Option<Seq<char>>) -> Seq<char> {
    spec_kv_seg(key, v)
}

/// The `[General]` section text, fields in the canonical order.
pub open spec fn spec_render_general(g: GeneralV) -> Seq<char> {
    "[General]\n"@ + spec_kv_seg("AudioFilename: "@, g.audio_file) + spec_kv_seg_i32(
        "AudioLeadIn: "@,
        g.audio_lead_in,
    ) + spec_kv_seg("AudioHash: "@, g.audio_hash) + spec_kv_seg_i32(
        "PreviewTime: "@,
        g.preview_time,
    ) + spec_kv_seg_i32("Countdown: "@, g.countdown) + spec_kv_seg_name(
        "SampleSet: "@,
        match g.sample_set {
            Some(s) => Some(spec_sample_set_name(s)),
            None => None,
        },
    ) + spec_kv_seg_dec("StackLeniency: "@, g.stack_leniency) + spec_kv_seg_i32("Mode: "@, g.mode)
        + spec_kv_seg_bool("LetterboxInBreaks: "@, g.letterbox_in_breaks) + spec_kv_seg_bool(
        "StoryFireInFront: "@,
        g.story_fire_in_front,
    ) + spec_kv_seg_bool("UseSkinSprites: "@, g.use_skin_sprites) + spec_kv_seg_bool(
        "AlwaysShowPlayfield: "@,
        g.always_show_playfield,
    ) + spec_kv_seg_name(
        "OverlayPosition: "@,
        match g.overlay_position {
            Some(s) => Some(spec_overlay_name(s)),
            None => None,
        },
    ) + spec_kv_seg("SkinPreference: "@, g.skin_preference) + spec_kv_seg_bool(
        "EpilepsyWarning: "@,
        g.epilepsy_warning,
    ) + spec_kv_seg_i32("CountdownOffset: "@, g.countdown_offset) + spec_kv_seg_bool(
        "SpecialStyle: "@,
        g.special_style,
    ) + spec_kv_seg_bool("WidescreenStoryboard: "@, g.widescreen_storyboard) + spec_kv_seg_bool(
        "SamplesMatchPlaybackRate: "@,
        g.samples_match_playback_rate,
    )
}

impl General {
    /// Reads one `Key: Value` line into the record.
    pub fn parse_value(&mut self, value: &str) -> (res: Result<(), ParseErrorKind>)
        ensures
            match spec_general_apply(old(self)@, value@) {
                Ok(g) => res is Ok && final(self)@ == g,
                Err(e) => res == Err::<(), ParseErrorKind>(e) && final(self)@ == old(self)@,
            },
    {
        let n = value.unicode_len();
        let iopt = find_char(value, ':');
        proof {
            lemma_find_char(value@, ':');
        }
        let i = match iopt {
            None => {
                return Err(ParseErrorKind::MissingRequiredField);
            },
            Some(i) => i,
        };
        let key = trim_str(value.substring_char(0, i));
        let val = trim_str(value.substring_char(i + 1, n));
        assert(key@ == spec_trim(value@.take(i as int)));
        assert(val@ == spec_trim(value@.skip(i + 1)));
        if str_eq(key, "AudioFilename") {
            self.audio_file = Some(val.to_owned());
        } else if str_eq(key, "AudioLeadIn") {
            match parse_i32_str(val) {
                Some(v) => {
                    self.audio_lead_in = Some(v);
                },
                None => {
                    return Err(ParseErrorKind::MalformedField);
                },
            }
        } else if str_eq(key, "PreviewTime") {
            match parse_i32_str(val) {
                Some(v) => {
                    self.preview_time = Some(v);
                },
                None => {
                    return Err(ParseErrorKind::MalformedField);
                },
            }
        } else if str_eq(key, "Countdown") {
            match parse_i32_str(val) {
                Some(v) => {
                    self.countdown = Some(v);
                },
                None => {
                    return Err(ParseErrorKind::MalformedField);
                },
            }
        } else if str_eq(key, "SampleSet") {
            self.sample_set = Some(SampleSet::of_token(val));
        } else if str_eq(key, "StackLeniency") {
            match parse_dec_str(val) {
                Some(v) => {
                    self.stack_leniency = Some(v);
                },
                None => {
                    return Err(ParseErrorKind::MalformedField);
                },
            }
        } else if str_eq(key, "Mode") {
            match parse_i32_str(val) {
                Some(v) => {
                    self.mode = Some(v);
                },
                None => {
                    return Err(ParseErrorKind::MalformedField);
                },
            }
        } else if str_eq(key, "LetterboxInBreaks") {
            self.letterbox_in_breaks = Some(!str_eq(val, "0"));
        } else if str_eq(key, "UseSkinSprites") {
            self.use_skin_sprites = Some(!str_eq(val, "0"));
        } else if str_eq(key, "OverlayPosition") {
            self.overlay_position = Some(OverlayPosition::of_token(val));
        } else if str_eq(key, "SkinPreference") {
            self.skin_preference = Some(val.to_owned());
        } else if str_eq(key, "EpilepsyWarning") {
            self.epilepsy_warning = Some(!str_eq(val, "0"));
        } else if str_eq(key, "CountdownOffset") {
            match parse_i32_str(val) {
                Some(v) => {
                    self.countdown_offset = Some(v);
                },
                None => {
                    return Err(ParseErrorKind::MalformedField);
                },
            }
        } else if str_eq(key, "SpecialStyle") {
            self.special_style = Some(!str_eq(val, "0"));
        } else if str_eq(key, "WidescreenStoryboard") {
            self.widescreen_storyboard = Some(!str_eq(val, "0"));
        } else if str_eq(key, "SamplesMatchPlaybackRate") {
            self.samples_match_playback_rate = Some(!str_eq(val, "0"));
        } else if str_eq(key, "AudioHash") {
            self.audio_hash = Some(val.to_owned());
        } else if str_eq(key, "StoryFireInFront") {
            self.story_fire_in_front = Some(!str_eq(val, "0"));
        } else if str_eq(key, "AlwaysShowPlayfield") {
            self.always_show_playfield = Some(!str_eq(val, "0"));
        }
        Ok(())
    }

    /// Appends the `[General]` section text.
    #[verifier::rlimit(100)]
    #[verifier::spinoff_prover]
    pub fn render(&self, out: &mut String)
        requires
            general_valid(self@),
        ensures
            final(out)@ == old(out)@ + spec_render_general(self@),
    {
        out.append("[General]\n");
        let ghost mut acc = "[General]\n"@;
        assert(out@ =~= old(out)@ + acc);
        crate::kv::kv_line_str("AudioFilename: ", &self.audio_file, out);
        proof {
            crate::text::lemma_concat_assoc(old(out)@, acc, spec_kv_seg("AudioFilename: "@, self@.audio_file));
            acc = acc + spec_kv_seg("AudioFilename: "@, self@.audio_file);
        }
        crate::kv::kv_line_i32("AudioLeadIn: ", &self.audio_lead_in, out);
        proof {
            crate::text::lemma_concat_assoc(old(out)@, acc, spec_kv_seg_i32("AudioLeadIn: "@, self.audio_lead_in));
            acc = acc + spec_kv_seg_i32("AudioLeadIn: "@, self.audio_lead_in);
        }
        crate::kv::kv_line_str("AudioHash: ", &self.audio_hash, out);
        proof {
            crate::text::lemma_concat_assoc(old(out)@, acc, spec_kv_seg("AudioHash: "@, self@.audio_hash));
            acc = acc + spec_kv_seg("AudioHash: "@, self@.audio_hash);
        }
        crate::kv::kv_line_i32("PreviewTime: ", &self.preview_time, out);
        proof {
            crate::text::lemma_concat_assoc(old(out)@, acc, spec_kv_seg_i32("PreviewTime: "@, self.preview_time));
            acc = acc + spec_kv_seg_i32("PreviewTime: "@, self.preview_time);
        }
        crate::kv::kv_line_i32("Countdown: ", &self.countdown, out);
        proof {
            crate::text::lemma_concat_assoc(old(out)@, acc, spec_kv_seg_i32("Countdown: "@, self.countdown));
            acc = acc + spec_kv_seg_i32("Countdown: "@, self.countdown);
        }
        if let Some(s) = &self.sample_set {
            out.append("SampleSet: ");
            s.render(out);
            out.append("\n");
        }
        proof {
            reveal_strlit("\n");
            assert("\n"@ =~= seq!['\n']);
            let seg = spec_kv_seg_name(
                "SampleSet: "@,
                match self@.sample_set {
                    Some(s) => Some(spec_sample_set_name(s)),
                    None => None,
                },
            );
            assert(out@ =~= (old(out)@ + acc) + seg);
            crate::text::lemma_concat_assoc(old(out)@, acc, seg);
            acc = acc + seg;
        }
        crate::kv::kv_line_dec("StackLeniency: ", &self.stack_leniency, out);
        proof {
            crate::text::lemma_concat_assoc(old(out)@, acc, spec_kv_seg_dec(
                "StackLeniency: "@,
                self.stack_leniency,
            ));
            acc = acc + spec_kv_seg_dec(
                "StackLeniency: "@,
                self.stack_leniency,
            );
        }
        crate::kv::kv_line_i32("Mode: ", &self.mode, out);
        proof {
            crate::text::lemma_concat_assoc(old(out)@, acc, spec_kv_seg_i32("Mode: "@, self.mode));
            acc = acc + spec_kv_seg_i32("Mode: "@, self.mode);
        }
        crate::kv::kv_line_bool("LetterboxInBreaks: ", &self.letterbox_in_breaks, out);
        proof {
            crate::text::lemma_concat_assoc(old(out)@, acc, spec_kv_seg_bool(
                "LetterboxInBreaks: "@,
                self.letterbox_in_breaks,
            ));
            acc = acc + spec_kv_seg_bool(
                "LetterboxInBreaks: "@,
                self.letterbox_in_breaks,
            );
        }
        crate::kv::kv_line_bool("StoryFireInFront: ", &self.story_fire_in_front, out);
        proof {
            crate::text::lemma_concat_assoc(old(out)@, acc, spec_kv_seg_bool(
                "StoryFireInFront: "@,
                self.story_fire_in_front,
            ));
            acc = acc + spec_kv_seg_bool(
                "StoryFireInFront: "@,
                self.story_fire_in_front,
            );
        }
        crate::kv::kv_line_bool("UseSkinSprites: ", &self.use_skin_sprites, out);
        proof {
            crate::text::lemma_concat_assoc(old(out)@, acc, spec_kv_seg_bool(
                "UseSkinSprites: "@,
                self.use_skin_sprites,
            ));
            acc = acc + spec_kv_seg_bool(
                "UseSkinSprites: "@,
                self.use_skin_sprites,
            );
        }
        crate::kv::kv_line_bool("AlwaysShowPlayfield: ", &self.always_show_playfield, out);
        proof {
            crate::text::lemma_concat_assoc(old(out)@, acc, spec_kv_seg_bool(
                "AlwaysShowPlayfield: "@,
                self.always_show_playfield,
            ));
            acc = acc + spec_kv_seg_bool(
                "AlwaysShowPlayfield: "@,
                self.always_show_playfield,
            );
        }
        if let Some(s) = &self.overlay_position {
            out.append("OverlayPosition: ");
            s.render(out);
            out.append("\n");
        }
        proof {
            reveal_strlit("\n");
            assert("\n"@ =~= seq!['\n']);
            let seg = spec_kv_seg_name(
                "OverlayPosition: "@,
                match self@.overlay_position {
                    Some(s) => Some(spec_overlay_name(s)),
                    None => None,
                },
            );
            assert(out@ =~= (old(out)@ + acc) + seg);
            crate::text::lemma_concat_assoc(old(out)@, acc, seg);
            acc = acc + seg;
        }
        crate::kv::kv_line_str("SkinPreference: ", &self.skin_preference, out);
        proof {
            crate::text::lemma_concat_assoc(old(out)@, acc, spec_kv_seg(
                "SkinPreference: "@,
                self@.skin_preference,
            ));
            acc = acc + spec_kv_seg(
                "SkinPreference: "@,
                self@.skin_preference,
            );
        }
        crate::kv::kv_line_bool("EpilepsyWarning: ", &self.epilepsy_warning, out);
        proof {
            crate::text::lemma_concat_assoc(old(out)@, acc, spec_kv_seg_bool(
                "EpilepsyWarning: "@,
                self.epilepsy_warning,
            ));
            acc = acc + spec_kv_seg_bool(
                "EpilepsyWarning: "@,
                self.epilepsy_warning,
            );
        }
        crate::kv::kv_line_i32("CountdownOffset: ", &self.countdown_offset, out);
        proof {
            crate::text::lemma_concat_assoc(old(out)@, acc, spec_kv_seg_i32(
                "CountdownOffset: "@,
                self.countdown_offset,
            ));
            acc = acc + spec_kv_seg_i32(
                "CountdownOffset: "@,
                self.countdown_offset,
            );
        }
        crate::kv::kv_line_bool("SpecialStyle: ", &self.special_style, out);
        proof {
            crate::text::lemma_concat_assoc(old(out)@, acc, spec_kv_seg_bool(
                "SpecialStyle: "@,
                self.special_style,
            ));
            acc = acc + spec_kv_seg_bool(
                "SpecialStyle: "@,
                self.special_style,
            );
        }
        crate::kv::kv_line_bool("WidescreenStoryboard: ", &self.widescreen_storyboard, out);
        proof {
            crate::text::lemma_concat_assoc(old(out)@, acc, spec_kv_seg_bool(
                "WidescreenStoryboard: "@,
                self.widescreen_storyboard,
            ));
            acc = acc + spec_kv_seg_bool(
                "WidescreenStoryboard: "@,
                self.widescreen_storyboard,
            );
        }
        crate::kv::kv_line_bool("SamplesMatchPlaybackRate: ", &self.samples_match_playback_rate, out);
        proof {
            crate::text::lemma_concat_assoc(old(out)@, acc, spec_kv_seg_bool(
                "SamplesMatchPlaybackRate: "@,
                self.samples_match_playback_rate,
            ));
            acc = acc + spec_kv_seg_bool(
                "SamplesMatchPlaybackRate: "@,
                self.samples_match_playback_rate,
            );
        }
        proof {
            assert(acc =~= spec_render_general(self@));
        }
    }
}

} // verus!

verus! {

/// An entirely unset general record.
pub open spec fn spec_general_empty() -> GeneralV {
    GeneralV {
        audio_file: None,
        audio_lead_in: None,
        preview_time: None,
        countdown: None,
        sample_set: None,
        stack_leniency: None,
        mode: None,
        letterbox_in_breaks: None,
        use_skin_sprites: None,
        overlay_position: None,
        skin_preference: None,
        epilepsy_warning: None,
        countdown_offset: None,
        special_style: None,
        widescreen_storyboard: None,
        samples_match_playback_rate: None,
        audio_hash: None,
        story_fire_in_front: None,
        always_show_playfield: None,
    }
}

} // verus!

verus! {

/// Reading a line keeps the record's decimals canonical.
pub proof fn lemma_general_apply_valid(g: GeneralV, line: Seq<char>)
    requires
        general_valid(g),
    ensures
        match spec_general_apply(g, line) {
            Ok(g2) => general_valid(g2),
            Err(_) => true,
        },
{
    match crate::text::spec_find_char(line, ':') {
        None => {},
        Some(i) => {
            crate::decimal::lemma_parse_dec_valid(crate::text::spec_trim(line.skip(i + 1)));
        },
    }
}

} // verus!
