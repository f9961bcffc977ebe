//! The `[Difficulty]` section: six decimal-valued gameplay parameters.

use crate::decimal::Decimal;
use crate::decimal::dec_valid;
use crate::decimal::parse_dec_str;
use crate::decimal::spec_parse_dec;
use crate::error::ParseErrorKind;
use crate::kv::spec_kv_seg_dec;
use crate::text::find_char;
use crate::text::lemma_find_char;
use crate::text::spec_find_char;
use crate::text::spec_trim;
use crate::text::str_eq;
use crate::text::trim_str;
use vstd::prelude::*;

verus! {

/// The difficulty record; every field is absent until a line or a setter
/// fills it.
#[derive(Clone, Copy, Debug, PartialEq, Eq, Default)]
pub struct Difficulty {
    pub hp_drain_rate: Option<Decimal>,
    pub circle_size: Option<Decimal>,
    pub overall_difficulty: Option<Decimal>,
    pub approach_rate: Option<Decimal>,
    pub slider_multiplier: Option<Decimal>,
    pub slider_tick_rate: Option<Decimal>,
}

/// Every present field holds a canonical decimal.
pub open spec fn difficulty_valid(d: Difficulty) -> bool {
    &&& match d.hp_drain_rate {
        Some(x) => dec_valid(x),
        None => true,
    }
    &&& match d.circle_size {
        Some(x) => dec_valid(x),
        None => true,
    }
    &&& match d.overall_difficulty {
        Some(x) => dec_valid(x),
        None => true,
    }
    &&& match d.approach_rate {
        Some(x) => dec_valid(x),
        None => true,
    }
    &&& match d.slider_multiplier {
        Some(x) => dec_valid(x),
        None => true,
    }
    &&& match d.slider_tick_rate {
        Some(x) => dec_valid(x),
        None => true,
    }
}

/// The key-value grammar of a difficulty line.
pub open spec fn spec_difficulty_apply(d: Difficulty, line: Seq<char>) -> Result<
    Difficulty,
    ParseErrorKind,
> {
    match spec_find_char(line, ':') {
        None => Err(ParseErrorKind::MissingRequiredField),
        Some(i) => {
            let key = spec_trim(line.take(i));
            let val = spec_trim(line.skip(i + 1));
            if key == "HPDrainRate"@ {
                match spec_parse_dec(val) {
                    Some(v) => Ok(Difficulty { hp_drain_rate: Some(v), ..d }),
                    None => Err(ParseErrorKind::MalformedField),
                }
            } else if key == "CircleSize"@ {
                match spec_parse_dec(val) {
                    Some(v) => Ok(Difficulty { circle_size: Some(v), ..d }),
                    None => Err(ParseErrorKind::MalformedField),
                }
            } else if key == "OverallDifficulty"@ {
                match spec_parse_dec(val) {
                    Some(v) => Ok(Difficulty { overall_difficulty: Some(v), ..d }),
                    None => Err(ParseErrorKind::MalformedField),
                }
            } else if key == "ApproachRate"@ {
                match spec_parse_dec(val) {
                    Some(v) => Ok(Difficulty { approach_rate: Some(v), ..d }),
                    None => Err(ParseErrorKind::MalformedField),
                }
            } else if key == "SliderMultiplier"@ {
                match spec_parse_dec(val) {
                    Some(v) => Ok(Difficulty { slider_multiplier: Some(v), ..d }),
                    None => Err(ParseErrorKind::MalformedField),
                }
            } else if key == "SliderTickRate"@ {
                match spec_parse_dec(val) {
                    Some(v) => Ok(Difficulty { slider_tick_rate: Some(v), ..d }),
                    None => Err(ParseErrorKind::MalformedField),
                }
            } else {
                Ok(d)
            }
        },
    }
}

/// The `[Difficulty]` section text.
pub open spec fn spec_render_difficulty(d: Difficulty) -> Seq<char> {
    "[Difficulty]\n"@ + spec_kv_seg_dec("HPDrainRate: "@, d.hp_drain_rate) + spec_kv_seg_dec(
        "CircleSize: "@,
        d.circle_size,
    ) + spec_kv_seg_dec("OverallDifficulty: "@, d.overall_difficulty) + spec_kv_seg_dec(
        "ApproachRate: "@,
        d.approach_rate,
    ) + spec_kv_seg_dec("SliderMultiplier: "@, d.slider_multiplier) + spec_kv_seg_dec(
        "SliderTickRate: "@,
        d.slider_tick_rate,
    )
}

impl Difficulty {
    /// Reads one `Key: Value` line into the record; unknown keys leave it
    /// unchanged, a malformed value on a known key is a hard failure.
    pub fn parse_value(&mut self, value: &str) -> (res: Result<(), ParseErrorKind>)
        ensures
            match spec_difficulty_apply(*old(self), value@) {
                Ok(d) => res is Ok && *final(self) == d,
                Err(e) => res == Err::<(), ParseErrorKind>(e) && *final(self) == *old(self),
            },
    {
        let n = value.unicode_len();
        let iopt = find_char(value, ':');
        proof {
            lemma_find_char(value@, ':');
        }
        let i = match iopt {
            None => {
                return Err(ParseErrorKind::MissingRequiredField);
            },
            Some(i) => i,
        };
        let key = trim_str(value.substring_char(0, i));
        let val = trim_str(value.substring_char(i + 1, n));
        assert(key@ == spec_trim(value@.take(i as int)));
        assert(val@ == spec_trim(value@.skip(i + 1)));
        if str_eq(key, "HPDrainRate") {
            match parse_dec_str(val) {
                Some(v) => {
                    self.hp_drain_rate = Some(v);
                },
                None => {
                    return Err(ParseErrorKind::MalformedField);
                },
            }
        } else if str_eq(key, "CircleSize") {
            match parse_dec_str(val) {
                Some(v) => {
                    self.circle_size = Some(v);
                },
                None => {
                    return Err(ParseErrorKind::MalformedField);
                },
            }
        } else if str_eq(key, "OverallDifficulty") {
            match parse_dec_str(val) {
                Some(v) => {
                    self.overall_difficulty = Some(v);
                },
                None => {
                    return Err(ParseErrorKind::MalformedField);
                },
            }
        } else if str_eq(key, "ApproachRate") {
            match parse_dec_str(val) {
                Some(v) => {
                    self.approach_rate = Some(v);
                },
                None => {
                    return Err(ParseErrorKind::MalformedField);
                },
            }
        } else if str_eq(key, "SliderMultiplier") {
            match parse_dec_str(val) {
                Some(v) => {
                    self.slider_multiplier = Some(v);
                },
                None => {
                    return Err(ParseErrorKind::MalformedField);
                },
            }
        } else if str_eq(key, "SliderTickRate") {
            match parse_dec_str(val) {
                Some(v) => {
                    self.slider_tick_rate = Some(v);
                },
                None => {
                    return Err(ParseErrorKind::MalformedField);
                },
            }
        }
        Ok(())
    }

    /// Appends the `[Difficulty]` section text.
    pub fn render(&self, out: &mut String)
        requires
            difficulty_valid(*self),
        ensures
            final(out)@ == old(out)@ + spec_render_difficulty(*self),
    {
        out.append("[Difficulty]\n");
        let ghost mut acc = "[Difficulty]\n"@;
        assert(out@ =~= old(out)@ + acc);
        crate::kv::kv_line_dec("HPDrainRate: ", &self.hp_drain_rate, out);
        proof {
            assert(out@ =~= old(out)@ + (acc + spec_kv_seg_dec("HPDrainRate: "@, self.hp_drain_rate)));
            acc = acc + spec_kv_seg_dec("HPDrainRate: "@, self.hp_drain_rate);
        }
        crate::kv::kv_line_dec("CircleSize: ", &self.circle_size, out);
        proof {
            assert(out@ =~= old(out)@ + (acc + spec_kv_seg_dec("CircleSize: "@, self.circle_size)));
            acc = acc + spec_kv_seg_dec("CircleSize: "@, self.circle_size);
        }
        crate::kv::kv_line_dec("OverallDifficulty: ", &self.overall_difficulty, out);
        proof {
            assert(out@ =~= old(out)@ + (acc + spec_kv_seg_dec(
                "OverallDifficulty: "@,
                self.overall_difficulty,
            )));
            acc = acc + spec_kv_seg_dec("OverallDifficulty: "@, self.overall_difficulty);
        }
        crate::kv::kv_line_dec("ApproachRate: ", &self.approach_rate, out);
        proof {
            assert(out@ =~= old(out)@ + (acc + spec_kv_seg_dec(
                "ApproachRate: "@,
                self.approach_rate,
            )));
            acc = acc + spec_kv_seg_dec("ApproachRate: "@, self.approach_rate);
        }
        crate::kv::kv_line_dec("SliderMultiplier: ", &self.slider_multiplier, out);
        proof {
            assert(out@ =~= old(out)@ + (acc + spec_kv_seg_dec(
                "SliderMultiplier: "@,
                self.slider_multiplier,
            )));
            acc = acc + spec_kv_seg_dec("SliderMultiplier: "@, self.slider_multiplier);
        }
        crate::kv::kv_line_dec("SliderTickRate: ", &self.slider_tick_rate, out);
        proof {
            assert(out@ =~= old(out)@ + (acc + spec_kv_seg_dec(
                "SliderTickRate: "@,
                self.slider_tick_rate,
            )));
            acc = acc + spec_kv_seg_dec("SliderTickRate: "@, self.slider_tick_rate);
        }
        proof {
            assert(acc =~= spec_render_difficulty(*self));
        }
    }

    pub fn change_hp_drain_rate(&mut self, rate: Decimal)
        ensures
            *final(self) == (Difficulty { hp_drain_rate: Some(rate), ..*old(self) }),
    {
        self.hp_drain_rate = Some(rate);
    }

    pub fn change_circle_size(&mut self, size: Decimal)
        ensures
            *final(self) == (Difficulty { circle_size: Some(size), ..*old(self) }),
    {
        self.circle_size = Some(size);
    }

    pub fn change_overall_difficulty(&mut self, difficulty: Decimal)
        ensures
            *final(self) == (Difficulty { overall_difficulty: Some(difficulty), ..*old(self) }),
    {
        self.overall_difficulty = Some(difficulty);
    }

    pub fn change_approach_rate(&mut self, rate: Decimal)
        ensures
            *final(self) == (Difficulty { approach_rate: Some(rate), ..*old(self) }),
    {
        self.approach_rate = Some(rate);
    }

    pub fn change_slider_multiplier(&mut self, multiplier: Decimal)
        ensures
            *final(self) == (Difficulty { slider_multiplier: Some(multiplier), ..*old(self) }),
    {
        self.slider_multiplier = Some(multiplier);
    }

    pub fn change_slider_tick_rate(&mut self, rate: Decimal)
        ensures
            *final(self) == (Difficulty { slider_tick_rate: Some(rate), ..*old(self) }),
    {
        self.slider_tick_rate = Some(rate);
    }
}

} // verus!

verus! {

/// Reading a line keeps the record's decimals canonical.
pub proof fn lemma_difficulty_apply_valid(d: Difficulty, line: Seq<char>)
    requires
        difficulty_valid(d),
    ensures
        match spec_difficulty_apply(d, line) {
            Ok(d2) => difficulty_valid(d2),
            Err(_) => true,
        },
{
    match crate::text::spec_find_char(line, ':') {
        None => {},
        Some(i) => {
            crate::decimal::lemma_parse_dec_valid(crate::text::spec_trim(line.skip(i + 1)));
        },
    }
}

} // verus!
