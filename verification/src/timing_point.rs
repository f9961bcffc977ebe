//! The `[TimingPoints]` section: comma-separated records with a mandatory
//! time and a positional-optional tail — once a trailing field is present,
//! every field before it must be present too.

use crate::decimal::Decimal;
use crate::decimal::dec_valid;
use crate::decimal::lemma_dec_round_trip;
use crate::decimal::lemma_render_dec_plain;
use crate::decimal::parse_dec_str;
use crate::decimal::render_dec;
use crate::decimal::spec_parse_dec;
use crate::decimal::spec_render_dec;
use crate::error::ParseErrorKind;
use crate::numeric::lemma_i32_round_trip;
use crate::numeric::lemma_plain_char_props;
use crate::numeric::lemma_render_i32_plain;
use crate::numeric::parse_i32_str;
use crate::numeric::plain_num_char;
use crate::numeric::render_i32;
use crate::numeric::spec_parse_i32;
use crate::numeric::spec_render_i32;
use crate::text::is_ws;
use crate::text::lemma_join_push;
use crate::text::lemma_split_trim_join;
use crate::text::spec_join;
use crate::text::spec_split_trim;
use crate::text::str_eq;
use vstd::prelude::*;

verus! {

/// One timing record.  `time` is mandatory; the remaining fields form the
/// positional-optional tail, in canonical order.
#[derive(Clone, Copy, Debug, PartialEq, Eq)]
pub struct TimingPoint {
    pub time: i32,
    pub beat_length: Option<Decimal>,
    pub meter: Option<i32>,
    pub sample_set: Option<i32>,
    pub sample_index: Option<i32>,
    pub volume: Option<i32>,
    pub uninherited: Option<bool>,
    pub effects: Option<i32>,
}

/// An optional integer field at position `i` of the tail: absent when the
/// line is too short, an error when present but malformed.
pub open spec fn spec_opt_i32_at(s: Seq<Seq<char>>, i: int) -> Result<
    Option<i32>,
    ParseErrorKind,
> {
    if s.len() > i {
        match spec_parse_i32(s[i]) {
            Some(v) => Ok(Some(v)),
            None => Err(ParseErrorKind::MalformedField),
        }
    } else {
        Ok(None)
    }
}

/// The timing-point grammar over the trimmed comma-separated tokens: a
/// mandatory integer time, then beat length, meter, sample set, sample
/// index, volume, uninherited flag and effects, each present exactly when
/// the line is long enough, and a hard failure on any present token that
/// does not parse.
pub open spec fn spec_parse_timing_point(s: Seq<Seq<char>>) -> Result<
    TimingPoint,
    ParseErrorKind,
> {
    if s.len() < 1 {
        Err(ParseErrorKind::MissingRequiredField)
    } else {
        match spec_parse_i32(s[0]) {
            None => Err(ParseErrorKind::MalformedField),
            Some(time) => {
                let beat_length = if s.len() > 1 {
                    match spec_parse_dec(s[1]) {
                        Some(d) => Ok(Some(d)),
                        None => Err(ParseErrorKind::MalformedField),
                    }
                } else {
                    Ok(None)
                };
                match beat_length {
                    Err(e) => Err(e),
                    Ok(beat_length) => match spec_opt_i32_at(s, 2) {
                        Err(e) => Err(e),
                        Ok(meter) => match spec_opt_i32_at(s, 3) {
                            Err(e) => Err(e),
                            Ok(sample_set) => match spec_opt_i32_at(s, 4) {
                                Err(e) => Err(e),
                                Ok(sample_index) => match spec_opt_i32_at(s, 5) {
                                    Err(e) => Err(e),
                                    Ok(volume) => {
                                        let uninherited = if s.len() > 6 {
                                            Some(s[6] == "1"@)
                                        } else {
                                            None
                                        };
                                        match spec_opt_i32_at(s, 7) {
                                            Err(e) => Err(e),
                                            Ok(effects) => Ok(
                                                TimingPoint {
                                                    time,
                                                    beat_length,
                                                    meter,
                                                    sample_set,
                                                    sample_index,
                                                    volume,
                                                    uninherited,
                                                    effects,
                                                },
                                            ),
                                        }
                                    },
                                },
                            },
                        },
                    },
                }
            },
        }
    }
}

/// The tokens a timing point renders to: the time, then every present tail
/// field in canonical order.
pub open spec fn spec_tp_tokens(t: TimingPoint) -> Seq<Seq<char>> {
    let p0 = seq![spec_render_i32(t.time as int)];
    let p1 = match t.beat_length {
        Some(d) => p0.push(spec_render_dec(d)),
        None => p0,
    };
    let p2 = match t.meter {
        Some(v) => p1.push(spec_render_i32(v as int)),
        None => p1,
    };
    let p3 = match t.sample_set {
        Some(v) => p2.push(spec_render_i32(v as int)),
        None => p2,
    };
    let p4 = match t.sample_index {
        Some(v) => p3.push(spec_render_i32(v as int)),
        None => p3,
    };
    let p5 = match t.volume {
        Some(v) => p4.push(spec_render_i32(v as int)),
        None => p4,
    };
    let p6 = match t.uninherited {
        Some(b) => p5.push(
            if b {
                seq!['1']
            } else {
                seq!['0']
            },
        ),
        None => p5,
    };
    match t.effects {
        Some(v) => p6.push(spec_render_i32(v as int)),
        None => p6,
    }
}

pub open spec fn spec_render_timing_point(t: TimingPoint) -> Seq<char> {
    spec_join(spec_tp_tokens(t), ',')
}

/// The positional-optional invariant: a present field implies every earlier
/// tail field is present.  Rendering such a record puts every field back at
/// its own position.
pub open spec fn tp_valid(t: TimingPoint) -> bool {
    &&& t.meter is Some ==> t.beat_length is Some
    &&& t.sample_set is Some ==> t.meter is Some
    &&& t.sample_index is Some ==> t.sample_set is Some
    &&& t.volume is Some ==> t.sample_index is Some
    &&& t.uninherited is Some ==> t.volume is Some
    &&& t.effects is Some ==> t.uninherited is Some
    &&& match t.beat_length {
        Some(d) => dec_valid(d),
        None => true,
    }
}

impl TimingPoint {
    /// Reads one timing-point line, given its trimmed comma-separated tokens.
    pub fn parse(s: &[&str]) -> (res: Result<TimingPoint, ParseErrorKind>)
        ensures
            res == spec_parse_timing_point(s.deep_view()),
    {
        let ghost sv = s.deep_view();
        if s.len() < 1 {
            return Err(ParseErrorKind::MissingRequiredField);
        }
        assert(sv[0] == s[0]@);
        let time = match parse_i32_str(s[0]) {
            Some(v) => v,
            None => {
                return Err(ParseErrorKind::MalformedField);
            },
        };
        let beat_length = if s.len() > 1 {
            assert(sv[1] == s[1]@);
            match parse_dec_str(s[1]) {
                Some(d) => Some(d),
                None => {
                    return Err(ParseErrorKind::MalformedField);
                },
            }
        } else {
            None
        };
        let meter = match Self::opt_i32_at(s, 2) {
            Ok(v) => v,
            Err(e) => {
                return Err(e);
            },
        };
        let sample_set = match Self::opt_i32_at(s, 3) {
            Ok(v) => v,
            Err(e) => {
                return Err(e);
            },
        };
        let sample_index = match Self::opt_i32_at(s, 4) {
            Ok(v) => v,
            Err(e) => {
                return Err(e);
            },
        };
        let volume = match Self::opt_i32_at(s, 5) {
            Ok(v) => v,
            Err(e) => {
                return Err(e);
            },
        };
        let uninherited = if s.len() > 6 {
            assert(sv[6] == s[6]@);
            Some(str_eq(s[6], "1"))
        } else {
            None
        };
        let effects = match Self::opt_i32_at(s, 7) {
            Ok(v) => v,
            Err(e) => {
                return Err(e);
            },
        };
        Ok(
            TimingPoint {
                time,
                beat_length,
                meter,
                sample_set,
                sample_index,
                volume,
                uninherited,
                effects,
            },
        )
    }

    /// An optional integer token of the tail.
    fn opt_i32_at(s: &[&str], i: usize) -> (res: Result<Option<i32>, ParseErrorKind>)
        ensures
            res == spec_opt_i32_at(s.deep_view(), i as int),
    {
        if s.len() > i {
            assert(s.deep_view()[i as int] == s[i as int]@);
            match parse_i32_str(s[i]) {
                Some(v) => Ok(Some(v)),
                None => Err(ParseErrorKind::MalformedField),
            }
        } else {
            Ok(None)
        }
    }

    /// Appends the canonical timing-point line (without the newline) to `out`.
    #[verifier::rlimit(60)]
    pub fn render(&self, out: &mut String)
        requires
            tp_valid(*self),
        ensures
            final(out)@ == old(out)@ + spec_render_timing_point(*self),
    {
        let ghost t = *self;
        render_i32(self.time, out);
        let ghost p0 = seq![spec_render_i32(t.time as int)];
        assert(out@ == old(out)@ + spec_join(p0, ','));
        let ghost mut parts = p0;
        if let Some(d) = &self.beat_length {
            out.append(",");
            render_dec(d, out);
            proof {
                reveal_strlit(",");
                assert(","@ =~= seq![',']);
                lemma_join_push(parts, spec_render_dec(*d), ',');
                assert(out@ =~= old(out)@ + spec_join(parts.push(spec_render_dec(*d)), ','));
                parts = parts.push(spec_render_dec(*d));
            }
        }
        if let Some(v) = &self.meter {
            out.append(",");
            render_i32(*v, out);
            proof {
                reveal_strlit(",");
                assert(","@ =~= seq![',']);
                lemma_join_push(parts, spec_render_i32(*v as int), ',');
                assert(out@ =~= old(out)@ + spec_join(parts.push(spec_render_i32(*v as int)), ','));
                parts = parts.push(spec_render_i32(*v as int));
            }
        }
        if let Some(v) = &self.sample_set {
            out.append(",");
            render_i32(*v, out);
            proof {
                reveal_strlit(",");
                assert(","@ =~= seq![',']);
                lemma_join_push(parts, spec_render_i32(*v as int), ',');
                assert(out@ =~= old(out)@ + spec_join(parts.push(spec_render_i32(*v as int)), ','));
                parts = parts.push(spec_render_i32(*v as int));
            }
        }
        if let Some(v) = &self.sample_index {
            out.append(",");
            render_i32(*v, out);
            proof {
                reveal_strlit(",");
                assert(","@ =~= seq![',']);
                lemma_join_push(parts, spec_render_i32(*v as int), ',');
                assert(out@ =~= old(out)@ + spec_join(parts.push(spec_render_i32(*v as int)), ','));
                parts = parts.push(spec_render_i32(*v as int));
            }
        }
        if let Some(v) = &self.volume {
            out.append(",");
            render_i32(*v, out);
            proof {
                reveal_strlit(",");
                assert(","@ =~= seq![',']);
                lemma_join_push(parts, spec_render_i32(*v as int), ',');
                assert(out@ =~= old(out)@ + spec_join(parts.push(spec_render_i32(*v as int)), ','));
                parts = parts.push(spec_render_i32(*v as int));
            }
        }
        if let Some(b) = &self.uninherited {
            if *b {
                out.append(",1");
            } else {
                out.append(",0");
            }
            proof {
                reveal_strlit(",1");
                reveal_strlit(",0");
                let tok = if *b {
                    seq!['1']
                } else {
                    seq!['0']
                };
                assert(",1"@ =~= seq![','] + seq!['1']);
                assert(",0"@ =~= seq![','] + seq!['0']);
                lemma_join_push(parts, tok, ',');
                assert(out@ =~= old(out)@ + spec_join(parts.push(tok), ','));
                parts = parts.push(tok);
            }
        }
        if let Some(v) = &self.effects {
            out.append(",");
            render_i32(*v, out);
            proof {
                reveal_strlit(",");
                assert(","@ =~= seq![',']);
                lemma_join_push(parts, spec_render_i32(*v as int), ',');
                assert(out@ =~= old(out)@ + spec_join(parts.push(spec_render_i32(*v as int)), ','));
                parts = parts.push(spec_render_i32(*v as int));
            }
        }
        proof {
            assert(parts =~= spec_tp_tokens(t));
        }
    }
}

/// One token of a rendered timing point is free of commas and edge
/// whitespace.
proof fn lemma_tp_token_plain(tok: Seq<char>)
    requires
        tok.len() >= 1,
        forall|j: int| 0 <= j < tok.len() ==> plain_num_char(#[trigger] tok[j]),
    ensures
        forall|j: int| 0 <= j < tok.len() ==> #[trigger] tok[j] != ',',
        !is_ws(tok[0]),
        !is_ws(tok.last()),
{
    assert forall|j: int| 0 <= j < tok.len() implies #[trigger] tok[j] != ',' by {
        lemma_plain_char_props(tok[j]);
    }
    lemma_plain_char_props(tok[0]);
    lemma_plain_char_props(tok.last());
}

/// Positional-optional decoding (the tail law): when a line of `k` tokens
/// decodes, exactly its first `k` fields are populated and every later
/// field is absent — never a partial or shifted read.
pub proof fn lemma_timing_point_tail(s: Seq<Seq<char>>, t: TimingPoint)
    requires
        spec_parse_timing_point(s) == Ok::<TimingPoint, ParseErrorKind>(t),
    ensures
        t.beat_length is Some <==> s.len() > 1,
        t.meter is Some <==> s.len() > 2,
        t.sample_set is Some <==> s.len() > 3,
        t.sample_index is Some <==> s.len() > 4,
        t.volume is Some <==> s.len() > 5,
        t.uninherited is Some <==> s.len() > 6,
        t.effects is Some <==> s.len() > 7,
        tp_valid(t) || !(match t.beat_length {
            Some(d) => dec_valid(d),
            None => true,
        }),
{
}

/// Round trip: a canonical timing point survives render, comma split with
/// trimming, and reparse.
pub proof fn lemma_timing_point_round_trip(t: TimingPoint)
    requires
        tp_valid(t),
    ensures
        spec_parse_timing_point(spec_split_trim(spec_render_timing_point(t), ',')) == Ok::<
            TimingPoint,
            ParseErrorKind,
        >(t),
{
    let parts = spec_tp_tokens(t);
    lemma_render_i32_plain(t.time as int);
    lemma_tp_token_plain(spec_render_i32(t.time as int));
    if let Some(d) = t.beat_length {
        lemma_render_dec_plain(d);
        lemma_tp_token_plain(spec_render_dec(d));
        lemma_dec_round_trip(d);
    }
    if let Some(v) = t.meter {
        lemma_render_i32_plain(v as int);
        lemma_tp_token_plain(spec_render_i32(v as int));
        lemma_i32_round_trip(v);
    }
    if let Some(v) = t.sample_set {
        lemma_render_i32_plain(v as int);
        lemma_tp_token_plain(spec_render_i32(v as int));
        lemma_i32_round_trip(v);
    }
    if let Some(v) = t.sample_index {
        lemma_render_i32_plain(v as int);
        lemma_tp_token_plain(spec_render_i32(v as int));
        lemma_i32_round_trip(v);
    }
    if let Some(v) = t.volume {
        lemma_render_i32_plain(v as int);
        lemma_tp_token_plain(spec_render_i32(v as int));
        lemma_i32_round_trip(v);
    }
    if let Some(v) = t.effects {
        lemma_render_i32_plain(v as int);
        lemma_tp_token_plain(spec_render_i32(v as int));
        lemma_i32_round_trip(v);
    }
    assert forall|i: int, j: int|
        0 <= i < parts.len() && 0 <= j < parts[i].len() implies #[trigger] parts[i][j] != ',' by {
        lemma_tp_tokens_each(t, i);
    }
    assert forall|i: int|
        0 <= i < parts.len() implies (#[trigger] parts[i].len() > 0 && !is_ws(parts[i][0])
            && !is_ws(parts[i].last())) by {
        lemma_tp_tokens_each(t, i);
    }
    lemma_split_trim_join(parts, ',');
    lemma_i32_round_trip(t.time);
    if let Some(b) = t.uninherited {
        reveal_strlit("1");
        reveal_strlit("0");
        assert(seq!['1'] =~= "1"@);
        assert(seq!['0'] =~= "0"@);
        if !b {
            assert("0"@ != "1"@) by {
                assert("0"@[0] == '0' && "1"@[0] == '1');
            }
        }
    }
}

/// Every rendered timing-point token is non-empty, comma-free, and has no
/// whitespace at its ends.
proof fn lemma_tp_tokens_each(t: TimingPoint, i: int)
    requires
        tp_valid(t),
        0 <= i < spec_tp_tokens(t).len(),
    ensures
        spec_tp_tokens(t)[i].len() > 0,
        forall|j: int|
            0 <= j < spec_tp_tokens(t)[i].len() ==> #[trigger] spec_tp_tokens(t)[i][j] != ',',
        !is_ws(spec_tp_tokens(t)[i][0]),
        !is_ws(spec_tp_tokens(t)[i].last()),
{
    let tok = spec_tp_tokens(t)[i];
    if i == 0 {
        lemma_render_i32_plain(t.time as int);
        lemma_tp_token_plain(tok);
    } else if i == 1 {
        let d = t.beat_length->Some_0;
        lemma_render_dec_plain(d);
        lemma_tp_token_plain(tok);
    } else if t.uninherited is Some && i == spec_tp_tokens(t).len() - 1 - (if t.effects is Some {
        1int
    } else {
        0int
    }) {
        assert(tok =~= if t.uninherited->Some_0 {
            seq!['1']
        } else {
            seq!['0']
        });
        assert(crate::numeric::is_digit(tok[0]));
        lemma_tp_token_plain(tok);
    } else {
        // One of the integer fields.
        assert(tok == spec_render_i32(spec_tp_int_at(t, i) as int));
        lemma_render_i32_plain(spec_tp_int_at(t, i) as int);
        lemma_tp_token_plain(tok);
    }
}

/// The integer field standing at token position `i` of a canonical record.
pub open spec fn spec_tp_int_at(t: TimingPoint, i: int) -> i32 {
    if i == 2 {
        t.meter->Some_0
    } else if i == 3 {
        t.sample_set->Some_0
    } else if i == 4 {
        t.sample_index->Some_0
    } else if i == 5 {
        t.volume->Some_0
    } else {
        t.effects->Some_0
    }
}

} // verus!

verus! {

/// Whatever the timing-point decoder accepts satisfies the render validity
/// predicate: its tail is positional and its beat length canonical.
pub proof fn lemma_parse_timing_point_valid(s: Seq<Seq<char>>)
    ensures
        match spec_parse_timing_point(s) {
            Ok(t) => tp_valid(t),
            Err(_) => true,
        },
{
    if spec_parse_timing_point(s) is Ok {
        let t = spec_parse_timing_point(s)->Ok_0;
        lemma_timing_point_tail(s, t);
        if s.len() > 1 {
            crate::decimal::lemma_parse_dec_valid(s[1]);
        }
    }
}

} // verus!
