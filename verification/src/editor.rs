//! The `[Editor]` section: saved editor preferences, including the
//! comma-separated bookmark list.

use crate::decimal::Decimal;
use crate::decimal::dec_valid;
use crate::decimal::parse_dec_str;
use crate::decimal::spec_parse_dec;
use crate::error::ParseErrorKind;
use crate::kv::spec_kv_seg_dec;
use crate::kv::spec_kv_seg_i32;
use crate::numeric::parse_i32_str;
use crate::numeric::render_i32;
use crate::numeric::spec_parse_i32;
use crate::numeric::spec_render_i32;
use crate::text::find_char;
use crate::text::lemma_find_char;
use crate::text::spec_find_char;
use crate::text::spec_join;
use crate::text::spec_split;
use crate::text::spec_trim;
use crate::text::split_str;
use crate::text::str_eq;
use crate::text::trim_str;
use vstd::prelude::*;

verus! {

/// The editor record; every field is absent until a line fills it.
#[derive(Clone, Debug, PartialEq, Eq, Default)]
pub struct Editor {
    pub bookmarks: Option<Vec<i32>>,
    pub distance_spacing: Option<Decimal>,
    pub beat_divisor: Option<i32>,
    pub grid_size: Option<i32>,
    pub timeline_zoom: Option<Decimal>,
}

pub ghost struct EditorV {
    pub bookmarks: Option<Seq<i32>>,
    pub distance_spacing: Option<Decimal>,
    pub beat_divisor: Option<i32>,
    pub grid_size: Option<i32>,
    pub timeline_zoom: Option<Decimal>,
}

impl View for Editor {
    type V = EditorV;

    open spec fn view(&self) -> EditorV {
        EditorV {
            bookmarks: match self.bookmarks {
                Some(ref v) => Some(v@),
                None => None,
            },
            distance_spacing: self.distance_spacing,
            beat_divisor: self.beat_divisor,
            grid_size: self.grid_size,
            timeline_zoom: self.timeline_zoom,
        }
    }
}

/// The bookmark entries that parse; entries that do not are skipped.
pub open spec fn spec_bookmarks(parts: Seq<Seq<char>>) -> Seq<i32>
    decreases parts.len(),
{
    if parts.len() == 0 {
        Seq::<i32>::empty()
    } else {
        let rest = spec_bookmarks(parts.skip(1));
        match spec_parse_i32(parts[0]) {
            Some(v) => seq![v] + rest,
            None => rest,
        }
    }
}

/// The key-value grammar of an editor line.
pub open spec fn spec_editor_apply(ed: EditorV, line: Seq<char>) -> Result<
    EditorV,
    ParseErrorKind,
> {
    match spec_find_char(line, ':') {
        None => Err(ParseErrorKind::MissingRequiredField),
        Some(i) => {
            let key = spec_trim(line.take(i));
            let val = spec_trim(line.skip(i + 1));
            if key == "Bookmarks"@ {
                Ok(EditorV { bookmarks: Some(spec_bookmarks(spec_split(val, ','))), ..ed })
            } else if key == "DistanceSpacing"@ {
                match spec_parse_dec(val) {
                    Some(v) => Ok(EditorV { distance_spacing: Some(v), ..ed }),
                    None => Err(ParseErrorKind::MalformedField),
                }
            } else if key == "BeatDivisor"@ {
                match spec_parse_i32(val) {
                    Some(v) => Ok(EditorV { beat_divisor: Some(v), ..ed }),
                    None => Err(ParseErrorKind::MalformedField),
                }
            } else if key == "GridSize"@ {
                match spec_parse_i32(val) {
                    Some(v) => Ok(EditorV { grid_size: Some(v), ..ed }),
                    None => Err(ParseErrorKind::MalformedField),
                }
            } else if key == "TimelineZoom"@ {
                match spec_parse_dec(val) {
                    Some(v) => Ok(EditorV { timeline_zoom: Some(v), ..ed }),
                    None => Err(ParseErrorKind::MalformedField),
                }
            } else {
                Ok(ed)
            }
        },
    }
}

/// The `[Editor]` section text; an entirely unset record renders nothing.
pub open spec fn spec_render_editor(ed: EditorV) -> Seq<char> {
    if ed.bookmarks is None && ed.distance_spacing is None && ed.beat_divisor is None
        && ed.grid_size is None && ed.timeline_zoom is None {
        Seq::<char>::empty()
    } else {
        "[Editor]\n"@ + (match ed.bookmarks {
            Some(bs) => "Bookmarks: "@ + spec_join(
                bs.map(|i: int, v: i32| spec_render_i32(v as int)),
                ',',
            ) + seq!['\n'],
            None => Seq::<char>::empty(),
        }) + spec_kv_seg_dec("DistanceSpacing: "@, ed.distance_spacing) + spec_kv_seg_i32(
            "BeatDivisor: "@,
            ed.beat_divisor,
        ) + spec_kv_seg_i32("GridSize: "@, ed.grid_size) + spec_kv_seg_dec(
            "TimelineZoom: "@,
            ed.timeline_zoom,
        )
    }
}

pub open spec fn editor_valid(ed: EditorV) -> bool {
    &&& match ed.distance_spacing {
        Some(x) => dec_valid(x),
        None => true,
    }
    &&& match ed.timeline_zoom {
        Some(x) => dec_valid(x),
        None => true,
    }
}

impl Editor {
    /// True iff no field of the record is set.
    pub fn is_empty(&self) -> (r: bool)
        ensures
            r == (self@.bookmarks is None && self@.distance_spacing is None && self@.beat_divisor
                is None && self@.grid_size is None && self@.timeline_zoom is None),
    {
        self.bookmarks.is_none() && self.distance_spacing.is_none() && self.beat_divisor.is_none()
            && self.grid_size.is_none() && self.timeline_zoom.is_none()
    }

    /// Reads one `Key: Value` line into the record.
    pub fn parse_value(&mut self, value: &str) -> (res: Result<(), ParseErrorKind>)
        ensures
            match spec_editor_apply(old(self)@, value@) {
                Ok(ed) => res is Ok && final(self)@ == ed,
                Err(e) => res == Err::<(), ParseErrorKind>(e) && final(self)@ == old(self)@,
            },
    {
        let n = value.unicode_len();
        let iopt = find_char(value, ':');
        proof {
            lemma_find_char(value@, ':');
        }
        let i = match iopt {
            None => {
                return Err(ParseErrorKind::MissingRequiredField);
            },
            Some(i) => i,
        };
        let key = trim_str(value.substring_char(0, i));
        let val = trim_str(value.substring_char(i + 1, n));
        assert(key@ == spec_trim(value@.take(i as int)));
        assert(val@ == spec_trim(value@.skip(i + 1)));
        if str_eq(key, "Bookmarks") {
            let parts = split_str(val, ',');
            let ghost pv = parts.deep_view();
            let mut bs: Vec<i32> = Vec::new();
            let mut k: usize = 0;
            proof {
                assert(pv.skip(0) =~= pv);
            }
            while k < parts.len()
                invariant
                    0 <= k <= parts.len(),
                    pv == parts.deep_view(),
                    spec_bookmarks(pv) == bs@ + spec_bookmarks(pv.skip(k as int)),
                decreases parts.len() - k,
            {
                proof {
                    assert(pv.skip(k as int)[0] == pv[k as int]);
                    assert(pv.skip(k as int).skip(1) =~= pv.skip(k + 1));
                    assert(pv[k as int] == parts[k as int]@);
                }
                let ghost prev = bs@;
                if let Some(v) = parse_i32_str(parts[k]) {
                    bs.push(v);
                    proof {
                        assert(prev + (seq![v] + spec_bookmarks(pv.skip(k + 1))) =~= bs@
                            + spec_bookmarks(pv.skip(k + 1)));
                    }
                }
                k += 1;
            }
            proof {
                assert(spec_bookmarks(pv.skip(parts.len() as int)) =~= Seq::<i32>::empty());
                assert(bs@ + Seq::<i32>::empty() =~= bs@);
            }
            self.bookmarks = Some(bs);
        } else if str_eq(key, "DistanceSpacing") {
            match parse_dec_str(val) {
                Some(v) => {
                    self.distance_spacing = Some(v);
                },
                None => {
                    return Err(ParseErrorKind::MalformedField);
                },
            }
        } else if str_eq(key, "BeatDivisor") {
            match parse_i32_str(val) {
                Some(v) => {
                    self.beat_divisor = Some(v);
                },
                None => {
                    return Err(ParseErrorKind::MalformedField);
                },
            }
        } else if str_eq(key, "GridSize") {
            match parse_i32_str(val) {
                Some(v) => {
                    self.grid_size = Some(v);
                },
                None => {
                    return Err(ParseErrorKind::MalformedField);
                },
            }
        } else if str_eq(key, "TimelineZoom") {
            match parse_dec_str(val) {
                Some(v) => {
                    self.timeline_zoom = Some(v);
                },
                None => {
                    return Err(ParseErrorKind::MalformedField);
                },
            }
        }
        Ok(())
    }

    /// Appends the `[Editor]` section text.
    pub fn render(&self, out: &mut String)
        requires
            editor_valid(self@),
        ensures
            final(out)@ == old(out)@ + spec_render_editor(self@),
    {
        if self.is_empty() {
            proof {
                assert(out@ =~= old(out)@ + Seq::<char>::empty());
            }
            return ;
        }
        out.append("[Editor]\n");
        let ghost mut acc = "[Editor]\n"@;
        assert(out@ =~= old(out)@ + acc);
        if let Some(bs) = &self.bookmarks {
            out.append("Bookmarks: ");
            let ghost mut toks = Seq::<Seq<char>>::empty();
            let mut k: usize = 0;
            proof {
                assert(out@ =~= old(out)@ + acc + "Bookmarks: "@ + spec_join(toks, ','));
            }
            while k < bs.len()
                invariant
                    0 <= k <= bs.len(),
                    toks == bs@.take(k as int).map(|i: int, v: i32| spec_render_i32(v as int)),
                    out@ == old(out)@ + acc + "Bookmarks: "@ + spec_join(toks, ','),
                decreases bs.len() - k,
            {
                if k > 0 {
                    out.append(",");
                }
                let v = bs[k];
                render_i32(v, out);
                proof {
                    reveal_strlit(",");
                    assert(","@ =~= seq![',']);
                    if k == 0 {
                        assert(toks.len() == 0);
                        assert(spec_join(seq![spec_render_i32(v as int)], ',')
                            == spec_render_i32(v as int));
                        assert(out@ =~= old(out)@ + acc + "Bookmarks: "@ + spec_join(
                            seq![spec_render_i32(v as int)],
                            ',',
                        ));
                        toks = seq![spec_render_i32(v as int)];
                    } else {
                        crate::text::lemma_join_push(toks, spec_render_i32(v as int), ',');
                        assert(out@ =~= old(out)@ + acc + "Bookmarks: "@ + spec_join(
                            toks.push(spec_render_i32(v as int)),
                            ',',
                        ));
                        toks = toks.push(spec_render_i32(v as int));
                    }
                    assert(toks =~= bs@.take(k + 1).map(
                        |i: int, w: i32| spec_render_i32(w as int),
                    ));
                }
                k += 1;
            }
            out.append("\n");
            proof {
                reveal_strlit("\n");
                assert("\n"@ =~= seq!['\n']);
                assert(bs@.take(bs@.len() as int) =~= bs@);
                let seg = "Bookmarks: "@ + spec_join(
                    bs@.map(|i: int, v: i32| spec_render_i32(v as int)),
                    ',',
                ) + seq!['\n'];
                assert(out@ =~= old(out)@ + (acc + seg));
                acc = acc + seg;
            }
        }
        crate::kv::kv_line_dec("DistanceSpacing: ", &self.distance_spacing, out);
        proof {
            assert(out@ =~= old(out)@ + (acc + spec_kv_seg_dec(
                "DistanceSpacing: "@,
                self.distance_spacing,
            )));
            acc = acc + spec_kv_seg_dec("DistanceSpacing: "@, self.distance_spacing);
        }
        crate::kv::kv_line_i32("BeatDivisor: ", &self.beat_divisor, out);
        proof {
            assert(out@ =~= old(out)@ + (acc + spec_kv_seg_i32("BeatDivisor: "@, self.beat_divisor)));
            acc = acc + spec_kv_seg_i32("BeatDivisor: "@, self.beat_divisor);
        }
        crate::kv::kv_line_i32("GridSize: ", &self.grid_size, out);
        proof {
            assert(out@ =~= old(out)@ + (acc + spec_kv_seg_i32("GridSize: "@, self.grid_size)));
            acc = acc + spec_kv_seg_i32("GridSize: "@, self.grid_size);
        }
        crate::kv::kv_line_dec("TimelineZoom: ", &self.timeline_zoom, out);
        proof {
            assert(out@ =~= old(out)@ + (acc + spec_kv_seg_dec(
                "TimelineZoom: "@,
                self.timeline_zoom,
            )));
            acc = acc + spec_kv_seg_dec("TimelineZoom: "@, self.timeline_zoom);
        }
        proof {
            assert(acc =~= spec_render_editor(self@));
        }
    }
}

} // verus!

verus! {

/// An entirely unset editor record.
pub open spec fn spec_editor_empty() -> EditorV {
    EditorV {
        bookmarks: None,
        distance_spacing: None,
        beat_divisor: None,
        grid_size: None,
        timeline_zoom: None,
    }
}

} // verus!

verus! {

/// Reading a line keeps the record's decimals canonical.
pub proof fn lemma_editor_apply_valid(ed: EditorV, line: Seq<char>)
    requires
        editor_valid(ed),
    ensures
        match spec_editor_apply(ed, line) {
            Ok(e2) => editor_valid(e2),
            Err(_) => true,
        },
{
    match crate::text::spec_find_char(line, ':') {
        None => {},
        Some(i) => {
            crate::decimal::lemma_parse_dec_valid(crate::text::spec_trim(line.skip(i + 1)));
        },
    }
}

} // verus!
