//! The `[HitObjects]` section: comma-separated records dispatched on a
//! bit-flag type byte to one of four shapes — circle, slider, spinner,
//! hold — each with its own variable tail and an optional trailing
//! colon-joined hit sample.

use crate::decimal::Decimal;
use crate::decimal::dec_valid;
use crate::decimal::parse_dec_str;
use crate::decimal::render_dec;
use crate::decimal::spec_parse_dec;
use crate::decimal::spec_render_dec;
use crate::error::ParseErrorKind;
use crate::error::view_result;
use crate::numeric::parse_i32_str;
use crate::numeric::render_i32;
use crate::numeric::spec_parse_i32;
use crate::numeric::spec_render_i32;
use crate::text::contains_char;
use crate::text::split_str;
use crate::text::spec_split;
use crate::text::str_eq;
use vstd::prelude::*;

verus! {

/// A colon-joined sample descriptor: sample sets, index, volume, and an
/// optional custom filename.
#[derive(Clone, Debug, PartialEq, Eq)]
pub struct HitSample {
    pub normal_set: i32,
    pub addition_set: i32,
    pub index: i32,
    pub volume: i32,
    pub filename: Option<String>,
}

pub ghost struct HitSampleV {
    pub normal_set: i32,
    pub addition_set: i32,
    pub index: i32,
    pub volume: i32,
    pub filename: Option<Seq<char>>,
}

impl View for HitSample {
    type V = HitSampleV;

    open spec fn view(&self) -> HitSampleV {
        HitSampleV {
            normal_set: self.normal_set,
            addition_set: self.addition_set,
            index: self.index,
            volume: self.volume,
            filename: match self.filename {
                Some(ref f) => Some(f@),
                None => None,
            },
        }
    }
}

/// An integer piece of a sample descriptor: zero when absent, an error
/// when present but malformed.
pub open spec fn spec_sample_i32_at(parts: Seq<Seq<char>>, i: int) -> Result<i32, ParseErrorKind> {
    if parts.len() > i {
        match spec_parse_i32(parts[i]) {
            Some(v) => Ok(v),
            None => Err(ParseErrorKind::MalformedField),
        }
    } else {
        Ok(0)
    }
}

/// The hit-sample grammar: colon-separated integers with documented zero
/// defaults for absent fields and an optional fifth filename piece.
pub open spec fn spec_parse_hit_sample(s: Seq<char>) -> Result<HitSampleV, ParseErrorKind> {
    let parts = spec_split(s, ':');
    match spec_parse_i32(parts[0]) {
        None => Err(ParseErrorKind::MalformedField),
        Some(normal_set) => match spec_sample_i32_at(parts, 1) {
            Err(e) => Err(e),
            Ok(addition_set) => match spec_sample_i32_at(parts, 2) {
                Err(e) => Err(e),
                Ok(index) => match spec_sample_i32_at(parts, 3) {
                    Err(e) => Err(e),
                    Ok(volume) => Ok(
                        HitSampleV {
                            normal_set,
                            addition_set,
                            index,
                            volume,
                            filename: if parts.len() > 4 {
                                Some(parts[4])
                            } else {
                                None
                            },
                        },
                    ),
                },
            },
        },
    }
}

/// `ns:as:idx:vol:` followed by the filename when one is set.
pub open spec fn spec_render_hit_sample(h: HitSampleV) -> Seq<char> {
    spec_render_i32(h.normal_set as int) + seq![':'] + spec_render_i32(h.addition_set as int)
        + seq![':'] + spec_render_i32(h.index as int) + seq![':'] + spec_render_i32(
        h.volume as int,
    ) + seq![':'] + match h.filename {
        Some(f) => f,
        None => Seq::<char>::empty(),
    }
}

impl HitSample {
    /// Reads a colon-joined sample descriptor.
    pub fn parse(s: &str) -> (res: Result<HitSample, ParseErrorKind>)
        ensures
            view_result(res) == spec_parse_hit_sample(s@),
    {
        let parts = split_str(s, ':');
        let ghost pv = parts.deep_view();
        proof {
            crate::text::lemma_split_len(s@, ':');
            assert(pv[0] == parts[0]@);
        }
        let normal_set = match parse_i32_str(parts[0]) {
            Some(v) => v,
            None => {
                return Err(ParseErrorKind::MalformedField);
            },
        };
        let addition_set = match Self::piece_i32(&parts, 1) {
            Ok(v) => v,
            Err(e) => {
                return Err(e);
            },
        };
        let index = match Self::piece_i32(&parts, 2) {
            Ok(v) => v,
            Err(e) => {
                return Err(e);
            },
        };
        let volume = match Self::piece_i32(&parts, 3) {
            Ok(v) => v,
            Err(e) => {
                return Err(e);
            },
        };
        let filename = if parts.len() > 4 {
            assert(pv[4] == parts[4]@);
            Some(parts[4].to_owned())
        } else {
            None
        };
        Ok(HitSample { normal_set, addition_set, index, volume, filename })
    }

    fn piece_i32(parts: &Vec<&str>, i: usize) -> (res: Result<i32, ParseErrorKind>)
        ensures
            res == spec_sample_i32_at(parts.deep_view(), i as int),
    {
        if parts.len() > i {
            assert(parts.deep_view()[i as int] == parts[i as int]@);
            match parse_i32_str(parts[i]) {
                Some(v) => Ok(v),
                None => Err(ParseErrorKind::MalformedField),
            }
        } else {
            Ok(0)
        }
    }

    /// Appends the canonical sample descriptor to `out`.
    pub fn render(&self, out: &mut String)
        ensures
            final(out)@ == old(out)@ + spec_render_hit_sample(self@),
    {
        render_i32(self.normal_set, out);
        out.append(":");
        render_i32(self.addition_set, out);
        out.append(":");
        render_i32(self.index, out);
        out.append(":");
        render_i32(self.volume, out);
        out.append(":");
        if let Some(f) = &self.filename {
            out.append(f.as_str());
        }
        proof {
            reveal_strlit(":");
            assert(":"@ =~= seq![':']);
            assert(out@ =~= old(out)@ + spec_render_hit_sample(self@));
        }
    }
}

/// A per-edge pair of sample sets, written `normal:addition`.
#[derive(Clone, Copy, Debug, PartialEq, Eq, Structural)]
pub struct EdgeSet {
    pub normal_set: i32,
    pub addition_set: i32,
}

/// The edge-set grammar: the first two colon-separated pieces as integers;
/// a second piece must exist.
pub open spec fn spec_parse_edge_set(s: Seq<char>) -> Result<EdgeSet, ParseErrorKind> {
    let parts = spec_split(s, ':');
    if parts.len() < 2 {
        Err(ParseErrorKind::MissingRequiredField)
    } else {
        match (spec_parse_i32(parts[0]), spec_parse_i32(parts[1])) {
            (Some(normal_set), Some(addition_set)) => Ok(EdgeSet { normal_set, addition_set }),
            _ => Err(ParseErrorKind::MalformedField),
        }
    }
}

pub open spec fn spec_render_edge_set(e: EdgeSet) -> Seq<char> {
    spec_render_i32(e.normal_set as int) + seq![':'] + spec_render_i32(e.addition_set as int)
}

impl EdgeSet {
    /// Reads a `normal:addition` pair.
    pub fn parse(s: &str) -> (res: Result<EdgeSet, ParseErrorKind>)
        ensures
            res == spec_parse_edge_set(s@),
    {
        let parts = split_str(s, ':');
        let ghost pv = parts.deep_view();
        if parts.len() < 2 {
            return Err(ParseErrorKind::MissingRequiredField);
        }
        assert(pv[0] == parts[0]@ && pv[1] == parts[1]@);
        match (parse_i32_str(parts[0]), parse_i32_str(parts[1])) {
            (Some(normal_set), Some(addition_set)) => Ok(EdgeSet { normal_set, addition_set }),
            _ => Err(ParseErrorKind::MalformedField),
        }
    }

    /// Appends `normal:addition` to `out`.
    pub fn render(&self, out: &mut String)
        ensures
            final(out)@ == old(out)@ + spec_render_edge_set(*self),
    {
        render_i32(self.normal_set, out);
        out.append(":");
        render_i32(self.addition_set, out);
        proof {
            reveal_strlit(":");
            assert(":"@ =~= seq![':']);
            assert(out@ =~= old(out)@ + spec_render_edge_set(*self));
        }
    }
}

/// A slider control point, written `x:y`.
#[derive(Clone, Copy, Debug, PartialEq, Eq, Structural)]
pub struct CurvePoint {
    pub x: i32,
    pub y: i32,
}

pub open spec fn spec_parse_curve_point(s: Seq<char>) -> Result<CurvePoint, ParseErrorKind> {
    let parts = spec_split(s, ':');
    if parts.len() < 2 {
        Err(ParseErrorKind::MissingRequiredField)
    } else {
        match (spec_parse_i32(parts[0]), spec_parse_i32(parts[1])) {
            (Some(x), Some(y)) => Ok(CurvePoint { x, y }),
            _ => Err(ParseErrorKind::MalformedField),
        }
    }
}

pub open spec fn spec_render_curve_point(p: CurvePoint) -> Seq<char> {
    spec_render_i32(p.x as int) + seq![':'] + spec_render_i32(p.y as int)
}

impl CurvePoint {
    /// Reads an `x:y` control point.
    pub fn parse(s: &str) -> (res: Result<CurvePoint, ParseErrorKind>)
        ensures
            res == spec_parse_curve_point(s@),
    {
        let parts = split_str(s, ':');
        let ghost pv = parts.deep_view();
        if parts.len() < 2 {
            return Err(ParseErrorKind::MissingRequiredField);
        }
        assert(pv[0] == parts[0]@ && pv[1] == parts[1]@);
        match (parse_i32_str(parts[0]), parse_i32_str(parts[1])) {
            (Some(x), Some(y)) => Ok(CurvePoint { x, y }),
            _ => Err(ParseErrorKind::MalformedField),
        }
    }

    /// Appends `x:y` to `out`.
    pub fn render(&self, out: &mut String)
        ensures
            final(out)@ == old(out)@ + spec_render_curve_point(*self),
    {
        render_i32(self.x, out);
        out.append(":");
        render_i32(self.y, out);
        proof {
            reveal_strlit(":");
            assert(":"@ =~= seq![':']);
            assert(out@ =~= old(out)@ + spec_render_curve_point(*self));
        }
    }
}

/// The slider curve kind; unrecognized letters fall back to `Linear`.
#[derive(Clone, Copy, Debug, PartialEq, Eq, Structural)]
pub enum CurveType {
    Bezier,
    CentripetalCatmullRom,
    Linear,
    Perfect,
}

pub open spec fn spec_curve_type_of(s: Seq<char>) -> CurveType {
    if s == "B"@ {
        CurveType::Bezier
    } else if s == "C"@ {
        CurveType::CentripetalCatmullRom
    } else if s == "L"@ {
        CurveType::Linear
    } else if s == "P"@ {
        CurveType::Perfect
    } else {
        CurveType::Linear
    }
}

pub open spec fn spec_curve_type_name(t: CurveType) -> Seq<char> {
    match t {
        CurveType::Bezier => "B"@,
        CurveType::CentripetalCatmullRom => "C"@,
        CurveType::Linear => "L"@,
        CurveType::Perfect => "P"@,
    }
}

impl CurveType {
    /// Decides which curve kind a token selects, with the documented
    /// fallback.
    pub fn of_token(s: &str) -> (r: CurveType)
        ensures
            r == spec_curve_type_of(s@),
    {
        if str_eq(s, "B") {
            CurveType::Bezier
        } else if str_eq(s, "C") {
            CurveType::CentripetalCatmullRom
        } else if str_eq(s, "L") {
            CurveType::Linear
        } else if str_eq(s, "P") {
            CurveType::Perfect
        } else {
            CurveType::Linear
        }
    }

    /// Appends the curve letter to `out`.
    pub fn render(&self, out: &mut String)
        ensures
            final(out)@ == old(out)@ + spec_curve_type_name(*self),
    {
        match self {
            CurveType::Bezier => out.append("B"),
            CurveType::CentripetalCatmullRom => out.append("C"),
            CurveType::Linear => out.append("L"),
            CurveType::Perfect => out.append("P"),
        }
    }
}

} // verus!

verus! {

/// Control points of a slider, parsed in order; the first failure aborts.
pub open spec fn spec_parse_curve_points(ps: Seq<Seq<char>>) -> Result<
    Seq<CurvePoint>,
    ParseErrorKind,
>
    decreases ps.len(),
{
    if ps.len() == 0 {
        Ok(Seq::<CurvePoint>::empty())
    } else {
        match spec_parse_curve_point(ps[0]) {
            Err(e) => Err(e),
            Ok(p) => match spec_parse_curve_points(ps.skip(1)) {
                Err(e) => Err(e),
                Ok(rest) => Ok(seq![p] + rest),
            },
        }
    }
}

/// Edge sounds, one integer per edge.
pub open spec fn spec_parse_edge_sounds(ps: Seq<Seq<char>>) -> Result<Seq<i32>, ParseErrorKind>
    decreases ps.len(),
{
    if ps.len() == 0 {
        Ok(Seq::<i32>::empty())
    } else {
        match spec_parse_i32(ps[0]) {
            None => Err(ParseErrorKind::MalformedField),
            Some(v) => match spec_parse_edge_sounds(ps.skip(1)) {
                Err(e) => Err(e),
                Ok(rest) => Ok(seq![v] + rest),
            },
        }
    }
}

/// Edge sample-set pairs.
pub open spec fn spec_parse_edge_sets(ps: Seq<Seq<char>>) -> Result<Seq<EdgeSet>, ParseErrorKind>
    decreases ps.len(),
{
    if ps.len() == 0 {
        Ok(Seq::<EdgeSet>::empty())
    } else {
        match spec_parse_edge_set(ps[0]) {
            Err(e) => Err(e),
            Ok(p) => match spec_parse_edge_sets(ps.skip(1)) {
                Err(e) => Err(e),
                Ok(rest) => Ok(seq![p] + rest),
            },
        }
    }
}

/// Reads the control points from the pipe-separated pieces after the curve
/// letter.
fn parse_curve_points(pieces: &Vec<&str>, from: usize) -> (res: Result<
    Vec<CurvePoint>,
    ParseErrorKind,
>)
    requires
        from <= pieces.len(),
    ensures
        match res {
            Ok(v) => spec_parse_curve_points(pieces.deep_view().skip(from as int)) == Ok::<
                Seq<CurvePoint>,
                ParseErrorKind,
            >(v@),
            Err(e) => spec_parse_curve_points(pieces.deep_view().skip(from as int)) == Err::<
                Seq<CurvePoint>,
                ParseErrorKind,
            >(e),
        },
{
    let ghost pv = pieces.deep_view();
    let mut acc: Vec<CurvePoint> = Vec::new();
    let mut i: usize = from;
    while i < pieces.len()
        invariant
            from <= i <= pieces.len(),
            pv == pieces.deep_view(),
            spec_parse_curve_points(pv.skip(from as int)) == match spec_parse_curve_points(
                pv.skip(i as int),
            ) {
                Ok(rest) => Ok::<Seq<CurvePoint>, ParseErrorKind>(acc@ + rest),
                Err(e) => Err::<Seq<CurvePoint>, ParseErrorKind>(e),
            },
        decreases pieces.len() - i,
    {
        proof {
            assert(pv.skip(i as int)[0] == pv[i as int]);
            assert(pv.skip(i as int).skip(1) =~= pv.skip(i + 1));
            assert(pv[i as int] == pieces[i as int]@);
        }
        let p = match CurvePoint::parse(pieces[i]) {
            Ok(p) => p,
            Err(e) => {
                return Err(e);
            },
        };
        let ghost prev = acc@;
        acc.push(p);
        proof {
            if spec_parse_curve_points(pv.skip(i + 1)) is Ok {
                let rest = spec_parse_curve_points(pv.skip(i + 1))->Ok_0;
                assert(prev + (seq![p] + rest) =~= acc@ + rest);
            }
        }
        i += 1;
    }
    proof {
        assert(pv.skip(pieces.len() as int).len() == 0);
        assert(acc@ + Seq::<CurvePoint>::empty() =~= acc@);
    }
    Ok(acc)
}

/// Reads a pipe-separated list of edge sounds.
fn parse_edge_sounds(pieces: &Vec<&str>) -> (res: Result<Vec<i32>, ParseErrorKind>)
    ensures
        match res {
            Ok(v) => spec_parse_edge_sounds(pieces.deep_view()) == Ok::<
                Seq<i32>,
                ParseErrorKind,
            >(v@),
            Err(e) => spec_parse_edge_sounds(pieces.deep_view()) == Err::<
                Seq<i32>,
                ParseErrorKind,
            >(e),
        },
{
    let ghost pv = pieces.deep_view();
    let mut acc: Vec<i32> = Vec::new();
    let mut i: usize = 0;
    proof {
        assert(pv.skip(0) =~= pv);
    }
    while i < pieces.len()
        invariant
            0 <= i <= pieces.len(),
            pv == pieces.deep_view(),
            spec_parse_edge_sounds(pv) == match spec_parse_edge_sounds(pv.skip(i as int)) {
                Ok(rest) => Ok::<Seq<i32>, ParseErrorKind>(acc@ + rest),
                Err(e) => Err::<Seq<i32>, ParseErrorKind>(e),
            },
        decreases pieces.len() - i,
    {
        proof {
            assert(pv.skip(i as int)[0] == pv[i as int]);
            assert(pv.skip(i as int).skip(1) =~= pv.skip(i + 1));
            assert(pv[i as int] == pieces[i as int]@);
        }
        let v = match parse_i32_str(pieces[i]) {
            Some(v) => v,
            None => {
                return Err(ParseErrorKind::MalformedField);
            },
        };
        let ghost prev = acc@;
        acc.push(v);
        proof {
            if spec_parse_edge_sounds(pv.skip(i + 1)) is Ok {
                let rest = spec_parse_edge_sounds(pv.skip(i + 1))->Ok_0;
                assert(prev + (seq![v] + rest) =~= acc@ + rest);
            }
        }
        i += 1;
    }
    proof {
        assert(pv.skip(pieces.len() as int).len() == 0);
        assert(acc@ + Seq::<i32>::empty() =~= acc@);
    }
    Ok(acc)
}

/// Reads a pipe-separated list of edge sample-set pairs.
fn parse_edge_sets(pieces: &Vec<&str>) -> (res: Result<Vec<EdgeSet>, ParseErrorKind>)
    ensures
        match res {
            Ok(v) => spec_parse_edge_sets(pieces.deep_view()) == Ok::<
                Seq<EdgeSet>,
                ParseErrorKind,
            >(v@),
            Err(e) => spec_parse_edge_sets(pieces.deep_view()) == Err::<
                Seq<EdgeSet>,
                ParseErrorKind,
            >(e),
        },
{
    let ghost pv = pieces.deep_view();
    let mut acc: Vec<EdgeSet> = Vec::new();
    let mut i: usize = 0;
    proof {
        assert(pv.skip(0) =~= pv);
    }
    while i < pieces.len()
        invariant
            0 <= i <= pieces.len(),
            pv == pieces.deep_view(),
            spec_parse_edge_sets(pv) == match spec_parse_edge_sets(pv.skip(i as int)) {
                Ok(rest) => Ok::<Seq<EdgeSet>, ParseErrorKind>(acc@ + rest),
                Err(e) => Err::<Seq<EdgeSet>, ParseErrorKind>(e),
            },
        decreases pieces.len() - i,
    {
        proof {
            assert(pv.skip(i as int)[0] == pv[i as int]);
            assert(pv.skip(i as int).skip(1) =~= pv.skip(i + 1));
            assert(pv[i as int] == pieces[i as int]@);
        }
        let v = match EdgeSet::parse(pieces[i]) {
            Ok(v) => v,
            Err(e) => {
                return Err(e);
            },
        };
        let ghost prev = acc@;
        acc.push(v);
        proof {
            if spec_parse_edge_sets(pv.skip(i + 1)) is Ok {
                let rest = spec_parse_edge_sets(pv.skip(i + 1))->Ok_0;
                assert(prev + (seq![v] + rest) =~= acc@ + rest);
            }
        }
        i += 1;
    }
    proof {
        assert(pv.skip(pieces.len() as int).len() == 0);
        assert(acc@ + Seq::<EdgeSet>::empty() =~= acc@);
    }
    Ok(acc)
}

} // verus!

verus! {

/// A circle: the base fields plus free-form extension parameters and the
/// optional trailing sample.
#[derive(Clone, Debug, PartialEq, Eq)]
pub struct CircleHitObject {
    pub x: i32,
    pub y: i32,
    pub time: i32,
    pub object_type: i32,
    pub hit_sound: i32,
    pub params: Vec<String>,
    pub hit_sample: Option<HitSample>,
}

pub ghost struct CircleV {
    pub x: i32,
    pub y: i32,
    pub time: i32,
    pub object_type: i32,
    pub hit_sound: i32,
    pub params: Seq<Seq<char>>,
    pub hit_sample: Option<HitSampleV>,
}

impl View for CircleHitObject {
    type V = CircleV;

    open spec fn view(&self) -> CircleV {
        CircleV {
            x: self.x,
            y: self.y,
            time: self.time,
            object_type: self.object_type,
            hit_sound: self.hit_sound,
            params: self.params.deep_view(),
            hit_sample: match self.hit_sample {
                Some(ref h) => Some(h@),
                None => None,
            },
        }
    }
}

/// A slider: curve description, slide count, length, and the per-edge
/// sound and sample-set lists.
#[derive(Clone, Debug, PartialEq, Eq)]
pub struct SliderHitObject {
    pub x: i32,
    pub y: i32,
    pub time: i32,
    pub object_type: i32,
    pub hit_sound: i32,
    pub curve_type: CurveType,
    pub curve_points: Vec<CurvePoint>,
    pub slides: i32,
    pub length: Decimal,
    pub edge_sounds: Vec<i32>,
    pub edge_sets: Vec<EdgeSet>,
    pub hit_sample: Option<HitSample>,
}

pub ghost struct SliderV {
    pub x: i32,
    pub y: i32,
    pub time: i32,
    pub object_type: i32,
    pub hit_sound: i32,
    pub curve_type: CurveType,
    pub curve_points: Seq<CurvePoint>,
    pub slides: i32,
    pub length: Decimal,
    pub edge_sounds: Seq<i32>,
    pub edge_sets: Seq<EdgeSet>,
    pub hit_sample: Option<HitSampleV>,
}

impl View for SliderHitObject {
    type V = SliderV;

    open spec fn view(&self) -> SliderV {
        SliderV {
            x: self.x,
            y: self.y,
            time: self.time,
            object_type: self.object_type,
            hit_sound: self.hit_sound,
            curve_type: self.curve_type,
            curve_points: self.curve_points@,
            slides: self.slides,
            length: self.length,
            edge_sounds: self.edge_sounds@,
            edge_sets: self.edge_sets@,
            hit_sample: match self.hit_sample {
                Some(ref h) => Some(h@),
                None => None,
            },
        }
    }
}

/// A spinner: the base fields plus an end time.
#[derive(Clone, Debug, PartialEq, Eq)]
pub struct SpinnerHitObject {
    pub x: i32,
    pub y: i32,
    pub time: i32,
    pub object_type: i32,
    pub hit_sound: i32,
    pub end_time: i32,
    pub hit_sample: Option<HitSample>,
}

pub ghost struct SpinnerV {
    pub x: i32,
    pub y: i32,
    pub time: i32,
    pub object_type: i32,
    pub hit_sound: i32,
    pub end_time: i32,
    pub hit_sample: Option<HitSampleV>,
}

impl View for SpinnerHitObject {
    type V = SpinnerV;

    open spec fn view(&self) -> SpinnerV {
        SpinnerV {
            x: self.x,
            y: self.y,
            time: self.time,
            object_type: self.object_type,
            hit_sound: self.hit_sound,
            end_time: self.end_time,
            hit_sample: match self.hit_sample {
                Some(ref h) => Some(h@),
                None => None,
            },
        }
    }
}

/// A hold note: the base fields plus an end time joined to the sample by a
/// colon.
#[derive(Clone, Debug, PartialEq, Eq)]
pub struct HoldHitObject {
    pub x: i32,
    pub y: i32,
    pub time: i32,
    pub object_type: i32,
    pub hit_sound: i32,
    pub end_time: i32,
    pub hit_sample: Option<HitSample>,
}

pub ghost struct HoldV {
    pub x: i32,
    pub y: i32,
    pub time: i32,
    pub object_type: i32,
    pub hit_sound: i32,
    pub end_time: i32,
    pub hit_sample: Option<HitSampleV>,
}

impl View for HoldHitObject {
    type V = HoldV;

    open spec fn view(&self) -> HoldV {
        HoldV {
            x: self.x,
            y: self.y,
            time: self.time,
            object_type: self.object_type,
            hit_sound: self.hit_sound,
            end_time: self.end_time,
            hit_sample: match self.hit_sample {
                Some(ref h) => Some(h@),
                None => None,
            },
        }
    }
}

/// One object of the hit timeline.
#[derive(Clone, Debug, PartialEq, Eq)]
pub enum HitObject {
    Circle(CircleHitObject),
    Slider(SliderHitObject),
    Spinner(SpinnerHitObject),
    Hold(HoldHitObject),
}

pub ghost enum HitObjectV {
    Circle(CircleV),
    Slider(SliderV),
    Spinner(SpinnerV),
    Hold(HoldV),
}

impl View for HitObject {
    type V = HitObjectV;

    open spec fn view(&self) -> HitObjectV {
        match self {
            HitObject::Circle(c) => HitObjectV::Circle(c@),
            HitObject::Slider(c) => HitObjectV::Slider(c@),
            HitObject::Spinner(c) => HitObjectV::Spinner(c@),
            HitObject::Hold(c) => HitObjectV::Hold(c@),
        }
    }
}

/// The circle tail: any further plain tokens are free-form parameters, and
/// a final token holding a colon is the sample.
pub open spec fn spec_parse_circle(s: Seq<Seq<char>>, x: i32, y: i32, time: i32, ot: i32) -> Result<
    CircleV,
    ParseErrorKind,
> {
    if s.len() < 5 {
        Err(ParseErrorKind::MissingRequiredField)
    } else {
        match spec_parse_i32(s[4]) {
            None => Err(ParseErrorKind::MalformedField),
            Some(hit_sound) => {
                if s.len() >= 6 {
                    let last = s[s.len() - 1];
                    if last.contains(':') {
                        match spec_parse_hit_sample(last) {
                            Err(e) => Err(e),
                            Ok(h) => Ok(
                                CircleV {
                                    x,
                                    y,
                                    time,
                                    object_type: ot,
                                    hit_sound,
                                    params: s.subrange(5, s.len() - 1),
                                    hit_sample: Some(h),
                                },
                            ),
                        }
                    } else {
                        Ok(
                            CircleV {
                                x,
                                y,
                                time,
                                object_type: ot,
                                hit_sound,
                                params: s.subrange(5, s.len() as int),
                                hit_sample: None,
                            },
                        )
                    }
                } else {
                    Ok(
                        CircleV {
                            x,
                            y,
                            time,
                            object_type: ot,
                            hit_sound,
                            params: Seq::<Seq<char>>::empty(),
                            hit_sample: None,
                        },
                    )
                }
            },
        }
    }
}

/// The slider tail: curve letter and control points behind pipes, slide
/// count, length, then the optional edge lists and sample.
pub open spec fn spec_parse_slider(s: Seq<Seq<char>>, x: i32, y: i32, time: i32, ot: i32) -> Result<
    SliderV,
    ParseErrorKind,
> {
    if s.len() < 8 {
        Err(ParseErrorKind::MissingRequiredField)
    } else {
        match spec_parse_i32(s[4]) {
            None => Err(ParseErrorKind::MalformedField),
            Some(hit_sound) => {
                let pieces = spec_split(s[5], '|');
                let curve_type = spec_curve_type_of(pieces[0]);
                match spec_parse_curve_points(pieces.skip(1)) {
                    Err(e) => Err(e),
                    Ok(curve_points) => match spec_parse_i32(s[6]) {
                        None => Err(ParseErrorKind::MalformedField),
                        Some(slides) => match spec_parse_dec(s[7]) {
                            None => Err(ParseErrorKind::MalformedField),
                            Some(length) => {
                                let sounds = if s.len() > 8 {
                                    spec_parse_edge_sounds(spec_split(s[8], '|'))
                                } else {
                                    Ok(Seq::<i32>::empty())
                                };
                                match sounds {
                                    Err(e) => Err(e),
                                    Ok(edge_sounds) => {
                                        let sets = if s.len() > 9 {
                                            spec_parse_edge_sets(spec_split(s[9], '|'))
                                        } else {
                                            Ok(Seq::<EdgeSet>::empty())
                                        };
                                        match sets {
                                            Err(e) => Err(e),
                                            Ok(edge_sets) => {
                                                if s.len() > 10 && s[10].contains(':') {
                                                    match spec_parse_hit_sample(s[10]) {
                                                        Err(e) => Err(e),
                                                        Ok(h) => Ok(
                                                            SliderV {
                                                                x,
                                                                y,
                                                                time,
                                                                object_type: ot,
                                                                hit_sound,
                                                                curve_type,
                                                                curve_points,
                                                                slides,
                                                                length,
                                                                edge_sounds,
                                                                edge_sets,
                                                                hit_sample: Some(h),
                                                            },
                                                        ),
                                                    }
                                                } else {
                                                    Ok(
                                                        SliderV {
                                                            x,
                                                            y,
                                                            time,
                                                            object_type: ot,
                                                            hit_sound,
                                                            curve_type,
                                                            curve_points,
                                                            slides,
                                                            length,
                                                            edge_sounds,
                                                            edge_sets,
                                                            hit_sample: None,
                                                        },
                                                    )
                                                }
                                            },
                                        }
                                    },
                                }
                            },
                        },
                    },
                }
            },
        }
    }
}

/// The spinner tail: an end time, then optionally the sample.
pub open spec fn spec_parse_spinner(s: Seq<Seq<char>>, x: i32, y: i32, time: i32, ot: i32)
    -> Result<SpinnerV, ParseErrorKind> {
    if s.len() < 6 {
        Err(ParseErrorKind::MissingRequiredField)
    } else {
        match (spec_parse_i32(s[4]), spec_parse_i32(s[5])) {
            (Some(hit_sound), Some(end_time)) => {
                if s.len() > 6 && s[6].contains(':') {
                    match spec_parse_hit_sample(s[6]) {
                        Err(e) => Err(e),
                        Ok(h) => Ok(
                            SpinnerV {
                                x,
                                y,
                                time,
                                object_type: ot,
                                hit_sound,
                                end_time,
                                hit_sample: Some(h),
                            },
                        ),
                    }
                } else {
                    Ok(
                        SpinnerV {
                            x,
                            y,
                            time,
                            object_type: ot,
                            hit_sound,
                            end_time,
                            hit_sample: None,
                        },
                    )
                }
            },
            _ => Err(ParseErrorKind::MalformedField),
        }
    }
}

/// The hold tail: `end:sample` joined by the first colon; without a colon
/// the end time stays zero and there is no sample.
pub open spec fn spec_parse_hold(s: Seq<Seq<char>>, x: i32, y: i32, time: i32, ot: i32) -> Result<
    HoldV,
    ParseErrorKind,
> {
    if s.len() < 5 {
        Err(ParseErrorKind::MissingRequiredField)
    } else {
        match spec_parse_i32(s[4]) {
            None => Err(ParseErrorKind::MalformedField),
            Some(hit_sound) => {
                if s.len() > 5 && s[5].contains(':') {
                    let i = crate::text::spec_find_char(s[5], ':')->Some_0;
                    let endtok = s[5].take(i);
                    let rest = s[5].skip(i + 1);
                    match spec_parse_i32(endtok) {
                        None => Err(ParseErrorKind::MalformedField),
                        Some(end_time) => match spec_parse_hit_sample(rest) {
                            Err(e) => Err(e),
                            Ok(h) => Ok(
                                HoldV {
                                    x,
                                    y,
                                    time,
                                    object_type: ot,
                                    hit_sound,
                                    end_time,
                                    hit_sample: Some(h),
                                },
                            ),
                        },
                    }
                } else {
                    Ok(
                        HoldV {
                            x,
                            y,
                            time,
                            object_type: ot,
                            hit_sound,
                            end_time: 0,
                            hit_sample: None,
                        },
                    )
                }
            },
        }
    }
}

/// The hit-object grammar over the trimmed comma tokens: position, time,
/// type byte, then the shape the type byte's lowest set flag selects — bit
/// 0 a circle, bit 1 a slider, bit 3 a spinner, bit 7 a hold.
pub open spec fn spec_parse_hit_object(s: Seq<Seq<char>>) -> Result<HitObjectV, ParseErrorKind> {
    if s.len() < 4 {
        Err(ParseErrorKind::MissingRequiredField)
    } else {
        match (
            spec_parse_i32(s[0]),
            spec_parse_i32(s[1]),
            spec_parse_i32(s[2]),
            spec_parse_i32(s[3]),
        ) {
            (Some(x), Some(y), Some(time), Some(ot)) => {
                if ot & 1 != 0 {
                    match spec_parse_circle(s, x, y, time, ot) {
                        Ok(c) => Ok(HitObjectV::Circle(c)),
                        Err(e) => Err(e),
                    }
                } else if ot & 2 != 0 {
                    match spec_parse_slider(s, x, y, time, ot) {
                        Ok(c) => Ok(HitObjectV::Slider(c)),
                        Err(e) => Err(e),
                    }
                } else if ot & 8 != 0 {
                    match spec_parse_spinner(s, x, y, time, ot) {
                        Ok(c) => Ok(HitObjectV::Spinner(c)),
                        Err(e) => Err(e),
                    }
                } else if ot & 128 != 0 {
                    match spec_parse_hold(s, x, y, time, ot) {
                        Ok(c) => Ok(HitObjectV::Hold(c)),
                        Err(e) => Err(e),
                    }
                } else {
                    Err(ParseErrorKind::MalformedField)
                }
            },
            _ => Err(ParseErrorKind::MalformedField),
        }
    }
}

} // verus!

verus! {

impl CircleHitObject {
    /// Reads the circle tail of a hit-object line.
    pub fn parse(s: &[&str], x: i32, y: i32, time: i32, object_type: i32) -> (res: Result<
        CircleHitObject,
        ParseErrorKind,
    >)
        ensures
            view_result(res) == spec_parse_circle(s.deep_view(), x, y, time, object_type),
    {
        let ghost sv = s.deep_view();
        if s.len() < 5 {
            return Err(ParseErrorKind::MissingRequiredField);
        }
        assert(sv[4] == s[4]@);
        let hit_sound = match parse_i32_str(s[4]) {
            Some(v) => v,
            None => {
                return Err(ParseErrorKind::MalformedField);
            },
        };
        if s.len() >= 6 {
            assert(sv[s.len() - 1] == s[s.len() - 1]@);
            let last = s[s.len() - 1];
            let upto: usize = if contains_char(last, ':') {
                s.len() - 1
            } else {
                s.len()
            };
            let mut params: Vec<String> = Vec::new();
            let mut i: usize = 5;
            while i < upto
                invariant
                    5 <= i <= upto <= s.len() == sv.len(),
                    sv == s.deep_view(),
                    params.deep_view() =~= sv.subrange(5, i as int),
                decreases upto - i,
            {
                assert(sv[i as int] == s[i as int]@);
                let ghost prev = params.deep_view();
                params.push(s[i].to_owned());
                proof {
                    assert(params.deep_view() =~= prev.push(sv[i as int]));
                    assert(params.deep_view() =~= sv.subrange(5, i + 1));
                }
                i += 1;
            }
            if contains_char(last, ':') {
                let h = match HitSample::parse(last) {
                    Ok(h) => h,
                    Err(e) => {
                        return Err(e);
                    },
                };
                Ok(
                    CircleHitObject {
                        x,
                        y,
                        time,
                        object_type,
                        hit_sound,
                        params,
                        hit_sample: Some(h),
                    },
                )
            } else {
                Ok(
                    CircleHitObject {
                        x,
                        y,
                        time,
                        object_type,
                        hit_sound,
                        params,
                        hit_sample: None,
                    },
                )
            }
        } else {
            let params: Vec<String> = Vec::new();
            assert(params.deep_view() =~= Seq::<Seq<char>>::empty());
            Ok(CircleHitObject { x, y, time, object_type, hit_sound, params, hit_sample: None })
        }
    }
}

impl SliderHitObject {
    /// Reads the slider tail of a hit-object line.
    pub fn parse(s: &[&str], x: i32, y: i32, time: i32, object_type: i32) -> (res: Result<
        SliderHitObject,
        ParseErrorKind,
    >)
        ensures
            view_result(res) == spec_parse_slider(s.deep_view(), x, y, time, object_type),
    {
        let ghost sv = s.deep_view();
        if s.len() < 8 {
            return Err(ParseErrorKind::MissingRequiredField);
        }
        assert(sv[4] == s[4]@ && sv[5] == s[5]@ && sv[6] == s[6]@ && sv[7] == s[7]@);
        let hit_sound = match parse_i32_str(s[4]) {
            Some(v) => v,
            None => {
                return Err(ParseErrorKind::MalformedField);
            },
        };
        let pieces = split_str(s[5], '|');
        proof {
            crate::text::lemma_split_len(sv[5], '|');
            assert(pieces.deep_view()[0] == pieces[0]@);
        }
        let curve_type = CurveType::of_token(pieces[0]);
        let curve_points = match parse_curve_points(&pieces, 1) {
            Ok(v) => v,
            Err(e) => {
                return Err(e);
            },
        };
        let slides = match parse_i32_str(s[6]) {
            Some(v) => v,
            None => {
                return Err(ParseErrorKind::MalformedField);
            },
        };
        let length = match parse_dec_str(s[7]) {
            Some(v) => v,
            None => {
                return Err(ParseErrorKind::MalformedField);
            },
        };
        let edge_sounds = if s.len() > 8 {
            assert(sv[8] == s[8]@);
            let ps = split_str(s[8], '|');
            match parse_edge_sounds(&ps) {
                Ok(v) => v,
                Err(e) => {
                    return Err(e);
                },
            }
        } else {
            Vec::new()
        };
        let edge_sets = if s.len() > 9 {
            assert(sv[9] == s[9]@);
            let ps = split_str(s[9], '|');
            match parse_edge_sets(&ps) {
                Ok(v) => v,
                Err(e) => {
                    return Err(e);
                },
            }
        } else {
            Vec::new()
        };
        proof {
            if s.len() <= 8 {
                assert(edge_sounds@ =~= Seq::<i32>::empty());
            }
            if s.len() <= 9 {
                assert(edge_sets@ =~= Seq::<EdgeSet>::empty());
            }
        }
        if s.len() > 10 {
            assert(sv[10] == s[10]@);
        }
        let hit_sample = if s.len() > 10 && contains_char(s[10], ':') {
            match HitSample::parse(s[10]) {
                Ok(h) => Some(h),
                Err(e) => {
                    return Err(e);
                },
            }
        } else {
            None
        };
        Ok(
            SliderHitObject {
                x,
                y,
                time,
                object_type,
                hit_sound,
                curve_type,
                curve_points,
                slides,
                length,
                edge_sounds,
                edge_sets,
                hit_sample,
            },
        )
    }
}

impl SpinnerHitObject {
    /// Reads the spinner tail of a hit-object line.
    pub fn parse(s: &[&str], x: i32, y: i32, time: i32, object_type: i32) -> (res: Result<
        SpinnerHitObject,
        ParseErrorKind,
    >)
        ensures
            view_result(res) == spec_parse_spinner(s.deep_view(), x, y, time, object_type),
    {
        let ghost sv = s.deep_view();
        if s.len() < 6 {
            return Err(ParseErrorKind::MissingRequiredField);
        }
        assert(sv[4] == s[4]@ && sv[5] == s[5]@);
        let hit_sound = match parse_i32_str(s[4]) {
            Some(v) => v,
            None => {
                return Err(ParseErrorKind::MalformedField);
            },
        };
        let end_time = match parse_i32_str(s[5]) {
            Some(v) => v,
            None => {
                return Err(ParseErrorKind::MalformedField);
            },
        };
        if s.len() > 6 {
            assert(sv[6] == s[6]@);
        }
        let hit_sample = if s.len() > 6 && contains_char(s[6], ':') {
            match HitSample::parse(s[6]) {
                Ok(h) => Some(h),
                Err(e) => {
                    return Err(e);
                },
            }
        } else {
            None
        };
        Ok(SpinnerHitObject { x, y, time, object_type, hit_sound, end_time, hit_sample })
    }
}

impl HoldHitObject {
    /// Reads the hold tail of a hit-object line.
    pub fn parse(s: &[&str], x: i32, y: i32, time: i32, object_type: i32) -> (res: Result<
        HoldHitObject,
        ParseErrorKind,
    >)
        ensures
            view_result(res) == spec_parse_hold(s.deep_view(), x, y, time, object_type),
    {
        let ghost sv = s.deep_view();
        if s.len() < 5 {
            return Err(ParseErrorKind::MissingRequiredField);
        }
        assert(sv[4] == s[4]@);
        let hit_sound = match parse_i32_str(s[4]) {
            Some(v) => v,
            None => {
                return Err(ParseErrorKind::MalformedField);
            },
        };
        if s.len() > 5 {
            assert(sv[5] == s[5]@);
        }
        if s.len() > 5 && contains_char(s[5], ':') {
            let tok = s[5];
            let iopt = crate::text::find_char(tok, ':');
            proof {
                crate::text::lemma_find_char(tok@, ':');
            }
            let i = match iopt {
                Some(i) => i,
                None => {
                    proof {
                        assert(!tok@.contains(':'));
                    }
                    return Err(ParseErrorKind::MalformedField);
                },
            };
            let tn = tok.unicode_len();
            assert(i < tn);
            let endtok = tok.substring_char(0, i);
            let rest = tok.substring_char(i + 1, tn);
            assert(endtok@ == tok@.take(i as int));
            assert(rest@ == tok@.skip(i + 1));
            let end_time = match parse_i32_str(endtok) {
                Some(v) => v,
                None => {
                    return Err(ParseErrorKind::MalformedField);
                },
            };
            let h = match HitSample::parse(rest) {
                Ok(h) => h,
                Err(e) => {
                    return Err(e);
                },
            };
            Ok(HoldHitObject { x, y, time, object_type, hit_sound, end_time, hit_sample: Some(h) })
        } else {
            Ok(HoldHitObject { x, y, time, object_type, hit_sound, end_time: 0, hit_sample: None })
        }
    }
}

impl HitObject {
    /// Reads one hit-object line, given its trimmed comma-separated tokens.
    pub fn parse(s: &[&str]) -> (res: Result<HitObject, ParseErrorKind>)
        ensures
            view_result(res) == spec_parse_hit_object(s.deep_view()),
    {
        let ghost sv = s.deep_view();
        if s.len() < 4 {
            return Err(ParseErrorKind::MissingRequiredField);
        }
        assert(sv[0] == s[0]@ && sv[1] == s[1]@ && sv[2] == s[2]@ && sv[3] == s[3]@);
        let x = match parse_i32_str(s[0]) {
            Some(v) => v,
            None => {
                return Err(ParseErrorKind::MalformedField);
            },
        };
        let y = match parse_i32_str(s[1]) {
            Some(v) => v,
            None => {
                return Err(ParseErrorKind::MalformedField);
            },
        };
        let time = match parse_i32_str(s[2]) {
            Some(v) => v,
            None => {
                return Err(ParseErrorKind::MalformedField);
            },
        };
        let object_type = match parse_i32_str(s[3]) {
            Some(v) => v,
            None => {
                return Err(ParseErrorKind::MalformedField);
            },
        };
        if object_type & 1 != 0 {
            match CircleHitObject::parse(s, x, y, time, object_type) {
                Ok(c) => Ok(HitObject::Circle(c)),
                Err(e) => Err(e),
            }
        } else if object_type & 2 != 0 {
            match SliderHitObject::parse(s, x, y, time, object_type) {
                Ok(c) => Ok(HitObject::Slider(c)),
                Err(e) => Err(e),
            }
        } else if object_type & 8 != 0 {
            match SpinnerHitObject::parse(s, x, y, time, object_type) {
                Ok(c) => Ok(HitObject::Spinner(c)),
                Err(e) => Err(e),
            }
        } else if object_type & 128 != 0 {
            match HoldHitObject::parse(s, x, y, time, object_type) {
                Ok(c) => Ok(HitObject::Hold(c)),
                Err(e) => Err(e),
            }
        } else {
            Err(ParseErrorKind::MalformedField)
        }
    }
}

} // verus!

verus! {

/// The five tokens every hit object line starts with.
pub open spec fn spec_ho_base_tokens(x: i32, y: i32, time: i32, ot: i32, hs: i32) -> Seq<
    Seq<char>,
> {
    seq![
        spec_render_i32(x as int),
        spec_render_i32(y as int),
        spec_render_i32(time as int),
        spec_render_i32(ot as int),
        spec_render_i32(hs as int),
    ]
}

pub open spec fn spec_circle_tokens(c: CircleV) -> Seq<Seq<char>> {
    let base = spec_ho_base_tokens(c.x, c.y, c.time, c.object_type, c.hit_sound) + c.params;
    match c.hit_sample {
        Some(h) => base.push(spec_render_hit_sample(h)),
        None => base,
    }
}

pub open spec fn spec_render_circle(c: CircleV) -> Seq<char> {
    crate::text::spec_join(spec_circle_tokens(c), ',')
}

/// The composite curve token: the curve letter and each control point
/// behind a pipe.
pub open spec fn spec_curve_token(t: CurveType, cps: Seq<CurvePoint>) -> Seq<char> {
    crate::text::spec_join(
        seq![spec_curve_type_name(t)] + cps.map(|i: int, p: CurvePoint| spec_render_curve_point(p)),
        '|',
    )
}

pub open spec fn spec_sounds_token(vs: Seq<i32>) -> Seq<char> {
    crate::text::spec_join(vs.map(|i: int, v: i32| spec_render_i32(v as int)), '|')
}

pub open spec fn spec_sets_token(es: Seq<EdgeSet>) -> Seq<char> {
    crate::text::spec_join(es.map(|i: int, e: EdgeSet| spec_render_edge_set(e)), '|')
}

pub open spec fn spec_slider_tokens(c: SliderV) -> Seq<Seq<char>> {
    let base = spec_ho_base_tokens(c.x, c.y, c.time, c.object_type, c.hit_sound) + seq![
        spec_curve_token(c.curve_type, c.curve_points),
        spec_render_i32(c.slides as int),
        spec_render_dec(c.length),
    ];
    let w1 = if c.edge_sounds.len() > 0 {
        base.push(spec_sounds_token(c.edge_sounds))
    } else {
        base
    };
    let w2 = if c.edge_sets.len() > 0 {
        w1.push(spec_sets_token(c.edge_sets))
    } else {
        w1
    };
    match c.hit_sample {
        Some(h) => w2.push(spec_render_hit_sample(h)),
        None => w2,
    }
}

pub open spec fn spec_render_slider(c: SliderV) -> Seq<char> {
    crate::text::spec_join(spec_slider_tokens(c), ',')
}

pub open spec fn spec_spinner_tokens(c: SpinnerV) -> Seq<Seq<char>> {
    let base = spec_ho_base_tokens(c.x, c.y, c.time, c.object_type, c.hit_sound).push(
        spec_render_i32(c.end_time as int),
    );
    match c.hit_sample {
        Some(h) => base.push(spec_render_hit_sample(h)),
        None => base,
    }
}

pub open spec fn spec_render_spinner(c: SpinnerV) -> Seq<char> {
    crate::text::spec_join(spec_spinner_tokens(c), ',')
}

pub open spec fn spec_hold_tokens(c: HoldV) -> Seq<Seq<char>> {
    spec_ho_base_tokens(c.x, c.y, c.time, c.object_type, c.hit_sound).push(
        spec_render_i32(c.end_time as int) + match c.hit_sample {
            Some(h) => seq![':'] + spec_render_hit_sample(h),
            None => Seq::<char>::empty(),
        },
    )
}

pub open spec fn spec_render_hold(c: HoldV) -> Seq<char> {
    crate::text::spec_join(spec_hold_tokens(c), ',')
}

pub open spec fn spec_render_hit_object(h: HitObjectV) -> Seq<char> {
    match h {
        HitObjectV::Circle(c) => spec_render_circle(c),
        HitObjectV::Slider(c) => spec_render_slider(c),
        HitObjectV::Spinner(c) => spec_render_spinner(c),
        HitObjectV::Hold(c) => spec_render_hold(c),
    }
}

/// Appends `x,y,time,type,hit_sound` to `out`.
fn render_base(x: i32, y: i32, time: i32, ot: i32, hs: i32, out: &mut String)
    ensures
        final(out)@ == old(out)@ + crate::text::spec_join(
            spec_ho_base_tokens(x, y, time, ot, hs),
            ',',
        ),
{
    render_i32(x, out);
    out.append(",");
    render_i32(y, out);
    out.append(",");
    render_i32(time, out);
    out.append(",");
    render_i32(ot, out);
    out.append(",");
    render_i32(hs, out);
    proof {
        reveal_strlit(",");
        assert(","@ =~= seq![',']);
        let toks = spec_ho_base_tokens(x, y, time, ot, hs);
        assert(toks.skip(1) =~= seq![
            spec_render_i32(y as int),
            spec_render_i32(time as int),
            spec_render_i32(ot as int),
            spec_render_i32(hs as int),
        ]);
        assert(toks.skip(1).skip(1) =~= seq![
            spec_render_i32(time as int),
            spec_render_i32(ot as int),
            spec_render_i32(hs as int),
        ]);
        assert(toks.skip(1).skip(1).skip(1) =~= seq![
            spec_render_i32(ot as int),
            spec_render_i32(hs as int),
        ]);
        assert(toks.skip(1).skip(1).skip(1).skip(1) =~= seq![spec_render_i32(hs as int)]);
        let j4 = crate::text::spec_join(seq![spec_render_i32(hs as int)], ',');
        assert(j4 == spec_render_i32(hs as int));
        let t3 = seq![spec_render_i32(ot as int), spec_render_i32(hs as int)];
        assert(t3.skip(1) =~= seq![spec_render_i32(hs as int)]);
        let j3 = crate::text::spec_join(t3, ',');
        assert(j3 == spec_render_i32(ot as int) + seq![','] + j4);
        let t2 = seq![spec_render_i32(time as int)] + t3;
        assert(t2.skip(1) =~= t3);
        assert(t2 =~= toks.skip(1).skip(1));
        let j2 = crate::text::spec_join(t2, ',');
        assert(j2 == spec_render_i32(time as int) + seq![','] + j3);
        let t1 = seq![spec_render_i32(y as int)] + t2;
        assert(t1.skip(1) =~= t2);
        assert(t1 =~= toks.skip(1));
        let j1 = crate::text::spec_join(t1, ',');
        assert(j1 == spec_render_i32(y as int) + seq![','] + j2);
        assert(crate::text::spec_join(toks, ',') == spec_render_i32(x as int) + seq![','] + j1);
        assert(out@ =~= old(out)@ + crate::text::spec_join(toks, ','));
    }
}

impl CircleHitObject {
    /// Appends the canonical circle line (without the newline) to `out`.
    pub fn render(&self, out: &mut String)
        ensures
            final(out)@ == old(out)@ + spec_render_circle(self@),
    {
        render_base(self.x, self.y, self.time, self.object_type, self.hit_sound, out);
        let ghost mut parts = spec_ho_base_tokens(
            self.x,
            self.y,
            self.time,
            self.object_type,
            self.hit_sound,
        );
        let mut i: usize = 0;
        while i < self.params.len()
            invariant
                0 <= i <= self.params.len(),
                parts == spec_ho_base_tokens(
                    self.x,
                    self.y,
                    self.time,
                    self.object_type,
                    self.hit_sound,
                ) + self.params.deep_view().take(i as int),
                parts.len() >= 1,
                out@ == old(out)@ + crate::text::spec_join(parts, ','),
            decreases self.params.len() - i,
        {
            out.append(",");
            let p = &self.params[i];
            out.append(p.as_str());
            proof {
                reveal_strlit(",");
                assert(","@ =~= seq![',']);
                crate::text::lemma_join_push(parts, p@, ',');
                assert(out@ =~= old(out)@ + crate::text::spec_join(parts.push(p@), ','));
                parts = parts.push(p@);
                assert(parts =~= spec_ho_base_tokens(
                    self.x,
                    self.y,
                    self.time,
                    self.object_type,
                    self.hit_sound,
                ) + self.params.deep_view().take(i + 1));
            }
            i += 1;
        }
        proof {
            assert(self.params.deep_view().take(self.params.len() as int) =~= self.params.deep_view());
        }
        if let Some(h) = &self.hit_sample {
            out.append(",");
            h.render(out);
            proof {
                reveal_strlit(",");
                assert(","@ =~= seq![',']);
                crate::text::lemma_join_push(parts, spec_render_hit_sample(h@), ',');
                assert(out@ =~= old(out)@ + crate::text::spec_join(
                    parts.push(spec_render_hit_sample(h@)),
                    ',',
                ));
                parts = parts.push(spec_render_hit_sample(h@));
            }
        }
        proof {
            assert(parts =~= spec_circle_tokens(self@));
        }
    }
}

impl SpinnerHitObject {
    /// Appends the canonical spinner line (without the newline) to `out`.
    pub fn render(&self, out: &mut String)
        ensures
            final(out)@ == old(out)@ + spec_render_spinner(self@),
    {
        render_base(self.x, self.y, self.time, self.object_type, self.hit_sound, out);
        let ghost mut parts = spec_ho_base_tokens(
            self.x,
            self.y,
            self.time,
            self.object_type,
            self.hit_sound,
        );
        out.append(",");
        render_i32(self.end_time, out);
        proof {
            reveal_strlit(",");
            assert(","@ =~= seq![',']);
            crate::text::lemma_join_push(parts, spec_render_i32(self.end_time as int), ',');
            assert(out@ =~= old(out)@ + crate::text::spec_join(
                parts.push(spec_render_i32(self.end_time as int)),
                ',',
            ));
            parts = parts.push(spec_render_i32(self.end_time as int));
        }
        if let Some(h) = &self.hit_sample {
            out.append(",");
            h.render(out);
            proof {
                reveal_strlit(",");
                assert(","@ =~= seq![',']);
                crate::text::lemma_join_push(parts, spec_render_hit_sample(h@), ',');
                assert(out@ =~= old(out)@ + crate::text::spec_join(
                    parts.push(spec_render_hit_sample(h@)),
                    ',',
                ));
                parts = parts.push(spec_render_hit_sample(h@));
            }
        }
        proof {
            assert(parts =~= spec_spinner_tokens(self@));
        }
    }
}

impl HoldHitObject {
    /// Appends the canonical hold line (without the newline) to `out`.
    pub fn render(&self, out: &mut String)
        ensures
            final(out)@ == old(out)@ + spec_render_hold(self@),
    {
        render_base(self.x, self.y, self.time, self.object_type, self.hit_sound, out);
        let ghost parts = spec_ho_base_tokens(
            self.x,
            self.y,
            self.time,
            self.object_type,
            self.hit_sound,
        );
        out.append(",");
        render_i32(self.end_time, out);
        if let Some(h) = &self.hit_sample {
            out.append(":");
            h.render(out);
        }
        proof {
            reveal_strlit(",");
            reveal_strlit(":");
            assert(","@ =~= seq![',']);
            assert(":"@ =~= seq![':']);
            let tok = spec_render_i32(self.end_time as int) + match self@.hit_sample {
                Some(h) => seq![':'] + spec_render_hit_sample(h),
                None => Seq::<char>::empty(),
            };
            crate::text::lemma_join_push(parts, tok, ',');
            assert(out@ =~= old(out)@ + crate::text::spec_join(parts.push(tok), ','));
            assert(parts.push(tok) =~= spec_hold_tokens(self@));
        }
    }
}

impl SliderHitObject {
    /// Appends the canonical slider line (without the newline) to `out`.
    #[verifier::rlimit(100)]
    #[verifier::spinoff_prover]
    pub fn render(&self, out: &mut String)
        requires
            dec_valid(self.length),
        ensures
            final(out)@ == old(out)@ + spec_render_slider(self@),
    {
        render_base(self.x, self.y, self.time, self.object_type, self.hit_sound, out);
        let ghost mut parts = spec_ho_base_tokens(
            self.x,
            self.y,
            self.time,
            self.object_type,
            self.hit_sound,
        );
        // The curve token.
        out.append(",");
        self.curve_type.render(out);
        let ghost mut cparts = seq![spec_curve_type_name(self.curve_type)];
        let mut i: usize = 0;
        proof {
            reveal_strlit(",");
            assert(","@ =~= seq![',']);
        }
        while i < self.curve_points.len()
            invariant
                0 <= i <= self.curve_points.len(),
                cparts == seq![spec_curve_type_name(self.curve_type)] + self.curve_points@.take(
                    i as int,
                ).map(|k: int, p: CurvePoint| spec_render_curve_point(p)),
                cparts.len() >= 1,
                out@ == old(out)@ + crate::text::spec_join(parts, ',') + seq![',']
                    + crate::text::spec_join(cparts, '|'),
                parts == spec_ho_base_tokens(
                    self.x,
                    self.y,
                    self.time,
                    self.object_type,
                    self.hit_sound,
                ),
            decreases self.curve_points.len() - i,
        {
            out.append("|");
            let p = self.curve_points[i];
            p.render(out);
            proof {
                reveal_strlit("|");
                assert("|"@ =~= seq!['|']);
                crate::text::lemma_join_push(cparts, spec_render_curve_point(p), '|');
                assert(out@ =~= old(out)@ + crate::text::spec_join(parts, ',') + seq![',']
                    + crate::text::spec_join(cparts.push(spec_render_curve_point(p)), '|'));
                cparts = cparts.push(spec_render_curve_point(p));
                assert(self.curve_points@.take(i + 1).map(
                    |k: int, q: CurvePoint| spec_render_curve_point(q),
                ) =~= self.curve_points@.take(i as int).map(
                    |k: int, q: CurvePoint| spec_render_curve_point(q),
                ).push(spec_render_curve_point(p)));
                assert(cparts =~= seq![spec_curve_type_name(self.curve_type)]
                    + self.curve_points@.take(i + 1).map(
                    |k: int, q: CurvePoint| spec_render_curve_point(q),
                ));
            }
            i += 1;
        }
        proof {
            assert(self.curve_points@.take(self.curve_points@.len() as int) =~= self.curve_points@);
            assert(cparts =~= seq![spec_curve_type_name(self.curve_type)] + self.curve_points@.map(
                |k: int, p: CurvePoint| spec_render_curve_point(p),
            ));
            assert(crate::text::spec_join(cparts, '|') == spec_curve_token(
                self.curve_type,
                self.curve_points@,
            ));
            crate::text::lemma_join_push(
                parts,
                spec_curve_token(self.curve_type, self.curve_points@),
                ',',
            );
            assert(out@ =~= old(out)@ + crate::text::spec_join(
                parts.push(spec_curve_token(self.curve_type, self.curve_points@)),
                ',',
            ));
            parts = parts.push(spec_curve_token(self.curve_type, self.curve_points@));
        }
        // Slides and length.
        out.append(",");
        render_i32(self.slides, out);
        proof {
            reveal_strlit(",");
            assert(","@ =~= seq![',']);
            crate::text::lemma_join_push(parts, spec_render_i32(self.slides as int), ',');
            assert(out@ =~= old(out)@ + crate::text::spec_join(
                parts.push(spec_render_i32(self.slides as int)),
                ',',
            ));
            parts = parts.push(spec_render_i32(self.slides as int));
        }
        out.append(",");
        render_dec(&self.length, out);
        proof {
            crate::text::lemma_join_push(parts, spec_render_dec(self.length), ',');
            assert(out@ =~= old(out)@ + crate::text::spec_join(
                parts.push(spec_render_dec(self.length)),
                ',',
            ));
            parts = parts.push(spec_render_dec(self.length));
            assert(parts =~= spec_ho_base_tokens(
                self.x,
                self.y,
                self.time,
                self.object_type,
                self.hit_sound,
            ) + seq![
                spec_curve_token(self.curve_type, self.curve_points@),
                spec_render_i32(self.slides as int),
                spec_render_dec(self.length),
            ]);
        }
        // Edge sounds.
        if self.edge_sounds.len() > 0 {
            out.append(",");
            render_i32(self.edge_sounds[0], out);
            let ghost mut sparts = seq![spec_render_i32(self.edge_sounds@[0] as int)];
            proof {
                assert(out@ =~= old(out)@ + crate::text::spec_join(parts, ',') + seq![',']
                    + crate::text::spec_join(sparts, '|'));
            }
            let mut i: usize = 1;
            while i < self.edge_sounds.len()
                invariant
                    1 <= i <= self.edge_sounds.len(),
                    self.edge_sounds.len() > 0,
                    sparts == self.edge_sounds@.take(i as int).map(
                        |k: int, v: i32| spec_render_i32(v as int),
                    ),
                    sparts.len() >= 1,
                    out@ == old(out)@ + crate::text::spec_join(parts, ',') + seq![',']
                        + crate::text::spec_join(sparts, '|'),
                decreases self.edge_sounds.len() - i,
            {
                out.append("|");
                render_i32(self.edge_sounds[i], out);
                proof {
                    reveal_strlit("|");
                    assert("|"@ =~= seq!['|']);
                    let v = self.edge_sounds@[i as int];
                    crate::text::lemma_join_push(sparts, spec_render_i32(v as int), '|');
                    assert(out@ =~= old(out)@ + crate::text::spec_join(parts, ',') + seq![',']
                        + crate::text::spec_join(sparts.push(spec_render_i32(v as int)), '|'));
                    sparts = sparts.push(spec_render_i32(v as int));
                    assert(sparts =~= self.edge_sounds@.take(i + 1).map(
                        |k: int, w: i32| spec_render_i32(w as int),
                    ));
                }
                i += 1;
            }
            proof {
                assert(self.edge_sounds@.take(self.edge_sounds@.len() as int)
                    =~= self.edge_sounds@);
                assert(crate::text::spec_join(sparts, '|') == spec_sounds_token(
                    self.edge_sounds@,
                ));
                crate::text::lemma_join_push(parts, spec_sounds_token(self.edge_sounds@), ',');
                parts = parts.push(spec_sounds_token(self.edge_sounds@));
                assert(out@ =~= old(out)@ + crate::text::spec_join(parts, ','));
            }
        }
        // Edge sample sets.
        if self.edge_sets.len() > 0 {
            out.append(",");
            let e0 = self.edge_sets[0];
            e0.render(out);
            let ghost mut sparts = seq![spec_render_edge_set(self.edge_sets@[0])];
            proof {
                assert(out@ =~= old(out)@ + crate::text::spec_join(parts, ',') + seq![',']
                    + crate::text::spec_join(sparts, '|'));
            }
            let mut i: usize = 1;
            while i < self.edge_sets.len()
                invariant
                    1 <= i <= self.edge_sets.len(),
                    self.edge_sets.len() > 0,
                    sparts == self.edge_sets@.take(i as int).map(
                        |k: int, v: EdgeSet| spec_render_edge_set(v),
                    ),
                    sparts.len() >= 1,
                    out@ == old(out)@ + crate::text::spec_join(parts, ',') + seq![',']
                        + crate::text::spec_join(sparts, '|'),
                decreases self.edge_sets.len() - i,
            {
                out.append("|");
                let e = self.edge_sets[i];
                e.render(out);
                proof {
                    reveal_strlit("|");
                    assert("|"@ =~= seq!['|']);
                    let v = self.edge_sets@[i as int];
                    crate::text::lemma_join_push(sparts, spec_render_edge_set(v), '|');
                    assert(out@ =~= old(out)@ + crate::text::spec_join(parts, ',') + seq![',']
                        + crate::text::spec_join(sparts.push(spec_render_edge_set(v)), '|'));
                    sparts = sparts.push(spec_render_edge_set(v));
                    assert(sparts =~= self.edge_sets@.take(i + 1).map(
                        |k: int, w: EdgeSet| spec_render_edge_set(w),
                    ));
                }
                i += 1;
            }
            proof {
                assert(self.edge_sets@.take(self.edge_sets@.len() as int) =~= self.edge_sets@);
                assert(crate::text::spec_join(sparts, '|') == spec_sets_token(self.edge_sets@));
                crate::text::lemma_join_push(parts, spec_sets_token(self.edge_sets@), ',');
                parts = parts.push(spec_sets_token(self.edge_sets@));
                assert(out@ =~= old(out)@ + crate::text::spec_join(parts, ','));
            }
        }
        // The sample.
        if let Some(h) = &self.hit_sample {
            out.append(",");
            h.render(out);
            proof {
                crate::text::lemma_join_push(parts, spec_render_hit_sample(h@), ',');
                assert(out@ =~= old(out)@ + crate::text::spec_join(
                    parts.push(spec_render_hit_sample(h@)),
                    ',',
                ));
                parts = parts.push(spec_render_hit_sample(h@));
            }
        }
        proof {
            assert(parts =~= spec_slider_tokens(self@));
        }
    }
}

impl HitObject {
    /// Appends the canonical hit-object line (without the newline) to `out`.
    pub fn render(&self, out: &mut String)
        requires
            match *self {
                HitObject::Slider(ref sl) => dec_valid(sl.length),
                _ => true,
            },
        ensures
            final(out)@ == old(out)@ + spec_render_hit_object(self@),
    {
        match self {
            HitObject::Circle(c) => c.render(out),
            HitObject::Slider(c) => c.render(out),
            HitObject::Spinner(c) => c.render(out),
            HitObject::Hold(c) => c.render(out),
        }
    }
}

} // verus!

verus! {

/// A sample that rendering can reproduce: the filename slot is occupied
/// (possibly by the empty name — a rendered sample always ends in a colon,
/// so decoding always sees five pieces) and the name avoids the outer
/// separators.
pub open spec fn hs_valid(h: HitSampleV) -> bool {
    match h.filename {
        Some(f) => (forall|j: int|
            0 <= j < f.len() ==> #[trigger] f[j] != ':' && f[j] != ',' && f[j] != '|') && (f.len()
            > 0 ==> !crate::text::is_ws(f[0]) && !crate::text::is_ws(f.last())),
        None => false,
    }
}

/// Round trip and character shape of a rendered sample descriptor.
pub proof fn lemma_hit_sample_round_trip(h: HitSampleV)
    requires
        hs_valid(h),
    ensures
        spec_parse_hit_sample(spec_render_hit_sample(h)) == Ok::<HitSampleV, ParseErrorKind>(h),
        spec_render_hit_sample(h).len() > 0,
        spec_render_hit_sample(h).contains(':'),
        forall|j: int|
            0 <= j < spec_render_hit_sample(h).len() ==> #[trigger] spec_render_hit_sample(h)[j]
                != ',' && spec_render_hit_sample(h)[j] != '|',
        !crate::text::is_ws(spec_render_hit_sample(h)[0]),
        !crate::text::is_ws(spec_render_hit_sample(h).last()),
{
    let f = h.filename->Some_0;
    let t0 = spec_render_i32(h.normal_set as int);
    let t1 = spec_render_i32(h.addition_set as int);
    let t2 = spec_render_i32(h.index as int);
    let t3 = spec_render_i32(h.volume as int);
    crate::numeric::lemma_i32_token(h.normal_set);
    crate::numeric::lemma_i32_token(h.addition_set);
    crate::numeric::lemma_i32_token(h.index);
    crate::numeric::lemma_i32_token(h.volume);
    let s = spec_render_hit_sample(h);
    assert(s =~= t0 + seq![':'] + (t1 + seq![':'] + (t2 + seq![':'] + (t3 + seq![':'] + f))));
    crate::text::lemma_split_head(t0, t1 + seq![':'] + (t2 + seq![':'] + (t3 + seq![':'] + f)), ':');
    crate::text::lemma_split_head(t1, t2 + seq![':'] + (t3 + seq![':'] + f), ':');
    crate::text::lemma_split_head(t2, t3 + seq![':'] + f, ':');
    crate::text::lemma_split_head(t3, f, ':');
    crate::text::lemma_split_at_first(f, ':', f.len() as int);
    let parts = spec_split(s, ':');
    assert(parts =~~= seq![t0, t1, t2, t3, f]);
    crate::numeric::lemma_i32_round_trip(h.normal_set);
    crate::numeric::lemma_i32_round_trip(h.addition_set);
    crate::numeric::lemma_i32_round_trip(h.index);
    crate::numeric::lemma_i32_round_trip(h.volume);
    assert(s[t0.len() as int] == ':');
    assert(s.contains(':'));
    assert forall|j: int| 0 <= j < s.len() implies #[trigger] s[j] != ',' && s[j] != '|' by {
        let a = t0.len() as int;
        let b = a + 1 + t1.len();
        let c = b + 1 + t2.len();
        let d = c + 1 + t3.len();
        if j < a {
            assert(s[j] == t0[j]);
        } else if j == a {
        } else if j < b {
            assert(s[j] == t1[j - a - 1]);
        } else if j == b {
        } else if j < c {
            assert(s[j] == t2[j - b - 1]);
        } else if j == c {
        } else if j < d {
            assert(s[j] == t3[j - c - 1]);
        } else if j == d {
        } else {
            assert(s[j] == f[j - d - 1]);
        }
    }
    assert(s[0] == t0[0]);
    if f.len() > 0 {
        assert(s.last() == f.last());
    } else {
        assert(s.last() == ':');
    }
}

/// What rendering a circle can reproduce: a circle-flagged type byte,
/// parameters that survive the comma split and trimming, and the trailing
/// token unambiguous.
pub open spec fn circle_valid(c: CircleV) -> bool {
    &&& c.object_type & 1 != 0
    &&& forall|i: int, j: int|
        0 <= i < c.params.len() && 0 <= j < c.params[i].len() ==> #[trigger] c.params[i][j] != ','
            && !crate::text::is_ws(c.params[i][j])
    &&& match c.hit_sample {
        Some(h) => hs_valid(h),
        None => c.params.len() > 0 ==> forall|j: int|
            0 <= j < c.params.last().len() ==> #[trigger] c.params.last()[j] != ':',
    }
}

/// The circle token list reparses to the same circle.
#[verifier::rlimit(100)]
#[verifier::spinoff_prover]
proof fn lemma_circle_tokens_parse(c: CircleV)
    requires
        circle_valid(c),
    ensures
        spec_parse_circle(spec_circle_tokens(c), c.x, c.y, c.time, c.object_type) == Ok::<
            CircleV,
            ParseErrorKind,
        >(c),
{
    let s = spec_circle_tokens(c);
    crate::numeric::lemma_i32_round_trip(c.hit_sound);
    assert(s.len() == 5 + c.params.len() + (match c.hit_sample {
        Some(h) => 1int,
        None => 0int,
    }));
    assert(s[4] == spec_render_i32(c.hit_sound as int));
    match c.hit_sample {
        Some(h) => {
            lemma_hit_sample_round_trip(h);
            assert(s[s.len() - 1] == spec_render_hit_sample(h));
            assert(s[s.len() - 1].contains(':'));
            assert(s.subrange(5, s.len() - 1) =~= c.params);
            assert(spec_parse_hit_sample(s[s.len() - 1]) == Ok::<HitSampleV, ParseErrorKind>(h));
            assert(spec_parse_circle(s, c.x, c.y, c.time, c.object_type) == Ok::<
                CircleV,
                ParseErrorKind,
            >(
                CircleV {
                    x: c.x,
                    y: c.y,
                    time: c.time,
                    object_type: c.object_type,
                    hit_sound: c.hit_sound,
                    params: s.subrange(5, s.len() - 1),
                    hit_sample: Some(h),
                },
            ));
            assert(CircleV {
                x: c.x,
                y: c.y,
                time: c.time,
                object_type: c.object_type,
                hit_sound: c.hit_sound,
                params: s.subrange(5, s.len() - 1),
                hit_sample: Some(h),
            } == c);
        },
        None => {
            if c.params.len() > 0 {
                assert(s[s.len() - 1] == c.params.last());
                assert(!s[s.len() - 1].contains(':')) by {
                    if s[s.len() - 1].contains(':') {
                        let lt = s[s.len() - 1];
                        let j = choose|j: int| 0 <= j < lt.len() && #[trigger] lt[j] == ':';
                        assert(c.params.last()[j] != ':');
                    }
                }
                assert(s.subrange(5, s.len() as int) =~= c.params);
                assert(spec_parse_circle(s, c.x, c.y, c.time, c.object_type) == Ok::<
                    CircleV,
                    ParseErrorKind,
                >(c));
            } else {
                assert(s.len() == 5);
                assert(s.subrange(5, 5) =~= c.params);
                assert(c.params =~= Seq::<Seq<char>>::empty());
                assert(spec_parse_circle(s, c.x, c.y, c.time, c.object_type) == Ok::<
                    CircleV,
                    ParseErrorKind,
                >(c));
            }
        },
    }
}

/// Round trip: a canonical circle line decodes back to the same circle.
#[verifier::rlimit(100)]
#[verifier::spinoff_prover]
pub proof fn lemma_circle_round_trip(c: CircleV)
    requires
        circle_valid(c),
    ensures
        spec_parse_hit_object(crate::text::spec_split_trim(spec_render_circle(c), ',')) == Ok::<
            HitObjectV,
            ParseErrorKind,
        >(HitObjectV::Circle(c)),
{
    let toks = spec_circle_tokens(c);
    crate::numeric::lemma_i32_token(c.x);
    crate::numeric::lemma_i32_token(c.y);
    crate::numeric::lemma_i32_token(c.time);
    crate::numeric::lemma_i32_token(c.object_type);
    crate::numeric::lemma_i32_token(c.hit_sound);
    if let Some(h) = c.hit_sample {
        lemma_hit_sample_round_trip(h);
    }
    assert forall|i: int, j: int|
        0 <= i < toks.len() && 0 <= j < toks[i].len() implies #[trigger] toks[i][j] != ',' by {
        if i >= 5 && i < 5 + c.params.len() {
            assert(toks[i] == c.params[i - 5]);
        }
    }
    assert forall|i: int|
        0 <= i < toks.len() implies (#[trigger] toks[i].len() > 0 ==> !crate::text::is_ws(
        toks[i][0],
    ) && !crate::text::is_ws(toks[i].last())) by {
        if i >= 5 && i < 5 + c.params.len() {
            assert(toks[i] == c.params[i - 5]);
        }
    }
    crate::text::lemma_split_trim_join(toks, ',');
    crate::numeric::lemma_i32_round_trip(c.x);
    crate::numeric::lemma_i32_round_trip(c.y);
    crate::numeric::lemma_i32_round_trip(c.time);
    crate::numeric::lemma_i32_round_trip(c.object_type);
    lemma_circle_tokens_parse(c);
    assert(toks[0] == spec_render_i32(c.x as int) && toks[1] == spec_render_i32(c.y as int)
        && toks[2] == spec_render_i32(c.time as int) && toks[3] == spec_render_i32(
        c.object_type as int,
    ));
}

/// What rendering a spinner can reproduce.
pub open spec fn spinner_valid(c: SpinnerV) -> bool {
    &&& c.object_type & 1 == 0
    &&& c.object_type & 2 == 0
    &&& c.object_type & 8 != 0
    &&& match c.hit_sample {
        Some(h) => hs_valid(h),
        None => true,
    }
}

/// Round trip: a canonical spinner line decodes back to the same spinner.
pub proof fn lemma_spinner_round_trip(c: SpinnerV)
    requires
        spinner_valid(c),
    ensures
        spec_parse_hit_object(crate::text::spec_split_trim(spec_render_spinner(c), ',')) == Ok::<
            HitObjectV,
            ParseErrorKind,
        >(HitObjectV::Spinner(c)),
{
    let toks = spec_spinner_tokens(c);
    crate::numeric::lemma_i32_token(c.x);
    crate::numeric::lemma_i32_token(c.y);
    crate::numeric::lemma_i32_token(c.time);
    crate::numeric::lemma_i32_token(c.object_type);
    crate::numeric::lemma_i32_token(c.hit_sound);
    crate::numeric::lemma_i32_token(c.end_time);
    if let Some(h) = c.hit_sample {
        lemma_hit_sample_round_trip(h);
    }
    assert forall|i: int, j: int|
        0 <= i < toks.len() && 0 <= j < toks[i].len() implies #[trigger] toks[i][j] != ',' by {}
    assert forall|i: int|
        0 <= i < toks.len() implies (#[trigger] toks[i].len() > 0 ==> !crate::text::is_ws(
        toks[i][0],
    ) && !crate::text::is_ws(toks[i].last())) by {}
    crate::text::lemma_split_trim_join(toks, ',');
    crate::numeric::lemma_i32_round_trip(c.x);
    crate::numeric::lemma_i32_round_trip(c.y);
    crate::numeric::lemma_i32_round_trip(c.time);
    crate::numeric::lemma_i32_round_trip(c.object_type);
    crate::numeric::lemma_i32_round_trip(c.hit_sound);
    crate::numeric::lemma_i32_round_trip(c.end_time);
    match c.hit_sample {
        Some(h) => {
            assert(toks[6] == spec_render_hit_sample(h));
        },
        None => {
            assert(toks.len() == 6);
        },
    }
}

/// What rendering a hold can reproduce: without a sample the end time must
/// be the default zero, since the text carries it only beside a sample.
pub open spec fn hold_valid(c: HoldV) -> bool {
    &&& c.object_type & 1 == 0
    &&& c.object_type & 2 == 0
    &&& c.object_type & 8 == 0
    &&& c.object_type & 128 != 0
    &&& match c.hit_sample {
        Some(h) => hs_valid(h),
        None => c.end_time == 0,
    }
}

/// Round trip: a canonical hold line decodes back to the same hold.
#[verifier::rlimit(100)]
#[verifier::spinoff_prover]
pub proof fn lemma_hold_round_trip(c: HoldV)
    requires
        hold_valid(c),
    ensures
        spec_parse_hit_object(crate::text::spec_split_trim(spec_render_hold(c), ',')) == Ok::<
            HitObjectV,
            ParseErrorKind,
        >(HitObjectV::Hold(c)),
{
    let toks = spec_hold_tokens(c);
    crate::numeric::lemma_i32_token(c.x);
    crate::numeric::lemma_i32_token(c.y);
    crate::numeric::lemma_i32_token(c.time);
    crate::numeric::lemma_i32_token(c.object_type);
    crate::numeric::lemma_i32_token(c.hit_sound);
    crate::numeric::lemma_i32_token(c.end_time);
    let et = spec_render_i32(c.end_time as int);
    if let Some(h) = c.hit_sample {
        lemma_hit_sample_round_trip(h);
        assert(toks[5] == et + seq![':'] + spec_render_hit_sample(h));
    } else {
        assert(toks[5] =~= et);
    }
    assert forall|i: int, j: int|
        0 <= i < toks.len() && 0 <= j < toks[i].len() implies #[trigger] toks[i][j] != ',' by {
        if i == 5 {
            match c.hit_sample {
                Some(h) => {
                    let sm = spec_render_hit_sample(h);
                    if j < et.len() {
                        assert(toks[5][j] == et[j]);
                    } else if j == et.len() {
                        assert(toks[5][j] == ':');
                    } else {
                        assert(toks[5][j] == sm[j - et.len() - 1]);
                    }
                },
                None => {},
            }
        }
    }
    assert forall|i: int|
        0 <= i < toks.len() implies (#[trigger] toks[i].len() > 0 ==> !crate::text::is_ws(
        toks[i][0],
    ) && !crate::text::is_ws(toks[i].last())) by {
        if i == 5 {
            match c.hit_sample {
                Some(h) => {
                    let sm = spec_render_hit_sample(h);
                    assert(toks[5][0] == et[0]);
                    assert(toks[5].last() == sm.last());
                },
                None => {},
            }
        }
    }
    crate::text::lemma_split_trim_join(toks, ',');
    crate::numeric::lemma_i32_round_trip(c.x);
    crate::numeric::lemma_i32_round_trip(c.y);
    crate::numeric::lemma_i32_round_trip(c.time);
    crate::numeric::lemma_i32_round_trip(c.object_type);
    crate::numeric::lemma_i32_round_trip(c.hit_sound);
    crate::numeric::lemma_i32_round_trip(c.end_time);
    match c.hit_sample {
        Some(h) => {
            let sm = spec_render_hit_sample(h);
            let tok = toks[5];
            assert(tok[et.len() as int] == ':');
            assert(tok.contains(':'));
            assert(forall|j: int| 0 <= j < et.len() ==> tok[j] == #[trigger] et[j] && et[j] != ':');
            crate::text::lemma_find_char_unique(tok, ':', et.len() as int);
            assert(tok.take(et.len() as int) =~= et);
            assert(tok.skip(et.len() as int + 1) =~= sm);
        },
        None => {
            assert(!toks[5].contains(':')) by {
                if toks[5].contains(':') {
                    let j = choose|j: int| 0 <= j < toks[5].len() && toks[5][j] == ':';
                    assert(et[j] != ':');
                }
            }
        },
    }
}

} // verus!

verus! {

/// Round trip and character shape of a rendered control point.
proof fn lemma_curve_point_round_trip(p: CurvePoint)
    ensures
        spec_parse_curve_point(spec_render_curve_point(p)) == Ok::<CurvePoint, ParseErrorKind>(p),
        spec_render_curve_point(p).len() > 0,
        forall|j: int|
            0 <= j < spec_render_curve_point(p).len() ==> #[trigger] spec_render_curve_point(p)[j]
                != ',' && spec_render_curve_point(p)[j] != '|' && !crate::text::is_ws(
                spec_render_curve_point(p)[j],
            ),
{
    let tx = spec_render_i32(p.x as int);
    let ty = spec_render_i32(p.y as int);
    crate::numeric::lemma_i32_token(p.x);
    crate::numeric::lemma_i32_token(p.y);
    let s = spec_render_curve_point(p);
    assert(s =~= tx + seq![':'] + ty);
    crate::text::lemma_split_head(tx, ty, ':');
    crate::text::lemma_split_at_first(ty, ':', ty.len() as int);
    assert(spec_split(s, ':') =~~= seq![tx, ty]);
    crate::numeric::lemma_i32_round_trip(p.x);
    crate::numeric::lemma_i32_round_trip(p.y);
    assert forall|j: int| 0 <= j < s.len() implies #[trigger] s[j] != ',' && s[j] != '|'
        && !crate::text::is_ws(s[j]) by {
        if j < tx.len() {
            assert(s[j] == tx[j]);
        } else if j == tx.len() {
            assert(s[j] == ':');
        } else {
            assert(s[j] == ty[j - tx.len() - 1]);
        }
    }
}

/// Round trip and character shape of a rendered edge sample-set pair.
proof fn lemma_edge_set_round_trip(e: EdgeSet)
    ensures
        spec_parse_edge_set(spec_render_edge_set(e)) == Ok::<EdgeSet, ParseErrorKind>(e),
        spec_render_edge_set(e).len() > 0,
        forall|j: int|
            0 <= j < spec_render_edge_set(e).len() ==> #[trigger] spec_render_edge_set(e)[j] != ','
                && spec_render_edge_set(e)[j] != '|' && !crate::text::is_ws(
                spec_render_edge_set(e)[j],
            ),
{
    let tx = spec_render_i32(e.normal_set as int);
    let ty = spec_render_i32(e.addition_set as int);
    crate::numeric::lemma_i32_token(e.normal_set);
    crate::numeric::lemma_i32_token(e.addition_set);
    let s = spec_render_edge_set(e);
    assert(s =~= tx + seq![':'] + ty);
    crate::text::lemma_split_head(tx, ty, ':');
    crate::text::lemma_split_at_first(ty, ':', ty.len() as int);
    assert(spec_split(s, ':') =~~= seq![tx, ty]);
    crate::numeric::lemma_i32_round_trip(e.normal_set);
    crate::numeric::lemma_i32_round_trip(e.addition_set);
    assert forall|j: int| 0 <= j < s.len() implies #[trigger] s[j] != ',' && s[j] != '|'
        && !crate::text::is_ws(s[j]) by {
        if j < tx.len() {
            assert(s[j] == tx[j]);
        } else if j == tx.len() {
            assert(s[j] == ':');
        } else {
            assert(s[j] == ty[j - tx.len() - 1]);
        }
    }
}

/// Parsing the rendered control points gives them back.
proof fn lemma_parse_points_renders(cps: Seq<CurvePoint>)
    ensures
        spec_parse_curve_points(cps.map(|i: int, p: CurvePoint| spec_render_curve_point(p)))
            == Ok::<Seq<CurvePoint>, ParseErrorKind>(cps),
    decreases cps.len(),
{
    let m = cps.map(|i: int, p: CurvePoint| spec_render_curve_point(p));
    if cps.len() == 0 {
        assert(cps =~= Seq::<CurvePoint>::empty());
    } else {
        lemma_curve_point_round_trip(cps[0]);
        lemma_parse_points_renders(cps.skip(1));
        assert(m.skip(1) =~= cps.skip(1).map(|i: int, p: CurvePoint| spec_render_curve_point(p)));
        assert(seq![cps[0]] + cps.skip(1) =~= cps);
    }
}

/// Parsing the rendered edge sounds gives them back.
proof fn lemma_parse_sounds_renders(vs: Seq<i32>)
    ensures
        spec_parse_edge_sounds(vs.map(|i: int, v: i32| spec_render_i32(v as int))) == Ok::<
            Seq<i32>,
            ParseErrorKind,
        >(vs),
    decreases vs.len(),
{
    let m = vs.map(|i: int, v: i32| spec_render_i32(v as int));
    if vs.len() == 0 {
        assert(vs =~= Seq::<i32>::empty());
    } else {
        crate::numeric::lemma_i32_round_trip(vs[0]);
        lemma_parse_sounds_renders(vs.skip(1));
        assert(m.skip(1) =~= vs.skip(1).map(|i: int, v: i32| spec_render_i32(v as int)));
        assert(seq![vs[0]] + vs.skip(1) =~= vs);
    }
}

/// Parsing the rendered edge sample-set pairs gives them back.
proof fn lemma_parse_sets_renders(es: Seq<EdgeSet>)
    ensures
        spec_parse_edge_sets(es.map(|i: int, e: EdgeSet| spec_render_edge_set(e))) == Ok::<
            Seq<EdgeSet>,
            ParseErrorKind,
        >(es),
    decreases es.len(),
{
    let m = es.map(|i: int, e: EdgeSet| spec_render_edge_set(e));
    if es.len() == 0 {
        assert(es =~= Seq::<EdgeSet>::empty());
    } else {
        lemma_edge_set_round_trip(es[0]);
        lemma_parse_sets_renders(es.skip(1));
        assert(m.skip(1) =~= es.skip(1).map(|i: int, e: EdgeSet| spec_render_edge_set(e)));
        assert(seq![es[0]] + es.skip(1) =~= es);
    }
}

/// The curve letter survives its own fallback decoding.
proof fn lemma_curve_type_round_trip(t: CurveType)
    ensures
        spec_curve_type_of(spec_curve_type_name(t)) == t,
        spec_curve_type_name(t).len() == 1,
        spec_curve_type_name(t)[0] != ',' && spec_curve_type_name(t)[0] != '|'
            && !crate::text::is_ws(spec_curve_type_name(t)[0]),
{
    reveal_strlit("B");
    reveal_strlit("C");
    reveal_strlit("L");
    reveal_strlit("P");
    assert("B"@[0] == 'B' && "C"@[0] == 'C' && "L"@[0] == 'L' && "P"@[0] == 'P');
}

/// Character shape of the composite pipe-joined tokens.
proof fn lemma_curve_token_shape(t: CurveType, cps: Seq<CurvePoint>)
    ensures
        spec_curve_token(t, cps).len() > 0,
        forall|j: int|
            0 <= j < spec_curve_token(t, cps).len() ==> #[trigger] spec_curve_token(t, cps)[j]
                != ',' && !crate::text::is_ws(spec_curve_token(t, cps)[j]),
{
    let parts = seq![spec_curve_type_name(t)] + cps.map(
        |i: int, p: CurvePoint| spec_render_curve_point(p),
    );
    lemma_curve_type_round_trip(t);
    assert forall|i: int, j: int|
        0 <= i < parts.len() && 0 <= j < parts[i].len() implies #[trigger] parts[i][j] != ','
        && !crate::text::is_ws(parts[i][j]) by {
        if i == 0 {
        } else {
            lemma_curve_point_round_trip(cps[i - 1]);
            assert(parts[i] == spec_render_curve_point(cps[i - 1]));
        }
    }
    crate::text::lemma_join_all(parts, '|', ',');
    crate::text::lemma_split_len_ge(parts, '|');
}

/// What rendering a slider can reproduce: the type flags, a canonical
/// length, and edge lists whose presence is monotone so that each optional
/// token lands back at its own position.
pub open spec fn slider_valid(c: SliderV) -> bool {
    &&& c.object_type & 1 == 0
    &&& c.object_type & 2 != 0
    &&& dec_valid(c.length)
    &&& c.edge_sets.len() > 0 ==> c.edge_sounds.len() > 0
    &&& match c.hit_sample {
        Some(h) => hs_valid(h) && c.edge_sounds.len() > 0 && c.edge_sets.len() > 0,
        None => true,
    }
}

/// The slider token list reparses to the same slider.
#[verifier::rlimit(100)]
#[verifier::spinoff_prover]
proof fn lemma_slider_tokens_parse(c: SliderV)
    requires
        slider_valid(c),
    ensures
        spec_parse_slider(spec_slider_tokens(c), c.x, c.y, c.time, c.object_type) == Ok::<
            SliderV,
            ParseErrorKind,
        >(c),
{
    let s = spec_slider_tokens(c);
    crate::numeric::lemma_i32_round_trip(c.hit_sound);
    crate::numeric::lemma_i32_round_trip(c.slides);
    crate::decimal::lemma_dec_round_trip(c.length);
    let nsounds: int = if c.edge_sounds.len() > 0 {
        1
    } else {
        0
    };
    let nsets: int = if c.edge_sets.len() > 0 {
        1
    } else {
        0
    };
    let nsample: int = if c.hit_sample is Some {
        1
    } else {
        0
    };
    assert(s.len() == 8 + nsounds + nsets + nsample);
    assert(s[4] == spec_render_i32(c.hit_sound as int));
    assert(s[5] == spec_curve_token(c.curve_type, c.curve_points));
    assert(s[6] == spec_render_i32(c.slides as int));
    assert(s[7] == spec_render_dec(c.length));
    // The curve token splits into the letter and the rendered points.
    let cparts = seq![spec_curve_type_name(c.curve_type)] + c.curve_points.map(
        |i: int, p: CurvePoint| spec_render_curve_point(p),
    );
    lemma_curve_type_round_trip(c.curve_type);
    assert forall|i: int, j: int|
        0 <= i < cparts.len() && 0 <= j < cparts[i].len() implies #[trigger] cparts[i][j]
        != '|' by {
        if i > 0 {
            lemma_curve_point_round_trip(c.curve_points[i - 1]);
            assert(cparts[i] == spec_render_curve_point(c.curve_points[i - 1]));
        }
    }
    crate::text::lemma_split_join(cparts, '|');
    assert(spec_split(s[5], '|') == cparts);
    assert(cparts[0] == spec_curve_type_name(c.curve_type));
    assert(cparts.skip(1) =~= c.curve_points.map(
        |i: int, p: CurvePoint| spec_render_curve_point(p),
    ));
    lemma_parse_points_renders(c.curve_points);
    // The edge lists.
    if c.edge_sounds.len() > 0 {
        let sparts = c.edge_sounds.map(|i: int, v: i32| spec_render_i32(v as int));
        assert(s[8] == spec_sounds_token(c.edge_sounds));
        assert forall|i: int, j: int|
            0 <= i < sparts.len() && 0 <= j < sparts[i].len() implies #[trigger] sparts[i][j]
            != '|' by {
            crate::numeric::lemma_i32_token(c.edge_sounds[i]);
            assert(sparts[i] == spec_render_i32(c.edge_sounds[i] as int));
        }
        crate::text::lemma_split_join(sparts, '|');
        assert(spec_split(s[8], '|') == sparts);
        lemma_parse_sounds_renders(c.edge_sounds);
    }
    if c.edge_sets.len() > 0 {
        let sparts = c.edge_sets.map(|i: int, e: EdgeSet| spec_render_edge_set(e));
        assert(s[9] == spec_sets_token(c.edge_sets));
        assert forall|i: int, j: int|
            0 <= i < sparts.len() && 0 <= j < sparts[i].len() implies #[trigger] sparts[i][j]
            != '|' by {
            lemma_edge_set_round_trip(c.edge_sets[i]);
            assert(sparts[i] == spec_render_edge_set(c.edge_sets[i]));
        }
        crate::text::lemma_split_join(sparts, '|');
        assert(spec_split(s[9], '|') == sparts);
        lemma_parse_sets_renders(c.edge_sets);
    }
    assert(spec_parse_i32(s[4]) == Some(c.hit_sound));
    assert(spec_parse_i32(s[6]) == Some(c.slides));
    assert(spec_parse_dec(s[7]) == Some(c.length));
    assert(spec_curve_type_of(spec_split(s[5], '|')[0]) == c.curve_type);
    assert(spec_parse_curve_points(spec_split(s[5], '|').skip(1)) == Ok::<
        Seq<CurvePoint>,
        ParseErrorKind,
    >(c.curve_points));
    if c.edge_sounds.len() > 0 {
        assert(spec_parse_edge_sounds(spec_split(s[8], '|')) == Ok::<
            Seq<i32>,
            ParseErrorKind,
        >(c.edge_sounds));
    }
    if c.edge_sets.len() > 0 {
        assert(spec_parse_edge_sets(spec_split(s[9], '|')) == Ok::<
            Seq<EdgeSet>,
            ParseErrorKind,
        >(c.edge_sets));
    }
    match c.hit_sample {
        Some(h) => {
            lemma_hit_sample_round_trip(h);
            assert(s.len() == 11);
            assert(s[10] == spec_render_hit_sample(h));
            assert(s[10].contains(':'));
            assert(spec_parse_hit_sample(s[10]) == Ok::<HitSampleV, ParseErrorKind>(h));
            assert(spec_parse_slider(s, c.x, c.y, c.time, c.object_type) == Ok::<
                SliderV,
                ParseErrorKind,
            >(c));
        },
        None => {
            if s.len() > 10 {
                assert(false);
            }
            if c.edge_sounds.len() == 0 {
                assert(c.edge_sounds =~= Seq::<i32>::empty());
            }
            if c.edge_sets.len() == 0 {
                assert(c.edge_sets =~= Seq::<EdgeSet>::empty());
            }
            assert(spec_parse_slider(s, c.x, c.y, c.time, c.object_type) == Ok::<
                SliderV,
                ParseErrorKind,
            >(c));
        },
    }
}


/// Every character of every rendered slider token is neither a comma nor
/// whitespace.
#[verifier::rlimit(100)]
#[verifier::spinoff_prover]
proof fn lemma_slider_token_char(c: SliderV, i: int, j: int)
    requires
        slider_valid(c),
        0 <= i < spec_slider_tokens(c).len(),
        0 <= j < spec_slider_tokens(c)[i].len(),
    ensures
        spec_slider_tokens(c)[i][j] != ',',
        j == 0 || j == spec_slider_tokens(c)[i].len() - 1 ==> !crate::text::is_ws(
            spec_slider_tokens(c)[i][j],
        ),
{
    let toks = spec_slider_tokens(c);
    let nsounds: int = if c.edge_sounds.len() > 0 {
        1
    } else {
        0
    };
    let nsets: int = if c.edge_sets.len() > 0 {
        1
    } else {
        0
    };
    if i == 0 {
        crate::numeric::lemma_i32_token(c.x);
        assert(toks[0] == spec_render_i32(c.x as int));
    } else if i == 1 {
        crate::numeric::lemma_i32_token(c.y);
        assert(toks[1] == spec_render_i32(c.y as int));
    } else if i == 2 {
        crate::numeric::lemma_i32_token(c.time);
        assert(toks[2] == spec_render_i32(c.time as int));
    } else if i == 3 {
        crate::numeric::lemma_i32_token(c.object_type);
        assert(toks[3] == spec_render_i32(c.object_type as int));
    } else if i == 4 {
        crate::numeric::lemma_i32_token(c.hit_sound);
        assert(toks[4] == spec_render_i32(c.hit_sound as int));
    } else if i == 5 {
        lemma_curve_token_shape(c.curve_type, c.curve_points);
        assert(toks[5] == spec_curve_token(c.curve_type, c.curve_points));
    } else if i == 6 {
        crate::numeric::lemma_i32_token(c.slides);
        assert(toks[6] == spec_render_i32(c.slides as int));
    } else if i == 7 {
        crate::decimal::lemma_dec_token(c.length);
        assert(toks[7] == spec_render_dec(c.length));
    } else if i == 8 && nsounds == 1 {
        assert(toks[8] == spec_sounds_token(c.edge_sounds));
        let sparts = c.edge_sounds.map(|k: int, v: i32| spec_render_i32(v as int));
        assert forall|a: int, b: int|
            0 <= a < sparts.len() && 0 <= b < sparts[a].len() implies #[trigger] sparts[a][b] != ','
            && !crate::text::is_ws(sparts[a][b]) by {
            crate::numeric::lemma_i32_token(c.edge_sounds[a]);
            assert(sparts[a] == spec_render_i32(c.edge_sounds[a] as int));
        }
        crate::text::lemma_join_all(sparts, '|', ',');
    } else if i == 8 + nsounds && nsets == 1 {
        assert(toks[i] == spec_sets_token(c.edge_sets));
        let sparts = c.edge_sets.map(|k: int, e: EdgeSet| spec_render_edge_set(e));
        assert forall|a: int, b: int|
            0 <= a < sparts.len() && 0 <= b < sparts[a].len() implies #[trigger] sparts[a][b] != ','
            && !crate::text::is_ws(sparts[a][b]) by {
            lemma_edge_set_round_trip(c.edge_sets[a]);
            assert(sparts[a] == spec_render_edge_set(c.edge_sets[a]));
        }
        crate::text::lemma_join_all(sparts, '|', ',');
    } else {
        assert(c.hit_sample is Some && i == 8 + nsounds + nsets);
        let h = c.hit_sample->Some_0;
        lemma_hit_sample_round_trip(h);
        assert(toks[i] == spec_render_hit_sample(h));
    }
}

/// Round trip: a canonical slider line decodes back to the same slider.
#[verifier::rlimit(100)]
#[verifier::spinoff_prover]
pub proof fn lemma_slider_round_trip(c: SliderV)
    requires
        slider_valid(c),
    ensures
        spec_parse_hit_object(crate::text::spec_split_trim(spec_render_slider(c), ',')) == Ok::<
            HitObjectV,
            ParseErrorKind,
        >(HitObjectV::Slider(c)),
{
    let toks = spec_slider_tokens(c);
    crate::numeric::lemma_i32_token(c.x);
    crate::numeric::lemma_i32_token(c.y);
    crate::numeric::lemma_i32_token(c.time);
    crate::numeric::lemma_i32_token(c.object_type);
    crate::numeric::lemma_i32_token(c.hit_sound);
    crate::numeric::lemma_i32_token(c.slides);
    crate::decimal::lemma_dec_token(c.length);
    lemma_curve_token_shape(c.curve_type, c.curve_points);
    if let Some(h) = c.hit_sample {
        lemma_hit_sample_round_trip(h);
    }
    if c.edge_sounds.len() > 0 {
        let sparts = c.edge_sounds.map(|i: int, v: i32| spec_render_i32(v as int));
        assert forall|i: int, j: int|
            0 <= i < sparts.len() && 0 <= j < sparts[i].len() implies #[trigger] sparts[i][j] != ','
            && !crate::text::is_ws(sparts[i][j]) by {
            crate::numeric::lemma_i32_token(c.edge_sounds[i]);
            assert(sparts[i] == spec_render_i32(c.edge_sounds[i] as int));
        }
        crate::text::lemma_join_all(sparts, '|', ',');
        crate::text::lemma_split_len_ge(sparts, '|');
    }
    if c.edge_sets.len() > 0 {
        let sparts = c.edge_sets.map(|i: int, e: EdgeSet| spec_render_edge_set(e));
        assert forall|i: int, j: int|
            0 <= i < sparts.len() && 0 <= j < sparts[i].len() implies #[trigger] sparts[i][j] != ','
            && !crate::text::is_ws(sparts[i][j]) by {
            lemma_edge_set_round_trip(c.edge_sets[i]);
            assert(sparts[i] == spec_render_edge_set(c.edge_sets[i]));
        }
        crate::text::lemma_join_all(sparts, '|', ',');
        crate::text::lemma_split_len_ge(sparts, '|');
    }
    let nsounds: int = if c.edge_sounds.len() > 0 {
        1
    } else {
        0
    };
    let nsets: int = if c.edge_sets.len() > 0 {
        1
    } else {
        0
    };
    assert forall|i: int, j: int|
        0 <= i < toks.len() && 0 <= j < toks[i].len() implies #[trigger] toks[i][j] != ',' by {
        lemma_slider_token_char(c, i, j);
    }
    assert forall|i: int|
        0 <= i < toks.len() implies (#[trigger] toks[i].len() > 0 ==> !crate::text::is_ws(
        toks[i][0],
    ) && !crate::text::is_ws(toks[i].last())) by {
        if toks[i].len() > 0 {
            lemma_slider_token_char(c, i, 0);
            lemma_slider_token_char(c, i, toks[i].len() - 1);
        }
    }
    crate::text::lemma_split_trim_join(toks, ',');
    crate::numeric::lemma_i32_round_trip(c.x);
    crate::numeric::lemma_i32_round_trip(c.y);
    crate::numeric::lemma_i32_round_trip(c.time);
    crate::numeric::lemma_i32_round_trip(c.object_type);
    lemma_slider_tokens_parse(c);
    assert(toks[0] == spec_render_i32(c.x as int) && toks[1] == spec_render_i32(c.y as int)
        && toks[2] == spec_render_i32(c.time as int) && toks[3] == spec_render_i32(
        c.object_type as int,
    ));
}

/// Round trip: a canonical hit-object line decodes back to the same
/// object, whatever its shape.
pub open spec fn ho_valid(h: HitObjectV) -> bool {
    match h {
        HitObjectV::Circle(c) => circle_valid(c),
        HitObjectV::Slider(c) => slider_valid(c),
        HitObjectV::Spinner(c) => spinner_valid(c),
        HitObjectV::Hold(c) => hold_valid(c),
    }
}

pub proof fn lemma_hit_object_round_trip(h: HitObjectV)
    requires
        ho_valid(h),
    ensures
        spec_parse_hit_object(crate::text::spec_split_trim(spec_render_hit_object(h), ',')) == Ok::<
            HitObjectV,
            ParseErrorKind,
        >(h),
{
    match h {
        HitObjectV::Circle(c) => lemma_circle_round_trip(c),
        HitObjectV::Slider(c) => lemma_slider_round_trip(c),
        HitObjectV::Spinner(c) => lemma_spinner_round_trip(c),
        HitObjectV::Hold(c) => lemma_hold_round_trip(c),
    }
}

} // verus!

verus! {

impl DeepView for HitObject {
    type V = HitObjectV;

    open spec fn deep_view(&self) -> HitObjectV {
        self.view()
    }
}

} // verus!

verus! {

/// Whatever the hit-object decoder accepts satisfies the render validity
/// requirement: a slider's length is a canonical decimal.
pub proof fn lemma_parse_hit_object_length_valid(s: Seq<Seq<char>>)
    ensures
        match spec_parse_hit_object(s) {
            Ok(h) => match h {
                HitObjectV::Slider(sl) => dec_valid(sl.length),
                _ => true,
            },
            Err(_) => true,
        },
{
    if s.len() >= 8 {
        crate::decimal::lemma_parse_dec_valid(s[7]);
    }
}

} // verus!
