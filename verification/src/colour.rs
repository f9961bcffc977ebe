//! The `[Colours]` section: `Name : R,G,B` lines naming either an indexed
//! combo colour or one of two fixed slider colour roles.

use crate::error::ParseErrorKind;
use crate::numeric::lemma_plain_char_props;
use crate::numeric::lemma_render_i32_plain;
use crate::numeric::parse_i32_str;
use crate::numeric::plain_num_char;
use crate::numeric::render_i32;
use crate::numeric::spec_parse_i32;
use crate::numeric::spec_render_i32;
use crate::numeric::lemma_i32_round_trip;
use crate::text::find_char;
use crate::text::lemma_find_char;
use crate::text::lemma_find_char_unique;
use crate::text::lemma_split_at_first;
use crate::text::lemma_trim_id;
use crate::text::spec_find_char;
use crate::text::spec_split;
use crate::text::spec_starts_with;
use crate::text::spec_trim;
use crate::text::split_str;
use crate::text::starts_with;
use crate::text::trim_str;
use vstd::prelude::*;

verus! {

/// An RGB triple as the format writes it: three comma-joined integers.
#[derive(Clone, Copy, Debug, PartialEq, Eq, Structural)]
pub struct Color {
    pub r: i32,
    pub g: i32,
    pub b: i32,
}

impl Color {
    pub fn new(r: i32, g: i32, b: i32) -> (c: Self)
        ensures
            c == (Color { r, g, b }),
    {
        Color { r, g, b }
    }
}

/// An RGB token: exactly three comma-separated integers.
pub open spec fn spec_parse_color(s: Seq<char>) -> Option<Color> {
    let parts = spec_split(s, ',');
    if parts.len() != 3 {
        None
    } else {
        match (spec_parse_i32(parts[0]), spec_parse_i32(parts[1]), spec_parse_i32(parts[2])) {
            (Some(r), Some(g), Some(b)) => Some(Color { r, g, b }),
            _ => None,
        }
    }
}

pub open spec fn spec_render_color(c: Color) -> Seq<char> {
    spec_render_i32(c.r as int) + seq![','] + spec_render_i32(c.g as int) + seq![',']
        + spec_render_i32(c.b as int)
}

/// Reads an RGB token.
pub fn parse_color(s: &str) -> (res: Option<Color>)
    ensures
        res == spec_parse_color(s@),
{
    let parts = split_str(s, ',');
    if parts.len() != 3 {
        return None;
    }
    assert(parts.deep_view()[0] == parts[0]@);
    assert(parts.deep_view()[1] == parts[1]@);
    assert(parts.deep_view()[2] == parts[2]@);
    let r = parse_i32_str(parts[0]);
    let g = parse_i32_str(parts[1]);
    let b = parse_i32_str(parts[2]);
    match (r, g, b) {
        (Some(r), Some(g), Some(b)) => Some(Color { r, g, b }),
        _ => None,
    }
}

/// Appends `R,G,B` to `out`.
pub fn render_color(c: &Color, out: &mut String)
    ensures
        final(out)@ == old(out)@ + spec_render_color(*c),
{
    render_i32(c.r, out);
    out.append(",");
    render_i32(c.g, out);
    out.append(",");
    render_i32(c.b, out);
    proof {
        reveal_strlit(",");
        assert(","@ =~= seq![',']);
        assert(out@ =~= old(out)@ + spec_render_color(*c));
    }
}

/// A `[Colours]` entry.
#[derive(Clone, Copy, Debug, PartialEq, Eq, Structural)]
pub enum Colour {
    ComboColor(i32, Color),
    SliderTrackOverride(Color),
    SliderBorder(Color),
}

/// The colour-line grammar: a name token and an RGB token around the first
/// colon, both trimmed.  `ComboN` — with `N` a plain positive integer, no
/// sign and no separator — selects the indexed variant; the two slider
/// roles match exactly; anything else is a malformed line.
pub open spec fn spec_parse_colour(s: Seq<char>) -> Result<Colour, ParseErrorKind> {
    match spec_find_char(s, ':') {
        None => Err(ParseErrorKind::MissingRequiredField),
        Some(i) => {
            let name = spec_trim(s.take(i));
            let rgb = spec_trim(s.skip(i + 1));
            if spec_starts_with(name, "Combo"@) {
                let idx = name.skip("Combo"@.len() as int);
                if idx.len() == 0 || !crate::numeric::all_digits(idx) {
                    Err(ParseErrorKind::MalformedField)
                } else {
                    match spec_parse_i32(idx) {
                        Some(n) => if n >= 1 {
                            match spec_parse_color(rgb) {
                                Some(c) => Ok(Colour::ComboColor(n, c)),
                                None => Err(ParseErrorKind::MalformedField),
                            }
                        } else {
                            Err(ParseErrorKind::MalformedField)
                        },
                        None => Err(ParseErrorKind::MalformedField),
                    }
                }
            } else if name == "SliderTrackOverride"@ {
                match spec_parse_color(rgb) {
                    Some(c) => Ok(Colour::SliderTrackOverride(c)),
                    None => Err(ParseErrorKind::MalformedField),
                }
            } else if name == "SliderBorder"@ {
                match spec_parse_color(rgb) {
                    Some(c) => Ok(Colour::SliderBorder(c)),
                    None => Err(ParseErrorKind::MalformedField),
                }
            } else {
                Err(ParseErrorKind::MalformedField)
            }
        },
    }
}

pub open spec fn spec_render_colour(c: Colour) -> Seq<char> {
    match c {
        Colour::ComboColor(n, col) => "Combo"@ + spec_render_i32(n as int) + seq![':']
            + spec_render_color(col),
        Colour::SliderTrackOverride(col) => "SliderTrackOverride"@ + seq![':'] + spec_render_color(
            col,
        ),
        Colour::SliderBorder(col) => "SliderBorder"@ + seq![':'] + spec_render_color(col),
    }
}

impl Colour {
    /// Reads one colour line.
    pub fn parse(s: &str) -> (res: Result<Colour, ParseErrorKind>)
        ensures
            res == spec_parse_colour(s@),
    {
        let n = s.unicode_len();
        let iopt = find_char(s, ':');
        proof {
            lemma_find_char(s@, ':');
        }
        let i = match iopt {
            None => {
                return Err(ParseErrorKind::MissingRequiredField);
            },
            Some(i) => i,
        };
        let name = trim_str(s.substring_char(0, i));
        let rgb = trim_str(s.substring_char(i + 1, n));
        assert(name@ == spec_trim(s@.take(i as int)));
        assert(rgb@ == spec_trim(s@.skip(i + 1)));
        if starts_with(name, "Combo") {
            proof {
                reveal_strlit("Combo");
            }
            let idx = name.substring_char(5, name.unicode_len());
            assert(idx@ == name@.skip("Combo"@.len() as int));
            if idx.unicode_len() == 0 || !crate::numeric::all_digits_str(idx) {
                return Err(ParseErrorKind::MalformedField);
            }
            match parse_i32_str(idx) {
                Some(num) => if num >= 1 {
                    match parse_color(rgb) {
                        Some(c) => Ok(Colour::ComboColor(num, c)),
                        None => Err(ParseErrorKind::MalformedField),
                    }
                } else {
                    Err(ParseErrorKind::MalformedField)
                },
                None => Err(ParseErrorKind::MalformedField),
            }
        } else if crate::text::str_eq(name, "SliderTrackOverride") {
            match parse_color(rgb) {
                Some(c) => Ok(Colour::SliderTrackOverride(c)),
                None => Err(ParseErrorKind::MalformedField),
            }
        } else if crate::text::str_eq(name, "SliderBorder") {
            match parse_color(rgb) {
                Some(c) => Ok(Colour::SliderBorder(c)),
                None => Err(ParseErrorKind::MalformedField),
            }
        } else {
            Err(ParseErrorKind::MalformedField)
        }
    }

    /// Appends the canonical colour line (without the newline) to `out`.
    pub fn render(&self, out: &mut String)
        ensures
            final(out)@ == old(out)@ + spec_render_colour(*self),
    {
        match self {
            Colour::ComboColor(num, col) => {
                out.append("Combo");
                render_i32(*num, out);
                out.append(":");
                render_color(col, out);
            },
            Colour::SliderTrackOverride(col) => {
                out.append("SliderTrackOverride");
                out.append(":");
                render_color(col, out);
            },
            Colour::SliderBorder(col) => {
                out.append("SliderBorder");
                out.append(":");
                render_color(col, out);
            },
        }
        proof {
            reveal_strlit(":");
            assert(":"@ =~= seq![':']);
            assert(out@ =~= old(out)@ + spec_render_colour(*self));
        }
    }
}

/// A rendered RGB token: no colons, no whitespace at the ends, and it parses
/// back to the same triple.
#[verifier::rlimit(100)]
#[verifier::spinoff_prover]
proof fn lemma_color_round_trip(c: Color)
    ensures
        spec_parse_color(spec_render_color(c)) == Some(c),
        forall|j: int|
            0 <= j < spec_render_color(c).len() ==> plain_num_char(
                #[trigger] spec_render_color(c)[j],
            ) || spec_render_color(c)[j] == ',',
        spec_render_color(c).len() >= 1,
{
    let rr = spec_render_i32(c.r as int);
    let gg = spec_render_i32(c.g as int);
    let bb = spec_render_i32(c.b as int);
    let s = spec_render_color(c);
    lemma_render_i32_plain(c.r as int);
    lemma_render_i32_plain(c.g as int);
    lemma_render_i32_plain(c.b as int);
    assert(s =~= rr + seq![','] + gg + seq![','] + bb);
    assert forall|j: int| 0 <= j < rr.len() implies s[j] != ',' by {
        lemma_plain_char_props(rr[j]);
    }
    lemma_split_at_first(s, ',', rr.len() as int);
    let s2 = s.skip(rr.len() as int + 1);
    assert(s2 =~= gg + seq![','] + bb);
    assert forall|j: int| 0 <= j < gg.len() implies s2[j] != ',' by {
        lemma_plain_char_props(gg[j]);
    }
    lemma_split_at_first(s2, ',', gg.len() as int);
    let s3 = s2.skip(gg.len() as int + 1);
    assert(s3 =~= bb);
    assert forall|j: int| 0 <= j < bb.len() implies s3[j] != ',' by {
        lemma_plain_char_props(bb[j]);
    }
    lemma_split_at_first(s3, ',', bb.len() as int);
    assert(s.take(rr.len() as int) =~= rr);
    assert(s2.take(gg.len() as int) =~= gg);
    assert(spec_split(s, ',') =~~= seq![rr, gg, bb]);
    lemma_i32_round_trip(c.r);
    lemma_i32_round_trip(c.g);
    lemma_i32_round_trip(c.b);
}

/// A colour entry the text can name again: a combo index is positive, as
/// the `ComboN` grammar demands.
pub open spec fn colour_valid(c: Colour) -> bool {
    match c {
        Colour::ComboColor(n, _) => n >= 1,
        _ => true,
    }
}

/// Round trip: a rendered colour line decodes to the same entry.
pub proof fn lemma_colour_round_trip(c: Colour)
    requires
        colour_valid(c),
    ensures
        spec_parse_colour(spec_render_colour(c)) == Ok::<Colour, ParseErrorKind>(c),
{
    reveal_strlit("Combo");
    reveal_strlit("SliderTrackOverride");
    reveal_strlit("SliderBorder");
    let s = spec_render_colour(c);
    match c {
        Colour::ComboColor(num, col) => {
            let nm = "Combo"@ + spec_render_i32(num as int);
            lemma_render_i32_plain(num as int);
            lemma_color_round_trip(col);
            let rgb = spec_render_color(col);
            assert(s =~= nm + seq![':'] + rgb);
            assert forall|j: int| 0 <= j < nm.len() implies s[j] != ':' by {
                if j >= 5 {
                    lemma_plain_char_props(spec_render_i32(num as int)[j - 5]);
                    assert(nm[j] != ':');
                }
            }
            assert forall|k: int| nm.len() + 1 <= k < s.len() implies #[trigger] s[k] != ':' by {
                let j = k - nm.len() - 1;
                assert(s[k] == rgb[j]);
                if plain_num_char(rgb[j]) {
                    lemma_plain_char_props(rgb[j]);
                }
            }
            lemma_find_char_unique(s, ':', nm.len() as int);
            assert(s.take(nm.len() as int) =~= nm);
            assert(s.skip(nm.len() as int + 1) =~= rgb);
            assert(!crate::text::is_ws(nm[0]));
            assert(nm.last() == spec_render_i32(num as int).last());
            lemma_plain_char_props(nm.last());
            lemma_trim_id(nm);
            assert(!crate::text::is_ws(rgb[0])) by {
                if plain_num_char(rgb[0]) {
                    lemma_plain_char_props(rgb[0]);
                }
            }
            assert(!crate::text::is_ws(rgb.last())) by {
                if plain_num_char(rgb.last()) {
                    lemma_plain_char_props(rgb.last());
                }
            }
            lemma_trim_id(rgb);
            assert(spec_starts_with(nm, "Combo"@)) by {
                assert(nm.take(5) =~= "Combo"@);
            }
            assert(nm.skip(5) =~= spec_render_i32(num as int));
            lemma_i32_round_trip(num);
        },
        Colour::SliderTrackOverride(col) => {
            lemma_colour_fixed_round_trip("SliderTrackOverride"@, col);
            assert(!spec_starts_with("SliderTrackOverride"@, "Combo"@)) by {
                if spec_starts_with("SliderTrackOverride"@, "Combo"@) {
                    assert("SliderTrackOverride"@.take(5)[0] == 'S');
                    assert("Combo"@[0] == 'C');
                }
            }
        },
        Colour::SliderBorder(col) => {
            lemma_colour_fixed_round_trip("SliderBorder"@, col);
            assert(!spec_starts_with("SliderBorder"@, "Combo"@)) by {
                if spec_starts_with("SliderBorder"@, "Combo"@) {
                    assert("SliderBorder"@.take(5)[0] == 'S');
                    assert("Combo"@[0] == 'C');
                }
            }
        },
    }
}

/// Shared argument for the two fixed colour roles: the rendered line splits
/// back into the role name and the RGB token.
proof fn lemma_colour_fixed_round_trip(nm: Seq<char>, col: Color)
    requires
        nm.len() > 0,
        forall|j: int| 0 <= j < nm.len() ==> nm[j] != ':' && !crate::text::is_ws(#[trigger] nm[j]),
    ensures
        ({
            let s = nm + seq![':'] + spec_render_color(col);
            spec_find_char(s, ':') == Some(nm.len() as int) && spec_trim(s.take(nm.len() as int))
                == nm && spec_trim(s.skip(nm.len() as int + 1)) == spec_render_color(col)
                && spec_parse_color(spec_render_color(col)) == Some(col)
        }),
{
    let rgb = spec_render_color(col);
    let s = nm + seq![':'] + rgb;
    lemma_color_round_trip(col);
    assert forall|k: int| nm.len() + 1 <= k < s.len() implies #[trigger] s[k] != ':' by {
        let j = k - nm.len() - 1;
        assert(s[k] == rgb[j]);
        if plain_num_char(rgb[j]) {
            lemma_plain_char_props(rgb[j]);
        }
    }
    lemma_find_char_unique(s, ':', nm.len() as int);
    assert(s.take(nm.len() as int) =~= nm);
    assert(s.skip(nm.len() as int + 1) =~= rgb);
    lemma_trim_id(nm);
    assert(!crate::text::is_ws(rgb[0])) by {
        if plain_num_char(rgb[0]) {
            lemma_plain_char_props(rgb[0]);
        }
    }
    assert(!crate::text::is_ws(rgb.last())) by {
        if plain_num_char(rgb.last()) {
            lemma_plain_char_props(rgb.last());
        }
    }
    lemma_trim_id(rgb);
}

} // verus!
