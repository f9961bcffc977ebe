//! Line-level tokens: the eight bracketed section headers and the typed
//! key-value tokens of the header-driven sections.

use crate::decimal::Decimal;
use crate::decimal::parse_dec_str;
use crate::decimal::spec_parse_dec;
use crate::error::ParseErrorKind;
use crate::error::view_result;
use crate::numeric::parse_i32_str;
use crate::numeric::spec_parse_i32;
use crate::text::str_eq;
use vstd::prelude::*;

verus! {

/// The eight recognized sections of a beatmap document.
#[derive(Clone, Copy, Debug, PartialEq, Eq, Structural)]
pub enum Section {
    General,
    Editor,
    Metadata,
    Difficulty,
    Events,
    TimingPoints,
    Colours,
    HitObjects,
}

/// Which section a header line names, if any.
pub open spec fn spec_parse_section(s: Seq<char>) -> Result<Section, ParseErrorKind> {
    if s == "[General]"@ {
        Ok(Section::General)
    } else if s == "[Editor]"@ {
        Ok(Section::Editor)
    } else if s == "[Metadata]"@ {
        Ok(Section::Metadata)
    } else if s == "[Difficulty]"@ {
        Ok(Section::Difficulty)
    } else if s == "[Events]"@ {
        Ok(Section::Events)
    } else if s == "[TimingPoints]"@ {
        Ok(Section::TimingPoints)
    } else if s == "[Colours]"@ {
        Ok(Section::Colours)
    } else if s == "[HitObjects]"@ {
        Ok(Section::HitObjects)
    } else {
        Err(ParseErrorKind::UnknownSection)
    }
}

impl Section {
    /// Reads a bracketed header line.
    pub fn parse(s: &str) -> (res: Result<Section, ParseErrorKind>)
        ensures
            res == spec_parse_section(s@),
    {
        if str_eq(s, "[General]") {
            Ok(Section::General)
        } else if str_eq(s, "[Editor]") {
            Ok(Section::Editor)
        } else if str_eq(s, "[Metadata]") {
            Ok(Section::Metadata)
        } else if str_eq(s, "[Difficulty]") {
            Ok(Section::Difficulty)
        } else if str_eq(s, "[Events]") {
            Ok(Section::Events)
        } else if str_eq(s, "[TimingPoints]") {
            Ok(Section::TimingPoints)
        } else if str_eq(s, "[Colours]") {
            Ok(Section::Colours)
        } else if str_eq(s, "[HitObjects]") {
            Ok(Section::HitObjects)
        } else {
            Err(ParseErrorKind::UnknownSection)
        }
    }
}

/// A typed `[Metadata]` key-value pair.
#[derive(Clone, Debug, PartialEq, Eq)]
pub enum MetadataToken {
    Title(String),
    TitleUnicode(String),
    Artist(String),
    ArtistUnicode(String),
    Creator(String),
    Version(String),
    Source(String),
    Tags(String),
    BeatmapID(i32),
    BeatmapSetID(i32),
}

pub ghost enum MetadataTokenV {
    Title(Seq<char>),
    TitleUnicode(Seq<char>),
    Artist(Seq<char>),
    ArtistUnicode(Seq<char>),
    Creator(Seq<char>),
    Version(Seq<char>),
    Source(Seq<char>),
    Tags(Seq<char>),
    BeatmapID(i32),
    BeatmapSetID(i32),
}

impl View for MetadataToken {
    type V = MetadataTokenV;

    open spec fn view(&self) -> MetadataTokenV {
        match self {
            MetadataToken::Title(s) => MetadataTokenV::Title(s@),
            MetadataToken::TitleUnicode(s) => MetadataTokenV::TitleUnicode(s@),
            MetadataToken::Artist(s) => MetadataTokenV::Artist(s@),
            MetadataToken::ArtistUnicode(s) => MetadataTokenV::ArtistUnicode(s@),
            MetadataToken::Creator(s) => MetadataTokenV::Creator(s@),
            MetadataToken::Version(s) => MetadataTokenV::Version(s@),
            MetadataToken::Source(s) => MetadataTokenV::Source(s@),
            MetadataToken::Tags(s) => MetadataTokenV::Tags(s@),
            MetadataToken::BeatmapID(v) => MetadataTokenV::BeatmapID(*v),
            MetadataToken::BeatmapSetID(v) => MetadataTokenV::BeatmapSetID(*v),
        }
    }
}

/// The typed metadata-token grammar over a `key, value` token pair.
pub open spec fn spec_parse_metadata_token(s: Seq<Seq<char>>) -> Result<
    MetadataTokenV,
    ParseErrorKind,
> {
    if s.len() < 2 {
        Err(ParseErrorKind::MissingRequiredField)
    } else if s[0] == "Title"@ {
        Ok(MetadataTokenV::Title(s[1]))
    } else if s[0] == "TitleUnicode"@ {
        Ok(MetadataTokenV::TitleUnicode(s[1]))
    } else if s[0] == "Artist"@ {
        Ok(MetadataTokenV::Artist(s[1]))
    } else if s[0] == "ArtistUnicode"@ {
        Ok(MetadataTokenV::ArtistUnicode(s[1]))
    } else if s[0] == "Creator"@ {
        Ok(MetadataTokenV::Creator(s[1]))
    } else if s[0] == "Version"@ {
        Ok(MetadataTokenV::Version(s[1]))
    } else if s[0] == "Source"@ {
        Ok(MetadataTokenV::Source(s[1]))
    } else if s[0] == "Tags"@ {
        Ok(MetadataTokenV::Tags(s[1]))
    } else if s[0] == "BeatmapID"@ {
        match spec_parse_i32(s[1]) {
            Some(v) => Ok(MetadataTokenV::BeatmapID(v)),
            None => Err(ParseErrorKind::MalformedField),
        }
    } else if s[0] == "BeatmapSetID"@ {
        match spec_parse_i32(s[1]) {
            Some(v) => Ok(MetadataTokenV::BeatmapSetID(v)),
            None => Err(ParseErrorKind::MalformedField),
        }
    } else {
        Err(ParseErrorKind::MalformedField)
    }
}

impl MetadataToken {
    /// Reads a typed metadata token from a `key, value` token pair.
    pub fn parse(s: &[&str]) -> (res: Result<MetadataToken, ParseErrorKind>)
        ensures
            view_result(res) == spec_parse_metadata_token(s.deep_view()),
    {
        let ghost sv = s.deep_view();
        if s.len() < 2 {
            return Err(ParseErrorKind::MissingRequiredField);
        }
        assert(sv[0] == s[0]@ && sv[1] == s[1]@);
        if str_eq(s[0], "Title") {
            Ok(MetadataToken::Title(s[1].to_owned()))
        } else if str_eq(s[0], "TitleUnicode") {
            Ok(MetadataToken::TitleUnicode(s[1].to_owned()))
        } else if str_eq(s[0], "Artist") {
            Ok(MetadataToken::Artist(s[1].to_owned()))
        } else if str_eq(s[0], "ArtistUnicode") {
            Ok(MetadataToken::ArtistUnicode(s[1].to_owned()))
        } else if str_eq(s[0], "Creator") {
            Ok(MetadataToken::Creator(s[1].to_owned()))
        } else if str_eq(s[0], "Version") {
            Ok(MetadataToken::Version(s[1].to_owned()))
        } else if str_eq(s[0], "Source") {
            Ok(MetadataToken::Source(s[1].to_owned()))
        } else if str_eq(s[0], "Tags") {
            Ok(MetadataToken::Tags(s[1].to_owned()))
        } else if str_eq(s[0], "BeatmapID") {
            match parse_i32_str(s[1]) {
                Some(v) => Ok(MetadataToken::BeatmapID(v)),
                None => Err(ParseErrorKind::MalformedField),
            }
        } else if str_eq(s[0], "BeatmapSetID") {
            match parse_i32_str(s[1]) {
                Some(v) => Ok(MetadataToken::BeatmapSetID(v)),
                None => Err(ParseErrorKind::MalformedField),
            }
        } else {
            Err(ParseErrorKind::MalformedField)
        }
    }
}

/// A typed `[Events]` line token.
#[derive(Clone, Debug, PartialEq, Eq)]
pub enum EventsToken {
    Event(String, i32, String),
    Background(String, i32, i32),
    Video(i32, String, i32, i32),
    Break(i32, i32),
    Storyboard(String),
}

pub ghost enum EventsTokenV {
    Event(Seq<char>, i32, Seq<char>),
    Background(Seq<char>, i32, i32),
    Video(i32, Seq<char>, i32, i32),
    Break(i32, i32),
    Storyboard(Seq<char>),
}

impl View for EventsToken {
    type V = EventsTokenV;

    open spec fn view(&self) -> EventsTokenV {
        match self {
            EventsToken::Event(a, b, c) => EventsTokenV::Event(a@, *b, c@),
            EventsToken::Background(a, b, c) => EventsTokenV::Background(a@, *b, *c),
            EventsToken::Video(a, b, c, d) => EventsTokenV::Video(*a, b@, *c, *d),
            EventsToken::Break(a, b) => EventsTokenV::Break(*a, *b),
            EventsToken::Storyboard(a) => EventsTokenV::Storyboard(a@),
        }
    }
}

/// The typed events-token grammar over the comma tokens of one line.
pub open spec fn spec_parse_events_token(s: Seq<Seq<char>>) -> Result<
    EventsTokenV,
    ParseErrorKind,
> {
    if s.len() < 1 {
        Err(ParseErrorKind::MissingRequiredField)
    } else if s[0] == "0"@ {
        if s.len() < 3 {
            Err(ParseErrorKind::MissingRequiredField)
        } else if s[1] == "0"@ {
            if s.len() == 3 {
                Ok(EventsTokenV::Background(s[2], 0, 0))
            } else if s.len() < 5 {
                Err(ParseErrorKind::MissingRequiredField)
            } else {
                match (spec_parse_i32(s[3]), spec_parse_i32(s[4])) {
                    (Some(x), Some(y)) => Ok(EventsTokenV::Background(s[2], x, y)),
                    _ => Err(ParseErrorKind::MalformedField),
                }
            }
        } else if s.len() < 4 {
            Err(ParseErrorKind::MissingRequiredField)
        } else {
            match spec_parse_i32(s[2]) {
                Some(t) => Ok(EventsTokenV::Event(s[1], t, s[3])),
                None => Err(ParseErrorKind::MalformedField),
            }
        }
    } else if s[0] == "1"@ || s[0] == "Video"@ {
        if s.len() < 3 {
            Err(ParseErrorKind::MissingRequiredField)
        } else if s.len() == 3 {
            match spec_parse_i32(s[1]) {
                Some(t) => Ok(EventsTokenV::Video(t, s[2], 0, 0)),
                None => Err(ParseErrorKind::MalformedField),
            }
        } else if s.len() < 5 {
            Err(ParseErrorKind::MissingRequiredField)
        } else {
            match (spec_parse_i32(s[1]), spec_parse_i32(s[3]), spec_parse_i32(s[4])) {
                (Some(t), Some(x), Some(y)) => Ok(EventsTokenV::Video(t, s[2], x, y)),
                _ => Err(ParseErrorKind::MalformedField),
            }
        }
    } else if s[0] == "2"@ || s[0] == "Break"@ {
        if s.len() < 3 {
            Err(ParseErrorKind::MissingRequiredField)
        } else {
            match (spec_parse_i32(s[1]), spec_parse_i32(s[2])) {
                (Some(a), Some(b)) => Ok(EventsTokenV::Break(a, b)),
                _ => Err(ParseErrorKind::MalformedField),
            }
        }
    } else {
        if s.len() < 3 {
            Err(ParseErrorKind::MissingRequiredField)
        } else {
            match spec_parse_i32(s[1]) {
                Some(t) => Ok(EventsTokenV::Event(s[0], t, s[2])),
                None => Err(ParseErrorKind::MalformedField),
            }
        }
    }
}

impl EventsToken {
    /// Reads a typed events token from the comma tokens of one line.
    pub fn parse(s: &[&str]) -> (res: Result<EventsToken, ParseErrorKind>)
        ensures
            view_result(res) == spec_parse_events_token(s.deep_view()),
    {
        let ghost sv = s.deep_view();
        if s.len() < 1 {
            return Err(ParseErrorKind::MissingRequiredField);
        }
        assert(sv[0] == s[0]@);
        if str_eq(s[0], "0") {
            if s.len() < 3 {
                return Err(ParseErrorKind::MissingRequiredField);
            }
            assert(sv[1] == s[1]@ && sv[2] == s[2]@);
            if str_eq(s[1], "0") {
                if s.len() == 3 {
                    return Ok(EventsToken::Background(s[2].to_owned(), 0, 0));
                }
                if s.len() < 5 {
                    return Err(ParseErrorKind::MissingRequiredField);
                }
                assert(sv[3] == s[3]@ && sv[4] == s[4]@);
                match (parse_i32_str(s[3]), parse_i32_str(s[4])) {
                    (Some(x), Some(y)) => Ok(EventsToken::Background(s[2].to_owned(), x, y)),
                    _ => Err(ParseErrorKind::MalformedField),
                }
            } else {
                if s.len() < 4 {
                    return Err(ParseErrorKind::MissingRequiredField);
                }
                assert(sv[3] == s[3]@);
                match parse_i32_str(s[2]) {
                    Some(t) => Ok(EventsToken::Event(s[1].to_owned(), t, s[3].to_owned())),
                    None => Err(ParseErrorKind::MalformedField),
                }
            }
        } else if str_eq(s[0], "1") || str_eq(s[0], "Video") {
            if s.len() < 3 {
                return Err(ParseErrorKind::MissingRequiredField);
            }
            assert(sv[1] == s[1]@ && sv[2] == s[2]@);
            if s.len() == 3 {
                match parse_i32_str(s[1]) {
                    Some(t) => Ok(EventsToken::Video(t, s[2].to_owned(), 0, 0)),
                    None => Err(ParseErrorKind::MalformedField),
                }
            } else {
                if s.len() < 5 {
                    return Err(ParseErrorKind::MissingRequiredField);
                }
                assert(sv[3] == s[3]@ && sv[4] == s[4]@);
                match (parse_i32_str(s[1]), parse_i32_str(s[3]), parse_i32_str(s[4])) {
                    (Some(t), Some(x), Some(y)) => Ok(EventsToken::Video(t, s[2].to_owned(), x, y)),
                    _ => Err(ParseErrorKind::MalformedField),
                }
            }
        } else if str_eq(s[0], "2") || str_eq(s[0], "Break") {
            if s.len() < 3 {
                return Err(ParseErrorKind::MissingRequiredField);
            }
            assert(sv[1] == s[1]@ && sv[2] == s[2]@);
            match (parse_i32_str(s[1]), parse_i32_str(s[2])) {
                (Some(a), Some(b)) => Ok(EventsToken::Break(a, b)),
                _ => Err(ParseErrorKind::MalformedField),
            }
        } else {
            if s.len() < 3 {
                return Err(ParseErrorKind::MissingRequiredField);
            }
            assert(sv[1] == s[1]@ && sv[2] == s[2]@);
            match parse_i32_str(s[1]) {
                Some(t) => Ok(EventsToken::Event(s[0].to_owned(), t, s[2].to_owned())),
                None => Err(ParseErrorKind::MalformedField),
            }
        }
    }
}

} // verus!
