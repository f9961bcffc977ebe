//! The `[Metadata]` section: `Key:Value` lines naming the map's titles,
//! artists, creator, difficulty name, source, tags and online identifiers.

use crate::error::ParseErrorKind;
use crate::numeric::parse_i32_str;
use crate::numeric::render_i32;
use crate::numeric::spec_parse_i32;
use crate::numeric::spec_render_i32;
use crate::text::find_char;
use crate::text::lemma_find_char;
use crate::text::spec_find_char;
use crate::text::spec_trim;
use crate::text::str_eq;
use crate::text::trim_str;
use vstd::prelude::*;

verus! {

/// The metadata record; every field is absent until a line or a setter
/// fills it.
#[derive(Clone, Debug, PartialEq, Eq, Default)]
pub struct Metadata {
    pub title: Option<String>,
    pub title_unicode: Option<String>,
    pub artist: Option<String>,
    pub artist_unicode: Option<String>,
    pub creator: Option<String>,
    pub version: Option<String>,
    pub source: Option<String>,
    pub tags: Option<String>,
    pub beatmap_id: Option<i32>,
    pub beatmap_set_id: Option<i32>,
}

pub ghost struct MetadataV {
    pub title: Option<Seq<char>>,
    pub title_unicode: Option<Seq<char>>,
    pub artist: Option<Seq<char>>,
    pub artist_unicode: Option<Seq<char>>,
    pub creator: Option<Seq<char>>,
    pub version: Option<Seq<char>>,
    pub source: Option<Seq<char>>,
    pub tags: Option<Seq<char>>,
    pub beatmap_id: Option<i32>,
    pub beatmap_set_id: Option<i32>,
}

pub open spec fn view_opt_string(s: Option<String>) -> Option<Seq<char>> {
    match s {
        Some(x) => Some(x@),
        None => None,
    }
}

impl View for Metadata {
    type V = MetadataV;

    open spec fn view(&self) -> MetadataV {
        MetadataV {
            title: view_opt_string(self.title),
            title_unicode: view_opt_string(self.title_unicode),
            artist: view_opt_string(self.artist),
            artist_unicode: view_opt_string(self.artist_unicode),
            creator: view_opt_string(self.creator),
            version: view_opt_string(self.version),
            source: view_opt_string(self.source),
            tags: view_opt_string(self.tags),
            beatmap_id: self.beatmap_id,
            beatmap_set_id: self.beatmap_set_id,
        }
    }
}

/// An empty metadata record.
pub open spec fn spec_metadata_empty() -> MetadataV {
    MetadataV {
        title: None,
        title_unicode: None,
        artist: None,
        artist_unicode: None,
        creator: None,
        version: None,
        source: None,
        tags: None,
        beatmap_id: None,
        beatmap_set_id: None,
    }
}

/// The key-value grammar of a metadata line: key and value around the
/// first colon, both trimmed; known keys set their field, unknown keys are
/// ignored, and a malformed integer value is a hard failure.
pub open spec fn spec_metadata_apply(m: MetadataV, line: Seq<char>) -> Result<
    MetadataV,
    ParseErrorKind,
> {
    match spec_find_char(line, ':') {
        None => Err(ParseErrorKind::MissingRequiredField),
        Some(i) => {
            let key = spec_trim(line.take(i));
            let val = spec_trim(line.skip(i + 1));
            if key == "Title"@ {
                Ok(MetadataV { title: Some(val), ..m })
            } else if key == "TitleUnicode"@ {
                Ok(MetadataV { title_unicode: Some(val), ..m })
            } else if key == "Artist"@ {
                Ok(MetadataV { artist: Some(val), ..m })
            } else if key == "ArtistUnicode"@ {
                Ok(MetadataV { artist_unicode: Some(val), ..m })
            } else if key == "Creator"@ {
                Ok(MetadataV { creator: Some(val), ..m })
            } else if key == "Version"@ {
                Ok(MetadataV { version: Some(val), ..m })
            } else if key == "Source"@ {
                Ok(MetadataV { source: Some(val), ..m })
            } else if key == "Tags"@ {
                Ok(MetadataV { tags: Some(val), ..m })
            } else if key == "BeatmapID"@ {
                match spec_parse_i32(val) {
                    Some(v) => Ok(MetadataV { beatmap_id: Some(v), ..m }),
                    None => Err(ParseErrorKind::MalformedField),
                }
            } else if key == "BeatmapSetID"@ {
                match spec_parse_i32(val) {
                    Some(v) => Ok(MetadataV { beatmap_set_id: Some(v), ..m }),
                    None => Err(ParseErrorKind::MalformedField),
                }
            } else {
                Ok(m)
            }
        },
    }
}

impl Metadata {
    /// Reads one `Key:Value` line into the record; unknown keys leave it
    /// unchanged.
    pub fn parse_value(&mut self, value: &str) -> (res: Result<(), ParseErrorKind>)
        ensures
            match spec_metadata_apply(old(self)@, value@) {
                Ok(m) => res is Ok && final(self)@ == m,
                Err(e) => res == Err::<(), ParseErrorKind>(e) && final(self)@ == old(self)@,
            },
    {
        let n = value.unicode_len();
        let iopt = find_char(value, ':');
        proof {
            lemma_find_char(value@, ':');
        }
        let i = match iopt {
            None => {
                return Err(ParseErrorKind::MissingRequiredField);
            },
            Some(i) => i,
        };
        let key = trim_str(value.substring_char(0, i));
        let val = trim_str(value.substring_char(i + 1, n));
        assert(key@ == spec_trim(value@.take(i as int)));
        assert(val@ == spec_trim(value@.skip(i + 1)));
        if str_eq(key, "Title") {
            self.title = Some(val.to_owned());
        } else if str_eq(key, "TitleUnicode") {
            self.title_unicode = Some(val.to_owned());
        } else if str_eq(key, "Artist") {
            self.artist = Some(val.to_owned());
        } else if str_eq(key, "ArtistUnicode") {
            self.artist_unicode = Some(val.to_owned());
        } else if str_eq(key, "Creator") {
            self.creator = Some(val.to_owned());
        } else if str_eq(key, "Version") {
            self.version = Some(val.to_owned());
        } else if str_eq(key, "Source") {
            self.source = Some(val.to_owned());
        } else if str_eq(key, "Tags") {
            self.tags = Some(val.to_owned());
        } else if str_eq(key, "BeatmapID") {
            match parse_i32_str(val) {
                Some(v) => {
                    self.beatmap_id = Some(v);
                },
                None => {
                    return Err(ParseErrorKind::MalformedField);
                },
            }
        } else if str_eq(key, "BeatmapSetID") {
            match parse_i32_str(val) {
                Some(v) => {
                    self.beatmap_set_id = Some(v);
                },
                None => {
                    return Err(ParseErrorKind::MalformedField);
                },
            }
        }
        Ok(())
    }

    pub fn change_name(&mut self, name: &str)
        ensures
            final(self)@ == (MetadataV { title: Some(name@), ..old(self)@ }),
    {
        self.title = Some(name.to_owned());
    }

    pub fn change_unicode_name(&mut self, name: &str)
        ensures
            final(self)@ == (MetadataV { title_unicode: Some(name@), ..old(self)@ }),
    {
        self.title_unicode = Some(name.to_owned());
    }

    pub fn change_artist(&mut self, artist: &str)
        ensures
            final(self)@ == (MetadataV { artist: Some(artist@), ..old(self)@ }),
    {
        self.artist = Some(artist.to_owned());
    }

    pub fn change_unicode_artist(&mut self, artist: &str)
        ensures
            final(self)@ == (MetadataV { artist_unicode: Some(artist@), ..old(self)@ }),
    {
        self.artist_unicode = Some(artist.to_owned());
    }

    pub fn change_creator(&mut self, creator: &str)
        ensures
            final(self)@ == (MetadataV { creator: Some(creator@), ..old(self)@ }),
    {
        self.creator = Some(creator.to_owned());
    }

    pub fn change_version(&mut self, version: &str)
        ensures
            final(self)@ == (MetadataV { version: Some(version@), ..old(self)@ }),
    {
        self.version = Some(version.to_owned());
    }

    pub fn change_source(&mut self, source: &str)
        ensures
            final(self)@ == (MetadataV { source: Some(source@), ..old(self)@ }),
    {
        self.source = Some(source.to_owned());
    }

    pub fn change_tags(&mut self, tags: &str)
        ensures
            final(self)@ == (MetadataV { tags: Some(tags@), ..old(self)@ }),
    {
        self.tags = Some(tags.to_owned());
    }

    pub fn change_beatmap_id(&mut self, id: i32)
        ensures
            final(self)@ == (MetadataV { beatmap_id: Some(id), ..old(self)@ }),
    {
        self.beatmap_id = Some(id);
    }

    pub fn change_beatmap_set_id(&mut self, id: i32)
        ensures
            final(self)@ == (MetadataV { beatmap_set_id: Some(id), ..old(self)@ }),
    {
        self.beatmap_set_id = Some(id);
    }

    /// Appends the `[Metadata]` section text (each set field as one line).
    /// Appends the `[Metadata]` section text (each set field as one line).
    pub fn render(&self, out: &mut String)
        ensures
            final(out)@ == old(out)@ + spec_render_metadata(self@),
    {
        out.append("[Metadata]\n");
        let ghost mut acc = "[Metadata]\n"@;
        assert(out@ =~= old(out)@ + acc);
        crate::kv::kv_line_str("Title:", &self.title, out);
        proof {
            assert(out@ =~= old(out)@ + (acc + crate::kv::spec_kv_seg("Title:"@, self@.title)));
            acc = acc + crate::kv::spec_kv_seg("Title:"@, self@.title);
        }
        crate::kv::kv_line_str("TitleUnicode:", &self.title_unicode, out);
        proof {
            assert(out@ =~= old(out)@ + (acc + crate::kv::spec_kv_seg("TitleUnicode:"@, self@.title_unicode)));
            acc = acc + crate::kv::spec_kv_seg("TitleUnicode:"@, self@.title_unicode);
        }
        crate::kv::kv_line_str("Artist:", &self.artist, out);
        proof {
            assert(out@ =~= old(out)@ + (acc + crate::kv::spec_kv_seg("Artist:"@, self@.artist)));
            acc = acc + crate::kv::spec_kv_seg("Artist:"@, self@.artist);
        }
        crate::kv::kv_line_str("ArtistUnicode:", &self.artist_unicode, out);
        proof {
            assert(out@ =~= old(out)@ + (acc + crate::kv::spec_kv_seg("ArtistUnicode:"@, self@.artist_unicode)));
            acc = acc + crate::kv::spec_kv_seg("ArtistUnicode:"@, self@.artist_unicode);
        }
        crate::kv::kv_line_str("Creator:", &self.creator, out);
        proof {
            assert(out@ =~= old(out)@ + (acc + crate::kv::spec_kv_seg("Creator:"@, self@.creator)));
            acc = acc + crate::kv::spec_kv_seg("Creator:"@, self@.creator);
        }
        crate::kv::kv_line_str("Version:", &self.version, out);
        proof {
            assert(out@ =~= old(out)@ + (acc + crate::kv::spec_kv_seg("Version:"@, self@.version)));
            acc = acc + crate::kv::spec_kv_seg("Version:"@, self@.version);
        }
        crate::kv::kv_line_str("Source:", &self.source, out);
        proof {
            assert(out@ =~= old(out)@ + (acc + crate::kv::spec_kv_seg("Source:"@, self@.source)));
            acc = acc + crate::kv::spec_kv_seg("Source:"@, self@.source);
        }
        crate::kv::kv_line_str("Tags:", &self.tags, out);
        proof {
            assert(out@ =~= old(out)@ + (acc + crate::kv::spec_kv_seg("Tags:"@, self@.tags)));
            acc = acc + crate::kv::spec_kv_seg("Tags:"@, self@.tags);
        }
        crate::kv::kv_line_i32("BeatmapID:", &self.beatmap_id, out);
        proof {
            assert(out@ =~= old(out)@ + (acc + crate::kv::spec_kv_seg_i32("BeatmapID:"@, self@.beatmap_id)));
            acc = acc + crate::kv::spec_kv_seg_i32("BeatmapID:"@, self@.beatmap_id);
        }
        crate::kv::kv_line_i32("BeatmapSetID:", &self.beatmap_set_id, out);
        proof {
            assert(out@ =~= old(out)@ + (acc + crate::kv::spec_kv_seg_i32("BeatmapSetID:"@, self@.beatmap_set_id)));
            acc = acc + crate::kv::spec_kv_seg_i32("BeatmapSetID:"@, self@.beatmap_set_id);
        }
        proof {
            assert(acc =~= spec_render_metadata(self@));
        }
    }
}

/// The `[Metadata]` section text.
pub open spec fn spec_render_metadata(m: MetadataV) -> Seq<char> {
    "[Metadata]\n"@ + crate::kv::spec_kv_seg("Title:"@, m.title) + crate::kv::spec_kv_seg("TitleUnicode:"@, m.title_unicode)
        + crate::kv::spec_kv_seg("Artist:"@, m.artist) + crate::kv::spec_kv_seg("ArtistUnicode:"@, m.artist_unicode)
        + crate::kv::spec_kv_seg("Creator:"@, m.creator) + crate::kv::spec_kv_seg("Version:"@, m.version) + crate::kv::spec_kv_seg(
        "Source:"@,
        m.source,
    ) + crate::kv::spec_kv_seg("Tags:"@, m.tags) + crate::kv::spec_kv_seg_i32("BeatmapID:"@, m.beatmap_id)
        + crate::kv::spec_kv_seg_i32("BeatmapSetID:"@, m.beatmap_set_id)
}

} // verus!
