use vstd::prelude::*;
use vstd::string::*;
use crate::text::{
    dec_int, decimal, find_last, last_index, lemma_last_index_bounds, str_eq, trim_start_all,
    trim_start_repeated,
};

verus! {

/// The kind of an attachment, as the archive names it.
#[derive(Clone, Copy, Debug, PartialEq, Eq, Structural)]
pub enum MediaType {
    Photo,
    Document,
    Webpage,
    Geo,
    Geolive,
    Contact,
    Venue,
}

/// Why a media row could not be read.
#[derive(Clone, Copy, Debug, PartialEq, Eq, Structural)]
pub enum RowError {
    MissingMediaType,
    UnknownMediaType,
    MissingExtra,
}

/// An attachment record of an archived message.
#[derive(Clone, Debug)]
pub struct Media {
    pub id: i64,
    pub media_type: MediaType,
    pub mime_type: Option<String>,
    pub name: Option<String>,
    pub extra: String,
}

/// The archive's name of each kind.
pub open spec fn kind_name(t: MediaType) -> Seq<char> {
    match t {
        MediaType::Photo => "photo"@,
        MediaType::Document => "document"@,
        MediaType::Webpage => "webpage"@,
        MediaType::Geo => "geo"@,
        MediaType::Geolive => "geolive"@,
        MediaType::Contact => "contact"@,
        MediaType::Venue => "venue"@,
    }
}

/// The kind that the archive's name `s` denotes, if any.
pub open spec fn media_type_of(s: Seq<char>) -> Option<MediaType> {
    if s == "photo"@ {
        Some(MediaType::Photo)
    } else if s == "document"@ {
        Some(MediaType::Document)
    } else if s == "webpage"@ {
        Some(MediaType::Webpage)
    } else if s == "geo"@ {
        Some(MediaType::Geo)
    } else if s == "geolive"@ {
        Some(MediaType::Geolive)
    } else if s == "contact"@ {
        Some(MediaType::Contact)
    } else if s == "venue"@ {
        Some(MediaType::Venue)
    } else {
        None
    }
}

/// Kinds whose meaning is not carried by a file and so are named in captions.
pub open spec fn is_described(t: MediaType) -> bool {
    t == MediaType::Geo || t == MediaType::Geolive || t == MediaType::Contact || t
        == MediaType::Venue
}

/// `(<kind>)` for the described kinds, empty otherwise.
pub open spec fn kind_prefix(t: MediaType) -> Seq<char> {
    if is_described(t) {
        "("@ + kind_name(t) + ")"@
    } else {
        Seq::empty()
    }
}

pub open spec fn caption_spec(m: &Media) -> Seq<char> {
    match m.name {
        Some(n) => kind_prefix(m.media_type) + "\n"@ + n@,
        None => kind_prefix(m.media_type),
    }
}

/// A photo's caption is the time stamp alone; other kinds put their caption
/// above it.
pub open spec fn caption_timestamped_spec(m: &Media, stamp: Seq<char>) -> Seq<char> {
    if m.media_type == MediaType::Photo {
        stamp
    } else {
        caption_spec(m) + "\n"@ + stamp
    }
}

/// The glob pattern under which the file of `m` is stored below `dir`.
pub open spec fn find_pattern_spec(m: &Media, dir: Seq<char>) -> Seq<char> {
    dir + "/*/"@ + kind_name(m.media_type) + "-*."@ + dec_int(m.id as int) + ".*"@
}

/// The last component of a `/`-separated path.
pub open spec fn base_name(p: Seq<char>) -> Seq<char> {
    p.subrange(last_index(p, '/') + 1, p.len() as int)
}

/// A file name without its extension: all before the last dot, unless that
/// dot opens the name.
pub open spec fn file_stem(f: Seq<char>) -> Seq<char> {
    if f == ".."@ || last_index(f, '.') <= 0 {
        f
    } else {
        f.subrange(0, last_index(f, '.'))
    }
}

/// The extension of a file name, if it has one.
pub open spec fn file_ext(f: Seq<char>) -> Option<Seq<char>> {
    if f == ".."@ || last_index(f, '.') <= 0 {
        None
    } else {
        Some(f.subrange(last_index(f, '.') + 1, f.len() as int))
    }
}

/// The name presented for a stored file `<kind>-<stem>.<id>.<ext>`:
/// `<stem>.<ext>`. `None` when the path names no file with an extension.
pub open spec fn clean_filename_spec(p: Seq<char>) -> Option<Seq<char>> {
    let f = base_name(p);
    if f.len() == 0 || f == "."@ || f == ".."@ {
        None
    } else {
        match file_ext(f) {
            None => None,
            Some(ext) => {
                let stem = file_stem(file_stem(f));
                let pure = trim_start_all(trim_start_all(stem, "document-"@), "photo-"@);
                Some(pure + "."@ + ext)
            },
        }
    }
}

impl MediaType {
    /// The archive's name of this kind.
    pub fn name(&self) -> (r: &'static str)
        ensures
            r@ == kind_name(*self),
    {
        match self {
            MediaType::Photo => "photo",
            MediaType::Document => "document",
            MediaType::Webpage => "webpage",
            MediaType::Geo => "geo",
            MediaType::Geolive => "geolive",
            MediaType::Contact => "contact",
            MediaType::Venue => "venue",
        }
    }

    /// Whether this kind is sent with its stored file, which must be found
    /// first.
    pub fn needs_file(&self) -> (r: bool)
        ensures
            r == (*self == MediaType::Photo || *self == MediaType::Document),
    {
        match self {
            MediaType::Photo | MediaType::Document => true,
            _ => false,
        }
    }

    /// Reads the archive's name of a kind.
    pub fn parse(s: &str) -> (r: Option<MediaType>)
        ensures
            r == media_type_of(s@),
    {
        if str_eq(s, "photo") {
            Some(MediaType::Photo)
        } else if str_eq(s, "document") {
            Some(MediaType::Document)
        } else if str_eq(s, "webpage") {
            Some(MediaType::Webpage)
        } else if str_eq(s, "geo") {
            Some(MediaType::Geo)
        } else if str_eq(s, "geolive") {
            Some(MediaType::Geolive)
        } else if str_eq(s, "contact") {
            Some(MediaType::Contact)
        } else if str_eq(s, "venue") {
            Some(MediaType::Venue)
        } else {
            None
        }
    }
}

/// Splits a file name at its extension dot, as `file_stem` and `file_ext` do.
fn split_ext(f: &str) -> (r: (&str, Option<&str>))
    ensures
        r.0@ == file_stem(f@),
        match r.1 {
            Some(e) => file_ext(f@) == Some(e@),
            None => file_ext(f@) is None,
        },
{
    proof {
        lemma_last_index_bounds(f@, '.');
    }
    if str_eq(f, "..") {
        return (f, None);
    }
    match find_last(f, '.') {
        Some(i) => {
            if i == 0 {
                (f, None)
            } else {
                let n = f.unicode_len();
                (f.substring_char(0, i), Some(f.substring_char(i + 1, n)))
            }
        },
        None => (f, None),
    }
}

impl Media {
    /// Builds the attachment of a message row. A row without a media id has
    /// no attachment; one with an id must name a known kind and carry `extra`.
    pub fn parse_row(
        id: Option<i64>,
        media_type: Option<String>,
        mime_type: Option<String>,
        name: Option<String>,
        extra: Option<String>,
    ) -> (r: Result<Option<Media>, RowError>)
        ensures
            id is None ==> r == Ok::<Option<Media>, RowError>(None),
            id is Some ==> match media_type {
                None => r == Err::<Option<Media>, RowError>(RowError::MissingMediaType),
                Some(t) => match media_type_of(t@) {
                    None => r == Err::<Option<Media>, RowError>(RowError::UnknownMediaType),
                    Some(k) => match extra {
                        None => r == Err::<Option<Media>, RowError>(RowError::MissingExtra),
                        Some(x) => r matches Ok(Some(m)) && m.id == id->0 && m.media_type == k
                            && m.mime_type == mime_type && m.name == name && m.extra == x,
                    },
                },
            },
    {
        let id = match id {
            None => return Ok(None),
            Some(i) => i,
        };
        let media_type = match media_type {
            None => return Err(RowError::MissingMediaType),
            Some(t) => match MediaType::parse(t.as_str()) {
                None => return Err(RowError::UnknownMediaType),
                Some(k) => k,
            },
        };
        let extra = match extra {
            None => return Err(RowError::MissingExtra),
            Some(x) => x,
        };
        Ok(Some(Media { id, media_type, mime_type, name, extra }))
    }

    /// `(<kind>)` for kinds described in words, followed by the display name
    /// on a line of its own when there is one.
    pub fn caption(&self) -> (r: String)
        ensures
            r@ == caption_spec(self),
    {
        let mut prefix = String::new();
        if is_described_exec(self.media_type) {
            prefix.append("(");
            prefix.append(self.media_type.name());
            prefix.append(")");
        }
        proof {
            assert(prefix@ == kind_prefix(self.media_type));
        }
        match &self.name {
            Some(n) => {
                prefix.append("\n");
                prefix.append(n.as_str());
                prefix
            },
            None => prefix,
        }
    }

    /// The caption with the message's time stamp below it; a photo gets the
    /// time stamp alone.
    pub fn caption_timestamped(&self, stamp: &str) -> (r: String)
        ensures
            r@ == caption_timestamped_spec(self, stamp@),
    {
        match self.media_type {
            MediaType::Photo => String::from_str(stamp),
            _ => {
                let mut c = self.caption();
                c.append("\n");
                c.append(stamp);
                c
            },
        }
    }

    /// The glob pattern of this attachment's stored file below `dir`.
    pub fn find_pattern(&self, dir: &str) -> (r: String)
        ensures
            r@ == find_pattern_spec(self, dir@),
    {
        let mut p = String::from_str(dir);
        p.append("/*/");
        p.append(self.media_type.name());
        p.append("-*.");
        let d = decimal(self.id);
        p.append(d.as_str());
        p.append(".*");
        p
    }

    /// The name under which a stored file is presented: the kind marker and
    /// the embedded id are dropped, `<kind>-<stem>.<id>.<ext>` gives
    /// `<stem>.<ext>`.
    pub fn clean_filename(path: &str) -> (r: Option<String>)
        ensures
            match r {
                Some(s) => clean_filename_spec(path@) == Some(s@),
                None => clean_filename_spec(path@) is None,
            },
    {
        let n = path.unicode_len();
        proof {
            lemma_last_index_bounds(path@, '/');
        }
        let start = match find_last(path, '/') {
            Some(i) => i + 1,
            None => 0,
        };
        let f = path.substring_char(start, n);
        if f.unicode_len() == 0 || str_eq(f, ".") || str_eq(f, "..") {
            return None;
        }
        let (stem_and_id, ext) = split_ext(f);
        match ext {
            None => None,
            Some(ext) => {
                let (stem, _) = split_ext(stem_and_id);
                proof {
                    reveal_strlit("document-");
                    reveal_strlit("photo-");
                }
                let a = trim_start_repeated(stem, "document-");
                let b = trim_start_repeated(a, "photo-");
                let mut s = String::from_str(b);
                s.append(".");
                s.append(ext);
                Some(s)
            },
        }
    }
}

fn is_described_exec(t: MediaType) -> (r: bool)
    ensures
        r == is_described(t),
{
    match t {
        MediaType::Geo | MediaType::Geolive | MediaType::Contact | MediaType::Venue => true,
        _ => false,
    }
}

} // verus!
