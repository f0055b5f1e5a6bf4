//! Artifact locations: what the rebuild pipeline reads from a URL.

use vstd::prelude::*;

verus! {

/// The error type of the `url` crate's parser.
#[verifier::external_type_specification]
#[verifier::external_body]
pub struct ExParseError(url::ParseError);

/// What the pipeline reads from a parsed URL.
pub struct ParsedUrl {
    /// The URL as the parser writes it back.
    pub text: String,
    /// The segments of the path; `None` for a URL that has no path of
    /// segments, such as `data:` or `mailto:`.
    pub segments: Option<Vec<String>>,
}

/// The mathematical value of a [`ParsedUrl`].
pub struct ParsedUrlView {
    pub text: Seq<char>,
    pub segments: Option<Seq<Seq<char>>>,
}

/// The views of a list of texts.
pub open spec fn texts(v: Seq<String>) -> Seq<Seq<char>> {
    Seq::new(v.len(), |i: int| v[i]@)
}

impl View for ParsedUrl {
    type V = ParsedUrlView;

    open spec fn view(&self) -> ParsedUrlView {
        ParsedUrlView {
            text: self.text@,
            segments: match self.segments {
                Some(v) => Some(texts(v@)),
                None => None,
            },
        }
    }
}

/// What the `url` crate's parser makes of `input`: the parsed URL, or
/// `None` where it refuses the input.
pub uninterp spec fn url_parse(input: Seq<char>) -> Option<ParsedUrlView>;

/// Parses `input` with `url::Url::parse` and copies out the URL's text
/// (its serialization) and its path segments (`Url::path_segments`).
/// Trusted: the result is the parser's, which depends on `input` alone.
#[verifier::external_body]
fn parse_url(input: &str) -> (r: Result<ParsedUrl, url::ParseError>)
    ensures
        match r {
            Ok(parsed) => url_parse(input@) == Some(parsed@),
            Err(_) => url_parse(input@) is None,
        },
{
    match url::Url::parse(input) {
        Ok(parsed) => Ok(
            ParsedUrl {
                segments: parsed.path_segments().map(|parts| parts.map(String::from).collect()),
                text: String::from(parsed),
            },
        ),
        Err(e) => Err(e),
    }
}

/// Why an artifact location cannot be used.
#[derive(Debug, Clone, Copy, PartialEq, Eq, Structural)]
pub enum UrlError {
    /// The text is not a URL.
    Invalid,
    /// The URL has no path segments.
    NoPath,
    /// The path has segments, but none to take as the filename.
    NoFilename,
    /// The last path segment is empty.
    EmptyFilename,
}

/// An artifact to fetch: its URL and the name of the file it is kept in.
pub struct Artifact {
    pub url: String,
    pub filename: String,
}

/// The filename that a parsed URL gives, or why it gives none: the last
/// segment of its path, which must exist and hold at least one character.
pub open spec fn filename_of(parsed: ParsedUrlView) -> Result<Seq<char>, UrlError> {
    match parsed.segments {
        None => Err(UrlError::NoPath),
        Some(segments) => if segments.len() == 0 {
            Err(UrlError::NoFilename)
        } else if segments.last().len() == 0 {
            Err(UrlError::EmptyFilename)
        } else {
            Ok(segments.last())
        },
    }
}

/// The artifact that a raw location stands for, given what the parser made
/// of it.
pub open spec fn artifact_of(parsed: Option<ParsedUrlView>) -> Result<(Seq<char>, Seq<char>), UrlError> {
    match parsed {
        None => Err(UrlError::Invalid),
        Some(p) => match filename_of(p) {
            Ok(name) => Ok((p.text, name)),
            Err(e) => Err(e),
        },
    }
}

/// The value of a located artifact or its error.
pub open spec fn located(r: Result<Artifact, UrlError>) -> Result<(Seq<char>, Seq<char>), UrlError> {
    match r {
        Ok(a) => Ok((a.url@, a.filename@)),
        Err(e) => Err(e),
    }
}

/// The value of a filename or its error.
pub open spec fn named(r: Result<String, UrlError>) -> Result<Seq<char>, UrlError> {
    match r {
        Ok(s) => Ok(s@),
        Err(e) => Err(e),
    }
}

/// Takes the filename from a parsed URL: its last path segment.
pub fn artifact_filename(parsed: &ParsedUrl) -> (r: Result<String, UrlError>)
    ensures
        named(r) == filename_of(parsed@),
{
    match &parsed.segments {
        None => Err(UrlError::NoPath),
        Some(segments) => {
            let n: usize = segments.len();
            if n == 0 {
                return Err(UrlError::NoFilename);
            }
            let last = &segments[n - 1];
            assert(texts(segments@).last() == last@);
            if last.as_str().is_empty() {
                Err(UrlError::EmptyFilename)
            } else {
                Ok(last.clone())
            }
        },
    }
}

/// Reads an artifact location: parses it and takes the filename from its
/// path. No network or file is touched.
pub fn locate_artifact(url: &str) -> (r: Result<Artifact, UrlError>)
    ensures
        located(r) == artifact_of(url_parse(url@)),
{
    match parse_url(url) {
        Err(_) => Err(UrlError::Invalid),
        Ok(parsed) => match artifact_filename(&parsed) {
            Ok(filename) => Ok(Artifact { url: parsed.text, filename }),
            Err(e) => Err(e),
        },
    }
}

} // verus!
