//! Run-wide configuration: the requested output format and the knobs that
//! drive the cache and the rendering service client.
use vstd::prelude::*;
use vstd::string::*;

verus! {

/// The image format a diagram is rendered to. Global for a run.
#[derive(Debug, Clone, Copy, PartialEq, Eq, Structural)]
pub enum OutputFormat {
    Png,
    Svg,
}

/// The short tag of a format: what the cache key and the service request use.
pub open spec fn format_tag(f: OutputFormat) -> Seq<char> {
    match f {
        OutputFormat::Png => "png"@,
        OutputFormat::Svg => "svg"@,
    }
}

/// The MIME type the rendering service declares for a format.
pub open spec fn format_mime(f: OutputFormat) -> Seq<char> {
    match f {
        OutputFormat::Png => "image/png"@,
        OutputFormat::Svg => "image/svg+xml"@,
    }
}

impl OutputFormat {
    /// The tag, also used as the cache file extension.
    pub fn tag(&self) -> (r: &'static str)
        ensures
            r@ == format_tag(*self),
    {
        match self {
            OutputFormat::Png => "png",
            OutputFormat::Svg => "svg",
        }
    }

    /// The MIME type string for this format.
    pub fn mime_tag(&self) -> (r: &'static str)
        ensures
            r@ == format_mime(*self),
    {
        match self {
            OutputFormat::Png => "image/png",
            OutputFormat::Svg => "image/svg+xml",
        }
    }
}

/// A configuration the run cannot start with.
#[derive(Debug, Clone, PartialEq, Eq)]
pub enum ConfigError {
    /// The configured output format string is neither of the two known tags.
    InvalidOutputFormat(String),
}

/// Settings threaded through every component of the pipeline.
#[derive(Debug, Clone)]
pub struct Config {
    pub output_format: OutputFormat,
    pub language_prefix: String,
    pub kroki_url: String,
    pub kroki_timeout_ms: Option<u64>,
    pub filename_prefix: String,
    pub files_path: String,
}

/// Which formats a configured string denotes.
pub open spec fn parsed_format(s: Seq<char>) -> Option<OutputFormat> {
    if s == "png"@ {
        Some(OutputFormat::Png)
    } else if s == "svg"@ {
        Some(OutputFormat::Svg)
    } else {
        None
    }
}

/// Whether two strings hold the same characters.
pub fn str_eq(a: &str, b: &str) -> (r: bool)
    ensures
        r == (a@ == b@),
{
    let a2: String = a.to_owned();
    let b2: String = b.to_owned();
    a2 == b2
}

/// Parses a configured output format tag; rejects anything but the two
/// known formats.
pub fn parse_output_format(s: &str) -> (r: Result<OutputFormat, ConfigError>)
    ensures
        match r {
            Ok(f) => parsed_format(s@) == Some(f),
            Err(e) => parsed_format(s@) is None && (e matches ConfigError::InvalidOutputFormat(t)
                && t@ == s@),
        },
{
    if str_eq(s, "png") {
        Ok(OutputFormat::Png)
    } else if str_eq(s, "svg") {
        Ok(OutputFormat::Svg)
    } else {
        Err(ConfigError::InvalidOutputFormat(s.to_owned()))
    }
}

impl Config {
    /// Builds the run configuration from the optional raw settings, applying
    /// the documented default for each absent one. Fails before any document
    /// is touched when the output format string is invalid. An empty
    /// `files_path` setting counts as absent.
    pub fn from_settings(
        output_format: Option<&String>,
        language_prefix: Option<String>,
        kroki_url: Option<String>,
        kroki_timeout_ms: Option<u64>,
        filename_prefix: Option<String>,
        files_path: Option<String>,
        default_files_path: String,
    ) -> (r: Result<Config, ConfigError>)
        ensures
            match r {
                Ok(c) => {
                    &&& match output_format {
                        Some(s) => parsed_format(s@) == Some(c.output_format),
                        None => c.output_format == OutputFormat::Png,
                    }
                    &&& match language_prefix {
                        Some(s) => c.language_prefix@ == s@,
                        None => c.language_prefix@ == ""@,
                    }
                    &&& match kroki_url {
                        Some(s) => c.kroki_url@ == s@,
                        None => c.kroki_url@ == "https://kroki.io"@,
                    }
                    &&& c.kroki_timeout_ms == kroki_timeout_ms
                    &&& match filename_prefix {
                        Some(s) => c.filename_prefix@ == s@,
                        None => c.filename_prefix@ == "diagram-"@,
                    }
                    &&& match files_path {
                        Some(s) => if s@.len() > 0 {
                            c.files_path@ == s@
                        } else {
                            c.files_path@ == default_files_path@
                        },
                        None => c.files_path@ == default_files_path@,
                    }
                },
                Err(e) => {
                    &&& output_format matches Some(s) && parsed_format(s@) is None
                    &&& e matches ConfigError::InvalidOutputFormat(t) && t@ == output_format
                        .unwrap()@
                },
            },
    {
        let format = match output_format {
            Some(s) => match parse_output_format(s.as_str()) {
                Ok(f) => f,
                Err(e) => {
                    return Err(e);
                },
            },
            None => OutputFormat::Png,
        };
        let language_prefix = match language_prefix {
            Some(s) => s,
            None => String::from_str(""),
        };
        let kroki_url = match kroki_url {
            Some(s) => s,
            None => String::from_str("https://kroki.io"),
        };
        let filename_prefix = match filename_prefix {
            Some(s) => s,
            None => String::from_str("diagram-"),
        };
        let files_path = match files_path {
            Some(s) => if s.as_str().unicode_len() > 0 {
                s
            } else {
                default_files_path
            },
            None => default_files_path,
        };
        Ok(Config {
            output_format: format,
            language_prefix,
            kroki_url,
            kroki_timeout_ms,
            filename_prefix,
            files_path,
        })
    }
}

} // verus!
