//! The render client's protocol logic: the JSON request sent to the
//! rendering service for an uncached diagram, and the validation of the
//! format the service's response declares.
use vstd::prelude::*;
use vstd::string::*;

use crate::cache::hex_digit;
use crate::classify::{kind_tag, kind_view, DiagramKind, KindView};
use crate::config::{format_tag, str_eq, OutputFormat};

verus! {

/// Relies on `String::push`: appends exactly the one character.
#[verifier::external_body]
fn push_char(s: &mut String, c: char)
    ensures
        final(s)@ == old(s)@.push(c),
{
    s.push(c);
}

/// How one character is written inside a JSON string literal: quote and
/// backslash are escaped, control characters become `\u00..`, everything
/// else stands as it is.
pub open spec fn esc_char(c: char) -> Seq<char> {
    if c == '"' {
        seq!['\\', '"']
    } else if c == '\\' {
        seq!['\\', '\\']
    } else if (c as u32) < 32 {
        seq!['\\', 'u', '0', '0', hex_digit(c as u32 as int / 16), hex_digit(c as u32 as int % 16)]
    } else {
        seq![c]
    }
}

/// A character sequence written as the body of a JSON string literal.
pub open spec fn json_escape(s: Seq<char>) -> Seq<char>
    decreases s.len(),
{
    if s.len() == 0 {
        Seq::empty()
    } else {
        esc_char(s[0]) + json_escape(s.drop_first())
    }
}

proof fn lemma_json_escape_snoc(s: Seq<char>, c: char)
    ensures
        json_escape(s.push(c)) =~= json_escape(s) + esc_char(c),
    decreases s.len(),
{
    if s.len() == 0 {
        assert(s.push(c).drop_first() =~= Seq::<char>::empty());
        assert(s =~= Seq::<char>::empty());
    } else {
        assert(s.push(c).drop_first() =~= s.drop_first().push(c));
        lemma_json_escape_snoc(s.drop_first(), c);
    }
}

/// Appends the JSON-escaped characters of `s` to `out`.
fn append_json_escaped(out: &mut String, s: &str)
    ensures
        final(out)@ == old(out)@ + json_escape(s@),
{
    let n = s.unicode_len();
    let mut i: usize = 0;
    while i < n
        invariant
            i <= n,
            n == s@.len(),
            out@ == old(out)@ + json_escape(s@.take(i as int)),
        decreases n - i,
    {
        let c = s.get_char(i);
        if c == '"' {
            out.append("\\\"");
            proof {
                reveal_strlit("\\\"");
                assert("\\\""@ =~= esc_char(c));
            }
        } else if c == '\\' {
            out.append("\\\\");
            proof {
                reveal_strlit("\\\\");
                assert("\\\\"@ =~= esc_char(c));
            }
        } else if (c as u32) < 32 {
            let v: u32 = c as u32;
            out.append("\\u00");
            out.append(crate::cache::hex_digit_str((v / 16) as u8));
            out.append(crate::cache::hex_digit_str((v % 16) as u8));
            proof {
                reveal_strlit("\\u00");
                assert("\\u00"@ + seq![hex_digit(v as int / 16)] + seq![hex_digit(v as int % 16)]
                    =~= esc_char(c));
            }
        } else {
            push_char(out, c);
            proof {
                assert(out@ =~= old(out)@ + json_escape(s@.take(i as int)) + esc_char(c));
            }
        }
        proof {
            lemma_json_escape_snoc(s@.take(i as int), s@[i as int]);
            assert(s@.take(i as int).push(s@[i as int]) =~= s@.take(i + 1 as int));
            assert(out@ =~= old(out)@ + json_escape(s@.take(i + 1 as int)));
        }
        i = i + 1;
    }
    proof {
        assert(s@.take(n as int) =~= s@);
    }
}

/// The `diagram_options` object of a request: rich-HTML text labels are
/// switched off for Mermaid diagrams whenever the renderer target is not
/// the primary HTML renderer, which cannot be relied on to show embedded
/// HTML inside vector output.
pub open spec fn options_json(kind: KindView, renderer: Seq<char>) -> Seq<char> {
    if !(renderer == "html"@) && kind is Mermaid {
        "{\"html-labels\":\"false\"}"@
    } else {
        "{}"@
    }
}

/// The JSON body posted to the rendering service for one diagram.
pub open spec fn request_json(
    source: Seq<char>,
    kind: KindView,
    f: OutputFormat,
    renderer: Seq<char>,
) -> Seq<char> {
    "{\"diagram_source\":\""@ + json_escape(source) + "\",\"diagram_type\":\""@ + json_escape(
        kind_tag(kind),
    ) + "\",\"output_format\":\""@ + format_tag(f) + "\",\"diagram_options\":"@ + options_json(
        kind,
        renderer,
    ) + "}"@
}

/// Builds the JSON request body for one diagram.
pub fn build_request_json(
    source: &str,
    kind: &DiagramKind,
    format: &OutputFormat,
    renderer: &str,
) -> (r: String)
    ensures
        r@ == request_json(source@, kind_view(*kind), *format, renderer@),
{
    let mut out = String::from_str("{\"diagram_source\":\"");
    append_json_escaped(&mut out, source);
    out.append("\",\"diagram_type\":\"");
    let kind_string = kind.tag_string();
    append_json_escaped(&mut out, kind_string.as_str());
    out.append("\",\"output_format\":\"");
    out.append(format.tag());
    out.append("\",\"diagram_options\":");
    let is_mermaid = match kind {
        DiagramKind::Mermaid => true,
        _ => false,
    };
    if !str_eq(renderer, "html") && is_mermaid {
        out.append("{\"html-labels\":\"false\"}");
    } else {
        out.append("{}");
    }
    out.append("}");
    proof {
        assert(out@ =~= request_json(source@, kind_view(*kind), *format, renderer@));
    }
    out
}

/// Which of the two accepted image types a `Content-Type` header value
/// denotes, if any.
#[derive(Debug, Clone, Copy, PartialEq, Eq, Structural)]
pub enum MimeClass {
    /// Exactly `image/svg+xml`.
    Svg,
    /// Exactly `image/png`.
    Png,
    /// A well-formed MIME type other than the two accepted ones.
    OtherValid,
    /// Not a well-formed MIME type.
    Invalid,
}

/// What the `mime` crate decides of a `Content-Type` header value: a
/// function of the header characters alone.
pub uninterp spec fn mime_class_of(s: Seq<char>) -> MimeClass;

/// Relies on the `mime` crate: `Mime::from_str` accepts exactly the
/// well-formed MIME types, and a parsed value equals `mime::IMAGE_SVG` or
/// `mime::IMAGE_PNG` exactly when the header (case-insensitively, with no
/// extra parameters) denotes that type. Both are functions of the header
/// characters alone.
#[verifier::external_body]
fn classify_mime(s: &str) -> (r: MimeClass)
    ensures
        r == mime_class_of(s@),
{
    match s.parse::<mime::Mime>() {
        Err(_) => MimeClass::Invalid,
        Ok(m) => {
            if m == mime::IMAGE_SVG {
                MimeClass::Svg
            } else if m == mime::IMAGE_PNG {
                MimeClass::Png
            } else {
                MimeClass::OtherValid
            }
        },
    }
}

/// A response of the rendering service the run must fail on.
#[derive(Debug, Clone, PartialEq, Eq)]
pub enum ResponseError {
    /// The declared content type does not parse as a MIME type.
    InvalidMime(String),
    /// The declared content type is well-formed but neither accepted image
    /// type.
    UnexpectedMime(String),
    /// The service answered in the first format while the run requested the
    /// second.
    FormatMismatch(OutputFormat, OutputFormat),
}

/// Resolves the format of a service response from its declared content
/// type. An absent header assumes the requested format; anything but the
/// two accepted image types is an error; a resolved format differing from
/// the requested one is an error, so no unrequested format can reach the
/// cache under the requested format's key.
pub fn resolve_response_format(content_type: Option<&str>, requested: OutputFormat) -> (r: Result<
    OutputFormat,
    ResponseError,
>)
    ensures
        match content_type {
            None => r == Ok::<OutputFormat, ResponseError>(requested),
            Some(s) => match mime_class_of(s@) {
                MimeClass::Invalid => r matches Err(ResponseError::InvalidMime(t)) && t@ == s@,
                MimeClass::OtherValid => r matches Err(ResponseError::UnexpectedMime(t)) && t@
                    == s@,
                MimeClass::Svg => if requested == OutputFormat::Svg {
                    r == Ok::<OutputFormat, ResponseError>(OutputFormat::Svg)
                } else {
                    r == Err::<OutputFormat, ResponseError>(
                        ResponseError::FormatMismatch(OutputFormat::Svg, requested),
                    )
                },
                MimeClass::Png => if requested == OutputFormat::Png {
                    r == Ok::<OutputFormat, ResponseError>(OutputFormat::Png)
                } else {
                    r == Err::<OutputFormat, ResponseError>(
                        ResponseError::FormatMismatch(OutputFormat::Png, requested),
                    )
                },
            },
        },
{
    let resolved = match content_type {
        None => requested,
        Some(s) => match classify_mime(s) {
            MimeClass::Invalid => {
                return Err(ResponseError::InvalidMime(s.to_owned()));
            },
            MimeClass::OtherValid => {
                return Err(ResponseError::UnexpectedMime(s.to_owned()));
            },
            MimeClass::Svg => OutputFormat::Svg,
            MimeClass::Png => OutputFormat::Png,
        },
    };
    if resolved == requested {
        Ok(resolved)
    } else {
        Err(ResponseError::FormatMismatch(resolved, requested))
    }
}

} // verus!
