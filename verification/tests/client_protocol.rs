use mdbook_diagrams::classify::DiagramKind;
use mdbook_diagrams::client::{build_request_json, resolve_response_format, ResponseError};
use mdbook_diagrams::config::OutputFormat;

#[test]
fn request_json_plain() {
    let body = build_request_json("A->B: hi", &DiagramKind::Mermaid, &OutputFormat::Svg, "html");
    assert_eq!(
        body,
        "{\"diagram_source\":\"A->B: hi\",\"diagram_type\":\"mermaid\",\
         \"output_format\":\"svg\",\"diagram_options\":{}}"
    );
}

#[test]
fn request_json_disables_html_labels_for_other_renderers() {
    let body = build_request_json("A->B: hi", &DiagramKind::Mermaid, &OutputFormat::Svg, "pandoc");
    assert_eq!(
        body,
        "{\"diagram_source\":\"A->B: hi\",\"diagram_type\":\"mermaid\",\
         \"output_format\":\"svg\",\"diagram_options\":{\"html-labels\":\"false\"}}"
    );
}

#[test]
fn request_json_keeps_labels_for_non_mermaid() {
    let body = build_request_json("a->b", &DiagramKind::PlantUml, &OutputFormat::Png, "pandoc");
    assert_eq!(
        body,
        "{\"diagram_source\":\"a->b\",\"diagram_type\":\"plantuml\",\
         \"output_format\":\"png\",\"diagram_options\":{}}"
    );
}

#[test]
fn request_json_escapes_source() {
    let body = build_request_json("say \"hi\"\nback\\slash", &DiagramKind::Mermaid, &OutputFormat::Png, "html");
    assert_eq!(
        body,
        "{\"diagram_source\":\"say \\\"hi\\\"\\u000aback\\\\slash\",\
         \"diagram_type\":\"mermaid\",\"output_format\":\"png\",\"diagram_options\":{}}"
    );
}

#[test]
fn absent_content_type_assumes_requested_format() {
    assert_eq!(resolve_response_format(None, OutputFormat::Png), Ok(OutputFormat::Png));
    assert_eq!(resolve_response_format(None, OutputFormat::Svg), Ok(OutputFormat::Svg));
}

#[test]
fn declared_formats_resolve() {
    assert_eq!(
        resolve_response_format(Some("image/svg+xml"), OutputFormat::Svg),
        Ok(OutputFormat::Svg)
    );
    assert_eq!(
        resolve_response_format(Some("image/png"), OutputFormat::Png),
        Ok(OutputFormat::Png)
    );
}

#[test]
fn mismatched_response_format_fails() {
    assert_eq!(
        resolve_response_format(Some("image/png"), OutputFormat::Svg),
        Err(ResponseError::FormatMismatch(OutputFormat::Png, OutputFormat::Svg))
    );
    assert_eq!(
        resolve_response_format(Some("image/svg+xml"), OutputFormat::Png),
        Err(ResponseError::FormatMismatch(OutputFormat::Svg, OutputFormat::Png))
    );
}

#[test]
fn unexpected_mime_type_fails() {
    assert_eq!(
        resolve_response_format(Some("text/html"), OutputFormat::Svg),
        Err(ResponseError::UnexpectedMime("text/html".to_string()))
    );
}

#[test]
fn unparseable_mime_type_fails() {
    assert_eq!(
        resolve_response_format(Some("not a mime"), OutputFormat::Png),
        Err(ResponseError::InvalidMime("not a mime".to_string()))
    );
}
