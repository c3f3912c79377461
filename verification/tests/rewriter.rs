use mdbook_diagrams::cache::get_tmp_filepath;
use mdbook_diagrams::classify::DiagramKind;
use mdbook_diagrams::config::{Config, OutputFormat};
use mdbook_diagrams::rewrite::{
    find_diagrams, rewrite_events, synthesize, MdEvent, OutEvent, RewriteError,
};

fn config(format: OutputFormat, prefix: &str) -> Config {
    Config {
        output_format: format,
        language_prefix: prefix.to_string(),
        kroki_url: "https://kroki.io".to_string(),
        kroki_timeout_ms: None,
        filename_prefix: "diagram-".to_string(),
        files_path: "/tmp".to_string(),
    }
}

fn sample_unit() -> Vec<MdEvent> {
    vec![
        MdEvent::Other,
        MdEvent::Text("# Chapter 1".to_string()),
        MdEvent::CodeStart("mermaid".to_string()),
        MdEvent::Text("sequenceDiagram\n".to_string()),
        MdEvent::Text("    Alice ->> Bob: Hello Bob, how are you?\n".to_string()),
        MdEvent::CodeEnd,
        MdEvent::Other,
    ]
}

#[test]
fn finds_buffered_diagram_blocks() {
    let ds = find_diagrams(&sample_unit(), "");
    assert_eq!(ds.len(), 1);
    assert_eq!(
        ds[0].source,
        "sequenceDiagram\n    Alice ->> Bob: Hello Bob, how are you?\n"
    );
    assert_eq!(ds[0].kind, DiagramKind::Mermaid);
}

#[test]
fn ordinary_code_blocks_are_not_diagrams() {
    let events = vec![
        MdEvent::CodeStart("rust".to_string()),
        MdEvent::Text("fn main() {}".to_string()),
        MdEvent::CodeEnd,
    ];
    assert_eq!(find_diagrams(&events, "").len(), 0);
}

#[test]
fn unit_without_diagrams_passes_through_unchanged() {
    let events = vec![
        MdEvent::Other,
        MdEvent::Text("hello".to_string()),
        MdEvent::CodeStart("rust".to_string()),
        MdEvent::Text("fn main() {}".to_string()),
        MdEvent::CodeEnd,
        MdEvent::Other,
    ];
    let c = config(OutputFormat::Svg, "");
    let out = rewrite_events(&events, &Vec::new(), &c, "html").unwrap();
    let expected: Vec<OutEvent> = (0..events.len()).map(OutEvent::Keep).collect();
    assert_eq!(out, expected);
}

#[test]
fn svg_for_html_renderer_is_embedded_inline() {
    let events = sample_unit();
    let c = config(OutputFormat::Svg, "");
    let svg_bytes = b"<svg xmlns=\"http://www.w3.org/2000/svg\"><text>hi</text></svg>".to_vec();
    let out = rewrite_events(&events, &vec![svg_bytes], &c, "html").unwrap();
    assert_eq!(out.len(), 4);
    assert_eq!(out[0], OutEvent::Keep(0));
    assert_eq!(out[1], OutEvent::Keep(1));
    assert_eq!(out[3], OutEvent::Keep(6));
    match &out[2] {
        OutEvent::Html(html) => {
            assert!(html.contains("<svg"), "expected inline SVG in {html}");
            assert!(html.starts_with("<figure"));
            assert!(html.ends_with("</figure>\n\n"));
        }
        other => panic!("expected an inline embed, got {other:?}"),
    }
}

#[test]
fn svg_embed_strips_leading_xml_declaration() {
    let events = sample_unit();
    let c = config(OutputFormat::Svg, "");
    let svg_bytes =
        b"<?xml version=\"1.0\" encoding=\"UTF-8\" standalone=\"no\"?><svg></svg>".to_vec();
    let out = rewrite_events(&events, &vec![svg_bytes], &c, "html").unwrap();
    match &out[2] {
        OutEvent::Html(html) => {
            assert!(!html.contains("<?xml"), "declaration not stripped: {html}");
            assert!(html.contains("<svg"));
        }
        other => panic!("expected an inline embed, got {other:?}"),
    }
}

#[test]
fn png_for_html_renderer_is_a_data_uri() {
    let events = sample_unit();
    let c = config(OutputFormat::Png, "");
    let out = rewrite_events(&events, &vec![b"Man".to_vec()], &c, "html").unwrap();
    match &out[2] {
        OutEvent::Html(html) => {
            assert!(
                html.contains("<img src=\"data:image/png;base64,TWFu\""),
                "expected a data URI in {html}"
            );
        }
        other => panic!("expected an inline embed, got {other:?}"),
    }
}

#[test]
fn other_renderer_gets_a_file_reference() {
    let events = sample_unit();
    let c = config(OutputFormat::Png, "");
    let out = rewrite_events(&events, &vec![vec![1, 2, 3]], &c, "pandoc").unwrap();
    let source = "sequenceDiagram\n    Alice ->> Bob: Hello Bob, how are you?\n";
    let path = get_tmp_filepath(source, &DiagramKind::Mermaid, &c);
    assert!(path.starts_with("/tmp/diagram-"));
    assert!(path.ends_with(".png"));
    assert_eq!(
        out,
        vec![
            OutEvent::Keep(0),
            OutEvent::Keep(1),
            OutEvent::ImageStart(path),
            OutEvent::ImageEnd,
            OutEvent::Text("\n\n".to_string()),
            OutEvent::Keep(6),
        ]
    );
}

#[test]
fn inline_svg_must_be_utf8_text() {
    let c = config(OutputFormat::Svg, "");
    let r = synthesize("x", &DiagramKind::Mermaid, &vec![0xff, 0xfe], &c, "html");
    assert_eq!(r.unwrap_err(), RewriteError::InvalidUtf8);
}

#[test]
fn invalid_utf8_svg_fails_the_unit() {
    let events = sample_unit();
    let c = config(OutputFormat::Svg, "");
    let r = rewrite_events(&events, &vec![vec![0xff, 0xfe]], &c, "html");
    assert_eq!(r.unwrap_err(), RewriteError::InvalidUtf8);
}

#[test]
fn prefixed_tags_classify_inside_units() {
    let events = vec![
        MdEvent::CodeStart("diagram-plantuml".to_string()),
        MdEvent::Text("a -> b".to_string()),
        MdEvent::CodeEnd,
    ];
    let ds = find_diagrams(&events, "diagram-");
    assert_eq!(ds.len(), 1);
    assert_eq!(ds[0].kind, DiagramKind::PlantUml);
}
