use mdbook_diagrams::cache::{get_filename, get_tmp_filepath, hash, hex_string, plan_render, RenderPlan};
use mdbook_diagrams::classify::DiagramKind;
use mdbook_diagrams::config::{Config, OutputFormat};
use sha1::{Digest, Sha1};

fn config(format: OutputFormat, files_path: &str) -> Config {
    Config {
        output_format: format,
        language_prefix: "".to_string(),
        kroki_url: "https://kroki.io".to_string(),
        kroki_timeout_ms: None,
        filename_prefix: "diagram-".to_string(),
        files_path: files_path.to_string(),
    }
}

fn reference_digest_hex(source: &str, format_tag: &str, kind_tag: &str) -> String {
    let mut hasher = Sha1::new();
    hasher.update(source.as_bytes());
    hasher.update(format_tag.as_bytes());
    hasher.update(kind_tag.as_bytes());
    let digest = hasher.finalize();
    let mut hex = String::new();
    for byte in digest {
        hex.push_str(&format!("{:02x}", byte));
    }
    hex
}

#[test]
fn hex_encoding_exact() {
    assert_eq!(hex_string(&vec![0x00, 0x0f, 0xa5, 0xff]), "000fa5ff");
}

#[test]
fn hash_matches_staged_digest() {
    let got = hash("flowchart TD", &OutputFormat::Png, &DiagramKind::Mermaid);
    let expected = reference_digest_hex("flowchart TD", "png", "mermaid");
    assert_eq!(got, expected);
    assert_eq!(got.len(), 40);
}

#[test]
fn hash_uses_kind_tag_of_other_engines() {
    let got = hash("shapes", &OutputFormat::Svg, &DiagramKind::Other("svgbob".to_string()));
    let expected = reference_digest_hex("shapes", "svg", "svgbob");
    assert_eq!(got, expected);
}

#[test]
fn filename_is_deterministic() {
    let c = config(OutputFormat::Png, "/tmp");
    let a = get_filename("a -> b", &DiagramKind::PlantUml, &c);
    let b = get_filename("a -> b", &DiagramKind::PlantUml, &c);
    assert_eq!(a, b);
}

#[test]
fn filename_shape() {
    let c = config(OutputFormat::Png, "/tmp");
    let name = get_filename("a -> b", &DiagramKind::PlantUml, &c);
    let hex = reference_digest_hex("a -> b", "png", "plantuml");
    assert_eq!(name, format!("diagram-{hex}.png"));
}

#[test]
fn differing_inputs_change_the_filename() {
    let c = config(OutputFormat::Png, "/tmp");
    let base = get_filename("a -> b", &DiagramKind::PlantUml, &c);
    assert_ne!(get_filename("a -> c", &DiagramKind::PlantUml, &c), base);
    assert_ne!(get_filename("a -> b", &DiagramKind::Mermaid, &c), base);
    let c_svg = config(OutputFormat::Svg, "/tmp");
    assert_ne!(get_filename("a -> b", &DiagramKind::PlantUml, &c_svg), base);
}

#[test]
fn filepath_joins_directory() {
    let c = config(OutputFormat::Svg, "/var/cache");
    let name = get_filename("x", &DiagramKind::Mermaid, &c);
    let path = get_tmp_filepath("x", &DiagramKind::Mermaid, &c);
    assert_eq!(path, format!("/var/cache/{name}"));
}

#[test]
fn filepath_keeps_trailing_separator() {
    let c = config(OutputFormat::Svg, "/var/cache/");
    let name = get_filename("x", &DiagramKind::Mermaid, &c);
    let path = get_tmp_filepath("x", &DiagramKind::Mermaid, &c);
    assert_eq!(path, format!("/var/cache/{name}"));
}

#[test]
fn cached_bytes_are_served_without_a_fetch() {
    let plan = plan_render(Some(vec![1, 2, 3]));
    assert!(matches!(plan, RenderPlan::UseCached(ref b) if b == &vec![1, 2, 3]));
}

#[test]
fn cache_miss_must_fetch() {
    assert!(matches!(plan_render(None), RenderPlan::Fetch));
}
