//! The event rewriter: a single pass over a document unit's token stream
//! that finds diagram code blocks, buffers their source text, and replaces
//! each block with synthesized output events, leaving every other event
//! untouched and in order.
//!
//! The pass is split in two phases around the rendering step: a scan that
//! collects the diagram blocks to render, and the rewrite proper, which is
//! handed one rendered image per collected diagram.
use vstd::prelude::*;
use vstd::string::*;
use vstd::utf8::{decode_utf8, valid_utf8};

use crate::cache::{filepath_spec, get_tmp_filepath};
use crate::classify::{classify, classify_spec, is_prefix_of, kind_view, DiagramKind, KindView};
use crate::config::{format_mime, str_eq, Config, OutputFormat};

verus! {

/// A document token, as far as the rewriter needs to tell tokens apart.
/// Anything that is not a fenced code block boundary or literal text is
/// `Other`: the rewriter forwards it blindly.
#[derive(Debug, Clone, PartialEq, Eq)]
pub enum MdEvent {
    /// A fenced code block opens; the field is its language tag.
    CodeStart(String),
    /// A code block closes.
    CodeEnd,
    /// Literal text.
    Text(String),
    /// Any other token.
    Other,
}

/// A rewritten token: either one input token forwarded unchanged (named by
/// its index in the input), or a synthesized replacement token.
#[derive(Debug, Clone, PartialEq, Eq)]
pub enum OutEvent {
    /// Forward the input event at this index unchanged.
    Keep(usize),
    /// A raw embedded block.
    Html(String),
    /// An image reference opens; the field is its destination.
    ImageStart(String),
    /// The image reference closes.
    ImageEnd,
    /// Synthesized literal text.
    Text(String),
}

/// The mathematical value of an `OutEvent`.
pub enum OutView {
    Keep(int),
    Html(Seq<char>),
    ImageStart(Seq<char>),
    ImageEnd,
    Text(Seq<char>),
}

pub open spec fn out_view(e: OutEvent) -> OutView {
    match e {
        OutEvent::Keep(i) => OutView::Keep(i as int),
        OutEvent::Html(s) => OutView::Html(s@),
        OutEvent::ImageStart(s) => OutView::ImageStart(s@),
        OutEvent::ImageEnd => OutView::ImageEnd,
        OutEvent::Text(s) => OutView::Text(s@),
    }
}

pub open spec fn out_views(out: Seq<OutEvent>) -> Seq<OutView> {
    out.map_values(|e: OutEvent| out_view(e))
}

pub open spec fn opt_kind_view(o: Option<DiagramKind>) -> Option<KindView> {
    match o {
        Some(k) => Some(kind_view(k)),
        None => None,
    }
}

/// The scan state over a unit: whether a diagram block is open (and of
/// which kind), the text buffered so far, and the diagram blocks closed so
/// far, oldest first.
pub struct ScanAcc {
    pub open: Option<KindView>,
    pub buf: Seq<char>,
    pub ds: Seq<(Seq<char>, KindView)>,
}

pub open spec fn scan_init() -> ScanAcc {
    ScanAcc { open: None, buf: Seq::empty(), ds: Seq::empty() }
}

/// One step of the scan. Idle: a code block start whose tag classifies as a
/// diagram opens a fresh buffer; everything else passes. Buffering: text is
/// appended to the buffer; the block's end closes the diagram; any other
/// token passes defensively.
pub open spec fn scan_step(acc: ScanAcc, ev: MdEvent, prefix: Seq<char>) -> ScanAcc {
    match acc.open {
        None => match ev {
            MdEvent::CodeStart(lang) => match classify_spec(lang@, prefix) {
                Some(k) => ScanAcc { open: Some(k), buf: Seq::empty(), ds: acc.ds },
                None => acc,
            },
            _ => acc,
        },
        Some(k) => match ev {
            MdEvent::Text(t) => ScanAcc { open: acc.open, buf: acc.buf + t@, ds: acc.ds },
            MdEvent::CodeEnd => ScanAcc {
                open: None,
                buf: Seq::empty(),
                ds: acc.ds.push((acc.buf, k)),
            },
            _ => acc,
        },
    }
}

pub open spec fn scan_fold(events: Seq<MdEvent>, i: int, prefix: Seq<char>) -> ScanAcc
    decreases i,
{
    if i <= 0 {
        scan_init()
    } else {
        scan_step(scan_fold(events, i - 1, prefix), events[i - 1], prefix)
    }
}

/// The diagram blocks of a unit, oldest first: each one's buffered source
/// text and kind.
pub open spec fn diagrams_of(events: Seq<MdEvent>, prefix: Seq<char>) -> Seq<(Seq<char>, KindView)> {
    scan_fold(events, events.len() as int, prefix).ds
}

/// A diagram block found in a unit: its buffered source text and its kind.
#[derive(Debug, Clone)]
pub struct Diagram {
    pub source: String,
    pub kind: DiagramKind,
}

impl DiagramKind {
    /// A copy of this kind.
    pub fn duplicate(&self) -> (r: DiagramKind)
        ensures
            r == *self,
    {
        match self {
            DiagramKind::Mermaid => DiagramKind::Mermaid,
            DiagramKind::PlantUml => DiagramKind::PlantUml,
            DiagramKind::Other(s) => DiagramKind::Other(s.clone()),
        }
    }
}

/// The scan phase: collects the diagram blocks of a unit, oldest first,
/// exactly as the rewrite phase will consume them.
pub fn find_diagrams(events: &Vec<MdEvent>, prefix: &str) -> (r: Vec<Diagram>)
    ensures
        r@.len() == diagrams_of(events@, prefix@).len(),
        forall|i: int|
            0 <= i < r@.len() ==> (#[trigger] r@[i]).source@ == diagrams_of(events@, prefix@)[i].0
                && kind_view(r@[i].kind) == diagrams_of(events@, prefix@)[i].1,
{
    let mut open: Option<DiagramKind> = None;
    let mut buf: String = String::new();
    let mut ds: Vec<Diagram> = Vec::new();
    let mut i: usize = 0;
    while i < events.len()
        invariant
            i <= events@.len(),
            ({
                let acc = scan_fold(events@, i as int, prefix@);
                &&& acc.open == opt_kind_view(open)
                &&& acc.buf == buf@
                &&& acc.ds.len() == ds@.len()
                &&& forall|m: int|
                    0 <= m < ds@.len() ==> (#[trigger] ds@[m]).source@ == acc.ds[m].0 && kind_view(
                        ds@[m].kind,
                    ) == acc.ds[m].1
            }),
        decreases events@.len() - i,
    {
        let is_open = open.is_some();
        match &events[i] {
            MdEvent::CodeStart(lang) => {
                if !is_open {
                    match classify(lang.as_str(), prefix) {
                        Some(k) => {
                            open = Some(k);
                            buf = String::new();
                        },
                        None => {},
                    }
                }
            },
            MdEvent::Text(t) => {
                if is_open {
                    buf.append(t.as_str());
                }
            },
            MdEvent::CodeEnd => {
                match &open {
                    Some(k) => {
                        ds.push(Diagram { source: buf, kind: k.duplicate() });
                        open = None;
                        buf = String::new();
                    },
                    None => {},
                }
            },
            MdEvent::Other => {},
        }
        i = i + 1;
    }
    ds
}

/// What `base64`'s standard engine returns: a function of the input bytes
/// alone.
pub uninterp spec fn base64_of(bytes: Seq<u8>) -> Seq<char>;

/// Relies on the `base64` crate's `STANDARD` engine: standard alphabet,
/// padded, a function of the input bytes alone.
#[verifier::external_body]
fn base64_string(bytes: &Vec<u8>) -> (r: String)
    ensures
        r@ == base64_of(bytes@),
{
    base64::Engine::encode(&base64::engine::general_purpose::STANDARD, bytes.as_slice())
}

/// Relies on `String::from_utf8`: succeeds exactly on valid UTF-8 input and
/// returns its decoding.
#[verifier::external_body]
fn bytes_to_string(bytes: &Vec<u8>) -> (r: Result<String, ()>)
    ensures
        match r {
            Ok(s) => valid_utf8(bytes@) && s@ == decode_utf8(bytes@),
            Err(_) => !valid_utf8(bytes@),
        },
{
    match String::from_utf8(bytes.clone()) {
        Ok(s) => Ok(s),
        Err(_) => Err(()),
    }
}

/// The XML declaration some renderers reject inside embedded markup.
pub open spec fn xml_decl() -> Seq<char> {
    "<?xml version=\"1.0\" encoding=\"UTF-8\" standalone=\"no\"?>"@
}

/// An SVG text with a leading XML declaration stripped, if one is there.
pub open spec fn strip_decl_spec(s: Seq<char>) -> Seq<char> {
    if is_prefix_of(xml_decl(), s) {
        s.skip(xml_decl().len() as int)
    } else {
        s
    }
}

/// Strips a leading XML declaration from a decoded SVG text.
fn strip_xml_decl(s: String) -> (r: String)
    ensures
        r@ == strip_decl_spec(s@),
{
    let d = "<?xml version=\"1.0\" encoding=\"UTF-8\" standalone=\"no\"?>";
    let dlen = d.unicode_len();
    let slen = s.as_str().unicode_len();
    if dlen <= slen {
        let head = s.as_str().substring_char(0, dlen);
        if str_eq(head, d) {
            let rest = s.as_str().substring_char(dlen, slen);
            return rest.to_owned();
        }
    }
    s
}

/// The centering container every inline embed is wrapped in.
pub open spec fn figure_open() -> Seq<char> {
    "<figure style='display: flex;flex-direction: row;justify-content: center;'>"@
}

/// An inline SVG embed: the centering container around the SVG markup.
pub open spec fn svg_figure(svg: Seq<char>) -> Seq<char> {
    figure_open() + svg + "</figure>\n\n"@
}

/// An inline PNG embed: a base64 data URI image inside the centering
/// container.
pub open spec fn png_figure(bytes: Seq<u8>) -> Seq<char> {
    figure_open() + "<img src=\"data:"@ + format_mime(OutputFormat::Png) + ";base64,"@ + base64_of(
        bytes,
    ) + "\" alt=\"rendered diagram\" /></figure>\n\n"@
}

/// The replacement for one rendered diagram block. The primary HTML
/// renderer gets one raw embedded block: inline SVG markup (its XML
/// declaration stripped), or a base64 data URI for PNG. Any other renderer
/// target gets a plain image reference to the on-disk cache file, closed by
/// a blank line. `None`: the rendered SVG was not UTF-8 text.
pub open spec fn synth_spec(
    source: Seq<char>,
    kind: KindView,
    bytes: Seq<u8>,
    cfg: Config,
    renderer: Seq<char>,
) -> Option<Seq<OutView>> {
    if renderer == "html"@ {
        match cfg.output_format {
            OutputFormat::Svg => if valid_utf8(bytes) {
                Some(seq![OutView::Html(svg_figure(strip_decl_spec(decode_utf8(bytes))))])
            } else {
                None
            },
            OutputFormat::Png => Some(seq![OutView::Html(png_figure(bytes))]),
        }
    } else {
        Some(
            seq![
                OutView::ImageStart(filepath_spec(source, kind, cfg)),
                OutView::ImageEnd,
                OutView::Text("\n\n"@),
            ],
        )
    }
}

/// A failure of the rewrite phase itself.
#[derive(Debug, Clone, PartialEq, Eq)]
pub enum RewriteError {
    /// A rendered SVG to be embedded inline was not UTF-8 text.
    InvalidUtf8,
}

/// Synthesizes the replacement events for one rendered diagram block.
pub fn synthesize(
    source: &str,
    kind: &DiagramKind,
    bytes: &Vec<u8>,
    config: &Config,
    renderer: &str,
) -> (r: Result<Vec<OutEvent>, RewriteError>)
    ensures
        match r {
            Ok(evs) => synth_spec(source@, kind_view(*kind), bytes@, *config, renderer@) == Some(
                out_views(evs@),
            ),
            Err(e) => synth_spec(source@, kind_view(*kind), bytes@, *config, renderer@) is None
                && e == RewriteError::InvalidUtf8,
        },
{
    if str_eq(renderer, "html") {
        match config.output_format {
            OutputFormat::Svg => {
                let svg = match bytes_to_string(bytes) {
                    Ok(s) => s,
                    Err(_) => {
                        return Err(RewriteError::InvalidUtf8);
                    },
                };
                let stripped = strip_xml_decl(svg);
                let mut html = String::from_str(
                    "<figure style='display: flex;flex-direction: row;justify-content: center;'>",
                );
                html.append(stripped.as_str());
                html.append("</figure>\n\n");
                let evs = vec![OutEvent::Html(html)];
                proof {
                    assert(out_views(evs@) =~= seq![
                        OutView::Html(svg_figure(strip_decl_spec(decode_utf8(bytes@)))),
                    ]);
                }
                Ok(evs)
            },
            OutputFormat::Png => {
                let b64 = base64_string(bytes);
                let mut html = String::from_str(
                    "<figure style='display: flex;flex-direction: row;justify-content: center;'>",
                );
                html.append("<img src=\"data:");
                html.append(OutputFormat::Png.mime_tag());
                html.append(";base64,");
                html.append(b64.as_str());
                html.append("\" alt=\"rendered diagram\" /></figure>\n\n");
                let evs = vec![OutEvent::Html(html)];
                proof {
                    assert(out_views(evs@) =~= seq![OutView::Html(png_figure(bytes@))]);
                }
                Ok(evs)
            },
        }
    } else {
        let path = get_tmp_filepath(source, kind, config);
        let evs = vec![
            OutEvent::ImageStart(path),
            OutEvent::ImageEnd,
            OutEvent::Text(String::from_str("\n\n")),
        ];
        proof {
            assert(out_views(evs@) =~= seq![
                OutView::ImageStart(filepath_spec(source@, kind_view(*kind), *config)),
                OutView::ImageEnd,
                OutView::Text("\n\n"@),
            ]);
        }
        Ok(evs)
    }
}

/// The views of a sequence of rendered images.
pub open spec fn views_of(renders: Seq<Vec<u8>>) -> Seq<Seq<u8>> {
    renders.map_values(|v: Vec<u8>| v@)
}

/// The rewrite state over a unit: the scan state, how many rendered images
/// were consumed, and the rewritten tokens so far.
pub struct RwAcc {
    pub open: Option<KindView>,
    pub buf: Seq<char>,
    pub next: int,
    pub out: Seq<OutView>,
}

pub open spec fn rw_init() -> RwAcc {
    RwAcc { open: None, buf: Seq::empty(), next: 0, out: Seq::empty() }
}

/// One step of the rewrite of the event at index `i`. It walks exactly as
/// `scan_step` does; a forwarded event becomes `Keep(i)`, a diagram block's
/// start, text and end are suppressed, and the end is replaced by the
/// synthesized events for the next rendered image. `None`: the synthesis
/// failed, and the whole unit's rewrite fails with it.
pub open spec fn rw_step(
    acc: RwAcc,
    ev: MdEvent,
    i: int,
    renders: Seq<Seq<u8>>,
    prefix: Seq<char>,
    cfg: Config,
    renderer: Seq<char>,
) -> Option<RwAcc> {
    match acc.open {
        None => match ev {
            MdEvent::CodeStart(lang) => match classify_spec(lang@, prefix) {
                Some(k) => Some(
                    RwAcc { open: Some(k), buf: Seq::empty(), next: acc.next, out: acc.out },
                ),
                None => Some(
                    RwAcc {
                        open: acc.open,
                        buf: acc.buf,
                        next: acc.next,
                        out: acc.out.push(OutView::Keep(i)),
                    },
                ),
            },
            _ => Some(
                RwAcc {
                    open: acc.open,
                    buf: acc.buf,
                    next: acc.next,
                    out: acc.out.push(OutView::Keep(i)),
                },
            ),
        },
        Some(k) => match ev {
            MdEvent::Text(t) => Some(
                RwAcc { open: acc.open, buf: acc.buf + t@, next: acc.next, out: acc.out },
            ),
            MdEvent::CodeEnd => match synth_spec(acc.buf, k, renders[acc.next], cfg, renderer) {
                Some(evs) => Some(
                    RwAcc {
                        open: None,
                        buf: Seq::empty(),
                        next: acc.next + 1,
                        out: acc.out + evs,
                    },
                ),
                None => None,
            },
            _ => Some(
                RwAcc {
                    open: acc.open,
                    buf: acc.buf,
                    next: acc.next,
                    out: acc.out.push(OutView::Keep(i)),
                },
            ),
        },
    }
}

pub open spec fn rw_fold(
    events: Seq<MdEvent>,
    i: int,
    renders: Seq<Seq<u8>>,
    prefix: Seq<char>,
    cfg: Config,
    renderer: Seq<char>,
) -> Option<RwAcc>
    decreases i,
{
    if i <= 0 {
        Some(rw_init())
    } else {
        match rw_fold(events, i - 1, renders, prefix, cfg, renderer) {
            Some(acc) => rw_step(acc, events[i - 1], i - 1, renders, prefix, cfg, renderer),
            None => None,
        }
    }
}

/// The whole rewrite of a unit, given one rendered image per diagram block.
pub open spec fn rewrite_spec(
    events: Seq<MdEvent>,
    renders: Seq<Seq<u8>>,
    prefix: Seq<char>,
    cfg: Config,
    renderer: Seq<char>,
) -> Option<Seq<OutView>> {
    match rw_fold(events, events.len() as int, renders, prefix, cfg, renderer) {
        Some(acc) => Some(acc.out),
        None => None,
    }
}

/// The rewrite walks the unit exactly as the scan does: same open block,
/// same buffer, and it has consumed one rendered image per scanned diagram.
proof fn lemma_rw_tracks_scan(
    events: Seq<MdEvent>,
    i: int,
    renders: Seq<Seq<u8>>,
    prefix: Seq<char>,
    cfg: Config,
    renderer: Seq<char>,
)
    ensures
        match rw_fold(events, i, renders, prefix, cfg, renderer) {
            Some(acc) => {
                let sacc = scan_fold(events, i, prefix);
                acc.open == sacc.open && acc.buf == sacc.buf && acc.next == sacc.ds.len()
            },
            None => true,
        },
    decreases i,
{
    if i > 0 {
        lemma_rw_tracks_scan(events, i - 1, renders, prefix, cfg, renderer);
    }
}

/// The scan's diagram count only grows along the unit.
proof fn lemma_scan_ds_monotone(events: Seq<MdEvent>, i: int, n: int, prefix: Seq<char>)
    requires
        0 <= i <= n,
    ensures
        scan_fold(events, i, prefix).ds.len() <= scan_fold(events, n, prefix).ds.len(),
    decreases n,
{
    if n > i {
        lemma_scan_ds_monotone(events, i, n - 1, prefix);
    }
}

/// A failed rewrite stays failed for the rest of the unit.
proof fn lemma_rw_fold_none(
    events: Seq<MdEvent>,
    i: int,
    n: int,
    renders: Seq<Seq<u8>>,
    prefix: Seq<char>,
    cfg: Config,
    renderer: Seq<char>,
)
    requires
        0 <= i <= n,
        rw_fold(events, i, renders, prefix, cfg, renderer) is None,
    ensures
        rw_fold(events, n, renders, prefix, cfg, renderer) is None,
    decreases n,
{
    if n > i {
        lemma_rw_fold_none(events, i, n - 1, renders, prefix, cfg, renderer);
    }
}

/// The rewrite phase: replaces each diagram block of the unit with the
/// synthesized events for its rendered image, forwards every other event
/// unchanged and in order, and fails only when an inline SVG embed is not
/// UTF-8 text.
pub fn rewrite_events(
    events: &Vec<MdEvent>,
    renders: &Vec<Vec<u8>>,
    config: &Config,
    renderer: &str,
) -> (r: Result<Vec<OutEvent>, RewriteError>)
    requires
        renders@.len() == diagrams_of(events@, config.language_prefix@).len(),
    ensures
        match r {
            Ok(out) => rewrite_spec(
                events@,
                views_of(renders@),
                config.language_prefix@,
                *config,
                renderer@,
            ) == Some(out_views(out@)),
            Err(e) => rewrite_spec(
                events@,
                views_of(renders@),
                config.language_prefix@,
                *config,
                renderer@,
            ) is None && e == RewriteError::InvalidUtf8,
        },
{
    let ghost prefix = config.language_prefix@;
    let ghost rv = views_of(renders@);
    let mut open: Option<DiagramKind> = None;
    let mut buf: String = String::new();
    let mut j: usize = 0;
    let mut out: Vec<OutEvent> = Vec::new();
    let mut i: usize = 0;
    while i < events.len()
        invariant
            i <= events@.len(),
            renders@.len() == diagrams_of(events@, prefix).len(),
            prefix == config.language_prefix@,
            rv == views_of(renders@),
            j <= renders@.len(),
            ({
                let f = rw_fold(events@, i as int, rv, prefix, *config, renderer@);
                f matches Some(acc) && (acc.open == opt_kind_view(open) && acc.buf == buf@
                    && acc.next == j as int && acc.out == out_views(out@))
            }),
        decreases events@.len() - i,
    {
        let ghost acc = rw_fold(events@, i as int, rv, prefix, *config, renderer@).unwrap();
        let is_open = open.is_some();
        match &events[i] {
            MdEvent::CodeStart(lang) => {
                let mut kept = true;
                if !is_open {
                    match classify(lang.as_str(), config.language_prefix.as_str()) {
                        Some(k) => {
                            open = Some(k);
                            buf = String::new();
                            kept = false;
                        },
                        None => {},
                    }
                }
                if kept {
                    out.push(OutEvent::Keep(i));
                    proof {
                        assert(out_views(out@) =~= acc.out.push(OutView::Keep(i as int)));
                    }
                }
            },
            MdEvent::Text(t) => {
                if is_open {
                    buf.append(t.as_str());
                } else {
                    out.push(OutEvent::Keep(i));
                    proof {
                        assert(out_views(out@) =~= acc.out.push(OutView::Keep(i as int)));
                    }
                }
            },
            MdEvent::CodeEnd => {
                let cur = match &open {
                    Some(k) => Some(k.duplicate()),
                    None => None,
                };
                match cur {
                    Some(k) => {
                        proof {
                            lemma_rw_tracks_scan(
                                events@,
                                i as int,
                                rv,
                                prefix,
                                *config,
                                renderer@,
                            );
                            lemma_rw_tracks_scan(
                                events@,
                                i + 1 as int,
                                rv,
                                prefix,
                                *config,
                                renderer@,
                            );
                            lemma_scan_ds_monotone(
                                events@,
                                i + 1 as int,
                                events@.len() as int,
                                prefix,
                            );
                        }
                        match synthesize(buf.as_str(), &k, &renders[j], config, renderer) {
                            Ok(mut evs) => {
                                proof {
                                    assert(out_views(out@) + out_views(evs@) =~= out_views(
                                        out@ + evs@,
                                    ));
                                }
                                out.append(&mut evs);
                                open = None;
                                buf = String::new();
                                let rlen: usize = renders.len();
                                proof {
                                    assert(j < rlen);
                                }
                                j = j + 1;
                            },
                            Err(e) => {
                                proof {
                                    lemma_rw_fold_none(
                                        events@,
                                        i + 1 as int,
                                        events@.len() as int,
                                        rv,
                                        prefix,
                                        *config,
                                        renderer@,
                                    );
                                }
                                return Err(e);
                            },
                        }
                    },
                    None => {
                        out.push(OutEvent::Keep(i));
                        proof {
                            assert(out_views(out@) =~= acc.out.push(OutView::Keep(i as int)));
                        }
                    },
                }
            },
            MdEvent::Other => {
                out.push(OutEvent::Keep(i));
                proof {
                    assert(out_views(out@) =~= acc.out.push(OutView::Keep(i as int)));
                }
            },
        }
        i = i + 1;
    }
    Ok(out)
}

/// Law: a unit in which no code block start classifies as a diagram passes
/// through the rewriter unchanged: every event is forwarded, in order, and
/// nothing is synthesized.
pub proof fn lemma_no_diagrams_unchanged(
    events: Seq<MdEvent>,
    renders: Seq<Seq<u8>>,
    prefix: Seq<char>,
    cfg: Config,
    renderer: Seq<char>,
)
    requires
        forall|i: int|
            0 <= i < events.len() ==> match #[trigger] events[i] {
                MdEvent::CodeStart(lang) => classify_spec(lang@, prefix) is None,
                _ => true,
            },
    ensures
        rewrite_spec(events, renders, prefix, cfg, renderer) == Some(
            Seq::new(events.len(), |i: int| OutView::Keep(i)),
        ),
{
    lemma_no_diagrams_prefix(events, events.len() as int, renders, prefix, cfg, renderer);
    assert(rw_fold(events, events.len() as int, renders, prefix, cfg, renderer).unwrap().out =~= Seq::new(
        events.len(),
        |i: int| OutView::Keep(i),
    ));
}

proof fn lemma_no_diagrams_prefix(
    events: Seq<MdEvent>,
    n: int,
    renders: Seq<Seq<u8>>,
    prefix: Seq<char>,
    cfg: Config,
    renderer: Seq<char>,
)
    requires
        0 <= n <= events.len(),
        forall|i: int|
            0 <= i < events.len() ==> match #[trigger] events[i] {
                MdEvent::CodeStart(lang) => classify_spec(lang@, prefix) is None,
                _ => true,
            },
    ensures
        ({
            let f = rw_fold(events, n, renders, prefix, cfg, renderer);
            f matches Some(acc) && (acc.open is None && acc.out =~= Seq::new(
                n as nat,
                |i: int| OutView::Keep(i),
            ))
        }),
    decreases n,
{
    if n > 0 {
        lemma_no_diagrams_prefix(events, n - 1, renders, prefix, cfg, renderer);
        let prev = rw_fold(events, n - 1, renders, prefix, cfg, renderer).unwrap();
        assert(prev.out.push(OutView::Keep(n - 1)) =~= Seq::new(n as nat, |i: int| OutView::Keep(i)));
    }
}

} // verus!
