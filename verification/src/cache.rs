//! The content-addressed render cache's naming scheme: a diagram's rendered
//! image lives in a file whose name is derived, deterministically, from the
//! diagram source bytes, the output format and the diagram kind.
use vstd::prelude::*;
use vstd::string::*;
use vstd::utf8::encode_utf8;

use crate::classify::{kind_tag, kind_view, DiagramKind, KindView};
use crate::config::{format_tag, Config, OutputFormat};

use sha1::Digest;

verus! {

/// The byte string the cache key digests: the raw diagram source bytes,
/// then the output format tag, then the diagram kind tag.
pub open spec fn hash_input(source: Seq<char>, f: OutputFormat, k: KindView) -> Seq<u8> {
    encode_utf8(source) + encode_utf8(format_tag(f)) + encode_utf8(kind_tag(k))
}

/// What `sha1::Sha1` returns: a function of the input bytes alone.
pub uninterp spec fn sha1_of(data: Seq<u8>) -> Seq<u8>;

/// Relies on `sha1::Sha1` through `Digest::digest`: the SHA-1 digest is a
/// function of the input bytes alone, 20 bytes long, and digesting one
/// buffer equals staged `update` calls over its parts.
#[verifier::external_body]
fn sha1_digest(data: &Vec<u8>) -> (r: Vec<u8>)
    ensures
        r@ == sha1_of(data@),
        r@.len() == 20,
{
    sha1::Sha1::digest(data.as_slice()).as_slice().to_vec()
}

/// The lowercase hexadecimal digit of a value below 16.
pub open spec fn hex_digit(n: int) -> char {
    if n == 0 {
        '0'
    } else if n == 1 {
        '1'
    } else if n == 2 {
        '2'
    } else if n == 3 {
        '3'
    } else if n == 4 {
        '4'
    } else if n == 5 {
        '5'
    } else if n == 6 {
        '6'
    } else if n == 7 {
        '7'
    } else if n == 8 {
        '8'
    } else if n == 9 {
        '9'
    } else if n == 10 {
        'a'
    } else if n == 11 {
        'b'
    } else if n == 12 {
        'c'
    } else if n == 13 {
        'd'
    } else if n == 14 {
        'e'
    } else {
        'f'
    }
}

/// Lowercase hexadecimal encoding, two digits per byte.
pub open spec fn hex_of(bytes: Seq<u8>) -> Seq<char>
    decreases bytes.len(),
{
    if bytes.len() == 0 {
        Seq::empty()
    } else {
        seq![hex_digit(bytes[0] as int / 16), hex_digit(bytes[0] as int % 16)] + hex_of(bytes.drop_first())
    }
}

proof fn lemma_hex_of_snoc(bytes: Seq<u8>, b: u8)
    ensures
        hex_of(bytes.push(b)) =~= hex_of(bytes) + seq![
            hex_digit(b as int / 16),
            hex_digit(b as int % 16),
        ],
    decreases bytes.len(),
{
    if bytes.len() == 0 {
        assert(bytes.push(b).drop_first() =~= Seq::<u8>::empty());
        assert(bytes =~= Seq::<u8>::empty());
    } else {
        assert(bytes.push(b).drop_first() =~= bytes.drop_first().push(b));
        lemma_hex_of_snoc(bytes.drop_first(), b);
    }
}

proof fn lemma_hex_of_len(bytes: Seq<u8>)
    ensures
        hex_of(bytes).len() == 2 * bytes.len(),
    decreases bytes.len(),
{
    if bytes.len() > 0 {
        lemma_hex_of_len(bytes.drop_first());
    }
}

/// One lowercase hexadecimal digit as a string.
pub fn hex_digit_str(n: u8) -> (r: &'static str)
    requires
        n < 16,
    ensures
        r@ =~= seq![hex_digit(n as int)],
{
    proof {
        reveal_strlit("0");
        reveal_strlit("1");
        reveal_strlit("2");
        reveal_strlit("3");
        reveal_strlit("4");
        reveal_strlit("5");
        reveal_strlit("6");
        reveal_strlit("7");
        reveal_strlit("8");
        reveal_strlit("9");
        reveal_strlit("a");
        reveal_strlit("b");
        reveal_strlit("c");
        reveal_strlit("d");
        reveal_strlit("e");
        reveal_strlit("f");
    }
    if n == 0 {
        "0"
    } else if n == 1 {
        "1"
    } else if n == 2 {
        "2"
    } else if n == 3 {
        "3"
    } else if n == 4 {
        "4"
    } else if n == 5 {
        "5"
    } else if n == 6 {
        "6"
    } else if n == 7 {
        "7"
    } else if n == 8 {
        "8"
    } else if n == 9 {
        "9"
    } else if n == 10 {
        "a"
    } else if n == 11 {
        "b"
    } else if n == 12 {
        "c"
    } else if n == 13 {
        "d"
    } else if n == 14 {
        "e"
    } else {
        "f"
    }
}

/// Lowercase hexadecimal encoding of a byte string.
pub fn hex_string(bytes: &Vec<u8>) -> (r: String)
    ensures
        r@ == hex_of(bytes@),
{
    let mut out = String::new();
    let mut i: usize = 0;
    while i < bytes.len()
        invariant
            i <= bytes@.len(),
            out@ == hex_of(bytes@.take(i as int)),
        decreases bytes@.len() - i,
    {
        let b = bytes[i];
        out.append(hex_digit_str(b / 16));
        out.append(hex_digit_str(b % 16));
        proof {
            lemma_hex_of_snoc(bytes@.take(i as int), bytes@[i as int]);
            assert(bytes@.take(i as int).push(bytes@[i as int]) =~= bytes@.take(i + 1 as int));
        }
        i = i + 1;
    }
    proof {
        assert(bytes@.take(bytes@.len() as int) =~= bytes@);
    }
    out
}

/// The cache key: the lowercase hex SHA-1 digest over the diagram source
/// bytes, then the output format tag, then the diagram kind tag.
pub open spec fn cache_hash(source: Seq<char>, f: OutputFormat, k: KindView) -> Seq<char> {
    hex_of(sha1_of(hash_input(source, f, k)))
}

/// Computes the cache key of a diagram.
pub fn hash(diagram: &str, format: &OutputFormat, kind: &DiagramKind) -> (r: String)
    ensures
        r@ == cache_hash(diagram@, *format, kind_view(*kind)),
        r@.len() == 40,
{
    let mut data: Vec<u8> = diagram.as_bytes_vec();
    let format_bytes: Vec<u8> = format.tag().as_bytes_vec();
    let kind_string: String = kind.tag_string();
    let kind_bytes: Vec<u8> = kind_string.as_str().as_bytes_vec();
    data.extend_from_slice(format_bytes.as_slice());
    data.extend_from_slice(kind_bytes.as_slice());
    proof {
        assert(data@ =~= hash_input(diagram@, *format, kind_view(*kind)));
    }
    let digest = sha1_digest(&data);
    proof {
        lemma_hex_of_len(digest@);
    }
    hex_string(&digest)
}

/// The cache filename: configured prefix, hex digest, and the format tag as
/// the extension.
pub open spec fn filename_spec(source: Seq<char>, k: KindView, c: Config) -> Seq<char> {
    c.filename_prefix@ + cache_hash(source, c.output_format, k) + "."@ + format_tag(
        c.output_format,
    )
}

/// Computes the cache filename of a diagram under a configuration.
pub fn get_filename(diagram: &str, diagram_type: &DiagramKind, config: &Config) -> (r: String)
    ensures
        r@ == filename_spec(diagram@, kind_view(*diagram_type), *config),
{
    let h = hash(diagram, &config.output_format, diagram_type);
    let mut out: String = config.filename_prefix.clone();
    out.append(h.as_str());
    out.append(".");
    out.append(config.output_format.tag());
    out
}

/// A directory path joined with a filename, with exactly one separator
/// between them.
pub open spec fn joined_path(dir: Seq<char>, file: Seq<char>) -> Seq<char> {
    if dir.len() == 0 {
        file
    } else if dir.last() == '/' {
        dir + file
    } else {
        dir + "/"@ + file
    }
}

/// The full on-disk path of a diagram's cache entry.
pub open spec fn filepath_spec(source: Seq<char>, k: KindView, c: Config) -> Seq<char> {
    joined_path(c.files_path@, filename_spec(source, k, c))
}

/// Computes the full cache path of a diagram: the configured directory
/// joined with the cache filename.
pub fn get_tmp_filepath(diagram: &str, diagram_type: &DiagramKind, config: &Config) -> (r: String)
    ensures
        r@ == filepath_spec(diagram@, kind_view(*diagram_type), *config),
{
    let filename = get_filename(diagram, diagram_type, config);
    let dir = config.files_path.as_str();
    let dlen = dir.unicode_len();
    let mut out: String = config.files_path.clone();
    if dlen == 0 {
        return filename;
    }
    if !(dir.get_char(dlen - 1) == '/') {
        out.append("/");
    }
    out.append(filename.as_str());
    out
}

/// How an uncached or cached diagram is obtained: a hit serves the cached
/// bytes as they are; only a miss may reach the network.
pub enum RenderPlan {
    /// Serve these bytes; no request is made.
    UseCached(Vec<u8>),
    /// Nothing cached: the rendering service must be asked.
    Fetch,
}

/// Decides how to obtain a diagram's rendered bytes from the result of the
/// cache lookup. A present cache entry is always served unchanged, so a
/// second run over an unchanged cache never reaches the network.
pub fn plan_render(cached: Option<Vec<u8>>) -> (r: RenderPlan)
    ensures
        match cached {
            Some(bytes) => r matches RenderPlan::UseCached(b) && b@ == bytes@,
            None => r is Fetch,
        },
{
    match cached {
        Some(bytes) => RenderPlan::UseCached(bytes),
        None => RenderPlan::Fetch,
    }
}

/// Law: the cache filename is a function of the diagram source, the output
/// format, the diagram kind and the configured filename prefix alone, so
/// byte-identical inputs always name the same cache entry, in any run.
pub proof fn lemma_filename_deterministic(
    s1: Seq<char>,
    k1: KindView,
    c1: Config,
    s2: Seq<char>,
    k2: KindView,
    c2: Config,
)
    requires
        s1 == s2,
        k1 == k2,
        c1.filename_prefix@ == c2.filename_prefix@,
        c1.output_format == c2.output_format,
    ensures
        filename_spec(s1, k1, c1) == filename_spec(s2, k2, c2),
{
}

/// Law: two runs whose output formats differ never name the same cache
/// entry, whatever the sources, kinds and prefixes: the filename extension
/// alone separates them.
pub proof fn lemma_formats_separate_filenames(
    s1: Seq<char>,
    k1: KindView,
    c1: Config,
    s2: Seq<char>,
    k2: KindView,
    c2: Config,
)
    requires
        c1.output_format != c2.output_format,
    ensures
        filename_spec(s1, k1, c1) != filename_spec(s2, k2, c2),
{
    reveal_strlit("png");
    reveal_strlit("svg");
    let f1 = filename_spec(s1, k1, c1);
    let f2 = filename_spec(s2, k2, c2);
    let t1 = format_tag(c1.output_format);
    let t2 = format_tag(c2.output_format);
    assert(t1.len() == 3 && t2.len() == 3);
    if f1 == f2 {
        let n = f1.len() as int;
        assert(f1[n - 3] == t1[0]);
        assert(f2[n - 3] == t2[0]);
        assert(t1[0] != t2[0]);
    }
}

} // verus!
