//! Runtime content-type resolution.
//!
//! A served file's MIME type is resolved from two signals: the expectation
//! derived from its file extension, and a signature-based sniff of its raw
//! bytes. A known extension must be confirmed by the sniff; a contradiction
//! resolves to nothing — fail closed, so a mislabelled file looks exactly
//! like an absent one. An unknown or missing extension falls back to the
//! sniff alone, which always produces a type.

use vstd::prelude::*;

verus! {

/// The extension of a path: the suffix after the final `.`, or nothing when
/// the path holds no `.` at all.
pub open spec fn extension_of(p: Seq<char>) -> Option<Seq<char>>
    decreases p.len(),
{
    if p.len() == 0 {
        None
    } else if p.last() == '.' {
        Some(Seq::empty())
    } else {
        match extension_of(p.drop_last()) {
            Some(e) => Some(e.push(p.last())),
            None => None,
        }
    }
}

/// The fixed extension table: the MIME type a recognized extension promises.
/// Extensions are case-sensitive; anything else carries no expectation.
pub open spec fn expected_type_spec(ext: Seq<char>) -> Option<Seq<char>> {
    if ext == "png"@ {
        Some("image/png"@)
    } else if ext == "jpg"@ || ext == "jpeg"@ {
        Some("image/jpeg"@)
    } else if ext == "gif"@ {
        Some("image/gif"@)
    } else if ext == "js"@ {
        Some("application/javascript"@)
    } else if ext == "json"@ {
        Some("text/json"@)
    } else if ext == "html"@ {
        Some("text/html"@)
    } else {
        None
    }
}

/// ASCII whitespace, as the sniffer skips it: space, tab, line feed,
/// carriage return.
pub open spec fn ws_byte(b: u8) -> bool {
    b == 0x20 || b == 0x09 || b == 0x0a || b == 0x0d
}

/// A byte that plain ASCII text may contain: printable or whitespace.
pub open spec fn text_byte(b: u8) -> bool {
    b == 0x09 || b == 0x0a || b == 0x0d || (0x20 <= b && b <= 0x7e)
}

/// Whether the content is plain ASCII text throughout.
pub open spec fn is_text(b: Seq<u8>) -> bool {
    forall|i: int| 0 <= i < b.len() ==> text_byte(#[trigger] b[i])
}

/// The first byte that is not ASCII whitespace, if any.
pub open spec fn first_nonws(b: Seq<u8>) -> Option<u8>
    decreases b.len(),
{
    if b.len() == 0 {
        None
    } else if !ws_byte(b[0]) {
        Some(b[0])
    } else {
        first_nonws(b.skip(1))
    }
}

/// The PNG signature: `\x89PNG\r\n\x1a\n`.
pub open spec fn png_sig(b: Seq<u8>) -> bool {
    b.len() >= 8 && b[0] == 0x89 && b[1] == 0x50 && b[2] == 0x4e && b[3] == 0x47 && b[4] == 0x0d
        && b[5] == 0x0a && b[6] == 0x1a && b[7] == 0x0a
}

/// The JPEG signature: `\xff\xd8\xff`.
pub open spec fn jpeg_sig(b: Seq<u8>) -> bool {
    b.len() >= 3 && b[0] == 0xff && b[1] == 0xd8 && b[2] == 0xff
}

/// The GIF signature: `GIF87a` or `GIF89a`.
pub open spec fn gif_sig(b: Seq<u8>) -> bool {
    b.len() >= 6 && b[0] == 0x47 && b[1] == 0x49 && b[2] == 0x46 && b[3] == 0x38 && (b[4] == 0x37
        || b[4] == 0x39) && b[5] == 0x61
}

/// The type the sniffer infers from content alone. Binary signatures are
/// checked first; text content is classified by its first significant byte
/// (`{` or `[` as JSON, `<` as HTML, otherwise script); anything else is an
/// opaque byte stream.
pub open spec fn sniffed_type_spec(b: Seq<u8>) -> Seq<char> {
    if png_sig(b) {
        "image/png"@
    } else if jpeg_sig(b) {
        "image/jpeg"@
    } else if gif_sig(b) {
        "image/gif"@
    } else if !is_text(b) {
        "application/octet-stream"@
    } else {
        match first_nonws(b) {
            Some(c) => if c == 0x7b || c == 0x5b {
                "text/json"@
            } else if c == 0x3c {
                "text/html"@
            } else {
                "application/javascript"@
            },
            None => "application/javascript"@,
        }
    }
}

/// The expectation a path carries: the table entry for its extension.
pub open spec fn expected_of_path(p: Seq<char>) -> Option<Seq<char>> {
    match extension_of(p) {
        Some(e) => expected_type_spec(e),
        None => None,
    }
}

/// The resolved type: a carried expectation must be confirmed by the sniff
/// or resolution fails closed; without an expectation the sniff decides.
pub open spec fn resolved_type_spec(p: Seq<char>, b: Seq<u8>) -> Option<Seq<char>> {
    match expected_of_path(p) {
        Some(t) => if sniffed_type_spec(b) == t {
            Some(t)
        } else {
            None
        },
        None => Some(sniffed_type_spec(b)),
    }
}

/// The three signals of one resolution: the extension-derived expectation,
/// the type sniffed from the bytes, and the validated final answer.
pub struct MimeDecision {
    pub expected_type: Option<String>,
    pub sniffed_type: String,
    pub resolved_type: Option<String>,
}

/// When the final `.` of `p` stands at `d`, the extension is everything
/// after it.
proof fn lemma_extension_at(p: Seq<char>, d: int)
    requires
        0 <= d < p.len(),
        p[d] == '.',
        forall|j: int| d < j < p.len() ==> p[j] != '.',
    ensures
        extension_of(p) == Some(p.subrange(d + 1, p.len() as int)),
    decreases p.len(),
{
    if d == p.len() - 1 {
        assert(p.subrange(d + 1, p.len() as int) =~= Seq::<char>::empty());
    } else {
        let t = p.drop_last();
        assert(forall|j: int| 0 <= j < t.len() ==> t[j] == p[j]);
        lemma_extension_at(t, d);
        assert(t.subrange(d + 1, t.len() as int).push(p.last()) =~= p.subrange(
            d + 1,
            p.len() as int,
        ));
    }
}

/// A path without any `.` has no extension.
proof fn lemma_no_extension(p: Seq<char>)
    requires
        forall|j: int| 0 <= j < p.len() ==> p[j] != '.',
    ensures
        extension_of(p) is None,
    decreases p.len(),
{
    if p.len() > 0 {
        let t = p.drop_last();
        assert(forall|j: int| 0 <= j < t.len() ==> t[j] == p[j]);
        lemma_no_extension(t);
    }
}

/// Skipping a whitespace prefix does not change the first significant byte.
proof fn lemma_first_nonws_skip(b: Seq<u8>, i: int)
    requires
        0 <= i <= b.len(),
        forall|j: int| 0 <= j < i ==> ws_byte(#[trigger] b[j]),
    ensures
        first_nonws(b) == first_nonws(b.skip(i)),
    decreases i,
{
    if i == 0 {
        assert(b.skip(0) =~= b);
    } else {
        let t = b.skip(1);
        assert(forall|j: int| 0 <= j < i - 1 ==> ws_byte(#[trigger] t[j]));
        lemma_first_nonws_skip(t, i - 1);
        assert(t.skip(i - 1) =~= b.skip(i));
    }
}

/// Extracts the extension of `path`: the suffix after its final `.`.
pub fn extension(path: &str) -> (r: Option<String>)
    ensures
        match r {
            Some(e) => extension_of(path@) == Some(e@),
            None => extension_of(path@) is None,
        },
{
    let n = path.unicode_len();
    let mut i: usize = n;
    while i > 0
        invariant
            i <= n == path@.len(),
            forall|j: int| i <= j < n ==> path@[j] != '.',
        decreases i,
    {
        let c = path.get_char(i - 1);
        if c == '.' {
            let ext = path.substring_char(i, n);
            proof {
                lemma_extension_at(path@, i - 1);
            }
            return Some(ext.to_owned());
        }
        i -= 1;
    }
    proof {
        lemma_no_extension(path@);
    }
    None
}

/// Character-for-character string comparison, stated over the views.
fn str_eq(a: &str, b: &str) -> (r: bool)
    ensures
        r == (a@ == b@),
{
    let x = a.to_owned();
    let y = b.to_owned();
    x == y
}

/// The table entry for one extension, if any.
pub fn expected_type(ext: &str) -> (r: Option<String>)
    ensures
        match r {
            Some(t) => expected_type_spec(ext@) == Some(t@),
            None => expected_type_spec(ext@) is None,
        },
{
    if str_eq(ext, "png") {
        Some("image/png".to_owned())
    } else if str_eq(ext, "jpg") || str_eq(ext, "jpeg") {
        Some("image/jpeg".to_owned())
    } else if str_eq(ext, "gif") {
        Some("image/gif".to_owned())
    } else if str_eq(ext, "js") {
        Some("application/javascript".to_owned())
    } else if str_eq(ext, "json") {
        Some("text/json".to_owned())
    } else if str_eq(ext, "html") {
        Some("text/html".to_owned())
    } else {
        None
    }
}

/// Whether the content is plain ASCII text throughout.
fn content_is_text(bytes: &[u8]) -> (r: bool)
    ensures
        r == is_text(bytes@),
{
    let n = bytes.len();
    let mut i: usize = 0;
    while i < n
        invariant
            i <= n == bytes@.len(),
            forall|j: int| 0 <= j < i ==> text_byte(#[trigger] bytes@[j]),
        decreases n - i,
    {
        let b = bytes[i];
        if !(b == 0x09 || b == 0x0a || b == 0x0d || (0x20 <= b && b <= 0x7e)) {
            assert(!text_byte(bytes@[i as int]));
            return false;
        }
        i += 1;
    }
    true
}

/// The first byte that is not ASCII whitespace, if any.
fn content_first_nonws(bytes: &[u8]) -> (r: Option<u8>)
    ensures
        r == first_nonws(bytes@),
{
    let n = bytes.len();
    let mut i: usize = 0;
    while i < n
        invariant
            i <= n == bytes@.len(),
            forall|j: int| 0 <= j < i ==> ws_byte(#[trigger] bytes@[j]),
        decreases n - i,
    {
        let b = bytes[i];
        if !(b == 0x20 || b == 0x09 || b == 0x0a || b == 0x0d) {
            proof {
                lemma_first_nonws_skip(bytes@, i as int);
                assert(bytes@.skip(i as int)[0] == bytes@[i as int]);
            }
            return Some(b);
        }
        i += 1;
    }
    proof {
        lemma_first_nonws_skip(bytes@, n as int);
    }
    None
}

/// Infers a MIME type from content alone; always produces one.
pub fn sniff(bytes: &[u8]) -> (r: String)
    ensures
        r@ == sniffed_type_spec(bytes@),
{
    if bytes.len() >= 8 && bytes[0] == 0x89 && bytes[1] == 0x50 && bytes[2] == 0x4e && bytes[3]
        == 0x47 && bytes[4] == 0x0d && bytes[5] == 0x0a && bytes[6] == 0x1a && bytes[7] == 0x0a {
        return "image/png".to_owned();
    }
    if bytes.len() >= 3 && bytes[0] == 0xff && bytes[1] == 0xd8 && bytes[2] == 0xff {
        return "image/jpeg".to_owned();
    }
    if bytes.len() >= 6 && bytes[0] == 0x47 && bytes[1] == 0x49 && bytes[2] == 0x46 && bytes[3]
        == 0x38 && (bytes[4] == 0x37 || bytes[4] == 0x39) && bytes[5] == 0x61 {
        return "image/gif".to_owned();
    }
    if !content_is_text(bytes) {
        return "application/octet-stream".to_owned();
    }
    match content_first_nonws(bytes) {
        Some(b) => if b == 0x7b || b == 0x5b {
            "text/json".to_owned()
        } else if b == 0x3c {
            "text/html".to_owned()
        } else {
            "application/javascript".to_owned()
        },
        None => "application/javascript".to_owned(),
    }
}

/// Resolves one file's type in full: the expectation its extension carries,
/// the type its bytes sniff as, and the validated answer.
pub fn mime_decision(path: &str, bytes: &[u8]) -> (d: MimeDecision)
    ensures
        match d.expected_type {
            Some(t) => expected_of_path(path@) == Some(t@),
            None => expected_of_path(path@) is None,
        },
        d.sniffed_type@ == sniffed_type_spec(bytes@),
        match d.resolved_type {
            Some(t) => resolved_type_spec(path@, bytes@) == Some(t@),
            None => resolved_type_spec(path@, bytes@) is None,
        },
{
    let sniffed = sniff(bytes);
    let expected: Option<String> = match extension(path) {
        Some(e) => expected_type(e.as_str()),
        None => None,
    };
    match expected {
        Some(t) => {
            if sniffed == t {
                MimeDecision {
                    expected_type: Some(t.clone()),
                    sniffed_type: sniffed,
                    resolved_type: Some(t),
                }
            } else {
                MimeDecision {
                    expected_type: Some(t),
                    sniffed_type: sniffed,
                    resolved_type: None,
                }
            }
        },
        None => {
            let resolved = sniffed.clone();
            MimeDecision {
                expected_type: None,
                sniffed_type: sniffed,
                resolved_type: Some(resolved),
            }
        },
    }
}

/// The validated MIME type for a path and its bytes: the extension-derived
/// expectation when the sniff confirms it, nothing when the sniff
/// contradicts it, and the sniffed type alone when no expectation exists.
pub fn resolve_content_type(path: &str, bytes: &[u8]) -> (r: Option<String>)
    ensures
        match r {
            Some(t) => resolved_type_spec(path@, bytes@) == Some(t@),
            None => resolved_type_spec(path@, bytes@) is None,
        },
{
    let d = mime_decision(path, bytes);
    d.resolved_type
}

} // verus!
