//! The signature marker and the rule that splices it into a document.
//!
//! A document is signed over its exact bytes; a newline and the marker are
//! then inserted just before the first `</head>`, or, where the document has
//! no `</head>`, just after the first `<head>`.
//! `extract_marker` undoes that insertion exactly.
use vstd::prelude::*;
use crate::crypto::is_base64_byte;
use crate::text::{append_range, find_bytes, find_first, find_from, lemma_find_from_characterized, match_at};

verus! {

/// Length of the base64 text of a 64-byte signature.
pub const SIGNATURE_TEXT_LEN: usize = 88;

/// Length of the fixed text before the signature inside the marker.
pub const MARKER_PREFIX_LEN: usize = 82;

/// Length of the fixed text after the signature inside the marker.
pub const MARKER_SUFFIX_LEN: usize = 11;

/// Length of a complete marker.
pub const MARKER_LEN: usize = 181;

/// `<head>`
pub open spec fn head_open() -> Seq<u8> {
    seq![60u8, 104, 101, 97, 100, 62]
}

/// `</head>`
pub open spec fn head_close() -> Seq<u8> {
    seq![60u8, 47, 104, 101, 97, 100, 62]
}

/// `<script type="application/json" id="dkic-signature">{"alg":"ed25519","signature":"`
pub open spec fn marker_prefix() -> Seq<u8> {
    seq![
        60u8, 115, 99, 114, 105, 112, 116, 32, 116, 121, 112, 101, 61, 34, 97, 112, 112, 108,
        105, 99, 97, 116, 105, 111, 110, 47, 106, 115, 111, 110, 34, 32, 105, 100, 61, 34, 100,
        107, 105, 99, 45, 115, 105, 103, 110, 97, 116, 117, 114, 101, 34, 62, 123, 34, 97, 108,
        103, 34, 58, 34, 101, 100, 50, 53, 53, 49, 57, 34, 44, 34, 115, 105, 103, 110, 97, 116,
        117, 114, 101, 34, 58, 34,
    ]
}

/// `"}</script>`
pub open spec fn marker_suffix() -> Seq<u8> {
    seq![34u8, 125, 60, 47, 115, 99, 114, 105, 112, 116, 62]
}

/// The marker text that carries the base64 text of a signature.
pub open spec fn marker_text(sig_text: Seq<u8>) -> Seq<u8> {
    marker_prefix() + sig_text + marker_suffix()
}

/// Text that can stand as the signature inside a marker: the base64 text of
/// a 64-byte signature.
pub open spec fn is_signature_text(sig_text: Seq<u8>) -> bool {
    sig_text.len() == SIGNATURE_TEXT_LEN && forall|i: int|
        0 <= i < sig_text.len() ==> is_base64_byte(#[trigger] sig_text[i])
}

/// The document with `marker` spliced in at its anchor, or `None` where it has
/// neither `</head>` nor `<head>`.
pub open spec fn embed(doc: Seq<u8>, marker: Seq<u8>) -> Option<Seq<u8>> {
    match find_first(doc, head_close()) {
        Some(i) => Some(doc.subrange(0, i) + seq![10u8] + marker + doc.subrange(i, doc.len() as int)),
        None => match find_first(doc, head_open()) {
            Some(h) => Some(
                doc.subrange(0, h + 6) + seq![10u8] + marker + doc.subrange(h + 6, doc.len() as int),
            ),
            None => None,
        },
    }
}

/// A complete marker starts at index `k` of `s`.
pub open spec fn marker_at(s: Seq<u8>, k: int) -> bool {
    &&& 0 <= k
    &&& k + MARKER_LEN <= s.len()
    &&& s.subrange(k, k + MARKER_PREFIX_LEN) == marker_prefix()
    &&& s.subrange(k + MARKER_LEN - MARKER_SUFFIX_LEN, k + MARKER_LEN) == marker_suffix()
}

/// The signature text of the marker that starts at index `k`.
pub open spec fn sig_text_at(s: Seq<u8>, k: int) -> Seq<u8> {
    s.subrange(k + MARKER_PREFIX_LEN, k + MARKER_PREFIX_LEN + SIGNATURE_TEXT_LEN)
}

/// Where a signed document carries its marker: at the insertion point that
/// `embed` uses, read off the signed bytes. The result is the document without
/// the marker and its newline, and the signature text.
pub open spec fn extract(s: Seq<u8>) -> Option<(Seq<u8>, Seq<u8>)> {
    match find_first(s, head_close()) {
        Some(k) => {
            let m = k - MARKER_LEN;
            if m >= 1 && s[m - 1] == 10u8 && marker_at(s, m) {
                Some((s.subrange(0, m - 1) + s.subrange(k, s.len() as int), sig_text_at(s, m)))
            } else {
                None
            }
        },
        None => match find_first(s, head_open()) {
            Some(h) => {
                let a = h + 6;
                if a < s.len() && s[a] == 10u8 && marker_at(s, a + 1) {
                    Some(
                        (
                            s.subrange(0, a) + s.subrange(a + 1 + MARKER_LEN, s.len() as int),
                            sig_text_at(s, a + 1),
                        ),
                    )
                } else {
                    None
                }
            },
            None => None,
        },
    }
}

/// The only `<` bytes of a marker are its first byte and the one that opens
/// `</script>`.
proof fn lemma_marker_lt_positions(sig_text: Seq<u8>)
    requires
        is_signature_text(sig_text),
    ensures
        marker_text(sig_text).len() == MARKER_LEN,
        forall|w: int|
            0 <= w < MARKER_LEN && #[trigger] marker_text(sig_text)[w] == 60u8 ==> w == 0 || w
                == MARKER_LEN - 9,
{
    let p = marker_prefix();
    let s = marker_suffix();
    let m = marker_text(sig_text);
    assert(p.len() == MARKER_PREFIX_LEN);
    assert(s.len() == MARKER_SUFFIX_LEN);
    assert forall|w: int| 0 <= w < MARKER_LEN && #[trigger] m[w] == 60u8 implies w == 0 || w
        == MARKER_LEN - 9 by {
        if w < MARKER_PREFIX_LEN {
            assert(m[w] == p[w]);
        } else if w < MARKER_PREFIX_LEN + SIGNATURE_TEXT_LEN {
            assert(m[w] == sig_text[w - MARKER_PREFIX_LEN]);
        } else {
            assert(m[w] == s[w - MARKER_PREFIX_LEN - SIGNATURE_TEXT_LEN]);
        }
    }
}

/// A marker holds no `</head>`, begins with `<` and ends with `>`.
proof fn lemma_marker_shape(sig_text: Seq<u8>)
    requires
        is_signature_text(sig_text),
    ensures
        marker_text(sig_text).len() == MARKER_LEN,
        marker_text(sig_text)[0] == 60u8,
        marker_text(sig_text)[MARKER_LEN - 1] == 62u8,
        forall|j: int| !match_at(marker_text(sig_text), head_close(), j),
{
    let m = marker_text(sig_text);
    let c = head_close();
    lemma_marker_lt_positions(sig_text);
    assert(m[1] == marker_prefix()[1]);
    assert(m[MARKER_LEN - 7] == marker_suffix()[4]);
    assert(m[0] == marker_prefix()[0]);
    assert(m[MARKER_LEN - 1] == marker_suffix()[10]);
    assert forall|j: int| !match_at(m, c, j) by {
        if match_at(m, c, j) {
            assert(m.subrange(j, j + 7)[0] == c[0]);
            assert(m.subrange(j, j + 7)[1] == c[1]);
            assert(m.subrange(j, j + 7)[2] == c[2]);
            assert(m[j] == 60u8);
        }
    }
}

/// Which bytes `</head>` holds where.
proof fn lemma_close_bytes()
    ensures
        forall|q: int| 0 <= q < 7 ==> #[trigger] head_close()[q] != 10u8,
        forall|q: int| 1 <= q < 7 ==> #[trigger] head_close()[q] != 60u8,
        forall|q: int| 0 <= q < 6 ==> #[trigger] head_close()[q] != 62u8,
        head_close().len() == 7,
        head_open().len() == 6,
{
}

/// Splicing a marker in and extracting it again gives back the document and
/// the signature text, byte for byte.
#[verifier::rlimit(60)]
pub proof fn lemma_extract_embed(doc: Seq<u8>, sig_text: Seq<u8>)
    requires
        is_signature_text(sig_text),
        embed(doc, marker_text(sig_text)) is Some,
    ensures
        extract(embed(doc, marker_text(sig_text))->Some_0) == Some((doc, sig_text)),
{
    let m = marker_text(sig_text);
    let c = head_close();
    let o = head_open();
    let n = doc.len() as int;
    let l = MARKER_LEN as int;
    lemma_marker_shape(sig_text);
    lemma_close_bytes();
    let t = embed(doc, m)->Some_0;
    match find_first(doc, c) {
        Some(i) => {
            lemma_find_from_characterized(doc, c, 0, Some(i));
            assert(t == doc.subrange(0, i) + seq![10u8] + m + doc.subrange(i, n));
            assert(t.len() == n + l + 1);
            assert forall|x: int| 0 <= x < i implies t[x] == doc[x] by {}
            assert(t[i] == 10u8);
            assert forall|x: int| i < x <= i + l implies t[x] == m[x - i - 1] by {}
            assert forall|x: int| i + l < x < t.len() implies t[x] == doc[x - l - 1] by {}
            let k = i + l + 1;
            assert(t.subrange(k, k + 7) =~= doc.subrange(i, i + 7));
            assert forall|j: int| 0 <= j < k implies !match_at(t, c, j) by {
                if match_at(t, c, j) {
                    let w = t.subrange(j, j + 7);
                    assert(w == c);
                    if j + 7 <= i {
                        assert(doc.subrange(j, j + 7) =~= w);
                        assert(match_at(doc, c, j));
                    } else if j <= i {
                        assert(w[i - j] == t[i]);
                        assert(c[i - j] == 10u8);
                    } else if j + 7 <= i + 1 + l {
                        assert(m.subrange(j - i - 1, j - i + 6) =~= w);
                        assert(match_at(m, c, j - i - 1));
                    } else {
                        assert(w[i + l - j] == t[i + l]);
                        assert(t[i + l] == m[l - 1]);
                        assert(c[i + l - j] == 62u8);
                    }
                    assert(false);
                }
            }
            lemma_find_from_characterized(t, c, 0, Some(k));
            assert(t.subrange(i + 1, i + 1 + MARKER_PREFIX_LEN) =~= marker_prefix());
            assert(t.subrange(i + 1 + l - MARKER_SUFFIX_LEN, i + 1 + l) =~= marker_suffix());
            assert(sig_text_at(t, i + 1) =~= sig_text);
            assert(t.subrange(0, i) + t.subrange(k, t.len() as int) =~= doc);
        },
        None => {
            lemma_find_from_characterized(doc, c, 0, None);
            let h = find_first(doc, o)->Some_0;
            lemma_find_from_characterized(doc, o, 0, Some(h));
            let a = h + 6;
            assert(t == doc.subrange(0, a) + seq![10u8] + m + doc.subrange(a, n));
            assert(t.len() == n + l + 1);
            assert forall|x: int| 0 <= x < a implies t[x] == doc[x] by {}
            assert(t[a] == 10u8);
            assert forall|x: int| a < x <= a + l implies t[x] == m[x - a - 1] by {}
            assert forall|x: int| a + l < x < t.len() implies t[x] == doc[x - l - 1] by {}
            assert forall|j: int| 0 <= j implies !match_at(t, c, j) by {
                if match_at(t, c, j) {
                    let w = t.subrange(j, j + 7);
                    assert(w == c);
                    if j + 7 <= a {
                        assert(doc.subrange(j, j + 7) =~= w);
                        assert(match_at(doc, c, j));
                    } else if j <= a {
                        assert(w[a - j] == t[a]);
                        assert(c[a - j] == 10u8);
                    } else if j + 7 <= a + 1 + l {
                        assert(m.subrange(j - a - 1, j - a + 6) =~= w);
                        assert(match_at(m, c, j - a - 1));
                    } else if j <= a + l {
                        assert(w[a + l - j] == t[a + l]);
                        assert(t[a + l] == m[l - 1]);
                        assert(c[a + l - j] == 62u8);
                    } else {
                        assert(doc.subrange(j - l - 1, j - l + 6) =~= w);
                        assert(match_at(doc, c, j - l - 1));
                    }
                    assert(false);
                }
            }
            lemma_find_from_characterized(t, c, 0, None);
            assert(t.subrange(h, h + 6) =~= doc.subrange(h, h + 6));
            assert forall|j: int| 0 <= j < h implies !match_at(t, o, j) by {
                if match_at(t, o, j) {
                    assert(doc.subrange(j, j + 6) =~= t.subrange(j, j + 6));
                    assert(match_at(doc, o, j));
                    assert(false);
                }
            }
            lemma_find_from_characterized(t, o, 0, Some(h));
            assert(t.subrange(a + 1, a + 1 + MARKER_PREFIX_LEN) =~= marker_prefix());
            assert(t.subrange(a + 1 + l - MARKER_SUFFIX_LEN, a + 1 + l) =~= marker_suffix());
            assert(sig_text_at(t, a + 1) =~= sig_text);
            assert(t.subrange(0, a) + t.subrange(a + 1 + l, t.len() as int) =~= doc);
        },
    }
}

/// Where a document holds no `</head>` but does hold `<head>`, the marker goes
/// right after the first `<head>`, preceded by a newline; where it holds
/// neither, nothing is spliced in.
pub proof fn lemma_anchor_fallback(doc: Seq<u8>, marker: Seq<u8>)
    requires
        forall|j: int| !match_at(doc, head_close(), j),
    ensures
        forall|h: int|
            #[trigger] match_at(doc, head_open(), h) && (forall|j: int|
                0 <= j < h ==> !match_at(doc, head_open(), j)) ==> embed(doc, marker) == Some(
                doc.subrange(0, h + 6) + seq![10u8] + marker + doc.subrange(h + 6, doc.len() as int),
            ),
        (forall|j: int| !match_at(doc, head_open(), j)) ==> embed(doc, marker) is None,
{
    lemma_find_from_characterized(doc, head_close(), 0, None);
    assert forall|h: int|
        #[trigger] match_at(doc, head_open(), h) && (forall|j: int|
            0 <= j < h ==> !match_at(doc, head_open(), j)) implies embed(doc, marker) == Some(
        doc.subrange(0, h + 6) + seq![10u8] + marker + doc.subrange(h + 6, doc.len() as int),
    ) by {
        lemma_find_from_characterized(doc, head_open(), 0, Some(h));
    }
    if forall|j: int| !match_at(doc, head_open(), j) {
        lemma_find_from_characterized(doc, head_open(), 0, None);
    }
}

fn head_open_bytes() -> (r: Vec<u8>)
    ensures
        r@ == head_open(),
{
    let r = vec![60u8, 104, 101, 97, 100, 62];
    assert(r@ =~= head_open());
    r
}

fn head_close_bytes() -> (r: Vec<u8>)
    ensures
        r@ == head_close(),
{
    let r = vec![60u8, 47, 104, 101, 97, 100, 62];
    assert(r@ =~= head_close());
    r
}

fn marker_prefix_bytes() -> (r: Vec<u8>)
    ensures
        r@ == marker_prefix(),
{
    let r = vec![
        60, 115, 99, 114, 105, 112, 116, 32, 116, 121, 112, 101, 61, 34, 97, 112, 112, 108, 105, 99, 97, 116, 105, 111, 110, 47, 106, 115, 111, 110, 34, 32, 105, 100, 61, 34, 100, 107, 105, 99, 45, 115, 105, 103, 110, 97, 116, 117, 114, 101, 34, 62, 123, 34, 97, 108, 103, 34, 58, 34, 101, 100, 50, 53, 53, 49, 57, 34, 44, 34, 115, 105, 103, 110, 97, 116, 117, 114, 101, 34, 58, 34
    ];
    assert(r@ =~= marker_prefix());
    r
}

fn marker_suffix_bytes() -> (r: Vec<u8>)
    ensures
        r@ == marker_suffix(),
{
    let r = vec![34u8, 125, 60, 47, 115, 99, 114, 105, 112, 116, 62];
    assert(r@ =~= marker_suffix());
    r
}

/// Whether `p` occurs in `s` at index `k`.
fn bytes_at(s: &Vec<u8>, k: usize, p: &Vec<u8>) -> (r: bool)
    ensures
        r == match_at(s@, p@, k as int),
{
    if p.len() > s.len() || k > s.len() - p.len() {
        return false;
    }
    let len = s.len();
    let mut j: usize = 0;
    while j < p.len()
        invariant
            len == s@.len(),
            k + p@.len() <= len,
            j <= p@.len(),
            forall|t: int| 0 <= t < j ==> s@[k + t] == p@[t],
        decreases p@.len() - j,
    {
        if s[k + j] != p[j] {
            assert(s@.subrange(k as int, k + p@.len())[j as int] != p@[j as int]);
            return false;
        }
        j = j + 1;
    }
    assert(s@.subrange(k as int, k + p@.len()) =~= p@);
    true
}

/// The marker text for the base64 text of a signature.
pub fn make_marker(sig_text: &Vec<u8>) -> (r: Vec<u8>)
    ensures
        r@ == marker_text(sig_text@),
{
    let mut r = marker_prefix_bytes();
    append_range(&mut r, sig_text, 0, sig_text.len());
    let suffix = marker_suffix_bytes();
    append_range(&mut r, &suffix, 0, suffix.len());
    assert(sig_text@.subrange(0, sig_text@.len() as int) =~= sig_text@);
    assert(suffix@.subrange(0, suffix@.len() as int) =~= suffix@);
    r
}

/// Splices `marker` into `doc` at its anchor; `None` where `doc` has neither
/// `</head>` nor `<head>`.
pub fn embed_marker(doc: &Vec<u8>, marker: &Vec<u8>) -> (r: Option<Vec<u8>>)
    ensures
        r matches Some(v) ==> embed(doc@, marker@) == Some(v@),
        r is None <==> embed(doc@, marker@) is None,
{
    let n = doc.len();
    let close = head_close_bytes();
    match find_bytes(doc, &close) {
        Some(i) => {
            proof { lemma_find_from_characterized(doc@, close@, 0, Some(i as int)); }
            let mut out: Vec<u8> = Vec::new();
            append_range(&mut out, doc, 0, i);
            out.push(10u8);
            append_range(&mut out, marker, 0, marker.len());
            append_range(&mut out, doc, i, n);
            assert(marker@.subrange(0, marker@.len() as int) =~= marker@);
            assert(out@ =~= doc@.subrange(0, i as int) + seq![10u8] + marker@ + doc@.subrange(i as int, n as int));
            Some(out)
        },
        None => {
            let open = head_open_bytes();
            match find_bytes(doc, &open) {
                Some(h) => {
                    proof { lemma_find_from_characterized(doc@, open@, 0, Some(h as int)); }
                    let a = h + 6;
                    let mut out: Vec<u8> = Vec::new();
                    append_range(&mut out, doc, 0, a);
                    out.push(10u8);
                    append_range(&mut out, marker, 0, marker.len());
                    append_range(&mut out, doc, a, n);
                    assert(marker@.subrange(0, marker@.len() as int) =~= marker@);
                    assert(out@ =~= doc@.subrange(0, a as int) + seq![10u8] + marker@ + doc@.subrange(a as int, n as int));
                    Some(out)
                },
                None => None,
            }
        },
    }
}

/// Finds the marker that `embed_marker` put into a signed document and returns
/// the document without it, and the signature text it carries.
pub fn extract_marker(signed: &Vec<u8>) -> (r: Option<(Vec<u8>, Vec<u8>)>)
    ensures
        r matches Some(v) ==> extract(signed@) == Some((v.0@, v.1@)),
        r is None <==> extract(signed@) is None,
{
    let n = signed.len();
    let close = head_close_bytes();
    let prefix = marker_prefix_bytes();
    let suffix = marker_suffix_bytes();
    let start: usize;
    let resume: usize;
    let cut: usize;
    match find_bytes(signed, &close) {
        Some(k) => {
            proof { lemma_find_from_characterized(signed@, close@, 0, Some(k as int)); }
            if k < MARKER_LEN + 1 || signed[k - MARKER_LEN - 1] != 10u8 {
                return None;
            }
            start = k - MARKER_LEN;
            resume = k;
            cut = start - 1;
        },
        None => {
            let open = head_open_bytes();
            match find_bytes(signed, &open) {
                Some(h) => {
                    proof { lemma_find_from_characterized(signed@, open@, 0, Some(h as int)); }
                    let a = h + 6;
                    if a >= n || signed[a] != 10u8 || n - a - 1 < MARKER_LEN {
                        return None;
                    }
                    start = a + 1;
                    resume = a + 1 + MARKER_LEN;
                    cut = a;
                },
                None => {
                    return None;
                },
            }
        },
    }
    if !bytes_at(signed, start, &prefix) || !bytes_at(signed, start + MARKER_LEN - MARKER_SUFFIX_LEN, &suffix) {
        return None;
    }
    let mut original: Vec<u8> = Vec::new();
    append_range(&mut original, signed, 0, cut);
    append_range(&mut original, signed, resume, n);
    let mut sig_text: Vec<u8> = Vec::new();
    append_range(&mut sig_text, signed, start + MARKER_PREFIX_LEN, start + MARKER_PREFIX_LEN + SIGNATURE_TEXT_LEN);
    Some((original, sig_text))
}

} // verus!
