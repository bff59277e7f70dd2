//! The wire format of the export service: the JSON-shaped submission payload
//! and the few fields the client reads out of response bodies.
//!
//! Everything works on byte sequences, exactly as the bytes travel over the
//! wire; the functions are specified against spec-level grammars so that the
//! round trip (build a payload, read it back) can be proved.
//!
//! Response fields are read by scanning for the quoted key and taking the
//! value after its first occurrence — for the service's documented response
//! bodies that occurrence is the field itself. The contracts state this
//! scan exactly, so a caller knows precisely what is and is not read.

use vstd::prelude::*;

verus! {

// Byte values of the wire format's punctuation.
pub const QUOTE: u8 = 34;
pub const BACKSLASH: u8 = 92;
pub const RBRACKET: u8 = 93;
pub const COMMA: u8 = 44;
pub const COLON: u8 = 58;
pub const SPACE: u8 = 32;
pub const TAB: u8 = 9;
pub const LINEFEED: u8 = 10;
pub const CARRIAGE_RETURN: u8 = 13;
pub const DIGIT_ZERO: u8 = 48;

/// How one byte of a string is written inside a JSON string literal:
/// quotes and backslashes get a backslash escape, everything else is copied.
pub open spec fn esc_byte(b: u8) -> Seq<u8> {
    if b == QUOTE {
        seq![BACKSLASH, QUOTE]
    } else if b == BACKSLASH {
        seq![BACKSLASH, BACKSLASH]
    } else {
        seq![b]
    }
}

/// The escaped form of a whole string.
pub open spec fn esc(s: Seq<u8>) -> Seq<u8>
    decreases s.len(),
{
    if s.len() == 0 {
        Seq::empty()
    } else {
        esc_byte(s[0]) + esc(s.skip(1))
    }
}

/// A string as it stands in the payload: escaped and wrapped in quotes.
pub open spec fn quoted(s: Seq<u8>) -> Seq<u8> {
    seq![QUOTE] + esc(s) + seq![QUOTE]
}

pub proof fn lemma_esc_append(a: Seq<u8>, b: Seq<u8>)
    ensures
        esc(a + b) == esc(a) + esc(b),
    decreases a.len(),
{
    if a.len() == 0 {
        assert(a + b =~= b);
        assert(esc(a) + esc(b) =~= esc(b));
    } else {
        assert((a + b).skip(1) =~= a.skip(1) + b);
        lemma_esc_append(a.skip(1), b);
        assert(esc_byte((a + b)[0]) + (esc(a.skip(1)) + esc(b)) =~= (esc_byte(a[0]) + esc(
            a.skip(1),
        )) + esc(b));
    }
}

pub proof fn lemma_esc_singleton(b: u8)
    ensures
        esc(seq![b]) == esc_byte(b),
{
    let s = seq![b];
    assert(s.skip(1) =~= Seq::<u8>::empty());
    assert(esc(s) == esc_byte(b) + esc(s.skip(1)));
    assert(esc(s.skip(1)) == Seq::<u8>::empty());
    assert(esc_byte(b) + Seq::<u8>::empty() =~= esc_byte(b));
}

/// Appends the escaped form of `s` to `out`.
pub fn escape_into(s: &[u8], out: &mut Vec<u8>)
    ensures
        final(out)@ == old(out)@ + esc(s@),
{
    let ghost orig = out@;
    let mut i: usize = 0;
    while i < s.len()
        invariant
            i <= s.len(),
            out@ == orig + esc(s@.take(i as int)),
        decreases s.len() - i,
    {
        let b = s[i];
        if b == QUOTE || b == BACKSLASH {
            out.push(BACKSLASH);
        }
        out.push(b);
        proof {
            assert(s@.take(i + 1 as int) =~= s@.take(i as int) + seq![s@[i as int]]);
            lemma_esc_append(s@.take(i as int), seq![s@[i as int]]);
            lemma_esc_singleton(s@[i as int]);
            assert(out@ =~= orig + esc(s@.take(i + 1 as int)));
        }
        i = i + 1;
    }
    proof {
        assert(s@.take(s@.len() as int) =~= s@);
    }
}

/// Bytes of `{"featuretypes":[`.
pub open spec fn lit_payload_head() -> Seq<u8> {
    seq![123u8, 34, 102, 101, 97, 116, 117, 114, 101, 116, 121, 112, 101, 115, 34, 58, 91]
}

/// Appends `{"featuretypes":[` to `out`.
fn push_lit_payload_head(out: &mut Vec<u8>)
    ensures
        final(out)@ == old(out)@ + lit_payload_head(),
{
    let ghost orig = out@;
    out.push(123);
    out.push(34);
    out.push(102);
    out.push(101);
    out.push(97);
    out.push(116);
    out.push(117);
    out.push(114);
    out.push(101);
    out.push(116);
    out.push(121);
    out.push(112);
    out.push(101);
    out.push(115);
    out.push(34);
    out.push(58);
    out.push(91);
    proof {
        assert(out@ =~= orig + lit_payload_head());
    }
}

/// Bytes of `],"format":"gml","geofilter":`.
pub open spec fn lit_payload_mid() -> Seq<u8> {
    seq![93u8, 44, 34, 102, 111, 114, 109, 97, 116, 34, 58, 34, 103, 109, 108, 34, 44, 34, 103, 101, 111, 102, 105, 108, 116, 101, 114, 34, 58]
}

/// Appends `],"format":"gml","geofilter":` to `out`.
fn push_lit_payload_mid(out: &mut Vec<u8>)
    ensures
        final(out)@ == old(out)@ + lit_payload_mid(),
{
    let ghost orig = out@;
    out.push(93);
    out.push(44);
    out.push(34);
    out.push(102);
    out.push(111);
    out.push(114);
    out.push(109);
    out.push(97);
    out.push(116);
    out.push(34);
    out.push(58);
    out.push(34);
    out.push(103);
    out.push(109);
    out.push(108);
    out.push(34);
    out.push(44);
    out.push(34);
    out.push(103);
    out.push(101);
    out.push(111);
    out.push(102);
    out.push(105);
    out.push(108);
    out.push(116);
    out.push(101);
    out.push(114);
    out.push(34);
    out.push(58);
    proof {
        assert(out@ =~= orig + lit_payload_mid());
    }
}

/// Bytes of `}`.
pub open spec fn lit_payload_tail() -> Seq<u8> {
    seq![125u8]
}

/// Appends `}` to `out`.
fn push_lit_payload_tail(out: &mut Vec<u8>)
    ensures
        final(out)@ == old(out)@ + lit_payload_tail(),
{
    let ghost orig = out@;
    out.push(125);
    proof {
        assert(out@ =~= orig + lit_payload_tail());
    }
}

/// Bytes of `"downloadRequestId"`.
pub open spec fn tok_download_request_id() -> Seq<u8> {
    seq![34u8, 100, 111, 119, 110, 108, 111, 97, 100, 82, 101, 113, 117, 101, 115, 116, 73, 100, 34]
}

/// Appends `"downloadRequestId"` to `out`.
fn push_tok_download_request_id(out: &mut Vec<u8>)
    ensures
        final(out)@ == old(out)@ + tok_download_request_id(),
{
    let ghost orig = out@;
    out.push(34);
    out.push(100);
    out.push(111);
    out.push(119);
    out.push(110);
    out.push(108);
    out.push(111);
    out.push(97);
    out.push(100);
    out.push(82);
    out.push(101);
    out.push(113);
    out.push(117);
    out.push(101);
    out.push(115);
    out.push(116);
    out.push(73);
    out.push(100);
    out.push(34);
    proof {
        assert(out@ =~= orig + tok_download_request_id());
    }
}

/// Bytes of `"progress"`.
pub open spec fn tok_progress() -> Seq<u8> {
    seq![34u8, 112, 114, 111, 103, 114, 101, 115, 115, 34]
}

/// Appends `"progress"` to `out`.
fn push_tok_progress(out: &mut Vec<u8>)
    ensures
        final(out)@ == old(out)@ + tok_progress(),
{
    let ghost orig = out@;
    out.push(34);
    out.push(112);
    out.push(114);
    out.push(111);
    out.push(103);
    out.push(114);
    out.push(101);
    out.push(115);
    out.push(115);
    out.push(34);
    proof {
        assert(out@ =~= orig + tok_progress());
    }
}

/// Bytes of `"href"`.
pub open spec fn tok_href() -> Seq<u8> {
    seq![34u8, 104, 114, 101, 102, 34]
}

/// Appends `"href"` to `out`.
fn push_tok_href(out: &mut Vec<u8>)
    ensures
        final(out)@ == old(out)@ + tok_href(),
{
    let ghost orig = out@;
    out.push(34);
    out.push(104);
    out.push(114);
    out.push(101);
    out.push(102);
    out.push(34);
    proof {
        assert(out@ =~= orig + tok_href());
    }
}

/// The layer list of a submission, as a Verus sequence of byte strings.
pub open spec fn layers_view(v: Vec<Vec<u8>>) -> Seq<Seq<u8>> {
    Seq::new(v@.len(), |i: int| v@[i]@)
}

/// One export request: the data layers to export and the WKT polygon that
/// bounds the exported area. The output format is the service's fixed `gml`.
pub struct ExportRequest {
    pub feature_types: Vec<Vec<u8>>,
    pub geofilter: Vec<u8>,
}

impl ExportRequest {
    /// A request must name at least one layer and a non-empty area filter.
    pub open spec fn wf(&self) -> bool {
        self.feature_types@.len() > 0 && self.geofilter@.len() > 0
    }

    /// Builds a request, rejecting an empty layer list or an empty filter.
    pub fn new(feature_types: Vec<Vec<u8>>, geofilter: Vec<u8>) -> (r: Option<ExportRequest>)
        ensures
            match r {
                Some(req) => req.wf() && req.feature_types == feature_types && req.geofilter
                    == geofilter,
                None => feature_types@.len() == 0 || geofilter@.len() == 0,
            },
    {
        if feature_types.len() == 0 || geofilter.len() == 0 {
            None
        } else {
            Some(ExportRequest { feature_types, geofilter })
        }
    }
}

/// The comma-separated list of quoted layer names inside the payload.
pub open spec fn layer_list(ls: Seq<Seq<u8>>) -> Seq<u8>
    decreases ls.len(),
{
    if ls.len() == 0 {
        Seq::empty()
    } else if ls.len() == 1 {
        quoted(ls[0])
    } else {
        quoted(ls[0]) + seq![COMMA] + layer_list(ls.skip(1))
    }
}

pub proof fn lemma_layer_list_snoc(ls: Seq<Seq<u8>>, x: Seq<u8>)
    ensures
        layer_list(ls.push(x)) == if ls.len() == 0 {
            quoted(x)
        } else {
            layer_list(ls) + seq![COMMA] + quoted(x)
        },
    decreases ls.len(),
{
    let p = ls.push(x);
    if ls.len() == 0 {
        assert(p.len() == 1);
        assert(p[0] == x);
    } else if ls.len() == 1 {
        assert(p.skip(1) =~= seq![x]);
        assert(layer_list(p) == quoted(p[0]) + seq![COMMA] + layer_list(p.skip(1)));
        assert(layer_list(seq![x]) == quoted(x));
    } else {
        assert(p.skip(1) =~= ls.skip(1).push(x));
        lemma_layer_list_snoc(ls.skip(1), x);
        assert(layer_list(p) == quoted(p[0]) + seq![COMMA] + (layer_list(ls.skip(1)) + seq![COMMA]
            + quoted(x)));
        assert(quoted(p[0]) + seq![COMMA] + (layer_list(ls.skip(1)) + seq![COMMA] + quoted(x)) =~= (
        quoted(ls[0]) + seq![COMMA] + layer_list(ls.skip(1))) + seq![COMMA] + quoted(x));
    }
}

/// The whole submission payload for a given layer list and area filter:
/// `{"featuretypes":[...],"format":"gml","geofilter":"..."}`.
pub open spec fn payload_bytes(ft: Seq<Seq<u8>>, geo: Seq<u8>) -> Seq<u8> {
    lit_payload_head() + layer_list(ft) + lit_payload_mid() + quoted(geo) + lit_payload_tail()
}

/// Builds the submission payload the service expects for `req`.
pub fn build_submission_payload(req: &ExportRequest) -> (out: Vec<u8>)
    ensures
        out@ == payload_bytes(layers_view(req.feature_types), req.geofilter@),
{
    let ghost ft = layers_view(req.feature_types);
    let mut out: Vec<u8> = Vec::new();
    push_lit_payload_head(&mut out);
    let mut idx: usize = 0;
    while idx < req.feature_types.len()
        invariant
            idx <= req.feature_types.len(),
            ft == layers_view(req.feature_types),
            out@ == lit_payload_head() + layer_list(ft.take(idx as int)),
        decreases req.feature_types.len() - idx,
    {
        let ghost before = out@;
        if idx > 0 {
            out.push(COMMA);
        }
        out.push(QUOTE);
        escape_into(req.feature_types[idx].as_slice(), &mut out);
        out.push(QUOTE);
        proof {
            let item = ft[idx as int];
            assert(item == req.feature_types@[idx as int]@);
            lemma_layer_list_snoc(ft.take(idx as int), item);
            assert(ft.take(idx + 1 as int) =~= ft.take(idx as int).push(item));
            if idx == 0 {
                assert(out@ =~= before + quoted(item));
                assert(before + quoted(item) =~= lit_payload_head() + layer_list(ft.take(idx + 1 as int)));
            } else {
                assert(out@ =~= before + seq![COMMA] + quoted(item));
                assert(before + seq![COMMA] + quoted(item) =~= lit_payload_head() + layer_list(
                    ft.take(idx + 1 as int),
                ));
            }
        }
        idx = idx + 1;
    }
    proof {
        assert(ft.take(req.feature_types@.len() as int) =~= ft);
    }
    push_lit_payload_mid(&mut out);
    out.push(QUOTE);
    escape_into(req.geofilter.as_slice(), &mut out);
    out.push(QUOTE);
    push_lit_payload_tail(&mut out);
    proof {
        assert(out@ =~= payload_bytes(ft, req.geofilter@));
    }
    out
}


/// Whitespace bytes that may stand around `:` in a response body.
pub open spec fn is_ws(b: u8) -> bool {
    b == SPACE || b == TAB || b == LINEFEED || b == CARRIAGE_RETURN
}

pub open spec fn is_digit(b: u8) -> bool {
    DIGIT_ZERO <= b && b <= DIGIT_ZERO + 9
}

/// `pat` occurs in `s` at position `i`.
pub open spec fn match_at(s: Seq<u8>, pat: Seq<u8>, i: int) -> bool {
    &&& 0 <= i
    &&& i + pat.len() <= s.len()
    &&& forall|k: int| 0 <= k < pat.len() ==> s[i + k] == pat[k]
}

pub proof fn lemma_match_at_split(s: Seq<u8>, a: Seq<u8>, b: Seq<u8>, i: int)
    requires
        match_at(s, a + b, i),
    ensures
        match_at(s, a, i),
        match_at(s, b, i + a.len()),
{
    assert forall|k: int| 0 <= k < a.len() implies s[i + k] == a[k] by {
        assert(s[i + k] == (a + b)[k]);
    }
    assert forall|k: int| 0 <= k < b.len() implies s[i + a.len() + k] == b[k] by {
        assert(s[i + (a.len() + k)] == (a + b)[a.len() + k]);
        assert(i + a.len() + k == i + (a.len() + k));
    }
}

/// The first position at or after `i` that does not hold whitespace.
pub open spec fn skip_ws(s: Seq<u8>, i: int) -> int
    decreases s.len() - i,
{
    if 0 <= i && i < s.len() && is_ws(s[i]) {
        skip_ws(s, i + 1)
    } else {
        i
    }
}

/// Reads a JSON string whose opening quote stands just before position `i`,
/// undoing the backslash escapes; yields the contents and the position just
/// after the closing quote.
pub open spec fn parse_qstr(s: Seq<u8>, i: int) -> Option<(Seq<u8>, int)>
    decreases s.len() - i,
{
    if i < 0 || i >= s.len() {
        None
    } else if s[i] == QUOTE {
        Some((Seq::empty(), i + 1))
    } else if s[i] == BACKSLASH {
        if i + 2 <= s.len() && (s[i + 1] == QUOTE || s[i + 1] == BACKSLASH) {
            match parse_qstr(s, i + 2) {
                Some((c, j)) => Some((seq![s[i + 1]] + c, j)),
                None => None,
            }
        } else {
            None
        }
    } else {
        match parse_qstr(s, i + 1) {
            Some((c, j)) => Some((seq![s[i]] + c, j)),
            None => None,
        }
    }
}

/// Reads the canonical layer list from position `i` up to (not including)
/// the closing `]`; yields the layers and the position of the `]`.
pub open spec fn parse_layers(s: Seq<u8>, i: int) -> Option<(Seq<Seq<u8>>, int)>
    decreases s.len() - i,
{
    if i < 0 || i >= s.len() {
        None
    } else if s[i] == QUOTE {
        match parse_qstr(s, i + 1) {
            Some((c, j)) => if j < s.len() && s[j] == COMMA && i < j {
                match parse_layers(s, j + 1) {
                    Some((ls, k)) => Some((seq![c] + ls, k)),
                    None => None,
                }
            } else if j < s.len() && s[j] == RBRACKET {
                Some((seq![c], j))
            } else {
                None
            },
            None => None,
        }
    } else {
        None
    }
}

/// Reads a whole submission payload back into its layer list and area
/// filter; `None` on anything that is not a canonical payload.
pub open spec fn parse_payload(s: Seq<u8>) -> Option<(Seq<Seq<u8>>, Seq<u8>)> {
    if match_at(s, lit_payload_head(), 0) {
        match parse_layers(s, lit_payload_head().len() as int) {
            Some((ls, j)) => if match_at(s, lit_payload_mid(), j) {
                let k = j + lit_payload_mid().len();
                if k < s.len() && s[k] == QUOTE {
                    match parse_qstr(s, k + 1) {
                        Some((g, m)) => if match_at(s, lit_payload_tail(), m) && m + 1 == s.len() {
                            Some((ls, g))
                        } else {
                            None
                        },
                        None => None,
                    }
                } else {
                    None
                }
            } else {
                None
            },
            None => None,
        }
    } else {
        None
    }
}

pub proof fn lemma_parse_qstr_of_esc(s: Seq<u8>, i: int, x: Seq<u8>)
    requires
        match_at(s, esc(x) + seq![QUOTE], i),
    ensures
        parse_qstr(s, i) == Some((x, i + esc(x).len() + 1)),
    decreases x.len(),
{
    let pat = esc(x) + seq![QUOTE];
    if x.len() == 0 {
        assert(esc(x) =~= Seq::<u8>::empty());
        assert(s[i] == pat[0]);
        assert(pat[0] == QUOTE);
        assert(x =~= Seq::<u8>::empty());
    } else {
        let x0 = x[0];
        let xr = x.skip(1);
        assert(esc(x) == esc_byte(x0) + esc(xr));
        assert(pat =~= esc_byte(x0) + (esc(xr) + seq![QUOTE]));
        lemma_match_at_split(s, esc_byte(x0), esc(xr) + seq![QUOTE], i);
        let n = esc_byte(x0).len();
        lemma_parse_qstr_of_esc(s, i + n, xr);
        if x0 == QUOTE || x0 == BACKSLASH {
            assert(n == 2);
            assert(s[i] == esc_byte(x0)[0]);
            assert(s[i + 1] == esc_byte(x0)[1]);
            assert(s[i] == BACKSLASH);
            assert(s[i + 1] == x0);
            assert(i + 2 <= s.len());
            assert(parse_qstr(s, i + 2) == Some((xr, i + 2 + esc(xr).len() + 1)));
            assert(parse_qstr(s, i) == Some((seq![s[i + 1]] + xr, i + 2 + esc(xr).len() + 1)));
            assert(seq![x0] + xr =~= x);
            assert(i + 2 + esc(xr).len() + 1 == i + esc(x).len() + 1);
        } else {
            assert(n == 1);
            assert(s[i] == esc_byte(x0)[0]);
            assert(s[i] == x0);
            assert(s[i] != QUOTE && s[i] != BACKSLASH);
            assert(i < s.len());
            assert(parse_qstr(s, i + 1) == Some((xr, i + 1 + esc(xr).len() + 1)));
            assert(parse_qstr(s, i) == Some((seq![s[i]] + xr, i + 1 + esc(xr).len() + 1)));
            assert(seq![x0] + xr =~= x);
        }
    }
}

pub proof fn lemma_parse_layers_of_list(s: Seq<u8>, i: int, ft: Seq<Seq<u8>>)
    requires
        ft.len() > 0,
        match_at(s, layer_list(ft), i),
        i + layer_list(ft).len() < s.len(),
        s[i + layer_list(ft).len()] == RBRACKET,
    ensures
        parse_layers(s, i) == Some((ft, i + layer_list(ft).len())),
    decreases ft.len(),
{
    let q0 = quoted(ft[0]);
    let j = i + layer_list(ft).len();
    if ft.len() == 1 {
        assert(layer_list(ft) == q0);
        assert(q0 =~= seq![QUOTE] + (esc(ft[0]) + seq![QUOTE]));
        lemma_match_at_split(s, seq![QUOTE], esc(ft[0]) + seq![QUOTE], i);
        assert(s[i] == seq![QUOTE][0]);
        lemma_parse_qstr_of_esc(s, i + 1, ft[0]);
        assert(parse_qstr(s, i + 1) == Some((ft[0], i + 1 + esc(ft[0]).len() + 1)));
        assert(i + 1 + esc(ft[0]).len() + 1 == j);
        assert(s[j] == RBRACKET);
        assert(parse_layers(s, i) == Some((seq![ft[0]], j)));
        assert(seq![ft[0]] =~= ft);
    } else {
        let rest = ft.skip(1);
        assert(layer_list(ft) == q0 + seq![COMMA] + layer_list(rest));
        assert(layer_list(ft) =~= q0 + (seq![COMMA] + layer_list(rest)));
        lemma_match_at_split(s, q0, seq![COMMA] + layer_list(rest), i);
        let j0 = i + q0.len();
        lemma_match_at_split(s, seq![COMMA], layer_list(rest), j0);
        assert(s[j0] == seq![COMMA][0]);
        assert(q0 =~= seq![QUOTE] + (esc(ft[0]) + seq![QUOTE]));
        lemma_match_at_split(s, seq![QUOTE], esc(ft[0]) + seq![QUOTE], i);
        assert(s[i] == seq![QUOTE][0]);
        lemma_parse_qstr_of_esc(s, i + 1, ft[0]);
        assert(parse_qstr(s, i + 1) == Some((ft[0], j0)));
        assert(j0 < s.len());
        lemma_parse_layers_of_list(s, j0 + 1, rest);
        assert(j0 + 1 + layer_list(rest).len() == j);
        assert(parse_layers(s, j0 + 1) == Some((rest, j)));
        assert(parse_layers(s, i) == Some((seq![ft[0]] + rest, j)));
        assert(seq![ft[0]] + rest =~= ft);
    }
}

/// The payload round trip: reading a built payload back yields exactly the
/// layer list and the area filter it was built from.
#[verifier::rlimit(60)]
pub proof fn lemma_payload_round_trip(ft: Seq<Seq<u8>>, geo: Seq<u8>)
    requires
        ft.len() > 0,
    ensures
        parse_payload(payload_bytes(ft, geo)) == Some((ft, geo)),
{
    let s = payload_bytes(ft, geo);
    let a = lit_payload_head();
    let b = layer_list(ft);
    let c = lit_payload_mid();
    let d = quoted(geo);
    let e = lit_payload_tail();
    assert(s =~= a + (b + (c + (d + e))));
    assert(match_at(s, s, 0));
    lemma_match_at_split(s, a, b + (c + (d + e)), 0);
    lemma_match_at_split(s, b, c + (d + e), a.len() as int);
    let j: int = a.len() as int + b.len() as int;
    lemma_match_at_split(s, c, d + e, j as int);
    let k: int = j + c.len() as int;
    lemma_match_at_split(s, d, e, k as int);
    let m: int = k + d.len() as int;
    assert(s[j] == c[0]);
    assert(c[0] == RBRACKET);
    lemma_parse_layers_of_list(s, a.len() as int, ft);
    assert(parse_layers(s, a.len() as int) == Some((ft, j as int)));
    assert(d =~= seq![QUOTE] + (esc(geo) + seq![QUOTE]));
    lemma_match_at_split(s, seq![QUOTE], esc(geo) + seq![QUOTE], k as int);
    assert(s[k] == seq![QUOTE][0]);
    lemma_parse_qstr_of_esc(s, k + 1, geo);
    assert(parse_qstr(s, k + 1) == Some((geo, m as int)));
    assert(match_at(s, e, m as int));
    assert(m + 1 == s.len());
    assert(parse_payload(s) == Some((ft, geo)));
}


/// The first position at or after `i` that holds no decimal digit.
pub open spec fn digits_end(s: Seq<u8>, i: int) -> int
    decreases s.len() - i,
{
    if 0 <= i && i < s.len() && is_digit(s[i]) {
        digits_end(s, i + 1)
    } else {
        i
    }
}

/// The number written by the digits of `s` at positions `i` up to `j`.
pub open spec fn digits_value(s: Seq<u8>, i: int, j: int) -> int
    decreases j - i,
{
    if i < j {
        digits_value(s, i, j - 1) * 10 + (s[j - 1] - DIGIT_ZERO)
    } else {
        0
    }
}

pub proof fn lemma_digits_end_bounds(s: Seq<u8>, i: int)
    requires
        0 <= i <= s.len(),
    ensures
        i <= digits_end(s, i) <= s.len(),
        forall|k: int| i <= k < digits_end(s, i) ==> is_digit(s[k]),
    decreases s.len() - i,
{
    if i < s.len() && is_digit(s[i]) {
        lemma_digits_end_bounds(s, i + 1);
    }
}

pub proof fn lemma_digits_value_monotone(s: Seq<u8>, r: int, j1: int, j2: int)
    requires
        r <= j1 <= j2,
        forall|k: int| r <= k < j2 ==> is_digit(s[k]),
    ensures
        0 <= digits_value(s, r, j1),
        digits_value(s, r, j1) <= digits_value(s, r, j2),
    decreases j2 - r, j2 - j1,
{
    if j1 == j2 {
        if r < j1 {
            lemma_digits_value_monotone(s, r, j1 - 1, j1 - 1);
        }
    } else {
        lemma_digits_value_monotone(s, r, j1, j2 - 1);
        lemma_digits_value_monotone(s, r, j2 - 1, j2 - 1);
    }
}

pub proof fn lemma_parse_qstr_bounds(s: Seq<u8>, i: int)
    ensures
        parse_qstr(s, i) matches Some(cj) ==> i < cj.1 <= s.len(),
    decreases s.len() - i,
{
    if 0 <= i && i < s.len() {
        if s[i] == QUOTE {
        } else if s[i] == BACKSLASH {
            if i + 2 <= s.len() {
                lemma_parse_qstr_bounds(s, i + 2);
            }
        } else {
            lemma_parse_qstr_bounds(s, i + 1);
        }
    }
}

/// The string value standing after a key token that ends at position `p`:
/// optional whitespace, a colon, optional whitespace, a quoted string.
pub open spec fn str_value_after(s: Seq<u8>, p: int) -> Option<Seq<u8>> {
    let q = skip_ws(s, p);
    if q < s.len() && s[q] == COLON {
        let r = skip_ws(s, q + 1);
        if r < s.len() && s[r] == QUOTE {
            match parse_qstr(s, r + 1) {
                Some((c, j)) => Some(c),
                None => None,
            }
        } else {
            None
        }
    } else {
        None
    }
}

/// The unsigned number standing after a key token that ends at position `p`.
pub open spec fn uint_value_after(s: Seq<u8>, p: int) -> Option<int> {
    let q = skip_ws(s, p);
    if q < s.len() && s[q] == COLON {
        let r = skip_ws(s, q + 1);
        let e = digits_end(s, r);
        if r < e {
            Some(digits_value(s, r, e))
        } else {
            None
        }
    } else {
        None
    }
}

/// The string value of the first occurrence of the key token `tok` in `s`.
pub open spec fn scan_str_field(s: Seq<u8>, tok: Seq<u8>, i: int) -> Option<Seq<u8>>
    decreases s.len() - i,
{
    if tok.len() == 0 || i < 0 || i + tok.len() > s.len() {
        None
    } else if match_at(s, tok, i) {
        str_value_after(s, i + tok.len())
    } else {
        scan_str_field(s, tok, i + 1)
    }
}

/// The numeric value of the first occurrence of the key token `tok` in `s`.
pub open spec fn scan_uint_field(s: Seq<u8>, tok: Seq<u8>, i: int) -> Option<int>
    decreases s.len() - i,
{
    if tok.len() == 0 || i < 0 || i + tok.len() > s.len() {
        None
    } else if match_at(s, tok, i) {
        uint_value_after(s, i + tok.len())
    } else {
        scan_uint_field(s, tok, i + 1)
    }
}

/// What the client reads as the request id out of a submission response.
pub open spec fn request_id_of(body: Seq<u8>) -> Option<Seq<u8>> {
    scan_str_field(body, tok_download_request_id(), 0)
}

/// What the client reads as the progress percentage out of a status body.
pub open spec fn progress_of(body: Seq<u8>) -> Option<int> {
    scan_uint_field(body, tok_progress(), 0)
}

/// What the client reads as the download link out of a ready status body.
pub open spec fn href_of(body: Seq<u8>) -> Option<Seq<u8>> {
    scan_str_field(body, tok_href(), 0)
}

/// Does `pat` stand in `s` at position `i`?
fn slice_match_at(s: &[u8], pat: &[u8], i: usize) -> (r: bool)
    ensures
        r == match_at(s@, pat@, i as int),
{
    if i > s.len() || s.len() - i < pat.len() {
        return false;
    }
    let mut k: usize = 0;
    while k < pat.len()
        invariant
            0 <= k <= pat.len(),
            i + pat.len() <= s.len(),
            forall|j: int| 0 <= j < k ==> s@[i + j] == pat@[j],
        decreases pat.len() - k,
    {
        if s[i + k] != pat[k] {
            assert(!match_at(s@, pat@, i as int));
            return false;
        }
        k = k + 1;
    }
    true
}

/// The first position at or after `i` in `s` holding no whitespace.
fn skip_ws_exec(s: &[u8], i: usize) -> (r: usize)
    requires
        i <= s@.len(),
    ensures
        r == skip_ws(s@, i as int),
        i <= r <= s@.len(),
{
    let mut cur: usize = i;
    while cur < s.len() && (s[cur] == SPACE || s[cur] == TAB || s[cur] == LINEFEED || s[cur]
        == CARRIAGE_RETURN)
        invariant
            i <= cur <= s@.len(),
            skip_ws(s@, i as int) == skip_ws(s@, cur as int),
        decreases s@.len() - cur,
    {
        cur = cur + 1;
    }
    cur
}

/// Reads the quoted-string contents starting at position `i` (just after the
/// opening quote), undoing the escapes.
fn parse_qstr_exec(s: &[u8], i: usize) -> (r: Option<(Vec<u8>, usize)>)
    requires
        i <= s@.len(),
    ensures
        match r {
            Some(v) => parse_qstr(s@, i as int) == Some((v.0@, v.1 as int)) && i < v.1 <= s@.len(),
            None => parse_qstr(s@, i as int) is None,
        },
{
    let mut acc: Vec<u8> = Vec::new();
    let mut cur: usize = i;
    proof {
        lemma_parse_qstr_bounds(s@, i as int);
        if parse_qstr(s@, i as int) is Some {
            let (c, j) = parse_qstr(s@, i as int)->Some_0;
            assert(Seq::<u8>::empty() + c =~= c);
        }
    }
    loop
        invariant
            i <= cur <= s@.len(),
            match parse_qstr(s@, cur as int) {
                Some((c, j)) => parse_qstr(s@, i as int) == Some((acc@ + c, j)) && cur < j
                    <= s@.len(),
                None => parse_qstr(s@, i as int) is None,
            },
        decreases s@.len() - cur,
    {
        if cur >= s.len() {
            return None;
        }
        let b = s[cur];
        if b == QUOTE {
            proof {
                assert(parse_qstr(s@, cur as int) == Some((Seq::<u8>::empty(), cur + 1 as int)));
                assert(acc@ + Seq::<u8>::empty() =~= acc@);
            }
            return Some((acc, cur + 1));
        } else if b == BACKSLASH {
            if cur + 1 < s.len() && (s[cur + 1] == QUOTE || s[cur + 1] == BACKSLASH) {
                let nb = s[cur + 1];
                let ghost old_acc = acc@;
                acc.push(nb);
                proof {
                    lemma_parse_qstr_bounds(s@, cur + 2 as int);
                    if parse_qstr(s@, cur + 2 as int) is Some {
                        let (c2, j2) = parse_qstr(s@, cur + 2 as int)->Some_0;
                        assert(parse_qstr(s@, cur as int) == Some((seq![s@[cur + 1]] + c2, j2)));
                        assert(old_acc + (seq![s@[cur + 1]] + c2) =~= acc@ + c2);
                    }
                }
                cur = cur + 2;
            } else {
                assert(parse_qstr(s@, cur as int) is None);
                return None;
            }
        } else {
            let ghost old_acc = acc@;
            acc.push(b);
            proof {
                lemma_parse_qstr_bounds(s@, cur + 1 as int);
                if parse_qstr(s@, cur + 1 as int) is Some {
                    let (c2, j2) = parse_qstr(s@, cur + 1 as int)->Some_0;
                    assert(parse_qstr(s@, cur as int) == Some((seq![s@[cur as int]] + c2, j2)));
                    assert(old_acc + (seq![s@[cur as int]] + c2) =~= acc@ + c2);
                }
            }
            cur = cur + 1;
        }
    }
}

/// Reads the digit run starting at `r`; `None` when there is none or the
/// number does not fit in a `u64`.
fn parse_uint_exec(s: &[u8], r: usize) -> (res: Option<u64>)
    requires
        r <= s@.len(),
    ensures
        match res {
            Some(v) => {
                let e = digits_end(s@, r as int);
                r < e && digits_value(s@, r as int, e) == v as int
            },
            None => {
                let e = digits_end(s@, r as int);
                e <= r || digits_value(s@, r as int, e) > u64::MAX
            },
        },
{
    proof {
        lemma_digits_end_bounds(s@, r as int);
    }
    let ghost e = digits_end(s@, r as int);
    if r >= s.len() || !(DIGIT_ZERO <= s[r] && s[r] <= DIGIT_ZERO + 9) {
        return None;
    }
    let mut acc: u64 = 0;
    let mut cur: usize = r;
    while cur < s.len() && DIGIT_ZERO <= s[cur] && s[cur] <= DIGIT_ZERO + 9
        invariant
            r <= cur <= s@.len(),
            e == digits_end(s@, r as int),
            e == digits_end(s@, cur as int),
            r <= e <= s@.len(),
            forall|k: int| r <= k < e ==> is_digit(s@[k]),
            acc as int == digits_value(s@, r as int, cur as int),
        decreases s@.len() - cur,
    {
        let d = s[cur] - DIGIT_ZERO;
        proof {
            assert(is_digit(s@[cur as int]));
            assert(e == digits_end(s@, cur + 1 as int));
            lemma_digits_end_bounds(s@, cur + 1 as int);
        }
        if acc > 1844674407370955161u64 {
            proof {
                assert(digits_value(s@, r as int, cur + 1 as int) == acc as int * 10 + d);
                lemma_digits_value_monotone(s@, r as int, cur + 1 as int, e);
            }
            return None;
        }
        let next = acc * 10;
        if d as u64 > u64::MAX - next {
            proof {
                assert(digits_value(s@, r as int, cur + 1 as int) == acc as int * 10 + d);
                lemma_digits_value_monotone(s@, r as int, cur + 1 as int, e);
            }
            return None;
        }
        acc = next + d as u64;
        cur = cur + 1;
    }
    proof {
        assert(cur == e);
    }
    Some(acc)
}

/// Reads the string value after a key token ending at `p`.
fn str_value_after_exec(s: &[u8], p: usize) -> (r: Option<Vec<u8>>)
    requires
        p <= s@.len(),
    ensures
        match r {
            Some(v) => str_value_after(s@, p as int) == Some(v@),
            None => str_value_after(s@, p as int) is None,
        },
{
    let q = skip_ws_exec(s, p);
    if q < s.len() && s[q] == COLON {
        let w = skip_ws_exec(s, q + 1);
        if w < s.len() && s[w] == QUOTE {
            match parse_qstr_exec(s, w + 1) {
                Some(v) => Some(v.0),
                None => None,
            }
        } else {
            None
        }
    } else {
        None
    }
}

/// Reads the numeric value after a key token ending at `p`.
fn uint_value_after_exec(s: &[u8], p: usize) -> (r: Option<u64>)
    requires
        p <= s@.len(),
    ensures
        match r {
            Some(v) => uint_value_after(s@, p as int) == Some(v as int),
            None => uint_value_after(s@, p as int) is None || uint_value_after(s@, p as int)->Some_0
                > u64::MAX,
        },
{
    let q = skip_ws_exec(s, p);
    if q < s.len() && s[q] == COLON {
        let w = skip_ws_exec(s, q + 1);
        parse_uint_exec(s, w)
    } else {
        None
    }
}

/// Finds the string value of the first occurrence of `tok` in `s`.
fn scan_str_field_exec(s: &[u8], tok: &[u8]) -> (r: Option<Vec<u8>>)
    ensures
        match r {
            Some(v) => scan_str_field(s@, tok@, 0) == Some(v@),
            None => scan_str_field(s@, tok@, 0) is None,
        },
{
    if tok.len() == 0 || tok.len() > s.len() {
        return None;
    }
    let mut i: usize = 0;
    while i <= s.len() - tok.len()
        invariant
            tok@.len() >= 1,
            tok@.len() <= s@.len(),
            0 <= i <= s@.len(),
            scan_str_field(s@, tok@, 0) == scan_str_field(s@, tok@, i as int),
        decreases s@.len() - i,
    {
        if slice_match_at(s, tok, i) {
            let res = str_value_after_exec(s, i + tok.len());
            proof {
                assert(scan_str_field(s@, tok@, i as int) == str_value_after(
                    s@,
                    i + tok@.len(),
                ));
            }
            return res;
        }
        i = i + 1;
    }
    proof {
        assert(scan_str_field(s@, tok@, i as int) is None);
    }
    None
}

/// Finds the numeric value of the first occurrence of `tok` in `s`.
fn scan_uint_field_exec(s: &[u8], tok: &[u8]) -> (r: Option<u64>)
    ensures
        match r {
            Some(v) => scan_uint_field(s@, tok@, 0) == Some(v as int),
            None => scan_uint_field(s@, tok@, 0) is None || scan_uint_field(s@, tok@, 0)->Some_0
                > u64::MAX,
        },
{
    if tok.len() == 0 || tok.len() > s.len() {
        return None;
    }
    let mut i: usize = 0;
    while i <= s.len() - tok.len()
        invariant
            tok@.len() >= 1,
            tok@.len() <= s@.len(),
            0 <= i <= s@.len(),
            scan_uint_field(s@, tok@, 0) == scan_uint_field(s@, tok@, i as int),
        decreases s@.len() - i,
    {
        if slice_match_at(s, tok, i) {
            let res = uint_value_after_exec(s, i + tok.len());
            proof {
                assert(scan_uint_field(s@, tok@, i as int) == uint_value_after(
                    s@,
                    i + tok@.len(),
                ));
            }
            return res;
        }
        i = i + 1;
    }
    proof {
        assert(scan_uint_field(s@, tok@, i as int) is None);
    }
    None
}

/// The request id a submission response body carries, if any.
pub fn extract_request_id(body: &[u8]) -> (r: Option<Vec<u8>>)
    ensures
        match r {
            Some(v) => request_id_of(body@) == Some(v@),
            None => request_id_of(body@) is None,
        },
{
    let mut tok: Vec<u8> = Vec::new();
    push_tok_download_request_id(&mut tok);
    proof {
        assert(tok@ =~= tok_download_request_id());
    }
    scan_str_field_exec(body, tok.as_slice())
}

/// The progress percentage a processing status body carries, if any that
/// fits a `u64`; an absurdly long number counts as absent.
pub fn extract_progress(body: &[u8]) -> (r: Option<u64>)
    ensures
        match r {
            Some(v) => progress_of(body@) == Some(v as int),
            None => progress_of(body@) is None || progress_of(body@)->Some_0 > u64::MAX,
        },
{
    let mut tok: Vec<u8> = Vec::new();
    push_tok_progress(&mut tok);
    proof {
        assert(tok@ =~= tok_progress());
    }
    scan_uint_field_exec(body, tok.as_slice())
}

/// The download link a ready status body carries, if any.
pub fn extract_download_href(body: &[u8]) -> (r: Option<Vec<u8>>)
    ensures
        match r {
            Some(v) => href_of(body@) == Some(v@),
            None => href_of(body@) is None,
        },
{
    let mut tok: Vec<u8> = Vec::new();
    push_tok_href(&mut tok);
    proof {
        assert(tok@ =~= tok_href());
    }
    scan_str_field_exec(body, tok.as_slice())
}

} // verus!



