//! Parser for the restricted text mesh format.
//!
//! The format is line oriented and whitespace tokenized: `v x y z` appends a
//! vertex position, `f i0 i1 i2` appends one triangular face, `#` starts a
//! comment, and any other directive is reported as a diagnostic and skipped.
//! A malformed `v` or `f` line (wrong token count, or a token that does not
//! parse) is likewise reported and skipped; parsing never aborts. Face
//! indices are appended exactly as written in the file, in the format's own
//! index base.
//!
//! The whole parse is specified functionally over the input's byte sequence:
//! [`parse_obj_from`] gives the position stream (as bit patterns), the index
//! stream and the diagnostic stream, and the executable parser is proved to
//! return exactly those.

use vstd::prelude::*;

use crate::fp::{parse_f32_bits, parse_real_bytes, real_bits, Real};
use vstd::string::StringSliceAdditionalSpecFns;

verus! {

pub struct ObjReader {}

/// Directive kind of a mesh-file line, read from its leading token.
#[derive(Debug, PartialEq, Eq, Structural)]
pub enum ObjEntry {
    Vertex,
    Face,
    Comment,
}

/// A skipped line: its one-based line number and its directive token.
pub struct Diagnostic {
    pub line: usize,
    pub code: Vec<u8>,
}

/// Whether `b` is horizontal whitespace: space, tab, vertical tab, form feed
/// or carriage return. The line feed is the line separator instead.
pub open spec fn is_ws(b: u8) -> bool {
    b == 32 || b == 9 || b == 11 || b == 12 || b == 13
}

/// Index of the first line feed at or after `i`, or the input's length.
pub open spec fn line_end(s: Seq<u8>, i: int) -> int
    decreases s.len() - i,
{
    if !(0 <= i < s.len()) {
        s.len() as int
    } else if s[i] == 10 {
        i
    } else {
        line_end(s, i + 1)
    }
}

/// The first line feed at or after `i` is where [`line_end`] says.
pub proof fn lemma_line_end(s: Seq<u8>, i: int)
    requires
        0 <= i <= s.len(),
    ensures
        i <= line_end(s, i) <= s.len(),
        line_end(s, i) < s.len() ==> s[line_end(s, i)] == 10,
        forall|j: int| i <= j < line_end(s, i) ==> s[j] != 10,
    decreases s.len() - i,
{
    if i < s.len() && s[i] != 10 {
        lemma_line_end(s, i + 1);
    }
}

/// End of the token starting at `i` inside the window `[i, e)`: the first
/// position at or after `i` holding whitespace, or `e`.
pub open spec fn tok_end(s: Seq<u8>, i: int, e: int) -> int
    decreases e - i,
{
    if !(0 <= i && i < e && e <= s.len()) {
        i
    } else if is_ws(s[i]) {
        i
    } else {
        tok_end(s, i + 1, e)
    }
}

/// The token end lies in the window and bounds a whitespace-free run.
pub proof fn lemma_tok_end(s: Seq<u8>, i: int, e: int)
    requires
        0 <= i <= e <= s.len(),
    ensures
        i <= tok_end(s, i, e) <= e,
        tok_end(s, i, e) < e ==> is_ws(s[tok_end(s, i, e)]),
        forall|j: int| i <= j < tok_end(s, i, e) ==> !is_ws(s[j]),
    decreases e - i,
{
    if i < e && !is_ws(s[i]) {
        lemma_tok_end(s, i + 1, e);
    }
}

/// The whitespace-separated tokens of the window `[i, e)`, in order.
pub open spec fn tokens_in(s: Seq<u8>, i: int, e: int) -> Seq<Seq<u8>>
    decreases e - i,
    via tokens_in_decreases
{
    if !(0 <= i && i < e && e <= s.len()) {
        Seq::empty()
    } else if is_ws(s[i]) {
        tokens_in(s, i + 1, e)
    } else {
        seq![s.subrange(i, tok_end(s, i, e))] + tokens_in(s, tok_end(s, i, e), e)
    }
}

#[via_fn]
proof fn tokens_in_decreases(s: Seq<u8>, i: int, e: int) {
    if 0 <= i && i < e && e <= s.len() && !is_ws(s[i]) {
        lemma_tok_end(s, i + 1, e);
        assert(tok_end(s, i, e) == tok_end(s, i + 1, e));
    }
}

/// Value of an all-digit byte sequence read in decimal.
pub open spec fn dec_val(t: Seq<u8>) -> int
    decreases t.len(),
{
    if t.len() == 0 {
        0
    } else {
        dec_val(t.drop_last()) * 10 + (t.last() - 48)
    }
}

/// Whether every byte of `t` is a decimal digit.
pub open spec fn all_digits(t: Seq<u8>) -> bool {
    forall|k: int| 0 <= k < t.len() ==> 48 <= #[trigger] t[k] <= 57
}

/// The unsigned integer that the standard parser reads from `t`: an optional
/// leading plus sign, then at least one digit, with a value that fits.
pub open spec fn parse_u32_bytes(t: Seq<u8>) -> Option<u32> {
    let d = if t.len() >= 1 && t[0] == 43 {
        t.drop_first()
    } else {
        t
    };
    if d.len() >= 1 && all_digits(d) && dec_val(d) <= 0xFFFF_FFFF {
        Some(dec_val(d) as u32)
    } else {
        None
    }
}

/// A decimal value is never negative.
pub proof fn lemma_dec_val_nonneg(t: Seq<u8>)
    requires
        all_digits(t),
    ensures
        dec_val(t) >= 0,
    decreases t.len(),
{
    if t.len() > 0 {
        assert(all_digits(t.drop_last())) by {
            assert(forall|k: int|
                0 <= k < t.len() - 1 ==> t.drop_last()[k] == #[trigger] t[k]);
        }
        lemma_dec_val_nonneg(t.drop_last());
    }
}

/// Extending an all-digit sequence never shrinks its decimal value.
pub proof fn lemma_dec_val_prefix(t: Seq<u8>, k: int)
    requires
        all_digits(t),
        0 <= k <= t.len(),
    ensures
        dec_val(t) >= dec_val(t.take(k)),
    decreases t.len() - k,
{
    if k < t.len() {
        lemma_dec_val_prefix(t, k + 1);
        let a = t.take(k);
        let b = t.take(k + 1);
        assert(b.drop_last() =~= a);
        assert(all_digits(a)) by {
            assert(forall|j: int| 0 <= j < k ==> a[j] == #[trigger] t[j]);
        }
        lemma_dec_val_nonneg(a);
        assert(dec_val(b) == dec_val(a) * 10 + (t[k] - 48));
        assert(dec_val(a) * 10 >= dec_val(a)) by (nonlinear_arith)
            requires
                dec_val(a) >= 0,
        ;
    } else {
        assert(t.take(k) =~= t);
    }
}

/// Reads an unsigned decimal integer exactly as [`parse_u32_bytes`] does.
pub fn parse_u32_token(t: &[u8]) -> (r: Option<u32>)
    ensures
        r == parse_u32_bytes(t@),
{
    let len = t.len();
    let start: usize = if len >= 1 && t[0] == 43 {
        1
    } else {
        0
    };
    let ghost d: Seq<u8> = if t@.len() >= 1 && t@[0] == 43 {
        t@.drop_first()
    } else {
        t@
    };
    proof {
        assert(d =~= t@.subrange(start as int, len as int));
    }
    if start >= len {
        return None;
    }
    let mut acc: u32 = 0;
    let mut k: usize = start;
    while k < len
        invariant
            start <= k <= len,
            len == t@.len(),
            d == (if t@.len() >= 1 && t@[0] == 43 {
                t@.drop_first()
            } else {
                t@
            }),
            d == t@.subrange(start as int, len as int),
            all_digits(d.take(k - start)),
            acc == dec_val(d.take(k - start)),
        decreases len - k,
    {
        let b = t[k];
        if !(48 <= b && b <= 57) {
            proof {
                assert(d[k - start] == b);
                assert(!all_digits(d));
            }
            return None;
        }
        let digit = (b - 48) as u32;
        proof {
            assert(d.take(k - start + 1).drop_last() =~= d.take(k - start));
            assert(d.take(k - start + 1).last() == b);
        }
        if acc > 0xFFFF_FFFFu32 / 10 || (acc == 0xFFFF_FFFFu32 / 10 && digit > 0xFFFF_FFFFu32 % 10) {
            proof {
                assert(all_digits(d.take(k - start + 1)));
                assert(dec_val(d.take(k - start + 1)) > 0xFFFF_FFFF);
                assert(forall|j: int|
                    0 <= j < d.len() && all_digits(d) ==> 48 <= #[trigger] d[j] <= 57);
                if all_digits(d) {
                    lemma_dec_val_prefix(d, k - start + 1);
                }
            }
            return None;
        }
        acc = acc * 10 + digit;
        k += 1;
    }
    proof {
        assert(d.take(len - start) =~= d);
    }
    Some(acc)
}

/// Whether the token is the single byte `c`.
pub open spec fn tok_is(t: Seq<u8>, c: u8) -> bool {
    t.len() == 1 && t[0] == c
}

/// Whether a `v` line is well formed: exactly three tokens after the code,
/// each a valid decimal float.
pub open spec fn vertex_line_ok(toks: Seq<Seq<u8>>) -> bool {
    toks.len() == 4 && parse_f32_bits(toks[1]) is Some && parse_f32_bits(toks[2]) is Some
        && parse_f32_bits(toks[3]) is Some
}

/// Whether an `f` line is well formed: exactly three tokens after the code,
/// each a valid unsigned integer — one triangular face.
pub open spec fn face_line_ok(toks: Seq<Seq<u8>>) -> bool {
    toks.len() == 4 && parse_u32_bytes(toks[1]) is Some && parse_u32_bytes(toks[2]) is Some
        && parse_u32_bytes(toks[3]) is Some
}

/// Position bit patterns contributed by one line's tokens.
pub open spec fn line_positions(toks: Seq<Seq<u8>>) -> Seq<u32> {
    if toks.len() > 0 && tok_is(toks[0], 118) && vertex_line_ok(toks) {
        seq![
            parse_f32_bits(toks[1]).unwrap(),
            parse_f32_bits(toks[2]).unwrap(),
            parse_f32_bits(toks[3]).unwrap(),
        ]
    } else {
        Seq::empty()
    }
}

/// Face indices contributed by one line's tokens.
pub open spec fn line_indices(toks: Seq<Seq<u8>>) -> Seq<u32> {
    if toks.len() > 0 && tok_is(toks[0], 102) && face_line_ok(toks) {
        seq![
            parse_u32_bytes(toks[1]).unwrap(),
            parse_u32_bytes(toks[2]).unwrap(),
            parse_u32_bytes(toks[3]).unwrap(),
        ]
    } else {
        Seq::empty()
    }
}

/// Diagnostics contributed by one line's tokens: the line number and the
/// directive token of a malformed or unknown line. Blank and comment lines
/// contribute nothing.
pub open spec fn line_diags(toks: Seq<Seq<u8>>, ln: int) -> Seq<(int, Seq<u8>)> {
    if toks.len() == 0 {
        Seq::empty()
    } else if tok_is(toks[0], 118) {
        if vertex_line_ok(toks) {
            Seq::empty()
        } else {
            seq![(ln, toks[0])]
        }
    } else if tok_is(toks[0], 102) {
        if face_line_ok(toks) {
            Seq::empty()
        } else {
            seq![(ln, toks[0])]
        }
    } else if tok_is(toks[0], 35) {
        Seq::empty()
    } else {
        seq![(ln, toks[0])]
    }
}

/// The three output streams of the whole parse from position `i`, with the
/// current line numbered `ln`: positions as bit patterns, face indices, and
/// diagnostics.
pub open spec fn parse_obj_from(s: Seq<u8>, i: int, ln: int) -> (
    Seq<u32>,
    Seq<u32>,
    Seq<(int, Seq<u8>)>,
)
    decreases s.len() + 1 - i,
    via parse_obj_from_decreases
{
    if !(0 <= i < s.len()) {
        (Seq::empty(), Seq::empty(), Seq::empty())
    } else {
        let e = line_end(s, i);
        let toks = tokens_in(s, i, e);
        let rest = parse_obj_from(s, e + 1, ln + 1);
        (
            line_positions(toks) + rest.0,
            line_indices(toks) + rest.1,
            line_diags(toks, ln) + rest.2,
        )
    }
}

#[via_fn]
proof fn parse_obj_from_decreases(s: Seq<u8>, i: int, ln: int) {
    if 0 <= i < s.len() {
        lemma_line_end(s, i);
    }
}

/// Both numeric output streams always hold whole triples.
pub proof fn lemma_parse_obj_mult3(s: Seq<u8>, i: int, ln: int)
    requires
        0 <= i,
    ensures
        parse_obj_from(s, i, ln).0.len() % 3 == 0,
        parse_obj_from(s, i, ln).1.len() % 3 == 0,
    decreases s.len() + 1 - i,
{
    if i < s.len() {
        lemma_line_end(s, i);
        lemma_parse_obj_mult3(s, line_end(s, i) + 1, ln + 1);
    }
}

/// The parser's result: the position stream, the index stream, and one
/// diagnostic per skipped line.
pub struct ObjParse {
    pub positions: Vec<Real>,
    pub indices: Vec<u32>,
    pub diagnostics: Vec<Diagnostic>,
}

/// True exactly when `b` is one of the bytes [`is_ws`] names.
fn is_ws_byte(b: u8) -> (r: bool)
    ensures
        r == is_ws(b),
{
    b == 32 || b == 9 || b == 11 || b == 12 || b == 13
}

/// Copies a byte vector.
fn copy_bytes(v: &Vec<u8>) -> (r: Vec<u8>)
    ensures
        r@ == v@,
{
    let mut r: Vec<u8> = Vec::new();
    let mut m: usize = 0;
    while m < v.len()
        invariant
            m <= v@.len(),
            r@ == v@.take(m as int),
        decreases v@.len() - m,
    {
        r.push(v[m]);
        proof {
            assert(v@.take(m + 1) =~= v@.take(m as int) + seq![v@[m as int]]);
        }
        m += 1;
    }
    proof {
        assert(v@.take(v@.len() as int) =~= v@);
    }
    r
}

/// Splits the window `[i, e)` into its whitespace-separated tokens.
fn tokenize_range(bytes: &Vec<u8>, i: usize, e: usize) -> (toks: Vec<Vec<u8>>)
    requires
        i <= e <= bytes@.len(),
    ensures
        toks@.map_values(|t: Vec<u8>| t@) == tokens_in(bytes@, i as int, e as int),
{
    let ghost s: Seq<u8> = bytes@;
    let mut toks: Vec<Vec<u8>> = Vec::new();
    let mut j = i;
    while j < e
        invariant
            i <= j <= e <= s.len(),
            s == bytes@,
            toks@.map_values(|t: Vec<u8>| t@) + tokens_in(s, j as int, e as int) == tokens_in(
                s,
                i as int,
                e as int,
            ),
        decreases e - j,
    {
        if is_ws_byte(bytes[j]) {
            j += 1;
        } else {
            let mut k = j + 1;
            while k < e && !is_ws_byte(bytes[k])
                invariant
                    j < k <= e <= s.len(),
                    s == bytes@,
                    !is_ws(s[j as int]),
                    tok_end(s, j as int, e as int) == tok_end(s, k as int, e as int),
                decreases e - k,
            {
                k += 1;
            }
            proof {
                assert(tok_end(s, k as int, e as int) == k as int);
                assert(tok_end(s, j as int, e as int) == k as int);
            }
            let mut tok: Vec<u8> = Vec::new();
            let mut m = j;
            while m < k
                invariant
                    j <= m <= k <= s.len(),
                    s == bytes@,
                    tok@ == s.subrange(j as int, m as int),
                decreases k - m,
            {
                tok.push(bytes[m]);
                proof {
                    assert(s.subrange(j as int, m + 1) =~= s.subrange(j as int, m as int)
                        + seq![s[m as int]]);
                }
                m += 1;
            }
            let ghost old_map = toks@.map_values(|t: Vec<u8>| t@);
            toks.push(tok);
            proof {
                assert(toks@.map_values(|t: Vec<u8>| t@) =~= old_map + seq![tok@]);
                assert(tokens_in(s, j as int, e as int) == seq![
                    s.subrange(j as int, k as int),
                ] + tokens_in(s, k as int, e as int));
                assert((old_map + seq![tok@]) + tokens_in(s, k as int, e as int) =~= old_map + (seq![
                    tok@,
                ] + tokens_in(s, k as int, e as int)));
            }
            j = k;
        }
    }
    proof {
        assert(tokens_in(s, j as int, e as int) == Seq::<Seq<u8>>::empty());
        assert(toks@.map_values(|t: Vec<u8>| t@) + Seq::<Seq<u8>>::empty() =~= toks@.map_values(
            |t: Vec<u8>| t@,
        ));
    }
    toks
}

impl ObjEntry {
    /// Classifies a directive token: `v`, `f` or `#`, anything else echoed
    /// back as the error.
    pub fn from_code(code: &str) -> (r: Result<ObjEntry, String>)
        ensures
            match r {
                Ok(e) => (e == ObjEntry::Vertex && tok_is(code.spec_bytes(), 118)) || (e
                    == ObjEntry::Face && tok_is(code.spec_bytes(), 102)) || (e == ObjEntry::Comment
                    && tok_is(code.spec_bytes(), 35)),
                Err(s) => s@ == code@ && !tok_is(code.spec_bytes(), 118) && !tok_is(
                    code.spec_bytes(),
                    102,
                ) && !tok_is(code.spec_bytes(), 35),
            },
    {
        let b = code.as_bytes();
        if b.len() == 1 {
            let c = b[0];
            if c == 118 {
                return Ok(ObjEntry::Vertex);
            }
            if c == 102 {
                return Ok(ObjEntry::Face);
            }
            if c == 35 {
                return Ok(ObjEntry::Comment);
            }
        }
        Err(code.to_owned())
    }
}

/// Whether a path names a mesh file: its final component ends in the mesh
/// extension `.obj` with a nonempty stem.
pub open spec fn obj_path_spec(s: Seq<u8>) -> bool {
    s.len() >= 5 && s[s.len() - 4] == 46 && s[s.len() - 3] == 111 && s[s.len() - 2] == 98 && s[s.len()
        - 1] == 106 && s[s.len() - 5] != 47
}

impl ObjReader {
    /// Decides whether a path may be read as a mesh file; reading a path
    /// without the mesh extension is a fatal error at the caller.
    pub fn has_obj_extension(path: &str) -> (r: bool)
        ensures
            r == obj_path_spec(path.spec_bytes()),
    {
        let b = path.as_bytes();
        let n = b.len();
        if n < 5 {
            return false;
        }
        b[n - 4] == 46 && b[n - 3] == 111 && b[n - 2] == 98 && b[n - 1] == 106 && b[n - 5] != 47
    }

    /// Parses mesh source text into its position, index and diagnostic
    /// streams, exactly as [`parse_obj_from`] specifies: `v` and `f` lines
    /// append their parsed triples, comments and blank lines are ignored,
    /// and every other line is reported and skipped.
    pub fn parse_obj_src(obj_src: &str) -> (r: ObjParse)
        requires
            obj_src.spec_bytes().len() < usize::MAX,
        ensures
            r.positions@.map_values(|v: Real| real_bits(v)) == parse_obj_from(
                obj_src.spec_bytes(),
                0,
                1,
            ).0,
            r.indices@ == parse_obj_from(obj_src.spec_bytes(), 0, 1).1,
            r.diagnostics@.map_values(|d: Diagnostic| (d.line as int, d.code@)) == parse_obj_from(
                obj_src.spec_bytes(),
                0,
                1,
            ).2,
            r.positions@.len() % 3 == 0,
            r.indices@.len() % 3 == 0,
    {
        let bytes = vstd::slice::slice_to_vec(obj_src.as_bytes());
        let ghost s: Seq<u8> = obj_src.spec_bytes();
        let n = bytes.len();
        let mut positions: Vec<Real> = Vec::new();
        let mut indices: Vec<u32> = Vec::new();
        let mut diagnostics: Vec<Diagnostic> = Vec::new();
        let mut i: usize = 0;
        let mut line_no: usize = 1;
        while i < n
            invariant
                s == bytes@,
                n == s.len() < usize::MAX,
                i <= n + 1,
                1 <= line_no <= i + 1,
                positions@.map_values(|v: Real| real_bits(v)) + parse_obj_from(
                    s,
                    i as int,
                    line_no as int,
                ).0 == parse_obj_from(s, 0, 1).0,
                indices@ + parse_obj_from(s, i as int, line_no as int).1 == parse_obj_from(
                    s,
                    0,
                    1,
                ).1,
                diagnostics@.map_values(|d: Diagnostic| (d.line as int, d.code@)) + parse_obj_from(
                    s,
                    i as int,
                    line_no as int,
                ).2 == parse_obj_from(s, 0, 1).2,
            decreases n + 1 - i,
        {
            let mut e = i;
            while e < n && bytes[e] != 10
                invariant
                    s == bytes@,
                    n == s.len(),
                    i <= e <= n,
                    line_end(s, i as int) == line_end(s, e as int),
                decreases n - e,
            {
                e += 1;
            }
            proof {
                assert(line_end(s, e as int) == e as int);
            }
            let toks = tokenize_range(&bytes, i, e);
            let ghost tk: Seq<Seq<u8>> = tokens_in(s, i as int, e as int);
            let ghost p0 = positions@.map_values(|v: Real| real_bits(v));
            let ghost i0 = indices@;
            let ghost d0 = diagnostics@.map_values(|d: Diagnostic| (d.line as int, d.code@));

            if toks.len() == 0 {
                proof {
                    assert(line_positions(tk) =~= Seq::<u32>::empty());
                    assert(line_indices(tk) =~= Seq::<u32>::empty());
                    assert(line_diags(tk, line_no as int) =~= Seq::<(int, Seq<u8>)>::empty());
                }
            } else {
                let code_v = toks[0].len() == 1 && toks[0][0] == 118;
                let code_f = toks[0].len() == 1 && toks[0][0] == 102;
                let code_c = toks[0].len() == 1 && toks[0][0] == 35;
                let mut handled = false;
                if code_v && toks.len() == 4 {
                    let p1 = parse_real_bytes(toks[1].as_slice());
                    let p2 = parse_real_bytes(toks[2].as_slice());
                    let p3 = parse_real_bytes(toks[3].as_slice());
                    match (p1, p2, p3) {
                        (Some(a), Some(b), Some(c)) => {
                            positions.push(a);
                            positions.push(b);
                            positions.push(c);
                            proof {
                                assert(positions@.map_values(|v: Real| real_bits(v)) =~= p0
                                    + line_positions(tk));
                            }
                            handled = true;
                        },
                        _ => {},
                    }
                } else if code_f && toks.len() == 4 {
                    let f1 = parse_u32_token(toks[1].as_slice());
                    let f2 = parse_u32_token(toks[2].as_slice());
                    let f3 = parse_u32_token(toks[3].as_slice());
                    match (f1, f2, f3) {
                        (Some(a), Some(b), Some(c)) => {
                            indices.push(a);
                            indices.push(b);
                            indices.push(c);
                            proof {
                                assert(indices@ =~= i0 + line_indices(tk));
                            }
                            handled = true;
                        },
                        _ => {},
                    }
                } else if code_c {
                    handled = true;
                }
                if !handled {
                    let code = copy_bytes(&toks[0]);
                    diagnostics.push(Diagnostic { line: line_no, code });
                    proof {
                        assert(diagnostics@.map_values(|d: Diagnostic| (d.line as int, d.code@))
                            =~= d0 + line_diags(tk, line_no as int));
                    }
                }
            }
            proof {
                assert(positions@.map_values(|v: Real| real_bits(v)) =~= p0 + line_positions(tk));
                assert(indices@ =~= i0 + line_indices(tk));
                assert(diagnostics@.map_values(|d: Diagnostic| (d.line as int, d.code@)) =~= d0
                    + line_diags(tk, line_no as int));
                let rest = parse_obj_from(s, e + 1, line_no + 1);
                assert(parse_obj_from(s, i as int, line_no as int).0 == line_positions(tk)
                    + rest.0);
                assert((p0 + line_positions(tk)) + rest.0 =~= p0 + (line_positions(tk) + rest.0));
                assert((i0 + line_indices(tk)) + rest.1 =~= i0 + (line_indices(tk) + rest.1));
                assert((d0 + line_diags(tk, line_no as int)) + rest.2 =~= d0 + (line_diags(
                    tk,
                    line_no as int,
                ) + rest.2));
            }
            i = e + 1;
            line_no += 1;
        }
        proof {
            assert(positions@.map_values(|v: Real| real_bits(v)) + Seq::<u32>::empty()
                =~= positions@.map_values(|v: Real| real_bits(v)));
            assert(indices@ + Seq::<u32>::empty() =~= indices@);
            assert(diagnostics@.map_values(|d: Diagnostic| (d.line as int, d.code@)) + Seq::<
                (int, Seq<u8>),
            >::empty() =~= diagnostics@.map_values(|d: Diagnostic| (d.line as int, d.code@)));
            lemma_parse_obj_mult3(s, 0, 1);
        }
        ObjParse { positions, indices, diagnostics }
    }
}

} // verus!
