use vstd::prelude::*;

use crate::scalar::{is_digit, spec_digits_end, spec_float_end};

verus! {

// Byte values the grammar dispatches on.
pub const B_TAB: u8 = 0x09;
pub const B_LF: u8 = 0x0a;
pub const B_FF: u8 = 0x0c;
pub const B_CR: u8 = 0x0d;
pub const B_SPACE: u8 = 0x20;
pub const B_HASH: u8 = 0x23;
pub const B_SLASH: u8 = 0x2f;
pub const B_GT: u8 = 0x3e;

/// Whether `b` is horizontal whitespace: space, tab, or form feed.
pub open spec fn is_ws(b: u8) -> bool {
    b == B_SPACE || b == B_TAB || b == B_FF
}

/// Whether `b` may appear in a name or path: ASCII letters, digits,
/// `-`, `_`, and `.`.
pub open spec fn is_id_byte(b: u8) -> bool {
    b == 0x2d || b == 0x5f || b == 0x2e || is_digit(b) || (0x41 <= b <= 0x5a) || (0x61 <= b
        <= 0x7a)
}

/// Whether `b` ends a line: line feed or carriage return.
pub open spec fn is_line_break(b: u8) -> bool {
    b == B_LF || b == B_CR
}

/// End of the run of horizontal whitespace starting at `i`.
pub open spec fn spec_sp_end(s: Seq<u8>, i: int) -> int
    recommends
        0 <= i <= s.len(),
    decreases s.len() - i,
{
    if 0 <= i < s.len() && is_ws(s[i]) {
        spec_sp_end(s, i + 1)
    } else {
        i
    }
}

/// End of the run of name bytes starting at `i`.
pub open spec fn spec_id_end(s: Seq<u8>, i: int) -> int
    recommends
        0 <= i <= s.len(),
    decreases s.len() - i,
{
    if 0 <= i < s.len() && is_id_byte(s[i]) {
        spec_id_end(s, i + 1)
    } else {
        i
    }
}

/// End of the token starting at `i`: the run of bytes up to whitespace or a
/// `#` that begins a trailing comment.
pub open spec fn spec_token_end(s: Seq<u8>, i: int) -> int
    recommends
        0 <= i <= s.len(),
    decreases s.len() - i,
{
    if 0 <= i < s.len() && !is_ws(s[i]) && s[i] != B_HASH {
        spec_token_end(s, i + 1)
    } else {
        i
    }
}

/// Skips horizontal whitespace.
pub fn sp(s: &[u8], i: usize) -> (j: usize)
    requires
        i <= s@.len(),
    ensures
        j == spec_sp_end(s@, i as int),
        i <= j <= s@.len(),
{
    let mut j = i;
    while j < s.len() && (s[j] == B_SPACE || s[j] == B_TAB || s[j] == B_FF)
        invariant
            i <= j <= s@.len(),
            spec_sp_end(s@, i as int) == spec_sp_end(s@, j as int),
        decreases s@.len() - j,
    {
        j = j + 1;
    }
    j
}

/// Scans a run of name bytes.
pub fn id(s: &[u8], i: usize) -> (j: usize)
    requires
        i <= s@.len(),
    ensures
        j == spec_id_end(s@, i as int),
        i <= j <= s@.len(),
{
    let mut j = i;
    while j < s.len() && (s[j] == 0x2d || s[j] == 0x5f || s[j] == 0x2e || (0x30 <= s[j] && s[j]
        <= 0x39) || (0x41 <= s[j] && s[j] <= 0x5a) || (0x61 <= s[j] && s[j] <= 0x7a))
        invariant
            i <= j <= s@.len(),
            spec_id_end(s@, i as int) == spec_id_end(s@, j as int),
        decreases s@.len() - j,
    {
        j = j + 1;
    }
    j
}

/// Scans to the end of the token starting at `i`.
pub fn token_end(s: &[u8], i: usize) -> (j: usize)
    requires
        i <= s@.len(),
    ensures
        j == spec_token_end(s@, i as int),
        i <= j <= s@.len(),
{
    let mut j = i;
    while j < s.len() && !(s[j] == B_SPACE || s[j] == B_TAB || s[j] == B_FF) && s[j] != B_HASH
        invariant
            i <= j <= s@.len(),
            spec_token_end(s@, i as int) == spec_token_end(s@, j as int),
        decreases s@.len() - j,
    {
        j = j + 1;
    }
    j
}

/// Scans a run of decimal digits.
pub fn digits(s: &[u8], i: usize) -> (j: usize)
    requires
        i <= s@.len(),
    ensures
        j == spec_digits_end(s@, i as int),
        i <= j <= s@.len(),
{
    let mut j = i;
    while j < s.len() && 0x30 <= s[j] && s[j] <= 0x39
        invariant
            i <= j <= s@.len(),
            spec_digits_end(s@, i as int) == spec_digits_end(s@, j as int),
        decreases s@.len() - j,
    {
        j = j + 1;
    }
    j
}

/// Copies `s[i..j]` into a fresh vector.
pub fn subrange_vec(s: &[u8], i: usize, j: usize) -> (r: Vec<u8>)
    requires
        i <= j <= s@.len(),
    ensures
        r@ == s@.subrange(i as int, j as int),
{
    let mut r: Vec<u8> = Vec::new();
    let mut k = i;
    while k < j
        invariant
            i <= k <= j <= s@.len(),
            r@ == s@.subrange(i as int, k as int),
        decreases j - k,
    {
        r.push(s[k]);
        proof {
            assert(r@ =~= s@.subrange(i as int, k + 1));
        }
        k = k + 1;
    }
    r
}

/// Scans the exponent part of a scalar token.
pub fn exponent_end(s: &[u8], c: usize) -> (j: usize)
    requires
        c <= s@.len(),
    ensures
        j == crate::scalar::spec_exponent_end(s@, c as int),
        c <= j <= s@.len(),
{
    if c < s.len() && (s[c] == 0x65 || s[c] == 0x45) {
        let d = if c + 1 < s.len() && (s[c + 1] == 0x2b || s[c + 1] == 0x2d) {
            c + 2
        } else {
            c + 1
        };
        let e = digits(s, d);
        if e > d {
            e
        } else {
            c
        }
    } else {
        c
    }
}

/// Scans the longest well-formed scalar token starting at `i`; returns `i`
/// when none starts there.
pub fn float_end(s: &[u8], i: usize) -> (j: usize)
    requires
        i <= s@.len(),
    ensures
        j == spec_float_end(s@, i as int),
        i <= j <= s@.len(),
{
    let a = if i < s.len() && (s[i] == 0x2b || s[i] == 0x2d) {
        i + 1
    } else {
        i
    };
    let b = digits(s, a);
    if b > a {
        let c = if b < s.len() && s[b] == 0x2e {
            digits(s, b + 1)
        } else {
            b
        };
        exponent_end(s, c)
    } else if a < s.len() && s[a] == 0x2e {
        let c = digits(s, a + 1);
        if c > a + 1 {
            exponent_end(s, c)
        } else {
            i
        }
    } else {
        i
    }
}

/// The value of a run of decimal digits, most significant first.
pub open spec fn spec_dec_val(s: Seq<u8>) -> int
    decreases s.len(),
{
    if s.len() == 0 {
        0
    } else {
        spec_dec_val(s.drop_last()) * 10 + (s.last() - 0x30)
    }
}

/// A run of decimal digits denotes a non-negative value.
pub proof fn lemma_dec_val_nonneg(s: Seq<u8>)
    requires
        forall|k: int| 0 <= k < s.len() ==> is_digit(#[trigger] s[k]),
    ensures
        spec_dec_val(s) >= 0,
    decreases s.len(),
{
    if s.len() > 0 {
        lemma_dec_val_nonneg(s.drop_last());
    }
}

/// Extending a digit run to the right never decreases its value.
pub proof fn lemma_dec_val_prefix(s: Seq<u8>, i: int)
    requires
        forall|k: int| 0 <= k < s.len() ==> is_digit(#[trigger] s[k]),
        0 <= i <= s.len(),
    ensures
        spec_dec_val(s.subrange(0, i)) <= spec_dec_val(s),
    decreases s.len() - i,
{
    lemma_dec_val_nonneg(s.subrange(0, i));
    if i < s.len() {
        assert(s.subrange(0, i + 1).drop_last() =~= s.subrange(0, i));
        lemma_dec_val_prefix(s, i + 1);
    } else {
        assert(s.subrange(0, i) =~= s);
    }
}

/// Every byte of a digit run is a digit.
pub proof fn lemma_digits_all(s: Seq<u8>, i: int)
    requires
        0 <= i <= s.len(),
    ensures
        i <= spec_digits_end(s, i) <= s.len(),
        forall|k: int| i <= k < spec_digits_end(s, i) ==> is_digit(#[trigger] s[k]),
    decreases s.len() - i,
{
    if i < s.len() && is_digit(s[i]) {
        lemma_digits_all(s, i + 1);
    }
}

/// A deduplication key: the three table indices of one face corner, already
/// converted to 0-based form.
#[derive(PartialEq, Eq, Structural, Clone, Copy, Debug)]
pub struct VertexKey {
    pub position: usize,
    pub uv: usize,
    pub normal: usize,
}

impl DeepView for VertexKey {
    type V = VertexKey;

    open spec fn deep_view(&self) -> VertexKey {
        *self
    }
}

/// What a malformed line failed on.
#[derive(PartialEq, Eq, Clone, Debug)]
pub enum SyntaxKind {
    /// A token that no rule accepts at its position.
    Unexpected(Vec<u8>),
    /// A directive that needs a name reached the end of its line instead.
    ExpectedName,
    /// A directive that needs a scalar reached the end of its line instead.
    ExpectedNumber,
    /// A malformed or oversized numeric token.
    BadNumber(Vec<u8>),
    /// A face corner without the index that its shape demands.
    ExpectedIndex,
    /// A face index of zero, where indices are 1-based.
    ZeroIndex,
}

/// Mathematical image of `SyntaxKind`.
pub enum SpecSyntaxKind {
    Unexpected(Seq<u8>),
    ExpectedName,
    ExpectedNumber,
    BadNumber(Seq<u8>),
    ExpectedIndex,
    ZeroIndex,
}

impl DeepView for SyntaxKind {
    type V = SpecSyntaxKind;

    open spec fn deep_view(&self) -> SpecSyntaxKind {
        match self {
            SyntaxKind::Unexpected(t) => SpecSyntaxKind::Unexpected(t@),
            SyntaxKind::ExpectedName => SpecSyntaxKind::ExpectedName,
            SyntaxKind::ExpectedNumber => SpecSyntaxKind::ExpectedNumber,
            SyntaxKind::BadNumber(t) => SpecSyntaxKind::BadNumber(t@),
            SyntaxKind::ExpectedIndex => SpecSyntaxKind::ExpectedIndex,
            SyntaxKind::ZeroIndex => SpecSyntaxKind::ZeroIndex,
        }
    }
}

/// A failure within one line: the byte range it covers and its kind.
#[derive(PartialEq, Eq, Clone, Debug)]
pub struct LineError {
    pub start: usize,
    pub end: usize,
    pub kind: SyntaxKind,
}

/// Mathematical image of `LineError`.
pub struct SpecLineError {
    pub start: int,
    pub end: int,
    pub kind: SpecSyntaxKind,
}

impl DeepView for LineError {
    type V = SpecLineError;

    open spec fn deep_view(&self) -> SpecLineError {
        SpecLineError { start: self.start as int, end: self.end as int, kind: self.kind.deep_view() }
    }
}

/// A grammar failure, located by 1-based line number and a byte range within
/// that line; `src` holds the offending line for diagnostics.
#[derive(PartialEq, Eq, Clone, Debug)]
pub struct SyntaxError {
    pub line: usize,
    pub start: usize,
    pub end: usize,
    pub kind: SyntaxKind,
    pub src: Vec<u8>,
}

/// Mathematical image of `SyntaxError`.
pub struct SpecSyntaxError {
    pub line: int,
    pub start: int,
    pub end: int,
    pub kind: SpecSyntaxKind,
    pub src: Seq<u8>,
}

impl DeepView for SyntaxError {
    type V = SpecSyntaxError;

    open spec fn deep_view(&self) -> SpecSyntaxError {
        SpecSyntaxError {
            line: self.line as int,
            start: self.start as int,
            end: self.end as int,
            kind: self.kind.deep_view(),
            src: self.src@,
        }
    }
}

/// One parsed geometry directive, in file order. Scalars hold IEEE 754
/// single-precision bit patterns; face indices are 0-based.
#[derive(PartialEq, Eq, Clone, Debug)]
pub enum ObjDirective {
    Comment(Vec<u8>),
    Preprocess(Vec<Vec<u8>>),
    Mtllib(Vec<u8>),
    O(Vec<u8>),
    V(u32, u32, u32),
    Vt(u32, u32),
    Vn(u32, u32, u32),
    Usemtl(Vec<u8>),
    F(Vec<VertexKey>),
}

/// Mathematical image of `ObjDirective`.
pub enum SpecObjDirective {
    Comment(Seq<u8>),
    Preprocess(Seq<Seq<u8>>),
    Mtllib(Seq<u8>),
    O(Seq<u8>),
    V(u32, u32, u32),
    Vt(u32, u32),
    Vn(u32, u32, u32),
    Usemtl(Seq<u8>),
    F(Seq<VertexKey>),
}

impl DeepView for ObjDirective {
    type V = SpecObjDirective;

    open spec fn deep_view(&self) -> SpecObjDirective {
        match self {
            ObjDirective::Comment(t) => SpecObjDirective::Comment(t@),
            ObjDirective::Preprocess(fs) => SpecObjDirective::Preprocess(fs.deep_view()),
            ObjDirective::Mtllib(n) => SpecObjDirective::Mtllib(n@),
            ObjDirective::O(n) => SpecObjDirective::O(n@),
            ObjDirective::V(x, y, z) => SpecObjDirective::V(*x, *y, *z),
            ObjDirective::Vt(u, v) => SpecObjDirective::Vt(*u, *v),
            ObjDirective::Vn(x, y, z) => SpecObjDirective::Vn(*x, *y, *z),
            ObjDirective::Usemtl(n) => SpecObjDirective::Usemtl(n@),
            ObjDirective::F(ks) => SpecObjDirective::F(ks@),
        }
    }
}

/// One parsed material directive, in file order.
#[derive(PartialEq, Eq, Clone, Debug)]
pub enum MtlDirective {
    Comment(Vec<u8>),
    Newmtl(Vec<u8>),
    MapKd(Vec<u8>),
}

/// Mathematical image of `MtlDirective`.
pub enum SpecMtlDirective {
    Comment(Seq<u8>),
    Newmtl(Seq<u8>),
    MapKd(Seq<u8>),
}

impl DeepView for MtlDirective {
    type V = SpecMtlDirective;

    open spec fn deep_view(&self) -> SpecMtlDirective {
        match self {
            MtlDirective::Comment(t) => SpecMtlDirective::Comment(t@),
            MtlDirective::Newmtl(n) => SpecMtlDirective::Newmtl(n@),
            MtlDirective::MapKd(n) => SpecMtlDirective::MapKd(n@),
        }
    }
}

/// A 1-based face index at `i`: a non-empty digit run whose value fits the
/// machine and is not zero, returned in 0-based form with its end position.
pub open spec fn spec_index(s: Seq<u8>, i: int) -> Result<(usize, int), SpecLineError> {
    let d = spec_digits_end(s, i);
    if d == i {
        Err(SpecLineError { start: i, end: i, kind: SpecSyntaxKind::ExpectedIndex })
    } else {
        let v = spec_dec_val(s.subrange(i, d));
        if v > usize::MAX as int {
            Err(
                SpecLineError {
                    start: i,
                    end: d,
                    kind: SpecSyntaxKind::BadNumber(s.subrange(i, d)),
                },
            )
        } else if v == 0 {
            Err(SpecLineError { start: i, end: d, kind: SpecSyntaxKind::ZeroIndex })
        } else {
            Ok(((v - 1) as usize, d))
        }
    }
}

/// Parses one 1-based face index.
pub fn index(s: &[u8], i: usize) -> (r: Result<(usize, usize), LineError>)
    requires
        i <= s@.len(),
    ensures
        match r {
            Ok((v, d)) => spec_index(s@, i as int) == Ok::<(usize, int), SpecLineError>(
                (v, d as int),
            ) && i < d <= s@.len(),
            Err(e) => spec_index(s@, i as int) == Err::<(usize, int), SpecLineError>(
                e.deep_view(),
            ),
        },
{
    let d = digits(s, i);
    proof {
        lemma_digits_all(s@, i as int);
    }
    if d == i {
        return Err(LineError { start: i, end: i, kind: SyntaxKind::ExpectedIndex });
    }
    let ghost run = s@.subrange(i as int, d as int);
    let mut v: usize = 0;
    let mut k = i;
    while k < d
        invariant
            i < d <= s@.len(),
            i <= k <= d,
            d == spec_digits_end(s@, i as int),
            run == s@.subrange(i as int, d as int),
            forall|m: int| i <= m < d ==> is_digit(#[trigger] s@[m]),
            v == spec_dec_val(s@.subrange(i as int, k as int)),
        decreases d - k,
    {
        let dig = (s[k] - 0x30) as usize;
        proof {
            vstd::arithmetic::div_mod::lemma_fundamental_div_mod(usize::MAX as int, 10);
            assert(s@.subrange(i as int, k + 1).drop_last() =~= s@.subrange(i as int, k as int));
        }
        if v > usize::MAX / 10 || (v == usize::MAX / 10 && dig > usize::MAX % 10) {
            proof {
                assert(spec_dec_val(s@.subrange(i as int, k + 1)) > usize::MAX as int);
                assert(run.subrange(0, k + 1 - i) =~= s@.subrange(i as int, k + 1));
                lemma_dec_val_prefix(run, k + 1 - i);
            }
            return Err(
                LineError {
                    start: i,
                    end: d,
                    kind: SyntaxKind::BadNumber(subrange_vec(s, i, d)),
                },
            );
        }
        v = v * 10 + dig;
        k = k + 1;
    }
    if v == 0 {
        Err(LineError { start: i, end: d, kind: SyntaxKind::ZeroIndex })
    } else {
        Ok((v - 1, d))
    }
}

/// What must remain after a directive's arguments: whitespace, optionally
/// followed by a `#` comment that runs to the end of the line.
pub open spec fn spec_line_term(s: Seq<u8>, p: int) -> Result<(), SpecLineError> {
    let j = spec_sp_end(s, p);
    if j == s.len() || s[j] == B_HASH {
        Ok(())
    } else {
        Err(
            SpecLineError {
                start: j,
                end: spec_token_end(s, j),
                kind: SpecSyntaxKind::Unexpected(s.subrange(j, spec_token_end(s, j))),
            },
        )
    }
}

/// Accepts the end of a directive line: blank space and an optional trailing
/// comment.
pub fn line_term(s: &[u8], p: usize) -> (r: Result<(), LineError>)
    requires
        p <= s@.len(),
    ensures
        match r {
            Ok(u) => spec_line_term(s@, p as int) == Ok::<(), SpecLineError>(u),
            Err(e) => spec_line_term(s@, p as int) == Err::<(), SpecLineError>(e.deep_view()),
        },
{
    let j = sp(s, p);
    if j == s.len() || s[j] == B_HASH {
        Ok(())
    } else {
        let te = token_end(s, j);
        Err(
            LineError {
                start: j,
                end: te,
                kind: SyntaxKind::Unexpected(subrange_vec(s, j, te)),
            },
        )
    }
}

/// A name argument at `p`: whitespace, then a non-empty run of name bytes.
pub open spec fn spec_name_arg(s: Seq<u8>, p: int) -> Result<(Seq<u8>, int), SpecLineError> {
    let j = spec_sp_end(s, p);
    if j == s.len() || s[j] == B_HASH {
        Err(SpecLineError { start: j, end: j, kind: SpecSyntaxKind::ExpectedName })
    } else {
        let k = spec_id_end(s, j);
        if k == j {
            Err(
                SpecLineError {
                    start: j,
                    end: spec_token_end(s, j),
                    kind: SpecSyntaxKind::Unexpected(s.subrange(j, spec_token_end(s, j))),
                },
            )
        } else {
            Ok((s.subrange(j, k), k))
        }
    }
}

/// Parses one name argument.
pub fn name_arg(s: &[u8], p: usize) -> (r: Result<(Vec<u8>, usize), LineError>)
    requires
        p <= s@.len(),
    ensures
        match r {
            Ok((n, k)) => spec_name_arg(s@, p as int) == Ok::<(Seq<u8>, int), SpecLineError>(
                (n@, k as int),
            ) && p < k <= s@.len(),
            Err(e) => spec_name_arg(s@, p as int) == Err::<(Seq<u8>, int), SpecLineError>(
                e.deep_view(),
            ),
        },
{
    let j = sp(s, p);
    if j == s.len() || s[j] == B_HASH {
        return Err(LineError { start: j, end: j, kind: SyntaxKind::ExpectedName });
    }
    let k = id(s, j);
    if k == j {
        let te = token_end(s, j);
        Err(
            LineError {
                start: j,
                end: te,
                kind: SyntaxKind::Unexpected(subrange_vec(s, j, te)),
            },
        )
    } else {
        Ok((subrange_vec(s, j, k), k))
    }
}

/// A scalar argument at `p`: whitespace, then a whole token that is a
/// well-formed scalar, denoting its IEEE 754 single-precision bit pattern.
pub open spec fn spec_float_arg(s: Seq<u8>, p: int) -> Result<(u32, int), SpecLineError> {
    let j = spec_sp_end(s, p);
    if j == s.len() || s[j] == B_HASH {
        Err(SpecLineError { start: j, end: j, kind: SpecSyntaxKind::ExpectedNumber })
    } else {
        let fe = spec_float_end(s, j);
        let te = spec_token_end(s, j);
        if fe == j || fe != te {
            Err(
                SpecLineError {
                    start: j,
                    end: te,
                    kind: SpecSyntaxKind::BadNumber(s.subrange(j, te)),
                },
            )
        } else {
            Ok((crate::scalar::f32_bits_of(s.subrange(j, fe)), fe))
        }
    }
}

/// Parses one scalar argument into its bit pattern.
pub fn float_arg(s: &[u8], p: usize) -> (r: Result<(u32, usize), LineError>)
    requires
        p <= s@.len(),
    ensures
        match r {
            Ok((bits, fe)) => spec_float_arg(s@, p as int) == Ok::<(u32, int), SpecLineError>(
                (bits, fe as int),
            ) && p < fe <= s@.len(),
            Err(e) => spec_float_arg(s@, p as int) == Err::<(u32, int), SpecLineError>(
                e.deep_view(),
            ),
        },
{
    let j = sp(s, p);
    if j == s.len() || s[j] == B_HASH {
        return Err(LineError { start: j, end: j, kind: SyntaxKind::ExpectedNumber });
    }
    let fe = float_end(s, j);
    let te = token_end(s, j);
    if fe == j || fe != te {
        return Err(
            LineError {
                start: j,
                end: te,
                kind: SyntaxKind::BadNumber(subrange_vec(s, j, te)),
            },
        );
    }
    let bits = crate::scalar::parse_f32_bits(s, j, fe);
    Ok((bits, fe))
}

/// One face corner at `i`: three 1-based indices separated by `/`, ending at
/// whitespace, a trailing comment, or the end of the line.
pub open spec fn spec_triple(s: Seq<u8>, i: int) -> Result<(VertexKey, int), SpecLineError> {
    match spec_index(s, i) {
        Err(e) => Err(e),
        Ok((a, d1)) => if !(d1 < s.len() && s[d1] == B_SLASH) {
            Err(SpecLineError { start: d1, end: d1, kind: SpecSyntaxKind::ExpectedIndex })
        } else {
            match spec_index(s, d1 + 1) {
                Err(e) => Err(e),
                Ok((b, d2)) => if !(d2 < s.len() && s[d2] == B_SLASH) {
                    Err(SpecLineError { start: d2, end: d2, kind: SpecSyntaxKind::ExpectedIndex })
                } else {
                    match spec_index(s, d2 + 1) {
                        Err(e) => Err(e),
                        Ok((c, d3)) => if d3 == s.len() || is_ws(s[d3]) || s[d3] == B_HASH {
                            Ok((VertexKey { position: a, uv: b, normal: c }, d3))
                        } else {
                            Err(
                                SpecLineError {
                                    start: i,
                                    end: spec_token_end(s, i),
                                    kind: SpecSyntaxKind::Unexpected(
                                        s.subrange(i, spec_token_end(s, i)),
                                    ),
                                },
                            )
                        },
                    }
                },
            }
        },
    }
}

/// Parses one face corner.
pub fn triple(s: &[u8], i: usize) -> (r: Result<(VertexKey, usize), LineError>)
    requires
        i <= s@.len(),
    ensures
        match r {
            Ok((k, d)) => spec_triple(s@, i as int) == Ok::<(VertexKey, int), SpecLineError>(
                (k, d as int),
            ) && i < d <= s@.len(),
            Err(e) => spec_triple(s@, i as int) == Err::<(VertexKey, int), SpecLineError>(
                e.deep_view(),
            ),
        },
{
    let (a, d1) = match index(s, i) {
        Ok(x) => x,
        Err(e) => {
            return Err(e);
        },
    };
    if !(d1 < s.len() && s[d1] == B_SLASH) {
        return Err(LineError { start: d1, end: d1, kind: SyntaxKind::ExpectedIndex });
    }
    let (b, d2) = match index(s, d1 + 1) {
        Ok(x) => x,
        Err(e) => {
            return Err(e);
        },
    };
    if !(d2 < s.len() && s[d2] == B_SLASH) {
        return Err(LineError { start: d2, end: d2, kind: SyntaxKind::ExpectedIndex });
    }
    let (c, d3) = match index(s, d2 + 1) {
        Ok(x) => x,
        Err(e) => {
            return Err(e);
        },
    };
    if d3 == s.len() || s[d3] == B_SPACE || s[d3] == B_TAB || s[d3] == B_FF || s[d3] == B_HASH {
        Ok((VertexKey { position: a, uv: b, normal: c }, d3))
    } else {
        let te = token_end(s, i);
        Err(
            LineError {
                start: i,
                end: te,
                kind: SyntaxKind::Unexpected(subrange_vec(s, i, te)),
            },
        )
    }
}

/// The face corners from `p` to the end of the line, each advancing the
/// position; ends at a trailing comment or the end of the line.
pub open spec fn spec_face_args(s: Seq<u8>, p: int) -> Result<
    (Seq<VertexKey>, int),
    SpecLineError,
>
    decreases s.len() - p,
{
    let j = spec_sp_end(s, p);
    if j >= s.len() || s[j] == B_HASH {
        Ok((seq![], j))
    } else {
        match spec_triple(s, j) {
            Err(e) => Err(e),
            Ok((k, d)) => if p <= j && j < d && d <= s.len() {
                match spec_face_args(s, d) {
                    Err(e) => Err(e),
                    Ok((rest, endp)) => Ok((seq![k] + rest, endp)),
                }
            } else {
                // A corner always advances the position; this branch cannot
                // be reached from a parse.
                Err(SpecLineError { start: j, end: j, kind: SpecSyntaxKind::ExpectedIndex })
            },
        }
    }
}

/// Parses the face corners from `p` onward.
pub fn face_args(s: &[u8], p: usize) -> (r: Result<(Vec<VertexKey>, usize), LineError>)
    requires
        p <= s@.len(),
    ensures
        match r {
            Ok((ks, endp)) => spec_face_args(s@, p as int) == Ok::<
                (Seq<VertexKey>, int),
                SpecLineError,
            >((ks@, endp as int)) && endp <= s@.len(),
            Err(e) => spec_face_args(s@, p as int) == Err::<(Seq<VertexKey>, int), SpecLineError>(
                e.deep_view(),
            ),
        },
{
    let mut acc: Vec<VertexKey> = Vec::new();
    let mut q = p;
    loop
        invariant
            p <= q <= s@.len(),
            forall|rest: Seq<VertexKey>, endp: int|
                spec_face_args(s@, q as int) == Ok::<(Seq<VertexKey>, int), SpecLineError>(
                    (rest, endp),
                ) ==> spec_face_args(s@, p as int) == Ok::<(Seq<VertexKey>, int), SpecLineError>(
                    (acc@ + rest, endp),
                ),
            forall|e: SpecLineError|
                spec_face_args(s@, q as int) == Err::<(Seq<VertexKey>, int), SpecLineError>(e)
                    ==> spec_face_args(s@, p as int) == Err::<(Seq<VertexKey>, int), SpecLineError>(
                    e,
                ),
        decreases s@.len() - q,
    {
        let j = sp(s, q);
        if j == s.len() || s[j] == B_HASH {
            proof {
                assert(acc@ + seq![] =~= acc@);
            }
            return Ok((acc, j));
        }
        match triple(s, j) {
            Err(e) => {
                return Err(e);
            },
            Ok((k, d)) => {
                let ghost old_acc = acc@;
                acc.push(k);
                proof {
                    assert(acc@ =~= old_acc + seq![k]);
                    let ghost next = spec_face_args(s@, d as int);
                    assert forall|rest: Seq<VertexKey>, endp: int|
                        next == Ok::<(Seq<VertexKey>, int), SpecLineError>(
                            (rest, endp),
                        ) implies spec_face_args(s@, p as int) == Ok::<
                        (Seq<VertexKey>, int),
                        SpecLineError,
                    >((acc@ + rest, endp)) by {
                        assert(spec_face_args(s@, q as int) == Ok::<
                            (Seq<VertexKey>, int),
                            SpecLineError,
                        >((seq![k] + rest, endp)));
                        assert(old_acc + (seq![k] + rest) =~= (old_acc + seq![k]) + rest);
                    }
                }
                q = d;
            },
        }
    }
}

/// The preprocessor flags from `p` to the end of the line: whitespace-
/// separated runs of name bytes.
pub open spec fn spec_flags(s: Seq<u8>, p: int) -> Result<Seq<Seq<u8>>, SpecLineError>
    decreases s.len() - p,
{
    let j = spec_sp_end(s, p);
    if j >= s.len() || s[j] == B_HASH {
        Ok(seq![])
    } else {
        let k = spec_id_end(s, j);
        if k == j || (k < s.len() && !is_ws(s[k]) && s[k] != B_HASH) {
            Err(
                SpecLineError {
                    start: j,
                    end: spec_token_end(s, j),
                    kind: SpecSyntaxKind::Unexpected(s.subrange(j, spec_token_end(s, j))),
                },
            )
        } else if p <= j && j < k && k <= s.len() {
            match spec_flags(s, k) {
                Err(e) => Err(e),
                Ok(rest) => Ok(seq![s.subrange(j, k)] + rest),
            }
        } else {
            // A flag always advances the position; this branch cannot be
            // reached from a parse.
            Err(SpecLineError { start: j, end: j, kind: SpecSyntaxKind::ExpectedName })
        }
    }
}

/// Parses the preprocessor flags from `p` onward.
pub fn flags(s: &[u8], p: usize) -> (r: Result<Vec<Vec<u8>>, LineError>)
    requires
        p <= s@.len(),
    ensures
        match r {
            Ok(fs) => spec_flags(s@, p as int) == Ok::<Seq<Seq<u8>>, SpecLineError>(
                fs.deep_view(),
            ),
            Err(e) => spec_flags(s@, p as int) == Err::<Seq<Seq<u8>>, SpecLineError>(
                e.deep_view(),
            ),
        },
{
    let mut acc: Vec<Vec<u8>> = Vec::new();
    let mut q = p;
    loop
        invariant
            p <= q <= s@.len(),
            forall|rest: Seq<Seq<u8>>|
                spec_flags(s@, q as int) == Ok::<Seq<Seq<u8>>, SpecLineError>(rest)
                    ==> spec_flags(s@, p as int) == Ok::<Seq<Seq<u8>>, SpecLineError>(
                    acc.deep_view() + rest,
                ),
            forall|e: SpecLineError|
                spec_flags(s@, q as int) == Err::<Seq<Seq<u8>>, SpecLineError>(e) ==> spec_flags(
                    s@,
                    p as int,
                ) == Err::<Seq<Seq<u8>>, SpecLineError>(e),
        decreases s@.len() - q,
    {
        let j = sp(s, q);
        if j == s.len() || s[j] == B_HASH {
            proof {
                assert(acc.deep_view() + seq![] =~~= acc.deep_view());
            }
            return Ok(acc);
        }
        let k = id(s, j);
        if k == j || (k < s.len() && !(s[k] == B_SPACE || s[k] == B_TAB || s[k] == B_FF) && s[k]
            != B_HASH) {
            let te = token_end(s, j);
            return Err(
                LineError {
                    start: j,
                    end: te,
                    kind: SyntaxKind::Unexpected(subrange_vec(s, j, te)),
                },
            );
        }
        let flag = subrange_vec(s, j, k);
        let ghost old_deep = acc.deep_view();
        let ghost fl = s@.subrange(j as int, k as int);
        acc.push(flag);
        proof {
            assert(acc.deep_view() =~~= old_deep + seq![fl]);
            let ghost next = spec_flags(s@, k as int);
            assert forall|rest2: Seq<Seq<u8>>|
                next == Ok::<Seq<Seq<u8>>, SpecLineError>(rest2) implies spec_flags(
                s@,
                p as int,
            ) == Ok::<Seq<Seq<u8>>, SpecLineError>(acc.deep_view() + rest2) by {
                assert(spec_flags(s@, q as int) == Ok::<Seq<Seq<u8>>, SpecLineError>(
                    seq![fl] + rest2,
                ));
                assert(old_deep + (seq![fl] + rest2) =~~= (old_deep + seq![fl]) + rest2);
            }
        }
        q = k;
    }
}

/// A comment or preprocessor line: `#`, optional whitespace, then either the
/// `>>>` marker and its flags, or free comment text running to the end of
/// the line.
pub open spec fn spec_obj_comment(s: Seq<u8>, i0: int) -> Result<
    SpecObjDirective,
    SpecLineError,
> {
    let j = spec_sp_end(s, i0 + 1);
    if j + 3 <= s.len() && s[j] == B_GT && s[j + 1] == B_GT && s[j + 2] == B_GT {
        match spec_flags(s, j + 3) {
            Err(e) => Err(e),
            Ok(fs) => Ok(SpecObjDirective::Preprocess(fs)),
        }
    } else {
        Ok(SpecObjDirective::Comment(s.subrange(j, s.len() as int)))
    }
}

/// Parses a geometry comment or preprocessor line; `i0` is the position of
/// the leading `#`.
pub fn obj_comment(s: &[u8], i0: usize) -> (r: Result<ObjDirective, LineError>)
    requires
        i0 < s@.len(),
    ensures
        match r {
            Ok(d) => spec_obj_comment(s@, i0 as int) == Ok::<SpecObjDirective, SpecLineError>(
                d.deep_view(),
            ),
            Err(e) => spec_obj_comment(s@, i0 as int) == Err::<SpecObjDirective, SpecLineError>(
                e.deep_view(),
            ),
        },
{
    let n = s.len();
    let j = sp(s, i0 + 1);
    if n - j >= 3 && s[j] == B_GT && s[j + 1] == B_GT && s[j + 2] == B_GT {
        match flags(s, j + 3) {
            Err(e) => Err(e),
            Ok(fs) => Ok(ObjDirective::Preprocess(fs)),
        }
    } else {
        Ok(ObjDirective::Comment(subrange_vec(s, j, n)))
    }
}

/// A material-library reference: `mtllib`, then a path name.
pub open spec fn spec_mtllib(s: Seq<u8>, p: int) -> Result<SpecObjDirective, SpecLineError> {
    match spec_name_arg(s, p) {
        Err(e) => Err(e),
        Ok((n, k)) => match spec_line_term(s, k) {
            Err(e) => Err(e),
            Ok(_) => Ok(SpecObjDirective::Mtllib(n)),
        },
    }
}

/// Parses the argument of a `mtllib` directive.
pub fn mtllib(s: &[u8], p: usize) -> (r: Result<ObjDirective, LineError>)
    requires
        p <= s@.len(),
    ensures
        match r {
            Ok(d) => spec_mtllib(s@, p as int) == Ok::<SpecObjDirective, SpecLineError>(
                d.deep_view(),
            ),
            Err(e) => spec_mtllib(s@, p as int) == Err::<SpecObjDirective, SpecLineError>(
                e.deep_view(),
            ),
        },
{
    let (n, k) = match name_arg(s, p) {
        Ok(x) => x,
        Err(e) => {
            return Err(e);
        },
    };
    match line_term(s, k) {
        Err(e) => Err(e),
        Ok(_) => Ok(ObjDirective::Mtllib(n)),
    }
}

/// An object start: `o`, then the object's name.
pub open spec fn spec_o(s: Seq<u8>, p: int) -> Result<SpecObjDirective, SpecLineError> {
    match spec_name_arg(s, p) {
        Err(e) => Err(e),
        Ok((n, k)) => match spec_line_term(s, k) {
            Err(e) => Err(e),
            Ok(_) => Ok(SpecObjDirective::O(n)),
        },
    }
}

/// Parses the argument of an `o` directive.
pub fn o(s: &[u8], p: usize) -> (r: Result<ObjDirective, LineError>)
    requires
        p <= s@.len(),
    ensures
        match r {
            Ok(d) => spec_o(s@, p as int) == Ok::<SpecObjDirective, SpecLineError>(d.deep_view()),
            Err(e) => spec_o(s@, p as int) == Err::<SpecObjDirective, SpecLineError>(
                e.deep_view(),
            ),
        },
{
    let (n, k) = match name_arg(s, p) {
        Ok(x) => x,
        Err(e) => {
            return Err(e);
        },
    };
    match line_term(s, k) {
        Err(e) => Err(e),
        Ok(_) => Ok(ObjDirective::O(n)),
    }
}

/// A material binding: `usemtl`, then the material's name.
pub open spec fn spec_usemtl(s: Seq<u8>, p: int) -> Result<SpecObjDirective, SpecLineError> {
    match spec_name_arg(s, p) {
        Err(e) => Err(e),
        Ok((n, k)) => match spec_line_term(s, k) {
            Err(e) => Err(e),
            Ok(_) => Ok(SpecObjDirective::Usemtl(n)),
        },
    }
}

/// Parses the argument of a `usemtl` directive.
pub fn usemtl(s: &[u8], p: usize) -> (r: Result<ObjDirective, LineError>)
    requires
        p <= s@.len(),
    ensures
        match r {
            Ok(d) => spec_usemtl(s@, p as int) == Ok::<SpecObjDirective, SpecLineError>(
                d.deep_view(),
            ),
            Err(e) => spec_usemtl(s@, p as int) == Err::<SpecObjDirective, SpecLineError>(
                e.deep_view(),
            ),
        },
{
    let (n, k) = match name_arg(s, p) {
        Ok(x) => x,
        Err(e) => {
            return Err(e);
        },
    };
    match line_term(s, k) {
        Err(e) => Err(e),
        Ok(_) => Ok(ObjDirective::Usemtl(n)),
    }
}

/// A position: `v`, then three scalars.
pub open spec fn spec_v(s: Seq<u8>, p: int) -> Result<SpecObjDirective, SpecLineError> {
    match spec_float_arg(s, p) {
        Err(e) => Err(e),
        Ok((x, p1)) => match spec_float_arg(s, p1) {
            Err(e) => Err(e),
            Ok((y, p2)) => match spec_float_arg(s, p2) {
                Err(e) => Err(e),
                Ok((z, p3)) => match spec_line_term(s, p3) {
                    Err(e) => Err(e),
                    Ok(_) => Ok(SpecObjDirective::V(x, y, z)),
                },
            },
        },
    }
}

/// Parses the arguments of a `v` directive.
pub fn v(s: &[u8], p: usize) -> (r: Result<ObjDirective, LineError>)
    requires
        p <= s@.len(),
    ensures
        match r {
            Ok(d) => spec_v(s@, p as int) == Ok::<SpecObjDirective, SpecLineError>(d.deep_view()),
            Err(e) => spec_v(s@, p as int) == Err::<SpecObjDirective, SpecLineError>(
                e.deep_view(),
            ),
        },
{
    let (x, p1) = match float_arg(s, p) {
        Ok(r) => r,
        Err(e) => {
            return Err(e);
        },
    };
    let (y, p2) = match float_arg(s, p1) {
        Ok(r) => r,
        Err(e) => {
            return Err(e);
        },
    };
    let (z, p3) = match float_arg(s, p2) {
        Ok(r) => r,
        Err(e) => {
            return Err(e);
        },
    };
    match line_term(s, p3) {
        Err(e) => Err(e),
        Ok(_) => Ok(ObjDirective::V(x, y, z)),
    }
}

/// A texture coordinate: `vt`, then two scalars.
pub open spec fn spec_vt(s: Seq<u8>, p: int) -> Result<SpecObjDirective, SpecLineError> {
    match spec_float_arg(s, p) {
        Err(e) => Err(e),
        Ok((u, p1)) => match spec_float_arg(s, p1) {
            Err(e) => Err(e),
            Ok((w, p2)) => match spec_line_term(s, p2) {
                Err(e) => Err(e),
                Ok(_) => Ok(SpecObjDirective::Vt(u, w)),
            },
        },
    }
}

/// Parses the arguments of a `vt` directive.
pub fn vt(s: &[u8], p: usize) -> (r: Result<ObjDirective, LineError>)
    requires
        p <= s@.len(),
    ensures
        match r {
            Ok(d) => spec_vt(s@, p as int) == Ok::<SpecObjDirective, SpecLineError>(d.deep_view()),
            Err(e) => spec_vt(s@, p as int) == Err::<SpecObjDirective, SpecLineError>(
                e.deep_view(),
            ),
        },
{
    let (u, p1) = match float_arg(s, p) {
        Ok(r) => r,
        Err(e) => {
            return Err(e);
        },
    };
    let (w, p2) = match float_arg(s, p1) {
        Ok(r) => r,
        Err(e) => {
            return Err(e);
        },
    };
    match line_term(s, p2) {
        Err(e) => Err(e),
        Ok(_) => Ok(ObjDirective::Vt(u, w)),
    }
}

/// A normal: `vn`, then three scalars.
pub open spec fn spec_vn(s: Seq<u8>, p: int) -> Result<SpecObjDirective, SpecLineError> {
    match spec_float_arg(s, p) {
        Err(e) => Err(e),
        Ok((x, p1)) => match spec_float_arg(s, p1) {
            Err(e) => Err(e),
            Ok((y, p2)) => match spec_float_arg(s, p2) {
                Err(e) => Err(e),
                Ok((z, p3)) => match spec_line_term(s, p3) {
                    Err(e) => Err(e),
                    Ok(_) => Ok(SpecObjDirective::Vn(x, y, z)),
                },
            },
        },
    }
}

/// Parses the arguments of a `vn` directive.
pub fn vn(s: &[u8], p: usize) -> (r: Result<ObjDirective, LineError>)
    requires
        p <= s@.len(),
    ensures
        match r {
            Ok(d) => spec_vn(s@, p as int) == Ok::<SpecObjDirective, SpecLineError>(d.deep_view()),
            Err(e) => spec_vn(s@, p as int) == Err::<SpecObjDirective, SpecLineError>(
                e.deep_view(),
            ),
        },
{
    let (x, p1) = match float_arg(s, p) {
        Ok(r) => r,
        Err(e) => {
            return Err(e);
        },
    };
    let (y, p2) = match float_arg(s, p1) {
        Ok(r) => r,
        Err(e) => {
            return Err(e);
        },
    };
    let (z, p3) = match float_arg(s, p2) {
        Ok(r) => r,
        Err(e) => {
            return Err(e);
        },
    };
    match line_term(s, p3) {
        Err(e) => Err(e),
        Ok(_) => Ok(ObjDirective::Vn(x, y, z)),
    }
}

/// A face: `f`, then at least three corners.
pub open spec fn spec_f(s: Seq<u8>, p: int) -> Result<SpecObjDirective, SpecLineError> {
    match spec_face_args(s, p) {
        Err(e) => Err(e),
        Ok((ts, endp)) => if ts.len() < 3 {
            Err(SpecLineError { start: endp, end: endp, kind: SpecSyntaxKind::ExpectedIndex })
        } else {
            Ok(SpecObjDirective::F(ts))
        },
    }
}

/// Parses the arguments of an `f` directive.
pub fn f(s: &[u8], p: usize) -> (r: Result<ObjDirective, LineError>)
    requires
        p <= s@.len(),
    ensures
        match r {
            Ok(d) => spec_f(s@, p as int) == Ok::<SpecObjDirective, SpecLineError>(d.deep_view()),
            Err(e) => spec_f(s@, p as int) == Err::<SpecObjDirective, SpecLineError>(
                e.deep_view(),
            ),
        },
{
    let (ts, endp) = match face_args(s, p) {
        Ok(r) => r,
        Err(e) => {
            return Err(e);
        },
    };
    if ts.len() < 3 {
        Err(LineError { start: endp, end: endp, kind: SyntaxKind::ExpectedIndex })
    } else {
        Ok(ObjDirective::F(ts))
    }
}

/// One geometry line: blank, a comment or preprocessor line, or a keyword
/// directive; any other leading token is rejected.
pub open spec fn spec_obj_line(s: Seq<u8>) -> Result<Option<SpecObjDirective>, SpecLineError> {
    let i0 = spec_sp_end(s, 0);
    if i0 >= s.len() {
        Ok(None)
    } else if s[i0] == B_HASH {
        match spec_obj_comment(s, i0) {
            Err(e) => Err(e),
            Ok(d) => Ok(Some(d)),
        }
    } else {
        let e = spec_token_end(s, i0);
        let n = e - i0;
        let r = if n == 1 && s[i0] == 0x6f {
            spec_o(s, e)
        } else if n == 1 && s[i0] == 0x76 {
            spec_v(s, e)
        } else if n == 1 && s[i0] == 0x66 {
            spec_f(s, e)
        } else if n == 2 && s[i0] == 0x76 && s[i0 + 1] == 0x74 {
            spec_vt(s, e)
        } else if n == 2 && s[i0] == 0x76 && s[i0 + 1] == 0x6e {
            spec_vn(s, e)
        } else if n == 6 && s[i0] == 0x6d && s[i0 + 1] == 0x74 && s[i0 + 2] == 0x6c && s[i0 + 3]
            == 0x6c && s[i0 + 4] == 0x69 && s[i0 + 5] == 0x62 {
            spec_mtllib(s, e)
        } else if n == 6 && s[i0] == 0x75 && s[i0 + 1] == 0x73 && s[i0 + 2] == 0x65 && s[i0 + 3]
            == 0x6d && s[i0 + 4] == 0x74 && s[i0 + 5] == 0x6c {
            spec_usemtl(s, e)
        } else {
            Err(
                SpecLineError {
                    start: i0,
                    end: e,
                    kind: SpecSyntaxKind::Unexpected(s.subrange(i0, e)),
                },
            )
        };
        match r {
            Err(er) => Err(er),
            Ok(d) => Ok(Some(d)),
        }
    }
}

/// Parses one geometry line.
pub fn obj_line(s: &[u8]) -> (r: Result<Option<ObjDirective>, LineError>)
    ensures
        match r {
            Ok(d) => spec_obj_line(s@) == Ok::<Option<SpecObjDirective>, SpecLineError>(
                d.deep_view(),
            ),
            Err(e) => spec_obj_line(s@) == Err::<Option<SpecObjDirective>, SpecLineError>(
                e.deep_view(),
            ),
        },
{
    let i0 = sp(s, 0);
    if i0 >= s.len() {
        return Ok(None);
    }
    if s[i0] == B_HASH {
        return match obj_comment(s, i0) {
            Err(e) => Err(e),
            Ok(d) => Ok(Some(d)),
        };
    }
    let e = token_end(s, i0);
    let n = e - i0;
    let r = if n == 1 && s[i0] == 0x6f {
        o(s, e)
    } else if n == 1 && s[i0] == 0x76 {
        v(s, e)
    } else if n == 1 && s[i0] == 0x66 {
        f(s, e)
    } else if n == 2 && s[i0] == 0x76 && s[i0 + 1] == 0x74 {
        vt(s, e)
    } else if n == 2 && s[i0] == 0x76 && s[i0 + 1] == 0x6e {
        vn(s, e)
    } else if n == 6 && s[i0] == 0x6d && s[i0 + 1] == 0x74 && s[i0 + 2] == 0x6c && s[i0 + 3]
        == 0x6c && s[i0 + 4] == 0x69 && s[i0 + 5] == 0x62 {
        mtllib(s, e)
    } else if n == 6 && s[i0] == 0x75 && s[i0 + 1] == 0x73 && s[i0 + 2] == 0x65 && s[i0 + 3]
        == 0x6d && s[i0 + 4] == 0x74 && s[i0 + 5] == 0x6c {
        usemtl(s, e)
    } else {
        Err(
            LineError {
                start: i0,
                end: e,
                kind: SyntaxKind::Unexpected(subrange_vec(s, i0, e)),
            },
        )
    };
    match r {
        Err(er) => Err(er),
        Ok(d) => Ok(Some(d)),
    }
}

/// A material comment line: `#`, optional whitespace, then free text.
pub open spec fn spec_mtl_comment(s: Seq<u8>, i0: int) -> SpecMtlDirective {
    SpecMtlDirective::Comment(s.subrange(spec_sp_end(s, i0 + 1), s.len() as int))
}

/// Parses a material comment line; `i0` is the position of the leading `#`.
pub fn mtl_comment(s: &[u8], i0: usize) -> (r: MtlDirective)
    requires
        i0 < s@.len(),
    ensures
        r.deep_view() == spec_mtl_comment(s@, i0 as int),
{
    let n = s.len();
    let j = sp(s, i0 + 1);
    MtlDirective::Comment(subrange_vec(s, j, n))
}

/// A material start: `newmtl`, then the material's name.
pub open spec fn spec_newmtl(s: Seq<u8>, p: int) -> Result<SpecMtlDirective, SpecLineError> {
    match spec_name_arg(s, p) {
        Err(e) => Err(e),
        Ok((n, k)) => match spec_line_term(s, k) {
            Err(e) => Err(e),
            Ok(_) => Ok(SpecMtlDirective::Newmtl(n)),
        },
    }
}

/// Parses the argument of a `newmtl` directive.
pub fn newmtl(s: &[u8], p: usize) -> (r: Result<MtlDirective, LineError>)
    requires
        p <= s@.len(),
    ensures
        match r {
            Ok(d) => spec_newmtl(s@, p as int) == Ok::<SpecMtlDirective, SpecLineError>(
                d.deep_view(),
            ),
            Err(e) => spec_newmtl(s@, p as int) == Err::<SpecMtlDirective, SpecLineError>(
                e.deep_view(),
            ),
        },
{
    let (n, k) = match name_arg(s, p) {
        Ok(x) => x,
        Err(e) => {
            return Err(e);
        },
    };
    match line_term(s, k) {
        Err(e) => Err(e),
        Ok(_) => Ok(MtlDirective::Newmtl(n)),
    }
}

/// A diffuse-texture reference: `map_Kd`, then a path name.
pub open spec fn spec_map_kd(s: Seq<u8>, p: int) -> Result<SpecMtlDirective, SpecLineError> {
    match spec_name_arg(s, p) {
        Err(e) => Err(e),
        Ok((n, k)) => match spec_line_term(s, k) {
            Err(e) => Err(e),
            Ok(_) => Ok(SpecMtlDirective::MapKd(n)),
        },
    }
}

/// Parses the argument of a `map_Kd` directive.
pub fn map_kd(s: &[u8], p: usize) -> (r: Result<MtlDirective, LineError>)
    requires
        p <= s@.len(),
    ensures
        match r {
            Ok(d) => spec_map_kd(s@, p as int) == Ok::<SpecMtlDirective, SpecLineError>(
                d.deep_view(),
            ),
            Err(e) => spec_map_kd(s@, p as int) == Err::<SpecMtlDirective, SpecLineError>(
                e.deep_view(),
            ),
        },
{
    let (n, k) = match name_arg(s, p) {
        Ok(x) => x,
        Err(e) => {
            return Err(e);
        },
    };
    match line_term(s, k) {
        Err(e) => Err(e),
        Ok(_) => Ok(MtlDirective::MapKd(n)),
    }
}

/// One material line: blank, a comment, or a keyword directive.
pub open spec fn spec_mtl_line(s: Seq<u8>) -> Result<Option<SpecMtlDirective>, SpecLineError> {
    let i0 = spec_sp_end(s, 0);
    if i0 >= s.len() {
        Ok(None)
    } else if s[i0] == B_HASH {
        Ok(Some(spec_mtl_comment(s, i0)))
    } else {
        let e = spec_token_end(s, i0);
        let n = e - i0;
        let r = if n == 6 && s[i0] == 0x6e && s[i0 + 1] == 0x65 && s[i0 + 2] == 0x77 && s[i0 + 3]
            == 0x6d && s[i0 + 4] == 0x74 && s[i0 + 5] == 0x6c {
            spec_newmtl(s, e)
        } else if n == 6 && s[i0] == 0x6d && s[i0 + 1] == 0x61 && s[i0 + 2] == 0x70 && s[i0 + 3]
            == 0x5f && s[i0 + 4] == 0x4b && s[i0 + 5] == 0x64 {
            spec_map_kd(s, e)
        } else {
            Err(
                SpecLineError {
                    start: i0,
                    end: e,
                    kind: SpecSyntaxKind::Unexpected(s.subrange(i0, e)),
                },
            )
        };
        match r {
            Err(er) => Err(er),
            Ok(d) => Ok(Some(d)),
        }
    }
}

/// Parses one material line.
pub fn mtl_line(s: &[u8]) -> (r: Result<Option<MtlDirective>, LineError>)
    ensures
        match r {
            Ok(d) => spec_mtl_line(s@) == Ok::<Option<SpecMtlDirective>, SpecLineError>(
                d.deep_view(),
            ),
            Err(e) => spec_mtl_line(s@) == Err::<Option<SpecMtlDirective>, SpecLineError>(
                e.deep_view(),
            ),
        },
{
    let i0 = sp(s, 0);
    if i0 >= s.len() {
        return Ok(None);
    }
    if s[i0] == B_HASH {
        return Ok(Some(mtl_comment(s, i0)));
    }
    let e = token_end(s, i0);
    let n = e - i0;
    let r = if n == 6 && s[i0] == 0x6e && s[i0 + 1] == 0x65 && s[i0 + 2] == 0x77 && s[i0 + 3]
        == 0x6d && s[i0 + 4] == 0x74 && s[i0 + 5] == 0x6c {
        newmtl(s, e)
    } else if n == 6 && s[i0] == 0x6d && s[i0 + 1] == 0x61 && s[i0 + 2] == 0x70 && s[i0 + 3]
        == 0x5f && s[i0 + 4] == 0x4b && s[i0 + 5] == 0x64 {
        map_kd(s, e)
    } else {
        Err(
            LineError {
                start: i0,
                end: e,
                kind: SyntaxKind::Unexpected(subrange_vec(s, i0, e)),
            },
        )
    };
    match r {
        Err(er) => Err(er),
        Ok(d) => Ok(Some(d)),
    }
}

/// Position of the first line break at or after `i`.
pub open spec fn spec_line_end(s: Seq<u8>, i: int) -> int
    recommends
        0 <= i <= s.len(),
    decreases s.len() - i,
{
    if 0 <= i < s.len() && !is_line_break(s[i]) {
        spec_line_end(s, i + 1)
    } else {
        i
    }
}

/// Start of the line after the break at `j`; a carriage return followed by a
/// line feed counts as one break.
pub open spec fn spec_next_line(s: Seq<u8>, j: int) -> int {
    if j + 1 < s.len() && s[j] == B_CR && s[j + 1] == B_LF {
        j + 2
    } else {
        j + 1
    }
}

/// The physical lines of `s` from offset `o` on, without their breaks.
pub open spec fn spec_lines(s: Seq<u8>, o: int) -> Seq<Seq<u8>>
    decreases s.len() - o,
{
    if o < 0 || o >= s.len() {
        seq![]
    } else {
        let j = spec_line_end(s, o);
        if o <= j && j < s.len() {
            seq![s.subrange(o, j)] + spec_lines(s, spec_next_line(s, j))
        } else {
            seq![s.subrange(o, s.len() as int)]
        }
    }
}

/// Scans to the first line break at or after `i`.
pub fn line_end(s: &[u8], i: usize) -> (j: usize)
    requires
        i <= s@.len(),
    ensures
        j == spec_line_end(s@, i as int),
        i <= j <= s@.len(),
{
    let mut j = i;
    while j < s.len() && s[j] != B_LF && s[j] != B_CR
        invariant
            i <= j <= s@.len(),
            spec_line_end(s@, i as int) == spec_line_end(s@, j as int),
        decreases s@.len() - j,
    {
        j = j + 1;
    }
    j
}

/// Splits the input into its physical lines.
pub fn split_lines(s: &[u8]) -> (r: Vec<Vec<u8>>)
    ensures
        r.deep_view() == spec_lines(s@, 0),
{
    let n = s.len();
    let mut lines: Vec<Vec<u8>> = Vec::new();
    let mut o: usize = 0;
    while o < n
        invariant
            o <= n == s@.len(),
            spec_lines(s@, 0) == lines.deep_view() + spec_lines(s@, o as int),
        decreases n - o,
    {
        let j = line_end(s, o);
        let line = subrange_vec(s, o, j);
        let ghost old_deep = lines.deep_view();
        lines.push(line);
        proof {
            assert(lines.deep_view() =~~= old_deep + seq![s@.subrange(o as int, j as int)]);
        }
        if j < n {
            let next = if s[j] == B_CR && j + 1 < n && s[j + 1] == B_LF {
                j + 2
            } else {
                j + 1
            };
            proof {
                assert(next == spec_next_line(s@, j as int));
                assert(spec_lines(s@, o as int) == seq![s@.subrange(o as int, j as int)]
                    + spec_lines(s@, next as int));
                assert(old_deep + (seq![s@.subrange(o as int, j as int)] + spec_lines(
                    s@,
                    next as int,
                )) =~~= (old_deep + seq![s@.subrange(o as int, j as int)]) + spec_lines(
                    s@,
                    next as int,
                ));
            }
            o = next;
        } else {
            proof {
                assert(spec_lines(s@, o as int) == seq![s@.subrange(o as int, n as int)]);
                assert(old_deep + seq![s@.subrange(o as int, n as int)] =~~= lines.deep_view()
                    + spec_lines(s@, n as int));
            }
            o = n;
        }
    }
    proof {
        assert(lines.deep_view() + spec_lines(s@, o as int) =~~= lines.deep_view());
    }
    lines
}

/// The geometry directives of the lines from `k` on; the first malformed
/// line aborts the parse with its located error.
pub open spec fn spec_run_obj_lines(lines: Seq<Seq<u8>>, k: int) -> Result<
    Seq<SpecObjDirective>,
    SpecSyntaxError,
>
    decreases lines.len() - k,
{
    if k < 0 || k >= lines.len() {
        Ok(seq![])
    } else {
        match spec_obj_line(lines[k]) {
            Err(le) => Err(
                SpecSyntaxError {
                    line: k + 1,
                    start: le.start,
                    end: le.end,
                    kind: le.kind,
                    src: lines[k],
                },
            ),
            Ok(None) => spec_run_obj_lines(lines, k + 1),
            Ok(Some(d)) => match spec_run_obj_lines(lines, k + 1) {
                Err(e) => Err(e),
                Ok(rest) => Ok(seq![d] + rest),
            },
        }
    }
}

/// The geometry directives of the whole input, line by line.
pub open spec fn spec_parse_obj(s: Seq<u8>) -> Result<Seq<SpecObjDirective>, SpecSyntaxError> {
    spec_run_obj_lines(spec_lines(s, 0), 0)
}

/// Parses a geometry source into its directive sequence, or the first
/// grammar failure.
pub fn parse_obj(input: &[u8]) -> (r: Result<Vec<ObjDirective>, SyntaxError>)
    ensures
        match r {
            Ok(ds) => spec_parse_obj(input@) == Ok::<Seq<SpecObjDirective>, SpecSyntaxError>(
                ds.deep_view(),
            ),
            Err(e) => spec_parse_obj(input@) == Err::<Seq<SpecObjDirective>, SpecSyntaxError>(
                e.deep_view(),
            ),
        },
{
    let lines = split_lines(input);
    let ghost lv = lines.deep_view();
    let mut acc: Vec<ObjDirective> = Vec::new();
    let mut k: usize = 0;
    let n = lines.len();
    while k < n
        invariant
            k <= n == lines@.len(),
            lv == lines.deep_view(),
            lv == spec_lines(input@, 0),
            forall|rest: Seq<SpecObjDirective>|
                spec_run_obj_lines(lv, k as int) == Ok::<Seq<SpecObjDirective>, SpecSyntaxError>(
                    rest,
                ) ==> spec_run_obj_lines(lv, 0) == Ok::<Seq<SpecObjDirective>, SpecSyntaxError>(
                    acc.deep_view() + rest,
                ),
            forall|e: SpecSyntaxError|
                spec_run_obj_lines(lv, k as int) == Err::<Seq<SpecObjDirective>, SpecSyntaxError>(
                    e,
                ) ==> spec_run_obj_lines(lv, 0) == Err::<Seq<SpecObjDirective>, SpecSyntaxError>(
                    e,
                ),
        decreases n - k,
    {
        let line = &lines[k];
        proof {
            assert(line@ == lv[k as int]);
        }
        match obj_line(line.as_slice()) {
            Err(le) => {
                return Err(
                    SyntaxError {
                        line: k + 1,
                        start: le.start,
                        end: le.end,
                        kind: le.kind,
                        src: line.clone(),
                    },
                );
            },
            Ok(None) => {
                k = k + 1;
            },
            Ok(Some(d)) => {
                let ghost dv = d.deep_view();
                let ghost old_deep = acc.deep_view();
                acc.push(d);
                proof {
                    assert(acc.deep_view() =~~= old_deep + seq![dv]);
                    let ghost next = spec_run_obj_lines(lv, k + 1);
                    assert forall|rest: Seq<SpecObjDirective>|
                        next == Ok::<Seq<SpecObjDirective>, SpecSyntaxError>(
                            rest,
                        ) implies spec_run_obj_lines(lv, 0) == Ok::<
                        Seq<SpecObjDirective>,
                        SpecSyntaxError,
                    >(acc.deep_view() + rest) by {
                        assert(spec_run_obj_lines(lv, k as int) == Ok::<
                            Seq<SpecObjDirective>,
                            SpecSyntaxError,
                        >(seq![dv] + rest));
                        assert(old_deep + (seq![dv] + rest) =~~= (old_deep + seq![dv]) + rest);
                    }
                }
                k = k + 1;
            },
        }
    }
    proof {
        assert(acc.deep_view() + seq![] =~~= acc.deep_view());
    }
    Ok(acc)
}

/// The material directives of the lines from `k` on.
pub open spec fn spec_run_mtl_lines(lines: Seq<Seq<u8>>, k: int) -> Result<
    Seq<SpecMtlDirective>,
    SpecSyntaxError,
>
    decreases lines.len() - k,
{
    if k < 0 || k >= lines.len() {
        Ok(seq![])
    } else {
        match spec_mtl_line(lines[k]) {
            Err(le) => Err(
                SpecSyntaxError {
                    line: k + 1,
                    start: le.start,
                    end: le.end,
                    kind: le.kind,
                    src: lines[k],
                },
            ),
            Ok(None) => spec_run_mtl_lines(lines, k + 1),
            Ok(Some(d)) => match spec_run_mtl_lines(lines, k + 1) {
                Err(e) => Err(e),
                Ok(rest) => Ok(seq![d] + rest),
            },
        }
    }
}

/// The material directives of the whole input, line by line.
pub open spec fn spec_parse_mtl(s: Seq<u8>) -> Result<Seq<SpecMtlDirective>, SpecSyntaxError> {
    spec_run_mtl_lines(spec_lines(s, 0), 0)
}

/// Parses a material source into its directive sequence, or the first
/// grammar failure.
pub fn parse_mtl(input: &[u8]) -> (r: Result<Vec<MtlDirective>, SyntaxError>)
    ensures
        match r {
            Ok(ds) => spec_parse_mtl(input@) == Ok::<Seq<SpecMtlDirective>, SpecSyntaxError>(
                ds.deep_view(),
            ),
            Err(e) => spec_parse_mtl(input@) == Err::<Seq<SpecMtlDirective>, SpecSyntaxError>(
                e.deep_view(),
            ),
        },
{
    let lines = split_lines(input);
    let ghost lv = lines.deep_view();
    let mut acc: Vec<MtlDirective> = Vec::new();
    let mut k: usize = 0;
    let n = lines.len();
    while k < n
        invariant
            k <= n == lines@.len(),
            lv == lines.deep_view(),
            lv == spec_lines(input@, 0),
            forall|rest: Seq<SpecMtlDirective>|
                spec_run_mtl_lines(lv, k as int) == Ok::<Seq<SpecMtlDirective>, SpecSyntaxError>(
                    rest,
                ) ==> spec_run_mtl_lines(lv, 0) == Ok::<Seq<SpecMtlDirective>, SpecSyntaxError>(
                    acc.deep_view() + rest,
                ),
            forall|e: SpecSyntaxError|
                spec_run_mtl_lines(lv, k as int) == Err::<Seq<SpecMtlDirective>, SpecSyntaxError>(
                    e,
                ) ==> spec_run_mtl_lines(lv, 0) == Err::<Seq<SpecMtlDirective>, SpecSyntaxError>(
                    e,
                ),
        decreases n - k,
    {
        let line = &lines[k];
        proof {
            assert(line@ == lv[k as int]);
        }
        match mtl_line(line.as_slice()) {
            Err(le) => {
                return Err(
                    SyntaxError {
                        line: k + 1,
                        start: le.start,
                        end: le.end,
                        kind: le.kind,
                        src: line.clone(),
                    },
                );
            },
            Ok(None) => {
                k = k + 1;
            },
            Ok(Some(d)) => {
                let ghost dv = d.deep_view();
                let ghost old_deep = acc.deep_view();
                acc.push(d);
                proof {
                    assert(acc.deep_view() =~~= old_deep + seq![dv]);
                    let ghost next = spec_run_mtl_lines(lv, k + 1);
                    assert forall|rest: Seq<SpecMtlDirective>|
                        next == Ok::<Seq<SpecMtlDirective>, SpecSyntaxError>(
                            rest,
                        ) implies spec_run_mtl_lines(lv, 0) == Ok::<
                        Seq<SpecMtlDirective>,
                        SpecSyntaxError,
                    >(acc.deep_view() + rest) by {
                        assert(spec_run_mtl_lines(lv, k as int) == Ok::<
                            Seq<SpecMtlDirective>,
                            SpecSyntaxError,
                        >(seq![dv] + rest));
                        assert(old_deep + (seq![dv] + rest) =~~= (old_deep + seq![dv]) + rest);
                    }
                }
                k = k + 1;
            },
        }
    }
    proof {
        assert(acc.deep_view() + seq![] =~~= acc.deep_view());
    }
    Ok(acc)
}

/// A face-corner key whose 1-based form fits the machine: each 0-based
/// component is strictly below `usize::MAX`.
pub open spec fn key_wf(k: VertexKey) -> bool {
    k.position < usize::MAX && k.uv < usize::MAX && k.normal < usize::MAX
}

/// Every face key of the directive sequence is well-formed.
pub open spec fn obj_dirs_wf(ds: Seq<SpecObjDirective>) -> bool {
    forall|i: int|
        0 <= i < ds.len() ==> match #[trigger] ds[i] {
            SpecObjDirective::F(ks) => forall|j: int|
                0 <= j < ks.len() ==> key_wf(#[trigger] ks[j]),
            _ => true,
        }
}

/// A parsed index is well-formed: its 1-based form fits the machine.
pub proof fn lemma_index_ok_wf(s: Seq<u8>, i: int)
    ensures
        match spec_index(s, i) {
            Ok(r) => r.0 < usize::MAX,
            Err(_) => true,
        },
{
    let d = spec_digits_end(s, i);
    if 0 <= i <= s.len() {
        lemma_digits_all(s, i);
        if d > i {
            lemma_dec_val_nonneg(s.subrange(i, d));
        }
    }
}

/// A parsed face corner is well-formed: its 1-based indices fit the
/// machine.
pub proof fn lemma_triple_wf(s: Seq<u8>, i: int)
    ensures
        match spec_triple(s, i) {
            Ok(r) => key_wf(r.0),
            Err(_) => true,
        },
{
    lemma_index_ok_wf(s, i);
    match spec_index(s, i) {
        Err(_) => {},
        Ok((a, d1)) => {
            if d1 < s.len() && s[d1] == B_SLASH {
                lemma_index_ok_wf(s, d1 + 1);
                match spec_index(s, d1 + 1) {
                    Err(_) => {},
                    Ok((b, d2)) => {
                        if d2 < s.len() && s[d2] == B_SLASH {
                            lemma_index_ok_wf(s, d2 + 1);
                        }
                    },
                }
            }
        },
    }
}

/// Every corner of a parsed face list is well-formed.
pub proof fn lemma_face_args_wf(s: Seq<u8>, p: int)
    ensures
        match spec_face_args(s, p) {
            Ok(r) => forall|j: int| 0 <= j < r.0.len() ==> key_wf(#[trigger] r.0[j]),
            Err(_) => true,
        },
    decreases s.len() - p,
{
    let j = spec_sp_end(s, p);
    if j >= s.len() || s[j] == B_HASH {
    } else {
        match spec_triple(s, j) {
            Err(_) => {},
            Ok((k, d)) => {
                lemma_triple_wf(s, j);
                if p <= j && j < d && d <= s.len() {
                    lemma_face_args_wf(s, d);
                }
            },
        }
    }
}

/// Every face directive of a parsed line is well-formed.
pub proof fn lemma_obj_line_wf(s: Seq<u8>)
    ensures
        match spec_obj_line(s) {
            Ok(od) => match od {
                Some(SpecObjDirective::F(ks)) => forall|j: int|
                    0 <= j < ks.len() ==> key_wf(#[trigger] ks[j]),
                _ => true,
            },
            Err(_) => true,
        },
{
    let i0 = spec_sp_end(s, 0);
    if i0 < s.len() && s[i0] != B_HASH {
        let e = spec_token_end(s, i0);
        lemma_face_args_wf(s, e);
    }
}

/// Every face directive of a parsed line sequence is well-formed.
pub proof fn lemma_run_obj_lines_wf(lines: Seq<Seq<u8>>, k: int)
    ensures
        match spec_run_obj_lines(lines, k) {
            Ok(ds) => obj_dirs_wf(ds),
            Err(_) => true,
        },
    decreases lines.len() - k,
{
    if k < 0 || k >= lines.len() {
    } else {
        lemma_obj_line_wf(lines[k]);
        lemma_run_obj_lines_wf(lines, k + 1);
        match spec_obj_line(lines[k]) {
            Err(_) => {},
            Ok(None) => {},
            Ok(Some(d)) => {
                match spec_run_obj_lines(lines, k + 1) {
                    Err(_) => {},
                    Ok(rest) => {
                        let ds = seq![d] + rest;
                        assert forall|i: int| 0 <= i < ds.len() implies match #[trigger] ds[i] {
                            SpecObjDirective::F(ks) => forall|j: int|
                                0 <= j < ks.len() ==> key_wf(#[trigger] ks[j]),
                            _ => true,
                        } by {
                            if i == 0 {
                                assert(ds[0] == d);
                            } else {
                                assert(ds[i] == rest[i - 1]);
                            }
                        }
                    },
                }
            },
        }
    }
}

/// Every face directive that the geometry parser produces is well-formed.
pub proof fn lemma_parse_obj_wf(s: Seq<u8>)
    ensures
        match spec_parse_obj(s) {
            Ok(ds) => obj_dirs_wf(ds),
            Err(_) => true,
        },
{
    lemma_run_obj_lines_wf(spec_lines(s, 0), 0);
}

} // verus!
