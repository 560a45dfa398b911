use vstd::prelude::*;

use crate::def::{Keyword, MtlError, ObjError, SpecMtlError, SpecObjError};
use crate::parser::{SpecSyntaxError, SpecSyntaxKind, SyntaxError};

verus! {

/// The bytes of "syntax error at line ".
pub open spec fn lit_syntax_at_line() -> Seq<u8> {
    seq![0x73, 0x79, 0x6e, 0x74, 0x61, 0x78, 0x20, 0x65, 0x72, 0x72, 0x6f, 0x72, 0x20, 0x61, 0x74, 0x20, 0x6c, 0x69, 0x6e, 0x65, 0x20]
}

/// Appends the bytes of "syntax error at line ".
fn push_lit_syntax_at_line(out: &mut Vec<u8>)
    ensures
        final(out)@ == old(out)@ + lit_syntax_at_line(),
{
    out.push(0x73);
    out.push(0x79);
    out.push(0x6e);
    out.push(0x74);
    out.push(0x61);
    out.push(0x78);
    out.push(0x20);
    out.push(0x65);
    out.push(0x72);
    out.push(0x72);
    out.push(0x6f);
    out.push(0x72);
    out.push(0x20);
    out.push(0x61);
    out.push(0x74);
    out.push(0x20);
    out.push(0x6c);
    out.push(0x69);
    out.push(0x6e);
    out.push(0x65);
    out.push(0x20);
    proof {
        assert(out@ =~= old(out)@ + lit_syntax_at_line());
    }
}

/// The bytes of ", bytes ".
pub open spec fn lit_comma_bytes() -> Seq<u8> {
    seq![0x2c, 0x20, 0x62, 0x79, 0x74, 0x65, 0x73, 0x20]
}

/// Appends the bytes of ", bytes ".
fn push_lit_comma_bytes(out: &mut Vec<u8>)
    ensures
        final(out)@ == old(out)@ + lit_comma_bytes(),
{
    out.push(0x2c);
    out.push(0x20);
    out.push(0x62);
    out.push(0x79);
    out.push(0x74);
    out.push(0x65);
    out.push(0x73);
    out.push(0x20);
    proof {
        assert(out@ =~= old(out)@ + lit_comma_bytes());
    }
}

/// The bytes of "-".
pub open spec fn lit_dash() -> Seq<u8> {
    seq![0x2d]
}

/// Appends the bytes of "-".
fn push_lit_dash(out: &mut Vec<u8>)
    ensures
        final(out)@ == old(out)@ + lit_dash(),
{
    out.push(0x2d);
    proof {
        assert(out@ =~= old(out)@ + lit_dash());
    }
}

/// The bytes of ": ".
pub open spec fn lit_colon_space() -> Seq<u8> {
    seq![0x3a, 0x20]
}

/// Appends the bytes of ": ".
fn push_lit_colon_space(out: &mut Vec<u8>)
    ensures
        final(out)@ == old(out)@ + lit_colon_space(),
{
    out.push(0x3a);
    out.push(0x20);
    proof {
        assert(out@ =~= old(out)@ + lit_colon_space());
    }
}

/// The bytes of "unexpected token '".
pub open spec fn lit_unexpected_token() -> Seq<u8> {
    seq![0x75, 0x6e, 0x65, 0x78, 0x70, 0x65, 0x63, 0x74, 0x65, 0x64, 0x20, 0x74, 0x6f, 0x6b, 0x65, 0x6e, 0x20, 0x27]
}

/// Appends the bytes of "unexpected token '".
fn push_lit_unexpected_token(out: &mut Vec<u8>)
    ensures
        final(out)@ == old(out)@ + lit_unexpected_token(),
{
    out.push(0x75);
    out.push(0x6e);
    out.push(0x65);
    out.push(0x78);
    out.push(0x70);
    out.push(0x65);
    out.push(0x63);
    out.push(0x74);
    out.push(0x65);
    out.push(0x64);
    out.push(0x20);
    out.push(0x74);
    out.push(0x6f);
    out.push(0x6b);
    out.push(0x65);
    out.push(0x6e);
    out.push(0x20);
    out.push(0x27);
    proof {
        assert(out@ =~= old(out)@ + lit_unexpected_token());
    }
}

/// The bytes of "'".
pub open spec fn lit_quote() -> Seq<u8> {
    seq![0x27]
}

/// Appends the bytes of "'".
fn push_lit_quote(out: &mut Vec<u8>)
    ensures
        final(out)@ == old(out)@ + lit_quote(),
{
    out.push(0x27);
    proof {
        assert(out@ =~= old(out)@ + lit_quote());
    }
}

/// The bytes of "expected a name".
pub open spec fn lit_expected_name() -> Seq<u8> {
    seq![0x65, 0x78, 0x70, 0x65, 0x63, 0x74, 0x65, 0x64, 0x20, 0x61, 0x20, 0x6e, 0x61, 0x6d, 0x65]
}

/// Appends the bytes of "expected a name".
fn push_lit_expected_name(out: &mut Vec<u8>)
    ensures
        final(out)@ == old(out)@ + lit_expected_name(),
{
    out.push(0x65);
    out.push(0x78);
    out.push(0x70);
    out.push(0x65);
    out.push(0x63);
    out.push(0x74);
    out.push(0x65);
    out.push(0x64);
    out.push(0x20);
    out.push(0x61);
    out.push(0x20);
    out.push(0x6e);
    out.push(0x61);
    out.push(0x6d);
    out.push(0x65);
    proof {
        assert(out@ =~= old(out)@ + lit_expected_name());
    }
}

/// The bytes of "expected a number".
pub open spec fn lit_expected_number() -> Seq<u8> {
    seq![0x65, 0x78, 0x70, 0x65, 0x63, 0x74, 0x65, 0x64, 0x20, 0x61, 0x20, 0x6e, 0x75, 0x6d, 0x62, 0x65, 0x72]
}

/// Appends the bytes of "expected a number".
fn push_lit_expected_number(out: &mut Vec<u8>)
    ensures
        final(out)@ == old(out)@ + lit_expected_number(),
{
    out.push(0x65);
    out.push(0x78);
    out.push(0x70);
    out.push(0x65);
    out.push(0x63);
    out.push(0x74);
    out.push(0x65);
    out.push(0x64);
    out.push(0x20);
    out.push(0x61);
    out.push(0x20);
    out.push(0x6e);
    out.push(0x75);
    out.push(0x6d);
    out.push(0x62);
    out.push(0x65);
    out.push(0x72);
    proof {
        assert(out@ =~= old(out)@ + lit_expected_number());
    }
}

/// The bytes of "malformed number '".
pub open spec fn lit_malformed_number() -> Seq<u8> {
    seq![0x6d, 0x61, 0x6c, 0x66, 0x6f, 0x72, 0x6d, 0x65, 0x64, 0x20, 0x6e, 0x75, 0x6d, 0x62, 0x65, 0x72, 0x20, 0x27]
}

/// Appends the bytes of "malformed number '".
fn push_lit_malformed_number(out: &mut Vec<u8>)
    ensures
        final(out)@ == old(out)@ + lit_malformed_number(),
{
    out.push(0x6d);
    out.push(0x61);
    out.push(0x6c);
    out.push(0x66);
    out.push(0x6f);
    out.push(0x72);
    out.push(0x6d);
    out.push(0x65);
    out.push(0x64);
    out.push(0x20);
    out.push(0x6e);
    out.push(0x75);
    out.push(0x6d);
    out.push(0x62);
    out.push(0x65);
    out.push(0x72);
    out.push(0x20);
    out.push(0x27);
    proof {
        assert(out@ =~= old(out)@ + lit_malformed_number());
    }
}

/// The bytes of "expected a face index".
pub open spec fn lit_expected_index() -> Seq<u8> {
    seq![0x65, 0x78, 0x70, 0x65, 0x63, 0x74, 0x65, 0x64, 0x20, 0x61, 0x20, 0x66, 0x61, 0x63, 0x65, 0x20, 0x69, 0x6e, 0x64, 0x65, 0x78]
}

/// Appends the bytes of "expected a face index".
fn push_lit_expected_index(out: &mut Vec<u8>)
    ensures
        final(out)@ == old(out)@ + lit_expected_index(),
{
    out.push(0x65);
    out.push(0x78);
    out.push(0x70);
    out.push(0x65);
    out.push(0x63);
    out.push(0x74);
    out.push(0x65);
    out.push(0x64);
    out.push(0x20);
    out.push(0x61);
    out.push(0x20);
    out.push(0x66);
    out.push(0x61);
    out.push(0x63);
    out.push(0x65);
    out.push(0x20);
    out.push(0x69);
    out.push(0x6e);
    out.push(0x64);
    out.push(0x65);
    out.push(0x78);
    proof {
        assert(out@ =~= old(out)@ + lit_expected_index());
    }
}

/// The bytes of "face indices are 1-based, so 0 is out of range".
pub open spec fn lit_zero_index() -> Seq<u8> {
    seq![0x66, 0x61, 0x63, 0x65, 0x20, 0x69, 0x6e, 0x64, 0x69, 0x63, 0x65, 0x73, 0x20, 0x61, 0x72, 0x65, 0x20, 0x31, 0x2d, 0x62, 0x61, 0x73, 0x65, 0x64, 0x2c, 0x20, 0x73, 0x6f, 0x20, 0x30, 0x20, 0x69, 0x73, 0x20, 0x6f, 0x75, 0x74, 0x20, 0x6f, 0x66, 0x20, 0x72, 0x61, 0x6e, 0x67, 0x65]
}

/// Appends the bytes of "face indices are 1-based, so 0 is out of range".
fn push_lit_zero_index(out: &mut Vec<u8>)
    ensures
        final(out)@ == old(out)@ + lit_zero_index(),
{
    out.push(0x66);
    out.push(0x61);
    out.push(0x63);
    out.push(0x65);
    out.push(0x20);
    out.push(0x69);
    out.push(0x6e);
    out.push(0x64);
    out.push(0x69);
    out.push(0x63);
    out.push(0x65);
    out.push(0x73);
    out.push(0x20);
    out.push(0x61);
    out.push(0x72);
    out.push(0x65);
    out.push(0x20);
    out.push(0x31);
    out.push(0x2d);
    out.push(0x62);
    out.push(0x61);
    out.push(0x73);
    out.push(0x65);
    out.push(0x64);
    out.push(0x2c);
    out.push(0x20);
    out.push(0x73);
    out.push(0x6f);
    out.push(0x20);
    out.push(0x30);
    out.push(0x20);
    out.push(0x69);
    out.push(0x73);
    out.push(0x20);
    out.push(0x6f);
    out.push(0x75);
    out.push(0x74);
    out.push(0x20);
    out.push(0x6f);
    out.push(0x66);
    out.push(0x20);
    out.push(0x72);
    out.push(0x61);
    out.push(0x6e);
    out.push(0x67);
    out.push(0x65);
    proof {
        assert(out@ =~= old(out)@ + lit_zero_index());
    }
}

/// The bytes of "Vertex attribute index out of range: ".
pub open spec fn lit_oor_head() -> Seq<u8> {
    seq![0x56, 0x65, 0x72, 0x74, 0x65, 0x78, 0x20, 0x61, 0x74, 0x74, 0x72, 0x69, 0x62, 0x75, 0x74, 0x65, 0x20, 0x69, 0x6e, 0x64, 0x65, 0x78, 0x20, 0x6f, 0x75, 0x74, 0x20, 0x6f, 0x66, 0x20, 0x72, 0x61, 0x6e, 0x67, 0x65, 0x3a, 0x20]
}

/// Appends the bytes of "Vertex attribute index out of range: ".
fn push_lit_oor_head(out: &mut Vec<u8>)
    ensures
        final(out)@ == old(out)@ + lit_oor_head(),
{
    out.push(0x56);
    out.push(0x65);
    out.push(0x72);
    out.push(0x74);
    out.push(0x65);
    out.push(0x78);
    out.push(0x20);
    out.push(0x61);
    out.push(0x74);
    out.push(0x74);
    out.push(0x72);
    out.push(0x69);
    out.push(0x62);
    out.push(0x75);
    out.push(0x74);
    out.push(0x65);
    out.push(0x20);
    out.push(0x69);
    out.push(0x6e);
    out.push(0x64);
    out.push(0x65);
    out.push(0x78);
    out.push(0x20);
    out.push(0x6f);
    out.push(0x75);
    out.push(0x74);
    out.push(0x20);
    out.push(0x6f);
    out.push(0x66);
    out.push(0x20);
    out.push(0x72);
    out.push(0x61);
    out.push(0x6e);
    out.push(0x67);
    out.push(0x65);
    out.push(0x3a);
    out.push(0x20);
    proof {
        assert(out@ =~= old(out)@ + lit_oor_head());
    }
}

/// The bytes of " >= ".
pub open spec fn lit_oor_mid() -> Seq<u8> {
    seq![0x20, 0x3e, 0x3d, 0x20]
}

/// Appends the bytes of " >= ".
fn push_lit_oor_mid(out: &mut Vec<u8>)
    ensures
        final(out)@ == old(out)@ + lit_oor_mid(),
{
    out.push(0x20);
    out.push(0x3e);
    out.push(0x3d);
    out.push(0x20);
    proof {
        assert(out@ =~= old(out)@ + lit_oor_mid());
    }
}

/// The bytes of ".".
pub open spec fn lit_period() -> Seq<u8> {
    seq![0x2e]
}

/// Appends the bytes of ".".
fn push_lit_period(out: &mut Vec<u8>)
    ensures
        final(out)@ == old(out)@ + lit_period(),
{
    out.push(0x2e);
    proof {
        assert(out@ =~= old(out)@ + lit_period());
    }
}

/// The bytes of "Duplicated object '".
pub open spec fn lit_dup_obj() -> Seq<u8> {
    seq![0x44, 0x75, 0x70, 0x6c, 0x69, 0x63, 0x61, 0x74, 0x65, 0x64, 0x20, 0x6f, 0x62, 0x6a, 0x65, 0x63, 0x74, 0x20, 0x27]
}

/// Appends the bytes of "Duplicated object '".
fn push_lit_dup_obj(out: &mut Vec<u8>)
    ensures
        final(out)@ == old(out)@ + lit_dup_obj(),
{
    out.push(0x44);
    out.push(0x75);
    out.push(0x70);
    out.push(0x6c);
    out.push(0x69);
    out.push(0x63);
    out.push(0x61);
    out.push(0x74);
    out.push(0x65);
    out.push(0x64);
    out.push(0x20);
    out.push(0x6f);
    out.push(0x62);
    out.push(0x6a);
    out.push(0x65);
    out.push(0x63);
    out.push(0x74);
    out.push(0x20);
    out.push(0x27);
    proof {
        assert(out@ =~= old(out)@ + lit_dup_obj());
    }
}

/// The bytes of "Missing `".
pub open spec fn lit_missing_head() -> Seq<u8> {
    seq![0x4d, 0x69, 0x73, 0x73, 0x69, 0x6e, 0x67, 0x20, 0x60]
}

/// Appends the bytes of "Missing `".
fn push_lit_missing_head(out: &mut Vec<u8>)
    ensures
        final(out)@ == old(out)@ + lit_missing_head(),
{
    out.push(0x4d);
    out.push(0x69);
    out.push(0x73);
    out.push(0x73);
    out.push(0x69);
    out.push(0x6e);
    out.push(0x67);
    out.push(0x20);
    out.push(0x60);
    proof {
        assert(out@ =~= old(out)@ + lit_missing_head());
    }
}

/// The bytes of "`.".
pub open spec fn lit_missing_tail() -> Seq<u8> {
    seq![0x60, 0x2e]
}

/// Appends the bytes of "`.".
fn push_lit_missing_tail(out: &mut Vec<u8>)
    ensures
        final(out)@ == old(out)@ + lit_missing_tail(),
{
    out.push(0x60);
    out.push(0x2e);
    proof {
        assert(out@ =~= old(out)@ + lit_missing_tail());
    }
}

/// The bytes of "Multiple `".
pub open spec fn lit_multiple_head() -> Seq<u8> {
    seq![0x4d, 0x75, 0x6c, 0x74, 0x69, 0x70, 0x6c, 0x65, 0x20, 0x60]
}

/// Appends the bytes of "Multiple `".
fn push_lit_multiple_head(out: &mut Vec<u8>)
    ensures
        final(out)@ == old(out)@ + lit_multiple_head(),
{
    out.push(0x4d);
    out.push(0x75);
    out.push(0x6c);
    out.push(0x74);
    out.push(0x69);
    out.push(0x70);
    out.push(0x6c);
    out.push(0x65);
    out.push(0x20);
    out.push(0x60);
    proof {
        assert(out@ =~= old(out)@ + lit_multiple_head());
    }
}

/// The bytes of "` is not supported.".
pub open spec fn lit_multiple_tail() -> Seq<u8> {
    seq![0x60, 0x20, 0x69, 0x73, 0x20, 0x6e, 0x6f, 0x74, 0x20, 0x73, 0x75, 0x70, 0x70, 0x6f, 0x72, 0x74, 0x65, 0x64, 0x2e]
}

/// Appends the bytes of "` is not supported.".
fn push_lit_multiple_tail(out: &mut Vec<u8>)
    ensures
        final(out)@ == old(out)@ + lit_multiple_tail(),
{
    out.push(0x60);
    out.push(0x20);
    out.push(0x69);
    out.push(0x73);
    out.push(0x20);
    out.push(0x6e);
    out.push(0x6f);
    out.push(0x74);
    out.push(0x20);
    out.push(0x73);
    out.push(0x75);
    out.push(0x70);
    out.push(0x70);
    out.push(0x6f);
    out.push(0x72);
    out.push(0x74);
    out.push(0x65);
    out.push(0x64);
    out.push(0x2e);
    proof {
        assert(out@ =~= old(out)@ + lit_multiple_tail());
    }
}

/// The bytes of "Invalid preprocessor '".
pub open spec fn lit_invalid_pre() -> Seq<u8> {
    seq![0x49, 0x6e, 0x76, 0x61, 0x6c, 0x69, 0x64, 0x20, 0x70, 0x72, 0x65, 0x70, 0x72, 0x6f, 0x63, 0x65, 0x73, 0x73, 0x6f, 0x72, 0x20, 0x27]
}

/// Appends the bytes of "Invalid preprocessor '".
fn push_lit_invalid_pre(out: &mut Vec<u8>)
    ensures
        final(out)@ == old(out)@ + lit_invalid_pre(),
{
    out.push(0x49);
    out.push(0x6e);
    out.push(0x76);
    out.push(0x61);
    out.push(0x6c);
    out.push(0x69);
    out.push(0x64);
    out.push(0x20);
    out.push(0x70);
    out.push(0x72);
    out.push(0x65);
    out.push(0x70);
    out.push(0x72);
    out.push(0x6f);
    out.push(0x63);
    out.push(0x65);
    out.push(0x73);
    out.push(0x73);
    out.push(0x6f);
    out.push(0x72);
    out.push(0x20);
    out.push(0x27);
    proof {
        assert(out@ =~= old(out)@ + lit_invalid_pre());
    }
}

/// The bytes of "'.".
pub open spec fn lit_quote_period() -> Seq<u8> {
    seq![0x27, 0x2e]
}

/// Appends the bytes of "'.".
fn push_lit_quote_period(out: &mut Vec<u8>)
    ensures
        final(out)@ == old(out)@ + lit_quote_period(),
{
    out.push(0x27);
    out.push(0x2e);
    proof {
        assert(out@ =~= old(out)@ + lit_quote_period());
    }
}

/// The bytes of "Syntax error:".
pub open spec fn lit_syntax_head() -> Seq<u8> {
    seq![0x53, 0x79, 0x6e, 0x74, 0x61, 0x78, 0x20, 0x65, 0x72, 0x72, 0x6f, 0x72, 0x3a]
}

/// Appends the bytes of "Syntax error:".
fn push_lit_syntax_head(out: &mut Vec<u8>)
    ensures
        final(out)@ == old(out)@ + lit_syntax_head(),
{
    out.push(0x53);
    out.push(0x79);
    out.push(0x6e);
    out.push(0x74);
    out.push(0x61);
    out.push(0x78);
    out.push(0x20);
    out.push(0x65);
    out.push(0x72);
    out.push(0x72);
    out.push(0x6f);
    out.push(0x72);
    out.push(0x3a);
    proof {
        assert(out@ =~= old(out)@ + lit_syntax_head());
    }
}

/// The bytes of "Unknown material '".
pub open spec fn lit_unknown_mtl() -> Seq<u8> {
    seq![0x55, 0x6e, 0x6b, 0x6e, 0x6f, 0x77, 0x6e, 0x20, 0x6d, 0x61, 0x74, 0x65, 0x72, 0x69, 0x61, 0x6c, 0x20, 0x27]
}

/// Appends the bytes of "Unknown material '".
fn push_lit_unknown_mtl(out: &mut Vec<u8>)
    ensures
        final(out)@ == old(out)@ + lit_unknown_mtl(),
{
    out.push(0x55);
    out.push(0x6e);
    out.push(0x6b);
    out.push(0x6e);
    out.push(0x6f);
    out.push(0x77);
    out.push(0x6e);
    out.push(0x20);
    out.push(0x6d);
    out.push(0x61);
    out.push(0x74);
    out.push(0x65);
    out.push(0x72);
    out.push(0x69);
    out.push(0x61);
    out.push(0x6c);
    out.push(0x20);
    out.push(0x27);
    proof {
        assert(out@ =~= old(out)@ + lit_unknown_mtl());
    }
}

/// The bytes of "Duplicated material '".
pub open spec fn lit_dup_mtl() -> Seq<u8> {
    seq![0x44, 0x75, 0x70, 0x6c, 0x69, 0x63, 0x61, 0x74, 0x65, 0x64, 0x20, 0x6d, 0x61, 0x74, 0x65, 0x72, 0x69, 0x61, 0x6c, 0x20, 0x27]
}

/// Appends the bytes of "Duplicated material '".
fn push_lit_dup_mtl(out: &mut Vec<u8>)
    ensures
        final(out)@ == old(out)@ + lit_dup_mtl(),
{
    out.push(0x44);
    out.push(0x75);
    out.push(0x70);
    out.push(0x6c);
    out.push(0x69);
    out.push(0x63);
    out.push(0x61);
    out.push(0x74);
    out.push(0x65);
    out.push(0x64);
    out.push(0x20);
    out.push(0x6d);
    out.push(0x61);
    out.push(0x74);
    out.push(0x65);
    out.push(0x72);
    out.push(0x69);
    out.push(0x61);
    out.push(0x6c);
    out.push(0x20);
    out.push(0x27);
    proof {
        assert(out@ =~= old(out)@ + lit_dup_mtl());
    }
}

/// The bytes of "mtllib".
pub open spec fn lit_kw_mtllib() -> Seq<u8> {
    seq![0x6d, 0x74, 0x6c, 0x6c, 0x69, 0x62]
}

/// Appends the bytes of "mtllib".
fn push_lit_kw_mtllib(out: &mut Vec<u8>)
    ensures
        final(out)@ == old(out)@ + lit_kw_mtllib(),
{
    out.push(0x6d);
    out.push(0x74);
    out.push(0x6c);
    out.push(0x6c);
    out.push(0x69);
    out.push(0x62);
    proof {
        assert(out@ =~= old(out)@ + lit_kw_mtllib());
    }
}

/// The bytes of "o".
pub open spec fn lit_kw_o() -> Seq<u8> {
    seq![0x6f]
}

/// Appends the bytes of "o".
fn push_lit_kw_o(out: &mut Vec<u8>)
    ensures
        final(out)@ == old(out)@ + lit_kw_o(),
{
    out.push(0x6f);
    proof {
        assert(out@ =~= old(out)@ + lit_kw_o());
    }
}

/// The bytes of "usemtl".
pub open spec fn lit_kw_usemtl() -> Seq<u8> {
    seq![0x75, 0x73, 0x65, 0x6d, 0x74, 0x6c]
}

/// Appends the bytes of "usemtl".
fn push_lit_kw_usemtl(out: &mut Vec<u8>)
    ensures
        final(out)@ == old(out)@ + lit_kw_usemtl(),
{
    out.push(0x75);
    out.push(0x73);
    out.push(0x65);
    out.push(0x6d);
    out.push(0x74);
    out.push(0x6c);
    proof {
        assert(out@ =~= old(out)@ + lit_kw_usemtl());
    }
}

/// The bytes of "map_Kd".
pub open spec fn lit_kw_map_kd() -> Seq<u8> {
    seq![0x6d, 0x61, 0x70, 0x5f, 0x4b, 0x64]
}

/// Appends the bytes of "map_Kd".
fn push_lit_kw_map_kd(out: &mut Vec<u8>)
    ensures
        final(out)@ == old(out)@ + lit_kw_map_kd(),
{
    out.push(0x6d);
    out.push(0x61);
    out.push(0x70);
    out.push(0x5f);
    out.push(0x4b);
    out.push(0x64);
    proof {
        assert(out@ =~= old(out)@ + lit_kw_map_kd());
    }
}

/// The decimal digits of `n`, most significant first.
pub open spec fn spec_dec_bytes(n: nat) -> Seq<u8>
    decreases n,
{
    if n < 10 {
        seq![(0x30 + n) as u8]
    } else {
        spec_dec_bytes(n / 10).push((0x30 + n % 10) as u8)
    }
}

/// Writes `n` in decimal.
pub fn dec_bytes(n: usize) -> (r: Vec<u8>)
    ensures
        r@ == spec_dec_bytes(n as nat),
    decreases n,
{
    if n < 10 {
        let mut r: Vec<u8> = Vec::new();
        r.push((0x30 + n as u8));
        proof {
            assert(r@ =~= spec_dec_bytes(n as nat));
        }
        r
    } else {
        let mut r = dec_bytes(n / 10);
        r.push(0x30 + (n % 10) as u8);
        r
    }
}

/// Appends one byte string to another.
fn append_bytes(out: &mut Vec<u8>, s: &Vec<u8>)
    ensures
        final(out)@ == old(out)@ + s@,
{
    let n = s.len();
    let mut i: usize = 0;
    while i < n
        invariant
            i <= n == s@.len(),
            out@ == old(out)@ + s@.subrange(0, i as int),
        decreases n - i,
    {
        out.push(s[i]);
        proof {
            assert(out@ =~= old(out)@ + s@.subrange(0, i + 1));
        }
        i = i + 1;
    }
    proof {
        assert(old(out)@ + s@.subrange(0, n as int) =~= old(out)@ + s@);
    }
}

/// Appends `n` copies of one byte.
fn append_repeat(out: &mut Vec<u8>, b: u8, n: usize)
    ensures
        final(out)@ == old(out)@ + Seq::new(n as nat, |x: int| b),
{
    let mut i: usize = 0;
    while i < n
        invariant
            i <= n,
            out@ == old(out)@ + Seq::new(i as nat, |x: int| b),
        decreases n - i,
    {
        out.push(b);
        proof {
            assert(out@ =~= old(out)@ + Seq::new((i + 1) as nat, |x: int| b));
        }
        i = i + 1;
    }
}

/// The rendering of one failure kind.
pub open spec fn spec_kind_message(k: SpecSyntaxKind) -> Seq<u8> {
    match k {
        SpecSyntaxKind::Unexpected(t) => lit_unexpected_token() + t + lit_quote(),
        SpecSyntaxKind::ExpectedName => lit_expected_name(),
        SpecSyntaxKind::ExpectedNumber => lit_expected_number(),
        SpecSyntaxKind::BadNumber(t) => lit_malformed_number() + t + lit_quote(),
        SpecSyntaxKind::ExpectedIndex => lit_expected_index(),
        SpecSyntaxKind::ZeroIndex => lit_zero_index(),
    }
}

/// The rendering of a grammar failure: its location and kind, then the
/// offending line, then a caret line pointing at the failure's byte range.
pub open spec fn spec_syntax_message(e: SpecSyntaxError) -> Seq<u8> {
    lit_syntax_at_line() + spec_dec_bytes(e.line as nat) + lit_comma_bytes() + spec_dec_bytes(
        e.start as nat,
    ) + lit_dash() + spec_dec_bytes(e.end as nat) + lit_colon_space() + spec_kind_message(e.kind)
        + seq![0x0au8] + e.src + seq![0x0au8] + Seq::new(e.start as nat, |x: int| 0x20u8)
        + Seq::new(
        if e.end > e.start {
            (e.end - e.start) as nat
        } else {
            1
        },
        |x: int| 0x5eu8,
    ) + seq![0x0au8]
}

impl SyntaxError {
    /// Renders the failure as a pointer-style diagnostic.
    pub fn message_bytes(&self) -> (r: Vec<u8>)
        ensures
            r@ == spec_syntax_message(self.deep_view()),
    {
        let mut out: Vec<u8> = Vec::new();
        push_lit_syntax_at_line(&mut out);
        let d1 = dec_bytes(self.line);
        append_bytes(&mut out, &d1);
        push_lit_comma_bytes(&mut out);
        let d2 = dec_bytes(self.start);
        append_bytes(&mut out, &d2);
        push_lit_dash(&mut out);
        let d3 = dec_bytes(self.end);
        append_bytes(&mut out, &d3);
        push_lit_colon_space(&mut out);
        match &self.kind {
            crate::parser::SyntaxKind::Unexpected(t) => {
                push_lit_unexpected_token(&mut out);
                append_bytes(&mut out, t);
                push_lit_quote(&mut out);
            },
            crate::parser::SyntaxKind::ExpectedName => {
                push_lit_expected_name(&mut out);
            },
            crate::parser::SyntaxKind::ExpectedNumber => {
                push_lit_expected_number(&mut out);
            },
            crate::parser::SyntaxKind::BadNumber(t) => {
                push_lit_malformed_number(&mut out);
                append_bytes(&mut out, t);
                push_lit_quote(&mut out);
            },
            crate::parser::SyntaxKind::ExpectedIndex => {
                push_lit_expected_index(&mut out);
            },
            crate::parser::SyntaxKind::ZeroIndex => {
                push_lit_zero_index(&mut out);
            },
        }
        out.push(0x0a);
        append_bytes(&mut out, &self.src);
        out.push(0x0a);
        append_repeat(&mut out, 0x20, self.start);
        let carets = if self.end > self.start {
            self.end - self.start
        } else {
            1
        };
        append_repeat(&mut out, 0x5e, carets);
        out.push(0x0a);
        proof {
            assert(out@ =~= spec_syntax_message(self.deep_view()));
        }
        out
    }
}

/// The rendering of a keyword.
pub open spec fn spec_keyword_bytes(k: Keyword) -> Seq<u8> {
    match k {
        Keyword::Mtllib => lit_kw_mtllib(),
        Keyword::O => lit_kw_o(),
        Keyword::Usemtl => lit_kw_usemtl(),
        Keyword::MapKd => lit_kw_map_kd(),
    }
}

/// Appends the rendering of a keyword.
fn push_keyword(out: &mut Vec<u8>, k: Keyword)
    ensures
        final(out)@ == old(out)@ + spec_keyword_bytes(k),
{
    match k {
        Keyword::Mtllib => push_lit_kw_mtllib(out),
        Keyword::O => push_lit_kw_o(out),
        Keyword::Usemtl => push_lit_kw_usemtl(out),
        Keyword::MapKd => push_lit_kw_map_kd(out),
    }
}

/// The rendering of a geometry-loading failure.
pub open spec fn spec_obj_error_message(e: SpecObjError) -> Seq<u8> {
    match e {
        SpecObjError::OutOfRangeIndex { index, max } => lit_oor_head() + spec_dec_bytes(
            index as nat,
        ) + lit_oor_mid() + spec_dec_bytes(max as nat) + lit_period(),
        SpecObjError::DuplicateObj(n) => lit_dup_obj() + n + lit_quote_period(),
        SpecObjError::Missing(k) => lit_missing_head() + spec_keyword_bytes(k) + lit_missing_tail(),
        SpecObjError::Multiple(k) => lit_multiple_head() + spec_keyword_bytes(k)
            + lit_multiple_tail(),
        SpecObjError::InvalidPreprocessor(f) => lit_invalid_pre() + f + lit_quote_period(),
        SpecObjError::Syntax(se) => lit_syntax_head() + seq![0x0au8] + spec_syntax_message(se),
        SpecObjError::UnknownMtl(n) => lit_unknown_mtl() + n + lit_quote_period(),
    }
}

impl ObjError {
    /// Renders the failure as human-readable text.
    pub fn message_bytes(&self) -> (r: Vec<u8>)
        ensures
            r@ == spec_obj_error_message(self.deep_view()),
    {
        let mut out: Vec<u8> = Vec::new();
        match self {
            ObjError::OutOfRangeIndex { index, max } => {
                push_lit_oor_head(&mut out);
                let d1 = dec_bytes(*index);
                append_bytes(&mut out, &d1);
                push_lit_oor_mid(&mut out);
                let d2 = dec_bytes(*max);
                append_bytes(&mut out, &d2);
                push_lit_period(&mut out);
            },
            ObjError::DuplicateObj(n) => {
                push_lit_dup_obj(&mut out);
                append_bytes(&mut out, n);
                push_lit_quote_period(&mut out);
            },
            ObjError::Missing(k) => {
                push_lit_missing_head(&mut out);
                push_keyword(&mut out, *k);
                push_lit_missing_tail(&mut out);
            },
            ObjError::Multiple(k) => {
                push_lit_multiple_head(&mut out);
                push_keyword(&mut out, *k);
                push_lit_multiple_tail(&mut out);
            },
            ObjError::InvalidPreprocessor(f) => {
                push_lit_invalid_pre(&mut out);
                append_bytes(&mut out, f);
                push_lit_quote_period(&mut out);
            },
            ObjError::Syntax(se) => {
                push_lit_syntax_head(&mut out);
                out.push(0x0a);
                let m = se.message_bytes();
                append_bytes(&mut out, &m);
            },
            ObjError::UnknownMtl(n) => {
                push_lit_unknown_mtl(&mut out);
                append_bytes(&mut out, n);
                push_lit_quote_period(&mut out);
            },
        }
        proof {
            assert(out@ =~= spec_obj_error_message(self.deep_view()));
        }
        out
    }
}

/// The rendering of a material-loading failure.
pub open spec fn spec_mtl_error_message(e: SpecMtlError) -> Seq<u8> {
    match e {
        SpecMtlError::Missing(k) => lit_missing_head() + spec_keyword_bytes(k)
            + lit_missing_tail(),
        SpecMtlError::Multiple(k) => lit_multiple_head() + spec_keyword_bytes(k)
            + lit_multiple_tail(),
        SpecMtlError::DuplicateMtl(n) => lit_dup_mtl() + n + lit_quote_period(),
        SpecMtlError::Syntax(se) => lit_syntax_head() + seq![0x0au8] + spec_syntax_message(se),
    }
}

impl MtlError {
    /// Renders the failure as human-readable text.
    pub fn message_bytes(&self) -> (r: Vec<u8>)
        ensures
            r@ == spec_mtl_error_message(self.deep_view()),
    {
        let mut out: Vec<u8> = Vec::new();
        match self {
            MtlError::Missing(k) => {
                push_lit_missing_head(&mut out);
                push_keyword(&mut out, *k);
                push_lit_missing_tail(&mut out);
            },
            MtlError::Multiple(k) => {
                push_lit_multiple_head(&mut out);
                push_keyword(&mut out, *k);
                push_lit_multiple_tail(&mut out);
            },
            MtlError::DuplicateMtl(n) => {
                push_lit_dup_mtl(&mut out);
                append_bytes(&mut out, n);
                push_lit_quote_period(&mut out);
            },
            MtlError::Syntax(se) => {
                push_lit_syntax_head(&mut out);
                out.push(0x0a);
                let m = se.message_bytes();
                append_bytes(&mut out, &m);
            },
        }
        proof {
            assert(out@ =~= spec_mtl_error_message(self.deep_view()));
        }
        out
    }
}

} // verus!
