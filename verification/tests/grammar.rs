use mnemonic::def::{Keyword, ObjError};
use mnemonic::parser::{parse_mtl, parse_obj, MtlDirective, ObjDirective, SyntaxKind, VertexKey};

#[test]
fn directives_in_file_order() {
    let src = b"# header\nmtllib m.mtl\no a\nv 1 2 3\nvt 0 1\nvn 0 0 1\nusemtl base\nf 1/1/1 1/1/1 1/1/1\n";
    let ds = parse_obj(src).unwrap();
    assert_eq!(ds.len(), 8);
    assert_eq!(ds[0], ObjDirective::Comment(b"header".to_vec()));
    assert_eq!(ds[1], ObjDirective::Mtllib(b"m.mtl".to_vec()));
    assert_eq!(ds[2], ObjDirective::O(b"a".to_vec()));
    assert_eq!(
        ds[3],
        ObjDirective::V(1.0f32.to_bits(), 2.0f32.to_bits(), 3.0f32.to_bits())
    );
    assert_eq!(ds[4], ObjDirective::Vt(0.0f32.to_bits(), 1.0f32.to_bits()));
    assert_eq!(
        ds[5],
        ObjDirective::Vn(0.0f32.to_bits(), 0.0f32.to_bits(), 1.0f32.to_bits())
    );
    assert_eq!(ds[6], ObjDirective::Usemtl(b"base".to_vec()));
    let key = VertexKey {
        position: 0,
        uv: 0,
        normal: 0,
    };
    assert_eq!(ds[7], ObjDirective::F(vec![key, key, key]));
}

#[test]
fn numeric_tokens_parse_as_single_precision() {
    // The stored bit patterns agree with the hardware single-precision
    // parse of the same tokens.
    let src = b"v 1.5 -2.25 3e2\nv .5 1. +0.125\nv 6.02e23 -1e-8 2.5E-3\nv 0 -0 12345678901234567890\n";
    let ds = parse_obj(src).unwrap();
    let expect = [
        ["1.5", "-2.25", "3e2"],
        [".5", "1.", "+0.125"],
        ["6.02e23", "-1e-8", "2.5E-3"],
        ["0", "-0", "12345678901234567890"],
    ];
    for (d, row) in ds.iter().zip(expect.iter()) {
        match d {
            ObjDirective::V(x, y, z) => {
                assert_eq!(*x, row[0].parse::<f32>().unwrap().to_bits());
                assert_eq!(*y, row[1].parse::<f32>().unwrap().to_bits());
                assert_eq!(*z, row[2].parse::<f32>().unwrap().to_bits());
            }
            _ => panic!("expected a position directive"),
        }
    }
}

#[test]
fn face_indices_are_zero_based() {
    let ds = parse_obj(b"f 3/2/1 10/20/30 7/8/9\n").unwrap();
    assert_eq!(
        ds[0],
        ObjDirective::F(vec![
            VertexKey {
                position: 2,
                uv: 1,
                normal: 0
            },
            VertexKey {
                position: 9,
                uv: 19,
                normal: 29
            },
            VertexKey {
                position: 6,
                uv: 7,
                normal: 8
            },
        ])
    );
}

#[test]
fn blank_lines_and_line_breaks() {
    let src = b"o a\r\n\r\n\n   \no b\rv 1 2 3";
    let ds = parse_obj(src).unwrap();
    assert_eq!(ds.len(), 3);
    assert_eq!(ds[0], ObjDirective::O(b"a".to_vec()));
    assert_eq!(ds[1], ObjDirective::O(b"b".to_vec()));
    assert!(matches!(ds[2], ObjDirective::V(..)));
}

#[test]
fn trailing_comments_are_discarded() {
    let src = b"o a # the floor tile\nv 1 2 3 # position\n";
    let ds = parse_obj(src).unwrap();
    assert_eq!(ds.len(), 2);
    assert_eq!(ds[0], ObjDirective::O(b"a".to_vec()));
}

#[test]
fn preprocessor_line_parses_flags() {
    let ds = parse_obj(b"# >>> check_cull other_flag\n").unwrap();
    assert_eq!(
        ds[0],
        ObjDirective::Preprocess(vec![b"check_cull".to_vec(), b"other_flag".to_vec()])
    );
}

#[test]
fn comment_lines_keep_text() {
    let ds = parse_obj(b"#   spaced out < > text\n").unwrap();
    assert_eq!(ds[0], ObjDirective::Comment(b"spaced out < > text".to_vec()));
}

#[test]
fn unexpected_keyword() {
    let e = parse_obj(b"o a\nquad 1 2 3\n").unwrap_err();
    assert_eq!(e.line, 2);
    assert_eq!(e.start, 0);
    assert_eq!(e.end, 4);
    assert_eq!(e.kind, SyntaxKind::Unexpected(b"quad".to_vec()));
    assert_eq!(e.src, b"quad 1 2 3".to_vec());
}

#[test]
fn zero_index_is_rejected() {
    let e = parse_obj(b"f 1/0/1 1/1/1 1/1/1\n").unwrap_err();
    assert_eq!(e.kind, SyntaxKind::ZeroIndex);
    assert_eq!(e.line, 1);
    assert_eq!(e.start, 4);
    assert_eq!(e.end, 5);
}

#[test]
fn missing_index_component() {
    let e = parse_obj(b"f 1/1 1/1/1 1/1/1\n").unwrap_err();
    assert_eq!(e.kind, SyntaxKind::ExpectedIndex);
}

#[test]
fn short_face_is_rejected() {
    let e = parse_obj(b"f 1/1/1 2/2/2\n").unwrap_err();
    assert_eq!(e.kind, SyntaxKind::ExpectedIndex);
}

#[test]
fn malformed_number() {
    let e = parse_obj(b"v 1.0 2.x 3.0\n").unwrap_err();
    assert_eq!(e.kind, SyntaxKind::BadNumber(b"2.x".to_vec()));
    assert_eq!(e.start, 6);
    assert_eq!(e.end, 9);
}

#[test]
fn missing_number() {
    let e = parse_obj(b"v 1.0 2.0\n").unwrap_err();
    assert_eq!(e.kind, SyntaxKind::ExpectedNumber);
}

#[test]
fn missing_name() {
    let e = parse_obj(b"o\n").unwrap_err();
    assert_eq!(e.kind, SyntaxKind::ExpectedName);
}

#[test]
fn oversized_index_is_rejected() {
    // A face index beyond the machine's range is a malformed number, not a
    // silent wrap.
    let e = parse_obj(b"f 99999999999999999999999999/1/1 1/1/1 1/1/1\n").unwrap_err();
    assert_eq!(
        e.kind,
        SyntaxKind::BadNumber(b"99999999999999999999999999".to_vec())
    );
}

#[test]
fn trailing_garbage_after_directive() {
    let e = parse_obj(b"o name !!\n").unwrap_err();
    assert_eq!(e.kind, SyntaxKind::Unexpected(b"!!".to_vec()));
}

#[test]
fn material_grammar() {
    let src = b"# library\nnewmtl base\nmap_Kd floor.png\n";
    let ds = parse_mtl(src).unwrap();
    assert_eq!(ds.len(), 3);
    assert_eq!(ds[0], MtlDirective::Comment(b"library".to_vec()));
    assert_eq!(ds[1], MtlDirective::Newmtl(b"base".to_vec()));
    assert_eq!(ds[2], MtlDirective::MapKd(b"floor.png".to_vec()));
}

#[test]
fn material_unexpected_keyword() {
    let e = parse_mtl(b"newmtl a\nKa 1 1 1\n").unwrap_err();
    assert_eq!(e.line, 2);
    assert_eq!(e.kind, SyntaxKind::Unexpected(b"Ka".to_vec()));
}

#[test]
fn syntax_error_message_rendering() {
    let e = parse_obj(b"o a\nquad 1 2 3\n").unwrap_err();
    let text = String::from_utf8(e.message_bytes()).unwrap();
    assert_eq!(
        text,
        "syntax error at line 2, bytes 0-4: unexpected token 'quad'\nquad 1 2 3\n^^^^\n"
    );
}

#[test]
fn zero_index_message_rendering() {
    let e = parse_obj(b"f 1/0/1 1/1/1 1/1/1\n").unwrap_err();
    let text = String::from_utf8(e.message_bytes()).unwrap();
    assert_eq!(
        text,
        "syntax error at line 1, bytes 4-5: face indices are 1-based, so 0 is out of range\nf 1/0/1 1/1/1 1/1/1\n    ^\n"
    );
}

#[test]
fn obj_error_message_rendering() {
    let e = ObjError::OutOfRangeIndex { index: 5, max: 3 };
    assert_eq!(
        String::from_utf8(e.message_bytes()).unwrap(),
        "Vertex attribute index out of range: 5 >= 3."
    );
    let e = ObjError::Missing(Keyword::Usemtl);
    assert_eq!(
        String::from_utf8(e.message_bytes()).unwrap(),
        "Missing `usemtl`."
    );
    let e = ObjError::Multiple(Keyword::Mtllib);
    assert_eq!(
        String::from_utf8(e.message_bytes()).unwrap(),
        "Multiple `mtllib` is not supported."
    );
    let e = ObjError::DuplicateObj(b"tile".to_vec());
    assert_eq!(
        String::from_utf8(e.message_bytes()).unwrap(),
        "Duplicated object 'tile'."
    );
    let e = ObjError::UnknownMtl(b"ghost".to_vec());
    assert_eq!(
        String::from_utf8(e.message_bytes()).unwrap(),
        "Unknown material 'ghost'."
    );
}

#[test]
fn names_accept_paths_with_dots_dashes() {
    let ds = parse_obj(b"mtllib tiles/../floor.mtl\n");
    // `/` is not a name byte: the reference stops at the separator and the
    // rest of the line is rejected.
    assert!(ds.is_err());
    let ds = parse_obj(b"mtllib floor-01_v2.mtl\n").unwrap();
    assert_eq!(ds[0], ObjDirective::Mtllib(b"floor-01_v2.mtl".to_vec()));
}
