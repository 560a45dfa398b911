use mnemonic::def::{Keyword, LoadError, MtlError, ObjError, ObjSettings};
use mnemonic::loader::{bind_materials, load, load_mtl, load_obj};

fn raw_settings() -> ObjSettings {
    // Scale by 1.0 and keep texture coordinates as written, to observe the
    // stored bit patterns directly.
    ObjSettings {
        scale: 1.0f32.to_bits(),
        flip_v: false,
    }
}

#[test]
fn quad_fan_triangulation() {
    // A quad emits exactly 4 - 2 = 2 triangles, pivoting on the first
    // corner and keeping the source winding order.
    let src = b"mtllib m.mtl\n\
                o quad\n\
                v 0 0 0\nv 1 0 0\nv 1 1 0\nv 0 1 0\n\
                vt 0 0\nvt 1 0\nvt 1 1\nvt 0 1\n\
                vn 0 0 1\n\
                usemtl base\n\
                f 1/1/1 2/2/1 3/3/1 4/4/1\n";
    let g = load_obj(src, &raw_settings()).unwrap();
    assert_eq!(g.objects.len(), 1);
    let ob = &g.objects[0];
    assert_eq!(ob.faces, vec![(0, 1, 2), (0, 2, 3)]);
    assert_eq!(ob.positions.len(), 4);
    assert_eq!(ob.uvs.len(), 4);
    assert_eq!(ob.normals.len(), 4);
}

#[test]
fn pentagon_triangle_count() {
    let src = b"mtllib m.mtl\no p\n\
                v 0 0 0\nv 1 0 0\nv 2 1 0\nv 1 2 0\nv 0 1 0\n\
                vt 0 0\nvn 0 0 1\nusemtl base\n\
                f 1/1/1 2/1/1 3/1/1 4/1/1 5/1/1\n";
    let g = load_obj(src, &raw_settings()).unwrap();
    let ob = &g.objects[0];
    assert_eq!(ob.faces.len(), 3);
    assert_eq!(ob.faces, vec![(0, 1, 2), (0, 2, 3), (0, 3, 4)]);
}

#[test]
fn deduplication_single_slot() {
    // Two faces reference the same (position, uv, normal) triples: the
    // dense buffer holds one entry per distinct triple, and every
    // reference resolves to that slot.
    let src = b"mtllib m.mtl\no tri\n\
                v 0 0 0\nv 1 0 0\nv 1 1 0\nv 0 1 0\n\
                vt 0 0\n\
                vn 0 0 1\n\
                usemtl base\n\
                f 1/1/1 2/1/1 3/1/1\n\
                f 1/1/1 3/1/1 4/1/1\n";
    let g = load_obj(src, &raw_settings()).unwrap();
    let ob = &g.objects[0];
    assert_eq!(ob.positions.len(), 4);
    assert_eq!(ob.faces, vec![(0, 1, 2), (0, 2, 3)]);
}

#[test]
fn deduplication_within_one_face() {
    let src = b"mtllib m.mtl\no tri\n\
                v 0 0 0\nv 1 0 0\n\
                vt 0 0\nvn 0 0 1\nusemtl base\n\
                f 1/1/1 2/1/1 1/1/1\n";
    let g = load_obj(src, &raw_settings()).unwrap();
    let ob = &g.objects[0];
    assert_eq!(ob.positions.len(), 2);
    assert_eq!(ob.faces, vec![(0, 1, 0)]);
}

#[test]
fn distinct_uv_gets_new_slot() {
    // Same position, different texture coordinate: a second dense slot.
    let src = b"mtllib m.mtl\no tri\n\
                v 0 0 0\nv 1 0 0\n\
                vt 0 0\nvt 1 1\n\
                vn 0 0 1\nusemtl base\n\
                f 1/1/1 1/2/1 2/1/1\n";
    let g = load_obj(src, &raw_settings()).unwrap();
    let ob = &g.objects[0];
    assert_eq!(ob.positions.len(), 3);
    assert_eq!(ob.positions[0], ob.positions[1]);
    assert_ne!(ob.uvs[0], ob.uvs[1]);
}

#[test]
fn out_of_range_uv_index() {
    // A face referencing vt index 5 when only 3 vt directives were seen
    // fails with index=5, max=3.
    let src = b"mtllib m.mtl\no t\n\
                v 0 0 0\n\
                vt 0 0\nvt 1 0\nvt 1 1\n\
                vn 0 0 1\nusemtl base\n\
                f 1/5/1 1/1/1 1/2/1\n";
    let e = load_obj(src, &raw_settings()).unwrap_err();
    assert_eq!(e, ObjError::OutOfRangeIndex { index: 5, max: 3 });
}

#[test]
fn out_of_range_position_index() {
    let src = b"mtllib m.mtl\no t\nv 0 0 0\nvt 0 0\nvn 0 0 1\nusemtl base\nf 2/1/1 1/1/1 1/1/1\n";
    let e = load_obj(src, &raw_settings()).unwrap_err();
    assert_eq!(e, ObjError::OutOfRangeIndex { index: 2, max: 1 });
}

#[test]
fn out_of_range_normal_index() {
    let src = b"mtllib m.mtl\no t\nv 0 0 0\nvt 0 0\nvn 0 0 1\nusemtl base\nf 1/1/3 1/1/1 1/1/1\n";
    let e = load_obj(src, &raw_settings()).unwrap_err();
    assert_eq!(e, ObjError::OutOfRangeIndex { index: 3, max: 1 });
}

#[test]
fn tables_are_per_object() {
    // The deduplication table and the attribute tables are local to each
    // object: the second object cannot see the first object's vertices.
    let src = b"mtllib m.mtl\n\
                o a\nv 0 0 0\nvt 0 0\nvn 0 0 1\nusemtl base\nf 1/1/1 1/1/1 1/1/1\n\
                o b\nusemtl base\nf 1/1/1 1/1/1 1/1/1\n";
    let e = load_obj(src, &raw_settings()).unwrap_err();
    assert_eq!(e, ObjError::OutOfRangeIndex { index: 1, max: 0 });
}

#[test]
fn duplicate_object_name() {
    let src = b"mtllib m.mtl\no a\nusemtl base\no a\n";
    let e = load_obj(src, &raw_settings()).unwrap_err();
    assert_eq!(e, ObjError::DuplicateObj(b"a".to_vec()));
}

#[test]
fn duplicate_material_name() {
    let src = b"newmtl a\nmap_Kd t.png\nnewmtl a\n";
    let e = load_mtl(src).unwrap_err();
    assert_eq!(e, MtlError::DuplicateMtl(b"a".to_vec()));
}

#[test]
fn unknown_material_reference() {
    let obj = b"mtllib m.mtl\no a\nv 0 0 0\nvt 0 0\nvn 0 0 1\nusemtl unknown_name\nf 1/1/1 1/1/1 1/1/1\n";
    let mtl = b"newmtl base\nmap_Kd t.png\n";
    let e = load(obj, mtl, &raw_settings()).unwrap_err();
    assert_eq!(
        e,
        LoadError::Obj(ObjError::UnknownMtl(b"unknown_name".to_vec()))
    );
}

#[test]
fn bind_accepts_defined_materials() {
    let obj = b"mtllib m.mtl\no a\nv 0 0 0\nvt 0 0\nvn 0 0 1\nusemtl base\nf 1/1/1 1/1/1 1/1/1\n";
    let mtl = b"newmtl base\nmap_Kd t.png\n";
    let c = load(obj, mtl, &raw_settings()).unwrap();
    assert_eq!(c.objects.len(), 1);
    let ob = c.get(b"a").unwrap();
    assert_eq!(ob.material_key, b"base".to_vec());
    let m = c.get_material(b"base").unwrap();
    assert_eq!(m.diffuse_texture, Some(b"t.png".to_vec()));
    assert!(c.get(b"missing").is_none());
}

#[test]
fn bind_materials_piecewise() {
    let obj = b"mtllib m.mtl\no a\nusemtl base\n";
    let mtl = b"newmtl base\n";
    let g = load_obj(obj, &raw_settings()).unwrap();
    assert_eq!(g.mtllib, b"m.mtl".to_vec());
    let ms = load_mtl(mtl).unwrap();
    assert_eq!(ms.materials.len(), 1);
    assert_eq!(ms.materials[0].diffuse_texture, None);
    let c = bind_materials(g, ms).unwrap();
    assert_eq!(c.objects[0].name, b"a".to_vec());
}

#[test]
fn scale_and_flip_round_trip() {
    // With scale 2.0, `v 1.0 2.0 3.0` is stored as (2.0, 4.0, 6.0); with
    // flip_v, `vt 0.25 0.75` is stored as (0.25, 0.25).
    let src = b"mtllib m.mtl\no a\nv 1.0 2.0 3.0\nvt 0.25 0.75\nvn 0 0 1\nusemtl base\nf 1/1/1 1/1/1 1/1/1\n";
    let settings = ObjSettings::default();
    assert_eq!(settings.scale, 2.0f32.to_bits());
    assert!(settings.flip_v);
    let g = load_obj(src, &settings).unwrap();
    let ob = &g.objects[0];
    assert_eq!(
        ob.positions[0],
        (2.0f32.to_bits(), 4.0f32.to_bits(), 6.0f32.to_bits())
    );
    assert_eq!(ob.uvs[0], (0.25f32.to_bits(), 0.25f32.to_bits()));
    assert_eq!(
        ob.normals[0],
        (0.0f32.to_bits(), 0.0f32.to_bits(), 1.0f32.to_bits())
    );
}

#[test]
fn custom_scale_multiplies() {
    let src = b"mtllib m.mtl\no a\nv 1.5 -2.0 0.5\nvt 0 0\nvn 0 0 1\nusemtl base\nf 1/1/1 1/1/1 1/1/1\n";
    let settings = ObjSettings {
        scale: 3.0f32.to_bits(),
        flip_v: false,
    };
    let g = load_obj(src, &settings).unwrap();
    let ob = &g.objects[0];
    assert_eq!(
        ob.positions[0],
        (
            (1.5f32 * 3.0).to_bits(),
            (-2.0f32 * 3.0).to_bits(),
            (0.5f32 * 3.0).to_bits()
        )
    );
}

#[test]
fn flip_subtracts_from_one() {
    let src = b"mtllib m.mtl\no a\nv 0 0 0\nvt 0.125 0.625\nvn 0 0 1\nusemtl base\nf 1/1/1 1/1/1 1/1/1\n";
    let settings = ObjSettings {
        scale: 1.0f32.to_bits(),
        flip_v: true,
    };
    let g = load_obj(src, &settings).unwrap();
    let ob = &g.objects[0];
    assert_eq!(
        ob.uvs[0],
        (0.125f32.to_bits(), (1.0f32 - 0.625f32).to_bits())
    );
}

#[test]
fn missing_object_context() {
    // A `v` before any `o` fails with a missing-object error.
    let src = b"mtllib m.mtl\nv 0 0 0\n";
    let e = load_obj(src, &raw_settings()).unwrap_err();
    assert_eq!(e, ObjError::Missing(Keyword::O));
}

#[test]
fn missing_object_context_for_faces() {
    let src = b"mtllib m.mtl\nf 1/1/1 1/1/1 1/1/1\n";
    let e = load_obj(src, &raw_settings()).unwrap_err();
    assert_eq!(e, ObjError::Missing(Keyword::O));
}

#[test]
fn missing_mtllib() {
    let src = b"o a\nusemtl base\n";
    let e = load_obj(src, &raw_settings()).unwrap_err();
    assert_eq!(e, ObjError::Missing(Keyword::Mtllib));
}

#[test]
fn multiple_mtllib() {
    let src = b"mtllib a.mtl\nmtllib b.mtl\n";
    let e = load_obj(src, &raw_settings()).unwrap_err();
    assert_eq!(e, ObjError::Multiple(Keyword::Mtllib));
}

#[test]
fn missing_usemtl() {
    let src = b"mtllib m.mtl\no a\nv 0 0 0\n";
    let e = load_obj(src, &raw_settings()).unwrap_err();
    assert_eq!(e, ObjError::Missing(Keyword::Usemtl));
}

#[test]
fn multiple_usemtl() {
    let src = b"mtllib m.mtl\no a\nusemtl x\nusemtl y\n";
    let e = load_obj(src, &raw_settings()).unwrap_err();
    assert_eq!(e, ObjError::Multiple(Keyword::Usemtl));
}

#[test]
fn map_kd_before_newmtl() {
    let e = load_mtl(b"map_Kd t.png\n").unwrap_err();
    assert_eq!(e, MtlError::Missing(Keyword::Mtllib));
}

#[test]
fn multiple_map_kd() {
    let e = load_mtl(b"newmtl a\nmap_Kd t.png\nmap_Kd u.png\n").unwrap_err();
    assert_eq!(e, MtlError::Multiple(Keyword::MapKd));
}

#[test]
fn invalid_preprocessor_flag() {
    let src = b"# >>> frobnicate\n";
    let e = load_obj(src, &raw_settings()).unwrap_err();
    assert_eq!(e, ObjError::InvalidPreprocessor(b"frobnicate".to_vec()));
}

#[test]
fn check_cull_flag_sets_cull() {
    let src = b"# >>> check_cull\nmtllib m.mtl\no a\nusemtl base\n";
    let g = load_obj(src, &raw_settings()).unwrap();
    assert!(g.cull);
    let src2 = b"mtllib m.mtl\no a\nusemtl base\n";
    let g2 = load_obj(src2, &raw_settings()).unwrap();
    assert!(!g2.cull);
}

#[test]
fn calculate_culls_is_inert() {
    let src = b"mtllib m.mtl\no a\nv 0 0 0\nvt 0 0\nvn 0 0 1\nusemtl base\nf 1/1/1 1/1/1 1/1/1\n";
    let g = load_obj(src, &raw_settings()).unwrap();
    let mut ob = g.objects[0].clone();
    let before = ob.clone();
    ob.calculate_culls();
    assert_eq!(ob, before);
}

#[test]
fn objects_keep_file_order() {
    let src = b"mtllib m.mtl\n\
                o first\nusemtl base\n\
                o second\nusemtl base\n\
                o third\nusemtl base\n";
    let g = load_obj(src, &raw_settings()).unwrap();
    let names: Vec<&[u8]> = g.objects.iter().map(|o| o.name.as_slice()).collect();
    assert_eq!(names, vec![&b"first"[..], &b"second"[..], &b"third"[..]]);
}

#[test]
fn overflow_parses_to_infinity() {
    let src = b"mtllib m.mtl\no a\nv 1e40 -1e40 0\nvt 0 0\nvn 0 0 1\nusemtl base\nf 1/1/1 1/1/1 1/1/1\n";
    let g = load_obj(src, &raw_settings()).unwrap();
    let ob = &g.objects[0];
    assert_eq!(
        ob.positions[0],
        (
            f32::INFINITY.to_bits(),
            f32::NEG_INFINITY.to_bits(),
            0.0f32.to_bits()
        )
    );
}

#[test]
fn empty_input_misses_mtllib() {
    let e = load_obj(b"", &raw_settings()).unwrap_err();
    assert_eq!(e, ObjError::Missing(Keyword::Mtllib));
}

#[test]
fn load_reports_geometry_syntax_first() {
    let e = load(b"nonsense\n", b"also nonsense\n", &raw_settings()).unwrap_err();
    match e {
        LoadError::Obj(ObjError::Syntax(se)) => {
            assert_eq!(se.line, 1);
        }
        other => panic!("expected a geometry syntax error, got {:?}", other),
    }
}

#[test]
fn load_reports_material_errors() {
    let obj = b"mtllib m.mtl\no a\nusemtl base\n";
    let e = load(obj, b"Ka 1 1 1\n", &raw_settings()).unwrap_err();
    match e {
        LoadError::Mtl(MtlError::Syntax(se)) => {
            assert_eq!(se.line, 1);
        }
        other => panic!("expected a material syntax error, got {:?}", other),
    }
}

#[test]
fn unflipped_texture_coordinates_are_raw() {
    let src = b"mtllib m.mtl\no a\nv 0 0 0\nvt 0.25 0.75\nvn 0 0 1\nusemtl base\nf 1/1/1 1/1/1 1/1/1\n";
    let g = load_obj(src, &raw_settings()).unwrap();
    assert_eq!(g.objects[0].uvs[0], (0.25f32.to_bits(), 0.75f32.to_bits()));
}

#[test]
fn error_messages_for_loader_failures() {
    let e = ObjError::InvalidPreprocessor(b"frobnicate".to_vec());
    assert_eq!(
        String::from_utf8(e.message_bytes()).unwrap(),
        "Invalid preprocessor 'frobnicate'."
    );
    let e = MtlError::DuplicateMtl(b"base".to_vec());
    assert_eq!(
        String::from_utf8(e.message_bytes()).unwrap(),
        "Duplicated material 'base'."
    );
    let e = MtlError::Multiple(Keyword::MapKd);
    assert_eq!(
        String::from_utf8(e.message_bytes()).unwrap(),
        "Multiple `map_Kd` is not supported."
    );
}

#[test]
fn syntax_error_through_obj_message() {
    let e = load_obj(b"q\n", &raw_settings()).unwrap_err();
    let text = String::from_utf8(e.message_bytes()).unwrap();
    assert_eq!(
        text,
        "Syntax error:\nsyntax error at line 1, bytes 0-1: unexpected token 'q'\nq\n^\n"
    );
}

#[test]
fn preprocessor_without_flags_is_inert() {
    let src = b"# >>>\nmtllib m.mtl\no a\nusemtl base\n";
    let g = load_obj(src, &raw_settings()).unwrap();
    assert!(!g.cull);
}

#[test]
fn unknown_material_reports_first_in_file_order() {
    let obj = b"mtllib m.mtl\n\
                o a\nusemtl ghost_a\n\
                o b\nusemtl ghost_b\n";
    let mtl = b"newmtl base\n";
    let e = load(obj, mtl, &raw_settings()).unwrap_err();
    assert_eq!(e, LoadError::Obj(ObjError::UnknownMtl(b"ghost_a".to_vec())));
}
