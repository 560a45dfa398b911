use vstd::prelude::*;

use crate::def::{
    opt_bytes_view, LoadError, SpecLoadError,
    Geometry, Keyword, Mtl, MtlCollection, MtlError, Obj, ObjCollection, ObjError, ObjSettings,
    SpecGeometry, SpecMtl, SpecMtlError, SpecObj, SpecObjError,
};
use crate::parser::{MtlDirective, ObjDirective, SpecMtlDirective, SpecObjDirective, VertexKey};
use crate::scalar::{f32_mul_bits, f32_sub_bits, mul_bits, sub_bits, ONE_BITS};

verus! {

/// The per-object accumulator of the geometry fold: the raw attribute
/// tables in encounter order (positions already scaled, texture coordinates
/// already flipped), the deduplication key table, the dense output buffers,
/// and the triangles emitted so far.
#[verifier::ext_equal]
pub struct SpecObjAcc {
    pub name: Seq<u8>,
    pub mtl: Option<Seq<u8>>,
    pub pos_table: Seq<(u32, u32, u32)>,
    pub uv_table: Seq<(u32, u32)>,
    pub n_table: Seq<(u32, u32, u32)>,
    pub keys: Seq<VertexKey>,
    pub out_pos: Seq<(u32, u32, u32)>,
    pub out_uv: Seq<(u32, u32)>,
    pub out_n: Seq<(u32, u32, u32)>,
    pub faces: Seq<(usize, usize, usize)>,
}

/// The state of the geometry fold: the objects so far (the last one is the
/// open one), the material-library reference, and the culling flag.
#[verifier::ext_equal]
pub struct SpecLoadState {
    pub objs: Seq<SpecObjAcc>,
    pub mtllib: Option<Seq<u8>>,
    pub cull: bool,
}

/// A fresh accumulator for a newly started object.
pub open spec fn spec_empty_acc(name: Seq<u8>) -> SpecObjAcc {
    SpecObjAcc {
        name: name,
        mtl: None,
        pos_table: seq![],
        uv_table: seq![],
        n_table: seq![],
        keys: seq![],
        out_pos: seq![],
        out_uv: seq![],
        out_n: seq![],
        faces: seq![],
    }
}

/// The state before any directive.
pub open spec fn spec_init_state() -> SpecLoadState {
    SpecLoadState { objs: seq![], mtllib: None, cull: false }
}

/// Whether `f` is the one recognized preprocessor flag, `check_cull`.
pub open spec fn is_check_cull(f: Seq<u8>) -> bool {
    f.len() == 10 && f[0] == 0x63 && f[1] == 0x68 && f[2] == 0x65 && f[3] == 0x63 && f[4] == 0x6b
        && f[5] == 0x5f && f[6] == 0x63 && f[7] == 0x75 && f[8] == 0x6c && f[9] == 0x6c
}

/// Applies the preprocessor flags from `i` on; the first unrecognized flag
/// aborts the load.
pub open spec fn spec_apply_flags(st: SpecLoadState, fs: Seq<Seq<u8>>, i: int) -> Result<
    SpecLoadState,
    SpecObjError,
>
    decreases fs.len() - i,
{
    if i < 0 || i >= fs.len() {
        Ok(st)
    } else if is_check_cull(fs[i]) {
        spec_apply_flags(SpecLoadState { cull: true, ..st }, fs, i + 1)
    } else {
        Err(SpecObjError::InvalidPreprocessor(fs[i]))
    }
}

/// Whether an object of name `n` has already been started.
pub open spec fn spec_name_taken(objs: Seq<SpecObjAcc>, n: Seq<u8>) -> bool {
    exists|i: int| 0 <= i < objs.len() && objs[i].name == n
}

/// The position of the first entry equal to `k` at or after `i`, or the
/// table length when there is none.
pub open spec fn spec_key_find(keys: Seq<VertexKey>, k: VertexKey, i: int) -> int
    recommends
        0 <= i <= keys.len(),
    decreases keys.len() - i,
{
    if 0 <= i < keys.len() && keys[i] != k {
        spec_key_find(keys, k, i + 1)
    } else {
        i
    }
}

/// Resolves one face corner against the open object: the corner's key is
/// looked up in the deduplication table; a fresh key is bounds-checked
/// against the three attribute tables (position first, then texture
/// coordinate, then normal) and appended, extending the dense buffers.
/// Out-of-range failures report the 1-based index as written in the source.
pub open spec fn spec_resolve(acc: SpecObjAcc, k: VertexKey) -> Result<
    (SpecObjAcc, usize),
    SpecObjError,
> {
    let i = spec_key_find(acc.keys, k, 0);
    if i < acc.keys.len() {
        Ok((acc, i as usize))
    } else if k.position >= acc.pos_table.len() {
        Err(SpecObjError::OutOfRangeIndex { index: k.position + 1, max: acc.pos_table.len() as int })
    } else if k.uv >= acc.uv_table.len() {
        Err(SpecObjError::OutOfRangeIndex { index: k.uv + 1, max: acc.uv_table.len() as int })
    } else if k.normal >= acc.n_table.len() {
        Err(SpecObjError::OutOfRangeIndex { index: k.normal + 1, max: acc.n_table.len() as int })
    } else {
        Ok(
            (
                SpecObjAcc {
                    keys: acc.keys.push(k),
                    out_pos: acc.out_pos.push(acc.pos_table[k.position as int]),
                    out_uv: acc.out_uv.push(acc.uv_table[k.uv as int]),
                    out_n: acc.out_n.push(acc.n_table[k.normal as int]),
                    ..acc
                },
                acc.keys.len() as usize,
            ),
        )
    }
}

/// Resolves the corners of one face left to right, collecting their dense
/// indices.
pub open spec fn spec_resolve_seq(acc: SpecObjAcc, ts: Seq<VertexKey>, i: int) -> Result<
    (SpecObjAcc, Seq<usize>),
    SpecObjError,
>
    decreases ts.len() - i,
{
    if i < 0 || i >= ts.len() {
        Ok((acc, seq![]))
    } else {
        match spec_resolve(acc, ts[i]) {
            Err(e) => Err(e),
            Ok((acc2, idx)) => match spec_resolve_seq(acc2, ts, i + 1) {
                Err(e) => Err(e),
                Ok((acc3, rest)) => Ok((acc3, seq![idx] + rest)),
            },
        }
    }
}

/// Fan triangulation: an n-corner face becomes n-2 triangles, each reusing
/// the first corner as the pivot and keeping the source winding order.
pub open spec fn spec_fan(idxs: Seq<usize>) -> Seq<(usize, usize, usize)> {
    Seq::new(
        if idxs.len() >= 2 {
            (idxs.len() - 2) as nat
        } else {
            0
        },
        |t: int| (idxs[0], idxs[t + 1], idxs[t + 2]),
    )
}

/// Processes one face directive against the open object.
pub open spec fn spec_face(acc: SpecObjAcc, ts: Seq<VertexKey>) -> Result<
    SpecObjAcc,
    SpecObjError,
> {
    match spec_resolve_seq(acc, ts, 0) {
        Err(e) => Err(e),
        Ok((acc2, idxs)) => Ok(SpecObjAcc { faces: acc2.faces + spec_fan(idxs), ..acc2 }),
    }
}

/// One step of the geometry fold.
pub open spec fn spec_obj_step(
    st: SpecLoadState,
    d: SpecObjDirective,
    scale: u32,
    flip: bool,
) -> Result<SpecLoadState, SpecObjError> {
    match d {
        SpecObjDirective::Comment(_) => Ok(st),
        SpecObjDirective::Preprocess(fs) => spec_apply_flags(st, fs, 0),
        SpecObjDirective::Mtllib(p) => if st.mtllib is Some {
            Err(SpecObjError::Multiple(Keyword::Mtllib))
        } else {
            Ok(SpecLoadState { mtllib: Some(p), ..st })
        },
        SpecObjDirective::O(n) => if spec_name_taken(st.objs, n) {
            Err(SpecObjError::DuplicateObj(n))
        } else {
            Ok(SpecLoadState { objs: st.objs.push(spec_empty_acc(n)), ..st })
        },
        SpecObjDirective::V(x, y, z) => if st.objs.len() == 0 {
            Err(SpecObjError::Missing(Keyword::O))
        } else {
            let last = st.objs.last();
            let entry = (f32_mul_bits(x, scale), f32_mul_bits(y, scale), f32_mul_bits(z, scale));
            Ok(
                SpecLoadState {
                    objs: st.objs.update(
                        st.objs.len() - 1,
                        SpecObjAcc { pos_table: last.pos_table.push(entry), ..last },
                    ),
                    ..st
                },
            )
        },
        SpecObjDirective::Vt(u, w) => if st.objs.len() == 0 {
            Err(SpecObjError::Missing(Keyword::O))
        } else {
            let last = st.objs.last();
            let entry = (
                u,
                if flip {
                    f32_sub_bits(ONE_BITS, w)
                } else {
                    w
                },
            );
            Ok(
                SpecLoadState {
                    objs: st.objs.update(
                        st.objs.len() - 1,
                        SpecObjAcc { uv_table: last.uv_table.push(entry), ..last },
                    ),
                    ..st
                },
            )
        },
        SpecObjDirective::Vn(x, y, z) => if st.objs.len() == 0 {
            Err(SpecObjError::Missing(Keyword::O))
        } else {
            let last = st.objs.last();
            Ok(
                SpecLoadState {
                    objs: st.objs.update(
                        st.objs.len() - 1,
                        SpecObjAcc { n_table: last.n_table.push((x, y, z)), ..last },
                    ),
                    ..st
                },
            )
        },
        SpecObjDirective::Usemtl(m) => if st.objs.len() == 0 {
            Err(SpecObjError::Missing(Keyword::O))
        } else if st.objs.last().mtl is Some {
            Err(SpecObjError::Multiple(Keyword::Usemtl))
        } else {
            Ok(
                SpecLoadState {
                    objs: st.objs.update(
                        st.objs.len() - 1,
                        SpecObjAcc { mtl: Some(m), ..st.objs.last() },
                    ),
                    ..st
                },
            )
        },
        SpecObjDirective::F(ts) => if st.objs.len() == 0 {
            Err(SpecObjError::Missing(Keyword::O))
        } else {
            match spec_face(st.objs.last(), ts) {
                Err(e) => Err(e),
                Ok(acc2) => Ok(
                    SpecLoadState { objs: st.objs.update(st.objs.len() - 1, acc2), ..st },
                ),
            }
        },
    }
}

/// The geometry fold from directive `i` on.
pub open spec fn spec_run_obj(
    dirs: Seq<SpecObjDirective>,
    i: int,
    st: SpecLoadState,
    scale: u32,
    flip: bool,
) -> Result<SpecLoadState, SpecObjError>
    decreases dirs.len() - i,
{
    if i < 0 || i >= dirs.len() {
        Ok(st)
    } else {
        match spec_obj_step(st, dirs[i], scale, flip) {
            Err(e) => Err(e),
            Ok(st2) => spec_run_obj(dirs, i + 1, st2, scale, flip),
        }
    }
}

/// Closes the accumulated objects in file order: each must have exactly one
/// material binding.
pub open spec fn spec_collect_objs(accs: Seq<SpecObjAcc>, i: int) -> Result<
    Seq<SpecObj>,
    SpecObjError,
>
    decreases accs.len() - i,
{
    if i < 0 || i >= accs.len() {
        Ok(seq![])
    } else {
        match accs[i].mtl {
            None => Err(SpecObjError::Missing(Keyword::Usemtl)),
            Some(m) => match spec_collect_objs(accs, i + 1) {
                Err(e) => Err(e),
                Ok(rest) => Ok(
                    seq![
                        SpecObj {
                            name: accs[i].name,
                            material_key: m,
                            positions: accs[i].out_pos,
                            uvs: accs[i].out_uv,
                            normals: accs[i].out_n,
                            faces: accs[i].faces,
                        },
                    ] + rest,
                ),
            },
        }
    }
}

/// Finalizes the fold: a material library must have been referenced, and
/// every object must carry a material binding.
pub open spec fn spec_finalize(st: SpecLoadState) -> Result<SpecGeometry, SpecObjError> {
    match st.mtllib {
        None => Err(SpecObjError::Missing(Keyword::Mtllib)),
        Some(lib) => match spec_collect_objs(st.objs, 0) {
            Err(e) => Err(e),
            Ok(objs) => Ok(SpecGeometry { objects: objs, mtllib: lib, cull: st.cull }),
        },
    }
}

/// The whole geometry interpretation: fold, then finalize.
pub open spec fn spec_interp_obj(
    dirs: Seq<SpecObjDirective>,
    scale: u32,
    flip: bool,
) -> Result<SpecGeometry, SpecObjError> {
    match spec_run_obj(dirs, 0, spec_init_state(), scale, flip) {
        Err(e) => Err(e),
        Ok(st) => spec_finalize(st),
    }
}

/// The exec twin of `SpecObjAcc`.
struct ObjAcc {
    name: Vec<u8>,
    mtl: Option<Vec<u8>>,
    pos_table: Vec<(u32, u32, u32)>,
    uv_table: Vec<(u32, u32)>,
    n_table: Vec<(u32, u32, u32)>,
    keys: Vec<VertexKey>,
    out_pos: Vec<(u32, u32, u32)>,
    out_uv: Vec<(u32, u32)>,
    out_n: Vec<(u32, u32, u32)>,
    faces: Vec<(usize, usize, usize)>,
}

impl DeepView for ObjAcc {
    type V = SpecObjAcc;

    closed spec fn deep_view(&self) -> SpecObjAcc {
        SpecObjAcc {
            name: self.name@,
            mtl: opt_bytes_view(self.mtl),
            pos_table: self.pos_table@,
            uv_table: self.uv_table@,
            n_table: self.n_table@,
            keys: self.keys@,
            out_pos: self.out_pos@,
            out_uv: self.out_uv@,
            out_n: self.out_n@,
            faces: self.faces@,
        }
    }
}

/// Copies a byte string.
fn copy_bytes(v: &Vec<u8>) -> (r: Vec<u8>)
    ensures
        r@ == v@,
{
    let mut r: Vec<u8> = Vec::new();
    let n = v.len();
    let mut i: usize = 0;
    while i < n
        invariant
            i <= n == v@.len(),
            r@ == v@.subrange(0, i as int),
        decreases n - i,
    {
        r.push(v[i]);
        proof {
            assert(r@ =~= v@.subrange(0, i + 1));
        }
        i = i + 1;
    }
    proof {
        assert(v@.subrange(0, n as int) =~= v@);
    }
    r
}

/// Compares two byte strings.
fn bytes_eq(a: &Vec<u8>, b: &Vec<u8>) -> (r: bool)
    ensures
        r == (a@ == b@),
{
    if a.len() != b.len() {
        proof {
            assert(a@ != b@);
        }
        return false;
    }
    let n = a.len();
    let mut i: usize = 0;
    while i < n
        invariant
            i <= n,
            n == a@.len() == b@.len(),
            forall|m: int| 0 <= m < i ==> a@[m] == b@[m],
        decreases n - i,
    {
        if a[i] != b[i] {
            proof {
                assert(a@ != b@);
            }
            return false;
        }
        i = i + 1;
    }
    proof {
        assert(a@ =~= b@);
    }
    true
}

/// Scans the deduplication table for `k`.
fn key_find(keys: &Vec<VertexKey>, k: VertexKey) -> (j: usize)
    ensures
        j == spec_key_find(keys@, k, 0),
        j <= keys@.len(),
{
    let n = keys.len();
    let mut j: usize = 0;
    while j < n && !(keys[j].position == k.position && keys[j].uv == k.uv && keys[j].normal
        == k.normal)
        invariant
            j <= n == keys@.len(),
            spec_key_find(keys@, k, 0) == spec_key_find(keys@, k, j as int),
        decreases n - j,
    {
        j = j + 1;
    }
    j
}

/// Resolves one face corner against the open object, deduplicating its key
/// and extending the dense buffers on first sight.
fn resolve(acc: &mut ObjAcc, k: VertexKey) -> (r: Result<usize, ObjError>)
    requires
        crate::parser::key_wf(k),
    ensures
        match r {
            Ok(idx) => spec_resolve(old(acc).deep_view(), k) == Ok::<
                (SpecObjAcc, usize),
                SpecObjError,
            >((final(acc).deep_view(), idx)),
            Err(e) => spec_resolve(old(acc).deep_view(), k) == Err::<
                (SpecObjAcc, usize),
                SpecObjError,
            >(e.deep_view()),
        },
{
    let found = key_find(&acc.keys, k);
    if found < acc.keys.len() {
        return Ok(found);
    }
    if k.position >= acc.pos_table.len() {
        return Err(ObjError::OutOfRangeIndex { index: k.position + 1, max: acc.pos_table.len() });
    }
    if k.uv >= acc.uv_table.len() {
        return Err(ObjError::OutOfRangeIndex { index: k.uv + 1, max: acc.uv_table.len() });
    }
    if k.normal >= acc.n_table.len() {
        return Err(ObjError::OutOfRangeIndex { index: k.normal + 1, max: acc.n_table.len() });
    }
    let idx = acc.keys.len();
    let p = acc.pos_table[k.position];
    let u = acc.uv_table[k.uv];
    let nn = acc.n_table[k.normal];
    acc.out_pos.push(p);
    acc.out_uv.push(u);
    acc.out_n.push(nn);
    acc.keys.push(k);
    Ok(idx)
}

/// Tests a preprocessor flag for `check_cull`.
fn is_check_cull_flag(f: &Vec<u8>) -> (r: bool)
    ensures
        r == is_check_cull(f@),
{
    f.len() == 10 && f[0] == 0x63 && f[1] == 0x68 && f[2] == 0x65 && f[3] == 0x63 && f[4] == 0x6b
        && f[5] == 0x5f && f[6] == 0x63 && f[7] == 0x75 && f[8] == 0x6c && f[9] == 0x6c
}

/// Scans the started objects for one of name `n`.
fn name_taken(accs: &Vec<ObjAcc>, n: &Vec<u8>) -> (r: bool)
    ensures
        r == spec_name_taken(accs.deep_view(), n@),
{
    let na = accs.len();
    let mut j: usize = 0;
    while j < na
        invariant
            j <= na == accs@.len(),
            forall|m: int| 0 <= m < j ==> accs.deep_view()[m].name != n@,
        decreases na - j,
    {
        if bytes_eq(&accs[j].name, n) {
            proof {
                assert(accs.deep_view()[j as int].name == n@);
            }
            return true;
        }
        j = j + 1;
    }
    false
}

/// A fresh accumulator for a newly started object.
fn empty_acc(name: Vec<u8>) -> (a: ObjAcc)
    ensures
        a.deep_view() == spec_empty_acc(name@),
{
    let a = ObjAcc {
        name: name,
        mtl: None,
        pos_table: Vec::new(),
        uv_table: Vec::new(),
        n_table: Vec::new(),
        keys: Vec::new(),
        out_pos: Vec::new(),
        out_uv: Vec::new(),
        out_n: Vec::new(),
        faces: Vec::new(),
    };
    proof {
        assert(a.deep_view() =~~= spec_empty_acc(a.name@));
    }
    a
}

/// Folds the directive stream into per-object deduplicated vertex buffers
/// and fan-triangulated faces, applying the scale and flip settings to
/// positions and texture coordinates as they are stored. The result is
/// exactly the interpretation `spec_interp_obj` of the directives. The one
/// precondition is machine-imposed: every face index must leave room for
/// the 1-based form that out-of-range errors report; the grammar
/// guarantees it for every parsed stream (`lemma_parse_obj_wf`).
#[verifier::loop_isolation(false)]
#[verifier::rlimit(80)]
pub fn load_geometry(dirs: &Vec<ObjDirective>, settings: &ObjSettings) -> (r: Result<
    Geometry,
    ObjError,
>)
    requires
        crate::parser::obj_dirs_wf(dirs.deep_view()),
    ensures
        match r {
            Ok(g) => spec_interp_obj(dirs.deep_view(), settings.scale, settings.flip_v) == Ok::<
                SpecGeometry,
                SpecObjError,
            >(g.deep_view()),
            Err(e) => spec_interp_obj(dirs.deep_view(), settings.scale, settings.flip_v) == Err::<
                SpecGeometry,
                SpecObjError,
            >(e.deep_view()),
        },
{
    let ghost dv = dirs.deep_view();
    let scale = settings.scale;
    let flip = settings.flip_v;
    let mut accs: Vec<ObjAcc> = Vec::new();
    let mut mtllib: Option<Vec<u8>> = None;
    let mut cull = false;
    let n = dirs.len();
    let mut i: usize = 0;
    proof {
        assert(SpecLoadState { objs: accs.deep_view(), mtllib: opt_bytes_view(mtllib), cull }
            =~~= spec_init_state());
    }
    while i < n
        invariant
            i <= n == dirs@.len(),
            dv == dirs.deep_view(),
            crate::parser::obj_dirs_wf(dv),
            spec_run_obj(dv, 0, spec_init_state(), scale, flip) == spec_run_obj(
                dv,
                i as int,
                SpecLoadState { objs: accs.deep_view(), mtllib: opt_bytes_view(mtllib), cull },
                scale,
                flip,
            ),
        decreases n - i,
    {
        let ghost st0 = SpecLoadState {
            objs: accs.deep_view(),
            mtllib: opt_bytes_view(mtllib),
            cull,
        };
        let d = &dirs[i];
        proof {
            assert(d.deep_view() == dv[i as int]);
        }
        match d {
            ObjDirective::Comment(_) => {
            },
            ObjDirective::Preprocess(fs) => {
                let nf = fs.len();
                let mut t: usize = 0;
                while t < nf
                    invariant
                        t <= nf == fs@.len(),
                        spec_apply_flags(st0, fs.deep_view(), 0) == spec_apply_flags(
                            SpecLoadState { cull, ..st0 },
                            fs.deep_view(),
                            t as int,
                        ),
                        accs.deep_view() == st0.objs,
                        opt_bytes_view(mtllib) == st0.mtllib,
                    decreases nf - t,
                {
                    let fl = &fs[t];
                    proof {
                        assert(fl@ == fs.deep_view()[t as int]);
                    }
                    if is_check_cull_flag(fl) {
                        cull = true;
                    } else {
                        let e = ObjError::InvalidPreprocessor(copy_bytes(fl));
                        proof {
                            assert(spec_apply_flags(st0, fs.deep_view(), 0) == Err::<
                                SpecLoadState,
                                SpecObjError,
                            >(e.deep_view()));
                            assert(spec_obj_step(st0, dv[i as int], scale, flip) == Err::<
                                SpecLoadState,
                                SpecObjError,
                            >(e.deep_view()));
                        }
                        return Err(e);
                    }
                    t = t + 1;
                }
                proof {
                    assert(spec_apply_flags(st0, fs.deep_view(), 0) == Ok::<
                        SpecLoadState,
                        SpecObjError,
                    >(SpecLoadState { cull, ..st0 }));
                }
            },
            ObjDirective::Mtllib(p) => {
                if mtllib.is_some() {
                    return Err(ObjError::Multiple(Keyword::Mtllib));
                }
                mtllib = Some(copy_bytes(p));
            },
            ObjDirective::O(name) => {
                if name_taken(&accs, name) {
                    return Err(ObjError::DuplicateObj(copy_bytes(name)));
                }
                let acc = empty_acc(copy_bytes(name));
                let ghost old_objs = accs.deep_view();
                accs.push(acc);
                proof {
                    assert(accs.deep_view() =~~= old_objs.push(spec_empty_acc(name@)));
                }
            },
            ObjDirective::V(x, y, z) => {
                if accs.is_empty() {
                    return Err(ObjError::Missing(Keyword::O));
                }
                let ghost old_objs = accs.deep_view();
                let mut acc = accs.pop().unwrap();
                let sx = mul_bits(*x, scale);
                let sy = mul_bits(*y, scale);
                let sz = mul_bits(*z, scale);
                acc.pos_table.push((sx, sy, sz));
                accs.push(acc);
                proof {
                    assert(accs.deep_view() =~~= old_objs.update(
                        old_objs.len() - 1,
                        SpecObjAcc {
                            pos_table: old_objs.last().pos_table.push(
                                (
                                    f32_mul_bits(*x, scale),
                                    f32_mul_bits(*y, scale),
                                    f32_mul_bits(*z, scale),
                                ),
                            ),
                            ..old_objs.last()
                        },
                    ));
                }
            },
            ObjDirective::Vt(u, w) => {
                if accs.is_empty() {
                    return Err(ObjError::Missing(Keyword::O));
                }
                let ghost old_objs = accs.deep_view();
                let mut acc = accs.pop().unwrap();
                let w2 = if flip {
                    sub_bits(ONE_BITS, *w)
                } else {
                    *w
                };
                acc.uv_table.push((*u, w2));
                accs.push(acc);
                proof {
                    assert(accs.deep_view() =~~= old_objs.update(
                        old_objs.len() - 1,
                        SpecObjAcc {
                            uv_table: old_objs.last().uv_table.push(
                                (
                                    *u,
                                    if flip {
                                        f32_sub_bits(ONE_BITS, *w)
                                    } else {
                                        *w
                                    },
                                ),
                            ),
                            ..old_objs.last()
                        },
                    ));
                }
            },
            ObjDirective::Vn(x, y, z) => {
                if accs.is_empty() {
                    return Err(ObjError::Missing(Keyword::O));
                }
                let ghost old_objs = accs.deep_view();
                let mut acc = accs.pop().unwrap();
                acc.n_table.push((*x, *y, *z));
                accs.push(acc);
                proof {
                    assert(accs.deep_view() =~~= old_objs.update(
                        old_objs.len() - 1,
                        SpecObjAcc {
                            n_table: old_objs.last().n_table.push((*x, *y, *z)),
                            ..old_objs.last()
                        },
                    ));
                }
            },
            ObjDirective::Usemtl(m) => {
                if accs.is_empty() {
                    return Err(ObjError::Missing(Keyword::O));
                }
                let ghost old_objs = accs.deep_view();
                let mut acc = accs.pop().unwrap();
                if acc.mtl.is_some() {
                    return Err(ObjError::Multiple(Keyword::Usemtl));
                }
                acc.mtl = Some(copy_bytes(m));
                accs.push(acc);
                proof {
                    assert(accs.deep_view() =~~= old_objs.update(
                        old_objs.len() - 1,
                        SpecObjAcc { mtl: Some(m@), ..old_objs.last() },
                    ));
                }
            },
            ObjDirective::F(ts) => {
                if accs.is_empty() {
                    return Err(ObjError::Missing(Keyword::O));
                }
                let ghost old_objs = accs.deep_view();
                let mut acc = accs.pop().unwrap();
                let ghost acc0 = acc.deep_view();
                proof {
                    assert(acc0 == old_objs.last());
                    assert(dv[i as int] == SpecObjDirective::F(ts@));
                }
                let mut idxs: Vec<usize> = Vec::new();
                let nt = ts.len();
                let mut t: usize = 0;
                while t < nt
                    invariant
                        t <= nt == ts@.len(),
                        forall|j2: int| 0 <= j2 < ts@.len() ==> crate::parser::key_wf(
                            #[trigger] ts@[j2],
                        ),
                        forall|accf: SpecObjAcc, rest: Seq<usize>|
                            spec_resolve_seq(acc.deep_view(), ts@, t as int) == Ok::<
                                (SpecObjAcc, Seq<usize>),
                                SpecObjError,
                            >((accf, rest)) ==> spec_resolve_seq(acc0, ts@, 0) == Ok::<
                                (SpecObjAcc, Seq<usize>),
                                SpecObjError,
                            >((accf, idxs@ + rest)),
                        forall|e: SpecObjError|
                            spec_resolve_seq(acc.deep_view(), ts@, t as int) == Err::<
                                (SpecObjAcc, Seq<usize>),
                                SpecObjError,
                            >(e) ==> spec_resolve_seq(acc0, ts@, 0) == Err::<
                                (SpecObjAcc, Seq<usize>),
                                SpecObjError,
                            >(e),
                    decreases nt - t,
                {
                    let k = ts[t];
                    let ghost acc_before = acc.deep_view();
                    match resolve(&mut acc, k) {
                        Err(e) => {
                            proof {
                                assert(spec_resolve_seq(acc_before, ts@, t as int) == Err::<
                                    (SpecObjAcc, Seq<usize>),
                                    SpecObjError,
                                >(e.deep_view()));
                                assert(spec_face(acc0, ts@) == Err::<SpecObjAcc, SpecObjError>(
                                    e.deep_view(),
                                ));
                                assert(spec_obj_step(st0, dv[i as int], scale, flip) == Err::<
                                    SpecLoadState,
                                    SpecObjError,
                                >(e.deep_view()));
                            }
                            return Err(e);
                        },
                        Ok(idx) => {
                            let ghost old_idxs = idxs@;
                            idxs.push(idx);
                            proof {
                                let ghost next = spec_resolve_seq(acc.deep_view(), ts@, t + 1);
                                assert forall|accf: SpecObjAcc, rest: Seq<usize>|
                                    next == Ok::<(SpecObjAcc, Seq<usize>), SpecObjError>(
                                        (accf, rest),
                                    ) implies spec_resolve_seq(acc0, ts@, 0) == Ok::<
                                    (SpecObjAcc, Seq<usize>),
                                    SpecObjError,
                                >((accf, idxs@ + rest)) by {
                                    assert(spec_resolve_seq(acc_before, ts@, t as int) == Ok::<
                                        (SpecObjAcc, Seq<usize>),
                                        SpecObjError,
                                    >((accf, seq![idx] + rest)));
                                    assert(old_idxs + (seq![idx] + rest) =~= (old_idxs + seq![idx])
                                        + rest);
                                    assert(idxs@ =~= old_idxs + seq![idx]);
                                }
                            }
                        },
                    }
                    t = t + 1;
                }
                proof {
                    assert(spec_resolve_seq(acc.deep_view(), ts@, nt as int) == Ok::<
                        (SpecObjAcc, Seq<usize>),
                        SpecObjError,
                    >((acc.deep_view(), seq![])));
                    assert(idxs@ + seq![] =~= idxs@);
                    assert(spec_resolve_seq(acc0, ts@, 0) == Ok::<
                        (SpecObjAcc, Seq<usize>),
                        SpecObjError,
                    >((acc.deep_view(), idxs@)));
                }
                let ghost acc_r = acc.deep_view();
                let ghost faces0 = acc.faces@;
                if idxs.len() >= 2 {
                    let m = idxs.len() - 2;
                    let piv = idxs[0];
                    let mut t2: usize = 0;
                    proof {
                        assert(acc.faces@ =~= faces0 + spec_fan(idxs@).subrange(0, 0));
                    }
                    while t2 < m
                        invariant
                            t2 <= m,
                            idxs@.len() >= 2,
                            m == idxs@.len() - 2,
                            piv == idxs@[0],
                            acc.deep_view() == (SpecObjAcc {
                                faces: faces0 + spec_fan(idxs@).subrange(0, t2 as int),
                                ..acc_r
                            }),
                        decreases m - t2,
                    {
                        let ghost fb = acc.faces@;
                        acc.faces.push((piv, idxs[t2 + 1], idxs[t2 + 2]));
                        proof {
                            assert(spec_fan(idxs@)[t2 as int] == (
                                idxs@[0],
                                idxs@[t2 + 1],
                                idxs@[t2 + 2],
                            ));
                            assert(fb.push(spec_fan(idxs@)[t2 as int]) =~= faces0 + spec_fan(
                                idxs@,
                            ).subrange(0, t2 + 1));
                            assert(acc.deep_view() =~~= SpecObjAcc {
                                faces: faces0 + spec_fan(idxs@).subrange(0, t2 + 1),
                                ..acc_r
                            });
                        }
                        t2 = t2 + 1;
                    }
                    proof {
                        assert(spec_fan(idxs@).subrange(0, m as int) =~= spec_fan(idxs@));
                    }
                } else {
                    proof {
                        assert(spec_fan(idxs@) =~= Seq::<(usize, usize, usize)>::empty());
                        assert(faces0 + spec_fan(idxs@) =~= faces0);
                        assert(acc.deep_view() =~~= SpecObjAcc {
                            faces: faces0 + spec_fan(idxs@),
                            ..acc_r
                        });
                    }
                }
                proof {
                    assert(acc.deep_view() =~~= SpecObjAcc {
                        faces: faces0 + spec_fan(idxs@),
                        ..acc_r
                    });
                    assert(spec_face(acc0, ts@) == Ok::<SpecObjAcc, SpecObjError>(acc.deep_view()));
                }
                accs.push(acc);
                proof {
                    assert(accs.deep_view() =~~= old_objs.update(
                        old_objs.len() - 1,
                        accs.deep_view().last(),
                    ));
                }
            },
        }
        proof {
            let st1 = SpecLoadState {
                objs: accs.deep_view(),
                mtllib: opt_bytes_view(mtllib),
                cull,
            };
            assert(spec_obj_step(st0, dv[i as int], scale, flip) == Ok::<
                SpecLoadState,
                SpecObjError,
            >(st1));
        }
        i = i + 1;
    }
    let ghost st_final = SpecLoadState {
        objs: accs.deep_view(),
        mtllib: opt_bytes_view(mtllib),
        cull,
    };
    proof {
        assert(spec_run_obj(dv, 0, spec_init_state(), scale, flip) == Ok::<
            SpecLoadState,
            SpecObjError,
        >(st_final));
    }
    let lib = match mtllib {
        Some(l) => l,
        None => {
            return Err(ObjError::Missing(Keyword::Mtllib));
        },
    };
    let ghost all = st_final.objs;
    let mut objects: Vec<Obj> = Vec::new();
    let ghost total = all.len();
    let mut done: usize = 0;
    let remaining = accs.len();
    proof {
        assert(accs.deep_view() =~~= all.subrange(0, total as int));
    }
    while done < remaining
        invariant
            done <= remaining,
            total == all.len() == remaining,
            accs.deep_view() == all.subrange(done as int, total as int),
            forall|rest: Seq<SpecObj>|
                spec_collect_objs(all, done as int) == Ok::<Seq<SpecObj>, SpecObjError>(rest)
                    ==> spec_collect_objs(all, 0) == Ok::<Seq<SpecObj>, SpecObjError>(
                    objects.deep_view() + rest,
                ),
            forall|e: SpecObjError|
                spec_collect_objs(all, done as int) == Err::<Seq<SpecObj>, SpecObjError>(e)
                    ==> spec_collect_objs(all, 0) == Err::<Seq<SpecObj>, SpecObjError>(e),
        decreases remaining - done,
    {
        let ghost accs_before = accs.deep_view();
        let ghost old_vv = accs@;
        let acc = accs.remove(0);
        proof {
            assert(accs_before[0] == all[done as int]);
            assert(acc.deep_view() == all[done as int]);
            old_vv.remove_ensures(0);
            assert forall|m: int| 0 <= m < accs.deep_view().len() implies accs.deep_view()[m]
                == all.subrange(done + 1, total as int)[m] by {
                assert(accs@[m] == old_vv[m + 1]);
                assert(accs.deep_view()[m] == accs@[m].deep_view());
                assert(accs_before[m + 1] == old_vv[m + 1].deep_view());
                assert(accs_before[m + 1] == all.subrange(done as int, total as int)[m + 1]);
            }
            assert(accs.deep_view() =~= all.subrange(done + 1, total as int));
        }
        let ghost objs0 = objects.deep_view();
        let mk = match acc.mtl {
            Some(m) => m,
            None => {
                return Err(ObjError::Missing(Keyword::Usemtl));
            },
        };
        let ob = Obj {
            name: acc.name,
            material_key: mk,
            positions: acc.out_pos,
            uvs: acc.out_uv,
            normals: acc.out_n,
            faces: acc.faces,
        };
        let ghost obv = ob.deep_view();
        proof {
            assert(done < all.len());
            assert(all[done as int].mtl == Some(mk@));
            assert(obv.name == all[done as int].name);
            assert(obv.material_key == mk@);
            assert(obv.positions == all[done as int].out_pos);
            assert(obv == (SpecObj {
                name: all[done as int].name,
                material_key: mk@,
                positions: all[done as int].out_pos,
                uvs: all[done as int].out_uv,
                normals: all[done as int].out_n,
                faces: all[done as int].faces,
            }));
        }
        objects.push(ob);
        proof {
            assert(objects.deep_view() =~~= objs0 + seq![obv]);
            let ghost next = spec_collect_objs(all, done + 1);
            assert forall|rest: Seq<SpecObj>|
                next == Ok::<Seq<SpecObj>, SpecObjError>(rest) implies spec_collect_objs(all, 0)
                == Ok::<Seq<SpecObj>, SpecObjError>(objects.deep_view() + rest) by {
                assert(spec_collect_objs(all, done as int) == Ok::<Seq<SpecObj>, SpecObjError>(
                    seq![obv] + rest,
                ));
                assert(objs0 + (seq![obv] + rest) =~~= (objs0 + seq![obv]) + rest);
            }
        }
        done = done + 1;
    }
    proof {
        assert(spec_collect_objs(all, done as int) == Ok::<Seq<SpecObj>, SpecObjError>(seq![]));
        assert(objects.deep_view() + seq![] =~~= objects.deep_view());
    }
    let g = Geometry { objects, mtllib: lib, cull };
    proof {
        assert(spec_finalize(st_final) == Ok::<SpecGeometry, SpecObjError>(g.deep_view()));
    }
    Ok(g)
}

/// Whether a material of name `n` is already defined.
pub open spec fn spec_mtl_taken(ms: Seq<SpecMtl>, n: Seq<u8>) -> bool {
    exists|i: int| 0 <= i < ms.len() && ms[i].name == n
}

/// One step of the material fold: `newmtl` opens a fresh record, `map_Kd`
/// sets the open record's diffuse-texture path.
pub open spec fn spec_mtl_step(ms: Seq<SpecMtl>, d: SpecMtlDirective) -> Result<
    Seq<SpecMtl>,
    SpecMtlError,
> {
    match d {
        SpecMtlDirective::Comment(_) => Ok(ms),
        SpecMtlDirective::Newmtl(n) => if spec_mtl_taken(ms, n) {
            Err(SpecMtlError::DuplicateMtl(n))
        } else {
            Ok(ms.push(SpecMtl { name: n, diffuse_texture: None }))
        },
        SpecMtlDirective::MapKd(p) => if ms.len() == 0 {
            Err(SpecMtlError::Missing(Keyword::Mtllib))
        } else if ms.last().diffuse_texture is Some {
            Err(SpecMtlError::Multiple(Keyword::MapKd))
        } else {
            Ok(ms.update(ms.len() - 1, SpecMtl { diffuse_texture: Some(p), ..ms.last() }))
        },
    }
}

/// The material fold from directive `i` on.
pub open spec fn spec_run_mtl(dirs: Seq<SpecMtlDirective>, i: int, ms: Seq<SpecMtl>) -> Result<
    Seq<SpecMtl>,
    SpecMtlError,
>
    decreases dirs.len() - i,
{
    if i < 0 || i >= dirs.len() {
        Ok(ms)
    } else {
        match spec_mtl_step(ms, dirs[i]) {
            Err(e) => Err(e),
            Ok(ms2) => spec_run_mtl(dirs, i + 1, ms2),
        }
    }
}

/// The whole material interpretation.
pub open spec fn spec_interp_mtl(dirs: Seq<SpecMtlDirective>) -> Result<
    Seq<SpecMtl>,
    SpecMtlError,
> {
    spec_run_mtl(dirs, 0, seq![])
}

/// Scans the defined materials for one of name `n`.
fn mtl_taken(ms: &Vec<Mtl>, n: &Vec<u8>) -> (r: bool)
    ensures
        r == spec_mtl_taken(ms.deep_view(), n@),
{
    let nm = ms.len();
    let mut j: usize = 0;
    while j < nm
        invariant
            j <= nm == ms@.len(),
            forall|m: int| 0 <= m < j ==> ms.deep_view()[m].name != n@,
        decreases nm - j,
    {
        if bytes_eq(&ms[j].name, n) {
            proof {
                assert(ms.deep_view()[j as int].name == n@);
            }
            return true;
        }
        j = j + 1;
    }
    false
}

/// Folds the material directive stream into named material records with
/// distinct names; the result is exactly the interpretation
/// `spec_interp_mtl` of the directives.
#[verifier::loop_isolation(false)]
pub fn load_materials(dirs: &Vec<MtlDirective>) -> (r: Result<MtlCollection, MtlError>)
    ensures
        match r {
            Ok(c) => spec_interp_mtl(dirs.deep_view()) == Ok::<Seq<SpecMtl>, SpecMtlError>(
                c.deep_view(),
            ),
            Err(e) => spec_interp_mtl(dirs.deep_view()) == Err::<Seq<SpecMtl>, SpecMtlError>(
                e.deep_view(),
            ),
        },
{
    let ghost dv = dirs.deep_view();
    let mut mats: Vec<Mtl> = Vec::new();
    let n = dirs.len();
    let mut i: usize = 0;
    proof {
        assert(mats.deep_view() =~~= Seq::<SpecMtl>::empty());
    }
    while i < n
        invariant
            i <= n == dirs@.len(),
            dv == dirs.deep_view(),
            spec_run_mtl(dv, 0, seq![]) == spec_run_mtl(dv, i as int, mats.deep_view()),
        decreases n - i,
    {
        let ghost ms0 = mats.deep_view();
        let d = &dirs[i];
        proof {
            assert(d.deep_view() == dv[i as int]);
        }
        match d {
            MtlDirective::Comment(_) => {
            },
            MtlDirective::Newmtl(name) => {
                if mtl_taken(&mats, name) {
                    return Err(MtlError::DuplicateMtl(copy_bytes(name)));
                }
                mats.push(Mtl { name: copy_bytes(name), diffuse_texture: None });
                proof {
                    assert(mats.deep_view() =~~= ms0.push(
                        SpecMtl { name: name@, diffuse_texture: None },
                    ));
                }
            },
            MtlDirective::MapKd(path) => {
                if mats.is_empty() {
                    return Err(MtlError::Missing(Keyword::Mtllib));
                }
                let mut m = mats.pop().unwrap();
                if m.diffuse_texture.is_some() {
                    return Err(MtlError::Multiple(Keyword::MapKd));
                }
                m.diffuse_texture = Some(copy_bytes(path));
                mats.push(m);
                proof {
                    assert(mats.deep_view() =~~= ms0.update(
                        ms0.len() - 1,
                        SpecMtl { diffuse_texture: Some(path@), ..ms0.last() },
                    ));
                }
            },
        }
        proof {
            assert(spec_mtl_step(ms0, dv[i as int]) == Ok::<Seq<SpecMtl>, SpecMtlError>(
                mats.deep_view(),
            ));
        }
        i = i + 1;
    }
    Ok(MtlCollection { materials: mats })
}

/// The first object, in file order, whose bound material name the material
/// list does not define.
pub open spec fn spec_first_unbound(objs: Seq<SpecObj>, ms: Seq<SpecMtl>, i: int) -> Option<
    Seq<u8>,
>
    decreases objs.len() - i,
{
    if i < 0 || i >= objs.len() {
        None
    } else if !spec_mtl_taken(ms, objs[i].material_key) {
        Some(objs[i].material_key)
    } else {
        spec_first_unbound(objs, ms, i + 1)
    }
}

/// Cross-links loaded geometry against its resolved material library: every
/// object's bound material name must be defined there. On success the
/// objects and materials are handed back unchanged, by ownership.
#[verifier::loop_isolation(false)]
pub fn bind_materials(geom: Geometry, mtls: MtlCollection) -> (r: Result<ObjCollection, ObjError>)
    ensures
        match r {
            Ok(c) => spec_first_unbound(geom.deep_view().objects, mtls.deep_view(), 0)
                is None && c.objects.deep_view() == geom.deep_view().objects
                && c.materials.deep_view() == mtls.deep_view(),
            Err(e) => match spec_first_unbound(geom.deep_view().objects, mtls.deep_view(), 0) {
                Some(n) => e.deep_view() == SpecObjError::UnknownMtl(n),
                None => false,
            },
        },
{
    let ghost ov = geom.deep_view().objects;
    let ghost mv = mtls.deep_view();
    let n = geom.objects.len();
    let mut i: usize = 0;
    while i < n
        invariant
            i <= n == geom.objects@.len(),
            ov == geom.deep_view().objects,
            mv == mtls.deep_view(),
            spec_first_unbound(ov, mv, 0) == spec_first_unbound(ov, mv, i as int),
        decreases n - i,
    {
        let key = &geom.objects[i].material_key;
        proof {
            assert(key@ == ov[i as int].material_key);
        }
        if !mtl_taken(&mtls.materials, key) {
            return Err(ObjError::UnknownMtl(copy_bytes(key)));
        }
        i = i + 1;
    }
    Ok(ObjCollection { objects: geom.objects, materials: mtls.materials })
}

/// The geometry pipeline on raw text: grammar, then interpretation.
pub open spec fn spec_load_obj(s: Seq<u8>, scale: u32, flip: bool) -> Result<
    SpecGeometry,
    SpecObjError,
> {
    match crate::parser::spec_parse_obj(s) {
        Err(se) => Err(SpecObjError::Syntax(se)),
        Ok(ds) => spec_interp_obj(ds, scale, flip),
    }
}

/// Parses and loads a geometry source.
pub fn load_obj(input: &[u8], settings: &ObjSettings) -> (r: Result<Geometry, ObjError>)
    ensures
        match r {
            Ok(g) => spec_load_obj(input@, settings.scale, settings.flip_v) == Ok::<
                SpecGeometry,
                SpecObjError,
            >(g.deep_view()),
            Err(e) => spec_load_obj(input@, settings.scale, settings.flip_v) == Err::<
                SpecGeometry,
                SpecObjError,
            >(e.deep_view()),
        },
{
    match crate::parser::parse_obj(input) {
        Err(se) => Err(ObjError::Syntax(se)),
        Ok(ds) => {
            proof {
                crate::parser::lemma_parse_obj_wf(input@);
            }
            load_geometry(&ds, settings)
        },
    }
}

/// The material pipeline on raw text: grammar, then interpretation.
pub open spec fn spec_load_mtl(s: Seq<u8>) -> Result<Seq<SpecMtl>, SpecMtlError> {
    match crate::parser::spec_parse_mtl(s) {
        Err(se) => Err(SpecMtlError::Syntax(se)),
        Ok(ds) => spec_interp_mtl(ds),
    }
}

/// Parses and loads a material source.
pub fn load_mtl(input: &[u8]) -> (r: Result<MtlCollection, MtlError>)
    ensures
        match r {
            Ok(c) => spec_load_mtl(input@) == Ok::<Seq<SpecMtl>, SpecMtlError>(c.deep_view()),
            Err(e) => spec_load_mtl(input@) == Err::<Seq<SpecMtl>, SpecMtlError>(e.deep_view()),
        },
{
    match crate::parser::parse_mtl(input) {
        Err(se) => Err(MtlError::Syntax(se)),
        Ok(ds) => load_materials(&ds),
    }
}

/// The whole pipeline on the two sources: geometry, then its referenced
/// material library, then the cross-link of every bound material name.
pub open spec fn spec_load(obj_src: Seq<u8>, mtl_src: Seq<u8>, scale: u32, flip: bool) -> Result<
    (SpecGeometry, Seq<SpecMtl>),
    SpecLoadError,
> {
    match spec_load_obj(obj_src, scale, flip) {
        Err(e) => Err(SpecLoadError::Obj(e)),
        Ok(g) => match spec_load_mtl(mtl_src) {
            Err(e) => Err(SpecLoadError::Mtl(e)),
            Ok(ms) => match spec_first_unbound(g.objects, ms, 0) {
                Some(nm) => Err(SpecLoadError::Obj(SpecObjError::UnknownMtl(nm))),
                None => Ok((g, ms)),
            },
        },
    }
}

/// Loads a geometry source together with the material source its `mtllib`
/// reference names (fetched by the caller), and cross-links the two.
pub fn load(obj_src: &[u8], mtl_src: &[u8], settings: &ObjSettings) -> (r: Result<
    ObjCollection,
    LoadError,
>)
    ensures
        match r {
            Ok(c) => match spec_load(obj_src@, mtl_src@, settings.scale, settings.flip_v) {
                Ok((g, ms)) => c.objects.deep_view() == g.objects && c.materials.deep_view()
                    == ms,
                Err(_) => false,
            },
            Err(e) => spec_load(obj_src@, mtl_src@, settings.scale, settings.flip_v) is Err
                && spec_load(
                obj_src@,
                mtl_src@,
                settings.scale,
                settings.flip_v,
            ) == Err::<(SpecGeometry, Seq<SpecMtl>), SpecLoadError>(e.deep_view()),
        },
{
    let geom = match load_obj(obj_src, settings) {
        Ok(g) => g,
        Err(e) => {
            return Err(LoadError::Obj(e));
        },
    };
    let mtls = match load_mtl(mtl_src) {
        Ok(c) => c,
        Err(e) => {
            return Err(LoadError::Mtl(e));
        },
    };
    match bind_materials(geom, mtls) {
        Ok(c) => Ok(c),
        Err(e) => Err(LoadError::Obj(e)),
    }
}

/// The first object of name `n` at or after `i`, if any.
pub open spec fn spec_find_obj(objs: Seq<SpecObj>, n: Seq<u8>, i: int) -> Option<SpecObj>
    decreases objs.len() - i,
{
    if i < 0 || i >= objs.len() {
        None
    } else if objs[i].name == n {
        Some(objs[i])
    } else {
        spec_find_obj(objs, n, i + 1)
    }
}

/// The first material of name `n` at or after `i`, if any.
pub open spec fn spec_find_mtl(ms: Seq<SpecMtl>, n: Seq<u8>, i: int) -> Option<SpecMtl>
    decreases ms.len() - i,
{
    if i < 0 || i >= ms.len() {
        None
    } else if ms[i].name == n {
        Some(ms[i])
    } else {
        spec_find_mtl(ms, n, i + 1)
    }
}

/// Compares a byte slice with a byte vector.
fn slice_eq_vec(a: &[u8], b: &Vec<u8>) -> (r: bool)
    ensures
        r == (a@ == b@),
{
    if a.len() != b.len() {
        proof {
            assert(a@ != b@);
        }
        return false;
    }
    let n = a.len();
    let mut i: usize = 0;
    while i < n
        invariant
            i <= n,
            n == a@.len() == b@.len(),
            forall|m: int| 0 <= m < i ==> a@[m] == b@[m],
        decreases n - i,
    {
        if a[i] != b[i] {
            proof {
                assert(a@ != b@);
            }
            return false;
        }
        i = i + 1;
    }
    proof {
        assert(a@ =~= b@);
    }
    true
}

impl ObjCollection {
    /// Looks up a loaded object by name.
    pub fn get(&self, name: &[u8]) -> (r: Option<&Obj>)
        ensures
            match r {
                Some(ob) => spec_find_obj(self.objects.deep_view(), name@, 0) == Some(
                    ob.deep_view(),
                ),
                None => spec_find_obj(self.objects.deep_view(), name@, 0) is None,
            },
    {
        let n = self.objects.len();
        let mut i: usize = 0;
        while i < n
            invariant
                i <= n == self.objects@.len(),
                spec_find_obj(self.objects.deep_view(), name@, 0) == spec_find_obj(
                    self.objects.deep_view(),
                    name@,
                    i as int,
                ),
            decreases n - i,
        {
            if slice_eq_vec(name, &self.objects[i].name) {
                proof {
                    assert(self.objects.deep_view()[i as int].name == name@);
                }
                return Some(&self.objects[i]);
            }
            proof {
                assert(self.objects.deep_view()[i as int].name != name@);
            }
            i = i + 1;
        }
        None
    }

    /// Looks up a resolved material by name.
    pub fn get_material(&self, name: &[u8]) -> (r: Option<&Mtl>)
        ensures
            match r {
                Some(m) => spec_find_mtl(self.materials.deep_view(), name@, 0) == Some(
                    m.deep_view(),
                ),
                None => spec_find_mtl(self.materials.deep_view(), name@, 0) is None,
            },
    {
        let n = self.materials.len();
        let mut i: usize = 0;
        while i < n
            invariant
                i <= n == self.materials@.len(),
                spec_find_mtl(self.materials.deep_view(), name@, 0) == spec_find_mtl(
                    self.materials.deep_view(),
                    name@,
                    i as int,
                ),
            decreases n - i,
        {
            if slice_eq_vec(name, &self.materials[i].name) {
                proof {
                    assert(self.materials.deep_view()[i as int].name == name@);
                }
                return Some(&self.materials[i]);
            }
            proof {
                assert(self.materials.deep_view()[i as int].name != name@);
            }
            i = i + 1;
        }
        None
    }
}

impl MtlCollection {
    /// Looks up a material by name.
    pub fn get(&self, name: &[u8]) -> (r: Option<&Mtl>)
        ensures
            match r {
                Some(m) => spec_find_mtl(self.deep_view(), name@, 0) == Some(m.deep_view()),
                None => spec_find_mtl(self.deep_view(), name@, 0) is None,
            },
    {
        let n = self.materials.len();
        let mut i: usize = 0;
        while i < n
            invariant
                i <= n == self.materials@.len(),
                spec_find_mtl(self.deep_view(), name@, 0) == spec_find_mtl(
                    self.deep_view(),
                    name@,
                    i as int,
                ),
            decreases n - i,
        {
            if slice_eq_vec(name, &self.materials[i].name) {
                proof {
                    assert(self.deep_view()[i as int].name == name@);
                }
                return Some(&self.materials[i]);
            }
            proof {
                assert(self.deep_view()[i as int].name != name@);
            }
            i = i + 1;
        }
        None
    }
}

} // verus!
