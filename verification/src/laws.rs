use vstd::prelude::*;

use crate::loader::{
    spec_empty_acc, spec_face, spec_fan, spec_init_state, spec_interp_obj, spec_key_find,
    spec_mtl_step, spec_obj_step, spec_resolve, spec_resolve_seq, spec_run_mtl, spec_run_obj,
    SpecLoadState, SpecObjAcc,
};
use crate::parser::{SpecObjDirective, VertexKey};

verus! {

/// What `spec_key_find` returns: the first match, every earlier entry
/// differing from the key.
pub proof fn lemma_key_find(keys: Seq<VertexKey>, k: VertexKey, i: int)
    requires
        0 <= i <= keys.len(),
    ensures
        i <= spec_key_find(keys, k, i) <= keys.len(),
        spec_key_find(keys, k, i) < keys.len() ==> keys[spec_key_find(keys, k, i)] == k,
        forall|j: int| i <= j < spec_key_find(keys, k, i) ==> keys[j] != k,
    decreases keys.len() - i,
{
    if i < keys.len() && keys[i] != k {
        lemma_key_find(keys, k, i + 1);
    }
}

/// Resolving one corner only appends to the key table and the dense
/// buffers; the returned slot holds the corner's key, and the object's
/// tables, name, material binding and faces are untouched.
pub proof fn lemma_resolve_props(acc: SpecObjAcc, k: VertexKey)
    requires
        spec_resolve(acc, k) is Ok,
        acc.keys.len() < usize::MAX,
    ensures
        ({
            let (acc2, idx) = spec_resolve(acc, k)->Ok_0;
            &&& acc.keys.len() <= acc2.keys.len() <= acc.keys.len() + 1
            &&& forall|j: int| 0 <= j < acc.keys.len() ==> acc2.keys[j] == acc.keys[j]
            &&& idx < acc2.keys.len()
            &&& acc2.keys[idx as int] == k
            &&& acc2.name == acc.name
            &&& acc2.mtl == acc.mtl
            &&& acc2.pos_table == acc.pos_table
            &&& acc2.uv_table == acc.uv_table
            &&& acc2.n_table == acc.n_table
            &&& acc2.faces == acc.faces
            &&& acc2.out_pos.len() == acc2.keys.len() - acc.keys.len() + acc.out_pos.len()
        }),
{
    lemma_key_find(acc.keys, k, 0);
}

/// Resolving a corner list appends at most one key per corner, returns one
/// dense index per corner, each index below the final key-table length and
/// naming a slot whose key is that corner's triple; tables, name, material
/// binding and faces are untouched. This is the deduplication law: corners
/// with equal triples receive equal dense indices, because each index names
/// the slot holding its triple and slots hold distinct triples when the
/// starting table is duplicate-free.
pub proof fn lemma_resolve_seq_props(acc: SpecObjAcc, ts: Seq<VertexKey>, i: int)
    requires
        spec_resolve_seq(acc, ts, i) is Ok,
        acc.keys.len() + (ts.len() - i) <= usize::MAX,
        0 <= i <= ts.len(),
    ensures
        ({
            let (acc2, idxs) = spec_resolve_seq(acc, ts, i)->Ok_0;
            &&& idxs.len() == ts.len() - i
            &&& acc.keys.len() <= acc2.keys.len() <= acc.keys.len() + (ts.len() - i)
            &&& forall|j: int| 0 <= j < acc.keys.len() ==> acc2.keys[j] == acc.keys[j]
            &&& forall|m: int|
                0 <= m < idxs.len() ==> idxs[m] < acc2.keys.len() && acc2.keys[idxs[m] as int]
                    == ts[i + m]
            &&& acc2.name == acc.name
            &&& acc2.mtl == acc.mtl
            &&& acc2.pos_table == acc.pos_table
            &&& acc2.uv_table == acc.uv_table
            &&& acc2.n_table == acc.n_table
            &&& acc2.faces == acc.faces
        }),
    decreases ts.len() - i,
{
    if i < ts.len() {
        let (acc1, idx) = spec_resolve(acc, ts[i])->Ok_0;
        lemma_resolve_props(acc, ts[i]);
        lemma_resolve_seq_props(acc1, ts, i + 1);
    }
}

/// The fan-triangulation law: a face of N corners (N at least 3) that loads
/// without error emits exactly N - 2 triangles after those already present;
/// triangle t is (d0, d(t+1), d(t+2)) over the corners' dense indices, so
/// every triangle reuses the first corner as the pivot and the source
/// winding order is preserved.
pub proof fn lemma_fan_triangulation(acc: SpecObjAcc, ts: Seq<VertexKey>)
    requires
        spec_face(acc, ts) is Ok,
        ts.len() >= 3,
        acc.keys.len() + ts.len() <= usize::MAX,
    ensures
        ({
            let acc2 = spec_face(acc, ts)->Ok_0;
            let (accr, idxs) = spec_resolve_seq(acc, ts, 0)->Ok_0;
            &&& idxs.len() == ts.len()
            &&& acc2.faces.len() == acc.faces.len() + ts.len() - 2
            &&& forall|t: int|
                0 <= t < acc.faces.len() ==> #[trigger] acc2.faces[t] == acc.faces[t]
            &&& forall|t: int|
                0 <= t < ts.len() - 2 ==> #[trigger] acc2.faces[acc.faces.len() + t] == (
                    idxs[0],
                    idxs[t + 1],
                    idxs[t + 2],
                )
        }),
{
    lemma_resolve_seq_props(acc, ts, 0);
    let (accr, idxs) = spec_resolve_seq(acc, ts, 0)->Ok_0;
    assert(spec_fan(idxs).len() == idxs.len() - 2);
    assert forall|t: int|
        0 <= t < ts.len() - 2 implies #[trigger] (accr.faces + spec_fan(idxs))[accr.faces.len()
        + t] == (idxs[0], idxs[t + 1], idxs[t + 2]) by {
        assert(spec_fan(idxs)[t] == (idxs[0], idxs[t + 1], idxs[t + 2]));
    }
}

/// The internal well-formedness of one accumulator: the deduplication table
/// holds pairwise distinct keys, the dense buffers run in step with it,
/// every key is in bounds for its attribute table, every dense entry is its
/// key's table lookup, and every emitted triangle corner names a dense slot.
pub open spec fn acc_inv(acc: SpecObjAcc) -> bool {
    &&& forall|j1: int, j2: int|
        0 <= j1 < j2 < acc.keys.len() ==> acc.keys[j1] != acc.keys[j2]
    &&& acc.out_pos.len() == acc.keys.len()
    &&& acc.out_uv.len() == acc.keys.len()
    &&& acc.out_n.len() == acc.keys.len()
    &&& forall|j: int|
        0 <= j < acc.keys.len() ==> (#[trigger] acc.keys[j]).position < acc.pos_table.len()
            && acc.keys[j].uv < acc.uv_table.len() && acc.keys[j].normal < acc.n_table.len()
    &&& forall|j: int|
        0 <= j < acc.keys.len() ==> #[trigger] acc.out_pos[j] == acc.pos_table[acc.keys[j].position as int]
            && acc.out_uv[j] == acc.uv_table[acc.keys[j].uv as int] && acc.out_n[j]
            == acc.n_table[acc.keys[j].normal as int]
    &&& forall|t: int|
        0 <= t < acc.faces.len() ==> (#[trigger] acc.faces[t]).0 < acc.keys.len()
            && acc.faces[t].1 < acc.keys.len() && acc.faces[t].2 < acc.keys.len()
}

/// The invariant of the geometry fold: every accumulator is well-formed and
/// object names are pairwise distinct.
pub open spec fn state_inv(st: SpecLoadState) -> bool {
    &&& forall|i: int| 0 <= i < st.objs.len() ==> acc_inv(#[trigger] st.objs[i])
    &&& forall|i1: int, i2: int|
        0 <= i1 < i2 < st.objs.len() ==> st.objs[i1].name != st.objs[i2].name
}

/// Resolving one corner preserves the accumulator's well-formedness, and
/// the returned slot is within the new table.
pub proof fn lemma_resolve_inv(acc: SpecObjAcc, k: VertexKey)
    requires
        acc_inv(acc),
        spec_resolve(acc, k) is Ok,
    ensures
        ({
            let (acc2, idx) = spec_resolve(acc, k)->Ok_0;
            &&& acc_inv(acc2)
            &&& acc.keys.len() <= acc2.keys.len()
            &&& idx < acc2.keys.len()
            &&& acc2.name == acc.name
            &&& acc2.mtl == acc.mtl
            &&& acc2.pos_table == acc.pos_table
            &&& acc2.uv_table == acc.uv_table
            &&& acc2.n_table == acc.n_table
            &&& acc2.faces == acc.faces
        }),
{
    lemma_key_find(acc.keys, k, 0);
}

/// Resolving a corner list preserves well-formedness; every returned slot
/// is within the final table.
pub proof fn lemma_resolve_seq_inv(acc: SpecObjAcc, ts: Seq<VertexKey>, i: int)
    requires
        acc_inv(acc),
        spec_resolve_seq(acc, ts, i) is Ok,
    ensures
        ({
            let (acc2, idxs) = spec_resolve_seq(acc, ts, i)->Ok_0;
            &&& acc_inv(acc2)
            &&& acc.keys.len() <= acc2.keys.len()
            &&& forall|m: int| 0 <= m < idxs.len() ==> idxs[m] < acc2.keys.len()
            &&& acc2.name == acc.name
            &&& acc2.mtl == acc.mtl
            &&& acc2.pos_table == acc.pos_table
            &&& acc2.uv_table == acc.uv_table
            &&& acc2.n_table == acc.n_table
            &&& acc2.faces == acc.faces
        }),
    decreases ts.len() - i,
{
    if 0 <= i < ts.len() {
        lemma_resolve_inv(acc, ts[i]);
        let (acc1, idx) = spec_resolve(acc, ts[i])->Ok_0;
        lemma_resolve_seq_inv(acc1, ts, i + 1);
    }
}

/// Processing a face preserves the accumulator's well-formedness. Together
/// with the key-distinctness conjunct of `acc_inv` this is the
/// deduplication law: a triple occupies at most one dense slot of the
/// vertex buffer, and every corner that references it is resolved to that
/// slot.
pub proof fn lemma_face_inv(acc: SpecObjAcc, ts: Seq<VertexKey>)
    requires
        acc_inv(acc),
        spec_face(acc, ts) is Ok,
    ensures
        ({
            let acc2 = spec_face(acc, ts)->Ok_0;
            &&& acc_inv(acc2)
            &&& acc2.name == acc.name
            &&& acc2.mtl == acc.mtl
        }),
{
    lemma_resolve_seq_inv(acc, ts, 0);
    let (accr, idxs) = spec_resolve_seq(acc, ts, 0)->Ok_0;
    let acc2 = spec_face(acc, ts)->Ok_0;
    assert forall|t: int|
        0 <= t < acc2.faces.len() implies (#[trigger] acc2.faces[t]).0 < acc2.keys.len()
        && acc2.faces[t].1 < acc2.keys.len() && acc2.faces[t].2 < acc2.keys.len() by {
        if t >= accr.faces.len() {
            assert(acc2.faces[t] == spec_fan(idxs)[t - accr.faces.len()]);
        }
    }
}

/// Growing the attribute tables (keeping their existing entries) preserves
/// an accumulator's well-formedness when nothing else changes.
proof fn lemma_acc_table_grow(acc: SpecObjAcc, acc2: SpecObjAcc)
    requires
        acc_inv(acc),
        acc2.keys == acc.keys,
        acc2.out_pos == acc.out_pos,
        acc2.out_uv == acc.out_uv,
        acc2.out_n == acc.out_n,
        acc2.faces == acc.faces,
        acc.pos_table.len() <= acc2.pos_table.len(),
        forall|j: int| 0 <= j < acc.pos_table.len() ==> acc2.pos_table[j] == acc.pos_table[j],
        acc.uv_table.len() <= acc2.uv_table.len(),
        forall|j: int| 0 <= j < acc.uv_table.len() ==> acc2.uv_table[j] == acc.uv_table[j],
        acc.n_table.len() <= acc2.n_table.len(),
        forall|j: int| 0 <= j < acc.n_table.len() ==> acc2.n_table[j] == acc.n_table[j],
    ensures
        acc_inv(acc2),
{
}

/// One fold step preserves the state invariant.
pub proof fn lemma_step_inv(st: SpecLoadState, d: SpecObjDirective, scale: u32, flip: bool)
    requires
        state_inv(st),
        spec_obj_step(st, d, scale, flip) is Ok,
    ensures
        state_inv(spec_obj_step(st, d, scale, flip)->Ok_0),
{
    let st2 = spec_obj_step(st, d, scale, flip)->Ok_0;
    match d {
        SpecObjDirective::Comment(_) => {},
        SpecObjDirective::Preprocess(fs) => {
            lemma_apply_flags_objs(st, fs, 0);
        },
        SpecObjDirective::Mtllib(_) => {},
        SpecObjDirective::O(n) => {
            assert(acc_inv(spec_empty_acc(n)));
            assert forall|i1: int, i2: int|
                0 <= i1 < i2 < st2.objs.len() implies st2.objs[i1].name != st2.objs[i2].name by {
                if i2 == st2.objs.len() - 1 {
                    assert(st.objs[i1].name != n);
                }
            }
        },
        SpecObjDirective::V(x, y, z) => {
            if acc_inv(st.objs.last()) {
                lemma_acc_table_grow(st.objs.last(), st2.objs.last());
            }
            lemma_update_last_inv(st, st2);
        },
        SpecObjDirective::Vt(u, w) => {
            if acc_inv(st.objs.last()) {
                lemma_acc_table_grow(st.objs.last(), st2.objs.last());
            }
            lemma_update_last_inv(st, st2);
        },
        SpecObjDirective::Vn(x, y, z) => {
            if acc_inv(st.objs.last()) {
                lemma_acc_table_grow(st.objs.last(), st2.objs.last());
            }
            lemma_update_last_inv(st, st2);
        },
        SpecObjDirective::Usemtl(m) => {
            lemma_update_last_inv(st, st2);
        },
        SpecObjDirective::F(ts) => {
            lemma_face_inv(st.objs.last(), ts);
            lemma_update_last_inv(st, st2);
        },
    }
}

/// Applying preprocessor flags leaves the objects untouched.
pub proof fn lemma_apply_flags_objs(st: SpecLoadState, fs: Seq<Seq<u8>>, i: int)
    requires
        crate::loader::spec_apply_flags(st, fs, i) is Ok,
    ensures
        (crate::loader::spec_apply_flags(st, fs, i)->Ok_0).objs == st.objs,
    decreases fs.len() - i,
{
    if !(i < 0 || i >= fs.len()) {
        if crate::loader::is_check_cull(fs[i]) {
            lemma_apply_flags_objs(SpecLoadState { cull: true, ..st }, fs, i + 1);
        }
    }
}

/// A state whose last accumulator was replaced by a well-formed one of the
/// same name keeps the invariant.
proof fn lemma_update_last_inv(st: SpecLoadState, st2: SpecLoadState)
    requires
        state_inv(st),
        st.objs.len() > 0,
        st2.objs.len() == st.objs.len(),
        forall|i: int| 0 <= i < st.objs.len() - 1 ==> st2.objs[i] == st.objs[i],
        st2.objs.last().name == st.objs.last().name,
        acc_inv(st.objs.last()) ==> acc_inv(st2.objs.last()),
    ensures
        state_inv(st2),
{
    assert(acc_inv(st.objs[st.objs.len() - 1]));
}

/// The geometry fold maintains its invariant from any well-formed state.
pub proof fn lemma_run_inv(
    dirs: Seq<SpecObjDirective>,
    i: int,
    st: SpecLoadState,
    scale: u32,
    flip: bool,
)
    requires
        state_inv(st),
        spec_run_obj(dirs, i, st, scale, flip) is Ok,
    ensures
        state_inv(spec_run_obj(dirs, i, st, scale, flip)->Ok_0),
    decreases dirs.len() - i,
{
    if !(i < 0 || i >= dirs.len()) {
        lemma_step_inv(st, dirs[i], scale, flip);
        lemma_run_inv(dirs, i + 1, spec_obj_step(st, dirs[i], scale, flip)->Ok_0, scale, flip);
    }
}

/// The state reached by a whole successful fold is well-formed: in every
/// object the deduplicated triples are pairwise distinct (the dense vertex
/// buffer holds exactly one entry per referenced triple), every key is
/// within its attribute tables, every dense entry is its key's lookup,
/// every triangle corner names a dense slot, and object names are pairwise
/// distinct.
pub proof fn lemma_fold_state_inv(dirs: Seq<SpecObjDirective>, scale: u32, flip: bool)
    requires
        spec_run_obj(dirs, 0, spec_init_state(), scale, flip) is Ok,
    ensures
        state_inv(spec_run_obj(dirs, 0, spec_init_state(), scale, flip)->Ok_0),
{
    lemma_run_inv(dirs, 0, spec_init_state(), scale, flip);
}

/// What finalizing yields: one output object per accumulator, in order,
/// projecting its name, material binding, dense buffers and triangles.
pub proof fn lemma_collect_props(accs: Seq<SpecObjAcc>, i: int)
    requires
        crate::loader::spec_collect_objs(accs, i) is Ok,
        0 <= i <= accs.len(),
    ensures
        ({
            let objs = crate::loader::spec_collect_objs(accs, i)->Ok_0;
            &&& objs.len() == accs.len() - i
            &&& forall|m: int|
                0 <= m < objs.len() ==> (#[trigger] objs[m]).name == accs[i + m].name
                    && accs[i + m].mtl == Some(objs[m].material_key) && objs[m].positions
                    == accs[i + m].out_pos && objs[m].uvs == accs[i + m].out_uv && objs[m].normals
                    == accs[i + m].out_n && objs[m].faces == accs[i + m].faces
        }),
    decreases accs.len() - i,
{
    if i < accs.len() {
        lemma_collect_props(accs, i + 1);
    }
}

/// The index-validity and deduplication law, on the loader's output: in a
/// geometry that loads without error, every object's three dense buffers
/// have one entry per deduplicated triple, and every triangle corner is a
/// valid 0-based index into them; and the uniqueness law: object names are
/// pairwise distinct.
pub proof fn lemma_interp_obj_wf(dirs: Seq<SpecObjDirective>, scale: u32, flip: bool)
    requires
        spec_interp_obj(dirs, scale, flip) is Ok,
    ensures
        ({
            let g = spec_interp_obj(dirs, scale, flip)->Ok_0;
            &&& forall|m: int|
                0 <= m < g.objects.len() ==> {
                    let ob = #[trigger] g.objects[m];
                    &&& ob.uvs.len() == ob.positions.len()
                    &&& ob.normals.len() == ob.positions.len()
                    &&& forall|t: int|
                        0 <= t < ob.faces.len() ==> (#[trigger] ob.faces[t]).0
                            < ob.positions.len() && ob.faces[t].1 < ob.positions.len()
                            && ob.faces[t].2 < ob.positions.len()
                }
            &&& forall|m1: int, m2: int|
                0 <= m1 < m2 < g.objects.len() ==> g.objects[m1].name != g.objects[m2].name
        }),
{
    let st = spec_run_obj(dirs, 0, spec_init_state(), scale, flip)->Ok_0;
    lemma_fold_state_inv(dirs, scale, flip);
    lemma_collect_props(st.objs, 0);
}

/// Whether a directive needs an open object.
pub open spec fn needs_object(d: SpecObjDirective) -> bool {
    match d {
        SpecObjDirective::V(_, _, _) => true,
        SpecObjDirective::Vt(_, _) => true,
        SpecObjDirective::Vn(_, _, _) => true,
        SpecObjDirective::Usemtl(_) => true,
        SpecObjDirective::F(_) => true,
        _ => false,
    }
}

/// Helper induction for the missing-context law.
proof fn lemma_context_from(
    dirs: Seq<SpecObjDirective>,
    i: int,
    st: SpecLoadState,
    scale: u32,
    flip: bool,
)
    requires
        0 <= i <= dirs.len(),
        st.objs.len() == 0,
        spec_run_obj(dirs, i, st, scale, flip) is Ok,
    ensures
        forall|m: int|
            i <= m < dirs.len() && needs_object(#[trigger] dirs[m]) ==> exists|j: int|
                i <= j < m && (#[trigger] dirs[j]) is O,
    decreases dirs.len() - i,
{
    if i < dirs.len() {
        let st2 = spec_obj_step(st, dirs[i], scale, flip)->Ok_0;
        assert(!needs_object(dirs[i]));
        if dirs[i] is O {
        } else {
            match dirs[i] {
                SpecObjDirective::Preprocess(fs) => {
                    lemma_apply_flags_objs(st, fs, 0);
                },
                _ => {},
            }
            assert(st2.objs.len() == 0);
            lemma_context_from(dirs, i + 1, st2, scale, flip);
            assert forall|m: int|
                i <= m < dirs.len() && needs_object(#[trigger] dirs[m]) implies exists|j: int|
                i <= j < m && (#[trigger] dirs[j]) is O by {
                assert(m > i);
                let j0 = choose|j: int| i + 1 <= j < m && (#[trigger] dirs[j]) is O;
                assert(i <= j0 < m && dirs[j0] is O);
            }
        }
    }
}

/// The missing-context law: in a directive stream that loads without error,
/// every directive that acts on the open object (vertex data, a material
/// binding, or a face) is preceded by an object start.
pub proof fn lemma_missing_context(dirs: Seq<SpecObjDirective>, scale: u32, flip: bool)
    requires
        spec_run_obj(dirs, 0, spec_init_state(), scale, flip) is Ok,
    ensures
        forall|m: int|
            0 <= m < dirs.len() && needs_object(#[trigger] dirs[m]) ==> exists|j: int|
                0 <= j < m && (#[trigger] dirs[j]) is O,
{
    lemma_context_from(dirs, 0, spec_init_state(), scale, flip);
}

/// The material-uniqueness law: a material list built by a successful fold
/// has pairwise distinct names.
pub proof fn lemma_mtl_names_unique(
    dirs: Seq<crate::parser::SpecMtlDirective>,
    i: int,
    ms: Seq<crate::def::SpecMtl>,
)
    requires
        spec_run_mtl(dirs, i, ms) is Ok,
        forall|i1: int, i2: int| 0 <= i1 < i2 < ms.len() ==> ms[i1].name != ms[i2].name,
    ensures
        ({
            let ms2 = spec_run_mtl(dirs, i, ms)->Ok_0;
            forall|i1: int, i2: int| 0 <= i1 < i2 < ms2.len() ==> ms2[i1].name != ms2[i2].name
        }),
    decreases dirs.len() - i,
{
    if !(i < 0 || i >= dirs.len()) {
        let ms2 = spec_mtl_step(ms, dirs[i])->Ok_0;
        match dirs[i] {
            crate::parser::SpecMtlDirective::Comment(_) => {},
            crate::parser::SpecMtlDirective::Newmtl(n) => {
                assert forall|i1: int, i2: int|
                    0 <= i1 < i2 < ms2.len() implies ms2[i1].name != ms2[i2].name by {
                    if i2 == ms2.len() - 1 {
                        assert(ms[i1].name != n);
                    }
                }
            },
            crate::parser::SpecMtlDirective::MapKd(_) => {},
        }
        lemma_mtl_names_unique(dirs, i + 1, ms2);
    }
}

/// The cross-reference law: the bind step succeeds exactly when every
/// object's bound material name is defined in the material list.
pub proof fn lemma_bound_all(
    objs: Seq<crate::def::SpecObj>,
    ms: Seq<crate::def::SpecMtl>,
    i: int,
)
    requires
        0 <= i <= objs.len(),
    ensures
        crate::loader::spec_first_unbound(objs, ms, i) is None <==> forall|m: int|
            i <= m < objs.len() ==> crate::loader::spec_mtl_taken(
                ms,
                (#[trigger] objs[m]).material_key,
            ),
    decreases objs.len() - i,
{
    if i < objs.len() {
        lemma_bound_all(objs, ms, i + 1);
    }
}

/// The deduplication law, stated directly: two corners of one face that
/// reference the identical (position, uv, normal) triple resolve to the
/// identical dense slot of the vertex buffer.
pub proof fn lemma_dedup_same_slot(acc: SpecObjAcc, ts: Seq<VertexKey>, m1: int, m2: int)
    requires
        acc_inv(acc),
        spec_resolve_seq(acc, ts, 0) is Ok,
        acc.keys.len() + ts.len() <= usize::MAX,
        0 <= m1 < ts.len(),
        0 <= m2 < ts.len(),
        ts[m1] == ts[m2],
    ensures
        ({
            let (acc2, idxs) = spec_resolve_seq(acc, ts, 0)->Ok_0;
            idxs[m1] == idxs[m2]
        }),
{
    lemma_resolve_seq_props(acc, ts, 0);
    lemma_resolve_seq_inv(acc, ts, 0);
    let (acc2, idxs) = spec_resolve_seq(acc, ts, 0)->Ok_0;
    assert(acc2.keys[idxs[m1] as int] == ts[m1]);
    assert(acc2.keys[idxs[m2] as int] == ts[m2]);
    if idxs[m1] != idxs[m2] {
        assert(acc2.keys[idxs[m1] as int] != acc2.keys[idxs[m2] as int]);
    }
}

} // verus!
