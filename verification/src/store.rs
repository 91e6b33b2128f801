//! The store: the runtime-visible table of function definitions built
//! from a decoded module, extended at the front of the function index
//! space by the caller-supplied import declarations. Immutable after
//! construction.

use crate::error::RuntimeError;
use crate::instruction::Instruction;
use crate::module::{func_types_view, functions_view, FunctionV, Module, ModuleV};
use crate::types::{FuncType, FuncTypeV, FunctionLocal, ValueType};
use vstd::prelude::*;

verus! {

/// A caller-supplied import declaration: the (module name, field name)
/// pair a `Call` resolves through the host bridge, and the signature the
/// import is declared with.
#[derive(Debug, Clone, PartialEq, Eq)]
pub struct ImportDecl {
    pub module_name: String,
    pub field_name: String,
    pub func_type: FuncType,
}

/// The mathematical model of an [`ImportDecl`].
#[verifier::ext_equal]
pub ghost struct ImportDeclV {
    pub module_name: Seq<char>,
    pub field_name: Seq<char>,
    pub func_type: FuncTypeV,
}

impl View for ImportDecl {
    type V = ImportDeclV;

    open spec fn view(&self) -> ImportDeclV {
        ImportDeclV {
            module_name: self.module_name@,
            field_name: self.field_name@,
            func_type: self.func_type@,
        }
    }
}

/// One entry of the function index space: either an internally defined
/// function (signature, expanded locals, body) or an externally supplied
/// host import reached by name.
#[derive(Debug, Clone, PartialEq, Eq)]
pub enum FuncInst {
    Internal { func_type: FuncType, locals: Vec<ValueType>, body: Vec<Instruction> },
    External { module_name: String, field_name: String, func_type: FuncType },
}

/// The mathematical model of a [`FuncInst`].
#[verifier::ext_equal]
pub ghost enum FuncInstV {
    Internal { func_type: FuncTypeV, locals: Seq<ValueType>, body: Seq<Instruction> },
    External { module_name: Seq<char>, field_name: Seq<char>, func_type: FuncTypeV },
}

impl View for FuncInst {
    type V = FuncInstV;

    open spec fn view(&self) -> FuncInstV {
        match self {
            FuncInst::Internal { func_type, locals, body } => FuncInstV::Internal {
                func_type: func_type@,
                locals: locals@,
                body: body@,
            },
            FuncInst::External { module_name, field_name, func_type } => FuncInstV::External {
                module_name: module_name@,
                field_name: field_name@,
                func_type: func_type@,
            },
        }
    }
}

impl FuncInstV {
    /// The signature of a function, wherever it is defined.
    pub open spec fn ty(self) -> FuncTypeV {
        match self {
            FuncInstV::Internal { func_type, .. } => func_type,
            FuncInstV::External { func_type, .. } => func_type,
        }
    }
}

/// The models of a list of function instances, in order.
pub open spec fn func_insts_view(v: Seq<FuncInst>) -> Seq<FuncInstV> {
    v.map_values(|f: FuncInst| f@)
}

/// The models of a list of import declarations, in order.
pub open spec fn import_decls_view(v: Seq<ImportDecl>) -> Seq<ImportDeclV> {
    v.map_values(|d: ImportDecl| d@)
}

/// The external entries an import list contributes to the front of the
/// function index space, in order.
pub open spec fn externals_of(imports: Seq<ImportDeclV>) -> Seq<FuncInstV> {
    imports.map_values(
        |d: ImportDeclV| FuncInstV::External {
            module_name: d.module_name,
            field_name: d.field_name,
            func_type: d.func_type,
        },
    )
}

/// The type-section entries of a module, empty when the section is
/// absent.
pub open spec fn spec_types_of(m: ModuleV) -> Seq<FuncTypeV> {
    match m.type_section {
        Some(ts) => ts,
        None => Seq::<FuncTypeV>::empty(),
    }
}

/// The function-section entries of a module, empty when the section is
/// absent.
pub open spec fn spec_indices_of(m: ModuleV) -> Seq<u32> {
    match m.function_section {
        Some(fs) => fs,
        None => Seq::<u32>::empty(),
    }
}

/// The code-section entries of a module, empty when the section is
/// absent.
pub open spec fn spec_bodies_of(m: ModuleV) -> Seq<FunctionV> {
    match m.code_section {
        Some(cs) => cs,
        None => Seq::<FunctionV>::empty(),
    }
}

/// The value type `vt`, repeated `n` times.
pub open spec fn spec_repeat(vt: ValueType, n: nat) -> Seq<ValueType> {
    Seq::new(n, |i: int| vt)
}

/// The flat local list a run-length-encoded group list declares: each
/// group's type, repeated its `type_count` times, in declaration order.
pub open spec fn spec_expand_locals(groups: Seq<FunctionLocal>) -> Seq<ValueType>
    decreases groups.len(),
{
    if groups.len() == 0 {
        Seq::empty()
    } else {
        spec_repeat(groups[0].value_type, groups[0].type_count as nat) + spec_expand_locals(
            groups.drop_first(),
        )
    }
}

/// The internal entries the function and code sections define: entry `j`
/// pairs function-section index `j` (a type-section lookup) with
/// code-section body `j`.
pub open spec fn spec_internals(ts: Seq<FuncTypeV>, fs: Seq<u32>, cs: Seq<FunctionV>) -> Seq<
    FuncInstV,
> {
    Seq::new(
        fs.len(),
        |j: int| FuncInstV::Internal {
            func_type: ts[fs[j] as int],
            locals: spec_expand_locals(cs[j].locals),
            body: cs[j].code,
        },
    )
}

/// The function index space a module and an import list build: the
/// imports first, then the internal functions. `None` when the function
/// and code sections disagree in length or a type index is out of range.
pub open spec fn spec_build(m: ModuleV, imports: Seq<ImportDeclV>) -> Option<Seq<FuncInstV>> {
    let ts = spec_types_of(m);
    let fs = spec_indices_of(m);
    let cs = spec_bodies_of(m);
    if fs.len() != cs.len() {
        None
    } else if exists|j: int| 0 <= j < fs.len() && fs[j] >= ts.len() {
        None
    } else {
        Some(externals_of(imports) + spec_internals(ts, fs, cs))
    }
}

/// Expands a run-length-encoded local-group list into the flat list of
/// declared local types.
pub fn expand_locals(groups: &Vec<FunctionLocal>) -> (r: Vec<ValueType>)
    ensures
        r@ == spec_expand_locals(groups@),
{
    let mut out: Vec<ValueType> = Vec::new();
    let mut i: usize = 0;
    proof {
        assert(groups@.skip(0) =~= groups@);
        assert(out@ + spec_expand_locals(groups@) =~= spec_expand_locals(groups@));
    }
    while i < groups.len()
        invariant
            i <= groups@.len(),
            out@ + spec_expand_locals(groups@.skip(i as int)) == spec_expand_locals(groups@),
        decreases groups@.len() - i,
    {
        let g = groups[i];
        let ghost before = out@;
        proof {
            assert(out@ =~= before + spec_repeat(g.value_type, 0));
        }
        let mut j: u32 = 0;
        while j < g.type_count
            invariant
                j <= g.type_count,
                out@ == before + spec_repeat(g.value_type, j as nat),
            decreases g.type_count - j,
        {
            out.push(g.value_type);
            proof {
                assert(out@ =~= before + spec_repeat(g.value_type, j as nat + 1));
            }
            j = j + 1;
        }
        proof {
            let tail = groups@.skip(i as int);
            assert(tail.drop_first() =~= groups@.skip(i as int + 1));
            assert(tail[0] == groups@[i as int]);
            assert(spec_expand_locals(tail) == spec_repeat(g.value_type, g.type_count as nat)
                + spec_expand_locals(groups@.skip(i as int + 1)));
            assert(out@ + spec_expand_locals(groups@.skip(i as int + 1)) =~= before + (spec_repeat(
                g.value_type,
                g.type_count as nat,
            ) + spec_expand_locals(groups@.skip(i as int + 1))));
        }
        i = i + 1;
    }
    proof {
        assert(groups@.skip(groups@.len() as int) =~= Seq::<FunctionLocal>::empty());
        assert(out@ =~= out@ + spec_expand_locals(Seq::<FunctionLocal>::empty()));
    }
    out
}

/// Copies a list of value types.
pub(crate) fn copy_value_types(v: &Vec<ValueType>) -> (r: Vec<ValueType>)
    ensures
        r@ == v@,
{
    let mut r: Vec<ValueType> = Vec::new();
    let mut i: usize = 0;
    while i < v.len()
        invariant
            i <= v@.len(),
            r@ == v@.take(i as int),
        decreases v@.len() - i,
    {
        r.push(v[i]);
        proof {
            assert(r@ =~= v@.take(i as int + 1));
        }
        i = i + 1;
    }
    proof {
        assert(v@.take(v@.len() as int) =~= v@);
    }
    r
}

/// Copies a list of instructions.
pub(crate) fn copy_instructions(v: &Vec<Instruction>) -> (r: Vec<Instruction>)
    ensures
        r@ == v@,
{
    let mut r: Vec<Instruction> = Vec::new();
    let mut i: usize = 0;
    while i < v.len()
        invariant
            i <= v@.len(),
            r@ == v@.take(i as int),
        decreases v@.len() - i,
    {
        r.push(v[i]);
        proof {
            assert(r@ =~= v@.take(i as int + 1));
        }
        i = i + 1;
    }
    proof {
        assert(v@.take(v@.len() as int) =~= v@);
    }
    r
}

/// Copies a function signature.
pub fn copy_func_type(ft: &FuncType) -> (r: FuncType)
    ensures
        r@ == ft@,
{
    FuncType { params: copy_value_types(&ft.params), results: copy_value_types(&ft.results) }
}

/// The store: the decoded module's function definitions, indexable by
/// function index, with imports at the front of the index space.
#[derive(Debug)]
pub struct Store {
    pub funcs: Vec<FuncInst>,
}

impl View for Store {
    type V = Seq<FuncInstV>;

    open spec fn view(&self) -> Seq<FuncInstV> {
        func_insts_view(self.funcs@)
    }
}

impl Store {
    /// Builds the store from a decoded module and the import
    /// declarations the embedder supplies. Fails with `OutOfRange`
    /// exactly when the function and code sections disagree in length or
    /// a function's type index has no type-section entry.
    pub fn build(module: &Module, imports: Vec<ImportDecl>) -> (r: Result<Store, RuntimeError>)
        ensures
            match r {
                Ok(store) => spec_build(module@, import_decls_view(imports@)) == Some(store@),
                Err(e) => spec_build(module@, import_decls_view(imports@)) is None && e
                    == RuntimeError::OutOfRange,
            },
    {
        let empty_types: Vec<FuncType> = Vec::new();
        let empty_indices: Vec<u32> = Vec::new();
        let empty_bodies: Vec<crate::module::Function> = Vec::new();
        proof {
            assert(func_types_view(empty_types@) =~= Seq::<FuncTypeV>::empty());
            assert(functions_view(empty_bodies@) =~= Seq::<FunctionV>::empty());
        }
        let ts: &Vec<FuncType> = match &module.type_section {
            Some(ts) => ts,
            None => &empty_types,
        };
        let fs: &Vec<u32> = match &module.function_section {
            Some(fs) => fs,
            None => &empty_indices,
        };
        let cs: &Vec<crate::module::Function> = match &module.code_section {
            Some(cs) => cs,
            None => &empty_bodies,
        };
        let ghost tsv = spec_types_of(module@);
        let ghost fsv = spec_indices_of(module@);
        let ghost csv = spec_bodies_of(module@);
        let ghost importsv = import_decls_view(imports@);
        proof {
            assert(tsv == func_types_view(ts@));
            assert(fsv == fs@);
            assert(csv == functions_view(cs@));
        }
        if fs.len() != cs.len() {
            return Err(RuntimeError::OutOfRange);
        }
        let mut funcs: Vec<FuncInst> = Vec::new();
        let mut i: usize = 0;
        proof {
            assert(func_insts_view(funcs@) =~= externals_of(importsv.take(0)));
        }
        while i < imports.len()
            invariant
                i <= imports@.len(),
                importsv == import_decls_view(imports@),
                func_insts_view(funcs@) == externals_of(importsv.take(i as int)),
            decreases imports@.len() - i,
        {
            let d = &imports[i];
            let ghost prev = funcs@;
            funcs.push(
                FuncInst::External {
                    module_name: d.module_name.clone(),
                    field_name: d.field_name.clone(),
                    func_type: copy_func_type(&d.func_type),
                },
            );
            proof {
                let lhs = func_insts_view(funcs@);
                let rhs = externals_of(importsv.take(i as int + 1));
                assert(funcs@ == prev.push(funcs@.last()));
                assert(funcs@.len() == prev.len() + 1);
                assert(func_insts_view(prev).len() == prev.len());
                assert(importsv.len() == imports@.len());
                assert(importsv.take(i as int).len() == i as int);
                assert(prev.len() == i as int);
                assert(lhs.len() == i + 1);
                assert(rhs.len() == i + 1);
                assert forall|k: int| 0 <= k < i as int + 1 implies lhs[k] == rhs[k] by {
                    assert(rhs[k] == externals_of(importsv)[k]);
                    if k < i as int {
                        assert(funcs@[k] == prev[k]);
                        assert(lhs[k] == func_insts_view(prev)[k]);
                        assert(func_insts_view(prev)[k] == externals_of(
                            importsv.take(i as int),
                        )[k]);
                        assert(externals_of(importsv.take(i as int))[k] == externals_of(
                            importsv,
                        )[k]);
                    } else {
                        assert(funcs@[k] == funcs@.last());
                        assert(importsv[k] == imports@[k]@);
                    }
                }
                assert(lhs =~= rhs);
            }
            i = i + 1;
        }
        let ghost ext_part = externals_of(importsv);
        proof {
            assert(importsv.take(importsv.len() as int) =~= importsv);
        }
        let mut j: usize = 0;
        while j < fs.len()
            invariant
                j <= fs@.len(),
                fs@.len() == cs@.len(),
                tsv == spec_types_of(module@) && tsv == func_types_view(ts@),
                fsv == spec_indices_of(module@) && fsv == fs@,
                csv == spec_bodies_of(module@) && csv == functions_view(cs@),
                importsv == import_decls_view(imports@),
                ext_part == externals_of(importsv),
                forall|k: int| 0 <= k < j ==> fsv[k] < tsv.len(),
                func_insts_view(funcs@) == ext_part + spec_internals(tsv, fsv.take(j as int), csv),
            decreases fs@.len() - j,
        {
            let type_idx = fs[j];
            if (type_idx as usize) >= ts.len() {
                proof {
                    assert(fsv[j as int] >= tsv.len());
                }
                return Err(RuntimeError::OutOfRange);
            }
            let func_type = copy_func_type(&ts[type_idx as usize]);
            let body = &cs[j];
            let locals = expand_locals(&body.locals);
            let code = copy_instructions(&body.code);
            let ghost prev = funcs@;
            funcs.push(FuncInst::Internal { func_type, locals, body: code });
            proof {
                let lhs = func_insts_view(funcs@);
                let rhs = ext_part + spec_internals(tsv, fsv.take(j as int + 1), csv);
                let prev_rhs = ext_part + spec_internals(tsv, fsv.take(j as int), csv);
                assert(funcs@ == prev.push(funcs@.last()));
                assert(funcs@.len() == prev.len() + 1);
                assert(func_insts_view(prev).len() == prev.len());
                assert(spec_internals(tsv, fsv.take(j as int), csv).len() == j as int);
                assert(spec_internals(tsv, fsv.take(j as int + 1), csv).len() == j as int + 1);
                assert(prev.len() == ext_part.len() + j as int);
                assert(lhs.len() == rhs.len());
                assert forall|k: int| 0 <= k < lhs.len() implies lhs[k] == rhs[k] by {
                    if k < prev.len() {
                        assert(funcs@[k] == prev[k]);
                        assert(lhs[k] == func_insts_view(prev)[k]);
                        assert(func_insts_view(prev)[k] == prev_rhs[k]);
                        if k >= ext_part.len() {
                            assert(prev_rhs[k] == spec_internals(tsv, fsv.take(j as int), csv)[k
                                - ext_part.len()]);
                            assert(rhs[k] == spec_internals(tsv, fsv.take(j as int + 1), csv)[k
                                - ext_part.len()]);
                            assert(fsv.take(j as int)[k - ext_part.len()] == fsv.take(
                                j as int + 1,
                            )[k - ext_part.len()]);
                        }
                    } else {
                        assert(funcs@[k] == funcs@.last());
                        assert(rhs[k] == spec_internals(
                            tsv,
                            fsv.take(j as int + 1),
                            csv,
                        )[j as int]);
                        assert(fsv.take(j as int + 1)[j as int] == fsv[j as int]);
                    }
                }
                assert(lhs =~= rhs);
            }
            j = j + 1;
        }
        let store = Store { funcs };
        proof {
            assert(fsv.take(fsv.len() as int) =~= fsv);
            assert(!(exists|k: int| 0 <= k < fsv.len() && fsv[k] >= tsv.len()));
            assert(store@ == ext_part + spec_internals(tsv, fsv, csv));
        }
        Ok(store)
    }

    /// The number of entries in the function index space.
    pub fn func_count(&self) -> (r: usize)
        ensures
            r == self@.len(),
    {
        self.funcs.len()
    }

    /// Looks up the function definition at `idx`; `OutOfRange` exactly
    /// when the index has no entry.
    pub fn get_func(&self, idx: u32) -> (r: Result<&FuncInst, RuntimeError>)
        ensures
            match r {
                Ok(f) => idx < self@.len() && f@ == self@[idx as int],
                Err(e) => idx >= self@.len() && e == RuntimeError::OutOfRange,
            },
    {
        if (idx as usize) < self.funcs.len() {
            Ok(&self.funcs[idx as usize])
        } else {
            Err(RuntimeError::OutOfRange)
        }
    }
}

} // verus!
