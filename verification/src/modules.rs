//! Modules, files, and the per-file import table.
//!
//! A module is a flat list of files sharing one namespace; the registry maps
//! absolute module paths to modules. Each file carries its import table,
//! built once from its import declarations: a name may be importable from
//! several module paths (`use a.b.x` and `use a.c.x` both bring `x` in), and
//! that ambiguity is preserved here, not resolved.

use crate::ast::{Import, Item, Selection};
use crate::ids::{IdPath, IdPathModel, SymbolId, SymbolIdModel};
use vstd::prelude::*;

verus! {

// ---------------------------------------------------------------------------
// Dependency map
// ---------------------------------------------------------------------------

/// The mapping from a library name to its absolute module path, supplied by
/// the project collaborator before resolution begins.
pub type DepMap = Vec<(String, IdPath)>;

/// First path recorded under `name`.
pub open spec fn dep_lookup(d: Seq<(String, IdPath)>, name: Seq<char>) -> Option<IdPathModel>
    decreases d.len(),
{
    if d.len() == 0 {
        None
    } else if d[0].0@ == name {
        Some(d[0].1.deep_view())
    } else {
        dep_lookup(d.drop_first(), name)
    }
}

/// Every library path in the map is nonempty.
pub open spec fn depmap_wf(d: Seq<(String, IdPath)>) -> bool {
    forall|i: int| 0 <= i < d.len() ==> d[i].1@.len() >= 1
}

/// Looks a library name up in the dependency map.
pub fn depmap_get<'a>(d: &'a DepMap, name: &String) -> (r: Option<&'a IdPath>)
    ensures
        match r {
            Some(p) => dep_lookup(d@, name@) == Some(p.deep_view()),
            None => dep_lookup(d@, name@) is None,
        },
{
    let mut i: usize = 0;
    proof {
        assert(d@.skip(0) =~= d@);
    }
    while i < d.len()
        invariant
            i <= d@.len(),
            dep_lookup(d@, name@) == dep_lookup(d@.skip(i as int), name@),
        decreases d@.len() - i,
    {
        proof {
            assert(d@.skip(i as int)[0] == d@[i as int]);
            assert(d@.skip(i as int).drop_first() =~= d@.skip(i as int + 1));
        }
        if d[i].0 == *name {
            return Some(&d[i].1);
        }
        i = i + 1;
    }
    None
}

// ---------------------------------------------------------------------------
// Import table
// ---------------------------------------------------------------------------

/// Abstract import table: names paired with the module paths they may come
/// from, in first-appearance order.
pub type TableModel = Seq<(Seq<char>, Seq<IdPathModel>)>;

/// The paths recorded under `name`.
pub open spec fn table_lookup(m: TableModel, name: Seq<char>) -> Option<Seq<IdPathModel>>
    decreases m.len(),
{
    if m.len() == 0 {
        None
    } else if m[0].0 == name {
        Some(m[0].1)
    } else {
        table_lookup(m.drop_first(), name)
    }
}

/// Adding a path under a name: appended to the name's entry, or a fresh
/// entry at the end.
pub open spec fn table_add(m: TableModel, name: Seq<char>, path: IdPathModel) -> TableModel
    decreases m.len(),
{
    if m.len() == 0 {
        seq![(name, seq![path])]
    } else if m[0].0 == name {
        seq![(m[0].0, m[0].1.push(path))] + m.drop_first()
    } else {
        seq![m[0]] + table_add(m.drop_first(), name, path)
    }
}

/// Per-file table mapping an imported name to the module paths it may
/// originate from.
#[derive(Debug)]
pub struct ImportTable {
    entries: Vec<(String, Vec<IdPath>)>,
}

impl ImportTable {
    pub closed spec fn model(&self) -> TableModel {
        Seq::new(
            self.entries@.len(),
            |i: int| (self.entries@[i].0@, self.entries@[i].1.deep_view()),
        )
    }

    /// Creates an empty table.
    pub fn new() -> (t: ImportTable)
        ensures
            t.model() == Seq::<(Seq<char>, Seq<IdPathModel>)>::empty(),
    {
        let t = ImportTable { entries: Vec::new() };
        proof {
            assert(t.model() =~= Seq::<(Seq<char>, Seq<IdPathModel>)>::empty());
        }
        t
    }

    /// Records that `name` may originate from `path`.
    pub fn add(&mut self, name: String, path: IdPath)
        ensures
            final(self).model() == table_add(old(self).model(), name@, path.deep_view()),
    {
        let mut i: usize = 0;
        while i < self.entries.len()
            invariant
                i <= self.entries@.len(),
                self.entries@ == old(self).entries@,
                forall|j: int| 0 <= j < i ==> self.model()[j].0 != name@,
            decreases self.entries@.len() - i,
        {
            if self.entries[i].0 == name {
                let ghost pre = self.model();
                self.entries[i].1.push(path);
                proof {
                    lemma_table_add_at(pre, name@, path.deep_view(), i as int);
                    assert(self.entries@[i as int].1.deep_view() =~= pre[i as int].1.push(
                        path.deep_view(),
                    ));
                    assert(self.model() =~= pre.update(
                        i as int,
                        (pre[i as int].0, pre[i as int].1.push(path.deep_view())),
                    ));
                }
                return ;
            }
            i = i + 1;
        }
        let ghost pre = self.model();
        self.entries.push((name, Vec::new()));
        let n = self.entries.len();
        self.entries[n - 1].1.push(path);
        proof {
            lemma_table_add_fresh(pre, name@, path.deep_view());
            assert(self.entries@[n as int - 1].1.deep_view() =~= seq![path.deep_view()]);
            assert(self.model() =~= pre.push((name@, seq![path.deep_view()])));
        }
    }

    /// The module paths recorded under `name`.
    pub fn get<'a>(&'a self, name: &String) -> (r: Option<&'a Vec<IdPath>>)
        ensures
            match r {
                Some(ps) => table_lookup(self.model(), name@) == Some(ps.deep_view()),
                None => table_lookup(self.model(), name@) is None,
            },
    {
        let mut i: usize = 0;
        proof {
            assert(self.model().skip(0) =~= self.model());
        }
        while i < self.entries.len()
            invariant
                i <= self.entries@.len(),
                table_lookup(self.model(), name@) == table_lookup(
                    self.model().skip(i as int),
                    name@,
                ),
            decreases self.entries@.len() - i,
        {
            proof {
                assert(self.model().skip(i as int)[0] == self.model()[i as int]);
                assert(self.model().skip(i as int).drop_first() =~= self.model().skip(
                    i as int + 1,
                ));
            }
            if self.entries[i].0 == *name {
                return Some(&self.entries[i].1);
            }
            i = i + 1;
        }
        None
    }
}

/// `table_add` on a table whose first match for `name` sits at `i` updates
/// exactly that entry.
pub proof fn lemma_table_add_at(m: TableModel, name: Seq<char>, path: IdPathModel, i: int)
    requires
        0 <= i < m.len(),
        m[i].0 == name,
        forall|j: int| 0 <= j < i ==> m[j].0 != name,
    ensures
        table_add(m, name, path) =~= m.update(i, (m[i].0, m[i].1.push(path))),
    decreases i,
{
    if i == 0 {
        assert(table_add(m, name, path) =~= m.update(0, (m[0].0, m[0].1.push(path))));
    } else {
        lemma_table_add_at(m.drop_first(), name, path, i - 1);
        assert(table_add(m, name, path) =~= seq![m[0]] + m.drop_first().update(
            i - 1,
            (m[i].0, m[i].1.push(path)),
        ));
        assert(seq![m[0]] + m.drop_first().update(i - 1, (m[i].0, m[i].1.push(path))) =~= m.update(
            i,
            (m[i].0, m[i].1.push(path)),
        ));
    }
}

/// `table_add` of an absent name appends a fresh entry.
pub proof fn lemma_table_add_fresh(m: TableModel, name: Seq<char>, path: IdPathModel)
    requires
        forall|j: int| 0 <= j < m.len() ==> m[j].0 != name,
    ensures
        table_add(m, name, path) =~= m.push((name, seq![path])),
    decreases m.len(),
{
    if m.len() > 0 {
        lemma_table_add_fresh(m.drop_first(), name, path);
        assert(table_add(m, name, path) =~= seq![m[0]] + m.drop_first().push((name, seq![path])));
        assert(seq![m[0]] + m.drop_first().push((name, seq![path])) =~= m.push(
            (name, seq![path]),
        ));
    }
}

// ---------------------------------------------------------------------------
// Import resolution
// ---------------------------------------------------------------------------

/// Failure to build a file's import table.
#[derive(Debug)]
pub enum ResolveError {
    /// An import names a library that the dependency map does not know.
    LibNotInDeps { libname: String },
}

/// Mathematical mirror of `ResolveError`.
#[verifier::ext_equal]
pub enum ResolveErrModel {
    LibNotInDeps { libname: Seq<char> },
}

pub open spec fn resolve_err_model(e: ResolveError) -> ResolveErrModel {
    match e {
        ResolveError::LibNotInDeps { libname } => ResolveErrModel::LibNotInDeps {
            libname: libname@,
        },
    }
}

/// An import declaration the resolver supports: a nonempty path, and not the
/// import-everything selection, which is recognized but unimplemented.
pub open spec fn import_wf(imp: Import) -> bool {
    imp.path@.len() >= 1 && !(imp.items is All)
}

pub open spec fn imports_wf(imports: Seq<Import>) -> bool {
    forall|i: int| 0 <= i < imports.len() ==> import_wf(#[trigger] imports[i])
}

/// Decides `import_wf`.
pub fn check_import_wf(imp: &Import) -> (r: bool)
    ensures
        r == import_wf(*imp),
{
    imp.path.len() >= 1 && !matches!(imp.items, Selection::All)
}

/// Decides `imports_wf`, the resolver's demand on its input.
pub fn check_imports_wf(imports: &Vec<Import>) -> (r: bool)
    ensures
        r == imports_wf(imports@),
{
    let mut i: usize = 0;
    while i < imports.len()
        invariant
            i <= imports@.len(),
            forall|j: int| 0 <= j < i ==> import_wf(#[trigger] imports@[j]),
        decreases imports@.len() - i,
    {
        if !check_import_wf(&imports[i]) {
            return false;
        }
        i = i + 1;
    }
    true
}

/// Decides `depmap_wf`: every library path nonempty.
pub fn check_depmap_wf(d: &DepMap) -> (r: bool)
    ensures
        r == depmap_wf(d@),
{
    let mut i: usize = 0;
    while i < d.len()
        invariant
            i <= d@.len(),
            forall|j: int| 0 <= j < i ==> #[trigger] d@[j].1@.len() >= 1,
        decreases d@.len() - i,
    {
        if d[i].1.len() < 1 {
            return false;
        }
        i = i + 1;
    }
    true
}

/// The absolute path an import refers to: a library import resolves its
/// first segment through the dependency map; a project import is relative to
/// the base path.
pub open spec fn import_base(
    dep: Seq<(String, IdPath)>,
    base: IdPathModel,
    imp: Import,
) -> Result<IdPathModel, ResolveErrModel> {
    if imp.is_lib {
        match dep_lookup(dep, imp.path.deep_view()[0]) {
            None => Err(
                ResolveErrModel::LibNotInDeps { libname: imp.path.deep_view()[0] },
            ),
            Some(libpath) => Ok(libpath + imp.path.deep_view().drop_first()),
        }
    } else {
        Ok(base + imp.path.deep_view())
    }
}

/// Records several symbols as importable from one path.
pub open spec fn add_items(acc: TableModel, syms: Seq<Seq<char>>, path: IdPathModel) -> TableModel
    decreases syms.len(),
{
    if syms.len() == 0 {
        acc
    } else {
        add_items(table_add(acc, syms[0], path), syms.drop_first(), path)
    }
}

/// The effect of one import declaration on the table.
pub open spec fn apply_import(
    acc: TableModel,
    dep: Seq<(String, IdPath)>,
    base: IdPathModel,
    imp: Import,
) -> Result<TableModel, ResolveErrModel> {
    match import_base(dep, base, imp) {
        Err(e) => Err(e),
        Ok(p) => match imp.items {
            Selection::All => Ok(acc),
            Selection::This => Ok(table_add(acc, p.last(), p.drop_last())),
            Selection::Items(syms) => Ok(add_items(acc, syms.deep_view(), p)),
        },
    }
}

pub open spec fn resolve_imports_from(
    imports: Seq<Import>,
    dep: Seq<(String, IdPath)>,
    base: IdPathModel,
    acc: TableModel,
) -> Result<TableModel, ResolveErrModel>
    decreases imports.len(),
{
    if imports.len() == 0 {
        Ok(acc)
    } else {
        match apply_import(acc, dep, base, imports[0]) {
            Err(e) => Err(e),
            Ok(acc2) => resolve_imports_from(imports.drop_first(), dep, base, acc2),
        }
    }
}

/// The import table of a file with the given import declarations.
pub open spec fn spec_resolve_imports(
    imports: Seq<Import>,
    dep: Seq<(String, IdPath)>,
    base: IdPathModel,
) -> Result<TableModel, ResolveErrModel> {
    resolve_imports_from(imports, dep, base, Seq::empty())
}

/// Splitting off the next element of a subrange.
pub proof fn lemma_subrange_push(s: Seq<Seq<char>>, a: int, b: int)
    requires
        0 <= a <= b < s.len(),
    ensures
        s.subrange(a, b + 1) =~= s.subrange(a, b).push(s[b]),
{
}

/// A path found through the dependency map is nonempty.
pub proof fn lemma_dep_lookup_nonempty(d: Seq<(String, IdPath)>, name: Seq<char>)
    requires
        depmap_wf(d),
        dep_lookup(d, name) is Some,
    ensures
        dep_lookup(d, name)->0.len() >= 1,
    decreases d.len(),
{
    if d.len() > 0 && d[0].0@ != name {
        assert(forall|i: int| 0 <= i < d.drop_first().len() ==> d.drop_first()[i] == d[i + 1]);
        lemma_dep_lookup_nonempty(d.drop_first(), name);
    }
}

/// Builds a file's import table from its import declarations, the
/// dependency map, and the current project's base path.
///
/// A name imported from several places keeps every origin; the ambiguity is
/// resolved later, at symbol lookup.
pub fn resolve_imports(imports: &Vec<Import>, depmap: &DepMap, basepath: &IdPath) -> (r: Result<
    ImportTable,
    ResolveError,
>)
    requires
        imports_wf(imports@),
        depmap_wf(depmap@),
    ensures
        match r {
            Ok(t) => spec_resolve_imports(imports@, depmap@, basepath.deep_view()) == Ok::<
                TableModel,
                ResolveErrModel,
            >(t.model()),
            Err(e) => spec_resolve_imports(imports@, depmap@, basepath.deep_view()) == Err::<
                TableModel,
                ResolveErrModel,
            >(resolve_err_model(e)),
        },
{
    let ghost full = spec_resolve_imports(imports@, depmap@, basepath.deep_view());
    let mut table = ImportTable::new();
    let mut i: usize = 0;
    proof {
        assert(imports@.skip(0) =~= imports@);
    }
    while i < imports.len()
        invariant
            i <= imports@.len(),
            imports_wf(imports@),
            depmap_wf(depmap@),
            full == spec_resolve_imports(imports@, depmap@, basepath.deep_view()),
            resolve_imports_from(imports@.skip(i as int), depmap@, basepath.deep_view(),
                table.model()) == full,
        decreases imports@.len() - i,
    {
        proof {
            assert(imports@.skip(i as int)[0] == imports@[i as int]);
            assert(imports@.skip(i as int).drop_first() =~= imports@.skip(i as int + 1));
        }
        let imp = &imports[i];
        let ghost base_res = import_base(depmap@, basepath.deep_view(), *imp);

        // The absolute path this import refers to.
        let (mut p, from): (IdPath, usize) = if imp.is_lib {
            match depmap_get(depmap, &imp.path[0]) {
                None => {
                    return Err(ResolveError::LibNotInDeps { libname: imp.path[0].clone() });
                },
                Some(libpath) => {
                    proof {
                        lemma_dep_lookup_nonempty(depmap@, imp.path@[0]@);
                    }
                    (crate::ids::clone_path(libpath), 1)
                },
            }
        } else {
            (crate::ids::clone_path(basepath), 0)
        };
        let ghost stem = p.deep_view();
        let ghost segs = imp.path.deep_view();
        let mut k: usize = from;
        let plen = imp.path.len();
        proof {
            assert(segs.len() == imp.path@.len());
        }
        while k < plen
            invariant
                from <= k <= segs.len(),
                plen == segs.len(),
                segs == imp.path.deep_view(),
                segs.len() == imp.path@.len(),
                p.deep_view() =~= stem + segs.subrange(from as int, k as int),
            decreases segs.len() - k,
        {
            let ghost dv_pre = p.deep_view();
            p.push(imp.path[k].clone());
            proof {
                assert(segs[k as int] == imp.path@[k as int]@);
                lemma_subrange_push(segs, from as int, k as int);
                assert(p.deep_view() =~= dv_pre.push(segs[k as int]));
                assert(p.deep_view() =~= stem + segs.subrange(from as int, k as int + 1));
            }
            k = k + 1;
        }
        proof {
            if imp.is_lib {
                assert(segs.subrange(1, segs.len() as int) =~= segs.drop_first());
            } else {
                assert(segs.subrange(0, segs.len() as int) =~= segs);
            }
            assert(base_res == Ok::<IdPathModel, ResolveErrModel>(p.deep_view()));
            assert(p.deep_view().len() >= 1);
        }

        let ghost acc_pre = table.model();
        match &imp.items {
            Selection::All => {
                // Ruled out by `imports_wf`.
                proof {
                    assert(false);
                }
            },
            Selection::This => {
                // The trailing segment of the path is itself the symbol.
                let symbol = match p.pop() {
                    Some(s) => s,
                    None => vstd::pervasive::unreached(),
                };
                proof {
                    assert(p.deep_view() =~= base_res->Ok_0.drop_last());
                }
                table.add(symbol, p);
            },
            Selection::Items(syms) => {
                // Every listed symbol may originate from this path.
                let mut k2: usize = 0;
                proof {
                    assert(syms.deep_view().skip(0) =~= syms.deep_view());
                }
                while k2 < syms.len()
                    invariant
                        k2 <= syms@.len(),
                        add_items(table.model(), syms.deep_view().skip(k2 as int), base_res->Ok_0)
                            == add_items(acc_pre, syms.deep_view(), base_res->Ok_0),
                        base_res is Ok,
                        p.deep_view() == base_res->Ok_0,
                    decreases syms@.len() - k2,
                {
                    proof {
                        assert(syms.deep_view().skip(k2 as int)[0] == syms.deep_view()[k2 as int]);
                        assert(syms.deep_view().skip(k2 as int).drop_first() =~= syms.deep_view()
                            .skip(k2 as int + 1));
                    }
                    table.add(syms[k2].clone(), crate::ids::clone_path(&p));
                    k2 = k2 + 1;
                }
                proof {
                    assert(syms.deep_view().skip(syms@.len() as int) =~= Seq::<Seq<char>>::empty());
                }
            },
        }
        proof {
            assert(apply_import(acc_pre, depmap@, basepath.deep_view(), imports@[i as int])
                == Ok::<TableModel, ResolveErrModel>(table.model()));
        }
        i = i + 1;
    }
    proof {
        assert(imports@.skip(imports@.len() as int) =~= Seq::<Import>::empty());
    }
    Ok(table)
}

// ---------------------------------------------------------------------------
// Files and modules
// ---------------------------------------------------------------------------

/// One source file: its declarations and its import table.
#[derive(Debug)]
pub struct FileInfo {
    pub filename: String,
    pub imports: ImportTable,
    pub items: Vec<Item>,
}

/// A flat, unordered collection of files belonging to one project path.
#[derive(Debug)]
pub struct Module {
    pub project_id: usize,
    pub files: Vec<FileInfo>,
}

impl FileInfo {
    /// Assembles a file from its parsed pieces: the import table is built
    /// from the declarations, the dependency map, and the current project's
    /// base path. Parsing source text into those pieces is an outside
    /// concern.
    pub fn from_items(
        filename: String,
        depmap: &DepMap,
        basepath: &IdPath,
        imports: &Vec<Import>,
        items: Vec<Item>,
    ) -> (r: Result<FileInfo, ResolveError>)
        requires
            imports_wf(imports@),
            depmap_wf(depmap@),
        ensures
            match r {
                Ok(fi) => {
                    &&& fi.filename@ == filename@
                    &&& spec_resolve_imports(imports@, depmap@, basepath.deep_view()) == Ok::<
                        TableModel,
                        ResolveErrModel,
                    >(fi.imports.model())
                    &&& fi.items == items
                },
                Err(e) => spec_resolve_imports(imports@, depmap@, basepath.deep_view()) == Err::<
                    TableModel,
                    ResolveErrModel,
                >(resolve_err_model(e)),
            },
    {
        match resolve_imports(imports, depmap, basepath) {
            Ok(table) => Ok(FileInfo { filename, imports: table, items }),
            Err(e) => Err(e),
        }
    }
}

/// The name under which a declaration is found.
pub open spec fn item_name(it: Item) -> Seq<char> {
    match it {
        Item::Function(f) => f.name@,
        Item::GlobalVar { name } => name@,
        Item::TypeDecl { name } => name@,
        Item::BuildinTypeDecl { name } => name@,
        Item::Test { name } => name@,
    }
}

/// Whether a declaration answers a search for `name`. Tests are never
/// symbols.
pub open spec fn item_matches(it: Item, name: Seq<char>) -> bool {
    item_name(it) == name && !(it is Test)
}

/// The matches among `items` from position `i` on, as symbol identities.
pub open spec fn find_in_items(
    items: Seq<Item>,
    mpath: IdPathModel,
    f: int,
    i: int,
    name: Seq<char>,
) -> Seq<SymbolIdModel>
    decreases items.len() - i,
{
    if i < 0 || i >= items.len() {
        Seq::empty()
    } else {
        let rest = find_in_items(items, mpath, f, i + 1, name);
        if item_matches(items[i], name) {
            seq![SymbolIdModel { module: mpath, file: f, item: i }] + rest
        } else {
            rest
        }
    }
}

/// The matches across the module's files from file `f` on.
pub open spec fn find_in_files(
    files: Seq<FileInfo>,
    mpath: IdPathModel,
    f: int,
    name: Seq<char>,
) -> Seq<SymbolIdModel>
    decreases files.len() - f,
{
    if f < 0 || f >= files.len() {
        Seq::empty()
    } else {
        find_in_items(files[f].items@, mpath, f, 0, name) + find_in_files(
            files,
            mpath,
            f + 1,
            name,
        )
    }
}

/// Every declaration in the module named `name`, in file order then item
/// order.
pub open spec fn find_in_module(m: Module, mpath: IdPathModel, name: Seq<char>) -> Seq<
    SymbolIdModel,
> {
    find_in_files(m.files@, mpath, 0, name)
}

/// Mirror of a list of symbol identities.
pub open spec fn sid_vec_model(v: Seq<SymbolId>) -> Seq<SymbolIdModel> {
    Seq::new(v.len(), |i: int| crate::ids::symbol_id_model(v[i]))
}

impl Module {
    /// Creates an empty module for a project.
    pub fn new(project_id: usize) -> (m: Module)
        ensures
            m.project_id == project_id,
            m.files@.len() == 0,
    {
        Module { project_id, files: Vec::new() }
    }

    /// Adds a file to this module.
    pub fn add_file(&mut self, file: FileInfo)
        ensures
            final(self).files@ == old(self).files@.push(file),
            final(self).project_id == old(self).project_id,
    {
        self.files.push(file);
    }

    /// Lists every declaration in this module matching `name`. `mpath` is
    /// the module's own absolute path, recorded in each returned identity.
    pub fn find(&self, name: &String, mpath: &IdPath) -> (r: Vec<SymbolId>)
        ensures
            sid_vec_model(r@) == find_in_module(*self, mpath.deep_view(), name@),
    {
        let mut r: Vec<SymbolId> = Vec::new();
        let mut f: usize = 0;
        while f < self.files.len()
            invariant
                f <= self.files@.len(),
                find_in_module(*self, mpath.deep_view(), name@) =~= sid_vec_model(r@)
                    + find_in_files(self.files@, mpath.deep_view(), f as int, name@),
            decreases self.files@.len() - f,
        {
            let items_len = self.files[f].items.len();
            let mut i: usize = 0;
            while i < items_len
                invariant
                    f < self.files@.len(),
                    items_len == self.files@[f as int].items@.len(),
                    i <= items_len,
                    find_in_module(*self, mpath.deep_view(), name@) =~= sid_vec_model(r@)
                        + find_in_items(
                        self.files@[f as int].items@,
                        mpath.deep_view(),
                        f as int,
                        i as int,
                        name@,
                    ) + find_in_files(self.files@, mpath.deep_view(), f as int + 1, name@),
                decreases items_len - i,
            {
                let it = &self.files[f].items[i];
                let matches = match it {
                    Item::Function(fd) => crate::ast::str_eq(fd.name.as_str(), name.as_str()),
                    Item::GlobalVar { name: n } => crate::ast::str_eq(n.as_str(), name.as_str()),
                    Item::TypeDecl { name: n } => crate::ast::str_eq(n.as_str(), name.as_str()),
                    Item::BuildinTypeDecl { name: n } => crate::ast::str_eq(
                        n.as_str(),
                        name.as_str(),
                    ),
                    Item::Test { .. } => false,
                };
                let ghost pre = r@;
                if matches {
                    r.push(
                        SymbolId { module: crate::ids::clone_path(mpath), file: f, item: i },
                    );
                    proof {
                        assert(sid_vec_model(r@) =~= sid_vec_model(pre).push(
                            SymbolIdModel {
                                module: mpath.deep_view(),
                                file: f as int,
                                item: i as int,
                            },
                        ));
                    }
                }
                i = i + 1;
            }
            f = f + 1;
        }
        proof {
            assert(find_in_files(self.files@, mpath.deep_view(), self.files@.len() as int, name@)
                =~= Seq::<SymbolIdModel>::empty());
            assert(sid_vec_model(r@) =~= sid_vec_model(r@) + Seq::<SymbolIdModel>::empty());
        }
        r
    }
}

/// Failure to find a symbol or a module.
#[derive(Debug)]
pub enum FindError {
    /// No declaration with the symbol's name.
    NotFound { symbol: String },
    /// More than one declaration with the symbol's name.
    TooMany { symbol: String, module: IdPath },
    /// No module registered under the path.
    ModuleNotFound { path: IdPath },
}

/// Mathematical mirror of `FindError`.
#[verifier::ext_equal]
pub enum FindErrModel {
    NotFound { symbol: Seq<char> },
    TooMany { symbol: Seq<char>, module: IdPathModel },
    ModuleNotFound { path: IdPathModel },
}

pub open spec fn find_err_model(e: FindError) -> FindErrModel {
    match e {
        FindError::NotFound { symbol } => FindErrModel::NotFound { symbol: symbol@ },
        FindError::TooMany { symbol, module } => FindErrModel::TooMany {
            symbol: symbol@,
            module: module.deep_view(),
        },
        FindError::ModuleNotFound { path } => FindErrModel::ModuleNotFound {
            path: path.deep_view(),
        },
    }
}

// ---------------------------------------------------------------------------
// Module registry
// ---------------------------------------------------------------------------

/// The global collection of modules, searched by absolute path.
#[derive(Debug)]
pub struct ModuleRegistry {
    pub modules: Vec<(IdPath, Module)>,
}

/// Index of the module registered under `path`.
pub open spec fn registry_find(ms: Seq<(IdPath, Module)>, path: IdPathModel) -> Option<int>
    decreases ms.len(),
{
    if ms.len() == 0 {
        None
    } else if ms[0].0.deep_view() == path {
        Some(0)
    } else {
        match registry_find(ms.drop_first(), path) {
            Some(i) => Some(i + 1),
            None => None,
        }
    }
}

/// The module registered under `path`, if any.
pub open spec fn registry_module(reg: ModuleRegistry, path: IdPathModel) -> Option<Module> {
    match registry_find(reg.modules@, path) {
        Some(i) => Some(reg.modules@[i].1),
        None => None,
    }
}

impl ModuleRegistry {
    /// Creates an empty registry.
    pub fn new() -> (r: ModuleRegistry)
        ensures
            r.modules@.len() == 0,
    {
        ModuleRegistry { modules: Vec::new() }
    }

    /// Registers a module under its absolute path.
    pub fn add_module(&mut self, path: IdPath, m: Module)
        ensures
            final(self).modules@ == old(self).modules@.push((path, m)),
    {
        self.modules.push((path, m));
    }

    /// Finds the module registered under `path`.
    pub fn get<'a>(&'a self, path: &IdPath) -> (r: Option<&'a Module>)
        ensures
            match r {
                Some(m) => registry_module(*self, path.deep_view()) == Some(*m),
                None => registry_module(*self, path.deep_view()) is None,
            },
    {
        let mut i: usize = 0;
        proof {
            assert(self.modules@.skip(0) =~= self.modules@);
        }
        while i < self.modules.len()
            invariant
                i <= self.modules@.len(),
                registry_find(self.modules@, path.deep_view()) == match registry_find(
                    self.modules@.skip(i as int),
                    path.deep_view(),
                ) {
                    Some(k) => Some(k + i),
                    None => None::<int>,
                },
            decreases self.modules@.len() - i,
        {
            proof {
                assert(self.modules@.skip(i as int)[0] == self.modules@[i as int]);
                assert(self.modules@.skip(i as int).drop_first() =~= self.modules@.skip(
                    i as int + 1,
                ));
            }
            if crate::ids::path_eq(&self.modules[i].0, path) {
                return Some(&self.modules[i].1);
            }
            i = i + 1;
        }
        None
    }
}

} // verus!
