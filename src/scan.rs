//! Collects the marked record declarations of parsed source files into a
//! schema registry.

use vstd::prelude::*;
use crate::format::{FormatView, TypeExpr, TypeFormat, resolved, to_type_format};
use crate::signal::{Attribute, RoleSet, extract_signal_attribute, roles_of};

verus! {

broadcast use vstd::std_specs::vec::group_vec_axioms;

/// A field of a record declaration; a tuple field has no name.
pub struct FieldDecl {
    pub name: Option<String>,
    pub ty: TypeExpr,
}

/// An item of a parsed source file.
pub enum SourceItem {
    /// A record declaration with its attributes and fields.
    Struct { name: String, attrs: Vec<Attribute>, fields: Vec<FieldDecl> },
    /// A module declared with its body in the same file.
    Module { items: Vec<SourceItem> },
    /// Any other item.
    Other,
}

/// A parsed source file, or the reason it could not be parsed.
pub struct SourceFile {
    pub path: String,
    pub parsed: Result<Vec<SourceItem>, String>,
}

/// A named field with its resolved shape.
#[derive(Debug)]
pub struct Field {
    pub name: String,
    pub format: TypeFormat,
}

/// A marked record declaration: its name, its fields in declaration order,
/// and its roles.
#[derive(Debug)]
pub struct Declaration {
    pub name: String,
    pub fields: Vec<Field>,
    pub roles: RoleSet,
}

pub struct FieldView {
    pub name: Seq<char>,
    pub format: FormatView,
}

pub struct DeclView {
    pub name: Seq<char>,
    pub fields: Seq<FieldView>,
    pub roles: RoleSet,
}

impl View for Field {
    type V = FieldView;

    open spec fn view(&self) -> FieldView {
        FieldView { name: self.name@, format: self.format@ }
    }
}

impl View for Declaration {
    type V = DeclView;

    open spec fn view(&self) -> DeclView {
        DeclView {
            name: self.name@,
            fields: self.fields@.map_values(|f: Field| f@),
            roles: self.roles,
        }
    }
}

/// The schema registry: the marked declarations in the order they were
/// found, no two with the same name.
#[derive(Debug)]
pub struct Registry {
    pub declarations: Vec<Declaration>,
}

impl View for Registry {
    type V = Seq<DeclView>;

    open spec fn view(&self) -> Seq<DeclView> {
        decl_views(self.declarations@)
    }
}

/// Why a scan failed.
#[derive(Debug)]
pub enum ScanError {
    /// A file could not be parsed.
    Parse { path: String, message: String },
    /// Two marked declarations share this name.
    DuplicateName(String),
}

pub open spec fn decl_views(ds: Seq<Declaration>) -> Seq<DeclView> {
    ds.map_values(|d: Declaration| d@)
}

/// The named fields, in declaration order, with their resolved shapes.
pub open spec fn traced_fields(fs: Seq<FieldDecl>) -> Seq<FieldView>
    decreases fs.len(),
{
    if fs.len() == 0 {
        Seq::empty()
    } else {
        let before = traced_fields(fs.drop_last());
        match fs.last().name {
            Some(n) => before.push(FieldView { name: n@, format: resolved(fs.last().ty) }),
            None => before,
        }
    }
}

/// The marked declarations among `items` and inside their modules, in the
/// order they stand in the source.
pub open spec fn found(items: Seq<SourceItem>) -> Seq<DeclView>
    decreases items,
{
    if items.len() == 0 {
        Seq::empty()
    } else {
        let before = found(items.subrange(0, items.len() - 1));
        match items[items.len() - 1] {
            SourceItem::Struct { name, attrs, fields } => {
                if roles_of(attrs@).spec_is_empty() {
                    before
                } else {
                    before.push(
                        DeclView {
                            name: name@,
                            fields: traced_fields(fields@),
                            roles: roles_of(attrs@),
                        },
                    )
                }
            },
            SourceItem::Module { items: inner } => before + found(inner@),
            SourceItem::Other => before,
        }
    }
}

/// Builds the registry entry of a record from its fields.
pub fn trace_struct(name: &String, fields: &Vec<FieldDecl>, roles: RoleSet) -> (r: Declaration)
    ensures
        r@ == (DeclView { name: name@, fields: traced_fields(fields@), roles }),
{
    let mut out: Vec<Field> = Vec::new();
    let mut i: usize = 0;
    while i < fields.len()
        invariant
            0 <= i <= fields.len(),
            out@.map_values(|f: Field| f@) == traced_fields(fields@.subrange(0, i as int)),
        decreases fields.len() - i,
    {
        let fd = &fields[i];
        proof {
            assert(fields@.subrange(0, i + 1).drop_last() =~= fields@.subrange(0, i as int));
        }
        match &fd.name {
            Some(n) => {
                let format = to_type_format(&fd.ty);
                let ghost before = out@;
                out.push(Field { name: n.clone(), format });
                proof {
                    assert(out@.map_values(|f: Field| f@) =~= before.map_values(|f: Field| f@).push(
                        out@.last()@,
                    ));
                }
            },
            None => {},
        }
        i += 1;
    }
    proof {
        assert(fields@.subrange(0, fields@.len() as int) =~= fields@);
    }
    Declaration { name: name.clone(), fields: out, roles }
}

/// Appends to `out` the marked declarations among `items`, descending into
/// inline modules, in source order.
pub fn process_items(items: &Vec<SourceItem>, out: &mut Vec<Declaration>)
    ensures
        decl_views(final(out)@) == decl_views(old(out)@) + found(items@),
    decreases items,
{
    let ghost start = out@;
    let mut i: usize = 0;
    while i < items.len()
        invariant
            0 <= i <= items.len(),
            decl_views(out@) == decl_views(start) + found(items@.subrange(0, i as int)),
        decreases items.len() - i,
    {
        let ghost before = out@;
        proof {
            let sub = items@.subrange(0, i + 1);
            assert(sub.subrange(0, sub.len() - 1) =~= items@.subrange(0, i as int));
            assert(sub[sub.len() - 1] == items[i as int]);
        }
        match &items[i] {
            SourceItem::Struct { name, attrs, fields } => {
                let roles = extract_signal_attribute(attrs);
                if !roles.is_empty() {
                    let d = trace_struct(name, fields, roles);
                    out.push(d);
                    proof {
                        assert(decl_views(out@) =~= decl_views(before).push(d@));
                    }
                }
            },
            SourceItem::Module { items: inner } => {
                proof {
                    assert(decreases_to!(items => items@));
                    assert(decreases_to!(items@ => items@[i as int]));
                    assert(decreases_to!(items@[i as int] => (items@[i as int])->Module_items));
                }
                process_items(inner, out);
            },
            SourceItem::Other => {},
        }
        i += 1;
    }
    proof {
        assert(items@.subrange(0, items@.len() as int) =~= items@);
    }
}

/// The marked declarations of all files, file by file.
pub open spec fn found_in_files(files: Seq<SourceFile>) -> Seq<DeclView>
    decreases files.len(),
{
    if files.len() == 0 {
        Seq::empty()
    } else {
        let before = found_in_files(files.drop_last());
        match files.last().parsed {
            Ok(items) => before + found(items@),
            Err(_) => before,
        }
    }
}

/// Whether the declaration at `j` repeats the name of an earlier one.
pub open spec fn repeats_at(ds: Seq<DeclView>, j: int) -> bool {
    exists|i: int| 0 <= i < j && ds[i].name == ds[j].name
}

pub open spec fn names_unique(ds: Seq<DeclView>) -> bool {
    forall|i: int, j: int| 0 <= i < j < ds.len() ==> ds[i].name != ds[j].name
}

/// The index of the first file that failed to parse.
pub open spec fn first_parse_failure(files: Seq<SourceFile>, k: int) -> bool {
    &&& 0 <= k < files.len()
    &&& files[k].parsed is Err
    &&& forall|m: int| 0 <= m < k ==> files[m].parsed is Ok
}

/// The index of the first declaration whose name was taken before.
pub open spec fn first_repeat(ds: Seq<DeclView>, j: int) -> bool {
    &&& 0 <= j < ds.len()
    &&& repeats_at(ds, j)
    &&& forall|m: int| 0 <= m < j ==> !repeats_at(ds, m)
}

/// Finds the first declaration whose name is taken by an earlier one.
fn find_repeat(ds: &Vec<Declaration>) -> (r: Option<usize>)
    ensures
        match r {
            Some(j) => first_repeat(decl_views(ds@), j as int),
            None => names_unique(decl_views(ds@)),
        },
{
    let ghost views = decl_views(ds@);
    let mut j: usize = 0;
    while j < ds.len()
        invariant
            0 <= j <= ds.len(),
            views == decl_views(ds@),
            forall|m: int| 0 <= m < j ==> !repeats_at(views, m),
        decreases ds.len() - j,
    {
        let mut i: usize = 0;
        while i < j
            invariant
                0 <= i <= j < ds.len(),
                views == decl_views(ds@),
                forall|m: int| 0 <= m < j ==> !repeats_at(views, m),
                forall|m: int| 0 <= m < i ==> views[m].name != views[j as int].name,
            decreases j - i,
        {
            if ds[i].name == ds[j].name {
                proof {
                    assert(views[i as int].name == views[j as int].name);
                    assert(repeats_at(views, j as int));
                }
                return Some(j);
            }
            i += 1;
        }
        j += 1;
    }
    proof {
        assert forall|a: int, b: int| 0 <= a < b < views.len() implies views[a].name
            != views[b].name by {
            assert(!repeats_at(views, b));
        }
    }
    None
}

/// Builds the schema registry from the parsed source files. The scan fails
/// on the first file that did not parse, and on the first declaration whose
/// name an earlier one already took; no partial registry is returned.
pub fn scan(files: &Vec<SourceFile>) -> (r: Result<Registry, ScanError>)
    ensures
        (exists|k: int| first_parse_failure(files@, k)) ==> r is Err,
        forall|k: int|
            first_parse_failure(files@, k) ==> match r {
                Err(ScanError::Parse { path, message }) => path@ == files@[k].path@
                    && files@[k].parsed == Err::<Vec<SourceItem>, String>(message),
                _ => false,
            },
        (forall|k: int| 0 <= k < files@.len() ==> files@[k].parsed is Ok) ==> match r {
            Ok(reg) => reg@ == found_in_files(files@) && names_unique(reg@),
            Err(ScanError::DuplicateName(n)) => exists|j: int|
                first_repeat(found_in_files(files@), j) && found_in_files(files@)[j].name == n@,
            Err(ScanError::Parse { .. }) => false,
        },
{
    let mut out: Vec<Declaration> = Vec::new();
    let mut k: usize = 0;
    while k < files.len()
        invariant
            0 <= k <= files.len(),
            forall|m: int| 0 <= m < k ==> files@[m].parsed is Ok,
            decl_views(out@) == found_in_files(files@.subrange(0, k as int)),
        decreases files.len() - k,
    {
        proof {
            assert(files@.subrange(0, k + 1).drop_last() =~= files@.subrange(0, k as int));
        }
        match &files[k].parsed {
            Ok(items) => {
                process_items(items, &mut out);
            },
            Err(message) => {
                return Err(ScanError::Parse { path: files[k].path.clone(), message: message.clone() });
            },
        }
        k += 1;
    }
    proof {
        assert(files@.subrange(0, files@.len() as int) =~= files@);
    }
    match find_repeat(&out) {
        Some(j) => Err(ScanError::DuplicateName(out[j].name.clone())),
        None => Ok(Registry { declarations: out }),
    }
}

impl Registry {
    /// The number of declarations.
    pub fn len(&self) -> (r: usize)
        ensures
            r == self@.len(),
    {
        self.declarations.len()
    }

    /// The declaration with this name, looked up exactly.
    pub fn get(&self, name: &str) -> (r: Option<&Declaration>)
        requires
            names_unique(self@),
        ensures
            match r {
                Some(d) => exists|i: int|
                    0 <= i < self@.len() && self.declarations@[i] == *d && d.name@ == name@,
                None => forall|i: int| 0 <= i < self@.len() ==> self@[i].name != name@,
            },
    {
        let key = String::from_str(name);
        let mut i: usize = 0;
        while i < self.declarations.len()
            invariant
                0 <= i <= self.declarations.len(),
                key@ == name@,
                forall|m: int| 0 <= m < i ==> self@[m].name != name@,
            decreases self.declarations.len() - i,
        {
            if self.declarations[i].name == key {
                return Some(&self.declarations[i]);
            }
            i += 1;
        }
        None
    }
}

/// Every record declaration among `items` and inside their modules, marked
/// or not, in source order.
pub open spec fn structs_in(items: Seq<SourceItem>) -> Seq<SourceItem>
    decreases items,
{
    if items.len() == 0 {
        Seq::empty()
    } else {
        let before = structs_in(items.subrange(0, items.len() - 1));
        match items[items.len() - 1] {
            SourceItem::Struct { .. } => before.push(items[items.len() - 1]),
            SourceItem::Module { items: inner } => before + structs_in(inner@),
            SourceItem::Other => before,
        }
    }
}

/// Whether a record declaration carries at least one recognised marker.
pub open spec fn is_marked(s: SourceItem) -> bool {
    match s {
        SourceItem::Struct { attrs, .. } => !roles_of(attrs@).spec_is_empty(),
        _ => false,
    }
}

/// The registry entry that a record declaration gives.
pub open spec fn decl_of(s: SourceItem) -> DeclView {
    match s {
        SourceItem::Struct { name, attrs, fields } => DeclView {
            name: name@,
            fields: traced_fields(fields@),
            roles: roles_of(attrs@),
        },
        _ => DeclView { name: Seq::empty(), fields: Seq::empty(), roles: roles_of(Seq::empty()) },
    }
}

pub open spec fn struct_name(s: SourceItem) -> Seq<char> {
    match s {
        SourceItem::Struct { name, .. } => name@,
        _ => Seq::empty(),
    }
}

/// Each marked declaration of `st` has its entry in `f`.
pub open spec fn entries_complete(st: Seq<SourceItem>, f: Seq<DeclView>) -> bool {
    forall|i: int|
        #![trigger st[i]]
        0 <= i < st.len() && is_marked(st[i]) ==> exists|k: int|
            #![trigger f[k]]
            0 <= k < f.len() && f[k] == decl_of(st[i])
}

/// Each entry of `f` is the entry of some declaration of `st`; `o` gives,
/// for each entry, the index of its declaration.
pub open spec fn entries_from(st: Seq<SourceItem>, f: Seq<DeclView>, o: Seq<int>) -> bool {
    o.len() == f.len() && forall|k: int|
        0 <= k < f.len() ==> 0 <= #[trigger] o[k] < st.len() && f[k] == decl_of(st[o[k]])
}

pub open spec fn entries_sound(st: Seq<SourceItem>, f: Seq<DeclView>) -> bool {
    exists|o: Seq<int>| entries_from(st, f, o)
}

/// Every entry of `f` carries at least one role.
pub open spec fn entries_marked(f: Seq<DeclView>) -> bool {
    forall|k: int| 0 <= k < f.len() ==> !(#[trigger] f[k]).roles.spec_is_empty()
}

pub open spec fn all_structs(st: Seq<SourceItem>) -> bool {
    forall|i: int| 0 <= i < st.len() ==> #[trigger] st[i] is Struct
}

proof fn lemma_complete_concat(
    sp: Seq<SourceItem>,
    fp: Seq<DeclView>,
    si: Seq<SourceItem>,
    fi: Seq<DeclView>,
)
    requires
        entries_complete(sp, fp),
        entries_complete(si, fi),
    ensures
        entries_complete(sp + si, fp + fi),
{
    let st = sp + si;
    let f = fp + fi;
    assert forall|i: int| 0 <= i < st.len() && is_marked(#[trigger] st[i]) implies exists|k: int|
        #![trigger f[k]]
        0 <= k < f.len() && f[k] == decl_of(st[i]) by {
        if i < sp.len() {
            assert(st[i] == sp[i]);
            let k = choose|k: int| 0 <= k < fp.len() && fp[k] == decl_of(sp[i]);
            assert(f[k] == fp[k]);
        } else {
            let i2 = i - sp.len();
            assert(st[i] == si[i2]);
            let k = choose|k: int| 0 <= k < fi.len() && fi[k] == decl_of(si[i2]);
            assert(f[fp.len() + k] == fi[k]);
        }
    }
}

proof fn lemma_sound_concat(
    sp: Seq<SourceItem>,
    fp: Seq<DeclView>,
    si: Seq<SourceItem>,
    fi: Seq<DeclView>,
)
    requires
        entries_sound(sp, fp),
        entries_sound(si, fi),
    ensures
        entries_sound(sp + si, fp + fi),
{
    let st = sp + si;
    let f = fp + fi;
    let op = choose|o: Seq<int>| entries_from(sp, fp, o);
    let oi = choose|o: Seq<int>| entries_from(si, fi, o);
    let o = op + oi.map_values(|x: int| x + sp.len());
    assert forall|k: int| 0 <= k < f.len() implies 0 <= #[trigger] o[k] < st.len() && f[k]
        == decl_of(st[o[k]]) by {
        if k < fp.len() {
            assert(o[k] == op[k]);
            assert(f[k] == fp[k]);
            assert(st[op[k]] == sp[op[k]]);
        } else {
            let k2 = k - fp.len();
            assert(o[k] == oi[k2] + sp.len());
            assert(f[k] == fi[k2]);
            assert(st[oi[k2] + sp.len()] == si[oi[k2]]);
        }
    }
    assert(entries_from(st, f, o));
}

proof fn lemma_structs_concat(sp: Seq<SourceItem>, si: Seq<SourceItem>)
    requires
        all_structs(sp),
        all_structs(si),
    ensures
        all_structs(sp + si),
{
    let st = sp + si;
    assert forall|i: int| 0 <= i < st.len() implies #[trigger] st[i] is Struct by {
        if i < sp.len() {
            assert(st[i] == sp[i]);
        } else {
            assert(st[i] == si[i - sp.len()]);
        }
    }
}

proof fn lemma_entries_concat(
    sp: Seq<SourceItem>,
    fp: Seq<DeclView>,
    si: Seq<SourceItem>,
    fi: Seq<DeclView>,
)
    requires
        entries_complete(sp, fp),
        entries_sound(sp, fp),
        all_structs(sp),
        entries_marked(fp),
        entries_complete(si, fi),
        entries_sound(si, fi),
        all_structs(si),
        entries_marked(fi),
    ensures
        entries_complete(sp + si, fp + fi),
        entries_sound(sp + si, fp + fi),
        all_structs(sp + si),
        entries_marked(fp + fi),
{
    lemma_complete_concat(sp, fp, si, fi);
    lemma_sound_concat(sp, fp, si, fi);
    lemma_structs_concat(sp, si);
    let f = fp + fi;
    assert forall|k: int| 0 <= k < f.len() implies !(#[trigger] f[k]).roles.spec_is_empty() by {
        if k < fp.len() {
            assert(f[k] == fp[k]);
        } else {
            assert(f[k] == fi[k - fp.len()]);
        }
    }
}

/// What is found is exactly the marked declarations, each with its entry.
proof fn lemma_found_matches_structs(items: Seq<SourceItem>)
    ensures
        entries_complete(structs_in(items), found(items)),
        entries_sound(structs_in(items), found(items)),
        all_structs(structs_in(items)),
        entries_marked(found(items)),
    decreases items,
{
    if items.len() > 0 {
        let pre = items.subrange(0, items.len() - 1);
        let last = items[items.len() - 1];
        lemma_found_matches_structs(pre);
        let fp = found(pre);
        let sp = structs_in(pre);
        match last {
            SourceItem::Struct { .. } => {
                let si = seq![last];
                let fi = if is_marked(last) {
                    seq![decl_of(last)]
                } else {
                    Seq::empty()
                };
                assert(structs_in(items) =~= sp + si);
                assert(found(items) =~= fp + fi);
                assert(si[0] == last);
                if is_marked(last) {
                    assert(fi[0] == decl_of(last));
                    assert(entries_from(si, fi, seq![0int]));
                } else {
                    assert(entries_from(si, fi, Seq::<int>::empty()));
                }
                lemma_entries_concat(sp, fp, si, fi);
            },
            SourceItem::Module { items: inner } => {
                assert(decreases_to!(items => items[items.len() - 1]));
                lemma_found_matches_structs(inner@);
                lemma_entries_concat(sp, fp, structs_in(inner@), found(inner@));
            },
            SourceItem::Other => {
                assert(structs_in(items) == sp);
                assert(found(items) == fp);
            },
        }
    } else {
        assert(entries_from(structs_in(items), found(items), Seq::<int>::empty()));
    }
}

/// A declaration's name is in the registry exactly when it carries at
/// least one recognised marker (names being unique across the tree).
pub proof fn lemma_registered_iff_marked(items: Seq<SourceItem>)
    requires
        forall|i: int, j: int|
            0 <= i < j < structs_in(items).len() ==> struct_name(structs_in(items)[i])
                != struct_name(structs_in(items)[j]),
    ensures
        forall|i: int|
            0 <= i < structs_in(items).len() ==> ((exists|k: int|
                0 <= k < found(items).len() && found(items)[k].name == struct_name(
                    #[trigger] structs_in(items)[i],
                )) <==> is_marked(structs_in(items)[i])),
{
    lemma_found_matches_structs(items);
    let st = structs_in(items);
    let f = found(items);
    assert forall|i: int| 0 <= i < st.len() implies ((exists|k: int|
        0 <= k < f.len() && f[k].name == struct_name(#[trigger] st[i])) <==> is_marked(st[i])) by {
        if is_marked(st[i]) {
            let k = choose|k: int| 0 <= k < f.len() && f[k] == decl_of(st[i]);
            assert(f[k].name == struct_name(st[i]));
        }
        if exists|k: int| 0 <= k < f.len() && f[k].name == struct_name(st[i]) {
            let k = choose|k: int| 0 <= k < f.len() && f[k].name == struct_name(st[i]);
            let o = choose|o: Seq<int>| entries_from(st, f, o);
            let j = o[k];
            assert(!f[k].roles.spec_is_empty());
            assert(st[j] is Struct);
            assert(struct_name(st[j]) == struct_name(st[i]));
            if i != j {
                if i < j {
                    assert(struct_name(st[i]) != struct_name(st[j]));
                } else {
                    assert(struct_name(st[j]) != struct_name(st[i]));
                }
            }
        }
    }
}

/// Resolving fields keeps them in declaration order: where every field is
/// named, the `j`-th entry is the `j`-th declared field with its shape.
pub proof fn lemma_traced_fields_in_order(fs: Seq<FieldDecl>)
    requires
        forall|j: int| 0 <= j < fs.len() ==> #[trigger] fs[j].name is Some,
    ensures
        traced_fields(fs).len() == fs.len(),
        forall|j: int|
            0 <= j < fs.len() ==> #[trigger] traced_fields(fs)[j] == (FieldView {
                name: fs[j].name->Some_0@,
                format: resolved(fs[j].ty),
            }),
    decreases fs.len(),
{
    if fs.len() > 0 {
        let pre = fs.drop_last();
        assert forall|j: int| 0 <= j < pre.len() implies #[trigger] pre[j].name is Some by {
            assert(pre[j] == fs[j]);
        }
        lemma_traced_fields_in_order(pre);
        assert(fs.last().name is Some);
        assert forall|j: int| 0 <= j < fs.len() implies #[trigger] traced_fields(fs)[j] == (
        FieldView { name: fs[j].name->Some_0@, format: resolved(fs[j].ty) }) by {
            if j < pre.len() {
                assert(pre[j] == fs[j]);
            }
        }
    }
}

/// Every marked record declaration has its registry entry, which holds the
/// declaration's named fields in the order they were declared.
pub proof fn lemma_field_order(items: Seq<SourceItem>)
    ensures
        forall|i: int|
            #![trigger structs_in(items)[i]]
            0 <= i < structs_in(items).len() && is_marked(structs_in(items)[i]) ==> exists|k: int|
                #![trigger found(items)[k]]
                0 <= k < found(items).len() && found(items)[k].name == struct_name(
                    structs_in(items)[i],
                ) && found(items)[k].fields == traced_fields(
                    structs_in(items)[i]->Struct_fields@,
                ),
{
    lemma_found_matches_structs(items);
}

} // verus!
