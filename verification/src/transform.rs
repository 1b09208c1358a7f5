//! The pass itself: which bindings of a module stand for configured
//! components, which elements use them, and what is put into those
//! elements.

use vstd::prelude::*;
use crate::ast::{
    attr_views, item_views, lemma_module_view, lemma_other_view, node_views, Expr, Id, IdView,
    ImportDecl, ImportDeclView, ImportSpecifier, ImportSpecifierView, JSXAttr, JSXAttrOrSpread,
    JSXAttrOrSpreadView, JSXAttrView, JSXElementName, JSXElementNameView, JSXObject,
    JSXOpeningElement, JSXOpeningElementView, ModuleItem, ModuleItemView, Node, NodeView,
};
use crate::config::{
    attr_config_views, ComponentConfig, ComponentConfigView, Config, ConfigView, InjectAttrConfig,
    InjectAttrConfigView, InjectAttrRule, PackageConfig, PackageConfigView,
};
use crate::regex::{compiles, is_match, regex_compiles, regex_matches};
use crate::utils::json_to_es_ast::{compiled, json_to_es_ast};
use crate::utils::strings::{
    copy_from, lemma_split_path_len, same_strings, split_dotted, split_path, strs,
};

verus! {

/// The attribute that a configured attribute puts into an element.
pub open spec fn injected_attr(cfg: InjectAttrConfigView) -> JSXAttrView {
    JSXAttrView { name: cfg.name, value: compiled(cfg.value) }
}

/// An attribute list after one configured attribute went in: at the front
/// for `Prepend`, at the end for `Append`.
pub open spec fn inject_one(
    attrs: Seq<JSXAttrOrSpreadView>,
    cfg: InjectAttrConfigView,
) -> Seq<JSXAttrOrSpreadView> {
    let attr = JSXAttrOrSpreadView::Injected(injected_attr(cfg));
    match cfg.rule {
        InjectAttrRule::Append => attrs.push(attr),
        InjectAttrRule::Prepend => attrs.insert(0, attr),
    }
}

/// An attribute list after the configured attributes went in one after the
/// other, in the order of `cfgs`.
pub open spec fn inject_all(
    attrs: Seq<JSXAttrOrSpreadView>,
    cfgs: Seq<InjectAttrConfigView>,
) -> Seq<JSXAttrOrSpreadView>
    decreases cfgs.len(),
{
    if cfgs.len() == 0 {
        attrs
    } else {
        inject_one(inject_all(attrs, cfgs.drop_last()), cfgs.last())
    }
}

/// A configured attribute, together with the literal that its value
/// compiles to once that has been needed.
#[derive(Debug)]
pub struct InjectAttr {
    cfg: InjectAttrConfig,
    value_ast_cache: Option<Box<Expr>>,
}

impl View for InjectAttr {
    type V = InjectAttrConfigView;

    closed spec fn view(&self) -> InjectAttrConfigView {
        self.cfg@
    }
}

impl InjectAttr {
    /// The cache, where it is filled, holds what the value compiles to.
    pub closed spec fn wf(&self) -> bool {
        self.value_ast_cache matches Some(ast) ==> (*ast)@ == compiled(self.cfg.value@)
    }

    /// Whether the cache is filled.
    pub closed spec fn cached(&self) -> bool {
        self.value_ast_cache is Some
    }

    /// The attribute for one element. The value is compiled at the first
    /// call and copied from the cache after that, so that no two elements
    /// share a node.
    pub fn create_attr(&mut self) -> (attr: JSXAttr)
        requires
            old(self).wf(),
        ensures
            final(self).wf(),
            final(self).cached(),
            final(self)@ == old(self)@,
            attr@ == injected_attr(old(self)@),
    {
        let expr = match &self.value_ast_cache {
            Some(ast) => ast.deep_clone(),
            None => {
                let ast = json_to_es_ast(&self.cfg.value);
                let copy = ast.deep_clone();
                self.value_ast_cache = Some(ast);
                copy
            },
        };
        JSXAttr { name: self.cfg.name.clone(), value: expr }
    }

    /// Puts the attribute into the attribute list of an element.
    pub fn inject_attr(&mut self, attrs: &mut Vec<JSXAttrOrSpread>)
        requires
            old(self).wf(),
        ensures
            final(self).wf(),
            final(self).cached(),
            final(self)@ == old(self)@,
            attr_views(final(attrs)@) == inject_one(attr_views(old(attrs)@), old(self)@),
    {
        let attr = JSXAttrOrSpread::Injected(self.create_attr());
        match &self.cfg.rule {
            InjectAttrRule::Append => {
                assert(attr_views(attrs@.push(attr)) =~= attr_views(attrs@).push(attr@));
                attrs.push(attr)
            },
            InjectAttrRule::Prepend => {
                assert(attr_views(attrs@.insert(0, attr)) =~= attr_views(attrs@).insert(0, attr@));
                attrs.insert(0, attr)
            },
        }
    }
}

impl Clone for InjectAttr {
    /// A copy of the configured attribute with an empty cache.
    fn clone(&self) -> (out: Self)
        ensures
            out@ == self@,
            out.wf(),
            !out.cached(),
    {
        InjectAttr { cfg: self.cfg.clone(), value_ast_cache: None }
    }
}

impl From<InjectAttrConfig> for InjectAttr {
    /// The configured attribute with an empty cache.
    fn from(cfg: InjectAttrConfig) -> (out: Self)
        ensures
            out@ == cfg@,
            out.wf(),
            !out.cached(),
    {
        InjectAttr { cfg, value_ast_cache: None }
    }
}

impl vstd::std_specs::convert::FromSpecImpl<InjectAttrConfig> for InjectAttr {
    open spec fn obeys_from_spec() -> bool {
        true
    }

    closed spec fn from_spec(cfg: InjectAttrConfig) -> Self {
        InjectAttr { cfg, value_ast_cache: None }
    }
}

/// The contents of a list of configured attributes.
pub open spec fn inject_attr_views(attrs: Seq<InjectAttr>) -> Seq<InjectAttrConfigView> {
    attrs.map_values(|a: InjectAttr| a@)
}

/// Whether every cache in a list of configured attributes is sound.
pub open spec fn inject_attrs_wf(attrs: Seq<InjectAttr>) -> bool {
    forall|i: int| 0 <= i < attrs.len() ==> (#[trigger] attrs[i]).wf()
}

/// Copies of configured attributes, each with an empty cache.
fn clone_attrs(attrs: &Vec<InjectAttr>) -> (out: Vec<InjectAttr>)
    ensures
        inject_attr_views(out@) == inject_attr_views(attrs@),
        inject_attrs_wf(out@),
{
    let mut out: Vec<InjectAttr> = Vec::new();
    let mut i: usize = 0;
    while i < attrs.len()
        invariant
            i <= attrs.len(),
            out.len() == i,
            forall|k: int| 0 <= k < i ==> out[k]@ == attrs[k]@,
            inject_attrs_wf(out@),
        decreases attrs.len() - i,
    {
        out.push(attrs[i].clone());
        i += 1;
    }
    assert(inject_attr_views(out@) =~= inject_attr_views(attrs@));
    out
}

/// A binding of the module that stands for a configured component.
#[derive(Debug)]
pub struct ImportedCompRef {
    /// imported id
    id: Id,
    /// member sub path like `Link` of `Dropdown.Link`
    sub: Vec<String>,
    /// jsx attributes
    attrs: Vec<InjectAttr>,
}

/// The mathematical content of an [`ImportedCompRef`].
#[verifier::ext_equal]
pub struct ImportedCompRefView {
    /// The identity of the local binding.
    pub id: IdView,
    /// The member accesses that lead from the binding to the component.
    pub sub: Seq<Seq<char>>,
    /// The attributes that an element of the component receives.
    pub attrs: Seq<InjectAttrConfigView>,
}

impl View for ImportedCompRef {
    type V = ImportedCompRefView;

    closed spec fn view(&self) -> ImportedCompRefView {
        ImportedCompRefView {
            id: self.id@,
            sub: strs(self.sub@),
            attrs: inject_attr_views(self.attrs@),
        }
    }
}

impl ImportedCompRef {
    /// Every cache of the reference is sound.
    pub closed spec fn wf(&self) -> bool {
        inject_attrs_wf(self.attrs@)
    }

    /// Whether the reference is the one for the binding `id` reached by the
    /// member accesses `sub`: both must agree exactly.
    pub fn matches(&self, id: &Id, sub: &Vec<String>) -> (hit: bool)
        ensures
            hit == (self@.id == id@ && self@.sub == strs(sub@)),
    {
        self.id.same(id) && same_strings(&self.sub, sub)
    }

    /// Puts the attributes of the reference into the attribute list of an
    /// element, one after the other in their configured order.
    pub fn inject_into(&mut self, attrs: &mut Vec<JSXAttrOrSpread>)
        requires
            old(self).wf(),
        ensures
            final(self).wf(),
            final(self)@ == old(self)@,
            attr_views(final(attrs)@) == inject_all(attr_views(old(attrs)@), old(self)@.attrs),
    {
        let n: usize = self.attrs.len();
        let mut j: usize = 0;
        while j < n
            invariant
                j <= n,
                n == self.attrs.len(),
                self.wf(),
                self@ == old(self)@,
                attr_views(attrs@) == inject_all(
                    attr_views(old(attrs)@),
                    old(self)@.attrs.take(j as int),
                ),
            decreases n - j,
        {
            let ghost before = self.attrs@;
            self.attrs[j].inject_attr(attrs);
            proof {
                assert(self.attrs@ == before.update(j as int, self.attrs@[j as int]));
                assert(inject_attr_views(self.attrs@) =~= inject_attr_views(before));
                assert(old(self)@.attrs.take(j + 1).drop_last() =~= old(self)@.attrs.take(
                    j as int,
                ));
                assert(old(self)@.attrs.take(j + 1).last() == before[j as int]@);
            }
            j += 1;
        }
        assert(old(self)@.attrs.take(j as int) =~= old(self)@.attrs);
    }
}

/// The contents of a table of references.
pub open spec fn ref_views(refs: Seq<ImportedCompRef>) -> Seq<ImportedCompRefView> {
    refs.map_values(|r: ImportedCompRef| r@)
}

/// Whether every reference of a table is well formed.
pub open spec fn refs_wf(refs: Seq<ImportedCompRef>) -> bool {
    forall|i: int| 0 <= i < refs.len() ==> (#[trigger] refs[i]).wf()
}

/// The name of the default export in a component path.
pub open spec fn default_export() -> Seq<char> {
    "default"@
}

/// The mathematical content of an [`InjectComp`].
#[verifier::ext_equal]
pub struct InjectCompView {
    /// The segments of the component path; there is at least one.
    pub paths: Seq<Seq<char>>,
    pub attrs: Seq<InjectAttrConfigView>,
}

/// The name under which a named specifier imports: the exported name, not
/// the local one.
pub open spec fn imported_name(local: IdView, imported: Option<Seq<char>>) -> Seq<char> {
    match imported {
        Some(name) => name,
        None => local.sym,
    }
}

/// The reference that one specifier of a matching import makes for one
/// component, if it makes one.
///
/// A default specifier binds the component whose path starts with
/// `default`, a named specifier the one whose path starts with the exported
/// name; either way the rest of the path is left to member access. A
/// namespace specifier binds every component, with the whole path left.
pub open spec fn bound_ref(comp: InjectCompView, specifier: ImportSpecifierView) -> Option<
    ImportedCompRefView,
> {
    match specifier {
        ImportSpecifierView::Default { local } => if comp.paths[0] == default_export() {
            Some(ImportedCompRefView { id: local, sub: comp.paths.skip(1), attrs: comp.attrs })
        } else {
            None
        },
        ImportSpecifierView::Named { local, imported } => if comp.paths[0] == imported_name(
            local,
            imported,
        ) {
            Some(ImportedCompRefView { id: local, sub: comp.paths.skip(1), attrs: comp.attrs })
        } else {
            None
        },
        ImportSpecifierView::Namespace { local } => Some(
            ImportedCompRefView { id: local, sub: comp.paths, attrs: comp.attrs },
        ),
    }
}

/// The references that the specifiers of a matching import make for one
/// component, in the order of the specifiers.
pub open spec fn comp_refs(
    comp: InjectCompView,
    specifiers: Seq<ImportSpecifierView>,
) -> Seq<ImportedCompRefView>
    decreases specifiers.len(),
{
    if specifiers.len() == 0 {
        Seq::empty()
    } else {
        let before = comp_refs(comp, specifiers.drop_last());
        match bound_ref(comp, specifiers.last()) {
            Some(r) => before.push(r),
            None => before,
        }
    }
}

/// The references that the specifiers of a matching import make for the
/// components of a package: component by component.
pub open spec fn comps_refs(
    comps: Seq<InjectCompView>,
    specifiers: Seq<ImportSpecifierView>,
) -> Seq<ImportedCompRefView>
    decreases comps.len(),
{
    if comps.len() == 0 {
        Seq::empty()
    } else {
        comps_refs(comps.drop_last(), specifiers) + comp_refs(comps.last(), specifiers)
    }
}

/// The mathematical content of an [`InjectPkg`].
#[verifier::ext_equal]
pub struct InjectPkgView {
    /// The pattern for the import source.
    pub import: Seq<char>,
    pub comps: Seq<InjectCompView>,
}

/// The references that an import declaration makes for one package: none
/// unless the pattern of the package matches the source string.
pub open spec fn pkg_refs(pkg: InjectPkgView, decl: ImportDeclView) -> Seq<ImportedCompRefView> {
    if regex_matches(pkg.import, decl.src) {
        comps_refs(pkg.comps, decl.specifiers)
    } else {
        Seq::empty()
    }
}

/// The references that an import declaration makes: package by package.
pub open spec fn decl_refs(pkgs: Seq<InjectPkgView>, decl: ImportDeclView) -> Seq<
    ImportedCompRefView,
>
    decreases pkgs.len(),
{
    if pkgs.len() == 0 {
        Seq::empty()
    } else {
        decl_refs(pkgs.drop_last(), decl) + pkg_refs(pkgs.last(), decl)
    }
}

/// A configured component of a package.
#[derive(Debug)]
pub struct InjectComp {
    /// member path like `Button` and `Dropdown.Link`
    paths: Vec<String>,
    /// jsx attributes
    attrs: Vec<InjectAttr>,
}

impl View for InjectComp {
    type V = InjectCompView;

    closed spec fn view(&self) -> InjectCompView {
        InjectCompView { paths: strs(self.paths@), attrs: inject_attr_views(self.attrs@) }
    }
}

impl InjectComp {
    /// The path has a first segment, and every cache is sound.
    pub closed spec fn wf(&self) -> bool {
        &&& self.paths.len() >= 1
        &&& inject_attrs_wf(self.attrs@)
    }

    /// A reference for `local`, with the path from segment `from` on.
    fn make_ref(&self, local: &Id, from: usize) -> (r: ImportedCompRef)
        requires
            from <= self.paths.len(),
        ensures
            r.wf(),
            r@ == (ImportedCompRefView {
                id: local@,
                sub: self@.paths.skip(from as int),
                attrs: self@.attrs,
            }),
    {
        ImportedCompRef {
            id: local.duplicate(),
            sub: copy_from(&self.paths, from),
            attrs: clone_attrs(&self.attrs),
        }
    }

    /// The references that the specifiers of `decl` make for this
    /// component. The source of `decl` is not looked at.
    pub fn collect_imported_refs(&self, decl: &ImportDecl) -> (refs: Vec<ImportedCompRef>)
        requires
            self.wf(),
        ensures
            refs_wf(refs@),
            ref_views(refs@) == comp_refs(self@, decl@.specifiers),
    {
        let comp_name = &self.paths[0];
        let default_name = "default".to_owned();
        let mut refs: Vec<ImportedCompRef> = Vec::new();
        let mut i: usize = 0;
        while i < decl.specifiers.len()
            invariant
                i <= decl.specifiers.len(),
                self.wf(),
                *comp_name == self.paths[0],
                default_name@ == default_export(),
                refs_wf(refs@),
                ref_views(refs@) == comp_refs(self@, decl@.specifiers.take(i as int)),
            decreases decl.specifiers.len() - i,
        {
            let specifier = &decl.specifiers[i];
            assert(decl@.specifiers.take(i + 1).drop_last() =~= decl@.specifiers.take(i as int));
            assert(decl@.specifiers.take(i + 1).last() == specifier@);
            assert(self@.paths[0] == comp_name@);
            assert(self@.paths.skip(0) =~= self@.paths);
            let found = match specifier {
                ImportSpecifier::Default { local } => {
                    if *comp_name == default_name {
                        Some(self.make_ref(local, 1))
                    } else {
                        None
                    }
                },
                ImportSpecifier::Named { local, imported } => {
                    let import_name: &String = match imported {
                        Some(name) => name,
                        None => &local.sym,
                    };
                    if *comp_name == *import_name {
                        Some(self.make_ref(local, 1))
                    } else {
                        None
                    }
                },
                ImportSpecifier::Namespace { local } => Some(self.make_ref(local, 0)),
            };
            match found {
                Some(r) => {
                    assert(bound_ref(self@, specifier@) == Some(r@));
                    assert(ref_views(refs@.push(r)) =~= ref_views(refs@).push(r@));
                    refs.push(r);
                },
                None => {
                    assert(bound_ref(self@, specifier@) is None);
                },
            }
            i += 1;
        }
        assert(decl@.specifiers.take(i as int) =~= decl@.specifiers);
        refs
    }
}

/// The contents of a list of components.
pub open spec fn comp_views(comps: Seq<InjectComp>) -> Seq<InjectCompView> {
    comps.map_values(|c: InjectComp| c@)
}

/// The configured components of the packages that one pattern selects.
#[derive(Debug)]
pub struct InjectPkg {
    /// import source regex pattern
    import: String,
    /// target components
    comps: Vec<InjectComp>,
}

impl View for InjectPkg {
    type V = InjectPkgView;

    closed spec fn view(&self) -> InjectPkgView {
        InjectPkgView { import: self.import@, comps: comp_views(self.comps@) }
    }
}

impl InjectPkg {
    /// The pattern compiles, and every component is well formed.
    pub closed spec fn wf(&self) -> bool {
        &&& regex_compiles(self.import@)
        &&& forall|i: int| 0 <= i < self.comps.len() ==> (#[trigger] self.comps[i]).wf()
    }

    /// The references that `decl` makes for the components of this package.
    pub fn collect_imported_refs(&self, decl: &ImportDecl) -> (refs: Vec<ImportedCompRef>)
        requires
            self.wf(),
        ensures
            refs_wf(refs@),
            ref_views(refs@) == pkg_refs(self@, decl@),
    {
        let mut refs: Vec<ImportedCompRef> = Vec::new();
        if is_match(self.import.as_str(), decl.src.as_str()) {
            let mut i: usize = 0;
            while i < self.comps.len()
                invariant
                    i <= self.comps.len(),
                    self.wf(),
                    refs_wf(refs@),
                    ref_views(refs@) == comps_refs(
                        comp_views(self.comps@).take(i as int),
                        decl@.specifiers,
                    ),
                decreases self.comps.len() - i,
            {
                let mut more = self.comps[i].collect_imported_refs(decl);
                assert(comp_views(self.comps@).take(i + 1).drop_last() =~= comp_views(
                    self.comps@,
                ).take(i as int));
                assert(ref_views(refs@ + more@) =~= ref_views(refs@) + ref_views(more@));
                refs.append(&mut more);
                i += 1;
            }
            assert(comp_views(self.comps@).take(i as int) =~= comp_views(self.comps@));
        }
        refs
    }
}

/// The contents of a list of packages.
pub open spec fn pkg_views(pkgs: Seq<InjectPkg>) -> Seq<InjectPkgView> {
    pkgs.map_values(|p: InjectPkg| p@)
}

/// The binding and the member accesses that a tag name stands for: a bare
/// identifier is its binding with no access, a dotted name is the binding
/// of its root followed by its accesses, and any other name stands for
/// nothing.
pub open spec fn resolved(name: JSXElementNameView) -> Option<(IdView, Seq<Seq<char>>)> {
    match name {
        JSXElementNameView::Ident(id) => Some((id, Seq::empty())),
        JSXElementNameView::Member { root, props } => Some((root, props)),
        JSXElementNameView::Namespaced => None,
    }
}

/// An attribute list after every reference of the table for the binding
/// `id` and the accesses `sub` put its attributes in, in the order of the
/// table.
pub open spec fn apply_refs(
    attrs: Seq<JSXAttrOrSpreadView>,
    refs: Seq<ImportedCompRefView>,
    id: IdView,
    sub: Seq<Seq<char>>,
) -> Seq<JSXAttrOrSpreadView>
    decreases refs.len(),
{
    if refs.len() == 0 {
        attrs
    } else {
        let before = apply_refs(attrs, refs.drop_last(), id, sub);
        if refs.last().id == id && refs.last().sub == sub {
            inject_all(before, refs.last().attrs)
        } else {
            before
        }
    }
}

/// An element after the pass: the same name, and the attributes that the
/// table gives to that name. An element whose name stands for no binding
/// is left as it is.
pub open spec fn folded_element(
    refs: Seq<ImportedCompRefView>,
    el: JSXOpeningElementView,
) -> JSXOpeningElementView {
    match resolved(el.name) {
        Some((id, sub)) => JSXOpeningElementView {
            name: el.name,
            attrs: apply_refs(el.attrs, refs, id, sub),
        },
        None => el,
    }
}

/// The table of a module: the references that its import declarations
/// make, in the order of the declarations, wherever in the module they
/// stand.
pub open spec fn items_refs(pkgs: Seq<InjectPkgView>, items: Seq<ModuleItemView>) -> Seq<
    ImportedCompRefView,
>
    decreases items.len(),
{
    if items.len() == 0 {
        Seq::empty()
    } else {
        let before = items_refs(pkgs, items.drop_last());
        match items.last() {
            ModuleItemView::Import(decl) => before + decl_refs(pkgs, decl),
            ModuleItemView::Other(_) => before,
        }
    }
}

/// The body of a module after the pass: every item folded with the table
/// of the whole body.
pub open spec fn folded_items(pkgs: Seq<InjectPkgView>, items: Seq<ModuleItemView>) -> Seq<
    ModuleItemView,
>
    decreases items, 1int,
{
    folded_items_with(pkgs, items_refs(pkgs, items), items)
}

/// Every item of `items` folded with the table `refs`.
pub open spec fn folded_items_with(
    pkgs: Seq<InjectPkgView>,
    refs: Seq<ImportedCompRefView>,
    items: Seq<ModuleItemView>,
) -> Seq<ModuleItemView>
    decreases items, 0int,
{
    Seq::new(
        items.len(),
        |i: int|
            if 0 <= i < items.len() {
                folded_item(pkgs, refs, items[i])
            } else {
                ModuleItemView::Other(Seq::empty())
            },
    )
}

/// An item after the pass: an import declaration as it was, any other item
/// with its nodes folded.
pub open spec fn folded_item(
    pkgs: Seq<InjectPkgView>,
    refs: Seq<ImportedCompRefView>,
    item: ModuleItemView,
) -> ModuleItemView
    decreases item, 1int,
{
    match item {
        ModuleItemView::Import(decl) => item,
        ModuleItemView::Other(nodes) => ModuleItemView::Other(folded_nodes(pkgs, refs, nodes)),
    }
}

/// Every node of `nodes` folded with the table `refs`.
pub open spec fn folded_nodes(
    pkgs: Seq<InjectPkgView>,
    refs: Seq<ImportedCompRefView>,
    nodes: Seq<NodeView>,
) -> Seq<NodeView>
    decreases nodes, 0int,
{
    Seq::new(
        nodes.len(),
        |i: int|
            if 0 <= i < nodes.len() {
                folded_node(pkgs, refs, nodes[i])
            } else {
                NodeView::Module(Seq::empty())
            },
    )
}

/// A node after the pass: an element folded with the table of the module
/// that it stands in, a nested module folded with a table of its own.
pub open spec fn folded_node(
    pkgs: Seq<InjectPkgView>,
    refs: Seq<ImportedCompRefView>,
    node: NodeView,
) -> NodeView
    decreases node, 1int,
{
    match node {
        NodeView::Element(el) => NodeView::Element(folded_element(refs, el)),
        NodeView::Module(items) => NodeView::Module(folded_items(pkgs, items)),
    }
}

/// The pass: its configuration, and the table of the module that it is
/// in.
#[derive(Debug)]
pub struct FoldJSXAttrs {
    imported_refs: Vec<ImportedCompRef>,
    inject_config: Vec<InjectPkg>,
}

/// The mathematical content of a [`FoldJSXAttrs`].
#[verifier::ext_equal]
pub struct FoldJSXAttrsView {
    /// The table of the module that the pass is in; empty outside of any
    /// module.
    pub imported_refs: Seq<ImportedCompRefView>,
    /// The configured packages.
    pub inject_config: Seq<InjectPkgView>,
}

impl View for FoldJSXAttrs {
    type V = FoldJSXAttrsView;

    closed spec fn view(&self) -> FoldJSXAttrsView {
        FoldJSXAttrsView {
            imported_refs: ref_views(self.imported_refs@),
            inject_config: pkg_views(self.inject_config@),
        }
    }
}

impl FoldJSXAttrs {
    /// Every pattern compiles, every component path has a first segment,
    /// and every cache is sound.
    pub closed spec fn wf(&self) -> bool {
        &&& refs_wf(self.imported_refs@)
        &&& forall|i: int|
            0 <= i < self.inject_config.len() ==> (#[trigger] self.inject_config[i]).wf()
    }

    /// The binding and the member accesses that a tag name stands for.
    pub fn flat_jsx_element_name(name: &JSXElementName) -> (found: Option<(Id, Vec<String>)>)
        ensures
            match found {
                Some((id, sub)) => resolved(name@) == Some((id@, strs(sub@))),
                None => resolved(name@) is None,
            },
    {
        match name {
            JSXElementName::Ident(name) => {
                let sub: Vec<String> = Vec::new();
                assert(strs(sub@) =~= Seq::<Seq<char>>::empty());
                Some((name.duplicate(), sub))
            },
            JSXElementName::JSXMemberExpr(member) => {
                let mut sub: Vec<String> = Vec::new();
                let mut expr = member;
                assert(expr.props() + strs(sub@) =~= member.props());
                loop
                    invariant
                        resolved(name@) == Some((member.root(), member.props())),
                        member.root() == expr.root(),
                        member.props() == expr.props() + strs(sub@),
                    decreases expr,
                {
                    let prop = expr.prop.clone();
                    assert(strs(sub@.insert(0, prop)) =~= seq![prop@] + strs(sub@));
                    sub.insert(0, prop);
                    match &expr.obj {
                        JSXObject::Ident(end) => {
                            assert(member.props() =~= strs(sub@));
                            return Some((end.duplicate(), sub));
                        },
                        JSXObject::JSXMemberExpr(next) => {
                            assert(member.props() =~= next.props() + strs(sub@));
                            expr = next;
                        },
                    }
                }
            },
            _ => None,
        }
    }

    /// Puts into an element the attributes that the table of the module
    /// gives to its tag name.
    pub fn fold_element(&mut self, node: &mut JSXOpeningElement)
        requires
            old(self).wf(),
        ensures
            final(self).wf(),
            final(self)@ == old(self)@,
            final(node)@ == folded_element(old(self)@.imported_refs, old(node)@),
    {
        if !self.imported_refs.is_empty() {
            match FoldJSXAttrs::flat_jsx_element_name(&node.name) {
                Some((id, sub)) => {
                    let n: usize = self.imported_refs.len();
                    let mut i: usize = 0;
                    while i < n
                        invariant
                            i <= n,
                            n == self.imported_refs.len(),
                            self.wf(),
                            self@ == old(self)@,
                            node.name == old(node).name,
                            resolved(node.name@) == Some((id@, strs(sub@))),
                            attr_views(node.attrs@) == apply_refs(
                                attr_views(old(node).attrs@),
                                old(self)@.imported_refs.take(i as int),
                                id@,
                                strs(sub@),
                            ),
                        decreases n - i,
                    {
                        let ghost before = self.imported_refs@;
                        proof {
                            assert(old(self)@.imported_refs.take(i + 1).drop_last() =~= old(
                                self,
                            )@.imported_refs.take(i as int));
                            assert(old(self)@.imported_refs.take(i + 1).last() == before[i as int]@);
                        }
                        if self.imported_refs[i].matches(&id, &sub) {
                            self.imported_refs[i].inject_into(&mut node.attrs);
                            proof {
                                assert(self.imported_refs@ == before.update(
                                    i as int,
                                    self.imported_refs@[i as int],
                                ));
                                assert(ref_views(self.imported_refs@) =~= ref_views(before));
                            }
                        }
                        i += 1;
                    }
                    assert(old(self)@.imported_refs.take(i as int) =~= old(self)@.imported_refs);
                },
                _ => {},
            };
        }
    }

    /// Folds the nodes of one item with the table of the module.
    pub fn fold_nodes(&mut self, nodes: &mut Vec<Node>)
        requires
            old(self).wf(),
        ensures
            final(self).wf(),
            final(self)@ == old(self)@,
            node_views(final(nodes)@) == folded_nodes(
                old(self)@.inject_config,
                old(self)@.imported_refs,
                node_views(old(nodes)@),
            ),
        decreases *old(nodes), 0int,
    {
        let n: usize = nodes.len();
        let mut i: usize = 0;
        while i < n
            invariant
                i <= n,
                n == nodes.len(),
                n == old(nodes).len(),
                self.wf(),
                self@ == old(self)@,
                forall|k: int| i <= k < n ==> nodes[k] == old(nodes)[k],
                forall|k: int|
                    0 <= k < i ==> (#[trigger] nodes[k])@ == folded_node(
                        old(self)@.inject_config,
                        old(self)@.imported_refs,
                        old(nodes)[k]@,
                    ),
            decreases n - i,
        {
            assert(nodes[i as int] == old(nodes)[i as int]);
            let ghost before = nodes@;
            match &mut nodes[i] {
                Node::Element(el) => {
                    self.fold_element(el);
                },
                Node::Module(items) => {
                    proof {
                        lemma_module_view(*items);
                    }
                    self.fold_items(items);
                    proof {
                        lemma_module_view(*items);
                    }
                },
            }
            assert(forall|k: int| 0 <= k < n && k != i ==> nodes[k] == before[k]);
            i += 1;
        }
        assert(node_views(nodes@) =~= folded_nodes(
            old(self)@.inject_config,
            old(self)@.imported_refs,
            node_views(old(nodes)@),
        ));
    }

    /// Folds the body of a module: first the table is made from all its
    /// import declarations, then every other item is folded with it. The
    /// table of the surrounding module is set aside meanwhile and comes
    /// back at the end.
    pub fn fold_items(&mut self, items: &mut Vec<ModuleItem>)
        requires
            old(self).wf(),
        ensures
            final(self).wf(),
            final(self)@ == old(self)@,
            item_views(final(items)@) == folded_items(
                old(self)@.inject_config,
                item_views(old(items)@),
            ),
        decreases *old(items), 1int,
    {
        let mut outer: Vec<ImportedCompRef> = Vec::new();
        std::mem::swap(&mut self.imported_refs, &mut outer);
        let n: usize = items.len();
        let mut i: usize = 0;
        while i < n
            invariant
                i <= n,
                n == items.len(),
                items == old(items),
                self.wf(),
                pkg_views(self.inject_config@) == old(self)@.inject_config,
                ref_views(self.imported_refs@) == items_refs(
                    old(self)@.inject_config,
                    item_views(items@).take(i as int),
                ),
            decreases n - i,
        {
            assert(item_views(items@).take(i + 1).drop_last() =~= item_views(items@).take(
                i as int,
            ));
            assert(item_views(items@).take(i + 1).last() == items[i as int]@);
            match &items[i] {
                ModuleItem::Import(decl) => {
                    self.collect_imported_refs(decl);
                },
                _ => {},
            }
            i += 1;
        }
        assert(item_views(items@).take(i as int) =~= item_views(items@));
        let ghost refs = ref_views(self.imported_refs@);
        let mut i: usize = 0;
        while i < n
            invariant
                i <= n,
                n == items.len(),
                n == old(items).len(),
                self.wf(),
                pkg_views(self.inject_config@) == old(self)@.inject_config,
                ref_views(self.imported_refs@) == refs,
                forall|k: int| i <= k < n ==> items[k] == old(items)[k],
                forall|k: int|
                    0 <= k < i ==> (#[trigger] items[k])@ == folded_item(
                        old(self)@.inject_config,
                        refs,
                        old(items)[k]@,
                    ),
            decreases n - i,
        {
            assert(items[i as int] == old(items)[i as int]);
            let ghost before = items@;
            match &mut items[i] {
                ModuleItem::Other(nodes) => {
                    proof {
                        lemma_other_view(*nodes);
                    }
                    self.fold_nodes(nodes);
                    proof {
                        lemma_other_view(*nodes);
                    }
                },
                _ => {},
            }
            assert(forall|k: int| 0 <= k < n && k != i ==> items[k] == before[k]);
            i += 1;
        }
        assert(item_views(items@) =~= folded_items_with(
            old(self)@.inject_config,
            refs,
            item_views(old(items)@),
        ));
        self.imported_refs = outer;
    }

    /// Adds to the table the references that one import declaration makes.
    fn collect_imported_refs(&mut self, decl: &ImportDecl)
        requires
            old(self).wf(),
        ensures
            final(self).wf(),
            pkg_views(final(self).inject_config@) == pkg_views(old(self).inject_config@),
            ref_views(final(self).imported_refs@) == ref_views(old(self).imported_refs@)
                + decl_refs(pkg_views(old(self).inject_config@), decl@),
    {
        let n: usize = self.inject_config.len();
        let mut p: usize = 0;
        while p < n
            invariant
                p <= n,
                n == self.inject_config.len(),
                self.wf(),
                self.inject_config == old(self).inject_config,
                ref_views(self.imported_refs@) == ref_views(old(self).imported_refs@) + decl_refs(
                    pkg_views(self.inject_config@).take(p as int),
                    decl@,
                ),
            decreases n - p,
        {
            let mut more = self.inject_config[p].collect_imported_refs(decl);
            proof {
                assert(pkg_views(self.inject_config@).take(p + 1).drop_last() =~= pkg_views(
                    self.inject_config@,
                ).take(p as int));
                assert(ref_views(self.imported_refs@ + more@) =~= ref_views(self.imported_refs@)
                    + ref_views(more@));
            }
            self.imported_refs.append(&mut more);
            p += 1;
        }
        assert(pkg_views(self.inject_config@).take(p as int) =~= pkg_views(self.inject_config@));
    }

    /// The body of a module after the pass.
    pub fn fold_module_items(&mut self, nodes: Vec<ModuleItem>) -> (out: Vec<ModuleItem>)
        requires
            old(self).wf(),
        ensures
            final(self).wf(),
            final(self)@ == old(self)@,
            item_views(out@) == folded_items(old(self)@.inject_config, item_views(nodes@)),
    {
        let mut nodes = nodes;
        self.fold_items(&mut nodes);
        nodes
    }

    /// An element after the pass.
    pub fn fold_jsx_opening_element(&mut self, node: JSXOpeningElement) -> (out:
        JSXOpeningElement)
        requires
            old(self).wf(),
        ensures
            final(self).wf(),
            final(self)@ == old(self)@,
            out@ == folded_element(old(self)@.imported_refs, node@),
    {
        let mut node = node;
        self.fold_element(&mut node);
        node
    }
}

/// The component that a configured component path and its attributes make:
/// the path is split at its dots.
pub open spec fn comp_of(cfg: ComponentConfigView) -> InjectCompView {
    InjectCompView { paths: split_path(cfg.path), attrs: cfg.attrs }
}

/// The package that a configured package makes.
pub open spec fn pkg_of(cfg: PackageConfigView) -> InjectPkgView {
    InjectPkgView {
        import: cfg.import,
        comps: cfg.components.map_values(|c: ComponentConfigView| comp_of(c)),
    }
}

/// The packages that a configuration makes, in its order.
pub open spec fn pkgs_of(config: ConfigView) -> Seq<InjectPkgView> {
    config.inject.map_values(|p: PackageConfigView| pkg_of(p))
}

/// Whether every import pattern of a configuration is a regular expression
/// that compiles.
pub open spec fn patterns_compile(config: ConfigView) -> bool {
    forall|i: int| 0 <= i < config.inject.len() ==> regex_compiles(#[trigger] config.inject[i].import)
}

impl InjectComp {
    /// The component for a configured path and its attributes.
    pub fn new(cfg: ComponentConfig) -> (comp: InjectComp)
        ensures
            comp.wf(),
            comp@ == comp_of(cfg@),
    {
        let paths = split_dotted(cfg.path.as_str());
        proof {
            lemma_split_path_len(cfg.path@);
        }
        let ghost given = cfg.attrs@;
        let mut attrs: Vec<InjectAttr> = Vec::new();
        for attr in it: cfg.attrs.into_iter()
            invariant
                it.seq() == given,
                attrs.len() == it.index(),
                inject_attrs_wf(attrs@),
                forall|k: int| 0 <= k < it.index() ==> attrs[k]@ == given[k]@,
        {
            attrs.push(InjectAttr::from(attr));
        }
        assert(inject_attr_views(attrs@) =~= attr_config_views(given));
        InjectComp { paths, attrs }
    }
}

impl InjectPkg {
    /// The package for a configured pattern and its components.
    pub fn new(cfg: PackageConfig) -> (pkg: InjectPkg)
        requires
            regex_compiles(cfg.import@),
        ensures
            pkg.wf(),
            pkg@ == pkg_of(cfg@),
    {
        let ghost given = cfg.components@;
        let mut comps: Vec<InjectComp> = Vec::new();
        for comp in it: cfg.components.into_iter()
            invariant
                it.seq() == given,
                comps.len() == it.index(),
                forall|k: int| 0 <= k < it.index() ==> (#[trigger] comps[k]).wf(),
                forall|k: int| 0 <= k < it.index() ==> comps[k]@ == comp_of(given[k]@),
        {
            comps.push(InjectComp::new(comp));
        }
        assert(comp_views(comps@) =~= cfg@.components.map_values(
            |c: ComponentConfigView| comp_of(c),
        ));
        InjectPkg { import: cfg.import, comps }
    }
}

/// The pass for a configuration. It starts outside of any module, with an
/// empty table.
pub fn transform(config: Config) -> (folder: FoldJSXAttrs)
    requires
        patterns_compile(config@),
    ensures
        folder.wf(),
        folder@ == (FoldJSXAttrsView {
            imported_refs: Seq::empty(),
            inject_config: pkgs_of(config@),
        }),
{
    let ghost given = config.inject@;
    assert forall|k: int| 0 <= k < given.len() implies regex_compiles(
        #[trigger] given[k].import@,
    ) by {
        assert(config@.inject[k].import == given[k].import@);
    }
    let mut inject_config: Vec<InjectPkg> = Vec::new();
    for pkg in it: config.inject.into_iter()
        invariant
            it.seq() == given,
            forall|k: int| 0 <= k < given.len() ==> regex_compiles(#[trigger] given[k].import@),
            inject_config.len() == it.index(),
            forall|k: int| 0 <= k < it.index() ==> (#[trigger] inject_config[k]).wf(),
            forall|k: int| 0 <= k < it.index() ==> inject_config[k]@ == pkg_of(given[k]@),
    {
        inject_config.push(InjectPkg::new(pkg));
    }
    assert(pkg_views(inject_config@) =~= pkgs_of(config@));
    let imported_refs: Vec<ImportedCompRef> = Vec::new();
    assert(ref_views(imported_refs@) =~= Seq::<ImportedCompRefView>::empty());
    FoldJSXAttrs { imported_refs, inject_config }
}

/// The pass for a configuration, or nothing where one of its import
/// patterns does not compile.
pub fn try_transform(config: Config) -> (folder: Option<FoldJSXAttrs>)
    ensures
        folder is Some <==> patterns_compile(config@),
        folder matches Some(f) ==> f.wf() && f@ == (FoldJSXAttrsView {
            imported_refs: Seq::empty(),
            inject_config: pkgs_of(config@),
        }),
{
    let mut i: usize = 0;
    while i < config.inject.len()
        invariant
            i <= config.inject.len(),
            forall|k: int| 0 <= k < i ==> regex_compiles(#[trigger] config@.inject[k].import),
        decreases config.inject.len() - i,
    {
        if !compiles(config.inject[i].import.as_str()) {
            assert(!regex_compiles(config@.inject[i as int].import));
            return None;
        }
        i += 1;
    }
    Some(transform(config))
}

} // verus!
