//! The parts of a module's syntax tree that the pass reads or writes.
//!
//! A host that owns a richer tree hands over these parts and writes the
//! result back; everything else in its tree is left alone.

use vstd::prelude::*;

verus! {

/// The identity of a binding: its name and the scope that declares it.
///
/// Two bindings of one name in different scopes have different identities.
#[derive(Clone, Debug, PartialEq, Eq)]
pub struct Id {
    /// The declared name.
    pub sym: String,
    /// The number of the declaring scope, unique within a module.
    pub ctxt: u32,
}

/// The mathematical content of an [`Id`].
#[verifier::ext_equal]
pub struct IdView {
    pub sym: Seq<char>,
    pub ctxt: u32,
}

impl View for Id {
    type V = IdView;

    open spec fn view(&self) -> IdView {
        IdView { sym: self.sym@, ctxt: self.ctxt }
    }
}

impl Id {
    /// Whether two identities are the same binding.
    pub fn same(&self, other: &Id) -> (eq: bool)
        ensures
            eq == (self@ == other@),
    {
        self.ctxt == other.ctxt && self.sym == other.sym
    }

    /// A copy of the identity.
    pub fn duplicate(&self) -> (out: Id)
        ensures
            out@ == self@,
    {
        Id { sym: self.sym.clone(), ctxt: self.ctxt }
    }
}

/// One binding that an import declaration introduces.
#[derive(Clone, Debug, PartialEq, Eq)]
pub enum ImportSpecifier {
    /// `import { imported as local } from ".."`; `imported` is absent where
    /// the binding keeps the exported name.
    Named { local: Id, imported: Option<String> },
    /// `import local from ".."`
    Default { local: Id },
    /// `import * as local from ".."`
    Namespace { local: Id },
}

/// The mathematical content of an [`ImportSpecifier`].
#[verifier::ext_equal]
pub enum ImportSpecifierView {
    Named { local: IdView, imported: Option<Seq<char>> },
    Default { local: IdView },
    Namespace { local: IdView },
}

impl View for ImportSpecifier {
    type V = ImportSpecifierView;

    open spec fn view(&self) -> ImportSpecifierView {
        match self {
            ImportSpecifier::Named { local, imported } => ImportSpecifierView::Named {
                local: local@,
                imported: match imported {
                    Some(name) => Some(name@),
                    None => None,
                },
            },
            ImportSpecifier::Default { local } => ImportSpecifierView::Default { local: local@ },
            ImportSpecifier::Namespace { local } => ImportSpecifierView::Namespace {
                local: local@,
            },
        }
    }
}

/// A top-level import declaration.
#[derive(Clone, Debug, PartialEq, Eq)]
pub struct ImportDecl {
    /// The source string, as written.
    pub src: String,
    pub specifiers: Vec<ImportSpecifier>,
}

/// The mathematical content of an [`ImportDecl`].
#[verifier::ext_equal]
pub struct ImportDeclView {
    pub src: Seq<char>,
    pub specifiers: Seq<ImportSpecifierView>,
}

impl View for ImportDecl {
    type V = ImportDeclView;

    open spec fn view(&self) -> ImportDeclView {
        ImportDeclView {
            src: self.src@,
            specifiers: self.specifiers@.map_values(|s: ImportSpecifier| s@),
        }
    }
}

/// What a member access in a tag name starts from.
#[derive(Debug, PartialEq, Eq)]
pub enum JSXObject {
    JSXMemberExpr(Box<JSXMemberExpr>),
    Ident(Id),
}

/// A dotted tag name such as `A.B.C`: the access of `prop` on `obj`.
#[derive(Debug, PartialEq, Eq)]
pub struct JSXMemberExpr {
    pub obj: JSXObject,
    pub prop: String,
}

impl JSXMemberExpr {
    /// The identifier that the chain starts from: `A` in `A.B.C`.
    pub open spec fn root(&self) -> IdView
        decreases self,
    {
        match &self.obj {
            JSXObject::Ident(id) => id@,
            JSXObject::JSXMemberExpr(inner) => inner.root(),
        }
    }

    /// The accessed names in source order: `B`, `C` in `A.B.C`.
    pub open spec fn props(&self) -> Seq<Seq<char>>
        decreases self,
    {
        match &self.obj {
            JSXObject::Ident(_) => seq![self.prop@],
            JSXObject::JSXMemberExpr(inner) => inner.props().push(self.prop@),
        }
    }
}

/// The name of an element's tag.
#[derive(Debug, PartialEq, Eq)]
pub enum JSXElementName {
    Ident(Id),
    JSXMemberExpr(JSXMemberExpr),
    /// `ns:name`, which names no binding.
    JSXNamespacedName,
}

/// The mathematical content of a [`JSXElementName`].
#[verifier::ext_equal]
pub enum JSXElementNameView {
    Ident(IdView),
    Member { root: IdView, props: Seq<Seq<char>> },
    Namespaced,
}

impl View for JSXElementName {
    type V = JSXElementNameView;

    open spec fn view(&self) -> JSXElementNameView {
        match self {
            JSXElementName::Ident(id) => JSXElementNameView::Ident(id@),
            JSXElementName::JSXMemberExpr(m) => JSXElementNameView::Member {
                root: m.root(),
                props: m.props(),
            },
            JSXElementName::JSXNamespacedName => JSXElementNameView::Namespaced,
        }
    }
}

/// A literal expression: what a JSON value compiles to.
#[derive(Debug, PartialEq, Eq)]
pub enum Expr {
    Null,
    Bool(bool),
    /// A numeric literal, held as the bit pattern of its IEEE-754 binary64
    /// value.
    Num(u64),
    Str(String),
    /// An array literal without holes or spreads.
    Array(Vec<Expr>),
    /// An object literal of plain `"key": value` properties.
    Object(Vec<KeyValueProp>),
}

/// One property of an object literal, keyed by a string.
#[derive(Debug, PartialEq, Eq)]
pub struct KeyValueProp {
    pub key: String,
    pub value: Expr,
}

/// The mathematical content of an [`Expr`].
#[verifier::ext_equal]
pub enum ExprView {
    Null,
    Bool(bool),
    Num(u64),
    Str(Seq<char>),
    Array(Seq<ExprView>),
    Object(Seq<(Seq<char>, ExprView)>),
}

/// The content of an expression.
pub open spec fn expr_view(expr: Expr) -> ExprView
    decreases expr,
{
    match expr {
        Expr::Null => ExprView::Null,
        Expr::Bool(b) => ExprView::Bool(b),
        Expr::Num(n) => ExprView::Num(n),
        Expr::Str(s) => ExprView::Str(s@),
        Expr::Array(elems) => ExprView::Array(
            Seq::new(
                elems.len() as nat,
                |i: int|
                    if 0 <= i < elems.len() {
                        expr_view(elems[i])
                    } else {
                        ExprView::Null
                    },
            ),
        ),
        Expr::Object(props) => ExprView::Object(
            Seq::new(
                props.len() as nat,
                |i: int|
                    if 0 <= i < props.len() {
                        (props[i].key@, expr_view(props[i].value))
                    } else {
                        (Seq::empty(), ExprView::Null)
                    },
            ),
        ),
    }
}

impl View for Expr {
    type V = ExprView;

    open spec fn view(&self) -> ExprView {
        expr_view(*self)
    }
}

impl View for KeyValueProp {
    type V = (Seq<char>, ExprView);

    open spec fn view(&self) -> (Seq<char>, ExprView) {
        (self.key@, self.value@)
    }
}

/// The contents of a list of expressions.
pub open spec fn expr_views(elems: Seq<Expr>) -> Seq<ExprView> {
    Seq::new(elems.len(), |i: int| elems[i]@)
}

/// The contents of a list of properties.
pub open spec fn prop_views(props: Seq<KeyValueProp>) -> Seq<(Seq<char>, ExprView)> {
    Seq::new(props.len(), |i: int| props[i]@)
}

/// An array literal holds the contents of its elements, in their order.
pub proof fn lemma_array_lit_view(elems: Vec<Expr>)
    ensures
        Expr::Array(elems)@ == ExprView::Array(expr_views(elems@)),
{
    let v = Expr::Array(elems)@;
    assert(v is Array);
    assert(v->Array_0.len() == elems.len());
    assert forall|k: int| 0 <= k < elems.len() implies v->Array_0[k] == expr_views(elems@)[k] by {
        assert(v->Array_0[k] == elems[k]@);
    }
    assert(v->Array_0 =~= expr_views(elems@));
}

/// An object literal holds the contents of its properties, in their order.
pub proof fn lemma_object_lit_view(props: Vec<KeyValueProp>)
    ensures
        Expr::Object(props)@ == ExprView::Object(prop_views(props@)),
{
    let v = Expr::Object(props)@;
    assert(v is Object);
    assert(v->Object_0.len() == props.len());
    assert forall|k: int| 0 <= k < props.len() implies v->Object_0[k] == prop_views(props@)[k] by {
        assert(v->Object_0[k] == (props[k].key@, props[k].value@));
    }
    assert(v->Object_0 =~= prop_views(props@));
}

impl Expr {
    /// A copy of the whole tree, sharing no node with `self`.
    #[verifier::loop_isolation(false)]
    pub fn deep_clone(&self) -> (out: Expr)
        ensures
            out@ == self@,
        decreases self,
    {
        match self {
            Expr::Null => Expr::Null,
            Expr::Bool(b) => Expr::Bool(*b),
            Expr::Num(n) => Expr::Num(*n),
            Expr::Str(s) => Expr::Str(s.clone()),
            Expr::Array(elems) => {
                let mut out: Vec<Expr> = Vec::new();
                let mut i: usize = 0;
                while i < elems.len()
                    invariant
                        i <= elems.len(),
                        out.len() == i,
                        forall|k: int| 0 <= k < i ==> out[k]@ == elems[k]@,
                    decreases elems.len() - i,
                {
                    out.push(elems[i].deep_clone());
                    i += 1;
                }
                proof {
                    lemma_array_lit_view(out);
                    lemma_array_lit_view(*elems);
                    assert(expr_views(out@) =~= expr_views(elems@));
                }
                Expr::Array(out)
            },
            Expr::Object(props) => {
                let mut out: Vec<KeyValueProp> = Vec::new();
                let mut i: usize = 0;
                while i < props.len()
                    invariant
                        i <= props.len(),
                        out.len() == i,
                        forall|k: int| 0 <= k < i ==> out[k]@ == props[k]@,
                    decreases props.len() - i,
                {
                    out.push(
                        KeyValueProp {
                            key: props[i].key.clone(),
                            value: props[i].value.deep_clone(),
                        },
                    );
                    i += 1;
                }
                proof {
                    lemma_object_lit_view(out);
                    lemma_object_lit_view(*props);
                    assert(prop_views(out@) =~= prop_views(props@));
                }
                Expr::Object(out)
            },
        }
    }
}

/// An attribute `name={value}` whose value is a literal expression.
#[derive(Debug, PartialEq, Eq)]
pub struct JSXAttr {
    pub name: String,
    pub value: Expr,
}

/// The mathematical content of a [`JSXAttr`].
#[verifier::ext_equal]
pub struct JSXAttrView {
    pub name: Seq<char>,
    pub value: ExprView,
}

impl View for JSXAttr {
    type V = JSXAttrView;

    open spec fn view(&self) -> JSXAttrView {
        JSXAttrView { name: self.name@, value: self.value@ }
    }
}

/// One entry of an element's attribute list.
#[derive(Debug, PartialEq, Eq)]
pub enum JSXAttrOrSpread {
    /// An attribute or spread that the element came with. The pass never
    /// looks inside: the number is the host's own ticket for it.
    Existing(usize),
    /// An attribute that the pass put in.
    Injected(JSXAttr),
}

/// The mathematical content of a [`JSXAttrOrSpread`].
#[verifier::ext_equal]
pub enum JSXAttrOrSpreadView {
    Existing(usize),
    Injected(JSXAttrView),
}

impl View for JSXAttrOrSpread {
    type V = JSXAttrOrSpreadView;

    open spec fn view(&self) -> JSXAttrOrSpreadView {
        match self {
            JSXAttrOrSpread::Existing(ticket) => JSXAttrOrSpreadView::Existing(*ticket),
            JSXAttrOrSpread::Injected(attr) => JSXAttrOrSpreadView::Injected(attr@),
        }
    }
}

/// The contents of an attribute list.
pub open spec fn attr_views(attrs: Seq<JSXAttrOrSpread>) -> Seq<JSXAttrOrSpreadView> {
    attrs.map_values(|a: JSXAttrOrSpread| a@)
}

/// The opening tag of an element.
#[derive(Debug, PartialEq, Eq)]
pub struct JSXOpeningElement {
    pub name: JSXElementName,
    pub attrs: Vec<JSXAttrOrSpread>,
}

/// The mathematical content of a [`JSXOpeningElement`].
#[verifier::ext_equal]
pub struct JSXOpeningElementView {
    pub name: JSXElementNameView,
    pub attrs: Seq<JSXAttrOrSpreadView>,
}

impl View for JSXOpeningElement {
    type V = JSXOpeningElementView;

    open spec fn view(&self) -> JSXOpeningElementView {
        JSXOpeningElementView { name: self.name@, attrs: attr_views(self.attrs@) }
    }
}

/// One item of a module's body.
#[derive(Debug, PartialEq, Eq)]
pub enum ModuleItem {
    /// A top-level import declaration.
    Import(ImportDecl),
    /// Any other item, as the elements and nested modules that occur in it,
    /// in source order.
    Other(Vec<Node>),
}

/// What the pass visits inside an item.
#[derive(Debug, PartialEq, Eq)]
pub enum Node {
    /// An element, by its opening tag.
    Element(JSXOpeningElement),
    /// The body of a nested module, which has imports of its own.
    Module(Vec<ModuleItem>),
}

/// The mathematical content of a [`ModuleItem`].
#[verifier::ext_equal]
pub enum ModuleItemView {
    Import(ImportDeclView),
    Other(Seq<NodeView>),
}

/// The mathematical content of a [`Node`].
#[verifier::ext_equal]
pub enum NodeView {
    Element(JSXOpeningElementView),
    Module(Seq<ModuleItemView>),
}

/// The content of one item.
pub open spec fn item_view(item: ModuleItem) -> ModuleItemView
    decreases item,
{
    match item {
        ModuleItem::Import(decl) => ModuleItemView::Import(decl@),
        ModuleItem::Other(nodes) => ModuleItemView::Other(
            Seq::new(
                nodes.len() as nat,
                |i: int|
                    if 0 <= i < nodes.len() {
                        node_view(nodes[i])
                    } else {
                        NodeView::Module(Seq::empty())
                    },
            ),
        ),
    }
}

/// The content of one node.
pub open spec fn node_view(node: Node) -> NodeView
    decreases node,
{
    match node {
        Node::Element(el) => NodeView::Element(el@),
        Node::Module(items) => NodeView::Module(
            Seq::new(
                items.len() as nat,
                |i: int|
                    if 0 <= i < items.len() {
                        item_view(items[i])
                    } else {
                        ModuleItemView::Other(Seq::empty())
                    },
            ),
        ),
    }
}

impl View for ModuleItem {
    type V = ModuleItemView;

    open spec fn view(&self) -> ModuleItemView {
        item_view(*self)
    }
}

impl View for Node {
    type V = NodeView;

    open spec fn view(&self) -> NodeView {
        node_view(*self)
    }
}

/// The contents of a list of items.
pub open spec fn item_views(items: Seq<ModuleItem>) -> Seq<ModuleItemView> {
    Seq::new(items.len(), |i: int| items[i]@)
}

/// The contents of a list of nodes.
pub open spec fn node_views(nodes: Seq<Node>) -> Seq<NodeView> {
    Seq::new(nodes.len(), |i: int| nodes[i]@)
}

/// An item that is no import holds the contents of its nodes, in their order.
pub proof fn lemma_other_view(nodes: Vec<Node>)
    ensures
        ModuleItem::Other(nodes)@ == ModuleItemView::Other(node_views(nodes@)),
{
    let v = ModuleItem::Other(nodes)@;
    assert(v is Other);
    assert(v->Other_0.len() == nodes.len());
    assert forall|k: int| 0 <= k < nodes.len() implies v->Other_0[k] == node_views(nodes@)[k] by {
        assert(v->Other_0[k] == nodes[k]@);
    }
    assert(v->Other_0 =~= node_views(nodes@));
}

/// A nested module holds the contents of its items, in their order.
pub proof fn lemma_module_view(items: Vec<ModuleItem>)
    ensures
        Node::Module(items)@ == NodeView::Module(item_views(items@)),
{
    let v = Node::Module(items)@;
    assert(v is Module);
    assert(v->Module_0.len() == items.len());
    assert forall|k: int| 0 <= k < items.len() implies v->Module_0[k] == item_views(items@)[k] by {
        assert(v->Module_0[k] == items[k]@);
    }
    assert(v->Module_0 =~= item_views(items@));
}

} // verus!
