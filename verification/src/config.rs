//! The configuration of the pass: which attributes go to which imported
//! component.

use vstd::prelude::*;
use crate::json::{JsonValue, JsonValueView};

verus! {

/// Where a new attribute goes in the attribute list of an element.
#[derive(Clone, Copy, Debug, PartialEq, Eq)]
pub enum InjectAttrRule {
    /// After every attribute that the element holds.
    Append,
    /// Before every attribute that the element holds.
    Prepend,
}

impl Default for InjectAttrRule {
    fn default() -> (rule: Self)
        ensures
            rule == InjectAttrRule::Prepend,
    {
        InjectAttrRule::Prepend
    }
}

/// One attribute to inject.
#[derive(Debug, PartialEq, Eq)]
pub struct InjectAttrConfig {
    /// jsx attribute name
    pub name: String,
    /// inject rule
    pub rule: InjectAttrRule,
    /// jsx attribute value
    pub value: JsonValue,
}

/// The mathematical content of an [`InjectAttrConfig`].
#[verifier::ext_equal]
pub struct InjectAttrConfigView {
    pub name: Seq<char>,
    pub rule: InjectAttrRule,
    pub value: JsonValueView,
}

impl View for InjectAttrConfig {
    type V = InjectAttrConfigView;

    open spec fn view(&self) -> InjectAttrConfigView {
        InjectAttrConfigView { name: self.name@, rule: self.rule, value: self.value@ }
    }
}

impl Clone for InjectAttrConfig {
    fn clone(&self) -> (out: Self)
        ensures
            out@ == self@,
    {
        InjectAttrConfig {
            name: self.name.clone(),
            rule: self.rule,
            value: self.value.deep_clone(),
        }
    }
}

/// The contents of a list of attributes to inject.
pub open spec fn attr_config_views(attrs: Seq<InjectAttrConfig>) -> Seq<InjectAttrConfigView> {
    attrs.map_values(|a: InjectAttrConfig| a@)
}

/// The attributes for one component of a package.
#[derive(Clone, Debug, PartialEq, Eq)]
pub struct ComponentConfig {
    /// The dotted path of the component among the exports of the package,
    /// such as `Button` or `Dropdown.Link`; a first segment `default` stands
    /// for the default export.
    pub path: String,
    /// The attributes to inject, in the order in which they are applied.
    pub attrs: Vec<InjectAttrConfig>,
}

/// The mathematical content of a [`ComponentConfig`].
#[verifier::ext_equal]
pub struct ComponentConfigView {
    pub path: Seq<char>,
    pub attrs: Seq<InjectAttrConfigView>,
}

impl View for ComponentConfig {
    type V = ComponentConfigView;

    open spec fn view(&self) -> ComponentConfigView {
        ComponentConfigView { path: self.path@, attrs: attr_config_views(self.attrs@) }
    }
}

/// The components of the packages that one pattern selects.
#[derive(Clone, Debug, PartialEq, Eq)]
pub struct PackageConfig {
    /// A regular expression, tested against the source string of an import
    /// declaration as it is written.
    pub import: String,
    pub components: Vec<ComponentConfig>,
}

/// The mathematical content of a [`PackageConfig`].
#[verifier::ext_equal]
pub struct PackageConfigView {
    pub import: Seq<char>,
    pub components: Seq<ComponentConfigView>,
}

impl View for PackageConfig {
    type V = PackageConfigView;

    open spec fn view(&self) -> PackageConfigView {
        PackageConfigView {
            import: self.import@,
            components: self.components@.map_values(|c: ComponentConfig| c@),
        }
    }
}

/// The configuration of the pass: import pattern, then component path, then
/// the attributes to inject.
#[derive(Clone, Debug, PartialEq, Eq)]
pub struct Config {
    /// The packages, in the order in which they are tested against an
    /// import.
    pub inject: Vec<PackageConfig>,
}

/// The mathematical content of a [`Config`].
#[verifier::ext_equal]
pub struct ConfigView {
    pub inject: Seq<PackageConfigView>,
}

impl View for Config {
    type V = ConfigView;

    open spec fn view(&self) -> ConfigView {
        ConfigView { inject: self.inject@.map_values(|p: PackageConfig| p@) }
    }
}

} // verus!
