use vstd::prelude::*;

verus! {

/// A node of a package tree, with the name of what it describes.
#[derive(Debug)]
pub enum PkgNode {
    ActionFunc(String),
    AttrFuncInput(String),
    Category(String),
    ChangeSet(String),
    ChangeSetChild(String),
    Func(String),
    FuncArgument(String),
    LeafFunction(String),
    MapKeyFunc(String),
    Package(String),
    Prop(String),
    PropChild(String),
    Schema(String),
    SchemaVariant(String),
    SchemaVariantChild(String),
    SiPropFunc(String),
    Socket(String),
    Validation(String),
}

/// The tag under which a node of each kind is written.
pub open spec fn node_kind_name(n: PkgNode) -> Seq<char> {
    match n {
        PkgNode::ActionFunc(_) => "action_func"@,
        PkgNode::AttrFuncInput(_) => "attr_func_input"@,
        PkgNode::Category(_) => "category"@,
        PkgNode::ChangeSet(_) => "change_set"@,
        PkgNode::ChangeSetChild(_) => "change_set_child"@,
        PkgNode::Func(_) => "func"@,
        PkgNode::FuncArgument(_) => "func_argument"@,
        PkgNode::LeafFunction(_) => "leaf_function"@,
        PkgNode::MapKeyFunc(_) => "map_key_func"@,
        PkgNode::Package(_) => "package"@,
        PkgNode::Prop(_) => "prop"@,
        PkgNode::PropChild(_) => "prop_child"@,
        PkgNode::Schema(_) => "schema"@,
        PkgNode::SchemaVariant(_) => "schema_variant"@,
        PkgNode::SchemaVariantChild(_) => "schema_variant_child"@,
        PkgNode::SiPropFunc(_) => "si_prop_func"@,
        PkgNode::Socket(_) => "socket"@,
        PkgNode::Validation(_) => "validation"@,
    }
}

impl PkgNode {
    /// The tag under which the node is written.
    pub fn node_kind_str(&self) -> (r: &'static str)
        ensures
            r@ == node_kind_name(*self),
    {
        match self {
            PkgNode::ActionFunc(_) => "action_func",
            PkgNode::AttrFuncInput(_) => "attr_func_input",
            PkgNode::Category(_) => "category",
            PkgNode::ChangeSet(_) => "change_set",
            PkgNode::ChangeSetChild(_) => "change_set_child",
            PkgNode::Func(_) => "func",
            PkgNode::FuncArgument(_) => "func_argument",
            PkgNode::LeafFunction(_) => "leaf_function",
            PkgNode::MapKeyFunc(_) => "map_key_func",
            PkgNode::Package(_) => "package",
            PkgNode::Prop(_) => "prop",
            PkgNode::PropChild(_) => "prop_child",
            PkgNode::Schema(_) => "schema",
            PkgNode::SchemaVariant(_) => "schema_variant",
            PkgNode::SchemaVariantChild(_) => "schema_variant_child",
            PkgNode::SiPropFunc(_) => "si_prop_func",
            PkgNode::Socket(_) => "socket",
            PkgNode::Validation(_) => "validation",
        }
    }

    /// The name of what the node describes.
    pub fn name(&self) -> (r: &String)
        ensures
            match *self {
                PkgNode::ActionFunc(s) | PkgNode::AttrFuncInput(s) | PkgNode::Category(s)
                | PkgNode::ChangeSet(s) | PkgNode::ChangeSetChild(s) | PkgNode::Func(s)
                | PkgNode::FuncArgument(s) | PkgNode::LeafFunction(s) | PkgNode::MapKeyFunc(s)
                | PkgNode::Package(s) | PkgNode::Prop(s) | PkgNode::PropChild(s) | PkgNode::Schema(s)
                | PkgNode::SchemaVariant(s) | PkgNode::SchemaVariantChild(s) | PkgNode::SiPropFunc(s)
                | PkgNode::Socket(s) | PkgNode::Validation(s) => *r == s,
            },
    {
        match self {
            PkgNode::ActionFunc(s) | PkgNode::AttrFuncInput(s) | PkgNode::Category(s)
            | PkgNode::ChangeSet(s) | PkgNode::ChangeSetChild(s) | PkgNode::Func(s)
            | PkgNode::FuncArgument(s) | PkgNode::LeafFunction(s) | PkgNode::MapKeyFunc(s)
            | PkgNode::Package(s) | PkgNode::Prop(s) | PkgNode::PropChild(s) | PkgNode::Schema(s)
            | PkgNode::SchemaVariant(s) | PkgNode::SchemaVariantChild(s) | PkgNode::SiPropFunc(s)
            | PkgNode::Socket(s) | PkgNode::Validation(s) => s,
        }
    }
}

} // verus!
