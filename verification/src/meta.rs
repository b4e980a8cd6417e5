use crate::ast::AstNode;
use crate::span::Span;
use vstd::prelude::*;

verus! {

/// What a package is built into.
#[derive(Debug, Clone, Copy, PartialEq, Eq, Structural)]
pub enum PackageKind {
    Binary,
    Library,
}

impl PackageKind {
    /// The name of the file with which a package of this kind begins.
    pub open spec fn spec_filename(self) -> Seq<char> {
        match self {
            PackageKind::Binary => "main.dusk"@,
            PackageKind::Library => "lib.dusk"@,
        }
    }

    /// The name of the file with which a package of this kind begins.
    pub fn filename(&self) -> (result: &'static str)
        ensures
            result@ == self.spec_filename(),
    {
        match self {
            PackageKind::Binary => "main.dusk",
            PackageKind::Library => "lib.dusk",
        }
    }
}

/// The name of something in a package.
#[derive(Debug, PartialEq, Eq, Hash)]
pub enum DuskPath {
    Root,
    Name(String),
    Member { left: Box<DuskPath>, right: Box<DuskPath> },
    Scope { left: Box<DuskPath>, right: Box<DuskPath> },
}

/// Where the file of a module lies.
#[derive(Debug, Clone, Copy, PartialEq, Eq, Structural)]
pub enum Layout {
    /// In a file with the name of the module, beside the file that declares
    /// it.
    Sibling,
    /// In a directory with the name of the module, as its module file.
    Nested,
}

/// Where the file of a module lies, given which of the two candidates
/// exist. With both or neither the module is not resolved.
pub fn choose_layout(sibling_exists: bool, nested_exists: bool) -> (result: Option<Layout>)
    ensures
        result == if sibling_exists && !nested_exists {
            Some(Layout::Sibling)
        } else if !sibling_exists && nested_exists {
            Some(Layout::Nested)
        } else {
            None::<Layout>
        },
{
    if sibling_exists && !nested_exists {
        Some(Layout::Sibling)
    } else if !sibling_exists && nested_exists {
        Some(Layout::Nested)
    } else {
        None
    }
}

/// The names of the modules that `items` declare, in their order.
pub open spec fn declared_modules(items: Seq<AstNode>) -> Seq<Span>
    decreases items.len(),
{
    if items.len() == 0 {
        Seq::empty()
    } else {
        match items.last() {
            AstNode::Module { name, .. } => declared_modules(items.drop_last()).push(name),
            _ => declared_modules(items.drop_last()),
        }
    }
}

/// The spans of the names of the modules that `items` declare, in their
/// order.
pub fn submodules(items: &Vec<AstNode>) -> (result: Vec<Span>)
    ensures
        result@ == declared_modules(items@),
{
    let mut out: Vec<Span> = Vec::new();
    let mut index: usize = 0;
    assert(items@.take(0) =~= Seq::empty());
    while index < items.len()
        invariant
            index <= items@.len(),
            out@ == declared_modules(items@.take(index as int)),
        decreases items@.len() - index,
    {
        proof {
            assert(items@.take(index + 1).drop_last() =~= items@.take(index as int));
        }
        match &items[index] {
            AstNode::Module { name, .. } => {
                out.push(*name);
            },
            _ => {},
        }
        index += 1;
    }
    assert(items@.take(index as int) =~= items@);
    out
}

} // verus!
