//! The data model: the immutable documentation tree (root, namespaces and
//! classes, methods, overloads, parameters, fields) and the error type for
//! data-integrity faults found while rendering a page.

use vstd::prelude::*;

verus! {

/// One call parameter: a name and a type-tag string.
pub struct Parameter {
    pub name: String,
    pub type_tag: String,
}

/// One parameter-list variant of a method, in call-signature order.
pub struct Overload(pub Vec<Parameter>);

/// A documented method. The i-th overload is paired with the i-th entry of
/// `returns`; unequal lengths are an input-data error.
pub struct Method {
    pub aliases: Vec<String>,
    pub description: String,
    pub name: String,
    pub parameters: Vec<Overload>,
    pub returns: Vec<String>,
    pub is_static: bool,
}

/// A field of a namespace or class. A field whose type-tag is `Function`
/// never carries documentation-page children; every other tag marks its
/// children as nested documentation pages.
pub struct Field {
    pub name: String,
    pub description: String,
    pub type_tag: String,
    pub editable: bool,
    pub children: Vec<Class>,
}

/// A namespace or class: a renderable documentation page.
pub struct Class {
    pub name: String,
    pub description: String,
    pub methods: Vec<Method>,
    pub fields: Vec<Field>,
}

/// The documentation root: the global namespace tree and the built-in
/// module, which is addressable as a page by the reserved name `math`.
pub struct Docs {
    pub globals: Class,
    pub math: Class,
}

/// A data-integrity fault that makes one page unrenderable.
#[derive(Debug)]
pub enum DocError {
    /// A method whose overload count and return-type count differ.
    OverloadMismatch { method: String },
    /// A field of type `Function` that carries child documentation pages.
    FunctionFieldChildren { field: String },
}

/// The diagnostic text for a data-integrity fault.
pub open spec fn spec_error_message(e: DocError) -> Seq<char> {
    match e {
        DocError::OverloadMismatch { method } => "Method "@ + method@
            + ": overload and return counts differ"@,
        DocError::FunctionFieldChildren { field } => "Field "@ + field@
            + ": a Function field cannot carry documentation pages"@,
    }
}

impl DocError {
    /// The diagnostic text identifying the offending method or field.
    pub fn message(&self) -> (r: String)
        ensures
            r@ == spec_error_message(*self),
    {
        match self {
            DocError::OverloadMismatch { method } => {
                let mut r: String = "Method ".to_owned();
                r.append(method.as_str());
                r.append(": overload and return counts differ");
                r
            },
            DocError::FunctionFieldChildren { field } => {
                let mut r: String = "Field ".to_owned();
                r.append(field.as_str());
                r.append(": a Function field cannot carry documentation pages");
                r
            },
        }
    }
}

} // verus!
