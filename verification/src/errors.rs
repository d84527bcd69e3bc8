//! The error kinds a resolution can surface. Each exec error carries its
//! paths as strings; `ErrModel` is the same data over character sequences,
//! for use in contracts.

use vstd::prelude::*;

verus! {

/// Spec-level image of `NodeError`.
pub enum ErrModel {
    /// Malformed request.
    InvalidSpecifier(Seq<char>),
    /// `package.json` unreadable, not JSON, or mixing subpath and condition keys.
    InvalidPackageConfig(Seq<char>),
    /// A target string with disallowed segments: package path, then target.
    InvalidPackageTarget(Seq<char>, Seq<char>),
    /// Subpath not matched by `exports`, or matched `null`: package path, then subpath.
    PackagePathNotExported(Seq<char>, Seq<char>),
    /// A `#` request not matched by `imports`: package path, then request.
    PackageImportNotDefined(Seq<char>, Seq<char>),
    /// Bare name not locatable: specifier, then referrer.
    PackageNotFound(Seq<char>, Seq<char>),
    /// Legacy fallback found no file.
    ModuleNotFound(Seq<char>),
    /// The permission gate refused.
    PermissionDenied(Seq<char>),
    /// Underlying read, stat or canonicalize failure.
    Io(Seq<char>),
    /// A path without the requested component.
    InvalidPath(Seq<char>),
}

/// An error of the resolver core.
#[derive(Debug)]
pub enum NodeError {
    InvalidSpecifier(String),
    InvalidPackageConfig(String),
    InvalidPackageTarget(String, String),
    PackagePathNotExported(String, String),
    PackageImportNotDefined(String, String),
    PackageNotFound(String, String),
    ModuleNotFound(String),
    PermissionDenied(String),
    Io(String),
    InvalidPath(String),
}

impl View for NodeError {
    type V = ErrModel;

    open spec fn view(&self) -> ErrModel {
        match self {
            NodeError::InvalidSpecifier(a) => ErrModel::InvalidSpecifier(a@),
            NodeError::InvalidPackageConfig(a) => ErrModel::InvalidPackageConfig(a@),
            NodeError::InvalidPackageTarget(a, b) => ErrModel::InvalidPackageTarget(a@, b@),
            NodeError::PackagePathNotExported(a, b) => ErrModel::PackagePathNotExported(a@, b@),
            NodeError::PackageImportNotDefined(a, b) => ErrModel::PackageImportNotDefined(a@, b@),
            NodeError::PackageNotFound(a, b) => ErrModel::PackageNotFound(a@, b@),
            NodeError::ModuleNotFound(a) => ErrModel::ModuleNotFound(a@),
            NodeError::PermissionDenied(a) => ErrModel::PermissionDenied(a@),
            NodeError::Io(a) => ErrModel::Io(a@),
            NodeError::InvalidPath(a) => ErrModel::InvalidPath(a@),
        }
    }
}

/// The text of an error message: a label followed by the offending values.
pub open spec fn spec_message(m: ErrModel) -> Seq<char> {
    match m {
        ErrModel::InvalidSpecifier(a) => "invalid module specifier: "@ + a,
        ErrModel::InvalidPackageConfig(a) => "invalid package config: "@ + a,
        ErrModel::InvalidPackageTarget(a, b) => "invalid package target in "@ + a + ": "@ + b,
        ErrModel::PackagePathNotExported(a, b) => "package path not exported by "@ + a + ": "@
            + b,
        ErrModel::PackageImportNotDefined(a, b) => "package import not defined in "@ + a + ": "@
            + b,
        ErrModel::PackageNotFound(a, b) => "package not found: "@ + a + " from "@ + b,
        ErrModel::ModuleNotFound(a) => "module not found: "@ + a,
        ErrModel::PermissionDenied(a) => "permission denied reading "@ + a,
        ErrModel::Io(a) => "i/o failure on "@ + a,
        ErrModel::InvalidPath(a) => "path has no such component: "@ + a,
    }
}

impl NodeError {
    /// A human-readable description of the error.
    pub fn message(&self) -> (r: String)
        ensures
            r@ == spec_message(self@),
    {
        match self {
            NodeError::InvalidSpecifier(a) => join2("invalid module specifier: ", a),
            NodeError::InvalidPackageConfig(a) => join2("invalid package config: ", a),
            NodeError::InvalidPackageTarget(a, b) => join4(
                "invalid package target in ",
                a,
                ": ",
                b,
            ),
            NodeError::PackagePathNotExported(a, b) => join4(
                "package path not exported by ",
                a,
                ": ",
                b,
            ),
            NodeError::PackageImportNotDefined(a, b) => join4(
                "package import not defined in ",
                a,
                ": ",
                b,
            ),
            NodeError::PackageNotFound(a, b) => join4("package not found: ", a, " from ", b),
            NodeError::ModuleNotFound(a) => join2("module not found: ", a),
            NodeError::PermissionDenied(a) => join2("permission denied reading ", a),
            NodeError::Io(a) => join2("i/o failure on ", a),
            NodeError::InvalidPath(a) => join2("path has no such component: ", a),
        }
    }
}

/// `label` followed by `a`.
fn join2(label: &str, a: &String) -> (r: String)
    ensures
        r@ == label@ + a@,
{
    let lc = crate::chars::str_to_chars(label);
    let ac = crate::chars::str_to_chars(a.as_str());
    crate::chars::chars_to_string(&crate::chars::concat_chars(&lc, &ac))
}

/// `label`, `a`, `sep`, `b`, in order.
fn join4(label: &str, a: &String, sep: &str, b: &String) -> (r: String)
    ensures
        r@ == label@ + a@ + sep@ + b@,
{
    let lc = crate::chars::str_to_chars(label);
    let ac = crate::chars::str_to_chars(a.as_str());
    let sc = crate::chars::str_to_chars(sep);
    let bc = crate::chars::str_to_chars(b.as_str());
    let r = crate::chars::concat_chars(
        &crate::chars::concat_chars(&crate::chars::concat_chars(&lc, &ac), &sc),
        &bc,
    );
    crate::chars::chars_to_string(&r)
}

} // verus!
