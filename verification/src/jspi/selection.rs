//! What a configuration selects, and how a selector can fail.

use vstd::prelude::*;
use vstd::string::*;

verus! {

/// The `jspi` setting of a configuration.
#[derive(Debug)]
pub enum JspiSelection {
    /// Every callable that can suspend, or none.
    All(bool),
    /// The callables that the selectors name.
    Named(Vec<String>),
    /// The selection that the options describe.
    Options(JspiOptions),
}

#[derive(Debug)]
pub struct JspiOptions {
    /// Select the callables that are `async` in Rust.
    pub rust_async: bool,
    /// Selectors to add.
    pub included: Vec<String>,
    /// Selectors to take away.
    pub excluded: Vec<String>,
}

/// Why a selector selects nothing.
#[derive(Debug)]
pub enum SelectError {
    /// Not of the form `name` or `Type.member`.
    Invalid { selector: String },
    /// No top-level function or type has the name.
    UnknownOwner { selector: String, owner: String },
    /// Several top-level functions or types have the name.
    AmbiguousOwner { selector: String, owner: String },
    /// The type has no such method or constructor.
    UnknownMember { selector: String, owner: String, member: String },
    /// The type has several methods or constructors of the name.
    AmbiguousMember { selector: String },
    /// The callable may call back, or has an ABI that cannot suspend.
    CallbackCapable { selector: String },
}

/// A [`SelectError`] in terms of the texts that it carries.
pub enum SelectErrorView {
    Invalid { selector: Seq<char> },
    UnknownOwner { selector: Seq<char>, owner: Seq<char> },
    AmbiguousOwner { selector: Seq<char>, owner: Seq<char> },
    UnknownMember { selector: Seq<char>, owner: Seq<char>, member: Seq<char> },
    AmbiguousMember { selector: Seq<char> },
    CallbackCapable { selector: Seq<char> },
}

impl View for SelectError {
    type V = SelectErrorView;

    open spec fn view(&self) -> SelectErrorView {
        match *self {
            SelectError::Invalid { selector } => SelectErrorView::Invalid { selector: selector@ },
            SelectError::UnknownOwner { selector, owner } => SelectErrorView::UnknownOwner {
                selector: selector@,
                owner: owner@,
            },
            SelectError::AmbiguousOwner { selector, owner } => SelectErrorView::AmbiguousOwner {
                selector: selector@,
                owner: owner@,
            },
            SelectError::UnknownMember { selector, owner, member } => SelectErrorView::UnknownMember {
                selector: selector@,
                owner: owner@,
                member: member@,
            },
            SelectError::AmbiguousMember { selector } => SelectErrorView::AmbiguousMember {
                selector: selector@,
            },
            SelectError::CallbackCapable { selector } => SelectErrorView::CallbackCapable {
                selector: selector@,
            },
        }
    }
}

impl SelectErrorView {
    /// The text shown to the user.
    pub open spec fn message(self) -> Seq<char> {
        match self {
            SelectErrorView::Invalid { selector } => "invalid jspi selector `"@ + selector
                + "`: expected a function, type, or Type.member (Type.constructor for the primary constructor)"@,
            SelectErrorView::UnknownOwner { selector, owner } => "unknown jspi selection `"@
                + selector
                + "`: no top-level function or object/record/enum type matches `"@ + owner + "`"@,
            SelectErrorView::AmbiguousOwner { selector, owner } => "ambiguous jspi selection `"@
                + selector + "`: multiple top-level functions or types match `"@ + owner + "`"@,
            SelectErrorView::UnknownMember { selector, owner, member } =>
                "unknown jspi selection `"@ + selector + "`: no method or constructor matches `"@
                + member + "` on `"@ + owner
                + "` (use Type.constructor for the primary constructor)"@,
            SelectErrorView::AmbiguousMember { selector } => "ambiguous jspi selection `"@
                + selector
                + "`: multiple methods or constructors match after name normalization"@,
            SelectErrorView::CallbackCapable { selector } => "jspi selection `"@ + selector
                + "` is callback-capable or has an unsupported ABI; suspending inbound callback interfaces is not supported"@,
        }
    }
}

impl SelectError {
    /// The text shown to the user.
    pub fn message(&self) -> (r: String)
        ensures
            r@ == self@.message(),
    {
        match self {
            SelectError::Invalid { selector } => {
                let mut r = "invalid jspi selector `".to_owned();
                r.append(selector.as_str());
                r.append("`: expected a function, type, or Type.member (Type.constructor for the primary constructor)");
                r
            },
            SelectError::UnknownOwner { selector, owner } => {
                let mut r = "unknown jspi selection `".to_owned();
                r.append(selector.as_str());
                r.append("`: no top-level function or object/record/enum type matches `");
                r.append(owner.as_str());
                r.append("`");
                r
            },
            SelectError::AmbiguousOwner { selector, owner } => {
                let mut r = "ambiguous jspi selection `".to_owned();
                r.append(selector.as_str());
                r.append("`: multiple top-level functions or types match `");
                r.append(owner.as_str());
                r.append("`");
                r
            },
            SelectError::UnknownMember { selector, owner, member } => {
                let mut r = "unknown jspi selection `".to_owned();
                r.append(selector.as_str());
                r.append("`: no method or constructor matches `");
                r.append(member.as_str());
                r.append("` on `");
                r.append(owner.as_str());
                r.append("` (use Type.constructor for the primary constructor)");
                r
            },
            SelectError::AmbiguousMember { selector } => {
                let mut r = "ambiguous jspi selection `".to_owned();
                r.append(selector.as_str());
                r.append("`: multiple methods or constructors match after name normalization");
                r
            },
            SelectError::CallbackCapable { selector } => {
                let mut r = "jspi selection `".to_owned();
                r.append(selector.as_str());
                r.append("` is callback-capable or has an unsupported ABI; suspending inbound callback interfaces is not supported");
                r
            },
        }
    }
}

/// A selection that fails for a wasm2 build.
#[derive(Debug)]
pub struct Wasm2SelectError {
    pub cause: SelectError,
}

impl Wasm2SelectError {
    /// The text shown to the user.
    pub fn message(&self) -> (r: String)
        ensures
            r@ == "wasm2 JSPI selection contains an unsupported callable: "@
                + self.cause@.message(),
    {
        let mut r = "wasm2 JSPI selection contains an unsupported callable: ".to_owned();
        r.append(self.cause.message().as_str());
        r
    }
}

} // verus!
