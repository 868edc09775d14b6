//! FFI types, structs and callbacks, and the role that a callback plays.

use vstd::prelude::*;

use crate::case::{snake_case, to_snake_case};
use crate::text::{concat, same_text, starts_with};

verus! {

/// The crate and type that a foreign buffer stands for.
#[derive(Debug)]
pub struct ExternalFfiMetadata {
    pub name: String,
    pub module: String,
}

#[derive(Debug)]
pub enum FfiType {
    UInt8,
    Int8,
    UInt16,
    Int16,
    UInt32,
    Int32,
    UInt64,
    Int64,
    Float32,
    Float64,
    RustBuffer(Option<ExternalFfiMetadata>),
    ForeignBytes,
    /// A pointer to the callback of the given name.
    Callback(String),
    /// A pointer to the struct of the given name.
    Struct(String),
    Handle,
    RustCallStatus,
    Reference(Box<FfiType>),
    MutReference(Box<FfiType>),
    VoidPointer,
}

#[derive(Debug)]
pub struct FfiField {
    pub name: String,
    pub type_: FfiType,
}

#[derive(Debug)]
pub struct FfiStruct {
    pub name: String,
    pub fields: Vec<FfiField>,
    /// Whether it describes a future that foreign code runs.
    pub is_foreign_future: bool,
    /// Whether it is the table of the methods of a callback interface.
    pub is_vtable: bool,
}

#[derive(Debug)]
pub struct FfiCallbackFunction {
    pub name: String,
    /// Whether it frees a foreign object.
    pub is_free_callback: bool,
    /// Whether it is a method of a callback interface.
    pub is_user_callback: bool,
    /// Whether it is passed as a function rather than in a table.
    pub is_function_literal: bool,
    /// Whether it goes on with a Rust future.
    pub is_continuation_callback: bool,
    /// What it returns through an argument.
    pub arg_return_type: Option<FfiType>,
    /// Whether it returns through an argument.
    pub has_return_out_param: bool,
}

#[derive(Debug)]
pub enum FfiDefinition {
    Function,
    CallbackFunction(FfiCallbackFunction),
    Struct(FfiStruct),
}

/// What a callback is for.
#[derive(Clone, Copy, Debug, PartialEq, Eq, Structural)]
pub enum CallbackRole {
    Free,
    Clone,
    UserMethod,
    FutureInfra,
    Continuation,
    FunctionLiteral,
}

/// A name as the name of a Rust module.
pub fn snake_case_ident(name: &str) -> (r: String)
    ensures
        r@ == snake_case(name@),
{
    to_snake_case(name)
}

impl FfiStruct {
    pub fn module_ident(&self) -> (r: String)
        ensures
            r@ == snake_case(self.name@),
    {
        snake_case_ident(self.name.as_str())
    }
}

impl FfiCallbackFunction {
    pub open spec fn clones(self) -> bool {
        self.name@ == "CallbackInterfaceClone"@
    }

    /// The module of a callback that frees objects of the struct `enclosing`.
    pub fn module_ident_free(&self, enclosing: &FfiStruct) -> (r: String)
        ensures
            r@ == snake_case(enclosing.name@) + "__free"@,
    {
        concat(enclosing.module_ident().as_str(), "__free")
    }

    /// The module of a callback that clones objects of the struct `enclosing`.
    pub fn module_ident_clone(&self, enclosing: &FfiStruct) -> (r: String)
        ensures
            r@ == snake_case(enclosing.name@) + "__clone"@,
    {
        concat(enclosing.module_ident().as_str(), "__clone")
    }

    pub fn module_ident(&self) -> (r: String)
        ensures
            r@ == snake_case(self.name@),
    {
        snake_case_ident(self.name.as_str())
    }

    pub fn is_clone_callback(&self) -> (r: bool)
        ensures
            r == self.clones(),
    {
        same_text(self.name.as_str(), "CallbackInterfaceClone")
    }

    /// Whether it completes a future that foreign code runs.
    pub fn is_future_callback(&self) -> (r: bool)
        ensures
            r == ("ForeignFuture"@.is_prefix_of(self.name@) && self.name@
                != "ForeignFutureDroppedCallback"@),
    {
        starts_with(self.name.as_str(), "ForeignFuture") && !same_text(
            self.name.as_str(),
            "ForeignFutureDroppedCallback",
        )
    }

    /// The first role that fits, in the order in which they are tried.
    pub open spec fn role(self) -> CallbackRole {
        if self.is_free_callback {
            CallbackRole::Free
        } else if self.clones() {
            CallbackRole::Clone
        } else if self.is_user_callback {
            CallbackRole::UserMethod
        } else if self.is_function_literal {
            CallbackRole::FunctionLiteral
        } else if self.is_continuation_callback {
            CallbackRole::Continuation
        } else {
            CallbackRole::FutureInfra
        }
    }
}

/// The role of `callback`.
pub fn classify_callback(callback: &FfiCallbackFunction) -> (r: CallbackRole)
    ensures
        r == callback.role(),
{
    if callback.is_free_callback {
        CallbackRole::Free
    } else if callback.is_clone_callback() {
        CallbackRole::Clone
    } else if callback.is_user_callback {
        CallbackRole::UserMethod
    } else if callback.is_function_literal {
        CallbackRole::FunctionLiteral
    } else if callback.is_continuation_callback {
        CallbackRole::Continuation
    } else {
        CallbackRole::FutureInfra
    }
}

} // verus!
