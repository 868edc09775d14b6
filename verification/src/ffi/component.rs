//! A component interface, as far as the bindings read it.

use vstd::prelude::*;

use crate::ffi::definitions::{
    declared, definition_views, ffi_definitions2, is_complete, module_names, FfiDefinition2, Traffic,
};
use crate::ffi::roles::FfiDefinition;
use crate::jspi::namespace::ObjectImpl;

verus! {

#[derive(Debug)]
pub struct Object {
    pub name: String,
    pub imp: ObjectImpl,
}

/// A function, method or constructor.
#[derive(Debug)]
pub struct CallableSignature {
    pub is_async: bool,
}

#[derive(Debug)]
pub struct ComponentInterface {
    /// The names of the callback interfaces.
    pub callback_interface_definitions: Vec<String>,
    pub object_definitions: Vec<Object>,
    pub callables: Vec<CallableSignature>,
    /// Whether a callback interface, or an object that foreign code can implement, has an `async`
    /// method.
    pub has_async_callback_interface_definition: bool,
    pub ffi_definitions: Vec<FfiDefinition>,
}

impl ComponentInterface {
    /// Whether Rust can call into foreign code.
    pub open spec fn calls_back(self) -> bool {
        ||| self.callback_interface_definitions@.len() > 0
        ||| exists|i: int|
            0 <= i < self.object_definitions@.len() && (#[trigger] self.object_definitions@[i]).imp
                == ObjectImpl::CallbackTrait
    }

    /// Whether foreign code can wait for Rust.
    pub open spec fn calls_async(self) -> bool {
        exists|i: int| 0 <= i < self.callables@.len() && (#[trigger] self.callables@[i]).is_async
    }

    pub open spec fn traffic(self) -> Traffic {
        Traffic {
            has_async_calls: self.calls_async(),
            has_callbacks: self.calls_back(),
            has_async_callbacks: self.has_async_callback_interface_definition,
        }
    }

    /// Whether Rust can call into foreign code.
    pub fn has_callbacks(&self) -> (r: bool)
        ensures
            r == self.calls_back(),
    {
        if self.callback_interface_definitions.len() > 0 {
            return true;
        }
        let mut i: usize = 0;
        while i < self.object_definitions.len()
            invariant
                i <= self.object_definitions@.len(),
                forall|k: int|
                    0 <= k < i ==> (#[trigger] self.object_definitions@[k]).imp
                        != ObjectImpl::CallbackTrait,
            decreases self.object_definitions@.len() - i,
        {
            if self.object_definitions[i].imp.has_callback_interface() {
                return true;
            }
            i += 1;
        }
        false
    }

    /// Whether foreign code can wait for Rust.
    pub fn has_async_calls(&self) -> (r: bool)
        ensures
            r == self.calls_async(),
    {
        let mut i: usize = 0;
        while i < self.callables.len()
            invariant
                i <= self.callables@.len(),
                forall|k: int| 0 <= k < i ==> !(#[trigger] self.callables@[k]).is_async,
            decreases self.callables@.len() - i,
        {
            if self.callables[i].is_async {
                return true;
            }
            i += 1;
        }
        false
    }

    /// What the component does across the FFI.
    pub fn read_traffic(&self) -> (r: Traffic)
        ensures
            r == self.traffic(),
    {
        Traffic {
            has_async_calls: self.has_async_calls(),
            has_callbacks: self.has_callbacks(),
            has_async_callbacks: self.has_async_callback_interface_definition,
        }
    }

    /// What the bindings declare for the component.
    pub fn ffi_definitions2<'a>(&'a self) -> (r: Vec<FfiDefinition2<'a>>)
        requires
            is_complete(self.ffi_definitions@, self.traffic()),
        ensures
            definition_views(r@) == declared(
                self.ffi_definitions@,
                module_names(self.ffi_definitions@),
                self.traffic(),
            ),
    {
        ffi_definitions2(
            &self.ffi_definitions,
            self.has_async_calls(),
            self.has_callbacks(),
            self.has_async_callback_interface_definition,
        )
    }
}

} // verus!
