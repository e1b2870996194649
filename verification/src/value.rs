//! A handle-based stand-in for values owned by the host's garbage collector.
//!
//! The host hands out non-zero integer handles; a few low handles are
//! reserved for the primitive constants, and every handle above the reserved
//! range is reference counted on the host side.

use vstd::prelude::*;

verus! {

/// Handle reserved for the host's `undefined` value.
pub const UNDEFINED_HANDLE: usize = 2;

/// Handle reserved for the host's `null` value.
pub const NULL_HANDLE: usize = 4;

/// Handle reserved for the host's `true` value.
pub const TRUE_HANDLE: usize = 6;

/// Handle reserved for the host's `false` value.
pub const FALSE_HANDLE: usize = 8;

/// The largest handle that names a reserved constant rather than a
/// reference-counted host object.
pub const LAST_RESERVED_HANDLE: usize = 8;

/// An owned reference to a host-managed value, identified by its handle.
///
/// A handle is never zero: zero is the host's sentinel for "no value".
#[derive(Debug)]
pub struct JsValue {
    handle: usize,
}

impl JsValue {
    /// The handle this value wraps.
    pub closed spec fn spec_handle(self) -> usize {
        self.handle
    }

    /// A valid value never wraps the zero sentinel.
    pub open spec fn wf(self) -> bool {
        self.spec_handle() != 0
    }

    /// The reserved `undefined` constant.
    pub fn undefined() -> (r: JsValue)
        ensures
            r.spec_handle() == UNDEFINED_HANDLE,
            r.wf(),
    {
        JsValue { handle: UNDEFINED_HANDLE }
    }

    /// The reserved `null` constant.
    pub fn null() -> (r: JsValue)
        ensures
            r.spec_handle() == NULL_HANDLE,
            r.wf(),
    {
        JsValue { handle: NULL_HANDLE }
    }

    /// The reserved boolean constants, selected by `v`.
    pub fn from_bool(v: bool) -> (r: JsValue)
        ensures
            r.spec_handle() == if v {
                TRUE_HANDLE
            } else {
                FALSE_HANDLE
            },
            r.wf(),
    {
        match v {
            true => JsValue { handle: TRUE_HANDLE },
            false => JsValue { handle: FALSE_HANDLE },
        }
    }

    /// The raw handle, leaving ownership with `self`.
    pub fn as_handle(&self) -> (r: usize)
        ensures
            r == self.spec_handle(),
    {
        self.handle
    }

    /// Adopts a handle received from the host, taking ownership of its
    /// host-side reference.
    pub fn take_ownership(handle: usize) -> (r: JsValue)
        requires
            handle != 0,
        ensures
            r.spec_handle() == handle,
            r.wf(),
    {
        JsValue { handle }
    }

    /// Releases ownership to the caller: the handle comes back and no
    /// host-side reference is given up.
    pub fn into_handle(self) -> (r: usize)
        ensures
            r == self.spec_handle(),
    {
        self.handle
    }

    /// Whether the wrapped handle is reference counted by the host, that is,
    /// not one of the reserved constants.
    pub fn uses_ref_count(&self) -> (r: bool)
        ensures
            r == (self.spec_handle() > LAST_RESERVED_HANDLE),
    {
        self.handle > LAST_RESERVED_HANDLE
    }
}

/// Combines the host's loose-comparison verdicts on a pair of values into an
/// ordering: equality wins, then less, then greater; values the host finds
/// incomparable yield `None`.
pub fn loose_cmp(eq: bool, lt: bool, gt: bool) -> (r: Option<core::cmp::Ordering>)
    ensures
        eq ==> r == Some(core::cmp::Ordering::Equal),
        !eq && lt ==> r == Some(core::cmp::Ordering::Less),
        !eq && !lt && gt ==> r == Some(core::cmp::Ordering::Greater),
        !eq && !lt && !gt ==> r is None,
{
    if eq {
        Some(core::cmp::Ordering::Equal)
    } else if lt {
        Some(core::cmp::Ordering::Less)
    } else if gt {
        Some(core::cmp::Ordering::Greater)
    } else {
        None
    }
}

} // verus!
