use std::sync::Arc;

use vstd::prelude::*;

use crate::bytecodes::OpCode;
use crate::shared::share;
use crate::value::JValue;

verus! {

/// The environment into which a function instance's captured variables are
/// moved.
#[derive(Clone)]
pub enum CaptureStack {
    /// Not allocated yet; it will hold this many values.
    NeedAlloc(u32),
    /// Allocated and shared by the closures that captured into it.
    Allocated(Arc<Box<[JValue]>>),
    /// The function captures nothing.
    Absent,
}

/// The slice that owns the elements of `v`, from `Vec::into_boxed_slice`,
/// which the standard library documents as keeping the elements in order.
#[verifier::external_body]
fn into_boxed_values(v: Vec<JValue>) -> (r: Box<[JValue]>)
    ensures
        r@ == v@,
{
    v.into_boxed_slice()
}

/// `n` zeroed values.
fn zeroed_values(n: u32) -> (r: Vec<JValue>)
    ensures
        r@.len() == n,
        forall|i: int| 0 <= i < n ==> r@[i] == JValue::spec_zeroed(),
{
    let mut v: Vec<JValue> = Vec::new();
    let mut i: u32 = 0;
    while i < n
        invariant
            i <= n,
            v@.len() == i,
            forall|k: int| 0 <= k < i ==> v@[k] == JValue::spec_zeroed(),
        decreases n - i,
    {
        v.push(JValue(0));
        i = i + 1;
    }
    v
}

impl CaptureStack {
    /// The environment: a fresh zeroed one of the announced size when it is
    /// not allocated yet, the shared one when it is, none when the function
    /// captures nothing.
    pub fn data(&self) -> (r: Option<Arc<Box<[JValue]>>>)
        ensures
            match *self {
                CaptureStack::NeedAlloc(n) => r matches Some(a) && a@.len() == n && forall|i: int|
                    0 <= i < n ==> a@[i] == JValue::spec_zeroed(),
                CaptureStack::Allocated(a) => r matches Some(b) && b@ == a@,
                CaptureStack::Absent => r is None,
            },
    {
        match self {
            CaptureStack::Allocated(a) => Some(share(a)),
            CaptureStack::NeedAlloc(n) => {
                let data = into_boxed_values(zeroed_values(*n));
                Some(Arc::new(data))
            },
            CaptureStack::Absent => None,
        }
    }
}

/// A compiled function: its kind, its frame layout, how often it was called,
/// the size of the capture environment its instances need (`None` when it
/// owns none), and its bytecode.
pub struct JSFunction {
    pub is_async: bool,
    pub is_generator: bool,
    pub var_count: u16,
    pub args_len: u16,
    pub largest_stack_offset: u32,
    pub call_count: u64,
    pub capture_stack_size: Option<u16>,
    pub bytecodes: Arc<Vec<OpCode>>,
}

/// A function value: a function, its capture environment and, for a bound
/// function, its `this`.
#[derive(Clone)]
pub struct JSFunctionInstance {
    capture_stack: CaptureStack,
    this: Option<JValue>,
    pub(crate) func: Arc<JSFunction>,
}

impl JSFunctionInstance {
    /// The capture environment of the instance.
    pub closed spec fn spec_capture_stack(&self) -> CaptureStack {
        self.capture_stack
    }

    /// The bound `this`, if any.
    pub closed spec fn spec_this(&self) -> Option<JValue> {
        self.this
    }

    /// The function the instance runs.
    pub closed spec fn spec_func(&self) -> JSFunction {
        *self.func
    }

    /// The capture environment, allocated if it was not yet.
    pub fn capture_stack(&self) -> (r: Option<Arc<Box<[JValue]>>>)
        ensures
            match self.spec_capture_stack() {
                CaptureStack::NeedAlloc(n) => r matches Some(a) && a@.len() == n && forall|i: int|
                    0 <= i < n ==> a@[i] == JValue::spec_zeroed(),
                CaptureStack::Allocated(a) => r matches Some(b) && b@ == a@,
                CaptureStack::Absent => r is None,
            },
    {
        self.capture_stack.data()
    }
}

/// The capture environment a new instance of a function gets.
pub open spec fn fresh_capture_stack(capture_stack_size: Option<u16>) -> CaptureStack {
    match capture_stack_size {
        Some(n) => if n == 0 {
            CaptureStack::Absent
        } else {
            CaptureStack::NeedAlloc(n as u32)
        },
        None => CaptureStack::Absent,
    }
}

impl JSFunction {
    /// A new instance of the function, with an environment of the size the
    /// function announces, to be allocated on first use.
    pub fn create_instance(self: Arc<Self>, this: Option<JValue>) -> (r: JSFunctionInstance)
        ensures
            r.spec_capture_stack() == fresh_capture_stack(self.capture_stack_size),
            r.spec_this() == this,
            r.spec_func() == *self,
    {
        if let Some(n) = self.capture_stack_size {
            let cap = if n == 0 {
                CaptureStack::Absent
            } else {
                CaptureStack::NeedAlloc(n as u32)
            };
            return JSFunctionInstance { capture_stack: cap, this, func: self };
        } else {
            return JSFunctionInstance { capture_stack: CaptureStack::Absent, this, func: self };
        }
    }

    /// A new instance of the function sharing the given environment.
    pub fn create_instance_with_capture(
        self: Arc<Self>,
        this: Option<JValue>,
        capture_stack: CaptureStack,
    ) -> (r: JSFunctionInstance)
        ensures
            r.spec_capture_stack() == capture_stack,
            r.spec_this() == this,
            r.spec_func() == *self,
    {
        return JSFunctionInstance { capture_stack: capture_stack, this, func: self };
    }
}

} // verus!
