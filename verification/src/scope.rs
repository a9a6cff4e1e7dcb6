//! Variables: the environment chain, walked from the innermost scope to the
//! global one.

use crate::error::{ErrorView, VmError};
use crate::handle::Gc;
use crate::heap::HeapView;
use crate::instruction::{ControlFlow, FlowView};
use crate::object::{entry_lookup, entry_store};
use crate::value::{Value, ValueView};
use crate::vm::{flow_view, Outcome, VirtualMachine, VmView};
use vstd::prelude::*;

verus! {

/// What the scope `h` binds `name` to, where `h` names a live object that
/// binds it.
pub open spec fn scope_get(heap: HeapView, h: usize, name: Seq<char>) -> Option<usize> {
    match heap.lookup(h) {
        Some(ValueView::Object(entries)) => entry_lookup(entries, name),
        _ => None,
    }
}

/// The place in `chain` of the innermost scope that binds `name`.
pub open spec fn binding_scope(heap: HeapView, chain: Seq<usize>, name: Seq<char>) -> Option<int>
    decreases chain.len(),
{
    if chain.len() == 0 {
        None
    } else if scope_get(heap, chain.last(), name).is_some() {
        Some(chain.len() - 1)
    } else {
        binding_scope(heap, chain.drop_last(), name)
    }
}

/// The scope that `binding_scope` finds binds the name, and no scope inside
/// it does.
pub proof fn lemma_binding_scope(heap: HeapView, chain: Seq<usize>, name: Seq<char>)
    ensures
        match binding_scope(heap, chain, name) {
            Some(d) => 0 <= d < chain.len() && scope_get(heap, chain[d], name).is_some()
                && forall|k: int| d < k < chain.len() ==> scope_get(heap, chain[k], name).is_none(),
            None => forall|k: int| 0 <= k < chain.len() ==> scope_get(heap, chain[k], name).is_none(),
        },
    decreases chain.len(),
{
    if chain.len() > 0 && scope_get(heap, chain.last(), name).is_none() {
        let front = chain.drop_last();
        lemma_binding_scope(heap, front, name);
        assert forall|k: int| 0 <= k < front.len() implies front[k] == chain[k] by {}
        match binding_scope(heap, front, name) {
            Some(d) => {
                assert forall|k: int| d < k < chain.len() implies scope_get(
                    heap,
                    chain[k],
                    name,
                ).is_none() by {
                    if k < front.len() {
                        assert(front[k] == chain[k]);
                    }
                }
            },
            None => {
                assert forall|k: int| 0 <= k < chain.len() implies scope_get(
                    heap,
                    chain[k],
                    name,
                ).is_none() by {
                    if k < front.len() {
                        assert(front[k] == chain[k]);
                    }
                }
            },
        }
    }
}

impl VmView {
    /// The scopes that a variable is looked up in: the global one first, the
    /// innermost last.
    pub open spec fn scopes(self) -> Seq<usize> {
        seq![self.globals] + self.context.environment_stack
    }

    /// The value of a variable: what the innermost scope that binds the name
    /// binds it to.
    pub open spec fn variable(self, name: Seq<char>) -> Option<usize> {
        match binding_scope(self.heap, self.scopes(), name) {
            Some(d) => scope_get(self.heap, self.scopes()[d], name),
            None => None,
        }
    }

    /// The scope that a store to `name` goes to: the innermost scope that
    /// binds the name, or the innermost scope where none does.
    pub open spec fn store_target(self, name: Seq<char>) -> usize {
        match binding_scope(self.heap, self.scopes(), name) {
            Some(d) => self.scopes()[d],
            None => self.scopes().last(),
        }
    }

    /// `PushVariable`.
    pub open spec fn push_variable(self, name: Seq<char>) -> Outcome {
        match self.variable(name) {
            Some(h) => (self.push(h), Ok(FlowView::Normal)),
            None => (self, Err(ErrorView::UndefinedVariable(name))),
        }
    }

    /// `StoreVariable`.
    pub open spec fn store_variable(self, name: Seq<char>) -> Outcome {
        if self.stack().len() < 1 {
            (self, Err(ErrorView::StackUnderflow))
        } else {
            let value = self.top(0);
            let target = self.store_target(name);
            match self.heap.lookup(target) {
                Some(ValueView::Object(entries)) => (
                    self.drop(1).with_heap(
                        self.heap.store(target, ValueView::Object(entry_store(entries, name, value))),
                    ),
                    Ok(FlowView::Normal),
                ),
                _ => (self.drop(1), Err(ErrorView::InvalidHandle(target))),
            }
        }
    }

    /// The machine after binding a global variable, where the global scope
    /// is a live object.
    pub open spec fn set_global(self, name: Seq<char>, value: usize) -> VmView {
        match self.heap.lookup(self.globals) {
            Some(ValueView::Object(entries)) => self.with_heap(
                self.heap.store(self.globals, ValueView::Object(entry_store(entries, name, value))),
            ),
            _ => self,
        }
    }
}

/// A variable that was stored is what a lookup of it finds afterwards.
pub proof fn lemma_store_then_push(vm: VmView, name: Seq<char>)
    requires
        vm.stack().len() >= 1,
        vm.store_variable(name).1.is_ok(),
    ensures
        vm.store_variable(name).0.variable(name) == Some(vm.top(0)),
        vm.store_variable(name).0.push_variable(name).0.stack() == vm.stack(),
{
    let after = vm.store_variable(name).0;
    let target = vm.store_target(name);
    let chain = vm.scopes();
    let value = vm.top(0);
    assert(after.scopes() == chain);
    lemma_binding_scope(vm.heap, chain, name);
    let entries = vm.heap.lookup(target).unwrap()->Object_0;
    crate::object::lemma_store_lookup(entries, name, value, name);
    let d = match binding_scope(vm.heap, chain, name) {
        Some(d) => d,
        None => chain.len() - 1,
    };
    assert(chain[d] == target);
    assert(scope_get(after.heap, target, name) == Some(value));
    // Scopes inside the target bind the name as little as before, unless
    // they are the target itself.
    lemma_binding_scope(after.heap, chain, name);
    assert forall|k: int| d < k < chain.len() implies scope_get(
        after.heap,
        chain[k],
        name,
    ).is_none() || chain[k] == target by {
        if chain[k] != target {
            assert(after.heap.lookup(chain[k]) == vm.heap.lookup(chain[k]));
        }
    }
    let found = binding_scope(after.heap, chain, name).unwrap();
    assert(found >= d);
    assert(chain[found] == target) by {
        if found > d {
            assert(scope_get(after.heap, chain[found], name).is_some());
        }
    }
    assert(after.push_variable(name).0.stack() =~= vm.stack());
}

impl VmView {
    /// Binding a global variable of a closed machine to a handle that names
    /// a cell keeps the machine closed.
    pub proof fn lemma_set_global_is_closed(self, name: Seq<char>, value: usize)
        requires
            self.closed(),
            value < self.heap.cells.len(),
        ensures
            self.set_global(name, value).closed(),
    {
        match self.heap.lookup(self.globals) {
            Some(ValueView::Object(entries)) => {
                crate::closed::lemma_closed_deref(self.heap, self.globals);
                crate::closed::lemma_store_bounded(entries, name, value, self.heap.cells.len());
                self.lemma_closed_stored(
                    self.globals,
                    ValueView::Object(entry_store(entries, name, value)),
                );
            },
            _ => {},
        }
    }
}

impl VirtualMachine {
    /// What the scope `h` binds `name` to.
    pub fn scope_lookup(&self, h: usize, name: &str) -> (r: Option<usize>)
        ensures
            r == scope_get(self@.heap, h, name@),
    {
        match self.heap.get_value(h) {
            Some(Value::Object(object)) => object.get(name),
            _ => None,
        }
    }

    /// The innermost scope that binds `name`.
    pub fn find_scope(&self, name: &str) -> (r: Option<usize>)
        ensures
            match binding_scope(self@.heap, self@.scopes(), name@) {
                Some(d) => r == Some(self@.scopes()[d]),
                None => r.is_none(),
            },
    {
        let ghost chain = self@.scopes();
        let mut i: usize = self.context.environment_stack.len();
        assert(chain.subrange(0, i + 1) == chain);
        while i > 0
            invariant
                chain == self@.scopes(),
                i <= self.context.environment_stack@.len(),
                binding_scope(self@.heap, chain, name@) == binding_scope(
                    self@.heap,
                    chain.subrange(0, i + 1),
                    name@,
                ),
            decreases i,
        {
            let h = self.context.environment_stack[i - 1];
            proof {
                let prefix = chain.subrange(0, i + 1);
                assert(prefix.last() == h);
                assert(prefix.drop_last() == chain.subrange(0, i as int));
                lemma_binding_scope(self@.heap, prefix, name@);
            }
            if self.scope_lookup(h, name).is_some() {
                return Some(h);
            }
            i = i - 1;
        }
        proof {
            let prefix = chain.subrange(0, 1);
            assert(prefix.last() == self.globals);
            assert(prefix.drop_last().len() == 0);
            assert(binding_scope(self@.heap, prefix.drop_last(), name@).is_none());
            assert(chain[0] == self.globals);
        }
        if self.scope_lookup(self.globals, name).is_some() {
            Some(self.globals)
        } else {
            None
        }
    }

    /// `PushVariable`.
    pub fn push_variable(&mut self, name: &String) -> (r: Result<ControlFlow, VmError>)
        ensures
            old(self).wf() ==> final(self).wf(),
            final(self).same_frame(old(self)),
            (final(self)@, flow_view(r)) == old(self)@.push_variable(name@),
    {
        proof {
            lemma_binding_scope(self@.heap, self@.scopes(), name@);
        }
        let found = match self.find_scope(name.as_str()) {
            Some(scope) => self.scope_lookup(scope, name.as_str()),
            None => None,
        };
        match found {
            Some(h) => {
                self.context.value_stack.push(h);
                Ok(ControlFlow::Normal)
            },
            None => Err(VmError::UndefinedVariable(name.clone())),
        }
    }

    /// `StoreVariable`.
    pub fn store_variable(&mut self, name: &String) -> (r: Result<ControlFlow, VmError>)
        ensures
            old(self).wf() ==> final(self).wf(),
            final(self).same_frame(old(self)),
            (final(self)@, flow_view(r)) == old(self)@.store_variable(name@),
    {
        let n = self.context.value_stack.len();
        if n < 1 {
            return Err(VmError::StackUnderflow);
        }
        let value = self.context.value_stack[n - 1];
        let target = match self.find_scope(name.as_str()) {
            Some(scope) => scope,
            None => {
                let depth = self.context.environment_stack.len();
                if depth > 0 {
                    self.context.environment_stack[depth - 1]
                } else {
                    self.globals
                }
            },
        };
        self.drop_values(1);
        match self.heap.get_value(target) {
            Some(Value::Object(_)) => {},
            _ => {
                return Err(VmError::InvalidHandle(target));
            },
        }
        match self.heap.view_mut(Gc::<Value>::new(target)) {
            Ok(Value::Object(object)) => {
                object.insert(name.clone(), value);
            },
            _ => {
                return Err(VmError::InvalidHandle(target));
            },
        }
        Ok(ControlFlow::Normal)
    }

    /// Binds a global variable. Nothing changes where the global scope is
    /// not a live object.
    pub fn set_global(&mut self, name: &str, value: Gc<Value>)
        ensures
            old(self).wf() ==> final(self).wf(),
            final(self).same_frame(old(self)),
            final(self)@ == old(self)@.set_global(name@, value.index),
            old(self)@.closed() && value.index < old(self)@.heap.cells.len() ==> final(self)@.closed(),
    {
        proof {
            if self@.closed() && value.index < self@.heap.cells.len() {
                self@.lemma_set_global_is_closed(name@, value.index);
            }
        }
        match self.heap.get_value(self.globals) {
            Some(Value::Object(_)) => {},
            _ => {
                return ;
            },
        }
        match self.heap.view_mut(Gc::<Value>::new(self.globals)) {
            Ok(Value::Object(object)) => {
                object.insert(name.to_owned(), value.index);
            },
            _ => {},
        }
    }

    /// The handle that a global variable is bound to.
    pub fn get_global(&self, name: &str) -> (r: Option<Gc<Value>>)
        ensures
            match r {
                Some(g) => scope_get(self@.heap, self@.globals, name@) == Some(g.index),
                None => scope_get(self@.heap, self@.globals, name@).is_none(),
            },
    {
        match self.scope_lookup(self.globals, name) {
            Some(h) => Some(Gc::new(h)),
            None => None,
        }
    }
}

} // verus!
