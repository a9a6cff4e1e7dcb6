//! The instructions that build composite values from what lies on the
//! stack: objects, closures and declarations.

use crate::call::parameter_names;
use crate::error::{ErrorView, VmError};
use crate::heap::HeapView;
use crate::instruction::{ControlFlow, FlowView};
use crate::object::{entry_store, NyarObject};
use crate::value::{
    mismatch, names_view, type_name_of, Class, ClassView, Enum, EnumView, Function, FunctionView,
    MethodSignature, NyarTrait, SignatureView, TraitView, Value, ValueType, ValueView,
};
use crate::vm::{flow_view, Outcome, VirtualMachine, VmView};
use vstd::prelude::*;

verus! {

/// The entries that the first `count` pairs of `handles` stand for: each
/// pair is the handle of a name, which must be a string, and the handle of
/// what the name is bound to. A later pair replaces an earlier one of the
/// same name. Fails with the error of the first name that is no string.
pub open spec fn property_pairs(heap: HeapView, handles: Seq<usize>, count: nat) -> Result<
    Seq<(Seq<char>, usize)>,
    ErrorView,
>
    decreases count,
{
    if count == 0 {
        Ok(Seq::empty())
    } else {
        match property_pairs(heap, handles, (count - 1) as nat) {
            Err(e) => Err(e),
            Ok(entries) => match heap.deref(handles[2 * (count - 1)]) {
                Err(e) => Err(e),
                Ok(ValueView::String(s)) => Ok(
                    entry_store(entries, s, handles[2 * (count - 1) + 1]),
                ),
                Ok(v) => Err(mismatch(ValueType::String, v.value_type())),
            },
        }
    }
}

/// The signatures of methods that are known by name only.
pub open spec fn bare_signatures(names: Seq<Seq<char>>) -> Seq<SignatureView> {
    Seq::new(
        names.len(),
        |i: int|
            SignatureView { name: names[i], parameter_types: Seq::empty(), return_type: Seq::empty() },
    )
}

impl VmView {
    /// The `n` topmost values of the stack, in stack order.
    pub open spec fn top_values(self, n: int) -> Seq<usize> {
        self.stack().subrange(self.stack().len() - n, self.stack().len() as int)
    }

    /// The entries that bind each of `names` to the value of the variable of
    /// that name; fails with the first name that is bound nowhere.
    pub open spec fn captured(self, names: Seq<Seq<char>>) -> Result<
        Seq<(Seq<char>, usize)>,
        ErrorView,
    >
        decreases names.len(),
    {
        if names.len() == 0 {
            Ok(Seq::empty())
        } else {
            match self.captured(names.drop_last()) {
                Err(e) => Err(e),
                Ok(entries) => match self.variable(names.last()) {
                    Some(h) => Ok(entry_store(entries, names.last(), h)),
                    None => Err(ErrorView::UndefinedVariable(names.last())),
                },
            }
        }
    }

    /// `CreateObject`: the `count` topmost pairs of a name and a value
    /// become an object.
    pub open spec fn create_object(self, count: usize) -> Outcome {
        if self.stack().len() < 2 * count {
            (self, Err(ErrorView::StackUnderflow))
        } else {
            match property_pairs(self.heap, self.top_values(2 * count), count as nat) {
                Err(e) => (self, Err(e)),
                Ok(entries) => (
                    self.drop(2 * count).alloc_push(ValueView::Object(entries)),
                    Ok(FlowView::Normal),
                ),
            }
        }
    }

    /// `CreateClosure`: the function on top of the stack is replaced by a
    /// copy of it that closes over the named variables as they are bound
    /// now.
    pub open spec fn create_closure(self, names: Seq<Seq<char>>) -> Outcome {
        if self.stack().len() < 1 {
            (self, Err(ErrorView::StackUnderflow))
        } else {
            match self.heap.deref(self.top(0)) {
                Err(e) => (self, Err(e)),
                Ok(ValueView::Function(f)) => match self.captured(names) {
                    Err(e) => (self, Err(e)),
                    Ok(entries) => {
                        let dropped = self.drop(1);
                        let with_env = dropped.allocated(ValueView::Object(entries));
                        (
                            with_env.alloc_push(
                                ValueView::Function(
                                    FunctionView { environment: dropped.heap.next_index(), ..f },
                                ),
                            ),
                            Ok(FlowView::Normal),
                        )
                    },
                },
                Ok(v) => (self, Err(ErrorView::NotCallable(type_name_of(v.value_type())))),
            }
        }
    }

    /// `CreateClass`: the pairs of the methods lie under the pairs of the
    /// properties; the class has no parent and no traits.
    pub open spec fn create_class(self, name: Seq<char>, methods: usize, properties: usize)
        -> Outcome {
        if self.stack().len() < 2 * methods + 2 * properties {
            (self, Err(ErrorView::StackUnderflow))
        } else {
            let all = self.top_values(2 * methods + 2 * properties);
            match property_pairs(self.heap, all.subrange(0, 2 * methods), methods as nat) {
                Err(e) => (self, Err(e)),
                Ok(method_table) => match property_pairs(
                    self.heap,
                    all.subrange(2 * methods, 2 * methods + 2 * properties),
                    properties as nat,
                ) {
                    Err(e) => (self, Err(e)),
                    Ok(property_table) => (
                        self.drop(2 * methods + 2 * properties).alloc_push(
                            ValueView::Class(
                                ClassView {
                                    name,
                                    parent: None,
                                    traits: Seq::empty(),
                                    methods: method_table,
                                    properties: property_table,
                                },
                            ),
                        ),
                        Ok(FlowView::Normal),
                    ),
                },
            }
        }
    }

    /// `CreateTrait`: the `count` topmost values name the methods.
    pub open spec fn create_trait(self, name: Seq<char>, count: usize) -> Outcome {
        if self.stack().len() < count {
            (self, Err(ErrorView::StackUnderflow))
        } else {
            match parameter_names(self.heap, self.top_values(count as int)) {
                Err(e) => (self, Err(e)),
                Ok(names) => (
                    self.drop(count as int).alloc_push(
                        ValueView::Trait(TraitView { name, methods: bare_signatures(names) }),
                    ),
                    Ok(FlowView::Normal),
                ),
            }
        }
    }

    /// `CreateEnum`: the `count` topmost pairs of a name and a value are the
    /// variants.
    pub open spec fn create_enum(self, name: Seq<char>, count: usize) -> Outcome {
        if self.stack().len() < 2 * count {
            (self, Err(ErrorView::StackUnderflow))
        } else {
            match property_pairs(self.heap, self.top_values(2 * count), count as nat) {
                Err(e) => (self, Err(e)),
                Ok(entries) => (
                    self.drop(2 * count).alloc_push(
                        ValueView::Enum(EnumView { name, variants: entries }),
                    ),
                    Ok(FlowView::Normal),
                ),
            }
        }
    }
}

/// The pairs before a bad name fail as the pairs up to it do.
pub proof fn lemma_pairs_error(heap: HeapView, handles: Seq<usize>, i: nat, count: nat)
    requires
        i < count,
        property_pairs(heap, handles, i + 1).is_err(),
    ensures
        property_pairs(heap, handles, count) == property_pairs(heap, handles, i + 1),
    decreases count,
{
    if i + 1 < count {
        lemma_pairs_error(heap, handles, i, (count - 1) as nat);
    }
}

/// The variables before an unbound one fail as the variables up to it do.
pub proof fn lemma_captured_error(vm: VmView, names: Seq<Seq<char>>, i: int)
    requires
        0 <= i < names.len(),
        vm.captured(names.subrange(0, i + 1)).is_err(),
    ensures
        vm.captured(names) == vm.captured(names.subrange(0, i + 1)),
    decreases names.len(),
{
    if i + 1 < names.len() {
        let front = names.drop_last();
        assert(front.subrange(0, i + 1) == names.subrange(0, i + 1));
        lemma_captured_error(vm, front, i);
    } else {
        assert(names.subrange(0, i + 1) == names);
    }
}

impl VirtualMachine {
    /// The object that `count` pairs of the stack stand for, the first at
    /// `start`.
    pub(crate) fn read_pairs(&self, start: usize, count: usize) -> (r: Result<NyarObject, VmError>)
        requires
            start + 2 * count <= self@.stack().len(),
        ensures
            match r {
                Ok(object) => property_pairs(
                    self@.heap,
                    self@.stack().subrange(start as int, start + 2 * count),
                    count as nat,
                ) == Ok::<Seq<(Seq<char>, usize)>, ErrorView>(object@),
                Err(e) => property_pairs(
                    self@.heap,
                    self@.stack().subrange(start as int, start + 2 * count),
                    count as nat,
                ) == Err::<Seq<(Seq<char>, usize)>, ErrorView>(e@),
            },
    {
        let ghost handles = self@.stack().subrange(start as int, start + 2 * count);
        let depth = self.context.value_stack.len();
        let mut object = NyarObject::new();
        let mut i: usize = 0;
        while i < count
            invariant
                depth == self@.stack().len(),
                start + 2 * count <= depth,
                handles == self@.stack().subrange(start as int, start + 2 * count),
                i <= count,
                property_pairs(self@.heap, handles, i as nat) == Ok::<
                    Seq<(Seq<char>, usize)>,
                    ErrorView,
                >(object@),
            decreases count - i,
        {
            let name = self.context.value_stack[start + 2 * i];
            let value = self.context.value_stack[start + 2 * i + 1];
            assert(handles[2 * i] == name);
            assert(handles[2 * i + 1] == value);
            match self.deref(name) {
                Err(e) => {
                    proof {
                        assert(property_pairs(self@.heap, handles, (i + 1) as nat).is_err());
                        lemma_pairs_error(self@.heap, handles, i as nat, count as nat);
                    }
                    return Err(e);
                },
                Ok(Value::String(s)) => {
                    object.insert(s.clone(), value);
                },
                Ok(v) => {
                    proof {
                        assert(property_pairs(self@.heap, handles, (i + 1) as nat).is_err());
                        lemma_pairs_error(self@.heap, handles, i as nat, count as nat);
                    }
                    return Err(v.type_mismatch(ValueType::String));
                },
            }
            i = i + 1;
        }
        Ok(object)
    }

    /// `CreateObject`.
    pub fn create_object(&mut self, count: usize) -> (r: Result<ControlFlow, VmError>)
        requires
            old(self).wf(),
        ensures
            final(self).wf(),
            final(self).same_frame(old(self)),
            (final(self)@, flow_view(r)) == old(self)@.create_object(count),
    {
        let n = self.context.value_stack.len();
        if count > n / 2 {
            return Err(VmError::StackUnderflow);
        }
        let object = match self.read_pairs(n - 2 * count, count) {
            Ok(object) => object,
            Err(e) => {
                return Err(e);
            },
        };
        self.drop_values(2 * count);
        let h = self.allocate_cell(Value::Object(object));
        self.context.value_stack.push(h);
        Ok(ControlFlow::Normal)
    }

    /// `CreateEnum`.
    pub fn create_enum(&mut self, name: &String, count: usize) -> (r: Result<ControlFlow, VmError>)
        requires
            old(self).wf(),
        ensures
            final(self).wf(),
            final(self).same_frame(old(self)),
            (final(self)@, flow_view(r)) == old(self)@.create_enum(name@, count),
    {
        let n = self.context.value_stack.len();
        if count > n / 2 {
            return Err(VmError::StackUnderflow);
        }
        let variants = match self.read_pairs(n - 2 * count, count) {
            Ok(object) => object,
            Err(e) => {
                return Err(e);
            },
        };
        self.drop_values(2 * count);
        let h = self.allocate_cell(Value::Enum(Enum { name: name.clone(), variants }));
        self.context.value_stack.push(h);
        Ok(ControlFlow::Normal)
    }

    /// `CreateClass`.
    pub fn create_class(&mut self, name: &String, methods: usize, properties: usize) -> (r:
        Result<ControlFlow, VmError>)
        requires
            old(self).wf(),
        ensures
            final(self).wf(),
            final(self).same_frame(old(self)),
            (final(self)@, flow_view(r)) == old(self)@.create_class(name@, methods, properties),
    {
        let n = self.context.value_stack.len();
        if methods > n / 2 || properties > (n - 2 * methods) / 2 {
            return Err(VmError::StackUnderflow);
        }
        let total = 2 * methods + 2 * properties;
        let ghost all = self@.top_values(total as int);
        proof {
            assert(all.subrange(0, 2 * methods) == self@.stack().subrange(
                n - total,
                n - total + 2 * methods,
            ));
            assert(all.subrange(2 * methods, 2 * methods + 2 * properties)
                == self@.stack().subrange(
                n - 2 * properties,
                n - 2 * properties + 2 * properties,
            ));
        }
        let method_table = match self.read_pairs(n - total, methods) {
            Ok(object) => object,
            Err(e) => {
                return Err(e);
            },
        };
        let property_table = match self.read_pairs(n - 2 * properties, properties) {
            Ok(object) => object,
            Err(e) => {
                return Err(e);
            },
        };
        self.drop_values(total);
        let class = Class {
            name: name.clone(),
            parent: None,
            traits: Vec::new(),
            methods: method_table,
            properties: property_table,
        };
        let h = self.allocate_cell(Value::Class(class));
        self.context.value_stack.push(h);
        Ok(ControlFlow::Normal)
    }

    /// `CreateTrait`.
    pub fn create_trait(&mut self, name: &String, count: usize) -> (r: Result<ControlFlow, VmError>)
        requires
            old(self).wf(),
        ensures
            final(self).wf(),
            final(self).same_frame(old(self)),
            (final(self)@, flow_view(r)) == old(self)@.create_trait(name@, count),
    {
        let n = self.context.value_stack.len();
        if n < count {
            return Err(VmError::StackUnderflow);
        }
        let names = match self.read_names(count) {
            Ok(names) => names,
            Err(e) => {
                return Err(e);
            },
        };
        let mut methods: Vec<MethodSignature> = Vec::new();
        let mut i: usize = 0;
        while i < count
            invariant
                count == names@.len(),
                i <= count,
                methods@.len() == i,
                forall|j: int|
                    0 <= j < i ==> (#[trigger] methods@[j])@ == (SignatureView {
                        name: names@[j]@,
                        parameter_types: Seq::empty(),
                        return_type: Seq::empty(),
                    }),
            decreases count - i,
        {
            let signature = MethodSignature {
                name: names[i].clone(),
                parameter_types: Vec::new(),
                return_type: String::new(),
            };
            assert(signature@.parameter_types =~= Seq::empty());
            methods.push(signature);
            i = i + 1;
        }
        let declaration = NyarTrait { name: name.clone(), methods };
        assert(declaration@.methods =~= bare_signatures(names_view(names@)));
        self.drop_values(count);
        let h = self.allocate_cell(Value::Trait(declaration));
        self.context.value_stack.push(h);
        Ok(ControlFlow::Normal)
    }

    /// The entries that bind each of `names` to the value of its variable.
    pub(crate) fn capture(&self, names: &Vec<String>) -> (r: Result<NyarObject, VmError>)
        ensures
            match r {
                Ok(object) => self@.captured(names_view(names@)) == Ok::<
                    Seq<(Seq<char>, usize)>,
                    ErrorView,
                >(object@),
                Err(e) => self@.captured(names_view(names@)) == Err::<
                    Seq<(Seq<char>, usize)>,
                    ErrorView,
                >(e@),
            },
    {
        let ghost all = names_view(names@);
        let n = names.len();
        let mut object = NyarObject::new();
        let mut i: usize = 0;
        assert(all.subrange(0, 0).len() == 0);
        while i < n
            invariant
                n == names@.len(),
                all == names_view(names@),
                i <= n,
                self@.captured(all.subrange(0, i as int)) == Ok::<
                    Seq<(Seq<char>, usize)>,
                    ErrorView,
                >(object@),
            decreases n - i,
        {
            proof {
                let next = all.subrange(0, i + 1);
                assert(next.drop_last() == all.subrange(0, i as int));
                assert(next.last() == names@[i as int]@);
                crate::scope::lemma_binding_scope(self@.heap, self@.scopes(), names@[i as int]@);
            }
            let found = match self.find_scope(names[i].as_str()) {
                Some(scope) => self.scope_lookup(scope, names[i].as_str()),
                None => None,
            };
            match found {
                Some(h) => {
                    object.insert(names[i].clone(), h);
                },
                None => {
                    proof {
                        assert(self@.captured(all.subrange(0, i + 1)).is_err());
                        lemma_captured_error(self@, all, i as int);
                    }
                    return Err(VmError::UndefinedVariable(names[i].clone()));
                },
            }
            i = i + 1;
        }
        assert(all.subrange(0, n as int) == all);
        Ok(object)
    }

    /// `CreateClosure`.
    pub fn create_closure(&mut self, names: &Vec<String>) -> (r: Result<ControlFlow, VmError>)
        requires
            old(self).wf(),
        ensures
            final(self).wf(),
            final(self).same_frame(old(self)),
            (final(self)@, flow_view(r)) == old(self)@.create_closure(names_view(names@)),
    {
        let n = self.context.value_stack.len();
        if n < 1 {
            return Err(VmError::StackUnderflow);
        }
        let function = self.context.value_stack[n - 1];
        let (name, parameters, body_start, body_size) = match self.deref(function) {
            Err(e) => {
                return Err(e);
            },
            Ok(Value::Function(f)) => {
                let name = match &f.name {
                    Some(s) => Some(s.clone()),
                    None => None,
                };
                (name, crate::value::copy_names(&f.parameters), f.body_start, f.body_size)
            },
            Ok(v) => {
                return Err(VmError::NotCallable(v.name_of_type()));
            },
        };
        let captured = match self.capture(names) {
            Ok(object) => object,
            Err(e) => {
                return Err(e);
            },
        };
        self.drop_values(1);
        let environment = self.allocate_cell(Value::Object(captured));
        let closure = Function { name, parameters, body_start, body_size, environment };
        let h = self.allocate_cell(Value::Function(closure));
        self.context.value_stack.push(h);
        Ok(ControlFlow::Normal)
    }
}

} // verus!
