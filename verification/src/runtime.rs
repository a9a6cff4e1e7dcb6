//! What an embedder holds: a machine with the declarations of the standard
//! library, and a plain manager of a heap.

use crate::gc::Forwarding;
use crate::handle::Gc;
use crate::heap::{Heap, HeapView};
use crate::object::{entry_store, NyarObject};
use crate::value::{Class, ClassView, Enum, EnumView, NyarTrait, TraitView, Value, ValueView};
use crate::vm::VirtualMachine;
use vstd::prelude::*;

verus! {

/// Counts of a heap.
#[derive(Debug, Clone, Copy)]
pub struct HeapStats {
    /// The number of live cells.
    pub allocated_objects: usize,
    /// The number of cells, dead ones included.
    pub total_memory: usize,
}

/// A heap with the operations that an embedder needs.
#[derive(Debug)]
pub struct MemoryManager {
    heap: Heap,
}

impl View for MemoryManager {
    type V = HeapView;

    closed spec fn view(&self) -> HeapView {
        self.heap@
    }
}

impl MemoryManager {
    /// A manager of an empty heap.
    pub fn new() -> (r: Self)
        ensures
            r@.wf(),
            r@ == (HeapView { cells: Seq::empty(), free: Seq::empty(), roots: Seq::empty() }),
    {
        MemoryManager { heap: Heap::new() }
    }

    /// Puts a value on the heap and pins it: the manager has no other way
    /// to keep a value alive.
    pub fn allocate(&mut self, value: Value) -> (r: Gc<Value>)
        requires
            old(self)@.wf(),
        ensures
            final(self)@.wf(),
            r.index == old(self)@.next_index(),
            final(self)@ == old(self)@.allocate(value@).pin(r.index),
    {
        self.heap.allocate_rooted(value, true)
    }

    /// Frees every cell that no pinned value reaches.
    pub fn collect_garbage(&mut self)
        requires
            old(self)@.wf(),
        ensures
            final(self)@.wf(),
            final(self)@ == old(self)@.sweep(),
    {
        self.heap.collect_garbage();
    }

    /// The counts of the heap.
    pub fn heap_stats(&self) -> (r: HeapStats)
        requires
            self@.wf(),
        ensures
            r.allocated_objects == self@.live_count(),
            r.total_memory == self@.cells.len(),
    {
        HeapStats {
            allocated_objects: self.heap.allocated_count(),
            total_memory: self.heap.total_memory(),
        }
    }
}

/// Whether the standard library was loaded.
#[derive(Debug)]
pub struct StdLib {
    pub loaded: bool,
}

impl StdLib {
    /// A standard library that is not loaded yet.
    pub fn new() -> (r: Self)
        ensures
            !r.loaded,
    {
        StdLib { loaded: false }
    }
}

/// The declaration of a class without parent, traits, methods or
/// properties.
pub open spec fn plain_class(name: Seq<char>) -> ValueView {
    ValueView::Class(
        ClassView {
            name,
            parent: None,
            traits: Seq::empty(),
            methods: Seq::empty(),
            properties: Seq::empty(),
        },
    )
}

/// The declaration of a trait without methods.
pub open spec fn plain_trait(name: Seq<char>) -> ValueView {
    ValueView::Trait(TraitView { name, methods: Seq::empty() })
}

/// The declaration of an enum without variants.
pub open spec fn plain_enum(name: Seq<char>) -> ValueView {
    ValueView::Enum(EnumView { name, variants: Seq::empty() })
}

/// A machine together with the declarations that programs can rely on.
#[derive(Debug)]
pub struct Runtime {
    /// The machine.
    pub vm: VirtualMachine,
    /// The classes by name.
    pub classes: NyarObject,
    /// The traits by name.
    pub traits: NyarObject,
    /// The enums by name.
    pub enums: NyarObject,
    /// The standard library.
    pub stdlib: StdLib,
}

impl Runtime {
    /// A runtime with a new machine, no declaration, and the standard
    /// library not loaded. The machine is as `VirtualMachine::new` makes it:
    /// closed, with no code, in its initial state, without automatic
    /// collection and with the largest step limit.
    pub fn new() -> (r: Self)
        ensures
            r.vm.wf(),
            r.vm@ == crate::vm::VmView::fresh(),
            r.vm@.closed(),
            r.vm.instructions@ == Seq::<crate::instruction::Instruction>::empty(),
            r.vm.state@ == crate::vm::StateView::Initial,
            r.vm.gc_threshold == 0,
            r.vm.step_limit == usize::MAX,
            !r.stdlib.loaded,
            r.classes@ == Seq::<(Seq<char>, usize)>::empty(),
            r.traits@ == Seq::<(Seq<char>, usize)>::empty(),
            r.enums@ == Seq::<(Seq<char>, usize)>::empty(),
    {
        Runtime {
            vm: VirtualMachine::new(),
            classes: NyarObject::new(),
            traits: NyarObject::new(),
            enums: NyarObject::new(),
            stdlib: StdLib::new(),
        }
    }

    /// Declares a class without members, pins it, and registers it under
    /// its name.
    pub fn create_class(&mut self, name: &str)
        requires
            old(self).vm.wf(),
        ensures
            final(self).vm.wf(),
            final(self).vm.same_frame(&old(self).vm),
            final(self).vm@ == old(self).vm@.with_heap(
                old(self).vm@.heap.allocate(plain_class(name@)).pin(old(self).vm@.heap.next_index()),
            ),
            final(self).classes@ == entry_store(
                old(self).classes@,
                name@,
                old(self).vm@.heap.next_index(),
            ),
            final(self).traits@ == old(self).traits@,
            final(self).enums@ == old(self).enums@,
            final(self).stdlib.loaded == old(self).stdlib.loaded,
    {
        let class = Class::new(name);
        let handle = self.vm.heap.allocate_rooted(Value::Class(class), true);
        self.classes.insert(name.to_owned(), handle.index);
    }

    /// Declares a trait without methods, pins it, and registers it under
    /// its name.
    pub fn create_trait(&mut self, name: &str)
        requires
            old(self).vm.wf(),
        ensures
            final(self).vm.wf(),
            final(self).vm.same_frame(&old(self).vm),
            final(self).vm@ == old(self).vm@.with_heap(
                old(self).vm@.heap.allocate(plain_trait(name@)).pin(old(self).vm@.heap.next_index()),
            ),
            final(self).traits@ == entry_store(
                old(self).traits@,
                name@,
                old(self).vm@.heap.next_index(),
            ),
            final(self).classes@ == old(self).classes@,
            final(self).enums@ == old(self).enums@,
            final(self).stdlib.loaded == old(self).stdlib.loaded,
    {
        let declaration = NyarTrait::new(name);
        let handle = self.vm.heap.allocate_rooted(Value::Trait(declaration), true);
        self.traits.insert(name.to_owned(), handle.index);
    }

    /// Declares an enum without variants, pins it, and registers it under
    /// its name.
    pub fn create_enum(&mut self, name: &str)
        requires
            old(self).vm.wf(),
        ensures
            final(self).vm.wf(),
            final(self).vm.same_frame(&old(self).vm),
            final(self).vm@ == old(self).vm@.with_heap(
                old(self).vm@.heap.allocate(plain_enum(name@)).pin(old(self).vm@.heap.next_index()),
            ),
            final(self).enums@ == entry_store(
                old(self).enums@,
                name@,
                old(self).vm@.heap.next_index(),
            ),
            final(self).classes@ == old(self).classes@,
            final(self).traits@ == old(self).traits@,
            final(self).stdlib.loaded == old(self).stdlib.loaded,
    {
        let declaration = Enum::new(name);
        let handle = self.vm.heap.allocate_rooted(Value::Enum(declaration), true);
        self.enums.insert(name.to_owned(), handle.index);
    }

    /// Loads the standard library once: the class `Object`, the trait
    /// `Comparable` and the enum `Option`, in this order. A second call
    /// changes nothing.
    pub fn load_stdlib(&mut self)
        requires
            old(self).vm.wf(),
        ensures
            final(self).vm.wf(),
            final(self).vm.same_frame(&old(self).vm),
            final(self).stdlib.loaded,
            old(self).stdlib.loaded ==> final(self).vm@ == old(self).vm@ && final(self).classes@
                == old(self).classes@ && final(self).traits@ == old(self).traits@ && final(self).enums@ == old(self).enums@,
            !old(self).stdlib.loaded ==> {
                let h0 = old(self).vm@.heap;
                let i0 = h0.next_index();
                let h1 = h0.allocate(plain_class("Object"@)).pin(i0);
                let i1 = h1.next_index();
                let h2 = h1.allocate(plain_trait("Comparable"@)).pin(i1);
                let i2 = h2.next_index();
                let h3 = h2.allocate(plain_enum("Option"@)).pin(i2);
                &&& final(self).vm@ == old(self).vm@.with_heap(h3)
                &&& final(self).classes@ == entry_store(old(self).classes@, "Object"@, i0)
                &&& final(self).traits@ == entry_store(old(self).traits@, "Comparable"@, i1)
                &&& final(self).enums@ == entry_store(old(self).enums@, "Option"@, i2)
            },
    {
        if self.stdlib.loaded {
            return ;
        }
        self.create_class("Object");
        self.create_trait("Comparable");
        self.create_enum("Option");
        self.stdlib.loaded = true;
    }

    /// The handle that a global variable is bound to.
    pub fn get_global(&self, name: &str) -> (r: Option<Gc<Value>>)
        ensures
            match r {
                Some(g) => crate::scope::scope_get(self.vm@.heap, self.vm@.globals, name@) == Some(
                    g.index,
                ),
                None => crate::scope::scope_get(self.vm@.heap, self.vm@.globals, name@).is_none(),
            },
    {
        self.vm.get_global(name)
    }

    /// Binds a global variable.
    pub fn set_global(&mut self, name: &str, value: Gc<Value>)
        ensures
            old(self).vm.wf() ==> final(self).vm.wf(),
            final(self).vm.same_frame(&old(self).vm),
            final(self).vm@ == old(self).vm@.set_global(name@, value.index),
            final(self).classes@ == old(self).classes@,
            final(self).traits@ == old(self).traits@,
            final(self).enums@ == old(self).enums@,
            final(self).stdlib.loaded == old(self).stdlib.loaded,
    {
        self.vm.set_global(name, value);
    }

    /// Collects the heap of the machine, taking the registered
    /// declarations along: they are pinned, and their handles in the
    /// registries are forwarded.
    pub fn collect(&mut self) -> (r: Forwarding)
        requires
            old(self).vm.wf(),
        ensures
            final(self).vm.wf(),
            final(self).vm.same_frame(&old(self).vm),
            final(self).vm@ == old(self).vm@.collected(),
            final(self).stdlib.loaded == old(self).stdlib.loaded,
            r@ == old(self).vm@.heap.forwarding(old(self).vm@.roots()),
            final(self).classes@ == crate::object::entries_forwarded(old(self).classes@, r@),
            final(self).traits@ == crate::object::entries_forwarded(old(self).traits@, r@),
            final(self).enums@ == crate::object::entries_forwarded(old(self).enums@, r@),
    {
        let forwarding = self.vm.collect();
        self.classes.rewrite(forwarding.table());
        self.traits.rewrite(forwarding.table());
        self.enums.rewrite(forwarding.table());
        forwarding
    }
}

} // verus!
