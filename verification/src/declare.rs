//! Declarations: classes with their method tables and parents, traits with
//! their signatures, and enums with their variants.

use crate::handle::Gc;
use crate::heap::{Heap, HeapView};
use crate::object::{entry_lookup, entry_store, NyarObject};
use crate::value::{
    Class, ClassView, Enum, EnumView, Function, MethodSignature, NyarTrait, TraitView, Value,
    ValueView,
};
use vstd::prelude::*;

verus! {

/// The method `name` of a class: its own, or else that of the nearest
/// ancestor that has one. At most `fuel` parents are visited, so that a
/// chain of parents that runs in a circle ends the search.
pub open spec fn method_lookup(heap: HeapView, class: ClassView, name: Seq<char>, fuel: nat)
    -> Option<usize>
    decreases fuel,
{
    match entry_lookup(class.methods, name) {
        Some(m) => Some(m),
        None => match class.parent {
            Some(p) => if fuel == 0 {
                None
            } else {
                match heap.lookup(p) {
                    Some(ValueView::Class(parent)) => method_lookup(
                        heap,
                        parent,
                        name,
                        (fuel - 1) as nat,
                    ),
                    _ => None,
                }
            },
            None => None,
        },
    }
}

/// Whether `h` names a live trait declaration called `name`.
pub open spec fn names_trait(heap: HeapView, h: usize, name: Seq<char>) -> bool {
    match heap.lookup(h) {
        Some(ValueView::Trait(t)) => t.name == name,
        _ => false,
    }
}

/// Whether one of the handles names a live trait called `name`.
pub open spec fn lists_trait(heap: HeapView, handles: Seq<usize>, name: Seq<char>) -> bool {
    exists|i: int| 0 <= i < handles.len() && names_trait(heap, #[trigger] handles[i], name)
}

/// Whether a class implements the trait called `name`: it lists a trait of
/// that name, or an ancestor within `fuel` parents does.
pub open spec fn implements(heap: HeapView, class: ClassView, name: Seq<char>, fuel: nat) -> bool
    decreases fuel,
{
    lists_trait(heap, class.traits, name) || match class.parent {
        Some(p) => fuel > 0 && match heap.lookup(p) {
            Some(ValueView::Class(parent)) => implements(heap, parent, name, (fuel - 1) as nat),
            _ => false,
        },
        None => false,
    }
}

impl Class {
    /// A class without parent, traits, methods or properties.
    pub fn new(name: &str) -> (r: Self)
        ensures
            r@ == (ClassView {
                name: name@,
                parent: None,
                traits: Seq::empty(),
                methods: Seq::empty(),
                properties: Seq::empty(),
            }),
    {
        Class {
            name: name.to_owned(),
            parent: None,
            traits: Vec::new(),
            methods: NyarObject::new(),
            properties: NyarObject::new(),
        }
    }

    /// Adds a method, or replaces the method of that name.
    pub fn add_method(&mut self, name: &str, method: Gc<Function>)
        ensures
            final(self)@ == (ClassView {
                methods: entry_store(old(self)@.methods, name@, method.index),
                ..old(self)@
            }),
    {
        self.methods.insert(name.to_owned(), method.index);
    }

    /// The method `name` of the class or of its nearest ancestor that has
    /// one.
    pub fn find_method(&self, heap: &Heap, name: &str) -> (r: Option<Gc<Function>>)
        ensures
            match r {
                Some(g) => method_lookup(heap@, self@, name@, heap@.cells.len()) == Some(g.index),
                None => method_lookup(heap@, self@, name@, heap@.cells.len()).is_none(),
            },
    {
        let mut fuel = heap.total_memory();
        let mut current: &Class = self;
        loop
            invariant
                method_lookup(heap@, self@, name@, heap@.cells.len()) == method_lookup(
                    heap@,
                    current@,
                    name@,
                    fuel as nat,
                ),
            decreases fuel,
        {
            match current.methods.get(name) {
                Some(m) => {
                    return Some(Gc::new(m));
                },
                None => {},
            }
            let parent = match current.parent {
                Some(p) => p,
                None => {
                    return None;
                },
            };
            if fuel == 0 {
                return None;
            }
            match heap.get_value(parent) {
                Some(Value::Class(c)) => {
                    current = c;
                },
                _ => {
                    return None;
                },
            }
            fuel = fuel - 1;
        }
    }
}

impl NyarTrait {
    /// A trait without methods.
    pub fn new(name: &str) -> (r: Self)
        ensures
            r@ == (TraitView { name: name@, methods: Seq::empty() }),
    {
        let r = NyarTrait { name: name.to_owned(), methods: Vec::new() };
        assert(r@.methods =~= Seq::empty());
        r
    }

    /// Adds the signature of a method.
    pub fn add_method_signature(&mut self, signature: MethodSignature)
        ensures
            final(self)@ == (TraitView {
                methods: old(self)@.methods.push(signature@),
                ..old(self)@
            }),
    {
        self.methods.push(signature);
        assert(self@.methods =~= old(self)@.methods.push(signature@));
    }

    /// Whether the class, or one of its ancestors, lists a trait of this
    /// trait's name.
    pub fn is_implemented_by(&self, heap: &Heap, class: &Class) -> (r: bool)
        ensures
            r == implements(heap@, class@, self@.name, heap@.cells.len()),
    {
        let mut fuel = heap.total_memory();
        let mut current: &Class = class;
        loop
            invariant
                implements(heap@, class@, self@.name, heap@.cells.len()) == implements(
                    heap@,
                    current@,
                    self@.name,
                    fuel as nat,
                ),
            decreases fuel,
        {
            let n = current.traits.len();
            let mut i: usize = 0;
            while i < n
                invariant
                    n == current.traits@.len(),
                    i <= n,
                    implements(heap@, class@, self@.name, heap@.cells.len()) == implements(
                        heap@,
                        current@,
                        self@.name,
                        fuel as nat,
                    ),
                    forall|j: int|
                        0 <= j < i ==> !names_trait(heap@, #[trigger] current.traits@[j], self@.name),
                decreases n - i,
            {
                let listed = match heap.get_value(current.traits[i]) {
                    Some(Value::Trait(t)) => t.name == self.name,
                    _ => false,
                };
                if listed {
                    assert(names_trait(heap@, current.traits@[i as int], self@.name));
                    return true;
                }
                i = i + 1;
            }
            assert(!lists_trait(heap@, current@.traits, self@.name));
            let parent = match current.parent {
                Some(p) => p,
                None => {
                    return false;
                },
            };
            if fuel == 0 {
                return false;
            }
            match heap.get_value(parent) {
                Some(Value::Class(c)) => {
                    current = c;
                },
                _ => {
                    return false;
                },
            }
            fuel = fuel - 1;
        }
    }
}

impl Enum {
    /// An enum without variants.
    pub fn new(name: &str) -> (r: Self)
        ensures
            r@ == (EnumView { name: name@, variants: Seq::empty() }),
    {
        Enum { name: name.to_owned(), variants: NyarObject::new() }
    }

    /// Adds a variant, or replaces the variant of that name.
    pub fn add_variant(&mut self, name: &str, variant: Gc<Value>)
        ensures
            final(self)@ == (EnumView {
                variants: entry_store(old(self)@.variants, name@, variant.index),
                ..old(self)@
            }),
    {
        self.variants.insert(name.to_owned(), variant.index);
    }
}

} // verus!
