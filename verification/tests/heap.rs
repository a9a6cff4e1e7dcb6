use num::BigInt;
use nyar::error::VmError;
use nyar::gc::Forwarding;
use nyar::handle::{same_cell, Gc};
use nyar::heap::{GcState, Heap};
use nyar::object::NyarObject;
use nyar::runtime::MemoryManager;
use nyar::value::{Function, Value, ValueType};

fn number(n: i64) -> Value {
    Value::Integer(BigInt::from(n))
}

fn as_number(v: &Value) -> Option<i64> {
    match v {
        Value::Integer(n) => i64::try_from(n.clone()).ok(),
        _ => None,
    }
}

fn number_at(heap: &Heap, index: usize) -> i64 {
    as_number(Gc::<Value>::new(index).deref(heap).unwrap()).unwrap()
}

fn list_at(heap: &Heap, index: usize) -> Vec<usize> {
    match Gc::<Value>::new(index).deref(heap).unwrap() {
        Value::Vector(items) => items.clone(),
        other => panic!("Root object is not a list after GC: {:?}", other),
    }
}

fn no_context(heap: &mut Heap) -> Forwarding {
    heap.collect(&Vec::new())
}

#[test]
fn test_alloc_and_unbox() {
    let mut heap = Heap::new();
    let num_gc: Gc<Value> = heap.allocate_rooted(number(42), true);
    let val = as_number(num_gc.deref(&heap).unwrap()).unwrap();
    assert_eq!(val, 42);
}

#[test]
fn test_simple_gc_no_dead_objects() {
    let mut heap = Heap::new();
    let _num1_gc: Gc<Value> = heap.allocate_rooted(number(10), true);
    let _num2_gc: Gc<Value> = heap.allocate_rooted(number(20), true);
    assert_eq!(heap.total_memory(), 2);
    no_context(&mut heap);
    assert_eq!(heap.total_memory(), 2);
    assert_eq!(heap.root_indices().len(), 2);
}

#[test]
fn test_gc_collect_one_dead_object() {
    let mut heap = Heap::new();
    let _num1_gc: Gc<Value> = heap.allocate_rooted(number(10), true);
    let _num2_gc: Gc<Value> = heap.allocate_rooted(number(20), false);
    assert_eq!(heap.total_memory(), 2);
    no_context(&mut heap);
    assert_eq!(heap.total_memory(), 1);
    assert_eq!(heap.root_indices().len(), 1);
    let root_idx = heap.root_indices()[0];
    assert_eq!(root_idx, 0);
    assert_eq!(number_at(&heap, root_idx), 10);
}

#[test]
fn test_gc_list_and_compaction() {
    let mut heap = Heap::new();
    let _dead_gc: Gc<Value> = heap.allocate_rooted(number(100), false);
    let item1_gc: Gc<Value> = heap.allocate_rooted(number(10), false);
    let item2_gc: Gc<Value> = heap.allocate_rooted(number(20), false);
    let list_val = Value::Vector(vec![item1_gc.as_any().index, item2_gc.as_any().index]);
    let _list_gc: Gc<Value> = heap.allocate_rooted(list_val, true);

    assert_eq!(heap.total_memory(), 4);
    no_context(&mut heap);

    assert_eq!(heap.total_memory(), 3, "Heap should have 3 live objects");
    assert_eq!(heap.root_indices().len(), 1, "Heap should have 1 root");

    let root_idx = heap.root_indices()[0];
    assert_eq!(root_idx, 2, "Root list should be at new index 2");

    let list_ref = list_at(&heap, root_idx);
    assert_eq!(list_ref.len(), 2, "List should contain 2 items");
    assert_eq!(number_at(&heap, list_ref[0]), 10);
    assert_eq!(list_ref[0], 0, "Pointer to item1 should be updated to 0");
    assert_eq!(number_at(&heap, list_ref[1]), 20);
    assert_eq!(list_ref[1], 1, "Pointer to item2 should be updated to 1");

    assert_eq!(as_number(heap.get_value(0).unwrap()).unwrap(), 10);
    assert_eq!(as_number(heap.get_value(1).unwrap()).unwrap(), 20);
    let l_final = list_at(&heap, 2);
    assert_eq!(l_final[0], 0);
    assert_eq!(l_final[1], 1);
}

#[test]
fn test_dealloc_root() {
    let mut heap = Heap::new();
    let num1_gc: Gc<Value> = heap.allocate_rooted(number(10), true);
    let _num2_gc: Gc<Value> = heap.allocate_rooted(number(20), true);

    assert_eq!(heap.root_indices().len(), 2);
    heap.dealloc(num1_gc.clone());
    assert_eq!(heap.root_indices().len(), 1);

    no_context(&mut heap);
    assert_eq!(heap.total_memory(), 1);
    assert_eq!(heap.root_indices().len(), 1);

    let root_idx = heap.root_indices()[0];
    assert_eq!(number_at(&heap, root_idx), 20);
}

#[test]
fn test_complex_list_scenario_with_shared_elements_and_cycles() {
    let mut heap = Heap::new();
    let shared_num_gc: Gc<Value> = heap.allocate_rooted(number(555), false);
    let item1_l1_gc: Gc<Value> = heap.allocate_rooted(number(10), false);
    let list1_val = Value::Vector(vec![item1_l1_gc.index, shared_num_gc.index]);
    let list1_gc: Gc<Value> = heap.allocate_rooted(list1_val, true);
    let item1_l2_gc: Gc<Value> = heap.allocate_rooted(number(20), false);
    let list2_val = Value::Vector(vec![item1_l2_gc.index, shared_num_gc.index]);
    let list2_gc: Gc<Value> = heap.allocate_rooted(list2_val, true);
    let _dead_gc: Gc<Value> = heap.allocate_rooted(number(999), false);

    if let Value::Vector(children_l1) = heap.view_mut(list1_gc).unwrap() {
        children_l1.push(list2_gc.index);
    }

    assert_eq!(heap.total_memory(), 6);
    no_context(&mut heap);

    assert_eq!(heap.total_memory(), 5, "Heap should have 5 live objects");
    assert_eq!(heap.root_indices().len(), 2, "Heap should have 2 roots");

    let mut new_list1_idx_opt = None;
    let mut new_list2_idx_opt = None;
    for &root_idx in heap.root_indices() {
        if let Value::Vector(children) = heap.get_value(root_idx).unwrap() {
            let first_val_opt =
                if !children.is_empty() { Some(number_at(&heap, children[0])) } else { None };
            if children.len() >= 2 && first_val_opt == Some(10) {
                new_list1_idx_opt = Some(root_idx);
            } else if children.len() >= 2 && first_val_opt == Some(20) {
                new_list2_idx_opt = Some(root_idx);
            }
        }
    }
    assert!(new_list1_idx_opt.is_some(), "list1 not found in roots");
    assert!(new_list2_idx_opt.is_some(), "list2 not found in roots");
    let new_list1_idx = new_list1_idx_opt.unwrap();
    let new_list2_idx = new_list2_idx_opt.unwrap();

    let list1_children = list_at(&heap, new_list1_idx);
    assert_eq!(list1_children.len(), 3);
    assert_eq!(number_at(&heap, list1_children[0]), 10);
    assert_eq!(number_at(&heap, list1_children[1]), 555);
    let expected_shared_idx = 0;
    assert_eq!(list1_children[1], expected_shared_idx);
    assert_eq!(list1_children[2], new_list2_idx);

    let list2_children = list_at(&heap, new_list2_idx);
    assert_eq!(list2_children.len(), 2);
    assert_eq!(number_at(&heap, list2_children[0]), 20);
    assert_eq!(number_at(&heap, list2_children[1]), 555);
    assert_eq!(list2_children[1], expected_shared_idx);
}

#[test]
fn allocation_returns_a_handle_to_the_value() {
    let mut heap = Heap::new();
    let a = heap.allocate(Value::String("a".to_string()));
    let b = heap.allocate(Value::Boolean(true));
    assert_eq!(a.index, 0);
    assert_eq!(b.index, 1);
    assert!(matches!(a.deref(&heap).unwrap(), Value::String(s) if s == "a"));
    assert!(matches!(b.deref(&heap).unwrap(), Value::Boolean(true)));
}

#[test]
fn compacting_collection_keeps_the_pinned_and_drops_the_rest() {
    let mut heap = Heap::new();
    let a = heap.allocate(number(1));
    let b = heap.allocate(number(2));
    let c = heap.allocate(number(3));
    heap.add_root(&a);
    heap.add_root(&c);
    let forwarding = no_context(&mut heap);
    assert_eq!(heap.total_memory(), 2);
    assert_eq!(heap.allocated_count(), 2);
    let a = forwarding.forward(a);
    let b = forwarding.forward(b);
    let c = forwarding.forward(c);
    assert_eq!(as_number(a.deref(&heap).unwrap()), Some(1));
    assert_eq!(as_number(c.deref(&heap).unwrap()), Some(3));
    assert_eq!((a.index, c.index), (0, 1));
    assert_eq!(forwarding.new_index(1), None);
    match b.deref(&heap) {
        Err(VmError::UseAfterFree(index)) => assert_eq!(index, usize::MAX),
        other => panic!("Expected UseAfterFree, got {:?}", other),
    }
    assert_eq!(heap.root_indices(), &vec![0, 1]);
}

#[test]
fn cyclic_vectors_survive_together() {
    let mut heap = Heap::new();
    let _garbage = heap.allocate(number(0));
    let first = heap.allocate(Value::Vector(Vec::new()));
    let second = heap.allocate(Value::Vector(vec![first.index]));
    if let Value::Vector(items) = heap.view_mut(first).unwrap() {
        items.push(second.index);
    }
    heap.add_root(&first);
    let forwarding = no_context(&mut heap);
    assert_eq!(heap.total_memory(), 2);
    let first = forwarding.forward(first);
    let second = forwarding.forward(second);
    assert_eq!(list_at(&heap, first.index), vec![second.index]);
    assert_eq!(list_at(&heap, second.index), vec![first.index]);
}

#[test]
fn context_handles_keep_cells_alive() {
    let mut heap = Heap::new();
    let a = heap.allocate(number(1));
    let b = heap.allocate(number(2));
    let forwarding = heap.collect(&vec![b.index]);
    assert_eq!(heap.total_memory(), 1);
    assert_eq!(forwarding.new_index(a.index), None);
    assert_eq!(forwarding.new_index(b.index), Some(0));
    assert_eq!(number_at(&heap, 0), 2);
    assert_eq!(forwarding.table(), &vec![usize::MAX, 0]);
}

#[test]
fn a_handle_to_a_collected_cell_inside_a_value_names_no_cell_afterwards() {
    let mut heap = Heap::new();
    let keeper = heap.allocate(Value::Vector(vec![7, 1]));
    let _other = heap.allocate(number(5));
    heap.add_root(&keeper);
    // Index 7 names no cell; index 1 names a live cell.
    let forwarding = no_context(&mut heap);
    let keeper = forwarding.forward(keeper);
    assert_eq!(list_at(&heap, keeper.index), vec![usize::MAX, 1]);
}

#[test]
fn sweeping_frees_cells_for_the_next_allocations() {
    let mut heap = Heap::new();
    let a = heap.allocate(number(1));
    let b = heap.allocate(number(2));
    let c = heap.allocate(number(3));
    heap.add_root(&b);
    heap.collect_garbage();
    assert_eq!(heap.total_memory(), 3);
    assert_eq!(heap.allocated_count(), 1);
    assert!(matches!(a.deref(&heap), Err(VmError::UseAfterFree(0))));
    assert!(matches!(c.deref(&heap), Err(VmError::UseAfterFree(2))));
    assert_eq!(as_number(b.deref(&heap).unwrap()), Some(2));
    // The free-list hands out its last entry first.
    let d = heap.allocate(number(4));
    assert_eq!(d.index, 2);
    let e = heap.allocate(number(5));
    assert_eq!(e.index, 0);
    let f = heap.allocate(number(6));
    assert_eq!(f.index, 3);
    assert_eq!(heap.allocated_count(), 4);
}

#[test]
fn marking_follows_handles_from_the_roots() {
    let mut heap = Heap::new();
    let leaf = heap.allocate(number(1));
    let _loose = heap.allocate(number(2));
    let mut object = NyarObject::new();
    object.insert("leaf".to_string(), leaf.index);
    let env = heap.allocate(Value::Object(object));
    let function = heap.allocate(Value::Function(Function {
        name: None,
        parameters: Vec::new(),
        body_start: 0,
        body_size: 0,
        environment: env.index,
    }));
    heap.add_root(&function);
    let states = heap.mark(&Vec::new());
    assert_eq!(
        states,
        vec![GcState::Marked, GcState::Unmarked, GcState::Marked, GcState::Marked]
    );
}

#[test]
fn dereferencing_out_of_bounds_is_use_after_free() {
    let heap = Heap::new();
    assert!(matches!(Gc::<Value>::new(3).deref(&heap), Err(VmError::UseAfterFree(3))));
    assert!(heap.get_value(3).is_none());
}

#[test]
fn pinning_twice_pins_once() {
    let mut heap = Heap::new();
    let a = heap.allocate(number(1));
    heap.add_root(&a);
    heap.add_root(&a);
    assert_eq!(heap.root_indices().len(), 1);
    assert!(heap.is_root(a.index));
    heap.remove_root(&a);
    assert!(!heap.is_root(a.index));
}

#[test]
fn projections_report_the_type_they_found() {
    let value = number(1);
    assert_eq!(value.get_type(), ValueType::Integer);
    assert_eq!(value.name_of_type(), "bigint");
    assert!(value.is_truthy());
    assert!(!Value::Null.is_truthy());
    assert!(!Value::Boolean(false).is_truthy());
    assert!(Value::Null.is_null());
    match value.as_vector() {
        Err(VmError::TypeMismatch { expected, found }) => {
            assert_eq!(expected, "array");
            assert_eq!(found, "bigint");
        }
        other => panic!("Expected TypeMismatch, got {:?}", other),
    }
    assert!(value.as_integer().is_ok());
    assert!(matches!(Value::Boolean(true).as_boolean(), Ok(true)));
}

#[test]
fn object_keeps_insertion_order_and_replaces_in_place() {
    let mut object = NyarObject::new();
    assert_eq!(object.insert("b".to_string(), 1), None);
    assert_eq!(object.insert("a".to_string(), 2), None);
    assert_eq!(object.insert("b".to_string(), 3), Some(1));
    assert_eq!(object.len(), 2);
    assert_eq!(object.get("b"), Some(3));
    assert_eq!(object.get("c"), None);
    assert_eq!(object.values(), vec![3, 2]);
    let (name, value) = object.get_index(1).unwrap();
    assert_eq!((name.as_str(), value), ("a", 2));
    assert!(object.get_index(2).is_none());
    object.set_index(1, 9);
    assert_eq!(object.get("a"), Some(9));
    let copy = object.duplicate();
    object.rewrite(&vec![0, 0, 0, 5]);
    assert_eq!(object.values(), vec![5, usize::MAX]);
    assert_eq!(copy.values(), vec![3, 9]);
}

#[test]
fn manager_counts_cells() {
    let mut manager = MemoryManager::new();
    manager.allocate(number(1));
    manager.allocate(number(2));
    manager.collect_garbage();
    let stats = manager.heap_stats();
    assert_eq!(stats.allocated_objects, 2);
    assert_eq!(stats.total_memory, 2);
}

#[test]
fn handles_compare_by_index() {
    let a: Gc<Value> = Gc::new(3);
    let b: Gc<Value> = Gc::new(3);
    let c: Gc<Value> = Gc::new(4);
    assert_eq!(a, b);
    assert_ne!(a, c);
    assert_eq!(a.clone(), a);
    let typed: Gc<String> = a.transmute();
    assert_eq!(typed.index, 3);
    assert!(same_cell(typed, b));
    assert!(!same_cell(typed, c));
    assert_eq!(typed.as_any(), a);
}
