use jvm::runtime::heap::access::SpecialFields;
use jvm::runtime::heap::reflection::ClassTable;
use jvm::runtime::heap::string_table::StringTable;
use jvm::runtime::heap::{Heap, ObjectFault, MAX_OBJECT_ID};
use jvm::runtime::interpreter::variable::Variable;
use jvm::runtime::structs::object::{Entered, ObjectMonitor};

fn two_slots() -> Vec<Variable> {
    vec![Variable::from_int(0), Variable::from_int(0)]
}

#[test]
fn test_ordinary_object() {
    let mut heap = Heap::new();
    let id = heap.allocate_object(2, two_slots()).unwrap();
    heap.put_field(id, 1, Variable::from_reference(1)).unwrap();
    assert_eq!(heap.get_field(id, 0).unwrap().get_int(), 0);
    assert_eq!(heap.get_field(id, 1).unwrap().get_reference(), 1);
    heap.deallocate(id);
}

#[test]
fn test_ordinary_array() {
    let mut heap = Heap::new();
    let id = heap.allocate_array::<i8>(2, 0).unwrap();
    heap.put_array_index_raw(id, 1, &vec![1]).unwrap();
    assert_eq!(heap.get_array_index_raw(id, 0, 1).unwrap(), vec![0]);
    assert_eq!(heap.get_array_index_raw(id, 1, 1).unwrap(), vec![1]);
    heap.deallocate(id);
}

#[test]
fn test_multibyte_array() {
    let mut heap = Heap::new();
    let id = heap.allocate_array::<i32>(2, 0).unwrap();
    heap.put_array_index_raw(id, 1, &vec![1, 0, 0, 0]).unwrap();
    assert_eq!(heap.get_array_index(id, 1, 4), Some(1));
    assert_eq!(heap.get_array_index_raw(id, 0, 4).unwrap(), vec![0, 0, 0, 0]);
    heap.deallocate(id);
}

#[test]
fn first_identifier_is_one_and_freed_slots_are_taken_again() {
    let mut heap = Heap::new();
    let a = heap.allocate_object(0, two_slots()).unwrap();
    let b = heap.allocate_object(0, two_slots()).unwrap();
    let c = heap.allocate_object(0, two_slots()).unwrap();
    assert_eq!((a, b, c), (1, 2, 3));
    heap.deallocate(b);
    assert!(heap.get_field(b, 0).is_none());
    assert_eq!(heap.allocate_object(0, two_slots()), Some(2));
    assert_eq!(heap.allocate_object(0, two_slots()), Some(4));
}

#[test]
fn a_written_slot_reads_back_with_the_same_bits() {
    let mut heap = Heap::new();
    let id = heap.allocate_object(0, two_slots()).unwrap();
    for bits in [0u32, 1, 0x7fff_ffff, 0x8000_0000, 0xffff_ffff, 0x7fc0_0001] {
        heap.put_field(id, 0, Variable::from_float_bits(bits)).unwrap();
        assert_eq!(heap.get_field(id, 0).unwrap().get_float(), bits);
        assert_eq!(heap.get_field(id, 1).unwrap().get_int(), 0);
    }
}

#[test]
fn a_slot_that_is_not_there_is_not_written() {
    let mut heap = Heap::new();
    let id = heap.allocate_object(0, two_slots()).unwrap();
    assert_eq!(heap.put_field(id, 2, Variable::from_int(1)), Err(ObjectFault::NoSuchField));
    assert_eq!(heap.put_field(9, 0, Variable::from_int(1)), Err(ObjectFault::NoSuchObject));
    assert!(heap.get_field(id, 2).is_none());
    assert!(heap.get_field(0, 0).is_none());
}

#[test]
fn an_array_has_as_many_elements_as_asked_for() {
    let mut heap = Heap::new();
    let id = heap.allocate_array::<i64>(3, 0).unwrap();
    assert_eq!(heap.get_array_size(id, 8), Some(3));
    assert_eq!(heap.get_u8_array(id).unwrap().len(), 24);
    assert_eq!(heap.get_array_index(id, 3, 8), None);
    assert_eq!(heap.put_array_index_raw(id, 3, &vec![0; 8]), Err(ObjectFault::NoSuchElement));
    let empty = heap.allocate_array::<u16>(0, 0).unwrap();
    assert_eq!(heap.get_array_size(empty, 2), Some(0));
}

#[test]
fn a_range_of_bytes_is_written_in_place() {
    let mut heap = Heap::new();
    let id = heap.allocate_array::<i8>(5, 0).unwrap();
    assert!(heap.put_array_range(id, 1, &vec![7, 8, 9]));
    assert_eq!(heap.get_u8_array(id).unwrap(), &vec![0, 7, 8, 9, 0]);
    assert!(!heap.put_array_range(id, 3, &vec![1, 2, 3]));
    assert_eq!(heap.get_u8_array(id).unwrap(), &vec![0, 7, 8, 9, 0]);
}

#[test]
fn a_clone_is_a_new_object_with_the_same_slots() {
    let mut heap = Heap::new();
    let id = heap.allocate_object(7, vec![Variable::from_int(5)]).unwrap();
    let copy = heap.clone(id).unwrap();
    assert_ne!(copy, id);
    assert_eq!(heap.get_field(copy, 0).unwrap().get_int(), 5);
    assert_eq!(heap.get_ordinary(copy).unwrap().class, 7);
    heap.put_field(copy, 0, Variable::from_int(6)).unwrap();
    assert_eq!(heap.get_field(id, 0).unwrap().get_int(), 5);
    assert_eq!(heap.clone(99), None);
}

#[test]
fn interning_the_same_bytes_gives_the_same_identifier() {
    let mut heap = Heap::new();
    let mut table = StringTable::new();
    let first = heap.intern_string(b"hello".to_vec(), false, &mut table).unwrap();
    let second = heap.intern_string(b"hello".to_vec(), false, &mut table).unwrap();
    let other = heap.intern_string(b"world".to_vec(), false, &mut table).unwrap();
    assert_eq!(first, second);
    assert_ne!(first, other);
    assert!(first > MAX_OBJECT_ID);
    assert_eq!(table.get(&b"hello".to_vec()).unwrap().string_id, first);
    assert_eq!(table.get(&b"hello".to_vec()).unwrap().bytes_id, first - 1);
    assert_eq!(heap.get_u8_array(first - 1).unwrap(), &b"hello".to_vec());
    assert!(table.get(&b"absent".to_vec()).is_none());
}

#[test]
fn a_class_has_one_mirror() {
    let mut heap = Heap::new();
    let mut table = ClassTable::new();
    let first = heap.get_class_object(3, &mut table).unwrap();
    let second = heap.get_class_object(3, &mut table).unwrap();
    let other = heap.get_class_object(4, &mut table).unwrap();
    assert_eq!(first, second);
    assert_ne!(first, other);
    assert_eq!(table.get(3), Some(first));
    assert_eq!(table.get(5), None);
}

#[test]
fn special_objects_are_read_only_but_for_the_names_of_a_mirror() {
    let fields = SpecialFields {
        string_value: 0,
        string_coder: 1,
        string_hash: 2,
        string_hash_is_zero: 3,
        class_name: 4,
        class_package_name: 5,
        class_redefined_count: 6,
        class_loader: 7,
    };
    let mut heap = Heap::new();
    let mut strings = StringTable::new();
    let mut mirrors = ClassTable::new();
    let text = heap.intern_string(b"a".to_vec(), false, &mut strings).unwrap();
    let mirror = heap.get_class_object(0, &mut mirrors).unwrap();
    assert_eq!(heap.load_field(text, 0, &fields).unwrap().get_reference(), text - 1);
    assert_eq!(
        heap.store_field(text, 2, Variable::from_int(1), &fields),
        Err(ObjectFault::Immutable)
    );
    assert_eq!(heap.store_field(mirror, 4, Variable::from_reference(text), &fields), Ok(()));
    assert_eq!(heap.load_field(mirror, 4, &fields).unwrap().get_reference(), text);
    assert!(heap.set_mirror_name(mirror, 0));
    assert_eq!(heap.load_field(mirror, 4, &fields).unwrap().get_reference(), 0);
    assert!(!heap.set_mirror_name(text, 1));
}

#[test]
fn a_monitor_is_reentrant_and_owned_by_one_thread() {
    let mut monitor = ObjectMonitor::new();
    assert_eq!(monitor.enter(1), Entered::Acquired);
    assert_eq!(monitor.enter(1), Entered::Acquired);
    assert_eq!(monitor.enter(2), Entered::Blocked);
    assert!(monitor.exit(2).is_err());
    assert!(monitor.exit(1).is_ok());
    assert_eq!(monitor.enter(2), Entered::Blocked);
    assert!(monitor.exit(1).is_ok());
    assert!(monitor.exit(1).is_err());
    assert_eq!(monitor.enter(2), Entered::Acquired);
}

#[test]
fn the_monitor_of_an_object_is_entered_through_the_heap() {
    let mut heap = Heap::new();
    let id = heap.allocate_object(0, two_slots()).unwrap();
    assert_eq!(heap.monitor_enter(id, 1), Ok(Entered::Acquired));
    assert_eq!(heap.monitor_enter(id, 2), Ok(Entered::Blocked));
    assert!(heap.monitor_exit(id, 2).unwrap().is_err());
    assert!(heap.monitor_exit(id, 1).unwrap().is_ok());
    assert_eq!(heap.monitor_enter(77, 1), Err(ObjectFault::NoSuchObject));
}
