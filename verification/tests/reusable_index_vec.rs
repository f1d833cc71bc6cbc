use std::mem;

use bugeutils::error::ErrorType;
use bugeutils::list::{ReusableIndexNode, ReusableIndexVec, ID};

#[test]
fn size_test() {
    // This sizes are expected on a 64-bit machine.
    assert_eq!(mem::size_of::<ReusableIndexNode<u32>>(), 16);
    assert_eq!(mem::size_of::<ReusableIndexNode<u64>>(), 16);
    // A node is one aligned word of bookkeeping larger than its element. Where
    // `u128` is aligned to 8 bytes that word has 8 bytes, where it is aligned
    // to 16 bytes it has 16.
    if mem::align_of::<u128>() == 8 {
        assert_eq!(mem::size_of::<ReusableIndexNode<u128>>(), 24);
    } else {
        assert_eq!(mem::size_of::<ReusableIndexNode<u128>>(), 32);
    }
}

#[test]
fn creation_test() {
    type Type = &'static str;

    let mut vec_tad = ReusableIndexVec::<Type>::new();

    assert_eq!(vec_tad.iter().collect().len(), 0);

    vec_tad.add("String A");
    vec_tad.add("String B");
    vec_tad.add("String C");
    vec_tad.add("String D");
    vec_tad.add("String E");

    assert_eq!(vec_tad.iter().collect().len(), 5);
}

#[test]
fn adding_elements() {
    type Type = &'static str;

    let mut vec_tad = ReusableIndexVec::<Type>::new();

    let id_a = vec_tad.add("String A");
    let id_b = vec_tad.add("String B");
    let id_c = vec_tad.add("String C");
    let id_d = vec_tad.add("String D");
    let id_e = vec_tad.add("String E");

    assert_eq!(vec_tad.iter().collect().len(), 5);

    assert_ne!(id_a, id_b);
    assert_ne!(id_b, id_c);
    assert_ne!(id_c, id_d);
    assert_ne!(id_d, id_e);

    assert_eq!(vec_tad.get(id_a), Some(&"String A"));
    assert_eq!(vec_tad.get(id_b), Some(&"String B"));
    assert_eq!(vec_tad.get(id_c), Some(&"String C"));
    assert_eq!(vec_tad.get(id_d), Some(&"String D"));
    assert_eq!(vec_tad.get(id_e), Some(&"String E"));
}

#[test]
fn removing_elements() {
    type Type = &'static str;

    let mut vec_tad = ReusableIndexVec::<Type>::new();

    let id_a = vec_tad.add("String A");
    let id_b = vec_tad.add("String B");
    let id_c = vec_tad.add("String C");
    let id_d = vec_tad.add("String D");
    let id_e = vec_tad.add("String E");

    vec_tad.remove(id_b).unwrap();
    vec_tad.remove(id_d).unwrap();

    let test_vec = vec_tad.iter().collect();

    assert_eq!(test_vec.len(), 3);

    assert_eq!(vec_tad.get(id_b), None);
    assert_eq!(vec_tad.get(id_d), None);

    assert_eq!(vec_tad.get(id_a), Some(&"String A"));
    assert_eq!(vec_tad.get(id_c), Some(&"String C"));
    assert_eq!(vec_tad.get(id_e), Some(&"String E"));

    // Now readding elements to see if it still works.

    let id_f = vec_tad.add("String F");
    let id_g = vec_tad.add("String G");
    let id_h = vec_tad.add("String H");
    let id_i = vec_tad.add("String I");
    assert_eq!(vec_tad.get(id_f), Some(&"String F"));
    assert_eq!(vec_tad.get(id_g), Some(&"String G"));
    assert_eq!(vec_tad.get(id_h), Some(&"String H"));
    assert_eq!(vec_tad.get(id_i), Some(&"String I"));

    let test_vec = vec_tad.iter().collect();
    assert_eq!(test_vec.len(), 7);

    // Now removing 3, adding 2, removing 4.
    vec_tad.remove(id_c).unwrap();
    vec_tad.remove(id_g).unwrap();
    vec_tad.remove(id_h).unwrap();

    let id_j = vec_tad.add("String J");
    let id_k = vec_tad.add("String K");

    vec_tad.remove(id_i).unwrap();
    vec_tad.remove(id_j).unwrap();
    vec_tad.remove(id_a).unwrap();
    vec_tad.remove(id_f).unwrap();

    // Test all ids
    assert_eq!(vec_tad.get(id_a), None);
    assert_eq!(vec_tad.get(id_b), None);
    assert_eq!(vec_tad.get(id_c), None);
    assert_eq!(vec_tad.get(id_d), None);
    assert_eq!(vec_tad.get(id_e), Some(&"String E"));
    assert_eq!(vec_tad.get(id_f), None);
    assert_eq!(vec_tad.get(id_g), None);
    assert_eq!(vec_tad.get(id_h), None);
    assert_eq!(vec_tad.get(id_i), None);
    assert_eq!(vec_tad.get(id_j), None);
    assert_eq!(vec_tad.get(id_k), Some(&"String K"));

    let test_vec = vec_tad.iter().collect();
    assert_eq!(test_vec.len(), 2);

    // Test error
    assert!(vec_tad.remove(id_a).is_err());
}

fn five() -> (ReusableIndexVec<&'static str>, [ID; 5]) {
    let mut list = ReusableIndexVec::new();
    let a = list.add("A");
    let b = list.add("B");
    let c = list.add("C");
    let d = list.add("D");
    let e = list.add("E");
    (list, [a, b, c, d, e])
}

#[test]
fn new_list_is_empty() {
    let mut list = ReusableIndexVec::<u8>::new();
    assert!(list.as_slice().is_empty());
    assert!(list.iter().next().is_none());
    assert_eq!(list.get(ID(0, 0)), None);
    assert!(list.remove(ID(0, 0)).is_err());
}

#[test]
fn capacity_does_not_populate() {
    let mut list = ReusableIndexVec::<u8>::with_capacity(0);
    assert!(list.as_slice().is_empty());
    assert_eq!(list.add(9), ID(0, 0));
    let mut roomy = ReusableIndexVec::<u8>::with_capacity(1000);
    assert!(roomy.as_slice().is_empty());
    assert_eq!(roomy.add(9), ID(0, 0));
    assert_eq!(roomy.as_slice().len(), 1);
}

#[test]
fn fresh_positions_start_at_stamp_zero() {
    let (_, ids) = five();
    assert_eq!(ids, [ID(0, 0), ID(0, 1), ID(0, 2), ID(0, 3), ID(0, 4)]);
}

#[test]
fn handles_of_insertions_are_pairwise_distinct() {
    let mut list = ReusableIndexVec::new();
    let mut ids = Vec::new();
    for n in 0..200u32 {
        ids.push(list.add(n));
    }
    for i in 0..ids.len() {
        for j in (i + 1)..ids.len() {
            assert_ne!(ids[i], ids[j]);
        }
    }
}

#[test]
fn get_after_add_returns_the_value() {
    let mut list = ReusableIndexVec::new();
    for n in 0..50u64 {
        let id = list.add(n * 3);
        assert_eq!(list.get(id), Some(&(n * 3)));
    }
}

#[test]
fn removed_handle_resolves_to_nothing() {
    let (mut list, ids) = five();
    assert!(list.remove(ids[2]).is_ok());
    assert_eq!(list.get(ids[2]), None);
    assert!(list.get_mut(ids[2]).is_none());
    let again = list.remove(ids[2]).unwrap_err();
    assert_eq!(again.error_type(), ErrorType::NotFound);
    let third = list.remove(ids[2]).unwrap_err();
    assert_eq!(third.error_type(), ErrorType::NotFound);
    assert_eq!(list.iter().collect(), vec![&"A", &"B", &"D", &"E"]);
}

#[test]
fn failed_remove_changes_nothing() {
    let (mut list, ids) = five();
    list.remove(ids[1]).unwrap();
    let before = format!("{:?}", list.as_slice());
    assert!(list.remove(ids[1]).is_err());
    assert!(list.remove(ID(7, 0)).is_err());
    assert!(list.remove(ID(0, 5)).is_err());
    assert!(list.remove(ID(0, usize::MAX)).is_err());
    assert_eq!(format!("{:?}", list.as_slice()), before);
    assert_eq!(list.add("F"), ID(1, 1));
}

#[test]
fn not_found_describes_the_handle() {
    let mut list = ReusableIndexVec::<u8>::new();
    let e = list.remove(ID(0, 1)).unwrap_err();
    assert_eq!(e.error_type(), ErrorType::NotFound);
    assert_eq!(e.error_desc(), "node with id 0::1 not found");
    assert_eq!(e.message(), "NotFound, node with id 0::1 not found");
    let e = list.remove(ID(4294967295, 1234567890)).unwrap_err();
    assert_eq!(e.error_desc(), "node with id 4294967295::1234567890 not found");
}

#[test]
fn reuse_bumps_the_stamp() {
    let (mut list, ids) = five();
    list.remove(ids[3]).unwrap();
    let new_id = list.add("F");
    assert_eq!(new_id, ID(1, 3));
    assert_eq!(new_id.1, ids[3].1);
    assert_ne!(new_id.0, ids[3].0);
    assert_eq!(list.get(ids[3]), None);
    assert!(list.remove(ids[3]).is_err());
    assert_eq!(list.get(new_id), Some(&"F"));
    list.remove(new_id).unwrap();
    assert_eq!(list.add("G"), ID(2, 3));
}

#[test]
fn most_recently_freed_is_reused_first() {
    let (mut list, ids) = five();
    list.remove(ids[1]).unwrap();
    list.remove(ids[3]).unwrap();
    assert_eq!(list.add("F"), ID(1, 3));
    assert_eq!(list.add("G"), ID(1, 1));
    assert_eq!(list.add("H"), ID(0, 5));
}

#[test]
fn tombstones_are_chained() {
    let (mut list, ids) = five();
    list.remove(ids[1]).unwrap();
    assert!(matches!(list.as_slice()[1], ReusableIndexNode::Removed(0)));
    list.remove(ids[3]).unwrap();
    assert!(matches!(list.as_slice()[3], ReusableIndexNode::RemovedAndNext(0, 1)));
    list.remove(ids[0]).unwrap();
    assert!(matches!(list.as_slice()[0], ReusableIndexNode::RemovedAndNext(0, 3)));
    assert!(matches!(list.as_slice()[2], ReusableIndexNode::Exists(0, "C")));
    assert_eq!(list.as_slice().len(), 5);
}

#[test]
fn iteration_yields_exactly_the_resolvable_elements() {
    let (mut list, ids) = five();
    list.remove(ids[0]).unwrap();
    list.remove(ids[4]).unwrap();
    let yielded: Vec<&str> = list.iter().collect().into_iter().copied().collect();
    assert_eq!(yielded, vec!["B", "C", "D"]);
    let mut resolved = Vec::new();
    for id in ids {
        if let Some(value) = list.get(id) {
            resolved.push(*value);
        }
    }
    assert_eq!(resolved, yielded);
}

#[test]
fn iteration_restarts_and_walks_step_by_step() {
    let (mut list, ids) = five();
    list.remove(ids[1]).unwrap();
    list.remove(ids[2]).unwrap();
    let mut walk = list.iter();
    assert_eq!(walk.next(), Some(&"A"));
    assert_eq!(walk.next(), Some(&"D"));
    let rest = walk;
    assert_eq!(rest.collect(), vec![&"E"]);
    assert_eq!(walk.next(), Some(&"E"));
    assert_eq!(walk.next(), None);
    assert_eq!(walk.next(), None);
    assert_eq!(list.iter().collect(), vec![&"A", &"D", &"E"]);
}

#[test]
fn get_mut_replaces_the_element() {
    let (mut list, ids) = five();
    *list.get_mut(ids[2]).unwrap() = "c";
    assert_eq!(list.get(ids[2]), Some(&"c"));
    assert_eq!(list.get(ids[1]), Some(&"B"));
    assert!(list.get_mut(ID(1, 2)).is_none());
    assert!(list.get_mut(ID(0, 9)).is_none());
    assert_eq!(list.iter().collect(), vec![&"A", &"B", &"c", &"D", &"E"]);
}

#[test]
fn stale_handle_misses_an_occupied_position() {
    let (mut list, ids) = five();
    list.remove(ids[0]).unwrap();
    let new_id = list.add("Z");
    assert_eq!(new_id.1, 0);
    assert_eq!(list.get(ids[0]), None);
    assert!(list.get_mut(ids[0]).is_none());
    assert!(list.remove(ids[0]).is_err());
    assert_eq!(list.get(new_id), Some(&"Z"));
}

#[test]
fn scenario_of_letters() {
    let mut list = ReusableIndexVec::new();
    let a = list.add("A");
    let b = list.add("B");
    let c = list.add("C");
    let d = list.add("D");
    let e = list.add("E");
    let all = [a, b, c, d, e];
    for i in 0..all.len() {
        for j in (i + 1)..all.len() {
            assert_ne!(all[i], all[j]);
        }
    }

    list.remove(b).unwrap();
    list.remove(d).unwrap();
    assert_eq!(list.get(b), None);
    assert_eq!(list.get(d), None);
    assert_eq!(list.get(a), Some(&"A"));
    assert_eq!(list.get(c), Some(&"C"));
    assert_eq!(list.get(e), Some(&"E"));
    assert_eq!(list.iter().collect(), vec![&"A", &"C", &"E"]);

    let f = list.add("F");
    let g = list.add("G");
    let h = list.add("H");
    let i = list.add("I");
    assert_eq!(f.1, d.1);
    assert_eq!(g.1, b.1);
    assert_eq!(h, ID(0, 5));
    assert_eq!(i, ID(0, 6));
    assert_eq!(
        list.iter().collect(),
        vec![&"A", &"G", &"C", &"F", &"E", &"H", &"I"]
    );

    list.remove(c).unwrap();
    list.remove(g).unwrap();
    list.remove(h).unwrap();
    let j = list.add("J");
    let k = list.add("K");
    assert_eq!(j, ID(1, 5));
    assert_eq!(k, ID(2, 1));
    list.remove(i).unwrap();
    list.remove(j).unwrap();
    list.remove(a).unwrap();
    list.remove(f).unwrap();

    assert_eq!(list.iter().collect(), vec![&"K", &"E"]);
}

#[test]
fn any_number_of_removals_is_reused_in_reverse() {
    let mut list = ReusableIndexVec::new();
    let mut ids = Vec::new();
    for n in 0..7u32 {
        ids.push(list.add(n));
    }
    let len = list.as_slice().len();
    let removed = [ids[4], ids[0], ids[6], ids[2]];
    for id in removed {
        list.remove(id).unwrap();
    }
    for id in removed.iter().rev() {
        assert_eq!(list.add(100), ID(id.0.wrapping_add(1), id.1));
    }
    assert_eq!(list.add(100), ID(0, len));
}

#[test]
fn removed_handle_stays_gone_through_later_reuse() {
    let (mut list, ids) = five();
    let stale = ids[2];
    list.remove(stale).unwrap();
    assert_eq!(list.get(stale), None);
    let mut current = list.add("again");
    for _ in 0..1000 {
        assert_eq!(current.1, stale.1);
        assert_ne!(current, stale);
        assert_eq!(list.get(stale), None);
        assert!(list.get_mut(stale).is_none());
        assert!(list.remove(stale).is_err());
        list.remove(current).unwrap();
        assert_eq!(list.get(stale), None);
        current = list.add("again");
    }
    assert_eq!(current, ID(1001, 2));
    assert_eq!(list.get(current), Some(&"again"));
}
