use im_ternary_tree::convert::TernaryTreeListRefIntoIterator;
use im_ternary_tree::order::Order;
use im_ternary_tree::tree::iter::TernaryTreeIntoIter;
use im_ternary_tree::tree::iter::TernaryTreeIterator;
use im_ternary_tree::tree::finger::widen_bound;
use im_ternary_tree::tree::TernaryTree;
use im_ternary_tree::util::divide_ternary_sizes;
use im_ternary_tree::util::triple_size;
use im_ternary_tree::TernaryTreeList;
use std::sync::Arc;

/// A fixed row of numbers that looks shuffled.
fn numbers(count: usize) -> Vec<u32> {
  let mut state: u32 = 12345;
  let mut out = Vec::with_capacity(count);
  for _ in 0..count {
    state = state.wrapping_mul(1103515245).wrapping_add(12345);
    out.push((state >> 16) % 1000);
  }
  out
}

fn list_of(items: &[u32]) -> TernaryTreeList<u32> {
  TernaryTreeList::from(items.to_vec())
}

#[test]
fn push_right_matches_vec() {
  let data = numbers(1000);
  let mut tree = TernaryTreeList::Empty;
  let mut reference = Vec::new();
  for item in &data {
    tree = tree.push_right(*item);
    reference.push(*item);
    assert_eq!(tree.len(), reference.len());
  }
  assert_eq!(tree.to_vec(), reference);
  assert!(tree.check_structure().is_ok());
}

#[test]
fn push_left_matches_reversed_vec() {
  let data = numbers(1000);
  let mut tree = TernaryTreeList::Empty;
  let mut reference = Vec::new();
  for item in &data {
    tree = tree.push_left(*item);
    reference.insert(0, *item);
  }
  assert_eq!(tree.len(), reference.len());
  assert_eq!(tree.to_vec(), reference);
  assert!(tree.check_structure().is_ok());
}

#[test]
fn push_keeps_the_old_list() {
  let old = list_of(&[1, 2, 3]);
  let new = old.push_right(4);
  assert_eq!(old.to_vec(), vec![1, 2, 3]);
  assert_eq!(new.to_vec(), vec![1, 2, 3, 4]);
  let newer = new.push_left(0);
  assert_eq!(new.to_vec(), vec![1, 2, 3, 4]);
  assert_eq!(newer.to_vec(), vec![0, 1, 2, 3, 4]);
}

#[test]
fn push_right_shape() {
  let mut tree: TernaryTreeList<usize> = TernaryTreeList::Empty;
  for idx in 0..20 {
    tree = tree.push_right(idx);
  }
  assert_eq!(
    tree.format_inline(),
    "((0 1 2) (((3 4 5) (6 7 8) (9 10 11)) ((12 13 14) (15 16 17))) (18 19))"
  );
}

#[test]
fn drop_left_matches_vec() {
  let mut reference = numbers(300);
  let mut tree = list_of(&reference);
  for _ in 0..reference.len() {
    tree = tree.drop_left();
    reference.remove(0);
    assert_eq!(tree.to_vec(), reference);
    assert!(tree.check_structure().is_ok());
  }
  assert!(tree.is_empty());
  assert!(tree.drop_left().is_empty());
}

#[test]
fn drop_right_matches_vec() {
  let mut reference = numbers(300);
  let mut tree = list_of(&reference);
  for _ in 0..reference.len() {
    tree = tree.drop_right();
    reference.pop();
    assert_eq!(tree.to_vec(), reference);
    assert!(tree.check_structure().is_ok());
  }
  assert!(tree.is_empty());
  assert!(tree.drop_right().is_empty());
}

#[test]
fn shallow_drops_match_vec() {
  let mut reference = numbers(200);
  let mut left = list_of(&reference);
  let mut right = list_of(&reference);
  let mut from_right = reference.clone();
  for _ in 0..reference.len() {
    left = left.drop_left_shallow();
    reference.remove(0);
    assert_eq!(left.to_vec(), reference);
    assert!(left.check_structure().is_ok());
    right = right.drop_right_shallow();
    from_right.pop();
    assert_eq!(right.to_vec(), from_right);
    assert!(right.check_structure().is_ok());
  }
  assert!(left.drop_left_shallow().is_empty());
  assert!(right.drop_right_shallow().is_empty());
}

#[test]
fn every_read_agrees_with_the_vec() {
  for size in 1..120 {
    let reference = numbers(size);
    let pushed = {
      let mut tree = TernaryTreeList::Empty;
      for item in &reference {
        tree = tree.push_right(*item);
      }
      tree
    };
    let built = list_of(&reference);
    for (idx, item) in reference.iter().enumerate() {
      assert_eq!(built.get(idx), Some(item));
      assert_eq!(built.loop_get(idx), Some(item));
      assert_eq!(built.ref_get(idx), Some(item));
      assert_eq!(pushed.get(idx), Some(item));
      assert_eq!(pushed.loop_get(idx), Some(item));
      assert_eq!(pushed.ref_get(idx), Some(item));
      assert_eq!(&built[idx], item);
    }
    assert_eq!(built.get(size), None);
    assert_eq!(built.first(), reference.first());
    assert_eq!(built.last(), reference.last());
  }
  let empty: TernaryTreeList<u32> = TernaryTreeList::Empty;
  assert_eq!(empty.get(0), None);
  assert_eq!(empty.loop_get(0), None);
  assert_eq!(empty.ref_get(0), None);
  assert_eq!(empty.first(), None);
  assert_eq!(empty.last(), None);
}

#[test]
fn rebuilding_keeps_the_elements() {
  for size in [1usize, 2, 3, 4, 5, 9, 10, 27, 28, 100] {
    let reference = numbers(size);
    let mut tree = TernaryTreeList::Empty;
    for item in &reference {
      tree = tree.append(*item);
    }
    tree.force_inplace_balancing().unwrap();
    assert_eq!(tree.to_vec(), reference);
    assert!(tree.check_structure().is_ok());
    assert!(tree.eq_shape(&list_of(&reference)));
  }
  let mut empty: TernaryTreeList<u32> = TernaryTreeList::Empty;
  assert!(empty.force_inplace_balancing().is_ok());
  assert!(empty.is_empty());
}

#[test]
fn building_scenarios() {
  assert_eq!(TernaryTreeList::from(&[1, 2, 3, 4, 5]).format_inline(), "((1 2) 3 (4 5))");
  assert_eq!(TernaryTreeList::from(&[1]).format_inline(), "1");
  assert_eq!(TernaryTreeList::from(&[1, 2]).format_inline(), "(1 2)");
  assert_eq!(TernaryTreeList::from(&[1, 2, 3]).format_inline(), "(1 2 3)");
  assert_eq!(TernaryTreeList::from(&[1, 2, 3, 4]).format_inline(), "(1 (2 3) 4)");
  let none: [i32; 0] = [];
  assert_eq!(TernaryTreeList::from(&none).format_inline(), "_");
  assert_eq!(TernaryTreeList::from(&vec![7, 8, 9]).format_inline(), "(7 8 9)");
  assert_eq!(TernaryTreeList::from(vec![7, 8, 9]).format_inline(), "(7 8 9)");
}

#[test]
fn insert_and_dissoc_scenarios() {
  let data5 = TernaryTreeList::from(&[1, 2, 3, 4, 5]);
  assert_eq!(data5.insert(0, 10, false).unwrap().format_inline(), "(10 ((1 2) 3 (4 5)))");
  assert_eq!(data5.dissoc(2).unwrap().format_inline(), "((1 2) (4 5))");
  assert_eq!(data5.format_inline(), "((1 2) 3 (4 5))");
}

#[test]
fn inserting_into_lists_of_one_and_two() {
  let one = TernaryTreeList::from(&[1]);
  assert_eq!(one.insert(0, 9, false).unwrap().format_inline(), "(9 1)");
  assert_eq!(one.insert(0, 9, true).unwrap().format_inline(), "(1 9)");
  assert!(one.insert(1, 9, false).is_err());
  assert!(one.insert(1, 9, true).is_err());
  let two = TernaryTreeList::from(&[1, 2]);
  assert_eq!(two.insert(0, 9, false).unwrap().format_inline(), "(9 1 2)");
  assert_eq!(two.insert(0, 9, true).unwrap().format_inline(), "(1 9 2)");
  assert_eq!(two.insert(1, 9, false).unwrap().format_inline(), "(1 9 2)");
  assert_eq!(two.insert(1, 9, true).unwrap().format_inline(), "(1 2 9)");
  assert!(two.insert(2, 9, false).is_err());
  assert!(two.insert(2, 9, true).is_err());
  let three = TernaryTreeList::from(&[1, 2, 3]);
  assert_eq!(three.insert(0, 9, false).unwrap().format_inline(), "(9 (1 2 3))");
  assert_eq!(three.insert(2, 9, true).unwrap().format_inline(), "((1 2 3) 9)");
  assert_eq!(three.insert(1, 9, false).unwrap().format_inline(), "(1 (9 2) 3)");
  assert_eq!(three.insert(1, 9, true).unwrap().format_inline(), "(1 (2 9) 3)");
  let pair_of_pairs = TernaryTreeList::concat(&[
    TernaryTreeList::from(&[1, 2]),
    TernaryTreeList::from(&[3, 4]),
  ]);
  assert_eq!(pair_of_pairs.format_inline(), "((1 2) (3 4))");
  assert_eq!(pair_of_pairs.insert(0, 9, false).unwrap().format_inline(), "(9 (1 2) (3 4))");
  assert_eq!(pair_of_pairs.insert(3, 9, true).unwrap().format_inline(), "((1 2) (3 4) 9)");
  assert_eq!(pair_of_pairs.insert(1, 9, false).unwrap().format_inline(), "((1 9 2) (3 4))");
  assert_eq!(pair_of_pairs.insert(2, 9, false).unwrap().format_inline(), "((1 2) (9 3 4))");
}

#[test]
fn removing_closes_the_gap() {
  let three = TernaryTreeList::from(&[1, 2, 3]);
  assert_eq!(three.dissoc(0).unwrap().format_inline(), "(2 3)");
  assert_eq!(three.dissoc(1).unwrap().format_inline(), "(1 3)");
  assert_eq!(three.dissoc(2).unwrap().format_inline(), "(1 2)");
  let two = TernaryTreeList::from(&[1, 2]);
  assert_eq!(two.dissoc(0).unwrap().format_inline(), "2");
  assert_eq!(two.dissoc(1).unwrap().format_inline(), "1");
  let one = TernaryTreeList::from(&[1]);
  assert_eq!(one.dissoc(0).unwrap().format_inline(), "_");
  let nine = TernaryTreeList::from(&[1, 2, 3, 4, 5, 6, 7, 8, 9]);
  assert_eq!(nine.format_inline(), "((1 2 3) (4 5 6) (7 8 9))");
  assert_eq!(nine.drop_left().format_inline(), "((2 3) (4 5 6) (7 8 9))");
  assert_eq!(nine.drop_left().drop_left().drop_left().format_inline(), "(4 (5 6) (7 8 9))");
  assert_eq!(nine.drop_right().format_inline(), "((1 2 3) (4 5 6) (7 8))");
  assert_eq!(nine.drop_right().drop_right().drop_right().format_inline(), "((1 2 3) (4 5) 6)");
  assert_eq!(nine.drop_left_shallow().format_inline(), "((2 3) (4 5 6) (7 8 9))");
  assert_eq!(nine.drop_right_shallow().format_inline(), "((1 2 3) (4 5 6) (7 8))");
}

#[test]
fn appending_then_rebuilding_scenario() {
  let mut data: TernaryTreeList<usize> = TernaryTreeList::Empty;
  for idx in 0..20 {
    data = data.append(idx);
  }
  data.force_inplace_balancing().unwrap();
  assert_eq!(
    data.format_inline(),
    "(((0 1) (2 3 4) (5 6)) ((7 8) (9 10) (11 12)) ((13 14) (15 16 17) (18 19)))"
  );
}

#[test]
fn shallow_ends_builder_shape() {
  let leaves: Vec<TernaryTree<usize>> = (0..20).map(TernaryTree::leaf).collect();
  let tree = TernaryTree::rebuild_list(20, 0, &leaves, 2);
  assert_eq!(
    tree.format_inline(),
    "((0 1 2) (((3 4) 5 (6 7)) (8 (9 10) 11) ((12 13) 14 (15 16))) (17 18 19))"
  );
  assert!(tree.check_structure().is_ok());
  let even = TernaryTree::rebuild_list_side(11, 3, &leaves);
  assert_eq!(even.format_inline(), "((3 (4 5) 6) (7 8 9) (10 (11 12) 13))");
  assert_eq!(even.len(), 11);
  assert_eq!(even.depth(), 3);
}

#[test]
fn inserting_everywhere_matches_vec() {
  let reference = numbers(40);
  let tree = list_of(&reference);
  for idx in 0..reference.len() {
    let mut before = reference.clone();
    before.insert(idx, 7777);
    let grown = tree.insert(idx, 7777, false).unwrap();
    assert_eq!(grown.to_vec(), before);
    assert!(grown.check_structure().is_ok());
    assert_eq!(tree.assoc_before(idx, 7777).unwrap().to_vec(), before);

    let mut after = reference.clone();
    after.insert(idx + 1, 7777);
    let grown = tree.insert(idx, 7777, true).unwrap();
    assert_eq!(grown.to_vec(), after);
    assert!(grown.check_structure().is_ok());
    assert_eq!(tree.assoc_after(idx, 7777).unwrap().to_vec(), after);

    let mut changed = reference.clone();
    changed[idx] = 7777;
    let updated = tree.assoc(idx, 7777).unwrap();
    assert_eq!(updated.to_vec(), changed);
    assert!(updated.eq_shape(&tree.assoc(idx, 7777).unwrap()));

    let mut removed = reference.clone();
    removed.remove(idx);
    let shrunk = tree.dissoc(idx).unwrap();
    assert_eq!(shrunk.to_vec(), removed);
    assert!(shrunk.check_structure().is_ok());
  }
  assert_eq!(tree.to_vec(), reference);
}

#[test]
fn ends_by_insertion() {
  let reference = numbers(30);
  let tree = list_of(&reference);
  let mut front = reference.clone();
  front.insert(0, 5);
  assert_eq!(tree.prepend(5).to_vec(), front);
  assert_eq!(tree.unshift(5).to_vec(), front);
  let mut back = reference.clone();
  back.push(5);
  assert_eq!(tree.append(5).to_vec(), back);
  assert_eq!(tree.push(5).to_vec(), back);
  let empty: TernaryTreeList<u32> = TernaryTreeList::Empty;
  assert_eq!(empty.prepend(5).to_vec(), vec![5]);
  assert_eq!(empty.append(5).to_vec(), vec![5]);
  assert_eq!(empty.insert(0, 5, true).unwrap().to_vec(), vec![5]);
  assert_eq!(empty.insert(0, 5, false).unwrap().to_vec(), vec![5]);

  let mut rest = reference.clone();
  rest.remove(0);
  assert_eq!(tree.rest().unwrap().to_vec(), rest);
  let mut butlast = reference.clone();
  butlast.pop();
  assert_eq!(tree.butlast().unwrap().to_vec(), butlast);
}

#[test]
fn errors_for_indices_out_of_range() {
  let empty: TernaryTreeList<u32> = TernaryTreeList::Empty;
  let five = list_of(&[1, 2, 3, 4, 5]);
  let one = list_of(&[1]);

  assert_eq!(empty.assoc(0, 1).unwrap_err(), "empty");
  assert_eq!(five.assoc(5, 1).unwrap_err(), "Index too large 5");
  assert!(five.assoc(4, 1).is_ok());

  assert_eq!(empty.dissoc(0).unwrap_err(), "calling dissoc from empty");
  assert_eq!(five.dissoc(5).unwrap_err(), "Index too large 5");
  assert_eq!(one.dissoc(1).unwrap_err(), "Index too large 1");
  assert!(one.dissoc(0).unwrap().is_empty());

  assert_eq!(empty.rest().unwrap_err(), "calling rest on empty");
  assert_eq!(empty.butlast().unwrap_err(), "calling butlast on empty");

  assert_eq!(empty.insert(1, 1, false).unwrap_err(), "inserting into empty, but index is not 0");
  assert_eq!(five.insert(5, 1, false).unwrap_err(), "Index too large 5");
  assert_eq!(five.insert(5, 1, true).unwrap_err(), "Index too large 5");
  assert!(five.insert(4, 1, true).is_ok());
  assert!(five.assoc_before(9, 1).is_err());
  assert!(five.assoc_after(9, 1).is_err());

  assert_eq!(five.slice(0, 6).unwrap_err(), "Slice range too large 6");
  assert_eq!(five.slice(3, 2).unwrap_err(), "Invalid slice range, which ends at 2");
  assert_eq!(five.slice(7, 7).unwrap_err(), "Slice range too large 7");
  assert!(empty.slice(0, 1).is_err());
  assert!(empty.slice(0, 0).unwrap().is_empty());
  assert!(five.slice(5, 5).unwrap().is_empty());

  assert_eq!(five.skip(6).unwrap_err(), "Skip range too large 6");
  assert!(five.skip(5).unwrap().is_empty());
  assert!(empty.skip(3).unwrap().is_empty());
  assert_eq!(five.take(6).unwrap_err(), "Take range too large 6");
  assert!(five.take(0).unwrap().is_empty());
  assert_eq!(five.take(5).unwrap().to_vec(), vec![1, 2, 3, 4, 5]);
  assert!(empty.take(3).unwrap().is_empty());
}

#[test]
fn errors_of_the_tree() {
  let leaves: Vec<TernaryTree<i32>> = (0..5).map(TernaryTree::leaf).collect();
  let five = TernaryTree::rebuild_list_side(5, 0, &leaves);
  let one = TernaryTree::leaf(7);

  assert_eq!(five.assoc(5, 1).unwrap_err(), "Cannot assoc leaf into index 1");
  assert_eq!(one.assoc(3, 1).unwrap_err(), "Cannot assoc leaf into index 3");
  assert_eq!(five.assoc(4, 9).unwrap().to_vec(), vec![0, 1, 2, 3, 9]);
  assert_eq!(one.assoc(0, 9).unwrap().to_vec(), vec![9]);

  assert_eq!(one.rest().unwrap_err(), "unexpected leaf for rest");
  assert_eq!(one.butlast().unwrap_err(), "unexpected leaf for butlast");
  assert_eq!(five.rest().unwrap().to_vec(), vec![1, 2, 3, 4]);
  assert_eq!(five.butlast().unwrap().to_vec(), vec![0, 1, 2, 3]);

  assert_eq!(five.take_left(0).unwrap_err(), "Invalid take_left for a leaf: 0");
  assert_eq!(five.take_left(6).unwrap_err(), "Invalid take_left for a leaf: 2");
  assert_eq!(five.take_left(5).unwrap().to_vec(), vec![0, 1, 2, 3, 4]);
  assert_eq!(five.take_left(1).unwrap().to_vec(), vec![0]);
  assert_eq!(five.take_right(5).unwrap_err(), "Invalid take_right range for a leaf: 1");
  assert_eq!(five.take_right(0).unwrap().to_vec(), vec![0, 1, 2, 3, 4]);
  assert_eq!(five.take_right(4).unwrap().to_vec(), vec![4]);

  assert!(five.slice(2, 2).is_err());
  assert!(five.slice(0, 0).is_err());
  assert!(five.slice(5, 5).is_err());
  assert!(five.slice(2, 6).is_err());
  assert!(five.slice(5, 9).is_err());
  assert!(one.slice(1, 1).is_err());
  assert_eq!(five.slice(1, 4).unwrap().to_vec(), vec![1, 2, 3]);
  assert_eq!(five.slice(0, 5).unwrap().to_vec(), vec![0, 1, 2, 3, 4]);
  assert_eq!(one.slice(0, 1).unwrap().to_vec(), vec![7]);

  assert_eq!(five.dissoc(2).unwrap().format_inline(), "((0 1) (3 4))");
  assert_eq!(five.insert_before(0, 9).unwrap().format_inline(), "(9 ((0 1) 2 (3 4)))");
  assert_eq!(five.insert_after(4, 9).unwrap().format_inline(), "(((0 1) 2 (3 4)) 9)");
  assert_eq!(five.assoc_before(2, 9).unwrap().format_inline(), "((0 1) (9 2) (3 4))");
  assert_eq!(five.assoc_after(2, 9).unwrap().format_inline(), "((0 1) (2 9) (3 4))");
  assert_eq!(five.prepend(9).to_vec(), vec![9, 0, 1, 2, 3, 4]);
  assert_eq!(five.unshift(9).to_vec(), vec![9, 0, 1, 2, 3, 4]);
  assert_eq!(five.push_right(9).format_inline(), "(((0 1) 2 (3 4)) 9)");
  assert_eq!(five.push_left(9).format_inline(), "(9 ((0 1) 2 (3 4)))");
  assert_eq!(five.drop_left().format_inline(), "(1 2 (3 4))");
  assert_eq!(five.drop_right().format_inline(), "((0 1) 2 3)");
  assert_eq!(five.reverse().format_inline(), "((4 3) 2 (1 0))");
  let (left, right) = five.split(3);
  assert_eq!(left.format_inline(), "((0 1) 2)");
  assert_eq!(right.format_inline(), "(3 4)");
  assert_eq!(five.first(), Some(&0));
  assert_eq!(five.last(), Some(&4));
  assert_eq!(five.loop_first(), &0);
  assert_eq!(five.loop_last(), &4);
  assert_eq!(five.ref_get(3), &3);
  assert_eq!(five.loop_get(3), &3);
  assert_eq!(five.index_of(&3), Some(3));
  assert_eq!(five.last_index_of(&3), Some(1));
  assert_eq!(five.find_index(Arc::new(|x: &i32| *x == 3)), Some(3));
  assert_eq!(five.map(Arc::new(|x: &i32| *x + 1)).to_vec(), vec![1, 2, 3, 4, 5]);
  assert_eq!(five.iter().copied().collect::<Vec<i32>>(), vec![0, 1, 2, 3, 4]);
  assert_eq!(five.to_leaves().len(), 5);
  assert!(five.eq_shape(&TernaryTree::rebuild_list(5, 0, &leaves, 2)));
  assert!(five == five.clone());
  let mut again = five.push_right(9);
  assert!(again.force_inplace_balancing().is_ok());
  assert_eq!(again.format_inline(), "((0 1) (2 3) (4 9))");
}

#[test]
fn slices_takes_and_skips_match_vec() {
  let reference = numbers(45);
  let pushed = {
    let mut tree = TernaryTreeList::Empty;
    for item in &reference {
      tree = tree.push_right(*item);
    }
    tree
  };
  for start in 0..=reference.len() {
    for end in start..=reference.len() {
      let cut = pushed.slice(start, end).unwrap();
      assert_eq!(cut.to_vec(), reference[start..end]);
      assert!(cut.check_structure().is_ok());
    }
    assert_eq!(pushed.take(start).unwrap().to_vec(), reference[..start]);
    assert_eq!(pushed.skip(start).unwrap().to_vec(), reference[start..]);
  }
}

#[test]
fn splits_match_vec() {
  let reference = numbers(45);
  for idx in 0..=reference.len() {
    let (left, right) = list_of(&reference).split(idx).unwrap();
    assert_eq!(left.to_vec(), reference[..idx]);
    assert_eq!(right.to_vec(), reference[idx..]);
    assert!(left.check_structure().is_ok());
    assert!(right.check_structure().is_ok());
    assert_eq!(TernaryTreeList::concat(&[left, right]).to_vec(), reference);
  }
  assert_eq!(list_of(&reference).split(46).unwrap_err(), "Split index too large 46");
  let empty: TernaryTreeList<u32> = TernaryTreeList::Empty;
  let (left, right) = empty.split(0).unwrap();
  assert!(left.is_empty() && right.is_empty());
  let empty: TernaryTreeList<u32> = TernaryTreeList::Empty;
  assert!(empty.split(3).is_err());
}

#[test]
fn concat_of_any_number_of_lists() {
  let parts: Vec<Vec<u32>> = vec![
    vec![1, 2],
    vec![],
    vec![3],
    vec![4, 5, 6],
    vec![7, 8, 9, 10],
    vec![],
    vec![11],
    vec![12, 13],
  ];
  for count in 0..=parts.len() {
    let lists: Vec<TernaryTreeList<u32>> = parts[..count].iter().map(|p| list_of(p)).collect();
    let expected: Vec<u32> = parts[..count].iter().flatten().copied().collect();
    let joined = TernaryTreeList::concat(&lists);
    assert_eq!(joined.to_vec(), expected);
    assert!(joined.check_structure().is_ok());
    let plainly = TernaryTreeList::concat_dumb(&lists);
    assert_eq!(plainly.to_vec(), expected);
    assert!(plainly.check_structure().is_ok());
    assert_eq!(joined, plainly);
  }
  let none: Vec<TernaryTreeList<u32>> = vec![];
  assert!(TernaryTreeList::concat(&none).is_empty());
  assert!(TernaryTreeList::concat_dumb(&none).is_empty());
}

#[test]
fn concat_of_five_shape() {
  let lists: Vec<TernaryTreeList<i32>> = vec![
    TernaryTreeList::from(&[1, 2]),
    TernaryTreeList::from(&[3, 4]),
    TernaryTreeList::from(&[5, 6]),
    TernaryTreeList::from(&[7, 8]),
    TernaryTreeList::from(&[9]),
  ];
  assert_eq!(
    TernaryTreeList::concat(&lists).format_inline(),
    "(((1 2) (3 4)) (5 6) ((7 8) 9))"
  );
  assert_eq!(TernaryTreeList::concat(&lists).len(), 9);
}

#[test]
fn concat_rebuilds_a_tree_that_is_too_deep() {
  let mut deep: TernaryTree<usize> = TernaryTree::leaf(0);
  for idx in 1..100 {
    deep = TernaryTree::branch2(Arc::new(deep), Arc::new(TernaryTree::leaf(idx)));
  }
  assert_eq!(deep.len(), 100);
  assert_eq!(deep.depth(), 99);
  assert!(deep.is_too_deep());
  assert!(deep.check_structure().is_ok());
  let expected: Vec<usize> = (0..101).collect();

  let joined = TernaryTree::concat(&[deep.clone(), TernaryTree::leaf(100)]);
  assert_eq!(joined.to_vec(), expected);
  assert_eq!(joined.depth(), 5);
  assert!(joined.check_structure().is_ok());

  let appended = TernaryTreeList::Tree(deep.clone()).append(100);
  assert_eq!(appended.to_vec(), expected);
  match appended {
    TernaryTreeList::Tree(tree) => assert_eq!(tree.depth(), 5),
    TernaryTreeList::Empty => panic!("the list holds elements"),
  }

  let mut kept = deep.clone();
  kept.maybe_rebalance();
  assert_eq!(kept.depth(), 5);
  assert_eq!(kept.to_vec(), expected[..100]);
}

#[test]
fn a_tree_that_is_not_too_deep_is_left_alone() {
  let mut small: TernaryTree<usize> = TernaryTree::leaf(0);
  for idx in 1..80 {
    small = TernaryTree::branch2(Arc::new(small), Arc::new(TernaryTree::leaf(idx)));
  }
  assert_eq!(small.len(), 80);
  assert_eq!(small.depth(), 79);
  assert!(!small.is_too_deep());
  let mut kept = small.clone();
  kept.maybe_rebalance();
  assert_eq!(kept.depth(), 79);

  let mut shallow: TernaryTree<usize> = TernaryTree::leaf(0);
  for idx in 1..24 {
    shallow = TernaryTree::branch2(Arc::new(shallow), Arc::new(TernaryTree::leaf(idx)));
  }
  let wide: Vec<TernaryTree<usize>> = (24..100).map(TernaryTree::leaf).collect();
  let both = TernaryTree::branch2(
    Arc::new(shallow),
    Arc::new(TernaryTree::rebuild_list_side(wide.len(), 0, &wide)),
  );
  assert_eq!(both.len(), 100);
  assert_eq!(both.depth(), 24);
  assert!(!both.is_too_deep());
}

/// A well-formed tree of `size` elements and of depth `depth`: a chain of
/// `depth` branches beside an even tree over the other elements.
fn tree_of(size: usize, depth: usize) -> TernaryTree<usize> {
  let mut chain: TernaryTree<usize> = TernaryTree::leaf(0);
  for idx in 1..depth {
    chain = TernaryTree::branch2(Arc::new(chain), Arc::new(TernaryTree::leaf(idx)));
  }
  let wide: Vec<TernaryTree<usize>> = (depth..size).map(TernaryTree::leaf).collect();
  let tree = TernaryTree::branch2(
    Arc::new(chain),
    Arc::new(TernaryTree::rebuild_list_side(wide.len(), 0, &wide)),
  );
  assert_eq!(tree.len(), size);
  assert_eq!(tree.depth(), depth);
  tree
}

#[test]
fn a_rebuild_is_due_from_81_elements_and_3_to_the_depth_less_20_above_the_size() {
  assert!(!tree_of(81, 24).is_too_deep());
  assert!(tree_of(81, 25).is_too_deep());
  assert!(!tree_of(80, 25).is_too_deep());
  assert!(!tree_of(80, 40).is_too_deep());
  assert!(!tree_of(243, 25).is_too_deep());
  assert!(tree_of(242, 25).is_too_deep());
  assert!(tree_of(243, 26).is_too_deep());
  assert!(!tree_of(100, 20).is_too_deep());
  assert!(!tree_of(100, 19).is_too_deep());
  assert!(tree_of(200, 70).is_too_deep());

  let mut deep = tree_of(242, 25);
  let before = deep.to_vec();
  deep.maybe_rebalance();
  assert_eq!(deep.depth(), 5);
  assert_eq!(deep.to_vec(), before);
  let mut kept = tree_of(243, 25);
  kept.maybe_rebalance();
  assert_eq!(kept.depth(), 25);
}

#[test]
fn structure_check_finds_a_wrong_size() {
  let wrong: TernaryTree<i32> = TernaryTree::Branch2 {
    size: 3,
    depth: 1,
    left: Arc::new(TernaryTree::leaf(1)),
    middle: Arc::new(TernaryTree::leaf(2)),
  };
  assert_eq!(wrong.check_structure().unwrap_err(), "Bad size at branch (1 2)");
  let wrong_depth: TernaryTree<i32> = TernaryTree::Branch3 {
    size: 3,
    depth: 2,
    left: Arc::new(TernaryTree::leaf(1)),
    middle: Arc::new(TernaryTree::leaf(2)),
    right: Arc::new(TernaryTree::leaf(3)),
  };
  assert_eq!(wrong_depth.check_structure().unwrap_err(), "Bad depth at branch (1 2 3)");
  let inside = TernaryTreeList::Tree(TernaryTree::branch2(
    Arc::new(TernaryTree::leaf(0)),
    Arc::new(wrong),
  ));
  assert!(inside.check_structure().is_err());
  let fine = TernaryTree::branch3(
    Arc::new(TernaryTree::leaf(1)),
    Arc::new(TernaryTree::leaf(2)),
    Arc::new(TernaryTree::leaf(3)),
  );
  assert!(fine.check_structure().is_ok());
  assert_eq!(fine.depth(), 1);
  assert_eq!(fine.len(), 3);
  assert!(!fine.is_empty());
}

#[test]
fn peeling_a_bunch_off_an_end() {
  let reference: Vec<u32> = (0..50).collect();
  let tree = match list_of(&reference) {
    TernaryTreeList::Tree(tree) => tree,
    TernaryTreeList::Empty => panic!("the list holds elements"),
  };
  for bound in [1usize, 3, 9, 27] {
    let (bunch, rest) = tree.split_left_some(bound);
    assert!(bunch.len() <= bound);
    let rest = rest.unwrap();
    let mut all = bunch.to_vec();
    all.extend(rest.to_vec());
    assert_eq!(all, reference);
    assert!(rest.check_structure().is_ok());

    let (rest, bunch) = tree.split_right_some(bound);
    assert!(bunch.len() <= bound);
    let rest = rest.unwrap();
    let mut all = rest.to_vec();
    all.extend(bunch.to_vec());
    assert_eq!(all, reference);
    assert!(rest.check_structure().is_ok());
  }
  let (bunch, rest) = tree.split_left_some(5);
  assert_eq!(bunch.format_inline(), "(0 1)");
  assert_eq!(rest.unwrap().len(), 48);
  let (bunch, rest) = tree.split_left_some(50);
  assert_eq!(bunch.len(), 50);
  assert!(rest.is_none());
  let (rest, bunch) = tree.split_right_some(100);
  assert_eq!(bunch.len(), 50);
  assert!(rest.is_none());
}

#[test]
fn searching() {
  let data = TernaryTreeList::from(&[5, 1, 2, 1, 5, 9]);
  assert_eq!(data.index_of(&5), Some(0));
  assert_eq!(data.index_of(&1), Some(1));
  assert_eq!(data.index_of(&9), Some(5));
  assert_eq!(data.index_of(&7), None);
  assert_eq!(data.last_index_of(&9), Some(0));
  assert_eq!(data.last_index_of(&5), Some(1));
  assert_eq!(data.last_index_of(&1), Some(2));
  assert_eq!(data.last_index_of(&7), None);
  assert_eq!(data.find_index(Arc::new(|x: &i32| *x > 1)), Some(0));
  assert_eq!(data.find_index(Arc::new(|x: &i32| *x == 9)), Some(5));
  assert_eq!(data.find_index(Arc::new(|x: &i32| *x > 9)), None);
  let empty: TernaryTreeList<i32> = TernaryTreeList::Empty;
  assert_eq!(empty.index_of(&1), None);
  assert_eq!(empty.last_index_of(&1), None);
  assert_eq!(empty.find_index(Arc::new(|x: &i32| *x == 1)), None);
}

#[test]
fn equality_goes_by_the_elements() {
  let built = TernaryTreeList::from(&[1, 2, 3, 4, 5, 6]);
  let mut pushed = TernaryTreeList::Empty;
  for item in 1..7 {
    pushed = pushed.push_right(item);
  }
  assert!(built == pushed);
  assert!(!(built == pushed.push_right(7)));
  assert!(!(built == pushed.assoc(2, 9).unwrap()));
  let empty: TernaryTreeList<i32> = TernaryTreeList::Empty;
  assert!(empty == TernaryTreeList::Empty);
  assert!(!(empty == built));
  assert!(!(built == empty));
  assert!(!built.eq_shape(&empty));
  assert!(!empty.eq_shape(&built));
  assert!(empty.eq_shape(&TernaryTreeList::Empty));
}

#[test]
fn order_goes_by_length_and_then_by_elements() {
  let short = TernaryTreeList::from(&[9, 9]);
  let long = TernaryTreeList::from(&[1, 1, 1]);
  let other = TernaryTreeList::from(&[1, 2, 0]);
  let empty: TernaryTreeList<i32> = TernaryTreeList::Empty;
  assert_eq!(short.compare(&long), Order::Less);
  assert_eq!(long.compare(&short), Order::Greater);
  assert_eq!(long.compare(&other), Order::Less);
  assert_eq!(other.compare(&long), Order::Greater);
  assert_eq!(other.compare(&TernaryTreeList::Empty.push_right(1).push_right(2).push_right(0)), Order::Equal);
  assert_eq!(empty.compare(&short), Order::Less);
  assert_eq!(short.compare(&empty), Order::Greater);
  assert_eq!(empty.compare(&TernaryTreeList::Empty), Order::Equal);
  assert!(short < long);
  assert!(long < other);
  assert!(other >= long);
  assert!(empty < short);
}

#[test]
fn reversing_and_mapping() {
  let reference = numbers(33);
  let tree = list_of(&reference);
  let mut backwards = reference.clone();
  backwards.reverse();
  assert_eq!(tree.reverse().to_vec(), backwards);
  assert_eq!(tree.reverse().reverse(), tree);
  let doubled: Vec<u64> = reference.iter().map(|x| u64::from(*x) * 2).collect();
  let mapped = tree.map(Arc::new(|x: &u32| u64::from(*x) * 2));
  assert_eq!(mapped.to_vec(), doubled);
  assert!(mapped.check_structure().is_ok());
  let empty: TernaryTreeList<u32> = TernaryTreeList::Empty;
  assert!(empty.reverse().is_empty());
  assert!(empty.map(Arc::new(|x: &u32| *x)).is_empty());
}

#[test]
fn walking_in_order() {
  let reference = numbers(33);
  let tree = list_of(&reference);
  let seen: Vec<u32> = tree.iter().copied().collect();
  assert_eq!(seen, reference);
  let mut again = Vec::new();
  for item in &tree {
    again.push(*item);
  }
  assert_eq!(again, reference);
  let by_refs: Vec<u32> = tree.to_refs().into_iter().copied().collect();
  assert_eq!(by_refs, reference);
}

#[test]
fn cursors_hand_out_the_elements_in_order() {
  let reference: Vec<u32> = numbers(40);
  let list = list_of(&reference);
  let mut by_index = TernaryTreeListRefIntoIterator::new(&list);
  let mut seen = Vec::new();
  while let Some(item) = by_index.next() {
    seen.push(*item);
  }
  assert_eq!(seen, reference);
  assert_eq!(by_index.next(), None);

  let tree = match list {
    TernaryTreeList::Tree(tree) => tree,
    TernaryTreeList::Empty => panic!("the list holds elements"),
  };
  let mut by_index = TernaryTreeIterator::new(&tree);
  let mut seen = Vec::new();
  while let Some(item) = by_index.next() {
    seen.push(*item);
  }
  assert_eq!(seen, reference);

  let mut by_structure = TernaryTreeIntoIter::new(tree.push_right(7).push_left(8));
  let mut seen = Vec::new();
  while let Some(item) = by_structure.next() {
    seen.push(*item);
  }
  let mut expected = vec![8];
  expected.extend(reference.iter().copied());
  expected.push(7);
  assert_eq!(seen, expected);
  assert!(by_structure.next().is_none());

  let mut nothing: TernaryTreeIntoIter<u32> = TernaryTreeIntoIter::default();
  assert!(nothing.next().is_none());
  let empty: TernaryTreeList<u32> = TernaryTreeList::Empty;
  assert_eq!(TernaryTreeListRefIntoIterator::new(&empty).next(), None);
}

#[test]
fn texts() {
  let data = TernaryTreeList::from(&[1, 2, 3, 4]);
  assert_eq!(data.to_string(), "TernaryTree[4, ...]");
  assert_eq!(data.format_inline(), "(1 (2 3) 4)");
  assert_eq!(data.format_debug(), "(TernaryTreeList debug 1 2 3 4)");
  let words = TernaryTreeList::from(vec![String::from("a"), String::from("b c")]);
  assert_eq!(words.format_inline(), "(a b c)");
  assert_eq!(words.format_debug(), "(TernaryTreeList debug \"a\" \"b c\")");
  match &data {
    TernaryTreeList::Tree(tree) => {
      assert_eq!(tree.to_string(), "(TernaryTree 1 2 3 4)");
      assert_eq!(tree.format_inline(), "(1 (2 3) 4)");
      assert_eq!(tree[2], 3);
      assert_eq!(TernaryTree::leaf(5).to_string(), "(TernaryTree 5)");
    }
    TernaryTreeList::Empty => panic!("the list holds elements"),
  }
  let empty: TernaryTreeList<i32> = TernaryTreeList::Empty;
  assert_eq!(empty.to_string(), "TernaryTree[0, ...]");
  assert_eq!(empty.format_inline(), "_");
  assert_eq!(empty.format_debug(), "(TernaryTreeList debug)");
}

#[test]
fn powers_of_three() {
  assert_eq!(triple_size(0), 1);
  assert_eq!(triple_size(1), 3);
  assert_eq!(triple_size(2), 9);
  assert_eq!(triple_size(5), 243);
  assert_eq!(triple_size(40), 12157665459056928801);
  assert_eq!(triple_size(41), usize::MAX);
  assert_eq!(triple_size(255), usize::MAX);
  assert_eq!(widen_bound(1), 3);
  assert_eq!(widen_bound(9), 27);
  assert_eq!(widen_bound(usize::MAX / 3), usize::MAX / 3 * 3);
  assert_eq!(widen_bound(usize::MAX / 3 + 1), usize::MAX);
}

#[test]
fn dividing_in_three() {
  assert_eq!(divide_ternary_sizes(9), (3, 3, 3));
  assert_eq!(divide_ternary_sizes(10), (3, 4, 3));
  assert_eq!(divide_ternary_sizes(11), (4, 3, 4));
  assert_eq!(divide_ternary_sizes(4), (1, 2, 1));
  assert_eq!(divide_ternary_sizes(5), (2, 1, 2));
  assert_eq!(divide_ternary_sizes(0), (0, 0, 0));
  assert_eq!(divide_ternary_sizes(usize::MAX), (usize::MAX / 3, usize::MAX / 3, usize::MAX / 3));
}
