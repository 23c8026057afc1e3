use spine::skeleton::error::SkeletonError;
use spine::skeleton::hierarchy::topological_order;

fn place(order: &[usize], bone: usize) -> usize {
    order.iter().position(|&b| b == bone).unwrap()
}

#[test]
fn parents_declared_first_keep_the_declared_order() {
    let parents = vec![None, Some(0), Some(1), Some(0), None, Some(4)];
    assert_eq!(topological_order(&parents).unwrap(), vec![0, 1, 2, 3, 4, 5]);
}

#[test]
fn no_bones_have_an_empty_order() {
    assert_eq!(topological_order(&vec![]).unwrap(), Vec::<usize>::new());
}

#[test]
fn every_bone_comes_after_its_parent() {
    // child before parent in the declaration: head -> torso -> root, declared backwards
    let parents = vec![Some(1), Some(2), None, Some(0), Some(5), Some(2)];
    let order = topological_order(&parents).unwrap();
    assert_eq!(order.len(), parents.len());
    let mut seen = order.clone();
    seen.sort();
    assert_eq!(seen, vec![0, 1, 2, 3, 4, 5]);
    for (bone, parent) in parents.iter().enumerate() {
        if let Some(p) = parent {
            assert!(place(&order, *p) < place(&order, bone), "bone {} before its parent", bone);
        }
    }
    // the scans place 2 and 5 first, then 1 and 4, then 0 and 3
    assert_eq!(order, vec![2, 5, 1, 4, 0, 3]);
}

#[test]
fn a_cycle_is_refused() {
    let parents = vec![None, Some(2), Some(3), Some(1)];
    assert!(matches!(topological_order(&parents), Err(SkeletonError::CyclicHierarchy)));
}

#[test]
fn a_bone_that_is_its_own_parent_is_refused() {
    let parents = vec![Some(0)];
    assert!(matches!(topological_order(&parents), Err(SkeletonError::CyclicHierarchy)));
}

#[test]
fn a_parent_outside_the_bones_is_refused() {
    let parents = vec![None, Some(7)];
    assert!(matches!(topological_order(&parents), Err(SkeletonError::CyclicHierarchy)));
}
