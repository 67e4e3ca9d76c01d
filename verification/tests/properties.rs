use std::cell::RefCell;
use std::rc::Rc;

use graph::Node;

fn is_neighbor<T: Clone + Eq>(of: &Node<T>, node: &Node<T>) -> bool {
    // Node equality is storage identity, so this finds `node` itself,
    // not just a node with an equal value.
    of.neighbors().into_iter().any(|n| n == *node)
}

#[test]
fn edges_are_symmetric() {
    let hub = Node::new(0);
    let mut leaves = Vec::new();
    for v in 1..7 {
        let leaf = Node::new(v);
        hub.add_neighbor(leaf.clone());
        leaves.push(leaf);
    }
    for leaf in leaves.iter() {
        assert!(is_neighbor(&hub, leaf));
        assert!(is_neighbor(leaf, &hub));
    }
    let (a, b) = (&leaves[0], &leaves[1]);
    assert!(!is_neighbor(a, b));
    assert!(!is_neighbor(b, a));
}

#[test]
fn adding_an_edge_twice_is_adding_it_once() {
    let a = Node::new(1);
    let b = Node::new(2);
    a.add_neighbor(b.clone());
    a.add_neighbor(b.clone());
    assert_eq!(a.neighbors().len(), 1);
    assert_eq!(b.neighbors().len(), 1);
    assert!(is_neighbor(&a, &b));
    assert!(is_neighbor(&b, &a));
    // the other direction starts the same edge: still no duplicates
    b.add_neighbor(a.clone());
    assert_eq!(a.neighbors().len(), 1);
    assert_eq!(b.neighbors().len(), 1);
}

#[test]
fn removing_an_absent_edge_is_a_no_op() {
    let a = Node::new(1);
    let b = Node::new(2);
    let c = Node::new(3);
    a.add_neighbor(b.clone());
    a.remove_neighbor(c.clone());
    assert_eq!(a.neighbors().len(), 1);
    assert!(is_neighbor(&a, &b));
    assert!(c.neighbors().is_empty());
}

#[test]
fn removing_an_edge_twice_removes_it_once() {
    let a = Node::new(1);
    let b = Node::new(2);
    a.add_neighbor(b.clone());
    a.remove_neighbor(b.clone());
    assert!(a.neighbors().is_empty());
    assert!(b.neighbors().is_empty());
    a.remove_neighbor(b.clone());
    assert!(a.neighbors().is_empty());
    assert!(b.neighbors().is_empty());
}

#[test]
fn mutation_is_visible_through_every_alias() {
    let a = Node::new(10);
    let alias = a.clone();
    let b = Node::new(20);
    b.add_neighbor(a.clone());
    let through_neighbors = b.neighbors().pop().unwrap();
    assert!(through_neighbors == a);

    a.update_value(|x| x + 1);
    assert_eq!(a.value(), 11);
    assert_eq!(alias.value(), 11);
    assert_eq!(through_neighbors.value(), 11);

    through_neighbors.update_value(|x| x * 2);
    assert_eq!(a.value(), 22);
    assert_eq!(alias.value(), 22);
}

#[test]
fn one_edge_merges_two_components() {
    // two internally connected triangles
    let first = vec![Node::new(1), Node::new(2), Node::new(3)];
    let second = vec![Node::new(4), Node::new(5), Node::new(6)];
    for set in [&first, &second] {
        for i in 0..set.len() {
            for j in (i + 1)..set.len() {
                set[i].add_neighbor(set[j].clone());
            }
        }
    }
    first[2].add_neighbor(second[0].clone());

    // every node of the union is reachable by traversal from every other
    for start in first.iter().chain(second.iter()) {
        let mut seen: Vec<Node<i32>> = vec![start.clone()];
        let mut work = start.neighbors();
        while let Some(node) = work.pop() {
            if seen.iter().any(|s| *s == node) {
                continue;
            }
            work.extend(node.neighbors());
            seen.push(node);
        }
        assert_eq!(seen.len(), 6);
    }
}

#[test]
fn equal_values_are_still_distinct_nodes() {
    let hub = Node::new(0);
    let twin_a = Node::new(7);
    let twin_b = Node::new(7);
    assert!(twin_a != twin_b);
    hub.add_neighbor(twin_a.clone());
    hub.add_neighbor(twin_b.clone());
    // both edges exist: the second twin is a different node, not a repeat
    assert_eq!(hub.neighbors().len(), 2);
    // removal matches by identity, so only the named twin's edge goes
    hub.remove_neighbor(twin_a.clone());
    let rest = hub.neighbors();
    assert_eq!(rest.len(), 1);
    assert!(rest[0] == twin_b);
    assert!(is_neighbor(&twin_b, &hub));
    assert!(!is_neighbor(&twin_a, &hub));
}

#[derive(PartialEq, Eq)]
struct Counted {
    value: u8,
    drops: Rc<RefCell<isize>>,
}

impl Clone for Counted {
    fn clone(&self) -> Self {
        *RefCell::borrow_mut(&self.drops) -= 1;
        Counted { value: self.value, drops: Rc::clone(&self.drops) }
    }
}

impl Drop for Counted {
    fn drop(&mut self) {
        *RefCell::borrow_mut(&self.drops) += 1;
    }
}

#[test]
fn last_handle_releases_a_complete_component() {
    let drops = Rc::new(RefCell::new(0));
    {
        let mut nodes = Vec::new();
        for v in 0..7 {
            nodes.push(Node::new(Counted { value: v, drops: Rc::clone(&drops) }));
        }
        for i in 0..nodes.len() {
            for j in (i + 1)..nodes.len() {
                nodes[i].add_neighbor(nodes[j].clone());
            }
        }
        // retain exactly one external handle, drop all the others
        let last = nodes[3].clone();
        drop(nodes);
        assert_eq!(*RefCell::borrow(&drops), 0);
        drop(last);
    }
    assert_eq!(*RefCell::borrow(&drops), 7);
}

#[test]
fn standalone_node_is_released() {
    let drops = Rc::new(RefCell::new(0));
    {
        let node = Node::new(Counted { value: 1, drops: Rc::clone(&drops) });
        assert_eq!(node.value().value, 1);
        assert_eq!(*RefCell::borrow(&drops), 0);
    }
    assert_eq!(*RefCell::borrow(&drops), 1);
}
