use binstat::BinGraph;
use binstat::BinNode;
use binstat::DimensionMismatch;
use binstat::Symmetry;

#[test]
fn test_exclusive() {
    let mut g: BinGraph<&'static str> = BinGraph::new(vec!["Go swiming", "Read a book"]);

    let suggestion = g.suggestion().unwrap();
    assert_eq!(suggestion, BinNode::from_pairs(&[(false, true), (false, true)]));

    g.data.push(suggestion.clone());

    assert!(!g.contains_choice(&suggestion, 0));

    g.push_pairs(&[
        (true, true),   // can stop swimming.
        (false, false), // can't read book.
    ])
    .unwrap();

    assert!(g.contains_choice(&suggestion, 0));
    assert!(g.contains_choice(&g.data[1], 0));

    assert!(!g.is_complete());

    g.push_pairs(&[
        (false, false), // can't start swimming.
        (true, true),   // can stop reading book.
    ])
    .unwrap();

    assert!(g.is_complete());
}

#[test]
fn from_pairs_round_trip() {
    let node = BinNode::from_pairs(&[(true, false), (false, true), (true, true)]);
    assert_eq!(node.state, vec![true, false, true]);
    assert_eq!(node.choices, vec![false, true, true]);

    let empty = BinNode::from_pairs(&[]);
    assert_eq!(empty.state.len(), 0);
    assert_eq!(empty.choices.len(), 0);
}

#[test]
fn node_equality_is_structural() {
    let a = BinNode::from_pairs(&[(true, false), (false, true)]);
    let b = BinNode::from_pairs(&[(true, false), (false, true)]);
    let c = BinNode::from_pairs(&[(true, true), (false, true)]);
    let d = BinNode::from_pairs(&[(true, false)]);
    assert_eq!(a, b);
    assert_ne!(a, c);
    assert_ne!(a, d);
}

#[test]
fn default_suggestion_all_open() {
    let g: BinGraph<u32> = BinGraph::new(vec![1, 2, 3]);
    let node = g.default_suggestion();
    assert_eq!(node.state, vec![false, false, false]);
    assert_eq!(node.choices, vec![true, true, true]);
}

#[test]
fn suggestion_present_iff_empty() {
    let mut g: BinGraph<&'static str> = BinGraph::new(vec!["a", "b"]);
    let suggested = g.suggestion();
    assert_eq!(suggested, Some(g.default_suggestion()));

    g.push_pairs(&[(false, true), (false, true)]).unwrap();
    assert_eq!(g.suggestion(), None);
}

#[test]
fn fresh_push_alone_has_no_choice() {
    let mut g: BinGraph<&'static str> = BinGraph::new(vec!["a", "b"]);
    g.push_pairs(&[(false, true), (true, true)]).unwrap();
    let only = g.data[0].clone();
    assert!(!g.contains_choice(&only, 0));
    assert!(!g.contains_choice(&only, 1));
}

#[test]
fn incomplete_until_target_pushed() {
    let mut g: BinGraph<&'static str> = BinGraph::new(vec!["a"]);
    g.push_pairs(&[(false, true)]).unwrap();
    assert!(!g.is_complete());

    g.push_pairs(&[(true, false)]).unwrap();
    assert!(g.is_complete());
}

#[test]
fn empty_graph_is_complete() {
    let g: BinGraph<&'static str> = BinGraph::new(vec!["a", "b"]);
    assert!(g.is_complete());
}

#[test]
fn push_wrong_length_leaves_graph_unchanged() {
    let mut g: BinGraph<&'static str> = BinGraph::new(vec!["a", "b"]);
    assert_eq!(g.push_pairs(&[(true, true)]), Err(DimensionMismatch));
    assert_eq!(g.data.len(), 0);

    g.push_pairs(&[(false, true), (true, false)]).unwrap();
    assert_eq!(g.data.len(), 1);

    assert_eq!(
        g.push_pairs(&[(true, true), (false, false), (true, false)]),
        Err(DimensionMismatch)
    );
    assert_eq!(g.data.len(), 1);
    assert_eq!(g.data[0], BinNode::from_pairs(&[(false, true), (true, false)]));
}

#[test]
fn with_choices_lists_open_dimensions() {
    let node = BinNode::from_pairs(&[(true, false), (false, true), (true, true)]);
    assert_eq!(node.with_choices(), vec![1, 2]);

    let closed = BinNode::from_pairs(&[(true, false), (false, false)]);
    assert_eq!(closed.with_choices(), vec![]);
}

#[test]
fn with_choices_not_in_lists_unresolved_dimensions() {
    let mut g: BinGraph<&'static str> = BinGraph::new(vec!["a", "b"]);
    g.push_pairs(&[(false, true), (false, true)]).unwrap();
    let first = g.data[0].clone();

    // Nothing else is recorded, so both open choices are unresolved.
    assert_eq!(first.with_choices_not_in(&g), vec![0, 1]);

    // Record the target of toggling dimension 0; only dimension 1 is left.
    g.push_pairs(&[(true, false), (false, false)]).unwrap();
    assert_eq!(first.with_choices_not_in(&g), vec![1]);

    // Record the target of toggling dimension 1 as well.
    g.push_pairs(&[(false, false), (true, false)]).unwrap();
    assert_eq!(first.with_choices_not_in(&g), vec![]);
}

#[test]
fn symmetry_composition() {
    let swim: BinGraph<&'static str> = BinGraph::new(vec!["Go swiming"]);
    let read: BinGraph<&'static str> = BinGraph::new(vec!["Read a book"]);
    let alternatives = Symmetry::ExclusiveSymmetry(vec![
        Symmetry::NoSymmetry(swim),
        Symmetry::NoSymmetry(read),
    ]);
    let tree = Symmetry::IndependentSymmetry(vec![
        alternatives,
        Symmetry::NoSymmetry(BinGraph::new(vec!["Cook dinner"])),
    ]);

    match tree {
        Symmetry::IndependentSymmetry(children) => {
            assert_eq!(children.len(), 2);
            assert!(matches!(children[0], Symmetry::ExclusiveSymmetry(_)));
            match &children[1] {
                Symmetry::NoSymmetry(g) => assert_eq!(g.actions, vec!["Cook dinner"]),
                _ => panic!("expected a plain graph"),
            }
        }
        _ => panic!("expected an independent composition"),
    }
}
