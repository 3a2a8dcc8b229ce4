use hypergraph::mapping::IndexMapping;
use hypergraph::parallel::{differs, redirect};
use hypergraph::vertices::{contains_position, distinct_positions, positions_after_removal};
use hypergraph::{HyperedgeIndex, Hypergraph, HypergraphError, VertexIndex};

fn four_vertices() -> (Hypergraph<&'static str, usize>, Vec<VertexIndex>) {
    let mut graph = Hypergraph::new();
    let ids = vec![
        graph.add_vertex("A"),
        graph.add_vertex("B"),
        graph.add_vertex("C"),
        graph.add_vertex("D"),
    ];
    (graph, ids)
}

fn assert_bijective(mapping: &IndexMapping) {
    assert_eq!(mapping.left.len(), mapping.right.len());
    for (position, external) in mapping.left.iter().enumerate() {
        assert_eq!(mapping.right.get(external), Some(&position));
    }
    for (external, position) in mapping.right.iter() {
        assert_eq!(mapping.left[*position], *external);
    }
}

#[test]
fn add_vertex_then_get_vertex_round_trips() {
    let mut graph: Hypergraph<&str, usize> = Hypergraph::new();
    let id = graph.add_vertex("payload");
    assert_eq!(id, VertexIndex(0));
    assert_eq!(graph.get_vertex(id), Ok(&"payload"));
    let second = graph.add_vertex("other");
    assert_eq!(second, VertexIndex(1));
    assert_eq!(graph.get_vertex(second), Ok(&"other"));
    assert_eq!(graph.get_vertex(id), Ok(&"payload"));
}

#[test]
fn update_vertex_replaces_the_payload_in_place() {
    let (mut graph, v) = four_vertices();
    assert_eq!(graph.update_vertex(v[2], "Z"), Ok(()));
    assert_eq!(graph.get_vertex(v[2]), Ok(&"Z"));
    assert_eq!(graph.get_vertex(v[1]), Ok(&"B"));
    assert_eq!(graph.vertices_mapping.right.get(&v[2].0), Some(&2));
}

#[test]
fn unknown_vertex_is_not_found() {
    let (mut graph, _) = four_vertices();
    let ghost = VertexIndex(17);
    assert_eq!(graph.get_vertex(ghost), Err(HypergraphError::VertexIndexNotFound(ghost)));
    assert_eq!(graph.update_vertex(ghost, "X"), Err(HypergraphError::VertexIndexNotFound(ghost)));
    assert_eq!(graph.remove_vertex(ghost), Err(HypergraphError::VertexIndexNotFound(ghost)));
    assert_eq!(graph.vertices, vec!["A", "B", "C", "D"]);
}

#[test]
fn unknown_hyperedge_is_not_found() {
    let (mut graph, v) = four_vertices();
    let ghost = HyperedgeIndex(5);
    let expected = Err(HypergraphError::HyperedgeIndexNotFound(ghost));
    assert_eq!(graph.get_hyperedge_vertices(ghost), Err(HypergraphError::HyperedgeIndexNotFound(ghost)));
    assert_eq!(graph.get_hyperedge_weight(ghost), Err(HypergraphError::HyperedgeIndexNotFound(ghost)));
    assert_eq!(graph.update_hyperedge_vertices(ghost, vec![v[0]]), expected);
    assert_eq!(graph.reverse_hyperedge(ghost), expected);
    assert_eq!(graph.remove_hyperedge(ghost), expected);
}

#[test]
fn add_hyperedge_reports_the_first_unknown_vertex() {
    let (mut graph, v) = four_vertices();
    let r = graph.add_hyperedge(vec![v[0], VertexIndex(9), VertexIndex(8)], 1);
    assert_eq!(r, Err(HypergraphError::VertexIndexNotFound(VertexIndex(9))));
    assert!(graph.hyperedges.is_empty());
    assert_eq!(graph.hyperedges_mapping.next, 0);
}

#[test]
fn add_hyperedge_then_read_it_back() {
    let (mut graph, v) = four_vertices();
    let h = graph.add_hyperedge(vec![v[2], v[0], v[2]], 42).unwrap();
    assert_eq!(h, HyperedgeIndex(0));
    assert_eq!(graph.get_hyperedge_vertices(h), Ok(vec![v[2], v[0], v[2]]));
    assert_eq!(graph.get_hyperedge_weight(h), Ok(42));
    let empty = graph.add_hyperedge(vec![], 42).unwrap();
    assert_eq!(empty, HyperedgeIndex(1));
    assert_eq!(graph.get_hyperedge_vertices(empty), Ok(vec![]));
}

#[test]
fn identical_content_is_rejected() {
    let (mut graph, v) = four_vertices();
    let first = graph.add_hyperedge(vec![v[0], v[1]], 1).unwrap();
    assert_eq!(graph.add_hyperedge(vec![v[0], v[1]], 1), Err(HypergraphError::DuplicateHyperedge));
    assert_eq!(graph.hyperedges.len(), 1);
    // Another order or another weight is another content.
    let swapped = graph.add_hyperedge(vec![v[1], v[0]], 1).unwrap();
    let heavier = graph.add_hyperedge(vec![v[0], v[1]], 2).unwrap();
    assert_eq!((first, swapped, heavier), (HyperedgeIndex(0), HyperedgeIndex(1), HyperedgeIndex(2)));
    assert_eq!(graph.hyperedges.len(), 3);
}

#[test]
fn update_hyperedge_vertices_keeps_index_and_weight() {
    let (mut graph, v) = four_vertices();
    let h0 = graph.add_hyperedge(vec![v[0], v[1]], 1).unwrap();
    let h1 = graph.add_hyperedge(vec![v[2]], 5).unwrap();
    assert_eq!(graph.update_hyperedge_vertices(h0, vec![v[3], v[3], v[1]]), Ok(()));
    assert_eq!(graph.get_hyperedge_vertices(h0), Ok(vec![v[3], v[3], v[1]]));
    assert_eq!(graph.get_hyperedge_weight(h0), Ok(1));
    assert_eq!(graph.get_hyperedge_vertices(h1), Ok(vec![v[2]]));
    assert_eq!(graph.hyperedges[0].vertices, vec![3, 3, 1]);
}

#[test]
fn update_hyperedge_vertices_rejects_what_it_must() {
    let (mut graph, v) = four_vertices();
    let h0 = graph.add_hyperedge(vec![v[0], v[1]], 1).unwrap();
    let h1 = graph.add_hyperedge(vec![v[1], v[2]], 1).unwrap();
    assert_eq!(
        graph.update_hyperedge_vertices(h0, vec![v[1], v[2]]),
        Err(HypergraphError::DuplicateHyperedge)
    );
    assert_eq!(
        graph.update_hyperedge_vertices(h0, vec![v[1], VertexIndex(30)]),
        Err(HypergraphError::VertexIndexNotFound(VertexIndex(30)))
    );
    assert_eq!(graph.get_hyperedge_vertices(h0), Ok(vec![v[0], v[1]]));
    assert_eq!(graph.get_hyperedge_vertices(h1), Ok(vec![v[1], v[2]]));
    // Its own content is no duplicate.
    assert_eq!(graph.update_hyperedge_vertices(h0, vec![v[0], v[1]]), Ok(()));
    assert_eq!(graph.get_hyperedge_vertices(h0), Ok(vec![v[0], v[1]]));
    assert_eq!(graph.hyperedges.len(), 2);
}

#[test]
fn reverse_hyperedge_reverses_the_order() {
    let (mut graph, v) = four_vertices();
    let h = graph.add_hyperedge(vec![v[0], v[1], v[1], v[3]], 9).unwrap();
    assert_eq!(graph.reverse_hyperedge(h), Ok(()));
    assert_eq!(graph.get_hyperedge_vertices(h), Ok(vec![v[3], v[1], v[1], v[0]]));
    assert_eq!(graph.get_hyperedge_weight(h), Ok(9));
}

#[test]
fn reverse_hyperedge_twice_is_the_identity() {
    let (mut graph, v) = four_vertices();
    let other = graph.add_hyperedge(vec![v[3]], 9).unwrap();
    let h = graph.add_hyperedge(vec![v[0], v[1], v[2]], 9).unwrap();
    assert_eq!(graph.reverse_hyperedge(h), Ok(()));
    assert_eq!(graph.reverse_hyperedge(h), Ok(()));
    assert_eq!(graph.get_hyperedge_vertices(h), Ok(vec![v[0], v[1], v[2]]));
    assert_eq!(graph.get_hyperedge_weight(h), Ok(9));
    assert_eq!(graph.get_hyperedge_vertices(other), Ok(vec![v[3]]));
    assert_bijective(&graph.hyperedges_mapping);
}

#[test]
fn reverse_hyperedge_onto_existing_content_is_rejected() {
    let (mut graph, v) = four_vertices();
    let h0 = graph.add_hyperedge(vec![v[0], v[1]], 1).unwrap();
    let h1 = graph.add_hyperedge(vec![v[1], v[0]], 1).unwrap();
    assert_eq!(graph.reverse_hyperedge(h0), Err(HypergraphError::DuplicateHyperedge));
    assert_eq!(graph.get_hyperedge_vertices(h0), Ok(vec![v[0], v[1]]));
    assert_eq!(graph.get_hyperedge_vertices(h1), Ok(vec![v[1], v[0]]));
    // A palindrome reverses onto itself.
    let h2 = graph.add_hyperedge(vec![v[2], v[3], v[2]], 1).unwrap();
    assert_eq!(graph.reverse_hyperedge(h2), Ok(()));
    assert_eq!(graph.get_hyperedge_vertices(h2), Ok(vec![v[2], v[3], v[2]]));
}

#[test]
fn remove_hyperedge_moves_the_last_into_its_place() {
    let (mut graph, v) = four_vertices();
    let h0 = graph.add_hyperedge(vec![v[0]], 1).unwrap();
    let h1 = graph.add_hyperedge(vec![v[1]], 1).unwrap();
    let h2 = graph.add_hyperedge(vec![v[2]], 1).unwrap();
    assert_eq!(graph.remove_hyperedge(h0), Ok(()));
    assert_eq!(graph.get_hyperedge_vertices(h0), Err(HypergraphError::HyperedgeIndexNotFound(h0)));
    assert_eq!(graph.get_hyperedge_vertices(h1), Ok(vec![v[1]]));
    assert_eq!(graph.get_hyperedge_vertices(h2), Ok(vec![v[2]]));
    assert_eq!(graph.hyperedges_mapping.left, vec![h2.0, h1.0]);
    assert_eq!(graph.hyperedges_mapping.right.get(&h2.0), Some(&0));
    assert_bijective(&graph.hyperedges_mapping);
    // Removing the last one is a truncation.
    assert_eq!(graph.remove_hyperedge(h1), Ok(()));
    assert_eq!(graph.hyperedges_mapping.left, vec![h2.0]);
    // The freed content can be added again, under a fresh index.
    assert_eq!(graph.add_hyperedge(vec![v[0]], 1), Ok(HyperedgeIndex(3)));
    assert_eq!(graph.vertices, vec!["A", "B", "C", "D"]);
}

#[test]
fn self_loop_disappears_with_its_vertex() {
    let mut graph: Hypergraph<&str, usize> = Hypergraph::new();
    let v = graph.add_vertex("only");
    let h = graph.add_hyperedge(vec![v, v], 3).unwrap();
    assert_eq!(graph.remove_vertex(v), Ok(()));
    assert_eq!(graph.get_hyperedge_vertices(h), Err(HypergraphError::HyperedgeIndexNotFound(h)));
    assert_eq!(graph.get_hyperedge_weight(h), Err(HypergraphError::HyperedgeIndexNotFound(h)));
    assert_eq!(graph.get_vertex(v), Err(HypergraphError::VertexIndexNotFound(v)));
    assert!(graph.hyperedges.is_empty());
    assert!(graph.vertices.is_empty());
}

#[test]
fn partial_removal_keeps_the_other_vertices() {
    let (mut graph, v) = four_vertices();
    let e0 = graph.add_hyperedge(vec![v[0], v[1], v[2]], 1).unwrap();
    assert_eq!(graph.remove_vertex(v[1]), Ok(()));
    assert_eq!(graph.get_hyperedge_vertices(e0), Ok(vec![v[0], v[2]]));
    assert_eq!(graph.get_hyperedge_weight(e0), Ok(1));
    assert_eq!(graph.get_vertex(v[1]), Err(HypergraphError::VertexIndexNotFound(v[1])));
    assert_eq!(graph.get_vertex(v[3]), Ok(&"D"));
    assert_eq!(graph.get_vertex(v[0]), Ok(&"A"));
    assert_eq!(graph.get_vertex(v[2]), Ok(&"C"));
}

#[test]
fn every_occurrence_of_the_vertex_is_removed() {
    let (mut graph, v) = four_vertices();
    let h = graph.add_hyperedge(vec![v[1], v[0], v[1], v[2], v[1]], 4).unwrap();
    let untouched = graph.add_hyperedge(vec![v[2], v[0]], 4).unwrap();
    assert_eq!(graph.remove_vertex(v[1]), Ok(()));
    assert_eq!(graph.get_hyperedge_vertices(h), Ok(vec![v[0], v[2]]));
    assert_eq!(graph.get_hyperedge_vertices(untouched), Ok(vec![v[2], v[0]]));
}

#[test]
fn moved_vertex_is_found_under_its_new_position() {
    let (mut graph, v) = four_vertices();
    let h0 = graph.add_hyperedge(vec![v[3], v[0], v[3]], 7).unwrap();
    let h1 = graph.add_hyperedge(vec![v[1], v[3]], 7).unwrap();
    let h2 = graph.add_hyperedge(vec![v[2]], 7).unwrap();
    assert_eq!(graph.remove_vertex(v[1]), Ok(()));
    // "D" stood last and now stands where "B" stood.
    assert_eq!(graph.get_vertex(v[3]), Ok(&"D"));
    assert_eq!(graph.vertices, vec!["A", "D", "C"]);
    assert_eq!(graph.vertices_mapping.right.get(&v[3].0), Some(&1));
    assert_eq!(graph.vertices_mapping.left, vec![v[0].0, v[3].0, v[2].0]);
    assert_eq!(graph.get_hyperedge_vertices(h0), Ok(vec![v[3], v[0], v[3]]));
    assert_eq!(graph.get_hyperedge_vertices(h1), Ok(vec![v[3]]));
    assert_eq!(graph.get_hyperedge_vertices(h2), Ok(vec![v[2]]));
    assert_eq!(graph.hyperedges[0].vertices, vec![1, 0, 1]);
    assert_eq!(graph.hyperedges[1].vertices, vec![1]);
    assert_bijective(&graph.vertices_mapping);
    assert_bijective(&graph.hyperedges_mapping);
}

#[test]
fn removing_the_last_vertex_moves_nothing() {
    let (mut graph, v) = four_vertices();
    let h = graph.add_hyperedge(vec![v[0], v[3], v[2]], 1).unwrap();
    assert_eq!(graph.remove_vertex(v[3]), Ok(()));
    assert_eq!(graph.vertices, vec!["A", "B", "C"]);
    assert_eq!(graph.vertices_mapping.left, vec![0, 1, 2]);
    assert_eq!(graph.get_hyperedge_vertices(h), Ok(vec![v[0], v[2]]));
    assert_eq!(graph.hyperedges[0].vertices, vec![0, 2]);
}

#[test]
fn removal_that_would_merge_two_hyperedges_changes_nothing() {
    let (mut graph, v) = four_vertices();
    let long = graph.add_hyperedge(vec![v[0], v[1], v[2]], 1).unwrap();
    let short = graph.add_hyperedge(vec![v[0], v[2]], 1).unwrap();
    assert_eq!(graph.remove_vertex(v[1]), Err(HypergraphError::DuplicateHyperedge));
    assert_eq!(graph.get_vertex(v[1]), Ok(&"B"));
    assert_eq!(graph.get_hyperedge_vertices(long), Ok(vec![v[0], v[1], v[2]]));
    assert_eq!(graph.get_hyperedge_vertices(short), Ok(vec![v[0], v[2]]));
    assert_eq!(graph.vertices, vec!["A", "B", "C", "D"]);
    // With another weight the two stay apart.
    assert_eq!(graph.remove_hyperedge(short), Ok(()));
    let other = graph.add_hyperedge(vec![v[0], v[2]], 2).unwrap();
    assert_eq!(graph.remove_vertex(v[1]), Ok(()));
    assert_eq!(graph.get_hyperedge_vertices(long), Ok(vec![v[0], v[2]]));
    assert_eq!(graph.get_hyperedge_vertices(other), Ok(vec![v[0], v[2]]));
}

#[test]
fn mappings_stay_inverse_under_churn() {
    let (mut graph, v) = four_vertices();
    let h0 = graph.add_hyperedge(vec![v[0], v[1]], 1).unwrap();
    let h1 = graph.add_hyperedge(vec![v[1], v[1]], 1).unwrap();
    let h2 = graph.add_hyperedge(vec![v[3], v[2], v[1]], 1).unwrap();
    assert_bijective(&graph.vertices_mapping);
    assert_bijective(&graph.hyperedges_mapping);
    assert_eq!(graph.remove_vertex(v[1]), Ok(()));
    assert_bijective(&graph.vertices_mapping);
    assert_bijective(&graph.hyperedges_mapping);
    assert_eq!(graph.get_hyperedge_vertices(h0), Ok(vec![v[0]]));
    assert_eq!(graph.get_hyperedge_vertices(h1), Err(HypergraphError::HyperedgeIndexNotFound(h1)));
    assert_eq!(graph.get_hyperedge_vertices(h2), Ok(vec![v[3], v[2]]));
    let fresh = graph.add_vertex("E");
    assert_eq!(fresh, VertexIndex(4));
    assert_eq!(graph.reverse_hyperedge(h2), Ok(()));
    assert_eq!(graph.remove_hyperedge(h0), Ok(()));
    assert_eq!(graph.remove_vertex(v[0]), Ok(()));
    assert_bijective(&graph.vertices_mapping);
    assert_bijective(&graph.hyperedges_mapping);
    assert_eq!(graph.get_vertex(fresh), Ok(&"E"));
    assert_eq!(graph.get_hyperedge_vertices(h2), Ok(vec![v[2], v[3]]));
}

#[test]
fn index_mapping_appends_and_compacts() {
    let mut mapping = IndexMapping::new();
    assert_eq!(mapping.append(), 0);
    assert_eq!(mapping.append(), 1);
    assert_eq!(mapping.append(), 2);
    assert_eq!(mapping.len(), 3);
    assert_eq!(mapping.resolve(1), Some(1));
    mapping.swap_remove(0);
    assert_eq!(mapping.left, vec![2, 1]);
    assert_eq!(mapping.resolve(0), None);
    assert_eq!(mapping.resolve(2), Some(0));
    assert_eq!(mapping.next, 3);
    mapping.bind(0);
    assert_eq!(mapping.left, vec![2, 1, 0]);
    assert_eq!(mapping.resolve(0), Some(2));
    let later = IndexMapping::starting_at(7);
    assert_eq!((later.len(), later.next), (0, 7));
}

#[test]
fn distinct_positions_are_sorted_and_unique() {
    assert_eq!(distinct_positions(&vec![3, 1, 3, 2, 1]), vec![1, 2, 3]);
    assert_eq!(distinct_positions(&vec![5, 5, 5]), vec![5]);
    assert_eq!(distinct_positions(&vec![]), Vec::<usize>::new());
    assert_eq!(distinct_positions(&vec![1, 1, 2, 1, 1, 3, 3]), vec![1, 2, 3]);
    assert!(contains_position(&vec![4, 6], 6));
    assert!(!contains_position(&vec![4, 6], 5));
}

#[test]
fn positions_after_removal_filters_and_redirects() {
    assert_eq!(positions_after_removal(&vec![0, 2, 1, 2, 3], 2, 3), Some(vec![0, 1, 2]));
    assert_eq!(positions_after_removal(&vec![3, 0, 3], 1, 3), Some(vec![1, 0, 1]));
    assert_eq!(positions_after_removal(&vec![2, 2], 2, 3), None);
    assert_eq!(positions_after_removal(&vec![2], 2, 2), None);
    assert_eq!(positions_after_removal(&vec![], 2, 3), Some(vec![]));
    assert_eq!(positions_after_removal(&vec![0, 3], 3, 3), Some(vec![0]));
}

#[test]
fn single_positions_are_compared_and_redirected() {
    assert!(differs(3, 4));
    assert!(!differs(4, 4));
    assert_eq!(redirect(7, 7, 2), 2);
    assert_eq!(redirect(6, 7, 2), 6);
}

#[test]
fn vertex_hyperedges_lists_where_the_vertex_occurs() {
    let (mut graph, v) = four_vertices();
    let h0 = graph.add_hyperedge(vec![v[0], v[1]], 1).unwrap();
    let h1 = graph.add_hyperedge(vec![v[2]], 1).unwrap();
    let h2 = graph.add_hyperedge(vec![v[1], v[1], v[3]], 1).unwrap();
    assert_eq!(graph.get_vertex_hyperedges(v[1]), Ok(vec![h0, h2]));
    assert_eq!(graph.get_vertex_hyperedges(v[2]), Ok(vec![h1]));
    assert_eq!(graph.remove_hyperedge(h0), Ok(()));
    assert_eq!(graph.get_vertex_hyperedges(v[1]), Ok(vec![h2]));
    assert_eq!(graph.get_vertex_hyperedges(v[0]), Ok(vec![]));
    assert_eq!(
        graph.get_vertex_hyperedges(VertexIndex(11)),
        Err(HypergraphError::VertexIndexNotFound(VertexIndex(11)))
    );
}

#[test]
fn indexes_are_never_handed_out_twice() {
    let mut graph: Hypergraph<&str, usize> = Hypergraph::new();
    let first = graph.add_vertex("A");
    assert_eq!(graph.remove_vertex(first), Ok(()));
    let second = graph.add_vertex("A");
    assert_eq!((first, second), (VertexIndex(0), VertexIndex(1)));
    assert_eq!(graph.get_vertex(first), Err(HypergraphError::VertexIndexNotFound(first)));
    let h0 = graph.add_hyperedge(vec![second], 1).unwrap();
    assert_eq!(graph.remove_hyperedge(h0), Ok(()));
    let h1 = graph.add_hyperedge(vec![second], 1).unwrap();
    assert_eq!((h0, h1), (HyperedgeIndex(0), HyperedgeIndex(1)));
}
