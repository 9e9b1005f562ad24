use tpt_certus::realization::{
    plane_distance_graph, ray_plane_graph, slab_graph, Decision, DomainError, OpGraph, OpKind,
    ENGINE_ID,
};

#[test]
fn graph_requires_one_interval_per_input_and_valid_outputs() {
    let mut g = OpGraph::new();
    let a = g.input("a");
    let b = g.input("b");
    let sum = g.add("sum", a, b);

    assert_eq!(
        g.check_input_count(1),
        Err(DomainError::InputCountMismatch { expected: 2, found: 1 })
    );
    assert_eq!(g.check_input_count(2), Ok(()));
    assert!(matches!(g.output_label(99), Err(DomainError::ForwardReference(_))));
    assert_eq!(g.output_label(sum), Ok("sum".to_string()));
    assert_eq!(g.node_label(sum), Some("sum"));
    assert_eq!(g.node_label(99), None);
    assert_eq!(g.input_count(), 2);
    assert_eq!(g.node_count(), 3);
    assert_eq!(OpGraph::default().node_count(), 0);
}

#[test]
fn decision_obligations() {
    let hit = Decision::GuaranteedHit;
    assert!(hit.guarantees_hit() && !hit.guarantees_miss());
    assert_eq!(hit.artifact_obligation(), Some(true));
    assert!(hit.agrees_with_artifact(true));
    assert!(!hit.agrees_with_artifact(false), "a GuaranteedHit domain that misses is a false negative");

    let miss = Decision::GuaranteedMiss;
    assert!(miss.guarantees_miss() && !miss.guarantees_hit());
    assert_eq!(miss.artifact_obligation(), Some(false));
    assert!(miss.agrees_with_artifact(false));
    assert!(!miss.agrees_with_artifact(true));

    let open = Decision::Indeterminate;
    assert_eq!(open.artifact_obligation(), None);
    assert!(open.agrees_with_artifact(true) && open.agrees_with_artifact(false));
    assert_eq!(open.name(), "Indeterminate");
    assert_eq!(hit.name(), "GuaranteedHit");
    assert_eq!(miss.name(), "GuaranteedMiss");
}

#[test]
fn forward_references_are_refused_per_operand() {
    let mut g = OpGraph::new();
    let x = g.input("x");
    let bad_a = g.add("early", 5, x);
    let bad_b = g.mul("late", x, 7);
    let good = g.sub("fine", x, x);
    assert_eq!(g.operands(bad_a), Err(DomainError::ForwardReference("early->a".to_string())));
    assert_eq!(g.operands(bad_b), Err(DomainError::ForwardReference("late->b".to_string())));
    assert_eq!(g.operands(good), Ok((0, 0)));
    assert_eq!(
        g.output_label(12),
        Err(DomainError::ForwardReference("output index 12".to_string()))
    );
}

#[test]
fn builders_record_operation_kind_operands_and_literal() {
    let mut g = OpGraph::new();
    let x = g.input("x");
    let c = g.constant("two", 2.0f64.to_bits());
    let n = g.neg("neg", x);
    let r = g.sqrt("root", c);
    let m = g.min("lo", n, r);
    let mx = g.max("hi", n, r);
    let d = g.div("q", mx, m);
    assert_eq!(g.node(c).value, 2.0f64.to_bits());
    assert_eq!(g.node(c).op, OpKind::Constant);
    assert_eq!((g.node(n).a, g.node(n).b), (x, x));
    assert_eq!(g.node(r).op, OpKind::Sqrt);
    assert_eq!((g.node(d).a, g.node(d).b), (mx, m));
    assert_eq!(g.input_count(), 1);
    assert_eq!(g.node_count(), 7);
}

#[test]
fn mirror_graphs_have_their_documented_shape() {
    let slab = slab_graph();
    assert_eq!(slab.graph.node_count(), 36);
    assert_eq!(slab.graph.input_count(), 12);
    assert_eq!(slab.graph.node_label(slab.t_near), Some("t_near"));
    assert_eq!(slab.graph.node_label(slab.t_min), Some("t_min_through_z"));
    assert_eq!(slab.graph.node_label(slab.t_far), Some("t_far_through_z"));
    assert_eq!(slab.graph.node_label(0), Some("box_min.x"));
    assert_eq!(slab.graph.node_label(11), Some("direction.z"));
    for i in 0..slab.graph.node_count() {
        let node = slab.graph.node(i);
        if node.op != OpKind::Input && node.op != OpKind::Constant {
            assert!(slab.graph.operands(i).is_ok());
        }
    }

    let plane = plane_distance_graph();
    assert_eq!(plane.graph.node_count(), 24);
    assert_eq!(plane.graph.input_count(), 9);
    assert_eq!(plane.graph.node_label(plane.distance), Some("signed_distance"));
    assert_eq!(plane.graph.node_label(plane.length), Some("normal_length"));

    let ray = ray_plane_graph();
    assert_eq!(ray.graph.node_count(), 26);
    assert_eq!(ray.graph.input_count(), 12);
    assert_eq!(ray.graph.node_label(ray.t), Some("t"));
    assert!(ENGINE_ID.contains("interval arithmetic"));
}
