use tpt_certus::float_bits::{is_negative_bits, is_positive_bits, le_bits, lt_bits};
use tpt_certus::realization::{
    slab_decision, Decision, DomainError, EnvelopeBits, EvalDomain, InputDomain,
    PlaneDistanceDomain, RayPlaneDomain,
};

fn iv(lo: f64, hi: f64) -> EnvelopeBits {
    assert!(lo <= hi);
    EnvelopeBits { lo: lo.to_bits(), hi: hi.to_bits() }
}

#[test]
fn slab_domain_rejects_zero_spanning_direction_and_non_finite_input() {
    assert!(InputDomain::new(
        [iv(-1.0, -1.0); 3],
        [iv(1.0, 1.0); 3],
        [iv(0.0, 0.0); 3],
        [iv(-1.0, 1.0), iv(1.0, 1.0), iv(1.0, 1.0)],
        iv(1.0, 1.0),
    )
    .is_none());

    let bad = InputDomain {
        box_min: [iv(-1.0, -1.0); 3],
        box_max: [iv(1.0, 1.0); 3],
        origin: [iv(0.0, 0.0); 3],
        direction: [iv(-1.0, 1.0), iv(1.0, 1.0), iv(1.0, 1.0)],
        t_max: iv(1.0, 1.0),
    };
    assert!(matches!(
        bad.check_bounded(),
        Err(DomainError::DirectionSpansZero(axis)) if axis == "x"
    ));

    let infinite = InputDomain {
        t_max: iv(f64::INFINITY, f64::INFINITY),
        direction: [iv(1.0, 1.0); 3],
        ..bad
    };
    assert!(matches!(
        infinite.check_bounded(),
        Err(DomainError::NotFinite(name)) if name == "t_max"
    ));
}

fn sample_domain() -> InputDomain {
    InputDomain::new(
        [iv(1.0, 2.0), iv(1.0, 2.0), iv(1.0, 2.0)],
        [iv(3.0, 4.0), iv(3.0, 4.0), iv(3.0, 4.0)],
        [iv(-10.0, 0.0), iv(-10.0, 0.0), iv(-10.0, 0.0)],
        [iv(1.0, 2.0), iv(1.0, 2.0), iv(1.0, 2.0)],
        iv(50.0, 60.0),
    )
    .expect("valid domain")
}

#[test]
fn slab_domain_checks_in_order_and_names_the_first_refusal() {
    let good = sample_domain();
    assert_eq!(good.check_bounded(), Ok(()));

    let mut unbounded_direction = good.clone();
    unbounded_direction.direction[1] = iv(1.0, f64::INFINITY);
    unbounded_direction.box_min[0] = iv(f64::NEG_INFINITY, 0.0);
    assert_eq!(
        unbounded_direction.check_bounded(),
        Err(DomainError::NotFinite("direction.y".to_string()))
    );

    let mut touching_zero = good.clone();
    touching_zero.direction[2] = iv(0.0, 1.0);
    assert_eq!(
        touching_zero.check_bounded(),
        Err(DomainError::DirectionSpansZero("z".to_string()))
    );

    let mut negative_zero = good.clone();
    negative_zero.direction[0] = iv(-1.0, -0.0);
    assert_eq!(
        negative_zero.check_bounded(),
        Err(DomainError::DirectionSpansZero("x".to_string()))
    );

    let mut negative_direction = good.clone();
    negative_direction.direction[0] = iv(-2.0, -1.0);
    assert_eq!(negative_direction.check_bounded(), Ok(()));

    let mut bad_origin = good.clone();
    bad_origin.origin[2] = EnvelopeBits { lo: f64::NAN.to_bits(), hi: 0.0f64.to_bits() };
    bad_origin.box_max[1] = iv(0.0, f64::INFINITY);
    assert_eq!(
        bad_origin.check_bounded(),
        Err(DomainError::NotFinite("box_max.y".to_string()))
    );
}

#[test]
fn slab_domain_binds_inputs_in_graph_order() {
    let domain = sample_domain().eval_domain().expect("finite domain");
    let names: Vec<&str> = domain.inputs.iter().map(|(n, _)| n.as_str()).collect();
    assert_eq!(
        names,
        vec![
            "box_min.x", "box_min.y", "box_min.z", "box_max.x", "box_max.y", "box_max.z",
            "origin.x", "origin.y", "origin.z", "direction.x", "direction.y", "direction.z",
        ]
    );
    assert_eq!(domain.get("box_max.z"), Some(iv(3.0, 4.0)));
    assert_eq!(domain.get("origin.x"), Some(iv(-10.0, 0.0)));
    assert_eq!(domain.get("t_max"), None);
}

#[test]
fn eval_domain_refuses_the_first_non_finite_input() {
    assert!(matches!(
        EvalDomain::new(vec![("x".to_string(), iv(f64::NEG_INFINITY, 1.0))]),
        Err(DomainError::NotFinite(name)) if name == "x"
    ));
    assert_eq!(
        EvalDomain::new(vec![
            ("a".to_string(), iv(0.0, 1.0)),
            ("b".to_string(), iv(0.0, f64::INFINITY)),
            ("c".to_string(), iv(f64::NEG_INFINITY, 0.0)),
        ]),
        Err(DomainError::NotFinite("b".to_string()))
    );
    let ok = EvalDomain::new(vec![
        ("a".to_string(), iv(0.0, 1.0)),
        ("a".to_string(), iv(2.0, 3.0)),
    ])
    .expect("finite");
    assert_eq!(ok.inputs.len(), 2);
    assert_eq!(ok.get("a"), Some(iv(0.0, 1.0)));
    assert_eq!(EvalDomain::new(Vec::new()).map(|d| d.inputs.len()), Ok(0));
}

#[test]
fn plane_and_ray_domains_refuse_non_finite_components_in_order() {
    let unit = [iv(1.0, 1.0); 3];
    let plane = PlaneDistanceDomain::new(unit, unit, [iv(-1.0, 1.0); 3]).expect("finite");
    let inputs = plane.eval_domain().expect("finite");
    assert_eq!(inputs.inputs.len(), 9);
    assert_eq!(inputs.inputs[3].0, "plane_point.x");
    assert_eq!(inputs.inputs[8].0, "normal.z");

    let mut bad = plane.clone();
    bad.normal[0] = iv(0.0, f64::INFINITY);
    bad.plane_point[2] = iv(f64::NEG_INFINITY, 0.0);
    assert_eq!(bad.check_bounded(), Err(DomainError::NotFinite("plane_point.z".to_string())));
    assert!(PlaneDistanceDomain::new(bad.point, bad.plane_point, bad.normal).is_none());

    let ray = RayPlaneDomain::new(unit, [iv(0.0, 0.0); 3], unit, unit).expect("finite");
    let inputs = ray.eval_domain().expect("finite");
    let names: Vec<&str> = inputs.inputs.iter().map(|(n, _)| n.as_str()).collect();
    assert_eq!(&names[..4], &["origin.x", "origin.y", "origin.z", "direction.x"]);
    assert_eq!(names.len(), 12);

    let mut bad_ray = ray.clone();
    bad_ray.direction[1] = iv(0.0, f64::INFINITY);
    assert_eq!(bad_ray.check_bounded(), Err(DomainError::NotFinite("direction.y".to_string())));
    assert!(RayPlaneDomain::new(unit, bad_ray.direction, unit, unit).is_none());
}

#[test]
fn envelope_finiteness_and_zero_exclusion() {
    assert!(iv(-1.0, 2.0).is_finite());
    assert!(!iv(-1.0, f64::INFINITY).is_finite());
    assert!(iv(0.5, 2.0).excludes_zero());
    assert!(iv(-2.0, -0.5).excludes_zero());
    assert!(!iv(0.0, 2.0).excludes_zero());
    assert!(!iv(-2.0, -0.0).excludes_zero());
    assert!(!iv(-1.0, 1.0).excludes_zero());
}

#[test]
fn order_on_bit_patterns_matches_float_order() {
    let values = [
        f64::NEG_INFINITY,
        -1.5,
        -f64::MIN_POSITIVE,
        -0.0,
        0.0,
        f64::from_bits(1),
        1.0,
        f64::MAX,
        f64::INFINITY,
        f64::NAN,
    ];
    for a in values {
        for b in values {
            assert_eq!(lt_bits(a.to_bits(), b.to_bits()), a < b, "{a} < {b}");
            assert_eq!(le_bits(a.to_bits(), b.to_bits()), a <= b, "{a} <= {b}");
        }
        assert_eq!(is_positive_bits(a.to_bits()), a > 0.0, "{a} > 0");
        assert_eq!(is_negative_bits(a.to_bits()), a < 0.0, "{a} < 0");
    }
}

#[test]
fn slab_decision_classifies_from_the_envelopes() {
    // Exit at or past both the entry and zero, entry within t_max: a hit.
    assert_eq!(
        slab_decision(iv(1.0, 2.0), iv(3.0, 4.0), iv(1.0, 2.0), iv(5.0, 6.0)),
        Decision::GuaranteedHit
    );
    // The entry lies past every t_max: a miss.
    assert_eq!(
        slab_decision(iv(7.0, 8.0), iv(9.0, 10.0), iv(7.0, 8.0), iv(5.0, 6.0)),
        Decision::GuaranteedMiss
    );
    // The exit can fall before the entry: no claim.
    assert_eq!(
        slab_decision(iv(1.0, 2.0), iv(1.5, 4.0), iv(1.0, 2.0), iv(5.0, 6.0)),
        Decision::Indeterminate
    );
    // The exit can be behind the origin: no hit claim.
    assert_eq!(
        slab_decision(iv(0.0, 0.0), iv(-1.0, 4.0), iv(-3.0, -2.0), iv(5.0, 6.0)),
        Decision::Indeterminate
    );
    // Touching bounds still count: `>=` and `<=` are inclusive.
    assert_eq!(
        slab_decision(iv(1.0, 5.0), iv(2.0, 4.0), iv(1.0, 2.0), iv(5.0, 6.0)),
        Decision::GuaranteedHit
    );
    // A NaN endpoint decides nothing.
    let nan = EnvelopeBits { lo: f64::NAN.to_bits(), hi: f64::NAN.to_bits() };
    assert_eq!(
        slab_decision(nan, iv(3.0, 4.0), iv(1.0, 2.0), iv(5.0, 6.0)),
        Decision::Indeterminate
    );
}

#[test]
fn new_rejects_inverse_and_nan() {
    assert!(EnvelopeBits::new(2.0f64.to_bits(), 1.0f64.to_bits()).is_none());
    assert!(EnvelopeBits::new(f64::NAN.to_bits(), 1.0f64.to_bits()).is_none());
}

#[test]
fn envelopes_accept_ordered_endpoints_and_contain_them() {
    assert_eq!(EnvelopeBits::new(1.0f64.to_bits(), 2.0f64.to_bits()), Some(iv(1.0, 2.0)));
    assert_eq!(EnvelopeBits::new(0.0f64.to_bits(), (-0.0f64).to_bits()), Some(iv(0.0, -0.0)));
    assert!(EnvelopeBits::new(1.0f64.to_bits(), f64::NAN.to_bits()).is_none());

    let point = iv(2.5, 2.5);
    assert!(point.contains(2.5f64.to_bits()));
    assert!(!point.contains(2.0f64.to_bits()));
    let wide = iv(-1.0, 1.0);
    assert!(wide.contains((-0.0f64).to_bits()));
    assert!(wide.contains(1.0f64.to_bits()));
    assert!(!wide.contains(f64::NAN.to_bits()));
    assert!(!wide.contains(f64::INFINITY.to_bits()));
}
