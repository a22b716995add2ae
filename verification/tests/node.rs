use seqnode::{
    evaluate, get_project, handle_request, interpret, plan_delegation, sequences, Delegation,
    EvalError, Expr, InterpError, Op, Project, Range, Rat, RequestOutcome, SequenceInfo,
    SequenceRequest, SequenceSyntax, NODE_PORT,
};

fn rat(n: i128) -> Rat {
    Rat::from_int(n)
}

fn assert_values(values: &[Rat], expected: &[i128]) {
    assert_eq!(values.len(), expected.len());
    for (v, e) in values.iter().zip(expected.iter()) {
        assert!(
            v.same_value(&rat(*e)).unwrap(),
            "got {}/{}, expected {}",
            v.num,
            v.den,
            e
        );
    }
}

fn range(from: u64, to: u64, step: u64) -> Range {
    Range { from, to, step }
}

fn leaf(name: &str, params: &[i128]) -> SequenceSyntax {
    SequenceSyntax {
        name: name.to_string(),
        parameters: params.iter().map(|p| rat(*p)).collect(),
        sequences: vec![],
    }
}

#[test]
fn arithmetic_values() {
    let e = Expr::Arithmetic { start: rat(0), step: rat(2) };
    let v = evaluate(&e, &range(0, 4, 1)).unwrap();
    assert_values(&v, &[0, 2, 4, 6, 8]);
}

#[test]
fn geometric_values() {
    let e = Expr::Geometric { start: rat(1), factor: rat(2) };
    let v = evaluate(&e, &range(0, 3, 1)).unwrap();
    assert_values(&v, &[1, 2, 4, 8]);
}

#[test]
fn fibonacci_values() {
    let e = Expr::Recursive { x0: rat(1), x1: rat(1), a: rat(1), b: rat(1) };
    let v = evaluate(&e, &range(0, 6, 1)).unwrap();
    assert_values(&v, &[1, 1, 2, 3, 5, 8, 13]);
}

#[test]
fn smoothed_constant_values() {
    let e = Expr::Smoothed { child: Box::new(Expr::Constant { value: rat(5) }) };
    let v = evaluate(&e, &range(0, 2, 1)).unwrap();
    assert_values(&v, &[5, 5, 5]);
}

#[test]
fn sum_values() {
    let e = Expr::Sum {
        left: Box::new(Expr::Arithmetic { start: rat(0), step: rat(1) }),
        right: Box::new(Expr::Constant { value: rat(10) }),
    };
    let v = evaluate(&e, &range(0, 2, 1)).unwrap();
    assert_values(&v, &[10, 11, 12]);
}

#[test]
fn prod_values() {
    let e = Expr::Prod {
        left: Box::new(Expr::Arithmetic { start: rat(1), step: rat(1) }),
        right: Box::new(Expr::Arithmetic { start: rat(2), step: rat(1) }),
    };
    let v = evaluate(&e, &range(0, 3, 1)).unwrap();
    assert_values(&v, &[2, 6, 12, 20]);
}

#[test]
fn average_values() {
    let e = Expr::Average {
        left: Box::new(Expr::Constant { value: rat(1) }),
        right: Box::new(Expr::Constant { value: rat(2) }),
    };
    let v = evaluate(&e, &range(0, 1, 1)).unwrap();
    // (1 + 2) / 2 = 3/2
    assert_eq!(v.len(), 2);
    let half3 = Rat::new(3, 2).unwrap();
    assert!(v[0].same_value(&half3).unwrap());
    assert!(v[1].same_value(&half3).unwrap());
}

#[test]
fn lincomb_values() {
    // 2*A + 3*B + 1 with A = k, B = 1
    let e = Expr::LinComb {
        a: rat(2),
        b: rat(3),
        c: rat(1),
        left: Box::new(Expr::Arithmetic { start: rat(0), step: rat(1) }),
        right: Box::new(Expr::Constant { value: rat(1) }),
    };
    let v = evaluate(&e, &range(0, 2, 1)).unwrap();
    assert_values(&v, &[4, 6, 8]);
}

#[test]
fn drop_values() {
    let e = Expr::Drop {
        n: 3,
        child: Box::new(Expr::Arithmetic { start: rat(0), step: rat(1) }),
    };
    let v = evaluate(&e, &range(0, 2, 1)).unwrap();
    assert_values(&v, &[3, 4, 5]);
}

#[test]
fn cyclic_values() {
    let e = Expr::Cyclic {
        period: 3,
        child: Box::new(Expr::Arithmetic { start: rat(0), step: rat(1) }),
    };
    let v = evaluate(&e, &range(0, 6, 1)).unwrap();
    assert_values(&v, &[0, 1, 2, 0, 1, 2, 0]);
}

#[test]
fn alternating_values() {
    let e = Expr::Alternating {
        child: Box::new(Expr::Arithmetic { start: rat(1), step: rat(1) }),
    };
    let v = evaluate(&e, &range(0, 3, 1)).unwrap();
    assert_values(&v, &[1, -2, 3, -4]);
}

#[test]
fn smoothed_ramp_values() {
    // A[k] = k: boundary (0 + 1)/2, interior stays k exactly
    let e = Expr::Smoothed {
        child: Box::new(Expr::Arithmetic { start: rat(0), step: rat(1) }),
    };
    let v = evaluate(&e, &range(0, 2, 1)).unwrap();
    assert_eq!(v.len(), 3);
    assert!(v[0].same_value(&Rat::new(1, 2).unwrap()).unwrap());
    assert!(v[1].same_value(&rat(1)).unwrap());
    assert!(v[2].same_value(&rat(2)).unwrap());
}

#[test]
fn empty_range_gives_empty_sequence() {
    let e = Expr::Constant { value: rat(7) };
    let v = evaluate(&e, &range(5, 4, 1)).unwrap();
    assert!(v.is_empty());
}

#[test]
fn range_length_formula() {
    // length = floor((to - from) / step) + 1 on a non-empty range
    let e = Expr::Constant { value: rat(1) };
    assert_eq!(evaluate(&e, &range(0, 10, 3)).unwrap().len(), 4);
    assert_eq!(evaluate(&e, &range(2, 2, 5)).unwrap().len(), 1);
    assert_eq!(evaluate(&e, &range(1, 10, 2)).unwrap().len(), 5);
}

#[test]
fn stepped_range_values() {
    let e = Expr::Arithmetic { start: rat(0), step: rat(1) };
    let v = evaluate(&e, &range(1, 9, 4)).unwrap();
    assert_values(&v, &[1, 5, 9]);
}

#[test]
fn geometric_overflow_reported() {
    let e = Expr::Geometric { start: rat(1), factor: rat(i128::MAX) };
    assert!(matches!(evaluate(&e, &range(0, 2, 1)), Err(EvalError::Overflow)));
}

#[test]
fn recursive_overflow_reported() {
    let e = Expr::Recursive {
        x0: rat(i128::MAX),
        x1: rat(i128::MAX),
        a: rat(1),
        b: rat(1),
    };
    assert!(matches!(evaluate(&e, &range(0, 2, 1)), Err(EvalError::Overflow)));
}

#[test]
fn interpret_arithmetic() {
    let s = leaf("Arithmetic", &[0, 2]);
    let e = interpret(&s).unwrap();
    let v = evaluate(&e, &range(0, 4, 1)).unwrap();
    assert_values(&v, &[0, 2, 4, 6, 8]);
}

#[test]
fn interpret_nested() {
    let s = SequenceSyntax {
        name: "Sum".to_string(),
        parameters: vec![],
        sequences: vec![
            Box::new(leaf("Arithmetic", &[0, 1])),
            Box::new(leaf("Constant", &[10])),
        ],
    };
    let e = interpret(&s).unwrap();
    let v = evaluate(&e, &range(0, 2, 1)).unwrap();
    assert_values(&v, &[10, 11, 12]);
}

#[test]
fn sum_with_one_child_is_arity_mismatch() {
    let s = SequenceSyntax {
        name: "Sum".to_string(),
        parameters: vec![],
        sequences: vec![Box::new(leaf("Constant", &[1]))],
    };
    match interpret(&s) {
        Err(InterpError::ArityMismatch {
            operator,
            expected_parameters,
            actual_parameters,
            expected_children,
            actual_children,
        }) => {
            assert_eq!(operator, "Sum");
            assert_eq!(expected_parameters, 0);
            assert_eq!(actual_parameters, 0);
            assert_eq!(expected_children, 2);
            assert_eq!(actual_children, 1);
        },
        other => panic!("expected an arity mismatch, got {:?}", other),
    }
}

#[test]
fn nested_arity_mismatch_is_reported() {
    let s = SequenceSyntax {
        name: "Alternating".to_string(),
        parameters: vec![],
        sequences: vec![Box::new(leaf("Constant", &[1, 2]))],
    };
    match interpret(&s) {
        Err(InterpError::ArityMismatch { operator, expected_parameters, actual_parameters, .. }) => {
            assert_eq!(operator, "Constant");
            assert_eq!(expected_parameters, 1);
            assert_eq!(actual_parameters, 2);
        },
        other => panic!("expected an arity mismatch, got {:?}", other),
    }
}

#[test]
fn unknown_operator_is_distinct_error() {
    let s = leaf("Fancy", &[1]);
    match interpret(&s) {
        Err(InterpError::UnknownOperator { name }) => assert_eq!(name, "Fancy"),
        other => panic!("expected an unknown operator, got {:?}", other),
    }
}

#[test]
fn cyclic_zero_period_rejected() {
    let s = SequenceSyntax {
        name: "Cyclic".to_string(),
        parameters: vec![rat(0)],
        sequences: vec![Box::new(leaf("Constant", &[1]))],
    };
    match interpret(&s) {
        Err(InterpError::InvalidPeriod { operator }) => assert_eq!(operator, "Cyclic"),
        other => panic!("expected an invalid period, got {:?}", other),
    }
}

#[test]
fn fractional_count_parameters_truncate() {
    // Drop(7/2) drops three elements, as a real-valued count read as usize
    let s = SequenceSyntax {
        name: "Drop".to_string(),
        parameters: vec![Rat::new(7, 2).unwrap()],
        sequences: vec![Box::new(leaf("Arithmetic", &[0, 1]))],
    };
    let e = interpret(&s).unwrap();
    let v = evaluate(&e, &range(0, 1, 1)).unwrap();
    assert_values(&v, &[3, 4]);
}

#[test]
fn manifest_lists_every_operator() {
    let m = sequences();
    assert_eq!(m.len(), 12);
    let names: Vec<&str> = m.iter().map(|i| i.name.as_str()).collect();
    assert_eq!(
        names,
        vec![
            "Arithmetic",
            "Geometric",
            "Constant",
            "Sum",
            "Prod",
            "Drop",
            "LinComb",
            "Recursive",
            "Average",
            "Cyclic",
            "Alternating",
            "Smoothed"
        ]
    );
    for info in m.iter() {
        let op = Op::from_name(&info.name).unwrap();
        assert_eq!(info.parameters, op.parameter_arity());
        assert_eq!(info.sequences, op.sequence_arity());
    }
}

#[test]
fn operator_names_round_trip() {
    let m = sequences();
    for info in m.iter() {
        let op = Op::from_name(&info.name).unwrap();
        assert_eq!(op.name_string(), info.name);
    }
    assert!(Op::from_name(&"sum".to_string()).is_none());
    assert!(Op::from_name(&"".to_string()).is_none());
}

#[test]
fn node_descriptor() {
    let p = get_project();
    assert_eq!(p.name, "Lucija & Lev");
    assert_eq!(p.ip, "127.0.0.1");
    assert_eq!(p.port, NODE_PORT);
}

fn request(from: u64, to: u64, step: u64, params: &[i128], children: Vec<SequenceSyntax>) -> SequenceRequest {
    SequenceRequest {
        range: range(from, to, step),
        parameters: params.iter().map(|p| rat(*p)).collect(),
        sequences: children.into_iter().map(Box::new).collect(),
    }
}

#[test]
fn local_request_is_answered() {
    let m = sequences();
    let req = request(0, 4, 1, &[0, 2], vec![]);
    match handle_request(&m, &"Arithmetic".to_string(), &req) {
        RequestOutcome::Respond { values } => assert_values(&values, &[0, 2, 4, 6, 8]),
        other => panic!("expected values, got {:?}", other),
    }
}

#[test]
fn unknown_top_level_operator_rejected() {
    // a name outside the closed algebra is a structural error, never
    // delegated: delegation is only for valid operators this node lacks
    let m = sequences();
    let req = request(0, 4, 1, &[1, 2], vec![]);
    match handle_request(&m, &"Fancy".to_string(), &req) {
        RequestOutcome::Malformed { error: InterpError::UnknownOperator { name } } => {
            assert_eq!(name, "Fancy");
        },
        other => panic!("expected an unknown-operator rejection, got {:?}", other),
    }
}

#[test]
fn missing_manifest_entry_delegates() {
    // a node whose manifest lacks Geometric forwards rather than evaluating
    let mut m = sequences();
    m.retain(|info| info.name != "Geometric");
    let req = request(0, 3, 1, &[1, 2], vec![]);
    match handle_request(&m, &"Geometric".to_string(), &req) {
        RequestOutcome::Delegate => {},
        other => panic!("expected delegation, got {:?}", other),
    }
}

#[test]
fn nested_unsupported_operator_fails_locally() {
    let mut m = sequences();
    m.retain(|info| info.name != "Constant");
    let req = request(
        0,
        2,
        1,
        &[],
        vec![leaf("Arithmetic", &[0, 1]), leaf("Constant", &[10])],
    );
    match handle_request(&m, &"Sum".to_string(), &req) {
        RequestOutcome::UnsupportedLocally => {},
        other => panic!("expected a local failure, got {:?}", other),
    }
}

#[test]
fn zero_step_range_rejected() {
    let m = sequences();
    let req = request(0, 4, 0, &[0, 2], vec![]);
    match handle_request(&m, &"Arithmetic".to_string(), &req) {
        RequestOutcome::InvalidRange => {},
        other => panic!("expected a range rejection, got {:?}", other),
    }
}

#[test]
fn arity_violation_is_reported_not_crashing() {
    let m = sequences();
    let req = request(0, 2, 1, &[], vec![leaf("Constant", &[1])]);
    match handle_request(&m, &"Sum".to_string(), &req) {
        RequestOutcome::Malformed { error: InterpError::ArityMismatch { operator, .. } } => {
            assert_eq!(operator, "Sum");
        },
        other => panic!("expected an arity mismatch, got {:?}", other),
    }
}

#[test]
fn overflow_request_is_reported() {
    let m = sequences();
    let req = request(0, 2, 1, &[1, i128::MAX], vec![]);
    match handle_request(&m, &"Geometric".to_string(), &req) {
        RequestOutcome::Overflow => {},
        other => panic!("expected an overflow, got {:?}", other),
    }
}

fn peer(name: &str, ip: &str, port: u16) -> Project {
    Project { name: name.to_string(), ip: ip.to_string(), port }
}

#[test]
fn delegation_excludes_self_and_keeps_others() {
    let me = get_project();
    let roster = vec![
        peer("a", "10.0.0.1", 1000),
        peer("self", "127.0.0.1", NODE_PORT),
        peer("b", "10.0.0.2", 2000),
        peer("b-again", "10.0.0.2", 2000),
    ];
    let candidates = plan_delegation(roster, &me);
    assert_eq!(candidates.len(), 3);
    let mut names: Vec<String> = candidates.iter().map(|p| p.name.clone()).collect();
    names.sort();
    assert_eq!(names, vec!["a", "b", "b-again"]);
}

#[test]
fn delegation_forwards_payload_verbatim() {
    let me = get_project();
    let body = r#"{"range":{"from":0,"to":3,"step":1},"parameters":[1.0,2.0],"sequences":[]}"#;
    let roster = vec![peer("a", "10.0.0.1", 1000), peer("b", "10.0.0.2", 2000)];
    let mut d = Delegation::start("Geometric".to_string(), body.to_string(), roster, &me);
    assert_eq!(d.payload().as_str(), body);
    while d.has_next() {
        let _ = d.current();
        d.advance();
        // the payload and operator never change while peers are probed
        assert_eq!(d.payload().as_str(), body);
        assert_eq!(d.operator, "Geometric");
    }
}

#[test]
fn peer_manifest_decides_forwarding() {
    let me = get_project();
    let d = Delegation::start(
        "Geometric".to_string(),
        "{}".to_string(),
        vec![peer("a", "10.0.0.1", 1000)],
        &me,
    );
    let full = sequences();
    assert!(d.peer_answers(&full));
    let mut partial = sequences();
    partial.retain(|info| info.name != "Geometric");
    assert!(!d.peer_answers(&partial));
    let empty: Vec<SequenceInfo> = vec![];
    assert!(!d.peer_answers(&empty));
}

#[test]
fn empty_roster_leaves_no_candidates() {
    // an unreachable directory degrades to an empty roster: delegation then
    // has nobody to ask, and local serving is unaffected
    let me = get_project();
    let d = Delegation::start("Geometric".to_string(), "{}".to_string(), vec![], &me);
    assert!(!d.has_next());
    let m = sequences();
    assert_eq!(m.len(), 12);
    let req = request(0, 4, 1, &[0, 2], vec![]);
    match handle_request(&m, &"Arithmetic".to_string(), &req) {
        RequestOutcome::Respond { values } => assert_values(&values, &[0, 2, 4, 6, 8]),
        other => panic!("expected values, got {:?}", other),
    }
}

#[test]
fn rational_arithmetic() {
    let half = Rat::new(1, 2).unwrap();
    let third = Rat::new(1, 3).unwrap();
    let sum = half.checked_add(&third).unwrap();
    assert!(sum.same_value(&Rat::new(5, 6).unwrap()).unwrap());
    let prod = half.checked_mul(&third).unwrap();
    assert!(prod.same_value(&Rat::new(1, 6).unwrap()).unwrap());
    let neg = half.checked_neg().unwrap();
    assert!(neg.same_value(&Rat::new(-1, 2).unwrap()).unwrap());
    assert!(Rat::new(1, 0).is_none());
    assert!(Rat::new(1, -2).is_none());
    assert!(!half.same_value(&third).unwrap());
    assert!(Rat::new(2, 4).unwrap().same_value(&half).unwrap());
}

#[test]
fn truncation_of_counts() {
    assert_eq!(Rat::new(7, 2).unwrap().trunc_to_u64(), 3);
    assert_eq!(Rat::new(-7, 2).unwrap().trunc_to_u64(), 0);
    assert_eq!(rat(0).trunc_to_u64(), 0);
    assert_eq!(rat(5).trunc_to_u64(), 5);
}

#[test]
fn smoothed_on_stepped_range() {
    // over a ramp the interior window averages to the index itself
    let e = Expr::Smoothed {
        child: Box::new(Expr::Arithmetic { start: rat(0), step: rat(1) }),
    };
    let v = evaluate(&e, &range(2, 6, 2)).unwrap();
    assert_values(&v, &[2, 4, 6]);
}

#[test]
fn cyclic_on_stepped_range() {
    let e = Expr::Cyclic {
        period: 2,
        child: Box::new(Expr::Arithmetic { start: rat(0), step: rat(1) }),
    };
    let v = evaluate(&e, &range(1, 5, 2)).unwrap();
    assert_values(&v, &[1, 1, 1]);
}

#[test]
fn geometric_with_rational_factor() {
    let e = Expr::Geometric { start: rat(1), factor: Rat::new(1, 2).unwrap() };
    let v = evaluate(&e, &range(0, 2, 1)).unwrap();
    assert_eq!(v.len(), 3);
    assert!(v[0].same_value(&rat(1)).unwrap());
    assert!(v[1].same_value(&Rat::new(1, 2).unwrap()).unwrap());
    assert!(v[2].same_value(&Rat::new(1, 4).unwrap()).unwrap());
}

#[test]
fn recursive_on_offset_range() {
    // Fibonacci values are still rolled forward from the seeds when the
    // range starts past them
    let e = Expr::Recursive { x0: rat(1), x1: rat(1), a: rat(1), b: rat(1) };
    let v = evaluate(&e, &range(4, 6, 1)).unwrap();
    assert_values(&v, &[5, 8, 13]);
}

#[test]
fn exhausted_delegation_answers_empty_array() {
    let me = get_project();
    let mut d = Delegation::start(
        "Geometric".to_string(),
        "{}".to_string(),
        vec![peer("a", "10.0.0.1", 1000)],
        &me,
    );
    while d.has_next() {
        d.advance();
    }
    assert_eq!(d.no_peer_response(), "[]");
}

#[test]
fn manifest_descriptions() {
    let m = sequences();
    assert_eq!(m[0].description, "Arithmetic sequence");
    assert_eq!(m[7].description, "Recursive sequence of the form x(n) = ax(n-1) + bx(n-2)");
    assert_eq!(
        m[11].description,
        "Sequence where each element is the average of itself and its immediate neighbors"
    );
}

#[test]
fn unrepresentable_count_is_overflow() {
    // the one range whose length does not fit a machine word
    let e = Expr::Constant { value: rat(1) };
    assert!(matches!(
        evaluate(&e, &range(0, u64::MAX, 1)),
        Err(EvalError::Overflow)
    ));
}

#[test]
fn drop_beyond_index_space_is_overflow() {
    let e = Expr::Drop {
        n: u64::MAX,
        child: Box::new(Expr::Constant { value: rat(1) }),
    };
    assert!(matches!(evaluate(&e, &range(1, 2, 1)), Err(EvalError::Overflow)));
}

#[test]
fn smoothed_at_last_index_is_overflow() {
    // the window needs one index past the end of the index space
    let e = Expr::Smoothed {
        child: Box::new(Expr::Constant { value: rat(1) }),
    };
    assert!(matches!(
        evaluate(&e, &range(u64::MAX, u64::MAX, 1)),
        Err(EvalError::Overflow)
    ));
}
