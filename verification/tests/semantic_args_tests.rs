use android_computer_use_mcp::semantic::{
    normalize_solarlab_semantic_action_args, resolve_solarlab_semantic_body_query,
    NormalizedSolarLabSemanticActionArgs, SemanticTarget, SolarLabSemanticActionArgs,
    SolarLabSemanticStepAction,
};

fn args() -> SolarLabSemanticActionArgs {
    SolarLabSemanticActionArgs {
        serial: None,
        package_name: None,
        activity: None,
        action: None,
        action_name: None,
        name: None,
        body_query: None,
        target: None,
        actions: Vec::new(),
        timeout_secs: None,
        capture_state: true,
    }
}

fn step() -> SolarLabSemanticStepAction {
    SolarLabSemanticStepAction {
        action_type: None,
        action: None,
        action_name: None,
        name: None,
        body_query: None,
        target: None,
        timeout_secs: None,
    }
}

fn fields(pairs: &[(&str, &str)]) -> SemanticTarget {
    SemanticTarget::Fields(
        pairs
            .iter()
            .map(|(k, v)| (k.to_string(), Some(v.to_string())))
            .collect(),
    )
}

#[test]
fn semantic_action_args_normalize_canonical_and_native_envelopes() {
    let canonical = SolarLabSemanticActionArgs {
        serial: Some("emulator-5554".to_string()),
        action: Some("focus_body".to_string()),
        body_query: Some("comet".to_string()),
        capture_state: false,
        ..args()
    };
    assert_eq!(
        normalize_solarlab_semantic_action_args(canonical)
            .expect("canonical semantic action should normalize"),
        NormalizedSolarLabSemanticActionArgs {
            serial: Some("emulator-5554".to_string()),
            package_name: None,
            activity: None,
            action: "focus_body".to_string(),
            body_query: Some("comet".to_string()),
            target: None,
            capture_state: false,
        }
    );

    let top_level_native = SolarLabSemanticActionArgs {
        action: Some("semantic_action".to_string()),
        action_name: Some("focus_body".to_string()),
        body_query: Some("comet".to_string()),
        timeout_secs: Some(30),
        ..args()
    };
    assert_eq!(
        normalize_solarlab_semantic_action_args(top_level_native)
            .expect("top-level native semantic envelope should normalize"),
        NormalizedSolarLabSemanticActionArgs {
            serial: None,
            package_name: None,
            activity: None,
            action: "focus_body".to_string(),
            body_query: Some("comet".to_string()),
            target: None,
            capture_state: true,
        }
    );

    let batched_native = SolarLabSemanticActionArgs {
        actions: vec![SolarLabSemanticStepAction {
            action_type: Some("semantic_action".to_string()),
            action_name: Some("focus_body".to_string()),
            target: Some(fields(&[("text", "comet")])),
            timeout_secs: Some(30),
            ..step()
        }],
        ..args()
    };
    assert_eq!(
        normalize_solarlab_semantic_action_args(batched_native)
            .expect("batched native semantic envelope should normalize"),
        NormalizedSolarLabSemanticActionArgs {
            serial: None,
            package_name: None,
            activity: None,
            action: "focus_body".to_string(),
            body_query: None,
            target: Some(fields(&[("text", "comet")])),
            capture_state: true,
        }
    );
}

#[test]
fn semantic_action_args_reject_ambiguous_or_nonsemantic_batches() {
    let conflicting = SolarLabSemanticActionArgs {
        action: Some("focus_body".to_string()),
        action_name: Some("reset_camera".to_string()),
        ..args()
    };
    let err = normalize_solarlab_semantic_action_args(conflicting)
        .err()
        .expect("conflicting semantic action names should fail normalization");
    assert!(err.to_string().contains("conflicting semantic action names"));

    let multiple = SolarLabSemanticActionArgs {
        actions: vec![
            SolarLabSemanticStepAction {
                action_type: Some("semantic_action".to_string()),
                action_name: Some("reset_camera".to_string()),
                ..step()
            },
            SolarLabSemanticStepAction {
                action_type: Some("semantic_action".to_string()),
                action_name: Some("open_immersive".to_string()),
                ..step()
            },
        ],
        ..args()
    };
    let err = normalize_solarlab_semantic_action_args(multiple)
        .err()
        .expect("multiple semantic actions should fail normalization");
    assert!(err.to_string().contains("exactly one batched semantic action"));

    let nonsemantic = SolarLabSemanticActionArgs {
        actions: vec![SolarLabSemanticStepAction {
            action_type: Some("click".to_string()),
            action_name: Some("focus_body".to_string()),
            ..step()
        }],
        ..args()
    };
    let err = normalize_solarlab_semantic_action_args(nonsemantic)
        .err()
        .expect("nonsemantic action envelope should fail normalization");
    assert!(err.to_string().contains("must be 'semantic_action'"));
}

#[test]
fn semantic_body_query_accepts_generic_adapter_targets() {
    let cases = [
        (SemanticTarget::Text(" comet ".to_string()), "comet"),
        (fields(&[("text", "comet")]), "comet"),
        (fields(&[("text_exact", "comet")]), "comet"),
        (fields(&[("label", "comet")]), "comet"),
        (fields(&[("label_exact", "comet")]), "comet"),
        (fields(&[("content_desc", "comet")]), "comet"),
        (fields(&[("content_description", "comet")]), "comet"),
        (fields(&[("contentDescription", "comet")]), "comet"),
    ];

    for (target, expected) in cases {
        let args = SolarLabSemanticActionArgs {
            action: Some("focus_body".to_string()),
            target: Some(target),
            ..args()
        };
        assert_eq!(
            resolve_solarlab_semantic_body_query(args.body_query, args.target),
            Some(expected.to_string()),
        );
    }
}

#[test]
fn semantic_body_query_prefers_the_canonical_field() {
    assert_eq!(
        resolve_solarlab_semantic_body_query(
            Some("halley".to_string()),
            Some(fields(&[("text", "comet")])),
        ),
        Some("halley".to_string()),
    );
    assert_eq!(
        resolve_solarlab_semantic_body_query(
            Some("  ".to_string()),
            Some(fields(&[("text", "comet")])),
        ),
        Some("comet".to_string()),
    );
}

#[test]
fn semantic_action_args_report_missing_and_sorted_conflicts() {
    let err = normalize_solarlab_semantic_action_args(args()).err().unwrap();
    assert_eq!(
        err.to_string(),
        "solarlab.semantic_action requires action, action_name, name, or one semantic actions[] entry"
    );
    let conflicting = SolarLabSemanticActionArgs {
        action: Some("reset_camera".to_string()),
        action_name: Some(" focus_body ".to_string()),
        name: Some("reset_camera".to_string()),
        ..args()
    };
    let err = normalize_solarlab_semantic_action_args(conflicting).err().unwrap();
    assert_eq!(
        err.to_string(),
        "solarlab.semantic_action received conflicting semantic action names: focus_body, reset_camera"
    );
    let agreeing = SolarLabSemanticActionArgs {
        action: Some("reset_camera".to_string()),
        name: Some(" reset_camera".to_string()),
        ..args()
    };
    assert_eq!(normalize_solarlab_semantic_action_args(agreeing).unwrap().action, "reset_camera");
    let many = SolarLabSemanticActionArgs { actions: vec![step(), step(), step()], ..args() };
    assert_eq!(
        normalize_solarlab_semantic_action_args(many).err().unwrap().to_string(),
        "solarlab.semantic_action accepts exactly one batched semantic action, got 3"
    );
}

#[test]
fn semantic_body_query_ignores_non_string_and_blank_targets() {
    let non_string = SemanticTarget::Fields(vec![
        ("text".to_string(), None),
        ("label".to_string(), Some("comet".to_string())),
    ]);
    assert_eq!(resolve_solarlab_semantic_body_query(None, Some(non_string)), Some("comet".to_string()));
    let blank_first = fields(&[("text", "  "), ("label", "comet")]);
    assert_eq!(resolve_solarlab_semantic_body_query(None, Some(blank_first)), None);
    assert_eq!(resolve_solarlab_semantic_body_query(None, Some(SemanticTarget::Other)), None);
}
