use sapio::clause::Clause;
use sapio::compiler::Compilable;
use sapio::compiler::CompileError;
use sapio::compiler::ContractDef;
use sapio::compiler::FinishOrBranch;
use sapio::compiler::TemplateSource;
use sapio::compiler::ThenBranch;
use sapio::conditional::ConditionalCompileType;
use sapio::context::Context;
use sapio::context::NetworkDef;
use sapio::guards::Guard;
use sapio::template::Output;
use sapio::template::Template;

fn key_g() -> Vec<u8> {
    vec![
        0x02, 0x79, 0xbe, 0x66, 0x7e, 0xf9, 0xdc, 0xbb, 0xac, 0x55, 0xa0, 0x62, 0x95, 0xce, 0x87,
        0x0b, 0x07, 0x02, 0x9b, 0xfc, 0xdb, 0x2d, 0xce, 0x28, 0xd9, 0x59, 0xf2, 0x81, 0x5b, 0x16,
        0xf8, 0x17, 0x98,
    ]
}

fn key_g2() -> Vec<u8> {
    vec![
        0x02, 0xc6, 0x04, 0x7f, 0x94, 0x41, 0xed, 0x7d, 0x6d, 0x30, 0x45, 0x40, 0x6e, 0x95, 0xc0,
        0x7c, 0xd8, 0x5c, 0x77, 0x8e, 0x4b, 0x8c, 0xef, 0x3c, 0xa7, 0xab, 0xac, 0x09, 0xb9, 0x5c,
        0x70, 0x9e, 0xe5,
    ]
}

fn template(amount: u64, tag: u8) -> Template {
    Template {
        outputs: vec![Output { amount, script: vec![tag, tag] }],
        max: amount,
    }
}

fn then_branch(guards: Vec<usize>, templates: Vec<Template>) -> Option<ThenBranch> {
    Some(ThenBranch {
        guards,
        conditions: vec![],
        templates: TemplateSource::Yields(templates.into_iter().map(Ok).collect()),
    })
}

fn ctx() -> Context {
    Context::new(NetworkDef::Bitcoin)
}

#[test]
fn single_then_branch_policy_and_artifact() {
    let t1 = template(60_000, 1);
    let h1 = t1.hash();
    let c = ContractDef {
        guards: vec![Some(Guard::Cache(Clause::Key(key_g())))],
        then_branches: vec![then_branch(vec![0], vec![template(60_000, 1)])],
        finish_or_branches: vec![],
        finish_guards: vec![],
    };
    let out = c.compile(ctx()).unwrap();
    let expected = Clause::And(
        Box::new(Clause::Key(key_g())),
        Box::new(Clause::TxTemplate(h1.clone())),
    );
    assert_eq!(out.policy, Some(expected));
    assert_eq!(out.ctv_to_tx.len(), 1);
    assert_eq!(out.ctv_to_tx[0].0, h1);
    assert_eq!(out.ctv_to_tx[0].1, t1);
    assert!(out.suggested_txs.is_empty());
    assert!(out.address.starts_with("bc1"));
    let desc = out.descriptor.clone().unwrap();
    assert!(desc.starts_with("wsh("));
    // the external compiler produced something other than the policy text
    assert_ne!(desc.as_bytes(), sapio::clause::policy_to_bytes(out.policy.as_ref().unwrap()));
    assert_eq!(out.amount_range.min, 60_000);
    assert_eq!(out.amount_range.max, 60_000);
}

#[test]
fn empty_contract_is_empty_policy() {
    let c = ContractDef {
        guards: vec![],
        then_branches: vec![],
        finish_or_branches: vec![],
        finish_guards: vec![],
    };
    assert_eq!(c.compile(ctx()).unwrap_err(), CompileError::EmptyPolicy);
}

#[test]
fn required_branch_without_templates_fails() {
    let c = ContractDef {
        guards: vec![Some(Guard::Cache(Clause::Key(key_g())))],
        then_branches: vec![then_branch(vec![0], vec![])],
        finish_or_branches: vec![],
        finish_guards: vec![],
    };
    assert_eq!(c.compile(ctx()).unwrap_err(), CompileError::MissingTemplates);
}

#[test]
fn nullable_branch_without_templates_prunes_to_finish_guard() {
    // One nullable then-branch yielding zero templates and one finish
    // predicate: the policy is exactly the finish guard, unwrapped.
    let c = ContractDef {
        guards: vec![Some(Guard::Cache(Clause::Key(key_g())))],
        then_branches: vec![Some(ThenBranch {
            guards: vec![],
            conditions: vec![ConditionalCompileType::Nullable],
            templates: TemplateSource::Yields(vec![]),
        })],
        finish_or_branches: vec![],
        finish_guards: vec![0],
    };
    let out = c.compile(ctx()).unwrap();
    assert_eq!(out.policy, Some(Clause::Key(key_g())));
    assert!(out.ctv_to_tx.is_empty());
}

#[test]
fn two_then_branches_expected_policy() {
    // Branch one: template T1 under guard G1. Branch two: two alternative
    // templates under a trivial guard.
    let t1 = template(50_000, 1);
    let t2a = template(10_000, 2);
    let t2b = template(20_000, 3);
    let c = ContractDef {
        guards: vec![Some(Guard::Cache(Clause::Key(key_g())))],
        then_branches: vec![
            then_branch(vec![0], vec![template(50_000, 1)]),
            then_branch(vec![], vec![template(10_000, 2), template(20_000, 3)]),
        ],
        finish_or_branches: vec![],
        finish_guards: vec![],
    };
    let out = c.assemble(&ctx()).unwrap();
    let expected = Clause::Threshold(
        1,
        vec![
            Clause::And(
                Box::new(Clause::Key(key_g())),
                Box::new(Clause::TxTemplate(t1.hash())),
            ),
            Clause::Threshold(
                1,
                vec![
                    Clause::TxTemplate(t2a.hash()),
                    Clause::TxTemplate(t2b.hash()),
                ],
            ),
        ],
    );
    assert_eq!(out.policy, expected);
    assert_eq!(out.ctv_to_tx.len(), 3);
    assert_eq!(out.amount_range.min, 10_000);
    assert_eq!(out.amount_range.max, 50_000);
}

#[test]
fn identical_templates_share_one_commitment_entry() {
    let t = template(40_000, 7);
    let c = ContractDef {
        guards: vec![Some(Guard::Cache(Clause::Key(key_g())))],
        then_branches: vec![
            then_branch(vec![0], vec![template(40_000, 7)]),
            then_branch(vec![], vec![template(40_000, 7)]),
        ],
        finish_or_branches: vec![],
        finish_guards: vec![],
    };
    let out = c.assemble(&ctx()).unwrap();
    assert_eq!(out.ctv_to_tx.len(), 1);
    assert_eq!(out.ctv_to_tx[0].0, t.hash());
    // both branches still contribute clauses
    match out.policy {
        Clause::Threshold(1, cs) => assert_eq!(cs.len(), 2),
        other => panic!("unexpected policy {:?}", other),
    }
}

#[test]
fn conditional_fail_accumulates_reasons() {
    let c = ContractDef {
        guards: vec![],
        then_branches: vec![Some(ThenBranch {
            guards: vec![],
            conditions: vec![
                ConditionalCompileType::Fail(vec!["first".to_string()]),
                ConditionalCompileType::Fail(vec!["second".to_string()]),
            ],
            templates: TemplateSource::Yields(vec![]),
        })],
        finish_or_branches: vec![],
        finish_guards: vec![],
    };
    assert_eq!(
        c.compile(ctx()).unwrap_err(),
        CompileError::ConditionalCompilationFailed(vec![
            "first".to_string(),
            "second".to_string()
        ])
    );
}

#[test]
fn template_error_aborts_compilation() {
    let c = ContractDef {
        guards: vec![],
        then_branches: vec![Some(ThenBranch {
            guards: vec![],
            conditions: vec![],
            templates: TemplateSource::Yields(vec![
                Ok(template(1_000, 1)),
                Err("boom".to_string()),
            ]),
        })],
        finish_or_branches: vec![],
        finish_guards: vec![],
    };
    assert_eq!(
        c.compile(ctx()).unwrap_err(),
        CompileError::TemplateError("boom".to_string())
    );
}

#[test]
fn skipped_branches_are_dropped_silently() {
    for cond in [ConditionalCompileType::Skippable, ConditionalCompileType::Never] {
        let c = ContractDef {
            guards: vec![Some(Guard::Cache(Clause::Key(key_g())))],
            then_branches: vec![Some(ThenBranch {
                guards: vec![],
                conditions: vec![cond],
                templates: TemplateSource::Fails("never computed".to_string()),
            })],
            finish_or_branches: vec![],
            finish_guards: vec![0],
        };
        let out = c.compile(ctx()).unwrap();
        assert_eq!(out.policy, Some(Clause::Key(key_g())));
    }
}

#[test]
fn unsatisfiable_policy_is_a_policy_compilation_error() {
    let c = ContractDef {
        guards: vec![Some(Guard::Cache(Clause::Unsatisfiable))],
        then_branches: vec![],
        finish_or_branches: vec![],
        finish_guards: vec![0],
    };
    match c.compile(ctx()) {
        Err(CompileError::PolicyCompilation(_)) => {}
        other => panic!("expected a policy compilation error, got {:?}", other),
    }
}

#[test]
fn finish_or_branch_suggests_templates_and_continuation() {
    let t = template(25_000, 9);
    let c = ContractDef {
        guards: vec![Some(Guard::Cache(Clause::Key(key_g2())))],
        then_branches: vec![],
        finish_or_branches: vec![
            Some(FinishOrBranch {
                name: "settle".to_string(),
                schema: Some("{\"type\":\"object\"}".to_string()),
                guards: vec![0],
                conditions: vec![],
                templates: TemplateSource::Yields(vec![Ok(template(25_000, 9))]),
            }),
            Some(FinishOrBranch {
                name: "settle".to_string(),
                schema: Some("{\"type\":\"array\"}".to_string()),
                guards: vec![0],
                conditions: vec![ConditionalCompileType::Never],
                templates: TemplateSource::Yields(vec![]),
            }),
        ],
        finish_guards: vec![],
    };
    let out = c.compile(ctx()).unwrap();
    // the surviving suggested branch contributes only its guard clause; the
    // second branch is skipped before any template computation
    assert_eq!(out.policy, Some(Clause::Key(key_g2())));
    assert_eq!(out.suggested_txs.len(), 1);
    assert_eq!(out.suggested_txs[0].0, t.hash());
    // continuation table is built from all present branches: last write wins
    assert_eq!(out.continue_apis.len(), 1);
    assert_eq!(out.continue_apis[0].0, "settle");
    assert_eq!(out.continue_apis[0].1.schema, "{\"type\":\"array\"}");
    assert_eq!(out.amount_range.max, 25_000);
}

#[test]
fn the_compilable_trait_covers_contracts_and_artifacts() {
    let c = ContractDef {
        guards: vec![Some(Guard::Cache(Clause::Key(key_g())))],
        then_branches: vec![then_branch(vec![0], vec![template(60_000, 1)])],
        finish_or_branches: vec![],
        finish_guards: vec![],
    };
    let out = Compilable::compile(&c, ctx()).unwrap();
    let again = Compilable::compile(&out, ctx()).unwrap();
    assert_eq!(out, again);
}

#[test]
fn compiling_a_compiled_artifact_is_the_identity() {
    let c = ContractDef {
        guards: vec![Some(Guard::Cache(Clause::Key(key_g())))],
        then_branches: vec![then_branch(vec![0], vec![template(60_000, 1)])],
        finish_or_branches: vec![],
        finish_guards: vec![],
    };
    let out = c.compile(ctx()).unwrap();
    let again = out.compile(ctx()).unwrap();
    assert_eq!(out, again);
}

#[test]
fn funding_below_minimum_bound_is_rejected_by_the_caller() {
    // The core exposes the bound; the embedding application enforces it.
    let c = ContractDef {
        guards: vec![],
        then_branches: vec![then_branch(vec![], vec![template(60_000, 1)])],
        finish_or_branches: vec![],
        finish_guards: vec![],
    };
    let out = c.assemble(&ctx()).unwrap();
    let funding: u64 = 50_000;
    assert!(funding < out.amount_range.min);
    assert!(60_000 >= out.amount_range.min && 60_000 <= out.amount_range.max);
}
