use zeroos_core::matrix::{
    config_names_are_distinct, upward_search_step, SearchStep, feature_combinations, package_list, parse_host_triple, plan_steps, render_template,
    target_list, CommandTemplate, FeatureSpec, MatrixArgs, MatrixConfig, MatrixEntry, Packages,
    Step, TargetElem, Targets,
};

fn s(x: &str) -> String {
    x.to_string()
}

fn tpl(name: &str, template: &str) -> CommandTemplate {
    CommandTemplate { name: s(name), template: s(template) }
}

fn args(command: Option<&str>, packages: &[&str]) -> MatrixArgs {
    MatrixArgs {
        config: None,
        command: command.map(s),
        packages: packages.iter().map(|p| s(p)).collect(),
        verbose: false,
    }
}

fn pairs(steps: &[Step]) -> Vec<(String, String)> {
    steps.iter().map(|st| (st.name.clone(), st.cmd.clone())).collect()
}

fn sample_config() -> MatrixConfig {
    MatrixConfig {
        pre: vec![s("echo pre-one"), s("echo pre-two")],
        commands: vec![tpl("check", "cargo check -p {package} --target {target} {features_flag}")],
        entries: vec![
            MatrixEntry {
                commands: vec![],
                command: None,
                package: Packages::One(s("zeroos")),
                target: Targets::Many(vec![
                    TargetElem::One(s("host")),
                    TargetElem::Many(vec![TargetElem::One(s("riscv64imac-unknown-none-elf"))]),
                ]),
                features: vec![
                    FeatureSpec::One(s("std")),
                    FeatureSpec::OneOf(vec![s("with-spike"), s("alloc")]),
                ],
            },
            MatrixEntry {
                commands: vec![tpl("check", "make -C {workspace} {package}")],
                command: None,
                package: Packages::Many(vec![s("platform"), s("other")]),
                target: Targets::One(s("t")),
                features: vec![],
            },
            MatrixEntry {
                commands: vec![],
                command: Some(s("fmt")),
                package: Packages::One(s("skipped")),
                target: Targets::One(s("t")),
                features: vec![],
            },
        ],
    }
}

#[test]
fn plan_expands_packages_targets_and_features() {
    let cfg = sample_config();
    let steps = plan_steps(&cfg, &args(Some("check"), &[]), "/ws", "x86_64-unknown-linux-gnu").unwrap();
    let expected: Vec<(String, String)> = vec![
        (s("pre:1"), s("echo pre-one")),
        (s("pre:2"), s("echo pre-two")),
        (
            s("zeroos [x86_64-unknown-linux-gnu] (check) #1/2"),
            s("cargo check -p zeroos --target x86_64-unknown-linux-gnu --features \"std,with-spike\""),
        ),
        (
            s("zeroos [x86_64-unknown-linux-gnu] (check) #2/2"),
            s("cargo check -p zeroos --target x86_64-unknown-linux-gnu --features \"alloc,std\""),
        ),
        (
            s("zeroos [riscv64imac-unknown-none-elf] (check) #1/2"),
            s("cargo check -p zeroos --target riscv64imac-unknown-none-elf --features \"std,with-spike\""),
        ),
        (
            s("zeroos [riscv64imac-unknown-none-elf] (check) #2/2"),
            s("cargo check -p zeroos --target riscv64imac-unknown-none-elf --features \"alloc,std\""),
        ),
        (s("platform [t] (check)"), s("make -C /ws platform")),
        (s("other [t] (check)"), s("make -C /ws other")),
        (s("skipped [t] (fmt)"), s("fmt")),
    ];
    assert_eq!(pairs(&steps), expected);
}

#[test]
fn plan_keeps_only_selected_packages() {
    let cfg = sample_config();
    let steps = plan_steps(&cfg, &args(Some("check"), &["other"]), "/ws", "h").unwrap();
    assert_eq!(pairs(&steps)[2..].to_vec(), vec![(s("other [t] (check)"), s("make -C /ws other"))]);
}

#[test]
fn plan_without_command_fails() {
    let cfg = sample_config();
    match plan_steps(&cfg, &args(None, &[]), "/ws", "h") {
        Err(e) => assert_eq!(e, "no command selected (pass --command <name>)"),
        Ok(_) => panic!("expected an error"),
    }
    // If no package without a command of its own takes part, there is no error.
    let steps = plan_steps(&cfg, &args(None, &["skipped"]), "/ws", "h").unwrap();
    assert_eq!(pairs(&steps)[2..].to_vec(), vec![(s("skipped [t] (fmt)"), s("fmt"))]);
}

#[test]
fn plan_uses_unknown_command_as_inline_template() {
    let cfg = MatrixConfig {
        pre: vec![],
        commands: vec![],
        entries: vec![MatrixEntry {
            commands: vec![],
            command: None,
            package: Packages::One(s("foo")),
            target: Targets::One(s("x")),
            features: vec![],
        }],
    };
    let steps = plan_steps(&cfg, &args(Some("echo {package}"), &[]), "/ws", "h").unwrap();
    assert_eq!(pairs(&steps), vec![(s("foo [x] (echo {package})"), s("echo foo"))]);
}

#[test]
fn filtered_run_is_unfiltered_run_restricted() {
    let cfg = sample_config();
    let all = plan_steps(&cfg, &args(Some("check"), &[]), "/ws", "h").unwrap();
    let some = plan_steps(&cfg, &args(Some("check"), &["zeroos", "other"]), "/ws", "h").unwrap();
    let expected: Vec<(String, String)> = pairs(&all)
        .into_iter()
        .filter(|(n, _)| n.starts_with("pre:") || n.starts_with("zeroos ") || n.starts_with("other "))
        .collect();
    assert_eq!(pairs(&some), expected);
}

#[test]
fn duplicate_template_names_are_detected() {
    let mut cfg = sample_config();
    assert!(config_names_are_distinct(&cfg));
    cfg.entries[1].commands.push(tpl("check", "other"));
    assert!(!config_names_are_distinct(&cfg));
    let mut cfg = sample_config();
    cfg.commands.push(tpl("check", "x"));
    assert!(!config_names_are_distinct(&cfg));
}

#[test]
fn upward_search_steps() {
    assert_eq!(upward_search_step(true, true), SearchStep::Found);
    assert_eq!(upward_search_step(true, false), SearchStep::Found);
    assert_eq!(upward_search_step(false, true), SearchStep::Climb);
    assert_eq!(upward_search_step(false, false), SearchStep::NotFound);
}

#[test]
fn empty_one_of_group_leaves_no_combination() {
    let specs = vec![FeatureSpec::One(s("a")), FeatureSpec::OneOf(vec![])];
    assert!(feature_combinations(&specs).is_empty());
    let specs = vec![
        FeatureSpec::OneOf(vec![s("x"), s("y")]),
        FeatureSpec::OneOf(vec![s("1"), s("2"), s("3")]),
        FeatureSpec::One(s("z")),
    ];
    let combos = feature_combinations(&specs);
    assert_eq!(combos.len(), 6);
    assert_eq!(combos[0], vec![s("x"), s("1"), s("z")]);
    assert_eq!(combos[1], vec![s("y"), s("1"), s("z")]);
    assert_eq!(combos[5], vec![s("y"), s("3"), s("z")]);
    assert_eq!(feature_combinations(&vec![]), vec![Vec::<String>::new()]);
}

#[test]
fn targets_and_packages_are_listed_in_order() {
    let t = Targets::Many(vec![
        TargetElem::One(s("a")),
        TargetElem::Many(vec![TargetElem::Many(vec![TargetElem::One(s("b"))]), TargetElem::One(s("c"))]),
        TargetElem::Many(vec![]),
        TargetElem::One(s("d")),
    ]);
    assert_eq!(target_list(&t), vec![s("a"), s("b"), s("c"), s("d")]);
    assert_eq!(target_list(&Targets::One(s("x"))), vec![s("x")]);
    assert_eq!(package_list(&Packages::One(s("p"))), vec![s("p")]);
    assert_eq!(package_list(&Packages::Many(vec![s("p"), s("q")])), vec![s("p"), s("q")]);
}

#[test]
fn render_template_fills_every_placeholder() {
    let r = render_template(
        "{workspace}/{package}:{target}:{features}:{features_flag}:{package}",
        "/w",
        "pkg",
        "tgt",
        "a,b",
        "--features \"a,b\"",
    );
    assert_eq!(r, "/w/pkg:tgt:a,b:--features \"a,b\":pkg");
    assert_eq!(render_template("plain", "/w", "p", "t", "", ""), "plain");
}

#[test]
fn host_triple_from_rustc_output() {
    let out = "rustc 1.80.0 (051478957 2024-07-21)\nbinary: rustc\ncommit-hash: 0514\nhost: x86_64-unknown-linux-gnu\r\nrelease: 1.80.0\n";
    assert_eq!(parse_host_triple(out), Ok(s("x86_64-unknown-linux-gnu")));
    assert_eq!(parse_host_triple("host:   riscv64  "), Ok(s("riscv64")));
    assert_eq!(parse_host_triple("xhost: no\nhost:yes\nhost: later"), Ok(s("yes")));
    assert_eq!(parse_host_triple("binary: rustc\n"), Err(s("rustc -vV output missing host line")));
    assert_eq!(parse_host_triple(""), Err(s("rustc -vV output missing host line")));
}
