use fresher::impl_plan::{
    analyze_migration, count_cross_cutting_tasks, extract_spec_name, parse_current_focus,
    parse_feature_file, plan_migration, FeatureDoc, FeatureState, ImplDocs, ImplIndex,
};

#[test]
fn test_parse_feature_file_pending() {
    let content = "# Auth Implementation\n\n**Spec:** [specs/auth.md](../specs/auth.md)\n\n## Tasks\n\n- [ ] Implement login\n- [ ] Add logout\n";
    let status = parse_feature_file("auth", "impl/auth.md", content);
    assert_eq!(status.name, "auth");
    assert!(matches!(status.status, FeatureState::Pending));
    assert_eq!(status.total_tasks, 2);
    assert_eq!(status.completed_tasks, 0);
    assert_eq!(status.pending_tasks, 2);
    assert_eq!(status.spec_ref, Some("../specs/auth.md".to_string()));
}

#[test]
fn test_parse_feature_file_in_progress() {
    let content = "# Auth Implementation\n\n- [x] Implement login\n- [ ] Add logout\n";
    let status = parse_feature_file("auth", "impl/auth.md", content);
    assert!(matches!(status.status, FeatureState::InProgress));
    assert_eq!(status.completed_tasks, 1);
    assert_eq!(status.pending_tasks, 1);
}

#[test]
fn test_parse_feature_file_complete() {
    let content = "# Auth Implementation\n\n- [x] Implement login\n- [X] Add logout\n";
    let status = parse_feature_file("auth", "impl/auth.md", content);
    assert!(matches!(status.status, FeatureState::Complete));
    assert_eq!(status.total_tasks, 2);
    assert_eq!(status.completed_tasks, 2);
    assert_eq!(status.pending_tasks, 0);
}

#[test]
fn test_feature_accounting_invariant() {
    // completed + pending == total, and complete only when all are done
    let cases = [
        "- [ ] a\n- [~] b\n- [x] c\n",
        "",
        "- [x] one\n",
        "- [~] only\n",
    ];
    for content in cases.iter() {
        let st = parse_feature_file("f", "impl/f.md", content);
        assert_eq!(st.completed_tasks + st.pending_tasks, st.total_tasks);
        let complete = matches!(st.status, FeatureState::Complete);
        assert_eq!(complete, st.total_tasks > 0 && st.completed_tasks == st.total_tasks);
    }
}

#[test]
fn test_parse_current_focus() {
    let content = "## Current Focus\n\n**Active:** [auth.md](./auth.md)\n";
    assert_eq!(parse_current_focus(content), Some("auth.md".to_string()));
}

#[test]
fn test_parse_current_focus_fallback_section() {
    let content = "# Plan\n\n## Current Focus\n\nSee [auth.md](./auth.md) for details\n";
    assert_eq!(parse_current_focus(content), Some("auth".to_string()));
}

#[test]
fn test_count_cross_cutting_tasks() {
    let content = "## Status Overview\n\n| Feature | Status |\n|---------|--------|\n| auth | open |\n\n## Cross-Cutting Tasks\n\n- [ ] Update overview\n- [x] Add checks\n- [ ] Write docs\n";
    let tasks = count_cross_cutting_tasks(content);
    assert_eq!(tasks.total, 3);
    assert_eq!(tasks.completed, 1);
    assert_eq!(tasks.pending, 2);
}

#[test]
fn test_count_cross_cutting_without_section() {
    let tasks = count_cross_cutting_tasks("# Plan\n\n- [ ] stray checkbox\n");
    assert_eq!(tasks.total, 0);
    assert_eq!(tasks.completed, 0);
    assert_eq!(tasks.pending, 0);
}

fn docs(readme: &str, features: &[(&str, &str)]) -> ImplDocs {
    ImplDocs {
        readme: readme.to_string(),
        features: features
            .iter()
            .map(|(n, c)| FeatureDoc { name: n.to_string(), content: c.to_string() })
            .collect(),
    }
}

#[test]
fn test_impl_index_load() {
    let d = docs(
        "# Implementation Plan\n\n## Current Focus\n\n**Active:** [auth.md](./auth.md)\n\n## Cross-Cutting Tasks\n\n- [ ] Global task\n",
        &[
            ("auth", "# Auth\n\n- [ ] Task 1\n- [x] Task 2\n"),
            ("api", "# API\n\n- [ ] Task A\n"),
        ],
    );
    let index = ImplIndex::load("impl", &d);
    assert_eq!(index.features.len(), 2);
    assert_eq!(index.current_focus, Some("auth.md".to_string()));
    assert_eq!(index.total_tasks(), 4);
    assert_eq!(index.completed_tasks(), 1);
    assert_eq!(index.pending_tasks(), 3);
    assert!(!index.is_complete());
    // sorted by name
    assert_eq!(index.features[0].name, "api");
    assert_eq!(index.features[1].name, "auth");
    assert_eq!(index.features[1].file, "impl/auth.md");
}

#[test]
fn test_select_next_focus() {
    let d = docs(
        "# Plan",
        &[
            ("big", "\n- [ ] Task 1\n- [ ] Task 2\n- [ ] Task 3\n"),
            ("small", "\n- [ ] Task A\n"),
        ],
    );
    let index = ImplIndex::load("impl", &d);
    let focus = index.select_next_focus().unwrap();
    assert_eq!(focus.name, "small");
}

#[test]
fn test_select_next_focus_prefers_in_progress() {
    let d = docs(
        "# Plan",
        &[
            ("quick", "\n- [ ] only one\n"),
            ("started", "\n- [x] done\n- [ ] more\n- [ ] more still\n- [ ] yet more\n"),
        ],
    );
    let index = ImplIndex::load("impl", &d);
    // `started` is in progress, so it wins over the smaller pending count
    let focus = index.select_next_focus().unwrap();
    assert_eq!(focus.name, "started");
}

#[test]
fn test_select_next_focus_none_when_nothing_pending() {
    let d = docs("# Plan", &[("done", "\n- [x] all finished\n")]);
    let index = ImplIndex::load("impl", &d);
    assert!(index.select_next_focus().is_none());
    assert!(index.is_complete());
}

#[test]
fn test_extract_spec_name() {
    assert_eq!(extract_spec_name("specs/auth.md"), "auth");
    assert_eq!(extract_spec_name("specs/api-gateway.md"), "api-gateway");
    assert_eq!(extract_spec_name("auth.md"), "auth");
}

#[test]
fn test_extract_spec_name_nested_path() {
    assert_eq!(extract_spec_name("specs/web/login.md"), "web-login");
}

#[test]
fn test_analyze_migration() {
    let content = "## Priority 1: Core\n\n- [ ] Task A (refs: specs/auth.md)\n- [x] Task B (refs: specs/auth.md)\n- [ ] Task C (refs: specs/api.md)\n- [ ] Orphan task without ref\n";
    let analysis = analyze_migration("IMPLEMENTATION_PLAN.md", content, 3);
    assert_eq!(analysis.total_tasks, 4);
    assert_eq!(analysis.tasks_by_spec.len(), 2);
    assert_eq!(analysis.orphan_tasks.len(), 1);
    assert!(analysis.should_migrate);
    assert_eq!(analysis.tasks_by_spec[0].name, "auth");
    assert_eq!(analysis.tasks_by_spec[0].tasks.len(), 2);
    assert_eq!(analysis.tasks_by_spec[1].name, "api");
    assert_eq!(analysis.tasks_by_spec[1].tasks.len(), 1);
}

#[test]
fn test_analyze_migration_below_threshold() {
    let content = "- [ ] Task A (refs: specs/auth.md)\n- [ ] Task B (refs: specs/auth.md)\n";
    let analysis = analyze_migration("IMPLEMENTATION_PLAN.md", content, 8);
    assert!(!analysis.should_migrate);
}

#[test]
fn test_migrate_plan_end_to_end() {
    // two referenced tasks under one feature and one orphan
    let content = "- [x] A (refs: specs/auth.md)\n- [ ] B (refs: specs/auth.md)\n- [ ] Stray work\n";
    let analysis = analyze_migration("IMPLEMENTATION_PLAN.md", content, 0);
    let result = plan_migration(&analysis, "impl", "2026-01-01");

    // exactly one feature document, named after the spec
    assert_eq!(result.feature_count, 1);
    assert_eq!(result.feature_docs.len(), 1);
    assert_eq!(result.feature_docs[0].name, "auth");
    assert_eq!(result.task_count, 3);
    assert_eq!(result.orphan_count, 1);

    // the legacy plan gains the backup suffix
    assert_eq!(result.backup_path, "IMPLEMENTATION_PLAN.md.backup");

    // the generated feature document parses back with the same counts
    let st = parse_feature_file("auth", "impl/auth.md", result.feature_docs[0].content.as_str());
    assert_eq!(st.total_tasks, 2);
    assert_eq!(st.completed_tasks, 1);
    assert_eq!(st.pending_tasks, 1);

    // the index lists the feature and holds the orphan as cross-cutting
    assert!(result.readme.contains("[auth](./auth.md)"));
    let cc = count_cross_cutting_tasks(result.readme.as_str());
    assert_eq!(cc.total, 1);
    assert_eq!(cc.pending, 1);

    // loading the generated documents yields a coherent index
    let d = ImplDocs {
        readme: result.readme.clone(),
        features: vec![FeatureDoc {
            name: result.feature_docs[0].name.clone(),
            content: result.feature_docs[0].content.clone(),
        }],
    };
    let index = ImplIndex::load("impl", &d);
    assert_eq!(index.features.len(), 1);
    assert_eq!(index.features[0].name, "auth");
    assert_eq!(index.total_tasks(), 3);
    assert_eq!(index.pending_tasks(), 2);
}

#[test]
fn test_backup_path_keeps_directories() {
    let content = "- [ ] A (refs: specs/x.md)\n";
    let analysis = analyze_migration("plans/PLAN.md", content, 0);
    let result = plan_migration(&analysis, "impl", "2026-01-01");
    assert_eq!(result.backup_path, "plans/PLAN.md.backup");
}
