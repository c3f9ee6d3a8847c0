use fresher::impl_plan::{FeatureDoc, ImplDocs};
use fresher::verify::{
    analyze_coverage, count_tasks, extract_requirements, generate_report, has_pending_tasks,
    has_pending_tasks_legacy, has_pending_tasks_with_impl_dir, parse_plan, RequirementType,
    SpecDoc, Task, TaskStatus,
};

fn task(desc: &str, status: TaskStatus, line: usize) -> Task {
    Task {
        description: desc.to_string(),
        status,
        spec_refs: Vec::new(),
        line_number: line,
        priority: None,
        dependencies: Vec::new(),
        complexity: None,
    }
}

#[test]
fn test_parse_plan_empty() {
    let tasks = parse_plan("");
    assert!(tasks.is_empty());
}

#[test]
fn test_parse_plan_pending_task() {
    let tasks = parse_plan("- [ ] Implement feature X");
    assert_eq!(tasks.len(), 1);
    assert!(matches!(tasks[0].status, TaskStatus::Pending));
    assert_eq!(tasks[0].description, "Implement feature X");
}

#[test]
fn test_parse_plan_completed_task() {
    let tasks = parse_plan("- [x] Completed task");
    assert_eq!(tasks.len(), 1);
    assert!(matches!(tasks[0].status, TaskStatus::Completed));
}

#[test]
fn test_parse_plan_completed_task_uppercase() {
    let tasks = parse_plan("- [X] Completed task uppercase");
    assert_eq!(tasks.len(), 1);
    assert!(matches!(tasks[0].status, TaskStatus::Completed));
}

#[test]
fn test_parse_plan_in_progress_task() {
    let tasks = parse_plan("- [~] In progress task");
    assert_eq!(tasks.len(), 1);
    assert!(matches!(tasks[0].status, TaskStatus::InProgress));
}

#[test]
fn test_parse_plan_with_spec_refs() {
    let tasks = parse_plan("- [ ] Task with refs (refs: specs/foo.md)");
    assert_eq!(tasks.len(), 1);
    assert_eq!(tasks[0].spec_refs, vec!["specs/foo.md"]);
    assert_eq!(tasks[0].description, "Task with refs");
}

#[test]
fn test_parse_plan_with_multiple_refs() {
    let tasks = parse_plan("- [ ] Multi refs (refs: specs/a.md, specs/b.md)");
    assert_eq!(tasks.len(), 1);
    assert_eq!(tasks[0].spec_refs.len(), 2);
    assert!(tasks[0].spec_refs.contains(&"specs/a.md".to_string()));
    assert!(tasks[0].spec_refs.contains(&"specs/b.md".to_string()));
}

#[test]
fn test_parse_plan_with_priority() {
    let content = "## Priority 3: Something\n\n- [ ] Task in priority 3\n";
    let tasks = parse_plan(content);
    assert_eq!(tasks.len(), 1);
    assert_eq!(tasks[0].priority, Some(3));
}

#[test]
fn test_parse_plan_with_dependencies() {
    let content = "- [ ] Task with deps\n  - Dependencies: Module A, Module B\n";
    let tasks = parse_plan(content);
    assert_eq!(tasks.len(), 1);
    assert_eq!(tasks[0].dependencies.len(), 2);
    assert!(tasks[0].dependencies.contains(&"Module A".to_string()));
    assert!(tasks[0].dependencies.contains(&"Module B".to_string()));
}

#[test]
fn test_parse_plan_with_complexity() {
    let content = "- [ ] Complex task\n  - Complexity: medium\n";
    let tasks = parse_plan(content);
    assert_eq!(tasks.len(), 1);
    assert_eq!(tasks[0].complexity, Some("medium".to_string()));
}

#[test]
fn test_parse_plan_dependencies_none() {
    let content = "- [ ] Independent task\n  - Dependencies: none\n";
    let tasks = parse_plan(content);
    assert_eq!(tasks.len(), 1);
    assert!(tasks[0].dependencies.is_empty());
}

#[test]
fn test_parse_plan_line_numbers() {
    let content = "Line 1\nLine 2\n- [ ] Task on line 3\nLine 4\n- [x] Task on line 5\n";
    let tasks = parse_plan(content);
    assert_eq!(tasks.len(), 2);
    assert_eq!(tasks[0].line_number, 3);
    assert_eq!(tasks[1].line_number, 5);
}

#[test]
fn test_count_tasks() {
    let tasks = vec![
        task("Task 1", TaskStatus::Pending, 1),
        task("Task 2", TaskStatus::Completed, 2),
        task("Task 3", TaskStatus::InProgress, 3),
    ];
    let (total, pending, completed, in_progress) = count_tasks(&tasks);
    assert_eq!(total, 3);
    assert_eq!(pending, 1);
    assert_eq!(completed, 1);
    assert_eq!(in_progress, 1);
}

#[test]
fn test_task_status_display() {
    assert_eq!(TaskStatus::Pending.to_string(), "pending");
    assert_eq!(TaskStatus::Completed.to_string(), "completed");
    assert_eq!(TaskStatus::InProgress.to_string(), "in_progress");
}

#[test]
fn test_has_pending_tasks_true() {
    assert!(has_pending_tasks(Some("- [ ] Pending task"), None));
}

#[test]
fn test_has_pending_tasks_false() {
    assert!(!has_pending_tasks(Some("- [x] Completed task"), None));
}

#[test]
fn test_has_pending_tasks_missing_file() {
    assert!(!has_pending_tasks(None, None));
}

#[test]
fn test_has_pending_tasks_section_header_format() {
    assert!(has_pending_tasks(Some("### 1.2 Create project structure"), None));
}

#[test]
fn test_has_pending_tasks_section_header_complete() {
    assert!(!has_pending_tasks(Some("### 1.1 Create Cargo.toml \u{2705}"), None));
}

#[test]
fn test_has_pending_tasks_mixed_section_headers() {
    let content = "### 1.1 Create Cargo.toml \u{2705}\n### 1.2 Create project structure\n### 1.3 Implement error types";
    assert!(has_pending_tasks(Some(content), None));
}

#[test]
fn test_has_pending_tasks_all_section_headers_complete() {
    let content = "### 1.1 Create Cargo.toml \u{2705}\n### 1.2 Create project structure \u{2705}";
    assert!(!has_pending_tasks(Some(content), None));
}

#[test]
fn test_has_pending_tasks_legacy_direct() {
    assert!(has_pending_tasks_legacy(Some("- [ ] open item")));
    assert!(!has_pending_tasks_legacy(Some("- [x] closed item")));
    assert!(!has_pending_tasks_legacy(None));
}

#[test]
fn test_has_pending_with_impl_dir_prefers_hierarchy() {
    let docs = ImplDocs {
        readme: "# Plan".to_string(),
        features: vec![FeatureDoc {
            name: "auth".to_string(),
            content: "- [x] done".to_string(),
        }],
    };
    // the legacy document has pending work, but the hierarchy decides
    assert!(!has_pending_tasks_with_impl_dir(Some("- [ ] legacy"), Some(&docs)));
}

#[test]
fn test_extract_requirements_empty_dir() {
    let docs: Vec<SpecDoc> = Vec::new();
    let reqs = extract_requirements(&docs);
    assert!(reqs.is_empty());
}

#[test]
fn test_extract_requirements_section_header() {
    let docs = vec![SpecDoc {
        name: "feature".to_string(),
        content: "### Feature Details\n\nSome content.".to_string(),
    }];
    let reqs = extract_requirements(&docs);
    assert_eq!(reqs.len(), 1);
    assert!(matches!(reqs[0].req_type, RequirementType::Section));
    assert_eq!(reqs[0].text, "Feature Details");
    assert_eq!(reqs[0].spec_name, "feature");
}

#[test]
fn test_extract_requirements_rfc2119() {
    let docs = vec![SpecDoc {
        name: "spec".to_string(),
        content: "The system MUST validate input.\nIt SHOULD log errors.".to_string(),
    }];
    let reqs = extract_requirements(&docs);
    let rfc: Vec<_> = reqs
        .iter()
        .filter(|r| matches!(r.req_type, RequirementType::Rfc2119))
        .collect();
    assert_eq!(rfc.len(), 2);
}

#[test]
fn test_extract_requirements_checkbox() {
    let docs = vec![SpecDoc {
        name: "spec".to_string(),
        content: "- [ ] Pending spec task\n- [x] Done spec task".to_string(),
    }];
    let reqs = extract_requirements(&docs);
    let tasks: Vec<_> = reqs
        .iter()
        .filter(|r| matches!(r.req_type, RequirementType::Task))
        .collect();
    assert_eq!(tasks.len(), 2);
}

#[test]
fn test_extract_requirements_keyword_needs_word_boundary() {
    let docs = vec![SpecDoc {
        name: "spec".to_string(),
        content: "A MUSTARD seed is not normative.".to_string(),
    }];
    let reqs = extract_requirements(&docs);
    assert!(reqs.is_empty());
}

#[test]
fn test_analyze_coverage_empty() {
    let docs: Vec<SpecDoc> = Vec::new();
    let tasks: Vec<Task> = Vec::new();
    let coverage = analyze_coverage(&docs, &tasks);
    assert!(coverage.is_empty());
}

#[test]
fn test_analyze_coverage_with_refs() {
    let docs = vec![SpecDoc {
        name: "feature".to_string(),
        content: "### Section 1\n### Section 2\n".to_string(),
    }];
    let mut t1 = task("Task 1", TaskStatus::Pending, 1);
    t1.spec_refs = vec!["specs/feature.md".to_string()];
    let mut t2 = task("Task 2", TaskStatus::Pending, 2);
    t2.spec_refs = vec!["specs/feature.md".to_string()];
    let tasks = vec![t1, t2];
    let coverage = analyze_coverage(&docs, &tasks);
    assert_eq!(coverage.len(), 1);
    assert_eq!(coverage[0].spec_name, "feature");
    assert_eq!(coverage[0].task_count, 2);
    assert_eq!(coverage[0].requirement_count, 2);
    assert_eq!(coverage[0].coverage_percent, 100);
}

#[test]
fn test_generate_report() {
    let plan = "## Priority 1: Test\n\n- [x] Completed task (refs: specs/feature.md)\n- [ ] Pending task\n";
    let docs = vec![SpecDoc {
        name: "feature".to_string(),
        content: "### Feature Section\n".to_string(),
    }];
    let report = generate_report(plan, &docs);
    assert_eq!(report.total_tasks, 2);
    assert_eq!(report.completed_tasks, 1);
    assert_eq!(report.pending_tasks, 1);
    assert_eq!(report.tasks_with_refs, 1);
    assert_eq!(report.orphan_tasks, 1);
}

#[test]
fn test_report_end_to_end_counts() {
    // a plan with one referenced finished task and one orphan open task
    let plan = "- [x] A (refs: specs/x.md)\n- [ ] B\n";
    let docs: Vec<SpecDoc> = Vec::new();
    let report = generate_report(plan, &docs);
    assert_eq!(report.total_tasks, 2);
    assert_eq!(report.completed_tasks, 1);
    assert_eq!(report.pending_tasks, 1);
    assert_eq!(report.tasks_with_refs, 1);
    assert_eq!(report.orphan_tasks, 1);
    assert_eq!(report.tasks[0].description, "A");
    assert_eq!(report.tasks[0].spec_refs, vec!["specs/x.md"]);
    assert_eq!(report.tasks[1].description, "B");
}
