use thunder_agent::tui::ui::orchestra::{stage_record_text, topology_banner, StageRecord};

#[test]
fn banner_follows_topology_case_insensitively() {
    let parallel = topology_banner(Some("Parallel"));
    assert_eq!(
        parallel,
        vec![
            "  Topology: PARALLEL MULTI-AGENT",
            "  ├── [Planner Agent]  ──► Parallel Execution",
            "  └── [Verifier Agent] ──► Parallel Execution",
        ]
    );
    assert_eq!(topology_banner(Some("PARALLEL")).len(), 3);
    let sequential = topology_banner(None);
    assert_eq!(
        sequential,
        vec![
            "  Topology: SEQUENTIAL PIPELINE",
            "  [1. Planner] ──(final_content)──► [2. Coder] ──(implementation)──► [3. Verify]",
        ]
    );
    assert_eq!(topology_banner(Some("fan-out")), sequential);
}

#[test]
fn empty_record_shows_a_note() {
    assert_eq!(
        stage_record_text(&Vec::new()),
        vec![
            " No multi-agent stage records in this session yet.",
            " When running through Orchestra, stages and handoff briefs will appear here.",
        ]
    );
}

#[test]
fn stages_are_numbered_and_outcomes_cut_to_four_lines() {
    let stages = vec![
        StageRecord {
            role: "planner".to_string(),
            agent_id: "a1".to_string(),
            task_brief: "plan it".to_string(),
            final_content: Some("l1\nl2\nl3\nl4\nl5".to_string()),
            duration_ms: 1500,
            turn_count: 3,
            tool_calls_count: 7,
        },
        StageRecord {
            role: "coder".to_string(),
            agent_id: "a2".to_string(),
            task_brief: "build it".to_string(),
            final_content: None,
            duration_ms: 20,
            turn_count: 1,
            tool_calls_count: 0,
        },
    ];
    assert_eq!(
        stage_record_text(&stages),
        vec![
            " ▶ Stage 1: Role: `planner` | Agent: `a1` (1500ms, 3 turns, 7 tools)",
            "   Brief: plan it",
            "   Outcome: ",
            "     l1",
            "     l2",
            "     l3",
            "     l4",
            "",
            " ▶ Stage 2: Role: `coder` | Agent: `a2` (20ms, 1 turns, 0 tools)",
            "   Brief: build it",
            "",
        ]
    );
}
