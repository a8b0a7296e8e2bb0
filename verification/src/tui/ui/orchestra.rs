//! The text of the orchestra monitor: the banner that draws the pipeline's
//! topology, and the record of each stage a multi-agent run went through.
use vstd::prelude::*;
use crate::text::{decimal, lines, lines_upto, lowercase, push_decimal, push_str, str_eq, string_of, to_lowercase, views};

verus! {

/// One stage of a multi-agent run, as the conversation records it.
pub struct StageRecord {
    pub role: String,
    pub agent_id: String,
    pub task_brief: String,
    pub final_content: Option<String>,
    pub duration_ms: u64,
    pub turn_count: usize,
    pub tool_calls_count: usize,
}

pub struct StageView {
    pub role: Seq<char>,
    pub agent_id: Seq<char>,
    pub task_brief: Seq<char>,
    pub final_content: Option<Seq<char>>,
    pub duration_ms: u64,
    pub turn_count: usize,
    pub tool_calls_count: usize,
}

impl View for StageRecord {
    type V = StageView;

    open spec fn view(&self) -> StageView {
        StageView {
            role: self.role@,
            agent_id: self.agent_id@,
            task_brief: self.task_brief@,
            final_content: match self.final_content {
                Some(t) => Some(t@),
                None => None,
            },
            duration_ms: self.duration_ms,
            turn_count: self.turn_count,
            tool_calls_count: self.tool_calls_count,
        }
    }
}

pub open spec fn stage_views(v: Seq<StageRecord>) -> Seq<StageView> {
    v.map_values(|s: StageRecord| s@)
}

/// Whether the run's topology, compared without regard to case, is the
/// parallel one; without a recorded topology the pipeline is sequential.
pub open spec fn is_parallel(topology: Option<Seq<char>>) -> bool {
    match topology {
        Some(t) => lowercase(t) == "parallel"@,
        None => false,
    }
}

/// The banner's lines for the run's topology.
pub open spec fn banner_lines(topology: Option<Seq<char>>) -> Seq<Seq<char>> {
    if is_parallel(topology) {
        seq![
            "  Topology: PARALLEL MULTI-AGENT"@,
            "  ├── [Planner Agent]  ──► Parallel Execution"@,
            "  └── [Verifier Agent] ──► Parallel Execution"@,
        ]
    } else {
        seq![
            "  Topology: SEQUENTIAL PIPELINE"@,
            "  [1. Planner] ──(final_content)──► [2. Coder] ──(implementation)──► [3. Verify]"@,
        ]
    }
}

/// The first line of stage number `n` (counting from one).
pub open spec fn stage_heading(n: nat, s: StageView) -> Seq<char> {
    " ▶ Stage "@ + decimal(n) + ": "@ + "Role: `"@ + s.role + "` | Agent: `"@ + s.agent_id + "`"@ + " ("@
        + decimal(s.duration_ms as nat) + "ms, "@ + decimal(s.turn_count as nat) + " turns, "@ + decimal(
        s.tool_calls_count as nat,
    ) + " tools)"@
}

/// A stage's outcome shows at most its first four lines.
pub open spec fn outcome_lines(final_content: Option<Seq<char>>) -> Seq<Seq<char>> {
    match final_content {
        Some(t) => {
            let ls = lines(t);
            let shown = if ls.len() <= 4 {
                ls
            } else {
                ls.take(4)
            };
            seq!["   Outcome: "@] + shown.map_values(|l: Seq<char>| "     "@ + l)
        },
        None => Seq::empty(),
    }
}

/// The lines of stage number `n`, ending with a blank line.
pub open spec fn stage_lines(n: nat, s: StageView) -> Seq<Seq<char>> {
    seq![stage_heading(n, s), "   Brief: "@ + s.task_brief] + outcome_lines(s.final_content) + seq![
        Seq::<char>::empty(),
    ]
}

pub open spec fn stages_lines(stages: Seq<StageView>) -> Seq<Seq<char>>
    decreases stages.len(),
{
    if stages.len() == 0 {
        Seq::empty()
    } else {
        stages_lines(stages.drop_last()) + stage_lines(stages.len() as nat, stages.last())
    }
}

/// The record's lines: a note when no stage was recorded yet.
pub open spec fn record_lines(stages: Seq<StageView>) -> Seq<Seq<char>> {
    if stages.len() == 0 {
        seq![
            " No multi-agent stage records in this session yet."@,
            " When running through Orchestra, stages and handoff briefs will appear here."@,
        ]
    } else {
        stages_lines(stages)
    }
}

fn push_line(out: &mut Vec<String>, l: String)
    ensures
        views(final(out)@) == views(old(out)@).push(l@),
{
    out.push(l);
    assert(views(out@) =~= views(old(out)@).push(l@));
}

/// The banner for the run's topology.
pub fn topology_banner(topology: Option<&str>) -> (r: Vec<String>)
    ensures
        views(r@) == banner_lines(
            match topology {
                Some(t) => Some(t@),
                None => None,
            },
        ),
{
    let parallel = match topology {
        Some(t) => {
            let low = to_lowercase(t);
            str_eq(low.as_str(), "parallel")
        },
        None => false,
    };
    let mut out: Vec<String> = Vec::new();
    if parallel {
        push_line(&mut out, string_of("  Topology: PARALLEL MULTI-AGENT"));
        push_line(&mut out, string_of("  ├── [Planner Agent]  ──► Parallel Execution"));
        push_line(&mut out, string_of("  └── [Verifier Agent] ──► Parallel Execution"));
    } else {
        push_line(&mut out, string_of("  Topology: SEQUENTIAL PIPELINE"));
        push_line(
            &mut out,
            string_of("  [1. Planner] ──(final_content)──► [2. Coder] ──(implementation)──► [3. Verify]"),
        );
    }
    assert(views(out@) =~= banner_lines(
        match topology {
            Some(t) => Some(t@),
            None => None,
        },
    ));
    out
}

fn heading(n: u64, s: &StageRecord) -> (r: String)
    ensures
        r@ == stage_heading(n as nat, s@),
{
    let mut h = string_of(" ▶ Stage ");
    push_decimal(&mut h, n);
    push_str(&mut h, ": ");
    push_str(&mut h, "Role: `");
    push_str(&mut h, s.role.as_str());
    push_str(&mut h, "` | Agent: `");
    push_str(&mut h, s.agent_id.as_str());
    push_str(&mut h, "`");
    push_str(&mut h, " (");
    push_decimal(&mut h, s.duration_ms);
    push_str(&mut h, "ms, ");
    push_decimal(&mut h, s.turn_count as u64);
    push_str(&mut h, " turns, ");
    push_decimal(&mut h, s.tool_calls_count as u64);
    push_str(&mut h, " tools)");
    h
}

fn push_outcome(out: &mut Vec<String>, final_content: &Option<String>)
    ensures
        views(final(out)@) == views(old(out)@) + outcome_lines(
            match final_content {
                Some(t) => Some(t@),
                None => None,
            },
        ),
{
    match final_content {
        Some(t) => {
            let ghost start = views(out@);
            push_line(out, string_of("   Outcome: "));
            let ls = lines_upto(t.as_str(), 4);
            let ghost shown = views(ls@);
            proof {
                let all = lines(t@);
                if all.len() <= 4 {
                    assert(all.take(all.len() as int) =~= all);
                }
            }
            let mut i: usize = 0;
            while i < ls.len()
                invariant
                    i <= ls.len(),
                    shown == views(ls@),
                    views(out@) == start + seq!["   Outcome: "@] + shown.take(i as int).map_values(
                        |l: Seq<char>| "     "@ + l,
                    ),
                decreases ls.len() - i,
            {
                let mut l = string_of("     ");
                push_str(&mut l, ls[i].as_str());
                push_line(out, l);
                assert(shown.take(i + 1).map_values(|l: Seq<char>| "     "@ + l) =~= shown.take(
                    i as int,
                ).map_values(|l: Seq<char>| "     "@ + l).push("     "@ + shown[i as int]));
                i += 1;
            }
            assert(shown.take(ls.len() as int) =~= shown);
            assert(views(out@) =~= start + outcome_lines(Some(t@)));
        },
        None => {
            assert(views(out@) =~= views(out@) + Seq::<Seq<char>>::empty());
        },
    }
}

/// The lines of the stage record, stage by stage, numbered from one.
pub fn stage_record_text(stages: &Vec<StageRecord>) -> (r: Vec<String>)
    requires
        stages.len() < u64::MAX,
    ensures
        views(r@) == record_lines(stage_views(stages@)),
{
    let mut out: Vec<String> = Vec::new();
    if stages.len() == 0 {
        push_line(&mut out, string_of(" No multi-agent stage records in this session yet."));
        push_line(
            &mut out,
            string_of(" When running through Orchestra, stages and handoff briefs will appear here."),
        );
        assert(views(out@) =~= record_lines(stage_views(stages@)));
        return out;
    }
    let ghost sv = stage_views(stages@);
    let mut i: usize = 0;
    assert(views(out@) =~= stages_lines(sv.take(0)));
    while i < stages.len()
        invariant
            i <= stages.len() < u64::MAX,
            sv == stage_views(stages@),
            views(out@) == stages_lines(sv.take(i as int)),
        decreases stages.len() - i,
    {
        let s = &stages[i];
        let ghost before = views(out@);
        push_line(&mut out, heading((i + 1) as u64, s));
        let mut brief = string_of("   Brief: ");
        push_str(&mut brief, s.task_brief.as_str());
        push_line(&mut out, brief);
        push_outcome(&mut out, &s.final_content);
        push_line(&mut out, String::new());
        proof {
            let t = sv.take(i + 1);
            assert(t.drop_last() =~= sv.take(i as int));
            assert(t.last() == s@);
            assert(views(out@) =~= before + stage_lines((i + 1) as nat, s@));
        }
        i += 1;
    }
    assert(sv.take(stages.len() as int) =~= sv);
    out
}

} // verus!
