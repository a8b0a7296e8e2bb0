//! Structured notices telling the model what the system actually did.
use crate::text::{push_str, string_of};
use crate::types::message::{clone_opt_string, opt_view};
use vstd::prelude::*;

verus! {

/// Telemetry notice informing the model of physical realities, security
/// interventions, self-healing events or execution outcomes.
#[derive(Debug)]
pub struct SystemNotice {
    /// Layer emitting the notice (e.g. "SecurityGuard", "Transaction").
    pub layer: String,
    /// Action taken by the system.
    pub action: String,
    /// Verified ground truth of the environment afterwards.
    pub ground_truth: String,
    /// Automatic recovery performed, if any.
    pub self_healed: Option<String>,
    /// Actionable next-step guidance for the model.
    pub guidance: Option<String>,
}

/// The notice rendered as the markdown block appended to tool output.
pub open spec fn notice_markdown(
    layer: Seq<char>,
    action: Seq<char>,
    ground_truth: Seq<char>,
    self_healed: Option<Seq<char>>,
    guidance: Option<Seq<char>>,
) -> Seq<char> {
    "[System Telemetry: "@ + layer + "\n • Action: "@ + action + "\n • Ground Truth: "@ + ground_truth
        + (match self_healed {
        Some(h) => "\n • Self-Healed: "@ + h,
        None => Seq::empty(),
    }) + (match guidance {
        Some(g) => "\n • Guidance: "@ + g,
        None => Seq::empty(),
    }) + "]"@
}

impl SystemNotice {
    pub open spec fn markdown(&self) -> Seq<char> {
        notice_markdown(
            self.layer@,
            self.action@,
            self.ground_truth@,
            opt_view(self.self_healed),
            opt_view(self.guidance),
        )
    }

    pub fn new(layer: &str, action: &str, ground_truth: &str) -> (n: SystemNotice)
        ensures
            n.layer@ == layer@,
            n.action@ == action@,
            n.ground_truth@ == ground_truth@,
            n.self_healed is None,
            n.guidance is None,
    {
        SystemNotice {
            layer: string_of(layer),
            action: string_of(action),
            ground_truth: string_of(ground_truth),
            self_healed: None,
            guidance: None,
        }
    }

    pub fn with_self_healed(self, healed: &str) -> (n: SystemNotice)
        ensures
            n.layer == self.layer,
            n.action == self.action,
            n.ground_truth == self.ground_truth,
            n.guidance == self.guidance,
            n.self_healed matches Some(h) && h@ == healed@,
    {
        SystemNotice { self_healed: Some(string_of(healed)), ..self }
    }

    pub fn with_guidance(self, guidance: &str) -> (n: SystemNotice)
        ensures
            n.layer == self.layer,
            n.action == self.action,
            n.ground_truth == self.ground_truth,
            n.self_healed == self.self_healed,
            n.guidance matches Some(g) && g@ == guidance@,
    {
        SystemNotice { guidance: Some(string_of(guidance)), ..self }
    }

    /// Formats the notice into the markdown block shown to the model.
    pub fn format_markdown(&self) -> (s: String)
        ensures
            s@ == self.markdown(),
    {
        let mut out = string_of("[System Telemetry: ");
        push_str(&mut out, self.layer.as_str());
        push_str(&mut out, "\n • Action: ");
        push_str(&mut out, self.action.as_str());
        push_str(&mut out, "\n • Ground Truth: ");
        push_str(&mut out, self.ground_truth.as_str());
        let ghost base = out@;
        match &self.self_healed {
            Some(h) => {
                push_str(&mut out, "\n • Self-Healed: ");
                push_str(&mut out, h.as_str());
            },
            None => {},
        }
        let ghost mid = out@;
        match &self.guidance {
            Some(g) => {
                push_str(&mut out, "\n • Guidance: ");
                push_str(&mut out, g.as_str());
            },
            None => {},
        }
        push_str(&mut out, "]");
        assert(out@ =~= self.markdown());
        out
    }

    pub fn duplicate(&self) -> (n: SystemNotice)
        ensures
            n == *self,
    {
        SystemNotice {
            layer: self.layer.clone(),
            action: self.action.clone(),
            ground_truth: self.ground_truth.clone(),
            self_healed: clone_opt_string(&self.self_healed),
            guidance: clone_opt_string(&self.guidance),
        }
    }
}

} // verus!
