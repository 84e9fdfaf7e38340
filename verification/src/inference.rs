//! The inference port's data: the SOAP bundle handed to a backend and
//! rendered as its prompt, and the backend's response.

use vstd::prelude::*;
use crate::skill::strings_view;
use crate::text::{push_str, string_from_chars};

verus! {

/// One objective observation. Its value is held as JSON text.
#[derive(Debug, Clone)]
pub struct SoapObservation {
    /// What was observed.
    pub name: String,
    /// The value, as JSON text.
    pub value: String,
    /// Unit, if any.
    pub unit: Option<String>,
    /// Severity, if any.
    pub severity: Option<String>,
}

/// A SOAP bundle: subjective note, objective observations, assessment
/// and plan.
#[derive(Debug, Clone)]
pub struct SoapBundle {
    /// Subjective — the operator's complaint.
    pub subjective: String,
    /// Objective observations.
    pub objective: Vec<SoapObservation>,
    /// Assessment, if any.
    pub assessment: Option<String>,
    /// Plan steps, if any.
    pub plan: Option<Vec<String>>,
}

/// `- name: value unit [severity]` for one observation.
pub open spec fn observation_line(o: SoapObservation) -> Seq<char> {
    "- "@ + o.name@ + ": "@ + o.value@ + " "@ + match o.unit {
        Some(u) => u@,
        None => seq![],
    } + match o.severity {
        Some(s) => " ["@ + s@ + "]"@,
        None => seq![],
    } + "\n"@
}

/// The lines of the first `n` observations.
pub open spec fn observation_lines(os: Seq<SoapObservation>, n: int) -> Seq<char>
    decreases n,
{
    if n <= 0 { seq![] } else { observation_lines(os, n - 1) + observation_line(os[n - 1]) }
}

/// `- item` lines of the first `n` plan steps.
pub open spec fn plan_lines(items: Seq<Seq<char>>, n: int) -> Seq<char>
    decreases n,
{
    if n <= 0 { seq![] } else { plan_lines(items, n - 1) + "- "@ + items[n - 1] + "\n"@ }
}

/// The objective section, empty without observations.
pub open spec fn objective_section(b: SoapBundle) -> Seq<char> {
    if b.objective@.len() > 0 {
        "## Objective\n"@ + observation_lines(b.objective@, b.objective@.len() as int) + "\n"@
    } else {
        seq![]
    }
}

/// The assessment section, empty without one.
pub open spec fn assessment_section(b: SoapBundle) -> Seq<char> {
    match b.assessment {
        Some(a) => "## Assessment\n"@ + a@ + "\n\n"@,
        None => seq![],
    }
}

/// The plan section, empty without one.
pub open spec fn plan_section(b: SoapBundle) -> Seq<char> {
    match b.plan {
        Some(p) => "## Plan\n"@ + plan_lines(strings_view(p@), p@.len() as int) + "\n"@,
        None => seq![],
    }
}

/// The prompt a bundle renders to: its sections in order, the empty
/// ones left out.
pub open spec fn prompt_text(b: SoapBundle) -> Seq<char> {
    "## Subjective\n"@ + b.subjective@ + "\n\n"@ + objective_section(b) + assessment_section(b) + plan_section(b)
}

impl SoapBundle {
    /// A bundle with only its subjective note.
    pub fn new(subjective: String) -> (r: Self)
        ensures
            r.subjective@ == subjective@,
            r.objective@.len() == 0,
            r.assessment is None,
            r.plan is None,
    {
        SoapBundle { subjective, objective: Vec::new(), assessment: None, plan: None }
    }

    /// Add an observation without unit or severity.
    pub fn with_observation(self, name: String, value_json: String) -> (r: Self)
        ensures
            r.subjective == self.subjective,
            r.assessment == self.assessment,
            r.plan == self.plan,
            r.objective@ == self.objective@.push(SoapObservation { name, value: value_json, unit: None, severity: None }),
    {
        let mut b = self;
        b.objective.push(SoapObservation { name, value: value_json, unit: None, severity: None });
        b
    }

    /// Add an observation with unit and severity.
    pub fn with_full_observation(self, name: String, value_json: String, unit: Option<String>, severity: Option<String>) -> (r: Self)
        ensures
            r.subjective == self.subjective,
            r.assessment == self.assessment,
            r.plan == self.plan,
            r.objective@ == self.objective@.push(SoapObservation { name, value: value_json, unit, severity }),
    {
        let mut b = self;
        b.objective.push(SoapObservation { name, value: value_json, unit, severity });
        b
    }

    /// Set the assessment.
    pub fn with_assessment(self, assessment: String) -> (r: Self)
        ensures
            r.subjective == self.subjective,
            r.objective == self.objective,
            r.plan == self.plan,
            r.assessment == Some(assessment),
    {
        let mut b = self;
        b.assessment = Some(assessment);
        b
    }

    /// Set the plan.
    pub fn with_plan(self, plan: Vec<String>) -> (r: Self)
        ensures
            r.subjective == self.subjective,
            r.objective == self.objective,
            r.assessment == self.assessment,
            r.plan == Some(plan),
    {
        let mut b = self;
        b.plan = Some(plan);
        b
    }

    /// Render the bundle as a Markdown prompt.
    pub fn to_prompt(&self) -> (r: String)
        ensures
            r@ == prompt_text(*self),
    {
        let mut out: Vec<char> = Vec::new();
        push_str(&mut out, "## Subjective\n");
        push_str(&mut out, self.subjective.as_str());
        push_str(&mut out, "\n\n");
        let ghost a = out@;
        if self.objective.len() > 0 {
            push_str(&mut out, "## Objective\n");
            let ghost h = out@;
            proof {
                assert(h == a + "## Objective\n"@);
            }
            let mut i: usize = 0;
            while i < self.objective.len()
                invariant
                    i <= self.objective@.len(),
                    out@ == h + observation_lines(self.objective@, i as int),
                decreases self.objective@.len() - i,
            {
                let o = &self.objective[i];
                let ghost o0 = out@;
                push_str(&mut out, "- ");
                push_str(&mut out, o.name.as_str());
                push_str(&mut out, ": ");
                push_str(&mut out, o.value.as_str());
                push_str(&mut out, " ");
                match &o.unit {
                    Some(u) => push_str(&mut out, u.as_str()),
                    None => {},
                }
                match &o.severity {
                    Some(s) => {
                        push_str(&mut out, " [");
                        push_str(&mut out, s.as_str());
                        push_str(&mut out, "]");
                    },
                    None => {},
                }
                push_str(&mut out, "\n");
                proof {
                    assert(out@ =~= o0 + observation_line(*o));
                }
                i = i + 1;
            }
            proof {
                assert(out@ == h + observation_lines(self.objective@, self.objective@.len() as int));
            }
            push_str(&mut out, "\n");
            proof {
                assert(out@ =~= a + objective_section(*self));
            }
        }
        let ghost b = out@;
        proof {
            assert(b =~= a + objective_section(*self));
        }
        match &self.assessment {
            Some(s) => {
                push_str(&mut out, "## Assessment\n");
                push_str(&mut out, s.as_str());
                push_str(&mut out, "\n\n");
            },
            None => {},
        }
        let ghost c = out@;
        proof {
            assert(c =~= b + assessment_section(*self));
        }
        match &self.plan {
            Some(p) => {
                push_str(&mut out, "## Plan\n");
                let ghost h = out@;
                proof {
                    assert(h == c + "## Plan\n"@);
                }
                let mut i: usize = 0;
                while i < p.len()
                    invariant
                        i <= p@.len(),
                        out@ == h + plan_lines(strings_view(p@), i as int),
                    decreases p@.len() - i,
                {
                    let ghost o0 = out@;
                    push_str(&mut out, "- ");
                    push_str(&mut out, p[i].as_str());
                    push_str(&mut out, "\n");
                    proof {
                        assert(strings_view(p@)[i as int] == p@[i as int]@);
                        assert(out@ =~= o0 + "- "@ + strings_view(p@)[i as int] + "\n"@);
                    }
                    i = i + 1;
                }
                proof {
                    assert(out@ == h + plan_lines(strings_view(p@), p@.len() as int));
                }
                push_str(&mut out, "\n");
                proof {
                    assert(out@ =~= c + plan_section(*self));
                }
            },
            None => {},
        }
        proof {
            assert(out@ =~= c + plan_section(*self));
            assert(out@ =~= prompt_text(*self));
        }
        string_from_chars(&out)
    }
}

/// Token counts of one inference.
#[derive(Debug, Clone, Copy, PartialEq, Eq, Structural)]
pub struct TokenUsage {
    /// Prompt tokens.
    pub input_tokens: u64,
    /// Completion tokens.
    pub output_tokens: u64,
    /// Both.
    pub total_tokens: u64,
}

/// A backend's answer to an inference request.
#[derive(Debug, Clone)]
pub struct InferenceResponse {
    /// The generated text.
    pub text: String,
    /// Which backend answered.
    pub backend: String,
    /// Model identifier, if known.
    pub model: Option<String>,
    /// Round-trip latency in milliseconds, if measured.
    pub latency_ms: Option<u64>,
    /// Token counts, if reported.
    pub token_usage: Option<TokenUsage>,
    /// Proposed action lines.
    pub actions: Vec<String>,
}

} // verus!
