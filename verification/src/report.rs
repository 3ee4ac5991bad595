//! The Markdown diagnosis report of a trace.
use vstd::prelude::*;
use crate::model::{
    spec_failure_name, spec_status_name, Diagnosis, StageResult, StageTrace,
};
use crate::text::{decimal, join, own, push_char, push_str, spec_decimal, spec_join};

verus! {

/// `s` with every `'|'` written as `"\|"`, so that it can stand in a table
/// cell.
pub open spec fn escape_pipes(s: Seq<char>) -> Seq<char>
    decreases s.len(),
{
    if s.len() == 0 {
        Seq::empty()
    } else {
        escape_pipes(s.drop_last()) + (if s.last() == '|' {
            seq!['\\', '|']
        } else {
            seq![s.last()]
        })
    }
}

fn escape(s: &String) -> (r: String)
    ensures
        r@ == escape_pipes(s@),
{
    let cs = crate::text::chars_of(s.as_str());
    let mut out = String::new();
    let mut i: usize = 0;
    proof {
        assert(cs@.take(0) =~= Seq::<char>::empty());
    }
    while i < cs.len()
        invariant
            i <= cs@.len(),
            cs@ == s@,
            out@ == escape_pipes(cs@.take(i as int)),
        decreases cs@.len() - i,
    {
        let ghost before = out@;
        proof {
            assert(cs@.take(i + 1).drop_last() =~= cs@.take(i as int));
        }
        if cs[i] == '|' {
            push_char(&mut out, '\\');
            push_char(&mut out, '|');
            assert(out@ =~= before + seq!['\\', '|']);
        } else {
            push_char(&mut out, cs[i]);
            assert(out@ =~= before + seq![cs@[i as int]]);
        }
        i += 1;
    }
    assert(cs@.take(cs@.len() as int) =~= cs@);
    out
}

/// The target rank cell of a stage row: the rank, or an em dash.
pub open spec fn rank_cell(rank: Option<usize>) -> Seq<char> {
    match rank {
        Some(r) => spec_decimal(r as nat),
        None => "—"@,
    }
}

/// The table row of one stage.
pub open spec fn spec_row(s: StageResult) -> Seq<char> {
    "| "@ + s.stage@ + " | "@ + spec_status_name(s.status) + " | "@ + rank_cell(s.target_rank)
        + " | "@ + escape_pipes(spec_join(s.evidence.deep_view(), "; "@)) + " |\n"@
}

/// The table rows of the stages, in order.
pub open spec fn spec_rows(stages: Seq<StageResult>) -> Seq<char>
    decreases stages.len(),
{
    if stages.len() == 0 {
        Seq::empty()
    } else {
        spec_rows(stages.drop_last()) + spec_row(stages.last())
    }
}

/// A bullet list with one `"- "` line per item.
pub open spec fn spec_bullets(items: Seq<Seq<char>>) -> Seq<char>
    decreases items.len(),
{
    if items.len() == 0 {
        Seq::empty()
    } else {
        spec_bullets(items.drop_last()) + "- "@ + items.last() + "\n"@
    }
}

/// The report section of a diagnosis.
pub open spec fn spec_diagnosis_section(d: Diagnosis) -> Seq<char> {
    "## Primary failure\n\n"@ + "**"@ + spec_failure_name(d.primary_failure) + "** at stage `"@
        + d.stage@ + "`.\n\n"@ + "### Evidence\n\n"@ + spec_bullets(d.evidence.deep_view())
        + "\n### Suggested repairs\n\n"@ + "**"@ + d.repair_plan.title@ + "**\n\n"@ + spec_bullets(
        d.repair_plan.steps.deep_view(),
    )
}

/// The Markdown report of a trace.
pub open spec fn spec_report(t: StageTrace) -> Seq<char> {
    "# CiteStage Diagnosis Report\n\n"@ + "**Query:** `"@ + t.query.text@ + "`\n\n"@
        + "**Target:** `"@ + t.target@ + "`\n\n"@ + "## Pipeline trace\n\n"@
        + "| Stage | Status | Target rank | Evidence |\n"@ + "| --- | --- | --- | --- |\n"@
        + spec_rows(t.stages@) + "\n"@ + match t.diagnosis {
        Some(d) => spec_diagnosis_section(d),
        None => "## Primary failure\n\nNo diagnosis was attached to this trace.\n"@,
    }
}

fn push_bullets(output: &mut String, items: &Vec<String>)
    ensures
        final(output)@ == old(output)@ + spec_bullets(items.deep_view()),
{
    let ghost start = output@;
    let ghost all = items.deep_view();
    let mut i: usize = 0;
    proof {
        assert(all.take(0) =~= Seq::<Seq<char>>::empty());
        assert(output@ =~= start + spec_bullets(all.take(0)));
    }
    while i < items.len()
        invariant
            i <= items@.len(),
            all == items.deep_view(),
            output@ == start + spec_bullets(all.take(i as int)),
        decreases items@.len() - i,
    {
        proof {
            assert(all.take(i + 1).drop_last() =~= all.take(i as int));
            assert(all[i as int] == items@[i as int]@);
        }
        push_str(output, "- ");
        push_str(output, items[i].as_str());
        push_str(output, "\n");
        proof {
            assert(output@ =~= start + spec_bullets(all.take(i + 1)));
        }
        i += 1;
    }
    assert(all.take(items@.len() as int) =~= all);
}

fn append_diagnosis(output: &mut String, diagnosis: &Diagnosis)
    ensures
        final(output)@ == old(output)@ + spec_diagnosis_section(*diagnosis),
{
    let ghost start = output@;
    push_str(output, "## Primary failure\n\n");
    push_str(output, "**");
    let name = diagnosis.primary_failure.name();
    push_str(output, name.as_str());
    push_str(output, "** at stage `");
    push_str(output, diagnosis.stage.as_str());
    push_str(output, "`.\n\n");
    push_str(output, "### Evidence\n\n");
    push_bullets(output, &diagnosis.evidence);
    push_str(output, "\n### Suggested repairs\n\n");
    push_str(output, "**");
    push_str(output, diagnosis.repair_plan.title.as_str());
    push_str(output, "**\n\n");
    push_bullets(output, &diagnosis.repair_plan.steps);
    assert(output@ =~= start + spec_diagnosis_section(*diagnosis));
}

fn push_row(output: &mut String, stage: &StageResult)
    ensures
        final(output)@ == old(output)@ + spec_row(*stage),
{
    let ghost start = output@;
    let rank = match stage.target_rank {
        Some(r) => decimal(r),
        None => own("—"),
    };
    let joined = join(&stage.evidence, "; ");
    let cell = escape(&joined);
    push_str(output, "| ");
    push_str(output, stage.stage.as_str());
    push_str(output, " | ");
    let status = stage.status.name();
    push_str(output, status.as_str());
    push_str(output, " | ");
    push_str(output, rank.as_str());
    push_str(output, " | ");
    push_str(output, cell.as_str());
    push_str(output, " |\n");
    assert(output@ =~= start + spec_row(*stage));
}

/// Renders a trace as a Markdown report: the query and target, one table
/// row per stage, and the diagnosis with its evidence and repairs.
pub fn render_markdown(trace: &StageTrace) -> (r: String)
    ensures
        r@ == spec_report(*trace),
{
    let mut output = String::new();
    push_str(&mut output, "# CiteStage Diagnosis Report\n\n");
    push_str(&mut output, "**Query:** `");
    push_str(&mut output, trace.query.text.as_str());
    push_str(&mut output, "`\n\n");
    push_str(&mut output, "**Target:** `");
    push_str(&mut output, trace.target.as_str());
    push_str(&mut output, "`\n\n");
    push_str(&mut output, "## Pipeline trace\n\n");
    push_str(&mut output, "| Stage | Status | Target rank | Evidence |\n");
    push_str(&mut output, "| --- | --- | --- | --- |\n");
    let ghost head = output@;
    let ghost stages = trace.stages@;
    let mut i: usize = 0;
    proof {
        assert(stages.take(0) =~= Seq::<StageResult>::empty());
        assert(output@ =~= head + spec_rows(stages.take(0)));
    }
    while i < trace.stages.len()
        invariant
            i <= stages.len(),
            stages == trace.stages@,
            output@ == head + spec_rows(stages.take(i as int)),
        decreases stages.len() - i,
    {
        proof {
            assert(stages.take(i + 1).drop_last() =~= stages.take(i as int));
        }
        push_row(&mut output, &trace.stages[i]);
        proof {
            assert(output@ =~= head + spec_rows(stages.take(i + 1)));
        }
        i += 1;
    }
    assert(stages.take(stages.len() as int) =~= stages);
    push_str(&mut output, "\n");
    let ghost mid = output@;
    assert(mid =~= head + spec_rows(stages) + "\n"@);
    let ghost tail = match &trace.diagnosis {
        Some(d) => spec_diagnosis_section(*d),
        None => "## Primary failure\n\nNo diagnosis was attached to this trace.\n"@,
    };
    match &trace.diagnosis {
        Some(diagnosis) => append_diagnosis(&mut output, diagnosis),
        None => push_str(
            &mut output,
            "## Primary failure\n\nNo diagnosis was attached to this trace.\n",
        ),
    }
    assert(output@ == mid + tail);
    assert(head =~= "# CiteStage Diagnosis Report\n\n"@ + "**Query:** `"@ + trace.query.text@
        + "`\n\n"@ + "**Target:** `"@ + trace.target@ + "`\n\n"@ + "## Pipeline trace\n\n"@
        + "| Stage | Status | Target rank | Evidence |\n"@ + "| --- | --- | --- | --- |\n"@);
    assert(output@ =~= spec_report(*trace));
    output
}

} // verus!
