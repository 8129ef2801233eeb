//! The course of rendering a report to PDF: which step comes next after each
//! outcome, the files a render names and the arguments LaTeX is run with.
//!
//! The renderer fills a Tera template, writes the `.tex` file and runs LaTeX on
//! it twice (the second pass resolves cross-references); the steps themselves
//! are file and process I/O, performed by the application.
use vstd::prelude::*;

verus! {

/// A step of a render.
#[derive(Debug, Clone, Copy, PartialEq, Eq, Structural)]
pub enum RenderStep {
    /// Check whether the template directory exists (outcome: it does).
    CheckTemplateDir,
    /// Write the default template (the directory did not exist).
    CreateDefaultTemplate,
    /// Load the templates from the template directory.
    LoadTemplates,
    /// Fill the named template with the report data.
    FillTemplate,
    /// Write the filled template to the `.tex` file.
    WriteTex,
    /// Run LaTeX on the `.tex` file: pass 1 or pass 2.
    RunLatex(u8),
    /// Check that the PDF exists.
    CheckPdf,
}

/// Why a render failed.
#[derive(Debug, Clone, Copy, PartialEq, Eq, Structural)]
pub enum RenderFailure {
    TemplateCreation,
    TemplateLoad,
    TemplateFill,
    TexWrite,
    Latex,
    PdfMissing,
}

/// What follows a step.
#[derive(Debug, Clone, Copy, PartialEq, Eq, Structural)]
pub enum RenderNext {
    Continue(RenderStep),
    Finished,
    Failed(RenderFailure),
}

/// The step a render starts with.
pub open spec fn first_step() -> RenderStep {
    RenderStep::CheckTemplateDir
}

pub open spec fn spec_next(step: RenderStep, succeeded: bool) -> RenderNext {
    match step {
        RenderStep::CheckTemplateDir => if succeeded {
            RenderNext::Continue(RenderStep::LoadTemplates)
        } else {
            RenderNext::Continue(RenderStep::CreateDefaultTemplate)
        },
        RenderStep::CreateDefaultTemplate => if succeeded {
            RenderNext::Continue(RenderStep::LoadTemplates)
        } else {
            RenderNext::Failed(RenderFailure::TemplateCreation)
        },
        RenderStep::LoadTemplates => if succeeded {
            RenderNext::Continue(RenderStep::FillTemplate)
        } else {
            RenderNext::Failed(RenderFailure::TemplateLoad)
        },
        RenderStep::FillTemplate => if succeeded {
            RenderNext::Continue(RenderStep::WriteTex)
        } else {
            RenderNext::Failed(RenderFailure::TemplateFill)
        },
        RenderStep::WriteTex => if succeeded {
            RenderNext::Continue(RenderStep::RunLatex(1))
        } else {
            RenderNext::Failed(RenderFailure::TexWrite)
        },
        RenderStep::RunLatex(pass) => if !succeeded {
            RenderNext::Failed(RenderFailure::Latex)
        } else if pass < 2 {
            RenderNext::Continue(RenderStep::RunLatex(2))
        } else {
            RenderNext::Continue(RenderStep::CheckPdf)
        },
        RenderStep::CheckPdf => if succeeded {
            RenderNext::Finished
        } else {
            RenderNext::Failed(RenderFailure::PdfMissing)
        },
    }
}

/// The step that follows `step` given whether it succeeded (for the directory
/// check: whether the directory exists).
pub fn render_next(step: RenderStep, succeeded: bool) -> (r: RenderNext)
    ensures
        r == spec_next(step, succeeded),
{
    match step {
        RenderStep::CheckTemplateDir => if succeeded {
            RenderNext::Continue(RenderStep::LoadTemplates)
        } else {
            RenderNext::Continue(RenderStep::CreateDefaultTemplate)
        },
        RenderStep::CreateDefaultTemplate => if succeeded {
            RenderNext::Continue(RenderStep::LoadTemplates)
        } else {
            RenderNext::Failed(RenderFailure::TemplateCreation)
        },
        RenderStep::LoadTemplates => if succeeded {
            RenderNext::Continue(RenderStep::FillTemplate)
        } else {
            RenderNext::Failed(RenderFailure::TemplateLoad)
        },
        RenderStep::FillTemplate => if succeeded {
            RenderNext::Continue(RenderStep::WriteTex)
        } else {
            RenderNext::Failed(RenderFailure::TemplateFill)
        },
        RenderStep::WriteTex => if succeeded {
            RenderNext::Continue(RenderStep::RunLatex(1))
        } else {
            RenderNext::Failed(RenderFailure::TexWrite)
        },
        RenderStep::RunLatex(pass) => if !succeeded {
            RenderNext::Failed(RenderFailure::Latex)
        } else if pass < 2 {
            RenderNext::Continue(RenderStep::RunLatex(2))
        } else {
            RenderNext::Continue(RenderStep::CheckPdf)
        },
        RenderStep::CheckPdf => if succeeded {
            RenderNext::Finished
        } else {
            RenderNext::Failed(RenderFailure::PdfMissing)
        },
    }
}

/// Where a render stands after the outcomes of its steps, started at `step`:
/// finished, failed, or still waiting at a step.
pub open spec fn drive(step: RenderStep, outcomes: Seq<bool>) -> RenderNext
    decreases outcomes.len(),
{
    if outcomes.len() == 0 {
        RenderNext::Continue(step)
    } else {
        match spec_next(step, outcomes[0]) {
            RenderNext::Continue(s) => drive(s, outcomes.drop_first()),
            other => other,
        }
    }
}

/// Outcomes that begin with a render in which every step succeeds, the
/// template directory existing or not.
pub open spec fn successful_render(outcomes: Seq<bool>) -> bool {
    (outcomes.len() >= 7 && outcomes.take(7) == seq![true, true, true, true, true, true, true]) || (outcomes.len() >= 8 && outcomes.take(8) == seq![
        false,
        true,
        true,
        true,
        true,
        true,
        true,
        true,
    ])
}

proof fn lemma_drive_unfold(step: RenderStep, outcomes: Seq<bool>)
    requires
        outcomes.len() > 0,
    ensures
        drive(step, outcomes) == match spec_next(step, outcomes[0]) {
            RenderNext::Continue(s) => drive(s, outcomes.drop_first()),
            other => other,
        },
{
}

/// A render finishes exactly when, after the directory check, every step
/// succeeds: the template is loaded and filled, the `.tex` file written, both
/// LaTeX passes succeed and the PDF is found.
pub proof fn lemma_render_finishes_only_after_both_passes(outcomes: Seq<bool>)
    ensures
        drive(first_step(), outcomes) == RenderNext::Finished <==> successful_render(outcomes),
{
    reveal_with_fuel(drive, 9);
    if successful_render(outcomes) {
        let o = outcomes;
        if o[0] {
            assert(o.take(7)[0] && o.take(7)[1] && o.take(7)[2] && o.take(7)[3] && o.take(7)[4] && o.take(7)[5] && o.take(7)[6]);
        } else {
            assert(o.take(8)[1] && o.take(8)[2] && o.take(8)[3] && o.take(8)[4] && o.take(8)[5] && o.take(8)[6] && o.take(8)[7]);
        }
    } else {
        if drive(first_step(), outcomes) == RenderNext::Finished {
            let o = outcomes;
            assert(o.len() > 0);
            if o[0] {
                assert(o.len() >= 7);
                assert(o[1] && o[2] && o[3] && o[4] && o[5] && o[6]);
                assert(o.take(7) =~= seq![true, true, true, true, true, true, true]);
            } else {
                assert(o.len() >= 8);
                assert(o[1] && o[2] && o[3] && o[4] && o[5] && o[6] && o[7]);
                assert(o.take(8) =~= seq![false, true, true, true, true, true, true, true]);
            }
        }
    }
}

/// The arguments LaTeX is run with: no interaction, stop at the first error,
/// output into the output directory, then the `.tex` file.
pub open spec fn latex_args_texts(output_dir: Seq<char>, tex_path: Seq<char>) -> Seq<Seq<char>> {
    seq!["-interaction=nonstopmode"@, "-halt-on-error"@, "-output-directory"@, output_dir, tex_path]
}

/// Builds the arguments LaTeX is run with.
pub fn latex_args(output_dir: &str, tex_path: &str) -> (r: Vec<String>)
    ensures
        crate::json::texts(r@) == latex_args_texts(output_dir@, tex_path@),
{
    let mut args: Vec<String> = Vec::new();
    args.push("-interaction=nonstopmode".to_owned());
    args.push("-halt-on-error".to_owned());
    args.push("-output-directory".to_owned());
    args.push(output_dir.to_owned());
    args.push(tex_path.to_owned());
    assert(crate::json::texts(args@) =~= latex_args_texts(output_dir@, tex_path@));
    args
}

/// The name of the `.tex` file of a report.
pub fn tex_file_name(output_name: &str) -> (r: String)
    ensures
        r@ == output_name@ + ".tex"@,
{
    let mut name = output_name.to_owned();
    name.append(".tex");
    name
}

/// The name of the PDF file of a report.
pub fn pdf_file_name(output_name: &str) -> (r: String)
    ensures
        r@ == output_name@ + ".pdf"@,
{
    let mut name = output_name.to_owned();
    name.append(".pdf");
    name
}

} // verus!
