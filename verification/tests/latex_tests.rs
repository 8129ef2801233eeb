use latex_telegram_bot::latex::{
    latex_args, pdf_file_name, render_next, tex_file_name, RenderFailure, RenderNext, RenderStep,
};

fn drive(outcomes: &[bool]) -> (RenderNext, Vec<RenderStep>) {
    let mut step = RenderStep::CheckTemplateDir;
    let mut steps = vec![step];
    for ok in outcomes.iter() {
        match render_next(step, *ok) {
            RenderNext::Continue(next) => {
                step = next;
                steps.push(step);
            }
            other => return (other, steps),
        }
    }
    (RenderNext::Continue(step), steps)
}

#[test]
fn render_with_existing_templates() {
    let (end, steps) = drive(&[true, true, true, true, true, true, true]);
    assert_eq!(end, RenderNext::Finished);
    assert_eq!(
        steps,
        vec![
            RenderStep::CheckTemplateDir,
            RenderStep::LoadTemplates,
            RenderStep::FillTemplate,
            RenderStep::WriteTex,
            RenderStep::RunLatex(1),
            RenderStep::RunLatex(2),
            RenderStep::CheckPdf,
        ]
    );
}

#[test]
fn render_creates_default_template() {
    let (end, steps) = drive(&[false, true, true, true, true, true, true, true]);
    assert_eq!(end, RenderNext::Finished);
    assert_eq!(steps[1], RenderStep::CreateDefaultTemplate);
}

#[test]
fn render_failures() {
    assert_eq!(drive(&[false, false]).0, RenderNext::Failed(RenderFailure::TemplateCreation));
    assert_eq!(drive(&[true, false]).0, RenderNext::Failed(RenderFailure::TemplateLoad));
    assert_eq!(drive(&[true, true, false]).0, RenderNext::Failed(RenderFailure::TemplateFill));
    assert_eq!(drive(&[true, true, true, false]).0, RenderNext::Failed(RenderFailure::TexWrite));
    assert_eq!(drive(&[true, true, true, true, false]).0, RenderNext::Failed(RenderFailure::Latex));
    assert_eq!(drive(&[true, true, true, true, true, false]).0, RenderNext::Failed(RenderFailure::Latex));
    assert_eq!(drive(&[true, true, true, true, true, true, false]).0, RenderNext::Failed(RenderFailure::PdfMissing));
}

#[test]
fn render_never_finishes_before_second_pass() {
    for len in 0..7 {
        let outcomes = vec![true; len];
        assert!(drive(&outcomes).0 != RenderNext::Finished);
    }
}

#[test]
fn latex_invocation() {
    assert_eq!(
        latex_args("output", "output/report.tex"),
        vec![
            "-interaction=nonstopmode".to_string(),
            "-halt-on-error".to_string(),
            "-output-directory".to_string(),
            "output".to_string(),
            "output/report.tex".to_string(),
        ]
    );
    assert_eq!(tex_file_name("report"), "report.tex");
    assert_eq!(pdf_file_name("report"), "report.pdf");
}
