use oxidemd::diagram::{
    diagram_cache_key, diagram_from_render, diagram_svg_uri, prepare_diagram, DiagramSvg,
};
use oxidemd::render_jobs::{RenderJobQueue, RenderKey, RenderState, MAX_ACTIVE_RENDER_JOBS};
use oxidemd::svg::Rgba;

const SOURCE: &str = "graph TD\n  A --> B";
const RENDERED: &str = "<svg viewBox=\"0 0 10 10\"><g /></svg>";

fn colors() -> (Rgba, Rgba) {
    (Rgba::from_rgb(34, 34, 34), Rgba::from_rgb(250, 250, 250))
}

fn diagram_key(source: &str) -> RenderKey {
    let (color, background) = colors();
    diagram_cache_key("mermaid", color, background, source)
}

fn finished_diagram(source: &str) -> Result<DiagramSvg, String> {
    let (color, background) = colors();
    prepare_diagram("mermaid", source, color, background)
}

fn colored_diagram(source: &str) -> Result<DiagramSvg, String> {
    let (color, background) = colors();
    diagram_from_render(source, color, background, Ok(RENDERED.to_owned()))
}

#[test]
fn starts_diagram_rendering_as_pending_work() {
    let mut queue: RenderJobQueue<Result<DiagramSvg, String>> = RenderJobQueue::new();
    let started = queue.request(diagram_key(SOURCE));
    assert_eq!(started.len(), 1);
    assert!(matches!(queue.state(&diagram_key(SOURCE)), Some(RenderState::Pending)));
}

#[test]
fn limits_active_diagram_render_jobs() {
    let mut queue: RenderJobQueue<Result<DiagramSvg, String>> = RenderJobQueue::new();
    queue.request(diagram_key("graph TD\n  C --> D"));
    queue.request(diagram_key("graph TD\n  E --> F"));
    let started = queue.request(diagram_key(SOURCE));
    assert!(started.is_empty());
    assert!(matches!(queue.state(&diagram_key(SOURCE)), Some(RenderState::Pending)));
    assert_eq!(queue.active_job_count(), MAX_ACTIVE_RENDER_JOBS);
    assert_eq!(queue.queued_job_count(), 1);
}

#[test]
fn stores_finished_diagram_result() {
    let mut queue: RenderJobQueue<Result<DiagramSvg, String>> = RenderJobQueue::new();
    let started = queue.request(diagram_key(SOURCE));
    assert!(matches!(queue.state(&diagram_key(SOURCE)), Some(RenderState::Pending)));
    assert!(queue.finish(started[0].generation, diagram_key(SOURCE), finished_diagram(SOURCE)));
    assert!(matches!(
        queue.state(&diagram_key(SOURCE)),
        Some(RenderState::Ready(Ok(_))) | Some(RenderState::Ready(Err(_)))
    ));
}

#[test]
fn rendered_svg_is_colored_and_named_by_colors_and_source() {
    let (color, background) = colors();
    let diagram = colored_diagram(SOURCE).ok().expect("diagram should be prepared");
    assert_eq!(diagram.source, SOURCE);
    assert!(diagram.svg.contains("style=\"color:#222222\""));
    assert_eq!(diagram.uri, diagram_svg_uri(color, background, SOURCE));
    assert!(diagram.uri.starts_with("bytes://diagram-222222ff-fafafaff-"));
    assert!(diagram.uri.ends_with(".svg"));
}

#[test]
fn reuses_finished_diagram_result_from_cache() {
    let mut queue: RenderJobQueue<Result<DiagramSvg, String>> = RenderJobQueue::new();
    let started = queue.request(diagram_key(SOURCE));
    assert!(queue.finish(started[0].generation, diagram_key(SOURCE), colored_diagram(SOURCE)));
    assert!(matches!(queue.state(&diagram_key(SOURCE)), Some(RenderState::Ready(Ok(_)))));
    let again = queue.request(diagram_key(SOURCE));
    assert!(again.is_empty());
    assert_eq!(queue.active_job_count(), 0);
    assert!(matches!(queue.state(&diagram_key(SOURCE)), Some(RenderState::Ready(Ok(_)))));
}

#[test]
fn clears_pending_and_finished_diagram_results() {
    let mut queue: RenderJobQueue<Result<DiagramSvg, String>> = RenderJobQueue::new();
    queue.request(diagram_key(SOURCE));
    queue.clear();
    assert!(queue.state(&diagram_key(SOURCE)).is_none());
    let started = queue.request(diagram_key(SOURCE));
    assert_eq!(started.len(), 1);
    assert!(matches!(queue.state(&diagram_key(SOURCE)), Some(RenderState::Pending)));
}

#[test]
fn ignores_finished_work_from_before_clear() {
    let mut queue: RenderJobQueue<Result<DiagramSvg, String>> = RenderJobQueue::new();
    let started = queue.request(diagram_key(SOURCE));
    queue.clear();
    let accepted = queue.finish(started[0].generation, diagram_key(SOURCE), colored_diagram(SOURCE));
    assert!(!accepted);
    assert!(queue.state(&diagram_key(SOURCE)).is_none());
    assert_eq!(queue.active_job_count(), 0);
}

#[test]
fn rejects_dangling_flowchart_arrow_before_rendering() {
    let (color, background) = colors();
    let prepared = prepare_diagram("mermaid", "flowchart TD\n    Broken -->", color, background);
    match prepared {
        Err(error) => assert!(error.contains("incomplete arrow")),
        Ok(_) => panic!("the diagram should be refused"),
    }
}

#[test]
fn renderer_error_is_passed_on() {
    let (color, background) = colors();
    let failed = diagram_from_render(SOURCE, color, background, Err("parse error".to_owned()));
    assert_eq!(failed.err().as_deref(), Some("parse error"));
}

#[test]
fn renders_common_mermaid_evaluation_diagrams() {
    let (color, background) = colors();
    for (name, source) in mermaid_evaluation_cases() {
        let prepared = prepare_diagram("mermaid", source, color, background);
        assert!(prepared.is_ok(), "{name} should render as SVG");
    }
    let invalid = prepare_diagram("mermaid", "flowchart TD\n    Broken -->", color, background);
    assert!(invalid.is_err());
}

#[test]
fn rendered_flowchart_svg_keeps_text_nodes() {
    let (color, background) = colors();
    let prepared = prepare_diagram(
        "mermaid",
        "flowchart LR\n    Open[Open Markdown] --> Parse[Parse document]",
        color,
        background,
    );
    match prepared {
        Ok(diagram) => {
            assert!(diagram.svg.contains("<text"));
            assert!(diagram.svg.contains("Open Markdown"));
        }
        Err(error) => panic!("the flowchart should render: {error}"),
    }
}

#[test]
fn rendered_svg_uses_requested_theme_colors() {
    let prepared = prepare_diagram(
        "mermaid",
        "flowchart LR\n    A --> B",
        Rgba::from_rgb(224, 232, 242),
        Rgba::from_rgb(29, 39, 52),
    );
    match prepared {
        Ok(diagram) => {
            assert!(diagram.svg.contains("#e0e8f2"));
            assert!(diagram.svg.contains("#1d2734"));
        }
        Err(error) => panic!("the flowchart should render: {error}"),
    }
}

fn mermaid_evaluation_cases() -> [(&'static str, &'static str); 5] {
    [
        (
            "flowchart",
            "flowchart TD\n    Open[Open Markdown] --> Parse[Parse document]\n    Parse --> Render[Render Mermaid SVG]\n    Render --> Cache{Cache hit?}\n    Cache -->|Yes| Show[Show cached SVG]\n    Cache -->|No| Worker[Background worker]\n    Worker --> Rendered[Show rendered SVG]",
        ),
        (
            "sequence",
            "sequenceDiagram\n    participant User\n    participant OxideMD\n    participant Worker\n    User->>OxideMD: Open document\n    OxideMD->>Worker: Queue diagram render\n    Worker-->>OxideMD: SVG result\n    OxideMD-->>User: Repaint diagram",
        ),
        (
            "class",
            "classDiagram\n    class DiagramRenderCache {\n        +prepare()\n        +clear()\n    }\n    class DiagramWorkerResult {\n        +source\n        +result\n    }\n    DiagramRenderCache --> DiagramWorkerResult",
        ),
        (
            "state",
            "stateDiagram-v2\n    [*] --> Pending\n    Pending --> Ready: done\n    Pending --> Failed: fail\n    Ready --> [*]\n    Failed --> [*]",
        ),
        (
            "larger-flowchart",
            "flowchart TD\n    N01[Node 01] --> N02[Node 02]\n    N02 --> N03[Node 03]\n    N03 --> N04[Node 04]\n    N04 --> N05[Node 05]\n    N05 --> N06[Node 06]\n    N06 --> N07[Node 07]\n    N07 --> N08[Node 08]\n    N08 --> N09[Node 09]\n    N09 --> N10[Node 10]\n    N10 --> N11[Node 11]\n    N11 --> N12[Node 12]\n    N12 --> N13[Node 13]\n    N13 --> N14[Node 14]\n    N14 --> N15[Node 15]\n    N15 --> N16[Node 16]\n    N16 --> N17[Node 17]\n    N17 --> N18[Node 18]\n    N18 --> N19[Node 19]\n    N19 --> N20[Node 20]",
        ),
    ]
}

#[test]
fn unreadable_svg_is_refused() {
    let (color, background) = colors();
    let refused = diagram_from_render(SOURCE, color, background, Ok("not an svg".to_owned()));
    assert!(refused.is_err());
    let math = oxidemd::math::prepare_colored_math(
        "x",
        oxidemd::math::MathRenderMode::Inline,
        100,
        &oxidemd::math::RawMathResult::Svg(oxidemd::math::RawMathSvg {
            source: "<svg><unclosed".to_owned(),
            display: false,
            font_size_bucket: 160,
        }),
        color,
    );
    assert!(math.is_err());
}

#[test]
fn theme_colors_put_fills_in_background_and_lines_in_text_color() {
    let colors = oxidemd::diagram::mermaid_theme_colors(Rgba::from_rgb(224, 232, 242), Rgba::from_rgb(29, 39, 52));
    assert_eq!(colors.background, "#1d2734");
    assert_eq!(colors.sequence_activation_fill, "#1d2734");
    assert_eq!(colors.text_color, "#e0e8f2");
    assert_eq!(colors.pie_outer_stroke_color, "#e0e8f2");
}
