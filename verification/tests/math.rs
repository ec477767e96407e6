use oxidemd::math::{
    math_cache_key, math_render_expression, prepare_colored_math, prepare_math, MathRenderMode,
    RawMathResult, RawMathSvg,
};
use oxidemd::render_jobs::{RenderJobQueue, RenderState, MAX_ACTIVE_RENDER_JOBS};
use oxidemd::svg::Rgba;

fn x_squared_key() -> oxidemd::render_jobs::RenderKey {
    math_cache_key(MathRenderMode::Inline, 100, "x^2")
}

const RAW_SVG: &str = "<svg viewBox=\"0 0 12 8\"><g /></svg>";

fn rendered(expression: &str, mode: MathRenderMode) -> RawMathResult {
    let options = mathjax_svg_rs::Options { font_size: 16.0, ..Default::default() };
    prepare_math(expression, mode, &options, 160)
}

#[test]
fn reuses_prepared_math_by_key() {
    let mut queue: RenderJobQueue<RawMathResult> = RenderJobQueue::new();
    let started = queue.request(x_squared_key());
    assert!(matches!(queue.state(&x_squared_key()), Some(RenderState::Pending)));
    assert!(queue.finish(started[0].generation, x_squared_key(), rendered("x^2", MathRenderMode::Inline)));
    assert!(queue.request(x_squared_key()).is_empty());
    let color = Rgba::from_rgb(34, 34, 34);
    let raw = match queue.state(&x_squared_key()) {
        Some(RenderState::Ready(raw)) => raw,
        _ => panic!("the formula should be ready"),
    };
    let first = prepare_colored_math("x^2", MathRenderMode::Inline, 100, raw, color).ok().expect("first");
    let second = prepare_colored_math("x^2", MathRenderMode::Inline, 100, raw, color).ok().expect("second");
    assert_eq!(first.uri, second.uri);
    assert_eq!(first.svg, second.svg);
    assert_eq!(first.source, "x^2");
    assert_eq!(second.source, "x^2");
}

#[test]
fn generated_svg_uri_does_not_embed_tex_source() {
    let options = mathjax_svg_rs::Options { font_size: 16.0, ..Default::default() };
    let raw = prepare_math("\\frac{1}{x+y}", MathRenderMode::Inline, &options, 160);
    let prepared = prepare_colored_math(
        "\\frac{1}{x+y}",
        MathRenderMode::Inline,
        100,
        &raw,
        Rgba::from_rgb(34, 34, 34),
    )
    .ok()
    .expect("formula should be prepared");
    assert!(!prepared.uri.contains("\\frac"));
    assert!(!prepared.uri.contains('{'));
    assert!(prepared.uri.starts_with("bytes://math-222222ff-100-inline-display-160-"));
    assert_eq!(prepared.source, "\\frac{1}{x+y}");
    assert!(prepared.svg.contains("<svg"));
    assert!(prepared.svg.contains("color:#222222"));
}

#[test]
fn color_is_part_of_prepared_math_uri() {
    let raw = rendered("x^2", MathRenderMode::Inline);
    let dark = prepare_colored_math("x^2", MathRenderMode::Inline, 100, &raw, Rgba::from_rgb(224, 232, 242))
        .ok()
        .expect("dark");
    let mist = prepare_colored_math("x^2", MathRenderMode::Inline, 100, &raw, Rgba::from_rgb(28, 40, 46))
        .ok()
        .expect("mist");
    assert_ne!(dark.uri, mist.uri);
}

#[test]
fn reuses_raw_math_when_color_changes() {
    let mut queue: RenderJobQueue<RawMathResult> = RenderJobQueue::new();
    let started = queue.request(x_squared_key());
    assert!(queue.finish(started[0].generation, x_squared_key(), rendered("x^2", MathRenderMode::Inline)));
    let raw = match queue.state(&x_squared_key()) {
        Some(RenderState::Ready(raw)) => raw,
        _ => panic!("the formula should be ready"),
    };
    let first = prepare_colored_math("x^2", MathRenderMode::Inline, 100, raw, Rgba::from_rgb(34, 34, 34))
        .ok()
        .expect("first");
    let second = prepare_colored_math("x^2", MathRenderMode::Inline, 100, raw, Rgba::from_rgb(224, 232, 242))
        .ok()
        .expect("second");
    assert!(queue.request(x_squared_key()).is_empty());
    assert_eq!(first.svg.len(), second.svg.len());
    assert_ne!(first.uri, second.uri);
}

#[test]
fn limits_active_math_render_jobs() {
    let mut queue: RenderJobQueue<RawMathResult> = RenderJobQueue::new();
    queue.request(math_cache_key(MathRenderMode::Inline, 100, "a"));
    queue.request(math_cache_key(MathRenderMode::Inline, 100, "b"));
    let started = queue.request(x_squared_key());
    assert!(started.is_empty());
    assert!(matches!(queue.state(&x_squared_key()), Some(RenderState::Pending)));
    assert_eq!(queue.active_job_count(), MAX_ACTIVE_RENDER_JOBS);
    assert_eq!(queue.queued_job_count(), 1);
}

#[test]
fn renderer_message_is_kept_for_failed_formula() {
    let failed = prepare_colored_math(
        "x",
        MathRenderMode::Block,
        100,
        &RawMathResult::Error("bad TeX".to_owned()),
        Rgba::from_rgb(34, 34, 34),
    );
    assert_eq!(failed.err().as_deref(), Some("bad TeX"));
}

#[test]
fn colored_math_from_given_svg_is_named_by_its_settings() {
    let (tex, display) = math_render_expression("\\tfrac{a}{b}", MathRenderMode::Inline);
    assert!(display);
    assert_eq!(tex, "\\displaystyle \\tfrac{a}{b}");
    let raw = RawMathResult::Svg(RawMathSvg { source: RAW_SVG.to_owned(), display, font_size_bucket: 176 });
    let prepared = prepare_colored_math("\\tfrac{a}{b}", MathRenderMode::Inline, 110, &raw, Rgba::from_rgb(1, 2, 3))
        .ok()
        .expect("formula should be prepared");
    assert!(prepared.uri.starts_with("bytes://math-010203ff-110-inline-display-176-"));
    assert_eq!(prepared.svg, "<svg viewBox=\"0 0 12 8\" style=\"color:#010203\"><g /></svg>");
}
