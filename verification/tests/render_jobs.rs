use oxidemd::diagram::diagram_cache_key;
use oxidemd::math::{colored_math_cache_key, math_cache_key, MathRenderMode};
use oxidemd::render_jobs::{RenderJobQueue, RenderKey, RenderState, MAX_ACTIVE_RENDER_JOBS};
use oxidemd::renderer::image_cache_key;
use oxidemd::svg::Rgba;

fn key(text: &str) -> RenderKey {
    math_cache_key(MathRenderMode::Inline, 100, text)
}

#[test]
fn limits_active_render_jobs_and_queues_the_rest() {
    let mut queue: RenderJobQueue<String> = RenderJobQueue::new();
    assert_eq!(queue.request(key("a")).len(), 1);
    assert_eq!(queue.request(key("b")).len(), 1);
    assert_eq!(queue.request(key("c")).len(), 0);
    assert_eq!(queue.active_job_count(), MAX_ACTIVE_RENDER_JOBS);
    assert_eq!(queue.queued_job_count(), 1);
    assert!(matches!(queue.state(&key("c")), Some(RenderState::Pending)));
    assert!(queue.state(&key("d")).is_none());
}

#[test]
fn finished_job_frees_a_slot_and_keeps_its_result() {
    let mut queue: RenderJobQueue<String> = RenderJobQueue::new();
    let started = queue.request(key("a"));
    queue.request(key("b"));
    queue.request(key("c"));
    let generation = started[0].generation;
    assert!(queue.finish(generation, key("a"), "svg-a".to_owned()));
    assert_eq!(queue.active_job_count(), 1);
    match queue.state(&key("a")) {
        Some(RenderState::Ready(result)) => assert_eq!(result, "svg-a"),
        _ => panic!("result should be ready"),
    }
    let next = queue.start_queued_jobs();
    assert_eq!(next.len(), 1);
    assert_eq!(next[0].key.parts[2], "c");
    assert_eq!(queue.queued_job_count(), 0);
}

#[test]
fn repeated_request_starts_no_second_render() {
    let mut queue: RenderJobQueue<String> = RenderJobQueue::new();
    assert_eq!(queue.request(key("a")).len(), 1);
    assert_eq!(queue.request(key("a")).len(), 0);
    assert_eq!(queue.active_job_count(), 1);
    assert_eq!(queue.queued_job_count(), 0);
}

#[test]
fn cache_keys_tell_renders_apart() {
    let inline = math_cache_key(MathRenderMode::Inline, 100, "x^2");
    assert_eq!(inline.parts, vec!["inline".to_owned(), "100".to_owned(), "x^2".to_owned()]);
    let block = math_cache_key(MathRenderMode::Block, 125, "x^2");
    assert_eq!(block.parts[0], "block");
    assert_eq!(block.parts[1], "125");
    let colored = colored_math_cache_key(MathRenderMode::Inline, 100, Rgba::from_rgb(1, 2, 3), "x");
    assert_eq!(colored.parts[2], "010203ff");
    let image = image_cache_key("/img/a.png");
    assert_eq!(image.parts, vec!["/img/a.png".to_owned()]);
    let diagram = diagram_cache_key("mermaid", Rgba::from_rgb(0, 0, 0), Rgba::from_rgb(255, 255, 255), "graph TD");
    assert_eq!(diagram.parts.len(), 4);
    assert_eq!(diagram.parts[2], "ffffffff");
}

#[test]
fn stale_finish_after_clear_is_refused() {
    let mut queue: RenderJobQueue<String> = RenderJobQueue::new();
    let started = queue.request(key("a"));
    queue.clear();
    assert_eq!(queue.generation(), 1);
    assert_eq!(queue.active_job_count(), 0);
    assert!(!queue.finish(started[0].generation, key("a"), "stale".to_owned()));
    assert!(queue.state(&key("a")).is_none());
}
