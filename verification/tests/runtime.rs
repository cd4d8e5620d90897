use phi::events::EventState;
use phi::geom::Rectangle;
use phi::render::{Color, DrawCmd, Frame};
use phi::runtime::{FrameDirective, FrameTiming, Pace, Phi, Runtime, View, ViewAction};

fn context() -> Phi {
    Phi::new(EventState::new(&vec![], &vec![]), Frame::new(800, 600))
}

/// One processed frame, as the embedding loop runs it: poll once, step the
/// active view once with this frame's edges, then act on its answer.
fn run_frame(rt: &mut Runtime<TestView>, ctx: &mut Phi, elapsed_ms: u64) -> FrameDirective {
    ctx.events.poll(&vec![]);
    let action = rt.view.render(ctx, elapsed_ms);
    rt.act(action)
}

#[test]
fn pacing_sleeps_out_short_intervals() {
    let mut t = FrameTiming::new(100);
    // 10 ms after the last frame: sleep the remaining 6 of the 16 ms target.
    match t.tick(110) {
        Pace::Wait { ms } => assert_eq!(ms, 6),
        Pace::Run { .. } => panic!("frame ran inside the target interval"),
    }
    // A skipped frame does no work and keeps the previous frame start.
    match t.tick(116) {
        Pace::Run { elapsed_ms, fps_report } => {
            assert_eq!(elapsed_ms, 16);
            assert_eq!(fps_report, None);
        }
        Pace::Wait { .. } => panic!("frame due after a full interval"),
    }
}

#[test]
fn fps_reports_once_a_second() {
    let mut t = FrameTiming::new(0);
    let mut reports = Vec::new();
    let mut now = 0;
    for _ in 0..70 {
        now += 16;
        match t.tick(now) {
            Pace::Run { fps_report, .. } => {
                if let Some(f) = fps_report {
                    reports.push((now, f));
                }
            }
            Pace::Wait { .. } => panic!("ticks are a full interval apart"),
        }
    }
    // 70 frames at 16 ms pass the one-second mark once, on the first frame
    // past 1000 ms, having counted every frame so far.
    assert_eq!(reports, vec![(1008, 63)]);
}

#[derive(Debug, PartialEq)]
enum TestView {
    Splash { steps: u32 },
    Game { steps: u32 },
}

impl View for TestView {
    fn render(&mut self, context: &mut Phi, _elapsed_ms: u64) -> ViewAction<TestView> {
        match self {
            TestView::Splash { steps } => {
                *steps += 1;
                context.frame.clear(Color { r: 1, g: 1, b: 1 });
                ViewAction::ChangeView(TestView::Game { steps: 0 })
            }
            TestView::Game { steps } => {
                *steps += 1;
                context.frame.clear(Color { r: 2, g: 2, b: 2 });
                if *steps == 2 {
                    ViewAction::Quit
                } else {
                    ViewAction::Continue
                }
            }
        }
    }
}

#[test]
fn replacement_view_receives_the_next_step() {
    let mut ctx = context();
    let mut rt = Runtime::new(TestView::Splash { steps: 0 }, 0);

    // The splash view asks for a replacement: nothing is presented and the
    // new view is installed before `act` returns.
    let d = run_frame(&mut rt, &mut ctx, 16);
    assert_eq!(d, FrameDirective::Proceed);
    assert_eq!(rt.view, TestView::Game { steps: 0 });
    assert_eq!(ctx.frame.take_cmds(), vec![DrawCmd::Clear { color: Color { r: 1, g: 1, b: 1 } }]);

    // The very next step goes to the new view, never back to the old one.
    let d = run_frame(&mut rt, &mut ctx, 16);
    assert_eq!(d, FrameDirective::Present);
    assert_eq!(rt.view, TestView::Game { steps: 1 });
    assert_eq!(ctx.frame.take_cmds(), vec![DrawCmd::Clear { color: Color { r: 2, g: 2, b: 2 } }]);

    // The replaced view's own step count never advanced again.
    let d = run_frame(&mut rt, &mut ctx, 16);
    assert_eq!(d, FrameDirective::Quit);
    assert_eq!(rt.view, TestView::Game { steps: 2 });
}

#[test]
fn runtime_paces_like_its_timing() {
    let mut rt = Runtime::new(TestView::Game { steps: 0 }, 1000);
    match rt.pace(1010) {
        Pace::Wait { ms } => assert_eq!(ms, 6),
        Pace::Run { .. } => panic!("frame ran inside the target interval"),
    }
    match rt.pace(1050) {
        Pace::Run { elapsed_ms, fps_report } => {
            assert_eq!(elapsed_ms, 50);
            assert_eq!(fps_report, None);
        }
        Pace::Wait { .. } => panic!("frame due after a full interval"),
    }
    assert_eq!(rt.timing.before, 1050);
}

#[test]
fn context_reports_output_size() {
    let ctx = context();
    assert_eq!(ctx.output_size(), (800, 600));
}

#[test]
fn font_cache_finds_only_what_was_inserted() {
    let mut ctx = context();
    let path = b"assets/belligerent.ttf".to_vec();
    assert_eq!(ctx.fonts.get(&path, 32), None);
    ctx.fonts.insert(path.clone(), 32, 7);
    ctx.fonts.insert(path.clone(), 38, 8);
    assert_eq!(ctx.fonts.get(&path, 32), Some(7));
    assert_eq!(ctx.fonts.get(&path, 38), Some(8));
    assert_eq!(ctx.fonts.get(&path, 16), None);
    assert_eq!(ctx.fonts.get(&b"assets/other.ttf".to_vec(), 32), None);
}
