use phi::views::{
    axis_delta, frame_index, menu_decide, menu_step, ship_frame, wants_quit, MenuDecision,
    ShipFrame,
};

#[test]
fn quitting_takes_a_close_signal_or_a_fresh_escape() {
    assert!(wants_quit(true, None));
    assert!(wants_quit(false, Some(true)));
    assert!(wants_quit(true, Some(false)));
    // A held or just-released escape does not quit.
    assert!(!wants_quit(false, None));
    assert!(!wants_quit(false, Some(false)));
}

#[test]
fn menu_decisions_follow_priority() {
    // Leaving wins over everything else.
    assert_eq!(menu_decide(true, None, Some(true), None, Some(true), 0, 2), MenuDecision::Quit);
    assert_eq!(menu_decide(false, Some(true), Some(true), None, None, 1, 2), MenuDecision::Quit);
    // A confirm edge activates the entry selected when the frame began.
    assert_eq!(
        menu_decide(false, None, Some(true), None, Some(true), 1, 2),
        MenuDecision::Activate { entry: 1 }
    );
    // Otherwise the edges move the selection.
    assert_eq!(
        menu_decide(false, Some(false), None, None, Some(true), 1, 2),
        MenuDecision::Navigate { selected: 0 }
    );
    assert_eq!(
        menu_decide(false, None, Some(false), Some(true), None, 0, 3),
        MenuDecision::Navigate { selected: 2 }
    );
    // No input at all keeps the selection.
    assert_eq!(menu_decide(false, None, None, None, None, 2, 3), MenuDecision::Navigate {
        selected: 2,
    });
}

#[test]
fn menu_selection_wraps_both_ways() {
    // Down moves to the next entry and wraps to the top.
    assert_eq!(menu_step(0, 2, false, true), 1);
    assert_eq!(menu_step(1, 2, false, true), 0);
    // Up moves to the previous entry and wraps to the bottom.
    assert_eq!(menu_step(1, 2, true, false), 0);
    assert_eq!(menu_step(0, 2, true, false), 1);
    // Down wins when both are pressed; nothing pressed stays put.
    assert_eq!(menu_step(0, 3, true, true), 1);
    assert_eq!(menu_step(2, 3, false, false), 2);
    // A one-entry menu always stays at its only entry.
    assert_eq!(menu_step(0, 1, false, true), 0);
    assert_eq!(menu_step(0, 1, true, false), 0);
}

#[test]
fn every_movement_sign_has_a_stance() {
    assert_eq!(ship_frame(0, -3), ShipFrame::UpNorm);
    assert_eq!(ship_frame(3, -3), ShipFrame::UpFast);
    assert_eq!(ship_frame(-3, -3), ShipFrame::UpSlow);
    assert_eq!(ship_frame(0, 0), ShipFrame::MidNorm);
    assert_eq!(ship_frame(3, 0), ShipFrame::MidFast);
    assert_eq!(ship_frame(-3, 0), ShipFrame::MidSlow);
    assert_eq!(ship_frame(0, 3), ShipFrame::DownNorm);
    assert_eq!(ship_frame(3, 3), ShipFrame::DownFast);
    assert_eq!(ship_frame(-3, 3), ShipFrame::DownSlow);
}

#[test]
fn stance_indices_cover_the_sheet() {
    let frames = [
        ShipFrame::UpNorm,
        ShipFrame::UpFast,
        ShipFrame::UpSlow,
        ShipFrame::MidNorm,
        ShipFrame::MidFast,
        ShipFrame::MidSlow,
        ShipFrame::DownNorm,
        ShipFrame::DownFast,
        ShipFrame::DownSlow,
    ];
    for (expected, f) in frames.iter().enumerate() {
        assert_eq!(frame_index(*f), expected);
    }
}

#[test]
fn opposite_keys_cancel_movement() {
    assert_eq!(axis_delta(true, false, 5), -5);
    assert_eq!(axis_delta(false, true, 5), 5);
    assert_eq!(axis_delta(true, true, 5), 0);
    assert_eq!(axis_delta(false, false, 5), 0);
}
