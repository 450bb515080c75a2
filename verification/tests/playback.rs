use messenger::playback::{FrameRoute, HandOver, PlaybackSources, SourceState};

#[test]
fn new_ssrc_requests_one_source_then_delivers() {
    let mut p = PlaybackSources::new();
    assert_eq!(p.state(7), None);
    let r = p.route(7, HandOver::Pending);
    assert_eq!(r, FrameRoute::RequestSource);
    assert!(!r.keeps_receiving());
    assert_eq!(p.state(7), Some(SourceState::Initializing));
    // Pending hand-over: frames are dropped, no second request.
    assert_eq!(p.route(7, HandOver::Pending), FrameRoute::Discard);
    assert!(FrameRoute::Discard.keeps_receiving());
    assert_eq!(p.state(7), Some(SourceState::Initializing));
    // Hand-over arrives: this frame and the following ones are delivered.
    assert_eq!(p.route(7, HandOver::Ready), FrameRoute::Deliver);
    assert_eq!(p.state(7), Some(SourceState::Connected));
    assert_eq!(p.route(7, HandOver::Dropped), FrameRoute::Deliver);
    assert_eq!(p.state(7), Some(SourceState::Connected));
    // Another SSRC is independent.
    assert_eq!(p.route(8, HandOver::Ready), FrameRoute::RequestSource);
    assert_eq!(p.state(7), Some(SourceState::Connected));
}

#[test]
fn dropped_hand_over_is_requested_again() {
    let mut p = PlaybackSources::new();
    assert_eq!(p.route(3, HandOver::Ready), FrameRoute::RequestSource);
    assert_eq!(p.route(3, HandOver::Dropped), FrameRoute::Discard);
    assert_eq!(p.state(3), None);
    assert_eq!(p.route(3, HandOver::Ready), FrameRoute::RequestSource);
}
