use day_uikit::idle::{Settle, SETTLE_MS};
use day_uikit::modal::{
    cover_completion_lost, topmost_vc, CoverStart, Modal, ModalAct, ModalOp, Presented, Sight,
    Sighted, COVER_FALLBACK_MS, COVER_RETRIES, DISMISS_RETRIES, RETRY_MS, WATCHDOG_MS,
};

const TOP: usize = 100;

fn calm() -> Sight {
    Sight { topmost: Some(Sighted { vc: TOP, animating: false }), presenter: None }
}

fn moving() -> Sight {
    Sight { topmost: Some(Sighted { vc: TOP, animating: true }), presenter: None }
}

fn presented_by(vc: usize) -> Sight {
    Sight {
        topmost: Some(Sighted { vc: TOP, animating: false }),
        presenter: Some(Sighted { vc, animating: false }),
    }
}

fn nothing() -> Sight {
    Sight { topmost: None, presenter: None }
}

#[test]
fn timings() {
    assert_eq!((WATCHDOG_MS, RETRY_MS, COVER_FALLBACK_MS), (2000, 50, 1500));
    assert_eq!((DISMISS_RETRIES, COVER_RETRIES), (100, 40));
}

#[test]
fn a_dialog_is_presented_and_dismissed() {
    let mut m = Modal::new();
    assert!(m.is_idle());
    assert_eq!(m.pump(calm()), ModalAct::Idle);
    m.present_alert(7, 70);
    assert!(!m.is_idle());
    assert_eq!(m.controller_of(7), Some(70));
    assert_eq!(m.pump(calm()), ModalAct::Present { on: TOP, vc: 70, watchdog: 1 });
    m.end_transition();
    m.dismiss(7);
    assert_eq!(m.subject(), Some(70));
    assert_eq!(m.pump(presented_by(TOP)), ModalAct::Dismiss { from: TOP, watchdog: 3 });
    assert_eq!(m.controller_of(7), None);
    m.end_transition();
    assert!(m.is_idle());
}

#[test]
fn transitions_never_overlap() {
    let mut m = Modal::new();
    m.present_alert(1, 10);
    m.present_alert(2, 20);
    assert!(matches!(m.pump(calm()), ModalAct::Present { vc: 10, .. }));
    assert_eq!(m.pump(calm()), ModalAct::Idle);
    m.end_transition();
    assert!(matches!(m.pump(calm()), ModalAct::Present { vc: 20, .. }));
}

#[test]
fn a_lost_completion_does_not_jam_the_queue() {
    let mut m = Modal::new();
    m.present_alert(1, 10);
    m.enqueue(ModalOp::Run(5));
    let ModalAct::Present { watchdog, .. } = m.pump(calm()) else {
        panic!("not presented");
    };
    assert!(!m.watchdog(watchdog + 1));
    assert_eq!(m.pump(calm()), ModalAct::Idle);
    assert!(m.watchdog(watchdog));
    assert_eq!(m.pump(calm()), ModalAct::Run { token: 5 });
}

#[test]
fn a_completed_transition_disarms_its_watchdog() {
    let mut m = Modal::new();
    m.present_alert(1, 10);
    let ModalAct::Present { watchdog, .. } = m.pump(calm()) else {
        panic!("not presented");
    };
    m.end_transition();
    m.present_alert(2, 20);
    assert!(matches!(m.pump(calm()), ModalAct::Present { vc: 20, .. }));
    assert!(!m.watchdog(watchdog));
    assert_eq!(m.pump(calm()), ModalAct::Idle);
}

#[test]
fn a_presentation_waits_out_a_transition() {
    let mut m = Modal::new();
    m.present_alert(1, 10);
    for _ in 0..300 {
        assert_eq!(m.pump(moving()), ModalAct::Retry);
        assert_eq!(m.pump(calm()), ModalAct::Idle);
        m.retry();
    }
    assert!(matches!(m.pump(calm()), ModalAct::Present { vc: 10, .. }));
}

#[test]
fn without_a_window_a_dialog_resolves_as_dismissed() {
    let mut m = Modal::new();
    m.present_alert(4, 40);
    let act = m.pump(nothing());
    assert_eq!(act, ModalAct::Resolve { req: 4 });
    assert!(act.again());
    assert_eq!(m.controller_of(4), None);
}

#[test]
fn a_dialog_dismissed_before_it_is_shown_is_never_shown() {
    let mut m = Modal::new();
    m.enqueue(ModalOp::Dismiss(1, 0));
    m.present_alert(1, 10);
    m.enqueue(ModalOp::Run(9));
    assert_eq!(m.pump(calm()), ModalAct::Dropped);
    assert_eq!(m.pump(calm()), ModalAct::Run { token: 9 });
    assert!(m.is_idle());
}

#[test]
fn a_dismissal_of_nothing_is_dropped() {
    let mut m = Modal::new();
    m.dismiss(99);
    assert_eq!(m.pump(calm()), ModalAct::Dropped);
    assert!(m.is_idle());
}

#[test]
fn dismissal_retries_are_bounded() {
    let mut m = Modal::new();
    m.present_doc_picker(3, 30);
    assert!(matches!(m.pump(calm()), ModalAct::Present { vc: 30, .. }));
    m.end_transition();
    m.dismiss(3);
    for _ in 0..DISMISS_RETRIES {
        assert_eq!(m.pump(calm()), ModalAct::Retry);
        m.retry();
    }
    assert_eq!(m.pump(calm()), ModalAct::Dropped);
    assert_eq!(m.controller_of(3), None);
}

#[test]
fn cover_retries_are_bounded() {
    let mut m = Modal::new();
    m.cover_present(50);
    for _ in 0..COVER_RETRIES {
        assert_eq!(m.pump(nothing()), ModalAct::Retry);
        m.retry();
    }
    assert_eq!(m.pump(moving()), ModalAct::CoverLost { tries: COVER_RETRIES });
    assert!(m.is_idle());
}

#[test]
fn a_cover_already_up_needs_nothing() {
    let mut m = Modal::new();
    m.cover_present(50);
    assert_eq!(m.pump(presented_by(TOP)), ModalAct::Dropped);
    assert_eq!(m.cover_dismiss(None), CoverStart::Hidden);
    assert_eq!(m.cover_dismiss(Some(TOP)), CoverStart::Begin { from: TOP, watchdog: 1 });
    assert_eq!(m.pump(calm()), ModalAct::Idle);
}

#[test]
fn a_lost_cover_completion_is_noticed() {
    assert!(cover_completion_lost(false, false));
    assert!(!cover_completion_lost(true, false));
    assert!(!cover_completion_lost(false, true));
}

#[test]
fn deferred_work_runs_at_once_when_idle() {
    let mut m = Modal::new();
    assert!(m.after_idle(1));
    assert!(m.is_idle());
    m.present_alert(1, 10);
    assert!(!m.after_idle(2));
    assert!(matches!(m.pump(calm()), ModalAct::Present { .. }));
    m.end_transition();
    assert_eq!(m.pump(calm()), ModalAct::Run { token: 2 });
}

#[test]
fn the_queue_is_first_in_first_out() {
    let mut m = Modal::new();
    for t in 0..5 {
        m.enqueue(ModalOp::Run(t));
    }
    for t in 0..5 {
        assert_eq!(m.pump(calm()), ModalAct::Run { token: t });
    }
}

#[test]
fn a_generation_wraps() {
    let mut m = Modal::new();
    m.generation = u64::MAX;
    assert_eq!(m.begin_transition(), 0);
}

#[test]
fn the_topmost_controller_stops_short_of_a_dismissal() {
    let chain = vec![
        Presented { vc: 2, being_dismissed: false },
        Presented { vc: 3, being_dismissed: true },
        Presented { vc: 4, being_dismissed: false },
    ];
    assert_eq!(topmost_vc(Some(1), &chain), Some(2));
    assert_eq!(topmost_vc(Some(1), &Vec::new()), Some(1));
    assert_eq!(topmost_vc(None, &chain), None);
}

#[test]
fn idle_settles_after_a_margin() {
    let mut modal = Modal::new();
    let mut s = Settle::new();
    assert!(s.ui_idle(&modal, false, false, 0));
    assert!(!s.ui_idle(&modal, true, false, 1000));
    assert!(!s.ui_idle(&modal, false, false, 1000 + SETTLE_MS));
    assert!(s.ui_idle(&modal, false, false, 1001 + SETTLE_MS));
    s.note_transition(5000);
    assert!(!s.ui_idle(&modal, false, false, 5100));
    assert!(s.ui_idle(&modal, false, false, 5251));
    modal.enqueue(ModalOp::Run(1));
    assert!(!s.ui_idle(&modal, false, false, 9000));
    assert!(!s.ui_idle(&modal, false, true, 9900));
}
