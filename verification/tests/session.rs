use rsl::GenSession;
use rsl::SessionStep;
use rsl::ToolOutcome;

#[test]
fn exhaustion_after_exactly_sixty_invocations() {
    let mut session = GenSession::new();
    let mut invocations: u64 = 0;
    loop {
        match session.next_step() {
            SessionStep::Resolve | SessionStep::Run => {
                session.record(ToolOutcome::Failure);
                invocations += 1;
            },
            SessionStep::GiveUp => break,
            SessionStep::Done => panic!("no invocation succeeded"),
        }
    }
    assert_eq!(invocations, 60);
    assert_eq!(rsl::generate::TOTAL_TRIES, 60);
    assert_eq!(
        (rsl::NUM_RANDO_RANDO_TRIES as u64) * (rsl::NUM_TRIES_PER_SETTINGS as u64),
        60,
    );
}

#[test]
fn success_on_kth_invocation_stops_after_k() {
    for k in [1u64, 2, 3, 4, 5, 59, 60] {
        let mut session = GenSession::new();
        let mut invocations: u64 = 0;
        loop {
            match session.next_step() {
                SessionStep::Resolve | SessionStep::Run => {
                    invocations += 1;
                    if invocations == k {
                        session.record(ToolOutcome::Success);
                    } else {
                        session.record(ToolOutcome::Failure);
                    }
                },
                SessionStep::Done => break,
                SessionStep::GiveUp => panic!("gave up before the success"),
            }
        }
        assert_eq!(invocations, k);
        assert_eq!(session.next_step(), SessionStep::Done);
    }
}

#[test]
fn fresh_draw_every_third_invocation() {
    let mut session = GenSession::new();
    for i in 0..60u64 {
        let step = session.next_step();
        if i % 3 == 0 {
            assert_eq!(step, SessionStep::Resolve);
        } else {
            assert_eq!(step, SessionStep::Run);
        }
        session.record(ToolOutcome::Failure);
    }
    assert_eq!(session.next_step(), SessionStep::GiveUp);
}
