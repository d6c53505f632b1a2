use phantom::endpoint::HttpProtocol;
use phantom::error::RequestErrorKind;
use phantom::time::{Duration, Instant};
use phantom::timeout::{
    Delay, PhasePoll, RequestTimeouts, TimeoutBudget, TimeoutPhase,
};

type TestResult = Result<(), Box<dyn std::error::Error>>;

const ZERO: Duration = Duration { nanos: 0 };

fn start() -> Instant {
    Instant {
        nanos: 1_000_000_000_000,
    }
}

fn after(now: Instant, seconds: u64) -> Instant {
    Instant {
        nanos: now.nanos + Duration::from_secs(seconds).nanos,
    }
}

fn budget(timeouts: RequestTimeouts) -> Result<TimeoutBudget, Box<dyn std::error::Error>> {
    TimeoutBudget::new(timeouts, start()).map_err(|error| format!("{error:?}").into())
}

#[test]
fn ready_operation_wins_when_deadline_is_also_ready() -> TestResult {
    let budget = budget(RequestTimeouts::new().total(ZERO))?;

    let phase = budget
        .phase(TimeoutPhase::ResponseHead, None, start())
        .map_err(|_| "no phase")?;

    assert!(matches!(phase.poll(true, start()), PhasePoll::Complete));
    Ok(())
}

#[test]
fn remaining_total_counts_down_to_zero() -> TestResult {
    let now = start();
    let unlimited = budget(RequestTimeouts::new())?;
    assert_eq!(unlimited.remaining_total(now), None);
    let budget = budget(RequestTimeouts::new().total(Duration::from_secs(5)))?;
    assert_eq!(budget.remaining_total(now), Some(Duration::from_secs(5)));

    assert_eq!(
        budget.remaining_total(after(now, 2)),
        Some(Duration::from_secs(3))
    );
    assert_eq!(budget.remaining_total(after(now, 6)), Some(ZERO));
    Ok(())
}

#[test]
fn total_deadline_wins_a_phase_deadline_tie() -> TestResult {
    let budget = budget(RequestTimeouts::new().response_head(ZERO).total(ZERO))?;

    let phase = budget
        .phase(TimeoutPhase::ResponseHead, None, start())
        .map_err(|_| "no phase")?;
    let PhasePoll::Expired(error) = phase.poll(false, start()) else {
        return Err("pending operation did not time out".into());
    };

    assert_eq!(error.timeout_phase(), Some(TimeoutPhase::Total));
    Ok(())
}

#[test]
fn a_limit_beyond_the_clock_is_refused() {
    let endless = Duration { nanos: u128::MAX };
    let error = TimeoutBudget::new(RequestTimeouts::new().connect(endless), start()).err();
    assert_eq!(
        error.map(|error| error.kind()),
        Some(RequestErrorKind::InvalidTimeout)
    );
    assert!(!RequestTimeouts::new().read_idle(endless).validate(start()));
    assert!(RequestTimeouts::new().validate(start()));
}

#[test]
fn a_phase_ends_at_its_own_limit() -> TestResult {
    let timeouts = RequestTimeouts::new()
        .pool_admission(Duration::from_secs(1))
        .connect(Duration::from_secs(2))
        .total(Duration::from_secs(9));
    assert_eq!(timeouts.pool_admission_duration(), Some(Duration::from_secs(1)));
    assert_eq!(timeouts.connect_duration(), Some(Duration::from_secs(2)));
    assert_eq!(timeouts.response_head_duration(), None);
    assert_eq!(timeouts.read_idle_duration(), None);
    assert_eq!(timeouts.total_duration(), Some(Duration::from_secs(9)));
    let phase = budget(timeouts)?
        .phase(TimeoutPhase::Connect, Some(HttpProtocol::Http2), start())
        .map_err(|_| "no phase")?;
    assert!(matches!(phase.poll(false, after(start(), 1)), PhasePoll::Pending));
    let PhasePoll::Expired(error) = phase.poll(false, after(start(), 2)) else {
        return Err("the phase did not end".into());
    };
    assert_eq!(error.kind(), RequestErrorKind::Timeout);
    assert_eq!(error.timeout_phase(), Some(TimeoutPhase::Connect));
    assert_eq!(error.protocol, Some(HttpProtocol::Http2));
    assert_eq!(TimeoutPhase::PoolAdmission.trace_name(), "pool_admission");
    Ok(())
}

#[test]
fn a_delay_beyond_the_total_fails_at_it() -> TestResult {
    let budget = budget(RequestTimeouts::new().total(Duration::from_secs(2)))?;
    assert!(matches!(budget.delay(ZERO, None, start()), Ok(Delay::Elapsed)));
    assert!(matches!(
        budget.delay(Duration::from_secs(1), None, start()),
        Ok(Delay::Until(at)) if at == after(start(), 1)
    ));
    assert!(matches!(
        budget.delay(Duration::from_secs(3), None, start()),
        Ok(Delay::FailAt(at, error)) if at == after(start(), 2)
            && error.timeout_phase() == Some(TimeoutPhase::Total)
    ));
    assert!(budget.delay(ZERO, None, after(start(), 2)).is_err());
    Ok(())
}

#[test]
fn a_body_is_cut_off_when_nothing_arrives() -> TestResult {
    let budget = budget(RequestTimeouts::new().read_idle(Duration::from_secs(5)))?;
    let mut limits = budget
        .response_body(HttpProtocol::Http1, start())
        .map_err(|_| "no limits")?
        .ok_or("no limits")?;
    assert_eq!(limits.poll_expired(after(start(), 4)), None);
    limits
        .record_activity(after(start(), 4))
        .map_err(|_| "unrepresentable")?;
    assert_eq!(limits.poll_expired(after(start(), 8)), None);
    let error = limits.poll_expired(after(start(), 9)).ok_or("no expiry")?;
    assert_eq!(error.timeout_phase(), Some(TimeoutPhase::ReadIdle));
    assert_eq!(error.protocol, Some(HttpProtocol::Http1));
    Ok(())
}
