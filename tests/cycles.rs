use chip8::cycles::Coordinator;

#[test]
fn new_coordinator_interval() {
    let c = Coordinator::new(60);
    assert_eq!(c.rate, 60);
    assert_eq!(c.offset, 16_666_666);
    assert_eq!(Coordinator::new(500).offset, 2_000_000);
}

#[test]
fn sixty_hertz_fires_once_per_interval() {
    let mut c = Coordinator::new(60);
    let t0: u128 = 1_000_000_000;
    assert!(c.should_cycle_at(t0));
    assert!(!c.should_cycle_at(t0 + 1));
    assert!(!c.should_cycle_at(t0 + 16_666_665));
    assert!(c.should_cycle_at(t0 + 16_666_666));
    assert_eq!(c.last_execution, t0 + 16_666_666);
}

#[test]
fn time_before_last_fire_is_not_due() {
    let mut c = Coordinator::new(60);
    assert!(c.should_cycle_at(50_000_000));
    assert!(!c.should_cycle_at(10));
    assert_eq!(c.last_execution, 50_000_000);
    assert_eq!(c.delay_until_cycle_at(10), 50_000_000 - 10 + 16_666_666);
}

#[test]
fn delay_counts_down_to_zero() {
    let mut c = Coordinator::new(500);
    assert_eq!(c.delay_until_cycle_at(1_000), 1_999_000);
    assert!(!c.should_cycle_at(1_000));
    assert!(c.should_cycle_at(10_000_000));
    assert_eq!(c.delay_until_cycle_at(10_000_000), 2_000_000);
    assert_eq!(c.delay_until_cycle_at(11_500_000), 500_000);
    assert_eq!(c.delay_until_cycle_at(12_000_000), 0);
    assert_eq!(c.delay_until_cycle_at(19_000_000), 0);
}

#[test]
fn smallest_delay_picks_the_sooner() {
    let mut cpu = Coordinator::new(500);
    let mut timer = Coordinator::new(60);
    let t0: u128 = 5_000_000_000;
    assert!(cpu.should_cycle_at(t0));
    assert!(timer.should_cycle_at(t0));
    let now = t0 + 1_000_000;
    assert_eq!(Coordinator::smallest_delay_until_cycle_at(&[&cpu, &timer], now), 1_000_000);
    assert_eq!(Coordinator::smallest_delay_until_cycle_at(&[&timer, &cpu], now), 1_000_000);
    assert_eq!(Coordinator::smallest_delay_until_cycle_at(&[&timer], now), 15_666_666);
}

#[test]
fn wall_clock_coordinator_fires_first_time() {
    let mut c = Coordinator::new(60);
    assert!(c.should_cycle());
    assert!(c.last_execution > 0);
    assert!(!c.should_cycle() || c.last_execution > 0);
    let d = c.delay_until_cycle();
    assert!(d <= 16_666_666);
    let other = Coordinator::new(1);
    assert!(Coordinator::smallest_delay_until_cycle(&[&c, &other]) <= d);
}
