use ssh_serial_bridge::boot_log::{prepend_entry, read_log, record_boot, reset_reason_str, ResetReason};
use ssh_serial_bridge::btn_ctrl::{notice_message, Action, Button, Notice};
use ssh_serial_bridge::gpio_ctrl::{GpioPwmState, GPIO_PIN_MAP};

#[test]
fn reasons_have_labels() {
    assert_eq!(reset_reason_str(ResetReason::PowerOn), "PowerOn");
    assert_eq!(reset_reason_str(ResetReason::External), "ExtReset");
    assert_eq!(reset_reason_str(ResetReason::Software), "Software");
    assert_eq!(reset_reason_str(ResetReason::Panic), "Panic/Crash");
    assert_eq!(reset_reason_str(ResetReason::InterruptWatchdog), "IntWatchdog");
    assert_eq!(reset_reason_str(ResetReason::TaskWatchdog), "TaskWatchdog");
    assert_eq!(reset_reason_str(ResetReason::Watchdog), "Watchdog");
    assert_eq!(reset_reason_str(ResetReason::DeepSleep), "DeepSleep");
    assert_eq!(reset_reason_str(ResetReason::Brownout), "Brownout");
    assert_eq!(reset_reason_str(ResetReason::Sdio), "SDIO");
    assert_eq!(reset_reason_str(ResetReason::Other), "Unknown");
}

#[test]
fn entries_are_prepended() {
    assert_eq!(prepend_entry("#1 PowerOn", ""), "#1 PowerOn");
    assert_eq!(prepend_entry("#2 Software", "#1 PowerOn"), "#2 Software\n#1 PowerOn");
}

#[test]
fn the_log_keeps_ten_boots() {
    let mut count = 0;
    let mut log: Option<Vec<u8>> = None;
    for _ in 0..12 {
        let r = record_boot(ResetReason::Software, Some((count, log)));
        count = r.write_count.unwrap();
        log = Some(r.write_log.unwrap().into_bytes());
    }
    let text = read_log(log);
    let lines: Vec<&str> = text.lines().collect();
    assert_eq!(lines.len(), 10);
    assert_eq!(lines[0], "#12 Software");
    assert_eq!(lines[9], "#3 Software");
    for (i, line) in lines.iter().enumerate() {
        assert_eq!(*line, format!("#{} Software", 12 - i));
    }
}

#[test]
fn booting_without_storage() {
    let r = record_boot(ResetReason::PowerOn, None);
    assert_eq!(r.count, 0);
    assert_eq!(r.reason, "PowerOn");
    assert!(r.write_count.is_none() && r.write_log.is_none());
}

#[test]
fn the_counter_stays_at_its_end() {
    let r = record_boot(ResetReason::Brownout, Some((u32::MAX, Some(vec![0xff]))));
    assert_eq!(r.count, u32::MAX);
    assert_eq!(r.write_log, Some("#4294967295 Brownout".to_string()));
    assert_eq!(read_log(None), "");
}

#[test]
fn a_log_with_a_nul_is_not_written() {
    let r = record_boot(ResetReason::PowerOn, Some((0, Some(b"a\0b".to_vec()))));
    assert_eq!(r.count, 1);
    assert!(r.write_log.is_none());
}

#[test]
fn outputs_are_set_and_clamped() {
    let mut g = GpioPwmState::new();
    assert_eq!(g.get_gpio(), [false; 7]);
    assert_eq!(g.get_pwm(), [0, 0]);
    g.set_gpio(6, true);
    g.set_gpio(7, true);
    g.set_pwm(0, 55);
    g.set_pwm(1, 250);
    g.set_pwm(2, 10);
    assert_eq!(g.get_gpio(), [false, false, false, false, false, false, true]);
    assert_eq!(g.get_pwm(), [55, 100]);
    assert_eq!(GPIO_PIN_MAP, [4, 5, 6, 7, 8, 9, 12]);
    assert_eq!(g.snapshot().get_pwm(), [55, 100]);
}

fn press(ms: u64) -> (Vec<Action>, Vec<Notice>, GpioPwmState) {
    let mut b = Button::new();
    let mut g = GpioPwmState::new();
    let mut actions = Vec::new();
    let mut notices = Vec::new();
    let mut t = 0;
    while t < ms {
        let (a, n) = b.sample(false, 1000 + t, &mut g);
        actions.push(a);
        notices.push(n);
        t += 50;
    }
    let (a, n) = b.sample(true, 1000 + ms, &mut g);
    actions.push(a);
    notices.push(n);
    (actions, notices, g)
}

fn count(actions: &[Action], a: Action) -> usize {
    actions.iter().filter(|x| **x == a).count()
}

#[test]
fn short_press_turns_the_page() {
    let (a, n, g) = press(500);
    assert_eq!(count(&a, Action::NextPage), 1);
    assert_eq!(*a.last().unwrap(), Action::NextPage);
    assert!(n.iter().all(|x| *x == Notice::Unchanged));
    assert!(!g.get_gpio()[6]);
}

#[test]
fn medium_press_toggles_the_dc_output() {
    let (a, n, g) = press(7000);
    assert_eq!(*a.last().unwrap(), Action::ToggleDcOut);
    assert_eq!(count(&a, Action::ToggleDcOut), 1);
    assert_eq!(count(&a, Action::NextPage), 0);
    assert!(g.get_gpio()[6]);
    assert!(n.contains(&Notice::Countdown(4)));
    assert_eq!(*n.last().unwrap(), Notice::Clear);
}

#[test]
fn medium_press_between_two_samples() {
    let mut b = Button::new();
    let mut g = GpioPwmState::new();
    b.sample(false, 0, &mut g);
    assert_eq!(b.sample(true, 3020, &mut g).0, Action::ToggleDcOut);
    assert!(g.get_gpio()[6]);
}

#[test]
fn long_press_resets() {
    let (a, n, g) = press(10050);
    assert!(count(&a, Action::FactoryReset) >= 1);
    assert_eq!(count(&a, Action::ToggleDcOut), 0);
    assert_eq!(count(&a, Action::NextPage), 0);
    assert_eq!(g.get_gpio(), [false; 7]);
    assert!(n.contains(&Notice::Erasing));
    assert!(n.contains(&Notice::Countdown(1)));
}

#[test]
fn long_press_between_two_samples() {
    let mut b = Button::new();
    let mut g = GpioPwmState::new();
    g.set_gpio(6, true);
    b.sample(false, 0, &mut g);
    assert_eq!(b.sample(false, 9990, &mut g), (Action::Nothing, Notice::Countdown(1)));
    assert_eq!(b.sample(true, 10010, &mut g), (Action::FactoryReset, Notice::Erasing));
    assert!(g.get_gpio()[6]);
}

#[test]
fn reset_messages() {
    assert_eq!(
        notice_message(Notice::Countdown(3)),
        Some(("FACTORY RESET".to_string(), "Resetting to defaults in 3 seconds...".to_string()))
    );
    assert_eq!(
        notice_message(Notice::Erasing),
        Some(("FACTORY RESET".to_string(), "Erasing NVS... Please wait...".to_string()))
    );
    assert_eq!(notice_message(Notice::Clear), None);
}
