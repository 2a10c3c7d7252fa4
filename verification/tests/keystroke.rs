use nrf_unifying::keystroke::{type_char, Stroke, StrokeAction};
use nrf_unifying::state::KeyReport;

/// Runs a stroke; `acks` says which of the reports are acknowledged.
fn run(mut stroke: Stroke, acks: &[usize]) -> (bool, Vec<KeyReport>, usize) {
    let mut sent: Vec<KeyReport> = Vec::new();
    let mut ticks = 0;
    loop {
        match stroke.action() {
            StrokeAction::Send(report) => {
                let acknowledged = acks.contains(&sent.len());
                sent.push(report);
                stroke.step(acknowledged);
            }
            StrokeAction::Tick => {
                ticks += 1;
                stroke.step(false);
            }
            StrokeAction::Over => return (stroke.pressed, sent, ticks),
        }
    }
}

#[test]
fn press_and_release() {
    let report = KeyReport { modifier: 5, keys: [0x4c, 0, 0, 0, 0, 0] };
    let (pressed, sent, ticks) = run(Stroke::new(report, true), &[0, 1]);
    assert!(pressed);
    assert_eq!(sent, vec![report, KeyReport::release()]);
    assert_eq!(ticks, 0);
}

#[test]
fn press_is_retried() {
    let report = KeyReport::press(4, false);
    let (pressed, sent, ticks) = run(Stroke::new(report, true), &[19, 20]);
    assert!(pressed);
    assert_eq!(sent.len(), 21);
    assert_eq!(&sent[..20], &[report; 20]);
    assert_eq!(sent[20], KeyReport::release());
    assert_eq!(ticks, 19);
}

#[test]
fn release_is_sent_even_if_the_press_fails() {
    let report = KeyReport::press(4, false);
    let (pressed, sent, ticks) = run(Stroke::new(report, true), &[]);
    assert!(!pressed);
    assert_eq!(sent.len(), 40);
    assert_eq!(&sent[..20], &[report; 20]);
    assert_eq!(&sent[20..], &[KeyReport::release(); 20]);
    assert_eq!(ticks, 40);
    let (pressed, sent, _) = run(Stroke::new(report, true), &[20]);
    assert!(!pressed);
    assert_eq!(sent.len(), 21);
}

#[test]
fn held_key_is_not_released() {
    let report = KeyReport::press(4, true);
    let (pressed, sent, _) = run(Stroke::new(report, false), &[2]);
    assert!(pressed);
    assert_eq!(sent, vec![report; 3]);
    let (pressed, sent, _) = run(Stroke::new(report, false), &[]);
    assert!(!pressed);
    assert_eq!(sent.len(), 20);
}

#[test]
fn characters_are_typed() {
    let (_, sent, _) = run(type_char(b'A').unwrap(), &[0, 1]);
    assert_eq!(sent, vec![KeyReport::press(0x04, true), KeyReport::release()]);
    assert!(type_char(0x80).is_none());
}
