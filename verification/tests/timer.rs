use lo::timer::{format_duration, timer_announcement, timer_completion, timer_confirmation, timer_label};

#[test]
fn reads_naturally_across_boundaries() {
    assert_eq!(format_duration(1), "1 second");
    assert_eq!(format_duration(45), "45 seconds");
    assert_eq!(format_duration(60), "1 minute");
    assert_eq!(format_duration(120), "2 minutes");
    assert_eq!(format_duration(125), "2 minutes 5 seconds");
    assert_eq!(format_duration(3600), "60 minutes");
}

#[test]
fn odd_remainders_keep_plural_seconds() {
    assert_eq!(format_duration(61), "1 minute 1 second");
    assert_eq!(format_duration(59), "59 seconds");
    assert_eq!(format_duration(0), "0 seconds");
}

#[test]
fn timer_messages_with_and_without_label() {
    assert_eq!(timer_confirmation(120, Some("  tea ")), "Timer set for 2 minutes (tea).");
    assert_eq!(timer_confirmation(45, Some("   ")), "Timer set for 45 seconds.");
    assert_eq!(timer_confirmation(45, None), "Timer set for 45 seconds.");
    assert_eq!(timer_completion(120, Some("tea")), "Your timer for tea is complete.");
    assert_eq!(timer_completion(90, None), "Your 1 minute 30 seconds timer is complete.");
    assert_eq!(timer_announcement(1, None), "[crisply] Your 1 second timer is complete.");
    assert_eq!(timer_label(Some(" x ")), Some("x".to_string()));
    assert_eq!(timer_label(Some("")), None);
}
