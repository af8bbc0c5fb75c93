use passcore::estimator::{crack_time_display, crack_times};
use zxcvbn::time_estimates::CrackTimeSeconds;

#[test]
fn display_buckets_exactly() {
    assert_eq!(crack_time_display(0), "less than a second");
    assert_eq!(crack_time_display(1), "1 second");
    assert_eq!(crack_time_display(59), "59 seconds");
    assert_eq!(crack_time_display(60), "1 minute");
    assert_eq!(crack_time_display(3599), "59 minutes");
    assert_eq!(crack_time_display(3600), "1 hour");
    assert_eq!(crack_time_display(86399), "23 hours");
    assert_eq!(crack_time_display(86400), "1 day");
    assert_eq!(crack_time_display(2678399), "30 days");
    assert_eq!(crack_time_display(2678400), "1 month");
    assert_eq!(crack_time_display(32140799), "11 months");
    assert_eq!(crack_time_display(32140800), "1 year");
    assert_eq!(crack_time_display(3214079999), "99 years");
    assert_eq!(crack_time_display(3214080000), "centuries");
}

#[test]
fn display_matches_reference_formatting() {
    let samples: [u64; 12] = [
        0,
        1,
        2,
        61,
        59,
        3700,
        90000,
        2678401,
        40000000,
        3214079999,
        3214080000,
        u64::MAX,
    ];
    for s in samples {
        assert_eq!(
            crack_time_display(s),
            CrackTimeSeconds::Integer(s).to_string(),
            "divergence at {} seconds",
            s
        );
    }
}

#[test]
fn weak_password_cracks_fast() {
    let t = crack_times("password");
    assert!(
        t == "less than a second" || t.contains("second") || t.contains("minute"),
        "unexpectedly strong estimate: {}",
        t
    );
}

#[test]
fn strong_password_takes_centuries() {
    assert_eq!(crack_times("zK8#qL2$wX9@mN4&vB7!"), "centuries");
}
