use hcbs_manager::parser::{
    parse_cgroup_alloc_request, parse_cgroup_name, parse_delete_request, parse_policy_request,
    parse_reservation_request, parse_u64,
};
use hcbs_manager::policy::SchedPolicy;
use hcbs_manager::reservation::Reservation;
use hcbs_manager::text::{body_text, render_decimal};

#[test]
fn cgroup_name_takes_the_longest_name() {
    assert_eq!(parse_cgroup_name(b"g1"), Some(2));
    assert_eq!(parse_cgroup_name(b"g1 50000 100000"), Some(2));
    assert_eq!(parse_cgroup_name(b"a/b/c"), Some(5));
    assert_eq!(parse_cgroup_name(b"_x9/./Y_"), Some(8));
    assert_eq!(parse_cgroup_name(b"."), Some(1));
    assert_eq!(parse_cgroup_name(b"./a"), Some(3));
}

#[test]
fn cgroup_name_stops_where_the_grammar_ends() {
    // A slash belongs to the name only if a segment follows.
    assert_eq!(parse_cgroup_name(b"a/"), Some(1));
    assert_eq!(parse_cgroup_name(b"a//b"), Some(1));
    assert_eq!(parse_cgroup_name(b"a/9"), Some(1));
    // A dot is a whole segment.
    assert_eq!(parse_cgroup_name(b".a"), Some(1));
    assert_eq!(parse_cgroup_name(b".."), Some(1));
    assert_eq!(parse_cgroup_name(b"a.b"), Some(1));
    assert_eq!(parse_cgroup_name(b"a-b"), Some(1));
}

#[test]
fn cgroup_name_needs_a_segment() {
    assert_eq!(parse_cgroup_name(b""), None);
    assert_eq!(parse_cgroup_name(b"/a"), None);
    assert_eq!(parse_cgroup_name(b"9a"), None);
    assert_eq!(parse_cgroup_name(b" a"), None);
    assert_eq!(parse_cgroup_name("é".as_bytes()), None);
}

#[test]
fn number_reads_the_run_of_digits() {
    assert_eq!(parse_u64(b"0"), Some((1, 0)));
    assert_eq!(parse_u64(b"50000 100000"), Some((5, 50000)));
    assert_eq!(parse_u64(b"007x"), Some((3, 7)));
    assert_eq!(parse_u64(b"18446744073709551615"), Some((20, u64::MAX)));
    assert_eq!(parse_u64(b"000018446744073709551615)"), Some((24, u64::MAX)));
}

#[test]
fn number_refuses_what_is_none_or_too_large() {
    assert_eq!(parse_u64(b""), None);
    assert_eq!(parse_u64(b"x1"), None);
    assert_eq!(parse_u64(b"-1"), None);
    assert_eq!(parse_u64(b"+1"), None);
    assert_eq!(parse_u64(b"18446744073709551616"), None);
    assert_eq!(parse_u64(b"99999999999999999999999"), None);
}

#[test]
fn alloc_request_reads_runtime_then_period() {
    assert_eq!(
        parse_cgroup_alloc_request(b"50000 100000"),
        Some((12, Reservation { runtime_us: 50000, period_us: 100000 }))
    );
    assert_eq!(
        parse_cgroup_alloc_request(b"1 \t 2 rest"),
        Some((5, Reservation { runtime_us: 1, period_us: 2 }))
    );
    assert_eq!(parse_cgroup_alloc_request(b"1"), None);
    assert_eq!(parse_cgroup_alloc_request(b"1 "), None);
    assert_eq!(parse_cgroup_alloc_request(b"1,2"), None);
    assert_eq!(parse_cgroup_alloc_request(b" 1 2"), None);
}

#[test]
fn reservation_request_is_the_whole_text() {
    assert_eq!(
        parse_reservation_request(b"g1 50000 100000"),
        Some((b"g1".to_vec(), Reservation { runtime_us: 50000, period_us: 100000 }))
    );
    assert_eq!(
        parse_reservation_request(b"a/b   7\t9"),
        Some((b"a/b".to_vec(), Reservation { runtime_us: 7, period_us: 9 }))
    );
    assert_eq!(parse_reservation_request(b"g1 50000 100000 x"), None);
    assert_eq!(parse_reservation_request(b"g1 50000 100000 "), None);
    assert_eq!(parse_reservation_request(b"g1 50000"), None);
    assert_eq!(parse_reservation_request(b"g1/ 1 2"), None);
    assert_eq!(parse_reservation_request(b"g1  1 18446744073709551616"), None);
    assert_eq!(parse_reservation_request(b"1 2 3"), None);
    assert_eq!(parse_reservation_request(b""), None);
}

#[test]
fn delete_request_is_one_name() {
    assert_eq!(parse_delete_request(b"g1"), Some(b"g1".to_vec()));
    assert_eq!(parse_delete_request(b"a/./b_2"), Some(b"a/./b_2".to_vec()));
    assert_eq!(parse_delete_request(b"g1 "), None);
    assert_eq!(parse_delete_request(b"g1/"), None);
    assert_eq!(parse_delete_request(b"/g1"), None);
    assert_eq!(parse_delete_request(b""), None);
}

#[test]
fn policy_request_reads_the_three_policies() {
    assert_eq!(parse_policy_request(b"SCHED_OTHER"), Some(SchedPolicy::Other));
    assert_eq!(parse_policy_request(b"SCHED_FIFO(10)"), Some(SchedPolicy::Fifo(10)));
    assert_eq!(parse_policy_request(b"SCHED_RR(99)"), Some(SchedPolicy::Rr(99)));
    assert_eq!(parse_policy_request(b"SCHED_FIFO(0)"), Some(SchedPolicy::Fifo(0)));
    assert_eq!(
        parse_policy_request(b"SCHED_RR(4294967295)"),
        Some(SchedPolicy::Rr(u32::MAX))
    );
}

#[test]
fn policy_request_refuses_the_rest() {
    assert_eq!(parse_policy_request(b"SCHED_BATCH"), None);
    assert_eq!(parse_policy_request(b"SCHED_IDLE"), None);
    assert_eq!(parse_policy_request(b"SCHED_DEADLINE"), None);
    assert_eq!(parse_policy_request(b"SCHED_OTHER "), None);
    assert_eq!(parse_policy_request(b"SCHED_OTHERS"), None);
    assert_eq!(parse_policy_request(b"SCHED_FIFO"), None);
    assert_eq!(parse_policy_request(b"SCHED_FIFO()"), None);
    assert_eq!(parse_policy_request(b"SCHED_FIFO(10"), None);
    assert_eq!(parse_policy_request(b"SCHED_FIFO(10))"), None);
    assert_eq!(parse_policy_request(b"SCHED_FIFO(-1)"), None);
    assert_eq!(parse_policy_request(b"SCHED_RR(4294967296)"), None);
    assert_eq!(parse_policy_request(b"sched_other"), None);
    assert_eq!(parse_policy_request(b""), None);
}

#[test]
fn policies_are_shown_as_a_line() {
    assert_eq!(SchedPolicy::Other.render(), b"SCHED_OTHER\n".to_vec());
    assert_eq!(SchedPolicy::Batch.render(), b"SCHED_BATCH\n".to_vec());
    assert_eq!(SchedPolicy::Idle.render(), b"SCHED_IDLE\n".to_vec());
    assert_eq!(SchedPolicy::Deadline.render(), b"SCHED_DEADLINE\n".to_vec());
    assert_eq!(SchedPolicy::Fifo(10).render(), b"SCHED_FIFO(10)\n".to_vec());
    assert_eq!(SchedPolicy::Rr(99).render(), b"SCHED_RR(99)\n".to_vec());
    assert!(SchedPolicy::other().is_other());
    assert!(!SchedPolicy::Fifo(1).is_other());
}

#[test]
fn what_a_policy_file_shows_can_be_written_back() {
    for policy in [
        SchedPolicy::Other,
        SchedPolicy::Fifo(0),
        SchedPolicy::Fifo(10),
        SchedPolicy::Rr(99),
        SchedPolicy::Rr(u32::MAX),
    ] {
        let line = policy.render();
        let text = body_text(&line).unwrap();
        assert_eq!(parse_policy_request(text), Some(policy));
    }
    for policy in [SchedPolicy::Batch, SchedPolicy::Idle, SchedPolicy::Deadline] {
        let line = policy.render();
        let text = body_text(&line).unwrap();
        assert_eq!(parse_policy_request(text), None);
    }
}

#[test]
fn decimal_is_written_without_needless_zeros() {
    assert_eq!(render_decimal(0), b"0".to_vec());
    assert_eq!(render_decimal(7), b"7".to_vec());
    assert_eq!(render_decimal(10), b"10".to_vec());
    assert_eq!(render_decimal(4242), b"4242".to_vec());
    assert_eq!(render_decimal(u64::MAX), b"18446744073709551615".to_vec());
}

#[test]
fn body_text_trims_white_space_at_both_ends() {
    assert_eq!(body_text(b"g1 50000 100000\n"), Some(&b"g1 50000 100000"[..]));
    assert_eq!(body_text(b"  \t g1\r\n\n"), Some(&b"g1"[..]));
    assert_eq!(body_text(b"a b"), Some(&b"a b"[..]));
    assert_eq!(body_text(b""), Some(&b""[..]));
    assert_eq!(body_text(b" \n "), Some(&b""[..]));
    // White space beyond ASCII counts too.
    assert_eq!(body_text("\u{a0}g1\u{2003}\u{3000}".as_bytes()), Some(&b"g1"[..]));
    // What is no white space stays.
    assert_eq!(body_text("\u{200b}g1".as_bytes()), Some("\u{200b}g1".as_bytes()));
}

#[test]
fn body_text_refuses_what_is_not_utf8() {
    assert_eq!(body_text(&[0x67, 0x31, 0xFF]), None);
    assert_eq!(body_text(&[0xC3]), None);
    assert_eq!(body_text(&[0xED, 0xA0, 0x80]), None);
    assert_eq!(body_text("é".as_bytes()), Some("é".as_bytes()));
}
