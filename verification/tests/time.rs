use widgets::time::timer::{TimeService, TimerState};
use widgets::time::{CreateTimeoutData, DeleteTimeoutData, TimerId};
use widgets::time_sync::sntp::{
    parse_sntp_response, sntp_request, sntp_unix_time, SntpTimestamp, TimeSyncService,
    SNTP_PACKET_SIZE, SNTP_TIME_OFFSET,
};
use widgets::timer::timer::{TimerService, WidgetTimer};
use widgets::timer::{TimeoutData, TimerId as WidgetTimerId};
use widgets::widget::WidgetId;

fn w(i: usize) -> WidgetId {
    WidgetId::new(i)
}

#[test]
fn timers_fire_in_deadline_order() {
    let mut s = TimerState::new();
    s.insert(w(2), TimerId(1), 0, 30, None);
    s.insert(w(1), TimerId(9), 0, 10, None);
    s.insert(w(1), TimerId(3), 0, 30, None);
    assert!(s.poll(5).is_empty());
    assert_eq!(s.poll(10), vec![(w(1), TimerId(9))]);
    assert_eq!(s.poll(100), vec![(w(1), TimerId(3)), (w(2), TimerId(1))]);
    assert!(s.poll(1000).is_empty());
}

#[test]
fn recurring_timer_rearms_after_poll() {
    let mut s = TimeService::new();
    s.schedule_at(w(1), TimerId(0), 0, 10, Some(10));
    assert_eq!(s.poll_at(10), vec![(w(1), TimerId(0))]);
    assert!(s.poll_at(19).is_empty());
    assert_eq!(s.poll_at(25), vec![(w(1), TimerId(0))]);
    s.cancel(w(1), TimerId(0));
    assert!(s.poll_at(1000).is_empty());
}

#[test]
fn rearming_replaces_deadline() {
    let mut s = TimeService::new();
    s.schedule_at(w(1), TimerId(0), 0, 10, None);
    s.schedule_at(w(1), TimerId(0), 0, 50, None);
    assert!(s.poll_at(20).is_empty());
    assert_eq!(s.poll_at(50), vec![(w(1), TimerId(0))]);
}

#[test]
fn widget_time_hands_out_sequential_ids() {
    let mut s = TimeService::new();
    let mut t = s.scoped(w(4));
    let a = t.create_timeout_at(&mut s, 100, CreateTimeoutData { duration: 5, recurring: false });
    let b = t.create_timeout_at(&mut s, 100, CreateTimeoutData { duration: 7, recurring: true });
    assert_eq!((a, b), (TimerId(0), TimerId(1)));
    t.delete_timeout(&mut s, DeleteTimeoutData { id: a });
    assert_eq!(s.poll_at(107), vec![(w(4), TimerId(1))]);
    assert!(t.create_timeout(&mut s, CreateTimeoutData { duration: 1, recurring: false }).is_some());
}

#[test]
fn timer_service_polls_prefix_of_key_order() {
    let mut s = TimerService::new();
    s.schedule_at(w(1), WidgetTimerId(1), 0, 5);
    s.schedule_at(w(1), WidgetTimerId(2), 0, 50);
    s.schedule_at(w(2), WidgetTimerId(1), 0, 5);
    // The second key has not expired, so the scan stops there.
    assert_eq!(s.poll_at(10), vec![(w(1), WidgetTimerId(1))]);
    assert!(s.poll_at(10).is_empty());
    assert_eq!(s.poll_at(50), vec![(w(1), WidgetTimerId(2)), (w(2), WidgetTimerId(1))]);
}

#[test]
fn widget_timer_cancel() {
    let mut s = TimerService::new();
    let mut t = WidgetTimer::new(w(3));
    t.create_timeout_at(&mut s, 0, TimeoutData { id: WidgetTimerId(7), duration: 1 });
    t.delete_timeout(&mut s, TimeoutData { id: WidgetTimerId(7), duration: 0 });
    assert!(s.poll_at(5).is_empty());
}

#[test]
fn sntp_request_packet() {
    let p = sntp_request();
    assert_eq!(p.len(), SNTP_PACKET_SIZE);
    assert_eq!(p[0], 0xE3);
    assert!(p[1..].iter().all(|b| *b == 0));
}

fn reply(header: u8) -> Vec<u8> {
    let mut r = vec![0u8; 48];
    r[0] = header;
    r[40..44].copy_from_slice(&0xE7B1_2345u32.to_be_bytes());
    r[44..48].copy_from_slice(&0x8000_0000u32.to_be_bytes());
    r
}

#[test]
fn sntp_reply_accepted() {
    let t = parse_sntp_response(&reply(0x24), 48).unwrap();
    assert_eq!(t, SntpTimestamp { secs: 0xE7B1_2345, frac: 0x8000_0000 });
    assert!(parse_sntp_response(&reply(0x25), 48).is_ok());
}

#[test]
fn sntp_reply_errors() {
    assert_eq!(parse_sntp_response(&reply(0x24), 40), Err("Invalid SNTP packet size received"));
    assert_eq!(parse_sntp_response(&reply(0x1c), 48), Err("Server returned wrong SNTP version"));
    assert_eq!(parse_sntp_response(&reply(0x23), 48), Err("Not a SNTP server reply"));
}

#[test]
fn ntp_seconds_to_unix() {
    assert_eq!(sntp_unix_time(SNTP_TIME_OFFSET), 0);
    assert_eq!(sntp_unix_time(3_913_056_000), 1_704_067_200);
    assert_eq!(sntp_unix_time(0), (u32::MAX as i64) - (SNTP_TIME_OFFSET as i64) + 1);
}

#[test]
fn time_sync_read_after_sync() {
    let mut s = TimeSyncService::with_tick_rate(1000);
    assert_eq!(s.get_unix_timestamp_at(5_000), None);
    assert_eq!(s.get_last_sync_instant(), None);
    assert_eq!(s.get_last_sync_unix(), None);
    s.update_time_at(1_700_000_000, 10_000);
    assert_eq!(s.get_last_sync_instant(), Some(10_000));
    assert_eq!(s.get_last_sync_unix(), Some(1_700_000_000));
    assert_eq!(s.get_unix_timestamp_at(10_000), Some(1_700_000_000));
    assert_eq!(s.get_unix_timestamp_at(75_500), Some(1_700_000_065));
}

#[test]
fn failed_sync_changes_nothing() {
    let mut s = TimeSyncService::with_tick_rate(1);
    assert_eq!(s.complete_sync_at(Err("SNTP request timed out"), 3), Err("SNTP request timed out"));
    assert_eq!(s.get_last_sync_unix(), None);
    let r = s.complete_sync_at(Ok(SntpTimestamp { secs: SNTP_TIME_OFFSET + 100, frac: 0 }), 40);
    assert_eq!(r, Ok(100));
    assert_eq!(s.get_unix_timestamp_at(50), Some(110));
}

#[test]
fn widget_time_reports_unsynced_values() {
    let s = TimeService::new();
    let sync = TimeSyncService::with_tick_rate(1);
    let mut t = s.scoped(w(1));
    assert_eq!(t.get_unix_timestamp(&sync), 0);
    assert_eq!(t.get_last_sync(&sync), -1);
}
