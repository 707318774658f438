use widgets::widget::wasm::{config_key, config_put, ConfigTrap};
use widgets::storage::is_image_entry;
use widgets::cstr::{strcspn, strspn};
use widgets::network::{next_wifi_step, network_seed, retry_delay_ms, WifiFailure, WifiStep};

#[test]
fn strspn_counts_leading_set_bytes() {
    assert_eq!(strspn(b"abcx\0", b"cba\0"), 3);
    assert_eq!(strspn(b"xabc\0", b"abc\0"), 0);
    assert_eq!(strspn(b"aaaa\0", b"a\0"), 4);
}

#[test]
fn strspn_stops_at_nul_of_either_string() {
    assert_eq!(strspn(b"ab\0ab", b"ab\0"), 2);
    assert_eq!(strspn(b"ab", b"a\0b"), 1);
    assert_eq!(strspn(b"\0abc", b"abc\0"), 0);
    assert_eq!(strspn(b"abc\0", b"\0abc"), 0);
}

#[test]
fn strcspn_counts_leading_bytes_outside_set() {
    assert_eq!(strcspn(b"hello, world\0", b" ,\0"), 5);
    assert_eq!(strcspn(b"hello\0", b"xyz\0"), 5);
    assert_eq!(strcspn(b"hello\0", b"h\0"), 0);
    assert_eq!(strcspn(b"key=value\0", b"=\0"), 3);
}

#[test]
fn strcspn_empty_set_spans_whole_string() {
    assert_eq!(strcspn(b"abc\0def", b"\0"), 3);
    assert_eq!(strcspn(b"abc", b""), 3);
    assert_eq!(strcspn(b"", b"abc"), 0);
}

#[test]
fn wifi_supervisor_steps() {
    assert_eq!(next_wifi_step(false), WifiStep::Connect);
    assert_eq!(next_wifi_step(true), WifiStep::WaitForDisconnect);
    assert_eq!(retry_delay_ms(WifiFailure::SetConfig), 5000);
    assert_eq!(retry_delay_ms(WifiFailure::Connect), 5000);
    assert_eq!(retry_delay_ms(WifiFailure::WaitForDisconnect), 1000);
}

#[test]
fn network_seed_joins_words() {
    assert_eq!(network_seed(1, 2), 0x0000_0001_0000_0002);
    assert_eq!(network_seed(0xffff_ffff, 0xffff_ffff), u64::MAX);
    assert_eq!(network_seed(0, 0), 0);
}

#[test]
fn image_skips_marker_files() {
    assert!(!is_image_entry(".keep"));
    assert!(!is_image_entry(".DS_Store"));
    assert!(is_image_entry("clock.wasm"));
    assert!(is_image_entry("config.json"));
    assert!(is_image_entry(".keep2"));
}

#[test]
fn config_key_reads_guest_memory() {
    let mem = b"..color..".to_vec();
    assert_eq!(config_key(&mem, 5, 2).unwrap(), "color");
    assert_eq!(config_key(&mem, 0, 9).unwrap(), "");
    assert_eq!(config_key(&mem, 5, 5), Err(ConfigTrap::KeyOutOfBounds));
    assert_eq!(config_key(&[0xff, 0xfe], 2, 0), Err(ConfigTrap::KeyNotUtf8));
}

#[test]
fn config_put_copies_prefix() {
    let mut mem = vec![0u8; 8];
    assert_eq!(config_put(&mut mem, Some(b"abcdef"), 4, 2), Ok(4));
    assert_eq!(mem, vec![0, 0, b'a', b'b', b'c', b'd', 0, 0]);
    let mut mem = vec![7u8; 4];
    assert_eq!(config_put(&mut mem, Some(b"xy"), 10, 1), Ok(2));
    assert_eq!(mem, vec![7, b'x', b'y', 7]);
    assert_eq!(config_put(&mut mem, None, 10, 1), Ok(-1));
    assert_eq!(mem, vec![7, b'x', b'y', 7]);
    assert_eq!(config_put(&mut mem, Some(b"xyz"), 10, 2), Err(ConfigTrap::OutputOutOfBounds));
    assert_eq!(mem, vec![7, b'x', b'y', 7]);
}

#[test]
fn init_failure_is_logged_once() {
    let mut s = widgets::widget::wasm::RenderState::load_failed("bad magic");
    let p1 = s.begin_render();
    assert_eq!(p1.log.as_deref(), Some("widget init failed: bad magic"));
    assert!(!p1.call_guest);
    let p2 = s.begin_render();
    assert!(p2.log.is_none());
    assert!(!p2.call_guest);
}
