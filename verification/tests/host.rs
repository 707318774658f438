use std::collections::BTreeMap;
use widgets::admin::file::content_type;
use widgets::admin::{
    link_status, next_widget_id, plan_add_widget, plan_remove_widget, plan_replace_widget,
    system_status, upload_path, widget_not_found, BAD_REQUEST, NOT_FOUND,
};
use widgets::allocator::{DualHeapAllocator, MemoryRegion};
use widgets::config::{Config, DisplayConfig, WidgetEntry, WifiConfig};
use widgets::console::logger::log_line;
use widgets::drawer::types::{Font, Point};
use widgets::http::{HttpError, HttpResponse, RequestId};
use widgets::network::{connection_flag, packed_ipv4};
use widgets::storage::{flash_range, RamStorage, PARTITION_OFFSET};
use widgets::time::TimerId;
use widgets::widget::executor::TestExec;
use widgets::widget::manager::{handle_http_events, handle_timer_events, http_event, EventQueue};
use widgets::widget::wasm::{config_reply, error_text, RenderState};
use widgets::widget::{WidgetEvent, WidgetId};

fn entry(t: &str, x: u32, y: u32, w: u32, h: u32) -> WidgetEntry {
    WidgetEntry { id: 1, widget_type: t.to_string(), x, y, width: w, height: h, config: BTreeMap::new() }
}

#[test]
fn validate_accepts_fitting_entry() {
    assert!(entry("clock_2-b", 0, 0, 64, 64).validate().is_ok());
    assert!(entry("ä", 63, 63, 1, 1).validate().is_ok());
}

#[test]
fn validate_errors() {
    assert_eq!(entry("", 0, 0, 1, 1).validate(), Err("Widget type cannot be empty".to_string()));
    assert_eq!(
        entry("a/b", 0, 0, 1, 1).validate(),
        Err("Widget type contains invalid characters".to_string())
    );
    assert_eq!(
        entry("a", 0, 0, 0, 1).validate(),
        Err("Widget dimensions must be greater than zero".to_string())
    );
    assert_eq!(
        entry("a", 60, 0, 5, 1).validate(),
        Err("Widget is out of display bounds (64x64)".to_string())
    );
    assert_eq!(
        entry("a", 0, 1, 1, 64).validate(),
        Err("Widget is out of display bounds (64x64)".to_string())
    );
}

#[test]
fn entry_paths_and_placement() {
    let e = entry("weather", 2, 3, 4, 5);
    assert_eq!(e.wasm_path(), "/widgets/weather.wasm");
    let p = e.placement();
    assert_eq!((p.origin.x, p.origin.y, p.size.width, p.size.height), (2, 3, 4, 5));
    let w = e.as_widget(Box::new(TestExec { ctx: None }));
    assert_eq!(w.id, WidgetId(1));
    let back = WidgetEntry::from_widget(&w);
    assert_eq!((back.id, back.widget_type.as_str(), back.x, back.height), (1, "weather", 2, 5));
}

#[test]
fn config_set_widgets() {
    let mut c = Config {
        wifi: WifiConfig { ssid: "s".to_string(), password: "p".to_string() },
        display: DisplayConfig { freq_mhz: 20 },
        widgets: vec![],
    };
    c.set_widgets(vec![entry("a", 0, 0, 1, 1)]);
    assert_eq!(c.widgets.len(), 1);
    assert_eq!(c.display.freq_mhz, 20);
}

#[test]
fn admin_ids_and_answers() {
    assert_eq!(next_widget_id(&vec![]), 1);
    assert_eq!(next_widget_id(&vec![3, 9, 2]), 10);
    assert_eq!(link_status(true), "ok");
    assert_eq!(link_status(false), "disconnected");
    let s = system_status(false, 5, None, 1, 2, 3);
    assert_eq!((s.status, s.ip.as_str(), s.widget_count), ("disconnected", "127.0.0.1", 3));
    let nf = widget_not_found(42);
    assert_eq!(nf.0, NOT_FOUND);
    assert_eq!(nf.1.error, "Widget with ID 42 not found");
}

#[test]
fn admin_plans() {
    assert_eq!(plan_add_widget(&entry("a", 0, 0, 1, 1), &vec![4]).ok(), Some(5));
    let bad = plan_add_widget(&entry("", 0, 0, 1, 1), &vec![]).err().unwrap();
    assert_eq!((bad.0, bad.1.error.as_str()), (BAD_REQUEST, "Widget type cannot be empty"));
    assert!(plan_replace_widget(7, &entry("a", 0, 0, 1, 1), true).is_ok());
    let missing = plan_replace_widget(7, &entry("a", 0, 0, 1, 1), false).err().unwrap();
    assert_eq!(missing.1.error, "Widget with ID 7 not found");
    assert!(plan_remove_widget(1, true).is_ok());
    assert_eq!(plan_remove_widget(2, false).err().unwrap().0, NOT_FOUND);
}

#[test]
fn upload_names() {
    assert_eq!(upload_path("clock.wasm").ok(), Some("/widgets/clock.wasm".to_string()));
    for name in ["", "../x.wasm", "a/b.wasm", "a\\b.wasm", "x..wasm"] {
        let e = upload_path(name).err().unwrap();
        assert_eq!(e.0, BAD_REQUEST);
        assert_eq!(e.1.error, "Invalid filename: directory traversal or path segments not allowed");
    }
    let e = upload_path("clock.txt").err().unwrap();
    assert_eq!(e.1.error, "Only .wasm files can be uploaded to the widgets directory");
    assert!(upload_path(".wasm").is_ok());
}

#[test]
fn content_types() {
    assert_eq!(content_type("/admin/index.html"), "text/html; charset=utf-8");
    assert_eq!(content_type("/a.css"), "text/css");
    assert_eq!(content_type("/a.js"), "application/javascript; charset=utf-8");
    assert_eq!(content_type("/a.json"), "application/json");
    assert_eq!(content_type("/a.wasm"), "application/octet-stream");
}

#[test]
fn events_grouped_per_widget_in_order() {
    let mut q = EventQueue::new();
    handle_timer_events(&mut q, vec![(WidgetId(5), TimerId(1)), (WidgetId(2), TimerId(7)), (WidgetId(5), TimerId(2))]);
    let ok = HttpResponse {
        request_id: RequestId(9),
        headers: Some(vec![("a".to_string(), "b".to_string())]),
        body: Some("x".to_string()),
        error: None,
    };
    let failed = HttpResponse { request_id: RequestId(10), headers: None, body: None, error: Some(HttpError::DnsQueryFailed) };
    handle_http_events(&mut q, vec![(WidgetId(2), ok), (WidgetId(5), failed)]);
    assert_eq!(q.len(), 2);
    let groups = q.take_groups();
    assert_eq!(q.len(), 0);
    assert_eq!(groups.len(), 2);
    assert_eq!(groups[0].0, WidgetId(2));
    assert_eq!(
        groups[0].1,
        vec![
            WidgetEvent::TimerInterrupt { timer_id: TimerId(7) },
            WidgetEvent::HttpResponse {
                request_id: 9,
                headers: vec![("a".to_string(), "b".to_string())],
                body: "x".to_string(),
                success: true,
            },
        ]
    );
    assert_eq!(groups[1].0, WidgetId(5));
    assert_eq!(
        groups[1].1,
        vec![
            WidgetEvent::TimerInterrupt { timer_id: TimerId(1) },
            WidgetEvent::TimerInterrupt { timer_id: TimerId(2) },
            WidgetEvent::HttpResponse { request_id: 10, headers: vec![], body: String::new(), success: false },
        ]
    );
}

#[test]
fn http_event_without_headers_is_failure() {
    let e = http_event(HttpResponse { request_id: RequestId(1), headers: None, body: Some("b".to_string()), error: None });
    assert_eq!(e, WidgetEvent::HttpResponse { request_id: 1, headers: vec![], body: "b".to_string(), success: false });
}

#[test]
fn error_label_and_config_reply() {
    let t = error_text(64, 20);
    assert_eq!(t.text, "ERROR");
    assert_eq!(t.position, Point::new(32, 10));
    assert_eq!(t.font, Font::Font5x8);
    assert_eq!(error_text(10, 13).font, Font::U8g2Font3x5);
    assert_eq!(config_reply(None, 10), -1);
    assert_eq!(config_reply(Some(4), 10), 4);
    assert_eq!(config_reply(Some(40), 10), 10);
}

#[test]
fn render_state_after_failures() {
    let mut s = RenderState::load_failed("bad magic");
    let plan = s.begin_render();
    assert_eq!(plan.log.as_deref(), Some("widget init failed: bad magic"));
    assert!(!plan.call_guest);
    assert!(s.begin_render().log.is_none());
    let mut ok = RenderState::loaded();
    assert!(ok.begin_render().call_guest);
    assert_eq!(ok.finish_render(Ok(())), None);
    assert!(ok.begin_render().call_guest);
    assert_eq!(ok.finish_render(Err("trap")).as_deref(), Some("widget render failed: trap"));
    assert!(!ok.begin_render().call_guest);
}

#[test]
fn ram_storage_read_write_erase() {
    let mut s = RamStorage::new(16);
    assert_eq!(s.read(0, 4), vec![0xff; 4]);
    assert_eq!(s.write(2, &[1, 2, 3]), 3);
    assert_eq!(s.read(1, 5), vec![0xff, 1, 2, 3, 0xff]);
    assert_eq!(s.erase(3, 1), 1);
    assert_eq!(s.read(2, 3), vec![1, 0xff, 3]);
    assert_eq!(flash_range(PARTITION_OFFSET, 0x100, 0x1000), (0x300100, 0x301100));
}

#[test]
fn network_values() {
    assert_eq!(connection_flag(true), 1);
    assert_eq!(connection_flag(false), 0);
    assert_eq!(packed_ipv4(Some([192, 168, 1, 20])), 0xC0A8_0114);
    assert_eq!(packed_ipv4(None), 0);
}

#[test]
fn console_line_names_widget() {
    assert_eq!(log_line(WidgetId(3), "hello"), "[widget WidgetId(3)] hello");
}

#[test]
fn allocator_switch() {
    let mut a = DualHeapAllocator::new();
    assert_eq!(a.region(), MemoryRegion::Internal);
    a.use_psram_heap();
    assert_eq!(a.region(), MemoryRegion::External);
    a.use_sram_heap();
    assert_eq!(a.region(), MemoryRegion::Internal);
    a.set_psram_alloc(true);
    assert_eq!(a.region(), MemoryRegion::External);
}
