use cme_md_connector::metrics::dashboard::{route, to_json, Page, INDEX_HTML};
use cme_md_connector::metrics::{MetricsSnapshot, StageStat};

fn sample_snapshot() -> MetricsSnapshot {
    MetricsSnapshot {
        interval: vec![(
            "decode",
            StageStat {
                p50: 100,
                p95: 200,
                p99: 300,
                max: 400,
                count: 10,
            },
        )],
        cumulative: vec![(
            "decode",
            StageStat {
                p50: 110,
                p95: 210,
                p99: 310,
                max: 410,
                count: 100,
            },
        )],
        ticks: 100,
        orders: 5,
        rejects: 2,
        drops: 0,
        timer_resolution_ns: 42,
        net_position: -7,
        ..Default::default()
    }
}

fn render(snap: &MetricsSnapshot, throughput_pps: f64, total_pnl: f64) -> String {
    to_json(snap, &format!("{throughput_pps:.3}"), &format!("{total_pnl:.4}"))
}

#[test]
fn json_includes_stage_names_and_top_level_fields() {
    let json = render(&sample_snapshot(), 12345.678, -123.45);
    assert!(json.contains("\"stage\":\"decode\""));
    assert!(json.contains("\"throughput_pps\":12345.678"));
    assert!(json.contains("\"timer_resolution_ns\":42"));
    assert!(json.contains("\"total_pnl\":-123.4500"));
    assert!(json.contains("\"net_position\":-7"));
    assert!(json.contains("\"p99\":300"));
    assert!(json.contains("\"interval\""));
    assert!(json.contains("\"cumulative\""));
}

#[test]
fn index_html_includes_pnl_and_position_charts() {
    // Guards against the embedded page drifting away from the PnL and position
    // graphs (there is no JS test harness, so assert the canvases and the shared
    // signed renderer are present).
    assert!(
        INDEX_HTML.contains("id=\"c_pnl\""),
        "dashboard.html is missing the PnL chart canvas"
    );
    assert!(
        INDEX_HTML.contains("id=\"c_pos\""),
        "dashboard.html is missing the position chart canvas"
    );
    assert!(
        INDEX_HTML.contains("drawSigned"),
        "dashboard.html is missing the shared drawSigned renderer"
    );
}

#[test]
fn json_is_balanced_braces() {
    let json = render(&sample_snapshot(), 12345.678, -123.45);
    let open = json.chars().filter(|&c| c == '{').count();
    let close = json.chars().filter(|&c| c == '}').count();
    assert_eq!(open, close, "unbalanced braces in {json}");
}

#[test]
fn json_is_exactly_this() {
    let mut snap = sample_snapshot();
    snap.cumulative.push(("book", StageStat::default()));
    snap.interval.clear();
    let json = render(&snap, 0.0, 1.5);
    let want = "{\"throughput_pps\":0.000,\"ticks\":100,\"orders\":5,\"rejects\":2,\"drops\":0,\
\"timer_resolution_ns\":42,\"total_pnl\":1.5000,\"net_position\":-7,\"interval\":[],\
\"cumulative\":[{\"stage\":\"decode\",\"p50\":110,\"p95\":210,\"p99\":310,\"max\":410,\"count\":100},\
{\"stage\":\"book\",\"p50\":0,\"p95\":0,\"p99\":0,\"max\":0,\"count\":0}]}";
    assert_eq!(json, want);
    assert!(json.starts_with('{') && json.ends_with('}'));
}

#[test]
fn extreme_numbers_are_rendered_in_full() {
    let snap = MetricsSnapshot {
        ticks: u64::MAX,
        net_position: i64::MIN,
        ..Default::default()
    };
    let json = render(&snap, 0.0, 0.0);
    assert!(json.contains(&format!("\"ticks\":{}", u64::MAX)));
    assert!(json.contains(&format!("\"net_position\":{}", i64::MIN)));
}

#[test]
fn requests_are_routed_by_their_path() {
    assert_eq!(route("/metrics.json"), Page::Metrics);
    assert_eq!(route("/metrics.json?t=1"), Page::Metrics);
    assert_eq!(route("/"), Page::Index);
    assert_eq!(route("/metrics.jso"), Page::Index);
    assert_eq!(route(""), Page::Index);
    assert_eq!(Page::Metrics.content_type(), "application/json");
    assert_eq!(Page::Index.content_type(), "text/html; charset=utf-8");
}
