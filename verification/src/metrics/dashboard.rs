//! Built-in dashboard: serializes a [`MetricsSnapshot`] to JSON, holds the
//! embedded HTML page, and decides which of the two a request is answered with.
//! The HTTP server itself belongs to the application.
use vstd::prelude::*;
use vstd::string::*;

use crate::metrics::{
    is_snapshot, MetricsSnapshot, MetricsState, ReporterState, StageStat, STAGE_NAMES,
};
use crate::text::{
    absent_occurs_never, decimal, decimal_reads_back, has_prefix, holds_part, is_digit, occurrences,
    occurrences_join, push_decimal, push_signed, signed_decimal, strung, strung_holds_neighbours,
    strung_push,
};

verus! {

/// The page: latency per stage, and the PnL and position as signed charts.
pub const INDEX_HTML: &'static str = r##"<!doctype html>
<html lang="en">
<head>
<meta charset="utf-8">
<title>CME MD Connector</title>
<style>
body { font: 14px/1.4 monospace; margin: 2em; background: #111; color: #ddd; }
table { border-collapse: collapse; margin: 1em 0; }
td, th { padding: 2px 12px; text-align: right; }
td:first-child, th:first-child { text-align: left; }
canvas { background: #1a1a1a; display: block; margin: 0.5em 0; }
</style>
</head>
<body>
<h1>CME MD Connector</h1>
<p id="summary">waiting for the first snapshot</p>
<table><thead><tr><th>stage</th><th>p50</th><th>p95</th><th>p99</th><th>max</th><th>count</th></tr></thead>
<tbody id="stages"></tbody></table>
<h2>PnL</h2>
<canvas id="c_pnl" width="640" height="120"></canvas>
<h2>Net position</h2>
<canvas id="c_pos" width="640" height="120"></canvas>
<script>
let pnl = [], pos = [];
function drawSigned(id, points) {
  let canvas = document.getElementById(id), g = canvas.getContext("2d");
  let w = canvas.width, h = canvas.height;
  let top = Math.max(1e-9, ...points.map(Math.abs));
  g.clearRect(0, 0, w, h);
  g.strokeStyle = "#444";
  g.beginPath(); g.moveTo(0, h / 2); g.lineTo(w, h / 2); g.stroke();
  g.strokeStyle = points.length && points[points.length - 1] < 0 ? "#e66" : "#6c6";
  g.beginPath();
  points.forEach((p, i) => g.lineTo(i * w / 240, h / 2 - p / top * (h / 2 - 4)));
  g.stroke();
}
function row(s) {
  let tr = document.createElement("tr");
  for (let key of ["stage", "p50", "p95", "p99", "max", "count"]) {
    let td = document.createElement("td");
    td.textContent = s[key];
    tr.appendChild(td);
  }
  return tr;
}
async function refresh() {
  let m = await (await fetch("/metrics.json")).json();
  document.getElementById("summary").textContent =
    Math.round(m.throughput_pps) + " pkt/s, " + m.ticks + " ticks, " + m.orders + " orders, " +
    m.rejects + " rejects, " + m.drops + " drops, timer " + m.timer_resolution_ns + " ns";
  document.getElementById("stages").replaceChildren(...m.cumulative.map(row));
  pnl.push(m.total_pnl); pos.push(m.net_position);
  if (pnl.length > 240) { pnl.shift(); pos.shift(); }
  drawSigned("c_pnl", pnl);
  drawSigned("c_pos", pos);
}
setInterval(refresh, 1000);
</script>
</body>
</html>
"##;

/// The object of one stage.
pub open spec fn stage_text(name: Seq<char>, s: StageStat) -> Seq<char> {
    "{"@ + "\"stage\":\""@ + name + "\",\"p50\":"@ + decimal(s.p50 as int) + ",\"p95\":"@ + decimal(
        s.p95 as int,
    ) + ",\"p99\":"@ + decimal(s.p99 as int) + ",\"max\":"@ + decimal(s.max as int)
        + ",\"count\":"@ + decimal(s.count as int) + "}"@
}

/// The objects of stages, separated by commas.
pub open spec fn joined_stages(stages: Seq<(&'static str, StageStat)>) -> Seq<char>
    decreases stages.len(),
{
    if stages.len() == 0 {
        Seq::empty()
    } else if stages.len() == 1 {
        stage_text(stages[0].0@, stages[0].1)
    } else {
        joined_stages(stages.drop_last()) + ","@ + stage_text(stages.last().0@, stages.last().1)
    }
}

/// The array of stages.
pub open spec fn stages_text(stages: Seq<(&'static str, StageStat)>) -> Seq<char> {
    "["@ + joined_stages(stages) + "]"@
}

/// The JSON text of a snapshot, with the throughput and the PnL as given.
pub open spec fn json_text(
    snap: MetricsSnapshot,
    throughput_pps: Seq<char>,
    total_pnl: Seq<char>,
) -> Seq<char> {
    "{"@ + "\"throughput_pps\":"@ + throughput_pps + ",\"ticks\":"@ + decimal(snap.ticks as int)
        + ",\"orders\":"@ + decimal(snap.orders as int) + ",\"rejects\":"@ + decimal(
        snap.rejects as int,
    ) + ",\"drops\":"@ + decimal(snap.drops as int) + ",\"timer_resolution_ns\":"@ + decimal(
        snap.timer_resolution_ns as int,
    ) + ",\"total_pnl\":"@ + total_pnl + ",\"net_position\":"@ + signed_decimal(
        snap.net_position as int,
    ) + ",\"interval\":"@ + stages_text(snap.interval@) + ",\"cumulative\":"@ + stages_text(
        snap.cumulative@,
    ) + "}"@
}

fn stage_json(name: &str, s: &StageStat) -> (r: String)
    ensures
        r@ == stage_text(name@, *s),
{
    let mut out = "{".to_owned();
    out.append("\"stage\":\"");
    out.append(name);
    out.append("\",\"p50\":");
    push_decimal(&mut out, s.p50);
    out.append(",\"p95\":");
    push_decimal(&mut out, s.p95);
    out.append(",\"p99\":");
    push_decimal(&mut out, s.p99);
    out.append(",\"max\":");
    push_decimal(&mut out, s.max);
    out.append(",\"count\":");
    push_decimal(&mut out, s.count);
    out.append("}");
    out
}

fn stages_json(stages: &Vec<(&'static str, StageStat)>) -> (r: String)
    ensures
        r@ == stages_text(stages@),
{
    let mut items = String::new();
    let mut i: usize = 0;
    while i < stages.len()
        invariant
            i <= stages@.len(),
            items@ == joined_stages(stages@.take(i as int)),
        decreases stages@.len() - i,
    {
        if i > 0 {
            items.append(",");
        }
        let item = stage_json(stages[i].0, &stages[i].1);
        items.append(item.as_str());
        proof {
            let longer = stages@.take(i + 1);
            assert(longer.drop_last() =~= stages@.take(i as int));
            assert(longer.last() == stages@[i as int]);
            if i == 0 {
                assert(items@ =~= stage_text(longer[0].0@, longer[0].1));
            }
        }
        i += 1;
    }
    assert(stages@.take(i as int) =~= stages@);
    let mut out = "[".to_owned();
    out.append(items.as_str());
    out.append("]");
    out
}

/// Serialize a snapshot to compact JSON. `throughput_pps` and `total_pnl` are
/// the two numbers that are not integers, already rendered.
pub fn to_json(snap: &MetricsSnapshot, throughput_pps: &str, total_pnl: &str) -> (r: String)
    ensures
        r@ == json_text(*snap, throughput_pps@, total_pnl@),
{
    let mut out = "{".to_owned();
    out.append("\"throughput_pps\":");
    out.append(throughput_pps);
    out.append(",\"ticks\":");
    push_decimal(&mut out, snap.ticks);
    out.append(",\"orders\":");
    push_decimal(&mut out, snap.orders);
    out.append(",\"rejects\":");
    push_decimal(&mut out, snap.rejects);
    out.append(",\"drops\":");
    push_decimal(&mut out, snap.drops);
    out.append(",\"timer_resolution_ns\":");
    push_decimal(&mut out, snap.timer_resolution_ns);
    out.append(",\"total_pnl\":");
    out.append(total_pnl);
    out.append(",\"net_position\":");
    push_signed(&mut out, snap.net_position);
    out.append(",\"interval\":");
    let interval = stages_json(&snap.interval);
    out.append(interval.as_str());
    out.append(",\"cumulative\":");
    let cumulative = stages_json(&snap.cumulative);
    out.append(cumulative.as_str());
    out.append("}");
    out
}

/// What a request is answered with.
#[derive(Debug, Clone, Copy, PartialEq, Eq, Structural)]
pub enum Page {
    Metrics,
    Index,
}

/// The page that a URL asks for: anything under `/metrics.json` is the latest
/// snapshot, everything else the HTML page.
pub open spec fn page_of(url: Seq<char>) -> Page {
    if "/metrics.json"@.is_prefix_of(url) {
        Page::Metrics
    } else {
        Page::Index
    }
}

/// The page that a URL asks for.
pub fn route(url: &str) -> (r: Page)
    ensures
        r == page_of(url@),
{
    if has_prefix(url, "/metrics.json") {
        Page::Metrics
    } else {
        Page::Index
    }
}

impl Page {
    /// The media type of a page.
    pub fn content_type(self) -> (r: &'static str)
        ensures
            r@ == if self is Metrics {
                "application/json"@
            } else {
                "text/html; charset=utf-8"@
            },
    {
        match self {
            Page::Metrics => "application/json",
            Page::Index => "text/html; charset=utf-8",
        }
    }
}

/// Whether text holds no brace.
pub open spec fn is_plain(s: Seq<char>) -> bool {
    forall|i: int| 0 <= i < s.len() ==> #[trigger] s[i] != '{' && s[i] != '}'
}

/// Whether text holds as many opening as closing braces.
pub open spec fn is_balanced(s: Seq<char>) -> bool {
    occurrences(s, '{') == occurrences(s, '}')
}

proof fn plain_is_balanced(s: Seq<char>)
    requires
        is_plain(s),
    ensures
        is_balanced(s),
{
    absent_occurs_never(s, '{');
    absent_occurs_never(s, '}');
}

/// How many more braces text opens than it closes.
spec fn excess(s: Seq<char>) -> int {
    occurrences(s, '{') - occurrences(s, '}')
}

/// Whether text starts with an opening brace.
spec fn opens(s: Seq<char>) -> bool {
    s.len() > 0 && s.first() == '{'
}

proof fn excess_join(a: Seq<char>, b: Seq<char>)
    ensures
        excess(a + b) == excess(a) + excess(b),
        opens(a) ==> opens(a + b),
{
    occurrences_join(a, b, '{');
    occurrences_join(a, b, '}');
}

proof fn plain_excess(s: Seq<char>)
    requires
        is_plain(s),
    ensures
        excess(s) == 0,
{
    plain_is_balanced(s);
}

proof fn decimal_is_plain(n: int)
    requires
        n >= 0,
    ensures
        is_plain(decimal(n)),
{
    decimal_reads_back(n);
    assert forall|i: int| 0 <= i < decimal(n).len() implies #[trigger] decimal(n)[i] != '{'
        && decimal(n)[i] != '}' by {
        assert(is_digit(decimal(n)[i]));
    }
}

proof fn brace_excess()
    ensures
        excess("{"@) == 1,
        excess("}"@) == -1,
{
    reveal_strlit("{");
    reveal_strlit("}");
    reveal_with_fuel(occurrences, 2);
}

/// Text extended by a plain part opens no more braces, and starts as before.
proof fn extend_plain(a: Seq<char>, b: Seq<char>)
    requires
        is_plain(b),
    ensures
        excess(a + b) == excess(a),
        opens(a) ==> opens(a + b),
{
    excess_join(a, b);
    plain_excess(b);
}

proof fn extend_decimal(a: Seq<char>, n: int)
    requires
        n >= 0,
    ensures
        excess(a + decimal(n)) == excess(a),
        opens(a) ==> opens(a + decimal(n)),
{
    decimal_is_plain(n);
    extend_plain(a, decimal(n));
}

proof fn stage_is_balanced(name: Seq<char>, s: StageStat)
    requires
        is_plain(name),
    ensures
        excess(stage_text(name, s)) == 0,
{
    reveal_strlit("\"stage\":\"");
    reveal_strlit("\",\"p50\":");
    reveal_strlit(",\"p95\":");
    reveal_strlit(",\"p99\":");
    reveal_strlit(",\"max\":");
    reveal_strlit(",\"count\":");
    brace_excess();
    let t0 = "{"@;
    let t1 = t0 + "\"stage\":\""@;
    extend_plain(t0, "\"stage\":\""@);
    let t2 = t1 + name;
    extend_plain(t1, name);
    let t3 = t2 + "\",\"p50\":"@;
    extend_plain(t2, "\",\"p50\":"@);
    let t4 = t3 + decimal(s.p50 as int);
    extend_decimal(t3, s.p50 as int);
    let t5 = t4 + ",\"p95\":"@;
    extend_plain(t4, ",\"p95\":"@);
    let t6 = t5 + decimal(s.p95 as int);
    extend_decimal(t5, s.p95 as int);
    let t7 = t6 + ",\"p99\":"@;
    extend_plain(t6, ",\"p99\":"@);
    let t8 = t7 + decimal(s.p99 as int);
    extend_decimal(t7, s.p99 as int);
    let t9 = t8 + ",\"max\":"@;
    extend_plain(t8, ",\"max\":"@);
    let t10 = t9 + decimal(s.max as int);
    extend_decimal(t9, s.max as int);
    let t11 = t10 + ",\"count\":"@;
    extend_plain(t10, ",\"count\":"@);
    let t12 = t11 + decimal(s.count as int);
    extend_decimal(t11, s.count as int);
    excess_join(t12, "}"@);
}

/// Whether every stage name is plain.
pub open spec fn names_are_plain(stages: Seq<(&'static str, StageStat)>) -> bool {
    forall|i: int| 0 <= i < stages.len() ==> is_plain((#[trigger] stages[i]).0@)
}

proof fn joined_are_balanced(stages: Seq<(&'static str, StageStat)>)
    requires
        names_are_plain(stages),
    ensures
        excess(joined_stages(stages)) == 0,
    decreases stages.len(),
{
    if stages.len() == 1 {
        stage_is_balanced(stages[0].0@, stages[0].1);
    } else if stages.len() > 1 {
        reveal_strlit(",");
        joined_are_balanced(stages.drop_last());
        extend_plain(joined_stages(stages.drop_last()), ","@);
        stage_is_balanced(stages.last().0@, stages.last().1);
        excess_join(
            joined_stages(stages.drop_last()) + ","@,
            stage_text(stages.last().0@, stages.last().1),
        );
    }
}

proof fn extend_stages(a: Seq<char>, stages: Seq<(&'static str, StageStat)>)
    requires
        names_are_plain(stages),
    ensures
        excess(a + stages_text(stages)) == excess(a),
        opens(a) ==> opens(a + stages_text(stages)),
{
    reveal_strlit("[");
    reveal_strlit("]");
    joined_are_balanced(stages);
    plain_excess("["@);
    excess_join("["@, joined_stages(stages));
    extend_plain("["@ + joined_stages(stages), "]"@);
    excess_join(a, stages_text(stages));
}

proof fn stage_names_are_plain()
    ensures
        forall|i: int| 0 <= i < 7 ==> is_plain((#[trigger] STAGE_NAMES@[i])@),
{
    reveal_strlit("decode");
    reveal_strlit("book");
    reveal_strlit("signal");
    reveal_strlit("risk");
    reveal_strlit("gateway");
    reveal_strlit("tick_to_signal");
    reveal_strlit("tick_to_order");
}

/// The JSON of every snapshot that a reporter takes is one object.
pub proof fn reported_json_is_balanced(
    snap: MetricsSnapshot,
    before: ReporterState,
    m: MetricsState,
    throughput_pps: Seq<char>,
    total_pnl: Seq<char>,
)
    requires
        is_snapshot(snap, before, m),
        is_plain(throughput_pps),
        is_plain(total_pnl),
    ensures
        is_balanced(json_text(snap, throughput_pps, total_pnl)),
        json_text(snap, throughput_pps, total_pnl).len() > 0,
        json_text(snap, throughput_pps, total_pnl).first() == '{',
        json_text(snap, throughput_pps, total_pnl).last() == '}',
{
    stage_names_are_plain();
    assert forall|i: int| 0 <= i < snap.interval@.len() implies is_plain(
        (#[trigger] snap.interval@[i]).0@,
    ) by {
        assert(snap.interval@[i].0 == STAGE_NAMES@[i]);
    }
    assert forall|i: int| 0 <= i < snap.cumulative@.len() implies is_plain(
        (#[trigger] snap.cumulative@[i]).0@,
    ) by {
        assert(snap.cumulative@[i].0 == STAGE_NAMES@[i]);
    }
    json_is_balanced(snap, throughput_pps, total_pnl);
}

/// The JSON of a snapshot is one object: it starts with an opening brace, ends
/// with a closing one, and holds as many of one as of the other.
pub proof fn json_is_balanced(
    snap: MetricsSnapshot,
    throughput_pps: Seq<char>,
    total_pnl: Seq<char>,
)
    requires
        is_plain(throughput_pps),
        is_plain(total_pnl),
        names_are_plain(snap.interval@),
        names_are_plain(snap.cumulative@),
    ensures
        is_balanced(json_text(snap, throughput_pps, total_pnl)),
        json_text(snap, throughput_pps, total_pnl).len() > 0,
        json_text(snap, throughput_pps, total_pnl).first() == '{',
        json_text(snap, throughput_pps, total_pnl).last() == '}',
{
    reveal_strlit("\"throughput_pps\":");
    reveal_strlit(",\"ticks\":");
    reveal_strlit(",\"orders\":");
    reveal_strlit(",\"rejects\":");
    reveal_strlit(",\"drops\":");
    reveal_strlit(",\"timer_resolution_ns\":");
    reveal_strlit(",\"total_pnl\":");
    reveal_strlit(",\"net_position\":");
    reveal_strlit(",\"interval\":");
    reveal_strlit(",\"cumulative\":");
    reveal_strlit("{");
    reveal_strlit("}");
    brace_excess();
    let t0 = "{"@;
    let t1 = t0 + "\"throughput_pps\":"@;
    extend_plain(t0, "\"throughput_pps\":"@);
    let t2 = t1 + throughput_pps;
    extend_plain(t1, throughput_pps);
    let t3 = t2 + ",\"ticks\":"@;
    extend_plain(t2, ",\"ticks\":"@);
    let t4 = t3 + decimal(snap.ticks as int);
    extend_decimal(t3, snap.ticks as int);
    let t5 = t4 + ",\"orders\":"@;
    extend_plain(t4, ",\"orders\":"@);
    let t6 = t5 + decimal(snap.orders as int);
    extend_decimal(t5, snap.orders as int);
    let t7 = t6 + ",\"rejects\":"@;
    extend_plain(t6, ",\"rejects\":"@);
    let t8 = t7 + decimal(snap.rejects as int);
    extend_decimal(t7, snap.rejects as int);
    let t9 = t8 + ",\"drops\":"@;
    extend_plain(t8, ",\"drops\":"@);
    let t10 = t9 + decimal(snap.drops as int);
    extend_decimal(t9, snap.drops as int);
    let t11 = t10 + ",\"timer_resolution_ns\":"@;
    extend_plain(t10, ",\"timer_resolution_ns\":"@);
    let t12 = t11 + decimal(snap.timer_resolution_ns as int);
    extend_decimal(t11, snap.timer_resolution_ns as int);
    let t13 = t12 + ",\"total_pnl\":"@;
    extend_plain(t12, ",\"total_pnl\":"@);
    let t14 = t13 + total_pnl;
    extend_plain(t13, total_pnl);
    let t15 = t14 + ",\"net_position\":"@;
    extend_plain(t14, ",\"net_position\":"@);
    let net = snap.net_position as int;
    let t16 = t15 + signed_decimal(net);
    if net < 0 {
        decimal_is_plain(-net);
    } else {
        decimal_is_plain(net);
    }
    extend_plain(t15, signed_decimal(net));
    let t17 = t16 + ",\"interval\":"@;
    extend_plain(t16, ",\"interval\":"@);
    let t18 = t17 + stages_text(snap.interval@);
    extend_stages(t17, snap.interval@);
    let t19 = t18 + ",\"cumulative\":"@;
    extend_plain(t18, ",\"cumulative\":"@);
    let t20 = t19 + stages_text(snap.cumulative@);
    extend_stages(t19, snap.cumulative@);
    excess_join(t20, "}"@);
    let text = json_text(snap, throughput_pps, total_pnl);
    assert(text == t20 + "}"@);
    assert(text.last() == '}');
}

/// Each value of a snapshot stands in its JSON behind its own key and before the
/// next one.
pub proof fn json_shows_each_value(
    snap: MetricsSnapshot,
    throughput_pps: Seq<char>,
    total_pnl: Seq<char>,
)
    ensures
        holds_part(
            json_text(snap, throughput_pps, total_pnl),
            "\"throughput_pps\":"@ + throughput_pps + ",\"ticks\":"@,
        ),
        holds_part(
            json_text(snap, throughput_pps, total_pnl),
            ",\"ticks\":"@ + decimal(snap.ticks as int) + ",\"orders\":"@,
        ),
        holds_part(
            json_text(snap, throughput_pps, total_pnl),
            ",\"orders\":"@ + decimal(snap.orders as int) + ",\"rejects\":"@,
        ),
        holds_part(
            json_text(snap, throughput_pps, total_pnl),
            ",\"rejects\":"@ + decimal(snap.rejects as int) + ",\"drops\":"@,
        ),
        holds_part(
            json_text(snap, throughput_pps, total_pnl),
            ",\"drops\":"@ + decimal(snap.drops as int) + ",\"timer_resolution_ns\":"@,
        ),
        holds_part(
            json_text(snap, throughput_pps, total_pnl),
            ",\"timer_resolution_ns\":"@ + decimal(snap.timer_resolution_ns as int) + ",\"total_pnl\":"@,
        ),
        holds_part(
            json_text(snap, throughput_pps, total_pnl),
            ",\"total_pnl\":"@ + total_pnl + ",\"net_position\":"@,
        ),
        holds_part(
            json_text(snap, throughput_pps, total_pnl),
            ",\"net_position\":"@ + signed_decimal(snap.net_position as int) + ",\"interval\":"@,
        ),
        holds_part(
            json_text(snap, throughput_pps, total_pnl),
            ",\"interval\":"@ + stages_text(snap.interval@) + ",\"cumulative\":"@,
        ),
        holds_part(
            json_text(snap, throughput_pps, total_pnl),
            ",\"cumulative\":"@ + stages_text(snap.cumulative@) + "}"@,
        ),
{
    let p0: Seq<Seq<char>> = Seq::empty();
    let p1 = p0.push("{"@);
    strung_push(p0, "{"@);
    let p2 = p1.push("\"throughput_pps\":"@);
    strung_push(p1, "\"throughput_pps\":"@);
    let p3 = p2.push(throughput_pps);
    strung_push(p2, throughput_pps);
    let p4 = p3.push(",\"ticks\":"@);
    strung_push(p3, ",\"ticks\":"@);
    let p5 = p4.push(decimal(snap.ticks as int));
    strung_push(p4, decimal(snap.ticks as int));
    let p6 = p5.push(",\"orders\":"@);
    strung_push(p5, ",\"orders\":"@);
    let p7 = p6.push(decimal(snap.orders as int));
    strung_push(p6, decimal(snap.orders as int));
    let p8 = p7.push(",\"rejects\":"@);
    strung_push(p7, ",\"rejects\":"@);
    let p9 = p8.push(decimal(snap.rejects as int));
    strung_push(p8, decimal(snap.rejects as int));
    let p10 = p9.push(",\"drops\":"@);
    strung_push(p9, ",\"drops\":"@);
    let p11 = p10.push(decimal(snap.drops as int));
    strung_push(p10, decimal(snap.drops as int));
    let p12 = p11.push(",\"timer_resolution_ns\":"@);
    strung_push(p11, ",\"timer_resolution_ns\":"@);
    let p13 = p12.push(decimal(snap.timer_resolution_ns as int));
    strung_push(p12, decimal(snap.timer_resolution_ns as int));
    let p14 = p13.push(",\"total_pnl\":"@);
    strung_push(p13, ",\"total_pnl\":"@);
    let p15 = p14.push(total_pnl);
    strung_push(p14, total_pnl);
    let p16 = p15.push(",\"net_position\":"@);
    strung_push(p15, ",\"net_position\":"@);
    let p17 = p16.push(signed_decimal(snap.net_position as int));
    strung_push(p16, signed_decimal(snap.net_position as int));
    let p18 = p17.push(",\"interval\":"@);
    strung_push(p17, ",\"interval\":"@);
    let p19 = p18.push(stages_text(snap.interval@));
    strung_push(p18, stages_text(snap.interval@));
    let p20 = p19.push(",\"cumulative\":"@);
    strung_push(p19, ",\"cumulative\":"@);
    let p21 = p20.push(stages_text(snap.cumulative@));
    strung_push(p20, stages_text(snap.cumulative@));
    let p22 = p21.push("}"@);
    strung_push(p21, "}"@);
    assert(strung(p1) =~= "{"@);
    assert(strung(p22) == json_text(snap, throughput_pps, total_pnl));
    strung_holds_neighbours(p22, 1);
    strung_holds_neighbours(p22, 3);
    strung_holds_neighbours(p22, 5);
    strung_holds_neighbours(p22, 7);
    strung_holds_neighbours(p22, 9);
    strung_holds_neighbours(p22, 11);
    strung_holds_neighbours(p22, 13);
    strung_holds_neighbours(p22, 15);
    strung_holds_neighbours(p22, 17);
    strung_holds_neighbours(p22, 19);
}

/// Each value of a stage stands in its object behind its own key and before the
/// next one.
pub proof fn stages_show_each_value(name: Seq<char>, s: StageStat)
    ensures
        holds_part(stage_text(name, s), "\"stage\":\""@ + name + "\",\"p50\":"@),
        holds_part(stage_text(name, s), "\",\"p50\":"@ + decimal(s.p50 as int) + ",\"p95\":"@),
        holds_part(stage_text(name, s), ",\"p95\":"@ + decimal(s.p95 as int) + ",\"p99\":"@),
        holds_part(stage_text(name, s), ",\"p99\":"@ + decimal(s.p99 as int) + ",\"max\":"@),
        holds_part(stage_text(name, s), ",\"max\":"@ + decimal(s.max as int) + ",\"count\":"@),
        holds_part(stage_text(name, s), ",\"count\":"@ + decimal(s.count as int) + "}"@),
{
    let p0: Seq<Seq<char>> = Seq::empty();
    let p1 = p0.push("{"@);
    strung_push(p0, "{"@);
    let p2 = p1.push("\"stage\":\""@);
    strung_push(p1, "\"stage\":\""@);
    let p3 = p2.push(name);
    strung_push(p2, name);
    let p4 = p3.push("\",\"p50\":"@);
    strung_push(p3, "\",\"p50\":"@);
    let p5 = p4.push(decimal(s.p50 as int));
    strung_push(p4, decimal(s.p50 as int));
    let p6 = p5.push(",\"p95\":"@);
    strung_push(p5, ",\"p95\":"@);
    let p7 = p6.push(decimal(s.p95 as int));
    strung_push(p6, decimal(s.p95 as int));
    let p8 = p7.push(",\"p99\":"@);
    strung_push(p7, ",\"p99\":"@);
    let p9 = p8.push(decimal(s.p99 as int));
    strung_push(p8, decimal(s.p99 as int));
    let p10 = p9.push(",\"max\":"@);
    strung_push(p9, ",\"max\":"@);
    let p11 = p10.push(decimal(s.max as int));
    strung_push(p10, decimal(s.max as int));
    let p12 = p11.push(",\"count\":"@);
    strung_push(p11, ",\"count\":"@);
    let p13 = p12.push(decimal(s.count as int));
    strung_push(p12, decimal(s.count as int));
    let p14 = p13.push("}"@);
    strung_push(p13, "}"@);
    assert(strung(p1) =~= "{"@);
    assert(strung(p14) == stage_text(name, s));
    strung_holds_neighbours(p14, 1);
    strung_holds_neighbours(p14, 3);
    strung_holds_neighbours(p14, 5);
    strung_holds_neighbours(p14, 7);
    strung_holds_neighbours(p14, 9);
    strung_holds_neighbours(p14, 11);
}

/// The objects of stages follow each other in order, with a comma between them,
/// inside brackets.
pub proof fn stages_are_listed_in_order(
    x: Seq<(&'static str, StageStat)>,
    y: Seq<(&'static str, StageStat)>,
    name: &'static str,
    s: StageStat,
)
    requires
        x.len() > 0,
        y.len() > 0,
    ensures
        joined_stages(x + y) == joined_stages(x) + ","@ + joined_stages(y),
        joined_stages(seq![(name, s)]) == stage_text(name@, s),
        stages_text(Seq::empty()) == "["@ + "]"@,
        stages_text(x) == "["@ + joined_stages(x) + "]"@,
    decreases y.len(),
{
    assert("["@ + Seq::<char>::empty() =~= "["@);
    assert((x + y).drop_last() =~= x + y.drop_last());
    assert((x + y).last() == y.last());
    if y.len() == 1 {
        assert(x + y.drop_last() =~= x);
        assert(y.last() == y[0]);
    } else {
        stages_are_listed_in_order(x, y.drop_last(), name, s);
        assert(joined_stages(x + y) =~= joined_stages(x) + ","@ + joined_stages(y));
    }
}

/// The latest snapshot is served to every URL that starts with `/metrics.json`,
/// whatever follows, and the page to every other.
pub proof fn urls_are_routed_by_their_start(rest: Seq<char>, url: Seq<char>)
    ensures
        page_of("/metrics.json"@ + rest) is Metrics,
        url.len() < 13 ==> page_of(url) is Index,
        url.len() >= 13 && url.take(13) != "/metrics.json"@ ==> page_of(url) is Index,
{
    reveal_strlit("/metrics.json");
    assert(("/metrics.json"@ + rest).subrange(0, 13) =~= "/metrics.json"@);
    assert(url.len() >= 13 ==> url.subrange(0, 13) =~= url.take(13));
}

} // verus!
