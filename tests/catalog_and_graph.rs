use repan_stream::catalog::{query_statement, DatabaseError, QueryAmount, QueryTarget, SqlValue};
use repan_stream::graph::{build_plan, rollback, GraphStep, NodeKind};

#[test]
fn date_queries() {
    let all = query_statement(QueryTarget::Date, QueryAmount::All).unwrap();
    assert_eq!(all.sql, "SELECT date, id FROM jams");
    assert!(all.params.is_empty());
    let month = query_statement(QueryTarget::Date, QueryAmount::Month("2401".to_string())).unwrap();
    assert_eq!(month.sql, "SELECT date, id FROM jams WHERE SUBSTR(date, 1, 4) = ?1;");
    assert_eq!(month.params, vec![SqlValue::Text("2401".to_string())]);
    let days = query_statement(QueryTarget::Date, QueryAmount::MonthDays("2401".to_string())).unwrap();
    assert!(days.sql.starts_with("SELECT CAST(SUBSTR(date, 5, 2) AS INTEGER) AS day"));
}

#[test]
fn track_queries() {
    let one = query_statement(QueryTarget::Track(3), QueryAmount::One("kick".to_string())).unwrap();
    assert_eq!(one.sql, "SELECT track, id FROM tracks WHERE jam_id = ?1 AND track = ?2");
    assert_eq!(one.params, vec![SqlValue::Integer(3), SqlValue::Text("kick".to_string())]);
    let path = query_statement(QueryTarget::Path, QueryAmount::One("240101".to_string())).unwrap();
    assert_eq!(path.sql, "SELECT path, id FROM jams WHERE date = ?1");
}

#[test]
fn invalid_queries() {
    assert_eq!(query_statement(QueryTarget::Path, QueryAmount::Month("x".to_string())), Err(DatabaseError::InvalidQuery));
    assert_eq!(query_statement(QueryTarget::Track(1), QueryAmount::Day("x".to_string())), Err(DatabaseError::InvalidQuery));
}

fn add(name: &str, kind: NodeKind) -> GraphStep {
    GraphStep::Add { name: name.to_string(), kind, location: String::new() }
}

fn link(from: &str, to: &str) -> GraphStep {
    GraphStep::Link { from: from.to_string(), to: to.to_string() }
}

#[test]
fn plan_for_one_track() {
    let plan = build_plan("u1", &vec!["kick".to_string()], &vec!["/j/kick".to_string()]);
    assert_eq!(plan.len(), 1 + 14 + 8);
    assert_eq!(plan[0], add("mix", NodeKind::Mixer));
    assert_eq!(plan[1], GraphStep::Add { name: "kick".to_string(), kind: NodeKind::FileSource, location: "/j/kick".to_string() });
    assert_eq!(plan[10], add("kick_vol", NodeKind::Volume));
    assert_eq!(plan[12], add("kick_pan", NodeKind::Panorama));
    assert_eq!(plan[14], link("kick_pan", "mix"));
    assert_eq!(plan[21], add("webrtc-u1", NodeKind::Transport));
    assert_eq!(plan[22], link("payloader", "webrtc-u1"));
}

#[test]
fn rollback_removes_created_nodes_newest_first() {
    let plan = build_plan("u1", &vec!["a".to_string(), "b".to_string()], &vec!["pa".to_string(), "pb".to_string()]);
    assert_eq!(plan.len(), 1 + 28 + 8);
    assert_eq!(rollback(&plan, 0), Vec::<String>::new());
    assert_eq!(rollback(&plan, 4), vec!["a_parse".to_string(), "a".to_string(), "mix".to_string()]);
    let all = rollback(&plan, plan.len());
    assert_eq!(all.len(), 1 + 14 + 4);
    assert_eq!(all[0], "webrtc-u1");
    assert_eq!(all[all.len() - 1], "mix");
}
