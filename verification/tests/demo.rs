//! The demonstration pipeline and its runs.

use sparrow::demo::{
    check_stopped, hot_sensor_filter, parse_checkpoint_run, projected_sensor_schema,
    wait_http_at_least, Arrival, TWENTY_FIVE,
};
use sparrow::expr::{BinaryOp, Expr};
use sparrow::model::{DataType, ErrorCode, Scalar};

fn args(list: &[&str]) -> Vec<String> {
    list.iter().map(|s| s.to_string()).collect()
}

#[test]
fn the_demonstration_projects_three_columns() {
    let s = projected_sensor_schema();
    assert_eq!(s.id, 2);
    let names: Vec<&str> = s.fields.iter().map(|f| f.name.as_str()).collect();
    assert_eq!(names, vec!["device_id", "temperature", "ts"]);
    assert_eq!(s.fields[2].data_type, DataType::TimestampMicrosUTC);
    assert_eq!(s.fields[2].id, 4);
    assert_eq!(TWENTY_FIVE, 25.0f64.to_bits());
    let Expr::Binary { op, right, .. } = hot_sensor_filter() else { panic!("binary") };
    assert_eq!(op, BinaryOp::Gt);
    assert!(matches!(*right, Expr::Literal(Scalar::Float64(TWENTY_FIVE))));
}

#[test]
fn a_demonstration_waits_and_stops() {
    assert!(matches!(wait_http_at_least(2, 2, 9, 1, "io"), Arrival::Enough));
    assert!(matches!(wait_http_at_least(1, 2, 1, 1, "io"), Arrival::Wait));
    let Arrival::Late(e) = wait_http_at_least(1, 2, 2, 1, "io") else { panic!("late") };
    assert_eq!(e.message, "HTTP capture has 1 bodies, expected >= 2 (io)");
    assert!(check_stopped(0, 0).is_ok());
    let e = check_stopped(1, 2).unwrap_err();
    assert_eq!(
        (e.code, e.message.as_str()),
        (ErrorCode::Internal, "orphan kernel tasks after stop: job=1 kernel=2")
    );
}

#[test]
fn a_checkpoint_run_is_read() {
    let r = parse_checkpoint_run(&args(&["--data", "f", "--chk", "d"])).unwrap();
    assert_eq!((r.data.as_str(), r.chk.as_str()), ("f", "d"));
    assert_eq!((r.mode.as_str(), r.window.as_str(), r.until), ("gold", "count", None));
    assert_eq!(r.limit(), None);
    let r = parse_checkpoint_run(&args(&[
        "--data", "f", "--chk", "d", "--mode", "checkpoint", "--until", "x", "--window", "et",
    ]))
    .unwrap();
    assert_eq!((r.until, r.limit()), (Some(0), Some(0)));
    let r = parse_checkpoint_run(&args(&["--data", "f", "--chk", "d", "--mode", "checkpoint"])).unwrap();
    assert_eq!(r.limit(), Some(2));
    assert!(parse_checkpoint_run(&args(&["--data", "f"])).is_none());
    assert!(parse_checkpoint_run(&args(&["--data"])).is_none());
    assert!(parse_checkpoint_run(&args(&["--bogus", "x"])).is_none());
}
