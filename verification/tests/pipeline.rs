use remote_touchpad::event::{Action, ClientEvent, MoveData};
use remote_touchpad::interp::Interpreter;

fn milli(v: f64) -> i64 {
    (v * 1000.0).round() as i64
}

#[test]
fn json_mouse_move_end_to_end() {
    let text = r#"{"type":"MouseMove","dx":5,"dy":0,"sx":0.2,"sy":0,"touches":1,"width":1000,"height":1000,"x":500,"y":500}"#;
    let v: serde_json::Value = serde_json::from_str(text).unwrap();
    assert_eq!(v.get("type").unwrap().as_str().unwrap(), "MouseMove");
    let d = MoveData::clamped(
        milli(v.get("dx").unwrap().as_f64().unwrap()),
        milli(v.get("dy").unwrap().as_f64().unwrap()),
        milli(v.get("sx").unwrap().as_f64().unwrap()),
        milli(v.get("sy").unwrap().as_f64().unwrap()),
        v.get("touches").unwrap().as_i64().unwrap() as i32,
        milli(v.get("width").unwrap().as_f64().unwrap()),
        milli(v.get("height").unwrap().as_f64().unwrap()),
        milli(v.get("x").unwrap().as_f64().unwrap()),
        milli(v.get("y").unwrap().as_f64().unwrap()),
    );
    let mut it = Interpreter::new();
    let actions: Vec<Action> = it.step(&ClientEvent::MouseMove(d), 0).into_iter().collect();
    // Exactly one actuation, a relative move of exactly (5, 0), and no
    // scroll tick: the speed 0.2 lies in the precision regime, and the
    // 5 px delta scaled by 0.9 rounds half-away back to 5.
    assert_eq!(actions.len(), 1);
    assert_eq!(actions[0], Action::MoveRelative { dx: 5, dy: 0 });
    assert!(!matches!(actions[0], Action::ScrollY { .. }));
}
