use pixel_canvas::canvas::{
    Canvas, CellUpdated, GetCanvas, GetCell, ListenerConnected, ListenerDisconnected, ListenerId,
    UpdateCell,
};
use pixel_canvas::config::{CanvasConfig, CanvasSaveConfig};
use pixel_canvas::errors::{Axis, OutOfBounds};

fn ten_by_ten() -> CanvasConfig {
    CanvasConfig {
        width: 10,
        height: 10,
        save: CanvasSaveConfig { interval: 2000, path: String::from("canvas.bin") },
    }
}

#[test]
fn fresh_grid_reads_zero() {
    // No snapshot at startup: a fresh grid, every cell zero.
    let canvas = Canvas::new(ten_by_ten());
    assert_eq!(canvas.get_cell(GetCell { x: 5, y: 5 }), Ok(0));
    assert_eq!(canvas.get_cell(GetCell { x: 0, y: 0 }), Ok(0));
    assert_eq!(canvas.get_cell(GetCell { x: 9, y: 9 }), Ok(0));
}

#[test]
fn write_then_read_back() {
    let mut canvas = Canvas::new(ten_by_ten());
    canvas.listener_connected(ListenerConnected { addr: ListenerId(1) });
    let b = canvas
        .update_cell(UpdateCell { x: 3, y: 4, color: 200 })
        .expect("in-bounds write succeeds");
    assert_eq!(canvas.get_cell(GetCell { x: 3, y: 4 }), Ok(200));
    assert_eq!(b.update, CellUpdated { x: 3, y: 4, color: 200 });
    assert_eq!(b.listeners, vec![ListenerId(1)]);
}

#[test]
fn read_out_of_bounds_names_the_axis() {
    let canvas = Canvas::new(ten_by_ten());
    let e = canvas.get_cell(GetCell { x: 10, y: 4 }).unwrap_err();
    assert_eq!(e, OutOfBounds { axis: Axis::X, limit: 10, value: 10 });
    assert_eq!(
        e.message(),
        "x out of bounds: the width is 10 but the x is 10"
    );
}

#[test]
fn write_out_of_bounds_changes_nothing() {
    let mut canvas = Canvas::new(ten_by_ten());
    canvas.update_cell(UpdateCell { x: 2, y: 2, color: 7 }).unwrap();
    let before = canvas.save();

    let e = canvas.update_cell(UpdateCell { x: 3, y: 10, color: 99 }).unwrap_err();
    assert_eq!(e, OutOfBounds { axis: Axis::Y, limit: 10, value: 10 });
    assert_eq!(
        e.message(),
        "y out of bounds: the height is 10 but the y is 10"
    );

    let e = canvas.update_cell(UpdateCell { x: 10, y: 3, color: 99 }).unwrap_err();
    assert_eq!(e, OutOfBounds { axis: Axis::X, limit: 10, value: 10 });

    assert_eq!(canvas.save(), before);
}

#[test]
fn corner_cells_are_addressable() {
    let mut canvas = Canvas::new(ten_by_ten());
    canvas.update_cell(UpdateCell { x: 9, y: 9, color: 1 }).unwrap();
    canvas.update_cell(UpdateCell { x: 0, y: 0, color: 2 }).unwrap();
    assert_eq!(canvas.get_cell(GetCell { x: 9, y: 9 }), Ok(1));
    assert_eq!(canvas.get_cell(GetCell { x: 0, y: 0 }), Ok(2));
}

#[test]
fn last_write_wins() {
    let mut canvas = Canvas::new(ten_by_ten());
    canvas.update_cell(UpdateCell { x: 1, y: 1, color: 10 }).unwrap();
    canvas.update_cell(UpdateCell { x: 1, y: 1, color: 20 }).unwrap();
    canvas.update_cell(UpdateCell { x: 2, y: 1, color: 30 }).unwrap();
    assert_eq!(canvas.get_cell(GetCell { x: 1, y: 1 }), Ok(20));
    assert_eq!(canvas.get_cell(GetCell { x: 2, y: 1 }), Ok(30));
}

#[test]
fn grid_is_row_major() {
    let mut canvas = Canvas::new(ten_by_ten());
    canvas.update_cell(UpdateCell { x: 3, y: 4, color: 200 }).unwrap();
    let snapshot = canvas.get_canvas(GetCanvas);
    assert_eq!(snapshot.len(), 100);
    assert_eq!(snapshot[4 * 10 + 3], 200);
    assert_eq!(snapshot.iter().filter(|&&c| c != 0).count(), 1);
}

#[test]
fn save_load_round_trip() {
    let mut canvas = Canvas::new(ten_by_ten());
    canvas.update_cell(UpdateCell { x: 3, y: 4, color: 200 }).unwrap();
    canvas.update_cell(UpdateCell { x: 0, y: 9, color: 17 }).unwrap();

    let saved = canvas.save();
    let reloaded = Canvas::load(ten_by_ten(), saved.clone()).expect("exact size loads");
    assert_eq!(reloaded.save(), saved);
    assert_eq!(reloaded.get_cell(GetCell { x: 3, y: 4 }), Ok(200));
    assert_eq!(reloaded.get_cell(GetCell { x: 0, y: 9 }), Ok(17));
}

#[test]
fn periodic_save_survives_crash_and_restart() {
    // Saves run on their interval; writes after the last completed save are
    // lost, and a restart reproduces exactly the grid of that save.
    let config = ten_by_ten();
    assert_eq!(config.save.interval, 2000);

    let mut canvas = Canvas::new(config);
    canvas.update_cell(UpdateCell { x: 5, y: 5, color: 42 }).unwrap();
    let last_completed_save = canvas.save();
    canvas.update_cell(UpdateCell { x: 6, y: 6, color: 43 }).unwrap();
    drop(canvas);

    let restarted = Canvas::load(ten_by_ten(), last_completed_save.clone()).unwrap();
    assert_eq!(restarted.save(), last_completed_save);
    assert_eq!(restarted.get_cell(GetCell { x: 5, y: 5 }), Ok(42));
    assert_eq!(restarted.get_cell(GetCell { x: 6, y: 6 }), Ok(0));
}

#[test]
fn load_rejects_wrong_size() {
    let e = Canvas::load(ten_by_ten(), vec![0u8; 3]).unwrap_err();
    assert_eq!(e.expected, 100);
    assert_eq!(e.actual, 3);
    assert_eq!(e.message(), "snapshot has 3 bytes but the canvas needs 100");

    assert!(Canvas::load(ten_by_ten(), vec![0u8; 101]).is_err());
    assert!(Canvas::load(ten_by_ten(), vec![0u8; 100]).is_ok());
}

#[test]
fn register_is_idempotent() {
    let mut canvas = Canvas::new(ten_by_ten());
    canvas.listener_connected(ListenerConnected { addr: ListenerId(1) });
    canvas.listener_connected(ListenerConnected { addr: ListenerId(1) });
    let b = canvas.update_cell(UpdateCell { x: 0, y: 0, color: 1 }).unwrap();
    assert_eq!(b.listeners, vec![ListenerId(1)]);
}

#[test]
fn unregister_unknown_listener_is_safe() {
    let mut canvas = Canvas::new(ten_by_ten());
    canvas.listener_disconnected(ListenerDisconnected { addr: ListenerId(9) });
    canvas.listener_connected(ListenerConnected { addr: ListenerId(1) });
    canvas.listener_disconnected(ListenerDisconnected { addr: ListenerId(1) });
    canvas.listener_disconnected(ListenerDisconnected { addr: ListenerId(1) });
    let b = canvas.update_cell(UpdateCell { x: 0, y: 0, color: 1 }).unwrap();
    assert_eq!(b.listeners, Vec::<ListenerId>::new());
}

#[test]
fn broadcast_reaches_every_registered_listener() {
    // Two listeners connected; a write (whichever connection carried it)
    // notifies both.
    let mut canvas = Canvas::new(ten_by_ten());
    canvas.listener_connected(ListenerConnected { addr: ListenerId(1) });
    canvas.listener_connected(ListenerConnected { addr: ListenerId(2) });
    let b = canvas.update_cell(UpdateCell { x: 3, y: 4, color: 200 }).unwrap();
    assert_eq!(b.update, CellUpdated { x: 3, y: 4, color: 200 });
    assert!(b.listeners.contains(&ListenerId(1)));
    assert!(b.listeners.contains(&ListenerId(2)));
    assert_eq!(b.listeners.len(), 2);
}

#[test]
fn departed_listener_gets_no_further_broadcasts() {
    let mut canvas = Canvas::new(ten_by_ten());
    canvas.listener_connected(ListenerConnected { addr: ListenerId(1) });
    canvas.listener_connected(ListenerConnected { addr: ListenerId(2) });
    canvas.listener_disconnected(ListenerDisconnected { addr: ListenerId(1) });
    let b = canvas.update_cell(UpdateCell { x: 1, y: 1, color: 5 }).unwrap();
    assert!(!b.listeners.contains(&ListenerId(1)));
    assert!(b.listeners.contains(&ListenerId(2)));
    assert_eq!(b.listeners.len(), 1);
}

#[test]
fn broadcasts_arrive_in_write_order() {
    let mut canvas = Canvas::new(ten_by_ten());
    canvas.listener_connected(ListenerConnected { addr: ListenerId(1) });
    let first = canvas.update_cell(UpdateCell { x: 1, y: 0, color: 11 }).unwrap();
    let second = canvas.update_cell(UpdateCell { x: 2, y: 0, color: 22 }).unwrap();
    assert_eq!(first.update, CellUpdated { x: 1, y: 0, color: 11 });
    assert_eq!(second.update, CellUpdated { x: 2, y: 0, color: 22 });
}

#[test]
fn one_by_one_canvas() {
    let config = CanvasConfig {
        width: 1,
        height: 1,
        save: CanvasSaveConfig { interval: 2000, path: String::from("tiny.bin") },
    };
    let mut canvas = Canvas::new(config);
    assert_eq!(canvas.get_cell(GetCell { x: 0, y: 0 }), Ok(0));
    canvas.update_cell(UpdateCell { x: 0, y: 0, color: 9 }).unwrap();
    assert_eq!(canvas.get_cell(GetCell { x: 0, y: 0 }), Ok(9));
    assert!(canvas.get_cell(GetCell { x: 1, y: 0 }).is_err());
    assert!(canvas.get_cell(GetCell { x: 0, y: 1 }).is_err());
    assert_eq!(canvas.save(), vec![9]);
}

#[test]
fn rectangular_grid_is_row_major() {
    let config = CanvasConfig {
        width: 3,
        height: 2,
        save: CanvasSaveConfig { interval: 2000, path: String::from("rect.bin") },
    };
    let mut canvas = Canvas::new(config);
    canvas.update_cell(UpdateCell { x: 2, y: 1, color: 9 }).unwrap();
    canvas.update_cell(UpdateCell { x: 0, y: 1, color: 5 }).unwrap();
    assert_eq!(canvas.save(), vec![0, 0, 0, 5, 0, 9]);
    assert!(canvas.update_cell(UpdateCell { x: 3, y: 0, color: 1 }).is_err());
    assert!(canvas.update_cell(UpdateCell { x: 0, y: 2, color: 1 }).is_err());
}

#[test]
fn out_of_bounds_write_produces_no_broadcast() {
    let mut canvas = Canvas::new(ten_by_ten());
    canvas.listener_connected(ListenerConnected { addr: ListenerId(1) });
    assert!(canvas.update_cell(UpdateCell { x: 10, y: 0, color: 1 }).is_err());
}
