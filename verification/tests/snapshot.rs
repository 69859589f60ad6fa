use tabular_rl::fixed::Fx;
use tabular_rl::q_table::QTable;

fn fx(bits: i64) -> Fx {
    Fx { bits }
}

#[test]
fn a_snapshot_restores_every_entry_and_the_initial_value() {
    let mut t = QTable::new(fx(42_000), 4, 3);
    t.set(0, 0, fx(-1));
    t.set(1, 2, fx(987_654_321));
    t.set(3, 1, fx(i64::MIN));
    t.set(2, 2, fx(i64::MAX));
    let bytes = t.to_bytes();
    assert_eq!(bytes.len(), 24 + 8 * 4 * 3);
    let back = QTable::from_bytes(&bytes).expect("a written snapshot must read back");
    assert_eq!(back.s_space(), 4);
    assert_eq!(back.a_space(), 3);
    assert_eq!(back.init_q().bits, 42_000);
    for s in 0..4 {
        for a in 0..3 {
            assert_eq!(back.get(s, a).bits, t.get(s, a).bits);
        }
    }
}

#[test]
fn a_fresh_table_round_trips_with_its_configured_value() {
    let t = QTable::new(fx(-250_000), 2, 2);
    let back = QTable::from_bytes(&t.to_bytes()).expect("round trip");
    for s in 0..2 {
        for a in 0..2 {
            assert_eq!(back.get(s, a).bits, -250_000);
        }
    }
}

#[test]
fn truncated_or_padded_snapshots_are_rejected() {
    let t = QTable::new(fx(7), 2, 2);
    let bytes = t.to_bytes();
    let mut short = bytes.clone();
    short.pop();
    assert!(QTable::from_bytes(&short).is_none());
    let mut long = bytes.clone();
    long.push(0);
    assert!(QTable::from_bytes(&long).is_none());
    let empty: Vec<u8> = Vec::new();
    assert!(QTable::from_bytes(&empty).is_none());
}

#[test]
fn snapshots_with_zero_dimensions_are_rejected() {
    // a 24-byte header announcing a 0 x 0 table
    let zeros: Vec<u8> = vec![0; 24];
    assert!(QTable::from_bytes(&zeros).is_none());
}

#[test]
fn zero_row_clears_exactly_one_state() {
    let mut t = QTable::new(fx(5_000), 3, 2);
    t.zero_row(1);
    assert_eq!(t.get(1, 0).bits, 0);
    assert_eq!(t.get(1, 1).bits, 0);
    assert_eq!(t.get(0, 0).bits, 5_000);
    assert_eq!(t.get(2, 1).bits, 5_000);
}
