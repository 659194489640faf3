use factorsvg::repair::{repair_finish, repair_plan, RepairPiece};

fn describe(p: &RepairPiece) -> String {
    match p {
        RepairPiece::Text(t) => format!("T[{}]", t),
        RepairPiece::Move { relative, x, y } => format!("M[{} {} {}]", relative, x, y),
    }
}

#[test]
fn plan_splits_moves_from_text() {
    let pieces = repair_plan("m 10,20 L 30 40").unwrap();
    let got: Vec<String> = pieces.iter().map(describe).collect();
    assert_eq!(got, vec!["M[true 10 20]", "T[L ]", "T[30 ]", "T[40 ]"]);
}

#[test]
fn plan_completes_arcs() {
    let pieces = repair_plan("a 1 2 3 4 5").unwrap();
    let got: Vec<String> = pieces.iter().map(describe).collect();
    assert_eq!(got, vec!["T[A1 2 3 1 1 4 5 ]"]);
    let pieces = repair_plan("A 1 2 3 0 1 4 5 Z").unwrap();
    let got: Vec<String> = pieces.iter().map(describe).collect();
    assert_eq!(got, vec!["T[A1 2 3 0 1 4 5 ]", "T[Z ]"]);
}

#[test]
fn plan_drops_commands_at_the_end() {
    let got: Vec<String> = repair_plan("L 1 M").unwrap().iter().map(describe).collect();
    assert_eq!(got, vec!["T[L ]", "T[1 ]"]);
    let got: Vec<String> = repair_plan("a 1 2").unwrap().iter().map(describe).collect();
    assert_eq!(got, vec!["T[1 ]", "T[2 ]"]);
}

#[test]
fn plan_fails_where_values_run_past_the_end() {
    assert!(repair_plan("M 1").is_none());
    assert!(repair_plan("a 1 2 3 4").is_none());
    assert!(repair_plan("a 1 2 3 4 5 6").is_none());
}

#[test]
fn finish_writes_moves_and_tidies() {
    let pieces = repair_plan("m 10,20 L 30 40").unwrap();
    let out = repair_finish(&pieces, &vec!["M10.0 20.0 ".to_string()]).unwrap();
    assert_eq!(out, "M10 20 L 30 40");
}

#[test]
fn finish_keeps_fractions_other_than_zero() {
    let pieces = repair_plan("M 1.5 2 m 1 1").unwrap();
    let moves = vec!["M1.5 2.0 ".to_string(), "M2.5 3.0 ".to_string()];
    assert_eq!(repair_finish(&pieces, &moves).unwrap(), "M1.5 2 M2.5 3");
}
