use std::path::{Path, PathBuf};

use tct::layout::{board_dir, board_meta_path, board_order_path, boards_dir, card_path, list_path, DataPath};

fn to_path(p: &DataPath) -> PathBuf {
    let mut out = PathBuf::from(&p.base);
    for part in &p.parts {
        out = out.join(part);
    }
    out
}

const BASE: &str = "/tmp/tct-data";

#[test]
fn boards_dir_under_base() {
    assert_eq!(to_path(&boards_dir(BASE)), Path::new(BASE).join("boards"));
}

#[test]
fn board_order_path_under_base() {
    assert_eq!(to_path(&board_order_path(BASE)), Path::new(BASE).join("board_order.json"));
}

#[test]
fn board_dir_uses_board_id() {
    assert_eq!(to_path(&board_dir(BASE, "abc123")), Path::new(BASE).join("boards").join("abc123"));
}

#[test]
fn list_path_format() {
    let p = to_path(&list_path(BASE, "brd1", "lst1"));
    assert!(p.ends_with("list-lst1.json"));
    assert!(p.to_string_lossy().contains("brd1"));
}

#[test]
fn card_path_format() {
    let p = to_path(&card_path(BASE, "brd1", "crd1"));
    assert!(p.ends_with("card-crd1.json"));
}

#[test]
fn board_meta_path_format() {
    let p = to_path(&board_meta_path(BASE, "brd1"));
    assert!(p.ends_with("board.json"));
    assert_eq!(p, Path::new(BASE).join("boards").join("brd1").join("board.json"));
}
