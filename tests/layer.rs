use tile_walker::level::{layer_tiles, parse_tile_id, split_bytes, trim_blanks, TilePlacement};

fn tile(x: usize, y: usize, sprite_number: usize) -> TilePlacement {
    TilePlacement { x, y, sprite_number }
}

#[test]
fn split_keeps_empty_pieces() {
    let pieces = split_bytes(b"a;;bc;", b';');
    assert_eq!(pieces, vec![b"a".to_vec(), vec![], b"bc".to_vec(), vec![]]);
    assert_eq!(split_bytes(b"", b';'), vec![Vec::<u8>::new()]);
}

#[test]
fn trim_removes_surrounding_whitespace() {
    assert_eq!(trim_blanks(b" \t12 \n"), b"12".to_vec());
    assert_eq!(trim_blanks(b"  "), Vec::<u8>::new());
    assert_eq!(trim_blanks(b"1 2"), b"1 2".to_vec());
}

#[test]
fn tile_ids_parse_like_i32() {
    assert_eq!(parse_tile_id(b"7"), Some(7));
    assert_eq!(parse_tile_id(b" 42 "), Some(42));
    assert_eq!(parse_tile_id(b"+3"), Some(3));
    assert_eq!(parse_tile_id(b"-0"), Some(0));
    assert_eq!(parse_tile_id(b"2147483647"), Some(2147483647));
}

#[test]
fn empty_or_invalid_cells_have_no_tile() {
    assert_eq!(parse_tile_id(b"-1"), None);
    assert_eq!(parse_tile_id(b""), None);
    assert_eq!(parse_tile_id(b"+"), None);
    assert_eq!(parse_tile_id(b"-"), None);
    assert_eq!(parse_tile_id(b"1x"), None);
    assert_eq!(parse_tile_id(b"1 2"), None);
    assert_eq!(parse_tile_id(b"2147483648"), None);
    assert_eq!(parse_tile_id(b"99999999999999999999"), None);
}

#[test]
fn layer_rows_count_from_the_bottom() {
    let tiles = layer_tiles("1,2;-1,3");
    assert_eq!(tiles, vec![tile(0, 1, 1), tile(1, 1, 2), tile(1, 0, 3)]);
}

#[test]
fn layer_skips_empty_cells() {
    let tiles = layer_tiles(" 5 , x,,+7;\n-0;");
    assert_eq!(tiles, vec![tile(0, 2, 5), tile(3, 2, 7), tile(0, 1, 0)]);
    assert_eq!(layer_tiles(""), vec![]);
    assert_eq!(layer_tiles("-1,-1;-1"), vec![]);
}

#[test]
fn unicode_whitespace_is_trimmed() {
    assert_eq!(trim_blanks("\u{85}x\u{a0}".as_bytes()), b"x".to_vec());
    assert_eq!(trim_blanks("\u{2003} \u{3000}".as_bytes()), Vec::<u8>::new());
    assert_eq!(parse_tile_id("\u{3000}12\u{2009}".as_bytes()), Some(12));
    assert_eq!(parse_tile_id("\u{1680}\u{202f}+4\u{205f}\u{2028}\u{2029}".as_bytes()), Some(4));
    assert_eq!(parse_tile_id("1\u{a0}2".as_bytes()), None);
}

#[test]
fn no_break_space_cell_holds_a_tile() {
    assert_eq!(layer_tiles("\u{a0}5"), vec![tile(0, 0, 5)]);
    assert_eq!(layer_tiles("1,\u{2000}2\u{200a};3"), vec![tile(0, 1, 1), tile(1, 1, 2), tile(0, 0, 3)]);
}
