use life_engine::object::Object;
use life_engine::placement::Placement;
use life_engine::Error;

#[test]
fn parses_markers_into_rows() {
    let o = Object::from_text(b"*.\n.*").unwrap();
    assert_eq!(o.rows, vec![vec![true, false], vec![false, true]]);
}

#[test]
fn empty_text_is_an_empty_pattern() {
    let o = Object::from_text(b"").unwrap();
    assert!(o.rows.is_empty());
}

#[test]
fn final_line_break_adds_no_row() {
    let o = Object::from_text(b"**\n").unwrap();
    assert_eq!(o.rows, vec![vec![true, true]]);
}

#[test]
fn blank_line_is_an_empty_row() {
    let o = Object::from_text(b"*\n\n*").unwrap();
    assert_eq!(o.rows, vec![vec![true], vec![], vec![true]]);
}

#[test]
fn rows_may_be_ragged() {
    let o = Object::from_text(b"*\n***").unwrap();
    assert_eq!(o.rows, vec![vec![true], vec![true, true, true]]);
    assert!(o.live_at(2, 1));
    assert!(!o.live_at(2, 0));
    assert!(!o.live_at(0, 2));
}

#[test]
fn unrecognized_byte_is_a_parse_error() {
    assert_eq!(Object::from_text(b"*x*"), Err(Error::ParseError));
    assert_eq!(Object::from_text(b"* *"), Err(Error::ParseError));
    assert_eq!(Object::from_text(b"**\r\n**"), Err(Error::ParseError));
}

#[test]
fn placement_parses_path_and_offsets() {
    let p = Placement::from_text(b"objects/glider.life,3,4").unwrap();
    assert_eq!(p.filename, b"objects/glider.life".to_vec());
    assert_eq!(p.x_offset, 3);
    assert_eq!(p.y_offset, 4);
}

#[test]
fn placement_ignores_extra_fields() {
    let p = Placement::from_text(b"shape.life,1,2,anything,else").unwrap();
    assert_eq!(p.filename, b"shape.life".to_vec());
    assert_eq!(p.x_offset, 1);
    assert_eq!(p.y_offset, 2);
}

#[test]
fn placement_path_may_be_empty() {
    let p = Placement::from_text(b",0,0").unwrap();
    assert!(p.filename.is_empty());
    assert_eq!(p.x_offset, 0);
    assert_eq!(p.y_offset, 0);
}

#[test]
fn malformed_placements_are_parse_errors() {
    assert_eq!(Placement::from_text(b""), Err(Error::ParseError));
    assert_eq!(Placement::from_text(b"file.life"), Err(Error::ParseError));
    assert_eq!(Placement::from_text(b"file.life,3"), Err(Error::ParseError));
    assert_eq!(Placement::from_text(b"file.life,3,"), Err(Error::ParseError));
    assert_eq!(Placement::from_text(b"file.life,,4"), Err(Error::ParseError));
    assert_eq!(Placement::from_text(b"file.life,a,4"), Err(Error::ParseError));
    assert_eq!(Placement::from_text(b"file.life,3,4b"), Err(Error::ParseError));
    assert_eq!(Placement::from_text(b"file.life,-1,4"), Err(Error::ParseError));
}

#[test]
fn placement_offset_overflow_is_a_parse_error() {
    let max = usize::MAX.to_string();
    let ok = format!("f,{max},{max}");
    let p = Placement::from_text(ok.as_bytes()).unwrap();
    assert_eq!(p.x_offset, usize::MAX);
    assert_eq!(p.y_offset, usize::MAX);
    let over = format!("f,{max}0,1");
    assert_eq!(Placement::from_text(over.as_bytes()), Err(Error::ParseError));
}
