use viridithas::nnue::convert::{
    chunk_size, chunk_size_for, split_record, white_relative, Format,
};

fn record(line: &str, format: Format) -> Option<(String, String)> {
    split_record(line, format)
}

fn pair(a: &str, b: &str) -> Option<(String, String)> {
    Some((a.to_string(), b.to_string()))
}

#[test]
fn texel_records_are_split_at_the_semicolon() {
    let fen = "rnbqkbnr/pppppppp/8/8/8/8/PPPPPPPP/RNBQKBNR w KQkq - 0 1";
    assert_eq!(record(&format!("{fen};0.5\n"), Format::OurTexel), pair(fen, "0.5"));
    assert_eq!(record(&format!("  {fen};1.0  \r\n"), Format::OurTexel), pair(fen, "1.0"));
    // Only the two ends of the line are trimmed, and only the first
    // semicolon parts it.
    assert_eq!(record("a b ; 0.0;x", Format::OurTexel), pair("a b ", " 0.0;x"));
    assert_eq!(record(";", Format::OurTexel), pair("", ""));
    assert_eq!(record("no separator", Format::OurTexel), None);
    assert_eq!(record("", Format::OurTexel), None);
    assert_eq!(record("a | b | c", Format::OurTexel), None);
}

#[test]
fn marlinflow_records_are_split_at_the_bars() {
    let fen = "8/k7/8/8/8/8/K6P/8 w - - 0 1";
    assert_eq!(record(&format!("{fen} | 37 | 1.0\n"), Format::Marlinflow), pair(fen, "1.0"));
    assert_eq!(record(&format!("{fen}|37|0.5"), Format::Marlinflow), pair(fen, "0.5"));
    assert_eq!(record(" a \t|  b|  c | d  ", Format::Marlinflow), pair("a", "c | d"));
    assert_eq!(record("a | b", Format::Marlinflow), None);
    assert_eq!(record("a ; b", Format::Marlinflow), None);
    assert_eq!(record("||", Format::Marlinflow), pair("", ""));
}

#[test]
fn records_are_trimmed_of_any_white_space() {
    // A no-break space and an ideographic space are white space too.
    assert_eq!(record("\u{a0}a;b\u{3000}", Format::OurTexel), pair("a", "b"));
    assert_eq!(record("a\u{2003}|x|\u{a0}b", Format::Marlinflow), pair("a", "b"));
}

#[test]
fn scores_are_turned_to_the_side_of_white() {
    assert_eq!(white_relative(25, true), 25);
    assert_eq!(white_relative(25, false), -25);
    assert_eq!(white_relative(-3_000_000, false), 3_000_000);
    assert_eq!(white_relative(0, false), 0);
}

#[test]
fn positions_are_shared_out_evenly() {
    assert_eq!(chunk_size_for(100, 8), Some(12));
    assert_eq!(chunk_size_for(8, 8), Some(1));
    assert_eq!(chunk_size_for(7, 8), None);
    assert_eq!(chunk_size_for(0, 1), None);
    assert_eq!(chunk_size_for(5, 0), None);
    assert_eq!(chunk_size_for(5, 1), Some(5));
    assert_eq!(chunk_size(0), None);
    let size = chunk_size(1_000_000).unwrap();
    assert!(1 <= size && size <= 1_000_000);
    // The number of processors is that which the outside crate gives.
    assert_eq!(chunk_size(1_000_000), chunk_size_for(1_000_000, num_cpus::get()));
}

#[test]
fn records_with_letters_of_several_bytes_are_split_at_the_separator() {
    // The separator is looked for among the bytes; no byte of a letter that
    // takes several bytes is taken for it.
    assert_eq!(record("k\u{f6}nig;d\u{e4}me", Format::OurTexel), pair("k\u{f6}nig", "d\u{e4}me"));
    assert_eq!(record("\u{3b1};\u{1f600};\u{3b2}", Format::OurTexel), pair("\u{3b1}", "\u{1f600};\u{3b2}"));
    assert_eq!(record("\u{2654}|\u{265a}|\u{bd}", Format::Marlinflow), pair("\u{2654}", "\u{bd}"));
    assert_eq!(record("\u{2654}\u{265a}", Format::OurTexel), None);
}
