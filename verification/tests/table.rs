use scope_protocol::table::{render_table, DATA_TITLE, TIME_TITLE};

fn rows(cells: &[(&str, &str)]) -> Vec<(String, String)> {
    cells.iter().map(|(a, b)| (a.to_string(), b.to_string())).collect()
}

#[test]
fn column_titles() {
    assert_eq!(TIME_TITLE, "time");
    assert_eq!(DATA_TITLE, "data");
}

#[test]
fn table_without_rows_is_the_header() {
    assert_eq!(render_table(&[]), b"time,data\n".to_vec());
}

#[test]
fn table_has_one_line_for_each_row() {
    let table = render_table(&rows(&[("-0.00001", "0"), ("-0.000009998", "0.04")]));
    assert_eq!(table, b"time,data\n-0.00001,0\n-0.000009998,0.04\n".to_vec());
}

#[test]
fn rows_keep_their_order() {
    let table = render_table(&rows(&[("3", "c"), ("1", "a"), ("2", "b")]));
    assert_eq!(table, b"time,data\n3,c\n1,a\n2,b\n".to_vec());
}

#[test]
fn empty_cells_are_written_empty() {
    assert_eq!(render_table(&rows(&[("", "")])), b"time,data\n,\n".to_vec());
    assert_eq!(render_table(&rows(&[("", "x")])), b"time,data\n,x\n".to_vec());
}

#[test]
fn cell_with_a_comma_is_quoted() {
    assert_eq!(render_table(&rows(&[("1,5", "2")])), b"time,data\n\"1,5\",2\n".to_vec());
}

#[test]
fn cell_with_a_quote_is_quoted_and_the_quote_doubled() {
    assert_eq!(
        render_table(&rows(&[("a\"b", "\"")])),
        b"time,data\n\"a\"\"b\",\"\"\"\"\n".to_vec()
    );
}

#[test]
fn cell_with_a_line_break_is_quoted() {
    assert_eq!(
        render_table(&rows(&[("a\nb", "c\rd")])),
        b"time,data\n\"a\nb\",\"c\rd\"\n".to_vec()
    );
}

#[test]
fn other_characters_need_no_quotes() {
    assert_eq!(
        render_table(&rows(&[(" 1 ", "a;b\t'c'\\"), ("\u{b5}V", "#")])),
        "time,data\n 1 ,a;b\t'c'\\\n\u{b5}V,#\n".as_bytes().to_vec()
    );
}

#[test]
fn table_larger_than_the_writer_buffer() {
    let cells: Vec<(String, String)> =
        (0..5000).map(|i| (format!("{}", i), format!("\"{}\"", i))).collect();
    let mut expected = b"time,data\n".to_vec();
    for i in 0..5000 {
        expected.extend_from_slice(format!("{},\"\"\"{}\"\"\"\n", i, i).as_bytes());
    }
    assert_eq!(render_table(&cells), expected);
}

#[test]
fn numbers_as_the_standard_library_writes_them() {
    let time: f64 = -1.0E-5;
    let data: f64 = 0.0;
    let table = render_table(&vec![(time.to_string(), data.to_string())]);
    assert_eq!(table, b"time,data\n-0.00001,0\n".to_vec());
    let text = String::from_utf8(table).unwrap();
    let line = text.lines().nth(1).unwrap();
    let mut cells = line.split(',');
    assert_eq!(cells.next().unwrap().parse::<f64>().unwrap(), time);
    assert_eq!(cells.next().unwrap().parse::<f64>().unwrap(), data);
}

#[test]
fn same_rows_give_the_same_table() {
    let cells = rows(&[("1", "2"), ("3", "4")]);
    assert_eq!(render_table(&cells), render_table(&cells));
}

#[test]
fn table_is_made_whatever_the_cells_hold() {
    let awkward = ["", ",", "\"", "\r\n", "a,b\"c\nd", "\u{0}", "\u{10FFFF}", " ", ",,,,", "\"\"\"\""];
    for first in awkward {
        for second in awkward {
            let table = render_table(&rows(&[(first, second), (second, first)]));
            assert!(table.starts_with(b"time,data\n"));
            assert!(table.ends_with(b"\n"));
        }
    }
}

#[test]
fn cell_larger_than_the_writer_buffer() {
    let long: String = "x".repeat(20000);
    let quoted: String = "\"".repeat(9000);
    let table = render_table(&rows(&[(&long, &quoted)]));
    let mut expected = b"time,data\n".to_vec();
    expected.extend_from_slice(long.as_bytes());
    expected.extend_from_slice(b",\"");
    expected.extend_from_slice("\"".repeat(18000).as_bytes());
    expected.extend_from_slice(b"\"\n");
    assert_eq!(table, expected);
}
