use rtsp_factory::table::{parse_number, parse_table};

fn number(text: &str) -> Option<u32> {
    parse_number(&text.chars().collect())
}

#[test]
fn numbers_are_read_as_the_standard_library_reads_them() {
    let texts = [
        "", "0", "7", "42", "007", "+", "+5", "++5", "-1", "-0", " 1", "1 ", "1_000", "1a", "a1",
        "4294967295", "4294967296", "+4294967295", "00000000000000000001", "99999999999999999999",
        "\u{663}", "1.0", "0x10",
    ];
    for text in texts {
        assert_eq!(number(text), text.parse::<u32>().ok(), "{text:?}");
    }
}

#[test]
fn the_largest_number_fits_and_the_next_does_not() {
    assert_eq!(number("4294967295"), Some(u32::MAX));
    assert_eq!(number("4294967296"), None);
}

#[test]
fn a_table_keeps_the_order_of_its_entries() {
    assert_eq!(parse_table("4096,6144,8192"), vec![4096, 6144, 8192]);
    assert_eq!(parse_table("25"), vec![25]);
}

#[test]
fn entries_that_are_no_numbers_are_left_out() {
    assert_eq!(parse_table("1,x,3"), vec![1, 3]);
    assert_eq!(parse_table("1, 2,3"), vec![1, 3]);
    assert_eq!(parse_table(",,5,,"), vec![5]);
    assert_eq!(parse_table(""), Vec::<u32>::new());
    assert_eq!(parse_table("none"), Vec::<u32>::new());
    assert_eq!(parse_table("1,4294967296,2"), vec![1, 2]);
}

#[test]
fn tables_are_split_as_the_standard_library_splits_them() {
    for text in ["", ",", "1,2", "a,b,3,", "+1,-1,\u{e9},9", "10,20,30,40,50"] {
        let expected: Vec<u32> = text
            .split(',')
            .filter_map(|entry| entry.parse().ok())
            .collect();
        assert_eq!(parse_table(text), expected, "{text:?}");
    }
}

#[test]
fn a_list_is_read_back_as_it_was_written() {
    let written: Vec<u32> = vec![0, 1, 4294967295, 25, 25];
    let text: Vec<String> = written.iter().map(|n| n.to_string()).collect();
    assert_eq!(parse_table(&text.join(",")), written);
}
