use syscall_fuzz::fd_table::FdTable;
use syscall_fuzz::record::{decode_data, split_record, strip_outer, TraceError};
use syscall_fuzz::text::{
    after_last_vec, chars_of, contains_vec, decimal_vec, parse_i32_vec, parse_u32_vec,
    replace_all_vec, replace_char_vec, skip_bytes_vec, split_vec, splitn_vec, str_contains,
    string_of, utf8_len_at_least,
};

fn v(s: &str) -> Vec<char> {
    chars_of(s)
}

fn s(c: &Vec<char>) -> String {
    string_of(c)
}

#[test]
fn chars_round_trip() {
    assert_eq!(s(&v("héllo /x")), "héllo /x");
    assert_eq!(v(""), Vec::<char>::new());
}

#[test]
fn replace_char_swaps_slashes() {
    assert_eq!(s(&replace_char_vec(&v("/a/b"), '/', '\\')), "\\a\\b");
    assert_eq!(s(&replace_char_vec(&v("abc"), '/', '\\')), "abc");
}

#[test]
fn split_matches_str_split() {
    for (text, sep) in [("a/b/c", '/'), ("", '/'), ("/", '/'), ("a//b/", '/'), ("no", ',')] {
        let ours: Vec<String> = split_vec(&v(text), sep).iter().map(|p| s(p)).collect();
        let std_: Vec<String> = text.split(sep).map(|p| p.to_string()).collect();
        assert_eq!(ours, std_);
    }
}

#[test]
fn splitn_matches_str_splitn() {
    for (text, n) in [("open 3 _ /a b c", 4usize), ("a b", 4), ("a b c d e", 4), ("", 2), ("x y", 1), ("x  y", 2)] {
        let ours: Vec<String> = splitn_vec(&v(text), ' ', n).iter().map(|p| s(p)).collect();
        let std_: Vec<String> = text.splitn(n, ' ').map(|p| p.to_string()).collect();
        assert_eq!(ours, std_);
    }
}

#[test]
fn after_last_is_last_component() {
    assert_eq!(s(&after_last_vec(&v("/data/test_files/x.txt"), '/')), "x.txt");
    assert_eq!(s(&after_last_vec(&v("x.txt"), '/')), "x.txt");
    assert_eq!(s(&after_last_vec(&v("dir/"), '/')), "");
}

#[test]
fn substring_search() {
    assert!(contains_vec(&v("attaching 3 probes"), &v("probes")));
    assert!(!contains_vec(&v("probe"), &v("probes")));
    assert!(contains_vec(&v("abc"), &v("")));
    assert!(str_contains("{\"file\":\"/x/fspf.pb\"}", "fspf"));
    assert!(!str_contains("", "a"));
}

#[test]
fn replace_all_matches_str_replace() {
    for (line, pat, rep) in [
        ("/ comm==\"\" && x", "comm==\"", "comm==\"app"),
        ("aaaa", "aa", "b"),
        ("none here", "comm==\"", "X"),
        ("comm==\"comm==\"", "comm==\"", "comm==\"t"),
    ] {
        assert_eq!(s(&replace_all_vec(&v(line), &v(pat), &v(rep))), line.replace(pat, rep));
    }
}

#[test]
fn parse_numbers_like_std() {
    for t in ["0", "42", "+7", "-7", "", "+", "-", "4294967295", "4294967296", "2147483647",
        "2147483648", "-2147483648", "-2147483649", "12a", " 1", "-0", "007"] {
        assert_eq!(parse_u32_vec(&v(t)), t.parse::<u32>().ok(), "u32 {:?}", t);
        assert_eq!(parse_i32_vec(&v(t)), t.parse::<i32>().ok(), "i32 {:?}", t);
    }
}

#[test]
fn decimal_writes_like_to_string() {
    for n in [0u32, 7, 10, 99, 100, 2147483647, u32::MAX] {
        assert_eq!(s(&decimal_vec(n)), n.to_string());
        assert_eq!(parse_u32_vec(&decimal_vec(n)), Some(n));
    }
}

#[test]
fn skip_bytes_respects_char_boundaries() {
    assert_eq!(skip_bytes_vec(&v("/data/test_files/a.txt"), 16).map(|c| s(&c)), Some("/a.txt".to_string()));
    assert_eq!(skip_bytes_vec(&v("data/test_files/"), 16).map(|c| s(&c)), Some(String::new()));
    // 'é' takes two bytes: byte 16 falls inside it
    assert_eq!(skip_bytes_vec(&v("data/test_filesé/x"), 16), None);
    assert_eq!(skip_bytes_vec(&v("short"), 16), None);
}

#[test]
fn byte_length_threshold() {
    assert!(utf8_len_at_least(&v("0123456789"), 10));
    assert!(!utf8_len_at_least(&v("012345678"), 10));
    assert!(utf8_len_at_least(&v("ééééé"), 10));
    assert!(!utf8_len_at_least(&v("éééé"), 10));
}

#[test]
fn strip_drops_quotes() {
    assert_eq!(strip_outer(&v("\"abc\"")).map(|c| s(&c)), Some("abc".to_string()));
    assert_eq!(strip_outer(&v("\"\"")).map(|c| s(&c)), Some(String::new()));
    assert_eq!(strip_outer(&v("5")), None);
    assert_eq!(strip_outer(&v("\"aé")), None);
}

#[test]
fn decode_errors() {
    assert_eq!(decode_data(None).err(), Some(TraceError::InvalidJson));
    assert_eq!(decode_data(Some("7".to_string())).err(), Some(TraceError::ShortData));
    assert_eq!(decode_data(Some("\"read 3 5 hello\"".to_string())).map(|c| s(&c)), Ok("read 3 5 hello".to_string()));
}

#[test]
fn record_fields_split_at_first_three_spaces() {
    let f = split_record(&v("write 4 11 hello world")).unwrap();
    assert_eq!((s(&f.syscall), s(&f.arg1), s(&f.arg2), s(&f.arg3)),
        ("write".to_string(), "4".to_string(), "11".to_string(), "hello world".to_string()));
    assert!(split_record(&v("close 4 0")).is_none());
}

#[test]
fn fd_table_is_a_map() {
    let mut t: FdTable<String> = FdTable::new();
    let k3 = "3".to_string();
    let k4 = "4".to_string();
    assert!(!t.contains_key(&k3));
    t.insert(k3.clone(), "a".to_string());
    t.insert(k4.clone(), "b".to_string());
    assert_eq!(t.get(&k3), Some(&"a".to_string()));
    t.insert(k3.clone(), "c".to_string());
    assert_eq!(t.get(&k3), Some(&"c".to_string()));
    assert_eq!(t.get(&k4), Some(&"b".to_string()));
    assert_eq!(t.remove(&k3), Some("c".to_string()));
    assert_eq!(t.remove(&k3), None);
    assert!(!t.contains_key(&k3));
    assert!(t.contains_key(&k4));
}
