use notes_sync::store::{
    make_note_document, make_note_file_name, make_staged_file_name, note_from_file,
    parse_note_file_name, parse_title, plan_attachment, ImageSource,
};
use notes_sync::listing::{sort_newest_first, text_comes_first};
use notes_sync::model::{Note, SyncError};
use notes_sync::text::{
    decimal_string, find_first, find_last, has_prefix, has_suffix, strip_suffix, substring,
    text_after_last,
};

#[test]
fn decimal_of_small_and_large_numbers() {
    assert_eq!(decimal_string(0), "0");
    assert_eq!(decimal_string(7), "7");
    assert_eq!(decimal_string(10), "10");
    assert_eq!(decimal_string(8003), "8003");
    assert_eq!(decimal_string(65535), "65535");
    assert_eq!(decimal_string(1700000000), "1700000000");
    assert_eq!(decimal_string(u64::MAX), "18446744073709551615");
}

#[test]
fn find_first_and_last() {
    assert_eq!(find_last("a_b_c", '_'), Some(3));
    assert_eq!(find_first("a_b_c", '_'), Some(1));
    assert_eq!(find_last("abc", '_'), None);
    assert_eq!(find_first("", '_'), None);
    assert_eq!(find_last("_", '_'), Some(0));
}

#[test]
fn positions_count_characters_not_bytes() {
    assert_eq!(find_last("héllo_wörld_x", '_'), Some(11));
    assert_eq!(text_after_last("Zoë_é1", '_'), "é1");
    assert_eq!(substring("héllo", 1, 3), "él");
}

#[test]
fn text_after_last_separator() {
    assert_eq!(text_after_last("Alice_A1", '_'), "A1");
    assert_eq!(text_after_last("my_host_name_A1", '_'), "A1");
    assert_eq!(text_after_last("no-separator", '_'), "no-separator");
    assert_eq!(text_after_last("trailing_", '_'), "");
    assert_eq!(text_after_last("", '_'), "");
}

#[test]
fn prefixes_and_suffixes() {
    assert!(has_suffix("note.md.sync", ".sync"));
    assert!(!has_suffix("note.md", ".sync"));
    assert!(!has_suffix("nc", ".sync"));
    assert!(has_suffix("abc", ""));
    assert!(has_prefix("# Title", "# "));
    assert!(!has_prefix("#Title", "# "));
    assert!(!has_prefix("#", "# "));
    assert_eq!(strip_suffix("Alice_A1._notes-sync._tcp.local.", "._notes-sync._tcp.local."), "Alice_A1");
    assert_eq!(strip_suffix("Alice_A1", "._notes-sync._tcp.local."), "Alice_A1");
}

#[test]
fn file_names_of_a_note() {
    assert_eq!(make_note_file_name("n1"), "n1.md");
    assert_eq!(make_staged_file_name("n1"), "n1.md.sync");
    assert_eq!(make_note_file_name(""), ".md");
}

#[test]
fn committed_notes_are_told_by_their_file_name() {
    assert_eq!(parse_note_file_name("n1.md"), Some("n1".to_string()));
    assert_eq!(parse_note_file_name("a.b.md"), Some("a.b".to_string()));
    assert_eq!(parse_note_file_name("n1.md.sync"), None);
    assert_eq!(parse_note_file_name("n1.txt"), None);
    assert_eq!(parse_note_file_name(".md"), None);
    assert_eq!(parse_note_file_name("md"), None);
    assert_eq!(parse_note_file_name(""), None);
    assert_eq!(parse_note_file_name(&make_note_file_name("x")), Some("x".to_string()));
    assert_eq!(parse_note_file_name(&make_staged_file_name("x")), None);
}

#[test]
fn document_of_a_note() {
    assert_eq!(make_note_document("Groceries", "milk\neggs"), "# Groceries\n\nmilk\neggs");
    assert_eq!(make_note_document("", ""), "# \n\n");
}

#[test]
fn title_is_read_off_the_first_line() {
    assert_eq!(parse_title("# Groceries\n\nmilk"), "Groceries");
    assert_eq!(parse_title("# Only a heading"), "Only a heading");
    assert_eq!(parse_title("# Windows\r\nline"), "Windows");
    assert_eq!(parse_title("# Bare return\r"), "Bare return\r");
    assert_eq!(parse_title("# "), "");
}

#[test]
fn title_defaults_to_untitled() {
    assert_eq!(parse_title(""), "Untitled");
    assert_eq!(parse_title("plain text"), "Untitled");
    assert_eq!(parse_title("#no space"), "Untitled");
    assert_eq!(parse_title("\n# Late heading"), "Untitled");
    assert_eq!(parse_title("## Second level"), "Untitled");
}

#[test]
fn title_round_trip() {
    let doc = make_note_document("Trip to Öland", "pack\nbags");
    assert_eq!(parse_title(&doc), "Trip to Öland");
}

#[test]
fn note_is_built_from_its_file() {
    let note = note_from_file(
        "n1".to_string(),
        "# Plan\n\nstep one".to_string(),
        "1700000000.5".to_string(),
        vec!["a.png".to_string(), "b.png".to_string()],
    );
    assert_eq!(note.id, "n1");
    assert_eq!(note.title, "Plan");
    assert_eq!(note.content, "# Plan\n\nstep one");
    assert_eq!(note.datetime, "1700000000.5");
    assert_eq!(note.attachments, vec!["a.png".to_string(), "b.png".to_string()]);
}

#[test]
fn attachment_prefers_bytes_over_file() {
    let plan = plan_attachment(1700000000, Some("/tmp/x.png".to_string()), Some(vec![1, 2, 3])).unwrap();
    assert_eq!(plan.file_name, "1700000000_image.png");
    match plan.source {
        ImageSource::Bytes(data) => assert_eq!(data, vec![1, 2, 3]),
        ImageSource::File(_) => panic!("bytes were given"),
    }
}

#[test]
fn attachment_falls_back_to_file() {
    let plan = plan_attachment(5, Some("/tmp/x.png".to_string()), None).unwrap();
    assert_eq!(plan.file_name, "5_image.png");
    match plan.source {
        ImageSource::File(path) => assert_eq!(path, "/tmp/x.png"),
        ImageSource::Bytes(_) => panic!("no bytes were given"),
    }
}

#[test]
fn attachment_without_source_is_refused() {
    let err = plan_attachment(5, None, None).unwrap_err();
    assert_eq!(err, SyncError::NoImageSource);
}

fn stamped(id: &str, datetime: &str) -> Note {
    Note {
        id: id.to_string(),
        title: "t".to_string(),
        content: "c".to_string(),
        datetime: datetime.to_string(),
        attachments: vec![],
    }
}

#[test]
fn dictionary_order_of_texts() {
    assert!(text_comes_first("", ""));
    assert!(text_comes_first("", "a"));
    assert!(!text_comes_first("a", ""));
    assert!(text_comes_first("abc", "abc"));
    assert!(text_comes_first("abc", "abd"));
    assert!(!text_comes_first("abd", "abc"));
    assert!(text_comes_first("ab", "abc"));
    assert!(!text_comes_first("abc", "ab"));
    assert!(text_comes_first("1700000000.5", "1700000001"));
    assert!(text_comes_first("9", "10") == ("9" <= "10"));
    assert!(text_comes_first("Z", "a"));
    assert!(text_comes_first("z", "é"));
    assert!(!text_comes_first("é", "z"));
}

#[test]
fn dictionary_order_agrees_with_string_order() {
    let samples = [
        "", "a", "ab", "abc", "b", "1700000000", "1700000000.25", "1699999999.9", "9", "10",
        "é", "e", "z", "日本", "日", "~", " ", "A", "\u{10000}", "\u{ffff}",
    ];
    for a in samples {
        for b in samples {
            assert_eq!(text_comes_first(a, b), a <= b);
        }
    }
}

#[test]
fn notes_are_shown_newest_first() {
    let notes = vec![
        stamped("old", "1600000000.5"),
        stamped("new", "1700000000.25"),
        stamped("mid", "1650000000"),
    ];
    let shown: Vec<String> = sort_newest_first(&notes).into_iter().map(|n| n.id).collect();
    assert_eq!(shown, vec!["new".to_string(), "mid".to_string(), "old".to_string()]);
    assert!(sort_newest_first(&vec![]).is_empty());
}

#[test]
fn notes_of_the_same_time_keep_their_order() {
    let notes = vec![
        stamped("a", "5"),
        stamped("b", "7"),
        stamped("c", "5"),
        stamped("d", "7"),
        stamped("e", "5"),
        stamped("f", "6"),
    ];
    let shown: Vec<String> = sort_newest_first(&notes).into_iter().map(|n| n.id).collect();
    let mut expected = notes.clone();
    expected.sort_by(|a, b| b.datetime.partial_cmp(&a.datetime).unwrap());
    let expected: Vec<String> = expected.into_iter().map(|n| n.id).collect();
    assert_eq!(shown, expected);
    assert_eq!(shown, vec!["b", "d", "f", "a", "c", "e"]);
}

#[test]
fn decimal_agrees_with_the_standard_formatting() {
    let mut n: u64 = 0;
    while n < 3000 {
        assert_eq!(decimal_string(n), n.to_string());
        n += 1;
    }
    let mut m: u64 = 1;
    for _ in 0..19 {
        assert_eq!(decimal_string(m), m.to_string());
        assert_eq!(decimal_string(m - 1), (m - 1).to_string());
        assert_eq!(decimal_string(m + 1), (m + 1).to_string());
        m *= 10;
    }
}

#[test]
fn title_agrees_with_reading_the_first_line() {
    let documents = [
        "",
        "\n",
        "\r\n",
        "# ",
        "# \n",
        "# Title",
        "# Title\n",
        "# Title\r\n",
        "# Title\r",
        "# Title\r\r\n",
        "# Title\n\nbody",
        "#Title\nbody",
        "Title\n# Heading",
        " # Title",
        "# Ünïcödé title\nbody",
        "#",
        "# a\rb\nc",
    ];
    for doc in documents {
        let expected = doc
            .lines()
            .next()
            .and_then(|line| if line.starts_with("# ") { Some(line[2..].to_string()) } else { None })
            .unwrap_or_else(|| "Untitled".to_string());
        assert_eq!(parse_title(doc), expected, "document {:?}", doc);
    }
}

#[test]
fn note_file_names_agree_with_extension_and_stem() {
    let names = [
        "n1.md", "a.b.md", "n1.md.sync", "n1.txt", ".md", "md", "", "..md", "x.MD", "note.", "a.md.md",
        "ünï.md", ".hidden.md",
    ];
    for name in names {
        let path = std::path::Path::new(name);
        let expected = if path.extension().and_then(|s| s.to_str()) == Some("md") {
            path.file_stem().and_then(|s| s.to_str()).map(|s| s.to_string())
        } else {
            None
        };
        assert_eq!(parse_note_file_name(name), expected, "file name {:?}", name);
    }
}
