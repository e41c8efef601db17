use sitegen::front_matter::{split_front_matter, FrontMatter};

fn expect_well_formed(raw: &str, metadata: &str, body: &str) {
    match split_front_matter(raw) {
        FrontMatter::WellFormed { metadata: found_metadata, body: found_body } => {
            assert_eq!(found_metadata, metadata);
            assert_eq!(found_body, body);
        }
        other => panic!("expected a metadata block in {:?}, found {:?}", raw, other),
    }
}

fn expect_no_delimiter(raw: &str) {
    match split_front_matter(raw) {
        FrontMatter::NoDelimiter { body } => assert_eq!(body, raw),
        other => panic!("expected no delimiter in {:?}, found {:?}", raw, other),
    }
}

fn expect_malformed(raw: &str) {
    match split_front_matter(raw) {
        FrontMatter::Malformed { full_text } => assert_eq!(full_text, raw),
        other => panic!("expected an unclosed block in {:?}, found {:?}", raw, other),
    }
}

/// The split as `str::splitn` describes it.
fn splitn_split(raw: &str) -> (Option<String>, String) {
    if raw.starts_with("---") {
        let parts: Vec<&str> = raw.splitn(3, "---").collect();
        if parts.len() == 3 {
            return (Some(parts[1].to_string()), parts[2].trim().to_string());
        }
    }
    (None, raw.to_string())
}

#[test]
fn document_with_metadata_block() {
    expect_well_formed("---\ntitle: Hi\n---\n# Hello", "\ntitle: Hi\n", "# Hello");
}

#[test]
fn body_is_trimmed_after_a_metadata_block() {
    expect_well_formed(
        "---\ntitle: My Page\ndate: 2024-01-01\n---\n\n  Body text \n\n",
        "\ntitle: My Page\ndate: 2024-01-01\n",
        "Body text",
    );
}

#[test]
fn document_without_delimiter_is_all_body() {
    expect_no_delimiter("# Hello\n\nworld\n");
    expect_no_delimiter("");
    expect_no_delimiter("--");
    expect_no_delimiter("-- -");
}

#[test]
fn body_without_delimiter_is_not_trimmed() {
    expect_no_delimiter("  \n padded \n\n");
}

#[test]
fn delimiter_must_open_the_document() {
    expect_no_delimiter("\n---\ntitle: Hi\n---\nbody");
    expect_no_delimiter(" ---\ntitle: Hi\n---\nbody");
    expect_no_delimiter("text\n---\nmore\n---\n");
}

#[test]
fn unclosed_block_keeps_the_whole_text() {
    expect_malformed("---\ntitle: Hi\n# Hello");
    expect_malformed("---");
    expect_malformed("-----");
    expect_malformed("--- \n - - -\n-- -");
}

#[test]
fn unclosed_block_is_not_trimmed() {
    expect_malformed("---\n  text  \n");
}

#[test]
fn only_the_first_two_delimiters_count() {
    expect_well_formed("---\na: 1\n---\nbody\n---\nmore", "\na: 1\n", "body\n---\nmore");
}

#[test]
fn empty_block_and_empty_body() {
    expect_well_formed("------", "", "");
    expect_well_formed("------\n", "", "");
    expect_well_formed("---\n---", "\n", "");
}

#[test]
fn closing_delimiter_is_the_earliest_one() {
    expect_well_formed("---a----rest", "a", "-rest");
    expect_well_formed("-------", "", "-");
}

#[test]
fn block_and_body_keep_non_ascii_text() {
    expect_well_formed(
        "---\ntitle: caf\u{e9}\n---\n\u{3000}\u{1F600} body\u{00A0}",
        "\ntitle: caf\u{e9}\n",
        "\u{1F600} body",
    );
}

#[test]
fn split_agrees_with_splitn() {
    let samples = [
        "",
        "-",
        "---",
        "----",
        "------",
        "---------",
        "---\n---\n---",
        "---\ntitle: Hi\n---\n# Hello",
        "no front matter",
        "a---b---c",
        "---a--b---c",
        "--- x --- y --- z",
        "---\r\ntitle: t\r\n---\r\n\r\nbody\r\n",
    ];
    for sample in samples {
        let (metadata, body) = splitn_split(sample);
        match split_front_matter(sample) {
            FrontMatter::WellFormed { metadata: found_metadata, body: found_body } => {
                assert_eq!(Some(found_metadata), metadata, "{:?}", sample);
                assert_eq!(found_body, body, "{:?}", sample);
            }
            FrontMatter::NoDelimiter { body: found_body } => {
                assert_eq!(None, metadata, "{:?}", sample);
                assert!(!sample.starts_with("---"));
                assert_eq!(found_body, body, "{:?}", sample);
            }
            FrontMatter::Malformed { full_text } => {
                assert_eq!(None, metadata, "{:?}", sample);
                assert!(sample.starts_with("---"));
                assert_eq!(full_text, body, "{:?}", sample);
            }
        }
    }
}
