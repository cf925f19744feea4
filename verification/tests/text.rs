use rust_reading_notes_api::domain::{Author, BookTitle, NoteBody};

#[test]
fn title_is_trimmed_and_cannot_be_blank() {
    let title = BookTitle::try_from("  Rust Book\n".to_owned()).unwrap();
    assert_eq!(title.as_str(), "Rust Book");
    assert_eq!(title.into_inner(), "Rust Book");
    for blank in ["", " \t", "\n\u{3000}"] {
        assert_eq!(
            BookTitle::try_from(blank.to_owned())
                .unwrap_err()
                .to_string(),
            "title must not be empty"
        );
    }
}

#[test]
fn author_is_trimmed_and_cannot_be_blank() {
    let author = Author::try_from("\tMara Bos  ".to_owned()).unwrap();
    assert_eq!(author.as_str(), "Mara Bos");
    assert_eq!(author.into_inner(), "Mara Bos");
    for blank in ["", " \t", "\n\u{3000}"] {
        assert_eq!(
            Author::try_from(blank.to_owned()).unwrap_err().to_string(),
            "author must not be empty"
        );
    }
}

#[test]
fn note_body_is_trimmed_and_cannot_be_blank() {
    let body = NoteBody::try_from("\n 所有権\n借用 \t".to_owned()).unwrap();
    assert_eq!(body.as_str(), "所有権\n借用");
    assert_eq!(body.into_inner(), "所有権\n借用");
    for blank in ["", " \t", "\n\u{3000}"] {
        assert_eq!(
            NoteBody::try_from(blank.to_owned())
                .unwrap_err()
                .to_string(),
            "note body must not be empty"
        );
    }
}

#[test]
fn every_unicode_white_space_is_trimmed() {
    let spaces = [
        '\u{9}', '\u{a}', '\u{b}', '\u{c}', '\u{d}', '\u{20}', '\u{85}', '\u{a0}', '\u{1680}',
        '\u{2000}', '\u{2005}', '\u{200a}', '\u{2028}', '\u{2029}', '\u{202f}', '\u{205f}',
        '\u{3000}',
    ];
    for c in spaces {
        let padded = format!("{c}{c}Book{c}Title{c}");
        let title = BookTitle::try_from(padded).unwrap();
        assert_eq!(title.as_str(), format!("Book{c}Title"));
        assert!(BookTitle::try_from(c.to_string()).is_err());
    }
}

#[test]
fn characters_outside_white_space_are_kept() {
    for c in ['\u{200b}', '\u{feff}', '\u{180e}', '_', '.'] {
        let title = BookTitle::try_from(format!(" {c} ")).unwrap();
        assert_eq!(title.as_str(), c.to_string());
    }
}

#[test]
fn validating_a_validated_text_gives_it_back() {
    let title = BookTitle::try_from(" \u{3000}Rust  Book\t".to_owned()).unwrap();
    let again = BookTitle::try_from(title.clone().into_inner()).unwrap();
    assert_eq!(again, title);
    assert_eq!(again.as_str(), "Rust  Book");
}

#[test]
fn invalid_text_reports_its_message() {
    let error = Author::try_from("   ".to_owned()).unwrap_err();
    assert_eq!(error.message(), "author must not be empty");
}

#[test]
fn white_space_matches_the_standard_library() {
    for c in (0u32..=0x10ffff).filter_map(char::from_u32) {
        assert_eq!(
            rust_reading_notes_api::domain::text::white_space(c),
            c.is_whitespace(),
            "{:#x}",
            c as u32
        );
    }
}
