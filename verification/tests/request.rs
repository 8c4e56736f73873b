use bookmux::request::{is_clean, BookRequest, ChapterRequest, RequestError, TextField};

fn chapter(title: &str, url: &str) -> ChapterRequest {
    ChapterRequest { title: title.to_string(), url: url.to_string() }
}

fn make(title: &str, thumbnail: &str, chapters: Vec<ChapterRequest>) -> Result<BookRequest, RequestError> {
    BookRequest::new(title.to_string(), thumbnail.to_string(), chapters)
}

#[test]
fn clean_texts() {
    assert!(is_clean(""));
    assert!(is_clean("Kapitel 1"));
    assert!(is_clean("Größe – 日本語"));
    assert!(!is_clean("\0"));
    assert!(!is_clean("a\0b"));
    assert!(!is_clean("ab\0"));
    assert!(!is_clean("\0ab"));
    assert!(!is_clean("äö\0ü"));
}

#[test]
fn request_keeps_what_it_was_given() {
    let request = make(
        "Title",
        "https://media.example/cover.jpg",
        vec![chapter("one", "https://media.example/1"), chapter("two", "https://media.example/2")],
    )
    .unwrap();
    assert_eq!(request.title(), "Title");
    assert_eq!(request.artwork_url(), Some("https://media.example/cover.jpg"));
    assert_eq!(
        request.chapters(),
        &vec![chapter("one", "https://media.example/1"), chapter("two", "https://media.example/2")]
    );
}

#[test]
fn empty_thumbnail_means_no_artwork() {
    let request = make("Title", "", vec![chapter("one", "u")]).unwrap();
    assert_eq!(request.artwork_url(), None);
}

#[test]
fn request_without_chapters_is_made() {
    let request = make("Title", "", Vec::new()).unwrap();
    assert!(request.chapters().is_empty());
}

#[test]
fn null_in_the_title_is_refused() {
    let made = make("Ti\0tle", "t\0", vec![chapter("o\0ne", "u\0")]);
    assert_eq!(made, Err(RequestError::InteriorNul(TextField::BookTitle)));
}

#[test]
fn null_in_the_thumbnail_is_refused() {
    let made = make("Title", "t\0", vec![chapter("o\0ne", "u\0")]);
    assert_eq!(made, Err(RequestError::InteriorNul(TextField::Thumbnail)));
}

#[test]
fn null_in_a_chapter_title_is_refused() {
    let made = make("Title", "", vec![chapter("one", "u"), chapter("t\0wo", "u\0"), chapter("\0", "")]);
    assert_eq!(made, Err(RequestError::InteriorNul(TextField::ChapterTitle(1))));
}

#[test]
fn null_in_a_chapter_url_is_refused() {
    let made = make("Title", "", vec![chapter("one", "u\0"), chapter("t\0wo", "u")]);
    assert_eq!(made, Err(RequestError::InteriorNul(TextField::ChapterUrl(0))));
    let made = make("Title", "", vec![chapter("one", "u"), chapter("two", "u"), chapter("three", "\0")]);
    assert_eq!(made, Err(RequestError::InteriorNul(TextField::ChapterUrl(2))));
}
