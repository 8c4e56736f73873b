use bookmux::catalog::{
    absolute_url, assemble, accept_reply, lookup_url, output_name, page_url, temporary_name,
    thumbnail_url, PortalError, ResolvedFile, AUDIO_URL, BASE_URL, OUTPUT_SUFFIX, PAGE_URL,
    TEMPORARY_SUFFIX,
};
use bookmux::request::{ChapterRequest, RequestError, TextField};

fn file(title: &str, path: &str) -> ResolvedFile {
    ResolvedFile { title: title.to_string(), path: path.to_string() }
}

#[test]
fn portal_addresses() {
    assert_eq!(BASE_URL, "https://iceportal.de");
    assert_eq!(PAGE_URL, "https://iceportal.de/api1/rs/page");
    assert_eq!(AUDIO_URL, "https://iceportal.de/api1/rs/audiobooks/path");
    assert_eq!(OUTPUT_SUFFIX, ".m4a");
}

#[test]
fn page_addresses() {
    assert_eq!(page_url("hoerbuecher"), "https://iceportal.de/api1/rs/page/hoerbuecher");
    assert_eq!(page_url("hoerbuecher/ein-buch"), "https://iceportal.de/api1/rs/page/hoerbuecher/ein-buch");
    assert_eq!(page_url(""), "https://iceportal.de/api1/rs/page/");
}

#[test]
fn lookup_addresses() {
    assert_eq!(
        lookup_url("/audiobooks/ein-buch/1.m4a"),
        "https://iceportal.de/api1/rs/audiobooks/path/audiobooks/ein-buch/1.m4a"
    );
    assert_eq!(lookup_url(""), "https://iceportal.de/api1/rs/audiobooks/path");
}

#[test]
fn absolute_addresses() {
    assert_eq!(absolute_url("/files/1.m4a?key=abc"), "https://iceportal.de/files/1.m4a?key=abc");
    assert_eq!(thumbnail_url("img/cover.jpg"), "https://iceportal.de/img/cover.jpg");
    assert_eq!(thumbnail_url(""), "https://iceportal.de/");
}

#[test]
fn output_names() {
    assert_eq!(output_name("Ein Buch"), "Ein Buch.m4a");
    assert_eq!(output_name(""), ".m4a");
}

#[test]
fn assembled_request() {
    let files = vec![file("Kapitel 1", "/files/1.m4a"), file("Kapitel 2", "/files/2.m4a")];
    let request = assemble("Ein Buch", "img/cover.jpg", &files).unwrap();
    assert_eq!(request.title(), "Ein Buch");
    assert_eq!(request.artwork_url(), Some("https://iceportal.de/img/cover.jpg"));
    assert_eq!(
        request.chapters(),
        &vec![
            ChapterRequest {
                title: "Kapitel 1".to_string(),
                url: "https://iceportal.de/files/1.m4a".to_string()
            },
            ChapterRequest {
                title: "Kapitel 2".to_string(),
                url: "https://iceportal.de/files/2.m4a".to_string()
            },
        ]
    );
}

#[test]
fn assembled_request_without_files() {
    let request = assemble("Ein Buch", "", &Vec::new()).unwrap();
    assert!(request.chapters().is_empty());
    assert_eq!(request.artwork_url(), Some("https://iceportal.de/"));
}

#[test]
fn assembling_refuses_null_characters() {
    let files = vec![file("Kapitel 1", "/files/1.m4a"), file("Kapitel 2", "/files/\0.m4a")];
    assert_eq!(
        assemble("Ein Buch", "img/cover.jpg", &files),
        Err(RequestError::InteriorNul(TextField::ChapterUrl(1)))
    );
    assert_eq!(
        assemble("Ein\0Buch", "img/cover.jpg", &files),
        Err(RequestError::InteriorNul(TextField::BookTitle))
    );
    assert_eq!(
        assemble("Ein Buch", "img/\0.jpg", &files),
        Err(RequestError::InteriorNul(TextField::Thumbnail))
    );
    let files = vec![file("Kapitel\0", "/files/1.m4a")];
    assert_eq!(
        assemble("Ein Buch", "img/cover.jpg", &files),
        Err(RequestError::InteriorNul(TextField::ChapterTitle(0)))
    );
}

#[test]
fn answers_of_success_are_taken() {
    for status in [200u16, 201, 204, 206, 250, 299] {
        assert_eq!(accept_reply(status), Ok(()));
    }
}

#[test]
fn other_answers_are_refused() {
    for status in [0u16, 1, 99, 100, 101, 199, 300, 301, 304, 400, 403, 404, 500, 503, 999, 1000, u16::MAX] {
        assert_eq!(accept_reply(status), Err(PortalError::Refused(status)));
    }
}

#[test]
fn temporary_names() {
    assert_eq!(TEMPORARY_SUFFIX, ".part");
    assert_eq!(temporary_name("Ein Buch.m4a"), "Ein Buch.m4a.part");
    assert_eq!(temporary_name(""), ".part");
    assert_ne!(temporary_name("Ein Buch.m4a"), "Ein Buch.m4a");
}
