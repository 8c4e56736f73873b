//! The portal: its addresses, which of its answers are taken, the request
//! that an entry of its catalog makes, and the names of the files written.

use vstd::prelude::*;
use vstd::string::StringExecFns;
use crate::request::{BookRequest, BookView, ChapterRequest, ChapterRequestView, RequestError};

verus! {

/// The portal's root.
pub const BASE_URL: &'static str = "https://iceportal.de";

/// Where the portal serves its pages, as structured data.
pub const PAGE_URL: &'static str = "https://iceportal.de/api1/rs/page";

/// Where the portal resolves the path of an audio file.
pub const AUDIO_URL: &'static str = "https://iceportal.de/api1/rs/audiobooks/path";

/// The ending of the file that a book is written to.
pub const OUTPUT_SUFFIX: &'static str = ".m4a";

/// The ending of the name under which a book is written until it is complete.
pub const TEMPORARY_SUFFIX: &'static str = ".part";

/// Why an answer of the portal cannot be used.
#[derive(Clone, Copy, Debug, PartialEq, Eq, Structural)]
pub enum PortalError {
    /// The portal answered with this status, which is not one of success.
    Refused(u16),
}

/// A status of success: one from 200 to 299.
pub open spec fn spec_is_success(status: u16) -> bool {
    200 <= status <= 299
}

/// Calls `reqwest::StatusCode::from_u16` and, on the status code it makes,
/// `is_success`. A number is a status of success exactly from 200 to 299; a
/// number that is no status code at all, below 100 or above 999, is not one.
#[verifier::external_body]
fn status_is_success(status: u16) -> (success: bool)
    ensures
        success == spec_is_success(status),
{
    match reqwest::StatusCode::from_u16(status) {
        Ok(code) => code.is_success(),
        Err(_) => false,
    }
}

/// Accepts an answer of the portal by its status: only an answer of success
/// is read any further.
pub fn accept_reply(status: u16) -> (reply: Result<(), PortalError>)
    ensures
        match reply {
            Ok(_) => spec_is_success(status),
            Err(PortalError::Refused(refused)) => !spec_is_success(status) && refused == status,
        },
{
    if status_is_success(status) {
        Ok(())
    } else {
        Err(PortalError::Refused(status))
    }
}

/// The address of a page: of a section of the catalog, or of a book by the
/// reference that its catalog entry carries.
pub fn page_url(reference: &str) -> (url: String)
    ensures
        url@ == PAGE_URL@ + "/"@ + reference@,
{
    String::from_str(PAGE_URL).concat("/").concat(reference)
}

/// The address that resolves the catalog's path of an audio file.
pub fn lookup_url(path: &str) -> (url: String)
    ensures
        url@ == AUDIO_URL@ + path@,
{
    String::from_str(AUDIO_URL).concat(path)
}

/// The address of a resource that the portal names by its absolute path.
pub fn absolute_url(path: &str) -> (url: String)
    ensures
        url@ == BASE_URL@ + path@,
{
    String::from_str(BASE_URL).concat(path)
}

/// The address of a picture that the portal names by its relative path.
pub fn thumbnail_url(source: &str) -> (url: String)
    ensures
        url@ == BASE_URL@ + "/"@ + source@,
{
    String::from_str(BASE_URL).concat("/").concat(source)
}

/// The name of the file that a book of this title is written to.
pub fn output_name(title: &str) -> (name: String)
    ensures
        name@ == title@ + OUTPUT_SUFFIX@,
{
    String::from_str(title).concat(OUTPUT_SUFFIX)
}

/// The name under which a book is written until it is complete: the
/// requested name is given to the file only when it is finalized.
pub fn temporary_name(output: &str) -> (name: String)
    ensures
        name@ == output@ + TEMPORARY_SUFFIX@,
        name@ != output@,
{
    proof {
        reveal_strlit(".part");
        assert((output@ + TEMPORARY_SUFFIX@).len() == output@.len() + 5);
    }
    String::from_str(output).concat(TEMPORARY_SUFFIX)
}

/// One audio file of a book, once the portal has resolved its path.
#[derive(Clone, Debug, PartialEq, Eq)]
pub struct ResolvedFile {
    /// The file's title in the catalog.
    pub title: String,
    /// The absolute path under which the portal serves the audio.
    pub path: String,
}

/// The chapter that a resolved file stands for: its title, and its path
/// under the portal's root.
pub open spec fn spec_chapter(file: ResolvedFile) -> ChapterRequestView {
    ChapterRequestView { title: file.title@, url: BASE_URL@ + file.path@ }
}

/// The request that a book of the catalog makes: its title, its picture
/// under the portal's root, and one chapter per file, in the catalog's order.
pub open spec fn spec_book(
    title: Seq<char>,
    picture: Seq<char>,
    files: Seq<ResolvedFile>,
) -> BookView {
    BookView {
        title,
        thumbnail: BASE_URL@ + "/"@ + picture,
        chapters: Seq::new(files.len(), |i: int| spec_chapter(files[i])),
    }
}

/// Makes the request for a book of the catalog. It is refused when a text of
/// it holds a null character.
pub fn assemble(title: &str, picture: &str, files: &Vec<ResolvedFile>) -> (made: Result<
    BookRequest,
    RequestError,
>)
    ensures
        match made {
            Ok(request) => request@ == spec_book(title@, picture@, files@) && request@.is_clean(),
            Err(RequestError::InteriorNul(field)) => spec_book(
                title@,
                picture@,
                files@,
            ).first_dirty(field),
        },
{
    let mut chapters: Vec<ChapterRequest> = Vec::new();
    let mut i: usize = 0;
    while i < files.len()
        invariant
            0 <= i <= files@.len(),
            chapters@.len() == i,
            forall|k: int| 0 <= k < i ==> (#[trigger] chapters@[k])@ == spec_chapter(files@[k]),
        decreases files@.len() - i,
    {
        let file = &files[i];
        chapters.push(
            ChapterRequest { title: file.title.clone(), url: absolute_url(file.path.as_str()) },
        );
        i = i + 1;
    }
    proof {
        assert(crate::request::spec_chapters(chapters@) =~= spec_book(
            title@,
            picture@,
            files@,
        ).chapters);
    }
    BookRequest::new(String::from_str(title), thumbnail_url(picture), chapters)
}

} // verus!
