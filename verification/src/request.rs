//! What a caller asks for: a book, its cover art and its chapters in order.

use vstd::prelude::*;
use vstd::std_specs::iter::IteratorSpec;

verus! {

broadcast use vstd::string::group_string_axioms;

/// A text can cross a boundary of null-terminated strings: it holds no null
/// character of its own.
pub open spec fn spec_is_clean(text: Seq<char>) -> bool {
    !text.contains('\0')
}

/// Whether a text holds no null character.
pub fn is_clean(text: &str) -> (clean: bool)
    ensures
        clean == spec_is_clean(text@),
{
    let mut rest = text.chars();
    let ghost mut seen: int = 0;
    loop
        invariant
            0 <= seen <= text@.len(),
            rest.remaining() == text@.skip(seen),
            forall|i: int| 0 <= i < seen ==> text@[i] != '\0',
        decreases text@.len() - seen,
    {
        let ghost before = rest;
        match rest.next() {
            Some(c) => {
                assert(c == text@[seen]) by {
                    assert(before.remaining()[0] == text@[seen]);
                }
                assert(rest.remaining() == text@.skip(seen + 1)) by {
                    assert(text@.skip(seen).drop_first() =~= text@.skip(seen + 1));
                }
                if c == '\0' {
                    return false;
                }
                proof {
                    seen = seen + 1;
                }
            },
            None => {
                assert(seen == text@.len());
                return true;
            },
        }
    }
}

/// One chapter of a request: its title and where its audio is fetched from.
/// The place of a chapter in the request's list is its place in the book.
#[derive(Clone, Debug, PartialEq, Eq)]
pub struct ChapterRequest {
    /// The title that the chapter table will show.
    pub title: String,
    /// The address of the chapter's audio stream.
    pub url: String,
}

/// A chapter request as a mathematical value.
pub struct ChapterRequestView {
    pub title: Seq<char>,
    pub url: Seq<char>,
}

impl View for ChapterRequest {
    type V = ChapterRequestView;

    open spec fn view(&self) -> ChapterRequestView {
        ChapterRequestView { title: self.title@, url: self.url@ }
    }
}

/// One of the texts of a request.
#[derive(Clone, Copy, Debug, PartialEq, Eq, Structural)]
pub enum TextField {
    /// The book's title.
    BookTitle,
    /// The address of the cover art.
    Thumbnail,
    /// The title of the chapter at this index.
    ChapterTitle(usize),
    /// The address of the chapter at this index.
    ChapterUrl(usize),
}

impl TextField {
    /// The place of a text in a request that is read front to back: the
    /// book's title, the cover art, then chapter by chapter title and address.
    pub open spec fn rank(self) -> int {
        match self {
            TextField::BookTitle => 0,
            TextField::Thumbnail => 1,
            TextField::ChapterTitle(i) => 2 + 2 * i,
            TextField::ChapterUrl(i) => 3 + 2 * i,
        }
    }
}

/// Why a request was refused.
#[derive(Clone, Copy, Debug, PartialEq, Eq, Structural)]
pub enum RequestError {
    /// This text holds a null character; it is the first that does.
    InteriorNul(TextField),
}

/// A request as a mathematical value.
pub struct BookView {
    pub title: Seq<char>,
    pub thumbnail: Seq<char>,
    pub chapters: Seq<ChapterRequestView>,
}

impl BookView {
    /// The request has this text.
    pub open spec fn has_field(self, field: TextField) -> bool {
        match field {
            TextField::BookTitle => true,
            TextField::Thumbnail => true,
            TextField::ChapterTitle(i) => i < self.chapters.len(),
            TextField::ChapterUrl(i) => i < self.chapters.len(),
        }
    }

    /// One text of the request.
    pub open spec fn text(self, field: TextField) -> Seq<char>
        recommends
            self.has_field(field),
    {
        match field {
            TextField::BookTitle => self.title,
            TextField::Thumbnail => self.thumbnail,
            TextField::ChapterTitle(i) => self.chapters[i as int].title,
            TextField::ChapterUrl(i) => self.chapters[i as int].url,
        }
    }

    /// No text of the request holds a null character.
    pub open spec fn is_clean(self) -> bool {
        forall|field: TextField| #[trigger]
            self.has_field(field) ==> spec_is_clean(self.text(field))
    }

    /// `field` is the first text of the request that holds a null character.
    pub open spec fn first_dirty(self, field: TextField) -> bool {
        &&& self.has_field(field)
        &&& !spec_is_clean(self.text(field))
        &&& forall|other: TextField|
            self.has_field(other) && #[trigger] other.rank() < field.rank() ==> spec_is_clean(
                self.text(other),
            )
    }

    /// The request names cover art: an empty address means that there is none.
    pub open spec fn wants_artwork(self) -> bool {
        self.thumbnail.len() > 0
    }

    /// The chapters' titles, in order.
    pub open spec fn titles(self) -> Seq<Seq<char>> {
        Seq::new(self.chapters.len(), |i: int| self.chapters[i].title)
    }
}

/// A book to produce: its title, the address of its cover art (empty for
/// none) and its chapters in playback order. A value of this type holds no
/// null character in any text.
#[derive(Clone, Debug, PartialEq, Eq)]
pub struct BookRequest {
    title: String,
    thumbnail: String,
    chapters: Vec<ChapterRequest>,
}

impl View for BookRequest {
    type V = BookView;

    closed spec fn view(&self) -> BookView {
        BookView {
            title: self.title@,
            thumbnail: self.thumbnail@,
            chapters: spec_chapters(self.chapters@),
        }
    }
}

/// The chapters of a list as mathematical values.
pub open spec fn spec_chapters(chapters: Seq<ChapterRequest>) -> Seq<ChapterRequestView> {
    Seq::new(chapters.len(), |i: int| chapters[i]@)
}

/// The request made of these values.
pub open spec fn spec_request(
    title: Seq<char>,
    thumbnail: Seq<char>,
    chapters: Seq<ChapterRequest>,
) -> BookView {
    BookView { title, thumbnail, chapters: spec_chapters(chapters) }
}

impl BookRequest {
    /// Makes a request of owned values. It is refused when a text holds a
    /// null character; the error names the first text that does.
    pub fn new(title: String, thumbnail: String, chapters: Vec<ChapterRequest>) -> (made: Result<
        BookRequest,
        RequestError,
    >)
        ensures
            match made {
                Ok(request) => request@ == spec_request(title@, thumbnail@, chapters@)
                    && request@.is_clean(),
                Err(RequestError::InteriorNul(field)) => spec_request(
                    title@,
                    thumbnail@,
                    chapters@,
                ).first_dirty(field),
            },
    {
        let ghost view = spec_request(title@, thumbnail@, chapters@);
        if !is_clean(title.as_str()) {
            assert(view.text(TextField::BookTitle) == title@);
            return Err(RequestError::InteriorNul(TextField::BookTitle));
        }
        if !is_clean(thumbnail.as_str()) {
            assert(view.text(TextField::Thumbnail) == thumbnail@);
            assert forall|other: TextField|
                view.has_field(other) && #[trigger] other.rank() < TextField::Thumbnail.rank()
                implies spec_is_clean(view.text(other)) by {
                assert(other == TextField::BookTitle);
            }
            return Err(RequestError::InteriorNul(TextField::Thumbnail));
        }
        let mut i: usize = 0;
        while i < chapters.len()
            invariant
                0 <= i <= chapters@.len(),
                view.title == title@,
                view.thumbnail == thumbnail@,
                view.chapters.len() == chapters@.len(),
                forall|k: int| 0 <= k < chapters@.len() ==> view.chapters[k] == chapters@[k]@,
                spec_is_clean(title@),
                spec_is_clean(thumbnail@),
                forall|k: int|
                    0 <= k < i ==> spec_is_clean((#[trigger] chapters@[k]).title@)
                        && spec_is_clean(chapters@[k].url@),
            decreases chapters@.len() - i,
        {
            let chapter = &chapters[i];
            if !is_clean(chapter.title.as_str()) {
                let ghost field = TextField::ChapterTitle(i);
                assert(view.text(field) == chapter.title@);
                assert forall|other: TextField|
                    view.has_field(other) && #[trigger] other.rank() < field.rank()
                    implies spec_is_clean(view.text(other)) by {
                    match other {
                        TextField::BookTitle => {},
                        TextField::Thumbnail => {},
                        TextField::ChapterTitle(k) => {
                            assert(spec_is_clean(chapters@[k as int].title@));
                        },
                        TextField::ChapterUrl(k) => {
                            assert(spec_is_clean(chapters@[k as int].url@));
                        },
                    }
                }
                return Err(RequestError::InteriorNul(TextField::ChapterTitle(i)));
            }
            if !is_clean(chapter.url.as_str()) {
                let ghost field = TextField::ChapterUrl(i);
                assert(view.text(field) == chapter.url@);
                assert forall|other: TextField|
                    view.has_field(other) && #[trigger] other.rank() < field.rank()
                    implies spec_is_clean(view.text(other)) by {
                    match other {
                        TextField::BookTitle => {},
                        TextField::Thumbnail => {},
                        TextField::ChapterTitle(k) => {
                            assert(spec_is_clean(chapters@[k as int].title@));
                        },
                        TextField::ChapterUrl(k) => {
                            assert(spec_is_clean(chapters@[k as int].url@));
                        },
                    }
                }
                return Err(RequestError::InteriorNul(TextField::ChapterUrl(i)));
            }
            i = i + 1;
        }
        let request = BookRequest { title, thumbnail, chapters };
        assert(request@.chapters =~= view.chapters);
        assert forall|field: TextField| #[trigger] view.has_field(field) implies spec_is_clean(
            view.text(field),
        ) by {
            match field {
                TextField::BookTitle => {},
                TextField::Thumbnail => {},
                TextField::ChapterTitle(k) => {
                    assert(spec_is_clean(chapters@[k as int].title@));
                },
                TextField::ChapterUrl(k) => {
                    assert(spec_is_clean(chapters@[k as int].url@));
                },
            }
        }
        Ok(request)
    }

    /// The book's title.
    pub fn title(&self) -> (title: &str)
        ensures
            title@ == self@.title,
    {
        self.title.as_str()
    }

    /// The address of the cover art, or `None` where the request names none.
    pub fn artwork_url(&self) -> (url: Option<&str>)
        ensures
            url.is_some() == self@.wants_artwork(),
            url.is_some() ==> url.unwrap()@ == self@.thumbnail,
    {
        if self.thumbnail.as_str().unicode_len() == 0 {
            None
        } else {
            Some(self.thumbnail.as_str())
        }
    }

    /// The chapters, in playback order.
    pub fn chapters(&self) -> (chapters: &Vec<ChapterRequest>)
        ensures
            spec_chapters(chapters@) == self@.chapters,
    {
        &self.chapters
    }
}

/// A request has at most one first text with a null character, and it has
/// one exactly when it is not clean.
pub proof fn lemma_first_dirty_is_unique(request: BookView, a: TextField, b: TextField)
    requires
        request.first_dirty(a),
        request.first_dirty(b),
    ensures
        a == b,
        !request.is_clean(),
{
    assert(!(a.rank() < b.rank()));
    assert(!(b.rank() < a.rank()));
}

} // verus!
