//! Text recognition on screenshots.

use vstd::prelude::*;
use crate::text::{chars_of, concat, concat3, owned, separated};

verus! {

/// Errors from text extraction.
#[derive(Debug, Clone, PartialEq, Eq)]
pub enum OcrError {
    /// The image file does not exist at the given path.
    ImageNotFound(String),
    /// The recognition request failed.
    VisionError(String),
}

impl OcrError {
    /// The error in words.
    pub open spec fn words(self) -> Seq<char> {
        match self {
            OcrError::ImageNotFound(path) => "image not found: "@ + path@,
            OcrError::VisionError(why) => "vision request failed: "@ + why@,
        }
    }

    /// The error in words.
    pub fn message(&self) -> (r: String)
        ensures
            r@ == self.words(),
    {
        match self {
            OcrError::ImageNotFound(path) => concat("image not found: ", path.as_str()),
            OcrError::VisionError(why) => concat("vision request failed: ", why.as_str()),
        }
    }
}

/// An image file as the file system knows it.
#[derive(Debug, Clone, PartialEq, Eq)]
pub struct ImageFile {
    /// Whether there is such a file.
    pub is_file: bool,
    /// Its path for display.
    pub shown: String,
    /// Its path, if that is text.
    pub path: Option<String>,
}

/// The recognized texts that are not empty, in order. An observation without a candidate has no
/// text.
pub open spec fn recognized(observations: Seq<Option<String>>) -> Seq<Seq<char>>
    decreases observations.len(),
{
    if observations.len() == 0 {
        Seq::empty()
    } else {
        let before = recognized(observations.drop_last());
        match observations.last() {
            Some(text) => if text@.len() > 0 {
                before.push(text@)
            } else {
                before
            },
            None => before,
        }
    }
}

/// Concatenate the best candidates of the observations, one per line.
pub fn join_observations(observations: &[Option<String>]) -> (r: String)
    ensures
        r@ == separated(recognized(observations@), "\n"@),
{
    let mut out = String::new();
    let mut empty = true;
    let mut i: usize = 0;
    proof {
        assert(observations@.take(0) =~= Seq::<Option<String>>::empty());
    }
    while i < observations.len()
        invariant
            i <= observations@.len(),
            empty <==> recognized(observations@.take(i as int)).len() == 0,
            out@ == separated(recognized(observations@.take(i as int)), "\n"@),
        decreases observations@.len() - i,
    {
        proof {
            assert(observations@.take(i + 1).drop_last() =~= observations@.take(i as int));
        }
        if let Some(text) = &observations[i] {
            if chars_of(text.as_str()).len() > 0 {
                proof {
                    let before = recognized(observations@.take(i as int));
                    assert(before.push(text@).drop_last() =~= before);
                }
                out = if empty {
                    owned(text.as_str())
                } else {
                    concat3(out.as_str(), "\n", text.as_str())
                };
                empty = false;
            }
        }
        i += 1;
    }
    proof {
        assert(observations@.take(observations@.len() as int) =~= observations@);
    }
    out
}

/// Whether the recognition of the image at the path can come out so, and go from one state to the
/// other by it.
pub open spec fn recognizes<W, F: Fn(W, &str) -> (W, Result<Vec<Option<String>>, String>)>(
    recognize: F,
    path: Seq<char>,
    before: W,
    after: W,
    found: Result<Vec<Option<String>>, String>,
) -> bool {
    exists|given: &str|
        given@ == path && #[trigger] call_ensures(recognize, (before, given), (after, found))
}

/// Whether extracting the text of the image can lead from one state to the other, and come out
/// so.
pub open spec fn extracted<W, F: Fn(W, &str) -> (W, Result<Vec<Option<String>>, String>)>(
    image: ImageFile,
    recognize: F,
    before: W,
    after: W,
    r: Result<String, OcrError>,
) -> bool {
    if !image.is_file {
        &&& after == before
        &&& r is Err && r->Err_0 is ImageNotFound && r->Err_0->ImageNotFound_0@ == image.shown@
    } else if image.path is None {
        &&& after == before
        &&& r is Err && r->Err_0 is VisionError && r->Err_0->VisionError_0@
            == "path is not valid UTF-8"@
    } else {
        exists|found: Result<Vec<Option<String>>, String>|
            {
                &&& #[trigger] recognizes(recognize, image.path->0@, before, after, found)
                &&& match found {
                    Ok(observations) => r is Ok && r->Ok_0@ == separated(
                        recognized(observations@),
                        "\n"@,
                    ),
                    Err(why) => r == Err::<String, OcrError>(OcrError::VisionError(why)),
                }
            }
    }
}

/// Extract text from an image file.
///
/// `recognize` runs the recognition on a path and gives the best candidate of each observation.
/// It takes the state of the recognizer and gives back what it has left, and that comes with the
/// result. Returns the concatenated recognized text, empty if no text is found.
pub fn extract_text<W, F: Fn(W, &str) -> (W, Result<Vec<Option<String>>, String>)>(
    image: &ImageFile,
    recognizer: W,
    recognize: F,
) -> (r: (W, Result<String, OcrError>))
    requires
        forall|recognizer: W, path: &str| call_requires(recognize, (recognizer, path)),
    ensures
        extracted(*image, recognize, recognizer, r.0, r.1),
{
    if !image.is_file {
        return (recognizer, Err(OcrError::ImageNotFound(owned(image.shown.as_str()))));
    }
    match &image.path {
        None => (recognizer, Err(OcrError::VisionError(owned("path is not valid UTF-8")))),
        Some(path) => {
            let ghost before = recognizer;
            let (left, found) = recognize(recognizer, path.as_str());
            assert(recognizes(recognize, path@, before, left, found));
            let r = match found {
                Ok(observations) => Ok(join_observations(observations.as_slice())),
                Err(why) => Err(OcrError::VisionError(why)),
            };
            (left, r)
        },
    }
}

/// Every recognized text is kept, and in its place: those of two lists of observations are those
/// of the first and then those of the second. A text that is not empty counts once, and an
/// observation without one not at all.
pub proof fn every_recognized_text_is_kept(
    a: Seq<Option<String>>,
    b: Seq<Option<String>>,
    text: String,
)
    ensures
        recognized(a + b) == recognized(a) + recognized(b),
        recognized(Seq::empty()).len() == 0,
        recognized(seq![None::<String>]).len() == 0,
        text@.len() == 0 ==> recognized(seq![Some(text)]).len() == 0,
        text@.len() > 0 ==> recognized(seq![Some(text)]) == seq![text@],
    decreases b.len(),
{
    let none = seq![None::<String>];
    let one = seq![Some(text)];
    let empty = Seq::<Option<String>>::empty();
    assert(none.drop_last() =~= empty);
    assert(one.drop_last() =~= empty);
    assert(recognized(empty) =~= Seq::<Seq<char>>::empty());
    assert(one.last() == Some(text) && none.last() == None::<String>);
    assert(text@.len() > 0 ==> recognized(one) =~= seq![text@]);
    if b.len() == 0 {
        assert(a + b =~= a);
        assert(recognized(a) + recognized(b) =~= recognized(a));
    } else {
        every_recognized_text_is_kept(a, b.drop_last(), text);
        assert((a + b).drop_last() =~= a + b.drop_last());
        assert(recognized(a + b) =~= recognized(a) + recognized(b));
    }
}

/// The recognized texts stand one per line: the text of two lists of observations is that of the
/// first, a line break, and that of the second.
pub proof fn each_text_has_its_line(
    a: &[Option<String>],
    b: &[Option<String>],
    all: &[Option<String>],
    first: String,
    second: String,
    whole: String,
)
    requires
        all@ == a@ + b@,
        call_ensures(join_observations, (a,), first),
        call_ensures(join_observations, (b,), second),
        call_ensures(join_observations, (all,), whole),
    ensures
        recognized(a@).len() > 0 && recognized(b@).len() > 0 ==> whole@ == first@ + "\n"@ + second@,
        recognized(a@).len() == 0 ==> whole@ == second@,
        recognized(b@).len() == 0 ==> whole@ == first@,
        recognized(all@).len() == 1 ==> whole@ == recognized(all@)[0],
        recognized(all@).len() == 0 ==> whole@.len() == 0,
{
    every_recognized_text_is_kept(a@, b@, first);
    crate::text::a_separator_stands_between_each_two(recognized(a@), recognized(b@), "\n"@);
    assert(recognized(a@).len() == 0 ==> recognized(all@) =~= recognized(b@));
    assert(recognized(b@).len() == 0 ==> recognized(all@) =~= recognized(a@));
}

/// The text of an image is that of what the recognition of its own path found; an image that is
/// not there, or whose path is not text, is an error and nothing is recognized.
pub proof fn an_image_reads_as_what_was_found<
    W,
    F: Fn(W, &str) -> (W, Result<Vec<Option<String>>, String>),
>(image: ImageFile, recognize: F, before: W, after: W, r: Result<String, OcrError>)
    requires
        extracted(image, recognize, before, after, r),
    ensures
        !image.is_file ==> after == before && r is Err && r->Err_0 is ImageNotFound
            && r->Err_0->ImageNotFound_0@ == image.shown@,
        image.is_file && image.path is None ==> after == before && r is Err
            && r->Err_0 is VisionError && r->Err_0->VisionError_0@ == "path is not valid UTF-8"@,
        image.is_file && image.path is Some ==> exists|
            given: &str,
            found: Result<Vec<Option<String>>, String>,
        |
            {
                &&& given@ == image.path->0@
                &&& #[trigger] call_ensures(recognize, (before, given), (after, found))
                &&& found is Ok ==> r is Ok && r->Ok_0@ == separated(
                    recognized(found->Ok_0@),
                    "\n"@,
                )
                &&& found is Err ==> r is Err && r->Err_0 == OcrError::VisionError(found->Err_0)
            },
{
    if image.is_file && image.path is Some {
        let found = choose|found: Result<Vec<Option<String>>, String>|
            {
                &&& #[trigger] recognizes(recognize, image.path->0@, before, after, found)
                &&& match found {
                    Ok(observations) => r is Ok && r->Ok_0@ == separated(
                        recognized(observations@),
                        "\n"@,
                    ),
                    Err(why) => r == Err::<String, OcrError>(OcrError::VisionError(why)),
                }
            };
        let given = choose|given: &str|
            given@ == image.path->0@ && #[trigger] call_ensures(
                recognize,
                (before, given),
                (after, found),
            );
        assert(call_ensures(recognize, (before, given), (after, found)));
    }
}

/// The text of an image is extracted as the laws on it say.
pub proof fn a_text_is_extracted_from_its_image<
    W,
    F: Fn(W, &str) -> (W, Result<Vec<Option<String>>, String>),
>(image: &ImageFile, recognizer: W, recognize: F, r: (W, Result<String, OcrError>), words: String)
    requires
        call_ensures(extract_text::<W, F>, (image, recognizer, recognize), r),
        r.1 is Err,
        call_ensures(OcrError::message, (&r.1->Err_0,), words),
    ensures
        extracted(*image, recognize, recognizer, r.0, r.1),
        r.1->Err_0 matches OcrError::ImageNotFound(path) ==> words@ == "image not found: "@ + path@,
        r.1->Err_0 matches OcrError::VisionError(why) ==> words@ == "vision request failed: "@
            + why@,
{
}

} // verus!
