//! Errors of screen capture.

use vstd::prelude::*;
use crate::text::{concat, concat3, decimal, decimal_u64, owned, separated};

verus! {

/// Errors that can occur during screen capture.
#[derive(Debug)]
pub enum CaptureError {
    /// ScreenCaptureKit returned an error.
    ScreenCaptureKit(String),
    /// No displays were found during enumeration.
    NoDisplays,
    /// HEIF encoding failed.
    Encoding(String),
    /// One or more capture streams could not be torn down cleanly.
    ///
    /// Returned from both startup rollback (when a stream that does not start triggers the stop
    /// of its peers) and the stop of an engine. Survivors are identified by display ID. The
    /// `original` cause is the error that triggered the teardown.
    PartialTeardown {
        survivors: Vec<u32>,
        stop_errors: Vec<(u32, String)>,
        original: Box<CaptureError>,
    },
    /// Engine entered a poisoned state after a failed stop.
    Poisoned,
}

/// Numbers as a list in brackets, as in `[1, 2]`.
pub open spec fn listed(ids: Seq<u32>) -> Seq<char> {
    "["@ + separated(Seq::new(ids.len(), |i: int| decimal(ids[i] as int)), ", "@) + "]"@
}

/// Numbers as a list in brackets.
fn list(ids: &[u32]) -> (r: String)
    ensures
        r@ == listed(ids@),
{
    let ghost all = Seq::new(ids@.len(), |i: int| decimal(ids@[i] as int));
    let mut out = String::new();
    let mut i: usize = 0;
    proof {
        assert(all.take(0) =~= Seq::<Seq<char>>::empty());
    }
    while i < ids.len()
        invariant
            i <= ids@.len(),
            all == Seq::new(ids@.len(), |k: int| decimal(ids@[k] as int)),
            out@ == separated(all.take(i as int), ", "@),
        decreases ids@.len() - i,
    {
        let number = decimal_u64(ids[i] as u64);
        proof {
            let next = all.take(i + 1);
            assert(next.drop_last() =~= all.take(i as int));
            assert(next.last() == number@);
        }
        out = if i == 0 {
            number
        } else {
            concat3(out.as_str(), ", ", number.as_str())
        };
        i += 1;
    }
    proof {
        assert(all.take(ids@.len() as int) =~= all);
    }
    concat3("[", out.as_str(), "]")
}

impl CaptureError {
    /// The error in words.
    pub open spec fn words(self) -> Seq<char> {
        match self {
            CaptureError::ScreenCaptureKit(s) => "screen capture kit error: "@ + s@,
            CaptureError::NoDisplays => "no displays found"@,
            CaptureError::Encoding(s) => "heif encoding failed: "@ + s@,
            CaptureError::PartialTeardown { survivors, .. } => "capture teardown failed; "@
                + decimal(survivors@.len() as int) + " stream(s) may still be running: "@ + listed(
                survivors@,
            ),
            CaptureError::Poisoned => "engine is poisoned after stop failure"@,
        }
    }

    /// Whether ScreenCaptureKit is blamed, in these words.
    pub open spec fn blames_kit(self, words: Seq<char>) -> bool {
        self is ScreenCaptureKit && self->ScreenCaptureKit_0@ == words
    }

    /// Whether the encoding failed, in these words.
    pub open spec fn blames_encoding(self, words: Seq<char>) -> bool {
        self is Encoding && self->Encoding_0@ == words
    }

    /// The error in words.
    pub fn message(&self) -> (r: String)
        ensures
            r@ == self.words(),
    {
        match self {
            CaptureError::ScreenCaptureKit(s) => concat("screen capture kit error: ", s.as_str()),
            CaptureError::NoDisplays => owned("no displays found"),
            CaptureError::Encoding(s) => concat("heif encoding failed: ", s.as_str()),
            CaptureError::PartialTeardown { survivors, .. } => {
                let count = decimal_u64(survivors.len() as u64);
                let running = concat3(
                    "capture teardown failed; ",
                    count.as_str(),
                    " stream(s) may still be running: ",
                );
                concat(running.as_str(), list(survivors.as_slice()).as_str())
            },
            CaptureError::Poisoned => owned("engine is poisoned after stop failure"),
        }
    }
}

/// An error says what failed; one that leaves streams behind counts and lists them.
pub proof fn a_capture_error_says_what_failed(error: CaptureError, r: String)
    requires
        call_ensures(CaptureError::message, (&error,), r),
    ensures
        error matches CaptureError::ScreenCaptureKit(s) ==> r@ == "screen capture kit error: "@
            + s@,
        error is NoDisplays ==> r@ == "no displays found"@,
        error matches CaptureError::Encoding(s) ==> r@ == "heif encoding failed: "@ + s@,
        error is Poisoned ==> r@ == "engine is poisoned after stop failure"@,
        error matches CaptureError::PartialTeardown { survivors, .. } ==> {
            let ids = Seq::new(survivors@.len(), |i: int| decimal(survivors@[i] as int));
            r@ == "capture teardown failed; "@ + decimal(survivors@.len() as int)
                + " stream(s) may still be running: "@ + ("["@ + separated(ids, ", "@) + "]"@)
        },
        forall|words: Seq<char>| #[trigger]
            error.blames_kit(words) <==> error is ScreenCaptureKit && error->ScreenCaptureKit_0@
                == words,
        forall|words: Seq<char>| #[trigger]
            error.blames_encoding(words) <==> error is Encoding && error->Encoding_0@ == words,
{
    if let CaptureError::PartialTeardown { survivors, .. } = error {
        assert(listed(survivors@) == "["@ + separated(
            Seq::new(survivors@.len(), |i: int| decimal(survivors@[i] as int)),
            ", "@,
        ) + "]"@);
    }
}

} // verus!
