//! One long-lived decoder state, built on first use.

use vstd::prelude::*;
use crate::transcription::{
    concat_segment_text, short_buffer_error, short_message, speech, texts_of, Transcript,
    TranscriptionError, MIN_DECODABLE_SAMPLES,
};
use crate::text::trimmed;

verus! {

/// Holds one long-lived `T`, created on first use.
///
/// Creating one allocates the whole compute backend, so it is kept between calls. One that
/// failed is never used again.
pub struct StateSlot<T> {
    pub slot: Option<T>,
    /// How many values this slot has built. Stays at 1 unless a state is discarded and
    /// rebuilt.
    pub creations: usize,
}

/// One more than `n`, wrapping around at the end of the range.
pub open spec fn next_creation(n: usize) -> usize {
    if n == usize::MAX {
        0
    } else {
        (n + 1) as usize
    }
}

/// Whether a slot that was `before` ends up as `after` when `given` was the state that stood
/// in it, or the one that `make` has built, and a use of it has returned `r` and left it as
/// `left`: a state that failed is dropped, and any other stays as it was left.
pub open spec fn used<T, R, E, M: FnOnce() -> Result<T, E>>(
    before: StateSlot<T>,
    after: StateSlot<T>,
    make: M,
    given: T,
    left: T,
    r: Result<R, E>,
) -> bool {
    &&& match before.slot {
        Some(t) => given == t && after.creations == before.creations,
        None => call_ensures(make, (), Ok::<T, E>(given)) && after.creations == next_creation(
            before.creations,
        ),
    }
    &&& match r {
        Ok(_) => after.slot == Some(left),
        Err(_) => after.slot is None,
    }
}

/// Whether a slot that was empty stays so because `make` has failed.
pub open spec fn not_built<T, R, E, M: FnOnce() -> Result<T, E>>(
    before: StateSlot<T>,
    after: StateSlot<T>,
    make: M,
    r: Result<R, E>,
) -> bool {
    &&& before.slot is None
    &&& after == before
    &&& r is Err
    &&& call_ensures(make, (), Err::<T, E>(r->Err_0))
}

impl<T> StateSlot<T> {
    /// An empty slot.
    pub fn new() -> (r: Self)
        ensures
            r.slot is None,
            r.creations == 0,
    {
        StateSlot { slot: None, creations: 0 }
    }

    /// How many values this slot has built.
    pub fn creation_count(&self) -> (r: usize)
        ensures
            r == self.creations,
    {
        self.creations
    }

    /// Run `use_state` against the held value, creating it first if absent.
    pub fn with<R, E, M: FnOnce() -> Result<T, E>, U: FnOnce(&mut T) -> Result<R, E>>(
        &mut self,
        make: M,
        use_state: U,
    ) -> (r: Result<R, E>)
        requires
            old(self).slot is None ==> call_requires(make, ()),
            forall|t: &mut T| call_requires(use_state, (t,)),
        ensures
            not_built::<T, R, E, M>(*old(self), *final(self), make, r) || exists|state: &mut T|
                #[trigger] call_ensures(use_state, (state,), r) && used::<T, R, E, M>(
                    *old(self),
                    *final(self),
                    make,
                    *state,
                    *final(state),
                    r,
                ),
    {
        let mut taken: Option<T> = None;
        std::mem::swap(&mut self.slot, &mut taken);
        let mut state = match taken {
            Some(state) => state,
            None => match make() {
                Ok(state) => {
                    self.creations = if self.creations == usize::MAX {
                        0
                    } else {
                        self.creations + 1
                    };
                    state
                },
                Err(e) => {
                    return Err(e);
                },
            },
        };
        let result = use_state(&mut state);
        if result.is_ok() {
            self.slot = Some(state);
        }
        result
    }

    /// Drop the held value: a panic may have left it corrupted.
    pub fn discard(&mut self)
        ensures
            final(self).slot is None,
            final(self).creations == old(self).creations,
    {
        self.slot = None;
    }
}

/// What a decoder run gives: the texts of its segments, and the language it detected.
pub struct RawTranscription {
    pub segments: Vec<String>,
    pub language: Option<String>,
}

/// The texts of a run's segments.
pub open spec fn segment_texts(raw: RawTranscription) -> Seq<Seq<char>> {
    Seq::new(raw.segments@.len(), |i: int| raw.segments@[i]@)
}

/// The transcript of a decoder run: its speech, and the language it detected.
pub fn assemble(raw: RawTranscription) -> (r: Transcript)
    ensures
        r.text@ == trimmed(speech(segment_texts(raw))),
        r.language == raw.language,
{
    let mut segments: Vec<&str> = Vec::new();
    let mut i: usize = 0;
    while i < raw.segments.len()
        invariant
            i <= raw.segments@.len(),
            segments@.len() == i,
            forall|k: int| 0 <= k < i ==> (#[trigger] segments@[k])@ == raw.segments@[k]@,
        decreases raw.segments@.len() - i,
    {
        segments.push(raw.segments[i].as_str());
        i += 1;
    }
    proof {
        assert(texts_of(segments@) =~= segment_texts(raw));
    }
    let text = concat_segment_text(segments.as_slice());
    Transcript { text, language: raw.language }
}

/// Whether `r` is the transcript of this run, or its error.
pub open spec fn transcribed(
    run: Result<RawTranscription, TranscriptionError>,
    r: Result<Transcript, TranscriptionError>,
) -> bool {
    match run {
        Ok(raw) => r is Ok && r->Ok_0.text@ == trimmed(speech(segment_texts(raw)))
            && r->Ok_0.language == raw.language,
        Err(e) => r is Err && r->Err_0 == e,
    }
}

/// Transcribe a buffer of `samples` samples with the state in the slot.
///
/// The guard on the buffer's length comes before the slot: a buffer that is too short must
/// neither build a state nor discard one.
pub fn transcribe<
    S,
    M: FnOnce() -> Result<S, TranscriptionError>,
    U: FnOnce(&mut S) -> Result<RawTranscription, TranscriptionError>,
>(slot: &mut StateSlot<S>, samples: usize, make: M, run: U) -> (r: Result<
    Transcript,
    TranscriptionError,
>)
    requires
        samples >= MIN_DECODABLE_SAMPLES && old(slot).slot is None ==> call_requires(make, ()),
        samples >= MIN_DECODABLE_SAMPLES ==> forall|state: &mut S| call_requires(run, (state,)),
    ensures
        samples < MIN_DECODABLE_SAMPLES ==> {
            &&& *final(slot) == *old(slot)
            &&& r is Err && r->Err_0 is Whisper
            &&& (r->Err_0)->Whisper_0@ == short_message(samples as nat)
        },
        samples >= MIN_DECODABLE_SAMPLES ==> not_built::<
            S,
            Transcript,
            TranscriptionError,
            M,
        >(*old(slot), *final(slot), make, r) || exists|
            state: &mut S,
            ran: Result<RawTranscription, TranscriptionError>,
        |
            #[trigger] call_ensures(run, (state,), ran) && transcribed(ran, r) && used::<
                S,
                RawTranscription,
                TranscriptionError,
                M,
            >(*old(slot), *final(slot), make, *state, *final(state), ran),
{
    if let Some(e) = short_buffer_error(samples) {
        return Err(e);
    }
    match slot.with(make, run) {
        Ok(raw) => Ok(assemble(raw)),
        Err(e) => Err(e),
    }
}

/// One state serves two uses: after a use that succeeded, the next one builds nothing.
pub proof fn a_working_state_is_kept<T, R, E, M: FnOnce() -> Result<T, E>>(
    first: StateSlot<T>,
    second: StateSlot<T>,
    third: StateSlot<T>,
    make: M,
    given: T,
    left: T,
    r: Result<R, E>,
    next_given: T,
    next_left: T,
    next_r: Result<R, E>,
)
    requires
        used::<T, R, E, M>(first, second, make, given, left, r),
        used::<T, R, E, M>(second, third, make, next_given, next_left, next_r),
        r is Ok,
    ensures
        third.creations == second.creations,
        next_given == left,
{
}

/// A state that failed is never used again: the next use is given one that was built for it.
pub proof fn a_failed_state_is_rebuilt<T, R, E, M: FnOnce() -> Result<T, E>>(
    first: StateSlot<T>,
    second: StateSlot<T>,
    third: StateSlot<T>,
    make: M,
    given: T,
    left: T,
    r: Result<R, E>,
    next_given: T,
    next_left: T,
    next_r: Result<R, E>,
)
    requires
        used::<T, R, E, M>(first, second, make, given, left, r),
        used::<T, R, E, M>(second, third, make, next_given, next_left, next_r),
        r is Err,
    ensures
        call_ensures(make, (), Ok::<T, E>(next_given)),
        third.creations == next_creation(second.creations),
{
}

/// A use is given the state that stands in the slot, or one that was built for it; a use that
/// succeeded leaves it there, and one that failed leaves none. Every state that was built counts
/// once.
pub proof fn a_use_keeps_or_drops_its_state<T, R, E, M: FnOnce() -> Result<T, E>>(
    before: StateSlot<T>,
    after: StateSlot<T>,
    make: M,
    given: T,
    left: T,
    r: Result<R, E>,
)
    requires
        used::<T, R, E, M>(before, after, make, given, left, r),
        before.creations < usize::MAX,
    ensures
        r is Ok ==> after.slot == Some(left),
        r is Err ==> after.slot is None,
        before.slot is Some ==> given == before.slot->0 && after.creations == before.creations,
        before.slot is None ==> call_ensures(make, (), Ok::<T, E>(given)) && after.creations
            == before.creations + 1,
{
}

/// A state that could not be built leaves the slot as it was, and its error is passed on.
pub proof fn a_failed_build_changes_nothing<T, R, E, M: FnOnce() -> Result<T, E>>(
    before: StateSlot<T>,
    after: StateSlot<T>,
    make: M,
    r: Result<R, E>,
)
    requires
        not_built::<T, R, E, M>(before, after, make, r),
    ensures
        before.slot is None,
        after == before,
        r is Err,
        call_ensures(make, (), Err::<T, E>(r->Err_0)),
{
}

/// The transcript of a run is the speech of its segments and the language that it detected; the
/// error of a run is passed on.
pub proof fn a_run_is_transcribed_as_it_is(
    raw: RawTranscription,
    r: Transcript,
    run: Result<RawTranscription, TranscriptionError>,
    result: Result<Transcript, TranscriptionError>,
)
    requires
        call_ensures(assemble, (raw,), r),
        transcribed(run, result),
    ensures
        exists|texts: Seq<Seq<char>>|
            {
                &&& #[trigger] texts.len() == raw.segments@.len()
                &&& forall|i: int|
                    0 <= i < texts.len() ==> #[trigger] texts[i] == raw.segments@[i]@
                &&& r.text@ == trimmed(speech(texts))
            },
        r.language == raw.language,
        run is Err ==> result is Err && result->Err_0 == run->Err_0,
        run is Ok && run->Ok_0 == raw ==> result is Ok && result->Ok_0.text@ == r.text@
            && result->Ok_0.language == raw.language,
{
    let texts = segment_texts(raw);
    assert(texts.len() == raw.segments@.len());
}

/// A buffer that is too short neither builds a state nor drops one.
pub proof fn a_short_buffer_leaves_the_slot_alone<
    S,
    M: FnOnce() -> Result<S, TranscriptionError>,
    U: FnOnce(&mut S) -> Result<RawTranscription, TranscriptionError>,
>(samples: usize, make: M, run: U, r: Result<Transcript, TranscriptionError>)
    requires
        samples < 41,
    ensures
        forall|slot: &mut StateSlot<S>|
            #[trigger] call_ensures(transcribe::<S, M, U>, (slot, samples, make, run), r)
                ==> *final(slot) == *slot && r is Err && r->Err_0 is Whisper,
{
}

/// A slot counts what it has built, and is empty once its state was discarded.
pub proof fn a_discarded_state_is_gone<T>(slot: StateSlot<T>, count: usize)
    requires
        call_ensures(StateSlot::<T>::creation_count, (&slot,), count),
    ensures
        count == slot.creations,
        forall|s: &mut StateSlot<T>| #[trigger]
            call_ensures(StateSlot::<T>::discard, (s,), ()) ==> (*final(s)).slot is None && (
            *final(s)).creations == (*s).creations,
{
}

/// A use of the slot either could not build a state, or ran once on the state that stood there or
/// was built for it.
pub proof fn a_use_runs_once_on_one_state<
    T,
    R,
    E,
    M: FnOnce() -> Result<T, E>,
    U: FnOnce(&mut T) -> Result<R, E>,
>(make: M, use_state: U, r: Result<R, E>)
    ensures
        forall|s: &mut StateSlot<T>| #[trigger]
            call_ensures(StateSlot::<T>::with::<R, E, M, U>, (s, make, use_state), r)
                ==> not_built::<T, R, E, M>(*s, *final(s), make, r) || exists|state: &mut T|
                #[trigger] call_ensures(use_state, (state,), r) && used::<T, R, E, M>(
                    *s,
                    *final(s),
                    make,
                    *state,
                    *final(state),
                    r,
                ),
{
}

/// A new slot is empty and has built nothing.
pub proof fn a_new_slot_is_empty<T>(slot: StateSlot<T>)
    requires
        call_ensures(StateSlot::<T>::new, (), slot),
    ensures
        slot.slot is None,
        slot.creations == 0,
{
}

} // verus!
