//! Transcription: which models there are, and what their output means.

use vstd::prelude::*;
use crate::text::{
    chars_of, concat, concat3, decimal, decimal_u64, is_white_space, join_path, joined, owned,
    same_text, string_of, trim_chars, trimmed, white_space,
};

pub mod checksum;
pub mod decode;
pub mod state;

verus! {

/// Subdirectory under the Chronicle base dir where ggml model files live.
pub const MODELS_SUBDIR: &'static str = "models";

/// Allow-list of whisper.cpp model variants the daemon understands.
pub const SUPPORTED_VARIANTS: [&'static str; 3] = ["base", "small", "medium"];

/// Shortest PCM whisper will decode. Below this it fails before it touches the state.
pub const MIN_DECODABLE_SAMPLES: usize = 41;

/// Rejection message for an empty buffer: whisper's own wording.
pub const EMPTY_MSG: &'static str = "Input sample buffer was empty.";

/// Whether a name is on the allow-list.
pub open spec fn supported(name: Seq<char>) -> bool {
    exists|i: int| 0 <= i < 3 && name == (#[trigger] SUPPORTED_VARIANTS@[i])@
}

/// An allow-listed whisper.cpp model variant.
///
/// The field is private and `parse_variant` is the only public constructor beside the
/// default, so a `ModelVariant` can never hold anything outside `SUPPORTED_VARIANTS`. That is
/// what makes `model_path` safe against path traversal.
#[derive(Debug, Clone, Copy, PartialEq, Eq)]
pub struct ModelVariant(&'static str);

impl ModelVariant {
    /// The variant's name.
    pub closed spec fn name(self) -> Seq<char> {
        self.0@
    }

    #[verifier::type_invariant]
    closed spec fn allowed(self) -> bool {
        supported(self.0@)
    }

    /// The variant's allow-listed name (`base`, `small`, or `medium`).
    pub fn as_str(&self) -> (r: &'static str)
        ensures
            r@ == self.name(),
            supported(self.name()),
    {
        proof {
            use_type_invariant(self);
        }
        self.0
    }
}

impl Default for ModelVariant {
    /// The variant used when settings is missing, empty, or invalid.
    fn default() -> (r: Self)
        ensures
            r.name() == "base"@,
    {
        proof {
            assert(SUPPORTED_VARIANTS@[0]@ == "base"@);
        }
        ModelVariant("base")
    }
}

/// Pinned download source for one model variant. SHA1s are upstream's published digests.
/// `size_bytes` is the advertised size, used for the disk precheck before a file exists
/// locally.
#[derive(Debug, Clone, Copy, PartialEq, Eq)]
pub struct ModelInfo {
    pub variant: ModelVariant,
    pub url: &'static str,
    pub sha1: &'static str,
    pub size_bytes: u64,
}

/// The pinned download address of a variant.
pub open spec fn pinned_url(name: Seq<char>) -> Seq<char> {
    if name == "base"@ {
        "https://huggingface.co/ggerganov/whisper.cpp/resolve/main/ggml-base.bin"@
    } else if name == "small"@ {
        "https://huggingface.co/ggerganov/whisper.cpp/resolve/main/ggml-small.bin"@
    } else {
        "https://huggingface.co/ggerganov/whisper.cpp/resolve/main/ggml-medium.bin"@
    }
}

/// The pinned digest of a variant.
pub open spec fn pinned_sha1(name: Seq<char>) -> Seq<char> {
    if name == "base"@ {
        "465707469ff3a37a2b9b8d8f89f2f99de7299dac"@
    } else if name == "small"@ {
        "55356645c2b361a969dfd0ef2c5a50d530afd8d5"@
    } else {
        "fd9727b6e1217c2f614f9b698455c4ffd82463b4"@
    }
}

/// The advertised size of a variant, rounded up: the disk precheck reads it, and rounding
/// down would let a download run out of space.
pub open spec fn pinned_size(name: Seq<char>) -> u64 {
    if name == "base"@ {
        148_000_000
    } else if name == "small"@ {
        488_000_000
    } else {
        1_534_000_000
    }
}

/// Pinned manifest entry for a variant.
pub fn model_info(variant: ModelVariant) -> (r: ModelInfo)
    ensures
        r.variant == variant,
        r.url@ == pinned_url(variant.name()),
        r.sha1@ == pinned_sha1(variant.name()),
        r.size_bytes == pinned_size(variant.name()),
{
    let name = variant.as_str();
    if same_text(name, "base") {
        ModelInfo {
            variant,
            url: "https://huggingface.co/ggerganov/whisper.cpp/resolve/main/ggml-base.bin",
            sha1: "465707469ff3a37a2b9b8d8f89f2f99de7299dac",
            size_bytes: 148_000_000,
        }
    } else if same_text(name, "small") {
        ModelInfo {
            variant,
            url: "https://huggingface.co/ggerganov/whisper.cpp/resolve/main/ggml-small.bin",
            sha1: "55356645c2b361a969dfd0ef2c5a50d530afd8d5",
            size_bytes: 488_000_000,
        }
    } else {
        ModelInfo {
            variant,
            url: "https://huggingface.co/ggerganov/whisper.cpp/resolve/main/ggml-medium.bin",
            sha1: "fd9727b6e1217c2f614f9b698455c4ffd82463b4",
            size_bytes: 1_534_000_000,
        }
    }
}

/// Parse a raw string into one of the supported variants. Exact match only.
pub fn parse_variant(s: &str) -> (r: Option<ModelVariant>)
    ensures
        r is Some <==> supported(s@),
        r is Some ==> r->0.name() == s@,
{
    let mut i: usize = 0;
    while i < 3
        invariant
            i <= 3,
            forall|k: int| 0 <= k < i ==> s@ != (#[trigger] SUPPORTED_VARIANTS@[k])@,
        decreases 3 - i,
    {
        let name = SUPPORTED_VARIANTS[i];
        if same_text(name, s) {
            return Some(ModelVariant(name));
        }
        i += 1;
    }
    None
}

/// The file name of a variant's model: `ggml-{variant}.bin`.
pub open spec fn model_file(name: Seq<char>) -> Seq<char> {
    "ggml-"@ + name + ".bin"@
}

/// Path to the ggml model file for a given variant. Existence is not checked; see
/// `model_present`.
pub fn model_path(base_dir: &str, variant: ModelVariant) -> (r: String)
    ensures
        r@ == joined(joined(base_dir@, MODELS_SUBDIR@), model_file(variant.name())),
{
    let file = concat3("ggml-", variant.as_str(), ".bin");
    join_path(join_path(base_dir, MODELS_SUBDIR).as_str(), file.as_str())
}

/// Quick existence check used by daemon startup to decide whether to log a "model missing,
/// transcription idle" warning: what `is_file` says of the model's path.
pub fn model_present<F: Fn(&str) -> bool>(base_dir: &str, variant: ModelVariant, is_file: F) -> (r:
    bool)
    requires
        forall|path: &str| call_requires(is_file, (path,)),
    ensures
        exists|path: &str|
            #[trigger] call_ensures(is_file, (path,), r) && path@ == joined(
                joined(base_dir@, MODELS_SUBDIR@),
                model_file(variant.name()),
            ),
{
    let path = model_path(base_dir, variant);
    is_file(path.as_str())
}

/// A finished transcription.
#[derive(Debug, Clone, PartialEq, Eq)]
pub struct Transcript {
    pub text: String,
    pub language: Option<String>,
}

/// Errors from model loading, Opus decoding, or the whisper call.
#[derive(Debug, Clone, PartialEq, Eq)]
pub enum TranscriptionError {
    ModelLoad(String),
    Decode(String),
    Whisper(String),
}

impl TranscriptionError {
    /// The error in words.
    pub open spec fn words(self) -> Seq<char> {
        match self {
            TranscriptionError::ModelLoad(s) => "model load failed: "@ + s@,
            TranscriptionError::Decode(s) => "opus decode failed: "@ + s@,
            TranscriptionError::Whisper(s) => "whisper failed: "@ + s@,
        }
    }

    /// The error in words.
    pub fn message(&self) -> (r: String)
        ensures
            r@ == self.words(),
    {
        match self {
            TranscriptionError::ModelLoad(s) => concat("model load failed: ", s.as_str()),
            TranscriptionError::Decode(s) => concat("opus decode failed: ", s.as_str()),
            TranscriptionError::Whisper(s) => concat("whisper failed: ", s.as_str()),
        }
    }
}

/// The message for a buffer of `len` samples that is too short.
pub open spec fn short_message(len: nat) -> Seq<char> {
    if len == 0 {
        EMPTY_MSG@
    } else {
        "input sample buffer too short: got "@ + decimal(len as int) + ", need at least "@
            + decimal(MIN_DECODABLE_SAMPLES as int) + " samples"@
    }
}

/// The short-PCM guard that runs before the state is touched, as a function of length alone.
pub fn short_buffer_error(len: usize) -> (r: Option<TranscriptionError>)
    ensures
        r is Some <==> len < MIN_DECODABLE_SAMPLES,
        r is Some ==> r->0 is Whisper && (r->0)->Whisper_0@ == short_message(len as nat),
{
    if len == 0 {
        Some(TranscriptionError::Whisper(owned(EMPTY_MSG)))
    } else if len < MIN_DECODABLE_SAMPLES {
        let got = concat("input sample buffer too short: got ", decimal_u64(len as u64).as_str());
        let need = concat3(
            got.as_str(),
            ", need at least ",
            decimal_u64(MIN_DECODABLE_SAMPLES as u64).as_str(),
        );
        Some(TranscriptionError::Whisper(concat(need.as_str(), " samples")))
    } else {
        None
    }
}

/// Whether a text is entirely one bracketed whisper marker, white space around it aside: a
/// name in square brackets, ASCII and without white space.
pub open spec fn marker(s: Seq<char>) -> bool {
    let t = trimmed(s);
    &&& t.len() > 2
    &&& t[0] == '['
    &&& t.last() == ']'
    &&& forall|i: int| 0 < i < t.len() - 1 ==> #[trigger] t[i] <= '\u{7f}' && !white_space(t[i])
}

/// True when `s` is entirely one bracketed whisper marker: `[BLANK_AUDIO]`, `[Motor]`,
/// `[_BEG_]`. whisper.cpp emits these as ordinary segment text, and without this check they
/// would become searchable words.
///
/// A heuristic biased toward keeping text. Non-empty: `[]` is punctuation. ASCII: a bracketed
/// CJK or Thai phrase has no white space, so this is the only check that keeps it.
/// Whitespace-free: a bracketed aside inside a segment of speech survives.
pub fn is_whisper_marker(s: &str) -> (r: bool)
    ensures
        r == marker(s@),
{
    let chars = chars_of(s);
    let t = trim_chars(chars.as_slice());
    if t.len() <= 2 || t[0] != '[' || t[t.len() - 1] != ']' {
        return false;
    }
    let mut i: usize = 1;
    while i < t.len() - 1
        invariant
            t@ == trimmed(s@),
            t@.len() > 2,
            1 <= i <= t.len() - 1,
            forall|k: int| 0 < k < i ==> #[trigger] t@[k] <= '\u{7f}' && !white_space(t@[k]),
        decreases t.len() - i,
    {
        if t[i] > '\u{7f}' || is_white_space(t[i]) {
            return false;
        }
        i += 1;
    }
    true
}

/// The texts one after the other, without the markers among them.
pub open spec fn speech(texts: Seq<Seq<char>>) -> Seq<char>
    decreases texts.len(),
{
    if texts.len() == 0 {
        Seq::empty()
    } else if marker(texts.last()) {
        speech(texts.drop_last())
    } else {
        speech(texts.drop_last()) + texts.last()
    }
}

/// The characters of each text.
pub open spec fn texts_of(segments: Seq<&str>) -> Seq<Seq<char>> {
    Seq::new(segments.len(), |i: int| segments[i]@)
}

/// Concatenate whisper sub-segment texts and trim, dropping whisper's own markers, so a
/// segment whisper filled with `[BLANK_AUDIO]` reads as empty. An empty result means "no
/// usable speech".
pub fn concat_segment_text(segments: &[&str]) -> (r: String)
    ensures
        r@ == trimmed(speech(texts_of(segments@))),
{
    let mut out = String::new();
    let mut i: usize = 0;
    proof {
        assert(texts_of(segments@).take(0) =~= Seq::<Seq<char>>::empty());
    }
    while i < segments.len()
        invariant
            i <= segments.len(),
            out@ == speech(texts_of(segments@).take(i as int)),
        decreases segments.len() - i,
    {
        proof {
            let texts = texts_of(segments@);
            assert(texts.take(i + 1).drop_last() =~= texts.take(i as int));
            assert(texts.take(i + 1).last() == segments@[i as int]@);
        }
        if !is_whisper_marker(segments[i]) {
            out.append(segments[i]);
        }
        i += 1;
    }
    proof {
        let texts = texts_of(segments@);
        assert(texts.take(texts.len() as int) =~= texts);
    }
    let chars = chars_of(out.as_str());
    string_of(trim_chars(chars.as_slice()).as_slice())
}

/// Segments that are nothing but markers hold no speech.
pub proof fn markers_alone_are_no_speech(texts: Seq<Seq<char>>)
    requires
        forall|i: int| 0 <= i < texts.len() ==> marker(#[trigger] texts[i]),
    ensures
        trimmed(speech(texts)) == Seq::<char>::empty(),
    decreases texts.len(),
{
    if texts.len() > 0 {
        assert(texts.last() == texts[texts.len() - 1]);
        assert forall|i: int| 0 <= i < texts.drop_last().len() implies marker(
            #[trigger] texts.drop_last()[i],
        ) by {
            assert(texts.drop_last()[i] == texts[i]);
        }
        markers_alone_are_no_speech(texts.drop_last());
    }
}

/// A marker anywhere among the segments changes nothing of the text.
pub proof fn a_marker_leaves_no_trace(before: Seq<Seq<char>>, m: Seq<char>, after: Seq<Seq<char>>)
    requires
        marker(m),
    ensures
        speech(before.push(m) + after) == speech(before + after),
    decreases after.len(),
{
    if after.len() == 0 {
        assert(before.push(m) + after =~= before.push(m));
        assert(before + after =~= before);
        assert(before.push(m).drop_last() =~= before);
    } else {
        a_marker_leaves_no_trace(before, m, after.drop_last());
        assert((before.push(m) + after).drop_last() =~= before.push(m) + after.drop_last());
        assert((before + after).drop_last() =~= before + after.drop_last());
        assert((before.push(m) + after).last() == after.last());
        assert((before + after).last() == after.last());
    }
}

/// Segments without a marker among them keep every character, in order.
pub proof fn speech_without_markers_is_kept_whole(texts: Seq<Seq<char>>)
    requires
        forall|i: int| 0 <= i < texts.len() ==> !marker(#[trigger] texts[i]),
    ensures
        speech(texts) == texts.flatten(),
    decreases texts.len(),
{
    if texts.len() == 0 {
        assert(texts.flatten() =~= Seq::<char>::empty());
    } else {
        assert(texts.last() == texts[texts.len() - 1]);
        assert forall|i: int| 0 <= i < texts.drop_last().len() implies !marker(
            #[trigger] texts.drop_last()[i],
        ) by {
            assert(texts.drop_last()[i] == texts[i]);
        }
        speech_without_markers_is_kept_whole(texts.drop_last());
        texts.drop_last().lemma_flatten_push(texts.last());
        assert(texts.drop_last().push(texts.last()) =~= texts);
    }
}

/// Whether the path is a file right in a directory: the directory, a slash, and a name
/// without one.
pub open spec fn directly_in(path: Seq<char>, dir: Seq<char>) -> bool {
    &&& path.len() > dir.len() + 1
    &&& path.take(dir.len() as int) == dir
    &&& path[dir.len() as int] == '/'
    &&& forall|i: int| dir.len() < i < path.len() ==> #[trigger] path[i] != '/'
}

/// Every model file stands right in the models directory, whatever the base directory is.
pub proof fn a_model_stays_in_its_directory(base: Seq<char>, name: Seq<char>)
    requires
        supported(name),
    ensures
        directly_in(
            joined(joined(base, MODELS_SUBDIR@), model_file(name)),
            joined(base, MODELS_SUBDIR@),
        ),
{
    reveal_strlit("models");
    reveal_strlit("ggml-");
    reveal_strlit(".bin");
    reveal_strlit("base");
    reveal_strlit("small");
    reveal_strlit("medium");
    let dir = joined(base, MODELS_SUBDIR@);
    let file = model_file(name);
    let i = choose|i: int| 0 <= i < 3 && name == (#[trigger] SUPPORTED_VARIANTS@[i])@;
    assert(name == "base"@ || name == "small"@ || name == "medium"@);
    assert(dir.len() > 0 && dir.last() == 's');
    assert(file.len() > 0 && file[0] == 'g');
    let path = joined(dir, file);
    assert(path =~= dir.push('/') + file);
    assert(path.take(dir.len() as int) =~= dir);
    assert forall|k: int| dir.len() < k < path.len() implies #[trigger] path[k] != '/' by {
        let f = file[k - dir.len() - 1];
        assert(path[k] == f);
    }
}

/// There are three variants, and a name is one of them only if it is written exactly so.
pub proof fn a_variant_is_one_of_three(s: &str, r: Option<ModelVariant>)
    requires
        call_ensures(parse_variant, (s,), r),
    ensures
        r is Some <==> s@ == "base"@ || s@ == "small"@ || s@ == "medium"@,
        r is Some ==> r->0.name() == s@,
{
    assert(SUPPORTED_VARIANTS@[0]@ == "base"@);
    assert(SUPPORTED_VARIANTS@[1]@ == "small"@);
    assert(SUPPORTED_VARIANTS@[2]@ == "medium"@);
}

/// Each variant has its own pinned address, digest and size, and its own file among the models.
pub proof fn a_variant_has_its_own_model(
    variant: ModelVariant,
    base_dir: &str,
    info: ModelInfo,
    path: String,
)
    requires
        call_ensures(model_info, (variant,), info),
        call_ensures(model_path, (base_dir, variant), path),
    ensures
        info.variant == variant,
        variant.name() == "base"@ ==> info.url@
            == "https://huggingface.co/ggerganov/whisper.cpp/resolve/main/ggml-base.bin"@
            && info.sha1@ == "465707469ff3a37a2b9b8d8f89f2f99de7299dac"@ && info.size_bytes
            == 148_000_000,
        variant.name() == "small"@ && variant.name() != "base"@ ==> info.url@
            == "https://huggingface.co/ggerganov/whisper.cpp/resolve/main/ggml-small.bin"@
            && info.sha1@ == "55356645c2b361a969dfd0ef2c5a50d530afd8d5"@ && info.size_bytes
            == 488_000_000,
        variant.name() != "small"@ && variant.name() != "base"@ ==> info.url@
            == "https://huggingface.co/ggerganov/whisper.cpp/resolve/main/ggml-medium.bin"@
            && info.sha1@ == "fd9727b6e1217c2f614f9b698455c4ffd82463b4"@ && info.size_bytes
            == 1_534_000_000,
        path@ == joined(joined(base_dir@, "models"@), "ggml-"@ + variant.name() + ".bin"@),
{
}

/// A buffer of fewer than 41 samples is refused, in words that tell an empty one from a short one.
pub proof fn a_short_buffer_is_refused(len: usize, r: Option<TranscriptionError>)
    requires
        call_ensures(short_buffer_error, (len,), r),
    ensures
        r is Some <==> len < 41,
        r is Some ==> r->0 is Whisper,
        len == 0 ==> (r->0)->Whisper_0@ == "Input sample buffer was empty."@,
        0 < len < 41 ==> (r->0)->Whisper_0@ == "input sample buffer too short: got "@ + decimal(
            len as int,
        ) + ", need at least "@ + decimal(41) + " samples"@,
{
}

/// A marker is a name in square brackets, and nothing else: it is not empty, and every character
/// between the brackets is ASCII and no white space.
pub proof fn a_marker_is_a_name_in_brackets(s: &str, r: bool)
    requires
        call_ensures(is_whisper_marker, (s,), r),
    ensures
        ({
            let t = trimmed(s@);
            r <==> t.len() > 2 && t[0] == '[' && t[t.len() - 1] == ']' && forall|i: int|
                1 <= i < t.len() - 1 ==> (#[trigger] t[i]) as int <= 127 && !white_space(t[i])
        }),
        r == marker(s@),
{
    let t = trimmed(s@);
    if t.len() > 2 && t[0] == '[' && t[t.len() - 1] == ']' && forall|i: int|
        1 <= i < t.len() - 1 ==> (#[trigger] t[i]) as int <= 127 && !white_space(t[i]) {
        assert forall|i: int| 0 < i < t.len() - 1 implies #[trigger] t[i] <= '\u{7f}'
            && !white_space(t[i]) by {}
    }
}

/// Speech is what the segments say, one after the other: that of two lists is that of the first
/// and then that of the second, a marker says nothing, and any other segment all that it holds.
pub proof fn speech_is_what_the_segments_say(a: Seq<Seq<char>>, b: Seq<Seq<char>>, text: Seq<char>)
    ensures
        speech(a + b) == speech(a) + speech(b),
        speech(Seq::empty()).len() == 0,
        marker(text) ==> speech(seq![text]).len() == 0,
        !marker(text) ==> speech(seq![text]) == text,
    decreases b.len(),
{
    let one = seq![text];
    assert(one.drop_last() =~= Seq::<Seq<char>>::empty());
    assert(one.last() == text);
    assert(speech(Seq::<Seq<char>>::empty()) =~= Seq::<char>::empty());
    assert(Seq::<char>::empty() + text =~= text);
    if b.len() == 0 {
        assert(a + b =~= a);
        assert(speech(a) + speech(b) =~= speech(a));
    } else {
        speech_is_what_the_segments_say(a, b.drop_last(), text);
        assert((a + b).drop_last() =~= a + b.drop_last());
        assert(speech(a + b) =~= speech(a) + speech(b));
    }
}

/// A transcript is the speech of its segments, without the white space around it.
pub proof fn a_transcript_is_the_speech_of_its_segments(segments: &[&str], r: String)
    requires
        call_ensures(concat_segment_text, (segments,), r),
    ensures
        exists|texts: Seq<Seq<char>>|
            {
                &&& #[trigger] texts.len() == segments@.len()
                &&& forall|i: int| 0 <= i < texts.len() ==> #[trigger] texts[i] == segments@[i]@
                &&& r@ == trimmed(speech(texts))
            },
{
    let texts = texts_of(segments@);
    assert(texts.len() == segments@.len());
}

/// An error says at which step transcription failed, and why.
pub proof fn a_transcription_error_says_its_step(error: TranscriptionError, r: String)
    requires
        call_ensures(TranscriptionError::message, (&error,), r),
    ensures
        error matches TranscriptionError::ModelLoad(s) ==> r@ == "model load failed: "@ + s@,
        error matches TranscriptionError::Decode(s) ==> r@ == "opus decode failed: "@ + s@,
        error matches TranscriptionError::Whisper(s) ==> r@ == "whisper failed: "@ + s@,
{
}

/// A model is present if its own file is.
pub proof fn a_model_is_present_if_its_file_is<F: Fn(&str) -> bool>(
    base_dir: &str,
    variant: ModelVariant,
    is_file: F,
    path: String,
    r: bool,
)
    requires
        call_ensures(model_path, (base_dir, variant), path),
        call_ensures(model_present::<F>, (base_dir, variant, is_file), r),
    ensures
        exists|given: &str| given@ == path@ && #[trigger] call_ensures(is_file, (given,), r),
{
}

/// A variant goes by its name, and is found by it again.
pub proof fn a_variant_is_found_by_its_name(
    variant: ModelVariant,
    name: &'static str,
    found: Option<ModelVariant>,
)
    requires
        call_ensures(ModelVariant::as_str, (&variant,), name),
        call_ensures(parse_variant, (name,), found),
    ensures
        found is Some,
        found->0.name() == variant.name(),
        name@ == variant.name(),
        name@ == "base"@ || name@ == "small"@ || name@ == "medium"@,
{
}

} // verus!
