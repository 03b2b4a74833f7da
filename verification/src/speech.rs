//! The handling of one synthesis request: validation, resolution of the
//! language, selection of a speaker, and the request that goes to the
//! provider.

use vstd::prelude::*;
use vstd::string::StrSliceExecFns;
use vstd::string::StringExecFns;
use crate::inventory::{
    catalog_entries, catalog_view, indexed, speakers_in, usable_catalog, Voice, VoiceInventory,
};
use crate::language::{generic_language, resolve};
use crate::selector::{select, NoSpeakersForLanguage};

verus! {

/// The greatest number of characters of a transcription.
pub const MAX_IPA_LENGTH: usize = 50;

/// The least number of characters of a transcription.
pub const MIN_IPA_LENGTH: usize = 1;

/// What a client submits: a phonetic transcription and a language name.
#[derive(Debug)]
pub struct RequestData {
    pub ipa: String,
    pub language: String,
}

/// The audio formats that a synthesis request may ask for.
#[derive(Clone, Copy, Debug, PartialEq, Eq, Structural)]
pub enum OutputFormat {
    Mp3,
    OggVorbis,
    Pcm,
}

/// How the provider is to read the text of a synthesis request.
#[derive(Clone, Copy, Debug, PartialEq, Eq, Structural)]
pub enum TextType {
    Ssml,
    Text,
}

/// One call of the provider's synthesis operation, as plain values.
#[derive(Debug)]
pub struct SynthesisRequest {
    pub output_format: OutputFormat,
    pub text: String,
    pub text_type: TextType,
    pub voice_id: String,
}

/// Why a request was not answered with audio. Both kinds are answered with
/// the status of a bad request.
#[derive(Debug)]
pub enum SpeakError {
    /// The client's input was refused before any synthesis.
    InvalidInput(String),
    /// The provider failed on a request that had passed validation.
    SynthesisFailed(String),
}

/// The state that all requests share: the voice inventory, built once.
pub struct Polly {
    pub speakers: VoiceInventory,
}

/// Whether a transcription has an accepted number of characters.
pub open spec fn ipa_length_ok(ipa: Seq<char>) -> bool {
    MIN_IPA_LENGTH <= ipa.len() <= MAX_IPA_LENGTH
}

/// The markup that makes the provider read `ipa` as phonemes. The
/// transcription is embedded as it is, without escaping.
pub open spec fn ssml_markup(ipa: Seq<char>) -> Seq<char> {
    "<phoneme alphabet='ipa' ph='"@ + ipa + "'></phoneme>"@
}

/// The message for a transcription of a refused length.
pub open spec fn length_message() -> Seq<char> {
    "IPA must be between 1 and 50 characters"@
}

/// The message for a language name that the curated table does not list.
pub open spec fn unsupported_message(language: Seq<char>) -> Seq<char> {
    "Language "@ + language + " is unsupported"@
}

/// The message for a language whose generic key has no bucket.
pub open spec fn no_speakers_message(language: Seq<char>) -> Seq<char> {
    "No speakers available for language "@ + language
}

/// The message for a bucket without speakers.
pub open spec fn empty_bucket_message() -> Seq<char> {
    "No available speakers"@
}

/// The message for a failure of the provider, which carries the provider's
/// own words.
pub open spec fn failure_message(error: Seq<char>) -> Seq<char> {
    "Failed to synthesize speech: "@ + error
}

/// The message with which a request is refused before a speaker is drawn, if
/// it is: the checks in their order, the first that fails deciding.
pub open spec fn rejection(
    ipa: Seq<char>,
    language: Seq<char>,
    buckets: Map<Seq<char>, Seq<Seq<char>>>,
) -> Option<Seq<char>> {
    if !ipa_length_ok(ipa) {
        Some(length_message())
    } else if generic_language(language) is None {
        Some(unsupported_message(language))
    } else if !buckets.contains_key(generic_language(language).unwrap()) {
        Some(no_speakers_message(language))
    } else if buckets[generic_language(language).unwrap()].len() == 0 {
        Some(empty_bucket_message())
    } else {
        None
    }
}

impl SpeakError {
    /// The message of the error.
    pub open spec fn text(&self) -> Seq<char> {
        match self {
            SpeakError::InvalidInput(message) => message@,
            SpeakError::SynthesisFailed(message) => message@,
        }
    }

    /// The message of the error.
    pub fn message(&self) -> (message: &String)
        ensures
            message@ == self.text(),
    {
        match self {
            SpeakError::InvalidInput(message) => message,
            SpeakError::SynthesisFailed(message) => message,
        }
    }

    /// The status with which the error is answered: that of a bad request,
    /// for a failure of the provider too.
    pub fn status_code(&self) -> (status: u16)
        ensures
            status == 400,
    {
        400
    }

    /// The error for a failure of the provider that described itself with
    /// `error`.
    pub fn synthesis_failed(error: &str) -> (failure: SpeakError)
        ensures
            failure matches SpeakError::SynthesisFailed(message) && message@ == failure_message(
                error@,
            ),
    {
        let mut message = String::from_str("Failed to synthesize speech: ");
        message.append(error);
        SpeakError::SynthesisFailed(message)
    }
}

impl SynthesisRequest {
    /// Whether the request asks the given voice to speak `ipa` as phonemes,
    /// in the compressed audio format that is streamed to clients.
    pub open spec fn speaks(&self, ipa: Seq<char>, voice_id: Seq<char>) -> bool {
        &&& self.output_format == OutputFormat::OggVorbis
        &&& self.text@ == ssml_markup(ipa)
        &&& self.text_type == TextType::Ssml
        &&& self.voice_id@ == voice_id
    }
}

impl Polly {
    /// Whether the shared state is well formed.
    pub open spec fn wf(&self) -> bool {
        self.speakers.wf()
    }

    /// Builds the shared state from the provider's catalog of voices.
    pub fn new(voices: &Vec<Voice>) -> (polly: Polly)
        requires
            usable_catalog(catalog_view(voices@)),
        ensures
            polly.wf(),
            polly.speakers@ == indexed(catalog_entries(catalog_view(voices@))),
    {
        Polly { speakers: VoiceInventory::build(voices) }
    }

    /// The request that has `voice_id` speak `ipa`.
    pub fn synthesize_speech(&self, ipa: &str, voice_id: &String) -> (request: SynthesisRequest)
        ensures
            request.speaks(ipa@, voice_id@),
    {
        let mut ssml_text = String::from_str("<phoneme alphabet='ipa' ph='");
        ssml_text.append(ipa);
        ssml_text.append("'></phoneme>");
        SynthesisRequest {
            output_format: OutputFormat::OggVorbis,
            text: ssml_text,
            text_type: TextType::Ssml,
            voice_id: voice_id.clone(),
        }
    }
}

/// Whether an outcome is a refusal of the client's input.
pub open spec fn refused(outcome: Result<SynthesisRequest, SpeakError>) -> bool {
    outcome matches Err(SpeakError::InvalidInput(_))
}

/// Whether an outcome is a refusal of the client's input with the given
/// message.
pub open spec fn refused_with(
    outcome: Result<SynthesisRequest, SpeakError>,
    message: Seq<char>,
) -> bool {
    outcome matches Err(SpeakError::InvalidInput(m)) && m@ == message
}

/// Whether a transcription has an accepted number of characters.
pub fn check_ipa_length(ipa: &str) -> (accepted: bool)
    ensures
        accepted == ipa_length_ok(ipa@),
{
    let ipa_length: usize = ipa.unicode_len();
    !(ipa_length < MIN_IPA_LENGTH || ipa_length > MAX_IPA_LENGTH)
}

/// What becomes of a request whose transcription and language were accepted,
/// once the selection of a speaker has come back: the synthesis request for
/// the selected speaker, or the refusal that tells why there is none.
pub fn request_for_selection(
    data: &RequestData,
    polly: &Polly,
    selection: Result<&String, NoSpeakersForLanguage>,
) -> (outcome: Result<SynthesisRequest, SpeakError>)
    ensures
        match selection {
            Ok(speaker) => outcome matches Ok(request) && request.speaks(data.ipa@, speaker@),
            Err(NoSpeakersForLanguage::KeyAbsent) => outcome matches Err(
                SpeakError::InvalidInput(message),
            ) && message@ == no_speakers_message(data.language@),
            Err(NoSpeakersForLanguage::BucketEmpty) => outcome matches Err(
                SpeakError::InvalidInput(message),
            ) && message@ == empty_bucket_message(),
        },
{
    match selection {
        Ok(random_speaker) => Ok(polly.synthesize_speech(data.ipa.as_str(), random_speaker)),
        Err(NoSpeakersForLanguage::KeyAbsent) => {
            let mut message = String::from_str("No speakers available for language ");
            message.append(data.language.as_str());
            Err(SpeakError::InvalidInput(message))
        },
        Err(NoSpeakersForLanguage::BucketEmpty) => Err(
            SpeakError::InvalidInput(String::from_str("No available speakers")),
        ),
    }
}

/// Decides one request: validates the transcription, resolves the language,
/// draws a speaker and returns the synthesis request for the provider. The
/// checks run in this order and the first that fails decides the refusal, so
/// a refused request never yields a synthesis request. Which speaker of the
/// bucket is drawn is left to the generator.
pub fn speak(data: &RequestData, polly: &Polly) -> (outcome: Result<SynthesisRequest, SpeakError>)
    requires
        polly.wf(),
    ensures
        !ipa_length_ok(data.ipa@) ==> refused_with(outcome, length_message()),
        ipa_length_ok(data.ipa@) && generic_language(data.language@) is None ==> refused_with(
            outcome,
            unsupported_message(data.language@),
        ),
        generic_language(data.language@) is Some && speakers_in(
            polly.speakers@,
            generic_language(data.language@).unwrap(),
        ).len() == 0 ==> refused(outcome),
        match outcome {
            Ok(request) => {
                &&& rejection(data.ipa@, data.language@, polly.speakers@) is None
                &&& request.speaks(data.ipa@, request.voice_id@)
                &&& polly.speakers@[generic_language(data.language@).unwrap()].contains(
                    request.voice_id@,
                )
            },
            Err(error) => {
                &&& error is InvalidInput
                &&& rejection(data.ipa@, data.language@, polly.speakers@) == Some(error.text())
            },
        },
{
    if !check_ipa_length(data.ipa.as_str()) {
        return Err(
            SpeakError::InvalidInput(String::from_str("IPA must be between 1 and 50 characters")),
        );
    }
    let target_language = data.language.as_str();
    let generic_language = match resolve(target_language) {
        Ok(key) => key,
        Err(_) => {
            let mut message = String::from_str("Language ");
            message.append(target_language);
            message.append(" is unsupported");
            return Err(SpeakError::InvalidInput(message));
        },
    };
    let selection = select(&polly.speakers, &generic_language);
    request_for_selection(data, polly, selection)
}

} // verus!
