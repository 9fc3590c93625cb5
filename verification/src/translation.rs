//! Translation requests and results, the provider interface and the
//! deterministic mock provider.

use vstd::prelude::*;
use crate::ids::now_text;
use crate::text::{
    ascii_lowercase, blank, clone_opt, contains, is_ascii_text, is_blank, lowercase, owned,
    push_str, starts_with, str_contains, str_starts_with, to_lowercase,
};

verus! {

/// A request to translate one message.
pub struct TranslationRequest {
    pub message_id: String,
    pub source_language: String,
    pub target_language: String,
    pub original_text: String,
}

/// A translation, kept beside the original message and never in its place.
/// The provider's confidence is held in thousandths (820 is 0.82).
pub struct TranslationResult {
    pub message_id: String,
    pub translated_text: String,
    pub source_language: String,
    pub target_language: String,
    pub provider: String,
    pub confidence_permille: u16,
    pub uncertain_phrases: Vec<String>,
    pub literal_alternative: Option<String>,
    pub cultural_notes: Vec<String>,
    pub generated_at: String,
    pub review_status: TranslationReviewStatus,
    pub stream_state: TranslationStreamState,
}

/// Whether people have reviewed a translation.
#[derive(Clone, Copy, Debug, PartialEq, Eq, Structural)]
pub enum TranslationReviewStatus {
    Unreviewed,
    Challenged,
    Corrected,
    Reviewed,
}

/// How far a streamed translation has come.
#[derive(Clone, Copy, Debug, PartialEq, Eq, Structural)]
pub enum TranslationStreamState {
    TranslationStarted,
    TranslationPartial,
    TranslationCompleted,
    TranslationFailed,
}

/// Why no translation was made.
#[derive(Clone, Copy, Debug, PartialEq, Eq, Structural)]
pub enum TranslationError {
    Disabled,
    EmptyInput,
}

/// A translation service.
pub trait TranslationProvider {
    /// Translates one message.
    fn translate(&self, input: TranslationRequest) -> Result<TranslationResult, TranslationError>;
}

/// The Spanish sentence the mock gives for texts about water.
pub open spec fn spanish_water_text() -> Seq<char> {
    "Podemos preservar el conocimiento local y coordinar proyectos de agua limpia de bajo costo sin que organizaciones externas controlen el proceso."@
}

/// The English sentence the mock gives for texts about water or community.
pub open spec fn english_water_text() -> Seq<char> {
    "The community should keep authority over local knowledge, decisions, and clean-water work."@
}

/// The mock Spanish rendering of a text, given its lower-case form.
pub open spec fn spanish_rendering(text: Seq<char>, lowered: Seq<char>) -> Seq<char> {
    if contains(lowered, "clean-water"@) || contains(lowered, "water"@) {
        spanish_water_text()
    } else {
        "Traduccion simulada al espanol: "@ + text
    }
}

/// The mock English rendering of a text, given its lower-case form.
pub open spec fn english_rendering(text: Seq<char>, lowered: Seq<char>) -> Seq<char> {
    if contains(lowered, "agua"@) || contains(lowered, "comunidad"@) {
        english_water_text()
    } else {
        "Simulated English translation: "@ + text
    }
}

/// What the mock translator writes for a text into a target language,
/// given the lower-case forms of both.
pub open spec fn mock_rendering(
    target: Seq<char>,
    lowered_target: Seq<char>,
    text: Seq<char>,
    lowered_text: Seq<char>,
) -> Seq<char> {
    if starts_with(lowered_target, "es"@) {
        spanish_rendering(text, lowered_text)
    } else if starts_with(lowered_target, "en"@) {
        english_rendering(text, lowered_text)
    } else {
        "[mock "@ + target + " translation] "@ + text
    }
}

/// The mock Spanish rendering, from the text and its lower-case form.
pub fn spanish_from_lowered(text: &str, lowered: &str) -> (res: String)
    ensures
        res@ == spanish_rendering(text@, lowered@),
{
    if str_contains(lowered, "clean-water") || str_contains(lowered, "water") {
        owned(
            "Podemos preservar el conocimiento local y coordinar proyectos de agua limpia de bajo costo sin que organizaciones externas controlen el proceso.",
        )
    } else {
        let mut res = owned("Traduccion simulada al espanol: ");
        push_str(&mut res, text);
        res
    }
}

/// The mock English rendering, from the text and its lower-case form.
pub fn english_from_lowered(text: &str, lowered: &str) -> (res: String)
    ensures
        res@ == english_rendering(text@, lowered@),
{
    if str_contains(lowered, "agua") || str_contains(lowered, "comunidad") {
        owned(
            "The community should keep authority over local knowledge, decisions, and clean-water work.",
        )
    } else {
        let mut res = owned("Simulated English translation: ");
        push_str(&mut res, text);
        res
    }
}

/// The mock Spanish rendering of a text.
pub fn mock_spanish(text: &str) -> (res: String)
    ensures
        res@ == spanish_rendering(text@, lowercase(text@)),
        is_ascii_text(text@) ==> res@ == spanish_rendering(text@, ascii_lowercase(text@)),
{
    let lowered = to_lowercase(text);
    spanish_from_lowered(text, lowered.as_str())
}

/// The mock English rendering of a text.
pub fn mock_english(text: &str) -> (res: String)
    ensures
        res@ == english_rendering(text@, lowercase(text@)),
        is_ascii_text(text@) ==> res@ == english_rendering(text@, ascii_lowercase(text@)),
{
    let lowered = to_lowercase(text);
    english_from_lowered(text, lowered.as_str())
}

/// The mock rendering of a text into a target language, from the lower-case
/// form of the target.
pub fn mock_rendering_from_lowered(target: &str, lowered_target: &str, text: &str) -> (res: String)
    ensures
        res@ == mock_rendering(target@, lowered_target@, text@, lowercase(text@)),
        is_ascii_text(text@) ==> res@ == mock_rendering(target@, lowered_target@, text@, ascii_lowercase(text@)),
{
    if str_starts_with(lowered_target, "es") {
        mock_spanish(text)
    } else if str_starts_with(lowered_target, "en") {
        mock_english(text)
    } else {
        let mut res = owned("[mock ");
        push_str(&mut res, target);
        push_str(&mut res, " translation] ");
        push_str(&mut res, text);
        res
    }
}

/// The result the mock translator gives for a non-blank request: the mock
/// rendering by target language, with fixed uncertain phrases, literal
/// alternative and cultural notes, unreviewed and completed.
pub open spec fn mock_translation(input: TranslationRequest, r: TranslationResult) -> bool {
    &&& r.message_id == input.message_id
    &&& r.translated_text@ == mock_rendering(
        input.target_language@,
        lowercase(input.target_language@),
        input.original_text@,
        lowercase(input.original_text@),
    )
    &&& r.source_language == input.source_language
    &&& r.target_language == input.target_language
    &&& r.provider@ == "MockTranslationProvider"@
    &&& r.confidence_permille == 820
    &&& r.uncertain_phrases@.len() == 2
    &&& r.uncertain_phrases@[0]@ == "local knowledge"@
    &&& r.uncertain_phrases@[1]@ == "outside organizations controlling the process"@
    &&& r.literal_alternative is Some
    &&& r.literal_alternative->0@ == "A literal translation may miss who holds authority in the project."@
    &&& r.cultural_notes@.len() == 2
    &&& r.cultural_notes@[0]@ == "Review terms about community control with the speaker."@
    &&& r.cultural_notes@[1]@ == "Water-project language may carry institutional history."@
    &&& r.review_status == TranslationReviewStatus::Unreviewed
    &&& r.stream_state == TranslationStreamState::TranslationCompleted
}

/// A deterministic translator for local development.
pub struct MockTranslationProvider;

/// A translator that is switched off.
pub struct NoTranslationProvider;

impl TranslationProvider for MockTranslationProvider {
    /// Refuses a blank text; otherwise renders it by target language and
    /// keeps its uncertainty visible with fixed uncertain phrases, a literal
    /// alternative and cultural notes.
    fn translate(&self, input: TranslationRequest) -> (res: Result<TranslationResult, TranslationError>)
        ensures
            blank(input.original_text@) ==> res matches Err(TranslationError::EmptyInput),
            !blank(input.original_text@) ==> (res matches Ok(r) && mock_translation(input, r)),
            !blank(input.original_text@) && is_ascii_text(input.target_language@) && is_ascii_text(input.original_text@)
                ==> (res matches Ok(r) && r.translated_text@ == mock_rendering(
                input.target_language@,
                ascii_lowercase(input.target_language@),
                input.original_text@,
                ascii_lowercase(input.original_text@),
            )),
    {
        if is_blank(input.original_text.as_str()) {
            return Err(TranslationError::EmptyInput);
        }
        let target = to_lowercase(input.target_language.as_str());
        let translated_text = mock_rendering_from_lowered(
            input.target_language.as_str(),
            target.as_str(),
            input.original_text.as_str(),
        );
        let mut uncertain_phrases: Vec<String> = Vec::new();
        uncertain_phrases.push(owned("local knowledge"));
        uncertain_phrases.push(owned("outside organizations controlling the process"));
        let mut cultural_notes: Vec<String> = Vec::new();
        cultural_notes.push(owned("Review terms about community control with the speaker."));
        cultural_notes.push(owned("Water-project language may carry institutional history."));
        Ok(
            TranslationResult {
                message_id: input.message_id,
                translated_text,
                source_language: input.source_language,
                target_language: input.target_language,
                provider: owned("MockTranslationProvider"),
                confidence_permille: 820,
                uncertain_phrases,
                literal_alternative: Some(
                    owned("A literal translation may miss who holds authority in the project."),
                ),
                cultural_notes,
                generated_at: now_text(),
                review_status: TranslationReviewStatus::Unreviewed,
                stream_state: TranslationStreamState::TranslationCompleted,
            },
        )
    }
}

impl TranslationProvider for NoTranslationProvider {
    /// Always refuses: translation is disabled.
    fn translate(&self, input: TranslationRequest) -> (res: Result<TranslationResult, TranslationError>)
        ensures
            res matches Err(TranslationError::Disabled),
    {
        Err(TranslationError::Disabled)
    }
}

} // verus!

verus! {

impl TranslationResult {
    /// Two translations hold the same values.
    pub open spec fn same(a: TranslationResult, b: TranslationResult) -> bool {
        &&& a.message_id == b.message_id
        &&& a.translated_text == b.translated_text
        &&& a.source_language == b.source_language
        &&& a.target_language == b.target_language
        &&& a.provider == b.provider
        &&& a.confidence_permille == b.confidence_permille
        &&& a.uncertain_phrases@ == b.uncertain_phrases@
        &&& a.literal_alternative == b.literal_alternative
        &&& a.cultural_notes@ == b.cultural_notes@
        &&& a.generated_at == b.generated_at
        &&& a.review_status == b.review_status
        &&& a.stream_state == b.stream_state
    }
}

impl Clone for TranslationResult {
    fn clone(&self) -> (res: Self)
        ensures
            TranslationResult::same(*self, res),
    {
        TranslationResult {
            message_id: self.message_id.clone(),
            translated_text: self.translated_text.clone(),
            source_language: self.source_language.clone(),
            target_language: self.target_language.clone(),
            provider: self.provider.clone(),
            confidence_permille: self.confidence_permille,
            uncertain_phrases: self.uncertain_phrases.clone(),
            literal_alternative: clone_opt(&self.literal_alternative),
            cultural_notes: self.cultural_notes.clone(),
            generated_at: self.generated_at.clone(),
            review_status: self.review_status,
            stream_state: self.stream_state,
        }
    }
}

impl Clone for TranslationRequest {
    fn clone(&self) -> (res: Self)
        ensures
            res == *self,
    {
        TranslationRequest {
            message_id: self.message_id.clone(),
            source_language: self.source_language.clone(),
            target_language: self.target_language.clone(),
            original_text: self.original_text.clone(),
        }
    }
}

} // verus!

verus! {

impl TranslationError {
    /// The human-readable text of the error.
    pub fn message(&self) -> (res: String)
        ensures
            *self is Disabled ==> res@ == "translation is disabled"@,
            *self is EmptyInput ==> res@ == "source text is empty"@,
    {
        match self {
            TranslationError::Disabled => owned("translation is disabled"),
            TranslationError::EmptyInput => owned("source text is empty"),
        }
    }
}

} // verus!
