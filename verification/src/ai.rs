//! Settings and results of the analysis of a document by an assistant.
//!
//! No assistant is called from here. The functions give the fixed answers
//! that stand in for one.

use vstd::prelude::*;
use crate::cell::is_word;
use crate::export::push_text;
use crate::model::{opt_text, Document, DocumentElement, ElementModel};
use crate::text::{chars_of, string_of};

verus! {

/// A local assistant and the model it runs.
#[derive(Debug, Clone)]
pub struct OllamaClient {
    pub base_url: String,
    pub model: String,
}

/// The view of a `OllamaClient`: every string as the sequence of its characters.
pub struct OllamaClientModel {
    pub base_url: Seq<char>,
    pub model: Seq<char>,
}

impl View for OllamaClient {
    type V = OllamaClientModel;

    open spec fn view(&self) -> OllamaClientModel {
        OllamaClientModel { base_url: self.base_url@, model: self.model@ }
    }
}

impl OllamaClient {
    /// A client for the assistant at `base_url` that runs `model`.
    pub fn new(base_url: String, model: String) -> (client: Self)
        ensures
            client@ == (OllamaClientModel { base_url: base_url@, model: model@ }),
    {
        OllamaClient { base_url, model }
    }
}

/// Who analyses the document.
#[derive(Debug, Clone)]
pub enum AIProvider {
    Local(OllamaClient),
    /// OpenAI, with the key to it.
    OpenAI(String),
    /// Anthropic, with the key to it.
    Anthropic(String),
    /// Nobody.
    Disabled,
}

/// The view of a `AIProvider`: every string as the sequence of its characters.
pub enum AIProviderModel {
    Local(OllamaClientModel),
    OpenAI(Seq<char>),
    Anthropic(Seq<char>),
    Disabled,
}

impl View for AIProvider {
    type V = AIProviderModel;

    open spec fn view(&self) -> AIProviderModel {
        match *self {
            AIProvider::Local(c) => AIProviderModel::Local(c@),
            AIProvider::OpenAI(k) => AIProviderModel::OpenAI(k@),
            AIProvider::Anthropic(k) => AIProviderModel::Anthropic(k@),
            AIProvider::Disabled => AIProviderModel::Disabled,
        }
    }
}

impl Default for AIProvider {
    fn default() -> (r: Self)
        ensures
            r@ == AIProviderModel::Disabled,
    {
        AIProvider::Disabled
    }
}

/// How grave a risk is.
#[derive(Debug, Clone, Copy, PartialEq, Eq, Structural)]
pub enum RiskSeverity {
    Low,
    Medium,
    High,
    Critical,
}

/// A risk that was found in a document.
#[derive(Debug, Clone)]
pub struct RiskItem {
    pub element_index: usize,
    pub risk_type: String,
    pub description: String,
    pub severity: RiskSeverity,
}

/// The view of a `RiskItem`: every string as the sequence of its characters.
pub struct RiskItemModel {
    pub element_index: usize,
    pub risk_type: Seq<char>,
    pub description: Seq<char>,
    pub severity: RiskSeverity,
}

impl View for RiskItem {
    type V = RiskItemModel;

    open spec fn view(&self) -> RiskItemModel {
        RiskItemModel {
            element_index: self.element_index,
            risk_type: self.risk_type@,
            description: self.description@,
            severity: self.severity,
        }
    }
}

/// The description of an image, with the confidence in it in hundredths.
#[derive(Debug, Clone)]
pub struct ImageDescription {
    pub image_index: usize,
    pub description: String,
    pub confidence_percent: u8,
}

/// The view of a `ImageDescription`: every string as the sequence of its characters.
pub struct ImageDescriptionModel {
    pub image_index: usize,
    pub description: Seq<char>,
    pub confidence_percent: u8,
}

impl View for ImageDescription {
    type V = ImageDescriptionModel;

    open spec fn view(&self) -> ImageDescriptionModel {
        ImageDescriptionModel {
            image_index: self.image_index,
            description: self.description@,
            confidence_percent: self.confidence_percent,
        }
    }
}

/// The views of a sequence of image descriptions.
pub open spec fn descriptions_model(items: Seq<ImageDescription>) -> Seq<ImageDescriptionModel> {
    items.map_values(|d: ImageDescription| d@)
}

/// The confidence that is given for every description.
pub const DESCRIPTION_CONFIDENCE: u8 = 85;

/// The settings of the analysis. `cost_limit_cents` is a sum of money in
/// hundredths of the unit.
#[derive(Debug, Clone)]
pub struct AIConfig {
    pub provider: String,
    pub api_key: Option<String>,
    pub base_url: Option<String>,
    pub model: Option<String>,
    pub cost_limit_cents: Option<u32>,
    pub privacy_mode: bool,
}

/// The view of a `AIConfig`: every string as the sequence of its characters.
pub struct AIConfigModel {
    pub provider: Seq<char>,
    pub api_key: Option<Seq<char>>,
    pub base_url: Option<Seq<char>>,
    pub model: Option<Seq<char>>,
    pub cost_limit_cents: Option<u32>,
    pub privacy_mode: bool,
}

impl View for AIConfig {
    type V = AIConfigModel;

    open spec fn view(&self) -> AIConfigModel {
        AIConfigModel {
            provider: self.provider@,
            api_key: opt_text(self.api_key),
            base_url: opt_text(self.base_url),
            model: opt_text(self.model),
            cost_limit_cents: self.cost_limit_cents,
            privacy_mode: self.privacy_mode,
        }
    }
}

/// The settings to start from: no provider, a limit of ten units, privacy
/// on.
pub open spec fn default_config() -> AIConfigModel {
    AIConfigModel {
        provider: "none"@,
        api_key: None,
        base_url: None,
        model: None,
        cost_limit_cents: Some(1000u32),
        privacy_mode: true,
    }
}

impl Default for AIConfig {
    fn default() -> (r: Self)
        ensures
            r@ == default_config(),
    {
        AIConfig {
            provider: "none".to_owned(),
            api_key: None,
            base_url: None,
            model: None,
            cost_limit_cents: Some(1000),
            privacy_mode: true,
        }
    }
}

/// Why settings name no provider.
#[derive(Debug, Clone)]
pub enum AIConfigError {
    /// OpenAI was named without a key.
    MissingOpenAIKey,
    /// Anthropic was named without a key.
    MissingAnthropicKey,
    /// The name of the provider is not known.
    UnknownProvider(String),
}

/// The view of a `AIConfigError`: every string as the sequence of its characters.
pub enum AIConfigErrorModel {
    MissingOpenAIKey,
    MissingAnthropicKey,
    UnknownProvider(Seq<char>),
}

impl View for AIConfigError {
    type V = AIConfigErrorModel;

    open spec fn view(&self) -> AIConfigErrorModel {
        match *self {
            AIConfigError::MissingOpenAIKey => AIConfigErrorModel::MissingOpenAIKey,
            AIConfigError::MissingAnthropicKey => AIConfigErrorModel::MissingAnthropicKey,
            AIConfigError::UnknownProvider(p) => AIConfigErrorModel::UnknownProvider(p@),
        }
    }
}

/// What an error says.
pub open spec fn error_message(e: AIConfigErrorModel) -> Seq<char> {
    match e {
        AIConfigErrorModel::MissingOpenAIKey => "OpenAI API key required"@,
        AIConfigErrorModel::MissingAnthropicKey => "Anthropic API key required"@,
        AIConfigErrorModel::UnknownProvider(p) => "Unknown AI provider: "@ + p,
    }
}

impl AIConfigError {
    /// What the error says.
    pub fn message(&self) -> (out: String)
        ensures
            out@ == error_message(self@),
    {
        match self {
            AIConfigError::MissingOpenAIKey => "OpenAI API key required".to_owned(),
            AIConfigError::MissingAnthropicKey => "Anthropic API key required".to_owned(),
            AIConfigError::UnknownProvider(p) => {
                let mut buf: Vec<char> = Vec::new();
                push_text(&mut buf, "Unknown AI provider: ");
                push_text(&mut buf, p.as_str());
                assert(buf@ =~= error_message(self@));
                string_of(buf.as_slice())
            },
        }
    }
}

/// A text, or another where it is not given.
pub open spec fn text_or(value: Option<Seq<char>>, fallback: Seq<char>) -> Seq<char> {
    match value {
        Some(v) => v,
        None => fallback,
    }
}

/// The provider that settings name. `local` and `ollama` name the local
/// assistant, at `http://localhost:11434` with the model `llama3.2` where
/// the settings say nothing else. `openai` and `anthropic` need a key.
/// `none` names nobody. Any other name is an error.
pub open spec fn provider_of(config: AIConfigModel) -> Result<AIProviderModel, AIConfigErrorModel> {
    if config.provider == "local"@ || config.provider == "ollama"@ {
        Ok(
            AIProviderModel::Local(
                OllamaClientModel {
                    base_url: text_or(config.base_url, "http://localhost:11434"@),
                    model: text_or(config.model, "llama3.2"@),
                },
            ),
        )
    } else if config.provider == "openai"@ {
        match config.api_key {
            Some(k) => Ok(AIProviderModel::OpenAI(k)),
            None => Err(AIConfigErrorModel::MissingOpenAIKey),
        }
    } else if config.provider == "anthropic"@ {
        match config.api_key {
            Some(k) => Ok(AIProviderModel::Anthropic(k)),
            None => Err(AIConfigErrorModel::MissingAnthropicKey),
        }
    } else if config.provider == "none"@ {
        Ok(AIProviderModel::Disabled)
    } else {
        Err(AIConfigErrorModel::UnknownProvider(config.provider))
    }
}

/// The view of a provider or an error.
pub open spec fn provider_result(r: Result<AIProvider, AIConfigError>) -> Result<
    AIProviderModel,
    AIConfigErrorModel,
> {
    match r {
        Ok(p) => Ok(p@),
        Err(e) => Err(e@),
    }
}

impl AIConfig {
    /// The provider that these settings name.
    pub fn to_provider(&self) -> (r: Result<AIProvider, AIConfigError>)
        ensures
            provider_result(r) == provider_of(self@),
    {
        let name = chars_of(self.provider.as_str());
        let name = name.as_slice();
        if is_word(name, "local") || is_word(name, "ollama") {
            let base_url = match &self.base_url {
                Some(u) => u.clone(),
                None => "http://localhost:11434".to_owned(),
            };
            let model = match &self.model {
                Some(m) => m.clone(),
                None => "llama3.2".to_owned(),
            };
            Ok(AIProvider::Local(OllamaClient::new(base_url, model)))
        } else if is_word(name, "openai") {
            match &self.api_key {
                Some(k) => Ok(AIProvider::OpenAI(k.clone())),
                None => Err(AIConfigError::MissingOpenAIKey),
            }
        } else if is_word(name, "anthropic") {
            match &self.api_key {
                Some(k) => Ok(AIProvider::Anthropic(k.clone())),
                None => Err(AIConfigError::MissingAnthropicKey),
            }
        } else if is_word(name, "none") {
            Ok(AIProvider::Disabled)
        } else {
            Err(AIConfigError::UnknownProvider(self.provider.clone()))
        }
    }
}

/// The summary that stands in for an assistant's.
pub open spec fn stock_summary() -> Seq<char> {
    "Document summary would be generated here using the configured AI provider."@
}

/// The answer that stands in for an assistant's.
pub open spec fn stock_answer() -> Seq<char> {
    "AI answer would be generated here based on the document content and question."@
}

/// The summary of a document.
pub fn summarize_document(_document: &Document, _provider: &AIProvider) -> (out: String)
    ensures
        out@ == stock_summary(),
{
    "Document summary would be generated here using the configured AI provider.".to_owned()
}

/// The answer to a question about a document.
pub fn answer_question(_document: &Document, _question: &str, _provider: &AIProvider) -> (out:
    String)
    ensures
        out@ == stock_answer(),
{
    "AI answer would be generated here based on the document content and question.".to_owned()
}

/// The description that is given for an image.
pub open spec fn stock_description(description: Seq<char>) -> Seq<char> {
    "AI-generated description for: "@ + description
}

/// The descriptions of the images among the elements before index `n`.
pub open spec fn descriptions_before(elements: Seq<ElementModel>, n: int) -> Seq<
    ImageDescriptionModel,
>
    decreases n,
{
    if n <= 0 {
        Seq::empty()
    } else {
        match elements[n - 1] {
            ElementModel::Image { description, .. } => descriptions_before(elements, n - 1).push(
                ImageDescriptionModel {
                    image_index: (n - 1) as usize,
                    description: stock_description(description),
                    confidence_percent: DESCRIPTION_CONFIDENCE,
                },
            ),
            _ => descriptions_before(elements, n - 1),
        }
    }
}

/// A description for every image of the document, in order.
pub fn describe_images(document: &Document, _provider: &AIProvider) -> (out: Vec<ImageDescription>)
    ensures
        descriptions_model(out@) == descriptions_before(
            document@.elements,
            document@.elements.len() as int,
        ),
{
    let ghost elements = document@.elements;
    let mut out: Vec<ImageDescription> = Vec::new();
    assert(descriptions_model(out@) =~= descriptions_before(elements, 0));
    let mut i: usize = 0;
    while i < document.elements.len()
        invariant
            i <= document.elements.len(),
            elements == document@.elements,
            descriptions_model(out@) == descriptions_before(elements, i as int),
        decreases document.elements.len() - i,
    {
        assert(elements[i as int] == document.elements@[i as int]@);
        if let DocumentElement::Image { description, .. } = &document.elements[i] {
            let mut buf: Vec<char> = Vec::new();
            push_text(&mut buf, "AI-generated description for: ");
            push_text(&mut buf, description.as_str());
            assert(buf@ =~= stock_description(description@));
            let item = ImageDescription {
                image_index: i,
                description: string_of(buf.as_slice()),
                confidence_percent: DESCRIPTION_CONFIDENCE,
            };
            let ghost before = descriptions_model(out@);
            out.push(item);
            assert(descriptions_model(out@) =~= before.push(item@));
        } else {
            assert(!(elements[i as int] is Image));
        }
        i += 1;
    }
    out
}

/// The views of a sequence of risks.
pub open spec fn risks_model(items: Seq<RiskItem>) -> Seq<RiskItemModel> {
    items.map_values(|r: RiskItem| r@)
}

/// The risks that stand in for an assistant's findings.
pub open spec fn stock_risks() -> Seq<RiskItemModel> {
    seq![
        RiskItemModel {
            element_index: 0,
            risk_type: "Payment Terms"@,
            description: "Unusual payment terms detected that may pose financial risk."@,
            severity: RiskSeverity::Medium,
        },
    ]
}

/// The risks of a document.
pub fn analyze_risks(_document: &Document, _provider: &AIProvider) -> (out: Vec<RiskItem>)
    ensures
        risks_model(out@) == stock_risks(),
{
    let mut out: Vec<RiskItem> = Vec::new();
    out.push(
        RiskItem {
            element_index: 0,
            risk_type: "Payment Terms".to_owned(),
            description: "Unusual payment terms detected that may pose financial risk.".to_owned(),
            severity: RiskSeverity::Medium,
        },
    );
    assert(risks_model(out@) =~= stock_risks());
    out
}

/// The action items that stand in for an assistant's findings.
pub open spec fn stock_action_items() -> Seq<Seq<char>> {
    seq![
        "Follow up with client by Friday"@,
        "Review quarterly budget allocation"@,
        "Schedule team meeting for next week"@,
    ]
}

/// The key points that stand in for an assistant's findings.
pub open spec fn stock_key_points() -> Seq<Seq<char>> {
    seq![
        "Revenue increased by 34% year-over-year"@,
        "Customer satisfaction scores improved significantly"@,
        "New product line showing strong adoption"@,
    ]
}

/// The action items of a document.
pub fn extract_action_items(_document: &Document, _provider: &AIProvider) -> (out: Vec<String>)
    ensures
        crate::trusted::strings_model(out@) == stock_action_items(),
{
    let mut out: Vec<String> = Vec::new();
    out.push("Follow up with client by Friday".to_owned());
    out.push("Review quarterly budget allocation".to_owned());
    out.push("Schedule team meeting for next week".to_owned());
    assert(crate::trusted::strings_model(out@) =~= stock_action_items());
    out
}

/// The key points of a document.
pub fn extract_key_points(_document: &Document, _provider: &AIProvider) -> (out: Vec<String>)
    ensures
        crate::trusted::strings_model(out@) == stock_key_points(),
{
    let mut out: Vec<String> = Vec::new();
    out.push("Revenue increased by 34% year-over-year".to_owned());
    out.push("Customer satisfaction scores improved significantly".to_owned());
    out.push("New product line showing strong adoption".to_owned());
    assert(crate::trusted::strings_model(out@) =~= stock_key_points());
    out
}

/// Everything that the analysis of a document gives.
#[derive(Debug, Clone)]
pub struct DocumentAnalysis {
    pub summary: String,
    pub key_points: Vec<String>,
    pub images_described: Vec<ImageDescription>,
    /// Questions with their answers.
    pub questions_answered: Vec<(String, String)>,
    pub risk_flags: Vec<RiskItem>,
}

/// The whole analysis of a document: summary, key points, a description
/// of every image, no question answered, and the risks.
pub fn analyze_document_full(document: &Document, provider: &AIProvider) -> (out: DocumentAnalysis)
    ensures
        out.summary@ == stock_summary(),
        crate::trusted::strings_model(out.key_points@) == stock_key_points(),
        descriptions_model(out.images_described@) == descriptions_before(
            document@.elements,
            document@.elements.len() as int,
        ),
        out.questions_answered@.len() == 0,
        risks_model(out.risk_flags@) == stock_risks(),
{
    let summary = summarize_document(document, provider);
    let key_points = extract_key_points(document, provider);
    let images_described = describe_images(document, provider);
    let risk_flags = analyze_risks(document, provider);
    DocumentAnalysis {
        summary,
        key_points,
        images_described,
        questions_answered: Vec::new(),
        risk_flags,
    }
}

} // verus!
