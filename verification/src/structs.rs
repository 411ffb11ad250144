//! The server's records: settings, typography, navigation, clients, forms
//! and the summaries it reports.
use vstd::prelude::*;
use crate::json::JsonValue;
use crate::string_map::StringMap;
use crate::text::{concat2, concat3, push_str, push_decimal, decimal};

verus! {

/// An error of the server, with its message.
pub struct PankosmiaError(pub String);

impl PankosmiaError {
    /// The text of the error: `PankosmiaError: <message>`.
    pub fn message(&self) -> (r: String)
        ensures
            r@ == "PankosmiaError: "@ + self.0@,
    {
        concat2("PankosmiaError: ", self.0.as_str())
    }
}

/// A book, chapter and verse position, with the last verse of a range.
pub struct Bcv {
    pub book_code: String,
    pub chapter: u16,
    pub verse: u16,
    pub to_verse: u16,
}

impl Bcv {
    pub fn copy(&self) -> (r: Bcv)
        ensures
            r == *self,
    {
        Bcv { book_code: self.book_code.clone(), chapter: self.chapter, verse: self.verse, to_verse: self.to_verse }
    }
}

/// One font feature setting.
pub struct TypographyFeature {
    pub key: String,
    pub value: u8,
}

impl TypographyFeature {
    /// The text `(<key>, <value>)`.
    pub fn display_text(&self) -> (r: String)
        ensures
            r@ == "("@ + self.key@ + ", "@ + decimal(self.value as nat) + ")"@,
    {
        let mut r = concat3("(", self.key.as_str(), ", ");
        push_decimal(&mut r, self.value as u64);
        push_str(&mut r, ")");
        r
    }

    pub fn copy(&self) -> (r: TypographyFeature)
        ensures
            r == *self,
    {
        TypographyFeature { key: self.key.clone(), value: self.value }
    }
}

/// Copies a list of font features.
pub fn copy_features(v: &Vec<TypographyFeature>) -> (r: Vec<TypographyFeature>)
    ensures
        r@ == v@,
{
    let mut r: Vec<TypographyFeature> = Vec::new();
    let mut i: usize = 0;
    while i < v.len()
        invariant
            i <= v@.len(),
            r@ == v@.take(i as int),
        decreases v@.len() - i,
    {
        r.push(v[i].copy());
        assert(v@.take(i + 1) =~= v@.take(i as int).push(v@[i as int]));
        i += 1;
    }
    assert(v@.take(v@.len() as int) =~= v@);
    r
}

/// Interface typography: font set, size, direction and, per font, feature
/// settings.
pub struct Typography {
    pub font_set: String,
    pub size: String,
    pub direction: String,
    pub features: StringMap<Vec<TypographyFeature>>,
}

/// A pending login at a gateway server.
pub struct AuthRequest {
    pub code: String,
    pub redirect_uri: String,
    /// Seconds since the Unix epoch when the request was made.
    pub timestamp: u64,
}

/// The project that is currently selected.
pub struct ProjectIdentifier {
    pub source: String,
    pub organization: String,
    pub project: String,
}

impl ProjectIdentifier {
    pub fn copy(&self) -> (r: ProjectIdentifier)
        ensures
            r == *self,
    {
        ProjectIdentifier {
            source: self.source.clone(),
            organization: self.organization.clone(),
            project: self.project.clone(),
        }
    }
}

/// Name and version of the product the server runs for.
pub struct ProductInfo {
    pub name: String,
    pub short_name: String,
    pub version: String,
    pub date_time: String,
}

/// The state of the server.
pub struct AppSettings {
    pub working_dir: String,
    pub repo_dir: String,
    pub app_resources_dir: String,
    pub languages: Vec<String>,
    pub gitea_endpoints: StringMap<String>,
    pub auth_tokens: StringMap<String>,
    pub auth_requests: StringMap<AuthRequest>,
    pub bcv: Bcv,
    pub typography: Typography,
    pub current_project: Option<ProjectIdentifier>,
    pub dev_settings: JsonValue,
    pub snippet: Option<JsonValue>,
    pub word: Option<JsonValue>,
    pub product: ProductInfo,
}

impl AppSettings {
    /// The maps of the state keep their keys distinct.
    pub open spec fn wf(&self) -> bool {
        &&& self.gitea_endpoints.wf()
        &&& self.auth_tokens.wf()
        &&& self.auth_requests.wf()
        &&& self.typography.features.wf()
    }
}

/// Where a client comes from.
#[derive(PartialEq, Eq, Structural, Clone, Copy)]
pub enum ClientSource {
    App,
    User,
}

/// A web client served by the server.
pub struct Client {
    pub id: String,
    pub src: String,
    pub requires: StringMap<bool>,
    pub exclude_from_menu: bool,
    pub exclude_from_dashboard: bool,
    pub path: String,
    pub url: String,
}

/// The public description of a client.
pub struct PublicClient {
    pub id: String,
    pub requires: StringMap<bool>,
    pub exclude_from_menu: bool,
    pub exclude_from_dashboard: bool,
    pub url: String,
}

/// The settings that are written to the user's settings file.
pub struct UserSettings {
    pub languages: Vec<String>,
    pub repo_dir: String,
    pub app_resources_dir: String,
    pub typography: Typography,
    pub my_clients: Vec<Client>,
    pub gitea_endpoints: StringMap<String>,
}

/// The record behind a data reply.
pub struct JsonDataResponse {
    pub is_good: bool,
    pub reason: String,
}

/// The record behind a net status reply.
pub struct JsonNetStatusResponse {
    pub is_enabled: bool,
}

/// A repository offered by a remote gitea server.
pub struct RemoteRepoRecord {
    pub name: String,
    pub abbreviation: String,
    pub description: String,
    pub avatar_url: String,
    pub flavor: String,
    pub flavor_type: String,
    pub language_code: String,
    pub script_direction: String,
    pub branch_or_tag: String,
    pub clone_url: String,
}

/// One changed path of a local repository.
pub struct GitStatusRecord {
    pub path: String,
    pub change_type: String,
}

/// A summary of a repository's metadata.
pub struct MetadataSummary {
    pub name: String,
    pub description: String,
    pub abbreviation: String,
    pub generated_date: String,
    pub flavor_type: String,
    pub flavor: String,
    pub language_code: String,
    pub script_direction: String,
}

/// Fields of a request for a new text translation.
pub struct NewTextTranslationContentForm {
    pub content_name: String,
    pub content_abbr: String,
    pub content_type: String,
    pub content_language_code: String,
    pub content_language_name: Option<String>,
    pub add_book: bool,
    pub book_code: Option<String>,
    pub book_title: Option<String>,
    pub book_abbr: Option<String>,
    pub add_cv: Option<bool>,
    pub versification: Option<String>,
    pub branch_name: Option<String>,
}

/// Fields of a request for a new audio translation.
pub struct NewAudioTranslationContentForm {
    pub content_name: String,
    pub content_abbr: String,
    pub content_language_code: String,
    pub content_language_name: Option<String>,
    pub versification: String,
    pub branch_name: Option<String>,
}

/// Fields of a request for a new print specification resource.
pub struct NewPrintSpecContentForm {
    pub content_name: String,
    pub content_abbr: String,
    pub copyright: String,
    pub content_language_code: String,
    pub branch_name: Option<String>,
    pub spec: Option<String>,
}

/// Fields of a request for a new verse-by-verse resource.
pub struct NewBcvResourceContentForm {
    pub content_name: String,
    pub content_abbr: String,
    pub tsv_type: String,
    pub content_language_code: String,
    pub add_book: bool,
    pub book_code: Option<String>,
    pub book_title: Option<String>,
    pub book_abbr: Option<String>,
    pub versification: Option<String>,
}

/// Fields of a request for a new story resource.
pub struct NewObsContentForm {
    pub content_name: String,
    pub content_abbr: String,
    pub content_language_code: String,
    pub branch_name: Option<String>,
}

/// Fields of a request for a new scripture book in a repository.
pub struct NewScriptureBookForm {
    pub book_code: String,
    pub book_title: String,
    pub book_abbr: String,
    pub add_cv: bool,
}

/// Fields of a request for a new book in a verse-by-verse resource.
pub struct NewBcvResourceBookForm {
    pub book_code: String,
    pub vrs_name: Option<String>,
}


/// One ingredient file of a Scripture Burrito metadata document.
#[allow(non_snake_case)]
pub struct BurritoMetadataIngredient {
    pub checksum: JsonValue,
    pub mimeType: String,
    pub scope: Option<JsonValue>,
    pub size: usize,
}

/// A Scripture Burrito metadata document. `type_info` holds the document's
/// `type` member.
#[allow(non_snake_case)]
pub struct BurritoMetadata {
    pub format: String,
    pub meta: JsonValue,
    pub idAuthorities: JsonValue,
    pub identification: JsonValue,
    pub languages: Vec<JsonValue>,
    pub type_info: JsonValue,
    pub confidential: bool,
    pub localizedNames: JsonValue,
    pub ingredients: StringMap<BurritoMetadataIngredient>,
    pub copyright: JsonValue,
}

/// Fields of a request to add and commit the changes of a repository.
pub struct AddCommitForm {
    pub commit_message: String,
}

} // verus!
