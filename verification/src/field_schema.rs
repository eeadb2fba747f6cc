//! Field-tree schema: scopes, field types, source layers, extractor modes,
//! the rule of each mode, post-processors, field nodes and their validation.
use vstd::prelude::*;
use crate::regex_support::{regex_check, regex_compiles, regex_error_message, regex_new};
use crate::text::{
    chars_of, is_ascii_digit, is_ascii_lower, is_blank, push_all, push_decimal, push_str, str_eq,
    string_from_chars, trim, nat_decimal, byte_len, starts_with, starts_with_exec,
};

verus! {

/// Field scope: list page or detail page.
#[derive(Debug, Clone, Copy, PartialEq, Eq, Hash, Structural)]
pub enum Scope {
    ListPage,
    DetailPage,
}

impl Scope {
    /// The string form of each variant.
    pub open spec fn label(self) -> Seq<char> {
        match self {
            Scope::ListPage => "list_page"@,
            Scope::DetailPage => "detail_page"@,
        }
    }

    /// The variant whose string form is `s`, if any.
    pub open spec fn parse(s: Seq<char>) -> Option<Scope> {
        if s == "list_page"@ {
            Some(Scope::ListPage)
        } else if s == "detail_page"@ {
            Some(Scope::DetailPage)
        } else {
            None
        }
    }

    pub fn as_str(&self) -> (r: &'static str)
        ensures
            r@ == self.label(),
    {
        match self {
            Scope::ListPage => "list_page",
            Scope::DetailPage => "detail_page",
        }
    }

    #[allow(clippy::should_implement_trait)]
    pub fn from_str(s: &str) -> (r: Option<Self>)
        ensures
            r == Self::parse(s@),
    {
        if str_eq(s, "list_page") {
            Some(Scope::ListPage)
        } else if str_eq(s, "detail_page") {
            Some(Scope::DetailPage)
        } else {
            None
        }
    }

    /// Parsing the string form of a variant gives that variant back.
    pub proof fn lemma_parse_label(x: Scope)
        ensures
            Self::parse(x.label()) == Some(x),
    {
        reveal_strlit("list_page");
        reveal_strlit("detail_page");
        match x {
            Scope::ListPage => {
            },
            Scope::DetailPage => {
                assert("detail_page"@.len() != "list_page"@.len());
            },
        }
    }
}

/// Field value type.
#[derive(Debug, Clone, Copy, PartialEq, Eq, Structural)]
pub enum FieldType {
    String,
    Text,
    Url,
    Image,
    Number,
    Datetime,
    LinkCard,
    Pagination,
    Custom,
}

impl FieldType {
    /// The string form of each variant.
    pub open spec fn label(self) -> Seq<char> {
        match self {
            FieldType::String => "string"@,
            FieldType::Text => "text"@,
            FieldType::Url => "url"@,
            FieldType::Image => "image"@,
            FieldType::Number => "number"@,
            FieldType::Datetime => "datetime"@,
            FieldType::LinkCard => "link_card"@,
            FieldType::Pagination => "pagination"@,
            FieldType::Custom => "custom"@,
        }
    }

    /// The variant whose string form is `s`, if any.
    pub open spec fn parse(s: Seq<char>) -> Option<FieldType> {
        if s == "string"@ {
            Some(FieldType::String)
        } else if s == "text"@ {
            Some(FieldType::Text)
        } else if s == "url"@ {
            Some(FieldType::Url)
        } else if s == "image"@ {
            Some(FieldType::Image)
        } else if s == "number"@ {
            Some(FieldType::Number)
        } else if s == "datetime"@ {
            Some(FieldType::Datetime)
        } else if s == "link_card"@ {
            Some(FieldType::LinkCard)
        } else if s == "pagination"@ {
            Some(FieldType::Pagination)
        } else if s == "custom"@ {
            Some(FieldType::Custom)
        } else {
            None
        }
    }

    pub fn as_str(&self) -> (r: &'static str)
        ensures
            r@ == self.label(),
    {
        match self {
            FieldType::String => "string",
            FieldType::Text => "text",
            FieldType::Url => "url",
            FieldType::Image => "image",
            FieldType::Number => "number",
            FieldType::Datetime => "datetime",
            FieldType::LinkCard => "link_card",
            FieldType::Pagination => "pagination",
            FieldType::Custom => "custom",
        }
    }

    #[allow(clippy::should_implement_trait)]
    pub fn from_str(s: &str) -> (r: Option<Self>)
        ensures
            r == Self::parse(s@),
    {
        if str_eq(s, "string") {
            Some(FieldType::String)
        } else if str_eq(s, "text") {
            Some(FieldType::Text)
        } else if str_eq(s, "url") {
            Some(FieldType::Url)
        } else if str_eq(s, "image") {
            Some(FieldType::Image)
        } else if str_eq(s, "number") {
            Some(FieldType::Number)
        } else if str_eq(s, "datetime") {
            Some(FieldType::Datetime)
        } else if str_eq(s, "link_card") {
            Some(FieldType::LinkCard)
        } else if str_eq(s, "pagination") {
            Some(FieldType::Pagination)
        } else if str_eq(s, "custom") {
            Some(FieldType::Custom)
        } else {
            None
        }
    }

    /// Parsing the string form of a variant gives that variant back.
    pub proof fn lemma_parse_label(x: FieldType)
        ensures
            Self::parse(x.label()) == Some(x),
    {
        reveal_strlit("string");
        reveal_strlit("text");
        reveal_strlit("url");
        reveal_strlit("image");
        reveal_strlit("number");
        reveal_strlit("datetime");
        reveal_strlit("link_card");
        reveal_strlit("pagination");
        reveal_strlit("custom");
        match x {
            FieldType::String => {
            },
            FieldType::Text => {
                assert("text"@.len() != "string"@.len());
            },
            FieldType::Url => {
                assert("url"@.len() != "string"@.len());
                assert("url"@.len() != "text"@.len());
            },
            FieldType::Image => {
                assert("image"@.len() != "string"@.len());
                assert("image"@.len() != "text"@.len());
                assert("image"@.len() != "url"@.len());
            },
            FieldType::Number => {
                assert("number"@[0] != "string"@[0]);
                assert("number"@.len() != "text"@.len());
                assert("number"@.len() != "url"@.len());
                assert("number"@.len() != "image"@.len());
            },
            FieldType::Datetime => {
                assert("datetime"@.len() != "string"@.len());
                assert("datetime"@.len() != "text"@.len());
                assert("datetime"@.len() != "url"@.len());
                assert("datetime"@.len() != "image"@.len());
                assert("datetime"@.len() != "number"@.len());
            },
            FieldType::LinkCard => {
                assert("link_card"@.len() != "string"@.len());
                assert("link_card"@.len() != "text"@.len());
                assert("link_card"@.len() != "url"@.len());
                assert("link_card"@.len() != "image"@.len());
                assert("link_card"@.len() != "number"@.len());
                assert("link_card"@.len() != "datetime"@.len());
            },
            FieldType::Pagination => {
                assert("pagination"@.len() != "string"@.len());
                assert("pagination"@.len() != "text"@.len());
                assert("pagination"@.len() != "url"@.len());
                assert("pagination"@.len() != "image"@.len());
                assert("pagination"@.len() != "number"@.len());
                assert("pagination"@.len() != "datetime"@.len());
                assert("pagination"@.len() != "link_card"@.len());
            },
            FieldType::Custom => {
                assert("custom"@[0] != "string"@[0]);
                assert("custom"@.len() != "text"@.len());
                assert("custom"@.len() != "url"@.len());
                assert("custom"@.len() != "image"@.len());
                assert("custom"@[0] != "number"@[0]);
                assert("custom"@.len() != "datetime"@.len());
                assert("custom"@.len() != "link_card"@.len());
                assert("custom"@.len() != "pagination"@.len());
            },
        }
    }
}

/// Source tab a rule reads from.
#[derive(Debug, Clone, Copy, PartialEq, Eq, Structural)]
pub enum SourceLayer {
    Html,
    Header,
    Script,
    Meta,
    Url,
}

impl SourceLayer {
    /// The string form of each variant.
    pub open spec fn label(self) -> Seq<char> {
        match self {
            SourceLayer::Html => "html"@,
            SourceLayer::Header => "header"@,
            SourceLayer::Script => "script"@,
            SourceLayer::Meta => "meta"@,
            SourceLayer::Url => "url"@,
        }
    }

    /// The variant whose string form is `s`, if any.
    pub open spec fn parse(s: Seq<char>) -> Option<SourceLayer> {
        if s == "html"@ {
            Some(SourceLayer::Html)
        } else if s == "header"@ {
            Some(SourceLayer::Header)
        } else if s == "script"@ {
            Some(SourceLayer::Script)
        } else if s == "meta"@ {
            Some(SourceLayer::Meta)
        } else if s == "url"@ {
            Some(SourceLayer::Url)
        } else {
            None
        }
    }

    pub fn as_str(&self) -> (r: &'static str)
        ensures
            r@ == self.label(),
    {
        match self {
            SourceLayer::Html => "html",
            SourceLayer::Header => "header",
            SourceLayer::Script => "script",
            SourceLayer::Meta => "meta",
            SourceLayer::Url => "url",
        }
    }

    #[allow(clippy::should_implement_trait)]
    pub fn from_str(s: &str) -> (r: Option<Self>)
        ensures
            r == Self::parse(s@),
    {
        if str_eq(s, "html") {
            Some(SourceLayer::Html)
        } else if str_eq(s, "header") {
            Some(SourceLayer::Header)
        } else if str_eq(s, "script") {
            Some(SourceLayer::Script)
        } else if str_eq(s, "meta") {
            Some(SourceLayer::Meta)
        } else if str_eq(s, "url") {
            Some(SourceLayer::Url)
        } else {
            None
        }
    }

    /// Parsing the string form of a variant gives that variant back.
    pub proof fn lemma_parse_label(x: SourceLayer)
        ensures
            Self::parse(x.label()) == Some(x),
    {
        reveal_strlit("html");
        reveal_strlit("header");
        reveal_strlit("script");
        reveal_strlit("meta");
        reveal_strlit("url");
        match x {
            SourceLayer::Html => {
            },
            SourceLayer::Header => {
                assert("header"@.len() != "html"@.len());
            },
            SourceLayer::Script => {
                assert("script"@.len() != "html"@.len());
                assert("script"@[0] != "header"@[0]);
            },
            SourceLayer::Meta => {
                assert("meta"@[0] != "html"@[0]);
                assert("meta"@.len() != "header"@.len());
                assert("meta"@.len() != "script"@.len());
            },
            SourceLayer::Url => {
                assert("url"@.len() != "html"@.len());
                assert("url"@.len() != "header"@.len());
                assert("url"@.len() != "script"@.len());
                assert("url"@.len() != "meta"@.len());
            },
        }
    }
}

/// Matching mode: six synchronous modes, the two-stage `follow_url`, and the
/// sandboxed `script` mode.
#[derive(Debug, Clone, Copy, PartialEq, Eq, Structural)]
pub enum ExtractorMode {
    Css,
    Regex,
    PrefixSuffix,
    JsonPath,
    MetaAttr,
    HeaderField,
    FollowUrl,
    Script,
}

impl ExtractorMode {
    /// The string form of each variant.
    pub open spec fn label(self) -> Seq<char> {
        match self {
            ExtractorMode::Css => "css"@,
            ExtractorMode::Regex => "regex"@,
            ExtractorMode::PrefixSuffix => "prefix_suffix"@,
            ExtractorMode::JsonPath => "json_path"@,
            ExtractorMode::MetaAttr => "meta_attr"@,
            ExtractorMode::HeaderField => "header_field"@,
            ExtractorMode::FollowUrl => "follow_url"@,
            ExtractorMode::Script => "script"@,
        }
    }

    /// The variant whose string form is `s`, if any.
    pub open spec fn parse(s: Seq<char>) -> Option<ExtractorMode> {
        if s == "css"@ {
            Some(ExtractorMode::Css)
        } else if s == "regex"@ {
            Some(ExtractorMode::Regex)
        } else if s == "prefix_suffix"@ {
            Some(ExtractorMode::PrefixSuffix)
        } else if s == "json_path"@ {
            Some(ExtractorMode::JsonPath)
        } else if s == "meta_attr"@ {
            Some(ExtractorMode::MetaAttr)
        } else if s == "header_field"@ {
            Some(ExtractorMode::HeaderField)
        } else if s == "follow_url"@ {
            Some(ExtractorMode::FollowUrl)
        } else if s == "script"@ {
            Some(ExtractorMode::Script)
        } else {
            None
        }
    }

    pub fn as_str(&self) -> (r: &'static str)
        ensures
            r@ == self.label(),
    {
        match self {
            ExtractorMode::Css => "css",
            ExtractorMode::Regex => "regex",
            ExtractorMode::PrefixSuffix => "prefix_suffix",
            ExtractorMode::JsonPath => "json_path",
            ExtractorMode::MetaAttr => "meta_attr",
            ExtractorMode::HeaderField => "header_field",
            ExtractorMode::FollowUrl => "follow_url",
            ExtractorMode::Script => "script",
        }
    }

    #[allow(clippy::should_implement_trait)]
    pub fn from_str(s: &str) -> (r: Option<Self>)
        ensures
            r == Self::parse(s@),
    {
        if str_eq(s, "css") {
            Some(ExtractorMode::Css)
        } else if str_eq(s, "regex") {
            Some(ExtractorMode::Regex)
        } else if str_eq(s, "prefix_suffix") {
            Some(ExtractorMode::PrefixSuffix)
        } else if str_eq(s, "json_path") {
            Some(ExtractorMode::JsonPath)
        } else if str_eq(s, "meta_attr") {
            Some(ExtractorMode::MetaAttr)
        } else if str_eq(s, "header_field") {
            Some(ExtractorMode::HeaderField)
        } else if str_eq(s, "follow_url") {
            Some(ExtractorMode::FollowUrl)
        } else if str_eq(s, "script") {
            Some(ExtractorMode::Script)
        } else {
            None
        }
    }

    /// Parsing the string form of a variant gives that variant back.
    pub proof fn lemma_parse_label(x: ExtractorMode)
        ensures
            Self::parse(x.label()) == Some(x),
    {
        reveal_strlit("css");
        reveal_strlit("regex");
        reveal_strlit("prefix_suffix");
        reveal_strlit("json_path");
        reveal_strlit("meta_attr");
        reveal_strlit("header_field");
        reveal_strlit("follow_url");
        reveal_strlit("script");
        match x {
            ExtractorMode::Css => {
            },
            ExtractorMode::Regex => {
                assert("regex"@.len() != "css"@.len());
            },
            ExtractorMode::PrefixSuffix => {
                assert("prefix_suffix"@.len() != "css"@.len());
                assert("prefix_suffix"@.len() != "regex"@.len());
            },
            ExtractorMode::JsonPath => {
                assert("json_path"@.len() != "css"@.len());
                assert("json_path"@.len() != "regex"@.len());
                assert("json_path"@.len() != "prefix_suffix"@.len());
            },
            ExtractorMode::MetaAttr => {
                assert("meta_attr"@.len() != "css"@.len());
                assert("meta_attr"@.len() != "regex"@.len());
                assert("meta_attr"@.len() != "prefix_suffix"@.len());
                assert("meta_attr"@[0] != "json_path"@[0]);
            },
            ExtractorMode::HeaderField => {
                assert("header_field"@.len() != "css"@.len());
                assert("header_field"@.len() != "regex"@.len());
                assert("header_field"@.len() != "prefix_suffix"@.len());
                assert("header_field"@.len() != "json_path"@.len());
                assert("header_field"@.len() != "meta_attr"@.len());
            },
            ExtractorMode::FollowUrl => {
                assert("follow_url"@.len() != "css"@.len());
                assert("follow_url"@.len() != "regex"@.len());
                assert("follow_url"@.len() != "prefix_suffix"@.len());
                assert("follow_url"@.len() != "json_path"@.len());
                assert("follow_url"@.len() != "meta_attr"@.len());
                assert("follow_url"@.len() != "header_field"@.len());
            },
            ExtractorMode::Script => {
                assert("script"@.len() != "css"@.len());
                assert("script"@.len() != "regex"@.len());
                assert("script"@.len() != "prefix_suffix"@.len());
                assert("script"@.len() != "json_path"@.len());
                assert("script"@.len() != "meta_attr"@.len());
                assert("script"@.len() != "header_field"@.len());
                assert("script"@.len() != "follow_url"@.len());
            },
        }
    }
}

impl SourceLayer {
    /// Default layer of the two stages of a `follow_url` rule.
    pub fn default_html() -> (r: Self)
        ensures
            r == SourceLayer::Html,
    {
        SourceLayer::Html
    }
}

// ---------------------------------------------------------------------------
// Rules
// ---------------------------------------------------------------------------

/// CSS selector mode.
#[derive(Debug, Clone, Default)]
pub struct CssRule {
    /// The selector (required).
    pub selector: String,
    /// `text`, `html` or an attribute name; `text` by default.
    pub attr: String,
}

/// Default `attr` of a CSS rule.
pub fn default_css_attr() -> (r: String)
    ensures
        r@ == "text"@,
{
    String::from_str("text")
}

/// Regular-expression mode.
#[derive(Debug, Clone, Default)]
pub struct RegexRule {
    /// The pattern (required).
    pub pattern: String,
    /// Capture group: 0 is the whole match; 1 by default.
    pub group: u32,
    /// Flags such as `i`, `m`, `s`.
    pub flags: String,
}

/// Default capture group of a regex rule.
pub fn default_regex_group() -> (r: u32)
    ensures
        r == 1,
{
    1
}

/// Prefix/suffix mode.
#[derive(Debug, Clone, Default)]
pub struct PrefixSuffixRule {
    pub prefix: String,
    pub suffix: String,
    pub include_boundary: bool,
    pub case_sensitive: bool,
}

/// JSONPath mode over a `<script>` block.
#[derive(Debug, Clone, Default)]
pub struct JsonPathRule {
    /// RFC 9535 expression such as `$.name`.
    pub path: String,
}

/// `<meta>` attribute mode.
#[derive(Debug, Clone, Default)]
pub struct MetaAttrRule {
    /// Filtering attribute (`name`, `property`, `http-equiv`, ...).
    pub attr_name: String,
    /// Its value (`description`, `og:title`, ...).
    pub attr_value: String,
    /// Attribute whose content is read; `content` by default.
    pub content_key: String,
}

/// Default `content_key` of a meta rule.
pub fn default_meta_content_key() -> (r: String)
    ensures
        r@ == "content"@,
{
    String::from_str("content")
}

/// Response header mode.
#[derive(Debug, Clone, Default)]
pub struct HeaderFieldRule {
    /// Header name, compared case-insensitively.
    pub header_name: String,
}

/// Sandboxed script mode: `body` is the body of an async JS function.
#[derive(Debug, Clone)]
pub struct ScriptRule {
    pub body: String,
    /// API version, `v1` by default.
    pub api_version: String,
}

/// Default API version of a script rule.
pub fn default_script_api_version() -> (r: String)
    ensures
        r@ == "v1"@,
{
    String::from_str("v1")
}

impl ScriptRule {
    /// An empty body with the default API version.
    pub fn default() -> (r: Self)
        ensures
            r.body@ == Seq::<char>::empty(),
            r.api_version@ == "v1"@,
    {
        ScriptRule { body: String::new(), api_version: default_script_api_version() }
    }
}

/// The rule of a field, one variant per mode.
#[derive(Debug, Clone)]
pub enum Rule {
    Css(CssRule),
    Regex(RegexRule),
    PrefixSuffix(PrefixSuffixRule),
    JsonPath(JsonPathRule),
    MetaAttr(MetaAttrRule),
    HeaderField(HeaderFieldRule),
    /// Two-stage rule: extract a transit URL, fetch it, extract from the response.
    FollowUrl(FollowUrlRule),
    /// Sandboxed script.
    Script(ScriptRule),
}

impl Rule {
    /// The mode a rule belongs to.
    pub open spec fn mode(self) -> ExtractorMode {
        match self {
            Rule::Css(_) => ExtractorMode::Css,
            Rule::Regex(_) => ExtractorMode::Regex,
            Rule::PrefixSuffix(_) => ExtractorMode::PrefixSuffix,
            Rule::JsonPath(_) => ExtractorMode::JsonPath,
            Rule::MetaAttr(_) => ExtractorMode::MetaAttr,
            Rule::HeaderField(_) => ExtractorMode::HeaderField,
            Rule::FollowUrl(_) => ExtractorMode::FollowUrl,
            Rule::Script(_) => ExtractorMode::Script,
        }
    }

    /// The `extractor_mode` string of the rule.
    pub fn mode_str(&self) -> (r: &'static str)
        ensures
            r@ == self.mode().label(),
    {
        match self {
            Rule::Css(_) => "css",
            Rule::Regex(_) => "regex",
            Rule::PrefixSuffix(_) => "prefix_suffix",
            Rule::JsonPath(_) => "json_path",
            Rule::MetaAttr(_) => "meta_attr",
            Rule::HeaderField(_) => "header_field",
            Rule::FollowUrl(_) => "follow_url",
            Rule::Script(_) => "script",
        }
    }
}

/// Sub-rule of a `follow_url` rule: the six synchronous modes only, so
/// `follow_url` cannot nest.
#[derive(Debug, Clone)]
pub enum SubRule {
    Css(CssRule),
    Regex(RegexRule),
    PrefixSuffix(PrefixSuffixRule),
    JsonPath(JsonPathRule),
    MetaAttr(MetaAttrRule),
    HeaderField(HeaderFieldRule),
}

impl SubRule {
    /// The mode a sub-rule belongs to.
    pub open spec fn mode(self) -> ExtractorMode {
        match self {
            SubRule::Css(_) => ExtractorMode::Css,
            SubRule::Regex(_) => ExtractorMode::Regex,
            SubRule::PrefixSuffix(_) => ExtractorMode::PrefixSuffix,
            SubRule::JsonPath(_) => ExtractorMode::JsonPath,
            SubRule::MetaAttr(_) => ExtractorMode::MetaAttr,
            SubRule::HeaderField(_) => ExtractorMode::HeaderField,
        }
    }

    /// The `extractor_mode` string of the sub-rule.
    pub fn mode_str(&self) -> (r: &'static str)
        ensures
            r@ == self.mode().label(),
    {
        match self {
            SubRule::Css(_) => "css",
            SubRule::Regex(_) => "regex",
            SubRule::PrefixSuffix(_) => "prefix_suffix",
            SubRule::JsonPath(_) => "json_path",
            SubRule::MetaAttr(_) => "meta_attr",
            SubRule::HeaderField(_) => "header_field",
        }
    }

    /// The mode of the sub-rule.
    pub fn to_extractor_mode(&self) -> (r: ExtractorMode)
        ensures
            r == self.mode(),
    {
        match self {
            SubRule::Css(_) => ExtractorMode::Css,
            SubRule::Regex(_) => ExtractorMode::Regex,
            SubRule::PrefixSuffix(_) => ExtractorMode::PrefixSuffix,
            SubRule::JsonPath(_) => ExtractorMode::JsonPath,
            SubRule::MetaAttr(_) => ExtractorMode::MetaAttr,
            SubRule::HeaderField(_) => ExtractorMode::HeaderField,
        }
    }
}

/// `follow_url` configuration.
#[derive(Debug, Clone)]
pub struct FollowUrlRule {
    /// Extracts the transit URL from the current material.
    pub transit: SubRule,
    /// Layer of the transit sub-rule (`html` by default).
    pub transit_layer: SourceLayer,
    /// Script index when `transit_layer` is `script`.
    pub transit_script_index: Option<i32>,
    /// Layer of the extract sub-rule (`html` by default).
    pub target_layer: SourceLayer,
    /// Script index when `target_layer` is `script`.
    pub target_script_index: Option<i32>,
    /// Extracts the final value from the fetched material.
    pub extract: SubRule,
}

// ---------------------------------------------------------------------------
// Post-processors and field nodes
// ---------------------------------------------------------------------------

/// Post-processing operation.
#[derive(Debug, Clone, Copy, PartialEq, Eq, Structural)]
pub enum PostProcessorOp {
    /// Trim surrounding whitespace.
    Trim,
    /// Decode HTML entities.
    HtmlEntityDecode,
    /// Resolve relative URLs against the base URL.
    AbsolutizeUrl,
    /// Keep the first hit.
    First,
    /// Keep all hits (no-op).
    All,
    /// Drop repeated values, keeping the first.
    Dedupe,
}

#[derive(Debug, Clone, Copy, PartialEq, Eq, Structural)]
pub struct PostProcessor {
    pub op: PostProcessorOp,
}

/// A field node of the tree.
#[derive(Debug, Clone)]
pub struct FieldNodeSpec {
    pub id: Option<i64>,
    pub task_id: Option<i64>,
    pub parent_id: Option<i64>,
    pub scope: Scope,
    pub name: String,
    pub display_name: String,
    pub field_type: FieldType,
    pub source_layer: SourceLayer,
    pub extractor_mode: ExtractorMode,
    pub rule: Rule,
    pub post_processors: Vec<PostProcessor>,
    /// Script block index when `source_layer` is `script`.
    pub script_index: Option<i32>,
    pub sort_order: i32,
    pub is_active: bool,
    /// Refresh on consuming reads; allowed for `script` fields only.
    pub refresh_on_read: bool,
}

/// Default of `is_active`.
pub fn default_true() -> (r: bool)
    ensures
        r,
{
    true
}

/// Field tree: list-page and detail-page roots.
#[derive(Debug, Default)]
pub struct FieldTree {
    pub list_page: Vec<FieldTreeNode>,
    pub detail_page: Vec<FieldTreeNode>,
}

#[derive(Debug)]
pub struct FieldTreeNode {
    pub spec: FieldNodeSpec,
    pub children: Vec<FieldTreeNode>,
}

// ---------------------------------------------------------------------------
// Validation
// ---------------------------------------------------------------------------

/// `^[a-z][a-z0-9_]{0,31}$`.
pub open spec fn valid_name(s: Seq<char>) -> bool {
    &&& 1 <= s.len() <= 32
    &&& is_ascii_lower(s[0])
    &&& forall|i: int| 1 <= i < s.len() ==> is_ascii_lower(s[i]) || is_ascii_digit(s[i]) || s[i] == '_'
}

/// Message for a name that does not match.
pub open spec fn invalid_name_message(name: Seq<char>) -> Seq<char> {
    "字段名 '"@ + name + "' 不合法（须匹配 ^[a-z][a-z0-9_]{0,31}$，1-32 字符，小写字母开头）"@
}

/// Error message of a validation that failed with `e`.
pub open spec fn err_is(r: Result<(), String>, ok: bool, msg: Seq<char>) -> bool {
    match r {
        Ok(()) => ok,
        Err(e) => !ok && e@ == msg,
    }
}

/// Builds `a + b + c` as a `String`.
fn message3(a: &str, b: &[char], c: &str) -> (r: String)
    ensures
        r@ == a@ + b@ + c@,
{
    let mut m: Vec<char> = Vec::new();
    push_str(&mut m, a);
    push_all(&mut m, b);
    push_str(&mut m, c);
    string_from_chars(m.as_slice())
}

/// A field name must match `^[a-z][a-z0-9_]{0,31}$`.
pub fn validate_name(name: &str) -> (r: Result<(), String>)
    ensures
        err_is(r, valid_name(name@), invalid_name_message(name@)),
{
    let v = chars_of(name);
    let mut ok = v.len() >= 1 && v.len() <= 32 && 'a' <= v[0] && v[0] <= 'z';
    let mut i: usize = 1;
    while ok && i < v.len()
        invariant
            1 <= i,
            v@ == name@,
            ok ==> (1 <= v.len() <= 32 && is_ascii_lower(v@[0]) && i <= v.len()
                && forall|j: int| 1 <= j < i ==> is_ascii_lower(v@[j]) || is_ascii_digit(v@[j]) || v@[j] == '_'),
            !ok ==> !valid_name(name@),
        decreases v.len() - i,
    {
        let c = v[i];
        if !(('a' <= c && c <= 'z') || ('0' <= c && c <= '9') || c == '_') {
            ok = false;
        }
        i = i + 1;
    }
    if ok {
        Ok(())
    } else {
        Err(message3("字段名 '", v.as_slice(), "' 不合法（须匹配 ^[a-z][a-z0-9_]{0,31}$，1-32 字符，小写字母开头）"))
    }
}

/// Maximum size of a script body, in bytes.
pub const MAX_SCRIPT_BODY_BYTES: usize = 65536;

/// Message for an oversized script body of `len` bytes.
pub open spec fn oversized_body_message(len: nat, max: nat) -> Seq<char> {
    "script.body 长度 "@ + nat_decimal(len) + " 超过上限 "@ + nat_decimal(max) + " 字节"@
}

/// A script rule needs a non-blank body of at most 64 KiB (UTF-8 bytes) and
/// API version `v1`.
pub fn validate_script_rule(r: &ScriptRule) -> (res: Result<(), String>)
    ensures
        trim(r.body@).len() == 0 ==> err_is(res, false, "script.body 不能为空"@),
        trim(r.body@).len() != 0 && byte_len(r.body@) > 65536 ==> err_is(
            res,
            false,
            oversized_body_message(byte_len(r.body@) as nat, 65536),
        ),
        trim(r.body@).len() != 0 && byte_len(r.body@) <= 65536 && r.api_version@ != "v1"@
            ==> err_is(res, false, "script.api_version 必须为 'v1'，实际 '"@ + r.api_version@ + "'"@),
        trim(r.body@).len() != 0 && byte_len(r.body@) <= 65536 && r.api_version@ == "v1"@
            ==> res is Ok,
{
    if is_blank(r.body.as_str()) {
        return Err(String::from_str("script.body 不能为空"));
    }
    let len = r.body.as_str().len();
    if len > MAX_SCRIPT_BODY_BYTES {
        let mut m: Vec<char> = Vec::new();
        push_str(&mut m, "script.body 长度 ");
        push_decimal(&mut m, len as u64);
        push_str(&mut m, " 超过上限 ");
        push_decimal(&mut m, MAX_SCRIPT_BODY_BYTES as u64);
        push_str(&mut m, " 字节");
        return Err(string_from_chars(m.as_slice()));
    }
    if !str_eq(r.api_version.as_str(), "v1") {
        let v = chars_of(r.api_version.as_str());
        return Err(message3("script.api_version 必须为 'v1'，实际 '", v.as_slice(), "'"));
    }
    Ok(())
}

/// Cross-field check of a node: scripts only on the detail page, and
/// `refresh_on_read` only for scripts.
pub fn validate_field_node_spec(node: &FieldNodeSpec) -> (r: Result<(), String>)
    ensures
        node.scope == Scope::ListPage && node.extractor_mode == ExtractorMode::Script ==> err_is(
            r,
            false,
            "script 模式仅 detail_page 作用域合法（list_page 不支持脚本字段）"@,
        ),
        !(node.scope == Scope::ListPage && node.extractor_mode == ExtractorMode::Script)
            && node.refresh_on_read && node.extractor_mode != ExtractorMode::Script ==> err_is(
            r,
            false,
            "refresh_on_read=true 仅在 extractor_mode=script 时允许（当前 mode="@
                + node.extractor_mode.label() + "）"@,
        ),
        !(node.scope == Scope::ListPage && node.extractor_mode == ExtractorMode::Script)
            && !(node.refresh_on_read && node.extractor_mode != ExtractorMode::Script) ==> r is Ok,
{
    if node.scope == Scope::ListPage && node.extractor_mode == ExtractorMode::Script {
        return Err(String::from_str("script 模式仅 detail_page 作用域合法（list_page 不支持脚本字段）"));
    }
    if node.refresh_on_read && node.extractor_mode != ExtractorMode::Script {
        let v = chars_of(node.extractor_mode.as_str());
        return Err(message3("refresh_on_read=true 仅在 extractor_mode=script 时允许（当前 mode=", v.as_slice(), "）"));
    }
    Ok(())
}


// ---------------------------------------------------------------------------
// Rule validation
// ---------------------------------------------------------------------------

/// Inline flags kept by [`compile_regex`]: `i`, `m`, `s`, `x`, `U`.
pub open spec fn is_inline_flag(c: char) -> bool {
    c == 'i' || c == 'm' || c == 's' || c == 'x' || c == 'U'
}

/// The flags of `s` that are inline flags, in order.
pub open spec fn inline_flags(s: Seq<char>) -> Seq<char>
    decreases s.len(),
{
    if s.len() == 0 {
        s
    } else if is_inline_flag(s.last()) {
        inline_flags(s.drop_last()).push(s.last())
    } else {
        inline_flags(s.drop_last())
    }
}

/// The pattern [`compile_regex`] compiles: `pattern` alone without flags,
/// else `(?flags)pattern` with the known flags.
pub open spec fn assembled_pattern(pattern: Seq<char>, flags: Seq<char>) -> Seq<char> {
    if flags.len() == 0 {
        pattern
    } else {
        seq!['(', '?'] + inline_flags(flags) + seq![')'] + pattern
    }
}

pub(crate) fn assemble_pattern(pattern: &str, flags: &str) -> (r: String)
    ensures
        r@ == assembled_pattern(pattern@, flags@),
{
    let fv = chars_of(flags);
    if fv.len() == 0 {
        return String::from_str(pattern);
    }
    let mut kept: Vec<char> = Vec::new();
    let mut i: usize = 0;
    while i < fv.len()
        invariant
            i <= fv.len(),
            kept@ == inline_flags(fv@.take(i as int)),
        decreases fv.len() - i,
    {
        let c = fv[i];
        assert(fv@.take(i + 1).drop_last() =~= fv@.take(i as int));
        if c == 'i' || c == 'm' || c == 's' || c == 'x' || c == 'U' {
            kept.push(c);
        }
        i = i + 1;
    }
    assert(fv@.take(fv.len() as int) =~= fv@);
    let mut m: Vec<char> = Vec::new();
    m.push('(');
    m.push('?');
    push_all(&mut m, kept.as_slice());
    m.push(')');
    push_str(&mut m, pattern);
    assert(m@ =~= seq!['(', '?'] + inline_flags(flags@) + seq![')'] + pattern@);
    string_from_chars(m.as_slice())
}

/// Compiles `pattern` with the flags turned into an inline group
/// (`(?ims)pattern`); unknown flag letters are ignored.
pub fn compile_regex(pattern: &str, flags: &str) -> (r: Result<regex::Regex, regex::Error>)
    ensures
        r is Ok <==> regex_compiles(assembled_pattern(pattern@, flags@)),
{
    let assembled = assemble_pattern(pattern, flags);
    regex_new(assembled.as_str())
}

/// Message of a failed rule check, and whether the message is exact (else it
/// is a prefix followed by the regex compiler's own message).
pub open spec fn css_error(r: CssRule) -> Option<Seq<char>> {
    if trim(r.selector@).len() == 0 {
        Some("css.selector 不能为空"@)
    } else {
        None
    }
}

pub open spec fn regex_error(r: RegexRule) -> Option<Seq<char>> {
    if r.pattern@.len() == 0 {
        Some("regex.pattern 不能为空"@)
    } else if !regex_compiles(assembled_pattern(r.pattern@, r.flags@)) {
        Some("regex.pattern 编译失败: "@ + regex_error_message(assembled_pattern(r.pattern@, r.flags@)))
    } else {
        None
    }
}

pub open spec fn prefix_suffix_error(r: PrefixSuffixRule) -> Option<Seq<char>> {
    if r.prefix@.len() == 0 {
        Some("prefix_suffix.prefix 不能为空"@)
    } else if r.suffix@.len() == 0 {
        Some("prefix_suffix.suffix 不能为空"@)
    } else {
        None
    }
}

pub open spec fn json_path_error(r: JsonPathRule) -> Option<Seq<char>> {
    if trim(r.path@).len() == 0 {
        Some("json_path.path 不能为空"@)
    } else if !starts_with(r.path@, seq!['$']) {
        Some("json_path.path 须以 $ 开头（RFC 9535）"@)
    } else {
        None
    }
}

pub open spec fn meta_attr_error(r: MetaAttrRule) -> Option<Seq<char>> {
    if trim(r.attr_name@).len() == 0 {
        Some("meta_attr.attr_name 不能为空"@)
    } else if trim(r.attr_value@).len() == 0 {
        Some("meta_attr.attr_value 不能为空"@)
    } else {
        None
    }
}

pub open spec fn header_field_error(r: HeaderFieldRule) -> Option<Seq<char>> {
    if trim(r.header_name@).len() == 0 {
        Some("header_field.header_name 不能为空"@)
    } else {
        None
    }
}

/// The check of a sub-rule by its own mode.
pub open spec fn sub_rule_error(sub: SubRule) -> Option<Seq<char>> {
    match sub {
        SubRule::Css(r) => css_error(r),
        SubRule::Regex(r) => regex_error(r),
        SubRule::PrefixSuffix(r) => prefix_suffix_error(r),
        SubRule::JsonPath(r) => json_path_error(r),
        SubRule::MetaAttr(r) => meta_attr_error(r),
        SubRule::HeaderField(r) => header_field_error(r),
    }
}

/// Message of a failed script rule check.
pub open spec fn script_error(r: ScriptRule) -> Option<Seq<char>> {
    if trim(r.body@).len() == 0 {
        Some("script.body 不能为空"@)
    } else if byte_len(r.body@) > 65536 {
        Some(oversized_body_message(byte_len(r.body@) as nat, 65536))
    } else if r.api_version@ != "v1"@ {
        Some("script.api_version 必须为 'v1'，实际 '"@ + r.api_version@ + "'"@)
    } else {
        None
    }
}

/// The check of a whole rule: each sub-rule of a `follow_url` rule under its
/// path, then the script index of each script layer.
pub open spec fn rule_error(rule: Rule) -> Option<Seq<char>> {
    match rule {
        Rule::Css(r) => css_error(r),
        Rule::Regex(r) => regex_error(r),
        Rule::PrefixSuffix(r) => prefix_suffix_error(r),
        Rule::JsonPath(r) => json_path_error(r),
        Rule::MetaAttr(r) => meta_attr_error(r),
        Rule::HeaderField(r) => header_field_error(r),
        Rule::FollowUrl(f) => if sub_rule_error(f.transit) is Some {
            Some("follow_url.transit"@ + ": "@ + sub_rule_error(f.transit).unwrap())
        } else if sub_rule_error(f.extract) is Some {
            Some("follow_url.extract"@ + ": "@ + sub_rule_error(f.extract).unwrap())
        } else if f.transit_layer == SourceLayer::Script && f.transit_script_index is None {
            Some("follow_url.transit_layer=script 时必须指定 transit_script_index"@)
        } else if f.target_layer == SourceLayer::Script && f.target_script_index is None {
            Some("follow_url.target_layer=script 时必须指定 target_script_index"@)
        } else {
            None
        },
        Rule::Script(r) => script_error(r),
    }
}

/// A check result agrees with an expected error: `Ok` when none is
/// expected, else an error carrying exactly that message.
pub open spec fn check_agrees(res: Result<(), String>, expected: Option<Seq<char>>) -> bool {
    match res {
        Ok(()) => expected is None,
        Err(e) => expected == Some(e@),
    }
}

fn err_from(msg: &str) -> (r: Result<(), String>)
    ensures
        r matches Err(e) && e@ == msg@,
{
    Err(String::from_str(msg))
}

fn validate_css_rule(r: &CssRule) -> (res: Result<(), String>)
    ensures
        check_agrees(res, css_error(*r)),
{
    if is_blank(r.selector.as_str()) {
        return err_from("css.selector 不能为空");
    }
    Ok(())
}

fn validate_regex_rule(r: &RegexRule) -> (res: Result<(), String>)
    ensures
        check_agrees(res, regex_error(*r)),
{
    let pv = chars_of(r.pattern.as_str());
    if pv.len() == 0 {
        return err_from("regex.pattern 不能为空");
    }
    let assembled = assemble_pattern(r.pattern.as_str(), r.flags.as_str());
    match regex_check(assembled.as_str()) {
        Ok(()) => Ok(()),
        Err(text) => {
            let mut m: Vec<char> = Vec::new();
            push_str(&mut m, "regex.pattern 编译失败: ");
            push_str(&mut m, text.as_str());
            Err(string_from_chars(m.as_slice()))
        },
    }
}

fn validate_prefix_suffix_rule(r: &PrefixSuffixRule) -> (res: Result<(), String>)
    ensures
        check_agrees(res, prefix_suffix_error(*r)),
{
    let pv = chars_of(r.prefix.as_str());
    if pv.len() == 0 {
        return err_from("prefix_suffix.prefix 不能为空");
    }
    let sv = chars_of(r.suffix.as_str());
    if sv.len() == 0 {
        return err_from("prefix_suffix.suffix 不能为空");
    }
    Ok(())
}

fn validate_json_path_rule(r: &JsonPathRule) -> (res: Result<(), String>)
    ensures
        check_agrees(res, json_path_error(*r)),
{
    if is_blank(r.path.as_str()) {
        return err_from("json_path.path 不能为空");
    }
    let pv = chars_of(r.path.as_str());
    let dollar: [char; 1] = ['$'];
    assert(dollar@ =~= seq!['$']);
    if !starts_with_exec(pv.as_slice(), &dollar) {
        return err_from("json_path.path 须以 $ 开头（RFC 9535）");
    }
    Ok(())
}

fn validate_meta_attr_rule(r: &MetaAttrRule) -> (res: Result<(), String>)
    ensures
        check_agrees(res, meta_attr_error(*r)),
{
    if is_blank(r.attr_name.as_str()) {
        return err_from("meta_attr.attr_name 不能为空");
    }
    if is_blank(r.attr_value.as_str()) {
        return err_from("meta_attr.attr_value 不能为空");
    }
    Ok(())
}

fn validate_header_field_rule(r: &HeaderFieldRule) -> (res: Result<(), String>)
    ensures
        check_agrees(res, header_field_error(*r)),
{
    if is_blank(r.header_name.as_str()) {
        return err_from("header_field.header_name 不能为空");
    }
    Ok(())
}

/// Prefixes the error of `res` with `path: `.
fn with_path(res: Result<(), String>, path: &str) -> (r: Result<(), String>)
    ensures
        match res {
            Ok(()) => r is Ok,
            Err(e) => r matches Err(e2) && e2@ == path@ + ": "@ + e@,
        },
{
    match res {
        Ok(()) => Ok(()),
        Err(e) => {
            let mut m: Vec<char> = Vec::new();
            push_str(&mut m, path);
            push_str(&mut m, ": ");
            push_str(&mut m, e.as_str());
            Err(string_from_chars(m.as_slice()))
        },
    }
}

/// Checks a `follow_url` sub-rule by its mode; errors carry `path: `.
fn validate_sub_rule(sub: &SubRule, path: &str) -> (res: Result<(), String>)
    ensures
        match res {
            Ok(()) => sub_rule_error(*sub) is None,
            Err(e) => sub_rule_error(*sub) is Some && e@ == path@ + ": "@ + sub_rule_error(*sub).unwrap(),
        },
{
    let inner = match sub {
        SubRule::Css(r) => validate_css_rule(r),
        SubRule::Regex(r) => validate_regex_rule(r),
        SubRule::PrefixSuffix(r) => validate_prefix_suffix_rule(r),
        SubRule::JsonPath(r) => validate_json_path_rule(r),
        SubRule::MetaAttr(r) => validate_meta_attr_rule(r),
        SubRule::HeaderField(r) => validate_header_field_rule(r),
    };
    with_path(inner, path)
}

/// Checks a rule by its own mode: required parts present, regex patterns
/// compile, `follow_url` sub-rules valid (errors prefixed with their path)
/// and script layers given an index, script bodies within limits.
pub fn validate_rule_value(rule: &Rule) -> (res: Result<(), String>)
    ensures
        check_agrees(res, rule_error(*rule)),
{
    match rule {
        Rule::Css(r) => validate_css_rule(r),
        Rule::Regex(r) => validate_regex_rule(r),
        Rule::PrefixSuffix(r) => validate_prefix_suffix_rule(r),
        Rule::JsonPath(r) => validate_json_path_rule(r),
        Rule::MetaAttr(r) => validate_meta_attr_rule(r),
        Rule::HeaderField(r) => validate_header_field_rule(r),
        Rule::FollowUrl(f) => {
            let t = validate_sub_rule(&f.transit, "follow_url.transit");
            if t.is_err() {
                return t;
            }
            let x = validate_sub_rule(&f.extract, "follow_url.extract");
            if x.is_err() {
                return x;
            }
            if f.transit_layer == SourceLayer::Script && f.transit_script_index.is_none() {
                return err_from("follow_url.transit_layer=script 时必须指定 transit_script_index");
            }
            if f.target_layer == SourceLayer::Script && f.target_script_index.is_none() {
                return err_from("follow_url.target_layer=script 时必须指定 target_script_index");
            }
            Ok(())
        },
        Rule::Script(r) => validate_script_rule(r),
    }
}


// ---------------------------------------------------------------------------
// Copies
// ---------------------------------------------------------------------------

impl CssRule {
    /// Same fields, compared by their views.
    pub open spec fn same(self, o: CssRule) -> bool {
        self.selector@ == o.selector@ && self.attr@ == o.attr@
    }

    pub fn duplicate(&self) -> (r: Self)
        ensures
            r.same(*self),
    {
        CssRule { selector: self.selector.clone(), attr: self.attr.clone() }
    }
}

impl RegexRule {
    pub open spec fn same(self, o: RegexRule) -> bool {
        self.pattern@ == o.pattern@ && self.group == o.group && self.flags@ == o.flags@
    }

    pub fn duplicate(&self) -> (r: Self)
        ensures
            r.same(*self),
    {
        RegexRule { pattern: self.pattern.clone(), group: self.group, flags: self.flags.clone() }
    }
}

impl PrefixSuffixRule {
    pub open spec fn same(self, o: PrefixSuffixRule) -> bool {
        self.prefix@ == o.prefix@ && self.suffix@ == o.suffix@ && self.include_boundary
            == o.include_boundary && self.case_sensitive == o.case_sensitive
    }

    pub fn duplicate(&self) -> (r: Self)
        ensures
            r.same(*self),
    {
        PrefixSuffixRule {
            prefix: self.prefix.clone(),
            suffix: self.suffix.clone(),
            include_boundary: self.include_boundary,
            case_sensitive: self.case_sensitive,
        }
    }
}

impl JsonPathRule {
    pub open spec fn same(self, o: JsonPathRule) -> bool {
        self.path@ == o.path@
    }

    pub fn duplicate(&self) -> (r: Self)
        ensures
            r.same(*self),
    {
        JsonPathRule { path: self.path.clone() }
    }
}

impl MetaAttrRule {
    pub open spec fn same(self, o: MetaAttrRule) -> bool {
        self.attr_name@ == o.attr_name@ && self.attr_value@ == o.attr_value@ && self.content_key@
            == o.content_key@
    }

    pub fn duplicate(&self) -> (r: Self)
        ensures
            r.same(*self),
    {
        MetaAttrRule {
            attr_name: self.attr_name.clone(),
            attr_value: self.attr_value.clone(),
            content_key: self.content_key.clone(),
        }
    }
}

impl HeaderFieldRule {
    pub open spec fn same(self, o: HeaderFieldRule) -> bool {
        self.header_name@ == o.header_name@
    }

    pub fn duplicate(&self) -> (r: Self)
        ensures
            r.same(*self),
    {
        HeaderFieldRule { header_name: self.header_name.clone() }
    }
}

/// `rule` is the same rule as the sub-rule `sub` (same mode and fields).
pub open spec fn rule_mirrors_sub(sub: SubRule, rule: Rule) -> bool {
    match (sub, rule) {
        (SubRule::Css(a), Rule::Css(b)) => b.same(a),
        (SubRule::Regex(a), Rule::Regex(b)) => b.same(a),
        (SubRule::PrefixSuffix(a), Rule::PrefixSuffix(b)) => b.same(a),
        (SubRule::JsonPath(a), Rule::JsonPath(b)) => b.same(a),
        (SubRule::MetaAttr(a), Rule::MetaAttr(b)) => b.same(a),
        (SubRule::HeaderField(a), Rule::HeaderField(b)) => b.same(a),
        _ => false,
    }
}

} // verus!
