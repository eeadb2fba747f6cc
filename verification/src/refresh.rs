//! Refreshing script fields when an article is read: whether to refresh,
//! how a looked-up field node is classified, and the errors and results of
//! a refresh or of a sandbox run.
use vstd::prelude::*;
use std::collections::HashMap;
use crate::script_engine::ScriptError;
use crate::text::{
    chars_of, push_all, push_signed_decimal, push_str, slice_range, starts_with, starts_with_exec,
    string_from_chars, int_decimal,
};

verus! {

/// Whether to re-run the script: an explicit request wins, else the
/// field's `refresh_on_read`.
pub fn should_refresh(refresh_on_read: bool, force_refresh: Option<bool>) -> (r: bool)
    ensures
        r == match force_refresh {
            Some(f) => f,
            None => refresh_on_read,
        },
{
    match force_refresh {
        Some(f) => f,
        None => refresh_on_read,
    }
}

/// Why a refresh failed.
#[derive(Debug, Clone, PartialEq, Eq)]
pub enum RefreshError {
    ArticleNotFound { article_id: i64 },
    ArticleNoTask { article_id: i64 },
    FieldNodeNotFound { article_id: i64, field_name: String },
    NotScriptField { field_name: String, mode: String },
    ScriptFailed { category: String, message: String },
    Database(String),
    Runtime(String),
}

impl RefreshError {
    /// The message shown for the failure.
    pub open spec fn message(self) -> Seq<char> {
        match self {
            RefreshError::ArticleNotFound { article_id } => "文章 "@ + int_decimal(article_id as int) + " 不存在"@,
            RefreshError::ArticleNoTask { article_id } => "文章 "@ + int_decimal(article_id as int)
                + " 未关联 task，无法刷新"@,
            RefreshError::FieldNodeNotFound { article_id, field_name } => "字段 "@ + field_name@ + " 在文章 "@
                + int_decimal(article_id as int) + " 关联的任务字段树中不存在"@,
            RefreshError::NotScriptField { field_name, mode } => "字段 "@ + field_name@ + " 不是 script 模式（mode="@
                + mode@ + "），不可刷新"@,
            RefreshError::ScriptFailed { category, message } => "脚本求值失败 ["@ + category@ + "]: "@ + message@,
            RefreshError::Database(s) => "数据库错："@ + s@,
            RefreshError::Runtime(s) => "Tokio runtime 错："@ + s@,
        }
    }

    pub fn to_display(&self) -> (r: String)
        ensures
            r@ == self.message(),
    {
        let mut m: Vec<char> = Vec::new();
        match self {
            RefreshError::ArticleNotFound { article_id } => {
                push_str(&mut m, "文章 ");
                push_signed_decimal(&mut m, *article_id);
                push_str(&mut m, " 不存在");
            },
            RefreshError::ArticleNoTask { article_id } => {
                push_str(&mut m, "文章 ");
                push_signed_decimal(&mut m, *article_id);
                push_str(&mut m, " 未关联 task，无法刷新");
            },
            RefreshError::FieldNodeNotFound { article_id, field_name } => {
                push_str(&mut m, "字段 ");
                push_str(&mut m, field_name.as_str());
                push_str(&mut m, " 在文章 ");
                push_signed_decimal(&mut m, *article_id);
                push_str(&mut m, " 关联的任务字段树中不存在");
            },
            RefreshError::NotScriptField { field_name, mode } => {
                push_str(&mut m, "字段 ");
                push_str(&mut m, field_name.as_str());
                push_str(&mut m, " 不是 script 模式（mode=");
                push_str(&mut m, mode.as_str());
                push_str(&mut m, "），不可刷新");
            },
            RefreshError::ScriptFailed { category, message } => {
                push_str(&mut m, "脚本求值失败 [");
                push_str(&mut m, category.as_str());
                push_str(&mut m, "]: ");
                push_str(&mut m, message.as_str());
            },
            RefreshError::Database(s) => {
                push_str(&mut m, "数据库错：");
                push_str(&mut m, s.as_str());
            },
            RefreshError::Runtime(s) => {
                push_str(&mut m, "Tokio runtime 错：");
                push_str(&mut m, s.as_str());
            },
        }
        string_from_chars(m.as_slice())
    }
}

/// Old and new value of a refreshed field.
#[derive(Debug, Clone, PartialEq, Eq)]
pub struct RefreshedValue {
    /// Stored value before the refresh (empty when there was none).
    pub old_value: String,
    /// Value after the refresh.
    pub new_value: String,
    pub duration_ms: u64,
}

/// Failure of a sandbox run.
#[derive(Debug, Clone, PartialEq, Eq)]
pub struct SandboxErrorInfo {
    pub category: String,
    pub message: String,
}

/// What a sandbox run was given.
#[derive(Debug, Clone)]
pub struct SandboxCtx {
    pub url: String,
    /// Sibling field values (the field itself excluded).
    pub fields: HashMap<String, String>,
}

/// Result of a sandbox run (nothing is stored).
#[derive(Debug, Clone)]
pub struct SandboxResult {
    pub value: Option<String>,
    pub error: Option<SandboxErrorInfo>,
    pub current_db_value: Option<String>,
    pub ctx: SandboxCtx,
    pub duration_ms: u64,
}

/// Marker stored in place of a script body for fields of other modes.
pub open spec fn not_script_marker() -> Seq<char> {
    "__not_script__:"@
}

/// `s` with every leading copy of `p` removed (`trim_start_matches`).
pub open spec fn strip_all_prefix(s: Seq<char>, p: Seq<char>) -> Seq<char>
    decreases s.len(),
{
    if p.len() > 0 && starts_with(s, p) {
        strip_all_prefix(s.skip(p.len() as int), p)
    } else {
        s
    }
}

/// A looked-up field node as `(id, refresh_on_read, script body)`: a
/// missing node and a node of another mode are errors.
pub fn classify_field_node(
    article_id: i64,
    field_name: &str,
    node: Option<(i64, bool, String)>,
) -> (r: Result<(i64, bool, String), RefreshError>)
    ensures
        match node {
            None => r matches Err(RefreshError::FieldNodeNotFound { article_id: a, field_name: f })
                && a == article_id && f@ == field_name@,
            Some((id, ror, body)) => if starts_with(body@, not_script_marker()) {
                r matches Err(RefreshError::NotScriptField { field_name: f, mode }) && f@ == field_name@
                    && mode@ == strip_all_prefix(body@, not_script_marker())
            } else {
                r matches Ok((i, o, b)) && i == id && o == ror && b@ == body@
            },
        },
{
    proof {
        reveal_strlit("__not_script__:");
    }
    match node {
        None => Err(RefreshError::FieldNodeNotFound { article_id, field_name: String::from_str(field_name) }),
        Some((id, ror, body)) => {
            let marker = chars_of("__not_script__:");
            let v = chars_of(body.as_str());
            if starts_with_exec(v.as_slice(), marker.as_slice()) {
                let mut rest = v;
                while starts_with_exec(rest.as_slice(), marker.as_slice())
                    invariant
                        marker@ == not_script_marker(),
                        marker@.len() == 15,
                        strip_all_prefix(rest@, marker@) == strip_all_prefix(body@, marker@),
                    decreases rest@.len(),
                {
                    let ghost old_rest = rest@;
                    rest = slice_range(rest.as_slice(), 15, rest.len());
                    assert(rest@ =~= old_rest.skip(15));
                }
                Err(RefreshError::NotScriptField {
                    field_name: String::from_str(field_name),
                    mode: string_from_chars(rest.as_slice()),
                })
            } else {
                Ok((id, ror, body))
            }
        },
    }
}

/// A failed script becomes `ScriptFailed` with the category label and the
/// message.
pub fn script_failure(err: ScriptError) -> (r: RefreshError)
    ensures
        r matches RefreshError::ScriptFailed { category, message } && category@ == err.category.label()
            && message@ == err.message@,
{
    RefreshError::ScriptFailed { category: String::from_str(err.category.as_str()), message: err.message }
}

/// Path under which a refreshed value is stored: `/detail_page/{name}`.
pub fn refreshed_field_path(field_name: &str) -> (r: String)
    ensures
        r@ == "/detail_page/"@ + field_name@,
{
    let mut m: Vec<char> = Vec::new();
    push_str(&mut m, "/detail_page/");
    push_str(&mut m, field_name);
    string_from_chars(m.as_slice())
}

/// The value used when no refresh happens: the stored one, unchanged.
pub fn unchanged_value(old_value: String, duration_ms: u64) -> (r: RefreshedValue)
    ensures
        r.old_value@ == old_value@,
        r.new_value@ == old_value@,
        r.duration_ms == duration_ms,
{
    RefreshedValue { new_value: old_value.clone(), old_value, duration_ms }
}

} // verus!
