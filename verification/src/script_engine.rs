//! Script sandbox outcomes: the failure categories, the structured script
//! error, the static scan for forbidden identifiers, and the classification
//! of exception messages raised by the JavaScript engine.
use vstd::prelude::*;
use crate::regex_support::{regex_compiles, regex_find, regex_first_match};
use crate::text::{chars_of, contains, contains_exec, nat_decimal, push_decimal, push_str, string_from_chars};

verus! {

/// Why a script failed.
#[derive(Debug, Clone, Copy, PartialEq, Eq, Structural)]
pub enum ScriptFailureCategory {
    /// The engine could not parse the script.
    SyntaxError,
    /// An exception at run time (throw, undefined variable, ...).
    RuntimeError,
    /// Interrupted for running too long.
    Timeout,
    /// Attempted sandbox escape (`Function`, `eval`, `process`, ...).
    SecurityViolation,
    /// Wrong return value (none, `undefined` / `null`, unsupported type).
    TypeError,
    /// `ctx.fetch` failed (SSRF refusal, response too large, ...).
    NetworkError,
}

impl ScriptFailureCategory {
    /// The snake-case name of the category.
    pub open spec fn label(self) -> Seq<char> {
        match self {
            ScriptFailureCategory::SyntaxError => "syntax_error"@,
            ScriptFailureCategory::RuntimeError => "runtime_error"@,
            ScriptFailureCategory::Timeout => "timeout"@,
            ScriptFailureCategory::SecurityViolation => "security_violation"@,
            ScriptFailureCategory::TypeError => "type_error"@,
            ScriptFailureCategory::NetworkError => "network_error"@,
        }
    }

    pub fn as_str(self) -> (r: &'static str)
        ensures
            r@ == self.label(),
    {
        match self {
            ScriptFailureCategory::SyntaxError => "syntax_error",
            ScriptFailureCategory::RuntimeError => "runtime_error",
            ScriptFailureCategory::Timeout => "timeout",
            ScriptFailureCategory::SecurityViolation => "security_violation",
            ScriptFailureCategory::TypeError => "type_error",
            ScriptFailureCategory::NetworkError => "network_error",
        }
    }
}

/// A failed script evaluation.
#[derive(Debug, Clone, PartialEq, Eq)]
pub struct ScriptError {
    pub category: ScriptFailureCategory,
    pub message: String,
    /// 1-based line of a syntax error.
    pub line: Option<u32>,
    /// 1-based column of a syntax error.
    pub column: Option<u32>,
    pub duration_ms: u64,
}

impl ScriptError {
    pub fn new(category: ScriptFailureCategory, message: &str) -> (r: Self)
        ensures
            r.category == category,
            r.message@ == message@,
            r.line is None,
            r.column is None,
            r.duration_ms == 0,
    {
        ScriptError { category, message: String::from_str(message), line: None, column: None, duration_ms: 0 }
    }

    /// The same error with a position.
    pub fn with_position(self, line: u32, column: u32) -> (r: Self)
        ensures
            r.category == self.category,
            r.message@ == self.message@,
            r.line == Some(line),
            r.column == Some(column),
            r.duration_ms == self.duration_ms,
    {
        ScriptError { line: Some(line), column: Some(column), ..self }
    }

    /// The same error with a duration.
    pub fn with_duration(self, ms: u64) -> (r: Self)
        ensures
            r.category == self.category,
            r.message@ == self.message@,
            r.line == self.line,
            r.column == self.column,
            r.duration_ms == ms,
    {
        ScriptError { duration_ms: ms, ..self }
    }

    /// Display form: `[category] message`.
    pub fn to_display(&self) -> (r: String)
        ensures
            r@ == seq!['['] + self.category.label() + seq![']', ' '] + self.message@,
    {
        let mut m: Vec<char> = Vec::new();
        m.push('[');
        push_str(&mut m, self.category.as_str());
        m.push(']');
        m.push(' ');
        push_str(&mut m, self.message.as_str());
        string_from_chars(m.as_slice())
    }
}

// ---------------------------------------------------------------------------
// Static scan
// ---------------------------------------------------------------------------

/// Whole-word patterns of forbidden identifiers, checked in this order.
pub const DANGER_PATTERNS: [&'static str; 5] = [
    "\\bFunction\\b",
    "\\beval\\b",
    "\\bprocess\\b",
    "\\bsetTimeout\\b",
    "\\bsetInterval\\b",
];

pub open spec fn danger_patterns() -> Seq<Seq<char>> {
    seq![
        "\\bFunction\\b"@,
        "\\beval\\b"@,
        "\\bprocess\\b"@,
        "\\bsetTimeout\\b"@,
        "\\bsetInterval\\b"@,
    ]
}

/// The first match of forbidden pattern `i` in `body`, as byte offset and
/// text.
pub open spec fn danger_hit(i: int, body: Seq<char>) -> Option<(nat, Seq<char>)> {
    if regex_compiles(danger_patterns()[i]) {
        regex_first_match(danger_patterns()[i], body)
    } else {
        None
    }
}

/// Message of a forbidden identifier `m` found at byte `at`.
pub open spec fn violation_message(m: Seq<char>, at: nat) -> Seq<char> {
    "脚本含被禁标识符 '"@ + m + "'（位置 "@ + nat_decimal(at) + "），疑似沙箱逃逸尝试"@
}

/// `e` is the violation error reporting `hit`.
pub open spec fn violation_at(hit: Option<(nat, Seq<char>)>, e: ScriptError) -> bool {
    &&& hit matches Some((at, m))
    &&& e.message@ == violation_message(m, at)
    &&& e.category == ScriptFailureCategory::SecurityViolation
    &&& e.line is None
    &&& e.column is None
    &&& e.duration_ms == 0
}

/// Static scan: the first forbidden identifier (patterns in order) makes a
/// `SecurityViolation` naming it and its byte offset.
pub fn scan_security(body: &str) -> (r: Result<(), ScriptError>)
    ensures
        match r {
            Ok(()) => forall|i: int| 0 <= i < 5 ==> #[trigger] danger_hit(i, body@) is None,
            Err(e) => exists|i: int|
                0 <= i < 5 && (forall|j: int| 0 <= j < i ==> #[trigger] danger_hit(j, body@) is None)
                    && violation_at(#[trigger] danger_hit(i, body@), e),
        },
{
    let mut i: usize = 0;
    while i < DANGER_PATTERNS.len()
        invariant
            i <= 5,
            forall|j: int| 0 <= j < i ==> #[trigger] danger_hit(j, body@) is None,
        decreases 5 - i,
    {
        let pat = DANGER_PATTERNS[i];
        proof {
            reveal_strlit("\\bFunction\\b");
            reveal_strlit("\\beval\\b");
            reveal_strlit("\\bprocess\\b");
            reveal_strlit("\\bsetTimeout\\b");
            reveal_strlit("\\bsetInterval\\b");
        }
        assert(pat@ == danger_patterns()[i as int]);
        match regex_find(pat, body) {
            Some((at, m)) => {
                let mut msg: Vec<char> = Vec::new();
                push_str(&mut msg, "脚本含被禁标识符 '");
                push_str(&mut msg, m.as_str());
                push_str(&mut msg, "'（位置 ");
                push_decimal(&mut msg, at as u64);
                push_str(&mut msg, "），疑似沙箱逃逸尝试");
                let text = string_from_chars(msg.as_slice());
                let e = ScriptError::new(ScriptFailureCategory::SecurityViolation, text.as_str());
                assert(danger_hit(i as int, body@) == Some((at as nat, m@)));
                return Err(e);
            },
            None => {
                assert(danger_hit(i as int, body@) is None);
            },
        }
        i = i + 1;
    }
    Ok(())
}

// ---------------------------------------------------------------------------
// Exception classification
// ---------------------------------------------------------------------------

/// Names whose "is not defined" error means a removed global was reached.
pub const DANGER_NAMES: [&'static str; 5] = ["Function", "eval", "process", "setTimeout", "setInterval"];

pub open spec fn danger_names() -> Seq<Seq<char>> {
    seq!["Function"@, "eval"@, "process"@, "setTimeout"@, "setInterval"@]
}

/// The category an exception message falls in: interrupts are timeouts,
/// "is not defined" of a removed global is a security violation, parse
/// messages are syntax errors, `TypeError` is a type error, anything else a
/// runtime error.
pub open spec fn exception_category(msg: Seq<char>) -> ScriptFailureCategory {
    if contains(msg, "interrupted"@) || contains(msg, "Interrupted"@) {
        ScriptFailureCategory::Timeout
    } else if contains(msg, "is not defined"@) && exists|k: int|
        0 <= k < 5 && contains(msg, #[trigger] danger_names()[k]) {
        ScriptFailureCategory::SecurityViolation
    } else if contains(msg, "SyntaxError"@) || contains(msg, "Unexpected"@) || contains(
        msg,
        "unexpected token"@,
    ) || contains(msg, "expecting"@) {
        ScriptFailureCategory::SyntaxError
    } else if contains(msg, "TypeError"@) {
        ScriptFailureCategory::TypeError
    } else {
        ScriptFailureCategory::RuntimeError
    }
}

fn has_lit(v: &[char], lit: &str) -> (r: bool)
    ensures
        r == contains(v@, lit@),
{
    let l = chars_of(lit);
    contains_exec(v, l.as_slice())
}

/// The script error for an exception message raised by the engine after
/// `elapsed_ms` milliseconds.
pub fn classify_exception(message: &str, elapsed_ms: u64) -> (r: ScriptError)
    ensures
        r.category == exception_category(message@),
        r.message@ == message@,
        r.line is None,
        r.column is None,
        r.duration_ms == elapsed_ms,
{
    proof {
        reveal_strlit("Function");
        reveal_strlit("eval");
        reveal_strlit("process");
        reveal_strlit("setTimeout");
        reveal_strlit("setInterval");
    }
    let v = chars_of(message);
    let category = if has_lit(v.as_slice(), "interrupted") || has_lit(v.as_slice(), "Interrupted") {
        ScriptFailureCategory::Timeout
    } else {
        let mut named = false;
        let mut k: usize = 0;
        while k < DANGER_NAMES.len()
            invariant
                k <= 5,
                v@ == message@,
                named == exists|j: int| 0 <= j < k && contains(message@, #[trigger] danger_names()[j]),
            decreases 5 - k,
        {
            let name = DANGER_NAMES[k];
            assert(name@ == danger_names()[k as int]);
            if has_lit(v.as_slice(), name) {
                named = true;
            }
            proof {
                if named && !(exists|j: int| 0 <= j < k && contains(message@, #[trigger] danger_names()[j])) {
                    assert(contains(message@, danger_names()[k as int]));
                }
            }
            k = k + 1;
        }
        if has_lit(v.as_slice(), "is not defined") && named {
            ScriptFailureCategory::SecurityViolation
        } else if has_lit(v.as_slice(), "SyntaxError") || has_lit(v.as_slice(), "Unexpected")
            || has_lit(v.as_slice(), "unexpected token") || has_lit(v.as_slice(), "expecting") {
            ScriptFailureCategory::SyntaxError
        } else if has_lit(v.as_slice(), "TypeError") {
            ScriptFailureCategory::TypeError
        } else {
            ScriptFailureCategory::RuntimeError
        }
    };
    ScriptError::new(category, message).with_duration(elapsed_ms)
}

} // verus!
