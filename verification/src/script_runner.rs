//! Options of script evaluation and the checks made before a script runs.
use vstd::prelude::*;
use crate::script_engine::{ScriptError, ScriptFailureCategory};
use crate::text::{
    byte_len, chars_of, nat_decimal, push_decimal, push_str, str_byte_len, string_from_chars,
    trim, trim_chars,
};

verus! {

/// Limits of one script evaluation.
#[derive(Debug, Clone)]
pub struct ScriptOpts {
    /// Wall-clock timeout of one evaluation, in milliseconds.
    pub timeout_ms: u64,
    /// Size limit of one `ctx.fetch` response, in bytes.
    pub max_response_bytes: usize,
    /// Size limit of `script.body`, in bytes.
    pub max_body_size: usize,
}

impl Default for ScriptOpts {
    /// 100 ms, 1 MiB responses, 64 KiB bodies.
    fn default() -> (r: Self)
        ensures
            r.timeout_ms == 100,
            r.max_response_bytes == 1_048_576,
            r.max_body_size == 65_536,
    {
        ScriptOpts { timeout_ms: 100, max_response_bytes: 1_048_576, max_body_size: 65_536 }
    }
}

/// Message of a body over the size limit.
pub open spec fn oversized_message(len: nat, max: nat) -> Seq<char> {
    "script.body 长度 "@ + nat_decimal(len) + " 超过上限 "@ + nat_decimal(max) + " 字节"@
}

/// Rejects a blank body, then a body longer than `max_body_size` bytes;
/// both are syntax errors.
pub fn preflight_check(body: &str, opts: &ScriptOpts) -> (r: Result<(), ScriptError>)
    ensures
        match r {
            Ok(()) => trim(body@).len() > 0 && byte_len(body@) <= opts.max_body_size,
            Err(e) => e.category == ScriptFailureCategory::SyntaxError && e.line is None
                && e.column is None && e.duration_ms == 0 && (if trim(body@).len() == 0 {
                e.message@ == "script.body 不能为空"@
            } else {
                byte_len(body@) > opts.max_body_size && e.message@ == oversized_message(
                    byte_len(body@) as nat,
                    opts.max_body_size as nat,
                )
            }),
        },
{
    let t = trim_chars(chars_of(body).as_slice());
    if t.len() == 0 {
        return Err(ScriptError::new(ScriptFailureCategory::SyntaxError, "script.body 不能为空"));
    }
    let len = str_byte_len(body);
    if len > opts.max_body_size {
        let mut m: Vec<char> = Vec::new();
        push_str(&mut m, "script.body 长度 ");
        push_decimal(&mut m, len as u64);
        push_str(&mut m, " 超过上限 ");
        push_decimal(&mut m, opts.max_body_size as u64);
        push_str(&mut m, " 字节");
        let text = string_from_chars(m.as_slice());
        return Err(ScriptError::new(ScriptFailureCategory::SyntaxError, text.as_str()));
    }
    Ok(())
}

} // verus!
