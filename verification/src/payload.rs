//! The debug payload path: a tolerant repair pass over user-supplied
//! embed text (code fences stripped, braces completed) followed by
//! structured parsing, surfacing a malformed-payload error on failure.

use vstd::prelude::*;
use crate::errors::DiagError;
use crate::strutil::chars_to_string;
use crate::strutil::str_to_chars;

verus! {

#[verifier::external_type_specification]
#[verifier::external_body]
pub struct ExValue(serde_json::Value);

/// Whether serde_json accepts the text as a JSON document; it depends on
/// the text alone.
pub uninterp spec fn json_accepts(s: Seq<char>) -> bool;

/// Relies on `serde_json::from_str`: the text parsed as a JSON value.
#[verifier::external_body]
fn parse_json_value(s: &str) -> (r: Option<serde_json::Value>)
    ensures
        r is Some <==> json_accepts(s@),
{
    serde_json::from_str::<serde_json::Value>(s).ok()
}

/// `s` begins with `p`.
pub open spec fn seq_starts_with(s: Seq<char>, p: Seq<char>) -> bool {
    s.len() >= p.len() && s.take(p.len() as int) == p
}

/// `s` ends with `p`.
pub open spec fn seq_ends_with(s: Seq<char>, p: Seq<char>) -> bool {
    s.len() >= p.len() && s.skip(s.len() - p.len()) == p
}

/// The repair pass: a leading ```` ```json ```` fence, then a leading and
/// a trailing bare ```` ``` ```` fence are stripped; then a missing final
/// `}` is appended and a missing leading `{` is prepended.
pub open spec fn spec_repair(s: Seq<char>) -> Seq<char> {
    let a = if seq_starts_with(s, "```json"@) {
        s.skip(7)
    } else {
        s
    };
    let b = if seq_starts_with(a, "```"@) {
        a.skip(3)
    } else {
        a
    };
    let c = if seq_ends_with(b, "```"@) {
        b.take(b.len() - 3)
    } else {
        b
    };
    let d = if !seq_ends_with(c, "}"@) {
        c + "}"@
    } else {
        c
    };
    if !seq_starts_with(d, "{"@) {
        "{"@ + d
    } else {
        d
    }
}

fn has_prefix(v: &Vec<char>, pat: &Vec<char>) -> (r: bool)
    ensures
        r == seq_starts_with(v@, pat@),
{
    if v.len() < pat.len() {
        proof {
            assert(!seq_starts_with(v@, pat@));
        }
        return false;
    }
    let mut k: usize = 0;
    while k < pat.len()
        invariant
            pat@.len() <= v@.len(),
            k <= pat@.len(),
            v@.take(k as int) == pat@.take(k as int),
        decreases pat@.len() - k,
    {
        proof {
            assert(v@.take(k as int).push(v@[k as int]) =~= v@.take(k as int + 1));
            assert(pat@.take(k as int).push(pat@[k as int]) =~= pat@.take(k as int + 1));
        }
        if v[k] != pat[k] {
            proof {
                assert(v@.take(pat@.len() as int)[k as int] != pat@[k as int]);
            }
            return false;
        }
        k += 1;
    }
    proof {
        assert(pat@.take(pat@.len() as int) =~= pat@);
    }
    true
}

fn has_suffix(v: &Vec<char>, pat: &Vec<char>) -> (r: bool)
    ensures
        r == seq_ends_with(v@, pat@),
{
    if v.len() < pat.len() {
        proof {
            assert(!seq_ends_with(v@, pat@));
        }
        return false;
    }
    let n = v.len();
    let off = n - pat.len();
    let ghost tail = v@.skip(off as int);
    let mut k: usize = 0;
    while k < pat.len()
        invariant
            n == v@.len(),
            off + pat@.len() == n,
            tail == v@.skip(off as int),
            k <= pat@.len(),
            tail.take(k as int) == pat@.take(k as int),
        decreases pat@.len() - k,
    {
        proof {
            assert(tail[k as int] == v@[off + k]);
            assert(tail.take(k as int).push(tail[k as int]) =~= tail.take(k as int + 1));
            assert(pat@.take(k as int).push(pat@[k as int]) =~= pat@.take(k as int + 1));
        }
        if v[off + k] != pat[k] {
            proof {
                assert(tail.take(pat@.len() as int)[k as int] != pat@[k as int]);
                assert(tail.take(pat@.len() as int) =~= tail);
            }
            return false;
        }
        k += 1;
    }
    proof {
        assert(pat@.take(pat@.len() as int) =~= pat@);
        assert(tail.take(pat@.len() as int) =~= tail);
    }
    true
}

fn drop_front(v: &Vec<char>, n: usize) -> (r: Vec<char>)
    requires
        n <= v@.len(),
    ensures
        r@ == v@.skip(n as int),
{
    let mut out: Vec<char> = Vec::new();
    let mut k: usize = n;
    while k < v.len()
        invariant
            n <= k <= v@.len(),
            out@ == v@.subrange(n as int, k as int),
        decreases v@.len() - k,
    {
        out.push(v[k]);
        proof {
            assert(v@.subrange(n as int, k as int).push(v@[k as int]) =~= v@.subrange(
                n as int,
                k as int + 1,
            ));
        }
        k += 1;
    }
    proof {
        assert(v@.subrange(n as int, v@.len() as int) =~= v@.skip(n as int));
    }
    out
}

/// Applies the repair pass to the raw payload text.
pub fn repair_payload(input: &str) -> (r: String)
    ensures
        r@ == spec_repair(input@),
{
    proof {
        reveal_strlit("```json");
        reveal_strlit("```");
        reveal_strlit("}");
        reveal_strlit("{");
    }
    let p_json = str_to_chars("```json");
    let p_fence = str_to_chars("```");
    let p_close = str_to_chars("}");
    let p_open = str_to_chars("{");
    let mut cur = str_to_chars(input);
    if has_prefix(&cur, &p_json) {
        cur = drop_front(&cur, 7);
    }
    if has_prefix(&cur, &p_fence) {
        cur = drop_front(&cur, 3);
    }
    if has_suffix(&cur, &p_fence) {
        let ghost before = cur@;
        let nl = cur.len() - 3;
        cur.truncate(nl);
        proof {
            assert(cur@ =~= before.take(before.len() - 3));
        }
    }
    if !has_suffix(&cur, &p_close) {
        let ghost before = cur@;
        cur.push('}');
        proof {
            assert(cur@ =~= before + "}"@);
        }
    }
    if !has_prefix(&cur, &p_open) {
        let ghost before = cur@;
        cur.insert(0, '{');
        proof {
            assert(cur@ =~= "{"@ + before);
        }
    }
    chars_to_string(&cur)
}

/// Repairs and parses a user-supplied embed payload: the parsed value, or
/// a malformed-payload error exactly when the repaired text is not JSON.
pub fn parse_embed_payload(input: &str) -> (r: Result<serde_json::Value, DiagError>)
    ensures
        r is Ok <==> json_accepts(spec_repair(input@)),
        !json_accepts(spec_repair(input@)) ==> r == Err::<serde_json::Value, DiagError>(
            DiagError::MalformedPayload,
        ),
{
    let repaired = repair_payload(input);
    match parse_json_value(repaired.as_str()) {
        Some(v) => Ok(v),
        None => Err(DiagError::MalformedPayload),
    }
}

} // verus!
