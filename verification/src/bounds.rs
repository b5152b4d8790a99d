//! Limits of one run, and how a caller may narrow them.

use crate::error::{invalid, invalid_fault, judged, Fault, OrchError};
use crate::json::Json;
use crate::text::{join2, str_eq};
use vstd::prelude::*;
use vstd::string::*;

verus! {

/// Limits of one run.
#[derive(Debug, Clone, Copy, PartialEq, Eq, Structural)]
pub struct RunBounds {
    pub max_prompt_bytes: usize,
    pub max_rounds: u32,
    pub max_duration_ms: u64,
    /// Token threshold of the whole run; `None` sets none.
    pub max_total_tokens: Option<u64>,
}

/// The limits of a run that nobody narrowed.
pub open spec fn default_bounds() -> RunBounds {
    RunBounds {
        max_prompt_bytes: 100_000,
        max_rounds: 24,
        max_duration_ms: 900_000,
        max_total_tokens: None,
    }
}

impl Default for RunBounds {
    fn default() -> (b: RunBounds)
        ensures
            b == default_bounds(),
    {
        RunBounds {
            max_prompt_bytes: 100_000,
            max_rounds: 24,
            max_duration_ms: 900_000,
            max_total_tokens: None,
        }
    }
}

/// What is wrong with fully resolved bounds: a limit of zero.
pub open spec fn bounds_fault(b: RunBounds) -> Option<Fault> {
    if b.max_prompt_bytes == 0 {
        Some(invalid_fault("max_prompt_bytes must be > 0"@))
    } else if b.max_rounds == 0 {
        Some(invalid_fault("max_rounds must be > 0"@))
    } else if b.max_duration_ms == 0 {
        Some(invalid_fault("max_duration_ms must be > 0"@))
    } else if b.max_total_tokens == Some(0u64) {
        Some(invalid_fault("max_total_tokens must be > 0"@))
    } else {
        None
    }
}

/// `a` allows nothing that `b` does not allow.
pub open spec fn within(a: RunBounds, b: RunBounds) -> bool {
    &&& a.max_prompt_bytes <= b.max_prompt_bytes
    &&& a.max_rounds <= b.max_rounds
    &&& a.max_duration_ms <= b.max_duration_ms
    &&& match b.max_total_tokens {
        Some(limit) => a.max_total_tokens is Some && a.max_total_tokens->0 <= limit,
        None => true,
    }
}

impl RunBounds {
    /// Refuses a limit of zero.
    pub fn validate(&self) -> (r: Result<(), OrchError>)
        ensures
            judged(r, bounds_fault(*self)),
    {
        if self.max_prompt_bytes == 0 {
            return Err(invalid("max_prompt_bytes must be > 0"));
        }
        if self.max_rounds == 0 {
            return Err(invalid("max_rounds must be > 0"));
        }
        if self.max_duration_ms == 0 {
            return Err(invalid("max_duration_ms must be > 0"));
        }
        match self.max_total_tokens {
            Some(n) => {
                if n == 0 {
                    return Err(invalid("max_total_tokens must be > 0"));
                }
            },
            None => {},
        }
        Ok(())
    }
}

/// The fields of a JSON object in the order `serde_json` keeps them, each with
/// its value where that is an unsigned integer, and `None` for a text that is
/// not an object: what `serde_json::from_str` and `Value::as_object` yield.
pub uninterp spec fn json_u64_fields(text: Seq<char>) -> Option<Seq<(Seq<char>, Option<u64>)>>;

/// A list of fields with their names as texts.
pub open spec fn named(v: Seq<(String, Option<u64>)>) -> Seq<(Seq<char>, Option<u64>)> {
    Seq::new(v.len(), |i: int| (v[i].0@, v[i].1))
}

/// The fields a caller sent, as texts.
pub open spec fn sent(v: Option<Vec<(String, Option<u64>)>>) -> Option<
    Seq<(Seq<char>, Option<u64>)>,
> {
    match v {
        Some(v) => Some(named(v@)),
        None => None,
    }
}

/// `serde_json::from_str`, `Value::as_object` and `Value::as_u64` on a document:
/// the names of its fields, each with its unsigned value if it has one.
#[verifier::external_body]
fn read_u64_fields(text: &str) -> (r: Option<Vec<(String, Option<u64>)>>)
    ensures
        sent(r) == json_u64_fields(text@),
{
    let value: serde_json::Value = serde_json::from_str(text).unwrap_or_default();
    value.as_object().map(|m| m.iter().map(|(k, v)| (k.clone(), v.as_u64())).collect())
}

/// The names a bounds object may hold.
pub open spec fn known_bound(key: Seq<char>) -> bool {
    ||| key == "maxPromptBytes"@
    ||| key == "max_prompt_bytes"@
    ||| key == "maxRounds"@
    ||| key == "max_rounds"@
    ||| key == "maxDurationMs"@
    ||| key == "max_duration_ms"@
    ||| key == "maxTotalTokens"@
    ||| key == "max_total_tokens"@
}

/// The first field whose name no bounds object has.
pub open spec fn unknown_bound(fields: Seq<(Seq<char>, Option<u64>)>) -> Option<Seq<char>>
    decreases fields.len(),
{
    if fields.len() == 0 {
        None
    } else if !known_bound(fields[0].0) {
        Some(fields[0].0)
    } else {
        unknown_bound(fields.drop_first())
    }
}

/// The value of the first field named `key`.
pub open spec fn bound_field(
    fields: Seq<(Seq<char>, Option<u64>)>,
    key: Seq<char>,
) -> Option<Option<u64>>
    decreases fields.len(),
{
    if fields.len() == 0 {
        None
    } else if fields[0].0 == key {
        Some(fields[0].1)
    } else {
        bound_field(fields.drop_first(), key)
    }
}

/// The number a field holds: positive, and at most `max`.
pub open spec fn positive(value: Option<u64>, key: Seq<char>, max: int, zero: Seq<char>) -> Result<
    u64,
    Fault,
> {
    match value {
        None => Err(invalid_fault(key + " must be a positive integer"@)),
        Some(n) => if n == 0 || n > max {
            Err(invalid_fault(key + zero))
        } else {
            Ok(n)
        },
    }
}

/// A limit given under either of two names, the first one going before.
pub open spec fn requested(
    fields: Seq<(Seq<char>, Option<u64>)>,
    camel: Seq<char>,
    snake: Seq<char>,
    max: int,
    zero: Seq<char>,
) -> Result<Option<u64>, Fault> {
    match bound_field(fields, camel) {
        Some(v) => match positive(v, camel, max, zero) {
            Ok(n) => Ok(Some(n)),
            Err(f) => Err(f),
        },
        None => match bound_field(fields, snake) {
            Some(v) => match positive(v, snake, max, zero) {
                Ok(n) => Ok(Some(n)),
                Err(f) => Err(f),
            },
            None => Ok(None),
        },
    }
}

pub open spec fn or_ceiling(n: Option<u64>, ceiling: int) -> int {
    match n {
        Some(n) => n as int,
        None => ceiling,
    }
}

/// The bounds that result when the four requested limits meet a ceiling.
pub open spec fn narrowed(
    ceiling: RunBounds,
    prompt: Option<u64>,
    rounds: Option<u64>,
    duration: Option<u64>,
    tokens: Option<u64>,
) -> Result<RunBounds, Fault> {
    if ceiling.max_total_tokens is Some && tokens is Some && tokens->0
        > ceiling.max_total_tokens->0 {
        Err(invalid_fault("max_total_tokens exceeds server ceiling"@))
    } else if or_ceiling(prompt, ceiling.max_prompt_bytes as int) > ceiling.max_prompt_bytes {
        Err(invalid_fault("max_prompt_bytes exceeds server ceiling"@))
    } else if or_ceiling(rounds, ceiling.max_rounds as int) > ceiling.max_rounds {
        Err(invalid_fault("max_rounds exceeds server ceiling"@))
    } else if or_ceiling(duration, ceiling.max_duration_ms as int) > ceiling.max_duration_ms {
        Err(invalid_fault("max_duration_ms exceeds server ceiling"@))
    } else {
        let b = RunBounds {
            max_prompt_bytes: or_ceiling(prompt, ceiling.max_prompt_bytes as int) as usize,
            max_rounds: or_ceiling(rounds, ceiling.max_rounds as int) as u32,
            max_duration_ms: or_ceiling(duration, ceiling.max_duration_ms as int) as u64,
            max_total_tokens: if tokens is Some {
                tokens
            } else {
                ceiling.max_total_tokens
            },
        };
        match bounds_fault(b) {
            Some(f) => Err(f),
            None => Ok(b),
        }
    }
}

/// The bounds of a caller's object under a ceiling, or the first fault of it.
pub open spec fn merged_fields(
    ceiling: RunBounds,
    fields: Option<Seq<(Seq<char>, Option<u64>)>>,
) -> Result<RunBounds, Fault> {
    match fields {
        None => Err(invalid_fault("bounds must be an object"@)),
        Some(f) => match unknown_bound(f) {
            Some(key) => Err(invalid_fault("unknown bounds field "@ + key)),
            None => {
                let range = " must be > 0 and within range"@;
                let prompt = requested(
                    f,
                    "maxPromptBytes"@,
                    "max_prompt_bytes"@,
                    usize::MAX as int,
                    range,
                );
                let rounds = requested(f, "maxRounds"@, "max_rounds"@, u32::MAX as int, range);
                let duration = requested(
                    f,
                    "maxDurationMs"@,
                    "max_duration_ms"@,
                    u64::MAX as int,
                    " must be > 0"@,
                );
                let tokens = requested(
                    f,
                    "maxTotalTokens"@,
                    "max_total_tokens"@,
                    u64::MAX as int,
                    " must be > 0"@,
                );
                if prompt is Err {
                    Err(prompt->Err_0)
                } else if rounds is Err {
                    Err(rounds->Err_0)
                } else if duration is Err {
                    Err(duration->Err_0)
                } else if tokens is Err {
                    Err(tokens->Err_0)
                } else {
                    narrowed(ceiling, prompt->Ok_0, rounds->Ok_0, duration->Ok_0, tokens->Ok_0)
                }
            },
        },
    }
}

/// The bounds of a run: the ceiling where the caller sent none.
pub open spec fn merged(ceiling: RunBounds, caller: Option<Seq<char>>) -> Result<RunBounds, Fault> {
    match caller {
        None => match bounds_fault(ceiling) {
            Some(f) => Err(f),
            None => Ok(ceiling),
        },
        Some(text) => merged_fields(ceiling, json_u64_fields(text)),
    }
}

/// The exact answer of a computation that may be refused.
pub open spec fn answers(r: Result<RunBounds, OrchError>, s: Result<RunBounds, Fault>) -> bool {
    match s {
        Ok(b) => r == Ok::<RunBounds, OrchError>(b),
        Err(f) => r is Err && r->Err_0.is(f),
    }
}

fn known_key(key: &str) -> (r: bool)
    ensures
        r == known_bound(key@),
{
    str_eq(key, "maxPromptBytes") || str_eq(key, "max_prompt_bytes") || str_eq(key, "maxRounds")
        || str_eq(key, "max_rounds") || str_eq(key, "maxDurationMs") || str_eq(
        key,
        "max_duration_ms",
    ) || str_eq(key, "maxTotalTokens") || str_eq(key, "max_total_tokens")
}

fn find_unknown(fields: &Vec<(String, Option<u64>)>) -> (r: Option<usize>)
    ensures
        match r {
            Some(i) => i < fields@.len() && unknown_bound(named(fields@)) == Some(
                fields@[i as int].0@,
            ),
            None => unknown_bound(named(fields@)) is None,
        },
{
    let mut i: usize = 0;
    proof {
        assert(named(fields@).skip(0) =~= named(fields@));
    }
    while i < fields.len()
        invariant
            i <= fields@.len(),
            unknown_bound(named(fields@)) == unknown_bound(named(fields@).skip(i as int)),
        decreases fields.len() - i,
    {
        if !known_key(fields[i].0.as_str()) {
            return Some(i);
        }
        proof {
            assert(named(fields@).skip(i as int).drop_first() =~= named(fields@).skip(
                i as int + 1,
            ));
        }
        i = i + 1;
    }
    None
}

fn find_field(fields: &Vec<(String, Option<u64>)>, key: &str) -> (r: Option<Option<u64>>)
    ensures
        r == bound_field(named(fields@), key@),
{
    let mut i: usize = 0;
    proof {
        assert(named(fields@).skip(0) =~= named(fields@));
    }
    while i < fields.len()
        invariant
            i <= fields@.len(),
            bound_field(named(fields@), key@) == bound_field(named(fields@).skip(i as int), key@),
        decreases fields.len() - i,
    {
        if str_eq(fields[i].0.as_str(), key) {
            return Some(fields[i].1);
        }
        proof {
            assert(named(fields@).skip(i as int).drop_first() =~= named(fields@).skip(
                i as int + 1,
            ));
        }
        i = i + 1;
    }
    None
}

fn positive_number(value: Option<u64>, key: &str, max: u64, zero: &str) -> (r: Result<
    u64,
    OrchError,
>)
    ensures
        match positive(value, key@, max as int, zero@) {
            Ok(n) => r == Ok::<u64, OrchError>(n),
            Err(f) => r is Err && r->Err_0.is(f),
        },
{
    match value {
        None => Err(invalid(join2(key, " must be a positive integer").as_str())),
        Some(n) => {
            if n == 0 || n > max {
                Err(invalid(join2(key, zero).as_str()))
            } else {
                Ok(n)
            }
        },
    }
}

fn read_bound(
    fields: &Vec<(String, Option<u64>)>,
    camel: &str,
    snake: &str,
    max: u64,
    zero: &str,
) -> (r: Result<Option<u64>, OrchError>)
    ensures
        match requested(named(fields@), camel@, snake@, max as int, zero@) {
            Ok(n) => r == Ok::<Option<u64>, OrchError>(n),
            Err(f) => r is Err && r->Err_0.is(f),
        },
{
    match find_field(fields, camel) {
        Some(v) => {
            let n: u64 = positive_number(v, camel, max, zero)?;
            Ok(Some(n))
        },
        None => match find_field(fields, snake) {
            Some(v) => {
                let n: u64 = positive_number(v, snake, max, zero)?;
                Ok(Some(n))
            },
            None => Ok(None),
        },
    }
}

/// Bounds from the fields of a caller's object; `None` stands for a document
/// that is not an object. A caller may only narrow the ceiling.
pub fn merge_bound_fields(
    ceiling: &RunBounds,
    caller: &Option<Vec<(String, Option<u64>)>>,
) -> (r: Result<RunBounds, OrchError>)
    ensures
        answers(r, merged_fields(*ceiling, sent(*caller))),
{
    let fields: &Vec<(String, Option<u64>)> = match caller {
        None => {
            return Err(invalid("bounds must be an object"));
        },
        Some(fields) => fields,
    };
    match find_unknown(fields) {
        Some(i) => {
            return Err(invalid(join2("unknown bounds field ", fields[i].0.as_str()).as_str()));
        },
        None => {},
    }
    let range: &str = " must be > 0 and within range";
    let prompt: Option<u64> = read_bound(
        fields,
        "maxPromptBytes",
        "max_prompt_bytes",
        usize::MAX as u64,
        range,
    )?;
    let rounds: Option<u64> = read_bound(
        fields,
        "maxRounds",
        "max_rounds",
        u32::MAX as u64,
        range,
    )?;
    let duration: Option<u64> = read_bound(
        fields,
        "maxDurationMs",
        "max_duration_ms",
        u64::MAX,
        " must be > 0",
    )?;
    let tokens: Option<u64> = read_bound(
        fields,
        "maxTotalTokens",
        "max_total_tokens",
        u64::MAX,
        " must be > 0",
    )?;
    let max_total_tokens: Option<u64> = match (ceiling.max_total_tokens, tokens) {
        (Some(limit), Some(n)) => {
            if n > limit {
                return Err(invalid("max_total_tokens exceeds server ceiling"));
            }
            Some(n)
        },
        (Some(limit), None) => Some(limit),
        (None, n) => n,
    };
    let max_prompt_bytes: u64 = prompt.unwrap_or(ceiling.max_prompt_bytes as u64);
    let max_rounds: u64 = rounds.unwrap_or(ceiling.max_rounds as u64);
    let max_duration_ms: u64 = duration.unwrap_or(ceiling.max_duration_ms);
    if max_prompt_bytes > ceiling.max_prompt_bytes as u64 {
        return Err(invalid("max_prompt_bytes exceeds server ceiling"));
    }
    if max_rounds > ceiling.max_rounds as u64 {
        return Err(invalid("max_rounds exceeds server ceiling"));
    }
    if max_duration_ms > ceiling.max_duration_ms {
        return Err(invalid("max_duration_ms exceeds server ceiling"));
    }
    let result = RunBounds {
        max_prompt_bytes: max_prompt_bytes as usize,
        max_rounds: max_rounds as u32,
        max_duration_ms,
        max_total_tokens,
    };
    result.validate()?;
    Ok(result)
}

/// Bounds of a run from what a caller sent. Missing limits come from the
/// ceiling; a caller may only narrow it.
pub fn merge_bounds(ceiling: &RunBounds, caller: Option<&Json>) -> (r: Result<
    RunBounds,
    OrchError,
>)
    ensures
        answers(
            r,
            merged(
                *ceiling,
                match caller {
                    Some(j) => Some(j@),
                    None => None,
                },
            ),
        ),
{
    match caller {
        None => {
            ceiling.validate()?;
            Ok(*ceiling)
        },
        Some(j) => {
            let fields: Option<Vec<(String, Option<u64>)>> = read_u64_fields(j.text.as_str());
            merge_bound_fields(ceiling, &fields)
        },
    }
}

/// Whatever a caller sends, bounds that come out allow no more than the
/// ceiling, and none of their limits is zero.
pub proof fn merging_only_narrows(ceiling: RunBounds, caller: Option<Seq<char>>)
    ensures
        merged(ceiling, caller) matches Ok(b) ==> within(b, ceiling) && bounds_fault(b) is None,
{
}

/// A caller that names no limit gets the ceiling.
pub proof fn merging_nothing_is_the_ceiling(ceiling: RunBounds)
    requires
        bounds_fault(ceiling) is None,
    ensures
        merged(ceiling, None) == Ok::<RunBounds, Fault>(ceiling),
        merged_fields(ceiling, Some(Seq::<(Seq<char>, Option<u64>)>::empty())) == Ok::<
            RunBounds,
            Fault,
        >(ceiling),
{
}

/// The field at `i` is the first of this name.
pub open spec fn first_named(fields: Seq<(Seq<char>, Option<u64>)>, key: Seq<char>, i: int) -> bool {
    &&& 0 <= i < fields.len()
    &&& fields[i].0 == key
    &&& forall|j: int| 0 <= j < i ==> (#[trigger] fields[j]).0 != key
}

/// No field has this name.
pub open spec fn unnamed(fields: Seq<(Seq<char>, Option<u64>)>, key: Seq<char>) -> bool {
    forall|j: int| 0 <= j < fields.len() ==> (#[trigger] fields[j]).0 != key
}

/// The caller gives `v` under the first name, or under the second where the
/// first does not occur.
pub open spec fn asks_for(
    fields: Seq<(Seq<char>, Option<u64>)>,
    first: Seq<char>,
    second: Seq<char>,
    v: Option<u64>,
) -> bool {
    ||| exists|i: int| #[trigger] first_named(fields, first, i) && fields[i].1 == v
    ||| unnamed(fields, first) && exists|i: int| #[trigger]
        first_named(fields, second, i) && fields[i].1 == v
}

proof fn fields_are_found(fields: Seq<(Seq<char>, Option<u64>)>, key: Seq<char>)
    ensures
        bound_field(fields, key) is None <==> unnamed(fields, key),
        forall|i: int| #[trigger]
            first_named(fields, key, i) ==> bound_field(fields, key) == Some(fields[i].1),
    decreases fields.len(),
{
    if fields.len() > 0 {
        let rest = fields.drop_first();
        fields_are_found(rest, key);
        if fields[0].0 != key {
            if unnamed(rest, key) {
                assert forall|j: int| 0 <= j < fields.len() implies (#[trigger] fields[j]).0
                    != key by {
                    if j > 0 {
                        assert(rest[j - 1] == fields[j]);
                    }
                }
            }
            if unnamed(fields, key) {
                assert forall|j: int| 0 <= j < rest.len() implies (#[trigger] rest[j]).0
                    != key by {
                    assert(fields[j + 1] == rest[j]);
                }
            }
            assert forall|i: int| #[trigger] first_named(fields, key, i) implies bound_field(
                fields,
                key,
            ) == Some(fields[i].1) by {
                assert forall|j: int| 0 <= j < i - 1 implies (#[trigger] rest[j]).0 != key by {
                    assert(fields[j + 1] == rest[j]);
                }
                assert(first_named(rest, key, i - 1));
            }
        } else {
            assert forall|i: int| #[trigger] first_named(fields, key, i) implies i == 0 by {
                if i > 0 {
                    assert(fields[0].0 != key);
                }
            }
        }
    }
}

proof fn unknown_fields_are_told(fields: Seq<(Seq<char>, Option<u64>)>)
    ensures
        unknown_bound(fields) is None <==> forall|i: int|
            0 <= i < fields.len() ==> known_bound((#[trigger] fields[i]).0),
    decreases fields.len(),
{
    if fields.len() > 0 {
        let rest = fields.drop_first();
        unknown_fields_are_told(rest);
        if known_bound(fields[0].0) {
            if forall|i: int| 0 <= i < rest.len() ==> known_bound((#[trigger] rest[i]).0) {
                assert forall|i: int| 0 <= i < fields.len() implies known_bound(
                    (#[trigger] fields[i]).0,
                ) by {
                    if i > 0 {
                        assert(rest[i - 1] == fields[i]);
                    }
                }
            }
            if forall|i: int| 0 <= i < fields.len() ==> known_bound((#[trigger] fields[i]).0) {
                assert forall|i: int| 0 <= i < rest.len() implies known_bound(
                    (#[trigger] rest[i]).0,
                ) by {
                    assert(fields[i + 1] == rest[i]);
                }
            }
        }
    }
}

/// A limit that a caller names is the limit of the run: a number above zero and
/// no more than the ceiling. One it does not name is the ceiling's.
pub proof fn named_limits_hold(
    ceiling: RunBounds,
    fields: Seq<(Seq<char>, Option<u64>)>,
    r: Result<RunBounds, OrchError>,
)
    requires
        answers(r, merged_fields(ceiling, Some(fields))),
    ensures
        r matches Ok(b) ==> {
            &&& forall|v: Option<u64>| #[trigger]
                asks_for(fields, "maxPromptBytes"@, "max_prompt_bytes"@, v) ==> v is Some && 0
                    < v->0 <= ceiling.max_prompt_bytes && b.max_prompt_bytes == v->0
            &&& forall|v: Option<u64>| #[trigger]
                asks_for(fields, "maxRounds"@, "max_rounds"@, v) ==> v is Some && 0 < v->0
                    <= ceiling.max_rounds && b.max_rounds == v->0
            &&& forall|v: Option<u64>| #[trigger]
                asks_for(fields, "maxDurationMs"@, "max_duration_ms"@, v) ==> v is Some && 0 < v->0
                    <= ceiling.max_duration_ms && b.max_duration_ms == v->0
            &&& forall|v: Option<u64>| #[trigger]
                asks_for(fields, "maxTotalTokens"@, "max_total_tokens"@, v) ==> v is Some && 0
                    < v->0 && (ceiling.max_total_tokens is Some ==> v->0
                    <= ceiling.max_total_tokens->0) && b.max_total_tokens == v
            &&& unnamed(fields, "maxPromptBytes"@) && unnamed(fields, "max_prompt_bytes"@)
                ==> b.max_prompt_bytes == ceiling.max_prompt_bytes
            &&& unnamed(fields, "maxRounds"@) && unnamed(fields, "max_rounds"@) ==> b.max_rounds
                == ceiling.max_rounds
            &&& unnamed(fields, "maxDurationMs"@) && unnamed(fields, "max_duration_ms"@)
                ==> b.max_duration_ms == ceiling.max_duration_ms
            &&& unnamed(fields, "maxTotalTokens"@) && unnamed(fields, "max_total_tokens"@)
                ==> b.max_total_tokens == ceiling.max_total_tokens
        },
{
    fields_are_found(fields, "maxPromptBytes"@);
    fields_are_found(fields, "max_prompt_bytes"@);
    fields_are_found(fields, "maxRounds"@);
    fields_are_found(fields, "max_rounds"@);
    fields_are_found(fields, "maxDurationMs"@);
    fields_are_found(fields, "max_duration_ms"@);
    fields_are_found(fields, "maxTotalTokens"@);
    fields_are_found(fields, "max_total_tokens"@);
}

/// The caller names this limit well: not at all, or as a number above zero that
/// is no more than `most`.
pub open spec fn asks_within(
    fields: Seq<(Seq<char>, Option<u64>)>,
    first: Seq<char>,
    second: Seq<char>,
    most: int,
) -> bool {
    ||| unnamed(fields, first) && unnamed(fields, second)
    ||| exists|n: u64| 0 < n <= most && #[trigger] asks_for(fields, first, second, Some(n))
}

/// Bounds that name only the four limits, each within a sound ceiling, are
/// accepted; a field of another name is refused.
pub proof fn sound_bounds_are_accepted(
    ceiling: RunBounds,
    fields: Seq<(Seq<char>, Option<u64>)>,
    r: Result<RunBounds, OrchError>,
)
    requires
        answers(r, merged_fields(ceiling, Some(fields))),
    ensures
        (exists|i: int|
            0 <= i < fields.len() && (#[trigger] fields[i]).0 != "maxPromptBytes"@ && fields[i].0
                != "max_prompt_bytes"@ && fields[i].0 != "maxRounds"@ && fields[i].0
                != "max_rounds"@ && fields[i].0 != "maxDurationMs"@ && fields[i].0
                != "max_duration_ms"@ && fields[i].0 != "maxTotalTokens"@ && fields[i].0
                != "max_total_tokens"@) ==> r is Err,
        (forall|i: int|
            0 <= i < fields.len() ==> {
                ||| (#[trigger] fields[i]).0 == "maxPromptBytes"@
                ||| fields[i].0 == "max_prompt_bytes"@
                ||| fields[i].0 == "maxRounds"@
                ||| fields[i].0 == "max_rounds"@
                ||| fields[i].0 == "maxDurationMs"@
                ||| fields[i].0 == "max_duration_ms"@
                ||| fields[i].0 == "maxTotalTokens"@
                ||| fields[i].0 == "max_total_tokens"@
            }) && ceiling.max_prompt_bytes > 0 && ceiling.max_rounds > 0
            && ceiling.max_duration_ms > 0 && (ceiling.max_total_tokens is Some
            ==> ceiling.max_total_tokens->0 > 0) && asks_within(
            fields,
            "maxPromptBytes"@,
            "max_prompt_bytes"@,
            ceiling.max_prompt_bytes as int,
        ) && asks_within(fields, "maxRounds"@, "max_rounds"@, ceiling.max_rounds as int)
            && asks_within(
            fields,
            "maxDurationMs"@,
            "max_duration_ms"@,
            ceiling.max_duration_ms as int,
        ) && asks_within(
            fields,
            "maxTotalTokens"@,
            "max_total_tokens"@,
            if ceiling.max_total_tokens is Some {
                ceiling.max_total_tokens->0 as int
            } else {
                u64::MAX as int
            },
        ) ==> r is Ok,
{
    unknown_fields_are_told(fields);
    fields_are_found(fields, "maxPromptBytes"@);
    fields_are_found(fields, "max_prompt_bytes"@);
    fields_are_found(fields, "maxRounds"@);
    fields_are_found(fields, "max_rounds"@);
    fields_are_found(fields, "maxDurationMs"@);
    fields_are_found(fields, "max_duration_ms"@);
    fields_are_found(fields, "maxTotalTokens"@);
    fields_are_found(fields, "max_total_tokens"@);
}

} // verus!
