//! The argument codec: textual call arguments are marshalled against the
//! resolved function's parameter kinds, one token per parameter, and typed
//! results are turned back into printable lines. Float values travel as raw
//! bit patterns: the caller parses float text to bits before encoding and
//! reinterprets bits when printing, since float arithmetic cannot stand
//! here; everything around those bits is pinned exactly.

use crate::numeric::{dec_digits, i32_token, i64_token, int_display};
use vstd::prelude::*;

verus! {

/// The kinds a call signature is made of.
#[derive(Clone, Copy, PartialEq, Eq, Structural, Debug)]
pub enum ValKind {
    I32,
    I64,
    F32,
    F64,
    ExternRef,
    FuncRef,
    V128,
}

/// One concrete call value. The two float kinds carry their raw bit
/// pattern, which is how the result channel hands them over.
#[derive(Clone, Copy, PartialEq, Eq, Structural, Debug)]
pub enum TypedValue {
    I32(i32),
    I64(i64),
    F32Bits(u32),
    F64Bits(u64),
    ExternRef,
    FuncRef,
    V128(u128),
}

/// Why encoding a call failed. A parse failure names the offending token
/// and the kind it was read for; an unsupported kind is named as such.
#[derive(Debug)]
pub enum CodecError {
    Arity,
    Parse { token: String, kind: ValKind },
    Unsupported { kind: ValKind },
}

/// The spec-level shape of a codec failure.
pub enum CodecFailure {
    Arity,
    Parse { token: Seq<char>, kind: ValKind },
    Unsupported { kind: ValKind },
}

impl View for CodecError {
    type V = CodecFailure;

    open spec fn view(&self) -> CodecFailure {
        match self {
            CodecError::Arity => CodecFailure::Arity,
            CodecError::Parse { token, kind } => CodecFailure::Parse {
                token: token@,
                kind: *kind,
            },
            CodecError::Unsupported { kind } => CodecFailure::Unsupported { kind: *kind },
        }
    }
}

pub open spec fn views_of(ts: Seq<String>) -> Seq<Seq<char>> {
    ts.map_values(|t: String| t@)
}

/// What encoding one parameter of kind `k` from token `tok` yields. The two
/// float kinds consume the caller-supplied bit-pattern parse of the same
/// token; a reference or vector kind has no textual form and is refused.
pub open spec fn encode_one(
    k: ValKind,
    tok: Seq<char>,
    f32_bits: Option<u32>,
    f64_bits: Option<u64>,
) -> Result<TypedValue, CodecFailure> {
    match k {
        ValKind::I32 => match i32_token(tok) {
            Some(v) => Ok(TypedValue::I32(v)),
            None => Err(CodecFailure::Parse { token: tok, kind: ValKind::I32 }),
        },
        ValKind::I64 => match i64_token(tok) {
            Some(v) => Ok(TypedValue::I64(v)),
            None => Err(CodecFailure::Parse { token: tok, kind: ValKind::I64 }),
        },
        ValKind::F32 => match f32_bits {
            Some(b) => Ok(TypedValue::F32Bits(b)),
            None => Err(CodecFailure::Parse { token: tok, kind: ValKind::F32 }),
        },
        ValKind::F64 => match f64_bits {
            Some(b) => Ok(TypedValue::F64Bits(b)),
            None => Err(CodecFailure::Parse { token: tok, kind: ValKind::F64 }),
        },
        ValKind::ExternRef => Err(CodecFailure::Unsupported { kind: ValKind::ExternRef }),
        ValKind::FuncRef => Err(CodecFailure::Unsupported { kind: ValKind::FuncRef }),
        ValKind::V128 => Err(CodecFailure::Unsupported { kind: ValKind::V128 }),
    }
}

/// Encoding from parameter position `i` on: parameters and tokens walk in
/// lockstep, the first failure wins, and tokens beyond the last parameter
/// are ignored. Running out of tokens before parameters is the arity
/// failure.
pub open spec fn encode_from(
    params: Seq<ValKind>,
    tokens: Seq<Seq<char>>,
    f32s: Seq<Option<u32>>,
    f64s: Seq<Option<u64>>,
    i: int,
) -> Result<Seq<TypedValue>, CodecFailure>
    decreases params.len() - i,
{
    if i < 0 || i >= params.len() {
        Ok(Seq::empty())
    } else if i >= tokens.len() {
        Err(CodecFailure::Arity)
    } else {
        match encode_one(params[i], tokens[i], f32s[i], f64s[i]) {
            Err(e) => Err(e),
            Ok(v) => match encode_from(params, tokens, f32s, f64s, i + 1) {
                Err(e) => Err(e),
                Ok(rest) => Ok(seq![v] + rest),
            },
        }
    }
}

/// The whole encoding of a call's arguments.
pub open spec fn encode_spec(
    params: Seq<ValKind>,
    tokens: Seq<Seq<char>>,
    f32s: Seq<Option<u32>>,
    f64s: Seq<Option<u64>>,
) -> Result<Seq<TypedValue>, CodecFailure> {
    encode_from(params, tokens, f32s, f64s, 0)
}

/// Encode the textual arguments against the parameter kinds, one token per
/// parameter in order. `f32_parses[i]` and `f64_parses[i]` must be the raw
/// bit patterns of `tokens[i]` read as the respective float type, or `None`
/// where that text does not parse; the caller computes them, and they are
/// consumed only at a float parameter position.
pub fn encode(
    params: &Vec<ValKind>,
    tokens: &Vec<String>,
    f32_parses: &Vec<Option<u32>>,
    f64_parses: &Vec<Option<u64>>,
) -> (r: Result<Vec<TypedValue>, CodecError>)
    requires
        f32_parses@.len() == tokens@.len(),
        f64_parses@.len() == tokens@.len(),
    ensures
        match r {
            Ok(vs) => encode_spec(params@, views_of(tokens@), f32_parses@, f64_parses@) == Ok::<
                Seq<TypedValue>,
                CodecFailure,
            >(vs@),
            Err(e) => encode_spec(params@, views_of(tokens@), f32_parses@, f64_parses@) == Err::<
                Seq<TypedValue>,
                CodecFailure,
            >(e@),
        },
{
    let ghost toks = views_of(tokens@);
    let n = params.len();
    let mut values: Vec<TypedValue> = Vec::new();
    let mut i: usize = 0;
    while i < n
        invariant
            i <= n,
            n == params@.len(),
            f32_parses@.len() == tokens@.len(),
            f64_parses@.len() == tokens@.len(),
            toks == views_of(tokens@),
            values@.len() == i,
            encode_from(params@, toks, f32_parses@, f64_parses@, 0) == (match encode_from(
                params@,
                toks,
                f32_parses@,
                f64_parses@,
                i as int,
            ) {
                Ok(rest) => Ok::<Seq<TypedValue>, CodecFailure>(values@ + rest),
                Err(e) => Err::<Seq<TypedValue>, CodecFailure>(e),
            }),
        decreases n - i,
    {
        if i >= tokens.len() {
            return Err(CodecError::Arity);
        }
        assert(toks[i as int] == tokens@[i as int]@);
        let step: Result<TypedValue, CodecError> = match params[i] {
            ValKind::I32 => match crate::numeric::parse_i32(tokens[i].as_str()) {
                Some(v) => Ok(TypedValue::I32(v)),
                None => Err(
                    CodecError::Parse { token: tokens[i].clone(), kind: ValKind::I32 },
                ),
            },
            ValKind::I64 => match crate::numeric::parse_i64(tokens[i].as_str()) {
                Some(v) => Ok(TypedValue::I64(v)),
                None => Err(
                    CodecError::Parse { token: tokens[i].clone(), kind: ValKind::I64 },
                ),
            },
            ValKind::F32 => match f32_parses[i] {
                Some(b) => Ok(TypedValue::F32Bits(b)),
                None => Err(
                    CodecError::Parse { token: tokens[i].clone(), kind: ValKind::F32 },
                ),
            },
            ValKind::F64 => match f64_parses[i] {
                Some(b) => Ok(TypedValue::F64Bits(b)),
                None => Err(
                    CodecError::Parse { token: tokens[i].clone(), kind: ValKind::F64 },
                ),
            },
            ValKind::ExternRef => Err(CodecError::Unsupported { kind: ValKind::ExternRef }),
            ValKind::FuncRef => Err(CodecError::Unsupported { kind: ValKind::FuncRef }),
            ValKind::V128 => Err(CodecError::Unsupported { kind: ValKind::V128 }),
        };
        match step {
            Err(e) => {
                assert(encode_one(params@[i as int], toks[i as int], f32_parses@[i as int],
                    f64_parses@[i as int]) == Err::<TypedValue, CodecFailure>(e@));
                return Err(e);
            },
            Ok(v) => {
                assert(encode_one(params@[i as int], toks[i as int], f32_parses@[i as int],
                    f64_parses@[i as int]) == Ok::<TypedValue, CodecFailure>(v));
                let ghost old_values = values@;
                values.push(v);
                proof {
                    assert(values@ =~= old_values + seq![v]);
                    if encode_from(params@, toks, f32_parses@, f64_parses@, i + 1) is Ok {
                        let rest = encode_from(params@, toks, f32_parses@, f64_parses@, i + 1)
                            ->Ok_0;
                        assert(old_values + (seq![v] + rest) =~= values@ + rest);
                    }
                }
            },
        }
        i += 1;
    }
    assert(encode_from(params@, toks, f32_parses@, f64_parses@, i as int) == Ok::<
        Seq<TypedValue>,
        CodecFailure,
    >(Seq::<TypedValue>::empty()));
    assert(values@ + Seq::<TypedValue>::empty() =~= values@);
    Ok(values)
}

/// One printable line of a call's results. An integer or reference result
/// is already text; a float result is handed back as the raw bit pattern
/// it arrived as, for the caller to reinterpret as a float value before
/// printing — the bits themselves are never to be printed.
pub enum DisplayLine {
    Text(String),
    F32FromBits(u32),
    F64FromBits(u64),
}

/// How one result value must be shown: integers in decimal, the vector
/// kind as its raw integer representation, the two reference kinds as
/// fixed placeholder tokens, and floats as bits to reinterpret.
pub open spec fn renders(v: TypedValue, d: DisplayLine) -> bool {
    match v {
        TypedValue::I32(n) => d matches DisplayLine::Text(s) && s@ == int_display(n as int),
        TypedValue::I64(n) => d matches DisplayLine::Text(s) && s@ == int_display(n as int),
        TypedValue::F32Bits(b) => d == DisplayLine::F32FromBits(b),
        TypedValue::F64Bits(b) => d == DisplayLine::F64FromBits(b),
        TypedValue::ExternRef => d matches DisplayLine::Text(s) && s@ == "<externref>"@,
        TypedValue::FuncRef => d matches DisplayLine::Text(s) && s@ == "<funcref>"@,
        TypedValue::V128(x) => d matches DisplayLine::Text(s) && s@ == dec_digits(x as nat),
    }
}

/// Decode one result value into its printable line.
pub fn decode_value(v: &TypedValue) -> (d: DisplayLine)
    ensures
        renders(*v, d),
{
    match v {
        TypedValue::I32(n) => DisplayLine::Text(crate::numeric::format_i32(*n)),
        TypedValue::I64(n) => DisplayLine::Text(crate::numeric::format_i64(*n)),
        TypedValue::F32Bits(b) => DisplayLine::F32FromBits(*b),
        TypedValue::F64Bits(b) => DisplayLine::F64FromBits(*b),
        TypedValue::ExternRef => DisplayLine::Text(String::from_str("<externref>")),
        TypedValue::FuncRef => DisplayLine::Text(String::from_str("<funcref>")),
        TypedValue::V128(x) => DisplayLine::Text(crate::numeric::format_u128(*x)),
    }
}

/// Decode a call's results, one line per value, in declared order.
pub fn decode(results: &Vec<TypedValue>) -> (lines: Vec<DisplayLine>)
    ensures
        lines@.len() == results@.len(),
        forall|i: int| 0 <= i < results@.len() ==> renders(results@[i], #[trigger] lines@[i]),
{
    let mut lines: Vec<DisplayLine> = Vec::new();
    let mut i: usize = 0;
    let n = results.len();
    while i < n
        invariant
            i <= n,
            n == results@.len(),
            lines@.len() == i,
            forall|j: int| 0 <= j < i ==> renders(results@[j], #[trigger] lines@[j]),
        decreases n - i,
    {
        lines.push(decode_value(&results[i]));
        i += 1;
    }
    lines
}

proof fn lemma_ok_from(
    params: Seq<ValKind>,
    tokens: Seq<Seq<char>>,
    f32s: Seq<Option<u32>>,
    f64s: Seq<Option<u64>>,
    i: int,
)
    requires
        0 <= i,
        encode_from(params, tokens, f32s, f64s, i) is Ok,
    ensures
        i < params.len() ==> tokens.len() >= params.len(),
        forall|j: int| i <= j < params.len() ==> encode_one(
            params[j],
            tokens[j],
            f32s[j],
            f64s[j],
        ) is Ok,
    decreases params.len() - i,
{
    if i < params.len() {
        lemma_ok_from(params, tokens, f32s, f64s, i + 1);
    }
}

/// Law: a successful encoding consumed one well-formed token per parameter:
/// there were at least as many tokens as parameters, and every parameter
/// position encoded on its own. So a call with fewer tokens than
/// parameters, or with a token that does not parse at a numeric position,
/// never reaches the guest.
pub proof fn lemma_success_is_per_token(
    params: Seq<ValKind>,
    tokens: Seq<Seq<char>>,
    f32s: Seq<Option<u32>>,
    f64s: Seq<Option<u64>>,
)
    requires
        encode_spec(params, tokens, f32s, f64s) is Ok,
    ensures
        params.len() > 0 ==> tokens.len() >= params.len(),
        forall|j: int| 0 <= j < params.len() ==> encode_one(
            params[j],
            tokens[j],
            f32s[j],
            f64s[j],
        ) is Ok,
{
    lemma_ok_from(params, tokens, f32s, f64s, 0);
}

proof fn lemma_arity_from(
    params: Seq<ValKind>,
    tokens: Seq<Seq<char>>,
    f32s: Seq<Option<u32>>,
    f64s: Seq<Option<u64>>,
    i: int,
)
    requires
        0 <= i <= tokens.len(),
        tokens.len() < params.len(),
        forall|j: int| i <= j < tokens.len() ==> encode_one(
            params[j],
            tokens[j],
            f32s[j],
            f64s[j],
        ) is Ok,
    ensures
        encode_from(params, tokens, f32s, f64s, i) == Err::<Seq<TypedValue>, CodecFailure>(
            CodecFailure::Arity,
        ),
    decreases params.len() - i,
{
    if i < tokens.len() {
        lemma_arity_from(params, tokens, f32s, f64s, i + 1);
    }
}

/// Law: with fewer tokens than parameters, every token that is present
/// well formed, encoding fails with exactly the arity error — no default
/// is filled in, and the guest function is never invoked.
pub proof fn lemma_too_few_tokens_is_arity(
    params: Seq<ValKind>,
    tokens: Seq<Seq<char>>,
    f32s: Seq<Option<u32>>,
    f64s: Seq<Option<u64>>,
)
    requires
        tokens.len() < params.len(),
        forall|j: int| 0 <= j < tokens.len() ==> encode_one(
            params[j],
            tokens[j],
            f32s[j],
            f64s[j],
        ) is Ok,
    ensures
        encode_spec(params, tokens, f32s, f64s) == Err::<Seq<TypedValue>, CodecFailure>(
            CodecFailure::Arity,
        ),
{
    lemma_arity_from(params, tokens, f32s, f64s, 0);
}

proof fn lemma_prefix_only_from(
    params: Seq<ValKind>,
    tokens1: Seq<Seq<char>>,
    f32s1: Seq<Option<u32>>,
    f64s1: Seq<Option<u64>>,
    tokens2: Seq<Seq<char>>,
    f32s2: Seq<Option<u32>>,
    f64s2: Seq<Option<u64>>,
    i: int,
)
    requires
        0 <= i,
        tokens1.len() >= params.len(),
        tokens2.len() >= params.len(),
        forall|j: int| 0 <= j < params.len() ==> #[trigger] tokens1[j] == tokens2[j],
        forall|j: int| 0 <= j < params.len() ==> #[trigger] f32s1[j] == f32s2[j],
        forall|j: int| 0 <= j < params.len() ==> #[trigger] f64s1[j] == f64s2[j],
    ensures
        encode_from(params, tokens1, f32s1, f64s1, i) == encode_from(
            params,
            tokens2,
            f32s2,
            f64s2,
            i,
        ),
    decreases params.len() - i,
{
    if i < params.len() {
        lemma_prefix_only_from(params, tokens1, f32s1, f64s1, tokens2, f32s2, f64s2, i + 1);
    }
}

/// Law: tokens beyond the last parameter are silently ignored, not an
/// error: two token sequences that agree on the first parameter-count
/// positions encode identically, whatever trails behind.
pub proof fn lemma_trailing_tokens_ignored(
    params: Seq<ValKind>,
    tokens1: Seq<Seq<char>>,
    f32s1: Seq<Option<u32>>,
    f64s1: Seq<Option<u64>>,
    tokens2: Seq<Seq<char>>,
    f32s2: Seq<Option<u32>>,
    f64s2: Seq<Option<u64>>,
)
    requires
        tokens1.len() >= params.len(),
        tokens2.len() >= params.len(),
        forall|j: int| 0 <= j < params.len() ==> #[trigger] tokens1[j] == tokens2[j],
        forall|j: int| 0 <= j < params.len() ==> #[trigger] f32s1[j] == f32s2[j],
        forall|j: int| 0 <= j < params.len() ==> #[trigger] f64s1[j] == f64s2[j],
    ensures
        encode_spec(params, tokens1, f32s1, f64s1) == encode_spec(params, tokens2, f32s2, f64s2),
{
    lemma_prefix_only_from(params, tokens1, f32s1, f64s1, tokens2, f32s2, f64s2, 0);
}

/// Parameter `k` holds the integer value `v`, and `tok` is exactly its
/// printed decimal form — the shape a decoded result line has.
pub open spec fn integer_printed(k: ValKind, v: TypedValue, tok: Seq<char>) -> bool {
    match k {
        ValKind::I32 => v matches TypedValue::I32(n) && tok == int_display(n as int),
        ValKind::I64 => v matches TypedValue::I64(n) && tok == int_display(n as int),
        _ => false,
    }
}

proof fn lemma_round_trip_from(
    params: Seq<ValKind>,
    vals: Seq<TypedValue>,
    tokens: Seq<Seq<char>>,
    f32s: Seq<Option<u32>>,
    f64s: Seq<Option<u64>>,
    i: int,
)
    requires
        vals.len() == params.len(),
        tokens.len() == params.len(),
        f32s.len() == params.len(),
        f64s.len() == params.len(),
        0 <= i <= params.len(),
        forall|j: int| 0 <= j < params.len() ==> #[trigger] integer_printed(
            params[j],
            vals[j],
            tokens[j],
        ),
    ensures
        encode_from(params, tokens, f32s, f64s, i) == Ok::<Seq<TypedValue>, CodecFailure>(
            vals.skip(i),
        ),
    decreases params.len() - i,
{
    if i == params.len() {
        assert(vals.skip(i) =~= Seq::<TypedValue>::empty());
    } else {
        assert(integer_printed(params[i], vals[i], tokens[i]));
        match params[i] {
            ValKind::I32 => {
                let n = vals[i]->I32_0;
                crate::numeric::lemma_i32_round_trip(n);
            },
            ValKind::I64 => {
                let n = vals[i]->I64_0;
                crate::numeric::lemma_i64_round_trip(n);
            },
            _ => {},
        }
        assert(encode_one(params[i], tokens[i], f32s[i], f64s[i]) == Ok::<
            TypedValue,
            CodecFailure,
        >(vals[i]));
        lemma_round_trip_from(params, vals, tokens, f32s, f64s, i + 1);
        assert(seq![vals[i]] + vals.skip(i + 1) =~= vals.skip(i));
    }
}

/// Law: over a signature of the two integer kinds, the codec round-trips.
/// If each token is the printed decimal form of the corresponding value —
/// exactly what decoding renders for that value — then encoding those
/// tokens against the signature succeeds and yields exactly those values.
pub proof fn lemma_integer_round_trip(
    params: Seq<ValKind>,
    vals: Seq<TypedValue>,
    tokens: Seq<Seq<char>>,
    f32s: Seq<Option<u32>>,
    f64s: Seq<Option<u64>>,
)
    requires
        vals.len() == params.len(),
        tokens.len() == params.len(),
        f32s.len() == params.len(),
        f64s.len() == params.len(),
        forall|j: int| 0 <= j < params.len() ==> #[trigger] integer_printed(
            params[j],
            vals[j],
            tokens[j],
        ),
    ensures
        encode_spec(params, tokens, f32s, f64s) == Ok::<Seq<TypedValue>, CodecFailure>(vals),
{
    lemma_round_trip_from(params, vals, tokens, f32s, f64s, 0);
    assert(vals.skip(0) =~= vals);
}

} // verus!
