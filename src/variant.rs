//! Parsing a sum type: each variant is tried in declaration order, the cursor
//! rolled back after each failed trial.
use vstd::prelude::*;
use crate::error::{attempt_view, ParseError, SpecFieldError, SpecParseError, VariantAttempt};
use crate::schema::{
    errors_view, spec_parse_struct, values_view, Context, Field, Parsed, SpecValue,
};
use crate::stream::ByteStream;
use crate::structure::parse_struct;

verus! {

/// One candidate layout of a sum type.
#[derive(Clone, Debug)]
pub struct Variant {
    pub name: String,
    pub fields: Vec<Field>,
}

/// What happens when no variant matches.
#[derive(Clone, Copy, Debug, PartialEq, Eq, Structural)]
pub enum EnumErrorHandling {
    /// Fail with every trial's error.
    ReturnError,
    /// Fall back to the default variant, which reads nothing.
    ReturnDefault,
}

/// A sum type: its variants in trial order, and the fallback policy.
#[derive(Clone, Debug)]
pub struct EnumSchema {
    pub variants: Vec<Variant>,
    pub handling: EnumErrorHandling,
}

/// A parsed sum type: the variant that matched, with its fields, or the
/// default.
#[derive(Clone, Debug)]
pub enum EnumValue {
    Matched { index: usize, parsed: Parsed },
    Default,
}

pub enum SpecEnumValue {
    Matched { index: int, values: Seq<SpecValue>, errors: Seq<SpecFieldError> },
    Default,
}

impl View for EnumValue {
    type V = SpecEnumValue;

    open spec fn view(&self) -> SpecEnumValue {
        match self {
            EnumValue::Matched { index, parsed } => SpecEnumValue::Matched {
                index: *index as int,
                values: values_view(parsed.values@),
                errors: errors_view(parsed.errors@),
            },
            EnumValue::Default => SpecEnumValue::Default,
        }
    }
}

pub type Attempts = Seq<(Seq<char>, SpecFieldError)>;

/// The trials from variant `i` on, with the failures so far in `attempts`:
/// the first variant that parses, with its values, basket and end position;
/// or every failure.
pub open spec fn spec_trials(
    variants: Seq<Variant>,
    ctx: Context,
    data: Seq<u8>,
    pos: int,
    i: int,
    attempts: Attempts,
) -> Result<(int, Seq<SpecValue>, Seq<SpecFieldError>, int), Attempts>
    decreases variants.len() - i,
{
    if i < 0 || i >= variants.len() {
        Err(attempts)
    } else {
        match spec_parse_struct(variants[i].fields@, ctx, data, pos) {
            Ok((v, b, p)) => Ok((i, v, b, p)),
            Err(e) => spec_trials(
                variants,
                ctx,
                data,
                pos,
                i + 1,
                attempts.push((variants[i].name@, e)),
            ),
        }
    }
}

/// The meaning of parsing a sum type at `pos`: its value and end position.
pub open spec fn spec_parse_enum(
    variants: Seq<Variant>,
    handling: EnumErrorHandling,
    ctx: Context,
    data: Seq<u8>,
    pos: int,
) -> Result<(SpecEnumValue, int), SpecParseError> {
    match spec_trials(variants, ctx, data, pos, 0, Seq::empty()) {
        Ok((i, v, b, p)) => Ok((SpecEnumValue::Matched { index: i, values: v, errors: b }, p)),
        Err(a) => match handling {
            EnumErrorHandling::ReturnDefault => Ok((SpecEnumValue::Default, pos)),
            EnumErrorHandling::ReturnError => Err(
                SpecParseError::EnumNoVariantMatched { attempts: a, position: pos },
            ),
        },
    }
}

/// Parses a sum type at the cursor. On success the cursor stands where the
/// matching variant ended (where it was, for the default); on failure it is
/// where it was.
pub fn parse_enum(schema: &EnumSchema, ctx: Context, s: &mut ByteStream) -> (r: Result<
    EnumValue,
    ParseError,
>)
    ensures
        final(s)@.data == old(s)@.data,
        match spec_parse_enum(schema.variants@, schema.handling, ctx, old(s)@.data, old(s)@.pos) {
            Ok((v, p)) => r matches Ok(x) && x@ == v && final(s)@.pos == p,
            Err(e) => r matches Err(x) && x@ == e && final(s)@.pos == old(s)@.pos,
        },
{
    let ghost data = s@.data;
    let start = s.tell();
    let mut attempts: Vec<VariantAttempt> = Vec::new();
    let mut i: usize = 0;
    assert(attempts@.map_values(|a: VariantAttempt| attempt_view(a)) =~= Seq::<
        (Seq<char>, SpecFieldError),
    >::empty());
    while i < schema.variants.len()
        invariant
            s@.data == data,
            data == old(s)@.data,
            s@.pos == old(s)@.pos,
            start as int == old(s)@.pos,
            i <= schema.variants@.len(),
            spec_trials(schema.variants@, ctx, data, start as int, 0, Seq::empty()) == spec_trials(
                schema.variants@,
                ctx,
                data,
                start as int,
                i as int,
                attempts@.map_values(|a: VariantAttempt| attempt_view(a)),
            ),
        decreases schema.variants@.len() - i,
    {
        let v = &schema.variants[i];
        match parse_struct(&v.fields, ctx, s) {
            Ok(parsed) => {
                return Ok(EnumValue::Matched { index: i, parsed });
            },
            Err(e) => {
                let ghost aa = attempts@.map_values(|a: VariantAttempt| attempt_view(a));
                let att = VariantAttempt { variant: v.name.clone(), error: e };
                let ghost av = attempt_view(att);
                attempts.push(att);
                assert(attempts@.map_values(|a: VariantAttempt| attempt_view(a)) =~= aa.push(av));
            },
        }
        i = i + 1;
    }
    match schema.handling {
        EnumErrorHandling::ReturnDefault => Ok(EnumValue::Default),
        EnumErrorHandling::ReturnError => Err(
            ParseError::EnumNoVariantMatched { attempts, position: start },
        ),
    }
}

} // verus!
