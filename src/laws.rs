//! Properties of parsing that relate several parses or several passes.
use vstd::prelude::*;
use crate::error::SpecFieldError;
use crate::schema::{
    spec_field, spec_gather, spec_parse_struct, spec_resolve, spec_skip, Context, Field,
    FieldKind, Operand, SpecValue,
};
use crate::structure::lemma_gather_len;
use crate::variant::{spec_parse_enum, EnumErrorHandling, Variant};

verus! {

/// Parsing is deterministic: the same schema over the same bytes from the
/// same position gives the same values, basket and end position.
pub proof fn lemma_parse_deterministic(
    fields: Seq<Field>,
    ctx: Context,
    data1: Seq<u8>,
    pos1: int,
    data2: Seq<u8>,
    pos2: int,
)
    requires
        data1 == data2,
        pos1 == pos2,
    ensures
        spec_parse_struct(fields, ctx, data1, pos1) == spec_parse_struct(fields, ctx, data2, pos2),
{
}

/// Whether a field reads nothing of its siblings.
pub open spec fn reads_no_sibling(f: Field) -> bool {
    &&& f.condition is None
    &&& !(f.kind matches FieldKind::Bytes(Operand::Field(_)))
    &&& !(f.kind matches FieldKind::Ints(_, Operand::Field(_)))
    &&& !(f.offset matches Some(Operand::Field(_)))
}

proof fn lemma_field_ignores_siblings(
    f: Field,
    vals1: Seq<SpecValue>,
    vals2: Seq<SpecValue>,
    ctx: Context,
    data: Seq<u8>,
    pos: int,
)
    requires
        reads_no_sibling(f),
    ensures
        spec_field(f, vals1, ctx, data, pos) == spec_field(f, vals2, ctx, data, pos),
{
}

/// An `offset` field does not move the position its next sibling reads at:
/// after a structure's `offset` field, a field that reads nothing of its
/// siblings parses exactly as it does alone from where the `offset` field
/// left the cursor, which is where its own padding and alignment put it.
pub proof fn lemma_offset_field_keeps_position(
    a: Field,
    b: Field,
    ctx: Context,
    data: Seq<u8>,
    pos: int,
)
    requires
        a.offset is Some,
        !a.restore_position,
        !a.deferred,
        !b.deferred,
        b.offset is None,
        reads_no_sibling(b),
    ensures
        spec_field(a, Seq::empty(), ctx, data, pos) matches Ok((va, q)) ==> {
            &&& spec_skip(pos, a.pad_before as int, a.align_before as int) matches Ok(p2)
            &&& spec_skip(p2, a.pad_after as int, a.align_after as int) == Ok::<
                int,
                SpecFieldError,
            >(q)
            &&& match spec_parse_struct(seq![b], ctx, data, q) {
                Ok((vs, bs, p)) => spec_parse_struct(seq![a, b], ctx, data, pos) == Ok::<
                    (Seq<SpecValue>, Seq<SpecFieldError>, int),
                    SpecFieldError,
                >((seq![va] + vs, bs, p)),
                Err(e) => spec_parse_struct(seq![a, b], ctx, data, pos) == Err::<
                    (Seq<SpecValue>, Seq<SpecFieldError>, int),
                    SpecFieldError,
                >(e),
            }
        },
{
    let fs = seq![a, b];
    let one = seq![b];
    let e0 = Seq::<SpecValue>::empty();
    let b0 = Seq::<SpecFieldError>::empty();
    if let Ok((va, q)) = spec_field(a, e0, ctx, data, pos) {
        lemma_field_ignores_siblings(b, e0.push(va), e0, ctx, data, q);
        assert(fs[0] == a && fs[1] == b && one[0] == b);
        let vals1 = e0.push(va);
        assert(spec_gather(fs, ctx, data, pos, e0, b0) == spec_gather(fs, ctx, data, q, vals1, b0));
        match spec_field(b, e0, ctx, data, q) {
            Ok((vb, p)) => {
                assert(spec_gather(fs, ctx, data, q, vals1, b0) == spec_gather(
                    fs,
                    ctx,
                    data,
                    p,
                    vals1.push(vb),
                    b0,
                ));
                assert(spec_gather(one, ctx, data, q, e0, b0) == spec_gather(
                    one,
                    ctx,
                    data,
                    p,
                    e0.push(vb),
                    b0,
                ));
                assert(vals1.push(vb) =~= seq![va] + e0.push(vb));
                assert(spec_resolve(fs, ctx, data, p, 0, vals1.push(vb), b0) == spec_resolve(
                    fs,
                    ctx,
                    data,
                    p,
                    1,
                    vals1.push(vb),
                    b0,
                ));
                assert(spec_resolve(fs, ctx, data, p, 1, vals1.push(vb), b0) == spec_resolve(
                    fs,
                    ctx,
                    data,
                    p,
                    2,
                    vals1.push(vb),
                    b0,
                ));
                assert(spec_resolve(one, ctx, data, p, 0, e0.push(vb), b0) == spec_resolve(
                    one,
                    ctx,
                    data,
                    p,
                    1,
                    e0.push(vb),
                    b0,
                ));
            },
            Err(e) => {
                if b.ignore_errors {
                    let vabs = vals1.push(SpecValue::Absent);
                    let oabs = e0.push(SpecValue::Absent);
                    assert(vabs =~= seq![va] + oabs);
                    assert(spec_gather(fs, ctx, data, q, vals1, b0) == spec_gather(
                        fs,
                        ctx,
                        data,
                        q,
                        vabs,
                        b0.push(e),
                    ));
                    assert(spec_gather(one, ctx, data, q, e0, b0) == spec_gather(
                        one,
                        ctx,
                        data,
                        q,
                        oabs,
                        b0.push(e),
                    ));
                    assert(spec_resolve(fs, ctx, data, q, 0, vabs, b0.push(e)) == spec_resolve(
                        fs,
                        ctx,
                        data,
                        q,
                        1,
                        vabs,
                        b0.push(e),
                    ));
                    assert(spec_resolve(fs, ctx, data, q, 1, vabs, b0.push(e)) == spec_resolve(
                        fs,
                        ctx,
                        data,
                        q,
                        2,
                        vabs,
                        b0.push(e),
                    ));
                    assert(spec_resolve(one, ctx, data, q, 0, oabs, b0.push(e)) == spec_resolve(
                        one,
                        ctx,
                        data,
                        q,
                        1,
                        oabs,
                        b0.push(e),
                    ));
                }
            },
        }
    }
}

/// Variant trial order decides: where the first declared variant parses, a
/// second variant after it changes nothing.
pub proof fn lemma_first_variant_wins(
    a: Variant,
    b: Variant,
    handling: EnumErrorHandling,
    ctx: Context,
    data: Seq<u8>,
    pos: int,
)
    requires
        spec_parse_struct(a.fields@, ctx, data, pos) is Ok,
    ensures
        spec_parse_enum(seq![a, b], handling, ctx, data, pos) == spec_parse_enum(
            seq![a],
            handling,
            ctx,
            data,
            pos,
        ),
{
    assert(seq![a, b][0] == a);
    assert(seq![a][0] == a);
}

proof fn lemma_resolve_keeps_gathered(
    fields: Seq<Field>,
    ctx: Context,
    data: Seq<u8>,
    pos: int,
    i: int,
    vals: Seq<SpecValue>,
    basket: Seq<SpecFieldError>,
)
    requires
        0 <= i,
        vals.len() == fields.len(),
    ensures
        spec_resolve(fields, ctx, data, pos, i, vals, basket) matches Ok((v, _, _)) ==> {
            &&& v.len() == vals.len()
            &&& forall|j: int|
                0 <= j < fields.len() && (j < i || !fields[j].deferred) ==> v[j] == vals[j]
        },
    decreases fields.len() - i,
{
    if i < fields.len() {
        if !fields[i].deferred {
            lemma_resolve_keeps_gathered(fields, ctx, data, pos, i + 1, vals, basket);
        } else {
            match spec_field(fields[i], vals, ctx, data, pos) {
                Ok((v, p)) => lemma_resolve_keeps_gathered(
                    fields,
                    ctx,
                    data,
                    p,
                    i + 1,
                    vals.update(i, v),
                    basket,
                ),
                Err(e) => lemma_resolve_keeps_gathered(
                    fields,
                    ctx,
                    data,
                    pos,
                    i + 1,
                    vals,
                    basket.push(e),
                ),
            }
        }
    }
}

/// Deferred fields see the structure's final sibling values: the values the
/// first pass gathers, which every deferred field is parsed with, are the
/// values the structure ends with at every field that is not deferred.
pub proof fn lemma_deferred_sees_final_values(
    fields: Seq<Field>,
    ctx: Context,
    data: Seq<u8>,
    pos: int,
)
    ensures
        spec_gather(fields, ctx, data, pos, Seq::empty(), Seq::empty()) matches Ok((g, gb, gp)) ==> {
            &&& g.len() == fields.len()
            &&& spec_parse_struct(fields, ctx, data, pos) matches Ok((v, _, _)) ==> {
                &&& v.len() == fields.len()
                &&& forall|j: int| 0 <= j < fields.len() && !fields[j].deferred ==> v[j] == g[j]
            }
        },
{
    lemma_gather_len(fields, ctx, data, pos, Seq::empty(), Seq::empty());
    if let Ok((g, gb, gp)) = spec_gather(fields, ctx, data, pos, Seq::empty(), Seq::empty()) {
        lemma_resolve_keeps_gathered(fields, ctx, data, gp, 0, g, gb);
    }
}

} // verus!
