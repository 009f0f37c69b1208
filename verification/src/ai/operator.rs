//! Typed proposals: what an operator wants changed in a world, and what it is
//! told of the world.

use crate::fx::Fx16;
use vstd::prelude::*;

verus! {

/// A number of a proposal, in the three forms that the engine reads: as a
/// coordinate, as a color channel (clamped to 0..=255 and cut to a whole number),
/// and as it is written out.
#[derive(Clone, Debug)]
pub struct Scalar {
    /// As a coordinate.
    pub fixed: Fx16,
    /// As a color channel.
    pub channel: u8,
    /// Written out.
    pub text: String,
}

/// A single change that an operator proposes.
#[derive(Clone, Debug)]
pub enum ProposeOp {
    /// Adds an entity.
    Spawn {
        /// World position (x, y, z).
        transform: [Scalar; 3],
        /// Scale (x, y, z).
        scale: [Scalar; 3],
        /// RGBA color.
        color: [u8; 4],
    },
    /// Overwrites one component of an entity.
    SetValue {
        /// Row of the entity.
        entity: u32,
        /// Name of the component.
        component: String,
        /// The values.
        value: Vec<Scalar>,
    },
    /// Removes an entity.
    Despawn {
        /// Row of the entity.
        entity: u32,
    },
}

/// An ordered batch of changes, applied as a whole or not at all.
#[derive(Clone, Debug)]
pub struct ProposeBatch {
    /// The changes.
    pub ops: Vec<ProposeOp>,
}

impl ProposeBatch {
    /// A batch that changes nothing.
    pub fn empty() -> (r: Self)
        ensures
            r.ops@.len() == 0,
    {
        ProposeBatch { ops: Vec::new() }
    }
}

/// Why a reply is no proposal.
#[derive(Clone, Debug)]
pub enum ProposeError {
    /// The reply is not the JSON of a proposal.
    Parse(String),
    /// The proposal breaks a rule.
    Invalid(String),
}

impl ProposeError {
    /// The text shown to people and models.
    pub fn to_text(&self) -> (r: String)
        ensures
            r@ == match *self {
                ProposeError::Parse(m) => "parse: "@ + m@,
                ProposeError::Invalid(m) => "invalid: "@ + m@,
            },
    {
        match self {
            ProposeError::Parse(m) => crate::text::joined("parse: ", m.as_str()),
            ProposeError::Invalid(m) => crate::text::joined("invalid: ", m.as_str()),
        }
    }
}

/// Whether a component can be named in a proposal.
pub open spec fn known_component(c: Seq<char>) -> bool {
    c == "transform"@ || c == "scale"@ || c == "color"@
}

/// What is wrong with the operation at position `i`, if anything: a `SetValue` must
/// have values and name a known component.
pub open spec fn op_problem(op: ProposeOp, i: int) -> Option<Seq<char>> {
    match op {
        ProposeOp::SetValue { component, value, .. } => if value@.len() == 0 {
            Some("op "@ + crate::text::decimal(i as nat) + ": set value empty"@)
        } else if !known_component(component@) {
            Some(
                "op "@ + crate::text::decimal(i as nat) + ": unknown component '"@ + component@
                    + "' (use transform|scale|color)"@,
            )
        } else {
            None
        },
        _ => None,
    }
}

/// The first problem among the operations from position `i` on.
pub open spec fn first_problem(ops: Seq<ProposeOp>, i: int) -> Option<Seq<char>>
    decreases ops.len() - i,
{
    if i < 0 || i >= ops.len() {
        None
    } else if op_problem(ops[i], i) is Some {
        op_problem(ops[i], i)
    } else {
        first_problem(ops, i + 1)
    }
}

/// Checks a batch and reports its first problem.
pub fn validate(batch: &ProposeBatch) -> (r: Result<(), ProposeError>)
    ensures
        match r {
            Ok(_) => first_problem(batch.ops@, 0) is None,
            Err(ProposeError::Invalid(m)) => first_problem(batch.ops@, 0) == Some(m@),
            Err(ProposeError::Parse(_)) => false,
        },
{
    let mut i: usize = 0;
    while i < batch.ops.len()
        invariant
            i <= batch.ops@.len(),
            first_problem(batch.ops@, 0) == first_problem(batch.ops@, i as int),
        decreases batch.ops@.len() - i,
    {
        match &batch.ops[i] {
            ProposeOp::SetValue { component, value, .. } => {
                let n = crate::text::decimal_text(i as u64);
                let mut s = crate::text::joined("op ", n.as_str());
                if value.len() == 0 {
                    s.append(": set value empty");
                    return Err(ProposeError::Invalid(s));
                }
                let c = component.as_str();
                if !(crate::text::same(c, "transform") || crate::text::same(c, "scale")
                    || crate::text::same(c, "color")) {
                    s.append(": unknown component '");
                    s.append(c);
                    s.append("' (use transform|scale|color)");
                    return Err(ProposeError::Invalid(s));
                }
            },
            _ => {},
        }
        i = i + 1;
    }
    Ok(())
}

/// A valid batch has no operation with a problem, and an invalid one is reported
/// for an operation that has one.
pub proof fn law_validation_is_exact(ops: Seq<ProposeOp>, i: int)
    requires
        0 <= i <= ops.len(),
    ensures
        first_problem(ops, i) is None <==> (forall|k: int|
            i <= k < ops.len() ==> op_problem(#[trigger] ops[k], k) is None),
    decreases ops.len() - i,
{
    if i < ops.len() {
        law_validation_is_exact(ops, i + 1);
    }
}

/// What a model is told of one entity.
#[derive(Clone, Debug)]
pub struct EntitySummary {
    /// Row of the entity.
    pub index: u32,
    /// World position (x, y, z).
    pub transform: [Scalar; 3],
    /// RGBA color.
    pub color: [u8; 4],
}

/// The three written-out numbers of a position.
pub open spec fn scalar_texts(v: [Scalar; 3]) -> Seq<Seq<char>> {
    seq![v[0].text@, v[1].text@, v[2].text@]
}

/// The bracketed list of a position.
pub fn position_text(v: &[Scalar; 3]) -> (r: String)
    ensures
        r@ == crate::text::listed(scalar_texts(*v)),
{
    let items: Vec<String> = vec![v[0].text.clone(), v[1].text.clone(), v[2].text.clone()];
    assert(crate::text::texts(items@) =~= scalar_texts(*v));
    crate::text::list_text(&items)
}

/// The line about one entity.
pub open spec fn entity_line(e: EntitySummary) -> Seq<char> {
    "  #"@ + crate::text::decimal(e.index as nat) + " at "@ + crate::text::listed(
        scalar_texts(e.transform),
    ) + " color "@ + crate::text::listed(crate::text::channel_texts(e.color)) + "\n"@
}

/// The lines about the first `n` entities.
pub open spec fn entity_lines(es: Seq<EntitySummary>, n: nat) -> Seq<char>
    decreases n,
{
    if n == 0 {
        seq![]
    } else {
        entity_lines(es, (n - 1) as nat) + entity_line(es[n - 1])
    }
}

/// What a model is told: how many entities there are, each of them, and how to
/// propose a change.
pub open spec fn context_text(entity_count: nat, es: Seq<EntitySummary>) -> Seq<char> {
    "OpenEngine live world: "@ + crate::text::decimal(entity_count) + " entit(ies).\n"@
        + entity_lines(es, es.len()) + "\nTo change the world, reply with ONLY a JSON batch, e.g.\n{\"ops\":[{\"op\":\"spawn\",\"transform\":[1,0,0],\"color\":[255,0,0,255]}, {\"op\":\"set\",\"entity\":2,\"component\":\"transform\",\"value\":[2,0,0]}, {\"op\":\"despawn\",\"entity\":0}]}\n"@
}

/// Writes the observation of a world for a model.
pub fn observe_context(entity_count: usize, entities: &[EntitySummary]) -> (r: String)
    ensures
        r@ == context_text(entity_count as nat, entities@),
{
    let n = crate::text::decimal_text(entity_count as u64);
    let mut s = crate::text::joined("OpenEngine live world: ", n.as_str());
    s.append(" entit(ies).\n");
    let ghost head = s@;
    let mut i: usize = 0;
    assert(s@ =~= head + entity_lines(entities@, 0));
    while i < entities.len()
        invariant
            i <= entities@.len(),
            s@ == head + entity_lines(entities@, i as nat),
        decreases entities@.len() - i,
    {
        let e = &entities[i];
        let ghost before = s@;
        s.append("  #");
        let d = crate::text::decimal_text(e.index as u64);
        s.append(d.as_str());
        s.append(" at ");
        let p = position_text(&e.transform);
        s.append(p.as_str());
        s.append(" color ");
        let c = crate::text::channels_text(&e.color);
        s.append(c.as_str());
        s.append("\n");
        assert(s@ =~= before + entity_line(entities@[i as int]));
        i = i + 1;
        assert(s@ =~= head + entity_lines(entities@, i as nat));
    }
    s.append(
        "\nTo change the world, reply with ONLY a JSON batch, e.g.\n{\"ops\":[{\"op\":\"spawn\",\"transform\":[1,0,0],\"color\":[255,0,0,255]}, {\"op\":\"set\",\"entity\":2,\"component\":\"transform\",\"value\":[2,0,0]}, {\"op\":\"despawn\",\"entity\":0}]}\n",
    );
    s
}

/// The lines about some entities stand in the order of the entities, one for each:
/// none for none, the entity's own for one, and those of two lots one lot behind the
/// other.
pub proof fn law_lines_in_order(a: Seq<EntitySummary>, b: Seq<EntitySummary>, e: EntitySummary)
    ensures
        entity_lines(seq![], 0) == Seq::<char>::empty(),
        entity_lines(seq![e], 1) == entity_line(e),
        entity_lines(a + b, (a + b).len()) == entity_lines(a, a.len()) + entity_lines(b, b.len()),
{
    let one = seq![e];
    assert(entity_lines(one, 0) == Seq::<char>::empty());
    assert(entity_lines(one, 1) =~= entity_line(e));
    lemma_lines_behind(a, b, b.len());
}

proof fn lemma_lines_behind(a: Seq<EntitySummary>, b: Seq<EntitySummary>, n: nat)
    requires
        n <= b.len(),
    ensures
        entity_lines(a + b, a.len() + n) == entity_lines(a, a.len()) + entity_lines(b, n),
    decreases n,
{
    if n == 0 {
        lemma_lines_prefix(a, a + b, a.len());
        assert(entity_lines(a, a.len()) + entity_lines(b, 0) =~= entity_lines(a, a.len()));
    } else {
        lemma_lines_behind(a, b, (n - 1) as nat);
        assert((a + b)[a.len() + n - 1] == b[n - 1]);
        assert(entity_lines(a + b, a.len() + n) =~= entity_lines(a, a.len()) + entity_lines(b, n));
    }
}

proof fn lemma_lines_prefix(a: Seq<EntitySummary>, b: Seq<EntitySummary>, n: nat)
    requires
        forall|i: int| 0 <= i < n ==> a[i] == b[i],
    ensures
        entity_lines(a, n) == entity_lines(b, n),
    decreases n,
{
    if n > 0 {
        lemma_lines_prefix(a, b, (n - 1) as nat);
        assert(a[n - 1] == b[n - 1]);
    }
}

proof fn lemma_three_listed(p: Seq<Seq<char>>)
    requires
        p.len() == 3,
    ensures
        crate::text::listed(p) == "["@ + (p[0] + ", "@ + p[1] + ", "@ + p[2]) + "]"@,
{
    reveal_with_fuel(crate::text::joined_with, 4);
    assert(p.drop_last().drop_last() =~= seq![p[0]]);
    assert(p.drop_last().last() == p[1]);
}

proof fn lemma_four_listed(p: Seq<Seq<char>>)
    requires
        p.len() == 4,
    ensures
        crate::text::listed(p) == "["@ + (p[0] + ", "@ + p[1] + ", "@ + p[2] + ", "@ + p[3]) + "]"@,
{
    reveal_with_fuel(crate::text::joined_with, 5);
    assert(p.drop_last().drop_last().drop_last() =~= seq![p[0]]);
    assert(p.drop_last().drop_last().last() == p[1]);
    assert(p.drop_last().last() == p[2]);
}

/// The line about an entity says its row, its position and its color: `  #row at
/// [x, y, z] color [r, g, b, a]`.
pub proof fn law_entity_line(e: EntitySummary)
    ensures
        entity_line(e) == "  #"@ + crate::text::decimal(e.index as nat) + " at "@ + ("["@ + (
        e.transform[0].text@ + ", "@ + e.transform[1].text@ + ", "@ + e.transform[2].text@) + "]"@)
            + " color "@ + ("["@ + (crate::text::decimal(e.color[0] as nat) + ", "@
            + crate::text::decimal(e.color[1] as nat) + ", "@ + crate::text::decimal(
            e.color[2] as nat,
        ) + ", "@ + crate::text::decimal(e.color[3] as nat)) + "]"@) + "\n"@,
{
    lemma_three_listed(scalar_texts(e.transform));
    lemma_four_listed(crate::text::channel_texts(e.color));
}

/// An observation names the number of entities first, then holds the line of every
/// entity of the list, whatever stands around it, and ends with how to propose a
/// change.
pub proof fn law_observation_holds_every_entity(n: nat, es: Seq<EntitySummary>, i: int)
    requires
        0 <= i < es.len(),
    ensures
        crate::text::occurs(context_text(n, es), entity_line(es[i])),
        ("OpenEngine live world: "@ + crate::text::decimal(n) + " entit(ies).\n"@).is_prefix_of(
            context_text(n, es),
        ),
        context_text(n, es) == ("OpenEngine live world: "@ + crate::text::decimal(n)
            + " entit(ies).\n"@) + entity_lines(es, es.len()) + "\nTo change the world, reply with ONLY a JSON batch, e.g.\n{\"ops\":[{\"op\":\"spawn\",\"transform\":[1,0,0],\"color\":[255,0,0,255]}, {\"op\":\"set\",\"entity\":2,\"component\":\"transform\",\"value\":[2,0,0]}, {\"op\":\"despawn\",\"entity\":0}]}\n"@,
{
    let head = "OpenEngine live world: "@ + crate::text::decimal(n) + " entit(ies).\n"@;
    let a = es.take(i);
    let b = es.skip(i + 1);
    assert(es =~= a + (seq![es[i]] + b));
    law_lines_in_order(a, seq![es[i]] + b, es[i]);
    law_lines_in_order(seq![es[i]], b, es[i]);
    let la = entity_lines(a, a.len());
    let lb = entity_lines(b, b.len());
    let tail = "\nTo change the world, reply with ONLY a JSON batch, e.g.\n{\"ops\":[{\"op\":\"spawn\",\"transform\":[1,0,0],\"color\":[255,0,0,255]}, {\"op\":\"set\",\"entity\":2,\"component\":\"transform\",\"value\":[2,0,0]}, {\"op\":\"despawn\",\"entity\":0}]}\n"@;
    assert(entity_lines(es, es.len()) =~= la + entity_line(es[i]) + lb);
    assert(context_text(n, es) =~= head + entity_lines(es, es.len()) + tail);
    assert(context_text(n, es) =~= (head + la) + entity_line(es[i]) + (lb + tail));
    crate::text::law_occurs(head + la, entity_line(es[i]), lb + tail, seq![]);
    assert(context_text(n, es).take(head.len() as int) =~= head);
}

/// Digits in front of something that starts with no digit are told from what
/// follows them.
proof fn lemma_digits_end(a: nat, x: Seq<char>, b: nat, y: Seq<char>)
    requires
        x.len() > 0 && !('0' <= x[0] <= '9'),
        y.len() > 0 && !('0' <= y[0] <= '9'),
        crate::text::decimal(a) + x == crate::text::decimal(b) + y,
    ensures
        a == b,
        x == y,
{
    let s = crate::text::decimal(a);
    let t = crate::text::decimal(b);
    crate::text::law_decimal_is_digits(a);
    crate::text::law_decimal_is_digits(b);
    if s.len() < t.len() {
        assert((s + x)[s.len() as int] == x[0]);
        assert((t + y)[s.len() as int] == t[s.len() as int]);
    }
    if t.len() < s.len() {
        assert((t + y)[t.len() as int] == y[0]);
        assert((s + x)[t.len() as int] == s[t.len() as int]);
    }
    assert(s =~= (s + x).take(s.len() as int));
    assert(t =~= (t + y).take(t.len() as int));
    crate::text::law_decimal_distinguishes(a, b);
    assert(x =~= (s + x).skip(s.len() as int));
    assert(y =~= (t + y).skip(t.len() as int));
}

/// What follows a common beginning is told apart.
proof fn lemma_same_behind(p: Seq<char>, x: Seq<char>, y: Seq<char>)
    requires
        p + x == p + y,
    ensures
        x == y,
{
    assert(x =~= (p + x).skip(p.len() as int));
    assert(y =~= (p + y).skip(p.len() as int));
}

/// Texts put one behind the other from the left are those put one before the other
/// from the right.
proof fn lemma_nested(
    a: Seq<char>,
    b: Seq<char>,
    c: Seq<char>,
    d: Seq<char>,
    e: Seq<char>,
)
    ensures
        a + b + c + d + e == a + (b + (c + (d + e))),
{
    assert(a + b + c + d + e =~= a + (b + (c + (d + e))));
}

/// The color part of a line: four numbers, a comma and a blank between them, then
/// the end of the line.
spec fn color_part(c: [u8; 4]) -> Seq<char> {
    let d = |k: int| crate::text::decimal(c[k] as nat);
    d(0) + (", "@ + (d(1) + (", "@ + (d(2) + (", "@ + (d(3) + ("]"@ + "\n"@)))))))
}

proof fn lemma_color_part(c: [u8; 4])
    ensures
        crate::text::listed(crate::text::channel_texts(c)) + "\n"@ == "["@ + color_part(c),
{
    let p = crate::text::channel_texts(c);
    let s = ", "@;
    lemma_four_listed(p);
    let end = "]"@ + "\n"@;
    let most = p[0] + s + p[1] + s + p[2];
    let j = most + s + p[3];
    lemma_nested("["@, j, "]"@, "\n"@, seq![]);
    assert("["@ + j + "]"@ + "\n"@ =~= "["@ + (j + end));
    assert(j + end =~= most + (s + (p[3] + end))) by {
        lemma_nested(most, s, p[3], end, seq![]);
    }
    lemma_nested(p[0], s, p[1], s, p[2] + (s + (p[3] + end)));
    assert(most + (s + (p[3] + end)) =~= p[0] + s + p[1] + s + (p[2] + (s + (p[3] + end))));
}

proof fn lemma_color_part_distinguishes(c: [u8; 4], f: [u8; 4])
    requires
        color_part(c) == color_part(f),
    ensures
        c@ == f@,
{
    reveal_strlit(", ");
    reveal_strlit("]");
    let s = ", "@;
    let end = "]"@ + "\n"@;
    let d = |c: [u8; 4], k: int| crate::text::decimal(c[k] as nat);
    let c3 = d(c, 3) + end;
    let f3 = d(f, 3) + end;
    let c2 = d(c, 2) + (s + c3);
    let f2 = d(f, 2) + (s + f3);
    let c1 = d(c, 1) + (s + c2);
    let f1 = d(f, 1) + (s + f2);
    assert((s + c1)[0] == ',' && (s + f1)[0] == ',');
    lemma_digits_end(c[0] as nat, s + c1, f[0] as nat, s + f1);
    lemma_same_behind(s, c1, f1);
    assert((s + c2)[0] == ',' && (s + f2)[0] == ',');
    lemma_digits_end(c[1] as nat, s + c2, f[1] as nat, s + f2);
    lemma_same_behind(s, c2, f2);
    assert((s + c3)[0] == ',' && (s + f3)[0] == ',');
    lemma_digits_end(c[2] as nat, s + c3, f[2] as nat, s + f3);
    lemma_same_behind(s, c3, f3);
    assert(end[0] == ']');
    lemma_digits_end(c[3] as nat, end, f[3] as nat, end);
    assert(c@ =~= f@);
}

proof fn lemma_line_parts(e: EntitySummary)
    ensures
        entity_line(e) == "  #"@ + (crate::text::decimal(e.index as nat) + ((" at "@
            + crate::text::listed(scalar_texts(e.transform)) + " color "@) + (crate::text::listed(
            crate::text::channel_texts(e.color),
        ) + "\n"@))),
{
    let i = crate::text::decimal(e.index as nat);
    let p = crate::text::listed(scalar_texts(e.transform));
    let c = crate::text::listed(crate::text::channel_texts(e.color));
    let h = "  #"@ + i;
    let m = " at "@ + p + " color "@;
    assert(h + " at "@ + p + " color "@ =~= h + m);
    assert(h + m + c + "\n"@ =~= "  #"@ + (i + (m + (c + "\n"@))));
}

/// The line about an entity tells its row and its color: entities with the same
/// position and the same line are the same.
pub proof fn law_entity_line_distinguishes(e: EntitySummary, f: EntitySummary)
    requires
        e.transform == f.transform,
        entity_line(e) == entity_line(f),
    ensures
        e.index == f.index,
        e.color@ == f.color@,
{
    lemma_line_parts(e);
    lemma_line_parts(f);
    lemma_color_part(e.color);
    lemma_color_part(f.color);
    let m = " at "@ + crate::text::listed(scalar_texts(e.transform)) + " color "@;
    let x = "["@ + color_part(e.color);
    let y = "["@ + color_part(f.color);
    lemma_same_behind(
        "  #"@,
        crate::text::decimal(e.index as nat) + (m + x),
        crate::text::decimal(f.index as nat) + (m + y),
    );
    reveal_strlit(" at ");
    assert((m + x)[0] == ' ' && (m + y)[0] == ' ');
    lemma_digits_end(e.index as nat, m + x, f.index as nat, m + y);
    lemma_same_behind(m, x, y);
    lemma_same_behind("["@, color_part(e.color), color_part(f.color));
    lemma_color_part_distinguishes(e.color, f.color);
}

proof fn lemma_lines_around(es: Seq<EntitySummary>, i: int)
    requires
        0 <= i < es.len(),
    ensures
        entity_lines(es, es.len()) == entity_lines(es.take(i), i as nat) + (entity_line(es[i])
            + entity_lines(es.skip(i + 1), (es.len() - i - 1) as nat)),
{
    let a = es.take(i);
    let b = es.skip(i + 1);
    assert(es =~= a + (seq![es[i]] + b));
    law_lines_in_order(a, seq![es[i]] + b, es[i]);
    law_lines_in_order(seq![es[i]], b, es[i]);
}

/// What stands between the same texts is the same.
proof fn lemma_same_between(
    p: Seq<char>,
    a: Seq<char>,
    x: Seq<char>,
    y: Seq<char>,
    b: Seq<char>,
    t: Seq<char>,
)
    requires
        p + (a + (x + b)) + t == p + (a + (y + b)) + t,
    ensures
        x == y,
{
    let l = p + (a + (x + b)) + t;
    let r = p + (a + (y + b)) + t;
    assert(l.len() == p.len() + a.len() + x.len() + b.len() + t.len());
    assert(r.len() == p.len() + a.len() + y.len() + b.len() + t.len());
    let k = p.len() + a.len();
    assert(x =~= l.subrange(k as int, (k + x.len()) as int));
    assert(y =~= r.subrange(k as int, (k + y.len()) as int));
}

/// Worlds that differ in the row or the color of one entity are described
/// differently, wherever in the list it stands.
pub proof fn law_observation_distinguishes(
    n: nat,
    es: Seq<EntitySummary>,
    i: int,
    f: EntitySummary,
)
    requires
        0 <= i < es.len(),
        f.transform == es[i].transform,
        f.index != es[i].index || f.color@ != es[i].color@,
    ensures
        context_text(n, es) != context_text(n, es.update(i, f)),
{
    let gs = es.update(i, f);
    lemma_lines_around(es, i);
    lemma_lines_around(gs, i);
    assert(gs.take(i) =~= es.take(i));
    assert(gs.skip(i + 1) =~= es.skip(i + 1));
    law_observation_holds_every_entity(n, es, i);
    law_observation_holds_every_entity(n, gs, i);
    let head = "OpenEngine live world: "@ + crate::text::decimal(n) + " entit(ies).\n"@;
    if context_text(n, es) == context_text(n, gs) {
        lemma_same_between(
            head,
            entity_lines(es.take(i), i as nat),
            entity_line(es[i]),
            entity_line(f),
            entity_lines(es.skip(i + 1), (es.len() - i - 1) as nat),
            "\nTo change the world, reply with ONLY a JSON batch, e.g.\n{\"ops\":[{\"op\":\"spawn\",\"transform\":[1,0,0],\"color\":[255,0,0,255]}, {\"op\":\"set\",\"entity\":2,\"component\":\"transform\",\"value\":[2,0,0]}, {\"op\":\"despawn\",\"entity\":0}]}\n"@,
        );
        law_entity_line_distinguishes(es[i], f);
    }
}

/// An operation has a problem exactly when it sets nothing, or sets something other
/// than the transform, the scale or the color; the message names its position and
/// what is wrong.
pub proof fn law_op_problems(op: ProposeOp, i: nat)
    ensures
        !(op is SetValue) ==> op_problem(op, i as int) is None,
        op is SetValue && op->SetValue_value@.len() > 0 && (op->SetValue_component@ == "transform"@
            || op->SetValue_component@ == "scale"@ || op->SetValue_component@ == "color"@)
            ==> op_problem(op, i as int) is None,
        op is SetValue && op->SetValue_value@.len() == 0 ==> op_problem(op, i as int) == Some(
            "op "@ + crate::text::decimal(i) + ": set value empty"@,
        ),
        op is SetValue && op->SetValue_value@.len() > 0 && op->SetValue_component@ != "transform"@
            && op->SetValue_component@ != "scale"@ && op->SetValue_component@ != "color"@
            ==> op_problem(op, i as int) == Some(
            "op "@ + crate::text::decimal(i) + ": unknown component '"@ + op->SetValue_component@
                + "' (use transform|scale|color)"@,
        ),
{
}

/// What is reported of a batch is the problem of its first bad operation.
pub proof fn law_first_problem_is_first(ops: Seq<ProposeOp>, i: int)
    requires
        0 <= i <= ops.len(),
        first_problem(ops, i) is Some,
    ensures
        exists|k: int|
            i <= k < ops.len() && op_problem(#[trigger] ops[k], k) == first_problem(ops, i)
                && forall|j: int| i <= j < k ==> op_problem(#[trigger] ops[j], j) is None,
    decreases ops.len() - i,
{
    if op_problem(ops[i], i) is Some {
        assert(op_problem(ops[i], i) == first_problem(ops, i));
    } else {
        law_first_problem_is_first(ops, i + 1);
        let k = choose|k: int|
            i + 1 <= k < ops.len() && op_problem(#[trigger] ops[k], k) == first_problem(ops, i + 1)
                && forall|j: int| i + 1 <= j < k ==> op_problem(#[trigger] ops[j], j) is None;
        assert(op_problem(ops[k], k) == first_problem(ops, i));
        assert forall|j: int| i <= j < k implies op_problem(#[trigger] ops[j], j) is None by {
            if j > i {
                assert(op_problem(ops[j], j) is None);
            }
        }
    }
}

} // verus!
