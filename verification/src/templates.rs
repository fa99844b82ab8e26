//! Template sources generated for the re-analysis benchmark: a chain of
//! templates that call each other, a crowd of unrelated ones, and the single
//! redefinition that is parsed again and again.

use vstd::prelude::*;

use crate::decimal::{decimal, push_decimal};

verus! {

/// The `root` template, which calls `t0`.
pub open spec fn root_definition() -> Seq<char> {
    "{{define \"root\"}}{{template \"t0\" .}}{{end}}"@
}

/// The call of template `t{i}` on the current data.
pub open spec fn template_call(i: nat) -> Seq<char> {
    "{{template \"t"@ + decimal(i) + "\" .}}"@
}

/// Template `t{i}` of a chain of `count`: a link around a call of `t{i+1}`,
/// or, for the last one, a span that prints `.X`.
pub open spec fn connected_definition(i: nat, count: nat) -> Seq<char> {
    if i + 1 < count {
        "{{define \"t"@ + decimal(i) + "\"}}<a href=\"/p"@ + decimal(i) + "/{{.U}}?q="@ + decimal(i)
            + "\">"@ + template_call(i + 1) + "</a>{{end}}"@
    } else {
        "{{define \"t"@ + decimal(i) + "\"}}<span>{{.X}}</span>{{end}}"@
    }
}

/// Templates `t0` .. `t{k-1}` of a chain of `count`, in order.
pub open spec fn connected_definitions(k: nat, count: nat) -> Seq<char>
    decreases k,
{
    if k == 0 {
        Seq::empty()
    } else {
        connected_definitions((k - 1) as nat, count) + connected_definition((k - 1) as nat, count)
    }
}

/// Template `u{i}`, which no other template calls.
pub open spec fn unrelated_definition(i: nat) -> Seq<char> {
    "{{define \"u"@ + decimal(i) + "\"}}<section data-id=\""@ + decimal(i)
        + "\">{{.X}}-{{.U}}</section>{{end}}"@
}

/// Templates `u0` .. `u{k-1}`, in order.
pub open spec fn unrelated_definitions(k: nat) -> Seq<char>
    decreases k,
{
    if k == 0 {
        Seq::empty()
    } else {
        unrelated_definitions((k - 1) as nat) + unrelated_definition((k - 1) as nat)
    }
}

/// The whole template set: `root`, the chain, then the unrelated templates.
pub open spec fn template_set_source(connected_count: nat, unrelated_count: nat) -> Seq<char> {
    root_definition() + connected_definitions(connected_count, connected_count)
        + unrelated_definitions(unrelated_count)
}

/// The redefinition of `t{index}` made in step `iteration`: its link carries
/// the step as query, and it still calls the next template of the chain (or
/// prints `.X` when it is the last).
pub open spec fn single_update_source(index: nat, iteration: nat, connected_count: nat) -> Seq<
    char,
> {
    let next = if index + 1 < connected_count {
        template_call(index + 1)
    } else {
        "{{.X}}"@
    };
    "{{define \"t"@ + decimal(index) + "\"}}<a href=\"/p"@ + decimal(index) + "/{{.U}}?v="@
        + decimal(iteration) + "\">"@ + next + "</a>{{end}}"@
}

/// Law: the redefinition of `t{index}` made by an update calls the same next
/// template as `t{index}` of the template set, so the chain stays connected.
pub proof fn lemma_update_keeps_the_chain(index: nat, iteration: nat, connected_count: nat)
    requires
        index + 1 < connected_count,
    ensures
        ends_with(single_update_source(index, iteration, connected_count), template_call(index + 1) + "</a>{{end}}"@),
        ends_with(connected_definition(index, connected_count), template_call(index + 1) + "</a>{{end}}"@),
{
    let tail = template_call(index + 1) + "</a>{{end}}"@;
    let u_head = "{{define \"t"@ + decimal(index) + "\"}}<a href=\"/p"@ + decimal(index) + "/{{.U}}?v="@
        + decimal(iteration) + "\">"@;
    let c_head = "{{define \"t"@ + decimal(index) + "\"}}<a href=\"/p"@ + decimal(index) + "/{{.U}}?q="@
        + decimal(index) + "\">"@;
    assert(single_update_source(index, iteration, connected_count) =~= u_head + tail);
    assert(connected_definition(index, connected_count) =~= c_head + tail);
    assert((u_head + tail).subrange(u_head.len() as int, (u_head + tail).len() as int) =~= tail);
    assert((c_head + tail).subrange(c_head.len() as int, (c_head + tail).len() as int) =~= tail);
}

/// The start of the link of `t{index}`: everything before its query key.
pub open spec fn link_head(index: nat) -> Seq<char> {
    "{{define \"t"@ + decimal(index) + "\"}}<a href=\"/p"@ + decimal(index) + "/{{.U}}"@
}

/// The rest of the link of `t{index}` after a query key whose value is
/// `index`: the value, then the call of the next template.
pub open spec fn link_tail(index: nat) -> Seq<char> {
    decimal(index) + "\">"@ + template_call(index + 1) + "</a>{{end}}"@
}

/// Whether `s` holds `t` starting at position `k`.
pub open spec fn occurs_at(s: Seq<char>, t: Seq<char>, k: int) -> bool {
    0 <= k && k + t.len() <= s.len() && s.subrange(k, k + t.len()) == t
}

/// Templates `t0` .. `t{k-1}` of a chain hold `t{i}` right after `t0` .. `t{i-1}`.
proof fn lemma_chain_split(i: nat, k: nat, count: nat) -> (rest: Seq<char>)
    requires
        i < k,
    ensures
        connected_definitions(k, count) == connected_definitions(i, count) + connected_definition(
            i,
            count,
        ) + rest,
    decreases k,
{
    if k == i + 1 {
        let rest = Seq::<char>::empty();
        assert(connected_definitions(k, count) =~= connected_definitions(i, count)
            + connected_definition(i, count) + rest);
        rest
    } else {
        let r = lemma_chain_split(i, (k - 1) as nat, count);
        let rest = r + connected_definition((k - 1) as nat, count);
        assert(connected_definitions(k, count) =~= connected_definitions(i, count)
            + connected_definition(i, count) + rest);
        rest
    }
}

/// Law: an update of `t{index}` made in step `index` is, once its query key
/// `?v=` is read as `?q=`, the very definition of `t{index}` that the template
/// set holds.
pub proof fn lemma_update_matches_the_set(index: nat, connected_count: nat, unrelated_count: nat)
    requires
        index + 1 < connected_count,
    ensures
        single_update_source(index, index, connected_count) == link_head(index) + "?v="@ + link_tail(
            index,
        ),
        exists|k: int|
            occurs_at(
                template_set_source(connected_count, unrelated_count),
                link_head(index) + "?q="@ + link_tail(index),
                k,
            ),
{
    reveal_strlit("/{{.U}}?v=");
    reveal_strlit("/{{.U}}?q=");
    reveal_strlit("/{{.U}}");
    reveal_strlit("?v=");
    reveal_strlit("?q=");
    assert("/{{.U}}?v="@ =~= "/{{.U}}"@ + "?v="@);
    assert("/{{.U}}?q="@ =~= "/{{.U}}"@ + "?q="@);
    let head = link_head(index);
    let tail = link_tail(index);
    assert(single_update_source(index, index, connected_count) =~= head + "?v="@ + tail);
    let def = connected_definition(index, connected_count);
    assert(def =~= head + "?q="@ + tail);
    let rest = lemma_chain_split(index, connected_count, connected_count);
    let before = root_definition() + connected_definitions(index, connected_count);
    let set = template_set_source(connected_count, unrelated_count);
    assert(set =~= before + def + (rest + unrelated_definitions(unrelated_count)));
    let k = before.len() as int;
    assert(set.subrange(k, k + def.len()) =~= def);
    assert(occurs_at(set, head + "?q="@ + tail, k));
}

/// Law: the unrelated templates are `u0`, `u1`, ... in increasing order:
/// none before the first, and the `k + 1` first are the `k` first followed by
/// `u{k}`, a section whose data id is `k`.
pub proof fn lemma_unrelated_templates_in_order(k: nat)
    ensures
        unrelated_definitions(0) == Seq::<char>::empty(),
        unrelated_definitions(k + 1) == unrelated_definitions(k) + ("{{define \"u"@ + decimal(k)
            + "\"}}<section data-id=\""@ + decimal(k) + "\">{{.X}}-{{.U}}</section>{{end}}"@),
{
}

/// Law: the chain templates are `t0`, `t1`, ... in increasing order; `t{k}`
/// links to `/p{k}/` with query `q={k}` around a call of `t{k+1}`, and the
/// last one prints `.X`.
pub proof fn lemma_chain_templates_in_order(k: nat, count: nat)
    requires
        k < count,
    ensures
        connected_definitions(0, count) == Seq::<char>::empty(),
        k + 1 < count ==> connected_definitions(k + 1, count) == connected_definitions(k, count) + (
        "{{define \"t"@ + decimal(k) + "\"}}<a href=\"/p"@ + decimal(k) + "/{{.U}}?q="@ + decimal(k)
            + "\">{{template \"t"@ + decimal(k + 1) + "\" .}}</a>{{end}}"@),
        k + 1 == count ==> connected_definitions(k + 1, count) == connected_definitions(k, count) + (
        "{{define \"t"@ + decimal(k) + "\"}}<span>{{.X}}</span>{{end}}"@),
{
    reveal_strlit("\">");
    reveal_strlit("{{template \"t");
    reveal_strlit("\">{{template \"t");
    reveal_strlit("\" .}}");
    reveal_strlit("</a>{{end}}");
    reveal_strlit("\" .}}</a>{{end}}");
    assert("\">{{template \"t"@ =~= "\">"@ + "{{template \"t"@);
    assert("\" .}}</a>{{end}}"@ =~= "\" .}}"@ + "</a>{{end}}"@);
    if k + 1 < count {
        assert(connected_definition(k, count) =~= "{{define \"t"@ + decimal(k) + "\"}}<a href=\"/p"@
            + decimal(k) + "/{{.U}}?q="@ + decimal(k) + "\">{{template \"t"@ + decimal(k + 1)
            + "\" .}}</a>{{end}}"@);
    }
}

/// Law: the template set begins with `root`, which calls `t0`, and holds,
/// after the chain, the definition of every unrelated template `u{j}`; `u{j}`
/// starts where the templates before it end.
pub proof fn lemma_set_holds_every_unrelated_template(
    connected_count: nat,
    unrelated_count: nat,
    j: nat,
)
    requires
        j < unrelated_count,
    ensures
        template_set_source(connected_count, unrelated_count).take(
            "{{define \"root\"}}{{template \"t0\" .}}{{end}}"@.len() as int,
        ) == "{{define \"root\"}}{{template \"t0\" .}}{{end}}"@,
        occurs_at(
            template_set_source(connected_count, unrelated_count),
            "{{define \"u"@ + decimal(j) + "\"}}<section data-id=\""@ + decimal(j)
                + "\">{{.X}}-{{.U}}</section>{{end}}"@,
            template_set_source(connected_count, unrelated_count).len() - unrelated_definitions(
                unrelated_count,
            ).len() + unrelated_definitions(j).len(),
        ),
{
    let set = template_set_source(connected_count, unrelated_count);
    let root = "{{define \"root\"}}{{template \"t0\" .}}{{end}}"@;
    let chain = connected_definitions(connected_count, connected_count);
    assert(set =~= root + (chain + unrelated_definitions(unrelated_count)));
    assert(set.take(root.len() as int) =~= root);
    let rest = lemma_unrelated_split(j, unrelated_count);
    let def = unrelated_definition(j);
    assert(set =~= (root + chain + unrelated_definitions(j)) + def + rest);
    let k = (root + chain + unrelated_definitions(j)).len() as int;
    assert(set.subrange(k, k + def.len()) =~= def);
}

/// Templates `u0` .. `u{k-1}` hold `u{j}` right after `u0` .. `u{j-1}`.
proof fn lemma_unrelated_split(j: nat, k: nat) -> (rest: Seq<char>)
    requires
        j < k,
    ensures
        unrelated_definitions(k) == unrelated_definitions(j) + unrelated_definition(j) + rest,
    decreases k,
{
    if k == j + 1 {
        let rest = Seq::<char>::empty();
        assert(unrelated_definitions(k) =~= unrelated_definitions(j) + unrelated_definition(j) + rest);
        rest
    } else {
        let r = lemma_unrelated_split(j, (k - 1) as nat);
        let rest = r + unrelated_definition((k - 1) as nat);
        assert(unrelated_definitions(k) =~= unrelated_definitions(j) + unrelated_definition(j) + rest);
        rest
    }
}

/// Law: the redefinition of `t{index}` made in step `iteration` links to
/// `/p{index}/` with query `v={iteration}` (the step itself, whatever it is),
/// and calls `t{index+1}` when that template exists, or prints `.X`.
pub proof fn lemma_update_shape(index: nat, iteration: nat, connected_count: nat)
    ensures
        single_update_source(index, iteration, connected_count) == "{{define \"t"@ + decimal(index)
            + "\"}}<a href=\"/p"@ + decimal(index) + "/{{.U}}?v="@ + decimal(iteration) + "\">"@ + (
        if index + 1 < connected_count {
            "{{template \"t"@ + decimal(index + 1) + "\" .}}"@
        } else {
            "{{.X}}"@
        }) + "</a>{{end}}"@,
{
}

/// Law: two updates of the same template in different steps differ only in
/// the query value, which is the decimal text of each step.
pub proof fn lemma_updates_differ_only_in_step(
    index: nat,
    step1: nat,
    step2: nat,
    connected_count: nat,
)
    ensures
        exists|head: Seq<char>, tail: Seq<char>|
            single_update_source(index, step1, connected_count) == head + decimal(step1) + tail
                && single_update_source(index, step2, connected_count) == head + decimal(step2)
                + tail,
{
    let head = "{{define \"t"@ + decimal(index) + "\"}}<a href=\"/p"@ + decimal(index) + "/{{.U}}?v="@;
    let next = if index + 1 < connected_count {
        template_call(index + 1)
    } else {
        "{{.X}}"@
    };
    let tail = "\">"@ + next + "</a>{{end}}"@;
    assert(single_update_source(index, step1, connected_count) =~= head + decimal(step1) + tail);
    assert(single_update_source(index, step2, connected_count) =~= head + decimal(step2) + tail);
}

/// Whether `s` ends with `suffix`.
pub open spec fn ends_with(s: Seq<char>, suffix: Seq<char>) -> bool {
    suffix.len() <= s.len() && s.subrange(s.len() - suffix.len(), s.len() as int) == suffix
}

/// Appends the call of template `t{i}` to `out`.
fn push_template_call(out: &mut String, i: usize)
    ensures
        final(out)@ == old(out)@ + template_call(i as nat),
{
    let ghost start = out@;
    out.append("{{template \"t");
    push_decimal(out, i as u128);
    out.append("\" .}}");
    assert(out@ =~= start + template_call(i as nat));
}

/// Appends template `t{i}` of a chain of `count` to `out`.
fn push_connected_definition(out: &mut String, i: usize, count: usize)
    requires
        i < count,
    ensures
        final(out)@ == old(out)@ + connected_definition(i as nat, count as nat),
{
    let ghost start = out@;
    out.append("{{define \"t");
    push_decimal(out, i as u128);
    if i + 1 < count {
        out.append("\"}}<a href=\"/p");
        push_decimal(out, i as u128);
        out.append("/{{.U}}?q=");
        push_decimal(out, i as u128);
        out.append("\">");
        push_template_call(out, i + 1);
        out.append("</a>{{end}}");
    } else {
        out.append("\"}}<span>{{.X}}</span>{{end}}");
    }
    assert(out@ =~= start + connected_definition(i as nat, count as nat));
}

/// Appends template `u{i}` to `out`.
fn push_unrelated_definition(out: &mut String, i: usize)
    ensures
        final(out)@ == old(out)@ + unrelated_definition(i as nat),
{
    let ghost start = out@;
    out.append("{{define \"u");
    push_decimal(out, i as u128);
    out.append("\"}}<section data-id=\"");
    push_decimal(out, i as u128);
    out.append("\">{{.X}}-{{.U}}</section>{{end}}");
    assert(out@ =~= start + unrelated_definition(i as nat));
}

/// The source of a template set: `root`, a chain of `connected_count`
/// templates `t0`, `t1`, ... each calling the next, and `unrelated_count`
/// templates `u0`, `u1`, ... that nothing calls.
pub fn build_template_set(connected_count: usize, unrelated_count: usize) -> (source: String)
    ensures
        source@ == template_set_source(connected_count as nat, unrelated_count as nat),
{
    let mut source = String::new();
    source.append("{{define \"root\"}}{{template \"t0\" .}}{{end}}");
    let mut i: usize = 0;
    while i < connected_count
        invariant
            i <= connected_count,
            source@ == root_definition() + connected_definitions(i as nat, connected_count as nat),
        decreases connected_count - i,
    {
        let ghost before = source@;
        push_connected_definition(&mut source, i, connected_count);
        assert(source@ =~= root_definition() + connected_definitions(
            (i + 1) as nat,
            connected_count as nat,
        ));
        i = i + 1;
    }
    let ghost chain = source@;
    let mut j: usize = 0;
    while j < unrelated_count
        invariant
            j <= unrelated_count,
            chain == root_definition() + connected_definitions(
                connected_count as nat,
                connected_count as nat,
            ),
            source@ == chain + unrelated_definitions(j as nat),
        decreases unrelated_count - j,
    {
        push_unrelated_definition(&mut source, j);
        assert(source@ =~= chain + unrelated_definitions((j + 1) as nat));
        j = j + 1;
    }
    source
}

/// The redefinition of template `t{index}` for step `iteration` of the
/// re-analysis benchmark.
pub fn build_single_update(index: usize, iteration: usize, connected_count: usize) -> (source:
    String)
    requires
        index < usize::MAX,
    ensures
        source@ == single_update_source(index as nat, iteration as nat, connected_count as nat),
{
    let mut next = String::new();
    if index + 1 < connected_count {
        push_template_call(&mut next, index + 1);
    } else {
        next.append("{{.X}}");
    }
    let mut source = String::new();
    source.append("{{define \"t");
    push_decimal(&mut source, index as u128);
    source.append("\"}}<a href=\"/p");
    push_decimal(&mut source, index as u128);
    source.append("/{{.U}}?v=");
    push_decimal(&mut source, iteration as u128);
    source.append("\">");
    source.append(next.as_str());
    source.append("</a>{{end}}");
    assert(source@ =~= single_update_source(
        index as nat,
        iteration as nat,
        connected_count as nat,
    ));
    source
}

} // verus!
