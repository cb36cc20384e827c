//! The bridge from counts to rendered text: the declared placeholders, the
//! value that each takes from an aggregate, and the rendering of a template
//! with them.

use crate::counts::{AggregateCounts, Counts};
use crate::strings::{decimal, decimal_digits};
use crate::template::{
    expand, lemma_expand_depends_on_keys, lemma_expand_needs_every_placeholder, placeholders,
    text_values, FormatTemplate, TemplateError,
};
use vstd::hash_map::StringHashMap;
use vstd::prelude::*;
use vstd::string::*;

verus! {

/// The placeholder of `name`: the name between braces.
pub open spec fn placeholder(name: Seq<char>) -> Seq<char> {
    seq!['{'] + name + seq!['}']
}

/// The name that a placeholder holds between its braces.
pub open spec fn name_of(key: Seq<char>) -> Seq<char> {
    key.subrange(1, key.len() - 1)
}

/// The reasons that have a placeholder of their own.
pub open spec fn reason_names() -> Seq<Seq<char>> {
    seq![
        "assign"@,
        "author"@,
        "comment"@,
        "invitation"@,
        "manual"@,
        "mention"@,
        "review_requested"@,
        "security_alert"@,
        "state_change"@,
        "subscribed"@,
        "team_mention"@,
    ]
}

/// Whether `key` is one of the declared placeholders: that of the total, or
/// that of one of the reasons of [`reason_names`].
pub open spec fn is_declared(key: Seq<char>) -> bool {
    ||| key == placeholder("total"@)
    ||| exists|i: int| 0 <= i < reason_names().len() && key == placeholder(#[trigger] reason_names()[i])
}

/// The value of every declared placeholder under `counts`, as a decimal
/// numeral: the total for the placeholder of the total, and for the
/// placeholder of a reason the count of that reason, 0 where it was never
/// seen.
pub open spec fn values_of(counts: Counts) -> Map<Seq<char>, Seq<char>> {
    Map::new(
        |key: Seq<char>| is_declared(key),
        |key: Seq<char>|
            if key == placeholder("total"@) {
                decimal_digits(counts.total)
            } else {
                decimal_digits(counts.count(name_of(key)))
            },
    )
}

/// The text that a format string stands for under `counts`; an error with
/// the leftmost placeholder that is not declared.
pub open spec fn rendered(format: Seq<char>, counts: Counts) -> Result<Seq<char>, Seq<char>> {
    expand(format, values_of(counts))
}

/// Whether every placeholder of a format string is declared.
pub open spec fn is_valid_format(format: Seq<char>) -> bool {
    forall|j: int|
        0 <= j < placeholders(format).len() ==> is_declared(#[trigger] placeholders(format)[j])
}

/// A name is what stands between the braces of its placeholder.
pub proof fn lemma_name_of_placeholder(name: Seq<char>)
    ensures
        name_of(placeholder(name)) == name,
        placeholder(name).len() == name.len() + 2,
{
    assert(name_of(placeholder(name)) =~= name);
}

/// A format string renders exactly where it is valid, whatever the counts:
/// validity is settled once, and no aggregate can make a valid format string
/// fail or an invalid one render.
pub proof fn lemma_valid_format_always_renders(format: Seq<char>, counts: Counts)
    ensures
        rendered(format, counts) is Ok <==> is_valid_format(format),
{
    lemma_expand_needs_every_placeholder(format, 0, values_of(counts));
    assert forall|key: Seq<char>| values_of(counts).contains_key(key) == is_declared(key) by {}
}

/// A format string that is not valid fails under every aggregate on the same
/// placeholder: the leftmost one that is not declared.
pub proof fn lemma_invalid_format_fails_alike(format: Seq<char>, a: Counts, b: Counts)
    requires
        !is_valid_format(format),
    ensures
        rendered(format, a) is Err,
        rendered(format, a) == rendered(format, b),
        !is_declared(rendered(format, a)->Err_0),
{
    lemma_valid_format_always_renders(format, a);
    lemma_expand_needs_every_placeholder(format, 0, values_of(a));
    assert(values_of(a).dom() =~= values_of(b).dom());
    lemma_expand_depends_on_keys(format, 0, values_of(a), values_of(b));
}

/// The placeholder of `name`, as a string.
fn braced(name: &str) -> (key: String)
    ensures
        key@ == placeholder(name@),
{
    proof {
        reveal_strlit("{");
        reveal_strlit("}");
    }
    let mut key = "{".to_owned();
    key.append(name);
    key.append("}");
    assert(key@ =~= placeholder(name@));
    key
}

/// Sets the value of the placeholder of the reason `name`.
fn put_count(values: &mut StringHashMap<String>, counts: &AggregateCounts, name: &str)
    requires
        counts.wf(),
    ensures
        final(values)@.dom() == old(values)@.dom().insert(placeholder(name@)),
        text_values(final(values)@) == text_values(old(values)@).insert(
            placeholder(name@),
            decimal_digits(counts@.count(name@)),
        ),
{
    values.insert(braced(name), decimal(counts.get(name)));
    assert(text_values(values@) =~= text_values(old(values)@).insert(
        placeholder(name@),
        decimal_digits(counts@.count(name@)),
    ));
}

/// The values of the declared placeholders under `counts`.
pub fn placeholder_values(counts: &AggregateCounts) -> (values: StringHashMap<String>)
    requires
        counts.wf(),
    ensures
        text_values(values@) == values_of(counts@),
{
    let mut values: StringHashMap<String> = StringHashMap::new();
    values.insert(braced("total"), decimal(counts.total()));
    assert(text_values(values@) =~= Map::<Seq<char>, Seq<char>>::empty().insert(
        placeholder("total"@),
        decimal_digits(counts@.total),
    ));
    put_count(&mut values, counts, "assign");
    put_count(&mut values, counts, "author");
    put_count(&mut values, counts, "comment");
    put_count(&mut values, counts, "invitation");
    put_count(&mut values, counts, "manual");
    put_count(&mut values, counts, "mention");
    put_count(&mut values, counts, "review_requested");
    put_count(&mut values, counts, "security_alert");
    put_count(&mut values, counts, "state_change");
    put_count(&mut values, counts, "subscribed");
    put_count(&mut values, counts, "team_mention");
    proof {
        let names = reason_names();
        let got = text_values(values@);
        let want = values_of(counts@);
        reveal_strlit("total");
        reveal_strlit("assign");
        reveal_strlit("author");
        reveal_strlit("comment");
        reveal_strlit("invitation");
        reveal_strlit("manual");
        reveal_strlit("mention");
        reveal_strlit("review_requested");
        reveal_strlit("security_alert");
        reveal_strlit("state_change");
        reveal_strlit("subscribed");
        reveal_strlit("team_mention");
        assert(names.len() == 11);
        assert(names[0] == "assign"@ && names[1] == "author"@ && names[2] == "comment"@
            && names[3] == "invitation"@ && names[4] == "manual"@ && names[5] == "mention"@
            && names[6] == "review_requested"@ && names[7] == "security_alert"@ && names[8]
            == "state_change"@ && names[9] == "subscribed"@ && names[10] == "team_mention"@);
        assert forall|key: Seq<char>| got.contains_key(key) <==> want.contains_key(key) by {
            if got.contains_key(key) {
                assert(is_declared(key));
            }
        }
        lemma_name_of_placeholder("total"@);
        assert forall|i: int| 0 <= i < names.len() implies name_of(
            placeholder(#[trigger] names[i]),
        ) == names[i] && names[i] != "total"@ by {
            lemma_name_of_placeholder(names[i]);
        }
        assert forall|key: Seq<char>| got.contains_key(key) implies got[key] == want[key] by {
            if key != placeholder("total"@) {
                let i = choose|i: int|
                    0 <= i < names.len() && key == placeholder(#[trigger] names[i]);
                assert(name_of(key) == names[i]);
            }
        }
        assert(got =~= want);
    }
    values
}

/// Renders `format` with the counts of `counts`. Fails where the format
/// string holds a placeholder that is not declared, whatever the counts.
pub fn render(format: &FormatTemplate, counts: &AggregateCounts) -> (r: Result<
    String,
    TemplateError,
>)
    requires
        format.wf(),
        counts.wf(),
    ensures
        match r {
            Ok(text) => rendered(format@, counts@) == Ok::<Seq<char>, Seq<char>>(text@),
            Err(e) => rendered(format@, counts@) == Err::<Seq<char>, Seq<char>>(e@),
        },
        r is Ok <==> is_valid_format(format@),
{
    let values = placeholder_values(counts);
    proof {
        lemma_valid_format_always_renders(format@, counts@);
    }
    format.render_static_str(&values)
}

} // verus!
