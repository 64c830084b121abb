//! Rewriting values leaf by leaf: substituting variables, and passing
//! between what TOML and what JSON can say.

use vstd::prelude::*;
use crate::seed::{spec_substitute, substitute};
use crate::strmap::StrMap;
use crate::text::str_eq;
use crate::value::{
    lemma_fields, lemma_values, spec_fields, spec_values, Config, ConfigView, Field, FieldView,
};

verus! {

/// What is done to the values that hold no other values.
#[derive(Debug, Clone, Copy, PartialEq, Eq, Structural)]
pub enum Rule {
    /// The placeholders in strings are replaced by the variables' values.
    Substitute,
    /// Nothing becomes the string `null`, for TOML cannot say nothing.
    NullAsText,
    /// A date becomes a string, and a number that is not finite becomes
    /// nothing, for JSON can say neither.
    ForJson,
}

/// Whether a number, as it is written, is not finite.
pub open spec fn spec_not_finite(number: Seq<char>) -> bool {
    number == "NaN"@ || number == "inf"@ || number == "-inf"@
}

/// What a rule makes of a value that holds no other values.
pub open spec fn spec_leaf(
    rule: Rule,
    value: ConfigView,
    keys: Seq<Seq<char>>,
    vars: Map<Seq<char>, Seq<char>>,
) -> ConfigView {
    match (rule, value) {
        (Rule::Substitute, ConfigView::String(s)) => ConfigView::String(
            spec_substitute(s, keys, vars),
        ),
        (Rule::NullAsText, ConfigView::Null) => ConfigView::String("null"@),
        (Rule::ForJson, ConfigView::Datetime(d)) => ConfigView::String(d),
        (Rule::ForJson, ConfigView::Float(f)) => if spec_not_finite(f) {
            ConfigView::Null
        } else {
            value
        },
        _ => value,
    }
}

/// The first `n` values of a list, rewritten.
pub open spec fn spec_rewrite_values(
    values: Seq<ConfigView>,
    n: nat,
    rule: Rule,
    keys: Seq<Seq<char>>,
    vars: Map<Seq<char>, Seq<char>>,
) -> Seq<ConfigView>
    decreases values, n,
{
    if n == 0 || n > values.len() {
        Seq::empty()
    } else {
        spec_rewrite_values(values, (n - 1) as nat, rule, keys, vars).push(
            spec_rewrite(values[n - 1], 0, rule, keys, vars),
        )
    }
}

/// The first `n` fields of a table, their values rewritten.
pub open spec fn spec_rewrite_fields(
    fields: Seq<FieldView>,
    n: nat,
    rule: Rule,
    keys: Seq<Seq<char>>,
    vars: Map<Seq<char>, Seq<char>>,
) -> Seq<FieldView>
    decreases fields, n,
{
    if n == 0 || n > fields.len() {
        Seq::empty()
    } else {
        spec_rewrite_fields(fields, (n - 1) as nat, rule, keys, vars).push(
            FieldView {
                key: fields[n - 1].key,
                value: spec_rewrite(fields[n - 1].value, 0, rule, keys, vars),
            },
        )
    }
}

/// A value rewritten by a rule, however deep what the rule changes lies.
/// (The second argument is always zero.)
pub open spec fn spec_rewrite(
    value: ConfigView,
    zero: nat,
    rule: Rule,
    keys: Seq<Seq<char>>,
    vars: Map<Seq<char>, Seq<char>>,
) -> ConfigView
    decreases value, zero,
{
    match value {
        ConfigView::Array(values) => ConfigView::Array(
            spec_rewrite_values(values, values.len(), rule, keys, vars),
        ),
        ConfigView::Table(fields) => ConfigView::Table(
            spec_rewrite_fields(fields, fields.len(), rule, keys, vars),
        ),
        other => spec_leaf(rule, other, keys, vars),
    }
}

/// Rewrites a value by a rule.  The variables matter to substitution only.
pub fn rewrite(value: &Config, rule: Rule, vars: &StrMap<String>) -> (out: Config)
    ensures
        out@ == spec_rewrite(value@, 0, rule, vars.keys(), vars@),
    decreases value,
{
    match value {
        Config::String(s) => match rule {
            Rule::Substitute => Config::String(substitute(s.as_str(), vars)),
            _ => Config::String(s.clone()),
        },
        Config::Integer(i) => Config::Integer(*i),
        Config::Float(f) => match rule {
            Rule::ForJson => if str_eq(f.as_str(), "NaN") || str_eq(f.as_str(), "inf") || str_eq(
                f.as_str(),
                "-inf",
            ) {
                Config::Null
            } else {
                Config::Float(f.clone())
            },
            _ => Config::Float(f.clone()),
        },
        Config::Boolean(b) => Config::Boolean(*b),
        Config::Datetime(d) => match rule {
            Rule::ForJson => Config::String(d.clone()),
            _ => Config::Datetime(d.clone()),
        },
        Config::Null => match rule {
            Rule::NullAsText => Config::String("null".to_owned()),
            _ => Config::Null,
        },
        Config::Array(values) => {
            let ghost views = spec_values(values@, values@.len());
            proof {
                lemma_values(values@, values@.len());
            }
            let mut out: Vec<Config> = Vec::new();
            let mut i: usize = 0;
            assert(spec_values(out@, 0) =~= spec_rewrite_values(views, 0, rule, vars.keys(), vars@));
            while i < values.len()
                invariant
                    i <= values.len(),
                    value is Array,
                    value->Array_0 == *values,
                    views == spec_values(values@, values@.len()),
                    views.len() == values@.len(),
                    forall|k: int| 0 <= k < views.len() ==> #[trigger] views[k] == values@[k]@,
                    out@.len() == i,
                    spec_values(out@, i as nat) == spec_rewrite_values(
                        views,
                        i as nat,
                        rule,
                        vars.keys(),
                        vars@,
                    ),
                decreases values.len() - i,
            {
                proof {
                    assert(decreases_to!(value => value->Array_0));
                    assert(decreases_to!(values => values[i as int]));
                }
                let ghost before = out@;
                let item = rewrite(&values[i], rule, vars);
                out.push(item);
                proof {
                    assert(views[i as int] == values@[i as int]@);
                    lemma_values(before, i as nat);
                    lemma_values(out@, i as nat);
                    assert(spec_values(out@, i as nat) =~= spec_values(before, i as nat));
                }
                i += 1;
            }
            Config::Array(out)
        },
        Config::Table(fields) => {
            let ghost views = spec_fields(fields@, fields@.len());
            proof {
                lemma_fields(fields@, fields@.len());
            }
            let mut out: Vec<Field> = Vec::new();
            let mut i: usize = 0;
            assert(spec_fields(out@, 0) =~= spec_rewrite_fields(views, 0, rule, vars.keys(), vars@));
            while i < fields.len()
                invariant
                    i <= fields.len(),
                    value is Table,
                    value->Table_0 == *fields,
                    views == spec_fields(fields@, fields@.len()),
                    views.len() == fields@.len(),
                    forall|k: int| 0 <= k < views.len() ==> #[trigger] views[k] == fields@[k]@,
                    out@.len() == i,
                    spec_fields(out@, i as nat) == spec_rewrite_fields(
                        views,
                        i as nat,
                        rule,
                        vars.keys(),
                        vars@,
                    ),
                decreases fields.len() - i,
            {
                proof {
                    assert(decreases_to!(value => value->Table_0));
                    assert(decreases_to!(fields => fields[i as int]));
                    assert(decreases_to!(fields[i as int] => fields[i as int].value));
                }
                let ghost before = out@;
                let item = rewrite(&fields[i].value, rule, vars);
                out.push(Field { key: fields[i].key.clone(), value: item });
                proof {
                    assert(views[i as int] == fields@[i as int]@);
                    lemma_fields(before, i as nat);
                    lemma_fields(out@, i as nat);
                    assert(spec_fields(out@, i as nat) =~= spec_fields(before, i as nat));
                }
                i += 1;
            }
            Config::Table(out)
        },
    }
}

/// Whether a rule leaves a value that holds no other values as it is.
pub open spec fn spec_leaf_settled(rule: Rule, leaf: ConfigView) -> bool {
    spec_leaf(rule, leaf, Seq::empty(), Map::empty()) == leaf
}

/// Whether a rule leaves a value as it is, however deep one looks: for
/// [`Rule::NullAsText`], that the value nowhere holds nothing; for
/// [`Rule::ForJson`], that it holds no date and no number that is not
/// finite.
pub open spec fn spec_settled(value: ConfigView, rule: Rule) -> bool
    decreases value,
{
    match value {
        ConfigView::Array(values) => forall|i: int|
            0 <= i < values.len() ==> spec_settled(#[trigger] values[i], rule),
        ConfigView::Table(fields) => forall|i: int|
            0 <= i < fields.len() ==> spec_settled((#[trigger] fields[i]).value, rule),
        leaf => spec_leaf_settled(rule, leaf),
    }
}

/// The `k`-th of the first `n` rewritten values is the `k`-th value,
/// rewritten.
pub proof fn lemma_rewrite_values(
    values: Seq<ConfigView>,
    n: nat,
    rule: Rule,
    keys: Seq<Seq<char>>,
    vars: Map<Seq<char>, Seq<char>>,
)
    requires
        n <= values.len(),
    ensures
        spec_rewrite_values(values, n, rule, keys, vars).len() == n,
        forall|k: int|
            0 <= k < n ==> #[trigger] spec_rewrite_values(values, n, rule, keys, vars)[k]
                == spec_rewrite(values[k], 0, rule, keys, vars),
    decreases n,
{
    if n > 0 {
        lemma_rewrite_values(values, (n - 1) as nat, rule, keys, vars);
    }
}

/// The `k`-th of the first `n` rewritten fields is the `k`-th field, its
/// value rewritten.
pub proof fn lemma_rewrite_fields(
    fields: Seq<FieldView>,
    n: nat,
    rule: Rule,
    keys: Seq<Seq<char>>,
    vars: Map<Seq<char>, Seq<char>>,
)
    requires
        n <= fields.len(),
    ensures
        spec_rewrite_fields(fields, n, rule, keys, vars).len() == n,
        forall|k: int|
            0 <= k < n ==> #[trigger] spec_rewrite_fields(fields, n, rule, keys, vars)[k] == (
            FieldView {
                key: fields[k].key,
                value: spec_rewrite(fields[k].value, 0, rule, keys, vars),
            }),
    decreases n,
{
    if n > 0 {
        lemma_rewrite_fields(fields, (n - 1) as nat, rule, keys, vars);
    }
}

/// What was made fit for TOML or for JSON is fit for it: the rule that made
/// it so would change nothing more.
pub proof fn law_rewriting_settles(
    value: ConfigView,
    rule: Rule,
    keys: Seq<Seq<char>>,
    vars: Map<Seq<char>, Seq<char>>,
)
    requires
        rule != Rule::Substitute,
    ensures
        spec_settled(spec_rewrite(value, 0, rule, keys, vars), rule),
    decreases value,
{
    reveal_strlit("NaN");
    reveal_strlit("inf");
    reveal_strlit("-inf");
    match value {
        ConfigView::Array(values) => {
            lemma_rewrite_values(values, values.len(), rule, keys, vars);
            let out = spec_rewrite_values(values, values.len(), rule, keys, vars);
            assert forall|i: int| 0 <= i < out.len() implies spec_settled(
                #[trigger] out[i],
                rule,
            ) by {
                law_rewriting_settles(values[i], rule, keys, vars);
            }
        },
        ConfigView::Table(fields) => {
            lemma_rewrite_fields(fields, fields.len(), rule, keys, vars);
            let out = spec_rewrite_fields(fields, fields.len(), rule, keys, vars);
            assert forall|i: int| 0 <= i < out.len() implies spec_settled(
                (#[trigger] out[i]).value,
                rule,
            ) by {
                law_rewriting_settles(fields[i].value, rule, keys, vars);
            }
        },
        _ => {},
    }
}

/// What is fit already stays as it is.
pub proof fn law_settled_values_stay(
    value: ConfigView,
    rule: Rule,
    keys: Seq<Seq<char>>,
    vars: Map<Seq<char>, Seq<char>>,
)
    requires
        rule != Rule::Substitute,
        spec_settled(value, rule),
    ensures
        spec_rewrite(value, 0, rule, keys, vars) == value,
    decreases value,
{
    match value {
        ConfigView::Array(values) => {
            lemma_rewrite_values(values, values.len(), rule, keys, vars);
            let out = spec_rewrite_values(values, values.len(), rule, keys, vars);
            assert forall|i: int| 0 <= i < out.len() implies #[trigger] out[i] == values[i] by {
                law_settled_values_stay(values[i], rule, keys, vars);
            }
            assert(out =~= values);
        },
        ConfigView::Table(fields) => {
            lemma_rewrite_fields(fields, fields.len(), rule, keys, vars);
            let out = spec_rewrite_fields(fields, fields.len(), rule, keys, vars);
            assert forall|i: int| 0 <= i < out.len() implies #[trigger] out[i] == fields[i] by {
                law_settled_values_stay(fields[i].value, rule, keys, vars);
            }
            assert(out =~= fields);
        },
        _ => {},
    }
}

} // verus!
