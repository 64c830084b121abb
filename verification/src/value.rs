//! Configuration values: what a TOML document holds, as plain data.

use vstd::prelude::*;
use crate::rewrite::{
    law_rewriting_settles, rewrite, spec_rewrite_fields, spec_settled, Rule,
};
use crate::strmap::StrMap;
use crate::text::push_char;

verus! {

/// A configuration value.
#[derive(Debug, PartialEq, Eq)]
pub enum Config {
    /// A string.
    String(String),
    /// A whole number.
    Integer(i64),
    /// A number with a fraction, as it is written.
    Float(String),
    /// A truth value.
    Boolean(bool),
    /// A date or time, as it is written.
    Datetime(String),
    /// A list of values.
    Array(Vec<Config>),
    /// A table: keys with their values.
    Table(Vec<Field>),
    /// Nothing: what JSON writes as `null`.  No TOML document holds it.
    Null,
}

/// One key of a table, with its value.
#[derive(Debug, PartialEq, Eq)]
pub struct Field {
    pub key: String,
    pub value: Config,
}

/// What the contracts say of a [`Config`].
pub enum ConfigView {
    String(Seq<char>),
    Integer(i64),
    Float(Seq<char>),
    Boolean(bool),
    Datetime(Seq<char>),
    Array(Seq<ConfigView>),
    Table(Seq<FieldView>),
    Null,
}

/// What the contracts say of a [`Field`].
pub struct FieldView {
    pub key: Seq<char>,
    pub value: ConfigView,
}

/// The views of the first `n` values of a list.
pub open spec fn spec_values(values: Seq<Config>, n: nat) -> Seq<ConfigView>
    decreases values, n,
{
    if n == 0 || n > values.len() {
        Seq::empty()
    } else {
        spec_values(values, (n - 1) as nat).push(spec_value(values[n - 1], 0))
    }
}

/// The views of the first `n` fields of a table.
pub open spec fn spec_fields(fields: Seq<Field>, n: nat) -> Seq<FieldView>
    decreases fields, n,
{
    if n == 0 || n > fields.len() {
        Seq::empty()
    } else {
        spec_fields(fields, (n - 1) as nat).push(
            FieldView { key: fields[n - 1].key@, value: spec_value(fields[n - 1].value, 0) },
        )
    }
}

/// The view of a value.  (The second argument is always zero.)
pub open spec fn spec_value(value: Config, zero: nat) -> ConfigView
    decreases value, zero,
{
    match value {
        Config::String(s) => ConfigView::String(s@),
        Config::Integer(i) => ConfigView::Integer(i),
        Config::Float(f) => ConfigView::Float(f@),
        Config::Boolean(b) => ConfigView::Boolean(b),
        Config::Datetime(d) => ConfigView::Datetime(d@),
        Config::Array(values) => ConfigView::Array(spec_values(values@, values@.len())),
        Config::Table(fields) => ConfigView::Table(spec_fields(fields@, fields@.len())),
        Config::Null => ConfigView::Null,
    }
}

impl View for Config {
    type V = ConfigView;

    open spec fn view(&self) -> ConfigView {
        spec_value(*self, 0)
    }
}

impl View for Field {
    type V = FieldView;

    open spec fn view(&self) -> FieldView {
        FieldView { key: self.key@, value: self.value@ }
    }
}

/// The views of a list of fields, in order.
pub open spec fn fields_view(fields: Seq<Field>) -> Seq<FieldView> {
    spec_fields(fields, fields.len())
}

/// The views of a list of values are the views of its values.
pub proof fn lemma_values(values: Seq<Config>, n: nat)
    requires
        n <= values.len(),
    ensures
        spec_values(values, n).len() == n,
        forall|k: int| 0 <= k < n ==> #[trigger] spec_values(values, n)[k] == values[k]@,
    decreases n,
{
    if n > 0 {
        lemma_values(values, (n - 1) as nat);
    }
}

/// The views of a list of fields are the views of its fields.
pub proof fn lemma_fields(fields: Seq<Field>, n: nat)
    requires
        n <= fields.len(),
    ensures
        spec_fields(fields, n).len() == n,
        forall|k: int| 0 <= k < n ==> #[trigger] spec_fields(fields, n)[k] == fields[k]@,
    decreases n,
{
    if n > 0 {
        lemma_fields(fields, (n - 1) as nat);
    }
}

/// The value of `key` among the first `n` fields: that of the last field
/// of that key.
pub open spec fn spec_lookup(fields: Seq<FieldView>, n: nat, key: Seq<char>) -> Option<ConfigView>
    decreases n,
{
    if n == 0 || n > fields.len() {
        None
    } else if fields[n - 1].key == key {
        Some(fields[n - 1].value)
    } else {
        spec_lookup(fields, (n - 1) as nat, key)
    }
}

/// What is found for a key among the first `n` fields is the value of one
/// of them.
pub proof fn lemma_lookup_among(fields: Seq<FieldView>, n: nat, key: Seq<char>)
    requires
        n <= fields.len(),
    ensures
        spec_lookup(fields, n, key) matches Some(v) ==> exists|i: int|
            0 <= i < n && (#[trigger] fields[i]).key == key && fields[i].value == v,
    decreases n,
{
    if n > 0 && fields[n - 1].key != key {
        lemma_lookup_among(fields, (n - 1) as nat, key);
    }
}

/// A field whose key no later field has is the one found for its key.
pub proof fn lemma_lookup_last(fields: Seq<FieldView>, n: nat, i: int)
    requires
        0 <= i < n <= fields.len(),
        forall|j: int| i < j < n ==> (#[trigger] fields[j]).key != fields[i].key,
    ensures
        spec_lookup(fields, n, fields[i].key) == Some(fields[i].value),
    decreases n,
{
    if n - 1 > i {
        lemma_lookup_last(fields, (n - 1) as nat, i);
    }
}

/// The value of `key` in a table.
pub open spec fn spec_get(fields: Seq<FieldView>, key: Seq<char>) -> Option<ConfigView> {
    spec_lookup(fields, fields.len(), key)
}

/// The fields of a value that is a table; none for any other value, and
/// for no value.
pub open spec fn spec_as_table(value: Option<ConfigView>) -> Seq<FieldView> {
    match value {
        Some(ConfigView::Table(fields)) => fields,
        _ => Seq::empty(),
    }
}

/// The string that a value is, if it is one.
pub open spec fn spec_as_str(value: Option<ConfigView>) -> Option<Seq<char>> {
    match value {
        Some(ConfigView::String(s)) => Some(s),
        _ => None,
    }
}

/// The value of `key` in a table.
pub fn get<'a>(fields: &'a Vec<Field>, key: &str) -> (value: Option<&'a Config>)
    ensures
        match value {
            Some(v) => spec_get(fields_view(fields@), key@) == Some(v@),
            None => spec_get(fields_view(fields@), key@) is None,
        },
{
    let ghost views = fields_view(fields@);
    proof {
        lemma_fields(fields@, fields@.len());
    }
    let mut n: usize = fields.len();
    while n > 0
        invariant
            n <= fields.len(),
            views == fields_view(fields@),
            views.len() == fields@.len(),
            forall|k: int| 0 <= k < views.len() ==> #[trigger] views[k] == fields@[k]@,
            spec_get(views, key@) == spec_lookup(views, n as nat, key@),
        decreases n,
    {
        if crate::text::str_eq(fields[n - 1].key.as_str(), key) {
            return Some(&fields[n - 1].value);
        }
        n -= 1;
    }
    None
}

/// The value of `key` in a table, if it is a string.
pub fn get_str<'a>(fields: &'a Vec<Field>, key: &str) -> (value: Option<&'a str>)
    ensures
        match value {
            Some(s) => spec_as_str(spec_get(fields_view(fields@), key@)) == Some(s@),
            None => spec_as_str(spec_get(fields_view(fields@), key@)) is None,
        },
{
    match get(fields, key) {
        Some(Config::String(s)) => Some(s.as_str()),
        _ => None,
    }
}

impl Config {
    /// A copy of the value.
    pub fn copy(&self) -> (same: Config)
        ensures
            same@ == self@,
        decreases self,
    {
        match self {
            Config::String(s) => Config::String(s.clone()),
            Config::Integer(i) => Config::Integer(*i),
            Config::Float(f) => Config::Float(f.clone()),
            Config::Boolean(b) => Config::Boolean(*b),
            Config::Datetime(d) => Config::Datetime(d.clone()),
            Config::Null => Config::Null,
            Config::Array(values) => {
                let mut out: Vec<Config> = Vec::new();
                let mut i: usize = 0;
                while i < values.len()
                    invariant
                        i <= values.len(),
                        self is Array,
                        self->Array_0 == *values,
                        out@.len() == i,
                        forall|k: int| 0 <= k < i ==> (#[trigger] out@[k])@ == values@[k]@,
                    decreases values.len() - i,
                {
                    proof {
                        assert(decreases_to!(self => self->Array_0));
                        assert(decreases_to!(values => values[i as int]));
                    }
                    out.push(values[i].copy());
                    i += 1;
                }
                proof {
                    lemma_values(values@, values@.len());
                    lemma_values(out@, out@.len());
                    assert(spec_values(out@, out@.len()) =~= spec_values(values@, values@.len()));
                }
                Config::Array(out)
            },
            Config::Table(fields) => {
                let mut out: Vec<Field> = Vec::new();
                let mut i: usize = 0;
                while i < fields.len()
                    invariant
                        i <= fields.len(),
                        self is Table,
                        self->Table_0 == *fields,
                        out@.len() == i,
                        forall|k: int| 0 <= k < i ==> (#[trigger] out@[k])@ == fields@[k]@,
                    decreases fields.len() - i,
                {
                    proof {
                        assert(decreases_to!(self => self->Table_0));
                        assert(decreases_to!(fields => fields[i as int]));
                        assert(decreases_to!(fields[i as int] => fields[i as int].value));
                    }
                    out.push(Field { key: fields[i].key.clone(), value: fields[i].value.copy() });
                    i += 1;
                }
                proof {
                    lemma_fields(fields@, fields@.len());
                    lemma_fields(out@, out@.len());
                    assert(spec_fields(out@, out@.len()) =~= spec_fields(fields@, fields@.len()));
                }
                Config::Table(out)
            },
        }
    }
}

/// The decimal digits of a natural number, the most significant first.
pub open spec fn spec_digits(n: nat) -> Seq<char>
    decreases n,
{
    if n < 10 {
        seq![((48 + n) as u8) as char]
    } else {
        spec_digits(n / 10).push(((48 + n % 10) as u8) as char)
    }
}

/// A whole number as it is written: in decimal, with a minus sign if it is
/// negative.
pub open spec fn spec_decimal(i: int) -> Seq<char> {
    if i < 0 {
        seq!['-'] + spec_digits((-i) as nat)
    } else {
        spec_digits(i as nat)
    }
}

/// The decimal digits of `n`.
fn digits(n: u64) -> (out: String)
    ensures
        out@ == spec_digits(n as nat),
    decreases n,
{
    if n < 10 {
        let mut out = String::new();
        push_char(&mut out, (48 + (n as u8)) as char);
        assert(out@ =~= spec_digits(n as nat));
        out
    } else {
        let mut out = digits(n / 10);
        push_char(&mut out, (48 + ((n % 10) as u8)) as char);
        out
    }
}

/// Writes a whole number in decimal.
pub fn to_decimal(i: i64) -> (out: String)
    ensures
        out@ == spec_decimal(i as int),
{
    if i < 0 {
        let magnitude: u64 = if i == i64::MIN {
            9223372036854775808u64
        } else {
            (-i) as u64
        };
        let mut out = "-".to_owned();
        out.append(digits(magnitude).as_str());
        proof {
            reveal_strlit("-");
            assert("-"@ =~= seq!['-']);
        }
        out
    } else {
        digits(i as u64)
    }
}

/// `toml::Value`, the values of the `toml` crate: carried through as they
/// are, nothing is known of what one holds.
#[verifier::external_type_specification]
#[verifier::external_body]
pub struct ExTomlValue(toml::Value);

/// What a TOML document says: the table that it holds, or why it is none.
pub uninterp spec fn toml_document(text: Seq<char>) -> Result<ConfigView, Seq<char>>;

/// What the contracts say of the outcome of parsing.
pub open spec fn parsed_view(parsed: Result<Config, String>) -> Result<ConfigView, Seq<char>> {
    match parsed {
        Ok(v) => Ok(v@),
        Err(e) => Err(e@),
    }
}

/// Copies a value of the `toml` crate into a [`Config`], variant by
/// variant.
///
/// Trusted: reads a `toml::Value`.  Nothing is promised of the outcome
/// here; [`parse_document`] names what a whole document gives.
#[verifier::external_body]
fn from_toml(value: &toml::Value) -> (out: Config) {
    match value {
        toml::Value::String(s) => Config::String(s.clone()),
        toml::Value::Integer(i) => Config::Integer(*i),
        toml::Value::Float(f) => Config::Float(f.to_string()),
        toml::Value::Boolean(b) => Config::Boolean(*b),
        toml::Value::Datetime(d) => Config::Datetime(d.to_string()),
        toml::Value::Array(a) => Config::Array(a.iter().map(from_toml).collect()),
        toml::Value::Table(t) => Config::Table(
            t.iter().map(|(k, v)| Field { key: k.clone(), value: from_toml(v) }).collect(),
        ),
    }
}

/// Parses a TOML document.
///
/// Trusted: calls `toml::from_str` for a `toml::Value`.  What it returns
/// depends on the text alone: the document's table, its keys in their
/// order, or the message of the error.
#[verifier::external_body]
fn parse_document(text: &str) -> (parsed: Result<Config, String>)
    ensures
        parsed_view(parsed) == toml_document(text@),
{
    toml::from_str::<toml::Value>(text).map(|v| from_toml(&v)).map_err(|e| e.to_string())
}

/// Whether each of the first `n` fields of a table holds a string.
pub open spec fn spec_all_strings(fields: Seq<FieldView>, n: nat) -> bool {
    forall|i: int| 0 <= i < n && i < fields.len() ==> (#[trigger] fields[i]).value is String
}

/// The strings of the first `n` fields of a table of strings, by key.
pub open spec fn spec_string_table(fields: Seq<FieldView>, n: nat) -> Map<Seq<char>, Seq<char>> {
    Map::new(
        |k: Seq<char>| spec_lookup(fields, n, k) is Some,
        |k: Seq<char>| spec_as_str(spec_lookup(fields, n, k)).unwrap(),
    )
}

/// The strings of a table, by key, if it holds nothing but strings.
pub fn string_table(fields: &Vec<Field>) -> (table: Option<crate::strmap::StrMap<String>>)
    ensures
        match table {
            Some(t) => spec_all_strings(fields_view(fields@), fields_view(fields@).len()) && t@
                == spec_string_table(fields_view(fields@), fields_view(fields@).len()),
            None => !spec_all_strings(fields_view(fields@), fields_view(fields@).len()),
        },
{
    let ghost views = fields_view(fields@);
    proof {
        lemma_fields(fields@, fields@.len());
    }
    let mut table: crate::strmap::StrMap<String> = crate::strmap::StrMap::new();
    let mut i: usize = 0;
    assert(table@ =~= spec_string_table(views, 0));
    while i < fields.len()
        invariant
            i <= fields.len(),
            views == fields_view(fields@),
            views.len() == fields@.len(),
            forall|k: int| 0 <= k < views.len() ==> #[trigger] views[k] == fields@[k]@,
            spec_all_strings(views, i as nat),
            table@ == spec_string_table(views, i as nat),
        decreases fields.len() - i,
    {
        let field = &fields[i];
        assert(views[i as int] == field@);
        match &field.value {
            Config::String(s) => {
                table.insert(field.key.clone(), s.clone());
            },
            _ => {
                assert(!(views[i as int].value is String));
                return None;
            },
        }
        assert(table@ =~= spec_string_table(views, (i + 1) as nat));
        i += 1;
    }
    Some(table)
}

/// What a table says when it is written as a TOML document: the text, or
/// why there is none.
pub uninterp spec fn toml_text(fields: Seq<FieldView>) -> Result<Seq<char>, Seq<char>>;

/// What the contracts say of the outcome of writing.
pub open spec fn written_view(written: Result<String, String>) -> Result<Seq<char>, Seq<char>> {
    match written {
        Ok(t) => Ok(t@),
        Err(e) => Err(e@),
    }
}

/// Reads a number with a fraction back into a value of the `toml` crate; a
/// text that is no such number stays a string.
///
/// Trusted: builds a `toml::Value`.  Nothing is promised of the outcome.
#[verifier::external_body]
fn number_to_toml(text: &str) -> (out: toml::Value) {
    text.parse().map(toml::Value::Float).unwrap_or_else(|_| toml::Value::String(text.to_owned()))
}

/// Reads a date or time back into a value of the `toml` crate; a text that
/// is none stays a string.
///
/// Trusted: builds a `toml::Value`.  Nothing is promised of the outcome.
#[verifier::external_body]
fn datetime_to_toml(text: &str) -> (out: toml::Value) {
    text.parse().map(toml::Value::Datetime).unwrap_or_else(
        |_| toml::Value::String(text.to_owned()),
    )
}

/// Copies a [`Config`] into a value of the `toml` crate, variant by
/// variant.  Nothing, which TOML cannot say, is not to be found in the
/// value.
///
/// Trusted: builds a `toml::Value`.  Nothing is promised of the outcome
/// here; [`write_document`] names what a whole table gives.
#[verifier::external_body]
fn to_toml(value: &Config) -> (out: toml::Value)
    requires
        spec_settled(value@, Rule::NullAsText),
{
    match value {
        Config::String(s) => toml::Value::String(s.clone()),
        Config::Integer(i) => toml::Value::Integer(*i),
        Config::Float(f) => number_to_toml(f),
        Config::Boolean(b) => toml::Value::Boolean(*b),
        Config::Datetime(d) => datetime_to_toml(d),
        Config::Array(a) => toml::Value::Array(a.iter().map(to_toml).collect()),
        Config::Table(t) => toml::Value::Table(
            t.iter().map(|f| (f.key.clone(), to_toml(&f.value))).collect(),
        ),
        Config::Null => toml::Value::String(String::new()),
    }
}

/// Writes a table as a TOML document.  Nothing, which TOML cannot say, is
/// not to be found in the table.
///
/// Trusted: calls `toml::to_string_pretty`.  What it returns depends on the
/// table alone: the document, or the message of the error.
#[verifier::external_body]
fn write_document(fields: &Vec<Field>) -> (written: Result<String, String>)
    requires
        spec_settled(ConfigView::Table(fields_view(fields@)), Rule::NullAsText),
    ensures
        written_view(written) == toml_text(fields_view(fields@)),
{
    let table: toml::Table = fields.iter().map(|f| (f.key.clone(), to_toml(&f.value))).collect();
    toml::to_string_pretty(&table).map_err(|e| e.to_string())
}

/// A table as TOML can say it: where it holds nothing, there is the string
/// `null`.
pub open spec fn spec_fit_for_toml(fields: Seq<FieldView>) -> Seq<FieldView> {
    spec_rewrite_fields(fields, fields.len(), Rule::NullAsText, Seq::empty(), Map::empty())
}

/// A copy of the fields of a table.
pub fn copy_fields(fields: &Vec<Field>) -> (same: Vec<Field>)
    ensures
        fields_view(same@) == fields_view(fields@),
{
    let mut same: Vec<Field> = Vec::new();
    let mut i: usize = 0;
    while i < fields.len()
        invariant
            i <= fields.len(),
            same@.len() == i,
            forall|k: int| 0 <= k < i ==> (#[trigger] same@[k])@ == fields@[k]@,
        decreases fields.len() - i,
    {
        same.push(Field { key: fields[i].key.clone(), value: fields[i].value.copy() });
        i += 1;
    }
    proof {
        lemma_fields(fields@, fields@.len());
        lemma_fields(same@, same@.len());
        assert(fields_view(same@) =~= fields_view(fields@));
    }
    same
}

/// Writes a table as a TOML document, once it is made fit for TOML.
pub fn to_document(fields: &Vec<Field>) -> (written: Result<String, String>)
    ensures
        written_view(written) == toml_text(spec_fit_for_toml(fields_view(fields@))),
{
    let table = Config::Table(copy_fields(fields));
    let none: StrMap<String> = StrMap::new();
    let fit = rewrite(&table, Rule::NullAsText, &none);
    proof {
        law_rewriting_settles(table@, Rule::NullAsText, none.keys(), none@);
    }
    assert(fit is Table);
    match &fit {
        Config::Table(fit_fields) => write_document(fit_fields),
        _ => Err(String::new()),
    }
}

impl Config {
    /// Parses a TOML document into the table that it holds.
    pub fn parse(text: &str) -> (parsed: Result<Config, String>)
        ensures
            parsed_view(parsed) == toml_document(text@),
    {
        parse_document(text)
    }
}

} // verus!
