//! The `rename_all` rules: how a field name becomes a column name.
use vstd::prelude::*;
use heck::{
    ToKebabCase, ToLowerCamelCase, ToShoutyKebabCase, ToShoutySnakeCase, ToSnakeCase,
    ToTrainCase, ToUpperCamelCase,
};
use crate::index::str_equal;

verus! {

/// A rule that renames every field of a container.
#[derive(Clone, Copy, Debug, PartialEq, Eq, Structural)]
pub enum RenameRule {
    /// `lowercase`
    Lower,
    /// `UPPERCASE`
    Upper,
    /// `PascalCase`
    Pascal,
    /// `camelCase`
    Camel,
    /// `snake_case`
    Snake,
    /// `SCREAMING_SNAKE_CASE`
    ScreamingSnake,
    /// `kebab-case`
    Kebab,
    /// `SCREAMING-KEBAB-CASE`
    ScreamingKebab,
    /// `Train-Case`
    Train,
}

/// The name by which `#[postgres(rename_all = "...")]` selects a rule.
pub open spec fn rule_name(rule: RenameRule) -> Seq<char> {
    match rule {
        RenameRule::Lower => "lowercase"@,
        RenameRule::Upper => "UPPERCASE"@,
        RenameRule::Pascal => "PascalCase"@,
        RenameRule::Camel => "camelCase"@,
        RenameRule::Snake => "snake_case"@,
        RenameRule::ScreamingSnake => "SCREAMING_SNAKE_CASE"@,
        RenameRule::Kebab => "kebab-case"@,
        RenameRule::ScreamingKebab => "SCREAMING-KEBAB-CASE"@,
        RenameRule::Train => "Train-Case"@,
    }
}

/// What `str::to_lowercase` returns (Unicode lower-casing).
pub uninterp spec fn to_lowercase(s: Seq<char>) -> Seq<char>;

/// What `str::to_uppercase` returns (Unicode upper-casing).
pub uninterp spec fn to_uppercase(s: Seq<char>) -> Seq<char>;

/// What `heck`'s `to_upper_camel_case` returns.
pub uninterp spec fn to_upper_camel_case(s: Seq<char>) -> Seq<char>;

/// What `heck`'s `to_lower_camel_case` returns.
pub uninterp spec fn to_lower_camel_case(s: Seq<char>) -> Seq<char>;

/// What `heck`'s `to_snake_case` returns.
pub uninterp spec fn to_snake_case(s: Seq<char>) -> Seq<char>;

/// What `heck`'s `to_shouty_snake_case` returns.
pub uninterp spec fn to_shouty_snake_case(s: Seq<char>) -> Seq<char>;

/// What `heck`'s `to_kebab_case` returns.
pub uninterp spec fn to_kebab_case(s: Seq<char>) -> Seq<char>;

/// What `heck`'s `to_shouty_kebab_case` returns.
pub uninterp spec fn to_shouty_kebab_case(s: Seq<char>) -> Seq<char>;

/// What `heck`'s `to_train_case` returns.
pub uninterp spec fn to_train_case(s: Seq<char>) -> Seq<char>;

/// The column name that `rule` makes of the field name `field`.
pub open spec fn renamed(rule: RenameRule, field: Seq<char>) -> Seq<char> {
    match rule {
        RenameRule::Lower => to_lowercase(field),
        RenameRule::Upper => to_uppercase(field),
        RenameRule::Pascal => to_upper_camel_case(field),
        RenameRule::Camel => to_lower_camel_case(field),
        RenameRule::Snake => to_snake_case(field),
        RenameRule::ScreamingSnake => to_shouty_snake_case(field),
        RenameRule::Kebab => to_kebab_case(field),
        RenameRule::ScreamingKebab => to_shouty_kebab_case(field),
        RenameRule::Train => to_train_case(field),
    }
}

/// `str::to_lowercase`.
#[verifier::external_body]
fn lowercase(s: &str) -> (res: String)
    ensures
        res@ == to_lowercase(s@),
{
    s.to_lowercase()
}

/// `str::to_uppercase`.
#[verifier::external_body]
fn uppercase(s: &str) -> (res: String)
    ensures
        res@ == to_uppercase(s@),
{
    s.to_uppercase()
}

/// `heck::ToUpperCamelCase::to_upper_camel_case` on `str`.
#[verifier::external_body]
fn upper_camel_case(s: &str) -> (res: String)
    ensures
        res@ == to_upper_camel_case(s@),
{
    s.to_upper_camel_case()
}

/// `heck::ToLowerCamelCase::to_lower_camel_case` on `str`.
#[verifier::external_body]
fn lower_camel_case(s: &str) -> (res: String)
    ensures
        res@ == to_lower_camel_case(s@),
{
    s.to_lower_camel_case()
}

/// `heck::ToSnakeCase::to_snake_case` on `str`.
#[verifier::external_body]
fn snake_case(s: &str) -> (res: String)
    ensures
        res@ == to_snake_case(s@),
{
    s.to_snake_case()
}

/// `heck::ToShoutySnakeCase::to_shouty_snake_case` on `str`.
#[verifier::external_body]
fn shouty_snake_case(s: &str) -> (res: String)
    ensures
        res@ == to_shouty_snake_case(s@),
{
    s.to_shouty_snake_case()
}

/// `heck::ToKebabCase::to_kebab_case` on `str`.
#[verifier::external_body]
fn kebab_case(s: &str) -> (res: String)
    ensures
        res@ == to_kebab_case(s@),
{
    s.to_kebab_case()
}

/// `heck::ToShoutyKebabCase::to_shouty_kebab_case` on `str`.
#[verifier::external_body]
fn shouty_kebab_case(s: &str) -> (res: String)
    ensures
        res@ == to_shouty_kebab_case(s@),
{
    s.to_shouty_kebab_case()
}

/// `heck::ToTrainCase::to_train_case` on `str`.
#[verifier::external_body]
fn train_case(s: &str) -> (res: String)
    ensures
        res@ == to_train_case(s@),
{
    s.to_train_case()
}

impl RenameRule {
    /// The rule that `rule` names, if any.
    pub fn from_str(rule: &str) -> (res: Option<RenameRule>)
        ensures
            match res {
                Some(r) => rule@ == rule_name(r),
                None => forall|r: RenameRule| rule@ != rule_name(r),
            },
    {
        if str_equal(rule, "lowercase") {
            Some(RenameRule::Lower)
        } else if str_equal(rule, "UPPERCASE") {
            Some(RenameRule::Upper)
        } else if str_equal(rule, "PascalCase") {
            Some(RenameRule::Pascal)
        } else if str_equal(rule, "camelCase") {
            Some(RenameRule::Camel)
        } else if str_equal(rule, "snake_case") {
            Some(RenameRule::Snake)
        } else if str_equal(rule, "SCREAMING_SNAKE_CASE") {
            Some(RenameRule::ScreamingSnake)
        } else if str_equal(rule, "kebab-case") {
            Some(RenameRule::Kebab)
        } else if str_equal(rule, "SCREAMING-KEBAB-CASE") {
            Some(RenameRule::ScreamingKebab)
        } else if str_equal(rule, "Train-Case") {
            Some(RenameRule::Train)
        } else {
            None
        }
    }

    /// The name that selects this rule.
    pub fn name(&self) -> (n: &'static str)
        ensures
            n@ == rule_name(*self),
    {
        match self {
            RenameRule::Lower => "lowercase",
            RenameRule::Upper => "UPPERCASE",
            RenameRule::Pascal => "PascalCase",
            RenameRule::Camel => "camelCase",
            RenameRule::Snake => "snake_case",
            RenameRule::ScreamingSnake => "SCREAMING_SNAKE_CASE",
            RenameRule::Kebab => "kebab-case",
            RenameRule::ScreamingKebab => "SCREAMING-KEBAB-CASE",
            RenameRule::Train => "Train-Case",
        }
    }

    /// The column name that this rule makes of the field name `field`.
    pub fn apply_to_field(&self, field: &str) -> (res: String)
        ensures
            res@ == renamed(*self, field@),
    {
        match self {
            RenameRule::Lower => lowercase(field),
            RenameRule::Upper => uppercase(field),
            RenameRule::Pascal => upper_camel_case(field),
            RenameRule::Camel => lower_camel_case(field),
            RenameRule::Snake => snake_case(field),
            RenameRule::ScreamingSnake => shouty_snake_case(field),
            RenameRule::Kebab => kebab_case(field),
            RenameRule::ScreamingKebab => shouty_kebab_case(field),
            RenameRule::Train => train_case(field),
        }
    }
}

/// Each rule has a name of its own, so a name selects at most one rule, and
/// `from_str` gives back the rule whose name it is read from.
pub proof fn lemma_rule_names_distinct(a: RenameRule, b: RenameRule)
    ensures
        rule_name(a) == rule_name(b) ==> a == b,
{
    reveal_strlit("lowercase");
    reveal_strlit("UPPERCASE");
    reveal_strlit("PascalCase");
    reveal_strlit("camelCase");
    reveal_strlit("snake_case");
    reveal_strlit("SCREAMING_SNAKE_CASE");
    reveal_strlit("kebab-case");
    reveal_strlit("SCREAMING-KEBAB-CASE");
    reveal_strlit("Train-Case");
    if rule_name(a) == rule_name(b) {
        assert(rule_name(a).len() == rule_name(b).len());
        assert(rule_name(a)[0] == rule_name(b)[0]);
        if rule_name(a).len() == 20 {
            assert(rule_name(a)[9] == rule_name(b)[9]);
        }
    }
}

} // verus!
