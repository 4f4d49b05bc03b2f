//! The `#[postgres(...)]` attributes of a derive: what they override, and which
//! of them are refused.
use vstd::prelude::*;
use crate::case::{RenameRule, rule_name};
use crate::index::str_equal;

verus! {

/// The derive that reads the attributes.
#[derive(Clone, Copy, Debug, PartialEq, Eq, Structural)]
pub enum Derive {
    ToSql,
    FromSql,
    Row,
}

/// The value of a `key = value` item.
#[derive(Clone, Debug)]
pub enum AttrValue {
    /// A string literal, with its contents.
    Str(String),
    /// Anything else.
    Other,
}

/// One item inside `#[postgres(...)]`.
#[derive(Clone, Debug)]
pub enum AttrItem {
    /// `key = value`, the key a single identifier.
    NameValue { key: String, value: AttrValue },
    /// A single identifier, such as `transparent`.
    Word(String),
    /// Any other form.
    Other,
}

/// An attribute on a container or a field.
#[derive(Clone, Debug)]
pub enum Attr {
    /// An attribute that is not `postgres`.
    Foreign,
    /// `#[postgres(...)]` with the items it lists.
    List(Vec<AttrItem>),
    /// `postgres` written in another form than a list.
    NotList,
    /// `#[postgres(...)]` whose items do not parse.
    Malformed,
}

/// Why the attributes were refused; `attr` is the position of the attribute and
/// `item` that of the item inside it.
#[derive(Clone, Copy, Debug, PartialEq, Eq, Structural)]
pub enum OverrideError {
    /// `postgres` is not written as a list.
    ExpectedList { attr: usize },
    /// The items of the list do not parse.
    Malformed { attr: usize },
    /// `rename_all` on a field.
    RenameAllOnField { attr: usize, item: usize },
    /// A key or word that is not an override.
    UnknownOverride { attr: usize, item: usize },
    /// The value of `name` or `rename_all` is not a string literal.
    ExpectedString { attr: usize, item: usize },
    /// `rename_all` names no rule.
    InvalidRenameRule { attr: usize, item: usize },
    /// `transparent` or `allow_mismatch` on a type that derives `FromRow`.
    NotForRows { attr: usize, item: usize },
    /// An item that is neither `key = value` nor a word.
    UnknownAttribute { attr: usize, item: usize },
}

/// What the attributes override.
#[derive(Clone, Debug)]
pub struct Overrides {
    pub name: Option<String>,
    pub rename_all: Option<RenameRule>,
    pub transparent: bool,
    pub allow_mismatch: bool,
}

/// The overrides as values.
pub struct OverridesView {
    pub name: Option<Seq<char>>,
    pub rename_all: Option<RenameRule>,
    pub transparent: bool,
    pub allow_mismatch: bool,
}

impl View for Overrides {
    type V = OverridesView;

    open spec fn view(&self) -> OverridesView {
        OverridesView {
            name: match self.name {
                Some(n) => Some(n@),
                None => None,
            },
            rename_all: self.rename_all,
            transparent: self.transparent,
            allow_mismatch: self.allow_mismatch,
        }
    }
}

/// No overrides.
pub open spec fn no_overrides() -> OverridesView {
    OverridesView { name: None, rename_all: None, transparent: false, allow_mismatch: false }
}

/// The rule that `name` selects, if any.
pub open spec fn rule_named(name: Seq<char>) -> Option<RenameRule> {
    if exists|r: RenameRule| rule_name(r) == name {
        Some(choose|r: RenameRule| rule_name(r) == name)
    } else {
        None
    }
}

/// The effect of one item (at `attr`, `item`) on the overrides so far.
pub open spec fn apply_item(
    o: OverridesView,
    it: AttrItem,
    container: bool,
    derive: Derive,
    attr: usize,
    item: usize,
) -> Result<OverridesView, OverrideError> {
    match it {
        AttrItem::NameValue { key, value } => {
            let is_name = key@ == "name"@;
            let is_rename_all = key@ == "rename_all"@;
            if !container && is_rename_all {
                Err(OverrideError::RenameAllOnField { attr, item })
            } else if !is_name && !is_rename_all {
                Err(OverrideError::UnknownOverride { attr, item })
            } else {
                match value {
                    AttrValue::Str(s) => if is_name {
                        Ok(OverridesView { name: Some(s@), ..o })
                    } else {
                        match rule_named(s@) {
                            Some(r) => Ok(OverridesView { rename_all: Some(r), ..o }),
                            None => Err(OverrideError::InvalidRenameRule { attr, item }),
                        }
                    },
                    AttrValue::Other => Err(OverrideError::ExpectedString { attr, item }),
                }
            }
        },
        AttrItem::Word(w) => {
            let is_transparent = w@ == "transparent"@;
            let is_allow_mismatch = w@ == "allow_mismatch"@;
            if !is_transparent && !is_allow_mismatch {
                Err(OverrideError::UnknownOverride { attr, item })
            } else if derive == Derive::Row {
                Err(OverrideError::NotForRows { attr, item })
            } else if !container {
                Err(OverrideError::UnknownOverride { attr, item })
            } else if is_transparent {
                Ok(OverridesView { transparent: true, ..o })
            } else {
                Ok(OverridesView { allow_mismatch: true, ..o })
            }
        },
        AttrItem::Other => Err(OverrideError::UnknownAttribute { attr, item }),
    }
}

/// The effect of the items of the attribute at `attr`, in order, stopping at the
/// first refused one.
pub open spec fn apply_items(
    o: OverridesView,
    items: Seq<AttrItem>,
    container: bool,
    derive: Derive,
    attr: usize,
) -> Result<OverridesView, OverrideError>
    decreases items.len(),
{
    if items.len() == 0 {
        Ok(o)
    } else {
        match apply_items(o, items.drop_last(), container, derive, attr) {
            Ok(o2) => apply_item(
                o2,
                items.last(),
                container,
                derive,
                attr,
                (items.len() - 1) as usize,
            ),
            Err(e) => Err(e),
        }
    }
}

/// The effect of one attribute at position `attr`.
pub open spec fn apply_attr(
    o: OverridesView,
    a: Attr,
    container: bool,
    derive: Derive,
    attr: usize,
) -> Result<OverridesView, OverrideError> {
    match a {
        Attr::Foreign => Ok(o),
        Attr::List(items) => apply_items(o, items@, container, derive, attr),
        Attr::NotList => Err(OverrideError::ExpectedList { attr }),
        Attr::Malformed => Err(OverrideError::Malformed { attr }),
    }
}

/// The overrides that `attrs` give, read in order, or the first refusal.
pub open spec fn overrides_of(attrs: Seq<Attr>, container: bool, derive: Derive) -> Result<
    OverridesView,
    OverrideError,
>
    decreases attrs.len(),
{
    if attrs.len() == 0 {
        Ok(no_overrides())
    } else {
        match overrides_of(attrs.drop_last(), container, derive) {
            Ok(o) => apply_attr(o, attrs.last(), container, derive, (attrs.len() - 1) as usize),
            Err(e) => Err(e),
        }
    }
}

impl Overrides {
    /// Reads the `#[postgres(...)]` attributes of a container (`container_attr`) or of
    /// a field, for `derive`.
    pub fn extract(attrs: &[Attr], container_attr: bool, derive: Derive) -> (res: Result<
        Overrides,
        OverrideError,
    >)
        ensures
            match res {
                Ok(o) => overrides_of(attrs@, container_attr, derive) == Ok::<
                    OverridesView,
                    OverrideError,
                >(o@),
                Err(e) => overrides_of(attrs@, container_attr, derive) == Err::<
                    OverridesView,
                    OverrideError,
                >(e),
            },
    {
        let mut o = Overrides { name: None, rename_all: None, transparent: false, allow_mismatch: false };
        let n = attrs.len();
        let mut i: usize = 0;
        while i < n
            invariant
                n == attrs@.len(),
                i <= n,
                overrides_of(attrs@.take(i as int), container_attr, derive) == Ok::<
                    OverridesView,
                    OverrideError,
                >(o@),
            decreases n - i,
        {
            proof {
                assert(attrs@.take(i + 1).drop_last() =~= attrs@.take(i as int));
                assert(attrs@.take(i + 1).last() == attrs@[i as int]);
            }
            match &attrs[i] {
                Attr::Foreign => {},
                Attr::List(items) => {
                    match apply_list(o, items.as_slice(), container_attr, derive, i) {
                        Ok(o2) => {
                            o = o2;
                        },
                        Err(e) => {
                            proof {
                                lemma_overrides_prefix_err(attrs@, container_attr, derive, i + 1);
                            }
                            return Err(e);
                        },
                    }
                },
                Attr::NotList => {
                    proof {
                        lemma_overrides_prefix_err(attrs@, container_attr, derive, i + 1);
                    }
                    return Err(OverrideError::ExpectedList { attr: i });
                },
                Attr::Malformed => {
                    proof {
                        lemma_overrides_prefix_err(attrs@, container_attr, derive, i + 1);
                    }
                    return Err(OverrideError::Malformed { attr: i });
                },
            }
            i = i + 1;
        }
        proof {
            assert(attrs@.take(n as int) =~= attrs@);
        }
        Ok(o)
    }
}

/// A refusal among the first `k` attributes stands for all of them.
proof fn lemma_overrides_prefix_err(attrs: Seq<Attr>, container: bool, derive: Derive, k: int)
    requires
        0 <= k <= attrs.len(),
        overrides_of(attrs.take(k), container, derive) is Err,
    ensures
        overrides_of(attrs, container, derive) == overrides_of(attrs.take(k), container, derive),
    decreases attrs.len() - k,
{
    if k < attrs.len() {
        assert(attrs.take(k + 1).drop_last() =~= attrs.take(k));
        lemma_overrides_prefix_err(attrs, container, derive, k + 1);
    } else {
        assert(attrs.take(k) =~= attrs);
    }
}

/// A refusal among the first `k` items stands for all of them.
proof fn lemma_items_prefix_err(
    o: OverridesView,
    items: Seq<AttrItem>,
    container: bool,
    derive: Derive,
    attr: usize,
    k: int,
)
    requires
        0 <= k <= items.len(),
        apply_items(o, items.take(k), container, derive, attr) is Err,
    ensures
        apply_items(o, items, container, derive, attr) == apply_items(
            o,
            items.take(k),
            container,
            derive,
            attr,
        ),
    decreases items.len() - k,
{
    if k < items.len() {
        assert(items.take(k + 1).drop_last() =~= items.take(k));
        lemma_items_prefix_err(o, items, container, derive, attr, k + 1);
    } else {
        assert(items.take(k) =~= items);
    }
}

/// The effect of the items of one `#[postgres(...)]` list.
fn apply_list(
    start: Overrides,
    items: &[AttrItem],
    container: bool,
    derive: Derive,
    attr: usize,
) -> (res: Result<Overrides, OverrideError>)
    ensures
        match res {
            Ok(o2) => apply_items(start@, items@, container, derive, attr) == Ok::<
                OverridesView,
                OverrideError,
            >(o2@),
            Err(e) => apply_items(start@, items@, container, derive, attr) == Err::<
                OverridesView,
                OverrideError,
            >(e),
        },
{
    let ghost o0 = start@;
    let mut o = start;
    let n = items.len();
    let mut j: usize = 0;
    while j < n
        invariant
            n == items@.len(),
            o0 == start@,
            j <= n,
            apply_items(o0, items@.take(j as int), container, derive, attr) == Ok::<
                OverridesView,
                OverrideError,
            >(o@),
        decreases n - j,
    {
        proof {
            assert(items@.take(j + 1).drop_last() =~= items@.take(j as int));
            assert(items@.take(j + 1).last() == items@[j as int]);
        }
        match apply_one(o, &items[j], container, derive, attr, j) {
            Ok(o2) => {
                o = o2;
            },
            Err(e) => {
                proof {
                    lemma_items_prefix_err(o0, items@, container, derive, attr, j + 1);
                }
                return Err(e);
            },
        }
        j = j + 1;
    }
    proof {
        assert(items@.take(n as int) =~= items@);
    }
    Ok(o)
}

/// The rule that `name` selects, if any.
fn rule_from_name(name: &str) -> (res: Option<RenameRule>)
    ensures
        res == rule_named(name@),
{
    let res = RenameRule::from_str(name);
    proof {
        match res {
            Some(r) => {
                assert(rule_name(r) == name@);
                let c = choose|q: RenameRule| rule_name(q) == name@;
                crate::case::lemma_rule_names_distinct(r, c);
            },
            None => {},
        }
    }
    res
}

/// The effect of one item.
fn apply_one(
    o: Overrides,
    it: &AttrItem,
    container: bool,
    derive: Derive,
    attr: usize,
    item: usize,
) -> (res: Result<Overrides, OverrideError>)
    ensures
        match res {
            Ok(o2) => apply_item(o@, *it, container, derive, attr, item) == Ok::<
                OverridesView,
                OverrideError,
            >(o2@),
            Err(e) => apply_item(o@, *it, container, derive, attr, item) == Err::<
                OverridesView,
                OverrideError,
            >(e),
        },
{
    match it {
        AttrItem::NameValue { key, value } => {
            let is_name = str_equal(key.as_str(), "name");
            let is_rename_all = str_equal(key.as_str(), "rename_all");
            if !container && is_rename_all {
                return Err(OverrideError::RenameAllOnField { attr, item });
            }
            if !is_name && !is_rename_all {
                return Err(OverrideError::UnknownOverride { attr, item });
            }
            match value {
                AttrValue::Str(s) => {
                    if is_name {
                        let mut o = o;
                        o.name = Some(s.clone());
                        Ok(o)
                    } else {
                        match rule_from_name(s.as_str()) {
                            Some(r) => {
                                let mut o = o;
                                o.rename_all = Some(r);
                                Ok(o)
                            },
                            None => Err(OverrideError::InvalidRenameRule { attr, item }),
                        }
                    }
                },
                AttrValue::Other => Err(OverrideError::ExpectedString { attr, item }),
            }
        },
        AttrItem::Word(w) => {
            let is_transparent = str_equal(w.as_str(), "transparent");
            let is_allow_mismatch = str_equal(w.as_str(), "allow_mismatch");
            if !is_transparent && !is_allow_mismatch {
                Err(OverrideError::UnknownOverride { attr, item })
            } else if derive == Derive::Row {
                Err(OverrideError::NotForRows { attr, item })
            } else if !container {
                Err(OverrideError::UnknownOverride { attr, item })
            } else if is_transparent {
                let mut o = o;
                o.transparent = true;
                Ok(o)
            } else {
                let mut o = o;
                o.allow_mismatch = true;
                Ok(o)
            }
        },
        AttrItem::Other => Err(OverrideError::UnknownAttribute { attr, item }),
    }
}

} // verus!

verus! {

/// Two outcomes of reading attributes that agree on all but the explicit name:
/// both refusals (wherever they point), or both accepted with the same rule and
/// the same options.
pub open spec fn agree_but_name(
    a: Result<OverridesView, OverrideError>,
    b: Result<OverridesView, OverrideError>,
) -> bool {
    match a {
        Ok(x) => match b {
            Ok(y) => x.rename_all == y.rename_all && x.transparent == y.transparent
                && x.allow_mismatch == y.allow_mismatch,
            Err(_) => false,
        },
        Err(_) => b is Err,
    }
}

proof fn lemma_items_agree(
    o1: OverridesView,
    o2: OverridesView,
    items: Seq<AttrItem>,
    container: bool,
    derive: Derive,
    a1: usize,
    a2: usize,
)
    requires
        agree_but_name(Ok(o1), Ok(o2)),
    ensures
        agree_but_name(
            apply_items(o1, items, container, derive, a1),
            apply_items(o2, items, container, derive, a2),
        ),
    decreases items.len(),
{
    if items.len() > 0 {
        lemma_items_agree(o1, o2, items.drop_last(), container, derive, a1, a2);
    }
}

/// Whether `named` is `#[postgres(name = "...")]`.
pub open spec fn is_name_attr(named: Attr) -> bool {
    match named {
        Attr::List(items) => items@.len() == 1 && (items@[0] matches AttrItem::NameValue {
            key,
            value,
        } && key@ == "name"@ && value is Str),
        _ => false,
    }
}

/// Read up to the first `j` attributes (from `k` on), the attributes with the name
/// inserted at `k` agree with those without it.
proof fn lemma_inserted_prefix(attrs: Seq<Attr>, named: Attr, k: int, j: int, derive: Derive)
    requires
        is_name_attr(named),
        "name"@ != "rename_all"@,
        0 <= k <= j <= attrs.len(),
    ensures
        agree_but_name(
            overrides_of((attrs.take(k) + seq![named] + attrs.skip(k)).take(j + 1), true, derive),
            overrides_of(attrs.take(j), true, derive),
        ),
    decreases j - k,
{
    let all = attrs.take(k) + seq![named] + attrs.skip(k);
    if j == k {
        assert(all.take(k + 1).drop_last() =~= attrs.take(k));
        assert(all.take(k + 1).last() == named);
        if let Attr::List(items) = named {
            assert(items@.drop_last() =~= Seq::<AttrItem>::empty());
            assert(items@.last() == items@[0]);
            if let Ok(o) = overrides_of(attrs.take(k), true, derive) {
                let a = k as usize;
                assert(apply_items(o, items@.drop_last(), true, derive, a) == Ok::<
                    OverridesView,
                    OverrideError,
                >(o));
                assert(apply_item(o, items@.last(), true, derive, a, 0) is Ok);
                assert(apply_items(o, items@, true, derive, a) is Ok);
            }
        }
    } else {
        lemma_inserted_prefix(attrs, named, k, j - 1, derive);
        assert(all.take(j + 1).drop_last() =~= all.take(j));
        assert(all.take(j + 1).last() == attrs[j - 1]);
        assert(attrs.take(j).drop_last() =~= attrs.take(j - 1));
        assert(attrs.take(j).last() == attrs[j - 1]);
        if let Ok(x) = overrides_of(all.take(j), true, derive) {
            if let Ok(y) = overrides_of(attrs.take(j - 1), true, derive) {
                if let Attr::List(items) = attrs[j - 1] {
                    lemma_items_agree(x, y, items@, true, derive, j as usize, (j - 1) as usize);
                }
            }
        }
    }
}

/// A container's `#[postgres(name = "...")]`, put anywhere among its attributes,
/// changes neither whether the attributes are accepted nor the rule and options
/// they give.
pub proof fn lemma_container_name_inserted(attrs: Seq<Attr>, named: Attr, k: int, derive: Derive)
    requires
        is_name_attr(named),
        0 <= k <= attrs.len(),
    ensures
        agree_but_name(
            overrides_of(attrs.take(k) + seq![named] + attrs.skip(k), true, derive),
            overrides_of(attrs, true, derive),
        ),
{
    reveal_strlit("name");
    reveal_strlit("rename_all");
    assert("name"@ != "rename_all"@) by {
        assert("name"@.len() != "rename_all"@.len());
    }
    assert("name"@ != "transparent"@) by {
        reveal_strlit("transparent");
        assert("name"@.len() != "transparent"@.len());
    }
    let all = attrs.take(k) + seq![named] + attrs.skip(k);
    lemma_inserted_prefix(attrs, named, k, attrs.len() as int, derive);
    assert(all.take(attrs.len() as int + 1) =~= all);
    assert(attrs.take(attrs.len() as int) =~= attrs);
}

} // verus!

verus! {

/// An item that is refused whatever the overrides before it spoil the whole list.
proof fn lemma_items_refused(
    o: OverridesView,
    items: Seq<AttrItem>,
    container: bool,
    derive: Derive,
    attr: usize,
    m: int,
)
    requires
        0 <= m < items.len(),
        forall|o2: OverridesView|
            #[trigger] apply_item(o2, items[m], container, derive, attr, m as usize) is Err,
    ensures
        apply_items(o, items, container, derive, attr) is Err,
    decreases items.len(),
{
    if m < items.len() - 1 {
        assert(items.drop_last()[m] == items[m]);
        lemma_items_refused(o, items.drop_last(), container, derive, attr, m);
    } else {
        if let Ok(o2) = apply_items(o, items.drop_last(), container, derive, attr) {
            assert(apply_item(o2, items.last(), container, derive, attr, m as usize) is Err);
        }
    }
}

/// An attribute that is refused whatever the overrides before it spoils them all.
proof fn lemma_attrs_refused(attrs: Seq<Attr>, container: bool, derive: Derive, k: int)
    requires
        0 <= k < attrs.len(),
        forall|o: OverridesView|
            #[trigger] apply_attr(o, attrs[k], container, derive, k as usize) is Err,
    ensures
        overrides_of(attrs, container, derive) is Err,
    decreases attrs.len(),
{
    if k < attrs.len() - 1 {
        assert(attrs.drop_last()[k] == attrs[k]);
        lemma_attrs_refused(attrs.drop_last(), container, derive, k);
    } else {
        if let Ok(o) = overrides_of(attrs.drop_last(), container, derive) {
            assert(apply_attr(o, attrs.last(), container, derive, k as usize) is Err);
        }
    }
}

/// `transparent` and `allow_mismatch` are options of `FromSql` and `ToSql` only:
/// for `FromRow` such a word is refused, on the container and on a field alike, at
/// the place where it stands; so attributes that hold one anywhere are refused.
pub proof fn lemma_type_only_options_refused_for_rows(
    attrs: Seq<Attr>,
    container: bool,
    k: int,
    m: int,
    word: String,
    o: OverridesView,
    a: usize,
    i: usize,
)
    requires
        word@ == "transparent"@ || word@ == "allow_mismatch"@,
        0 <= k < attrs.len(),
        attrs[k] matches Attr::List(items) && 0 <= m < items@.len() && items@[m] == AttrItem::Word(
            word,
        ),
    ensures
        apply_item(o, AttrItem::Word(word), container, Derive::Row, a, i) == Err::<
            OverridesView,
            OverrideError,
        >(OverrideError::NotForRows { attr: a, item: i }),
        overrides_of(attrs, container, Derive::Row) is Err,
{
    if let Attr::List(items) = attrs[k] {
        assert forall|o2: OverridesView|
            #[trigger] apply_item(o2, items@[m], container, Derive::Row, k as usize, m as usize)
                is Err by {}
        assert forall|o2: OverridesView|
            #[trigger] apply_attr(o2, attrs[k], container, Derive::Row, k as usize) is Err by {
            lemma_items_refused(o2, items@, container, Derive::Row, k as usize, m);
        }
        lemma_attrs_refused(attrs, container, Derive::Row, k);
    }
}

} // verus!
