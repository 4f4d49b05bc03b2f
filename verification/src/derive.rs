//! What `#[derive(FromRow)]` decides for a struct: the column of each field, and
//! names for the generated code that cannot collide with the struct's own.
use vstd::prelude::*;
use crate::case::{RenameRule, renamed};
use crate::overrides::{
    Attr, Derive, OverrideError, Overrides, OverridesView, is_name_attr, lemma_container_name_inserted,
    overrides_of,
};
use crate::text::{decimal, digit_char, push_char, push_decimal, push_str};

verus! {

broadcast use vstd::string::axiom_spec_iter;

/// The characters of `s`.
pub fn chars_of(s: &str) -> (v: Vec<char>)
    ensures
        v@ == s@,
{
    let mut v: Vec<char> = Vec::new();
    for c in it: s.chars()
        invariant
            it.seq() == s@,
            v@ == s@.take(it.index() as int),
    {
        v.push(c);
        proof {
            assert(s@.take(it.index() + 1) =~= s@.take(it.index() as int).push(c));
        }
    }
    proof {
        assert(v@ =~= s@);
    }
    v
}

/// A string of the characters `v[from..]`.
fn string_from(v: &[char], from: usize) -> (s: String)
    requires
        from <= v@.len(),
    ensures
        s@ == v@.skip(from as int),
{
    let mut s = String::new();
    let n = v.len();
    let mut i = from;
    while i < n
        invariant
            n == v@.len(),
            from <= i <= n,
            s@ == v@.subrange(from as int, i as int),
        decreases n - i,
    {
        push_char(&mut s, v[i]);
        proof {
            assert(v@.subrange(from as int, i + 1) =~= v@.subrange(from as int, i as int).push(
                v@[i as int],
            ));
        }
        i = i + 1;
    }
    proof {
        assert(v@.subrange(from as int, n as int) =~= v@.skip(from as int));
    }
    s
}

/// An identifier without its raw marker: `r#type` is `type`.
pub open spec fn unraw_name(ident: Seq<char>) -> Seq<char> {
    if ident.len() >= 2 && ident[0] == 'r' && ident[1] == '#' {
        ident.skip(2)
    } else {
        ident
    }
}

/// The identifier `ident` without its raw marker (`IdentExt::unraw`).
pub fn unraw(ident: &str) -> (s: String)
    ensures
        s@ == unraw_name(ident@),
{
    let v = chars_of(ident);
    if v.len() >= 2 && v[0] == 'r' && v[1] == '#' {
        string_from(v.as_slice(), 2)
    } else {
        proof {
            assert(v@.skip(0) =~= v@);
        }
        string_from(v.as_slice(), 0)
    }
}

/// Whether `s` begins with `p`.
pub open spec fn starts_with(s: Seq<char>, p: Seq<char>) -> bool {
    p.len() <= s.len() && s.take(p.len() as int) == p
}

/// The prefix of every name in the generated code, before any lengthening.
pub open spec fn base_prefix() -> Seq<char> {
    "__tokio_postgres"@
}

/// The base prefix lengthened by `k` underscores.
pub open spec fn candidate_prefix(k: nat) -> Seq<char> {
    base_prefix() + Seq::new(k, |i: int| '_')
}

/// Whether one of the first `m` identifiers, without its raw marker, begins with `p`.
pub open spec fn collides_before(idents: Seq<Seq<char>>, m: int, p: Seq<char>) -> bool {
    exists|i: int| 0 <= i < m && starts_with(unraw_name(#[trigger] idents[i]), p)
}

/// Whether some identifier of the input, without its raw marker, begins with `p`.
pub open spec fn collides(idents: Seq<Seq<char>>, p: Seq<char>) -> bool {
    collides_before(idents, idents.len() as int, p)
}

/// The prefix of the generated names: the shortest lengthening of the base prefix
/// with which no identifier of the input begins.
pub open spec fn is_private_prefix(idents: Seq<Seq<char>>, p: Seq<char>) -> bool {
    exists|k: nat|
        {
            &&& p == candidate_prefix(k)
            &&& !collides(idents, candidate_prefix(k))
            &&& forall|j: nat| j < k ==> collides(idents, #[trigger] candidate_prefix(j))
        }
}

/// A name that begins with a longer candidate begins with a shorter one.
proof fn lemma_candidate_shorter(s: Seq<char>, k: nat, j: nat)
    requires
        j <= k,
        starts_with(s, candidate_prefix(k)),
    ensures
        starts_with(s, candidate_prefix(j)),
{
    let pk = candidate_prefix(k);
    let pj = candidate_prefix(j);
    assert(pk.take(pj.len() as int) =~= pj);
    assert(s.take(pj.len() as int) =~= s.take(pk.len() as int).take(pj.len() as int));
}

/// Whether `s` begins with the base prefix followed by `k` underscores.
fn starts_with_candidate(s: &[char], base: &[char], k: usize) -> (res: bool)
    requires
        base@ == base_prefix(),
    ensures
        res == starts_with(s@, candidate_prefix(k as nat)),
{
    let ghost p = candidate_prefix(k as nat);
    let b = base.len();
    if b > s.len() || k > s.len() - b {
        return false;
    }
    let mut i: usize = 0;
    while i < b
        invariant
            b == base@.len(),
            b + k <= s@.len(),
            base@ == base_prefix(),
            p == candidate_prefix(k as nat),
            p.len() == b + k,
            i <= b,
            forall|j: int| 0 <= j < i ==> s@[j] == p[j],
        decreases b - i,
    {
        assert(p[i as int] == base@[i as int]);
        if s[i] != base[i] {
            assert(s@.take(p.len() as int)[i as int] == s@[i as int]);
            assert(s@.take(p.len() as int)[i as int] != p[i as int]);
            return false;
        }
        i = i + 1;
    }
    let mut i: usize = 0;
    while i < k
        invariant
            b == base@.len(),
            b + k <= s.len(),
            base@ == base_prefix(),
            p == candidate_prefix(k as nat),
            p.len() == b + k,
            i <= k,
            forall|j: int| 0 <= j < b + i ==> s@[j] == p[j],
        decreases k - i,
    {
        assert(p[b + i] == '_');
        if s[b + i] != '_' {
            assert(s@.take(p.len() as int)[b + i] != p[b + i]);
            return false;
        }
        i = i + 1;
    }
    assert(s@.take(p.len() as int) =~= p);
    true
}

/// Chooses a prefix for the names of the generated code that no identifier of the
/// input (`idents`, as written) begins with, so that no generated binding or
/// lifetime can collide with the input's own.
pub fn private_prefix(idents: &[String]) -> (prefix: String)
    ensures
        is_private_prefix(idents@.map_values(|s: String| s@), prefix@),
{
    let ghost names = idents@.map_values(|s: String| s@);
    let base = chars_of("__tokio_postgres");
    let mut k: usize = 0;
    let n = idents.len();
    let mut m: usize = 0;
    while m < n
        invariant
            n == idents@.len(),
            names == idents@.map_values(|s: String| s@),
            base@ == base_prefix(),
            m <= n,
            forall|i: int|
                0 <= i < m ==> !starts_with(
                    unraw_name(#[trigger] names[i]),
                    candidate_prefix(k as nat),
                ),
            forall|j: nat| j < k ==> #[trigger] collides_before(names, m as int, candidate_prefix(j)),
        decreases n - m,
    {
        let name = unraw(idents[m].as_str());
        let chars = chars_of(name.as_str());
        assert(chars@ == unraw_name(names[m as int]));
        let ghost k0 = k;
        while starts_with_candidate(chars.as_slice(), base.as_slice(), k)
            invariant
                base@ == base_prefix(),
                chars@ == unraw_name(names[m as int]),
                0 <= m < names.len(),
                k0 <= k,
                k > k0 ==> k <= chars@.len(),
                forall|i: int|
                    0 <= i < m ==> !starts_with(
                        unraw_name(#[trigger] names[i]),
                        candidate_prefix(k0 as nat),
                    ),
                forall|j: nat|
                    j < k0 ==> #[trigger] collides_before(names, m as int, candidate_prefix(j)),
                forall|j: nat| k0 <= j < k ==> starts_with(chars@, #[trigger] candidate_prefix(j)),
            decreases chars@.len() - k,
        {
            proof {
                reveal_strlit("__tokio_postgres");
            }
            assert(base_prefix().len() + k <= chars@.len());
            assert(k < chars.len());
            k = k + 1;
        }
        proof {
            assert forall|i: int| 0 <= i < m + 1 implies !starts_with(
                unraw_name(#[trigger] names[i]),
                candidate_prefix(k as nat),
            ) by {
                if i < m {
                    if starts_with(unraw_name(names[i]), candidate_prefix(k as nat)) {
                        lemma_candidate_shorter(unraw_name(names[i]), k as nat, k0 as nat);
                    }
                }
            }
            assert forall|j: nat| j < k implies #[trigger] collides_before(
                names,
                m + 1,
                candidate_prefix(j),
            ) by {
                if j >= k0 {
                    assert(starts_with(unraw_name(names[m as int]), candidate_prefix(j)));
                } else {
                    assert(collides_before(names, m as int, candidate_prefix(j)));
                }
            }
        }
        m = m + 1;
    }
    let mut prefix = String::new();
    push_str(&mut prefix, "__tokio_postgres");
    let mut i: usize = 0;
    while i < k
        invariant
            i <= k,
            prefix@ == base_prefix() + Seq::new(i as nat, |j: int| '_'),
        decreases k - i,
    {
        push_char(&mut prefix, '_');
        proof {
            assert(base_prefix() + Seq::new((i + 1) as nat, |j: int| '_') =~= (base_prefix()
                + Seq::new(i as nat, |j: int| '_')).push('_'));
        }
        i = i + 1;
    }
    proof {
        assert(prefix@ == candidate_prefix(k as nat));
        assert(!collides(names, candidate_prefix(k as nat)));
    }
    prefix
}

/// A named field of the struct, as written.
#[derive(Clone, Debug)]
pub struct FieldInput {
    /// The field's identifier as written (`r#type` for a raw one).
    pub ident: String,
    /// The field's attributes.
    pub attrs: Vec<Attr>,
}

/// A named field of the struct and the column it is read from.
#[derive(Clone, Debug)]
pub struct Field {
    /// The column's name.
    pub name: String,
    /// The field's identifier as written.
    pub ident: String,
}

/// The column of a field: its explicit name if it has one, else its identifier
/// without the raw marker, renamed by the container's rule if there is one.
pub open spec fn column_name(
    explicit: Option<Seq<char>>,
    rule: Option<RenameRule>,
    ident: Seq<char>,
) -> Seq<char> {
    match explicit {
        Some(n) => n,
        None => match rule {
            Some(r) => renamed(r, unraw_name(ident)),
            None => unraw_name(ident),
        },
    }
}

/// An explicit column name takes precedence over the container's rule, and a raw
/// identifier is read without its marker: `r#type` maps to `type`.
pub proof fn lemma_column_name_precedence(
    explicit: Seq<char>,
    rule: Option<RenameRule>,
    ident: Seq<char>,
)
    ensures
        column_name(Some(explicit), rule, ident) == explicit,
        column_name(None, None, seq!['r', '#'] + ident) == ident,
        column_name(None, None, ident) == unraw_name(ident),
{
    assert((seq!['r', '#'] + ident).skip(2) =~= ident);
}

/// The container's rule applies to every field without an explicit name, raw or
/// not: a raw identifier `r#x` is renamed as `x` is, so it maps to the same column
/// as the plain identifier `x`, under every rule and under none.
pub proof fn lemma_raw_identifier_renamed(rule: Option<RenameRule>, x: Seq<char>)
    ensures
        column_name(None, rule, seq!['r', '#'] + x) == match rule {
            Some(r) => renamed(r, x),
            None => x,
        },
        !(x.len() >= 2 && x[0] == 'r' && x[1] == '#') ==> column_name(
            None,
            rule,
            seq!['r', '#'] + x,
        ) == column_name(None, rule, x),
{
    assert((seq!['r', '#'] + x).skip(2) =~= x);
}

impl Field {
    /// Reads a field: its attributes for `derive`, and the column it maps to under
    /// the container's `rename_all` rule.
    pub fn parse(raw: &FieldInput, rename_all: Option<RenameRule>, derive: Derive) -> (res: Result<
        Field,
        OverrideError,
    >)
        ensures
            match overrides_of(raw.attrs@, false, derive) {
                Ok(o) => res matches Ok(f) && f.name@ == column_name(o.name, rename_all, raw.ident@)
                    && f.ident@ == raw.ident@,
                Err(e) => res == Err::<Field, OverrideError>(e),
            },
    {
        let overrides = match Overrides::extract(raw.attrs.as_slice(), false, derive) {
            Ok(o) => o,
            Err(e) => return Err(e),
        };
        let ident = raw.ident.clone();
        let name = match overrides.name {
            Some(n) => n,
            None => {
                let name = unraw(ident.as_str());
                match rename_all {
                    Some(rule) => rule.apply_to_field(name.as_str()),
                    None => name,
                }
            },
        };
        Ok(Field { name, ident })
    }
}

/// The shape of the type that the derive is applied to.
#[derive(Clone, Copy, Debug, PartialEq, Eq, Structural)]
pub enum Shape {
    /// A struct with named fields.
    NamedStruct,
    /// A tuple struct.
    TupleStruct,
    /// A unit struct.
    UnitStruct,
    /// An enum.
    Enum,
    /// A union.
    Union,
}

/// What the derive reads of the type it is applied to.
#[derive(Clone, Debug)]
pub struct DeriveInput {
    /// The shape of the type.
    pub shape: Shape,
    /// The container's attributes.
    pub attrs: Vec<Attr>,
    /// The named fields, in order (none unless the shape is `NamedStruct`).
    pub fields: Vec<FieldInput>,
    /// Every identifier in the type's tokens, in order, as written.
    pub idents: Vec<String>,
}

/// Why the derive refused the type.
#[derive(Clone, Copy, Debug, PartialEq, Eq, Structural)]
pub enum DeriveError {
    /// The container's attributes.
    Container(OverrideError),
    /// The type is not a struct with named fields.
    UnsupportedShape,
    /// The attributes of the field at `index`.
    Field { index: usize, error: OverrideError },
}

/// What the derive generates from: each field and its column, the prefix of the
/// generated names, the binding of the row, and one binding per field.
#[derive(Clone, Debug)]
pub struct RowDerive {
    pub fields: Vec<Field>,
    pub prefix: String,
    pub row: String,
    pub bindings: Vec<String>,
}

/// The first field whose attributes are refused, with the refusal.
pub open spec fn first_field_error(fields: Seq<FieldInput>) -> Option<(int, OverrideError)>
    decreases fields.len(),
{
    if fields.len() == 0 {
        None
    } else {
        match first_field_error(fields.drop_last()) {
            Some(x) => Some(x),
            None => match overrides_of(fields.last().attrs@, false, Derive::Row) {
                Err(e) => Some((fields.len() - 1, e)),
                Ok(_) => None,
            },
        }
    }
}

/// The explicit column name that a field's attributes give, if any.
pub open spec fn explicit_name(f: FieldInput) -> Option<Seq<char>> {
    match overrides_of(f.attrs@, false, Derive::Row) {
        Ok(o) => o.name,
        Err(_) => None,
    }
}

/// The name of the row's binding in the generated code.
pub open spec fn row_binding(prefix: Seq<char>) -> Seq<char> {
    prefix + "_row"@
}

/// The name of the binding of field `i` in the generated code.
pub open spec fn field_binding(prefix: Seq<char>, i: nat) -> Seq<char> {
    prefix + "_field"@ + decimal(i)
}

/// What the derive generates from, for a struct whose attributes are all accepted.
pub open spec fn is_row_derive(d: RowDerive, input: DeriveInput, rule: Option<RenameRule>) -> bool {
    &&& d.fields@.len() == input.fields@.len()
    &&& forall|i: int|
        #![trigger d.fields@[i]]
        0 <= i < d.fields@.len() ==> {
            &&& d.fields@[i].ident@ == input.fields@[i].ident@
            &&& d.fields@[i].name@ == column_name(
                explicit_name(input.fields@[i]),
                rule,
                input.fields@[i].ident@,
            )
        }
    &&& is_private_prefix(input.idents@.map_values(|s: String| s@), d.prefix@)
    &&& d.row@ == row_binding(d.prefix@)
    &&& d.bindings@.len() == input.fields@.len()
    &&& forall|i: int|
        0 <= i < d.bindings@.len() ==> #[trigger] d.bindings@[i]@ == field_binding(
            d.prefix@,
            i as nat,
        )
}

/// The first refused field among the first `k` is the first refused field.
proof fn lemma_first_field_error_prefix(fields: Seq<FieldInput>, k: int)
    requires
        0 <= k <= fields.len(),
        first_field_error(fields.take(k)) is Some,
    ensures
        first_field_error(fields) == first_field_error(fields.take(k)),
    decreases fields.len() - k,
{
    if k < fields.len() {
        assert(fields.take(k + 1).drop_last() =~= fields.take(k));
        lemma_first_field_error_prefix(fields, k + 1);
    } else {
        assert(fields.take(k) =~= fields);
    }
}

/// Decides what `#[derive(FromRow)]` generates from, or why it refuses the type.
///
/// The container's attributes are read first (a container-level `name` is
/// accepted and has no effect here), then the shape is checked, then each field's
/// attributes in order; the first refusal is the answer.
pub fn plan_from_row(input: &DeriveInput) -> (res: Result<RowDerive, DeriveError>)
    ensures
        match overrides_of(input.attrs@, true, Derive::Row) {
            Err(e) => res == Err::<RowDerive, DeriveError>(DeriveError::Container(e)),
            Ok(o) => if input.shape != Shape::NamedStruct {
                res == Err::<RowDerive, DeriveError>(DeriveError::UnsupportedShape)
            } else {
                match first_field_error(input.fields@) {
                    Some((i, e)) => res == Err::<RowDerive, DeriveError>(
                        DeriveError::Field { index: i as usize, error: e },
                    ),
                    None => res matches Ok(d) && is_row_derive(d, *input, o.rename_all),
                }
            },
        },
{
    let overrides = match Overrides::extract(input.attrs.as_slice(), true, Derive::Row) {
        Ok(o) => o,
        Err(e) => return Err(DeriveError::Container(e)),
    };
    if input.shape != Shape::NamedStruct {
        return Err(DeriveError::UnsupportedShape);
    }
    let ghost fs = input.fields@;
    let n = input.fields.len();
    let mut fields: Vec<Field> = Vec::new();
    let mut i: usize = 0;
    while i < n
        invariant
            n == fs.len(),
            fs == input.fields@,
            input.shape == Shape::NamedStruct,
            overrides_of(input.attrs@, true, Derive::Row) == Ok::<OverridesView, OverrideError>(
                overrides@,
            ),
            i <= n,
            first_field_error(fs.take(i as int)) is None,
            fields@.len() == i,
            forall|j: int|
                #![trigger fields@[j]]
                0 <= j < i ==> {
                    &&& fields@[j].ident@ == fs[j].ident@
                    &&& fields@[j].name@ == column_name(
                        explicit_name(fs[j]),
                        overrides.rename_all,
                        fs[j].ident@,
                    )
                },
        decreases n - i,
    {
        proof {
            assert(fs.take(i + 1).drop_last() =~= fs.take(i as int));
            assert(fs.take(i + 1).last() == fs[i as int]);
        }
        match Field::parse(&input.fields[i], overrides.rename_all, Derive::Row) {
            Ok(f) => {
                fields.push(f);
            },
            Err(e) => {
                proof {
                    lemma_first_field_error_prefix(fs, i + 1);
                }
                return Err(DeriveError::Field { index: i, error: e });
            },
        }
        i = i + 1;
    }
    proof {
        assert(fs.take(n as int) =~= fs);
    }
    let prefix = private_prefix(input.idents.as_slice());
    let mut row = prefix.clone();
    push_str(&mut row, "_row");
    let mut bindings: Vec<String> = Vec::new();
    let mut j: usize = 0;
    while j < n
        invariant
            j <= n,
            bindings@.len() == j,
            forall|k: int|
                0 <= k < j ==> #[trigger] bindings@[k]@ == field_binding(prefix@, k as nat),
        decreases n - j,
    {
        let mut b = prefix.clone();
        push_str(&mut b, "_field");
        push_decimal(&mut b, j);
        bindings.push(b);
        j = j + 1;
    }
    Ok(RowDerive { fields, prefix, row, bindings })
}

/// No identifier of the input is a generated name: every generated name begins
/// with the private prefix, and no identifier of the input does.
pub proof fn lemma_generated_names_fresh(idents: Seq<Seq<char>>, prefix: Seq<char>, suffix: Seq<char>)
    requires
        is_private_prefix(idents, prefix),
    ensures
        forall|i: int| 0 <= i < idents.len() ==> unraw_name(#[trigger] idents[i]) != prefix + suffix,
{
    assert forall|i: int| 0 <= i < idents.len() implies unraw_name(#[trigger] idents[i]) != prefix
        + suffix by {
        if unraw_name(idents[i]) == prefix + suffix {
            assert((prefix + suffix).take(prefix.len() as int) =~= prefix);
            assert(collides_before(idents, idents.len() as int, prefix));
        }
    }
}

/// Distinct numbers have distinct decimal numerals.
pub proof fn lemma_decimal_injective(a: nat, b: nat)
    ensures
        decimal(a) == decimal(b) ==> a == b,
    decreases a,
{
    lemma_decimal_len(a);
    lemma_decimal_len(b);
    if decimal(a) == decimal(b) {
        if a < 10 && b < 10 {
            assert(decimal(a)[0] == digit_char(a));
            assert(decimal(b)[0] == digit_char(b));
        } else if a >= 10 && b >= 10 {
            let da = decimal(a);
            assert(da.last() == digit_char(a % 10));
            assert(decimal(b).last() == digit_char(b % 10));
            assert(da.drop_last() =~= decimal(a / 10));
            assert(decimal(b).drop_last() =~= decimal(b / 10));
            lemma_decimal_injective(a / 10, b / 10);
        }
    }
}

/// A numeral has one digit below ten and more from ten on.
proof fn lemma_decimal_len(n: nat)
    ensures
        decimal(n).len() >= 1,
        n < 10 <==> decimal(n).len() == 1,
    decreases n,
{
    if n >= 10 {
        lemma_decimal_len(n / 10);
    }
}

/// The generated bindings are pairwise distinct: the row's differs from every
/// field's, and distinct fields have distinct bindings.
pub proof fn lemma_bindings_distinct(prefix: Seq<char>, i: nat, j: nat)
    ensures
        row_binding(prefix) != field_binding(prefix, i),
        i != j ==> field_binding(prefix, i) != field_binding(prefix, j),
{
    reveal_strlit("_row");
    reveal_strlit("_field");
    let r = row_binding(prefix);
    let fi = field_binding(prefix, i);
    let fj = field_binding(prefix, j);
    assert(r[prefix.len() as int + 1] == 'r');
    assert(fi[prefix.len() as int + 1] == 'f');
    if fi == fj {
        let head = prefix + "_field"@;
        assert(fi.skip(head.len() as int) =~= decimal(i));
        assert(fj.skip(head.len() as int) =~= decimal(j));
        lemma_decimal_injective(i, j);
    }
}

/// Identifiers that do not begin with the base prefix change no collision:
/// `more` holds every identifier of `idents`, and any other of its identifiers
/// does not begin with the base prefix.
proof fn lemma_collides_more(idents: Seq<Seq<char>>, more: Seq<Seq<char>>, k: nat)
    requires
        forall|i: int| 0 <= i < idents.len() ==> more.contains(#[trigger] idents[i]),
        forall|i: int|
            0 <= i < more.len() ==> idents.contains(#[trigger] more[i]) || !starts_with(
                unraw_name(more[i]),
                base_prefix(),
            ),
    ensures
        collides(more, candidate_prefix(k)) == collides(idents, candidate_prefix(k)),
{
    if collides(more, candidate_prefix(k)) {
        let i = choose|i: int|
            0 <= i < more.len() && starts_with(unraw_name(#[trigger] more[i]), candidate_prefix(k));
        lemma_candidate_shorter(unraw_name(more[i]), k, 0);
        assert(candidate_prefix(0) =~= base_prefix());
        assert(idents.contains(more[i]));
        let j = choose|j: int| 0 <= j < idents.len() && idents[j] == more[i];
        assert(starts_with(unraw_name(idents[j]), candidate_prefix(k)));
    }
    if collides(idents, candidate_prefix(k)) {
        let i = choose|i: int|
            0 <= i < idents.len() && starts_with(unraw_name(#[trigger] idents[i]), candidate_prefix(k));
        assert(more.contains(idents[i]));
        let j = choose|j: int| 0 <= j < more.len() && more[j] == idents[i];
        assert(starts_with(unraw_name(more[j]), candidate_prefix(k)));
    }
}

/// A container-level `#[postgres(name = "...")]` is accepted and changes nothing
/// that `FromRow` is generated from. Put anywhere among the container's
/// attributes, it gives a refusal exactly when they do without it, and otherwise
/// the same `rename_all` rule (the fields and shape being untouched). Its
/// identifiers (`postgres`, `name`), which do not begin with the base prefix,
/// leave the private prefix as it was, wherever they stand among the others.
pub proof fn lemma_container_name_ignored(
    attrs: Seq<Attr>,
    named: Attr,
    k: int,
    idents: Seq<Seq<char>>,
    more: Seq<Seq<char>>,
    prefix: Seq<char>,
)
    requires
        is_name_attr(named),
        0 <= k <= attrs.len(),
        forall|i: int| 0 <= i < idents.len() ==> more.contains(#[trigger] idents[i]),
        forall|i: int|
            0 <= i < more.len() ==> idents.contains(#[trigger] more[i]) || !starts_with(
                unraw_name(more[i]),
                base_prefix(),
            ),
    ensures
        overrides_of(attrs.take(k) + seq![named] + attrs.skip(k), true, Derive::Row) is Ok
            <==> overrides_of(attrs, true, Derive::Row) is Ok,
        overrides_of(attrs.take(k) + seq![named] + attrs.skip(k), true, Derive::Row) matches Ok(o2)
            ==> overrides_of(attrs, true, Derive::Row) matches Ok(o) && o2.rename_all
            == o.rename_all,
        is_private_prefix(more, prefix) <==> is_private_prefix(idents, prefix),
{
    lemma_container_name_inserted(attrs, named, k, Derive::Row);
    assert forall|j: nat| #[trigger] collides(more, candidate_prefix(j)) == collides(
        idents,
        candidate_prefix(j),
    ) by {
        lemma_collides_more(idents, more, j);
    }
}

} // verus!
