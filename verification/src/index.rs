//! Looking up a column of a row by position or by name.
use vstd::prelude::*;
use vstd::utf8::encode_utf8;
use vstd::utf8::encode_utf8_decode_utf8;
use vstd::string::StringSliceAdditionalSpecFns;
use crate::text::{decimal, push_decimal};
use crate::sealed::{AsName, Sealed};

verus! {

impl AsName for String {
    open spec fn name_view(&self) -> Seq<char> {
        self@
    }

    fn as_name(&self) -> (name: &str) {
        self.as_str()
    }
}

/// The names of a sequence of columns.
pub open spec fn names_of<T: AsName>(columns: Seq<T>) -> Seq<Seq<char>> {
    columns.map_values(|c: T| c.name_view())
}

/// ASCII lower-casing of one byte, as `u8::to_ascii_lowercase` does it.
pub open spec fn ascii_lower(b: u8) -> u8 {
    if 65 <= b <= 90 {
        (b + 32) as u8
    } else {
        b
    }
}

/// Two byte strings are equal up to ASCII case (the definition of
/// `<[u8]>::eq_ignore_ascii_case`).
pub open spec fn bytes_eq_ignore_ascii_case(a: Seq<u8>, b: Seq<u8>) -> bool {
    &&& a.len() == b.len()
    &&& forall|i: int| 0 <= i < a.len() ==> #[trigger] ascii_lower(a[i]) == ascii_lower(b[i])
}

/// Two names are equal up to ASCII case (the definition of `str::eq_ignore_ascii_case`,
/// which compares the UTF-8 encodings).
pub open spec fn names_match_ignoring_ascii_case(a: Seq<char>, b: Seq<char>) -> bool {
    bytes_eq_ignore_ascii_case(encode_utf8(a), encode_utf8(b))
}

/// Whether `name` matches `target`, exactly or up to ASCII case.
pub open spec fn name_matches(name: Seq<char>, target: Seq<char>, fold_case: bool) -> bool {
    if fold_case {
        names_match_ignoring_ascii_case(name, target)
    } else {
        name == target
    }
}

/// The first position whose name matches `target`.
pub open spec fn first_match(names: Seq<Seq<char>>, target: Seq<char>, fold_case: bool) -> Option<
    int,
>
    decreases names.len(),
{
    if names.len() == 0 {
        None
    } else {
        match first_match(names.drop_last(), target, fold_case) {
            Some(i) => Some(i),
            None => if name_matches(names.last(), target, fold_case) {
                Some(names.len() - 1)
            } else {
                None
            },
        }
    }
}

/// The column that a name selects: the first exact match, and failing that the
/// first match up to ASCII case.
pub open spec fn column_by_name(names: Seq<Seq<char>>, target: Seq<char>) -> Option<int> {
    match first_match(names, target, false) {
        Some(i) => Some(i),
        None => first_match(names, target, true),
    }
}

/// The column that a position selects: itself, when it is in bounds.
pub open spec fn column_by_position(names: Seq<Seq<char>>, position: usize) -> Option<int> {
    if position < names.len() {
        Some(position as int)
    } else {
        None
    }
}

/// `first_match` finds the first matching position, and finds none only when
/// nothing matches.
pub proof fn lemma_first_match(names: Seq<Seq<char>>, target: Seq<char>, fold_case: bool)
    ensures
        match first_match(names, target, fold_case) {
            Some(i) => {
                &&& 0 <= i < names.len()
                &&& name_matches(names[i], target, fold_case)
                &&& forall|j: int| 0 <= j < i ==> !name_matches(names[j], target, fold_case)
            },
            None => forall|j: int|
                0 <= j < names.len() ==> !name_matches(names[j], target, fold_case),
        },
    decreases names.len(),
{
    if names.len() > 0 {
        lemma_first_match(names.drop_last(), target, fold_case);
        assert forall|j: int| 0 <= j < names.len() - 1 implies names.drop_last()[j] == names[j] by {}
    }
}

/// The first matching position is what `first_match` returns.
proof fn lemma_first_match_at(names: Seq<Seq<char>>, target: Seq<char>, fold_case: bool, i: int)
    requires
        0 <= i < names.len(),
        name_matches(names[i], target, fold_case),
        forall|j: int| 0 <= j < i ==> !name_matches(names[j], target, fold_case),
    ensures
        first_match(names, target, fold_case) == Some(i),
    decreases names.len(),
{
    if i < names.len() - 1 {
        lemma_first_match_at(names.drop_last(), target, fold_case, i);
    } else {
        lemma_first_match(names.drop_last(), target, fold_case);
        assert forall|j: int| 0 <= j < names.len() - 1 implies names.drop_last()[j] == names[j] by {}
    }
}

/// A name selects the first column with exactly that name; failing that, the first
/// column whose name equals it up to ASCII case; and no column only when no name
/// matches either way.
pub proof fn lemma_column_by_name(names: Seq<Seq<char>>, target: Seq<char>)
    ensures
        match column_by_name(names, target) {
            Some(i) => {
                &&& 0 <= i < names.len()
                &&& {
                    ||| names[i] == target && forall|j: int| 0 <= j < i ==> names[j] != target
                    ||| names_match_ignoring_ascii_case(names[i], target) && (forall|j: int|
                        0 <= j < names.len() ==> names[j] != target) && forall|j: int|
                        0 <= j < i ==> !names_match_ignoring_ascii_case(names[j], target)
                }
            },
            None => forall|j: int|
                0 <= j < names.len() ==> names[j] != target && !names_match_ignoring_ascii_case(
                    names[j],
                    target,
                ),
        },
{
    lemma_first_match(names, target, false);
    lemma_first_match(names, target, true);
}

/// Two names match up to ASCII case exactly when their UTF-8 encodings have the
/// same length and agree byte by byte once ASCII capitals are lowered; so a name
/// that matches another is as long as it, and a name matches itself.
pub proof fn lemma_ascii_case_match(a: Seq<char>, b: Seq<char>)
    ensures
        names_match_ignoring_ascii_case(a, b) <==> {
            &&& encode_utf8(a).len() == encode_utf8(b).len()
            &&& forall|i: int|
                #![trigger encode_utf8(a)[i]]
                0 <= i < encode_utf8(a).len() ==> {
                    let x = encode_utf8(a)[i];
                    let y = encode_utf8(b)[i];
                    (if 65 <= x <= 90 {
                        x + 32
                    } else {
                        x as int
                    }) == (if 65 <= y <= 90 {
                        y + 32
                    } else {
                        y as int
                    })
                }
        },
        names_match_ignoring_ascii_case(a, b) ==> encode_utf8(a).len() == encode_utf8(b).len(),
        names_match_ignoring_ascii_case(a, a),
{
    let ea = encode_utf8(a);
    let eb = encode_utf8(b);
    if names_match_ignoring_ascii_case(a, b) {
        assert forall|i: int| #![trigger ea[i]] 0 <= i < ea.len() implies {
            let x = ea[i];
            let y = eb[i];
            (if 65 <= x <= 90 {
                x + 32
            } else {
                x as int
            }) == (if 65 <= y <= 90 {
                y + 32
            } else {
                y as int
            })
        } by {
            assert(ascii_lower(ea[i]) == ascii_lower(eb[i]));
        }
    }
    if ea.len() == eb.len() && forall|i: int|
        #![trigger ea[i]]
        0 <= i < ea.len() ==> {
            let x = ea[i];
            let y = eb[i];
            (if 65 <= x <= 90 {
                x + 32
            } else {
                x as int
            }) == (if 65 <= y <= 90 {
                y + 32
            } else {
                y as int
            })
        } {
        assert forall|i: int| 0 <= i < ea.len() implies #[trigger] ascii_lower(ea[i])
            == ascii_lower(eb[i]) by {
            let x = ea[i];
            let y = eb[i];
            assert((if 65 <= x <= 90 {
                x + 32
            } else {
                x as int
            }) == (if 65 <= y <= 90 {
                y + 32
            } else {
                y as int
            }));
        }
    }
}

/// A name selects only a column whose name is exactly as long as it (in UTF-8
/// bytes): an exact match, or one that differs only in the case of ASCII letters.
pub proof fn lemma_selected_name_same_length(names: Seq<Seq<char>>, target: Seq<char>)
    ensures
        column_by_name(names, target) matches Some(i) ==> encode_utf8(names[i]).len()
            == encode_utf8(target).len(),
{
    lemma_column_by_name(names, target);
    if let Some(i) = column_by_name(names, target) {
        lemma_ascii_case_match(names[i], target);
    }
}

/// A position selects its own column exactly when it is in bounds.
pub proof fn lemma_column_by_position(names: Seq<Seq<char>>, position: usize)
    ensures
        column_by_position(names, position) == Some(position as int) <==> position < names.len(),
        column_by_position(names, position) is None <==> position >= names.len(),
{
}

/// A type that can select a column of a row: a position or a name.
pub trait RowIndex: Sealed {
    /// The column this index selects among columns with the given names.
    spec fn locate(&self, names: Seq<Seq<char>>) -> Option<int>;

    fn __idx<C: AsName>(&self, columns: &[C]) -> (res: Option<usize>)
        ensures
            match res {
                Some(i) => i < columns@.len() && self.locate(names_of(columns@)) == Some(i as int),
                None => self.locate(names_of(columns@)) is None,
            },
    ;

    /// The index as written in an error, as its `Display` writes it.
    spec fn label(&self) -> Seq<char>;

    fn __label(&self) -> (s: String)
        ensures
            s@ == self.label(),
    ;
}

impl Sealed for usize {}

impl RowIndex for usize {
    open spec fn locate(&self, names: Seq<Seq<char>>) -> Option<int> {
        column_by_position(names, *self)
    }

    fn __idx<C: AsName>(&self, columns: &[C]) -> (res: Option<usize>) {
        if *self >= columns.len() {
            None
        } else {
            Some(*self)
        }
    }

    /// The decimal numeral of the position.
    open spec fn label(&self) -> Seq<char> {
        decimal(*self as nat)
    }

    fn __label(&self) -> (s: String) {
        let mut s = String::new();
        push_decimal(&mut s, *self);
        s
    }
}

/// Compares two byte strings.
fn bytes_equal(a: &[u8], b: &[u8]) -> (res: bool)
    ensures
        res == (a@ == b@),
{
    if a.len() != b.len() {
        return false;
    }
    let n = a.len();
    let mut i: usize = 0;
    while i < n
        invariant
            n == a@.len(),
            n == b@.len(),
            i <= n,
            forall|j: int| 0 <= j < i ==> a@[j] == b@[j],
        decreases n - i,
    {
        if a[i] != b[i] {
            return false;
        }
        i = i + 1;
    }
    assert(a@ =~= b@);
    true
}

fn to_ascii_lower(b: u8) -> (res: u8)
    ensures
        res == ascii_lower(b),
{
    if 65 <= b && b <= 90 {
        b + 32
    } else {
        b
    }
}

/// Compares two byte strings up to ASCII case.
fn bytes_equal_ignore_ascii_case(a: &[u8], b: &[u8]) -> (res: bool)
    ensures
        res == bytes_eq_ignore_ascii_case(a@, b@),
{
    if a.len() != b.len() {
        return false;
    }
    let n = a.len();
    let mut i: usize = 0;
    while i < n
        invariant
            n == a@.len(),
            n == b@.len(),
            i <= n,
            forall|j: int| 0 <= j < i ==> #[trigger] ascii_lower(a@[j]) == ascii_lower(b@[j]),
        decreases n - i,
    {
        if to_ascii_lower(a[i]) != to_ascii_lower(b[i]) {
            assert(ascii_lower(a@[i as int]) != ascii_lower(b@[i as int]));
            return false;
        }
        i = i + 1;
    }
    true
}

/// Whether two strings are equal.
pub(crate) fn str_equal(a: &str, b: &str) -> (res: bool)
    ensures
        res == (a@ == b@),
{
    let res = bytes_equal(a.as_bytes(), b.as_bytes());
    proof {
        encode_utf8_decode_utf8(a@);
        encode_utf8_decode_utf8(b@);
    }
    res
}

/// Whether two strings are equal up to ASCII case.
fn str_equal_ignore_ascii_case(a: &str, b: &str) -> (res: bool)
    ensures
        res == names_match_ignoring_ascii_case(a@, b@),
{
    bytes_equal_ignore_ascii_case(a.as_bytes(), b.as_bytes())
}

/// The first column whose name matches `target`.
fn find_column<T: AsName>(columns: &[T], target: &str, fold_case: bool) -> (res: Option<usize>)
    ensures
        match res {
            Some(i) => i < columns@.len() && first_match(names_of(columns@), target@, fold_case)
                == Some(i as int),
            None => first_match(names_of(columns@), target@, fold_case) is None,
        },
{
    let ghost names = names_of(columns@);
    let n = columns.len();
    let mut i: usize = 0;
    while i < n
        invariant
            n == columns@.len(),
            names == names_of(columns@),
            i <= n,
            first_match(names.take(i as int), target@, fold_case) is None,
        decreases n - i,
    {
        let name = columns[i].as_name();
        let found = if fold_case {
            str_equal_ignore_ascii_case(name, target)
        } else {
            str_equal(name, target)
        };
        proof {
            assert(names.take(i + 1).drop_last() =~= names.take(i as int));
            assert(names.take(i + 1).last() == names[i as int]);
        }
        if found {
            proof {
                lemma_first_match(names.take(i as int), target@, fold_case);
                assert forall|j: int| 0 <= j < i implies !name_matches(
                    names[j],
                    target@,
                    fold_case,
                ) by {
                    assert(names.take(i as int)[j] == names[j]);
                }
                lemma_first_match_at(names, target@, fold_case, i as int);
            }
            return Some(i);
        }
        i = i + 1;
    }
    proof {
        assert(names.take(n as int) =~= names);
    }
    None
}

impl Sealed for str {}

impl RowIndex for str {
    open spec fn locate(&self, names: Seq<Seq<char>>) -> Option<int> {
        column_by_name(names, self@)
    }

    fn __idx<C: AsName>(&self, columns: &[C]) -> (res: Option<usize>) {
        if let Some(idx) = find_column(columns, self, false) {
            return Some(idx);
        }
        // ASCII-only case folding, as PostgreSQL clients commonly do; it is
        // not a full Unicode comparison.
        find_column(columns, self, true)
    }

    /// The name itself.
    open spec fn label(&self) -> Seq<char> {
        self@
    }

    fn __label(&self) -> (s: String) {
        self.to_owned()
    }
}

impl<T> Sealed for &T where T: ?Sized + Sealed {}

impl<T> RowIndex for &T where T: ?Sized + RowIndex {
    open spec fn locate(&self, names: Seq<Seq<char>>) -> Option<int> {
        (**self).locate(names)
    }

    fn __idx<C: AsName>(&self, columns: &[C]) -> (res: Option<usize>) {
        (**self).__idx(columns)
    }

    open spec fn label(&self) -> Seq<char> {
        (**self).label()
    }

    fn __label(&self) -> (s: String) {
        (**self).__label()
    }
}

} // verus!

verus! {

/// A reference to an index selects what the index selects, and is written as it is.
pub proof fn lemma_ref_index_same<I: ?Sized + RowIndex>(x: &I, names: Seq<Seq<char>>)
    ensures
        <&I as RowIndex>::locate(&x, names) == x.locate(names),
        <&I as RowIndex>::label(&x) == x.label(),
{
}

} // verus!
