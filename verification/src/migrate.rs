//! Bringing a stored configuration into the shape of the built-in one.
//!
//! A configuration is a tree of tables. The stored tree is compared with the
//! default tree key by key: a key that the default does not know is
//! dropped, a key that is missing gets the default's value, and so does a key
//! whose value is of another type than the default's. Tables inside tables
//! are treated in the same way.

use vstd::prelude::*;

verus! {

/// A value of a configuration file.
#[derive(Debug)]
pub enum TomlValue {
    String(String),
    Integer(i64),
    /// A number with a fraction, as the 64 bits of its binary form.
    Float(u64),
    Boolean(bool),
    /// A date or time, as it is written.
    Datetime(String),
    Array(Vec<TomlValue>),
    /// Keys with their values, in the order of the file.
    Table(Vec<(String, TomlValue)>),
}

/// Mathematical content of a [`TomlValue`].
pub enum TomlView {
    String(Seq<char>),
    Integer(i64),
    Float(u64),
    Boolean(bool),
    Datetime(Seq<char>),
    Array(Seq<TomlView>),
    Table(Seq<(Seq<char>, TomlView)>),
}

/// What a value holds.
pub open spec fn value_view(value: TomlValue) -> TomlView
    decreases value, 0int,
{
    match value {
        TomlValue::String(s) => TomlView::String(s@),
        TomlValue::Integer(i) => TomlView::Integer(i),
        TomlValue::Float(f) => TomlView::Float(f),
        TomlValue::Boolean(b) => TomlView::Boolean(b),
        TomlValue::Datetime(d) => TomlView::Datetime(d@),
        TomlValue::Array(items) => TomlView::Array(array_view(items@, items@.len() as int)),
        TomlValue::Table(entries) => TomlView::Table(table_view(entries@, entries@.len() as int)),
    }
}

/// What the first `n` items of an array hold.
pub open spec fn array_view(items: Seq<TomlValue>, n: int) -> Seq<TomlView>
    decreases items, n,
{
    if n <= 0 || n > items.len() {
        Seq::empty()
    } else {
        array_view(items, n - 1).push(value_view(items[n - 1]))
    }
}

/// What the first `n` entries of a table hold.
pub open spec fn table_view(entries: Seq<(String, TomlValue)>, n: int) -> Seq<
    (Seq<char>, TomlView),
>
    decreases entries, n,
{
    if n <= 0 || n > entries.len() {
        Seq::empty()
    } else {
        table_view(entries, n - 1).push((entries[n - 1].0@, value_view(entries[n - 1].1)))
    }
}

impl View for TomlValue {
    type V = TomlView;

    open spec fn view(&self) -> TomlView {
        value_view(*self)
    }
}

/// Whether two values are of the same type.
pub open spec fn same_type(a: TomlView, b: TomlView) -> bool {
    match a {
        TomlView::String(_) => b is String,
        TomlView::Integer(_) => b is Integer,
        TomlView::Float(_) => b is Float,
        TomlView::Boolean(_) => b is Boolean,
        TomlView::Datetime(_) => b is Datetime,
        TomlView::Array(_) => b is Array,
        TomlView::Table(_) => b is Table,
    }
}

/// The value of the first entry of `table` under `key`.
pub open spec fn lookup(table: Seq<(Seq<char>, TomlView)>, key: Seq<char>, from: int) -> Option<
    TomlView,
>
    decreases table.len() - from,
{
    if from < 0 || from >= table.len() {
        None
    } else if table[from].0 == key {
        Some(table[from].1)
    } else {
        lookup(table, key, from + 1)
    }
}

/// The stored value brought into the shape of the default: a table is
/// migrated entry by entry, any other value is kept if it is of the
/// default's type and replaced by the default otherwise.
pub open spec fn migrated(stored: TomlView, default: TomlView) -> TomlView
    decreases default, 1int,
{
    match default {
        TomlView::Table(d) => match stored {
            TomlView::Table(s) => TomlView::Table(migrated_entries(s, d, d.len() as int)),
            _ => default,
        },
        _ => if same_type(stored, default) {
            stored
        } else {
            default
        },
    }
}

/// The first `n` entries of a migrated table: the keys of the default in
/// the default's order, each with the stored value migrated, or with the
/// default's value where the stored table lacks the key.
pub open spec fn migrated_entries(
    stored: Seq<(Seq<char>, TomlView)>,
    default: Seq<(Seq<char>, TomlView)>,
    n: int,
) -> Seq<(Seq<char>, TomlView)>
    decreases default, 0int, n,
{
    if n <= 0 || n > default.len() {
        Seq::empty()
    } else {
        migrated_entries(stored, default, n - 1).push(
            (
                default[n - 1].0,
                match lookup(stored, default[n - 1].0, 0) {
                    Some(value) => migrated(value, default[n - 1].1),
                    None => default[n - 1].1,
                },
            ),
        )
    }
}

/// Whether no key occurs twice in any table of the value.
pub open spec fn unique_keys(value: TomlView) -> bool
    decreases value,
{
    match value {
        TomlView::Table(entries) => {
            &&& forall|i: int, j: int|
                0 <= i < j < entries.len() ==> (#[trigger] entries[i]).0 != (
                #[trigger] entries[j]).0
            &&& forall|i: int| 0 <= i < entries.len() ==> unique_keys((#[trigger] entries[i]).1)
        },
        TomlView::Array(items) => forall|i: int|
            0 <= i < items.len() ==> unique_keys(#[trigger] items[i]),
        _ => true,
    }
}

/// The value that entry `i` of a migrated table holds.
pub open spec fn migrated_value(
    stored: Seq<(Seq<char>, TomlView)>,
    default: Seq<(Seq<char>, TomlView)>,
    i: int,
) -> TomlView {
    match lookup(stored, default[i].0, 0) {
        Some(value) => migrated(value, default[i].1),
        None => default[i].1,
    }
}

/// A migrated table has the keys of the default in the default's order.
pub proof fn lemma_migrated_entries(
    stored: Seq<(Seq<char>, TomlView)>,
    default: Seq<(Seq<char>, TomlView)>,
    n: int,
)
    requires
        0 <= n <= default.len(),
    ensures
        migrated_entries(stored, default, n).len() == n,
        forall|i: int|
            0 <= i < n ==> (#[trigger] migrated_entries(stored, default, n)[i]) == (
                default[i].0,
                migrated_value(stored, default, i),
            ),
    decreases n,
{
    if n > 0 {
        lemma_migrated_entries(stored, default, n - 1);
    }
}

/// In a table without repeated keys every entry is found under its key.
pub proof fn lemma_lookup_finds(table: Seq<(Seq<char>, TomlView)>, i: int, from: int)
    requires
        0 <= from <= i < table.len(),
        forall|a: int, b: int|
            0 <= a < b < table.len() ==> (#[trigger] table[a]).0 != (#[trigger] table[b]).0,
    ensures
        lookup(table, table[i].0, from) == Some(table[i].1),
    decreases i - from,
{
    if from < i {
        lemma_lookup_finds(table, i, from + 1);
    }
}

/// A value in the shape of the default stays as it is: migrating the
/// default itself changes nothing.
pub proof fn lemma_migrate_self(default: TomlView)
    requires
        unique_keys(default),
    ensures
        migrated(default, default) == default,
    decreases default,
{
    match default {
        TomlView::Table(d) => {
            let m = migrated_entries(d, d, d.len() as int);
            lemma_migrated_entries(d, d, d.len() as int);
            assert forall|i: int| 0 <= i < d.len() implies m[i] == d[i] by {
                lemma_lookup_finds(d, i, 0);
                assert(unique_keys(d[i].1));
                lemma_migrate_self(d[i].1);
            }
            assert(m =~= d);
        },
        _ => {},
    }
}

/// Migration is idempotent: what was migrated once is not changed by a
/// second migration against the same default.
pub proof fn lemma_migrate_idempotent(stored: TomlView, default: TomlView)
    requires
        unique_keys(default),
    ensures
        migrated(migrated(stored, default), default) == migrated(stored, default),
    decreases default,
{
    match default {
        TomlView::Table(d) => match stored {
            TomlView::Table(s) => {
                let n = d.len() as int;
                let once = migrated_entries(s, d, n);
                let twice = migrated_entries(once, d, n);
                lemma_migrated_entries(s, d, n);
                lemma_migrated_entries(once, d, n);
                assert forall|a: int, b: int| 0 <= a < b < once.len() implies (
                #[trigger] once[a]).0 != (#[trigger] once[b]).0 by {
                    assert(d[a].0 != d[b].0);
                }
                assert forall|i: int| 0 <= i < n implies twice[i] == once[i] by {
                    lemma_lookup_finds(once, i, 0);
                    assert(once[i].0 == d[i].0);
                    assert(unique_keys(d[i].1));
                    match lookup(s, d[i].0, 0) {
                        Some(value) => {
                            lemma_migrate_idempotent(value, d[i].1);
                        },
                        None => {
                            lemma_migrate_self(d[i].1);
                        },
                    }
                }
                assert(twice =~= once);
            },
            _ => {
                lemma_migrate_self(default);
            },
        },
        _ => {},
    }
}

/// The entry of `table` that a search from the front finds under `key`.
proof fn lemma_lookup_at(table: Seq<(Seq<char>, TomlView)>, key: Seq<char>, at: int, from: int)
    requires
        0 <= from <= at <= table.len(),
        forall|k: int| from <= k < at ==> (#[trigger] table[k]).0 != key,
        at < table.len() ==> table[at].0 == key,
    ensures
        at < table.len() ==> lookup(table, key, from) == Some(table[at].1),
        at == table.len() ==> lookup(table, key, from) is None,
    decreases at - from,
{
    if from < at {
        lemma_lookup_at(table, key, at, from + 1);
    }
}

/// Index of the first entry of `table` under `key`.
fn find(table: &Vec<(String, TomlValue)>, key: &String) -> (at: usize)
    ensures
        at <= table@.len(),
        forall|k: int| 0 <= k < at ==> (#[trigger] table@[k]).0@ != key@,
        at < table@.len() ==> table@[at as int].0@ == key@,
{
    let mut i: usize = 0;
    while i < table.len()
        invariant
            0 <= i <= table@.len(),
            forall|k: int| 0 <= k < i ==> (#[trigger] table@[k]).0@ != key@,
        decreases table.len() - i,
    {
        if table[i].0 == *key {
            return i;
        }
        i = i + 1;
    }
    i
}

/// The view of a table holds the views of its entries, one by one.
pub proof fn lemma_table_view(entries: Seq<(String, TomlValue)>, n: int)
    requires
        0 <= n <= entries.len(),
    ensures
        table_view(entries, n).len() == n,
        forall|i: int|
            0 <= i < n ==> (#[trigger] table_view(entries, n)[i]) == (entries[i].0@, entries[i].1@),
    decreases n,
{
    if n > 0 {
        lemma_table_view(entries, n - 1);
    }
}

/// The view of an array holds the views of its items, one by one.
pub proof fn lemma_array_view(items: Seq<TomlValue>, n: int)
    requires
        0 <= n <= items.len(),
    ensures
        array_view(items, n).len() == n,
        forall|i: int| 0 <= i < n ==> (#[trigger] array_view(items, n)[i]) == items[i]@,
    decreases n,
{
    if n > 0 {
        lemma_array_view(items, n - 1);
    }
}

impl TomlValue {
    /// A copy of the value.
    #[verifier::loop_isolation(false)]
    pub fn duplicate(&self) -> (copy: TomlValue)
        ensures
            copy@ == self@,
        decreases self,
    {
        match self {
            TomlValue::String(s) => TomlValue::String(s.clone()),
            TomlValue::Integer(i) => TomlValue::Integer(*i),
            TomlValue::Float(f) => TomlValue::Float(*f),
            TomlValue::Boolean(b) => TomlValue::Boolean(*b),
            TomlValue::Datetime(d) => TomlValue::Datetime(d.clone()),
            TomlValue::Array(items) => {
                let mut out: Vec<TomlValue> = Vec::new();
                let mut i: usize = 0;
                while i < items.len()
                    invariant
                        0 <= i <= items@.len(),
                        out@.len() == i,
                        forall|k: int| 0 <= k < i ==> (#[trigger] out@[k])@ == items@[k]@,
                    decreases items.len() - i,
                {
                    let item = items[i].duplicate();
                    out.push(item);
                    i = i + 1;
                }
                let copy = TomlValue::Array(out);
                proof {
                    lemma_array_view(out@, out@.len() as int);
                    lemma_array_view(items@, items@.len() as int);
                    assert(copy@->Array_0 =~= self@->Array_0);
                }
                copy
            },
            TomlValue::Table(entries) => {
                let mut out: Vec<(String, TomlValue)> = Vec::new();
                let mut i: usize = 0;
                while i < entries.len()
                    invariant
                        0 <= i <= entries@.len(),
                        out@.len() == i,
                        forall|k: int|
                            0 <= k < i ==> (#[trigger] out@[k]).0@ == entries@[k].0@ && out@[k].1@
                                == entries@[k].1@,
                    decreases entries.len() - i,
                {
                    let value = entries[i].1.duplicate();
                    out.push((entries[i].0.clone(), value));
                    i = i + 1;
                }
                let copy = TomlValue::Table(out);
                proof {
                    lemma_table_view(out@, out@.len() as int);
                    lemma_table_view(entries@, entries@.len() as int);
                    assert(copy@->Table_0 =~= self@->Table_0);
                }
                copy
            },
        }
    }

    /// Whether the two values hold the same.
    #[verifier::loop_isolation(false)]
    pub fn same(&self, other: &TomlValue) -> (same: bool)
        ensures
            same == (self@ == other@),
        decreases self,
    {
        match (self, other) {
            (TomlValue::String(a), TomlValue::String(b)) => *a == *b,
            (TomlValue::Integer(a), TomlValue::Integer(b)) => *a == *b,
            (TomlValue::Float(a), TomlValue::Float(b)) => *a == *b,
            (TomlValue::Boolean(a), TomlValue::Boolean(b)) => *a == *b,
            (TomlValue::Datetime(a), TomlValue::Datetime(b)) => *a == *b,
            (TomlValue::Array(a), TomlValue::Array(b)) => {
                proof {
                    lemma_array_view(a@, a@.len() as int);
                    lemma_array_view(b@, b@.len() as int);
                }
                if a.len() != b.len() {
                    return false;
                }
                let mut i: usize = 0;
                while i < a.len()
                    invariant
                        0 <= i <= a@.len(),
                        a@.len() == b@.len(),
                        forall|k: int| 0 <= k < i ==> (#[trigger] a@[k])@ == b@[k]@,
                    decreases a.len() - i,
                {
                    if !a[i].same(&b[i]) {
                        assert(self@->Array_0[i as int] != other@->Array_0[i as int]);
                        return false;
                    }
                    i = i + 1;
                }
                assert(self@->Array_0 =~= other@->Array_0);
                true
            },
            (TomlValue::Table(a), TomlValue::Table(b)) => {
                proof {
                    lemma_table_view(a@, a@.len() as int);
                    lemma_table_view(b@, b@.len() as int);
                }
                if a.len() != b.len() {
                    return false;
                }
                let mut i: usize = 0;
                while i < a.len()
                    invariant
                        0 <= i <= a@.len(),
                        a@.len() == b@.len(),
                        forall|k: int|
                            0 <= k < i ==> (#[trigger] a@[k]).0@ == b@[k].0@ && a@[k].1@
                                == b@[k].1@,
                    decreases a.len() - i,
                {
                    if !(a[i].0 == b[i].0) || !a[i].1.same(&b[i].1) {
                        assert(self@->Table_0[i as int] != other@->Table_0[i as int]);
                        return false;
                    }
                    i = i + 1;
                }
                assert(self@->Table_0 =~= other@->Table_0);
                true
            },
            _ => false,
        }
    }

    /// Whether the two values are of the same type.
    pub fn same_type(&self, other: &TomlValue) -> (same: bool)
        ensures
            same == same_type(self@, other@),
    {
        match self {
            TomlValue::String(_) => matches!(other, TomlValue::String(_)),
            TomlValue::Integer(_) => matches!(other, TomlValue::Integer(_)),
            TomlValue::Float(_) => matches!(other, TomlValue::Float(_)),
            TomlValue::Boolean(_) => matches!(other, TomlValue::Boolean(_)),
            TomlValue::Datetime(_) => matches!(other, TomlValue::Datetime(_)),
            TomlValue::Array(_) => matches!(other, TomlValue::Array(_)),
            TomlValue::Table(_) => matches!(other, TomlValue::Table(_)),
        }
    }
}

/// Brings `stored` into the shape of `default`: keys the default does not
/// know are dropped, missing keys and values of another type than the
/// default's get the default's value, and the keys come in the default's
/// order.
#[verifier::loop_isolation(false)]
pub fn migrate(stored: &TomlValue, default: &TomlValue) -> (result: TomlValue)
    ensures
        result@ == migrated(stored@, default@),
    decreases default,
{
    match default {
        TomlValue::Table(d) => match stored {
            TomlValue::Table(s) => {
                let ghost sv = stored@->Table_0;
                let ghost dv = default@->Table_0;
                let mut out: Vec<(String, TomlValue)> = Vec::new();
                let mut i: usize = 0;
                while i < d.len()
                    invariant
                        0 <= i <= d@.len(),
                        sv == stored@->Table_0,
                        dv == default@->Table_0,
                        stored == TomlValue::Table(*s),
                        default == TomlValue::Table(*d),
                        out@.len() == i,
                        forall|k: int|
                            0 <= k < i ==> (#[trigger] out@[k]).0@ == dv[k].0 && out@[k].1@
                                == migrated_value(sv, dv, k),
                    decreases d.len() - i,
                {
                    let at = find(s, &d[i].0);
                    proof {
                        lemma_table_view(d@, d@.len() as int);
                        lemma_table_view(s@, s@.len() as int);
                        assert(dv[i as int].0 == d@[i as int].0@);
                        assert forall|k: int| 0 <= k < at implies (#[trigger] sv[k]).0
                            != dv[i as int].0 by {
                            assert(sv[k].0 == s@[k].0@);
                        }
                        if at < s@.len() {
                            assert(sv[at as int].0 == s@[at as int].0@);
                        }
                        lemma_lookup_at(sv, dv[i as int].0, at as int, 0);
                    }
                    let value = if at < s.len() {
                        migrate(&s[at].1, &d[i].1)
                    } else {
                        d[i].1.duplicate()
                    };
                    out.push((d[i].0.clone(), value));
                    i = i + 1;
                }
                let result = TomlValue::Table(out);
                proof {
                    lemma_table_view(out@, out@.len() as int);
                    lemma_table_view(d@, d@.len() as int);
                    lemma_migrated_entries(sv, dv, dv.len() as int);
                    assert(result@->Table_0 =~= migrated_entries(sv, dv, dv.len() as int));
                }
                result
            },
            _ => default.duplicate(),
        },
        _ => if stored.same_type(default) {
            stored.duplicate()
        } else {
            default.duplicate()
        },
    }
}

} // verus!
