//! The ordered string-keyed style table: named colors, fonts and sizes
//! populated by configuration loading.  Looking up a missing key is a
//! programmer error, so lookups require the key to be present.

use vstd::prelude::*;
use crate::cx::Cx;

verus! {

/// A color with 8-bit channels.
#[derive(Clone, Copy, PartialEq, Eq, Structural, Debug)]
pub struct Color {
    pub r: u8,
    pub g: u8,
    pub b: u8,
    pub a: u8,
}

/// A style table entry: a color, a font name, or a size in integer units.
#[derive(Clone, Debug)]
pub enum StyleValue {
    Color(Color),
    Font(String),
    Size(i64),
}

/// Style keys are unique.
pub open spec fn style_table_wf(table: Seq<(String, StyleValue)>) -> bool {
    forall|i: int, j: int| 0 <= i < j < table.len() ==> table[i].0@ != table[j].0@
}

/// The value stored under `key`, if any.
pub open spec fn style_lookup(table: Seq<(String, StyleValue)>, key: Seq<char>) -> Option<
    StyleValue,
>
    decreases table.len(),
{
    if table.len() == 0 {
        Option::None
    } else if table[0].0@ == key {
        Option::Some(table[0].1)
    } else {
        style_lookup(table.drop_first(), key)
    }
}

/// Character-wise string equality, decided against the views.
fn str_eq(a: &str, b: &str) -> (r: bool)
    ensures
        r == (a@ == b@),
{
    let a_len = a.unicode_len();
    let b_len = b.unicode_len();
    if a_len != b_len {
        return false;
    }
    let mut i: usize = 0;
    while i < a_len
        invariant
            i <= a_len,
            a_len == a@.len(),
            a@.len() == b@.len(),
            forall|j: int| 0 <= j < i ==> a@[j] == b@[j],
        decreases a_len - i,
    {
        if a.get_char(i) != b.get_char(i) {
            return false;
        }
        i += 1;
    }
    proof {
        assert(a@ =~= b@);
    }
    true
}

/// Skipping entries that do not carry the key leaves the lookup alone.
proof fn lemma_style_lookup_skip(table: Seq<(String, StyleValue)>, key: Seq<char>, i: int)
    requires
        0 <= i <= table.len(),
        forall|j: int| 0 <= j < i ==> table[j].0@ != key,
    ensures
        style_lookup(table, key) == style_lookup(table.skip(i), key),
    decreases i,
{
    if i > 0 {
        assert(table.len() > 0);
        assert(table[0].0@ != key);
        lemma_style_lookup_skip(table.drop_first(), key, i - 1);
        assert(table.drop_first().skip(i - 1) =~= table.skip(i));
    } else {
        assert(table.skip(0) =~= table);
    }
}

/// Replacing the first entry that carries `key` changes that key's value
/// and nothing else.
proof fn lemma_style_lookup_update(
    table: Seq<(String, StyleValue)>,
    i: int,
    entry: (String, StyleValue),
    key: Seq<char>,
)
    requires
        0 <= i < table.len(),
        entry.0@ == key,
        table[i].0@ == key,
        forall|j: int| 0 <= j < i ==> table[j].0@ != key,
    ensures
        style_lookup(table.update(i, entry), key) == Option::Some(entry.1),
        forall|k: Seq<char>|
            k != key ==> style_lookup(table.update(i, entry), k) == style_lookup(table, k),
    decreases i,
{
    let t2 = table.update(i, entry);
    if i == 0 {
        assert(t2[0] == entry);
        assert(t2.drop_first() =~= table.drop_first());
        assert forall|k: Seq<char>| k != key implies style_lookup(t2, k) == style_lookup(
            table,
            k,
        ) by {
            reveal_with_fuel(style_lookup, 3);
            assert(t2[0].0@ == key);
            assert(table[0].0@ == key);
        }
    } else {
        assert(t2[0] == table[0]);
        assert(table[0].0@ != key);
        assert(t2.drop_first() =~= table.drop_first().update(i - 1, entry));
        lemma_style_lookup_update(table.drop_first(), i - 1, entry, key);
        assert forall|k: Seq<char>| k != key implies style_lookup(t2, k) == style_lookup(
            table,
            k,
        ) by {
            reveal_with_fuel(style_lookup, 3);
            if t2[0].0@ != k {
                assert(style_lookup(t2.drop_first(), k) == style_lookup(table.drop_first(), k));
            }
        }
    }
}

/// Appending an entry under a fresh key adds that key and changes no
/// other.
proof fn lemma_style_lookup_push(
    table: Seq<(String, StyleValue)>,
    entry: (String, StyleValue),
    key: Seq<char>,
)
    requires
        entry.0@ == key,
        forall|j: int| 0 <= j < table.len() ==> table[j].0@ != key,
    ensures
        style_lookup(table.push(entry), key) == Option::Some(entry.1),
        forall|k: Seq<char>|
            k != key ==> style_lookup(table.push(entry), k) == style_lookup(table, k),
    decreases table.len(),
{
    let t2 = table.push(entry);
    if table.len() == 0 {
        assert(t2[0] == entry);
        assert(t2.drop_first() =~= Seq::<(String, StyleValue)>::empty());
        assert forall|k: Seq<char>| k != key implies style_lookup(t2, k) == style_lookup(
            table,
            k,
        ) by {
            reveal_with_fuel(style_lookup, 3);
            assert(t2[0].0@ == key);
        }
    } else {
        assert(t2[0] == table[0]);
        assert(table[0].0@ != key);
        assert(t2.drop_first() =~= table.drop_first().push(entry));
        lemma_style_lookup_push(table.drop_first(), entry, key);
        assert forall|k: Seq<char>| k != key implies style_lookup(t2, k) == style_lookup(
            table,
            k,
        ) by {
            reveal_with_fuel(style_lookup, 3);
            if t2[0].0@ != k {
                assert(style_lookup(t2.drop_first(), k) == style_lookup(table.drop_first(), k));
            }
        }
    }
}

/// Implemented by widgets that build their initial themed state from the
/// engine's style table.
pub trait Style {
    fn style(cx: &mut Cx) -> Self where Self: core::marker::Sized;
}

impl Cx {
    /// Find the first entry carrying `name`, or the table's length.
    #[verifier::loop_isolation(false)]
    fn style_index_of(&self, name: &str) -> (i: usize)
        ensures
            i <= self.style_values@.len(),
            forall|j: int| 0 <= j < i ==> self.style_values@[j].0@ != name@,
            i < self.style_values@.len() ==> self.style_values@[i as int].0@ == name@,
            style_lookup(self.style_values@, name@) == style_lookup(
                self.style_values@.skip(i as int),
                name@,
            ),
    {
        let mut i: usize = 0;
        while i < self.style_values.len()
            invariant
                i <= self.style_values@.len(),
                forall|j: int| 0 <= j < i ==> self.style_values@[j].0@ != name@,
            decreases self.style_values@.len() - i,
        {
            if str_eq(self.style_values[i].0.as_str(), name) {
                proof {
                    lemma_style_lookup_skip(self.style_values@, name@, i as int);
                }
                return i;
            }
            i += 1;
        }
        proof {
            lemma_style_lookup_skip(self.style_values@, name@, i as int);
        }
        i
    }

    /// The color stored under `name`; looking up a missing or mistyped
    /// key is a programmer error, so the key must be present.
    pub fn color(&self, name: &str) -> (r: Color)
        requires
            self.wf(),
            style_lookup(self.style_values@, name@) matches Option::Some(v) && v is Color,
        ensures
            style_lookup(self.style_values@, name@) == Option::Some(StyleValue::Color(r)),
    {
        let i = self.style_index_of(name);
        if i < self.style_values.len() {
            if let StyleValue::Color(val) = self.style_values[i].1 {
                proof {
                    assert(self.style_values@.skip(i as int)[0] == self.style_values@[i as int]);
                }
                return val;
            }
        }
        proof {
            assert(false);
        }
        unreached()
    }

    /// The font name stored under `name`; the key must be present.
    pub fn font(&self, name: &str) -> (r: String)
        requires
            self.wf(),
            style_lookup(self.style_values@, name@) matches Option::Some(v) && v is Font,
        ensures
            style_lookup(self.style_values@, name@) matches Option::Some(v) && v matches
                StyleValue::Font(f) && f@ == r@,
    {
        let i = self.style_index_of(name);
        if i < self.style_values.len() {
            let entry = &self.style_values[i].1;
            if let StyleValue::Font(val) = entry {
                proof {
                    assert(self.style_values@.skip(i as int)[0] == self.style_values@[i as int]);
                }
                return val.clone();
            }
        }
        proof {
            assert(false);
        }
        unreached()
    }

    /// The size stored under `name`, in integer units; the key must be
    /// present.
    pub fn size(&self, name: &str) -> (r: i64)
        requires
            self.wf(),
            style_lookup(self.style_values@, name@) matches Option::Some(v) && v is Size,
        ensures
            style_lookup(self.style_values@, name@) == Option::Some(StyleValue::Size(r)),
    {
        let i = self.style_index_of(name);
        if i < self.style_values.len() {
            if let StyleValue::Size(val) = self.style_values[i].1 {
                proof {
                    assert(self.style_values@.skip(i as int)[0] == self.style_values@[i as int]);
                }
                return val;
            }
        }
        proof {
            assert(false);
        }
        unreached()
    }

    /// Store a value under `name`, replacing what the key carried.
    fn set_style_value(&mut self, name: &str, val: StyleValue)
        requires
            old(self).wf(),
        ensures
            final(self).wf(),
            style_lookup(final(self).style_values@, name@) == Option::Some(val),
            forall|k: Seq<char>|
                k != name@ ==> style_lookup(final(self).style_values@, k) == style_lookup(
                    old(self).style_values@,
                    k,
                ),
            *final(self) == (Cx { style_values: final(self).style_values, ..*old(self) }),
    {
        let i = self.style_index_of(name);
        let entry = (String::from_str(name), val);
        if i < self.style_values.len() {
            proof {
                lemma_style_lookup_update(self.style_values@, i as int, entry, name@);
            }
            self.style_values[i] = entry;
        } else {
            proof {
                lemma_style_lookup_push(self.style_values@, entry, name@);
            }
            self.style_values.push(entry);
        }
    }

    /// Name a color.
    pub fn set_color(&mut self, name: &str, val: Color)
        requires
            old(self).wf(),
        ensures
            final(self).wf(),
            style_lookup(final(self).style_values@, name@) == Option::Some(
                StyleValue::Color(val),
            ),
            forall|k: Seq<char>|
                k != name@ ==> style_lookup(final(self).style_values@, k) == style_lookup(
                    old(self).style_values@,
                    k,
                ),
            *final(self) == (Cx { style_values: final(self).style_values, ..*old(self) }),
    {
        self.set_style_value(name, StyleValue::Color(val));
    }

    /// Name a font.
    pub fn set_font(&mut self, name: &str, val: &str)
        requires
            old(self).wf(),
        ensures
            final(self).wf(),
            style_lookup(final(self).style_values@, name@) matches Option::Some(v) && v matches
                StyleValue::Font(f) && f@ == val@,
            forall|k: Seq<char>|
                k != name@ ==> style_lookup(final(self).style_values@, k) == style_lookup(
                    old(self).style_values@,
                    k,
                ),
            *final(self) == (Cx { style_values: final(self).style_values, ..*old(self) }),
    {
        self.set_style_value(name, StyleValue::Font(String::from_str(val)));
    }

    /// Name a size, in integer units.
    pub fn set_size(&mut self, name: &str, val: i64)
        requires
            old(self).wf(),
        ensures
            final(self).wf(),
            style_lookup(final(self).style_values@, name@) == Option::Some(StyleValue::Size(val)),
            forall|k: Seq<char>|
                k != name@ ==> style_lookup(final(self).style_values@, k) == style_lookup(
                    old(self).style_values@,
                    k,
                ),
            *final(self) == (Cx { style_values: final(self).style_values, ..*old(self) }),
    {
        self.set_style_value(name, StyleValue::Size(val));
    }
}

} // verus!
