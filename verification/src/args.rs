//! The untyped argument bag of a model-issued tool call: a key/value map of
//! plain values, the library's own shape for what arrives as open JSON.

use vstd::prelude::*;
use crate::text::{fmt_u64, spec_u64_str, str_eq};

verus! {

/// A plain argument value.
#[derive(Debug)]
pub enum ArgValue {
    Text(String),
    Int(u64),
    Flag(bool),
    List(Vec<String>),
}

/// One key/value pair of an argument bag.
#[derive(Debug)]
pub struct ArgEntry {
    pub key: String,
    pub value: ArgValue,
}

/// An untyped argument bag, looked up by key; the first entry with a key
/// wins.
#[derive(Debug)]
pub struct Args {
    pub entries: Vec<ArgEntry>,
}

/// The value under `key`, taking the first entry that matches.
pub open spec fn spec_lookup(entries: Seq<ArgEntry>, key: Seq<char>) -> Option<ArgValue>
    decreases entries.len(),
{
    if entries.len() == 0 {
        None
    } else if entries[0].key@ == key {
        Some(entries[0].value)
    } else {
        spec_lookup(entries.skip(1), key)
    }
}

impl Args {
    /// The value under `key`, if any.
    pub open spec fn lookup(&self, key: Seq<char>) -> Option<ArgValue> {
        spec_lookup(self.entries@, key)
    }

    /// Whether some value stands under `key`.
    pub open spec fn has_arg(&self, key: Seq<char>) -> bool {
        self.lookup(key) is Some
    }

    /// The text under `key`, if the key holds a text value.
    pub open spec fn text_arg(&self, key: Seq<char>) -> Option<Seq<char>> {
        match self.lookup(key) {
            Some(ArgValue::Text(s)) => Some(s@),
            _ => None,
        }
    }

    /// The integer under `key`, if the key holds an integer value.
    pub open spec fn int_arg(&self, key: Seq<char>) -> Option<u64> {
        match self.lookup(key) {
            Some(ArgValue::Int(n)) => Some(n),
            _ => None,
        }
    }

    /// The text list under `key`, if the key holds a list value.
    pub open spec fn list_arg(&self, key: Seq<char>) -> Option<Seq<Seq<char>>> {
        match self.lookup(key) {
            Some(ArgValue::List(v)) => Some(v.deep_view()),
            _ => None,
        }
    }

    /// An empty argument bag.
    pub fn new() -> (r: Args)
        ensures
            r.entries@.len() == 0,
    {
        Args { entries: Vec::new() }
    }

    /// Add an entry at the end of the bag.
    pub fn push(&mut self, key: String, value: ArgValue)
        ensures
            final(self).entries@ == old(self).entries@ + seq![ArgEntry { key, value }],
    {
        self.entries.push(ArgEntry { key, value });
        assert(self.entries@ =~= old(self).entries@ + seq![ArgEntry { key, value }]);
    }

    /// Look the value under `key` up.
    pub fn get(&self, key: &str) -> (r: Option<&ArgValue>)
        ensures
            match r {
                Some(v) => self.lookup(key@) == Some(*v),
                None => self.lookup(key@) is None,
            },
    {
        let n = self.entries.len();
        let mut i: usize = 0;
        proof {
            assert(self.entries@.skip(0) =~= self.entries@);
        }
        while i < n
            invariant
                n == self.entries@.len(),
                i <= n,
                spec_lookup(self.entries@, key@) == spec_lookup(
                    self.entries@.skip(i as int),
                    key@,
                ),
            decreases n - i,
        {
            proof {
                assert(self.entries@.skip(i as int)[0] == self.entries@[i as int]);
                assert(self.entries@.skip(i as int).skip(1) =~= self.entries@.skip(i + 1));
            }
            if str_eq(self.entries[i].key.as_str(), key) {
                return Some(&self.entries[i].value);
            }
            i += 1;
        }
        assert(self.entries@.skip(n as int) =~= Seq::<ArgEntry>::empty());
        None
    }
}

/// What one argument value reads as in a record: text quoted, integers in
/// decimal, flags spelled out, lists bracketed. Quotes inside a text are
/// not escaped; the record is for reading back, not for parsing.
pub open spec fn spec_arg_value_text(v: ArgValue) -> Seq<char> {
    match v {
        ArgValue::Text(s) => "\""@ + s@ + "\""@,
        ArgValue::Int(n) => spec_u64_str(n as int),
        ArgValue::Flag(b) => if b {
            "true"@
        } else {
            "false"@
        },
        ArgValue::List(items) => "["@ + spec_text_list(items.deep_view()) + "]"@,
    }
}

/// Quoted texts, comma-separated.
pub open spec fn spec_text_list(items: Seq<Seq<char>>) -> Seq<char>
    decreases items.len(),
{
    if items.len() == 0 {
        Seq::empty()
    } else {
        "\""@ + items[0] + "\""@ + spec_text_list_rest(items.skip(1))
    }
}

/// The tail of a comma-separated text list: each item behind a separator.
pub open spec fn spec_text_list_rest(items: Seq<Seq<char>>) -> Seq<char>
    decreases items.len(),
{
    if items.len() == 0 {
        Seq::empty()
    } else {
        ", \""@ + items[0] + "\""@ + spec_text_list_rest(items.skip(1))
    }
}

/// One rendered entry: the key, an equals sign, and the value's text.
pub open spec fn spec_arg_entry_text(e: ArgEntry) -> Seq<char> {
    e.key@ + "="@ + spec_arg_value_text(e.value)
}

/// Rendered entries, comma-separated, in bag order.
pub open spec fn spec_arg_entries_text(entries: Seq<ArgEntry>) -> Seq<char>
    decreases entries.len(),
{
    if entries.len() == 0 {
        Seq::empty()
    } else {
        spec_arg_entry_text(entries[0]) + spec_arg_entries_rest(entries.skip(1))
    }
}

/// The tail of the rendered entries: each behind a separator.
pub open spec fn spec_arg_entries_rest(entries: Seq<ArgEntry>) -> Seq<char>
    decreases entries.len(),
{
    if entries.len() == 0 {
        Seq::empty()
    } else {
        ", "@ + spec_arg_entry_text(entries[0]) + spec_arg_entries_rest(entries.skip(1))
    }
}

/// Render a text list, quoted and comma-separated.
fn render_text_list(items: &Vec<String>) -> (r: String)
    ensures
        r@ == spec_text_list(items.deep_view()),
{
    let mut r = String::new();
    if items.len() == 0 {
        return r;
    }
    r.append("\"");
    r.append(items[0].as_str());
    r.append("\"");
    let n = items.len();
    let mut k: usize = 1;
    proof {
        assert(items.deep_view().skip(0) =~= items.deep_view());
        assert(items.deep_view()[0] == items@[0]@);
        assert(items.deep_view().skip(0).skip(1) =~= items.deep_view().skip(1));
    }
    while k < n
        invariant
            n == items@.len(),
            1 <= k <= n,
            r@ + spec_text_list_rest(items.deep_view().skip(k as int)) == spec_text_list(
                items.deep_view(),
            ),
        decreases n - k,
    {
        r.append(", \"");
        r.append(items[k].as_str());
        r.append("\"");
        proof {
            let dv = items.deep_view();
            assert(dv.skip(k as int)[0] == dv[k as int]);
            assert(dv[k as int] == items@[k as int]@);
            assert(dv.skip(k as int).skip(1) =~= dv.skip(k + 1));
        }
        k += 1;
    }
    proof {
        assert(items.deep_view().skip(n as int) =~= Seq::<Seq<char>>::empty());
    }
    r
}

/// Render one argument value.
fn render_arg_value(v: &ArgValue) -> (r: String)
    ensures
        r@ == spec_arg_value_text(*v),
{
    match v {
        ArgValue::Text(s) => {
            let mut r = "\"".to_owned();
            r.append(s.as_str());
            r.append("\"");
            r
        },
        ArgValue::Int(n) => fmt_u64(*n),
        ArgValue::Flag(b) => {
            if *b {
                "true".to_owned()
            } else {
                "false".to_owned()
            }
        },
        ArgValue::List(items) => {
            let mut r = "[".to_owned();
            r.append(render_text_list(items).as_str());
            r.append("]");
            r
        },
    }
}

impl Args {
    /// What the whole bag reads as in a record: the entries rendered in
    /// bag order between braces.
    pub open spec fn spec_render(&self) -> Seq<char> {
        "{"@ + spec_arg_entries_text(self.entries@) + "}"@
    }

    /// Render the bag for a record.
    pub fn render(&self) -> (r: String)
        ensures
            r@ == self.spec_render(),
    {
        let mut r = "{".to_owned();
        let n = self.entries.len();
        if n > 0 {
            r.append(self.entries[0].key.as_str());
            r.append("=");
            r.append(render_arg_value(&self.entries[0].value).as_str());
            let mut k: usize = 1;
            proof {
                assert(self.entries@.skip(0) =~= self.entries@);
                assert(self.entries@.skip(0).skip(1) =~= self.entries@.skip(1));
            }
            while k < n
                invariant
                    n == self.entries@.len(),
                    1 <= k <= n,
                    r@ + spec_arg_entries_rest(self.entries@.skip(k as int)) == "{"@
                        + spec_arg_entries_text(self.entries@),
                decreases n - k,
            {
                r.append(", ");
                r.append(self.entries[k].key.as_str());
                r.append("=");
                r.append(render_arg_value(&self.entries[k].value).as_str());
                proof {
                    assert(self.entries@.skip(k as int)[0] == self.entries@[k as int]);
                    assert(self.entries@.skip(k as int).skip(1) =~= self.entries@.skip(k + 1));
                }
                k += 1;
            }
            proof {
                assert(self.entries@.skip(n as int) =~= Seq::<ArgEntry>::empty());
            }
        }
        r.append("}");
        r
    }
}

} // verus!
