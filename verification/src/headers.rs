//! Response headers as `http::HeaderMap::insert` treats them: one value per
//! (lowercase) name, a new value for a name replacing the old one in place.
use crate::text::str_eq;
use vstd::prelude::*;

verus! {

/// The position of the header `name`, or -1.
pub open spec fn name_index(s: Seq<(Seq<char>, Seq<char>)>, name: Seq<char>) -> int
    decreases s.len(),
{
    if s.len() == 0 {
        -1
    } else if s.last().0 == name {
        s.len() - 1
    } else {
        name_index(s.drop_last(), name)
    }
}

/// No header name occurs twice.
pub open spec fn distinct_names(s: Seq<(Seq<char>, Seq<char>)>) -> bool {
    forall|i: int, j: int| 0 <= i < j < s.len() ==> s[i].0 != s[j].0
}

/// The headers after inserting `value` under `name`.
pub open spec fn header_inserted(
    s: Seq<(Seq<char>, Seq<char>)>,
    name: Seq<char>,
    value: Seq<char>,
) -> Seq<(Seq<char>, Seq<char>)> {
    let i = name_index(s, name);
    if i < 0 {
        s.push((name, value))
    } else {
        s.update(i, (name, value))
    }
}

/// The value stored under `name`, if any.
pub open spec fn header_value(s: Seq<(Seq<char>, Seq<char>)>, name: Seq<char>) -> Option<Seq<char>> {
    let i = name_index(s, name);
    if i < 0 {
        None
    } else {
        Some(s[i].1)
    }
}

pub proof fn lemma_name_index(s: Seq<(Seq<char>, Seq<char>)>, name: Seq<char>)
    ensures
        -1 <= name_index(s, name) < s.len(),
        name_index(s, name) >= 0 ==> s[name_index(s, name)].0 == name,
        name_index(s, name) < 0 ==> forall|k: int| 0 <= k < s.len() ==> s[k].0 != name,
    decreases s.len(),
{
    if s.len() > 0 && s.last().0 != name {
        let t = s.drop_last();
        lemma_name_index(t, name);
        assert forall|k: int| 0 <= k < t.len() implies t[k] == s[k] by {}
    }
}

proof fn lemma_name_index_at(s: Seq<(Seq<char>, Seq<char>)>, name: Seq<char>, k: int)
    requires
        distinct_names(s),
        0 <= k < s.len(),
        s[k].0 == name,
    ensures
        name_index(s, name) == k,
{
    lemma_name_index(s, name);
}

pub proof fn lemma_inserted_distinct(s: Seq<(Seq<char>, Seq<char>)>, name: Seq<char>, value: Seq<char>)
    requires
        distinct_names(s),
    ensures
        distinct_names(header_inserted(s, name, value)),
        header_inserted(s, name, value).len() == s.len() + if name_index(s, name) < 0 {
            1int
        } else {
            0int
        },
{
    lemma_name_index(s, name);
}

/// After a header is set, reading it gives the value just set, and every
/// other header reads as before.
pub proof fn law_insert_then_get(
    s: Seq<(Seq<char>, Seq<char>)>,
    name: Seq<char>,
    value: Seq<char>,
    other: Seq<char>,
)
    requires
        distinct_names(s),
    ensures
        header_value(header_inserted(s, name, value), name) == Some(value),
        other != name ==> header_value(header_inserted(s, name, value), other) == header_value(
            s,
            other,
        ),
{
    lemma_name_index(s, name);
    lemma_name_index(s, other);
    let t = header_inserted(s, name, value);
    lemma_inserted_distinct(s, name, value);
    lemma_name_index(t, other);
    let i = name_index(s, name);
    if i < 0 {
        lemma_name_index_at(t, name, t.len() - 1);
    } else {
        lemma_name_index_at(t, name, i);
    }
    if other != name {
        let k = name_index(s, other);
        if k >= 0 {
            lemma_name_index_at(t, other, k);
        } else {
            assert forall|m: int| 0 <= m < t.len() implies t[m].0 != other by {
                if m < s.len() {
                }
            }
        }
    }
}

/// A set of response headers.
pub struct HeaderList {
    entries: Vec<(String, String)>,
}

impl HeaderList {
    pub closed spec fn view(&self) -> Seq<(Seq<char>, Seq<char>)> {
        self.entries@.map_values(|e: (String, String)| (e.0@, e.1@))
    }

    pub closed spec fn wf(&self) -> bool {
        distinct_names(self.view())
    }

    pub fn new() -> (h: Self)
        ensures
            h.wf(),
            h.view() == Seq::<(Seq<char>, Seq<char>)>::empty(),
    {
        let h = HeaderList { entries: Vec::new() };
        assert(h.view() =~= Seq::<(Seq<char>, Seq<char>)>::empty());
        h
    }

    fn position(&self, name: &str) -> (r: Option<usize>)
        ensures
            match r {
                Some(i) => name_index(self.view(), name@) == i && i < self.entries.len(),
                None => name_index(self.view(), name@) < 0,
            },
    {
        let ghost s = self.view();
        proof {
            lemma_name_index(s, name@);
        }
        let mut j: usize = self.entries.len();
        assert(s.take(j as int) =~= s);
        while j > 0
            invariant
                j <= self.entries.len(),
                s == self.view(),
                s.len() == self.entries.len(),
                name_index(s, name@) == name_index(s.take(j as int), name@),
            decreases j,
        {
            assert(s.take(j as int).drop_last() =~= s.take(j - 1));
            assert(s[j - 1].0 == self.entries[j - 1].0@);
            if str_eq(self.entries[j - 1].0.as_str(), name) {
                return Some(j - 1);
            }
            j -= 1;
        }
        None
    }

    /// Sets `name` to `value`, replacing an earlier value.
    pub fn insert(&mut self, name: &str, value: &str)
        requires
            old(self).wf(),
        ensures
            final(self).wf(),
            final(self).view() == header_inserted(old(self).view(), name@, value@),
    {
        let ghost s = self.view();
        proof {
            lemma_inserted_distinct(s, name@, value@);
            lemma_name_index(s, name@);
        }
        let entry = (name.to_owned(), value.to_owned());
        match self.position(name) {
            None => {
                self.entries.push(entry);
                assert(self.view() =~= s.push((name@, value@)));
            },
            Some(i) => {
                self.entries.set(i, entry);
                assert(self.view() =~= s.update(i as int, (name@, value@)));
            },
        }
    }

    /// The value of `name`, if set.
    pub fn get(&self, name: &str) -> (r: Option<String>)
        ensures
            match r {
                Some(v) => header_value(self.view(), name@) == Some(v@),
                None => header_value(self.view(), name@) is None,
            },
    {
        match self.position(name) {
            None => None,
            Some(i) => {
                assert(self.view()[i as int] == (self.entries[i as int].0@, self.entries[i as int].1@));
                Some(self.entries[i].1.clone())
            },
        }
    }

    /// The headers as name/value pairs, in order.
    pub fn to_pairs(&self) -> (out: Vec<(String, String)>)
        ensures
            out@.map_values(|e: (String, String)| (e.0@, e.1@)) == self.view(),
    {
        let mut out: Vec<(String, String)> = Vec::new();
        let mut i: usize = 0;
        while i < self.entries.len()
            invariant
                i <= self.entries.len(),
                out@ == self.entries@.take(i as int),
            decreases self.entries.len() - i,
        {
            let e = &self.entries[i];
            out.push((e.0.clone(), e.1.clone()));
            assert(out@ =~= self.entries@.take(i + 1));
            i += 1;
        }
        assert(self.entries@.take(i as int) =~= self.entries@);
        out
    }
}

} // verus!
