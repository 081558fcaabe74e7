use vstd::prelude::*;

verus! {

/// Header names that the server itself reads or writes.
#[derive(Debug, Clone, Copy, PartialEq, Eq, Structural, Hash)]
pub enum HTTPHeader {
    UserAgent,
    AcceptEncoding,
    ContentType,
    ContentLength,
    ContentEncoding,
}

/// The wire form of a well-known header name.
pub open spec fn header_name_spec(h: HTTPHeader) -> Seq<char> {
    match h {
        HTTPHeader::UserAgent => "User-Agent"@,
        HTTPHeader::AcceptEncoding => "Accept-Encoding"@,
        HTTPHeader::ContentType => "Content-Type"@,
        HTTPHeader::ContentLength => "Content-Length"@,
        HTTPHeader::ContentEncoding => "Content-Encoding"@,
    }
}

impl HTTPHeader {
    /// The name as it is written on the wire.
    pub fn to_string(&self) -> (r: String)
        ensures
            r@ == header_name_spec(*self),
    {
        match self {
            HTTPHeader::UserAgent => "User-Agent".to_owned(),
            HTTPHeader::AcceptEncoding => "Accept-Encoding".to_owned(),
            HTTPHeader::ContentType => "Content-Type".to_owned(),
            HTTPHeader::ContentLength => "Content-Length".to_owned(),
            HTTPHeader::ContentEncoding => "Content-Encoding".to_owned(),
        }
    }
}

/// The abstract contents of a header container: entries in insertion order,
/// each a name with its ordered values.
pub type HeaderEntries = Seq<(Seq<char>, Seq<Seq<char>>)>;

/// Position of the first entry named `name` at or after `i`, or the length
/// of `m` when there is none.
pub open spec fn index_from(m: HeaderEntries, name: Seq<char>, i: int) -> int
    decreases m.len() - i,
{
    if i >= m.len() {
        m.len() as int
    } else if i >= 0 && m[i].0 == name {
        i
    } else {
        index_from(m, name, i + 1)
    }
}

pub open spec fn index_of(m: HeaderEntries, name: Seq<char>) -> int {
    index_from(m, name, 0)
}

/// The values stored under `name`, if any.
pub open spec fn get_spec(m: HeaderEntries, name: Seq<char>) -> Option<Seq<Seq<char>>> {
    let k = index_of(m, name);
    if k < m.len() {
        Some(m[k].1)
    } else {
        None
    }
}

/// `set`: replace the values under `name`, or add a new entry at the end.
pub open spec fn set_spec(m: HeaderEntries, name: Seq<char>, values: Seq<Seq<char>>) -> HeaderEntries {
    let k = index_of(m, name);
    if k < m.len() {
        m.update(k, (name, values))
    } else {
        m.push((name, values))
    }
}

/// `append`: add values after those already under `name`, or add a new entry.
pub open spec fn append_spec(m: HeaderEntries, name: Seq<char>, values: Seq<Seq<char>>) -> HeaderEntries {
    let k = index_of(m, name);
    if k < m.len() {
        m.update(k, (name, m[k].1 + values))
    } else {
        m.push((name, values))
    }
}

/// No two entries share a name.
pub open spec fn names_unique(m: HeaderEntries) -> bool {
    forall|i: int, j: int| 0 <= i < m.len() && 0 <= j < m.len() && i != j ==> m[i].0 != m[j].0
}

pub proof fn lemma_index_from_bounds(m: HeaderEntries, name: Seq<char>, i: int)
    requires
        0 <= i,
    ensures
        i <= index_from(m, name, i) <= m.len() || (i > m.len() && index_from(m, name, i) == m.len()),
        index_from(m, name, i) < m.len() ==> m[index_from(m, name, i)].0 == name,
        forall|j: int| i <= j < index_from(m, name, i) ==> m[j].0 != name,
    decreases m.len() - i,
{
    if i < m.len() && m[i].0 != name {
        lemma_index_from_bounds(m, name, i + 1);
    }
}

proof fn lemma_unique_preserved(m: HeaderEntries, name: Seq<char>, values: Seq<Seq<char>>)
    ensures
        names_unique(m) ==> names_unique(set_spec(m, name, values)),
        names_unique(m) ==> names_unique(append_spec(m, name, values)),
{
    lemma_index_from_bounds(m, name, 0);
}

/// A mapping from header name to its ordered values that keeps the order in
/// which names were first added. Names are compared exactly, with no case
/// folding.
#[derive(Debug, Clone)]
pub struct HeaderMap {
    entries: Vec<(String, Vec<String>)>,
}

impl View for HeaderMap {
    type V = HeaderEntries;

    closed spec fn view(&self) -> HeaderEntries {
        self.entries.deep_view()
    }
}

impl HeaderMap {
    pub open spec fn wf(&self) -> bool {
        names_unique(self@)
    }

    pub fn new() -> (r: Self)
        ensures
            r@ == Seq::<(Seq<char>, Seq<Seq<char>>)>::empty(),
            r.wf(),
    {
        let r = HeaderMap { entries: Vec::new() };
        assert(r@ =~= Seq::<(Seq<char>, Seq<Seq<char>>)>::empty());
        r
    }

    /// Number of distinct names.
    pub fn len(&self) -> (r: usize)
        ensures
            r == self@.len(),
    {
        self.entries.len()
    }

    fn find(&self, name: &String) -> (r: usize)
        ensures
            r == index_of(self@, name@),
    {
        let mut i: usize = 0;
        while i < self.entries.len()
            invariant
                i <= self.entries@.len(),
                index_from(self@, name@, i as int) == index_of(self@, name@),
            decreases self.entries@.len() - i,
        {
            if self.entries[i].0 == *name {
                return i;
            }
            i = i + 1;
        }
        i
    }

    /// The values under `name`, if the container has it.
    pub fn get(&self, name: &String) -> (r: Option<&Vec<String>>)
        ensures
            match r {
                Some(v) => get_spec(self@, name@) == Some(v.deep_view()),
                None => get_spec(self@, name@) is None,
            },
    {
        let k = self.find(name);
        if k < self.entries.len() {
            Some(&self.entries[k].1)
        } else {
            None
        }
    }

    /// The name and values of the entry at position `i`.
    pub fn entry(&self, i: usize) -> (r: (&String, &Vec<String>))
        requires
            i < self@.len(),
        ensures
            r.0@ == self@[i as int].0,
            r.1.deep_view() == self@[i as int].1,
    {
        (&self.entries[i].0, &self.entries[i].1)
    }

    /// Replaces whatever `name` held with `values`.
    pub fn set(&mut self, name: String, values: Vec<String>)
        ensures
            final(self)@ == set_spec(old(self)@, name@, values.deep_view()),
            old(self).wf() ==> final(self).wf(),
    {
        proof {
            lemma_index_from_bounds(self@, name@, 0);
            lemma_unique_preserved(self@, name@, values.deep_view());
        }
        let ghost m = self@;
        let ghost vals = values.deep_view();
        let k = self.find(&name);
        if k < self.entries.len() {
            self.entries.remove(k);
            self.entries.insert(k, (name, values));
        } else {
            self.entries.push((name, values));
        }
        assert(self@ =~= set_spec(m, name@, vals));
    }

    /// Adds `values` after those already held under `name`.
    pub fn append(&mut self, name: String, values: Vec<String>)
        ensures
            final(self)@ == append_spec(old(self)@, name@, values.deep_view()),
            old(self).wf() ==> final(self).wf(),
    {
        proof {
            lemma_index_from_bounds(self@, name@, 0);
            lemma_unique_preserved(self@, name@, values.deep_view());
        }
        let ghost m = self@;
        let ghost vals = values.deep_view();
        let k = self.find(&name);
        if k < self.entries.len() {
            let (n, mut held) = self.entries.remove(k);
            let mut extra = values;
            let ghost before = held.deep_view();
            held.append(&mut extra);
            assert(held.deep_view() =~= before + vals);
            self.entries.insert(k, (n, held));
        } else {
            self.entries.push((name, values));
        }
        assert(self@ =~= append_spec(m, name@, vals));
    }
}

} // verus!
