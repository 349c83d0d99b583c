use vstd::prelude::*;

verus! {

/// Two mappings kept in step: from each name to the index it marks, and from each marked
/// index to the name shown for it.
pub struct MarksView {
    pub names: Map<Seq<char>, usize>,
    pub labels: Map<usize, Seq<char>>,
}

/// The two mappings are inverse to each other: a name maps to at most one index, an index
/// to at most one name, and each one leads back to the other.
pub open spec fn marks_consistent(m: MarksView) -> bool {
    &&& forall|k: usize|
        #[trigger] m.labels.contains_key(k) ==> m.names.contains_key(m.labels[k]) && m.names[m.labels[k]]
            == k
    &&& forall|n: Seq<char>|
        #[trigger] m.names.contains_key(n) ==> m.labels.contains_key(m.names[n]) && m.labels[m.names[n]]
            == n
}

/// Marking `index` with `name`: the name that labelled `index` before, if another one,
/// loses its mark; the name's previous index loses its label; then the name points at
/// `index` and `index` shows the name.
pub open spec fn marked(m: MarksView, name: Seq<char>, index: usize) -> MarksView {
    let names = if m.labels.contains_key(index) && m.labels[index] != name {
        m.names.remove(m.labels[index])
    } else {
        m.names
    };
    let labels = if m.names.contains_key(name) {
        m.labels.remove(m.names[name])
    } else {
        m.labels
    };
    MarksView { names: names.insert(name, index), labels: labels.insert(index, name) }
}

pub proof fn lemma_marked_consistent(m: MarksView, name: Seq<char>, index: usize)
    requires
        marks_consistent(m),
    ensures
        marks_consistent(marked(m, name, index)),
{
    let r = marked(m, name, index);
    assert forall|k: usize| #[trigger] r.labels.contains_key(k) implies r.names.contains_key(
        r.labels[k],
    ) && r.names[r.labels[k]] == k by {
        if k != index {
            assert(m.labels.contains_key(k));
            if m.labels[k] == name {
                assert(m.names[name] == k);
            }
            if m.labels.contains_key(index) && m.labels[index] == m.labels[k] {
                assert(m.names[m.labels[k]] == index);
            }
        }
    }
    assert forall|n: Seq<char>| #[trigger] r.names.contains_key(n) implies r.labels.contains_key(
        r.names[n],
    ) && r.labels[r.names[n]] == n by {
        if n != name {
            assert(m.names.contains_key(n));
            if m.names[n] == index {
                assert(m.labels[index] == n);
            }
            if m.names.contains_key(name) && m.names[name] == m.names[n] {
                assert(m.labels[m.names[n]] == name);
            }
        }
    }
}

/// Marking one name at `i` and then at another index `j` takes the label off `i`, and
/// leaves `j` as the one index that shows the name.
pub proof fn lemma_remark_moves_label(m: MarksView, x: Seq<char>, i: usize, j: usize)
    requires
        marks_consistent(m),
        i != j,
    ensures
        ({
            let r = marked(marked(m, x, i), x, j);
            &&& !r.labels.contains_key(i)
            &&& r.names.contains_key(x) && r.names[x] == j
            &&& r.labels.contains_key(j) && r.labels[j] == x
            &&& forall|k: usize| #[trigger] r.labels.contains_key(k) && r.labels[k] == x ==> k == j
        }),
{
    lemma_marked_consistent(m, x, i);
    lemma_marked_consistent(marked(m, x, i), x, j);
}

/// Marking a name at an index that another name labels takes the mark off that other name:
/// no two names ever share an index.
pub proof fn lemma_mark_evicts_previous_name(m: MarksView, x: Seq<char>, y: Seq<char>, k: usize)
    requires
        marks_consistent(m),
        m.names.contains_key(y),
        m.names[y] == k,
        x != y,
    ensures
        !marked(m, x, k).names.contains_key(y),
        marked(m, x, k).labels[k] == x,
        forall|n: Seq<char>|
            #[trigger] marked(m, x, k).names.contains_key(n) && marked(m, x, k).names[n] == k ==> n
                == x,
{
    lemma_marked_consistent(m, x, k);
}

/// `v` holds exactly the entries of `m`, each name once.
pub open spec fn names_held(v: Seq<(String, usize)>, m: Map<Seq<char>, usize>) -> bool {
    &&& forall|a: int, b: int| 0 <= a < b < v.len() ==> v[a].0@ != v[b].0@
    &&& forall|a: int|
        0 <= a < v.len() ==> m.contains_key(#[trigger] v[a].0@) && m[v[a].0@] == v[a].1
    &&& forall|k: Seq<char>|
        #[trigger] m.contains_key(k) ==> exists|a: int| 0 <= a < v.len() && v[a].0@ == k
}

/// `v` holds exactly the entries of `m`, each index once.
pub open spec fn labels_held(v: Seq<(usize, String)>, m: Map<usize, Seq<char>>) -> bool {
    &&& forall|a: int, b: int| 0 <= a < b < v.len() ==> v[a].0 != v[b].0
    &&& forall|a: int|
        0 <= a < v.len() ==> m.contains_key(#[trigger] v[a].0) && m[v[a].0] == v[a].1@
    &&& forall|k: usize|
        #[trigger] m.contains_key(k) ==> exists|a: int| 0 <= a < v.len() && v[a].0 == k
}

/// A mark table: the two mappings, each held as a list of distinct keys.
pub struct MarkTable {
    by_name: Vec<(String, usize)>,
    by_index: Vec<(usize, String)>,
    names: Ghost<Map<Seq<char>, usize>>,
    labels: Ghost<Map<usize, Seq<char>>>,
}

impl View for MarkTable {
    type V = MarksView;

    closed spec fn view(&self) -> MarksView {
        MarksView { names: self.names@, labels: self.labels@ }
    }
}

impl MarkTable {
    pub closed spec fn wf(&self) -> bool {
        &&& names_held(self.by_name@, self.names@)
        &&& labels_held(self.by_index@, self.labels@)
        &&& marks_consistent(self@)
    }

    /// In a valid table the two mappings are inverse to each other.
    pub proof fn lemma_consistent(&self)
        requires
            self.wf(),
        ensures
            marks_consistent(self@),
    {
    }

    pub fn new() -> (r: MarkTable)
        ensures
            r.wf(),
            r@.names == Map::<Seq<char>, usize>::empty(),
            r@.labels == Map::<usize, Seq<char>>::empty(),
    {
        MarkTable {
            by_name: Vec::new(),
            by_index: Vec::new(),
            names: Ghost(Map::empty()),
            labels: Ghost(Map::empty()),
        }
    }

    /// The index that `name` marks.
    pub fn index_of(&self, name: &String) -> (r: Option<usize>)
        requires
            self.wf(),
        ensures
            r == if self@.names.contains_key(name@) {
                Some(self@.names[name@])
            } else {
                None::<usize>
            },
    {
        match position_of_name(&self.by_name, name) {
            Some(a) => Some(self.by_name[a].1),
            None => None,
        }
    }

    /// The name shown for `index`.
    pub fn name_of(&self, index: usize) -> (r: Option<String>)
        requires
            self.wf(),
        ensures
            match r {
                Some(s) => self@.labels.contains_key(index) && s@ == self@.labels[index],
                None => !self@.labels.contains_key(index),
            },
    {
        match position_of_index(&self.by_index, index) {
            Some(a) => Some(self.by_index[a].1.clone()),
            None => None,
        }
    }

    /// Marks `index` with `name`.
    pub fn mark(&mut self, name: String, index: usize)
        requires
            old(self).wf(),
        ensures
            final(self).wf(),
            final(self)@ == marked(old(self)@, name@, index),
    {
        proof {
            lemma_marked_consistent(self@, name@, index);
        }
        let ghost target = marked(self@, name@, index);
        let ghost names = self.names@;
        let ghost labels = self.labels@;
        let previous_name = self.name_of(index);
        let previous_index = self.index_of(&name);
        match previous_name {
            Some(previous) => {
                if previous != name {
                    drop_name(&mut self.by_name, Ghost(names), &previous);
                    proof {
                        names = names.remove(previous@);
                    }
                }
            },
            None => {},
        }
        match previous_index {
            Some(old_index) => {
                drop_index(&mut self.by_index, Ghost(labels), old_index);
                proof {
                    labels = labels.remove(old_index);
                }
            },
            None => {},
        }
        put_name(&mut self.by_name, Ghost(names), name.clone(), index);
        put_index(&mut self.by_index, Ghost(labels), index, name);
        self.names = Ghost(target.names);
        self.labels = Ghost(target.labels);
    }
}

fn position_of_name(v: &Vec<(String, usize)>, name: &String) -> (r: Option<usize>)
    ensures
        match r {
            Some(a) => a < v.len() && v[a as int].0@ == name@,
            None => forall|b: int| 0 <= b < v.len() ==> v[b].0@ != name@,
        },
{
    let mut a: usize = 0;
    while a < v.len()
        invariant
            a <= v.len(),
            forall|b: int| 0 <= b < a ==> v[b].0@ != name@,
        decreases v.len() - a,
    {
        if v[a].0 == *name {
            return Some(a);
        }
        a = a + 1;
    }
    None
}

fn position_of_index(v: &Vec<(usize, String)>, index: usize) -> (r: Option<usize>)
    ensures
        match r {
            Some(a) => a < v.len() && v[a as int].0 == index,
            None => forall|b: int| 0 <= b < v.len() ==> v[b].0 != index,
        },
{
    let mut a: usize = 0;
    while a < v.len()
        invariant
            a <= v.len(),
            forall|b: int| 0 <= b < a ==> v[b].0 != index,
        decreases v.len() - a,
    {
        if v[a].0 == index {
            return Some(a);
        }
        a = a + 1;
    }
    None
}

fn drop_name(v: &mut Vec<(String, usize)>, Ghost(m): Ghost<Map<Seq<char>, usize>>, name: &String)
    requires
        names_held(old(v)@, m),
    ensures
        names_held(final(v)@, m.remove(name@)),
{
    match position_of_name(v, name) {
        Some(b) => {
            let ghost before = v@;
            v.remove(b);
            let ghost r = m.remove(name@);
            assert forall|k: Seq<char>| #[trigger] r.contains_key(k) implies exists|a: int|
                0 <= a < v.len() && v[a].0@ == k by {
                let c = choose|c: int| 0 <= c < before.len() && before[c].0@ == k;
                if c < b {
                    assert(v[c].0@ == k);
                } else {
                    assert(v[c - 1].0@ == k);
                }
            }
        },
        None => {
            assert(m.remove(name@) =~= m);
        },
    }
}

fn drop_index(v: &mut Vec<(usize, String)>, Ghost(m): Ghost<Map<usize, Seq<char>>>, index: usize)
    requires
        labels_held(old(v)@, m),
    ensures
        labels_held(final(v)@, m.remove(index)),
{
    match position_of_index(v, index) {
        Some(b) => {
            let ghost before = v@;
            v.remove(b);
            let ghost r = m.remove(index);
            assert forall|k: usize| #[trigger] r.contains_key(k) implies exists|a: int|
                0 <= a < v.len() && v[a].0 == k by {
                let c = choose|c: int| 0 <= c < before.len() && before[c].0 == k;
                if c < b {
                    assert(v[c].0 == k);
                } else {
                    assert(v[c - 1].0 == k);
                }
            }
        },
        None => {
            assert(m.remove(index) =~= m);
        },
    }
}

fn put_name(
    v: &mut Vec<(String, usize)>,
    Ghost(m): Ghost<Map<Seq<char>, usize>>,
    name: String,
    index: usize,
)
    requires
        names_held(old(v)@, m),
    ensures
        names_held(final(v)@, m.insert(name@, index)),
{
    let ghost before = v@;
    let ghost mut at: int = 0;
    match position_of_name(v, &name) {
        Some(b) => {
            v.set(b, (name, index));
            proof {
                at = b as int;
            }
        },
        None => {
            v.push((name, index));
            proof {
                at = before.len() as int;
            }
        },
    }
    assert(forall|c: int| 0 <= c < before.len() && c != at ==> v[c] == before[c]);
    let ghost r = m.insert(name@, index);
    assert forall|k: Seq<char>| #[trigger] r.contains_key(k) implies exists|a: int|
        0 <= a < v.len() && v[a].0@ == k by {
        if k == name@ {
            assert(v[at].0@ == k);
        } else {
            let c = choose|c: int| 0 <= c < before.len() && before[c].0@ == k;
            assert(v[c].0@ == k);
        }
    }
}

fn put_index(
    v: &mut Vec<(usize, String)>,
    Ghost(m): Ghost<Map<usize, Seq<char>>>,
    index: usize,
    name: String,
)
    requires
        labels_held(old(v)@, m),
    ensures
        labels_held(final(v)@, m.insert(index, name@)),
{
    let ghost before = v@;
    let ghost mut at: int = 0;
    match position_of_index(v, index) {
        Some(b) => {
            v.set(b, (index, name));
            proof {
                at = b as int;
            }
        },
        None => {
            v.push((index, name));
            proof {
                at = before.len() as int;
            }
        },
    }
    assert(forall|c: int| 0 <= c < before.len() && c != at ==> v[c] == before[c]);
    let ghost r = m.insert(index, name@);
    assert forall|k: usize| #[trigger] r.contains_key(k) implies exists|a: int|
        0 <= a < v.len() && v[a].0 == k by {
        if k == index {
            assert(v[at].0 == k);
        } else {
            let c = choose|c: int| 0 <= c < before.len() && before[c].0 == k;
            assert(v[c].0 == k);
        }
    }
}

} // verus!
