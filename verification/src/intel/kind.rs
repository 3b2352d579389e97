//! Intel kinds: the trait that ingest modules implement for their rows, and the
//! registry of kind names that have a loader.
use vstd::prelude::*;
use crate::text::chars_of;

verus! {

/// A row of some module that can become intel.
pub trait IntelKind {
    /// The raw text that titles, summaries and embeddings are made from.
    fn content(&self) -> String;

    /// The kind name the row is registered under.
    fn kind(&self) -> String;

    /// The row's id within its kind.
    fn intel_id(&self) -> i64;

    /// Link to the row's own detail page.
    fn intel_detail(&self) -> Result<String, String>;
}

/// Strict lexicographic order of character sequences (the order of `String`).
pub open spec fn seq_lt(a: Seq<char>, b: Seq<char>) -> bool
    decreases a.len(),
{
    if a.len() == 0 {
        b.len() > 0
    } else if b.len() == 0 {
        false
    } else if a[0] != b[0] {
        a[0] < b[0]
    } else {
        seq_lt(a.drop_first(), b.drop_first())
    }
}

pub proof fn lemma_seq_lt_irreflexive(a: Seq<char>)
    ensures
        !seq_lt(a, a),
    decreases a.len(),
{
    if a.len() > 0 {
        lemma_seq_lt_irreflexive(a.drop_first());
    }
}

pub proof fn lemma_seq_lt_total(a: Seq<char>, b: Seq<char>)
    ensures
        a != b ==> seq_lt(a, b) || seq_lt(b, a),
        !(seq_lt(a, b) && seq_lt(b, a)),
    decreases a.len(),
{
    if a.len() > 0 && b.len() > 0 {
        lemma_seq_lt_total(a.drop_first(), b.drop_first());
        if a[0] == b[0] && a.drop_first() == b.drop_first() {
            assert(a =~= seq![a[0]] + a.drop_first());
            assert(b =~= seq![b[0]] + b.drop_first());
        }
    } else if a.len() == 0 && b.len() == 0 {
        assert(a =~= b);
    }
}

pub proof fn lemma_seq_lt_transitive(a: Seq<char>, b: Seq<char>, c: Seq<char>)
    requires
        seq_lt(a, b),
        seq_lt(b, c),
    ensures
        seq_lt(a, c),
    decreases a.len(),
{
    if a.len() > 0 && b.len() > 0 && c.len() > 0 {
        if a[0] == b[0] && b[0] == c[0] {
            lemma_seq_lt_transitive(a.drop_first(), b.drop_first(), c.drop_first());
        }
    }
}

/// `a < b` on strings, by characters.
pub fn str_lt(a: &Vec<char>, b: &Vec<char>) -> (r: bool)
    ensures
        r == seq_lt(a@, b@),
{
    let mut i: usize = 0;
    assert(a@.subrange(0, a.len() as int) =~= a@);
    assert(b@.subrange(0, b.len() as int) =~= b@);
    while i < a.len() && i < b.len() && a[i] == b[i]
        invariant
            i <= a.len(),
            i <= b.len(),
            seq_lt(a@, b@) == seq_lt(a@.subrange(i as int, a.len() as int), b@.subrange(
                i as int,
                b.len() as int,
            )),
        decreases a.len() - i,
    {
        let ghost sa = a@.subrange(i as int, a.len() as int);
        let ghost sb = b@.subrange(i as int, b.len() as int);
        assert(sa.drop_first() =~= a@.subrange(i + 1, a.len() as int));
        assert(sb.drop_first() =~= b@.subrange(i + 1, b.len() as int));
        i = i + 1;
    }
    if i == a.len() {
        i < b.len()
    } else if i == b.len() {
        false
    } else {
        a[i] < b[i]
    }
}

/// Strictly increasing names.
pub open spec fn names_sorted(s: Seq<Seq<char>>) -> bool {
    forall|i: int, j: int| 0 <= i < j < s.len() ==> seq_lt(#[trigger] s[i], #[trigger] s[j])
}

/// Character sequences of a list of strings.
pub open spec fn name_views(s: Seq<String>) -> Seq<Seq<char>> {
    s.map_values(|x: String| x@)
}

/// The kind names that have a loader, each once.
pub struct KindRegistry {
    names: Vec<String>,
}

impl View for KindRegistry {
    type V = Set<Seq<char>>;

    closed spec fn view(&self) -> Set<Seq<char>> {
        name_views(self.names@).to_set()
    }
}

impl KindRegistry {
    #[verifier::type_invariant]
    closed spec fn distinct(&self) -> bool {
        name_views(self.names@).no_duplicates()
    }

    /// An empty registry.
    pub fn new() -> (r: Self)
        ensures
            r@ == Set::<Seq<char>>::empty(),
    {
        let r = KindRegistry { names: Vec::new() };
        assert(name_views(r.names@) =~= Seq::<Seq<char>>::empty());
        r
    }

    fn position(&self, kind: &str) -> (r: Option<usize>)
        ensures
            r is None <==> !self@.contains(kind@),
            r matches Some(i) ==> i < self.names@.len() && self.names@[i as int]@ == kind@,
    {
        let k = String::from_str(kind);
        let mut i: usize = 0;
        while i < self.names.len()
            invariant
                i <= self.names@.len(),
                k@ == kind@,
                forall|j: int| 0 <= j < i ==> (#[trigger] self.names@[j])@ != kind@,
            decreases self.names.len() - i,
        {
            if self.names[i] == k {
                assert(name_views(self.names@)[i as int] == kind@);
                return Some(i);
            }
            i = i + 1;
        }
        assert(!name_views(self.names@).contains(kind@)) by {
            if name_views(self.names@).contains(kind@) {
                let j = choose|j: int|
                    0 <= j < name_views(self.names@).len() && name_views(self.names@)[j] == kind@;
                assert(self.names@[j]@ == kind@);
            }
        }
        None
    }

    /// Whether `kind` has a loader.
    pub fn contains(&self, kind: &str) -> (b: bool)
        ensures
            b == self@.contains(kind@),
    {
        self.position(kind).is_some()
    }

    /// Registers the kind name `kind` (registering it again changes nothing).
    pub fn register_intel_kind(&mut self, kind: &str)
        ensures
            final(self)@ == old(self)@.insert(kind@),
    {
        proof {
            use_type_invariant(&*self);
        }
        if self.position(kind).is_some() {
            assert(old(self)@.insert(kind@) =~= old(self)@);
            return;
        }
        let ghost before = name_views(self.names@);
        let mut names: Vec<String> = Vec::new();
        std::mem::swap(&mut names, &mut self.names);
        names.push(String::from_str(kind));
        proof {
            assert(name_views(names@) =~= before.push(kind@));
            assert(name_views(names@).no_duplicates()) by {
                assert forall|i: int, j: int|
                    0 <= i < name_views(names@).len() && 0 <= j < name_views(names@).len() && i
                        != j implies name_views(names@)[i] != name_views(names@)[j] by {
                    if i < before.len() && j < before.len() {
                    } else if i < before.len() {
                        assert(before.contains(before[i]));
                    } else {
                        assert(before.contains(before[j]));
                    }
                }
            }
            broadcast use vstd::seq_lib::group_seq_properties;
        }
        self.names = names;
        assert(self@ =~= old(self)@.insert(kind@)) by {
            assert(name_views(self.names@) =~= before.push(kind@));
        }
    }

    /// The registered kind names in increasing order.
    pub fn list_intel_kinds(&self) -> (r: Vec<String>)
        ensures
            names_sorted(name_views(r@)),
            name_views(r@).to_set() == self@,
    {
        proof {
            use_type_invariant(self);
        }
        let mut out: Vec<String> = Vec::new();
        let mut i: usize = 0;
        while i < self.names.len()
            invariant
                i <= self.names@.len(),
                name_views(self.names@).no_duplicates(),
                names_sorted(name_views(out@)),
                out@.len() == i,
                name_views(out@).to_set() == name_views(self.names@.take(i as int)).to_set(),
            decreases self.names.len() - i,
        {
            let name = self.names[i].clone();
            let nv = chars_of(name.as_str());
            proof {
                assert(!name_views(out@).contains(name@)) by {
                    if name_views(out@).contains(name@) {
                        assert(name_views(out@).to_set().contains(name@));
                        assert(name_views(self.names@.take(i as int)).contains(name@));
                        let j = choose|j: int|
                            0 <= j < i && name_views(self.names@.take(i as int))[j] == name@;
                        assert(name_views(self.names@)[j] == name_views(self.names@)[i as int]);
                    }
                }
            }
            let ghost before = name_views(out@);
            let mut p: usize = 0;
            while p < out.len() && lt_at(&out, p, &nv)
                invariant
                    p <= out@.len(),
                    nv@ == name@,
                    before == name_views(out@),
                    forall|k: int| 0 <= k < p ==> seq_lt((#[trigger] out@[k])@, name@),
                decreases out.len() - p,
            {
                p = p + 1;
            }
            out.insert(p, name);
            proof {
                let after = name_views(out@);
                assert(after =~= before.insert(p as int, name@));
                before.insert_ensures(p as int, name@);
                if p < before.len() {
                    lemma_seq_lt_total(before[p as int], name@);
                    assert(before[p as int] != name@) by {
                        assert(before.contains(before[p as int]));
                    }
                }
                assert forall|a: int, b: int| 0 <= a < b < after.len() implies seq_lt(
                    #[trigger] after[a],
                    #[trigger] after[b],
                ) by {
                    if b < p {
                    } else if b == p {
                        assert(after[a] == before[a]);
                        assert(seq_lt(out@[a]@, name@));
                    } else if a < p {
                        assert(after[a] == before[a]);
                        assert(after[b] == before[b - 1]);
                        if a + 1 <= b - 1 {
                        }
                        assert(seq_lt(before[a], before[b - 1]) || a == b - 1);
                    } else if a == p {
                        assert(after[b] == before[b - 1]);
                        if b - 1 > p {
                            assert(seq_lt(before[p as int], before[b - 1]));
                            lemma_seq_lt_transitive(name@, before[p as int], before[b - 1]);
                        }
                    } else {
                        assert(after[a] == before[a - 1]);
                        assert(after[b] == before[b - 1]);
                    }
                }
                assert(name_views(self.names@.take(i as int + 1)) =~= name_views(
                    self.names@.take(i as int),
                ).push(name@));
                assert forall|x: Seq<char>| after.to_set().contains(x) <==> name_views(
                    self.names@.take(i as int + 1),
                ).to_set().contains(x) by {
                    let pre = name_views(self.names@.take(i as int));
                    if after.contains(x) {
                        let k = choose|k: int| 0 <= k < after.len() && after[k] == x;
                        if k < p {
                            assert(before.contains(x));
                            assert(before.to_set().contains(x));
                            assert(pre.to_set().contains(x));
                            let j = choose|j: int| 0 <= j < pre.len() && pre[j] == x;
                            assert(pre.push(name@)[j] == x);
                        } else if k > p {
                            assert(before[k - 1] == x);
                            assert(before.contains(x));
                            assert(before.to_set().contains(x));
                            assert(pre.to_set().contains(x));
                            let j = choose|j: int| 0 <= j < pre.len() && pre[j] == x;
                            assert(pre.push(name@)[j] == x);
                        } else {
                            assert(pre.push(name@)[pre.len() as int] == x);
                        }
                    }
                    if pre.push(name@).contains(x) {
                        let j = choose|j: int| 0 <= j < pre.len() + 1 && pre.push(name@)[j] == x;
                        if j < pre.len() {
                            assert(pre.contains(x));
                            assert(pre.to_set().contains(x));
                            assert(before.to_set().contains(x));
                            let k = choose|k: int| 0 <= k < before.len() && before[k] == x;
                            if k < p {
                                assert(after[k] == x);
                            } else {
                                assert(after[k + 1] == x);
                            }
                        } else {
                            assert(after[p as int] == x);
                        }
                    }
                }
                assert(after.to_set() =~= name_views(self.names@.take(i as int + 1)).to_set());
            }
            i = i + 1;
        }
        assert(self.names@.take(self.names@.len() as int) =~= self.names@);
        out
    }
}

fn lt_at(names: &Vec<String>, p: usize, v: &Vec<char>) -> (r: bool)
    requires
        p < names@.len(),
    ensures
        r == seq_lt(names@[p as int]@, v@),
{
    let ov = chars_of(names[p].as_str());
    str_lt(&ov, v)
}

/// Message for a kind without a loader.
pub fn unknown_kind_message(kind: &str) -> (r: String)
    ensures
        r@ == "unknown intel kind "@ + kind@,
{
    let mut m = String::from_str("unknown intel kind ");
    m.append(kind);
    m
}

/// A loaded row must report the kind it was loaded for.
pub fn check_loaded_kind(requested: &str, instance: &str) -> (r: Result<(), String>)
    ensures
        r is Ok <==> requested@ == instance@,
        r matches Err(m) ==> m@ == "kind mismatch: registry "@ + requested@ + ", instance "@
            + instance@,
{
    let a = chars_of(requested);
    let b = chars_of(instance);
    if vec_eq(&a, &b) {
        Ok(())
    } else {
        let mut m = String::from_str("kind mismatch: registry ");
        m.append(requested);
        m.append(", instance ");
        m.append(instance);
        Err(m)
    }
}

/// Whether two character vectors are equal.
pub fn vec_eq(a: &Vec<char>, b: &Vec<char>) -> (r: bool)
    ensures
        r == (a@ == b@),
{
    if a.len() != b.len() {
        return false;
    }
    let mut i: usize = 0;
    while i < a.len()
        invariant
            a.len() == b.len(),
            i <= a.len(),
            forall|k: int| 0 <= k < i ==> a@[k] == b@[k],
        decreases a.len() - i,
    {
        if a[i] != b[i] {
            return false;
        }
        i = i + 1;
    }
    assert(a@ =~= b@);
    true
}

} // verus!
