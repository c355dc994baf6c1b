//! The ordered registry of named workloads, and the choice of which to run.
use vstd::prelude::*;

verus! {

#[verifier::external_type_specification]
#[verifier::external_body]
pub struct ExRegex(regex::Regex);

#[verifier::external_type_specification]
#[verifier::external_body]
pub struct ExRegexError(regex::Error);

/// Whether regex accepts `pattern` as a regular expression.
pub uninterp spec fn pattern_is_valid(pattern: Seq<char>) -> bool;

/// Whether the regular expression `pattern` matches somewhere in `text`.
pub uninterp spec fn pattern_matches(pattern: Seq<char>, text: Seq<char>) -> bool;

/// Relies on `regex::Regex::new`: whether it accepts the pattern depends on
/// the pattern alone.
#[verifier::external_body]
fn compile(pattern: &str) -> (r: Result<regex::Regex, regex::Error>)
    ensures
        r is Ok <==> pattern_is_valid(pattern@),
{
    regex::Regex::new(pattern)
}

/// Why a selection could not be made.
#[derive(Debug, Clone, Copy, PartialEq, Eq)]
pub enum SelectError {
    /// The selection pattern is not a valid regular expression.
    InvalidPattern,
}

/// Why a workload could not be registered.
#[derive(Debug, Clone, Copy, PartialEq, Eq)]
pub enum RegistryError {
    /// A workload of that name is registered already.
    DuplicateName,
}

/// A compiled selection pattern, together with its source text.
pub struct Pattern {
    re: regex::Regex,
    source: String,
}

impl Pattern {
    /// The text the pattern was compiled from.
    pub closed spec fn text(&self) -> Seq<char> {
        self.source@
    }

    /// Compiles `pattern`; fails exactly when it is not a valid regular
    /// expression.
    pub fn new(pattern: &str) -> (r: Result<Pattern, SelectError>)
        ensures
            r is Ok <==> pattern_is_valid(pattern@),
            r matches Ok(p) ==> p.text() == pattern@,
    {
        match compile(pattern) {
            Ok(re) => Ok(Pattern { re, source: pattern.to_owned() }),
            Err(_) => Err(SelectError::InvalidPattern),
        }
    }

    /// Relies on `regex::Regex::is_match`, on the expression that `new`
    /// compiled from `self.text()`: whether it matches somewhere in `text`.
    #[verifier::external_body]
    fn is_match(&self, text: &str) -> (r: bool)
        ensures
            r == pattern_matches(self.text(), text@),
    {
        self.re.is_match(text)
    }
}

/// The positions in `names` of the names that `pattern` matches, in order.
pub open spec fn matching(pattern: Seq<char>, names: Seq<Seq<char>>) -> Seq<usize>
    decreases names.len(),
{
    if names.len() == 0 {
        seq![]
    } else {
        let rest = matching(pattern, names.drop_last());
        if pattern_matches(pattern, names.last()) {
            rest.push((names.len() - 1) as usize)
        } else {
            rest
        }
    }
}

/// Named workloads, in the order they were registered.
pub struct Registry<T> {
    names: Vec<String>,
    items: Vec<T>,
}

impl<T> Registry<T> {
    /// The registered names, in order.
    pub closed spec fn names(&self) -> Seq<Seq<char>> {
        self.names@.map_values(|s: String| s@)
    }

    /// The registered workloads, in order.
    pub closed spec fn items(&self) -> Seq<T> {
        self.items@
    }

    /// Names and workloads pair up, and no name is there twice.
    pub closed spec fn wf(&self) -> bool {
        &&& self.names@.len() == self.items@.len()
        &&& forall|i: int, j: int| 0 <= i < j < self.names@.len() ==> self.names@[i]@ != self.names@[j]@
    }

    /// An empty registry.
    pub fn new() -> (r: Registry<T>)
        ensures
            r.wf(),
            r.names() == Seq::<Seq<char>>::empty(),
            r.items() == Seq::<T>::empty(),
    {
        let r = Registry { names: Vec::new(), items: Vec::new() };
        assert(r.names() =~= Seq::<Seq<char>>::empty());
        r
    }

    /// Number of registered workloads.
    pub fn len(&self) -> (n: usize)
        requires
            self.wf(),
        ensures
            n == self.names().len(),
            n == self.items().len(),
    {
        self.names.len()
    }

    /// Whether a workload called `name` is registered.
    pub fn contains(&self, name: &str) -> (r: bool)
        ensures
            r == self.names().contains(name@),
    {
        let wanted = name.to_owned();
        let mut k: usize = 0;
        while k < self.names.len()
            invariant
                k <= self.names@.len(),
                wanted@ == name@,
                forall|j: int| 0 <= j < k ==> self.names@[j]@ != name@,
            decreases self.names@.len() - k,
        {
            if self.names[k] == wanted {
                assert(self.names()[k as int] == name@);
                return true;
            }
            k = k + 1;
        }
        assert(!self.names().contains(name@)) by {
            if self.names().contains(name@) {
                let j = choose|j: int| 0 <= j < self.names().len() && self.names()[j] == name@;
                assert(self.names@[j]@ == name@);
            }
        }
        false
    }

    /// Adds `item` under `name` at the end; fails, changing nothing, when
    /// the name is taken.
    pub fn register(&mut self, name: &str, item: T) -> (r: Result<(), RegistryError>)
        requires
            old(self).wf(),
        ensures
            final(self).wf(),
            old(self).names().contains(name@) ==> r == Err::<(), RegistryError>(RegistryError::DuplicateName) && final(self).names() == old(self).names() && final(self).items() == old(self).items(),
            !old(self).names().contains(name@) ==> r is Ok && final(self).names() == old(self).names().push(name@) && final(self).items() == old(self).items().push(item),
    {
        if self.contains(name) {
            return Err(RegistryError::DuplicateName);
        }
        let ghost before = self.names();
        self.names.push(name.to_owned());
        self.items.push(item);
        assert(self.names() =~= before.push(name@));
        assert forall|i: int, j: int| 0 <= i < j < self.names@.len() implies self.names@[i]@ != self.names@[j]@ by {
            if j == self.names@.len() - 1 {
                assert(before[i] == self.names@[i]@);
            }
        }
        Ok(())
    }

    /// The name at position `i`.
    pub fn name(&self, i: usize) -> (r: &String)
        requires
            i < self.names().len(),
        ensures
            r@ == self.names()[i as int],
    {
        &self.names[i]
    }

    /// The workload at position `i`.
    pub fn get(&self, i: usize) -> (r: &T)
        requires
            self.wf(),
            i < self.items().len(),
        ensures
            *r == self.items()[i as int],
    {
        &self.items[i]
    }

    /// The positions of the workloads to run, in registry order: none
    /// without a pattern, else those whose name the pattern matches; an
    /// invalid pattern selects nothing and is an error.
    pub fn select(&self, pattern: Option<&str>) -> (r: Result<Vec<usize>, SelectError>)
        ensures
            pattern is None ==> (r matches Ok(v) && v@ == Seq::<usize>::empty()),
            pattern matches Some(p) ==> (r is Ok <==> pattern_is_valid(p@)),
            pattern matches Some(p) ==> (r matches Ok(v) ==> v@ == matching(p@, self.names())),
            r matches Err(e) ==> e == SelectError::InvalidPattern,
    {
        match pattern {
            None => {
                let v: Vec<usize> = Vec::new();
                assert(v@ =~= Seq::<usize>::empty());
                Ok(v)
            },
            Some(p) => {
                let compiled = match Pattern::new(p) {
                    Ok(c) => c,
                    Err(e) => return Err(e),
                };
                let ghost names = self.names();
                let mut chosen: Vec<usize> = Vec::new();
                let mut k: usize = 0;
                while k < self.names.len()
                    invariant
                        k <= self.names@.len(),
                        names == self.names(),
                        compiled.text() == p@,
                        chosen@ == matching(p@, names.take(k as int)),
                    decreases self.names@.len() - k,
                {
                    let hit = compiled.is_match(self.names[k].as_str());
                    assert(names.take(k + 1).drop_last() =~= names.take(k as int));
                    if hit {
                        chosen.push(k);
                    }
                    k = k + 1;
                }
                assert(names.take(k as int) =~= names);
                Ok(chosen)
            },
        }
    }
}

/// A pattern that matches no name selects nothing, and is no error.
pub proof fn lemma_no_match_selects_nothing(pattern: Seq<char>, names: Seq<Seq<char>>)
    requires
        forall|i: int| 0 <= i < names.len() ==> !pattern_matches(pattern, #[trigger] names[i]),
    ensures
        matching(pattern, names) == Seq::<usize>::empty(),
    decreases names.len(),
{
    if names.len() > 0 {
        let rest = names.drop_last();
        assert forall|i: int| 0 <= i < rest.len() implies !pattern_matches(pattern, #[trigger] rest[i]) by {
            assert(rest[i] == names[i]);
        }
        lemma_no_match_selects_nothing(pattern, rest);
        assert(!pattern_matches(pattern, names[names.len() - 1]));
    }
}

/// Exactly the workloads whose names the pattern matches are selected, each
/// once and in registry order.
pub proof fn lemma_selected_iff_matches(pattern: Seq<char>, names: Seq<Seq<char>>)
    requires
        names.len() <= usize::MAX,
    ensures
        forall|k: int| 0 <= k < names.len() ==> (matching(pattern, names).contains(k as usize) <==> pattern_matches(pattern, #[trigger] names[k])),
        forall|a: int, b: int| 0 <= a < b < matching(pattern, names).len() ==> matching(pattern, names)[a] < matching(pattern, names)[b],
        forall|a: int| 0 <= a < matching(pattern, names).len() ==> matching(pattern, names)[a] < names.len(),
    decreases names.len(),
{
    if names.len() > 0 {
        let rest = names.drop_last();
        lemma_selected_iff_matches(pattern, rest);
        let m = matching(pattern, names);
        let mr = matching(pattern, rest);
        assert forall|k: int| 0 <= k < names.len() implies (m.contains(k as usize) <==> pattern_matches(pattern, #[trigger] names[k])) by {
            if k < rest.len() {
                assert(rest[k] == names[k]);
                if m.contains(k as usize) && !mr.contains(k as usize) {
                    let a = choose|a: int| 0 <= a < m.len() && m[a] == k as usize;
                    assert(a == mr.len());
                }
                if mr.contains(k as usize) {
                    let a = choose|a: int| 0 <= a < mr.len() && mr[a] == k as usize;
                    assert(m[a] == k as usize);
                }
            } else {
                if m.contains(k as usize) && !pattern_matches(pattern, names[k]) {
                    let a = choose|a: int| 0 <= a < m.len() && m[a] == k as usize;
                    assert(mr[a] < rest.len());
                }
                if pattern_matches(pattern, names[k]) {
                    assert(m[mr.len() as int] == k as usize);
                }
            }
        }
    }
}

} // verus!
