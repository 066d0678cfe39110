//! The hierarchical include/exclude field filter: a tree of settings over
//! field-name paths, consulted once per field.

use vstd::prelude::*;

verus! {

/// A visibility setting: unspecified, or explicitly included or excluded.
#[derive(Clone, Copy, PartialEq, Eq, Structural, Debug)]
pub enum IncludeExcludeSetting {
    /// No explicit choice: the inherited setting stands.
    Unspecified,
    /// Explicitly included.
    Include,
    /// Explicitly excluded.
    Exclude,
}

impl IncludeExcludeSetting {
    /// The inherited setting refined by a child's own: an explicit child
    /// value wins, an unspecified child keeps the inherited value.
    pub open spec fn apply_spec(self, other: IncludeExcludeSetting) -> IncludeExcludeSetting {
        match other {
            IncludeExcludeSetting::Unspecified => self,
            _ => other,
        }
    }

    /// Refines this setting by `other`.
    pub fn apply(self, other: IncludeExcludeSetting) -> (r: IncludeExcludeSetting)
        ensures
            r == self.apply_spec(other),
    {
        match other {
            IncludeExcludeSetting::Unspecified => self,
            _ => other,
        }
    }
}

/// Setting composition is associative, and the unspecified setting is its
/// identity on either side: refining by a chain of settings applies the
/// innermost explicit one.
pub proof fn lemma_setting_composition(
    a: IncludeExcludeSetting,
    b: IncludeExcludeSetting,
    c: IncludeExcludeSetting,
)
    ensures
        a.apply_spec(b).apply_spec(c) == a.apply_spec(b.apply_spec(c)),
        a.apply_spec(IncludeExcludeSetting::Unspecified) == a,
        IncludeExcludeSetting::Unspecified.apply_spec(b) == b,
{
}

/// A node of the field filter tree: its own setting and its named children.
/// A node with no children is a leaf; exclusion at a leaf fully drops the
/// field.
pub struct IncludeExcludeKeyFilter {
    /// This node's own setting.
    pub setting: IncludeExcludeSetting,
    /// The named children, looked up by the original, unprettified key.
    pub children: Vec<(Vec<u8>, IncludeExcludeKeyFilter)>,
}

/// The first child of `children` from position `i` on whose name is `key`.
pub open spec fn children_get(
    children: Seq<(Vec<u8>, IncludeExcludeKeyFilter)>,
    i: int,
    key: Seq<u8>,
) -> Option<IncludeExcludeKeyFilter>
    decreases children.len() - i,
{
    if i < 0 || i >= children.len() {
        None
    } else if children[i].0@ == key {
        Some(children[i].1)
    } else {
        children_get(children, i + 1, key)
    }
}

/// The child of `f` named `key`, if any.
pub open spec fn filter_get(f: IncludeExcludeKeyFilter, key: Seq<u8>) -> Option<
    IncludeExcludeKeyFilter,
> {
    children_get(f.children@, 0, key)
}

/// True if the two byte runs are equal.
pub fn bytes_eq(a: &[u8], b: &[u8]) -> (r: bool)
    ensures
        r == (a@ == b@),
{
    if a.len() != b.len() {
        proof {
            assert(a@.len() != b@.len());
        }
        return false;
    }
    let mut i: usize = 0;
    while i < a.len()
        invariant
            0 <= i <= a@.len(),
            a@.len() == b@.len(),
            forall|j: int| 0 <= j < i ==> a@[j] == b@[j],
        decreases a@.len() - i,
    {
        if a[i] != b[i] {
            return false;
        }
        i = i + 1;
    }
    proof {
        assert(a@ =~= b@);
    }
    true
}

impl IncludeExcludeKeyFilter {
    /// A node with the given setting and no children.
    pub fn new(setting: IncludeExcludeSetting) -> (r: IncludeExcludeKeyFilter)
        ensures
            r.setting == setting,
            r.children@.len() == 0,
    {
        IncludeExcludeKeyFilter { setting, children: Vec::new() }
    }

    /// This node's own setting.
    pub fn setting(&self) -> (r: IncludeExcludeSetting)
        ensures
            r == self.setting,
    {
        self.setting
    }

    /// True if this node has no children.
    pub fn leaf(&self) -> (r: bool)
        ensures
            r == (self.children@.len() == 0),
    {
        self.children.len() == 0
    }

    /// Adds a named child behind the present ones.
    pub fn with_child(self, key: Vec<u8>, child: IncludeExcludeKeyFilter) -> (r:
        IncludeExcludeKeyFilter)
        ensures
            r.setting == self.setting,
            r.children@ == self.children@.push((key, child)),
    {
        let mut children = self.children;
        children.push((key, child));
        IncludeExcludeKeyFilter { setting: self.setting, children }
    }

    /// Looks the key up among the children: the first child of that name.
    pub fn get(&self, key: &[u8]) -> (r: Option<&IncludeExcludeKeyFilter>)
        ensures
            match filter_get(*self, key@) {
                Some(c) => r is Some && *r.unwrap() == c,
                None => r is None,
            },
    {
        let mut i: usize = 0;
        while i < self.children.len()
            invariant
                0 <= i <= self.children@.len(),
                children_get(self.children@, 0, key@) == children_get(
                    self.children@,
                    i as int,
                    key@,
                ),
            decreases self.children@.len() - i,
        {
            if bytes_eq(self.children[i].0.as_slice(), key) {
                return Some(&self.children[i].1);
            }
            i = i + 1;
        }
        None
    }
}

} // verus!
