//! Widget identifiers: hierarchical paths from the root of a widget tree.

use vstd::prelude::*;
use std::rc::Rc;

verus! {

/// Identifier of a widget: the path of child keys from the root of the tree
///
/// A default-constructed identifier is *invalid* (it names no widget) and
/// may not be used for ancestry queries. The root is the empty path; a
/// child's identifier is its parent's path with one more key.
#[derive(Debug)]
pub struct WidgetId {
    path: Option<Rc<Vec<usize>>>,
}

/// `a` is a prefix of `b`
pub open spec fn is_prefix(a: Seq<usize>, b: Seq<usize>) -> bool {
    a.len() <= b.len() && b.subrange(0, a.len() as int) =~= a
}

/// Lexicographic "less than" on paths, comparing from index `i` on
///
/// A path sorts before every longer path that extends it.
pub open spec fn lex_lt_from(a: Seq<usize>, b: Seq<usize>, i: int) -> bool
    decreases a.len() - i,
{
    if i < 0 || i >= a.len() {
        i >= 0 && b.len() > i
    } else if i >= b.len() {
        false
    } else if a[i] != b[i] {
        a[i] < b[i]
    } else {
        lex_lt_from(a, b, i + 1)
    }
}

/// Lexicographic "less than" on paths
pub open spec fn path_lt(a: Seq<usize>, b: Seq<usize>) -> bool {
    lex_lt_from(a, b, 0)
}

impl View for WidgetId {
    type V = Option<Seq<usize>>;

    closed spec fn view(&self) -> Option<Seq<usize>> {
        match self.path {
            Some(v) => Some(v@),
            None => None,
        }
    }
}

impl Default for WidgetId {
    /// The invalid identifier
    fn default() -> (r: WidgetId)
        ensures
            r@ is None,
    {
        WidgetId { path: None }
    }
}

impl Clone for WidgetId {
    fn clone(&self) -> (r: WidgetId)
        ensures
            r == *self,
    {
        match &self.path {
            Some(v) => WidgetId { path: Some(Rc::clone(v)) },
            None => WidgetId { path: None },
        }
    }
}

impl PartialEq for WidgetId {
    fn eq(&self, other: &WidgetId) -> (r: bool)
        ensures
            r == (self@ == other@),
    {
        match (&self.path, &other.path) {
            (None, None) => true,
            (Some(ra), Some(rb)) => {
                let a: &Vec<usize> = &**ra;
                let b: &Vec<usize> = &**rb;
                if a.len() != b.len() {
                    return false;
                }
                let mut i: usize = 0;
                while i < a.len()
                    invariant
                        self@ == Some(a@),
                        other@ == Some(b@),
                        a.len() == b.len(),
                        i <= a.len(),
                        forall|j: int| 0 <= j < i ==> a[j] == b[j],
                    decreases a.len() - i,
                {
                    if a[i] != b[i] {
                        assert(a@[i as int] != b@[i as int]);
                        return false;
                    }
                    i = i + 1;
                }
                assert(a@ =~= b@);
                true
            },
            _ => false,
        }
    }
}

impl vstd::std_specs::cmp::PartialEqSpecImpl for WidgetId {
    open spec fn obeys_eq_spec() -> bool {
        true
    }

    open spec fn eq_spec(&self, other: &WidgetId) -> bool {
        self@ == other@
    }
}

impl Eq for WidgetId {
}

impl WidgetId {
    /// The invalid identifier
    pub fn invalid() -> (r: WidgetId)
        ensures
            r@ is None,
    {
        WidgetId { path: None }
    }

    /// The identifier of the root widget: the empty path
    pub fn root() -> (r: WidgetId)
        ensures
            r@ == Some(Seq::<usize>::empty()),
    {
        let v: Vec<usize> = Vec::new();
        assert(v@ =~= Seq::<usize>::empty());
        WidgetId { path: Some(Rc::new(v)) }
    }

    /// Whether this identifier names a widget
    pub fn is_valid(&self) -> (r: bool)
        ensures
            r == self@ is Some,
    {
        self.path.is_some()
    }

    /// The identifier of child `key` of this widget: one level deeper
    pub fn make_child(&self, key: usize) -> (r: WidgetId)
        requires
            self@ is Some,
        ensures
            r@ == Some(self@.unwrap().push(key)),
    {
        match &self.path {
            Some(v) => {
                let mut w: Vec<usize> = (**v).clone();
                w.push(key);
                WidgetId { path: Some(Rc::new(w)) }
            },
            None => WidgetId { path: None },
        }
    }

    /// Number of keys in the path
    pub fn depth(&self) -> (r: usize)
        requires
            self@ is Some,
        ensures
            r == self@.unwrap().len(),
    {
        match &self.path {
            Some(v) => v.len(),
            None => 0,
        }
    }

    /// Whether `self` is an ancestor of `id` (or equal to it)
    pub fn is_ancestor_of(&self, id: &WidgetId) -> (r: bool)
        requires
            self@ is Some,
            id@ is Some,
        ensures
            r == is_prefix(self@.unwrap(), id@.unwrap()),
    {
        match (&self.path, &id.path) {
            (Some(ra), Some(rb)) => {
                let a: &Vec<usize> = &**ra;
                let b: &Vec<usize> = &**rb;
                if a.len() > b.len() {
                    return false;
                }
                let mut i: usize = 0;
                while i < a.len()
                    invariant
                        self@ == Some(a@),
                        id@ == Some(b@),
                        a.len() <= b.len(),
                        i <= a.len(),
                        forall|j: int| 0 <= j < i ==> a[j] == b[j],
                    decreases a.len() - i,
                {
                    if a[i] != b[i] {
                        assert(b@.subrange(0, a.len() as int)[i as int] != a@[i as int]);
                        return false;
                    }
                    i = i + 1;
                }
                assert(b@.subrange(0, a.len() as int) =~= a@);
                true
            },
            _ => false,
        }
    }

    /// Where `self` is a strict descendant of `ancestor`, the key of the
    /// child of `ancestor` on the way to `self`
    pub fn next_key_after(&self, ancestor: &WidgetId) -> (r: Option<usize>)
        requires
            self@ is Some,
            ancestor@ is Some,
        ensures
            r == (if is_prefix(ancestor@.unwrap(), self@.unwrap()) && ancestor@.unwrap().len()
                < self@.unwrap().len() {
                Some(self@.unwrap()[ancestor@.unwrap().len() as int])
            } else {
                None
            }),
    {
        if ancestor.is_ancestor_of(self) {
            match (&self.path, &ancestor.path) {
                (Some(ra), Some(rb)) => {
                let a: &Vec<usize> = &**ra;
                let b: &Vec<usize> = &**rb;
                    if b.len() < a.len() {
                        Some(a[b.len()])
                    } else {
                        None
                    }
                },
                _ => None,
            }
        } else {
            None
        }
    }

    /// Whether `self` sorts strictly before `other`: paths are compared key
    /// by key, and a path sorts before the paths that extend it
    pub fn less_than(&self, other: &WidgetId) -> (r: bool)
        requires
            self@ is Some,
            other@ is Some,
        ensures
            r == path_lt(self@.unwrap(), other@.unwrap()),
    {
        match (&self.path, &other.path) {
            (Some(ra), Some(rb)) => {
                let a: &Vec<usize> = &**ra;
                let b: &Vec<usize> = &**rb;
                let mut i: usize = 0;
                while i < a.len() && i < b.len() && a[i] == b[i]
                    invariant
                        i <= a.len(),
                        i <= b.len(),
                        lex_lt_from(a@, b@, 0) == lex_lt_from(a@, b@, i as int),
                    decreases a.len() - i,
                {
                    i = i + 1;
                }
                if i < a.len() && i < b.len() {
                    a[i] < b[i]
                } else {
                    i >= a.len() && b.len() > i
                }
            },
            _ => false,
        }
    }
}

/// `o` holds an identifier equal to `id`
pub open spec fn holds(o: Option<WidgetId>, id: WidgetId) -> bool {
    o is Some && o.unwrap()@ == id@
}

/// Whether `o` holds an identifier equal to `id`
pub fn holds_id(o: &Option<WidgetId>, id: &WidgetId) -> (r: bool)
    ensures
        r == holds(*o, *id),
{
    match o {
        Some(x) => x == id,
        None => false,
    }
}

/// Lemma: a path sorts before or equal to every path it is a prefix of,
/// and everything between it and such a descendant is also a descendant.
proof fn lemma_between_from(a: Seq<usize>, b: Seq<usize>, c: Seq<usize>, i: int)
    requires
        0 <= i <= a.len(),
        is_prefix(a, b),
        forall|j: int| 0 <= j < i ==> a[j] == c[j],
        i <= c.len(),
        lex_lt_from(a, c, i),
        lex_lt_from(c, b, i) || c == b,
    ensures
        is_prefix(a, c),
    decreases a.len() - i,
{
    if i == a.len() {
        assert(c.subrange(0, a.len() as int) =~= a);
    } else {
        assert(b[i] == a[i]);
        if c == b {
            lemma_between_from(a, b, c, i + 1);
        } else {
            assert(i < c.len());
            lemma_between_from(a, b, c, i + 1);
        }
    }
}

/// Identifiers are ordered consistently with containment: a valid
/// identifier `c` that sorts after `a` and no later than a descendant `b` of
/// `a` is itself a descendant of `a`. Hence the descendants of a widget form
/// one contiguous range in this order, directly after the widget itself.
pub proof fn lemma_order_contiguous(a: WidgetId, b: WidgetId, c: WidgetId)
    requires
        a@ is Some,
        b@ is Some,
        c@ is Some,
        is_prefix(a@.unwrap(), b@.unwrap()),
        path_lt(a@.unwrap(), c@.unwrap()),
        path_lt(c@.unwrap(), b@.unwrap()) || c@ == b@,
    ensures
        is_prefix(a@.unwrap(), c@.unwrap()),
{
    let (sa, sb, sc) = (a@.unwrap(), b@.unwrap(), c@.unwrap());
    if sa.len() == 0 {
        assert(sc.subrange(0, 0) =~= sa);
    } else {
        assert(sc.len() > 0);
        lemma_between_from(sa, sb, sc, 0);
    }
}

/// A child identifier descends from its parent and not from a sibling with
/// a different key; the parent sorts before the child.
pub proof fn lemma_child_ancestry(parent: WidgetId, k1: usize, k2: usize)
    requires
        parent@ is Some,
        k1 != k2,
    ensures
        is_prefix(parent@.unwrap(), parent@.unwrap().push(k1)),
        !is_prefix(parent@.unwrap().push(k1), parent@.unwrap().push(k2)),
        path_lt(parent@.unwrap(), parent@.unwrap().push(k1)),
{
    let p = parent@.unwrap();
    assert(p.push(k1).subrange(0, p.len() as int) =~= p);
    let c2 = p.push(k2);
    assert(c2.subrange(0, p.len() as int + 1)[p.len() as int] == k2);
    lemma_prefix_lt(p, p.push(k1), 0);
}

proof fn lemma_prefix_lt(a: Seq<usize>, b: Seq<usize>, i: int)
    requires
        0 <= i <= a.len(),
        is_prefix(a, b),
        a.len() < b.len(),
    ensures
        lex_lt_from(a, b, i),
    decreases a.len() - i,
{
    if i < a.len() {
        assert(b.subrange(0, a.len() as int)[i] == b[i]);
        lemma_prefix_lt(a, b, i + 1);
    }
}

} // verus!
