//! The element tracker: a registry mapping a stable element identifier to
//! its current screen region, element kind and CSS classes, with selector
//! queries, spatial queries and staleness-based eviction.
//!
//! `ElementTracker` is the verified core; `SharedElementTracker` is the
//! clonable handle that shares one tracker across threads behind a
//! verified reader-writer lock, so no reader ever observes a half-updated
//! element.

use crate::clock::now_millis;
use crate::lemma_filter_step;
use crate::region::Region;
use crate::text::bytes_eq;
use crate::text::utf8_bytes;
use std::sync::Arc;
use vstd::prelude::*;
use vstd::rwlock::RwLock;
use vstd::rwlock::RwLockPredicate;

verus! {

/// Tracked element with position and metadata.
#[derive(Debug)]
pub struct TrackedElement {
    /// Unique element identifier.
    pub id: String,
    /// Screen region, thousandths of a pixel.
    pub region: Region,
    /// Element type (`"div"`, `"button"`, and so on).
    pub element_type: String,
    /// CSS classes, in the order added.
    pub classes: Vec<String>,
    /// When this element was last updated, milliseconds.
    pub last_updated: u64,
}

impl TrackedElement {
    pub open spec fn wf(self) -> bool {
        self.region.wf()
    }

    /// Create a new tracked element, stamped with the current time.
    pub fn new(id: String, region: Region, element_type: String) -> (e: TrackedElement)
        requires
            region.wf(),
        ensures
            e.id == id,
            e.region == region,
            e.element_type == element_type,
            e.classes@ == Seq::<String>::empty(),
            e.wf(),
    {
        TrackedElement {
            id,
            region,
            element_type,
            classes: Vec::new(),
            last_updated: now_millis(),
        }
    }

    /// Create a new tracked element with an explicit timestamp.
    pub fn new_at(id: String, region: Region, element_type: String, now: u64) -> (e:
        TrackedElement)
        requires
            region.wf(),
        ensures
            e == (TrackedElement {
                id,
                region,
                element_type,
                classes: e.classes,
                last_updated: now,
            }),
            e.classes@ == Seq::<String>::empty(),
            e.wf(),
    {
        TrackedElement { id, region, element_type, classes: Vec::new(), last_updated: now }
    }

    /// Add a CSS class.
    pub fn with_class(self, class: &str) -> (e: TrackedElement)
        ensures
            e.id == self.id,
            e.region == self.region,
            e.element_type == self.element_type,
            e.last_updated == self.last_updated,
            e.classes@.len() == self.classes@.len() + 1,
            e.classes@.drop_last() == self.classes@,
            e.classes@.last()@ == class@,
    {
        let mut classes = self.classes;
        classes.push(class.to_owned());
        proof {
            assert(classes@.drop_last() =~= self.classes@);
        }
        TrackedElement { classes, ..self }
    }

    /// Update the element's region, stamping it with the current time.
    pub fn update_region(&mut self, region: Region)
        requires
            region.wf(),
        ensures
            final(self).id == old(self).id,
            final(self).region == region,
            final(self).element_type == old(self).element_type,
            final(self).classes == old(self).classes,
            final(self).wf(),
    {
        self.region = region;
        self.last_updated = now_millis();
    }

    /// Update the element's region with an explicit timestamp.
    pub fn update_region_at(&mut self, region: Region, now: u64)
        requires
            region.wf(),
        ensures
            *final(self) == (TrackedElement { region, last_updated: now, ..*old(self) }),
            final(self).wf(),
    {
        self.region = region;
        self.last_updated = now;
    }
}

/// Two elements carry the same data: all fields equal, the class list
/// compared element by element.  A clone is equivalent to its original
/// (the `Vec` of classes is rebuilt, so the values are not spec-equal).
pub open spec fn elem_equiv(a: TrackedElement, b: TrackedElement) -> bool {
    &&& a.id == b.id
    &&& a.region == b.region
    &&& a.element_type == b.element_type
    &&& a.classes@ == b.classes@
    &&& a.last_updated == b.last_updated
}

impl Clone for TrackedElement {
    fn clone(&self) -> (e: TrackedElement)
        ensures
            elem_equiv(e, *self),
    {
        let mut classes: Vec<String> = Vec::new();
        let n = self.classes.len();
        let mut i: usize = 0;
        while i < n
            invariant
                0 <= i <= n,
                n == self.classes@.len(),
                classes@ == self.classes@.take(i as int),
            decreases n - i,
        {
            classes.push(self.classes[i].clone());
            proof {
                assert(classes@ =~= self.classes@.take(i as int + 1));
            }
            i += 1;
        }
        proof {
            assert(classes@ =~= self.classes@);
        }
        TrackedElement {
            id: self.id.clone(),
            region: self.region,
            element_type: self.element_type.clone(),
            classes,
            last_updated: self.last_updated,
        }
    }
}

/// The UTF-8 bytes of an element's identifier: the key it is registered
/// under.
pub open spec fn elem_key(e: TrackedElement) -> Seq<u8> {
    utf8_bytes(e.id@)
}

/// The element registered under `id`, first match from the front.
pub open spec fn find_elem(s: Seq<TrackedElement>, id: Seq<u8>) -> Option<TrackedElement>
    decreases s.len(),
{
    if s.len() == 0 {
        None
    } else if elem_key(s[0]) == id {
        Some(s[0])
    } else {
        find_elem(s.drop_first(), id)
    }
}

/// No two registered elements share an identifier.
pub open spec fn keys_unique(s: Seq<TrackedElement>) -> bool {
    forall|i: int, j: int|
        0 <= i < j < s.len() ==> elem_key(#[trigger] s[i]) != elem_key(#[trigger] s[j])
}

pub open spec fn all_elems_wf(s: Seq<TrackedElement>) -> bool {
    forall|i: int| 0 <= i < s.len() ==> (#[trigger] s[i]).wf()
}

/// Simple selector matching: `"#id"` matches the exact identifier,
/// `".class"` matches elements whose class list contains the name, and
/// anything else matches by exact element type.
pub open spec fn sel_matches(e: TrackedElement, sel: Seq<u8>) -> bool {
    if sel.len() > 0 && sel[0] == 35 {
        utf8_bytes(e.id@) == sel.drop_first()
    } else if sel.len() > 0 && sel[0] == 46 {
        exists|i: int|
            0 <= i < e.classes@.len() && utf8_bytes(#[trigger] e.classes@[i]@) == sel.drop_first()
    } else {
        utf8_bytes(e.element_type@) == sel
    }
}

/// Is an element's last update older than `max_age`, seen from `now`?
pub open spec fn is_stale(e: TrackedElement, now: u64, max_age: u64) -> bool {
    e.last_updated + max_age < now
}

/// `post` is `pre` with exactly the elements stale at `now` removed.
pub open spec fn stale_swept(
    pre: Seq<TrackedElement>,
    post: Seq<TrackedElement>,
    now: u64,
    max_age: u64,
) -> bool {
    post == pre.filter(|e: TrackedElement| !is_stale(e, now, max_age))
}

/// Equivalent elements match the same selectors.
proof fn lemma_sel_matches_equiv(a: TrackedElement, b: TrackedElement, sel: Seq<u8>)
    requires
        elem_equiv(a, b),
    ensures
        sel_matches(a, sel) == sel_matches(b, sel),
{
    if sel.len() > 0 && sel[0] != 35 && sel[0] == 46 {
        if sel_matches(a, sel) {
            let i = choose|i: int|
                0 <= i < a.classes@.len() && utf8_bytes(#[trigger] a.classes@[i]@)
                    == sel.drop_first();
            assert(utf8_bytes(b.classes@[i]@) == sel.drop_first());
        }
        if sel_matches(b, sel) {
            let i = choose|i: int|
                0 <= i < b.classes@.len() && utf8_bytes(#[trigger] b.classes@[i]@)
                    == sel.drop_first();
            assert(utf8_bytes(a.classes@[i]@) == sel.drop_first());
        }
    }
}

proof fn lemma_find_at_first_match(s: Seq<TrackedElement>, i: int)
    requires
        0 <= i < s.len(),
        forall|j: int| 0 <= j < i ==> elem_key(#[trigger] s[j]) != elem_key(s[i]),
    ensures
        find_elem(s, elem_key(s[i])) == Some(s[i]),
    decreases i,
{
    if i > 0 {
        assert(s.drop_first()[i - 1] == s[i]);
        lemma_find_at_first_match(s.drop_first(), i - 1);
    }
}

proof fn lemma_find_none_when_no_match(s: Seq<TrackedElement>, id: Seq<u8>)
    requires
        forall|j: int| 0 <= j < s.len() ==> elem_key(#[trigger] s[j]) != id,
    ensures
        find_elem(s, id) is None,
    decreases s.len(),
{
    if s.len() > 0 {
        lemma_find_none_when_no_match(s.drop_first(), id);
    }
}

/// Whatever `find_elem` returns is one of the registered elements.
proof fn lemma_find_elem_contains(s: Seq<TrackedElement>, id: Seq<u8>)
    requires
        find_elem(s, id) is Some,
    ensures
        exists|i: int| 0 <= i < s.len() && #[trigger] s[i] == find_elem(s, id).unwrap(),
        elem_key(find_elem(s, id).unwrap()) == id,
    decreases s.len(),
{
    if s.len() > 0 && elem_key(s[0]) != id {
        lemma_find_elem_contains(s.drop_first(), id);
        let j = choose|j: int|
            0 <= j < s.drop_first().len() && #[trigger] s.drop_first()[j] == find_elem(
                s.drop_first(),
                id,
            ).unwrap();
        assert(s[j + 1] == find_elem(s, id).unwrap());
    }
}

proof fn lemma_find_update(s: Seq<TrackedElement>, i: int, e: TrackedElement)
    requires
        0 <= i < s.len(),
        forall|j: int| 0 <= j < i ==> elem_key(#[trigger] s[j]) != elem_key(e),
        elem_key(s[i]) == elem_key(e),
    ensures
        find_elem(s.update(i, e), elem_key(e)) == Some(e),
        forall|k: Seq<u8>|
            k != elem_key(e) ==> #[trigger] find_elem(s.update(i, e), k) == find_elem(s, k),
    decreases s.len(),
{
    let u = s.update(i, e);
    if i == 0 {
        assert(u[0] == e);
        assert(u.drop_first() =~= s.drop_first());
        assert forall|k: Seq<u8>| k != elem_key(e) implies #[trigger] find_elem(u, k) == find_elem(
            s,
            k,
        ) by {
            assert(find_elem(u, k) == find_elem(u.drop_first(), k));
            assert(find_elem(s, k) == find_elem(s.drop_first(), k));
        }
    } else {
        assert(u[0] == s[0]);
        assert(u.drop_first() =~= s.drop_first().update(i - 1, e));
        assert(forall|j: int|
            0 <= j < i - 1 ==> elem_key(#[trigger] s.drop_first()[j]) != elem_key(e));
        lemma_find_update(s.drop_first(), i - 1, e);
        assert(elem_key(s[0]) != elem_key(e));
        assert(find_elem(u, elem_key(e)) == find_elem(u.drop_first(), elem_key(e)));
        assert forall|k: Seq<u8>| k != elem_key(e) implies #[trigger] find_elem(u, k) == find_elem(
            s,
            k,
        ) by {
            if elem_key(s[0]) != k {
                assert(find_elem(u, k) == find_elem(u.drop_first(), k));
                assert(find_elem(s, k) == find_elem(s.drop_first(), k));
            }
        }
    }
}

proof fn lemma_find_push(s: Seq<TrackedElement>, e: TrackedElement)
    ensures
        forall|k: Seq<u8>|
            #[trigger] find_elem(s.push(e), k) == if find_elem(s, k) is Some {
                find_elem(s, k)
            } else if k == elem_key(e) {
                Some(e)
            } else {
                None
            },
    decreases s.len(),
{
    let u = s.push(e);
    if s.len() == 0 {
        assert(u[0] == e);
        assert(u.drop_first() =~= Seq::<TrackedElement>::empty());
        assert forall|k: Seq<u8>| #[trigger] find_elem(u, k) == if find_elem(s, k) is Some {
            find_elem(s, k)
        } else if k == elem_key(e) {
            Some(e)
        } else {
            None
        } by {
            if k != elem_key(e) {
                assert(find_elem(u, k) == find_elem(u.drop_first(), k));
            }
        }
    } else {
        assert(u[0] == s[0]);
        assert(u.drop_first() =~= s.drop_first().push(e));
        lemma_find_push(s.drop_first(), e);
        assert forall|k: Seq<u8>| #[trigger] find_elem(u, k) == if find_elem(s, k) is Some {
            find_elem(s, k)
        } else if k == elem_key(e) {
            Some(e)
        } else {
            None
        } by {
            if elem_key(s[0]) != k {
                assert(find_elem(u, k) == find_elem(u.drop_first(), k));
                assert(find_elem(s, k) == find_elem(s.drop_first(), k));
            }
        }
    }
}

proof fn lemma_find_remove(s: Seq<TrackedElement>, i: int)
    requires
        0 <= i < s.len(),
        keys_unique(s),
    ensures
        find_elem(s.remove(i), elem_key(s[i])) is None,
        forall|k: Seq<u8>|
            k != elem_key(s[i]) ==> #[trigger] find_elem(s.remove(i), k) == find_elem(s, k),
        keys_unique(s.remove(i)),
    decreases s.len(),
{
    let u = s.remove(i);
    assert forall|a: int, b: int| 0 <= a < b < u.len() implies elem_key(#[trigger] u[a])
        != elem_key(#[trigger] u[b]) by {
        if a < i && b < i {
            assert(u[a] == s[a] && u[b] == s[b]);
        } else if a < i {
            assert(u[a] == s[a] && u[b] == s[b + 1]);
        } else {
            assert(u[a] == s[a + 1] && u[b] == s[b + 1]);
        }
    }
    assert forall|j: int| 0 <= j < u.len() implies elem_key(#[trigger] u[j]) != elem_key(
        s[i],
    ) by {
        if j < i {
            assert(u[j] == s[j]);
        } else {
            assert(u[j] == s[j + 1]);
        }
    }
    lemma_find_none_when_no_match(u, elem_key(s[i]));
    if i == 0 {
        assert(u =~= s.drop_first());
        assert forall|k: Seq<u8>| k != elem_key(s[0]) implies #[trigger] find_elem(u, k)
            == find_elem(s, k) by {
            assert(find_elem(s, k) == find_elem(s.drop_first(), k));
        }
    } else {
        assert(u[0] == s[0]);
        assert(u.drop_first() =~= s.drop_first().remove(i - 1));
        assert(keys_unique(s.drop_first()));
        assert(s.drop_first()[i - 1] == s[i]);
        lemma_find_remove(s.drop_first(), i - 1);
        assert forall|k: Seq<u8>| k != elem_key(s[i]) implies #[trigger] find_elem(u, k)
            == find_elem(s, k) by {
            if elem_key(s[0]) != k {
                assert(find_elem(u, k) == find_elem(u.drop_first(), k));
                assert(find_elem(s, k) == find_elem(s.drop_first(), k));
            }
        }
    }
}

/// Filtering keeps identifiers unique and keeps only registered elements.
proof fn lemma_filter_unique(s: Seq<TrackedElement>, pred: spec_fn(TrackedElement) -> bool)
    requires
        keys_unique(s),
    ensures
        keys_unique(s.filter(pred)),
        forall|x: TrackedElement| #[trigger] s.filter(pred).contains(x) ==> s.contains(x),
    decreases s.len(),
{
    reveal(Seq::filter);
    let out = s.filter(pred);
    if s.len() > 0 {
        let d = s.drop_last();
        assert(keys_unique(d));
        lemma_filter_unique(d, pred);
        let fd = d.filter(pred);
        assert forall|x: TrackedElement| #[trigger] out.contains(x) implies s.contains(x) by {
            if pred(s.last()) && x == s.last() {
                assert(s[s.len() - 1] == x);
            } else {
                let a = choose|a: int| 0 <= a < out.len() && out[a] == x;
                if pred(s.last()) {
                    if a < out.len() - 1 {
                        assert(fd[a] == x);
                        assert(fd.contains(x));
                    } else {
                        assert(x == s.last());
                    }
                } else {
                    assert(fd[a] == x);
                    assert(fd.contains(x));
                }
                if fd.contains(x) {
                    assert(d.contains(x));
                    let b = choose|b: int| 0 <= b < d.len() && d[b] == x;
                    assert(s[b] == x);
                }
            }
        }
        assert forall|a: int, b: int| 0 <= a < b < out.len() implies elem_key(#[trigger] out[a])
            != elem_key(#[trigger] out[b]) by {
            if pred(s.last()) && b == out.len() - 1 {
                assert(out[b] == s.last());
                assert(fd[a] == out[a]);
                assert(fd.contains(fd[a]));
                assert(d.contains(fd[a]));
                let j = choose|j: int| 0 <= j < d.len() && d[j] == fd[a];
                assert(s[j] == out[a]);
                assert(elem_key(s[j]) != elem_key(s[s.len() - 1]));
            } else {
                assert(fd[a] == out[a] && fd[b] == out[b]);
            }
        }
    }
}

/// The verified registry core: identifiers are unique and every stored
/// region is well-formed.
#[derive(Debug)]
pub struct ElementTracker {
    elements: Vec<TrackedElement>,
}

impl View for ElementTracker {
    type V = Seq<TrackedElement>;

    closed spec fn view(&self) -> Seq<TrackedElement> {
        self.elements@
    }
}

impl ElementTracker {
    pub open spec fn wf(self) -> bool {
        keys_unique(self@) && all_elems_wf(self@)
    }

    /// Create a new empty tracker.
    pub fn new() -> (t: ElementTracker)
        ensures
            t@ == Seq::<TrackedElement>::empty(),
            t.wf(),
    {
        ElementTracker { elements: Vec::new() }
    }

    /// Track a new element, inserting or overwriting by identifier.
    pub fn track(&mut self, element: TrackedElement)
        requires
            old(self).wf(),
            element.wf(),
        ensures
            final(self).wf(),
            find_elem(final(self)@, elem_key(element)) == Some(element),
            forall|k: Seq<u8>|
                k != elem_key(element) ==> #[trigger] find_elem(final(self)@, k) == find_elem(
                    old(self)@,
                    k,
                ),
            find_elem(old(self)@, elem_key(element)) is None ==> final(self)@ == old(
                self,
            )@.push(element),
            find_elem(old(self)@, elem_key(element)) is Some ==> exists|i: int|
                0 <= i < old(self)@.len() && elem_key(#[trigger] old(self)@[i]) == elem_key(
                    element,
                ) && final(self)@ == old(self)@.update(i, element),
            final(self)@.len() == old(self)@.len() + if find_elem(
                old(self)@,
                elem_key(element),
            ) is Some {
                0int
            } else {
                1int
            },
    {
        let key = element.id.as_str().as_bytes();
        let n = self.elements.len();
        let mut i: usize = 0;
        while i < n
            invariant
                0 <= i <= n,
                *self == *old(self),
                old(self).wf(),
                element.wf(),
                n == self.elements@.len(),
                key@ == elem_key(element),
                forall|j: int|
                    0 <= j < i ==> elem_key(#[trigger] self.elements@[j]) != elem_key(element),
            decreases n - i,
        {
            let entry_key = self.elements[i].id.as_str().as_bytes();
            proof {
                assert(entry_key@ == elem_key(self.elements@[i as int]));
            }
            if bytes_eq(entry_key, key) {
                let ghost pre = self.elements@;
                proof {
                    lemma_find_at_first_match(pre, i as int);
                    lemma_find_update(pre, i as int, element);
                }
                self.elements.set(i, element);
                proof {
                    let now = self.elements@;
                    assert forall|a: int, b: int| 0 <= a < b < now.len() implies elem_key(
                        #[trigger] now[a],
                    ) != elem_key(#[trigger] now[b]) by {
                        if a == i as int {
                            assert(now[a] == element);
                            assert(elem_key(now[a]) == elem_key(pre[a]));
                        } else {
                            assert(now[a] == pre[a]);
                        }
                        if b == i as int {
                            assert(now[b] == element);
                            assert(elem_key(now[b]) == elem_key(pre[b]));
                        } else {
                            assert(now[b] == pre[b]);
                        }
                    }
                    assert forall|a: int| 0 <= a < now.len() implies (#[trigger] now[a]).wf() by {
                        if a != i as int {
                            assert(now[a] == pre[a]);
                        }
                    }
                }
                return ;
            }
            i += 1;
        }
        let ghost pre = self.elements@;
        proof {
            lemma_find_push(pre, element);
            lemma_find_none_when_no_match(pre, elem_key(element));
        }
        self.elements.push(element);
        proof {
            let now = self.elements@;
            assert forall|a: int, b: int| 0 <= a < b < now.len() implies elem_key(#[trigger] now[a])
                != elem_key(#[trigger] now[b]) by {
                if b == now.len() - 1 {
                    assert(now[a] == pre[a]);
                    assert(elem_key(pre[a]) != elem_key(element));
                } else {
                    assert(now[a] == pre[a] && now[b] == pre[b]);
                }
            }
            assert forall|a: int| 0 <= a < now.len() implies (#[trigger] now[a]).wf() by {
                if a < now.len() - 1 {
                    assert(now[a] == pre[a]);
                }
            }
        }
    }

    /// Update an element's position with an explicit timestamp; a no-op if
    /// the identifier is not tracked.
    pub fn update_position_at(&mut self, id: &str, region: Region, now: u64)
        requires
            old(self).wf(),
            region.wf(),
        ensures
            final(self).wf(),
            find_elem(old(self)@, utf8_bytes(id@)) is None ==> final(self)@ == old(self)@,
            find_elem(old(self)@, utf8_bytes(id@)) matches Some(o) ==> find_elem(
                final(self)@,
                utf8_bytes(id@),
            ) == Some(TrackedElement { region, last_updated: now, ..o }),
            forall|k: Seq<u8>|
                k != utf8_bytes(id@) ==> #[trigger] find_elem(final(self)@, k) == find_elem(
                    old(self)@,
                    k,
                ),
            final(self)@.len() == old(self)@.len(),
    {
        let key = id.as_bytes();
        let n = self.elements.len();
        let mut i: usize = 0;
        while i < n
            invariant
                0 <= i <= n,
                *self == *old(self),
                old(self).wf(),
                region.wf(),
                n == self.elements@.len(),
                key@ == utf8_bytes(id@),
                forall|j: int|
                    0 <= j < i ==> elem_key(#[trigger] self.elements@[j]) != utf8_bytes(id@),
            decreases n - i,
        {
            let entry_key = self.elements[i].id.as_str().as_bytes();
            proof {
                assert(entry_key@ == elem_key(self.elements@[i as int]));
            }
            if bytes_eq(entry_key, key) {
                let ghost pre = self.elements@;
                let mut element = self.elements.remove(i);
                element.update_region_at(region, now);
                proof {
                    lemma_find_at_first_match(pre, i as int);
                    lemma_find_update(pre, i as int, element);
                }
                self.elements.insert(i, element);
                proof {
                    assert(self.elements@ =~= pre.update(i as int, element));
                    let cur = self.elements@;
                    assert forall|a: int, b: int| 0 <= a < b < cur.len() implies elem_key(
                        #[trigger] cur[a],
                    ) != elem_key(#[trigger] cur[b]) by {
                        assert(elem_key(cur[a]) == elem_key(pre[a]));
                        assert(elem_key(cur[b]) == elem_key(pre[b]));
                    }
                    assert forall|a: int| 0 <= a < cur.len() implies (#[trigger] cur[a]).wf() by {
                        if a != i as int {
                            assert(cur[a] == pre[a]);
                        }
                    }
                }
                return ;
            }
            i += 1;
        }
        proof {
            lemma_find_none_when_no_match(self.elements@, utf8_bytes(id@));
        }
    }

    /// Update an element's position, stamping it with the current time; a
    /// no-op if the identifier is not tracked.
    pub fn update_position(&mut self, id: &str, region: Region)
        requires
            old(self).wf(),
            region.wf(),
        ensures
            final(self).wf(),
            find_elem(old(self)@, utf8_bytes(id@)) is None ==> final(self)@ == old(self)@,
            find_elem(old(self)@, utf8_bytes(id@)) matches Some(o) ==> exists|t: u64|
                find_elem(final(self)@, utf8_bytes(id@)) == Some(
                    TrackedElement { region, last_updated: t, ..o },
                ),
            forall|k: Seq<u8>|
                k != utf8_bytes(id@) ==> #[trigger] find_elem(final(self)@, k) == find_elem(
                    old(self)@,
                    k,
                ),
            final(self)@.len() == old(self)@.len(),
    {
        let now = now_millis();
        self.update_position_at(id, region, now);
    }

    /// Get a copy of the element registered under `id`.
    pub fn get(&self, id: &str) -> (r: Option<TrackedElement>)
        ensures
            r is Some <==> find_elem(self@, utf8_bytes(id@)) is Some,
            r matches Some(e) ==> elem_equiv(e, find_elem(self@, utf8_bytes(id@)).unwrap()),
    {
        let key = id.as_bytes();
        let n = self.elements.len();
        let mut i: usize = 0;
        while i < n
            invariant
                0 <= i <= n,
                n == self.elements@.len(),
                key@ == utf8_bytes(id@),
                forall|j: int|
                    0 <= j < i ==> elem_key(#[trigger] self.elements@[j]) != utf8_bytes(id@),
            decreases n - i,
        {
            let entry_key = self.elements[i].id.as_str().as_bytes();
            proof {
                assert(entry_key@ == elem_key(self.elements@[i as int]));
            }
            if bytes_eq(entry_key, key) {
                proof {
                    lemma_find_at_first_match(self.elements@, i as int);
                }
                return Some(self.elements[i].clone());
            }
            i += 1;
        }
        proof {
            lemma_find_none_when_no_match(self.elements@, utf8_bytes(id@));
        }
        None
    }

    /// All elements matching a selector, in registry order.  The result
    /// holds copies, element-equivalent to the filtered registry entries.
    pub fn query(&self, selector: &str) -> (r: Vec<TrackedElement>)
        ensures
            ({
                let f = self@.filter(|e: TrackedElement| sel_matches(e, utf8_bytes(selector@)));
                &&& r@.len() == f.len()
                &&& forall|i: int| 0 <= i < f.len() ==> elem_equiv(#[trigger] r@[i], f[i])
            }),
    {
        let ghost pred = |e: TrackedElement| sel_matches(e, utf8_bytes(selector@));
        let sel = selector.as_bytes();
        let n = self.elements.len();
        let mut out: Vec<TrackedElement> = Vec::new();
        let mut i: usize = 0;
        proof {
            assert(self@.take(0int).filter(pred) =~= Seq::<TrackedElement>::empty());
        }
        while i < n
            invariant
                0 <= i <= n,
                n == self.elements@.len(),
                sel@ == utf8_bytes(selector@),
                out@.len() == self@.take(i as int).filter(pred).len(),
                forall|j: int|
                    0 <= j < out@.len() ==> elem_equiv(
                        #[trigger] out@[j],
                        self@.take(i as int).filter(pred)[j],
                    ),
                pred == (|e: TrackedElement| sel_matches(e, utf8_bytes(selector@))),
            decreases n - i,
        {
            proof {
                lemma_filter_step(self@, pred, i as int);
            }
            if matches_selector(&self.elements[i], sel) {
                out.push(self.elements[i].clone());
            }
            i += 1;
        }
        proof {
            assert(self@.take(n as int) =~= self@);
        }
        out
    }

    /// All elements whose region intersects the query region, in registry
    /// order.  The result holds copies, element-equivalent to the filtered
    /// registry entries.
    pub fn query_region(&self, query_region: &Region) -> (r: Vec<TrackedElement>)
        requires
            self.wf(),
            query_region.wf(),
        ensures
            ({
                let f = self@.filter(
                    |e: TrackedElement| e.region.intersects_spec(*query_region),
                );
                &&& r@.len() == f.len()
                &&& forall|i: int| 0 <= i < f.len() ==> elem_equiv(#[trigger] r@[i], f[i])
            }),
    {
        let ghost pred = |e: TrackedElement| e.region.intersects_spec(*query_region);
        let n = self.elements.len();
        let mut out: Vec<TrackedElement> = Vec::new();
        let mut i: usize = 0;
        proof {
            assert(self@.take(0int).filter(pred) =~= Seq::<TrackedElement>::empty());
        }
        while i < n
            invariant
                0 <= i <= n,
                self.wf(),
                query_region.wf(),
                n == self.elements@.len(),
                out@.len() == self@.take(i as int).filter(pred).len(),
                forall|j: int|
                    0 <= j < out@.len() ==> elem_equiv(
                        #[trigger] out@[j],
                        self@.take(i as int).filter(pred)[j],
                    ),
                pred == (|e: TrackedElement| e.region.intersects_spec(*query_region)),
            decreases n - i,
        {
            proof {
                lemma_filter_step(self@, pred, i as int);
                assert(self.elements@[i as int].wf());
            }
            if self.elements[i].region.intersects(query_region) {
                out.push(self.elements[i].clone());
            }
            i += 1;
        }
        proof {
            assert(self@.take(n as int) =~= self@);
        }
        out
    }

    /// Remove an element; a no-op if the identifier is not tracked.
    pub fn remove(&mut self, id: &str)
        requires
            old(self).wf(),
        ensures
            final(self).wf(),
            find_elem(final(self)@, utf8_bytes(id@)) is None,
            forall|k: Seq<u8>|
                k != utf8_bytes(id@) ==> #[trigger] find_elem(final(self)@, k) == find_elem(
                    old(self)@,
                    k,
                ),
            find_elem(old(self)@, utf8_bytes(id@)) is None ==> final(self)@ == old(self)@,
            find_elem(old(self)@, utf8_bytes(id@)) is Some ==> exists|i: int|
                0 <= i < old(self)@.len() && final(self)@ == old(self)@.remove(i),
    {
        let key = id.as_bytes();
        let n = self.elements.len();
        let mut i: usize = 0;
        while i < n
            invariant
                0 <= i <= n,
                *self == *old(self),
                old(self).wf(),
                n == self.elements@.len(),
                key@ == utf8_bytes(id@),
                forall|j: int|
                    0 <= j < i ==> elem_key(#[trigger] self.elements@[j]) != utf8_bytes(id@),
            decreases n - i,
        {
            let entry_key = self.elements[i].id.as_str().as_bytes();
            proof {
                assert(entry_key@ == elem_key(self.elements@[i as int]));
            }
            if bytes_eq(entry_key, key) {
                let ghost pre = self.elements@;
                proof {
                    lemma_find_at_first_match(pre, i as int);
                    lemma_find_remove(pre, i as int);
                }
                self.elements.remove(i);
                proof {
                    let cur = self.elements@;
                    assert forall|a: int| 0 <= a < cur.len() implies (#[trigger] cur[a]).wf() by {
                        if a < i as int {
                            assert(cur[a] == pre[a]);
                        } else {
                            assert(cur[a] == pre[a + 1]);
                        }
                    }
                }
                return ;
            }
            i += 1;
        }
        proof {
            lemma_find_none_when_no_match(self.elements@, utf8_bytes(id@));
        }
    }

    /// Remove all tracked elements.
    pub fn clear(&mut self)
        ensures
            final(self)@ == Seq::<TrackedElement>::empty(),
            final(self).wf(),
    {
        self.elements.clear();
    }

    /// The number of tracked elements.
    pub fn len(&self) -> (n: usize)
        ensures
            n == self@.len(),
    {
        self.elements.len()
    }

    /// Whether no elements are tracked.
    pub fn is_empty(&self) -> (r: bool)
        ensures
            r == (self@.len() == 0),
    {
        self.elements.is_empty()
    }

    /// All element identifiers, in registry order.
    pub fn ids(&self) -> (r: Vec<String>)
        ensures
            r@.len() == self@.len(),
            forall|i: int| 0 <= i < self@.len() ==> #[trigger] r@[i] == self@[i].id,
    {
        let n = self.elements.len();
        let mut out: Vec<String> = Vec::new();
        let mut i: usize = 0;
        while i < n
            invariant
                0 <= i <= n,
                n == self.elements@.len(),
                out@.len() == i,
                forall|j: int| 0 <= j < i ==> #[trigger] out@[j] == self@[j].id,
            decreases n - i,
        {
            out.push(self.elements[i].id.clone());
            i += 1;
        }
        out
    }

    /// Remove every element whose last update is older than `max_age`
    /// milliseconds, seen from `now`; returns how many were removed.
    pub fn cleanup_stale_at(&mut self, max_age: u64, now: u64) -> (removed: usize)
        requires
            old(self).wf(),
        ensures
            final(self).wf(),
            final(self)@ == old(self)@.filter(
                |e: TrackedElement| !is_stale(e, now, max_age),
            ),
            removed + final(self)@.len() == old(self)@.len(),
    {
        let ghost pred = |e: TrackedElement| !is_stale(e, now, max_age);
        let ghost orig = self.elements@;
        let n0 = self.elements.len();
        proof {
            assert(orig.len() == n0);
        }
        let mut removed: usize = 0;
        let mut j: usize = 0;
        let ghost mut k: int = 0;
        proof {
            assert(orig.take(0int).filter(pred) =~= Seq::<TrackedElement>::empty());
            assert(orig.take(0int).filter(pred) + orig.skip(0int) =~= orig);
        }
        while j < self.elements.len()
            invariant
                old(self).wf(),
                0 <= k <= orig.len(),
                orig.len() == n0,
                orig == old(self)@,
                self.elements@ == orig.take(k).filter(pred) + orig.skip(k),
                j == orig.take(k).filter(pred).len(),
                removed == k - j,
                pred == (|e: TrackedElement| !is_stale(e, now, max_age)),
            decreases orig.len() - k,
        {
            proof {
                assert(self.elements@[j as int] == orig.skip(k)[0]);
                assert(orig.skip(k)[0] == orig[k]);
                lemma_filter_step(orig, pred, k);
            }
            let e = &self.elements[j];
            let stale = e.last_updated < now && now - e.last_updated > max_age;
            proof {
                assert(stale == is_stale(orig[k], now, max_age));
            }
            if stale {
                self.elements.remove(j);
                removed += 1;
                proof {
                    assert(self.elements@ =~= orig.take(k + 1).filter(pred) + orig.skip(
                        k + 1,
                    ));
                }
            } else {
                j += 1;
                proof {
                    assert(self.elements@ =~= orig.take(k + 1).filter(pred) + orig.skip(
                        k + 1,
                    ));
                }
            }
            proof {
                k = k + 1;
            }
        }
        proof {
            assert(k == orig.len());
            assert(orig.take(k) =~= orig);
            assert(orig.skip(k) =~= Seq::<TrackedElement>::empty());
            assert(self.elements@ =~= orig.filter(pred));
            lemma_filter_unique(orig, pred);
            let out = orig.filter(pred);
            assert forall|a: int| 0 <= a < out.len() implies (#[trigger] out[a]).wf() by {
                assert(out.contains(out[a]));
                let w = choose|w: int| 0 <= w < orig.len() && orig[w] == out[a];
                assert(orig[w].wf());
            }
        }
        removed
    }

    /// Remove every element whose last update is older than `max_age`
    /// milliseconds, seen from the current time.
    pub fn cleanup_stale(&mut self, max_age: u64) -> (removed: usize)
        requires
            old(self).wf(),
        ensures
            final(self).wf(),
            removed + final(self)@.len() == old(self)@.len(),
            exists|now: u64| #[trigger] stale_swept(old(self)@, final(self)@, now, max_age),
    {
        let now = now_millis();
        let removed = self.cleanup_stale_at(max_age, now);
        proof {
            assert(stale_swept(old(self)@, self@, now, max_age));
        }
        removed
    }
}

impl Default for ElementTracker {
    fn default() -> (t: ElementTracker)
        ensures
            t@ == Seq::<TrackedElement>::empty(),
            t.wf(),
    {
        ElementTracker::new()
    }
}

/// Does this element match the selector bytes?
fn matches_selector(e: &TrackedElement, sel: &[u8]) -> (r: bool)
    ensures
        r == sel_matches(*e, sel@),
{
    if sel.len() > 0 && sel[0] == 35 {
        let rest = &sel[1..sel.len()];
        proof {
            assert(rest@ =~= sel@.drop_first());
        }
        let idb = e.id.as_str().as_bytes();
        proof {
            assert(idb@ == utf8_bytes(e.id@));
        }
        bytes_eq(idb, rest)
    } else if sel.len() > 0 && sel[0] == 46 {
        let rest = &sel[1..sel.len()];
        proof {
            assert(rest@ =~= sel@.drop_first());
        }
        let n = e.classes.len();
        let mut i: usize = 0;
        while i < n
            invariant
                0 <= i <= n,
                n == e.classes@.len(),
                rest@ == sel@.drop_first(),
                sel@.len() > 0 && sel@[0] == 46,
                forall|j: int|
                    0 <= j < i ==> utf8_bytes(#[trigger] e.classes@[j]@) != sel@.drop_first(),
            decreases n - i,
        {
            let cb = e.classes[i].as_str().as_bytes();
            proof {
                assert(cb@ == utf8_bytes(e.classes@[i as int]@));
            }
            if bytes_eq(cb, rest) {
                return true;
            }
            i += 1;
        }
        false
    } else {
        let tb = e.element_type.as_str().as_bytes();
        proof {
            assert(tb@ == utf8_bytes(e.element_type@));
        }
        bytes_eq(tb, sel)
    }
}

/// The lock predicate for a shared tracker: the registry inside the lock
/// is always well-formed.
pub struct TrackerLockPred {}

impl RwLockPredicate<ElementTracker> for TrackerLockPred {
    open spec fn inv(self, t: ElementTracker) -> bool {
        t.wf()
    }
}

/// Thread-safe element tracker.
///
/// A clonable handle to one registry shared between the DOM integration
/// and the compositor; every operation takes the lock for its duration,
/// so no reader ever observes a half-updated element.  The per-call
/// contracts live on `ElementTracker`; through the shared handle, the
/// lock invariant guarantees that every observed state is well-formed.
///
/// A tracker handle never fails its caller.  The registry operations are
/// verified panic-free, so no holder can die inside the lock and leave it
/// poisoned; the degrade-to-empty answer for an unavailable lock is a
/// state this tracker cannot reach.
#[derive(Clone)]
pub struct SharedElementTracker {
    inner: Arc<RwLock<ElementTracker, TrackerLockPred>>,
}

impl SharedElementTracker {
    /// Create a new empty element tracker.
    pub fn new() -> SharedElementTracker {
        SharedElementTracker {
            inner: Arc::new(
                RwLock::new(ElementTracker::new(), Ghost(TrackerLockPred {})),
            ),
        }
    }

    /// Track a new element.
    pub fn track(&self, element: TrackedElement)
        requires
            element.wf(),
    {
        let (mut t, handle) = self.inner.acquire_write();
        t.track(element);
        handle.release_write(t);
    }

    /// Update an element's position; a no-op if the identifier is not
    /// tracked.
    pub fn update_position(&self, id: &str, region: Region)
        requires
            region.wf(),
    {
        let (mut t, handle) = self.inner.acquire_write();
        t.update_position(id, region);
        handle.release_write(t);
    }

    /// Get an element by identifier.
    pub fn get(&self, id: &str) -> (r: Option<TrackedElement>)
        ensures
            r matches Some(e) ==> e.wf() && utf8_bytes(e.id@) == utf8_bytes(id@),
    {
        let handle = self.inner.acquire_read();
        let r = handle.borrow().get(id);
        proof {
            if find_elem(handle.view()@, utf8_bytes(id@)) is Some {
                lemma_find_elem_contains(handle.view()@, utf8_bytes(id@));
                let found = find_elem(handle.view()@, utf8_bytes(id@)).unwrap();
                let j = choose|j: int|
                    0 <= j < handle.view()@.len() && #[trigger] handle.view()@[j] == found;
                assert(handle.view()@[j].wf());
            }
        }
        handle.release_read();
        r
    }

    /// All elements matching a selector (simple class/identifier
    /// matching).
    pub fn query(&self, selector: &str) -> (r: Vec<TrackedElement>)
        ensures
            forall|i: int|
                0 <= i < r@.len() ==> sel_matches(#[trigger] r@[i], utf8_bytes(selector@)),
    {
        let handle = self.inner.acquire_read();
        let r = handle.borrow().query(selector);
        proof {
            broadcast use vstd::seq_lib::group_filter_ensures;

            let pred = |e: TrackedElement| sel_matches(e, utf8_bytes(selector@));
            let f = handle.view()@.filter(pred);
            assert forall|i: int| 0 <= i < r@.len() implies sel_matches(
                #[trigger] r@[i],
                utf8_bytes(selector@),
            ) by {
                assert(pred(f[i]));
                lemma_sel_matches_equiv(r@[i], f[i], utf8_bytes(selector@));
            }
        }
        handle.release_read();
        r
    }

    /// All elements whose region intersects the query region.
    pub fn query_region(&self, query_region: &Region) -> (r: Vec<TrackedElement>)
        requires
            query_region.wf(),
        ensures
            forall|i: int|
                0 <= i < r@.len() ==> (#[trigger] r@[i]).region.intersects_spec(*query_region),
    {
        let handle = self.inner.acquire_read();
        let r = handle.borrow().query_region(query_region);
        proof {
            broadcast use vstd::seq_lib::group_filter_ensures;

            let pred = |e: TrackedElement| e.region.intersects_spec(*query_region);
            let f = handle.view()@.filter(pred);
            assert forall|i: int| 0 <= i < r@.len() implies (#[trigger] r@[i]).region.intersects_spec(
                *query_region,
            ) by {
                assert(pred(f[i]));
                assert(r@[i].region == f[i].region);
            }
        }
        handle.release_read();
        r
    }

    /// Remove an element.
    pub fn remove(&self, id: &str) {
        let (mut t, handle) = self.inner.acquire_write();
        t.remove(id);
        handle.release_write(t);
    }

    /// Clear all tracked elements.
    pub fn clear(&self) {
        let (mut t, handle) = self.inner.acquire_write();
        t.clear();
        handle.release_write(t);
    }

    /// The number of tracked elements.
    pub fn len(&self) -> usize {
        let handle = self.inner.acquire_read();
        let n = handle.borrow().len();
        handle.release_read();
        n
    }

    /// Whether no elements are tracked.
    pub fn is_empty(&self) -> bool {
        let handle = self.inner.acquire_read();
        let r = handle.borrow().is_empty();
        handle.release_read();
        r
    }

    /// All element identifiers.
    pub fn ids(&self) -> Vec<String> {
        let handle = self.inner.acquire_read();
        let r = handle.borrow().ids();
        handle.release_read();
        r
    }

    /// Remove every element whose last update is older than `max_age`
    /// milliseconds; returns how many were removed.
    pub fn cleanup_stale(&self, max_age: u64) -> usize {
        let (mut t, handle) = self.inner.acquire_write();
        let removed = t.cleanup_stale(max_age);
        handle.release_write(t);
        removed
    }

    /// Remove every element stale relative to an explicit time; returns
    /// how many were removed.
    pub fn cleanup_stale_at(&self, max_age: u64, now: u64) -> usize {
        let (mut t, handle) = self.inner.acquire_write();
        let removed = t.cleanup_stale_at(max_age, now);
        handle.release_write(t);
        removed
    }
}

impl Default for SharedElementTracker {
    fn default() -> SharedElementTracker {
        SharedElementTracker::new()
    }
}

} // verus!
