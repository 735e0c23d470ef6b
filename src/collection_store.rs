//! The request tree of an open collection, with the selected request, the
//! hovered entry and the expansion state of directories.
//!
//! The tree is held flat, in depth-first pre-order: each entry records its
//! depth, and the entries that follow a directory with a greater depth are its
//! descendants. Hover and selection refer to entries by identifier.
use std::collections::HashMap;
use vstd::prelude::*;

verus! {

broadcast use vstd::std_specs::hash::group_hash_axioms;

#[derive(Clone, Copy, Debug, PartialEq, Eq, Structural)]
pub enum RequestMethod {
    Get,
    Post,
    Put,
    Patch,
    Delete,
}

/// A request that can be opened and sent.
pub struct Request {
    pub id: u64,
    pub name: String,
    pub method: RequestMethod,
}

/// A named group of requests.
pub struct Directory {
    pub id: u64,
    pub name: String,
}

pub enum RequestKind {
    Single(Request),
    Nested(Directory),
}

impl RequestKind {
    pub open spec fn id_of(&self) -> u64 {
        match self {
            RequestKind::Single(r) => r.id,
            RequestKind::Nested(d) => d.id,
        }
    }

    pub fn get_id(&self) -> (r: u64)
        ensures
            r == self.id_of(),
    {
        match self {
            RequestKind::Single(r) => r.id,
            RequestKind::Nested(d) => d.id,
        }
    }
}

/// One node of the tree, at its place in pre-order.
pub struct TreeEntry {
    pub depth: usize,
    pub kind: RequestKind,
}

/// The tree is a pre-order listing (it starts at depth 0 and only a directory
/// is followed by a deeper entry, one level deeper), with unique identifiers.
pub open spec fn tree_wf(e: Seq<TreeEntry>) -> bool {
    &&& e.len() > 0 ==> e[0].depth == 0
    &&& forall|i: int|
        0 <= i < e.len() - 1 ==> #[trigger] e[i + 1].depth <= e[i].depth + 1 && (e[i + 1].depth
            == e[i].depth + 1 ==> e[i].kind is Nested)
    &&& forall|i: int, j: int|
        0 <= i < j < e.len() ==> (#[trigger] e[i].kind).id_of() != (#[trigger] e[j].kind).id_of()
}

/// A directory is expanded when the map says so; an unknown one is collapsed.
pub open spec fn is_expanded(m: Map<u64, bool>, id: u64) -> bool {
    m.contains_key(id) && m[id]
}

/// Indices of the visible entries from `i` on: a depth-first walk that skips
/// the descendants of collapsed directories. `skip` is the depth of the
/// collapsed directory whose descendants are being passed over.
pub open spec fn visible_from(e: Seq<TreeEntry>, m: Map<u64, bool>, i: int, skip: Option<usize>) -> Seq<
    usize,
>
    decreases e.len() - i,
{
    if i >= e.len() || i < 0 {
        Seq::empty()
    } else if skip is Some && e[i].depth > skip->0 {
        visible_from(e, m, i + 1, skip)
    } else {
        let next = if e[i].kind is Nested && !is_expanded(m, e[i].kind.id_of()) {
            Some(e[i].depth)
        } else {
            None
        };
        seq![i as usize] + visible_from(e, m, i + 1, next)
    }
}

/// Indices of the visible entries, in display order.
pub open spec fn visible(e: Seq<TreeEntry>, m: Map<u64, bool>) -> Seq<usize> {
    visible_from(e, m, 0, None)
}

/// First position, at `k` or later, of the visible entry with identifier `id`;
/// the length of `vis` if there is none.
pub open spec fn find_pos(e: Seq<TreeEntry>, vis: Seq<usize>, id: u64, k: int) -> int
    decreases vis.len() - k,
{
    if k >= vis.len() || k < 0 {
        vis.len() as int
    } else if e[vis[k] as int].kind.id_of() == id {
        k
    } else {
        find_pos(e, vis, id, k + 1)
    }
}

/// Hover after moving down one visible entry; it stays on the last one.
pub open spec fn hover_next(e: Seq<TreeEntry>, m: Map<u64, bool>, h: Option<u64>) -> Option<u64> {
    let vis = visible(e, m);
    match h {
        None => None,
        Some(id) => {
            let p = find_pos(e, vis, id, 0);
            if p + 1 < vis.len() {
                Some(e[vis[p + 1] as int].kind.id_of())
            } else {
                h
            }
        },
    }
}

/// Hover after moving up one visible entry; it stays on the first one.
pub open spec fn hover_prev(e: Seq<TreeEntry>, m: Map<u64, bool>, h: Option<u64>) -> Option<u64> {
    let vis = visible(e, m);
    match h {
        None => None,
        Some(id) => {
            let p = find_pos(e, vis, id, 0);
            if 0 < p < vis.len() {
                Some(e[vis[p - 1] as int].kind.id_of())
            } else {
                h
            }
        },
    }
}

/// Hover after moving down `n` times.
pub open spec fn hover_next_n(e: Seq<TreeEntry>, m: Map<u64, bool>, h: Option<u64>, n: nat) -> Option<
    u64,
>
    decreases n,
{
    if n == 0 {
        h
    } else {
        hover_next_n(e, m, hover_next(e, m, h), (n - 1) as nat)
    }
}

/// Expansion map after toggling a directory.
pub open spec fn toggled(m: Map<u64, bool>, id: u64) -> Map<u64, bool> {
    m.insert(id, !is_expanded(m, id))
}

/// The visible indices from `i` on are increasing and stand in `i..e.len()`.
pub proof fn lemma_visible_from_sorted(e: Seq<TreeEntry>, m: Map<u64, bool>, i: int, skip: Option<usize>)
    requires
        0 <= i,
        e.len() <= usize::MAX,
    ensures
        forall|k: int|
            0 <= k < visible_from(e, m, i, skip).len() ==> i <= #[trigger] visible_from(
                e,
                m,
                i,
                skip,
            )[k] < e.len(),
        forall|a: int, b: int|
            0 <= a < b < visible_from(e, m, i, skip).len() ==> #[trigger] visible_from(
                e,
                m,
                i,
                skip,
            )[a] < #[trigger] visible_from(e, m, i, skip)[b],
    decreases e.len() - i,
{
    if i < e.len() {
        let next = if e[i].kind is Nested && !is_expanded(m, e[i].kind.id_of()) {
            Some(e[i].depth)
        } else {
            None
        };
        lemma_visible_from_sorted(e, m, i + 1, skip);
        lemma_visible_from_sorted(e, m, i + 1, next);
        if skip is Some && e[i].depth > skip->0 {
            assert(visible_from(e, m, i, skip) == visible_from(e, m, i + 1, skip));
        } else {
            let v = visible_from(e, m, i, skip);
            let rest = visible_from(e, m, i + 1, next);
            assert(v == seq![i as usize] + rest);
            assert forall|k: int| 0 <= k < v.len() implies i <= #[trigger] v[k] < e.len() by {
                if k > 0 {
                    assert(v[k] == rest[k - 1]);
                }
            }
            assert forall|a: int, b: int| 0 <= a < b < v.len() implies #[trigger] v[a] < #[trigger] v[b] by {
                assert(v[b] == rest[b - 1]);
                if a > 0 {
                    assert(v[a] == rest[a - 1]);
                }
            }
        }
    }
}

/// A position found by `find_pos` holds the identifier looked for.
pub proof fn lemma_find_pos_found(e: Seq<TreeEntry>, vis: Seq<usize>, id: u64, k: int)
    requires
        0 <= k,
    ensures
        k <= find_pos(e, vis, id, k) <= vis.len() || (k > vis.len() && find_pos(e, vis, id, k) == vis.len()),
        find_pos(e, vis, id, k) < vis.len() ==> e[vis[find_pos(e, vis, id, k)] as int].kind.id_of() == id,
    decreases vis.len() - k,
{
    if k < vis.len() && e[vis[k] as int].kind.id_of() != id {
        lemma_find_pos_found(e, vis, id, k + 1);
    }
}

/// Where identifiers along `vis` are distinct, `find_pos` finds each at its place.
pub proof fn lemma_find_pos_unique(e: Seq<TreeEntry>, vis: Seq<usize>, q: int, k: int)
    requires
        0 <= k <= q < vis.len(),
        forall|a: int, b: int|
            0 <= a < b < vis.len() ==> e[#[trigger] vis[a] as int].kind.id_of() != e[#[trigger] vis[b] as int].kind.id_of(),
    ensures
        find_pos(e, vis, e[vis[q] as int].kind.id_of(), k) == q,
    decreases q - k,
{
    if k < q {
        lemma_find_pos_unique(e, vis, q, k + 1);
    }
}

/// In a well-formed tree the visible entries have distinct identifiers.
pub proof fn lemma_visible_ids_distinct(e: Seq<TreeEntry>, m: Map<u64, bool>)
    requires
        tree_wf(e),
        e.len() <= usize::MAX,
    ensures
        forall|a: int, b: int|
            0 <= a < b < visible(e, m).len() ==> e[#[trigger] visible(e, m)[a] as int].kind.id_of()
                != e[#[trigger] visible(e, m)[b] as int].kind.id_of(),
{
    lemma_visible_from_sorted(e, m, 0, None);
    let vis = visible(e, m);
    assert forall|a: int, b: int| 0 <= a < b < vis.len() implies e[#[trigger] vis[a] as int].kind.id_of()
        != e[#[trigger] vis[b] as int].kind.id_of() by {
        let x = vis[a] as int;
        let y = vis[b] as int;
        assert(x < y);
        assert(e[x].kind.id_of() != e[y].kind.id_of());
    }
}

proof fn lemma_hover_next_n_from(e: Seq<TreeEntry>, m: Map<u64, bool>, id: u64, n: nat)
    requires
        tree_wf(e),
        e.len() <= usize::MAX,
        find_pos(e, visible(e, m), id, 0) < visible(e, m).len(),
        n + find_pos(e, visible(e, m), id, 0) + 1 >= visible(e, m).len(),
    ensures
        hover_next_n(e, m, Some(id), n) == Some(
            e[visible(e, m).last() as int].kind.id_of(),
        ),
    decreases n,
{
    let vis = visible(e, m);
    let p = find_pos(e, vis, id, 0);
    lemma_find_pos_found(e, vis, id, 0);
    lemma_visible_ids_distinct(e, m);
    if p + 1 < vis.len() {
        let nid = e[vis[p + 1] as int].kind.id_of();
        lemma_find_pos_unique(e, vis, p + 1, 0);
        lemma_hover_next_n_from(e, m, nid, (n - 1) as nat);
    } else if n > 0 {
        lemma_hover_next_n_from(e, m, id, (n - 1) as nat);
    }
}

/// Moving the hover down at least as many times as there are visible entries
/// leaves it on the last visible entry: the walk stops there, it does not wrap.
pub proof fn lemma_hover_next_clamps(e: Seq<TreeEntry>, m: Map<u64, bool>, id: u64, n: nat)
    requires
        tree_wf(e),
        e.len() <= usize::MAX,
        find_pos(e, visible(e, m), id, 0) < visible(e, m).len(),
        n >= visible(e, m).len(),
    ensures
        hover_next_n(e, m, Some(id), n) == Some(
            e[visible(e, m).last() as int].kind.id_of(),
        ),
{
    lemma_find_pos_found(e, visible(e, m), id, 0);
    lemma_hover_next_n_from(e, m, id, n);
}

/// Toggling a directory twice gives every directory its former expansion state.
pub proof fn lemma_toggle_twice(m: Map<u64, bool>, id: u64)
    ensures
        forall|x: u64| is_expanded(toggled(toggled(m, id), id), x) == is_expanded(m, x),
{
}

pub enum CollectionStoreAction {
    SetSelectedRequest(Option<Request>),
    HoverPrev,
    HoverNext,
    ToggleDirectory(u64),
}

pub struct CollectionStore {
    entries: Vec<TreeEntry>,
    selected: Option<Request>,
    hovered: Option<u64>,
    dirs_expanded: HashMap<u64, bool>,
}

impl CollectionStore {
    pub closed spec fn entries(&self) -> Seq<TreeEntry> {
        self.entries@
    }

    pub closed spec fn selected(&self) -> Option<Request> {
        self.selected
    }

    pub closed spec fn hovered(&self) -> Option<u64> {
        self.hovered
    }

    pub closed spec fn expanded(&self) -> Map<u64, bool> {
        self.dirs_expanded@
    }

    pub open spec fn wf(&self) -> bool {
        tree_wf(self.entries())
    }
}

/// Whether a listing of entries is a well-formed tree.
pub fn valid_tree(entries: &Vec<TreeEntry>) -> (r: bool)
    ensures
        r == tree_wf(entries@),
{
    let n = entries.len();
    if n > 0 && entries[0].depth != 0 {
        return false;
    }
    let mut i: usize = 0;
    while i < n
        invariant
            0 <= i <= n,
            n == entries@.len(),
            n > 0 ==> entries@[0].depth == 0,
            forall|a: int|
                0 <= a < i && a < n - 1 ==> #[trigger] entries@[a + 1].depth <= entries@[a].depth
                    + 1 && (entries@[a + 1].depth == entries@[a].depth + 1
                    ==> entries@[a].kind is Nested),
            forall|a: int, b: int|
                0 <= a < i && a < b < n ==> (#[trigger] entries@[a].kind).id_of() != (
                #[trigger] entries@[b].kind).id_of(),
        decreases n - i,
    {
        if i + 1 < n {
            let d = entries[i].depth;
            let d2 = entries[i + 1].depth;
            if d2 > d {
                if d2 - d > 1 {
                    return false;
                }
                if let RequestKind::Single(_) = &entries[i].kind {
                    return false;
                }
            }
        }
        let id = entries[i].kind.get_id();
        let mut j: usize = i + 1;
        while j < n
            invariant
                i < j <= n,
                n == entries@.len(),
                id == entries@[i as int].kind.id_of(),
                forall|b: int| i < b < j ==> id != (#[trigger] entries@[b].kind).id_of(),
            decreases n - j,
        {
            if entries[j].kind.get_id() == id {
                return false;
            }
            j = j + 1;
        }
        i = i + 1;
    }
    true
}

impl CollectionStore {
    /// A store over a tree, hovering its first entry, with nothing selected and
    /// every directory collapsed.
    pub fn new(entries: Vec<TreeEntry>) -> (r: Self)
        requires
            tree_wf(entries@),
        ensures
            r.wf(),
            r.entries() == entries@,
            r.hovered() == (if entries@.len() > 0 {
                Some(entries@[0].kind.id_of())
            } else {
                None::<u64>
            }),
            r.selected() is None,
            r.expanded() == Map::<u64, bool>::empty(),
    {
        let hovered = if entries.len() > 0 {
            Some(entries[0].kind.get_id())
        } else {
            None
        };
        CollectionStore { entries, selected: None, hovered, dirs_expanded: HashMap::new() }
    }

    pub fn get_requests(&self) -> (r: &Vec<TreeEntry>)
        ensures
            r@ == self.entries(),
    {
        &self.entries
    }

    pub fn get_selected_request(&self) -> (r: &Option<Request>)
        ensures
            *r == self.selected(),
    {
        &self.selected
    }

    pub fn get_hovered_request(&self) -> (r: Option<u64>)
        ensures
            r == self.hovered(),
    {
        self.hovered
    }

    pub fn get_dirs_expanded(&self) -> (r: &HashMap<u64, bool>)
        ensures
            r@ == self.expanded(),
    {
        &self.dirs_expanded
    }

    /// Whether a directory is expanded; unknown identifiers are collapsed.
    pub fn is_dir_expanded(&self, id: u64) -> (r: bool)
        ensures
            r == is_expanded(self.expanded(), id),
    {
        match self.dirs_expanded.get(&id) {
            Some(b) => *b,
            None => false,
        }
    }

    /// The entry with the hovered identifier, looked up in the whole tree;
    /// `None` when nothing is hovered or the identifier is not in the tree.
    pub fn find_hovered_request(&self) -> (r: Option<&TreeEntry>)
        ensures
            r is Some <==> (self.hovered() is Some && exists|i: int|
                0 <= i < self.entries().len() && (#[trigger] self.entries()[i].kind).id_of()
                    == self.hovered()->0),
            r is Some ==> r->0.kind.id_of() == self.hovered()->0 && exists|i: int|
                0 <= i < self.entries().len() && self.entries()[i] == *r->0,
            self.wf() && r is Some ==> forall|i: int|
                0 <= i < self.entries().len() && (#[trigger] self.entries()[i].kind).id_of()
                    == self.hovered()->0 ==> self.entries()[i] == *r->0,
    {
        let id = match self.hovered {
            Some(id) => id,
            None => return None,
        };
        let mut i: usize = 0;
        while i < self.entries.len()
            invariant
                0 <= i <= self.entries@.len(),
                self.hovered == Some(id),
                forall|k: int| 0 <= k < i ==> (#[trigger] self.entries@[k].kind).id_of() != id,
            decreases self.entries@.len() - i,
        {
            if self.entries[i].kind.get_id() == id {
                assert(self.entries()[i as int] == self.entries@[i as int]);
                assert(self.wf() ==> forall|j: int|
                    0 <= j < self.entries().len() && (#[trigger] self.entries()[j].kind).id_of()
                        == id ==> j == i) by {
                    if self.wf() {
                        assert forall|j: int|
                            0 <= j < self.entries().len() && (#[trigger] self.entries()[j].kind).id_of()
                                == id implies j == i by {
                            if j < i {
                                assert(self.entries@[j].kind.id_of() != self.entries@[i as int].kind.id_of());
                            } else if j > i {
                                assert(self.entries@[i as int].kind.id_of() != self.entries@[j].kind.id_of());
                            }
                        }
                    }
                }
                return Some(&self.entries[i]);
            }
            i = i + 1;
        }
        None
    }

    /// Indices of the visible entries, in display order.
    pub fn visible_entries(&self) -> (r: Vec<usize>)
        ensures
            r@ == visible(self.entries(), self.expanded()),
    {
        let n = self.entries.len();
        let mut out: Vec<usize> = Vec::new();
        let mut skip: Option<usize> = None;
        let mut i: usize = 0;
        while i < n
            invariant
                0 <= i <= n,
                n == self.entries@.len(),
                visible(self.entries@, self.dirs_expanded@) == out@ + visible_from(
                    self.entries@,
                    self.dirs_expanded@,
                    i as int,
                    skip,
                ),
            decreases n - i,
        {
            let d = self.entries[i].depth;
            let hidden = match skip {
                Some(sd) => d > sd,
                None => false,
            };
            let ghost old_skip = skip;
            if !hidden {
                let ghost prev = out@;
                out.push(i);
                let collapsed = match &self.entries[i].kind {
                    RequestKind::Nested(dir) => !self.is_dir_expanded(dir.id),
                    RequestKind::Single(_) => false,
                };
                skip = if collapsed {
                    Some(d)
                } else {
                    None
                };
                assert(visible_from(self.entries@, self.dirs_expanded@, i as int, old_skip) == seq![
                    i as usize,
                ] + visible_from(self.entries@, self.dirs_expanded@, i + 1, skip));
                assert(out@ + visible_from(self.entries@, self.dirs_expanded@, i + 1, skip) =~= prev
                    + visible_from(self.entries@, self.dirs_expanded@, i as int, old_skip));
            }
            i = i + 1;
        }
        out
    }
}

impl CollectionStore {
    /// Applies one action: select a request (or none), move the hover one
    /// visible entry down or up (stopping at the ends), or flip a directory
    /// between expanded and collapsed. Actions never fail; an unknown hovered
    /// identifier leaves the hover where it is.
    pub fn dispatch(&mut self, action: CollectionStoreAction)
        requires
            old(self).wf(),
        ensures
            final(self).wf(),
            final(self).entries() == old(self).entries(),
            match action {
                CollectionStoreAction::SetSelectedRequest(r) => {
                    &&& final(self).selected() == r
                    &&& final(self).hovered() == old(self).hovered()
                    &&& final(self).expanded() == old(self).expanded()
                },
                CollectionStoreAction::HoverNext => {
                    &&& final(self).selected() == old(self).selected()
                    &&& final(self).hovered() == hover_next(
                        old(self).entries(),
                        old(self).expanded(),
                        old(self).hovered(),
                    )
                    &&& final(self).expanded() == old(self).expanded()
                },
                CollectionStoreAction::HoverPrev => {
                    &&& final(self).selected() == old(self).selected()
                    &&& final(self).hovered() == hover_prev(
                        old(self).entries(),
                        old(self).expanded(),
                        old(self).hovered(),
                    )
                    &&& final(self).expanded() == old(self).expanded()
                },
                CollectionStoreAction::ToggleDirectory(id) => {
                    &&& final(self).selected() == old(self).selected()
                    &&& final(self).hovered() == old(self).hovered()
                    &&& final(self).expanded() == toggled(old(self).expanded(), id)
                },
            },
    {
        match action {
            CollectionStoreAction::SetSelectedRequest(r) => {
                self.selected = r;
            },
            CollectionStoreAction::HoverNext => {
                self.move_hover(true);
            },
            CollectionStoreAction::HoverPrev => {
                self.move_hover(false);
            },
            CollectionStoreAction::ToggleDirectory(id) => {
                let expanded = self.is_dir_expanded(id);
                self.dirs_expanded.insert(id, !expanded);
            },
        }
    }

    fn move_hover(&mut self, forward: bool)
        ensures
            final(self).entries == old(self).entries,
            final(self).selected == old(self).selected,
            final(self).dirs_expanded == old(self).dirs_expanded,
            final(self).hovered == (if forward {
                hover_next(old(self).entries@, old(self).dirs_expanded@, old(self).hovered)
            } else {
                hover_prev(old(self).entries@, old(self).dirs_expanded@, old(self).hovered)
            }),
    {
        let id = match self.hovered {
            Some(id) => id,
            None => return ,
        };
        let vis = self.visible_entries();
        let n = self.entries.len();
        proof {
            lemma_visible_from_sorted(self.entries@, self.dirs_expanded@, 0, None);
        }
        let ghost e = self.entries@;
        let mut k: usize = 0;
        let mut found = false;
        while k < vis.len() && !found
            invariant
                0 <= k <= vis@.len(),
                e == self.entries@,
                forall|j: int| 0 <= j < vis@.len() ==> #[trigger] vis@[j] < e.len(),
                find_pos(e, vis@, id, 0) == find_pos(e, vis@, id, k as int),
                found ==> k < vis@.len() && find_pos(e, vis@, id, k as int) == k,
            decreases vis@.len() - k, if found { 0int } else { 1int },
        {
            if self.entries[vis[k]].kind.get_id() == id {
                found = true;
            } else {
                k = k + 1;
            }
        }
        if !found {
            return ;
        }
        if forward {
            if k + 1 < vis.len() {
                self.hovered = Some(self.entries[vis[k + 1]].kind.get_id());
            }
        } else if k > 0 {
            self.hovered = Some(self.entries[vis[k - 1]].kind.get_id());
        }
    }
}

} // verus!
