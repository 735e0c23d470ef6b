//! The request list beside the editor: which tree entries it shows, how each
//! is marked, and how its keys act on the collection store.
use crate::collection_store::{
    hover_next, hover_prev, is_expanded, toggled, visible, CollectionStore, CollectionStoreAction,
    Request, RequestKind, RequestMethod, TreeEntry,
};
use vstd::prelude::*;
use vstd::string::StrSliceExecFns;

verus! {

/// The panes of the collection viewer.
#[derive(Clone, Copy, Debug, PartialEq, Eq, Structural)]
pub enum PaneFocus {
    Sidebar,
    ReqUri,
    Preview,
    Editor,
}

/// What the sidebar asks of the page that holds it.
#[derive(Debug)]
pub enum SidebarEvent {
    CreateRequest,
    Quit,
}

/// The keys that the sidebar acts on.
#[derive(Clone, Copy, Debug, PartialEq, Eq, Structural)]
pub enum SidebarKey {
    /// Open the hovered request or flip the hovered directory.
    Enter,
    Down,
    Up,
    /// Ask for a new request.
    New,
    /// Control-C.
    Quit,
    Other,
}

/// One displayed line: the visible tree entry it shows and how it is marked.
pub struct SidebarLine {
    /// Index of the entry in the store's tree.
    pub index: usize,
    /// Nesting depth, which sets the indentation.
    pub level: usize,
    pub is_dir: bool,
    pub is_expanded: bool,
    pub is_hovered: bool,
    pub is_selected: bool,
    /// The text shown on the line.
    pub text: String,
}

/// Text of the line that shows a tree entry: two spaces per level, then for a
/// directory `v` or `>`, a space, its lowercased name with dashes for spaces and
/// `/`; for a request its method label, a space and its name.
pub open spec fn entry_text(entry: TreeEntry, expanded: bool) -> Seq<char> {
    match entry.kind {
        RequestKind::Nested(d) => spaces(2 * entry.depth as nat) + seq![
            if expanded { 'v' } else { '>' },
            ' ',
        ] + dashed(lower_of(d.name@)) + seq!['/'],
        RequestKind::Single(r) => spaces(2 * entry.depth as nat) + method_text(r.method) + seq![' ']
            + r.name@,
    }
}

/// `line` is the line that shows entry `i` of the tree.
pub open spec fn line_matches(
    line: SidebarLine,
    e: Seq<TreeEntry>,
    m: Map<u64, bool>,
    hovered: Option<u64>,
    selected: Option<Request>,
    i: usize,
) -> bool {
    let id = e[i as int].kind.id_of();
    &&& line.index == i
    &&& line.level == e[i as int].depth
    &&& line.is_dir == e[i as int].kind is Nested
    &&& line.is_expanded == (e[i as int].kind is Nested && is_expanded(m, id))
    &&& line.is_hovered == (hovered == Some(id))
    &&& line.is_selected == (e[i as int].kind is Single && selected is Some && selected->0.id == id)
    &&& line.text@ == entry_text(e[i as int], is_expanded(m, id))
}

/// The lines of the visible entries of the store, in display order.
pub fn build_lines(store: &CollectionStore) -> (r: Vec<SidebarLine>)
    ensures
        r@.len() == visible(store.entries(), store.expanded()).len(),
        forall|k: int|
            0 <= k < r@.len() ==> line_matches(
                    #[trigger] r@[k],
                store.entries(),
                store.expanded(),
                store.hovered(),
                store.selected(),
                visible(store.entries(), store.expanded())[k],
            ),
{
    let vis = store.visible_entries();
    let entries = store.get_requests();
    let hovered = store.get_hovered_request();
    let selected = store.get_selected_request();
    let n = entries.len();
    proof {
        crate::collection_store::lemma_visible_from_sorted(
            store.entries(),
            store.expanded(),
            0,
            None,
        );
    }
    let mut out: Vec<SidebarLine> = Vec::new();
    let mut k: usize = 0;
    while k < vis.len()
        invariant
            0 <= k <= vis@.len(),
            vis@ == visible(store.entries(), store.expanded()),
            entries@ == store.entries(),
            hovered == store.hovered(),
            *selected == store.selected(),
            forall|j: int| 0 <= j < vis@.len() ==> #[trigger] vis@[j] < entries@.len(),
            out@.len() == k,
            forall|j: int|
                0 <= j < k ==> line_matches(
                    #[trigger] out@[j],
                    store.entries(),
                    store.expanded(),
                    store.hovered(),
                    store.selected(),
                    vis@[j],
                ),
        decreases vis@.len() - k,
    {
        let i = vis[k];
        let entry = &entries[i];
        let id = entry.kind.get_id();
        let is_hovered = match hovered {
            Some(h) => h == id,
            None => false,
        };
        let expanded = store.is_dir_expanded(id);
        let line = match &entry.kind {
            RequestKind::Nested(dir) => SidebarLine {
                index: i,
                level: entry.depth,
                is_dir: true,
                is_expanded: expanded,
                is_hovered,
                is_selected: false,
                text: directory_label(entry.depth, expanded, dir.name.as_str()),
            },
            RequestKind::Single(req) => SidebarLine {
                index: i,
                level: entry.depth,
                is_dir: false,
                is_expanded: false,
                is_hovered,
                is_selected: match selected {
                    Some(s) => s.id == id,
                    None => false,
                },
                text: request_label(entry.depth, req.method, req.name.as_str()),
            },
        };
        out.push(line);
        k = k + 1;
    }
    out
}

/// Focus and selection flags of the sidebar, and the lines it shows.
pub struct Sidebar {
    pub is_focused: bool,
    pub is_selected: bool,
    pub lines: Vec<SidebarLine>,
}

impl Sidebar {
    pub fn new(is_focused: bool, is_selected: bool, store: &CollectionStore) -> (r: Sidebar)
        ensures
            r.is_focused == is_focused,
            r.is_selected == is_selected,
            r.lines@.len() == visible(store.entries(), store.expanded()).len(),
            forall|k: int|
                0 <= k < r.lines@.len() ==> line_matches(
                    #[trigger] r.lines@[k],
                    store.entries(),
                    store.expanded(),
                    store.hovered(),
                    store.selected(),
                    visible(store.entries(), store.expanded())[k],
                ),
    {
        Sidebar { is_focused, is_selected, lines: build_lines(store) }
    }

    /// The sidebar is selected when the selected pane is the sidebar.
    pub fn maybe_select(&mut self, selected_pane: Option<&PaneFocus>)
        ensures
            final(self).is_selected == (selected_pane == Some(&PaneFocus::Sidebar)),
            final(self).is_focused == old(self).is_focused,
            final(self).lines == old(self).lines,
    {
        self.is_selected = match selected_pane {
            Some(PaneFocus::Sidebar) => true,
            _ => false,
        };
    }

    /// The sidebar is focused when the focused pane is the sidebar.
    pub fn maybe_focus(&mut self, focused_pane: &PaneFocus)
        ensures
            final(self).is_focused == (*focused_pane == PaneFocus::Sidebar),
            final(self).is_selected == old(self).is_selected,
            final(self).lines == old(self).lines,
    {
        self.is_focused = match focused_pane {
            PaneFocus::Sidebar => true,
            _ => false,
        };
    }

    /// Recomputes the lines from the store.
    pub fn rebuild_tree_view(&mut self, store: &CollectionStore)
        ensures
            final(self).is_focused == old(self).is_focused,
            final(self).is_selected == old(self).is_selected,
            final(self).lines@.len() == visible(store.entries(), store.expanded()).len(),
            forall|k: int|
                0 <= k < final(self).lines@.len() ==> line_matches(
                    #[trigger] final(self).lines@[k],
                    store.entries(),
                    store.expanded(),
                    store.hovered(),
                    store.selected(),
                    visible(store.entries(), store.expanded())[k],
                ),
    {
        self.lines = build_lines(store);
    }
}

/// The key makes the sidebar act on the store: Down or Up with an entry
/// hovered, or Enter with the hovered identifier present in the tree.
pub open spec fn dispatches(key: SidebarKey, store: CollectionStore) -> bool {
    ||| (key == SidebarKey::Down || key == SidebarKey::Up) && store.hovered() is Some
    ||| key == SidebarKey::Enter && store.hovered() is Some && exists|i: int|
        0 <= i < store.entries().len() && (#[trigger] store.entries()[i].kind).id_of()
            == store.hovered()->0
}

impl Sidebar {
    /// Acts on a key while the sidebar is selected. Enter flips the hovered
    /// directory or selects the hovered request; Down and Up move the hover;
    /// New and Quit are handed to the page. The lines are rebuilt when the
    /// store was acted on, and left as they were otherwise.
    pub fn handle_key_event(&mut self, key: SidebarKey, store: &mut CollectionStore) -> (r: Option<
        SidebarEvent,
    >)
        requires
            old(self).is_selected,
            old(store).wf(),
        ensures
            final(store).wf(),
            final(store).entries() == old(store).entries(),
            final(self).is_focused == old(self).is_focused,
            final(self).is_selected == old(self).is_selected,
            key == SidebarKey::Quit ==> r is Some && r->0 is Quit,
            key == SidebarKey::New ==> r is Some && r->0 is CreateRequest,
            key != SidebarKey::Quit && key != SidebarKey::New ==> r is None,
            key == SidebarKey::Quit || key == SidebarKey::New || key == SidebarKey::Other ==> {
                &&& final(store).hovered() == old(store).hovered()
                &&& final(store).selected() == old(store).selected()
                &&& final(store).expanded() == old(store).expanded()
                &&& final(self).lines == old(self).lines
            },
            key == SidebarKey::Down ==> {
                &&& final(store).hovered() == hover_next(
                    old(store).entries(),
                    old(store).expanded(),
                    old(store).hovered(),
                )
                &&& final(store).selected() == old(store).selected()
                &&& final(store).expanded() == old(store).expanded()
            },
            key == SidebarKey::Up ==> {
                &&& final(store).hovered() == hover_prev(
                    old(store).entries(),
                    old(store).expanded(),
                    old(store).hovered(),
                )
                &&& final(store).selected() == old(store).selected()
                &&& final(store).expanded() == old(store).expanded()
            },
            key == SidebarKey::Enter ==> final(store).hovered() == old(store).hovered(),
            key == SidebarKey::Enter && (old(store).hovered() is None || forall|i: int|
                0 <= i < old(store).entries().len() ==> (#[trigger] old(
                    store,
                ).entries()[i].kind).id_of() != old(store).hovered()->0) ==> {
                &&& final(store).selected() == old(store).selected()
                &&& final(store).expanded() == old(store).expanded()
            },
            key == SidebarKey::Enter ==> forall|i: int|
                0 <= i < old(store).entries().len() && old(store).hovered() == Some(
                    (#[trigger] old(store).entries()[i].kind).id_of(),
                ) ==> match old(store).entries()[i].kind {
                    RequestKind::Nested(d) => {
                        &&& final(store).selected() == old(store).selected()
                        &&& final(store).expanded() == toggled(old(store).expanded(), d.id)
                    },
                    RequestKind::Single(req) => {
                        &&& final(store).selected() == Some(req)
                        &&& final(store).expanded() == old(store).expanded()
                    },
                },
            !dispatches(key, *old(store)) ==> final(self).lines == old(self).lines,
            dispatches(key, *old(store)) ==> {
                &&& final(self).lines@.len() == visible(
                    final(store).entries(),
                    final(store).expanded(),
                ).len()
                &&& forall|k: int|
                    0 <= k < final(self).lines@.len() ==> line_matches(
                        #[trigger] final(self).lines@[k],
                        final(store).entries(),
                        final(store).expanded(),
                        final(store).hovered(),
                        final(store).selected(),
                        visible(final(store).entries(), final(store).expanded())[k],
                    )
            },
    {
        match key {
            SidebarKey::Quit => {
                return Some(SidebarEvent::Quit);
            },
            SidebarKey::New => {
                return Some(SidebarEvent::CreateRequest);
            },
            SidebarKey::Other => {
                return None;
            },
            SidebarKey::Down => {
                if store.get_hovered_request().is_none() {
                    return None;
                }
                store.dispatch(CollectionStoreAction::HoverNext);
            },
            SidebarKey::Up => {
                if store.get_hovered_request().is_none() {
                    return None;
                }
                store.dispatch(CollectionStoreAction::HoverPrev);
            },
            SidebarKey::Enter => {
                let action = match store.find_hovered_request() {
                    Some(entry) => match &entry.kind {
                        RequestKind::Nested(dir) => Some(
                            CollectionStoreAction::ToggleDirectory(dir.id),
                        ),
                        RequestKind::Single(req) => Some(
                            CollectionStoreAction::SetSelectedRequest(
                                Some(Request { id: req.id, name: req.name.clone(), method: req.method }),
                            ),
                        ),
                    },
                    None => None,
                };
                match action {
                    Some(action) => store.dispatch(action),
                    None => return None,
                }
            },
        }
        self.rebuild_tree_view(store);
        None
    }
}

/// What `str::to_lowercase` returns.
pub uninterp spec fn lower_of(s: Seq<char>) -> Seq<char>;

/// Relies on str::to_lowercase: the result depends on the characters alone.
#[verifier::external_body]
fn lowercase(s: &str) -> (r: String)
    ensures
        r@ == lower_of(s@),
{
    s.to_lowercase()
}

/// Relies on String::push: appends one character.
#[verifier::external_body]
fn push_char(s: &mut String, c: char)
    ensures
        final(s)@ == old(s)@.push(c),
{
    s.push(c)
}

/// `n` spaces.
pub open spec fn spaces(n: nat) -> Seq<char> {
    Seq::new(n, |_i: int| ' ')
}

/// `s` with every space turned into a dash.
pub open spec fn dashed(s: Seq<char>) -> Seq<char> {
    s.map_values(|c: char| if c == ' ' { '-' } else { c })
}

/// Label of a request method, padded to six characters.
pub open spec fn method_text(m: RequestMethod) -> Seq<char> {
    match m {
        RequestMethod::Get => seq!['G', 'E', 'T', ' ', ' ', ' '],
        RequestMethod::Post => seq!['P', 'O', 'S', 'T', ' ', ' '],
        RequestMethod::Put => seq!['P', 'U', 'T', ' ', ' ', ' '],
        RequestMethod::Patch => seq!['P', 'A', 'T', 'C', 'H', ' '],
        RequestMethod::Delete => seq!['D', 'E', 'L', 'E', 'T', 'E'],
    }
}

fn push_indent(s: &mut String, level: usize)
    ensures
        final(s)@ == old(s)@ + spaces(2 * level as nat),
{
    let mut i: usize = 0;
    while i < level
        invariant
            0 <= i <= level,
            s@ == old(s)@ + spaces(2 * i as nat),
        decreases level - i,
    {
        push_char(s, ' ');
        push_char(s, ' ');
        i = i + 1;
        assert(s@ =~= old(s)@ + spaces(2 * i as nat));
    }
}

fn push_seq(s: &mut String, t: &str, dash: bool)
    ensures
        final(s)@ == old(s)@ + if dash { dashed(t@) } else { t@ },
{
    let n = t.unicode_len();
    let mut i: usize = 0;
    while i < n
        invariant
            0 <= i <= n,
            n == t@.len(),
            s@ == old(s)@ + if dash { dashed(t@.take(i as int)) } else { t@.take(i as int) },
        decreases n - i,
    {
        let c = t.get_char(i);
        push_char(s, if dash && c == ' ' { '-' } else { c });
        assert(t@.take(i + 1) =~= t@.take(i as int).push(c));
        assert(dashed(t@.take(i + 1)) =~= dashed(t@.take(i as int)).push(if c == ' ' { '-' } else { c }));
        i = i + 1;
    }
    assert(t@.take(n as int) =~= t@);
}

/// The six-character label of a request method.
pub fn method_label(m: RequestMethod) -> (r: String)
    ensures
        r@ == method_text(m),
{
    let mut s = String::new();
    let cs: [char; 6] = match m {
        RequestMethod::Get => ['G', 'E', 'T', ' ', ' ', ' '],
        RequestMethod::Post => ['P', 'O', 'S', 'T', ' ', ' '],
        RequestMethod::Put => ['P', 'U', 'T', ' ', ' ', ' '],
        RequestMethod::Patch => ['P', 'A', 'T', 'C', 'H', ' '],
        RequestMethod::Delete => ['D', 'E', 'L', 'E', 'T', 'E'],
    };
    let mut i: usize = 0;
    while i < 6
        invariant
            0 <= i <= 6,
            cs@ == method_text(m),
            s@ == cs@.take(i as int),
        decreases 6 - i,
    {
        push_char(&mut s, cs[i]);
        assert(cs@.take(i + 1) =~= cs@.take(i as int).push(cs@[i as int]));
        i = i + 1;
    }
    assert(cs@.take(6) =~= cs@);
    s
}

/// Text of a directory line, from its already lowercased name: two spaces per
/// level, `v` if expanded or `>` if not, a space, the name with dashes for
/// spaces, and `/`.
pub fn directory_label_from_lower(level: usize, expanded: bool, lower: &str) -> (r: String)
    ensures
        r@ == spaces(2 * level as nat) + seq![if expanded { 'v' } else { '>' }, ' '] + dashed(
            lower@,
        ) + seq!['/'],
{
    let mut s = String::new();
    push_indent(&mut s, level);
    push_char(&mut s, if expanded { 'v' } else { '>' });
    push_char(&mut s, ' ');
    push_seq(&mut s, lower, true);
    push_char(&mut s, '/');
    assert(s@ =~= spaces(2 * level as nat) + seq![if expanded { 'v' } else { '>' }, ' '] + dashed(
        lower@,
    ) + seq!['/']);
    s
}

/// Text of a directory line: as `directory_label_from_lower`, on the name in
/// lower case.
pub fn directory_label(level: usize, expanded: bool, name: &str) -> (r: String)
    ensures
        r@ == spaces(2 * level as nat) + seq![if expanded { 'v' } else { '>' }, ' '] + dashed(
            lower_of(name@),
        ) + seq!['/'],
{
    let lower = lowercase(name);
    directory_label_from_lower(level, expanded, lower.as_str())
}

/// Text of a request line: two spaces per level, the method label, a space
/// and the name.
pub fn request_label(level: usize, method: RequestMethod, name: &str) -> (r: String)
    ensures
        r@ == spaces(2 * level as nat) + method_text(method) + seq![' '] + name@,
{
    let mut s = String::new();
    push_indent(&mut s, level);
    let m = method_label(method);
    push_seq(&mut s, m.as_str(), false);
    push_char(&mut s, ' ');
    push_seq(&mut s, name, false);
    assert(s@ =~= spaces(2 * level as nat) + method_text(method) + seq![' '] + name@);
    s
}

} // verus!
