//! Listings of the store: what a client sees of the items, and the order
//! and bounds of the list, gallery and search answers.

use crate::artifacts::{thumbnail_path, thumbnail_path_of};
use crate::error::ErrorKind;
use crate::model::{has_id, has_image, ImageView, item_by_id, ItemView, StoreView, valid};
use crate::store::{Item, Store};
use crate::text::{first_index, lemma_first_index_is};
use vstd::prelude::*;
use vstd::slice::slice_to_vec;

verus! {

/// What a client is shown of one item.
#[derive(Debug)]
pub struct ItemSummary {
    pub id: i64,
    pub title: Option<String>,
    pub body: Option<String>,
    pub created_at: i64,
    pub updated_at: i64,
    pub last_used: Option<i64>,
    pub starred: bool,
    pub hash: Option<String>,
    /// Whether an image record is attached.
    pub has_image: bool,
    /// The path of the thumbnail file, for an item with an image.
    pub thumbnail_path: Option<String>,
}

/// A summary as a mathematical value.
pub struct SummaryView {
    pub id: int,
    pub title: Option<Seq<char>>,
    pub body: Option<Seq<char>>,
    pub created_at: int,
    pub updated_at: int,
    pub last_used: Option<int>,
    pub starred: bool,
    pub hash: Option<Seq<char>>,
    pub has_image: bool,
    pub thumbnail_path: Option<Seq<char>>,
}

/// The text of an optional string.
pub open spec fn text_view(text: Option<String>) -> Option<Seq<char>> {
    match text {
        Some(t) => Some(t@),
        None => None,
    }
}

impl View for ItemSummary {
    type V = SummaryView;

    open spec fn view(&self) -> SummaryView {
        SummaryView {
            id: self.id as int,
            title: text_view(self.title),
            body: text_view(self.body),
            created_at: self.created_at as int,
            updated_at: self.updated_at as int,
            last_used: match self.last_used {
                Some(t) => Some(t as int),
                None => None,
            },
            starred: self.starred,
            hash: text_view(self.hash),
            has_image: self.has_image,
            thumbnail_path: text_view(self.thumbnail_path),
        }
    }
}

/// The views of a list of summaries.
pub open spec fn summary_views(rows: Seq<ItemSummary>) -> Seq<SummaryView> {
    Seq::new(rows.len(), |i: int| rows[i]@)
}

/// The summary of an item of the store: its fields, whether it owns an image
/// record, and for an item that does, the thumbnail path under the data
/// directory where that is known.
pub open spec fn summary_of(s: StoreView, item: ItemView) -> SummaryView {
    SummaryView {
        id: item.id,
        title: Some(item.title),
        body: Some(item.body),
        created_at: item.created_at,
        updated_at: item.updated_at,
        last_used: Some(item.last_used),
        starred: item.starred,
        hash: Some(item.hash),
        has_image: has_image(s, item.id),
        thumbnail_path: if has_image(s, item.id) && s.data_dir is Some {
            Some(thumbnail_path_of(s.data_dir->0, item.hash))
        } else {
            None
        },
    }
}

/// Which items a listing shows.
#[derive(Debug, Clone, Copy, PartialEq, Eq, Structural)]
pub enum Scope {
    /// Every item, pinned items first.
    All,
    /// Pinned items only.
    Starred,
    /// Items that own an image record.
    WithImage,
}

/// Whether a listing of this scope shows the item.
pub open spec fn in_scope(s: StoreView, scope: Scope, item: ItemView) -> bool {
    match scope {
        Scope::All => true,
        Scope::Starred => item.starred,
        Scope::WithImage => has_image(s, item.id),
    }
}

/// Whether `a` comes before `b` in a listing: in the listing of every item
/// a pinned item comes before one that is not; then the item used more
/// recently comes first; of two used at the same time, the one with the
/// smaller id.
pub open spec fn ranks_before(scope: Scope, a: ItemView, b: ItemView) -> bool {
    if scope == Scope::All && a.starred != b.starred {
        a.starred
    } else if a.last_used != b.last_used {
        a.last_used > b.last_used
    } else {
        a.id < b.id
    }
}

/// Whether the positions `picks` are those of a listing of at most `limit`
/// items: each is the position of an item in scope; they stand in listing
/// order; and an item in scope is left out only where the listing is full,
/// and then it comes after every item shown.
pub open spec fn is_selection(s: StoreView, scope: Scope, limit: int, picks: Seq<int>) -> bool {
    &&& picks.len() <= limit
    &&& forall|k: int|
        0 <= k < picks.len() ==> 0 <= #[trigger] picks[k] < s.items.len() && in_scope(
            s,
            scope,
            s.items[picks[k]],
        )
    &&& forall|j: int, k: int|
        0 <= j < k < picks.len() ==> ranks_before(
            scope,
            s.items[#[trigger] picks[j]],
            s.items[#[trigger] picks[k]],
        )
    &&& forall|i: int|
        0 <= i < s.items.len() && in_scope(s, scope, #[trigger] s.items[i]) && !picks.contains(i)
            ==> picks.len() == limit && forall|k: int|
            0 <= k < picks.len() ==> ranks_before(scope, s.items[#[trigger] picks[k]], s.items[i])
}

/// The summaries of the items at the given positions.
pub open spec fn summaries_at(s: StoreView, picks: Seq<int>) -> Seq<SummaryView> {
    Seq::new(picks.len(), |k: int| summary_of(s, s.items[picks[k]]))
}

/// Whether `rows` is the listing of `scope` with at most `limit` items: the
/// summaries of the first `limit` items in scope, in listing order.
pub open spec fn is_listing(
    s: StoreView,
    scope: Scope,
    limit: int,
    rows: Seq<SummaryView>,
) -> bool {
    exists|picks: Seq<int>| #[trigger]
        is_selection(s, scope, limit, picks) && rows == summaries_at(s, picks)
}

/// The scope of the list command: pinned items only, or every item.
pub open spec fn list_scope(starred_only: bool) -> Scope {
    if starred_only {
        Scope::Starred
    } else {
        Scope::All
    }
}

/// The summaries of the items that the ids name, in the order of the ids;
/// an id that no item has is passed over.
pub open spec fn found_rows(s: StoreView, ids: Seq<i64>) -> Seq<SummaryView>
    decreases ids.len(),
{
    if ids.len() == 0 {
        Seq::empty()
    } else if has_id(s, ids.last() as int) {
        found_rows(s, ids.drop_last()).push(summary_of(s, item_by_id(s, ids.last() as int)))
    } else {
        found_rows(s, ids.drop_last())
    }
}

/// The first `limit` elements of a sequence, or all of it where it is
/// shorter.
pub open spec fn at_most<T>(rows: Seq<T>, limit: int) -> Seq<T> {
    if rows.len() > limit {
        rows.take(limit)
    } else {
        rows
    }
}

/// What the copy command puts on the clipboard.
#[derive(Debug)]
pub enum CopyPayload {
    /// The bytes of an image record, with their MIME type.
    Image { mime: String, bytes: Vec<u8> },
    /// The text of an item.
    Text { body: String },
}

/// A copy payload as a mathematical value.
pub enum PayloadView {
    Image { mime: Seq<char>, bytes: Seq<u8> },
    Text { body: Seq<char> },
}

impl View for CopyPayload {
    type V = PayloadView;

    open spec fn view(&self) -> PayloadView {
        match self {
            CopyPayload::Image { mime, bytes } => PayloadView::Image { mime: mime@, bytes: bytes@ },
            CopyPayload::Text { body } => PayloadView::Text { body: body@ },
        }
    }
}

/// The owners of the image records, in store order.
pub open spec fn owners_of(s: StoreView) -> Seq<int> {
    Seq::new(s.images.len(), |k: int| s.images[k].item_id)
}

/// The first image record of an item; meaningful where it owns one.
pub open spec fn first_image_of(s: StoreView, id: int) -> ImageView {
    s.images[first_index(owners_of(s), id)]
}

/// What copying the item with this id puts on the clipboard: its first
/// image record where it owns one, else its text; nothing where neither
/// an image record nor an item carries the id.
pub open spec fn payload_of(s: StoreView, id: int) -> Option<PayloadView> {
    if has_image(s, id) {
        Some(
            PayloadView::Image {
                mime: first_image_of(s, id).mime,
                bytes: first_image_of(s, id).bytes,
            },
        )
    } else if has_id(s, id) {
        Some(PayloadView::Text { body: item_by_id(s, id).body })
    } else {
        None
    }
}

/// Positions as mathematical integers.
pub open spec fn positions(picks: Seq<usize>) -> Seq<int> {
    Seq::new(picks.len(), |k: int| picks[k] as int)
}

/// Whether the item at position `i` may still be shown after the picks made
/// so far: it comes after the last of them.
pub open spec fn comes_next(s: StoreView, scope: Scope, picks: Seq<int>, i: int) -> bool {
    picks.len() == 0 || ranks_before(scope, s.items[picks.last()], s.items[i])
}

/// Two selections of the same scope and limit agree at every position that
/// both have.
pub proof fn lemma_selection_agrees(
    s: StoreView,
    scope: Scope,
    limit: int,
    p: Seq<int>,
    q: Seq<int>,
    k: int,
)
    requires
        valid(s),
        is_selection(s, scope, limit, p),
        is_selection(s, scope, limit, q),
        0 <= k < p.len(),
        k < q.len(),
    ensures
        p[k] == q[k],
    decreases k,
{
    assert forall|j: int| 0 <= j < k implies p[j] == q[j] by {
        lemma_selection_agrees(s, scope, limit, p, q, j);
    }
}

/// The listing of a scope with a limit is determined: two selections are
/// the same positions, and two listings the same rows.
pub proof fn lemma_listing_unique(
    s: StoreView,
    scope: Scope,
    limit: int,
    first: Seq<SummaryView>,
    second: Seq<SummaryView>,
)
    requires
        valid(s),
        is_listing(s, scope, limit, first),
        is_listing(s, scope, limit, second),
    ensures
        first == second,
{
    let p = choose|p: Seq<int>| #[trigger]
        is_selection(s, scope, limit, p) && first == summaries_at(s, p);
    let q = choose|q: Seq<int>| #[trigger]
        is_selection(s, scope, limit, q) && second == summaries_at(s, q);
    lemma_selection_unique(s, scope, limit, p, q);
}

/// Two selections of the same scope and limit are the same positions.
pub proof fn lemma_selection_unique(
    s: StoreView,
    scope: Scope,
    limit: int,
    p: Seq<int>,
    q: Seq<int>,
)
    requires
        valid(s),
        is_selection(s, scope, limit, p),
        is_selection(s, scope, limit, q),
    ensures
        p == q,
{
    assert forall|k: int| 0 <= k < p.len() && k < q.len() implies p[k] == q[k] by {
        lemma_selection_agrees(s, scope, limit, p, q, k);
    }
    if p.len() < q.len() {
        lemma_longer(s, scope, limit, p, q);
    } else if q.len() < p.len() {
        lemma_longer(s, scope, limit, q, p);
    }
}

/// Of two selections that agree where both have a position, the second is
/// no longer than the first.
proof fn lemma_longer(s: StoreView, scope: Scope, limit: int, p: Seq<int>, q: Seq<int>)
    requires
        is_selection(s, scope, limit, p),
        is_selection(s, scope, limit, q),
        forall|k: int| 0 <= k < p.len() && k < q.len() ==> p[k] == q[k],
    ensures
        q.len() <= p.len(),
{
    if p.len() < q.len() {
        // The item that `q` holds just past the end of `p` is not in `p`,
        // so `p` is full, and `q` cannot be longer.
        let extra = q[p.len() as int];
        assert(!p.contains(extra));
    }
}

fn goes_before(scope: Scope, a: &Item, b: &Item) -> (yes: bool)
    ensures
        yes == ranks_before(scope, a@, b@),
{
    let by_pin = match scope {
        Scope::All => true,
        _ => false,
    };
    if by_pin && a.starred != b.starred {
        a.starred
    } else if a.last_used != b.last_used {
        a.last_used > b.last_used
    } else {
        a.id < b.id
    }
}

impl Store {
    /// Whether a listing of this scope shows the item at a position.
    pub fn shows(&self, scope: Scope, at: usize) -> (yes: bool)
        requires
            at < self@.items.len(),
        ensures
            yes == in_scope(self@, scope, self@.items[at as int]),
    {
        let item = self.item_at(at);
        match scope {
            Scope::All => true,
            Scope::Starred => item.starred,
            Scope::WithImage => self.owns_image(item.id),
        }
    }

    /// The positions of the first `limit` items of a scope, in listing
    /// order.
    pub fn select(&self, scope: Scope, limit: usize) -> (out: Vec<usize>)
        requires
            self.well_formed(),
        ensures
            is_selection(self@, scope, limit as int, positions(out@)),
            forall|k: int| 0 <= k < out@.len() ==> #[trigger] out@[k] < self@.items.len(),
    {
        let n = self.len();
        let mut out: Vec<usize> = Vec::new();
        let mut exhausted = false;
        while out.len() < limit && !exhausted
            invariant
                valid(self@),
                n == self@.items.len(),
                out@.len() <= limit,
                forall|k: int|
                    0 <= k < out@.len() ==> 0 <= #[trigger] positions(out@)[k] < n && in_scope(
                        self@,
                        scope,
                        self@.items[positions(out@)[k]],
                    ),
                forall|j: int, k: int|
                    0 <= j < k < out@.len() ==> ranks_before(
                        scope,
                        self@.items[#[trigger] positions(out@)[j]],
                        self@.items[#[trigger] positions(out@)[k]],
                    ),
                forall|i: int|
                    0 <= i < n && in_scope(self@, scope, #[trigger] self@.items[i]) && !positions(
                        out@,
                    ).contains(i) ==> !exhausted && forall|k: int|
                        0 <= k < out@.len() ==> ranks_before(
                            scope,
                            self@.items[#[trigger] positions(out@)[k]],
                            self@.items[i],
                        ),
            decreases limit - out@.len() + (if exhausted { 0int } else { 1int }),
        {
            let ghost picks = positions(out@);
            let mut best: usize = n;
            let mut i: usize = 0;
            while i < n
                invariant
                    valid(self@),
                    n == self@.items.len(),
                    picks == positions(out@),
                    forall|k: int|
                        0 <= k < picks.len() ==> 0 <= #[trigger] picks[k] < n,
                    i <= n,
                    best <= n,
                    best < n ==> best < i && in_scope(self@, scope, self@.items[best as int])
                        && comes_next(self@, scope, picks, best as int),
                    forall|j: int|
                        0 <= j < i && in_scope(self@, scope, #[trigger] self@.items[j])
                            && comes_next(self@, scope, picks, j) ==> best < n && (j == best
                            || ranks_before(scope, self@.items[best as int], self@.items[j])),
                decreases n - i,
            {
                if self.shows(scope, i) {
                    let next = out.len() == 0 || {
                        assert(0 <= picks[picks.len() - 1] < n);
                        goes_before(scope, self.item_at(out[out.len() - 1]), self.item_at(i))
                    };
                    if next {
                        if best == n || goes_before(scope, self.item_at(i), self.item_at(best)) {
                            best = i;
                        }
                    }
                }
                i += 1;
            }
            if best == n {
                exhausted = true;
            } else {
                out.push(best);
                proof {
                    let grown = positions(out@);
                    assert forall|j: int, k: int| 0 <= j < k < grown.len() implies ranks_before(
                        scope,
                        self@.items[#[trigger] grown[j]],
                        self@.items[#[trigger] grown[k]],
                    ) by {
                        if k == picks.len() {
                        } else {
                            assert(grown[j] == picks[j] && grown[k] == picks[k]);
                        }
                    }
                    assert forall|i: int|
                        0 <= i < n && in_scope(self@, scope, #[trigger] self@.items[i])
                            && !grown.contains(i) implies forall|k: int|
                        0 <= k < grown.len() ==> ranks_before(
                            scope,
                            self@.items[#[trigger] grown[k]],
                            self@.items[i],
                        ) by {
                        assert(grown[picks.len() as int] == best);
                        if picks.contains(i) {
                            let k = choose|k: int| 0 <= k < picks.len() && picks[k] == i;
                            assert(grown[k] == i);
                        }
                    }
                    assert forall|k: int| 0 <= k < grown.len() implies 0 <= #[trigger] grown[k] < n
                        && in_scope(self@, scope, self@.items[grown[k]]) by {
                        if k < picks.len() {
                            assert(grown[k] == picks[k]);
                        }
                    }
                }
            }
        }
        assert forall|k: int| 0 <= k < out@.len() implies #[trigger] out@[k] < self@.items.len() by {
            assert(positions(out@)[k] == out@[k]);
        }
        out
    }

    /// The summaries of the items at the given positions.
    pub fn summaries(&self, picks: &Vec<usize>) -> (rows: Vec<ItemSummary>)
        requires
            forall|k: int| 0 <= k < picks@.len() ==> picks@[k] < self@.items.len(),
        ensures
            summary_views(rows@) == summaries_at(self@, positions(picks@)),
    {
        let mut rows: Vec<ItemSummary> = Vec::new();
        let mut k: usize = 0;
        while k < picks.len()
            invariant
                k <= picks.len(),
                rows@.len() == k,
                forall|j: int| 0 <= j < picks@.len() ==> picks@[j] < self@.items.len(),
                forall|j: int|
                    0 <= j < k ==> (#[trigger] rows@[j])@ == summary_of(
                        self@,
                        self@.items[picks@[j] as int],
                    ),
            decreases picks.len() - k,
        {
            rows.push(self.summary_at(picks[k]));
            k += 1;
        }
        rows
    }

    /// Lists items. Unfiltered, pinned items come first and within each
    /// group the most recently used; with `starred_only`, only pinned items
    /// are shown, the most recently used first. At most `limit` items are
    /// shown, none where `limit` is zero.
    pub fn list(&self, limit: u32, starred_only: bool) -> (rows: Vec<ItemSummary>)
        requires
            self.well_formed(),
        ensures
            is_listing(self@, list_scope(starred_only), limit as int, summary_views(rows@)),
    {
        let scope = if starred_only {
            Scope::Starred
        } else {
            Scope::All
        };
        let picks = self.select(scope, limit as usize);
        let rows = self.summaries(&picks);
        rows
    }

    /// Lists the items that own an image record, the most recently used
    /// first, at most `limit` of them.
    pub fn gallery(&self, limit: u32) -> (rows: Vec<ItemSummary>)
        requires
            self.well_formed(),
        ensures
            is_listing(self@, Scope::WithImage, limit as int, summary_views(rows@)),
    {
        let picks = self.select(Scope::WithImage, limit as usize);
        let rows = self.summaries(&picks);
        rows
    }

    /// The answer to a search: the summaries of the items that the
    /// full-text index named, in the order of their rank, at most `limit` of
    /// them. An id that the store no longer holds is passed over.
    pub fn search_results(&self, ranked_ids: &[i64], limit: u32) -> (rows: Vec<ItemSummary>)
        ensures
            summary_views(rows@) == at_most(found_rows(self@, ranked_ids@), limit as int),
    {
        let mut rows: Vec<ItemSummary> = Vec::new();
        let mut k: usize = 0;
        while k < ranked_ids.len()
            invariant
                k <= ranked_ids.len(),
                summary_views(rows@) == found_rows(self@, ranked_ids@.take(k as int)),
            decreases ranked_ids.len() - k,
        {
            assert(ranked_ids@.take(k + 1).drop_last() == ranked_ids@.take(k as int));
            let at = self.position_of(ranked_ids[k]);
            if at < self.len() {
                rows.push(self.summary_at(at));
            }
            k += 1;
        }
        assert(ranked_ids@.take(k as int) == ranked_ids@);
        if rows.len() > limit as usize {
            rows.truncate(limit as usize);
        }
        rows
    }

    /// What copying the item with this id puts on the clipboard. Fails with
    /// `NotFound` where the id names neither an image record nor an item.
    pub fn copy_payload(&self, id: i64) -> (result: Result<CopyPayload, ErrorKind>)
        ensures
            match result {
                Ok(payload) => payload_of(self@, id as int) == Some(payload@),
                Err(kind) => kind == ErrorKind::NotFound && payload_of(self@, id as int) is None,
            },
    {
        let k = self.image_position(id);
        if k < self.image_count() {
            proof {
                lemma_first_index_is(owners_of(self@), id as int, k as int);
            }
            let image = self.image_at(k);
            return Ok(
                CopyPayload::Image {
                    mime: image.mime.clone(),
                    bytes: slice_to_vec(image.bytes.as_slice()),
                },
            );
        }
        let at = self.position_of(id);
        if at < self.len() {
            return Ok(CopyPayload::Text { body: self.item_at(at).body.clone() });
        }
        Err(ErrorKind::NotFound)
    }

    /// The summary of the item at a position.
    pub fn summary_at(&self, at: usize) -> (row: ItemSummary)
        requires
            at < self@.items.len(),
        ensures
            row@ == summary_of(self@, self@.items[at as int]),
    {
        let item = self.item_at(at);
        let has_image = self.owns_image(item.id);
        let thumbnail_path = if has_image {
            match self.data_dir() {
                Some(dir) => Some(thumbnail_path(dir.as_str(), item.hash.as_str())),
                None => None,
            }
        } else {
            None
        };
        ItemSummary {
            id: item.id,
            title: Some(item.title.clone()),
            body: Some(item.body.clone()),
            created_at: item.created_at,
            updated_at: item.updated_at,
            last_used: Some(item.last_used),
            starred: item.starred,
            hash: Some(item.hash.clone()),
            has_image,
            thumbnail_path,
        }
    }
}

} // verus!
