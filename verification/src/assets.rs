use vstd::prelude::*;
use vstd::string::StringExecFns;

verus! {

/// An asset as a plain value: its creation time in milliseconds since the
/// epoch, and its file name.
pub type AssetView = (u64, Seq<char>);

/// The plain view of a list of `(created, filename)` pairs.
pub open spec fn pairs_view(v: Seq<(u64, String)>) -> Seq<AssetView> {
    v.map_values(|p: (u64, String)| (p.0, p.1@))
}

/// Creation times strictly increase along the sequence: the list is sorted by
/// creation time and no creation time occurs twice.
pub open spec fn strictly_sorted(s: Seq<AssetView>) -> bool {
    forall|i: int, j: int| 0 <= i < j < s.len() ==> #[trigger] s[i].0 < #[trigger] s[j].0
}

/// Whether some asset of `s` was created at `created`.
pub open spec fn has_created(s: Seq<AssetView>, created: u64) -> bool {
    exists|i: int| 0 <= i < s.len() && #[trigger] s[i].0 == created
}

/// The assets of `s` as a map from creation time to file name.
pub open spec fn as_map(s: Seq<AssetView>) -> Map<u64, Seq<char>> {
    Map::new(
        |k: u64| has_created(s, k),
        |k: u64| s[choose|i: int| 0 <= i < s.len() && #[trigger] s[i].0 == k].1,
    )
}

/// The assets after a scan of the asset directory: the scanned entries are
/// taken in order, and one is added only if no asset, old or just added, has
/// its creation time.
pub open spec fn merge_scanned(m: Map<u64, Seq<char>>, scanned: Seq<AssetView>) -> Map<u64, Seq<char>>
    decreases scanned.len(),
{
    if scanned.len() == 0 {
        m
    } else {
        let before = merge_scanned(m, scanned.drop_last());
        let e = scanned.last();
        if before.dom().contains(e.0) {
            before
        } else {
            before.insert(e.0, e.1)
        }
    }
}

/// Whether some asset of `s` has the file name `name`.
pub open spec fn filename_known(s: Seq<AssetView>, name: Seq<char>) -> bool {
    exists|i: int| 0 <= i < s.len() && #[trigger] s[i].1 == name
}

/// The scanned entries that a scan adds, in the order they were scanned.
pub open spec fn added_entries(m: Map<u64, Seq<char>>, scanned: Seq<AssetView>) -> Seq<AssetView>
    decreases scanned.len(),
{
    if scanned.len() == 0 {
        Seq::empty()
    } else {
        let before = added_entries(m, scanned.drop_last());
        if merge_scanned(m, scanned.drop_last()).dom().contains(scanned.last().0) {
            before
        } else {
            before.push(scanned.last())
        }
    }
}

/// No creation time occurs twice in the sequence.
pub open spec fn keys_unique(s: Seq<AssetView>) -> bool {
    forall|i: int, j: int| 0 <= i < s.len() && 0 <= j < s.len() && i != j ==> #[trigger] s[i].0 != #[trigger] s[j].0
}

/// The address at which an asset is served.
pub open spec fn asset_url(host: Seq<char>, filename: Seq<char>) -> Seq<char> {
    "https://"@ + host + "/"@ + filename
}

/// One line of the asset listing.
pub struct AssetEntry {
    pub created: u64,
    pub filename: String,
    pub url: String,
}

/// The known assets, kept sorted by creation time, one per creation time.
pub struct AssetList {
    items: Vec<(u64, String)>,
}

impl View for AssetList {
    type V = Seq<AssetView>;

    closed spec fn view(&self) -> Seq<AssetView> {
        pairs_view(self.items@)
    }
}

proof fn lemma_map_at(s: Seq<AssetView>, i: int)
    requires
        strictly_sorted(s),
        0 <= i < s.len(),
    ensures
        as_map(s).dom().contains(s[i].0),
        as_map(s)[s[i].0] == s[i].1,
{
    assert(has_created(s, s[i].0));
    let j = choose|j: int| 0 <= j < s.len() && #[trigger] s[j].0 == s[i].0;
    if j < i {
        assert(s[j].0 < s[i].0);
    } else if i < j {
        assert(s[i].0 < s[j].0);
    }
}

proof fn lemma_insert_sorted(s: Seq<AssetView>, pos: int, e: AssetView)
    requires
        strictly_sorted(s),
        0 <= pos <= s.len(),
        forall|j: int| 0 <= j < pos ==> #[trigger] s[j].0 < e.0,
        forall|j: int| pos <= j < s.len() ==> e.0 < #[trigger] s[j].0,
    ensures
        strictly_sorted(s.insert(pos, e)),
        as_map(s.insert(pos, e)) == as_map(s).insert(e.0, e.1),
{
    let t = s.insert(pos, e);
    assert forall|i: int, j: int| 0 <= i < j < t.len() implies #[trigger] t[i].0 < #[trigger] t[j].0 by {
        if i < pos {
            if j < pos {
                assert(s[i].0 < s[j].0);
            } else if j > pos {
                assert(s[i].0 < s[j - 1].0);
            }
        } else if i == pos {
            assert(t[j] == s[j - 1]);
        } else {
            assert(s[i - 1].0 < s[j - 1].0);
        }
    }
    let m = as_map(s).insert(e.0, e.1);
    assert forall|k: u64| #[trigger] as_map(t).dom().contains(k) <==> m.dom().contains(k) by {
        if as_map(t).dom().contains(k) {
            let i = choose|i: int| 0 <= i < t.len() && #[trigger] t[i].0 == k;
            if i < pos {
                assert(s[i].0 == k);
                assert(has_created(s, k));
            } else if i > pos {
                assert(s[i - 1].0 == k);
                assert(has_created(s, k));
            }
        }
        if m.dom().contains(k) {
            if k == e.0 {
                assert(t[pos].0 == k);
            } else {
                let i = choose|i: int| 0 <= i < s.len() && #[trigger] s[i].0 == k;
                if i < pos {
                    assert(t[i].0 == k);
                } else {
                    assert(t[i + 1].0 == k);
                }
            }
        }
    }
    assert forall|k: u64| #[trigger] as_map(t).dom().contains(k) implies as_map(t)[k] == m[k] by {
        let i = choose|i: int| 0 <= i < t.len() && #[trigger] t[i].0 == k;
        lemma_map_at(t, i);
        if i < pos {
            lemma_map_at(s, i);
        } else if i > pos {
            lemma_map_at(s, i - 1);
        }
    }
    assert(as_map(t) =~= m);
}

proof fn lemma_sorted_unique(s: Seq<AssetView>)
    requires
        strictly_sorted(s),
    ensures
        keys_unique(s),
{
    assert forall|i: int, j: int| 0 <= i < s.len() && 0 <= j < s.len() && i != j implies #[trigger] s[i].0 != #[trigger] s[j].0 by {
        if i < j {
            assert(s[i].0 < s[j].0);
        } else {
            assert(s[j].0 < s[i].0);
        }
    }
}

proof fn lemma_unique_at(s: Seq<AssetView>, i: int)
    requires
        keys_unique(s),
        0 <= i < s.len(),
    ensures
        as_map(s).dom().contains(s[i].0),
        as_map(s)[s[i].0] == s[i].1,
{
    assert(has_created(s, s[i].0));
    let j = choose|j: int| 0 <= j < s.len() && #[trigger] s[j].0 == s[i].0;
    assert(i == j);
}

proof fn lemma_push_unique(s: Seq<AssetView>, e: AssetView)
    requires
        keys_unique(s),
        !has_created(s, e.0),
    ensures
        keys_unique(s.push(e)),
        as_map(s.push(e)) == as_map(s).insert(e.0, e.1),
{
    let t = s.push(e);
    assert forall|a: int, b: int| 0 <= a < t.len() && 0 <= b < t.len() && a != b implies #[trigger] t[a].0 != #[trigger] t[b].0 by {
        if a < s.len() && b < s.len() {
            assert(t[a].0 == s[a].0 && t[b].0 == s[b].0);
        } else if a < s.len() {
            assert(t[a].0 == s[a].0);
        } else {
            assert(t[b].0 == s[b].0);
        }
    }
    let m = as_map(s).insert(e.0, e.1);
    assert forall|q: u64| #[trigger] as_map(t).dom().contains(q) <==> m.dom().contains(q) by {
        if as_map(t).dom().contains(q) {
            let a = choose|a: int| 0 <= a < t.len() && #[trigger] t[a].0 == q;
            if a < s.len() {
                assert(s[a].0 == q);
                assert(has_created(s, q));
            }
        }
        if m.dom().contains(q) && q != e.0 {
            let a = choose|a: int| 0 <= a < s.len() && #[trigger] s[a].0 == q;
            assert(t[a].0 == q);
        }
        if q == e.0 {
            assert(t[s.len() as int].0 == q);
        }
    }
    assert forall|q: u64| #[trigger] as_map(t).dom().contains(q) implies as_map(t)[q] == m[q] by {
        let a = choose|a: int| 0 <= a < t.len() && #[trigger] t[a].0 == q;
        lemma_unique_at(t, a);
        if a < s.len() {
            lemma_unique_at(s, a);
        }
    }
    assert(as_map(t) =~= m);
}

proof fn lemma_remove_unique(s: Seq<AssetView>, i: int)
    requires
        keys_unique(s),
        0 <= i < s.len(),
    ensures
        keys_unique(s.remove(i)),
        as_map(s.remove(i)) == as_map(s).remove(s[i].0),
{
    let t = s.remove(i);
    assert forall|a: int, b: int| 0 <= a < t.len() && 0 <= b < t.len() && a != b implies #[trigger] t[a].0 != #[trigger] t[b].0 by {
        let sa = if a < i { a } else { a + 1 };
        let sb = if b < i { b } else { b + 1 };
        assert(t[a] == s[sa] && t[b] == s[sb]);
    }
    let m = as_map(s).remove(s[i].0);
    assert forall|q: u64| #[trigger] as_map(t).dom().contains(q) <==> m.dom().contains(q) by {
        if as_map(t).dom().contains(q) {
            let a = choose|a: int| 0 <= a < t.len() && #[trigger] t[a].0 == q;
            let sa = if a < i { a } else { a + 1 };
            assert(s[sa].0 == q);
            assert(has_created(s, q));
        }
        if m.dom().contains(q) {
            let a = choose|a: int| 0 <= a < s.len() && #[trigger] s[a].0 == q;
            assert(a != i);
            let ta = if a < i { a } else { a - 1 };
            assert(t[ta].0 == q);
        }
    }
    assert forall|q: u64| #[trigger] as_map(t).dom().contains(q) implies as_map(t)[q] == m[q] by {
        let a = choose|a: int| 0 <= a < t.len() && #[trigger] t[a].0 == q;
        let sa = if a < i { a } else { a + 1 };
        lemma_unique_at(t, a);
        lemma_unique_at(s, sa);
    }
    assert(as_map(t) =~= m);
}

/// Two lists, each with no creation time twice, that give each creation time
/// the same file name hold the same entries.
pub proof fn lemma_same_map_same_entries(s: Seq<AssetView>, t: Seq<AssetView>)
    requires
        keys_unique(s),
        keys_unique(t),
        as_map(s) == as_map(t),
    ensures
        s.to_multiset() == t.to_multiset(),
    decreases t.len(),
{
    broadcast use vstd::seq_lib::group_to_multiset_ensures;
    if t.len() == 0 {
        if s.len() > 0 {
            lemma_unique_at(s, 0);
        }
        assert(s =~= t);
    } else {
        let l = t.len() - 1;
        let e = t[l];
        lemma_unique_at(t, l);
        let i = choose|i: int| 0 <= i < s.len() && #[trigger] s[i].0 == e.0;
        lemma_unique_at(s, i);
        assert(s[i] == e);
        lemma_remove_unique(s, i);
        lemma_remove_unique(t, l);
        assert(t.remove(l) =~= t.drop_last());
        lemma_same_map_same_entries(s.remove(i), t.drop_last());
        assert(t =~= t.drop_last().push(e));
        assert(s.remove(i).to_multiset() == s.to_multiset().remove(e));
        assert(s.to_multiset().count(e) > 0) by {
            assert(s.contains(e));
        }
        assert(s.to_multiset() =~= s.to_multiset().remove(e).insert(e));
    }
}

/// The assets before a scan followed by the entries it adds, with no creation
/// time twice, give each creation time the file name the scan leaves it with.
pub proof fn lemma_added_entries(old: Seq<AssetView>, scanned: Seq<AssetView>)
    requires
        keys_unique(old),
    ensures
        keys_unique(old + added_entries(as_map(old), scanned)),
        as_map(old + added_entries(as_map(old), scanned)) == merge_scanned(as_map(old), scanned),
    decreases scanned.len(),
{
    if scanned.len() == 0 {
        assert(old + added_entries(as_map(old), scanned) =~= old);
    } else {
        let s2 = scanned.drop_last();
        lemma_added_entries(old, s2);
        let before = old + added_entries(as_map(old), s2);
        let e = scanned.last();
        if !merge_scanned(as_map(old), s2).dom().contains(e.0) {
            assert(old + added_entries(as_map(old), scanned) =~= before.push(e));
            lemma_push_unique(before, e);
        }
    }
}

/// A scan keeps every asset as it was and adds the scanned entries whose
/// creation time is new, the first of each: the list after it holds exactly
/// the old assets and those entries.
pub proof fn lemma_sync_keeps_and_adds(old: Seq<AssetView>, new: Seq<AssetView>, scanned: Seq<AssetView>)
    requires
        strictly_sorted(old),
        strictly_sorted(new),
        as_map(new) == merge_scanned(as_map(old), scanned),
    ensures
        new.to_multiset() == (old + added_entries(as_map(old), scanned)).to_multiset(),
{
    lemma_sorted_unique(old);
    lemma_sorted_unique(new);
    lemma_added_entries(old, scanned);
    lemma_same_map_same_entries(new, old + added_entries(as_map(old), scanned));
}

/// A list sorted by creation time, with no creation time twice, is determined
/// by which file name each creation time carries.
pub proof fn lemma_sorted_list_is_determined(a: Seq<AssetView>, b: Seq<AssetView>)
    requires
        strictly_sorted(a),
        strictly_sorted(b),
        as_map(a) == as_map(b),
    ensures
        a == b,
    decreases a.len() + b.len(),
{
    if a.len() == 0 {
        if b.len() > 0 {
            lemma_map_at(b, 0);
        }
        assert(a =~= b);
    } else if b.len() == 0 {
        lemma_map_at(a, 0);
    } else {
        let la = a.len() - 1;
        let lb = b.len() - 1;
        lemma_map_at(a, la);
        lemma_map_at(b, lb);
        let ka = a[la].0;
        let kb = b[lb].0;
        let ia = choose|i: int| 0 <= i < a.len() && #[trigger] a[i].0 == kb;
        let ib = choose|i: int| 0 <= i < b.len() && #[trigger] b[i].0 == ka;
        if ia < la {
            assert(a[ia].0 < a[la].0);
        }
        if ib < lb {
            assert(b[ib].0 < b[lb].0);
        }
        assert(ka == kb);
        let a2 = a.drop_last();
        let b2 = b.drop_last();
        assert forall|i: int, j: int| 0 <= i < j < a2.len() implies #[trigger] a2[i].0 < #[trigger] a2[j].0 by {
            assert(a[i].0 < a[j].0);
        }
        assert forall|i: int, j: int| 0 <= i < j < b2.len() implies #[trigger] b2[i].0 < #[trigger] b2[j].0 by {
            assert(b[i].0 < b[j].0);
        }
        assert forall|k: u64| #[trigger] as_map(a2).dom().contains(k) <==> as_map(b2).dom().contains(k) by {
            if as_map(a2).dom().contains(k) {
                let i = choose|i: int| 0 <= i < a2.len() && #[trigger] a2[i].0 == k;
                assert(a[i].0 < a[la].0);
                lemma_map_at(a, i);
                let j = choose|j: int| 0 <= j < b.len() && #[trigger] b[j].0 == k;
                assert(j != lb);
                assert(b2[j].0 == k);
            }
            if as_map(b2).dom().contains(k) {
                let i = choose|i: int| 0 <= i < b2.len() && #[trigger] b2[i].0 == k;
                assert(b[i].0 < b[lb].0);
                lemma_map_at(b, i);
                let j = choose|j: int| 0 <= j < a.len() && #[trigger] a[j].0 == k;
                assert(j != la);
                assert(a2[j].0 == k);
            }
        }
        assert forall|k: u64| #[trigger] as_map(a2).dom().contains(k) implies as_map(a2)[k] == as_map(b2)[k] by {
            let i = choose|i: int| 0 <= i < a2.len() && #[trigger] a2[i].0 == k;
            let j = choose|j: int| 0 <= j < b2.len() && #[trigger] b2[j].0 == k;
            lemma_map_at(a2, i);
            lemma_map_at(b2, j);
            lemma_map_at(a, i);
            lemma_map_at(b, j);
        }
        assert(as_map(a2) =~= as_map(b2));
        lemma_sorted_list_is_determined(a2, b2);
        assert(a =~= a2.push(a[la]));
        assert(b =~= b2.push(b[lb]));
    }
}

impl AssetList {
    #[verifier::type_invariant]
    spec fn sorted(self) -> bool {
        strictly_sorted(self@)
    }

    /// An empty list.
    pub fn new() -> (l: AssetList)
        ensures
            l@ == Seq::<AssetView>::empty(),
    {
        let l = AssetList { items: Vec::new() };
        assert(l@ =~= Seq::<AssetView>::empty());
        l
    }

    /// The number of assets.
    pub fn len(&self) -> (n: usize)
        ensures
            n == self@.len(),
    {
        self.items.len()
    }

    /// Whether an asset with this file name is known.
    pub fn contains_filename(&self, name: &String) -> (b: bool)
        ensures
            b == filename_known(self@, name@),
    {
        let n = self.items.len();
        let mut i: usize = 0;
        while i < n
            invariant
                n == self.items@.len(),
                self@ == pairs_view(self.items@),
                0 <= i <= n,
                forall|j: int| 0 <= j < i ==> #[trigger] self@[j].1 != name@,
            decreases n - i,
        {
            if self.items[i].1 == *name {
                assert(self@[i as int].1 == name@);
                return true;
            }
            i = i + 1;
        }
        false
    }

    /// Takes in the entries found by a scan of the asset directory: an entry
    /// is added unless an asset with its creation time is already known, and
    /// the list stays sorted by creation time.
    pub fn sync(&mut self, scanned: &Vec<(u64, String)>)
        ensures
            strictly_sorted(final(self)@),
            as_map(final(self)@) == merge_scanned(as_map(old(self)@), pairs_view(scanned@)),
            final(self)@.to_multiset() == (old(self)@ + added_entries(as_map(old(self)@), pairs_view(scanned@))).to_multiset(),
    {
        proof { use_type_invariant(&*self); }
        let ghost start = self@;
        let mut items: Vec<(u64, String)> = Vec::new();
        std::mem::swap(&mut items, &mut self.items);
        assert(pairs_view(items@) == start);
        let ghost sv = pairs_view(scanned@);
        let n = scanned.len();
        let mut i: usize = 0;
        while i < n
            invariant
                n == scanned@.len(),
                sv == pairs_view(scanned@),
                0 <= i <= n,
                strictly_sorted(pairs_view(items@)),
                as_map(pairs_view(items@)) == merge_scanned(as_map(start), sv.take(i as int)),
            decreases n - i,
        {
            let created = scanned[i].0;
            let ghost cur = pairs_view(items@);
            let len = items.len();
            let mut pos: usize = 0;
            while pos < len && items[pos].0 < created
                invariant
                    len == items@.len(),
                    cur == pairs_view(items@),
                    0 <= pos <= len,
                    forall|j: int| 0 <= j < pos ==> #[trigger] cur[j].0 < created,
                decreases len - pos,
            {
                pos = pos + 1;
            }
            assert(sv.take(i + 1).drop_last() =~= sv.take(i as int));
            assert(sv.take(i + 1).last() == sv[i as int]);
            if pos < len && items[pos].0 == created {
                proof {
                    assert(cur[pos as int].0 == created);
                    assert(has_created(cur, created));
                }
            } else {
                proof {
                    assert forall|j: int| pos <= j < cur.len() implies created < #[trigger] cur[j].0 by {
                        if j > pos {
                            assert(cur[pos as int].0 < cur[j].0);
                        }
                    }
                    assert forall|j: int| 0 <= j < cur.len() implies #[trigger] cur[j].0 != created by {
                        if j >= pos {
                            assert(created < cur[j].0);
                        }
                    }
                    assert(!has_created(cur, created));
                }
                let name = scanned[i].1.clone();
                let ghost e: AssetView = (created, name@);
                items.insert(pos, (created, name));
                proof {
                    assert(pairs_view(items@) =~= cur.insert(pos as int, e));
                    lemma_insert_sorted(cur, pos as int, e);
                }
            }
            i = i + 1;
        }
        assert(sv.take(n as int) =~= sv);
        proof { lemma_sync_keeps_and_adds(start, pairs_view(items@), sv); }
        self.items = items;
    }

    /// The listing of the assets, in order of creation, each with the address
    /// at which `host` serves it.
    pub fn listing(&self, host: &str) -> (r: Vec<AssetEntry>)
        ensures
            strictly_sorted(self@),
            r@.len() == self@.len(),
            forall|i: int|
                0 <= i < r@.len() ==> {
                    &&& (#[trigger] r@[i]).created == self@[i].0
                    &&& r@[i].filename@ == self@[i].1
                    &&& r@[i].url@ == asset_url(host@, self@[i].1)
                },
    {
        proof { use_type_invariant(self); }
        let mut r: Vec<AssetEntry> = Vec::new();
        let n = self.items.len();
        let mut i: usize = 0;
        while i < n
            invariant
                n == self.items@.len(),
                self@ == pairs_view(self.items@),
                0 <= i <= n,
                r@.len() == i,
                forall|j: int|
                    0 <= j < i ==> {
                        &&& (#[trigger] r@[j]).created == self@[j].0
                        &&& r@[j].filename@ == self@[j].1
                        &&& r@[j].url@ == asset_url(host@, self@[j].1)
                    },
            decreases n - i,
        {
            let name = &self.items[i].1;
            let mut url = String::from_str("https://");
            url.append(host);
            url.append("/");
            url.append(name.as_str());
            r.push(AssetEntry { created: self.items[i].0, filename: name.clone(), url });
            i = i + 1;
        }
        r
    }
}

/// A rescan of an unchanged directory changes nothing: taking in the same
/// scan twice gives what taking it in once gives.
pub proof fn lemma_sync_idempotent(m: Map<u64, Seq<char>>, scanned: Seq<AssetView>)
    ensures
        merge_scanned(merge_scanned(m, scanned), scanned) == merge_scanned(m, scanned),
{
    lemma_merge_covers(m, scanned);
    lemma_merge_known(merge_scanned(m, scanned), scanned);
}

/// A scan never changes the file name of a known creation time, and after it
/// every scanned creation time is known.
pub proof fn lemma_merge_covers(m: Map<u64, Seq<char>>, scanned: Seq<AssetView>)
    ensures
        forall|k: u64| m.dom().contains(k) ==> #[trigger] merge_scanned(m, scanned).dom().contains(k)
            && merge_scanned(m, scanned)[k] == m[k],
        forall|i: int| 0 <= i < scanned.len() ==> merge_scanned(m, scanned).dom().contains(#[trigger] scanned[i].0),
    decreases scanned.len(),
{
    if scanned.len() > 0 {
        let s2 = scanned.drop_last();
        lemma_merge_covers(m, s2);
        let before = merge_scanned(m, s2);
        assert forall|k: u64| m.dom().contains(k) implies #[trigger] merge_scanned(m, scanned).dom().contains(k)
            && merge_scanned(m, scanned)[k] == m[k] by {
            assert(before.dom().contains(k));
        }
        assert forall|i: int| 0 <= i < scanned.len() implies merge_scanned(m, scanned).dom().contains(#[trigger] scanned[i].0) by {
            if i < scanned.len() - 1 {
                assert(s2[i] == scanned[i]);
            }
        }
    }
}

proof fn lemma_merge_known(m: Map<u64, Seq<char>>, scanned: Seq<AssetView>)
    requires
        forall|i: int| 0 <= i < scanned.len() ==> m.dom().contains(#[trigger] scanned[i].0),
    ensures
        merge_scanned(m, scanned) == m,
    decreases scanned.len(),
{
    if scanned.len() > 0 {
        let s2 = scanned.drop_last();
        assert forall|i: int| 0 <= i < s2.len() implies m.dom().contains(#[trigger] s2[i].0) by {
            assert(s2[i] == scanned[i]);
        }
        lemma_merge_known(m, s2);
        assert(m.dom().contains(scanned[scanned.len() - 1].0));
    }
}


/// The address of a listed asset is `https://`, the host, a slash and the
/// file name, each exactly as given: the address starts with the scheme,
/// holds the host right after it, and ends with a slash and the untouched
/// file name.
pub proof fn lemma_asset_url(host: Seq<char>, filename: Seq<char>)
    ensures
        asset_url(host, filename).len() == 8 + host.len() + 1 + filename.len(),
        asset_url(host, filename).subrange(0, 8) == "https://"@,
        asset_url(host, filename).subrange(8, 8 + host.len() as int) == host,
        asset_url(host, filename)[8 + host.len() as int] == '/',
        asset_url(host, filename).subrange(asset_url(host, filename).len() - filename.len(), asset_url(host, filename).len() as int)
            == filename,
{
    reveal_strlit("https://");
    reveal_strlit("/");
    let u = asset_url(host, filename);
    assert(u.subrange(0, 8) =~= "https://"@);
    assert(u.subrange(8, 8 + host.len() as int) =~= host);
    assert(u.subrange(u.len() - filename.len(), u.len() as int) =~= filename);
}

/// In a list sorted by creation time the creation times strictly increase,
/// and the map of the list gives each listed creation time its listed name,
/// and knows no other creation time.
pub proof fn lemma_sorted_list_map(s: Seq<AssetView>)
    requires
        strictly_sorted(s),
    ensures
        forall|i: int, j: int| 0 <= i < j < s.len() ==> #[trigger] s[i].0 < #[trigger] s[j].0,
        forall|i: int| 0 <= i < s.len() ==> #[trigger] as_map(s).dom().contains(s[i].0) && as_map(s)[s[i].0] == s[i].1,
        forall|k: u64| #[trigger] as_map(s).dom().contains(k) ==> exists|i: int| 0 <= i < s.len() && s[i].0 == k,
{
    assert forall|i: int| 0 <= i < s.len() implies #[trigger] as_map(s).dom().contains(s[i].0) && as_map(s)[s[i].0] == s[i].1 by {
        lemma_map_at(s, i);
    }
}

/// What a scan does to the assets, for every scan: the creation times known
/// afterwards are those known before and those scanned; a known creation time
/// keeps its file name; a new creation time gets the name of the first
/// scanned entry that has it.
pub proof fn lemma_merge_characterized(m: Map<u64, Seq<char>>, scanned: Seq<AssetView>)
    ensures
        forall|k: u64| #[trigger] merge_scanned(m, scanned).dom().contains(k) <==> (m.dom().contains(k)
            || exists|j: int| 0 <= j < scanned.len() && scanned[j].0 == k),
        forall|k: u64| m.dom().contains(k) ==> #[trigger] merge_scanned(m, scanned)[k] == m[k],
        forall|j: int|
            0 <= j < scanned.len() && !m.dom().contains(scanned[j].0) && (forall|i: int| 0 <= i < j ==> scanned[i].0
                != scanned[j].0) ==> #[trigger] merge_scanned(m, scanned)[scanned[j].0] == scanned[j].1,
    decreases scanned.len(),
{
    if scanned.len() > 0 {
        let s2 = scanned.drop_last();
        let l = scanned.len() - 1;
        lemma_merge_characterized(m, s2);
        let before = merge_scanned(m, s2);
        assert forall|k: u64| #[trigger] merge_scanned(m, scanned).dom().contains(k) <==> (m.dom().contains(k)
            || exists|j: int| 0 <= j < scanned.len() && scanned[j].0 == k) by {
            if exists|j: int| 0 <= j < scanned.len() && scanned[j].0 == k {
                let j = choose|j: int| 0 <= j < scanned.len() && scanned[j].0 == k;
                if j < l {
                    assert(s2[j].0 == k);
                }
            }
            if before.dom().contains(k) && !m.dom().contains(k) {
                let j = choose|j: int| 0 <= j < s2.len() && s2[j].0 == k;
                assert(scanned[j].0 == k);
            }
        }
        assert forall|k: u64| m.dom().contains(k) implies #[trigger] merge_scanned(m, scanned)[k] == m[k] by {
            assert(before.dom().contains(k));
        }
        assert forall|j: int|
            0 <= j < scanned.len() && !m.dom().contains(scanned[j].0) && (forall|i: int| 0 <= i < j ==> scanned[i].0
                != scanned[j].0) implies #[trigger] merge_scanned(m, scanned)[scanned[j].0] == scanned[j].1 by {
            let k = scanned[j].0;
            if j < l {
                assert(s2[j] == scanned[j]);
                assert(forall|i: int| 0 <= i < j ==> s2[i] == scanned[i]);
                assert(before.dom().contains(k));
            } else {
                if before.dom().contains(k) {
                    let i = choose|i: int| 0 <= i < s2.len() && s2[i].0 == k;
                    assert(scanned[i].0 == k);
                }
            }
        }
    }
}

} // verus!
