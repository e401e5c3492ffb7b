//! The saved-peers directory: one name per address, kept sorted by name.
use crate::addr::PeerAddr;
use vstd::prelude::*;
use vstd::string::StringSliceAdditionalSpecFns;
use vstd::utf8::encode_utf8;

verus! {

broadcast use vstd::seq_lib::group_to_multiset_ensures;

/// A remembered peer.
#[derive(Debug, Clone)]
pub struct SavedPeer {
    pub addr: PeerAddr,
    pub name: String,
}

pub struct SavedPeerModel {
    pub addr: PeerAddr,
    pub name: Seq<char>,
}

impl View for SavedPeer {
    type V = SavedPeerModel;

    open spec fn view(&self) -> SavedPeerModel {
        SavedPeerModel { addr: self.addr, name: self.name@ }
    }
}

/// The models of a list of saved peers.
pub open spec fn models(v: Seq<SavedPeer>) -> Seq<SavedPeerModel> {
    v.map_values(|p: SavedPeer| p@)
}

/// Byte-wise lexicographic order, the order of `str`.
pub open spec fn bytes_le(a: Seq<u8>, b: Seq<u8>) -> bool
    decreases a.len(),
{
    if a.len() == 0 {
        true
    } else if b.len() == 0 {
        false
    } else if a[0] != b[0] {
        a[0] < b[0]
    } else {
        bytes_le(a.skip(1), b.skip(1))
    }
}

/// Names compare by their UTF-8 bytes.
pub open spec fn name_le(a: Seq<char>, b: Seq<char>) -> bool {
    bytes_le(encode_utf8(a), encode_utf8(b))
}

proof fn lemma_bytes_le_total(a: Seq<u8>, b: Seq<u8>)
    ensures
        bytes_le(a, b) || bytes_le(b, a),
    decreases a.len(),
{
    if a.len() > 0 && b.len() > 0 && a[0] == b[0] {
        lemma_bytes_le_total(a.skip(1), b.skip(1));
    }
}

proof fn lemma_bytes_le_refl(a: Seq<u8>)
    ensures
        bytes_le(a, a),
    decreases a.len(),
{
    if a.len() > 0 {
        lemma_bytes_le_refl(a.skip(1));
    }
}

proof fn lemma_bytes_le_trans(a: Seq<u8>, b: Seq<u8>, c: Seq<u8>)
    requires
        bytes_le(a, b),
        bytes_le(b, c),
    ensures
        bytes_le(a, c),
    decreases a.len(),
{
    if a.len() > 0 && b.len() > 0 && c.len() > 0 && a[0] == b[0] && b[0] == c[0] {
        lemma_bytes_le_trans(a.skip(1), b.skip(1), c.skip(1));
    }
}

/// Compares two names in byte order.
fn name_at_most(a: &str, b: &str) -> (r: bool)
    ensures
        r == name_le(a@, b@),
{
    let x = a.as_bytes();
    let y = b.as_bytes();
    let mut i: usize = 0;
    assert(x@.skip(0) =~= x@);
    assert(y@.skip(0) =~= y@);
    while i < x.len() && i < y.len() && x[i] == y[i]
        invariant
            i <= x@.len(),
            i <= y@.len(),
            x@ == encode_utf8(a@),
            y@ == encode_utf8(b@),
            bytes_le(x@, y@) == bytes_le(x@.skip(i as int), y@.skip(i as int)),
        decreases x@.len() - i,
    {
        assert(x@.skip(i as int).skip(1) =~= x@.skip(i + 1));
        assert(y@.skip(i as int).skip(1) =~= y@.skip(i + 1));
        i = i + 1;
    }
    if i == x.len() {
        true
    } else if i == y.len() {
        false
    } else {
        x[i] < y[i]
    }
}

pub open spec fn sorted_by_name(s: Seq<SavedPeerModel>) -> bool {
    forall|i: int, j: int| 0 <= i < j < s.len() ==> name_le(#[trigger] s[i].name, #[trigger] s[j].name)
}

/// `i` is the first position of `s` whose address is `a`.
pub open spec fn first_with_addr(s: Seq<SavedPeerModel>, a: PeerAddr, i: int) -> bool {
    &&& 0 <= i < s.len()
    &&& s[i].addr == a
    &&& forall|k: int| 0 <= k < i ==> s[k].addr != a
}

/// No two entries share an address.
pub open spec fn unique_addrs(s: Seq<SavedPeerModel>) -> bool {
    forall|i: int, j: int| 0 <= i < j < s.len() ==> (#[trigger] s[i]).addr != (#[trigger] s[j]).addr
}

/// `e` is the first entry of `all`, among its first `n`, that has its address.
pub open spec fn kept(all: Seq<SavedPeerModel>, n: int, e: SavedPeerModel) -> bool {
    exists|i: int| 0 <= i < n && #[trigger] first_with_addr(all, e.addr, i) && all[i] == e
}

/// `r` is `s` with `e` inserted somewhere.
pub open spec fn inserted(s: Seq<SavedPeerModel>, e: SavedPeerModel, r: Seq<SavedPeerModel>) -> bool {
    exists|j: int| 0 <= j <= s.len() && r == s.insert(j, e)
}

/// The saved-peers list. Invariant: sorted by name, one entry per address.
pub struct SavedPeersStore {
    peers: Vec<SavedPeer>,
}

impl View for SavedPeersStore {
    type V = Seq<SavedPeerModel>;

    closed spec fn view(&self) -> Seq<SavedPeerModel> {
        models(self.peers@)
    }
}

/// Inserts `e` after every entry whose name is at most its own.
fn insert_sorted(v: &mut Vec<SavedPeer>, e: SavedPeer)
    requires
        sorted_by_name(models(old(v)@)),
    ensures
        sorted_by_name(models(final(v)@)),
        unique_addrs(models(old(v)@)) && (forall|k: int|
            0 <= k < old(v)@.len() ==> (#[trigger] old(v)@[k]).addr != e.addr) ==> unique_addrs(
            models(final(v)@),
        ),
        inserted(
            models(old(v)@),
            e@,
            models(final(v)@),
        ),
{
    let ghost before = models(v@);
    let mut j: usize = 0;
    while j < v.len() && name_at_most(v[j].name.as_str(), e.name.as_str())
        invariant
            j <= v@.len(),
            before == models(v@),
            forall|k: int| 0 <= k < j ==> name_le(#[trigger] v@[k].name@, e.name@),
        decreases v@.len() - j,
    {
        j = j + 1;
    }
    proof {
        if j < v@.len() {
            lemma_bytes_le_total(encode_utf8(v@[j as int].name@), encode_utf8(e.name@));
        }
    }
    let ghost em = e@;
    v.insert(j, e);
    let ghost after = models(v@);
    assert(after =~= before.insert(j as int, em));
    assert forall|p: int, q: int| 0 <= p < q < after.len() implies name_le(
        #[trigger] after[p].name,
        #[trigger] after[q].name,
    ) by {
        if q < j {
        } else if q == j {
        } else {
            let bj = before[j as int].name;
            let bq = before[q - 1].name;
            if q - 1 > j {
                assert(name_le(before[j as int].name, before[q - 1].name));
            } else {
                lemma_bytes_le_refl(encode_utf8(bj));
            }
            assert(name_le(bj, bq));
            if p < j {
                lemma_bytes_le_trans(encode_utf8(after[p].name), encode_utf8(em.name), encode_utf8(bj));
                lemma_bytes_le_trans(encode_utf8(after[p].name), encode_utf8(bj), encode_utf8(bq));
            } else if p == j {
                lemma_bytes_le_trans(encode_utf8(em.name), encode_utf8(bj), encode_utf8(bq));
            } else {
                assert(name_le(before[p - 1].name, before[q - 1].name));
            }
        }
    }
    proof {
        if unique_addrs(before) && (forall|k: int| 0 <= k < old(v)@.len() ==> (#[trigger] old(v)@[k]).addr != em.addr) {
            assert forall|p: int, q: int| 0 <= p < q < after.len() implies (#[trigger] after[p]).addr
                != (#[trigger] after[q]).addr by {
                if p == j {
                    assert(old(v)@[q - 1].addr != em.addr);
                } else if q == j {
                    assert(old(v)@[p].addr != em.addr);
                } else if q < j {
                    assert(before[p].addr != before[q].addr);
                } else if p < j {
                    assert(before[p].addr != before[q - 1].addr);
                } else {
                    assert(before[p - 1].addr != before[q - 1].addr);
                }
            }
        }
    }
}

/// The position of the first entry with address `addr`, or the length.
fn find_addr(v: &Vec<SavedPeer>, addr: PeerAddr) -> (r: usize)
    ensures
        r <= v@.len(),
        forall|k: int| 0 <= k < r ==> (#[trigger] v@[k]).addr != addr,
        r < v@.len() ==> v@[r as int].addr == addr,
{
    let mut i: usize = 0;
    while i < v.len() && v[i].addr != addr
        invariant
            i <= v@.len(),
            forall|k: int| 0 <= k < i ==> (#[trigger] v@[k]).addr != addr,
        decreases v@.len() - i,
    {
        i = i + 1;
    }
    i
}

impl SavedPeersStore {
    /// A store over the loaded list, sorted by name; of entries sharing an
    /// address, the first is kept.
    pub fn new(loaded: Vec<SavedPeer>) -> (r: SavedPeersStore)
        ensures
            r.wf(),
            forall|e: SavedPeerModel| #[trigger] r@.contains(e) <==> kept(
                models(loaded@),
                loaded@.len() as int,
                e,
            ),
    {
        let mut peers: Vec<SavedPeer> = Vec::new();
        let ghost all = models(loaded@);
        let mut i: usize = 0;
        while i < loaded.len()
            invariant
                i <= loaded@.len(),
                all == models(loaded@),
                sorted_by_name(models(peers@)),
                unique_addrs(models(peers@)),
                forall|e: SavedPeerModel| #[trigger] models(peers@).contains(e)
                    <==> kept(all, i as int, e),
                forall|j: int| 0 <= j < i ==> exists|k: int| 0 <= k < peers@.len() && (#[trigger] peers@[k]).addr == #[trigger] all[j].addr,
            decreases loaded@.len() - i,
        {
            let ghost pm = models(peers@);
            let x = SavedPeer { addr: loaded[i].addr, name: loaded[i].name.clone() };
            assert(x@ == all[i as int]);
            let at = find_addr(&peers, x.addr);
            if at < peers.len() {
                proof {
                    assert(pm.contains(pm[at as int]));
                    let e = pm[at as int];
                    assert(kept(all, i as int, e));
                    let i0 = choose|i0: int| 0 <= i0 < i && #[trigger] first_with_addr(all, e.addr, i0) && all[i0] == e;
                    assert(!first_with_addr(all, x.addr, i as int)) by {
                        assert(all[i0].addr == x.addr);
                    }
                    assert forall|f: SavedPeerModel| #[trigger] pm.contains(f) <==> kept(all, i + 1, f) by {
                        if kept(all, i + 1, f) {
                            let i1 = choose|i1: int| 0 <= i1 < i + 1 && #[trigger] first_with_addr(all, f.addr, i1) && all[i1] == f;
                            if i1 == i {
                                assert(f.addr == x.addr);
                            }
                            assert(kept(all, i as int, f));
                        }
                        if kept(all, i as int, f) {
                            let i1 = choose|i1: int| 0 <= i1 < i && #[trigger] first_with_addr(all, f.addr, i1) && all[i1] == f;
                            assert(0 <= i1 < i + 1 && first_with_addr(all, f.addr, i1) && all[i1] == f);
                        }
                    }
                    assert forall|j: int| 0 <= j < i + 1 implies exists|k: int| 0 <= k < peers@.len() && (#[trigger] peers@[k]).addr == #[trigger] all[j].addr by {
                        if j == i {
                            assert(peers@[at as int].addr == all[j].addr);
                        }
                    }
                }
            } else {
                proof {
                    assert forall|k: int| 0 <= k < peers@.len() implies (#[trigger] peers@[k]).addr != x.addr by {}
                    assert(first_with_addr(all, x.addr, i as int)) by {
                        assert forall|j: int| 0 <= j < i implies all[j].addr != x.addr by {
                            if all[j].addr == x.addr {
                                let k = choose|k: int| 0 <= k < peers@.len() && (#[trigger] peers@[k]).addr == #[trigger] all[j].addr;
                            }
                        }
                    }
                }
                let ghost xm = x@;
                let ghost old_peers = peers@;
                insert_sorted(&mut peers, x);
                proof {
                    let npm = models(peers@);
                    let jj = choose|jj: int| 0 <= jj <= pm.len() && npm == pm.insert(jj, xm);
                    assert(npm[jj] == xm);
                    assert forall|f: SavedPeerModel| #[trigger] npm.contains(f) <==> kept(all, i + 1, f) by {
                        if npm.contains(f) {
                            let w = choose|w: int| 0 <= w < npm.len() && npm[w] == f;
                            if w < jj {
                                assert(pm[w] == f);
                                assert(pm.contains(f));
                            } else if w > jj {
                                assert(pm[w - 1] == f);
                                assert(pm.contains(f));
                            } else {
                                assert(first_with_addr(all, f.addr, i as int) && all[i as int] == f);
                            }
                            if f != xm {
                                let i1 = choose|i1: int| 0 <= i1 < i && #[trigger] first_with_addr(all, f.addr, i1) && all[i1] == f;
                                assert(0 <= i1 < i + 1 && first_with_addr(all, f.addr, i1) && all[i1] == f);
                            }
                        }
                        if kept(all, i + 1, f) {
                            let i1 = choose|i1: int| 0 <= i1 < i + 1 && #[trigger] first_with_addr(all, f.addr, i1) && all[i1] == f;
                            if i1 == i {
                                assert(f == xm);
                            } else {
                                assert(kept(all, i as int, f));
                                assert(pm.contains(f));
                                let w = choose|w: int| 0 <= w < pm.len() && pm[w] == f;
                                if w < jj {
                                    assert(npm[w] == f);
                                } else {
                                    assert(npm[w + 1] == f);
                                }
                            }
                        }
                    }
                    assert forall|j: int| 0 <= j < i + 1 implies exists|k: int| 0 <= k < peers@.len() && (#[trigger] peers@[k]).addr == #[trigger] all[j].addr by {
                        if j == i {
                            assert(peers@[jj].addr == all[j].addr);
                        } else {
                            let k = choose|k: int| 0 <= k < old_peers.len() && (#[trigger] old_peers[k]).addr == #[trigger] all[j].addr;
                            assert(pm[k] == old_peers[k]@);
                            if k < jj {
                                assert(npm[k] == pm[k]);
                                assert(peers@[k]@ == npm[k]);
                                assert(peers@[k].addr == all[j].addr);
                            } else {
                                assert(npm[k + 1] == pm[k]);
                                assert(peers@[k + 1]@ == npm[k + 1]);
                                assert(peers@[k + 1].addr == all[j].addr);
                            }
                        }
                    }
                }
            }
            i = i + 1;
        }
        SavedPeersStore { peers }
    }

    /// A snapshot of the list.
    pub fn list(&self) -> (r: Vec<SavedPeer>)
        ensures
            models(r@) == self@,
    {
        let mut out: Vec<SavedPeer> = Vec::new();
        let mut i: usize = 0;
        while i < self.peers.len()
            invariant
                i <= self.peers@.len(),
                out@.len() == i,
                forall|k: int| 0 <= k < i ==> (#[trigger] out@[k])@ == self.peers@[k]@,
            decreases self.peers@.len() - i,
        {
            let p = SavedPeer { addr: self.peers[i].addr, name: self.peers[i].name.clone() };
            out.push(p);
            i = i + 1;
        }
        assert(models(out@) =~= self@);
        out
    }

    pub closed spec fn wf(&self) -> bool {
        sorted_by_name(self@) && unique_addrs(self@)
    }

    /// Records `name` for `addr`: the entry with that address is replaced,
    /// or a new entry is added; the list stays sorted by name.
    /// Returns the new list.
    pub fn record(&mut self, addr: PeerAddr, name: &str) -> (r: Vec<SavedPeer>)
        requires
            old(self).wf(),
        ensures
            final(self).wf(),
            models(r@) == final(self)@,
            (forall|k: int| 0 <= k < old(self)@.len() ==> old(self)@[k].addr != addr) ==> inserted(
                old(self)@,
                SavedPeerModel { addr, name: name@ },
                final(self)@,
            ),
            forall|i: int| first_with_addr(old(self)@, addr, i) ==> inserted(
                old(self)@.remove(i),
                SavedPeerModel { addr, name: name@ },
                final(self)@,
            ),
    {
        let ghost before = self@;
        let i = find_addr(&self.peers, addr);
        if i < self.peers.len() {
            assert(first_with_addr(before, addr, i as int));
            self.peers.remove(i);
            assert(self@ =~= before.remove(i as int));
            assert forall|j: int| first_with_addr(before, addr, j) implies j == i by {
                if j < i {
                } else if j > i {
                    assert(before[i as int].addr == addr);
                }
            }
            assert forall|k: int| 0 <= k < self.peers@.len() implies (#[trigger] self.peers@[k]).addr != addr by {
                if k < i {
                    assert(before[k].addr != addr);
                } else {
                    assert(before[k + 1].addr != before[i as int].addr);
                }
            }
            assert forall|p: int, q: int| 0 <= p < q < self@.len() implies (#[trigger] self@[p]).addr
                != (#[trigger] self@[q]).addr by {
                if q < i {
                    assert(before[p].addr != before[q].addr);
                } else if p < i {
                    assert(before[p].addr != before[q + 1].addr);
                } else {
                    assert(before[p + 1].addr != before[q + 1].addr);
                }
            }
        } else {
            assert(self@ == before);
        }
        let e = SavedPeer { addr, name: name.to_owned() };
        insert_sorted(&mut self.peers, e);
        self.list()
    }
}

proof fn lemma_insert_multiset(s: Seq<SavedPeerModel>, j: int, e: SavedPeerModel)
    requires
        0 <= j <= s.len(),
    ensures
        s.insert(j, e).to_multiset() == s.to_multiset().insert(e),
{
    let t = s.insert(j, e);
    assert(t.remove(j) =~= s);
    assert(t[j] == e);
    assert(t.to_multiset().remove(e) == s.to_multiset());
    assert(t.to_multiset().contains(e)) by {
        assert(t.contains(e));
    }
    assert(t.to_multiset() =~= s.to_multiset().insert(e));
}

/// Recording the same address twice keeps one entry for it, under the last
/// name: starting from an empty list, the list then holds exactly that entry.
pub proof fn lemma_record_twice(a: PeerAddr, n1: Seq<char>, n2: Seq<char>, mid: Seq<SavedPeerModel>, last: Seq<SavedPeerModel>)
    requires
        inserted(Seq::empty(), SavedPeerModel { addr: a, name: n1 }, mid),
        forall|i: int| first_with_addr(mid, a, i) ==> inserted(
            mid.remove(i),
            SavedPeerModel { addr: a, name: n2 },
            last,
        ),
    ensures
        last.len() == 1,
        last[0] == (SavedPeerModel { addr: a, name: n2 }),
{
    let j = choose|j: int| 0 <= j <= 0 && mid == Seq::<SavedPeerModel>::empty().insert(j, SavedPeerModel { addr: a, name: n1 });
    assert(mid.len() == 1);
    assert(mid[0].addr == a);
    assert(first_with_addr(mid, a, 0));
    assert(mid.remove(0) =~= Seq::<SavedPeerModel>::empty());
}

} // verus!
