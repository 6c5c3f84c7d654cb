use vstd::prelude::*;

use crate::model::{descriptor_views, Descriptor, DescriptorView, Hardware, HardwareError, HardwareKind};

verus! {

/// One device in a backend's index: what is exported of it, its kind, and the
/// backend's own handle to reach it.
pub struct Entry<H> {
    pub descriptor: Descriptor,
    pub kind: HardwareKind,
    pub handle: H,
}

/// The mathematical content of an entry.
pub struct EntryView<H> {
    pub descriptor: DescriptorView,
    pub kind: HardwareKind,
    pub handle: H,
}

impl<H> View for Entry<H> {
    type V = EntryView<H>;

    open spec fn view(&self) -> EntryView<H> {
        EntryView { descriptor: self.descriptor@, kind: self.kind, handle: self.handle }
    }
}

/// Position of the first entry at or after `i` whose id is `id`, or -1.
pub open spec fn find_from<H>(s: Seq<EntryView<H>>, id: Seq<char>, i: int) -> int
    decreases s.len() - i,
{
    if i < 0 || i >= s.len() {
        -1
    } else if s[i].descriptor.id == id {
        i
    } else {
        find_from(s, id, i + 1)
    }
}

/// Position of the first entry whose id is `id`, or -1.
pub open spec fn find<H>(s: Seq<EntryView<H>>, id: Seq<char>) -> int {
    find_from(s, id, 0)
}

/// Whether some entry has the id `id`.
pub open spec fn contains_id<H>(s: Seq<EntryView<H>>, id: Seq<char>) -> bool {
    exists|i: int| 0 <= i < s.len() && #[trigger] s[i].descriptor.id == id
}

/// `s` with `e` inserted: an entry with the same id is replaced in place,
/// otherwise `e` is appended.
pub open spec fn inserted<H>(s: Seq<EntryView<H>>, e: EntryView<H>) -> Seq<EntryView<H>> {
    let p = find(s, e.descriptor.id);
    if p >= 0 {
        s.update(p, e)
    } else {
        s.push(e)
    }
}

/// The index that results from inserting `devs` in order into an empty one.
pub open spec fn index_of<H>(devs: Seq<EntryView<H>>) -> Seq<EntryView<H>>
    decreases devs.len(),
{
    if devs.len() == 0 {
        Seq::empty()
    } else {
        inserted(index_of(devs.drop_last()), devs.last())
    }
}

/// Position of the last device in `devs` whose id is `id`, or -1.
pub open spec fn last_with_id<H>(devs: Seq<EntryView<H>>, id: Seq<char>) -> int
    decreases devs.len(),
{
    if devs.len() == 0 {
        -1
    } else if devs.last().descriptor.id == id {
        devs.len() - 1
    } else {
        last_with_id(devs.drop_last(), id)
    }
}

/// No two entries share an id.
pub open spec fn ids_unique<H>(s: Seq<EntryView<H>>) -> bool {
    forall|i: int, j: int|
        0 <= i < s.len() && 0 <= j < s.len() && i != j ==> #[trigger] s[i].descriptor.id
            != #[trigger] s[j].descriptor.id
}

/// Every entry carries a non-empty diagnostic text.
pub open spec fn infos_nonempty<H>(s: Seq<EntryView<H>>) -> bool {
    forall|i: int| 0 <= i < s.len() ==> (#[trigger] s[i]).descriptor.info.len() > 0
}

/// The descriptors of the entries of kind `k`, in index order.
pub open spec fn of_kind<H>(s: Seq<EntryView<H>>, k: HardwareKind) -> Seq<DescriptorView>
    decreases s.len(),
{
    if s.len() == 0 {
        Seq::empty()
    } else if s.last().kind == k {
        of_kind(s.drop_last(), k).push(s.last().descriptor)
    } else {
        of_kind(s.drop_last(), k)
    }
}

proof fn lemma_find_from<H>(s: Seq<EntryView<H>>, id: Seq<char>, i: int)
    requires
        0 <= i <= s.len(),
    ensures
        find_from(s, id, i) == -1 <==> (forall|j: int| i <= j < s.len() ==> s[j].descriptor.id != id),
        find_from(s, id, i) != -1 ==> i <= find_from(s, id, i) < s.len() && s[find_from(s, id, i)].descriptor.id == id
            && (forall|j: int| i <= j < find_from(s, id, i) ==> s[j].descriptor.id != id),
    decreases s.len() - i,
{
    if i < s.len() {
        lemma_find_from(s, id, i + 1);
    }
}

/// What `find` returns: the first position with the id, or -1 when there is none.
pub proof fn lemma_find<H>(s: Seq<EntryView<H>>, id: Seq<char>)
    ensures
        find(s, id) == -1 <==> !contains_id(s, id),
        find(s, id) != -1 ==> 0 <= find(s, id) < s.len() && s[find(s, id)].descriptor.id == id
            && (forall|j: int| 0 <= j < find(s, id) ==> s[j].descriptor.id != id),
{
    lemma_find_from(s, id, 0);
    if find(s, id) == -1 {
        assert forall|i: int| 0 <= i < s.len() implies s[i].descriptor.id != id by {}
    } else {
        assert(s[find(s, id)].descriptor.id == id);
    }
}

/// Inserting `e` moves nothing that another id finds, and makes `e` what its own id finds.
proof fn lemma_find_inserted<H>(s: Seq<EntryView<H>>, e: EntryView<H>, id: Seq<char>)
    ensures
        e.descriptor.id == id ==> 0 <= find(inserted(s, e), id) && inserted(s, e)[find(inserted(s, e), id)] == e,
        e.descriptor.id != id ==> find(inserted(s, e), id) == find(s, id),
        e.descriptor.id != id && find(s, id) >= 0 ==> inserted(s, e)[find(s, id)] == s[find(s, id)],
{
    let t = inserted(s, e);
    let p = find(s, e.descriptor.id);
    lemma_find(s, id);
    lemma_find(s, e.descriptor.id);
    lemma_find(t, id);
    if e.descriptor.id == id {
        let target = if p >= 0 { p } else { s.len() as int };
        assert(t[target] == e);
        assert forall|j: int| 0 <= j < target implies t[j].descriptor.id != id by {
            assert(t[j] == s[j]);
        }
        assert(find(t, id) == target);
    } else {
        assert forall|j: int| 0 <= j < t.len() implies (t[j].descriptor.id == id <==> (j < s.len()
            && s[j].descriptor.id == id)) by {
            if j != p && j < s.len() {
                assert(t[j] == s[j]);
            }
        }
        if find(s, id) == -1 {
            if find(t, id) != -1 {
                assert(t[find(t, id)].descriptor.id == id);
            }
        } else {
            let q = find(s, id);
            assert(t[q] == s[q]);
            assert(t[q].descriptor.id == id);
            if find(t, id) != q {
                assert(t[find(t, id)].descriptor.id == id);
            }
        }
    }
}

proof fn lemma_last_with_id<H>(devs: Seq<EntryView<H>>, id: Seq<char>)
    ensures
        -1 <= last_with_id(devs, id) < devs.len(),
        last_with_id(devs, id) >= 0 ==> devs[last_with_id(devs, id)].descriptor.id == id,
    decreases devs.len(),
{
    if devs.len() > 0 {
        lemma_last_with_id(devs.drop_last(), id);
    }
}

/// Two distinct devices with one id: the index keeps the one inserted last,
/// and nothing else answers to that id.
pub proof fn lemma_last_wins<H>(devs: Seq<EntryView<H>>, id: Seq<char>)
    ensures
        find(index_of(devs), id) >= 0 <==> last_with_id(devs, id) >= 0,
        last_with_id(devs, id) >= 0 ==> index_of(devs)[find(index_of(devs), id)] == devs[last_with_id(devs, id)],
    decreases devs.len(),
{
    lemma_find(index_of(devs), id);
    lemma_last_with_id(devs, id);
    if devs.len() > 0 {
        let rest = devs.drop_last();
        lemma_last_wins(rest, id);
        lemma_find_inserted(index_of(rest), devs.last(), id);
        lemma_find(index_of(rest), id);
    }
}

/// Inserting keeps the ids of an index unique.
proof fn lemma_inserted_unique<H>(s: Seq<EntryView<H>>, e: EntryView<H>)
    requires
        ids_unique(s),
    ensures
        ids_unique(inserted(s, e)),
{
    lemma_find(s, e.descriptor.id);
    let t = inserted(s, e);
    assert forall|i: int, j: int|
        0 <= i < t.len() && 0 <= j < t.len() && i != j implies #[trigger] t[i].descriptor.id
        != #[trigger] t[j].descriptor.id by {
        if find(s, e.descriptor.id) == -1 {
            if i == s.len() {
                assert(s[j].descriptor.id != e.descriptor.id);
            } else if j == s.len() {
                assert(s[i].descriptor.id != e.descriptor.id);
            }
        }
    }
}

/// Every descriptor exported for kind `k` is the descriptor of some entry of that kind.
pub proof fn lemma_of_kind_from_entries<H>(s: Seq<EntryView<H>>, k: HardwareKind, j: int)
    requires
        0 <= j < of_kind(s, k).len(),
    ensures
        exists|i: int| 0 <= i < s.len() && s[i].kind == k && #[trigger] s[i].descriptor == of_kind(s, k)[j],
    decreases s.len(),
{
    let rest = s.drop_last();
    if s.last().kind == k && j == of_kind(s, k).len() - 1 {
        assert(s[s.len() - 1].descriptor == of_kind(s, k)[j]);
    } else {
        lemma_of_kind_from_entries(rest, k, j);
        let i = choose|i: int| 0 <= i < rest.len() && rest[i].kind == k && #[trigger] rest[i].descriptor == of_kind(rest, k)[j];
        assert(s[i].descriptor == of_kind(s, k)[j]);
    }
}

/// The index of one discovery pass: entries keyed by a unique id.
pub struct DeviceIndex<H> {
    entries: Vec<Entry<H>>,
}

impl<H> View for DeviceIndex<H> {
    type V = Seq<EntryView<H>>;

    closed spec fn view(&self) -> Seq<EntryView<H>> {
        self.entries@.map_values(|e: Entry<H>| e@)
    }
}

impl<H> DeviceIndex<H> {
    /// The well-formedness of an index: ids unique and every text present.
    pub open spec fn wf(&self) -> bool {
        ids_unique(self@) && infos_nonempty(self@)
    }

    /// An empty index.
    pub fn new() -> (r: DeviceIndex<H>)
        ensures
            r@ == Seq::<EntryView<H>>::empty(),
            r.wf(),
    {
        let r = DeviceIndex { entries: Vec::new() };
        assert(r@ =~= Seq::<EntryView<H>>::empty());
        r
    }

    /// The position of the entry with the id `key`.
    pub fn position(&self, key: &String) -> (r: Option<usize>)
        ensures
            match r {
                Some(p) => p as int == find(self@, key@),
                None => find(self@, key@) == -1,
            },
    {
        let mut i: usize = 0;
        while i < self.entries.len()
            invariant
                0 <= i <= self.entries@.len(),
                find(self@, key@) == find_from(self@, key@, i as int),
            decreases self.entries@.len() - i,
        {
            if self.entries[i].descriptor.id == *key {
                return Some(i);
            }
            i += 1;
        }
        None
    }

    /// The entry at position `p`.
    pub fn entry(&self, p: usize) -> (r: &Entry<H>)
        requires
            p < self@.len(),
        ensures
            r@ == self@[p as int],
    {
        &self.entries[p]
    }

    /// Inserts `e`; an entry with the same id is replaced (the later one wins).
    pub fn insert(&mut self, e: Entry<H>)
        requires
            e.descriptor.info@.len() > 0,
            old(self).wf(),
        ensures
            final(self)@ == inserted(old(self)@, e@),
            final(self).wf(),
    {
        let ghost before = self@;
        let ghost ev = e@;
        proof {
            lemma_find(before, ev.descriptor.id);
        }
        match self.position(&e.descriptor.id) {
            Some(p) => {
                self.entries.set(p, e);
                assert(self@ =~= before.update(p as int, ev));
            },
            None => {
                self.entries.push(e);
                assert(self@ =~= before.push(ev));
            },
        }
        proof {
            lemma_inserted_unique(before, ev);
            assert(infos_nonempty(self@));
        }
    }

    /// The exported snapshot: one fresh descriptor per entry, grouped by kind.
    pub fn snapshot(&self) -> (r: Hardware)
        ensures
            descriptor_views(r.controls@) == of_kind(self@, HardwareKind::Control),
            descriptor_views(r.fans@) == of_kind(self@, HardwareKind::Fan),
            descriptor_views(r.temps@) == of_kind(self@, HardwareKind::Temp),
    {
        let mut hw = Hardware::new();
        let mut i: usize = 0;
        while i < self.entries.len()
            invariant
                0 <= i <= self.entries@.len(),
                descriptor_views(hw.controls@) == of_kind(self@.take(i as int), HardwareKind::Control),
                descriptor_views(hw.fans@) == of_kind(self@.take(i as int), HardwareKind::Fan),
                descriptor_views(hw.temps@) == of_kind(self@.take(i as int), HardwareKind::Temp),
            decreases self.entries@.len() - i,
        {
            let e = &self.entries[i];
            let d = e.descriptor.duplicate();
            proof {
                assert(self@.take(i + 1).drop_last() =~= self@.take(i as int));
                assert(self@.take(i + 1).last() == e@);
            }
            match e.kind {
                HardwareKind::Control => {
                    let ghost before = hw.controls@;
                    hw.controls.push(d);
                    assert(descriptor_views(hw.controls@) =~= descriptor_views(before).push(d@));
                },
                HardwareKind::Fan => {
                    let ghost before = hw.fans@;
                    hw.fans.push(d);
                    assert(descriptor_views(hw.fans@) =~= descriptor_views(before).push(d@));
                },
                HardwareKind::Temp => {
                    let ghost before = hw.temps@;
                    hw.temps.push(d);
                    assert(descriptor_views(hw.temps@) =~= descriptor_views(before).push(d@));
                },
            }
            i += 1;
        }
        assert(self@.take(self.entries@.len() as int) =~= self@);
        hw
    }
}


/// Every id in an exported snapshot is found in the index, at an entry whose
/// diagnostic text is not empty.
pub proof fn lemma_snapshot_describable<H>(s: Seq<EntryView<H>>, k: HardwareKind, j: int)
    requires
        infos_nonempty(s),
        0 <= j < of_kind(s, k).len(),
    ensures
        0 <= find(s, of_kind(s, k)[j].id) < s.len(),
        s[find(s, of_kind(s, k)[j].id)].descriptor.info.len() > 0,
{
    lemma_of_kind_from_entries(s, k, j);
    let i = choose|i: int| 0 <= i < s.len() && s[i].kind == k && #[trigger] s[i].descriptor == of_kind(s, k)[j];
    lemma_find(s, of_kind(s, k)[j].id);
    assert(contains_id(s, of_kind(s, k)[j].id)) by {
        assert(s[i].descriptor.id == of_kind(s, k)[j].id);
    }
}

impl<H> DeviceIndex<H> {
    /// The diagnostic text of the device `hardware_id`.
    pub fn info(&self, hardware_id: &str) -> (r: Result<String, HardwareError>)
        ensures
            find(self@, hardware_id@) == -1 ==> r == Err::<String, HardwareError>(HardwareError::IdNotFound),
            find(self@, hardware_id@) != -1 ==> r is Ok && r->Ok_0@ == self@[find(self@, hardware_id@)].descriptor.info,
    {
        let key = String::from_str(hardware_id);
        match self.position(&key) {
            Some(p) => {
                proof {
                    lemma_find(self@, key@);
                }
                Ok(self.entry(p).descriptor.info.clone())
            },
            None => Err(HardwareError::IdNotFound),
        }
    }
}


impl<H> DeviceIndex<H> {
    /// The number of entries.
    pub fn len(&self) -> (r: usize)
        ensures
            r == self@.len(),
    {
        self.entries.len()
    }
}

} // verus!
